//! Extra request header fields, given as text with one `Name: value` per line.

use vstd::prelude::*;

use vstd::string::StringSliceAdditionalSpecFns;
use vstd::utf8::{
    decode_utf8, decode_utf8_encode_utf8, decode_utf8_split, encode_utf8, encode_utf8_decode_utf8,
    encode_utf8_valid_utf8, is_char_boundary, is_char_boundary_iff_not_is_continuation_byte,
    is_char_boundary_start_end_of_seq, is_ascii_chars, is_ascii_chars_encode_utf8, valid_utf8,
    valid_utf8_split,
};

use crate::text::{
    chars_of, find_first, is_white_space, lemma_find_first, lemma_trim_cut, lemma_trim_ends, line_ranges, lines, pieces, string_of,
    trim, trim_range,
};

verus! {

/// A line that can be read as a header field: it holds a colon, and, with `p`
/// the number of characters before its first colon, the line's UTF-8 bytes can
/// be cut after `p` bytes and after `p + 1` bytes without splitting a character.
/// (When only ASCII stands before the colon, the cuts fall right before and
/// right after it.)
pub open spec fn header_line_ok(line: Seq<char>) -> bool {
    match find_first(line, ':') {
        Some(p) => is_char_boundary(encode_utf8(line), p) && is_char_boundary(encode_utf8(line), p + 1),
        None => false,
    }
}

/// Header text whose every line can be read as a header field.
pub open spec fn header_text_ok(s: Seq<char>) -> bool {
    forall|k: int| 0 <= k < lines(s).len() ==> header_line_ok(#[trigger] lines(s)[k])
}

/// The field a line gives. With `p` the number of characters before the
/// first colon, the name is the first `p` bytes of the line and the value the
/// bytes after the first `p + 1`, trimmed of white space; when only ASCII
/// stands before the colon, that is the text before and after the colon. A
/// line that starts with its colon gives none.
pub open spec fn header_of_line(line: Seq<char>) -> Option<(Seq<char>, Seq<char>)> {
    match find_first(line, ':') {
        Some(p) => if p > 0 {
            let b = encode_utf8(line);
            Some((decode_utf8(b.subrange(0, p)), trim(decode_utf8(b.subrange(p + 1, b.len() as int)))))
        } else {
            None
        },
        None => None,
    }
}

/// The fields that a list of lines gives, in order.
pub open spec fn header_fields_of(ls: Seq<Seq<char>>) -> Seq<(Seq<char>, Seq<char>)>
    decreases ls.len(),
{
    if ls.len() == 0 {
        seq![]
    } else {
        let before = header_fields_of(ls.drop_last());
        match header_of_line(ls.last()) {
            Some(f) => before.push(f),
            None => before,
        }
    }
}

/// The fields of a header text.
pub open spec fn header_fields_spec(s: Seq<char>) -> Seq<(Seq<char>, Seq<char>)> {
    header_fields_of(lines(s))
}

/// A field as header text gives it: a non-empty name without a colon, and a
/// value with no white space at either end.
pub open spec fn field_shaped(f: (Seq<char>, Seq<char>)) -> bool {
    &&& f.0.len() > 0
    &&& forall|j: int| 0 <= j < f.0.len() ==> f.0[j] != ':'
    &&& f.1.len() > 0 ==> !is_white_space(f.1[0]) && !is_white_space(f.1.last())
}

/// A UTF-8 encoding has at least as many bytes as the text has characters.
proof fn lemma_encode_len(s: Seq<char>)
    ensures
        encode_utf8(s).len() >= s.len(),
    decreases s.len(),
{
    if s.len() > 0 {
        lemma_encode_len(s.drop_first());
    }
}

/// The name a line gives is a non-empty piece of the text before its colon.
proof fn lemma_name_before_colon(line: Seq<char>)
    requires
        header_line_ok(line),
        header_of_line(line) is Some,
    ensures
        ({
            let name = (header_of_line(line)->0).0;
            &&& name.len() > 0
            &&& forall|j: int| 0 <= j < name.len() ==> name[j] != ':'
        }),
{
    broadcast use encode_utf8_valid_utf8, encode_utf8_decode_utf8;

    let p = find_first(line, ':')->0;
    lemma_find_first(line, ':');
    let b = encode_utf8(line);
    let head = b.subrange(0, p);
    let name = decode_utf8(head);
    decode_utf8_split(b, p);
    valid_utf8_split(b, p);
    decode_utf8_encode_utf8(head);
    lemma_encode_len(name);
    assert(line == name + decode_utf8(b.subrange(p, b.len() as int)));
    assert forall|j: int| 0 <= j < name.len() implies name[j] != ':' by {
        assert(name[j] == line[j]);
    }
    if name.len() == 0 {
        assert(encode_utf8(name) =~= seq![]);
    }
}

/// Every field of a list of readable lines is shaped as `field_shaped` says.
pub proof fn lemma_fields_of_shaped(ls: Seq<Seq<char>>)
    requires
        forall|k: int| 0 <= k < ls.len() ==> header_line_ok(#[trigger] ls[k]),
    ensures
        forall|k: int|
            0 <= k < header_fields_of(ls).len() ==> field_shaped(#[trigger] header_fields_of(ls)[k]),
    decreases ls.len(),
{
    if ls.len() > 0 {
        assert forall|k: int| 0 <= k < ls.drop_last().len() implies header_line_ok(
            #[trigger] ls.drop_last()[k],
        ) by {
            assert(ls.drop_last()[k] == ls[k]);
        }
        lemma_fields_of_shaped(ls.drop_last());
        let line = ls.last();
        assert(header_line_ok(ls[ls.len() - 1]));
        lemma_find_first(line, ':');
        match header_of_line(line) {
            Some(f) => {
                let p = find_first(line, ':')->0;
                let b = encode_utf8(line);
                lemma_trim_ends(decode_utf8(b.subrange(p + 1, b.len() as int)));
                lemma_name_before_colon(line);
                assert(field_shaped(f));
                let before = header_fields_of(ls.drop_last());
                assert(header_fields_of(ls) == before.push(f));
                assert forall|k: int| 0 <= k < header_fields_of(ls).len() implies field_shaped(
                    #[trigger] header_fields_of(ls)[k],
                ) by {
                    if k < before.len() {
                        assert(header_fields_of(ls)[k] == before[k]);
                    }
                }
            },
            None => {
                assert(header_fields_of(ls) == header_fields_of(ls.drop_last()));
            },
        }
    }
}

/// Law: every field read from readable header text has a non-empty name
/// without a colon, and a value trimmed of white space at both ends.
pub proof fn lemma_header_fields_shaped(s: Seq<char>)
    requires
        header_text_ok(s),
    ensures
        forall|k: int|
            0 <= k < header_fields_spec(s).len() ==> field_shaped(
                #[trigger] header_fields_spec(s)[k],
            ),
{
    lemma_fields_of_shaped(lines(s));
}

/// Encoding two texts one after the other gives their encodings one after
/// the other.
proof fn lemma_encode_concat(a: Seq<char>, c: Seq<char>)
    ensures
        encode_utf8(a + c) == encode_utf8(a) + encode_utf8(c),
    decreases a.len(),
{
    if a.len() > 0 {
        assert((a + c).drop_first() =~= a.drop_first() + c);
        assert((a + c)[0] == a[0]);
        lemma_encode_concat(a.drop_first(), c);
    } else {
        assert(a + c =~= c);
    }
}

/// Law: a line made of a non-empty ASCII name without colon, a colon, and
/// any rest can be read, and gives that name with the whole rest as value,
/// trimmed: only white space at the ends of the rest is dropped, nothing else.
/// A line that starts with a colon gives no field.
pub proof fn lemma_field_of_colon_line(name: Seq<char>, rest: Seq<char>)
    requires
        name.len() > 0,
        is_ascii_chars(name),
        forall|j: int| 0 <= j < name.len() ==> name[j] != ':',
    ensures
        header_line_ok(name + seq![':'] + rest),
        header_of_line(name + seq![':'] + rest) matches Some(f) && f.0 == name && f.1 == trim(rest)
            && exists|lo: int, hi: int|
            0 <= lo <= hi <= rest.len() && f.1 == rest.subrange(lo, hi) && (forall|k: int|
                0 <= k < lo ==> is_white_space(#[trigger] rest[k])) && (forall|k: int|
                hi <= k < rest.len() ==> is_white_space(#[trigger] rest[k])) && (f.1.len() > 0
                ==> !is_white_space(f.1[0]) && !is_white_space(f.1.last())),
        header_line_ok(seq![':'] + rest),
        header_of_line(seq![':'] + rest) is None,
{
    broadcast use encode_utf8_valid_utf8, encode_utf8_decode_utf8;

    let colon = seq![':'];
    let line = name + colon + rest;
    let p = name.len() as int;
    // The first colon is right after the name.
    lemma_find_first(line, ':');
    assert(line[p] == ':');
    match find_first(line, ':') {
        Some(i) => {
            if i < p {
                assert(line[i] == name[i]);
            }
            if p < i {
                assert(line[p] != ':');
            }
        },
        None => {},
    }
    assert(find_first(line, ':') == Some(p));
    // Its bytes: the name's, one colon byte, the rest's.
    is_ascii_chars_encode_utf8(name);
    assert(is_ascii_chars(colon));
    is_ascii_chars_encode_utf8(colon);
    lemma_encode_concat(name + colon, rest);
    lemma_encode_concat(name, colon);
    let b = encode_utf8(line);
    let en = encode_utf8(name);
    let ec = encode_utf8(colon);
    let er = encode_utf8(rest);
    assert(b == en + ec + er);
    assert(b[p] == ec[0]);
    assert(ec[0] == ':' as u8);
    is_char_boundary_iff_not_is_continuation_byte(b, p);
    if p + 1 < b.len() {
        assert(b[p + 1] == er[0]);
        is_char_boundary_start_end_of_seq(er);
        is_char_boundary_iff_not_is_continuation_byte(er, 0);
        is_char_boundary_iff_not_is_continuation_byte(b, p + 1);
    } else {
        is_char_boundary_start_end_of_seq(b);
    }
    assert(header_line_ok(line));
    assert(b.subrange(0, p) =~= en);
    assert(b.subrange(p + 1, b.len() as int) =~= er);
    lemma_trim_cut(rest);
    lemma_trim_ends(rest);
    let lo = rest.len() - crate::text::trim_start(rest).len();
    let hi = lo + trim(rest).len();
    assert(trim(rest) == rest.subrange(lo, hi));
    // A line that starts with its colon.
    let line2 = colon + rest;
    lemma_find_first(line2, ':');
    assert(line2[0] == ':');
    lemma_encode_concat(colon, rest);
    let b2 = encode_utf8(line2);
    assert(b2 == ec + er);
    is_char_boundary_start_end_of_seq(b2);
    if 1 < b2.len() {
        assert(b2[1] == er[0]);
        is_char_boundary_start_end_of_seq(er);
        is_char_boundary_iff_not_is_continuation_byte(er, 0);
        is_char_boundary_iff_not_is_continuation_byte(b2, 1);
    }
}

/// The view of a list of fields.
pub open spec fn fields_view(r: Seq<(String, String)>) -> Seq<(Seq<char>, Seq<char>)> {
    r.map_values(|f: (String, String)| (f.0@, f.1@))
}

/// The index of the first colon in `v`, if any.
fn colon_index(v: &Vec<char>) -> (r: Option<usize>)
    ensures
        match find_first(v@, ':') {
            Some(p) => r == Some(p as usize),
            None => r is None,
        },
        r matches Some(i) ==> i < v@.len(),
{
    proof {
        lemma_find_first(v@, ':');
    }
    let mut i: usize = 0;
    while i < v.len()
        invariant
            i <= v@.len(),
            forall|j: int| 0 <= j < i ==> v@[j] != ':',
        decreases v@.len() - i,
    {
        if v[i] == ':' {
            proof {
                lemma_find_first(v@, ':');
                match find_first(v@, ':') {
                    Some(p) => {
                        if p < i {
                            assert(v@[p] != ':');
                        }
                        if i < p {
                            assert(v@[i as int] != ':');
                        }
                    },
                    None => {
                        assert(v@[i as int] != ':');
                    },
                }
            }
            return Some(i);
        }
        i = i + 1;
    }
    proof {
        match find_first(v@, ':') {
            Some(p) => {
                assert(v@[p] != ':');
            },
            None => {},
        }
    }
    None
}

/// Tells whether one line can be read as a header field.
pub fn header_line_valid(line: &str) -> (b: bool)
    ensures
        b == header_line_ok(line@),
{
    let v = chars_of(line);
    let n = v.len();
    proof {
        lemma_find_first(line@, ':');
    }
    assert(line.spec_bytes() == encode_utf8(line@));
    match colon_index(&v) {
        None => false,
        Some(p) => {
            assert(p < n);
            line.is_char_boundary(p) && line.is_char_boundary(p + 1)
        },
    }
}

/// The view of a field that may be absent.
pub open spec fn field_view(f: Option<(String, String)>) -> Option<(Seq<char>, Seq<char>)> {
    match f {
        Some(f) => Some((f.0@, f.1@)),
        None => None,
    }
}

/// The field that one readable line gives, as `header_of_line` says.
pub fn header_field_of_line(line: &str) -> (r: Option<(String, String)>)
    requires
        header_line_ok(line@),
    ensures
        field_view(r) == header_of_line(line@),
{
    broadcast use encode_utf8_valid_utf8, encode_utf8_decode_utf8;

    let v = chars_of(line);
    assert(line.spec_bytes() == encode_utf8(line@));
    proof {
        lemma_find_first(line@, ':');
    }
    let p = match colon_index(&v) {
        Some(p) => p,
        None => {
            return None;
        },
    };
    if p == 0 {
        return None;
    }
    let ghost b = encode_utf8(line@);
    let (name_part, rest) = line.split_at(p);
    proof {
        let rb = encode_utf8(rest@);
        assert(rb =~= b.subrange(p as int, b.len() as int));
        valid_utf8_split(b, p as int);
        assert(b.len() >= p + 1) by {
            if b.len() < p + 1 {
                assert(!is_char_boundary(b, p + 1));
            }
        }
        if p + 1 == b.len() {
            is_char_boundary_start_end_of_seq(rb);
        } else {
            is_char_boundary_iff_not_is_continuation_byte(b, p + 1);
            assert(rb[1] == b[p + 1]);
            is_char_boundary_iff_not_is_continuation_byte(rb, 1);
        }
    }
    let (_, tail) = rest.split_at(1);
    proof {
        assert(encode_utf8(tail@) =~= b.subrange(p + 1, b.len() as int));
        assert(encode_utf8(name_part@) =~= b.subrange(0, p as int));
    }
    let name = String::from_str(name_part);
    let tv = chars_of(tail);
    let (lo, hi) = trim_range(&tv, 0, tv.len());
    let value = string_of(&tv, lo, hi);
    proof {
        assert(tv@.subrange(0, tv@.len() as int) =~= tv@);
    }
    Some((name, value))
}

/// The fields of one more line.
proof fn lemma_fields_step(ls: Seq<Seq<char>>, f: Option<(Seq<char>, Seq<char>)>)
    requires
        ls.len() > 0,
        f == header_of_line(ls.last()),
    ensures
        header_fields_of(ls) == match f {
            Some(x) => header_fields_of(ls.drop_last()).push(x),
            None => header_fields_of(ls.drop_last()),
        },
{
}

/// Tells whether a header text can be read line by line as header fields.
pub fn header_text_valid(headers: &str) -> (b: bool)
    ensures
        b == header_text_ok(headers@),
{
    let v = chars_of(headers);
    let r = line_ranges(&v);
    let mut k: usize = 0;
    while k < r.len()
        invariant
            k <= r@.len(),
            pieces(r@, v@) == lines(v@),
            v@ == headers@,
            forall|m: int| 0 <= m < r@.len() ==> (#[trigger] r@[m]).0 <= r@[m].1 <= v@.len(),
            forall|m: int| 0 <= m < k ==> header_line_ok(#[trigger] lines(v@)[m]),
        decreases r@.len() - k,
    {
        let (a, b) = r[k];
        let line = string_of(&v, a, b);
        assert(lines(v@)[k as int] == line@);
        if !header_line_valid(line.as_str()) {
            return false;
        }
        k = k + 1;
    }
    true
}

/// The header fields of a readable header text, in the order of its lines, as
/// `header_of_line` reads each line.
pub fn header_fields(headers: &str) -> (r: Vec<(String, String)>)
    requires
        header_text_ok(headers@),
    ensures
        fields_view(r@) == header_fields_spec(headers@),
{
    let v = chars_of(headers);
    let ranges = line_ranges(&v);
    let mut r: Vec<(String, String)> = Vec::new();
    let mut k: usize = 0;
    assert(lines(v@).take(0) =~= seq![]);
    assert(fields_view(r@) =~= seq![]);
    while k < ranges.len()
        invariant
            k <= ranges@.len(),
            pieces(ranges@, v@) == lines(v@),
            v@ == headers@,
            header_text_ok(v@),
            forall|m: int| 0 <= m < ranges@.len() ==> (#[trigger] ranges@[m]).0 <= ranges@[m].1
                <= v@.len(),
            fields_view(r@) == header_fields_of(lines(v@).take(k as int)),
        decreases ranges@.len() - k,
    {
        let (a, b) = ranges[k];
        let line = string_of(&v, a, b);
        assert(lines(v@)[k as int] == line@);
        assert(header_line_ok(lines(v@)[k as int]));
        assert(lines(v@).take(k + 1).drop_last() =~= lines(v@).take(k as int));
        assert(lines(v@).take(k + 1).last() == line@);
        let f = header_field_of_line(line.as_str());
        proof {
            lemma_fields_step(lines(v@).take(k + 1), field_view(f));
        }
        match f {
            Some(f) => {
                proof {
                    assert(fields_view(r@.push(f)) =~= fields_view(r@).push((f.0@, f.1@)));
                }
                r.push(f);
            },
            None => {},
        }
        k = k + 1;
    }
    assert(lines(v@).take(ranges@.len() as int) =~= lines(v@));
    r
}

} // verus!
