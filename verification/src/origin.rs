//! The base of a URL (scheme, host and port) and the key under which the
//! agent for that base is kept.

use vstd::prelude::*;

use crate::text::{
    decimal, lemma_decimal_digits, lemma_decimal_injective, lemma_decimal_value, numeral_value, push_char,
    push_decimal,
};

verus! {

/// `url::ParseError`, the error of `url::Url::parse`.
#[verifier::external_type_specification]
#[verifier::external_body]
pub struct ExUrlParseError(url::ParseError);

/// What a URL tells of its base: the scheme, the host if it has one, and the
/// port, explicit or the known default of its scheme.
pub struct UrlParts {
    pub scheme: String,
    pub host: Option<String>,
    pub port: Option<u16>,
}

/// The plain value of a URL base.
pub type UrlPartsView = (Seq<char>, Option<Seq<char>>, Option<u16>);

impl View for UrlParts {
    type V = UrlPartsView;

    open spec fn view(&self) -> UrlPartsView {
        (
            self.scheme@,
            match self.host {
                Some(h) => Some(h@),
                None => None,
            },
            self.port,
        )
    }
}

/// The base that `url::Url::parse` reads from a text, as its `scheme`,
/// `host_str` and `port_or_known_default` give it; none where it refuses the text.
pub uninterp spec fn url_base(input: Seq<char>) -> Option<UrlPartsView>;

/// A character that a URL scheme may hold once parsed: a lower-case ASCII
/// letter, a digit, `+`, `-` or `.`.
pub open spec fn scheme_char(c: char) -> bool {
    ||| 'a' <= c <= 'z'
    ||| '0' <= c <= '9'
    ||| c == '+'
    ||| c == '-'
    ||| c == '.'
}

/// A scheme whose default port `url` knows.
pub open spec fn known_scheme(s: Seq<char>) -> bool {
    ||| s == seq!['h', 't', 't', 'p']
    ||| s == seq!['h', 't', 't', 'p', 's']
    ||| s == seq!['w', 's']
    ||| s == seq!['w', 's', 's']
    ||| s == seq!['f', 't', 'p']
}

/// Parses a URL with `url::Url::parse` and reads its base with `scheme`,
/// `host_str` and `port_or_known_default`. Claimed of it: the result is the
/// named `url_base` of the text; a parsed scheme is non-empty and made of
/// lower-case ASCII letters, digits, `+`, `-` and `.`; a scheme with a known
/// default port always has a port.
#[verifier::external_body]
fn parse_url_base(input: &str) -> (r: Result<UrlParts, url::ParseError>)
    ensures
        r is Ok <==> url_base(input@) is Some,
        r matches Ok(p) ==> p@ == url_base(input@)->0,
        r matches Ok(p) ==> p.scheme@.len() > 0 && forall|i: int|
            0 <= i < p.scheme@.len() ==> scheme_char(#[trigger] p.scheme@[i]),
        r matches Ok(p) ==> (known_scheme(p.scheme@) ==> p.port is Some),
{
    match url::Url::parse(input) {
        Ok(u) => Ok(
            UrlParts {
                scheme: u.scheme().to_string(),
                host: u.host_str().map(|h| h.to_string()),
                port: u.port_or_known_default(),
            },
        ),
        Err(e) => Err(e),
    }
}

/// A URL that `url` does not accept as an absolute URL.
#[derive(Debug, PartialEq, Eq, Structural)]
pub enum UrlError {
    Unparsable,
}

/// Reads the base of a URL.
pub fn url_parts(url: &str) -> (r: Result<UrlParts, UrlError>)
    ensures
        r is Ok <==> url_base(url@) is Some,
        r matches Ok(p) ==> p@ == url_base(url@)->0,
        r matches Ok(p) ==> valid_scheme(p@.0),
{
    match parse_url_base(url) {
        Ok(p) => Ok(p),
        Err(_) => Err(UrlError::Unparsable),
    }
}

/// A scheme as `url` gives it: non-empty, of scheme characters only.
pub open spec fn valid_scheme(s: Seq<char>) -> bool {
    s.len() > 0 && forall|i: int| 0 <= i < s.len() ==> scheme_char(#[trigger] s[i])
}

/// The host used for a URL that has none.
pub open spec fn default_host() -> Seq<char> {
    seq!['1', '2', '7', '.', '0', '.', '0', '.', '1']
}

/// The host of a base, or the default host.
pub open spec fn host_or_default(p: UrlPartsView) -> Seq<char> {
    match p.1 {
        Some(h) => h,
        None => default_host(),
    }
}

/// The port of a base, or 80.
pub open spec fn port_or_default(p: UrlPartsView) -> u16 {
    match p.2 {
        Some(n) => n,
        None => 80,
    }
}

/// The key of a base: `scheme://host:port`, with host `127.0.0.1` and port 80
/// where the URL gives none.
pub open spec fn agent_key_of(p: UrlPartsView) -> Seq<char> {
    p.0 + seq![':', '/', '/'] + host_or_default(p) + seq![':'] + decimal(port_or_default(p) as nat)
}

/// The key under which the agent for a base is kept.
pub fn agent_key(parts: &UrlParts) -> (k: String)
    ensures
        k@ == agent_key_of(parts@),
{
    let mut k = parts.scheme.clone();
    push_char(&mut k, ':');
    push_char(&mut k, '/');
    push_char(&mut k, '/');
    match &parts.host {
        Some(h) => {
            let v = crate::text::chars_of(h.as_str());
            let mut i: usize = 0;
            while i < v.len()
                invariant
                    i <= v@.len(),
                    v@ == h@,
                    k@ == parts.scheme@ + seq![':', '/', '/'] + v@.take(i as int),
                decreases v@.len() - i,
            {
                push_char(&mut k, v[i]);
                assert(v@.take(i + 1) =~= v@.take(i as int).push(v@[i as int]));
                i = i + 1;
            }
            assert(v@.take(v@.len() as int) =~= v@);
        },
        None => {
            push_char(&mut k, '1');
            push_char(&mut k, '2');
            push_char(&mut k, '7');
            push_char(&mut k, '.');
            push_char(&mut k, '0');
            push_char(&mut k, '.');
            push_char(&mut k, '0');
            push_char(&mut k, '.');
            push_char(&mut k, '1');
        },
    }
    push_char(&mut k, ':');
    let port: u16 = match parts.port {
        Some(n) => n,
        None => 80,
    };
    push_decimal(&mut k, port as u32);
    proof {
        let hd = host_or_default(parts@);
        assert(k@ =~= parts@.0 + seq![':', '/', '/'] + hd + seq![':'] + decimal(port as nat));
    }
    k
}

/// Law: the key of a base reads, in order: the scheme, `://`, the host (or
/// `127.0.0.1` when the URL has none), `:`, and a decimal numeral without
/// leading zero that stands for the port (or 80 when the URL gives none).
pub proof fn lemma_agent_key_reads(p: UrlPartsView)
    ensures
        ({
            let k = agent_key_of(p);
            let n = p.0.len() as int;
            let h = match p.1 {
                Some(h) => h,
                None => seq!['1', '2', '7', '.', '0', '.', '0', '.', '1'],
            };
            let port: u16 = match p.2 {
                Some(x) => x,
                None => 80,
            };
            let digits = k.skip(n + 4 + h.len());
            &&& k.len() > n + 4 + h.len()
            &&& k.take(n as int) == p.0
            &&& k[n as int] == ':' && k[n + 1] == '/' && k[n + 2] == '/'
            &&& k.subrange(n + 3, n + 3 + h.len()) == h
            &&& k[n + 3 + h.len()] == ':'
            &&& forall|i: int| 0 <= i < digits.len() ==> '0' <= #[trigger] digits[i] <= '9'
            &&& numeral_value(digits) == port as nat
            &&& (digits[0] == '0' ==> port == 0)
        }),
{
    let k = agent_key_of(p);
    let n = p.0.len() as int;
    let h = host_or_default(p);
    let d = decimal(port_or_default(p) as nat);
    lemma_decimal_value(port_or_default(p) as nat);
    lemma_decimal_digits(port_or_default(p) as nat);
    assert(k.take(n as int) =~= p.0);
    assert(k.subrange(n + 3, n + 3 + h.len()) =~= h);
    assert(k.skip(n + 4 + h.len()) =~= d);
}

/// Law: two bases share a key exactly when they have the same scheme, the
/// same host (or both none, or one none and the other the default host) and
/// the same port (an absent port counting as 80).
pub proof fn lemma_agent_key_injective(a: UrlPartsView, b: UrlPartsView)
    requires
        valid_scheme(a.0),
        valid_scheme(b.0),
    ensures
        (agent_key_of(a) == agent_key_of(b)) <==> (a.0 == b.0 && host_or_default(a)
            == host_or_default(b) && port_or_default(a) == port_or_default(b)),
{
    if agent_key_of(a) == agent_key_of(b) {
        let ka = agent_key_of(a);
        let kb = agent_key_of(b);
        // The scheme ends at the first colon.
        if a.0.len() < b.0.len() {
            assert(ka[a.0.len() as int] == ':');
            assert(kb[a.0.len() as int] == b.0[a.0.len() as int]);
            assert(scheme_char(b.0[a.0.len() as int]));
        }
        if b.0.len() < a.0.len() {
            assert(kb[b.0.len() as int] == ':');
            assert(ka[b.0.len() as int] == a.0[b.0.len() as int]);
            assert(scheme_char(a.0[b.0.len() as int]));
        }
        assert(a.0 =~= ka.take(a.0.len() as int));
        assert(b.0 =~= kb.take(b.0.len() as int));
        // The port numeral follows the last colon.
        let da = decimal(port_or_default(a) as nat);
        let db = decimal(port_or_default(b) as nat);
        lemma_decimal_digits(port_or_default(a) as nat);
        lemma_decimal_digits(port_or_default(b) as nat);
        let n = ka.len();
        if da.len() < db.len() {
            assert(ka[n - da.len() - 1] == ':');
            assert(kb[n - da.len() - 1] == db[db.len() - da.len() - 1]);
            assert('0' <= db[db.len() - da.len() - 1] <= '9');
        }
        if db.len() < da.len() {
            assert(kb[n - db.len() - 1] == ':');
            assert(ka[n - db.len() - 1] == da[da.len() - db.len() - 1]);
            assert('0' <= da[da.len() - db.len() - 1] <= '9');
        }
        assert(da =~= ka.skip(n - da.len()));
        assert(db =~= kb.skip(n - db.len()));
        lemma_decimal_injective(port_or_default(a) as nat, port_or_default(b) as nat);
        let ha = host_or_default(a);
        let hb = host_or_default(b);
        assert(ha =~= ka.subrange(a.0.len() + 3int, a.0.len() + 3int + ha.len()));
        assert(hb =~= kb.subrange(b.0.len() + 3int, b.0.len() + 3int + hb.len()));
    }
}

} // verus!
