//! The log messages of a call, each with its level, written only when the
//! request's `debug` value is not 0.

use vstd::prelude::*;

use crate::request::{attempt_view, uses_headers, AgentChoice, Attempt, HttpMethod, RuxcHTTPRequest};

verus! {

/// The view of a list of log messages.
pub open spec fn messages_view(v: Seq<(i32, String)>) -> Seq<(i32, Seq<char>)> {
    v.map_values(|m: (i32, String)| (m.0, m.1@))
}

/// The word that names a method.
pub open spec fn method_word(m: HttpMethod) -> Seq<char> {
    match m {
        HttpMethod::Get => "GET"@,
        HttpMethod::Post => "POST"@,
        HttpMethod::Delete => "DELETE"@,
    }
}

/// The messages logged when an attempt is sent: the method and URL (level
/// 2), the header text when it is used (level 3), and the POST body or a note
/// that no body goes (level 3).
pub open spec fn send_messages_spec(req: &RuxcHTTPRequest, a: Attempt) -> Seq<(i32, Seq<char>)> {
    if req.debug == 0 {
        seq![]
    } else {
        let v = attempt_view(a);
        seq![(2i32, "doing HTTP "@ + method_word(v.0) + " - url: "@ + v.1)] + (if uses_headers(req) {
            seq![(3i32, "adding headers: [["@ + req.headers->0@ + "]]"@)]
        } else {
            seq![]
        }) + match v.3 {
            Some(b) => seq![(3i32, "post body: [["@ + b + "]]"@)],
            None => seq![(3i32, "get request"@)],
        }
    }
}

/// The messages logged when the agent of a call is chosen, with `key` the key
/// of the URL's base for an agent kept per base.
pub open spec fn agent_messages_spec(debug: i32, choice: AgentChoice, key: Seq<char>) -> Seq<
    (i32, Seq<char>),
> {
    if debug == 0 {
        seq![]
    } else {
        match choice {
            AgentChoice::Fresh { .. } => seq![(3i32, "initializing http agent - noreuse"@)],
            AgentChoice::Shared { build } => if build is Some {
                seq![
                    (3i32, "initializing http agent - reuse on"@),
                    (3i32, "saving ready state - reuse on"@),
                ]
            } else {
                seq![]
            },
            AgentChoice::Keyed { build, .. } => seq![(3i32, "htable key ["@ + key + "]"@)] + (
            if build is Some {
                seq![(3i32, "initializing http agent for ["@ + key + "]"@)]
            } else {
                seq![]
            }) + seq![(3i32, "agent retrieved for ["@ + key + "]"@)],
        }
    }
}

/// The message logged for a response body that was read.
pub open spec fn body_messages_spec(debug: i32, body: Seq<char>) -> Seq<(i32, Seq<char>)> {
    if debug == 0 {
        seq![]
    } else {
        seq![(3i32, "* ruxc:: HTTP response body: "@ + body)]
    }
}

/// Law: with `debug` 0 nothing is logged. Otherwise sending an attempt logs,
/// in order: at level 2 the method's name and the URL; at level 3 the header
/// text when the request has some; and at level 3 the POST body, or a note
/// that no body goes.
pub proof fn lemma_send_messages_rule(req: &RuxcHTTPRequest, a: Attempt)
    ensures
        ({
            let m = send_messages_spec(req, a);
            let word = match a.method {
                HttpMethod::Get => "GET"@,
                HttpMethod::Post => "POST"@,
                HttpMethod::Delete => "DELETE"@,
            };
            let last = match a.body {
                Some(b) => "post body: [["@ + b@ + "]]"@,
                None => "get request"@,
            };
            &&& (m.len() == 0) <==> (req.debug == 0)
            &&& req.debug != 0 ==> {
                &&& m.len() == (if uses_headers(req) {
                    3int
                } else {
                    2int
                })
                &&& m[0] == (2i32, "doing HTTP "@ + word + " - url: "@ + a.url@)
                &&& uses_headers(req) ==> m[1] == (3i32, "adding headers: [["@ + req.headers->0@
                    + "]]"@)
                &&& m.last() == (3i32, last)
            }
        }),
{
}

/// Law: with `debug` 0 nothing is logged. Otherwise choosing an agent logs at
/// level 3: for a new agent one note; for the shared agent two notes when it
/// is built now and none else; for an agent kept per base the key, a note when
/// the agent is built now, and that the agent was found. A body read is
/// logged at level 3 with its text.
pub proof fn lemma_agent_and_body_messages_rule(debug: i32, c: AgentChoice, key: Seq<char>, body: Seq<
    char,
>)
    ensures
        ({
            let m = agent_messages_spec(debug, c, key);
            &&& debug == 0 ==> m.len() == 0
            &&& debug != 0 ==> match c {
                AgentChoice::Fresh { .. } => m == seq![(3i32, "initializing http agent - noreuse"@)],
                AgentChoice::Shared { build } => m.len() == (if build is Some {
                    2int
                } else {
                    0int
                }),
                AgentChoice::Keyed { build, .. } => {
                    &&& m.len() == (if build is Some {
                        3int
                    } else {
                        2int
                    })
                    &&& m[0] == (3i32, "htable key ["@ + key + "]"@)
                    &&& m.last() == (3i32, "agent retrieved for ["@ + key + "]"@)
                },
            }
            &&& forall|i: int| 0 <= i < m.len() ==> (#[trigger] m[i]).0 == 3
        }),
        debug == 0 ==> body_messages_spec(debug, body).len() == 0,
        debug != 0 ==> body_messages_spec(debug, body) == seq![
            (3i32, "* ruxc:: HTTP response body: "@ + body),
        ],
{
}

/// The text `a + b + c`.
fn join3(a: &str, b: &str, c: &str) -> (r: String)
    ensures
        r@ == a@ + b@ + c@,
{
    let mut r = String::from_str(a);
    r.append(b);
    r.append(c);
    r
}

/// Adds a message at the end of a list.
fn push_message(v: &mut Vec<(i32, String)>, level: i32, text: String)
    ensures
        messages_view(final(v)@) == messages_view(old(v)@).push((level, text@)),
{
    let ghost before = v@;
    v.push((level, text));
    assert(messages_view(v@) =~= messages_view(before).push((level, v@.last().1@)));
}

/// The messages logged when an attempt is sent, as `send_messages_spec` says.
pub fn send_messages(req: &RuxcHTTPRequest, a: &Attempt) -> (r: Vec<(i32, String)>)
    ensures
        messages_view(r@) == send_messages_spec(req, *a),
{
    let mut r: Vec<(i32, String)> = Vec::new();
    if req.debug == 0 {
        assert(messages_view(r@) =~= seq![]);
        return r;
    }
    let word = match a.method {
        HttpMethod::Get => "GET",
        HttpMethod::Post => "POST",
        HttpMethod::Delete => "DELETE",
    };
    let mut first = join3("doing HTTP ", word, " - url: ");
    first.append(a.url.as_str());
    push_message(&mut r, 2, first);
    if req.headers.is_some() && req.headers_len > 0 {
        let h = join3("adding headers: [[", req.headers.as_ref().unwrap().as_str(), "]]");
        push_message(&mut r, 3, h);
    }
    match &a.body {
        Some(b) => {
            let t = join3("post body: [[", b.as_str(), "]]");
            push_message(&mut r, 3, t);
        },
        None => {
            push_message(&mut r, 3, String::from_str("get request"));
        },
    }
    proof {
        let sp = send_messages_spec(req, *a);
        assert(messages_view(r@) =~= sp);
    }
    r
}

/// The messages logged when the agent of a call is chosen, as
/// `agent_messages_spec` says.
pub fn agent_messages(debug: i32, choice: AgentChoice, key: &str) -> (r: Vec<(i32, String)>)
    ensures
        messages_view(r@) == agent_messages_spec(debug, choice, key@),
{
    let mut r: Vec<(i32, String)> = Vec::new();
    if debug == 0 {
        assert(messages_view(r@) =~= seq![]);
        return r;
    }
    match choice {
        AgentChoice::Fresh { .. } => {
            push_message(&mut r, 3, String::from_str("initializing http agent - noreuse"));
        },
        AgentChoice::Shared { build } => {
            if build.is_some() {
                push_message(&mut r, 3, String::from_str("initializing http agent - reuse on"));
                push_message(&mut r, 3, String::from_str("saving ready state - reuse on"));
            }
        },
        AgentChoice::Keyed { build, .. } => {
            push_message(&mut r, 3, join3("htable key [", key, "]"));
            if build.is_some() {
                push_message(&mut r, 3, join3("initializing http agent for [", key, "]"));
            }
            push_message(&mut r, 3, join3("agent retrieved for [", key, "]"));
        },
    }
    proof {
        assert(messages_view(r@) =~= agent_messages_spec(debug, choice, key@));
    }
    r
}

/// The messages logged for a response body, as `body_messages_spec` says.
pub fn body_messages(debug: i32, body: &str) -> (r: Vec<(i32, String)>)
    ensures
        messages_view(r@) == body_messages_spec(debug, body@),
{
    let mut r: Vec<(i32, String)> = Vec::new();
    if debug != 0 {
        let mut t = String::from_str("* ruxc:: HTTP response body: ");
        t.append(body);
        push_message(&mut r, 3, t);
    }
    assert(messages_view(r@) =~= body_messages_spec(debug, body@));
    r
}

} // verus!
