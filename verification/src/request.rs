//! A request as the caller describes it, the response record it fills in,
//! and the steps of one call: its start, the agent settings, each attempt,
//! and what an attempt's outcome writes into the response.

use vstd::prelude::*;
use vstd::utf8::encode_utf8;

use crate::headers::{fields_view, header_fields, header_fields_spec, header_text_ok};
use crate::origin::{agent_key, agent_key_of, url_base, url_parts};
use crate::pool::{pool_slot, AgentPool};

verus! {

/// The request method.
#[derive(Clone, Copy, Debug, PartialEq, Eq, Structural)]
pub enum HttpMethod {
    Get,
    Post,
    Delete,
}

/// A request as the caller gives it. A text field that the caller left null
/// is `None`; the `_len` fields only tell whether a text is to be used.
pub struct RuxcHTTPRequest {
    pub url: Option<String>,
    pub url_len: i32,
    pub headers: Option<String>,
    pub headers_len: i32,
    pub data: Option<String>,
    pub data_len: i32,
    pub timeout: i32,
    pub timeout_connect: i32,
    pub timeout_read: i32,
    pub timeout_write: i32,
    pub tlsmode: i32,
    pub flags: i32,
    pub debug: i32,
    pub reuse: i32,
    pub retry: i32,
    pub logtype: i32,
}

/// The buffer a response record refers to for its body: it holds the body
/// text until it is released.
pub struct BodyBuffer {
    pub text: Option<String>,
}

/// What a call reports: `retcode` (0 once a response body was kept, -1 while
/// none was, -20 for a request without URL), the HTTP status `rescode` of the
/// last response, and the buffer of the kept body with the body's length in
/// bytes (UTF-8).
pub struct RuxcHTTPResponse {
    pub retcode: i32,
    pub rescode: i32,
    pub resdata: Option<BodyBuffer>,
    pub resdata_len: i32,
}

impl RuxcHTTPResponse {
    /// A response record with every field zero and no body.
    pub fn new() -> (r: Self)
        ensures
            r.retcode == 0,
            r.rescode == 0,
            r.resdata is None,
            r.resdata_len == 0,
    {
        RuxcHTTPResponse { retcode: 0, rescode: 0, resdata: None, resdata_len: 0 }
    }
}

/// The response record once its body buffer is released: the record still
/// refers to the buffer, which no longer holds the text; the other fields stay.
pub open spec fn released(r: RuxcHTTPResponse) -> RuxcHTTPResponse {
    RuxcHTTPResponse {
        resdata: match r.resdata {
            Some(_) => Some(BodyBuffer { text: None }),
            None => None,
        },
        ..r
    }
}

/// A record whose body buffer, if it has one, was not released yet.
pub open spec fn releasable(r: RuxcHTTPResponse) -> bool {
    r.resdata matches Some(b) ==> b.text is Some
}

/// Releases the body buffer of a response record, as `released` says. A
/// buffer is released once: releasing it again would free it twice.
pub fn ruxc_http_response_release(resp: &mut RuxcHTTPResponse)
    requires
        releasable(*old(resp)),
    ensures
        *final(resp) == released(*old(resp)),
{
    if resp.resdata.is_some() {
        resp.resdata = Some(BodyBuffer { text: None });
    }
}

/// Law: releasing a record frees its body text and nothing else: the record
/// still refers to a buffer exactly when it did, that buffer holds no text,
/// and `retcode`, `rescode` and `resdata_len` stay.
pub proof fn lemma_release_frees_text(r: RuxcHTTPResponse)
    ensures
        released(r).retcode == r.retcode,
        released(r).rescode == r.rescode,
        released(r).resdata_len == r.resdata_len,
        released(r).resdata is Some <==> r.resdata is Some,
        released(r).resdata matches Some(b) ==> b.text is None,
{
}

/// Starts a call: the record reads -1 until a body is kept, or -20 at once
/// when the request has no URL, in which case nothing is sent.
pub fn begin_call(req: &RuxcHTTPRequest, resp: &mut RuxcHTTPResponse) -> (go: bool)
    ensures
        go == req.url is Some,
        final(resp).retcode == (if go { -1i32 } else { -20i32 }),
        final(resp).rescode == old(resp).rescode,
        final(resp).resdata == old(resp).resdata,
        final(resp).resdata_len == old(resp).resdata_len,
{
    resp.retcode = -1;
    if req.url.is_none() {
        resp.retcode = -20;
        return false;
    }
    true
}

/// The settings of the agent that performs a request.
#[derive(Clone, Copy, Debug, PartialEq, Eq, Structural)]
pub struct AgentSettings {
    pub timeout_connect_ms: Option<u64>,
    pub timeout_read_ms: Option<u64>,
    pub timeout_write_ms: Option<u64>,
    pub timeout_ms: Option<u64>,
    pub accept_any_certificate: bool,
}

/// A timeout in milliseconds, taken as an unsigned 64-bit value; a zero
/// leaves the timeout unset.
pub open spec fn millis_setting(v: i32) -> Option<u64> {
    if (v as u64) > 0 {
        Some(v as u64)
    } else {
        None
    }
}

/// The timeout setting of one field.
fn millis(v: i32) -> (r: Option<u64>)
    ensures
        r == millis_setting(v),
        r is Some <==> v != 0,
{
    let m = v as u64;
    assert((v as u64) > 0 <==> v != 0) by (bit_vector);
    if m > 0 {
        Some(m)
    } else {
        None
    }
}

/// The agent settings a request asks for.
pub open spec fn settings_of(req: &RuxcHTTPRequest) -> AgentSettings {
    AgentSettings {
        timeout_connect_ms: millis_setting(req.timeout_connect),
        timeout_read_ms: millis_setting(req.timeout_read),
        timeout_write_ms: millis_setting(req.timeout_write),
        timeout_ms: millis_setting(req.timeout),
        accept_any_certificate: req.tlsmode == 0,
    }
}

/// The agent settings a request asks for: each non-zero timeout is set (a
/// negative one wraps to a very long timeout), and any server certificate is
/// accepted when `tlsmode` is 0.
pub fn agent_settings(req: &RuxcHTTPRequest) -> (s: AgentSettings)
    ensures
        s == settings_of(req),
        s.timeout_connect_ms == millis_setting(req.timeout_connect),
        s.timeout_read_ms == millis_setting(req.timeout_read),
        s.timeout_write_ms == millis_setting(req.timeout_write),
        s.timeout_ms == millis_setting(req.timeout),
        s.timeout_connect_ms is Some <==> req.timeout_connect != 0,
        s.timeout_read_ms is Some <==> req.timeout_read != 0,
        s.timeout_write_ms is Some <==> req.timeout_write != 0,
        s.timeout_ms is Some <==> req.timeout != 0,
        s.accept_any_certificate == (req.tlsmode == 0),
{
    AgentSettings {
        timeout_connect_ms: millis(req.timeout_connect),
        timeout_read_ms: millis(req.timeout_read),
        timeout_write_ms: millis(req.timeout_write),
        timeout_ms: millis(req.timeout),
        accept_any_certificate: req.tlsmode == 0,
    }
}

/// Which agent performs a call: a new one for this call, built with the
/// given settings; the one shared by all calls, built first with the given
/// settings when it is not built yet; or the one kept for the URL's base in a
/// pool slot, built first with the given settings when the slot is new.
#[derive(Clone, Copy, Debug, PartialEq, Eq, Structural)]
pub enum AgentChoice {
    Fresh { settings: AgentSettings },
    Shared { build: Option<AgentSettings> },
    Keyed { slot: usize, build: Option<AgentSettings> },
}

/// Whether the agent shared by all calls has been built.
pub struct SharedAgent {
    pub ready: bool,
}

impl SharedAgent {
    /// The shared agent, not built yet.
    pub fn new() -> (s: Self)
        ensures
            !s.ready,
    {
        SharedAgent { ready: false }
    }
}

/// The request picks the shared agent and can be sent.
pub open spec fn uses_shared(req: &RuxcHTTPRequest) -> bool {
    req.url is Some && req.reuse == 1
}

/// Whether the shared agent is built after a call with `req`: once a call
/// that uses it has been started, it stays built.
pub open spec fn shared_ready_after(ready: bool, req: &RuxcHTTPRequest) -> bool {
    ready || uses_shared(req)
}

/// The agent for a call with a URL, the pool keys after choosing it, by
/// `reuse`: 1 picks the shared agent (built with this request's settings when
/// not built yet), 2 the agent kept for the URL's base (none when the URL does
/// not parse), anything else a new agent with this request's settings.
pub open spec fn agent_choice_spec(req: &RuxcHTTPRequest, shared_ready: bool, keys: Seq<Seq<char>>) -> (
    Option<AgentChoice>,
    Seq<Seq<char>>,
) {
    let settings = settings_of(req);
    if req.reuse == 1 {
        (Some(AgentChoice::Shared { build: if shared_ready { None } else { Some(settings) } }), keys)
    } else if req.reuse == 2 {
        match url_base(req.url->0@) {
            None => (None, keys),
            Some(base) => {
                let (after, slot, made) = pool_slot(keys, agent_key_of(base));
                (
                    Some(
                        AgentChoice::Keyed {
                            slot: slot as usize,
                            build: if made { Some(settings) } else { None },
                        },
                    ),
                    after,
                )
            },
        }
    } else {
        (Some(AgentChoice::Fresh { settings }), keys)
    }
}

/// Chooses the agent for a call with a URL, as `agent_choice_spec` says, and
/// marks the shared agent built when the call uses it.
pub fn choose_agent(req: &RuxcHTTPRequest, shared: &mut SharedAgent, pool: &mut AgentPool) -> (r:
    Option<AgentChoice>)
    requires
        req.url is Some,
    ensures
        (r, final(pool)@) == agent_choice_spec(req, old(shared).ready, old(pool)@),
        final(shared).ready == shared_ready_after(old(shared).ready, req),
{
    let settings = agent_settings(req);
    if req.reuse == 1 {
        let build = if shared.ready {
            None
        } else {
            Some(settings)
        };
        shared.ready = true;
        Some(AgentChoice::Shared { build })
    } else if req.reuse == 2 {
        let url = req.url.as_ref().unwrap();
        match url_parts(url.as_str()) {
            Ok(parts) => {
                let key = agent_key(&parts);
                let (slot, made) = pool.slot_for(key);
                let build = if made {
                    Some(settings)
                } else {
                    None
                };
                Some(AgentChoice::Keyed { slot, build })
            },
            Err(_) => None,
        }
    } else {
        Some(AgentChoice::Fresh { settings })
    }
}

/// Law: every agent that a choice builds is built with the request's own
/// settings, field by field: each timeout the request gives (in milliseconds,
/// unset when 0) goes to that same timeout, and any certificate is accepted
/// exactly when `tlsmode` is 0.
pub proof fn lemma_choice_uses_request_settings(
    req: &RuxcHTTPRequest,
    shared_ready: bool,
    keys: Seq<Seq<char>>,
)
    ensures
        ({
            let s = match agent_choice_spec(req, shared_ready, keys).0 {
                Some(AgentChoice::Fresh { settings }) => Some(settings),
                Some(AgentChoice::Shared { build }) => build,
                Some(AgentChoice::Keyed { build, .. }) => build,
                None => None,
            };
            s matches Some(s) ==> {
                &&& s.timeout_connect_ms == (if req.timeout_connect != 0 {
                    Some(req.timeout_connect as u64)
                } else {
                    None
                })
                &&& s.timeout_read_ms == (if req.timeout_read != 0 {
                    Some(req.timeout_read as u64)
                } else {
                    None
                })
                &&& s.timeout_write_ms == (if req.timeout_write != 0 {
                    Some(req.timeout_write as u64)
                } else {
                    None
                })
                &&& s.timeout_ms == (if req.timeout != 0 {
                    Some(req.timeout as u64)
                } else {
                    None
                })
                &&& s.accept_any_certificate == (req.tlsmode == 0)
            }
        }),
{
    let c = req.timeout_connect;
    let r = req.timeout_read;
    let w = req.timeout_write;
    let t = req.timeout;
    assert((c as u64) > 0 <==> c != 0) by (bit_vector);
    assert((r as u64) > 0 <==> r != 0) by (bit_vector);
    assert((w as u64) > 0 <==> w != 0) by (bit_vector);
    assert((t as u64) > 0 <==> t != 0) by (bit_vector);
}

/// The number of times the shared agent is built over calls with `reqs`, in
/// order, starting from `ready`.
pub open spec fn shared_builds(ready: bool, reqs: Seq<RuxcHTTPRequest>) -> nat
    decreases reqs.len(),
{
    if reqs.len() == 0 {
        0
    } else {
        (if !ready && uses_shared(&reqs[0]) {
            1nat
        } else {
            0nat
        }) + shared_builds(shared_ready_after(ready, &reqs[0]), reqs.drop_first())
    }
}

/// Law: over any sequence of calls the shared agent is built at most once,
/// and never once it is built; calls without URL or with another `reuse` do
/// not build it.
pub proof fn lemma_shared_built_once(ready: bool, reqs: Seq<RuxcHTTPRequest>)
    ensures
        shared_builds(ready, reqs) <= 1,
        ready ==> shared_builds(ready, reqs) == 0,
    decreases reqs.len(),
{
    if reqs.len() > 0 {
        lemma_shared_built_once(shared_ready_after(ready, &reqs[0]), reqs.drop_first());
    }
}

/// One HTTP exchange to perform: the method, the URL, the extra header
/// fields, and the body text (only for POST).
pub struct Attempt {
    pub method: HttpMethod,
    pub url: String,
    pub header_fields: Vec<(String, String)>,
    pub body: Option<String>,
}

/// The request has header text to send.
pub open spec fn uses_headers(req: &RuxcHTTPRequest) -> bool {
    req.headers is Some && req.headers_len > 0
}

/// The request has body data to send.
pub open spec fn uses_data(req: &RuxcHTTPRequest) -> bool {
    req.data is Some && req.data_len > 0
}

/// The plain value of an attempt: method, URL, header fields and body.
pub open spec fn attempt_view(a: Attempt) -> (
    HttpMethod,
    Seq<char>,
    Seq<(Seq<char>, Seq<char>)>,
    Option<Seq<char>>,
) {
    (
        a.method,
        a.url@,
        fields_view(a.header_fields@),
        match a.body {
            Some(b) => Some(b@),
            None => None,
        },
    )
}

/// What an attempt of a request with a method sends.
pub open spec fn attempt_spec(req: &RuxcHTTPRequest, method: HttpMethod) -> (
    HttpMethod,
    Seq<char>,
    Seq<(Seq<char>, Seq<char>)>,
    Option<Seq<char>>,
) {
    (
        method,
        req.url->0@,
        if uses_headers(req) {
            header_fields_spec(req.headers->0@)
        } else {
            Seq::empty()
        },
        if method == HttpMethod::Post {
            Some(
                if uses_data(req) {
                    req.data->0@
                } else {
                    Seq::empty()
                },
            )
        } else {
            None
        },
    )
}

/// Law: GET, POST and DELETE of one request send the same URL and header
/// fields; only POST sends a body. (Starting and stepping a call do not
/// depend on the method at all.)
pub proof fn lemma_methods_differ_in_method_and_body(req: &RuxcHTTPRequest)
    ensures
        attempt_spec(req, HttpMethod::Get).1 == attempt_spec(req, HttpMethod::Post).1,
        attempt_spec(req, HttpMethod::Get).1 == attempt_spec(req, HttpMethod::Delete).1,
        attempt_spec(req, HttpMethod::Get).2 == attempt_spec(req, HttpMethod::Post).2,
        attempt_spec(req, HttpMethod::Get).2 == attempt_spec(req, HttpMethod::Delete).2,
        attempt_spec(req, HttpMethod::Get).3 is None,
        attempt_spec(req, HttpMethod::Delete).3 is None,
        attempt_spec(req, HttpMethod::Post).3 is Some,
{
}

/// What one attempt of a request sends: the request's URL; the fields of its
/// header text if it has some; for POST the data text, or an empty body when
/// it has none; no body for GET and DELETE.
pub fn prepare_attempt(req: &RuxcHTTPRequest, method: HttpMethod) -> (a: Attempt)
    requires
        req.url is Some,
        uses_headers(req) ==> header_text_ok(req.headers->0@),
    ensures
        a.method == method,
        a.url@ == req.url->0@,
        fields_view(a.header_fields@) == (if uses_headers(req) {
            header_fields_spec(req.headers->0@)
        } else {
            Seq::empty()
        }),
        a.body is Some <==> method == HttpMethod::Post,
        method == HttpMethod::Post ==> a.body->0@ == (if uses_data(req) {
            req.data->0@
        } else {
            Seq::empty()
        }),
        attempt_view(a) == attempt_spec(req, method),
{
    let url = req.url.as_ref().unwrap().clone();
    let fields = if req.headers.is_some() && req.headers_len > 0 {
        header_fields(req.headers.as_ref().unwrap().as_str())
    } else {
        let f: Vec<(String, String)> = Vec::new();
        assert(fields_view(f@) =~= Seq::empty());
        f
    };
    let body = match method {
        HttpMethod::Post => {
            if req.data.is_some() && req.data_len > 0 {
                Some(req.data.as_ref().unwrap().clone())
            } else {
                Some(String::new())
            }
        },
        _ => None,
    };
    Attempt { method, url, header_fields: fields, body }
}

/// An HTTP status in the 2xx range.
pub open spec fn is_success(code: int) -> bool {
    200 <= code <= 299
}

/// The length of a text in bytes, as UTF-8 encodes it (what `str::len` gives).
pub open spec fn byte_len(s: Seq<char>) -> usize {
    encode_utf8(s).len() as usize
}

/// Keeps a response body: its length in bytes (as a 32-bit signed value), a
/// new buffer holding the text when that length is positive, and `retcode` 0.
pub fn record_body(resp: &mut RuxcHTTPResponse, body: String)
    requires
        (byte_len(body@) as i32) > 0 ==> !body@.contains('\0'),
    ensures
        final(resp).resdata_len == byte_len(body@) as i32,
        final(resp).resdata == (if (byte_len(body@) as i32) > 0 {
            Some(BodyBuffer { text: Some(body) })
        } else {
            old(resp).resdata
        }),
        final(resp).retcode == 0,
        final(resp).rescode == old(resp).rescode,
{
    let n = body.as_str().len();
    resp.resdata_len = n as i32;
    if resp.resdata_len > 0 {
        resp.resdata = Some(BodyBuffer { text: Some(body) });
    }
    resp.retcode = 0;
}

} // verus!
