use ruxc::call::{CallPhase, CallStep, HttpCall, Outcome};
use ruxc::call_log::{agent_messages, body_messages, send_messages};
use ruxc::headers::{header_field_of_line, header_fields, header_line_valid, header_text_valid};
use ruxc::log::{log_line, LogPriority, LogSink};
use ruxc::origin::{agent_key, url_parts, UrlError};
use ruxc::pool::AgentPool;
use ruxc::request::{
    agent_settings, begin_call, choose_agent, prepare_attempt, record_body,
    ruxc_http_response_release, AgentChoice, AgentSettings, BodyBuffer, HttpMethod,
    RuxcHTTPRequest, RuxcHTTPResponse, SharedAgent,
};
use ruxc::retry::RetryCounter;
use ruxc::text::{push_decimal, trim_range};

fn request(url: Option<&str>) -> RuxcHTTPRequest {
    RuxcHTTPRequest {
        url: url.map(|u| u.to_string()),
        url_len: url.map(|u| u.len() as i32).unwrap_or(0),
        headers: None,
        headers_len: 0,
        data: None,
        data_len: 0,
        timeout: 5000,
        timeout_connect: 5000,
        timeout_read: 5000,
        timeout_write: 5000,
        tlsmode: 0,
        flags: 0,
        debug: 1,
        reuse: 0,
        retry: 0,
        logtype: 0,
    }
}

fn body_text(r: &RuxcHTTPResponse) -> Option<Option<&str>> {
    r.resdata.as_ref().map(|b| b.text.as_deref())
}

fn settings_5000() -> AgentSettings {
    AgentSettings {
        timeout_connect_ms: Some(5000),
        timeout_read_ms: Some(5000),
        timeout_write_ms: Some(5000),
        timeout_ms: Some(5000),
        accept_any_certificate: true,
    }
}

fn pairs(v: &[(String, String)]) -> Vec<(&str, &str)> {
    v.iter().map(|(a, b)| (a.as_str(), b.as_str())).collect()
}

#[test]
fn headers_from_crlf_text() {
    let f = header_fields("X-My-Key: xyzw\r\nX-My-Hdr: abcd\r\n");
    assert_eq!(pairs(&f), vec![("X-My-Key", "xyzw"), ("X-My-Hdr", "abcd")]);
}

#[test]
fn headers_trim_value_and_skip_nameless() {
    let f = header_fields(":skipped\nA:\t b : c \u{3000}\nB:\nC: last\r");
    assert_eq!(pairs(&f), vec![("A", "b : c"), ("B", ""), ("C", "last")]);
}

#[test]
fn headers_name_keeps_spaces() {
    let f = header_fields(" N : v");
    assert_eq!(pairs(&f), vec![(" N ", "v")]);
}

#[test]
fn headers_empty_text_gives_none() {
    assert!(header_fields("").is_empty());
    assert!(header_text_valid(""));
}

#[test]
fn header_text_validity() {
    assert!(header_text_valid("A: b\r\nC: d"));
    assert!(!header_text_valid("A: b\r\n\r\n"));
    assert!(!header_text_valid("no colon here"));
    assert!(header_text_valid("Na\u{e9}me: v"));
    assert!(header_text_valid("Name: v\u{e9}"));
    assert!(!header_text_valid("\u{e9}:x"));
    assert!(!header_line_valid("\u{e9}:x"));
    assert!(header_line_valid("\u{e9}ab:x"));
}

#[test]
fn header_name_cut_by_character_count() {
    let f = header_field_of_line("\u{e9}ab:x").unwrap();
    assert_eq!((f.0.as_str(), f.1.as_str()), ("\u{e9}a", ":x"));
    let g = header_fields("Na\u{e9}me: v");
    assert_eq!(pairs(&g), vec![("Na\u{e9}m", ": v")]);
    assert_eq!(header_field_of_line(":v"), None);
}

#[test]
fn trims_unicode_white_space() {
    let v: Vec<char> = "\u{a0} x y\u{2028}".chars().collect();
    assert_eq!(trim_range(&v, 0, v.len()), (2, 5));
    let w: Vec<char> = "   ".chars().collect();
    let (a, b) = trim_range(&w, 0, 3);
    assert_eq!(a, b);
}

#[test]
fn decimal_numerals() {
    let mut s = String::from("p");
    push_decimal(&mut s, 0);
    assert_eq!(s, "p0");
    let mut t = String::new();
    push_decimal(&mut t, 65535);
    assert_eq!(t, "65535");
}

#[test]
fn url_parts_of_https() {
    let p = url_parts("https://Example.com/path?q=1").unwrap();
    assert_eq!(p.scheme, "https");
    assert_eq!(p.host.as_deref(), Some("example.com"));
    assert_eq!(p.port, Some(443));
    assert_eq!(agent_key(&p), "https://example.com:443");
}

#[test]
fn agent_key_with_port_and_ipv6() {
    let p = url_parts("http://[::1]:8080/x").unwrap();
    assert_eq!(agent_key(&p), "http://[::1]:8080");
}

#[test]
fn agent_key_defaults_host_and_port() {
    let p = url_parts("unix:/run/foo.socket").unwrap();
    assert_eq!(p.host, None);
    assert_eq!(p.port, None);
    assert_eq!(agent_key(&p), "unix://127.0.0.1:80");
}

#[test]
fn unparsable_url() {
    assert!(matches!(url_parts("not a url"), Err(UrlError::Unparsable)));
    assert!(matches!(url_parts("/relative/path"), Err(UrlError::Unparsable)));
}

#[test]
fn pool_gives_one_slot_per_key() {
    let mut pool = AgentPool::new();
    assert_eq!(pool.slot_for("http://a:80".to_string()), (0, true));
    assert_eq!(pool.slot_for("http://b:80".to_string()), (1, true));
    assert_eq!(pool.slot_for("http://a:80".to_string()), (0, false));
    assert_eq!(pool.len(), 2);
    assert_eq!(pool.find(&"http://b:80".to_string()), Some(1));
    assert_eq!(pool.find(&"http://c:80".to_string()), None);
}

#[test]
fn same_base_shares_agent() {
    let mut pool = AgentPool::new();
    let mut shared = SharedAgent::new();
    let mut req = request(Some("http://host.example/a"));
    req.reuse = 2;
    let first = choose_agent(&req, &mut shared, &mut pool);
    req.url = Some("http://host.example:80/other?x".to_string());
    let second = choose_agent(&req, &mut shared, &mut pool);
    req.url = Some("https://host.example/a".to_string());
    let third = choose_agent(&req, &mut shared, &mut pool);
    assert_eq!(first, Some(AgentChoice::Keyed { slot: 0, build: Some(settings_5000()) }));
    assert_eq!(second, Some(AgentChoice::Keyed { slot: 0, build: None }));
    assert_eq!(third, Some(AgentChoice::Keyed { slot: 1, build: Some(settings_5000()) }));
    assert!(!shared.ready);
}

#[test]
fn agent_choice_by_reuse() {
    let mut pool = AgentPool::new();
    let mut shared = SharedAgent::new();
    let mut req = request(Some("http://h/"));
    req.reuse = 1;
    assert_eq!(
        choose_agent(&req, &mut shared, &mut pool),
        Some(AgentChoice::Shared { build: Some(settings_5000()) })
    );
    assert!(shared.ready);
    req.timeout = 0;
    assert_eq!(choose_agent(&req, &mut shared, &mut pool), Some(AgentChoice::Shared { build: None }));
    req.timeout = 5000;
    req.reuse = 0;
    assert_eq!(
        choose_agent(&req, &mut shared, &mut pool),
        Some(AgentChoice::Fresh { settings: settings_5000() })
    );
    req.reuse = 7;
    assert_eq!(
        choose_agent(&req, &mut shared, &mut pool),
        Some(AgentChoice::Fresh { settings: settings_5000() })
    );
    req.reuse = 2;
    req.url = Some("::bad::".to_string());
    assert_eq!(choose_agent(&req, &mut shared, &mut pool), None);
    assert_eq!(pool.len(), 0);
}

#[test]
fn settings_from_timeouts() {
    let mut req = request(Some("http://h/"));
    req.timeout = 0;
    req.timeout_read = -1;
    req.tlsmode = 1;
    let s = agent_settings(&req);
    assert_eq!(s.timeout_connect_ms, Some(5000));
    assert_eq!(s.timeout_read_ms, Some(u64::MAX));
    assert_eq!(s.timeout_write_ms, Some(5000));
    assert_eq!(s.timeout_ms, None);
    assert!(!s.accept_any_certificate);
    req.tlsmode = 0;
    assert!(agent_settings(&req).accept_any_certificate);
}

#[test]
fn begin_without_url() {
    let req = request(None);
    let mut resp = RuxcHTTPResponse::new();
    resp.rescode = 7;
    assert!(!begin_call(&req, &mut resp));
    assert_eq!(resp.retcode, -20);
    assert_eq!(resp.rescode, 7);
    let req2 = request(Some("http://h/"));
    assert!(begin_call(&req2, &mut resp));
    assert_eq!(resp.retcode, -1);
}

#[test]
fn attempt_for_get_and_post() {
    let mut req = request(Some("http://h/p"));
    req.headers = Some("A: 1\r\nB: 2".to_string());
    req.headers_len = 0;
    let a = prepare_attempt(&req, HttpMethod::Get);
    assert_eq!(a.url, "http://h/p");
    assert!(a.header_fields.is_empty());
    assert!(a.body.is_none());
    req.headers_len = 11;
    req.data = Some("payload".to_string());
    req.data_len = 0;
    let b = prepare_attempt(&req, HttpMethod::Post);
    assert_eq!(pairs(&b.header_fields), vec![("A", "1"), ("B", "2")]);
    assert_eq!(b.body.as_deref(), Some(""));
    req.data_len = 7;
    let c = prepare_attempt(&req, HttpMethod::Post);
    assert_eq!(c.body.as_deref(), Some("payload"));
    let d = prepare_attempt(&req, HttpMethod::Delete);
    assert_eq!(d.method, HttpMethod::Delete);
    assert!(d.body.is_none());
}

#[test]
fn body_length_counts_bytes() {
    let mut resp = RuxcHTTPResponse::new();
    resp.retcode = -1;
    record_body(&mut resp, "h\u{e9}llo".to_string());
    assert_eq!(resp.resdata_len, 6);
    assert_eq!(body_text(&resp), Some(Some("h\u{e9}llo")));
    assert_eq!(resp.retcode, 0);
}

#[test]
fn empty_body_keeps_earlier_text() {
    let mut resp = RuxcHTTPResponse::new();
    resp.resdata = Some(BodyBuffer { text: Some("old".to_string()) });
    resp.resdata_len = 3;
    record_body(&mut resp, String::new());
    assert_eq!(resp.resdata_len, 0);
    assert_eq!(body_text(&resp), Some(Some("old")));
    assert_eq!(resp.retcode, 0);
}

#[test]
fn release_frees_buffer_and_keeps_fields() {
    let mut resp = RuxcHTTPResponse::new();
    resp.retcode = 0;
    resp.rescode = 200;
    resp.resdata = Some(BodyBuffer { text: Some("x".to_string()) });
    resp.resdata_len = 1;
    ruxc_http_response_release(&mut resp);
    assert_eq!(body_text(&resp), Some(None));
    assert_eq!(resp.resdata_len, 1);
    assert_eq!(resp.rescode, 200);
    assert_eq!(resp.retcode, 0);
    let mut empty = RuxcHTTPResponse::new();
    ruxc_http_response_release(&mut empty);
    assert!(empty.resdata.is_none());
}

#[test]
fn retry_counter_runs_out() {
    let mut c = RetryCounter::new(2);
    assert!(c.after_attempt(503));
    assert!(c.after_attempt(0));
    assert!(!c.after_attempt(500));
    assert_eq!(c.remaining, 0);
    let mut d = RetryCounter::new(3);
    assert!(!d.after_attempt(204));
    assert_eq!(d.remaining, 3);
    let mut e = RetryCounter::new(-4);
    assert!(!e.after_attempt(404));
}

#[test]
fn call_retries_until_success() {
    let mut req = request(Some("http://h/"));
    req.retry = 2;
    let mut pool = AgentPool::new();
    let (mut call, step, choice) = HttpCall::start(&req, RuxcHTTPResponse::new(), &mut SharedAgent::new(), &mut pool);
    assert_eq!(step, CallStep::Send);
    assert_eq!(choice, Some(AgentChoice::Fresh { settings: settings_5000() }));
    assert_eq!(call.response.retcode, -1);
    assert_eq!(call.step(Outcome::Status(503)), CallStep::Send);
    assert_eq!(call.response.rescode, 503);
    assert_eq!(call.step(Outcome::TransportError), CallStep::Send);
    assert_eq!(call.step(Outcome::Status(200)), CallStep::ReadBody);
    assert_eq!(call.step(Outcome::Body("done".to_string())), CallStep::Finish);
    assert_eq!(call.phase, CallPhase::Finished);
    assert_eq!(call.response.retcode, 0);
    assert_eq!(call.response.rescode, 200);
    assert_eq!(body_text(&call.response), Some(Some("done")));
    assert_eq!(call.response.resdata_len, 4);
}

#[test]
fn call_gives_up_without_body_when_retrying() {
    let mut req = request(Some("http://h/"));
    req.retry = 1;
    let mut pool = AgentPool::new();
    let (mut call, _, _) = HttpCall::start(&req, RuxcHTTPResponse::new(), &mut SharedAgent::new(), &mut pool);
    assert_eq!(call.step(Outcome::Status(500)), CallStep::Send);
    assert_eq!(call.step(Outcome::Status(404)), CallStep::Finish);
    assert_eq!(call.response.retcode, -1);
    assert_eq!(call.response.rescode, 404);
    assert!(call.response.resdata.is_none());
    assert_eq!(call.response.resdata_len, 0);
}

#[test]
fn call_keeps_error_body_without_retries() {
    let req = request(Some("http://h/"));
    let mut pool = AgentPool::new();
    let (mut call, _, _) = HttpCall::start(&req, RuxcHTTPResponse::new(), &mut SharedAgent::new(), &mut pool);
    assert_eq!(call.step(Outcome::Status(404)), CallStep::ReadBody);
    assert_eq!(call.step(Outcome::Body("missing".to_string())), CallStep::Finish);
    assert_eq!(call.response.retcode, 0);
    assert_eq!(call.response.rescode, 404);
}

#[test]
fn call_body_read_failure_finishes() {
    let req = request(Some("http://h/"));
    let mut pool = AgentPool::new();
    let (mut call, _, _) = HttpCall::start(&req, RuxcHTTPResponse::new(), &mut SharedAgent::new(), &mut pool);
    assert_eq!(call.step(Outcome::Status(200)), CallStep::ReadBody);
    assert_eq!(call.step(Outcome::BodyError), CallStep::Finish);
    assert_eq!(call.response.retcode, -1);
    assert_eq!(call.response.rescode, 200);
}

#[test]
fn call_stale_status_stops_retries() {
    let mut req = request(Some("http://h/"));
    req.retry = 3;
    let mut pool = AgentPool::new();
    let mut resp = RuxcHTTPResponse::new();
    resp.rescode = 201;
    let (mut call, _, _) = HttpCall::start(&req, resp, &mut SharedAgent::new(), &mut pool);
    assert_eq!(call.step(Outcome::TransportError), CallStep::Finish);
    assert_eq!(call.response.retcode, -1);
}

#[test]
fn call_without_url_finishes_at_once() {
    let req = request(None);
    let mut pool = AgentPool::new();
    let (call, step, choice) = HttpCall::start(&req, RuxcHTTPResponse::new(), &mut SharedAgent::new(), &mut pool);
    assert_eq!(step, CallStep::Finish);
    assert_eq!(choice, None);
    assert_eq!(call.response.retcode, -20);
}

#[test]
fn call_with_unparsable_url_in_pool_mode() {
    let mut req = request(Some("nonsense"));
    req.reuse = 2;
    let mut pool = AgentPool::new();
    let (call, step, choice) = HttpCall::start(&req, RuxcHTTPResponse::new(), &mut SharedAgent::new(), &mut pool);
    assert_eq!(step, CallStep::Finish);
    assert_eq!(choice, None);
    assert_eq!(call.response.retcode, -1);
}

#[test]
fn log_lines() {
    assert!(log_line(0, 1, 2, "hidden").is_none());
    let l = log_line(0, 3, 1, "boom").unwrap();
    assert_eq!(l.sink, LogSink::Stdout);
    assert_eq!(l.priority, LogPriority::Error);
    assert_eq!(l.text, "* ruxc [error]:: boom");
    assert_eq!(log_line(0, 3, 2, "i").unwrap().text, "* ruxc [info]:: i");
    assert_eq!(log_line(0, 3, 3, "d").unwrap().text, "* ruxc [debug]:: d");
    let s = log_line(1, 3, 3, "to syslog").unwrap();
    assert_eq!(s.sink, LogSink::Syslog);
    assert_eq!(s.priority, LogPriority::Debug);
    assert_eq!(s.text, "to syslog");
    assert!(log_line(2, 3, 1, "x").is_none());
    assert!(log_line(0, 9, 4, "x").is_none());
    assert!(log_line(0, 3, 0, "x").is_none());
}

#[test]
fn shared_agent_built_by_first_call_with_url() {
    let mut pool = AgentPool::new();
    let mut shared = SharedAgent::new();
    let mut none = request(None);
    none.reuse = 1;
    let (_, step, choice) = HttpCall::start(&none, RuxcHTTPResponse::new(), &mut shared, &mut pool);
    assert_eq!(step, CallStep::Finish);
    assert_eq!(choice, None);
    assert!(!shared.ready);
    let mut a = request(Some("http://h/"));
    a.reuse = 1;
    a.tlsmode = 1;
    let (_, _, first) = HttpCall::start(&a, RuxcHTTPResponse::new(), &mut shared, &mut pool);
    let mut s = settings_5000();
    s.accept_any_certificate = false;
    assert_eq!(first, Some(AgentChoice::Shared { build: Some(s) }));
    let b = {
        let mut b = request(Some("http://other/"));
        b.reuse = 1;
        b
    };
    let (_, _, second) = HttpCall::start(&b, RuxcHTTPResponse::new(), &mut shared, &mut pool);
    assert_eq!(second, Some(AgentChoice::Shared { build: None }));
}

fn texts(v: &[(i32, String)]) -> Vec<(i32, &str)> {
    v.iter().map(|(l, t)| (*l, t.as_str())).collect()
}

#[test]
fn send_log_messages() {
    let mut req = request(Some("http://h/p"));
    req.headers = Some("A: 1".to_string());
    req.headers_len = 4;
    req.data = Some("d".to_string());
    req.data_len = 1;
    let a = prepare_attempt(&req, HttpMethod::Post);
    assert_eq!(
        texts(&send_messages(&req, &a)),
        vec![
            (2, "doing HTTP POST - url: http://h/p"),
            (3, "adding headers: [[A: 1]]"),
            (3, "post body: [[d]]"),
        ]
    );
    let g = prepare_attempt(&req, HttpMethod::Get);
    assert_eq!(
        texts(&send_messages(&req, &g)),
        vec![(2, "doing HTTP GET - url: http://h/p"), (3, "adding headers: [[A: 1]]"), (3, "get request")]
    );
    req.debug = 0;
    assert!(send_messages(&req, &g).is_empty());
}

#[test]
fn agent_and_body_log_messages() {
    assert_eq!(
        texts(&agent_messages(1, AgentChoice::Fresh { settings: settings_5000() }, "")),
        vec![(3, "initializing http agent - noreuse")]
    );
    assert_eq!(
        texts(&agent_messages(1, AgentChoice::Shared { build: Some(settings_5000()) }, "")),
        vec![(3, "initializing http agent - reuse on"), (3, "saving ready state - reuse on")]
    );
    assert!(agent_messages(1, AgentChoice::Shared { build: None }, "").is_empty());
    assert_eq!(
        texts(&agent_messages(1, AgentChoice::Keyed { slot: 0, build: Some(settings_5000()) }, "http://h:80")),
        vec![
            (3, "htable key [http://h:80]"),
            (3, "initializing http agent for [http://h:80]"),
            (3, "agent retrieved for [http://h:80]"),
        ]
    );
    assert!(agent_messages(0, AgentChoice::Fresh { settings: settings_5000() }, "").is_empty());
    assert_eq!(texts(&body_messages(2, "ok")), vec![(3, "* ruxc:: HTTP response body: ok")]);
    assert!(body_messages(0, "ok").is_empty());
}
