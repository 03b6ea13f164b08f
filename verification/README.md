# ruxc

A small HTTP/S client library for C programs: GET, POST and DELETE requests
with custom headers, optional retries, and agents (connection pools) that are
made per call, shared by all calls, or kept per base URL.

`src/` is the request logic, written in Verus and proved against its
contracts: reading header text into fields, the agent settings a request asks
for, the key of a URL's base and the pool of agents kept per key, the call as
a machine that says when to send, read a body or finish, what each response
writes into the response record, when to retry, and which log lines are
written.

`app/` is the C interface around it: the `#[repr(C)]` records, the exported
`ruxc_http_get`, `ruxc_http_post`, `ruxc_http_delete` and
`ruxc_http_response_release`, the HTTP exchanges made with `ureq` (TLS by
`rustls`), and the log output to standard output or syslog.
