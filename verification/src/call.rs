//! One call, from start to end, as a machine: it says what to do next (send
//! the request, read the response body, or finish) and is told what came of it.

use vstd::prelude::*;

use crate::pool::AgentPool;
use crate::request::{
    agent_choice_spec, begin_call, byte_len, shared_ready_after, SharedAgent, choose_agent, is_success, record_body, BodyBuffer,
    AgentChoice, RuxcHTTPRequest, RuxcHTTPResponse,
};
use crate::retry::{max_attempts, retry_again, RetryCounter};
use vstd::utf8::encode_utf8;

verus! {

/// Where a call stands.
#[derive(Clone, Copy, Debug, PartialEq, Eq, Structural)]
pub enum CallPhase {
    AwaitingStatus,
    AwaitingBody,
    Finished,
}

/// What the caller is to do next.
#[derive(Clone, Copy, Debug, PartialEq, Eq, Structural)]
pub enum CallStep {
    /// Send the request (once more).
    Send,
    /// Read the body of the response just received, as text.
    ReadBody,
    /// The call is over; its result is the response record's `retcode`.
    Finish,
}

/// What came of the last step.
pub enum Outcome {
    /// The request got no HTTP response.
    TransportError,
    /// A response came with this status.
    Status(u16),
    /// The response body was read.
    Body(String),
    /// The response body could not be read.
    BodyError,
}

/// A call in progress: the request's `retry` value, the retries left, the
/// response record, and where the call stands.
pub struct HttpCall {
    pub retry: i32,
    pub counter: RetryCounter,
    pub response: RuxcHTTPResponse,
    pub phase: CallPhase,
}

impl HttpCall {
    /// The call's invariant: retries left never exceed `retry`; a body is read
    /// only when retries are off or the status is 2xx; and until the call is
    /// over, no body has been kept (`retcode` is -1).
    pub open spec fn wf(self) -> bool {
        &&& self.counter.remaining <= self.retry
        &&& self.phase == CallPhase::AwaitingBody ==> (self.retry <= 0 || is_success(
            self.response.rescode as int,
        ))
        &&& self.phase != CallPhase::Finished ==> self.response.retcode == -1
    }
}

/// The call after an attempt has ended: sent again while retries are left
/// and the recorded status is not 2xx, else over.
pub open spec fn settle(c: HttpCall) -> (HttpCall, CallStep) {
    if retry_again(c.counter.remaining as int, c.response.rescode as int) {
        (
            HttpCall {
                counter: RetryCounter { remaining: (c.counter.remaining - 1) as i32 },
                phase: CallPhase::AwaitingStatus,
                ..c
            },
            CallStep::Send,
        )
    } else {
        (HttpCall { phase: CallPhase::Finished, ..c }, CallStep::Finish)
    }
}

/// The response record with a status recorded.
pub open spec fn with_status(r: RuxcHTTPResponse, status: u16) -> RuxcHTTPResponse {
    RuxcHTTPResponse { rescode: status as i32, ..r }
}

/// The response record with a body kept.
pub open spec fn with_body(r: RuxcHTTPResponse, body: String) -> RuxcHTTPResponse {
    RuxcHTTPResponse {
        retcode: 0,
        rescode: r.rescode,
        resdata: if (byte_len(body@) as i32) > 0 {
            Some(BodyBuffer { text: Some(body) })
        } else {
            r.resdata
        },
        resdata_len: byte_len(body@) as i32,
    }
}

/// The call and the next step after an outcome.
pub open spec fn next_state(c: HttpCall, o: Outcome) -> (HttpCall, CallStep) {
    match o {
        Outcome::TransportError => settle(c),
        Outcome::Status(s) => {
            let c2 = HttpCall { response: with_status(c.response, s), ..c };
            if c.retry <= 0 || is_success(s as int) {
                (HttpCall { phase: CallPhase::AwaitingBody, ..c2 }, CallStep::ReadBody)
            } else {
                settle(c2)
            }
        },
        Outcome::Body(b) => settle(HttpCall { response: with_body(c.response, b), ..c }),
        Outcome::BodyError => settle(c),
    }
}

/// The outcome answers the step the call is waiting on.
pub open spec fn outcome_fits(phase: CallPhase, o: &Outcome) -> bool {
    match o {
        Outcome::TransportError => phase == CallPhase::AwaitingStatus,
        Outcome::Status(_) => phase == CallPhase::AwaitingStatus,
        Outcome::Body(_) => phase == CallPhase::AwaitingBody,
        Outcome::BodyError => phase == CallPhase::AwaitingBody,
    }
}

/// A body that may be kept: none holds a NUL character where its length
/// makes it kept as text.
pub open spec fn body_storable(o: &Outcome) -> bool {
    match o {
        Outcome::Body(b) => (byte_len(b@) as i32) > 0 ==> !b@.contains('\0'),
        _ => true,
    }
}

/// The step that belongs to a phase.
pub open spec fn step_of(phase: CallPhase) -> CallStep {
    match phase {
        CallPhase::AwaitingStatus => CallStep::Send,
        CallPhase::AwaitingBody => CallStep::ReadBody,
        CallPhase::Finished => CallStep::Finish,
    }
}

impl HttpCall {
    /// Starts a call: marks the record -1, or -20 and finishes at once when the
    /// request has no URL (the shared agent and the pool then stay as they
    /// are); else chooses the agent as `agent_choice_spec` says and sends, or
    /// finishes when no agent can be chosen.
    pub fn start(
        req: &RuxcHTTPRequest,
        resp: RuxcHTTPResponse,
        shared: &mut SharedAgent,
        pool: &mut AgentPool,
    ) -> (r: (HttpCall, CallStep, Option<AgentChoice>))
        ensures
            r.0.wf(),
            r.1 == step_of(r.0.phase),
            r.0.retry == req.retry,
            r.0.counter.remaining == req.retry,
            r.0.response.rescode == resp.rescode,
            r.0.response.resdata == resp.resdata,
            r.0.response.resdata_len == resp.resdata_len,
            req.url is None ==> r.0.response.retcode == -20 && r.1 == CallStep::Finish && r.2 is None
                && final(pool)@ == old(pool)@,
            req.url is Some ==> r.0.response.retcode == -1 && (r.2, final(pool)@)
                == agent_choice_spec(req, old(shared).ready, old(pool)@),
            final(shared).ready == shared_ready_after(old(shared).ready, req),
            r.1 == CallStep::Send <==> r.2 is Some,
            r.1 != CallStep::ReadBody,
    {
        let mut response = resp;
        let go = begin_call(req, &mut response);
        if !go {
            let call = HttpCall {
                retry: req.retry,
                counter: RetryCounter::new(req.retry),
                response,
                phase: CallPhase::Finished,
            };
            return (call, CallStep::Finish, None);
        }
        let choice = choose_agent(req, shared, pool);
        let phase = if choice.is_some() {
            CallPhase::AwaitingStatus
        } else {
            CallPhase::Finished
        };
        let step = if choice.is_some() {
            CallStep::Send
        } else {
            CallStep::Finish
        };
        let call = HttpCall { retry: req.retry, counter: RetryCounter::new(req.retry), response, phase };
        (call, step, choice)
    }

    /// Ends an attempt: sends again or finishes.
    fn settle_exec(&mut self) -> (r: CallStep)
        ensures
            (*final(self), r) == settle(*old(self)),
    {
        let again = self.counter.after_attempt(self.response.rescode);
        if again {
            self.phase = CallPhase::AwaitingStatus;
            CallStep::Send
        } else {
            self.phase = CallPhase::Finished;
            CallStep::Finish
        }
    }

    /// Takes in what came of the last step and says the next one, as
    /// `next_state` says.
    pub fn step(&mut self, outcome: Outcome) -> (r: CallStep)
        requires
            old(self).wf(),
            outcome_fits(old(self).phase, &outcome),
            body_storable(&outcome),
        ensures
            final(self).wf(),
            (*final(self), r) == next_state(*old(self), outcome),
            r == step_of(final(self).phase),
    {
        match outcome {
            Outcome::TransportError => self.settle_exec(),
            Outcome::Status(s) => {
                let keep = record_status_in(self, s);
                if keep {
                    self.phase = CallPhase::AwaitingBody;
                    CallStep::ReadBody
                } else {
                    self.settle_exec()
                }
            },
            Outcome::Body(b) => {
                record_body(&mut self.response, b);
                self.settle_exec()
            },
            Outcome::BodyError => self.settle_exec(),
        }
    }
}

/// Records a status in a call's response record.
fn record_status_in(call: &mut HttpCall, status: u16) -> (keep: bool)
    ensures
        *final(call) == (HttpCall { response: with_status(old(call).response, status), ..*old(call) }),
        keep == (old(call).retry <= 0 || is_success(status as int)),
{
    let req_retry = call.retry;
    call.response.rescode = status as i32;
    req_retry <= 0 || (200 <= status && status <= 299)
}

/// Law: every step keeps a call well formed; in particular a call that goes
/// on has kept no body yet.
pub proof fn lemma_step_keeps_wf(c: HttpCall, o: Outcome)
    requires
        c.wf(),
        outcome_fits(c.phase, &o),
    ensures
        next_state(c, o).0.wf(),
{
}

/// Law: once the body of a response is read (or fails to be read), the call
/// is over.
pub proof fn lemma_body_ends_call(c: HttpCall, o: Outcome)
    requires
        c.wf(),
        c.phase == CallPhase::AwaitingBody,
        outcome_fits(c.phase, &o),
    ensures
        next_state(c, o).1 == CallStep::Finish,
        next_state(c, o).0.phase == CallPhase::Finished,
{
}


/// The number of times a call says to send again while it takes in the
/// outcomes `os` in order (stopping where it is over or an outcome does not
/// answer its step).
pub open spec fn resends(c: HttpCall, os: Seq<Outcome>) -> nat
    decreases os.len(),
{
    if os.len() == 0 || c.phase == CallPhase::Finished || !outcome_fits(c.phase, &os[0]) {
        0
    } else {
        let (c2, s) = next_state(c, os[0]);
        (if s == CallStep::Send {
            1nat
        } else {
            0nat
        }) + resends(c2, os.drop_first())
    }
}

/// A call sends again at most as often as it has retries left.
pub proof fn lemma_resends_bounded(c: HttpCall, os: Seq<Outcome>)
    requires
        c.wf(),
    ensures
        resends(c, os) <= (if c.counter.remaining > 0 {
            c.counter.remaining as int
        } else {
            0
        }),
    decreases os.len(),
{
    if !(os.len() == 0 || c.phase == CallPhase::Finished || !outcome_fits(c.phase, &os[0])) {
        let (c2, s) = next_state(c, os[0]);
        lemma_resends_bounded(c2, os.drop_first());
    }
}

/// Law: whatever comes of its exchanges, a call that has just started sends
/// its request at most `retry + 1` times in all, and once when `retry` is at
/// most 0.
pub proof fn lemma_sends_at_most(c: HttpCall, os: Seq<Outcome>)
    requires
        c.wf(),
        c.counter.remaining == c.retry,
    ensures
        1 + resends(c, os) <= max_attempts(c.retry as int),
{
    lemma_resends_bounded(c, os);
}


/// An outcome that ends an attempt without a 2xx status.
pub open spec fn failing(o: Outcome) -> bool {
    match o {
        Outcome::TransportError => true,
        Outcome::Status(s) => !is_success(s as int),
        _ => false,
    }
}

/// While every attempt fails, a call with retries on sends again once for
/// each retry left.
pub proof fn lemma_resends_failing(c: HttpCall, os: Seq<Outcome>)
    requires
        c.wf(),
        c.phase == CallPhase::AwaitingStatus,
        c.retry > 0,
        c.counter.remaining >= 0,
        !is_success(c.response.rescode as int),
        os.len() > c.counter.remaining,
        forall|i: int| 0 <= i < os.len() ==> failing(#[trigger] os[i]),
    ensures
        resends(c, os) == c.counter.remaining,
    decreases os.len(),
{
    assert(failing(os[0]));
    let (c2, st) = next_state(c, os[0]);
    let rest = os.drop_first();
    assert(outcome_fits(c.phase, &os[0]));
    assert(resends(c, os) == (if st == CallStep::Send { 1nat } else { 0nat }) + resends(c2, rest));
    if c.counter.remaining > 0 {
        assert forall|i: int| 0 <= i < rest.len() implies failing(#[trigger] rest[i]) by {
            assert(rest[i] == os[i + 1]);
        }
        lemma_resends_failing(c2, rest);
    } else {
        assert(c2.phase == CallPhase::Finished);
        assert(resends(c2, rest) == 0);
    }
}

/// Law: when every attempt of a call fails (no response, or a status that is
/// not 2xx), the call sends its request exactly `retry + 1` times, and once
/// when `retry` is at most 0.
pub proof fn lemma_sends_exactly_when_failing(c: HttpCall, os: Seq<Outcome>)
    requires
        c.wf(),
        c.phase == CallPhase::AwaitingStatus,
        c.counter.remaining == c.retry,
        !is_success(c.response.rescode as int),
        os.len() >= max_attempts(c.retry as int),
        forall|i: int| 0 <= i < os.len() ==> failing(#[trigger] os[i]),
    ensures
        1 + resends(c, os) == max_attempts(c.retry as int),
{
    if c.retry > 0 {
        lemma_resends_failing(c, os);
    } else {
        assert(failing(os[0]));
        let (c2, st) = next_state(c, os[0]);
        if os.len() > 1 {
            assert(failing(os.drop_first()[0]));
        }
        assert(resends(c2, os.drop_first()) == 0);
    }
}

/// Law: a call stops sending at the first attempt that gets a 2xx status,
/// when its retries reach that far: it then reads the body and finishes.
pub proof fn lemma_stops_at_first_success(c: HttpCall, os: Seq<Outcome>, k: int)
    requires
        c.wf(),
        c.phase == CallPhase::AwaitingStatus,
        !is_success(c.response.rescode as int),
        0 <= k < os.len(),
        k <= c.counter.remaining,
        os[k] matches Outcome::Status(s) && is_success(s as int),
        forall|i: int| 0 <= i < k ==> failing(#[trigger] os[i]),
    ensures
        resends(c, os) == k,
    decreases k,
{
    let (c2, st) = next_state(c, os[0]);
    let rest = os.drop_first();
    assert(outcome_fits(c.phase, &os[0]));
    assert(resends(c, os) == (if st == CallStep::Send { 1nat } else { 0nat }) + resends(c2, rest));
    if k == 0 {
        assert(st == CallStep::ReadBody);
        if rest.len() > 0 && outcome_fits(c2.phase, &rest[0]) {
            lemma_body_ends_call(c2, rest[0]);
            let (c3, st3) = next_state(c2, rest[0]);
            assert(resends(c2, rest) == (if st3 == CallStep::Send { 1nat } else { 0nat })
                + resends(c3, rest.drop_first()));
            assert(resends(c3, rest.drop_first()) == 0);
        } else {
            assert(resends(c2, rest) == 0);
        }
    } else {
        assert(failing(os[0]));
        assert(st == CallStep::Send);
        assert forall|i: int| 0 <= i < k - 1 implies failing(#[trigger] rest[i]) by {
            assert(rest[i] == os[i + 1]);
        }
        assert(rest[k - 1] == os[k]);
        lemma_stops_at_first_success(c2, rest, k - 1);
    }
}


/// Law: once a response body has been read, the record says the request was
/// performed (`retcode` 0) whatever the body, the empty one included; its
/// length is the body's UTF-8 byte count; the body text is kept exactly when
/// that count is positive, and the status stays.
pub proof fn lemma_body_read_recorded(c: HttpCall, b: String)
    ensures
        ({
            let r = next_state(c, Outcome::Body(b)).0.response;
            let n = (encode_utf8(b@).len() as usize) as i32;
            &&& r.retcode == 0
            &&& r.rescode == c.response.rescode
            &&& r.resdata_len == n
            &&& n > 0 ==> r.resdata == Some(BodyBuffer { text: Some(b) })
            &&& n <= 0 ==> r.resdata == c.response.resdata
        }),
{
}

/// Law: a response status is recorded as the record's `rescode`; with
/// retries on (`retry` > 0) its body is read exactly when the status lies in
/// 200..=299, and with retries off it is always read.
pub proof fn lemma_status_recorded(c: HttpCall, s: u16)
    ensures
        next_state(c, Outcome::Status(s)).0.response.rescode == s as i32,
        next_state(c, Outcome::Status(s)).0.response.retcode == c.response.retcode,
        c.retry > 0 ==> ((next_state(c, Outcome::Status(s)).1 == CallStep::ReadBody) <==> (200 <= s
            && s <= 299)),
        c.retry <= 0 ==> next_state(c, Outcome::Status(s)).1 == CallStep::ReadBody,
{
}

/// Law: after an attempt that ends without reading a body, the call sends
/// again exactly when retries are left and the recorded status is outside
/// 200..=299 (a 1xx, 3xx, 4xx or 5xx status included), using up one retry.
pub proof fn lemma_resend_rule(c: HttpCall)
    ensures
        ({
            let (c2, st) = next_state(c, Outcome::TransportError);
            let code = c.response.rescode;
            &&& (st == CallStep::Send) <==> (c.counter.remaining > 0 && (code < 200 || code > 299))
            &&& st == CallStep::Send ==> c2.counter.remaining == c.counter.remaining - 1
            &&& st != CallStep::Send ==> st == CallStep::Finish && c2.counter == c.counter
        }),
        forall|s: u16|
            c.retry > 0 && (s < 200 || s > 299) ==> {
                let (c2, st) = #[trigger] next_state(c, Outcome::Status(s));
                (st == CallStep::Send) <==> c.counter.remaining > 0
            },
{
}

} // verus!
