//! The heartbeat transmitter's decision logic: where to aim the liveness
//! announcements, what bytes to send, and the bind/send state machine.
//!
//! The transmitter retries a failed bind indefinitely on a fixed one-tick
//! interval — no backoff, deliberately, for a long-lived unattended agent —
//! and logs link changes edge-triggered: one line when sending recovers,
//! one when it starts failing, silence in between. The caller owns the
//! socket and the clock; everything here is a pure decision.

use vstd::prelude::*;
use vstd::string::StrSliceExecFns;
use vstd::string::StringExecFns;
use vstd::string::StringSliceAdditionalSpecFns;

use crate::models::WireGuard;
use crate::textutil::dec_rep;
use crate::textutil::parse_u16;
use crate::textutil::parse_u16_spec;
use crate::textutil::spec_split;
use crate::textutil::str_split;
use crate::textutil::u16_string;

verus! {

/// Why no heartbeat can be sent at all.
#[derive(Debug, Clone, Copy, PartialEq, Eq, Structural)]
pub enum HeartbeatError {
    /// The peer sequence is empty: there is no hub to target.
    NoPeer,
    /// The first peer has no endpoint: there is no address to target.
    NoEndpoint,
}

impl WireGuard {
    /// The hub address the transmitter targets: the first peer's
    /// endpoint, verbatim as `host:port`. Fatal when there is no peer or
    /// the first peer has no endpoint — a heartbeat cannot target nothing.
    pub fn hub_endpoint(&self) -> (r: Result<&String, HeartbeatError>)
        ensures
            self@.peers.len() == 0 ==> (r matches Err(e) && e == HeartbeatError::NoPeer),
            self@.peers.len() > 0 && self@.peers[0].endpoint is None ==> (r matches Err(e) && e
                == HeartbeatError::NoEndpoint),
            self@.peers.len() > 0 && self@.peers[0].endpoint is Some ==> (r matches Ok(s)
                && Some(s@) == self@.peers[0].endpoint),
    {
        if self.peers.len() == 0 {
            Err(HeartbeatError::NoPeer)
        } else {
            let first = &self.peers[0];
            match &first.endpoint {
                Some(e) => Ok(e),
                None => Err(HeartbeatError::NoEndpoint),
            }
        }
    }
}

impl WireGuard {
    /// The device-local address the heartbeat socket binds to: the
    /// interface address with its network suffix stripped.
    pub fn device_ip(&self) -> (r: String)
        ensures
            r@ == spec_split(self@.interface.address, '/')[0],
    {
        let pieces = str_split(self.interface.address.as_str(), '/');
        proof {
            crate::textutil::lemma_split_len(self.interface.address@, '/');
            assert(pieces.deep_view()[0] == pieces@[0]@);
        }
        pieces[0].clone()
    }
}

/// The host and port of a peer endpoint written as `host:port`: the text
/// before the first colon, and the number after it. `None` when there is
/// no colon or the port is not a 16-bit number.
pub fn endpoint_host_port(endpoint: &str) -> (r: Option<(String, u16)>)
    ensures
        ({
            let pieces = spec_split(endpoint@, ':');
            if pieces.len() < 2 {
                r is None
            } else {
                match parse_u16_spec(pieces[1]) {
                    None => r is None,
                    Some(p) => r matches Some(hp) && hp.0@ == pieces[0] && hp.1 == p,
                }
            }
        }),
{
    let pieces = str_split(endpoint, ':');
    if pieces.len() < 2 {
        return None;
    }
    proof {
        assert(pieces.deep_view()[0] == pieces@[0]@);
        assert(pieces.deep_view()[1] == pieces@[1]@);
    }
    match parse_u16(pieces[1].as_str()) {
        Some(p) => Some((pieces[0].clone(), p)),
        None => None,
    }
}

/// `ip:port`, the textual socket address used to bind and to aim sends.
pub fn socket_addr_string(ip: &str, port: u16) -> (r: String)
    ensures
        r@ == ip@ + ":"@ + dec_rep(port as int),
{
    let mut out = ip.to_owned();
    out.append(":");
    let p = u16_string(port);
    out.append(p.as_str());
    proof {
        assert(out@ =~= ip@ + ":"@ + dec_rep(port as int));
    }
    out
}

/// Whether a string is a well-formed UUID text: exactly the inputs
/// `uuid::Uuid::parse_str` accepts (simple, hyphenated, braced, or URN
/// form, with case-insensitive hex digits), a function of the characters
/// alone.
pub uninterp spec fn uuid_parse_ok(s: Seq<char>) -> bool;

/// The sixteen bytes of a device identity written in UUID text form.
pub uninterp spec fn uuid_bytes_of(s: Seq<char>) -> Seq<u8>;

/// Relies on `uuid::Uuid::parse_str` and `Uuid::into_bytes`: parsing is a
/// function of the characters alone (no state or environment enters it),
/// and a parsed UUID is exactly sixteen bytes.
#[verifier::external_body]
fn parse_uuid_bytes(s: &str) -> (r: Option<Vec<u8>>)
    ensures
        (r is Some) == uuid_parse_ok(s@),
        r matches Some(v) ==> v@ == uuid_bytes_of(s@) && v@.len() == 16,
{
    match uuid::Uuid::parse_str(s) {
        Ok(u) => Some(u.into_bytes().to_vec()),
        Err(_) => None,
    }
}

/// The fixed-size identity payload: the raw bytes of the device UUID —
/// produced exactly when the identity is well-formed UUID text, `None`
/// otherwise.
pub fn heartbeat_payload(uuid: &str) -> (r: Option<Vec<u8>>)
    ensures
        (r is Some) == uuid_parse_ok(uuid@),
        r matches Some(v) ==> v@ == uuid_bytes_of(uuid@) && v@.len() == 16,
{
    parse_uuid_bytes(uuid)
}

/// The textual identity payload: the UTF-8 bytes of the device UUID
/// string, sent as-is.
pub fn heartbeat_payload_text(uuid: &str) -> (r: Vec<u8>)
    ensures
        r@ == uuid.spec_bytes(),
{
    uuid.as_bytes_vec()
}

/// What the transmitter does with one bind attempt.
#[derive(Debug, Clone, Copy, PartialEq, Eq, Structural)]
pub enum BindStep {
    /// The socket is bound: log that once and enter the send loop.
    Proceed,
    /// Bind failed: wait one fixed tick and try again, without limit and
    /// without backoff.
    RetryAfterTick,
}

/// Decide from one bind outcome. Success proceeds; failure retries on the
/// fixed interval, indefinitely.
pub fn bind_step(bound: bool) -> (r: BindStep)
    ensures
        bound ==> r == BindStep::Proceed,
        !bound ==> r == BindStep::RetryAfterTick,
{
    if bound {
        BindStep::Proceed
    } else {
        BindStep::RetryAfterTick
    }
}

/// Index of the first successful outcome, or the length if none
/// succeeded.
pub open spec fn first_success(outcomes: Seq<bool>) -> int
    decreases outcomes.len(),
{
    if outcomes.len() == 0 {
        0
    } else if outcomes[0] {
        0
    } else {
        1 + first_success(outcomes.drop_first())
    }
}

proof fn lemma_first_success_from_props(outcomes: Seq<bool>, k: int)
    requires
        0 <= k <= outcomes.len(),
        forall|j: int| 0 <= j < k ==> !outcomes[j],
        k < outcomes.len() ==> outcomes[k],
    ensures
        first_success(outcomes) == k,
    decreases k,
{
    if outcomes.len() == 0 {
    } else if k == 0 {
        if !outcomes[0] {
            lemma_first_success_from_props(outcomes.drop_first(), k);
        }
    } else {
        assert(!outcomes[0]);
        let t = outcomes.drop_first();
        assert(forall|j: int| 0 <= j < k - 1 ==> t[j] == outcomes[j + 1]);
        assert(k - 1 < t.len() ==> t[k - 1] == outcomes[k]);
        lemma_first_success_from_props(t, k - 1);
    }
}

/// The whole story of the bind phase over a sequence of attempt
/// outcomes: one retry decision per failure before the first success,
/// then the single proceed; with no success ever, retries without end.
pub open spec fn spec_bind_phase(outcomes: Seq<bool>) -> Seq<BindStep> {
    let k = first_success(outcomes);
    if k == outcomes.len() {
        Seq::new(outcomes.len(), |i: int| BindStep::RetryAfterTick)
    } else {
        Seq::new(k as nat, |i: int| BindStep::RetryAfterTick).push(BindStep::Proceed)
    }
}

/// Drive the bind phase over the given attempt outcomes, one `bind_step`
/// decision per attempt, stopping at the first success. Each
/// `RetryAfterTick` in the trace is one failed attempt followed by
/// exactly one fixed tick; the final `Proceed`, if any, is the single
/// success — logged once, and only after it does the send loop begin.
pub fn bind_phase(outcomes: &Vec<bool>) -> (r: Vec<BindStep>)
    ensures
        r@ == spec_bind_phase(outcomes@),
{
    let n: usize = outcomes.len();
    let mut trace: Vec<BindStep> = Vec::new();
    let mut i: usize = 0;
    while i < n
        invariant
            0 <= i <= n,
            n == outcomes@.len(),
            trace@.len() == i,
            forall|j: int| 0 <= j < i ==> trace@[j] == BindStep::RetryAfterTick,
            forall|j: int| 0 <= j < i ==> !outcomes@[j],
        decreases n - i,
    {
        match bind_step(outcomes[i]) {
            BindStep::Proceed => {
                trace.push(BindStep::Proceed);
                proof {
                    lemma_first_success_from_props(outcomes@, i as int);
                    assert(trace@ =~= Seq::new(i as nat, |j: int| BindStep::RetryAfterTick).push(
                        BindStep::Proceed,
                    ));
                }
                return trace;
            },
            BindStep::RetryAfterTick => {
                trace.push(BindStep::RetryAfterTick);
            },
        }
        i = i + 1;
    }
    proof {
        lemma_first_success_from_props(outcomes@, n as int);
        assert(trace@ =~= Seq::new(outcomes@.len(), |j: int| BindStep::RetryAfterTick));
    }
    trace
}

/// Law: when bind fails `k` times and then succeeds, the transmitter
/// makes exactly `k + 1` attempts — each failure orders exactly one
/// fixed-interval retry, with no backoff growth and no bound — and the
/// one success is the last bind event, logged once, before sending
/// starts. Binding that fails twice and then succeeds retries exactly
/// twice.
pub proof fn lemma_bind_retries_until_success(outcomes: Seq<bool>, k: int)
    requires
        0 <= k < outcomes.len(),
        outcomes[k],
        forall|j: int| 0 <= j < k ==> !outcomes[j],
    ensures
        spec_bind_phase(outcomes).len() == k + 1,
        forall|j: int| 0 <= j < k ==> spec_bind_phase(outcomes)[j] == BindStep::RetryAfterTick,
        spec_bind_phase(outcomes)[k] == BindStep::Proceed,
{
    lemma_first_success_from_props(outcomes, k);
}

/// What the transmitter last knew about the link.
#[derive(Debug, Clone, Copy, PartialEq, Eq, Structural)]
pub enum LinkState {
    /// No send attempted yet.
    Unknown,
    /// The last send succeeded.
    Up,
    /// The last send failed.
    Down,
}

/// What one send outcome asks the transmitter to log before the next
/// fixed-interval tick.
#[derive(Debug, Clone, Copy, PartialEq, Eq, Structural)]
pub enum SendLog {
    /// The link (re)covered: log success once.
    Recovered,
    /// The link went down: log the failure once.
    Failure,
    /// No state change: stay silent.
    Silent,
}

/// The logs the send loop emits over a sequence of send outcomes,
/// starting before any send: `Recovered` exactly where a success is the
/// first send or follows a failure, `Failure` exactly where a failure is
/// the first send or follows a success, silence everywhere else — one
/// log per state transition, never one per tick.
pub open spec fn spec_send_logs(outcomes: Seq<bool>) -> Seq<SendLog> {
    Seq::new(
        outcomes.len(),
        |i: int|
            if outcomes[i] {
                if i > 0 && outcomes[i - 1] {
                    SendLog::Silent
                } else {
                    SendLog::Recovered
                }
            } else {
                if i > 0 && !outcomes[i - 1] {
                    SendLog::Silent
                } else {
                    SendLog::Failure
                }
            },
    )
}

/// Drive the send loop's decisions over the given send outcomes, one
/// `send_step` per tick from the initial state: the emitted logs follow
/// the edge-triggered schedule exactly.
pub fn send_phase(outcomes: &Vec<bool>) -> (r: Vec<SendLog>)
    ensures
        r@ == spec_send_logs(outcomes@),
{
    let n: usize = outcomes.len();
    let mut state = LinkState::Unknown;
    let mut logs: Vec<SendLog> = Vec::new();
    let mut i: usize = 0;
    while i < n
        invariant
            0 <= i <= n,
            n == outcomes@.len(),
            logs@.len() == i,
            forall|j: int| 0 <= j < i ==> logs@[j] == spec_send_logs(outcomes@)[j],
            i == 0 ==> state == LinkState::Unknown,
            i > 0 && outcomes@[i - 1] ==> state == LinkState::Up,
            i > 0 && !outcomes@[i - 1] ==> state == LinkState::Down,
        decreases n - i,
    {
        let (next, log) = send_step(state, outcomes[i]);
        state = next;
        logs.push(log);
        i = i + 1;
    }
    proof {
        assert(logs@ =~= spec_send_logs(outcomes@));
    }
    logs
}

/// Decide from one send outcome: the new link state, and what to log.
/// Logging is edge-triggered — once per state transition, never per tick —
/// and a failure never escalates: the transmitter always just waits one
/// tick and sends again.
pub fn send_step(state: LinkState, sent: bool) -> (r: (LinkState, SendLog))
    ensures
        sent ==> r.0 == LinkState::Up,
        !sent ==> r.0 == LinkState::Down,
        sent && state != LinkState::Up ==> r.1 == SendLog::Recovered,
        sent && state == LinkState::Up ==> r.1 == SendLog::Silent,
        !sent && state != LinkState::Down ==> r.1 == SendLog::Failure,
        !sent && state == LinkState::Down ==> r.1 == SendLog::Silent,
{
    if sent {
        if state == LinkState::Up {
            (LinkState::Up, SendLog::Silent)
        } else {
            (LinkState::Up, SendLog::Recovered)
        }
    } else {
        if state == LinkState::Down {
            (LinkState::Down, SendLog::Silent)
        } else {
            (LinkState::Down, SendLog::Failure)
        }
    }
}

} // verus!
