//! The forwarding loop as a state machine.
//!
//! The machine decides; the caller acts. In every state [`State::action`] says
//! what the caller has to do, and [`step`] takes what came of it and returns
//! the next state with a report for the log. No state is terminal and no
//! failure leaves the machine anywhere but back at `Listening`, so one bad
//! datagram or one failed upstream call costs exactly the request it belongs
//! to.

use crate::codec::{decoded, is_well_formed};
use crate::transport::{
    doh_request, payload_of, request_for, response_bytes, DohRequest, DohRequestView,
    HttpOutcome, HttpOutcomeView, TransportError,
};
use vstd::prelude::*;

verus! {

/// The largest datagram the gateway accepts, in bytes.
pub const MAX_DATAGRAM: usize = 512;

/// An IP address as a number: the four bytes of an IPv4 address or the sixteen
/// of an IPv6 address, most significant byte first.
#[derive(Clone, Copy, Debug, PartialEq, Eq, Structural)]
pub enum IpAddress {
    V4(u32),
    V6(u128),
}

/// The UDP address of the client whose request is being served. It is held for
/// one request cycle and gone when the machine is back at `Listening`.
#[derive(Clone, Copy, Debug, PartialEq, Eq, Structural)]
pub struct ClientEndpoint {
    pub address: IpAddress,
    pub port: u16,
}

/// Where the loop stands.
#[derive(Clone, Debug, PartialEq, Eq)]
pub enum State {
    /// Between requests.
    Listening,
    /// Waiting on the socket for the next datagram.
    Receiving,
    /// A datagram arrived and is about to be checked.
    Decoding { sender: ClientEndpoint, datagram: Vec<u8> },
    /// The query is with the upstream.
    Forwarding { sender: ClientEndpoint, query: Vec<u8> },
    /// The upstream's response is on its way back to the sender.
    Replying { sender: ClientEndpoint, response: Vec<u8> },
}

/// Mathematical value of a [`State`].
pub enum StateView {
    Listening,
    Receiving,
    Decoding { sender: ClientEndpoint, datagram: Seq<u8> },
    Forwarding { sender: ClientEndpoint, query: Seq<u8> },
    Replying { sender: ClientEndpoint, response: Seq<u8> },
}

impl View for State {
    type V = StateView;

    open spec fn view(&self) -> StateView {
        match *self {
            State::Listening => StateView::Listening,
            State::Receiving => StateView::Receiving,
            State::Decoding { sender, datagram } => StateView::Decoding {
                sender,
                datagram: datagram@,
            },
            State::Forwarding { sender, query } => StateView::Forwarding { sender, query: query@ },
            State::Replying { sender, response } => StateView::Replying {
                sender,
                response: response@,
            },
        }
    }
}

/// What the caller reports back to the machine.
#[derive(Clone, Debug, PartialEq, Eq)]
pub enum Event {
    /// Nothing happened outside: the machine is asked to move on by itself.
    Proceed,
    /// A datagram arrived.
    Received { sender: ClientEndpoint, datagram: Vec<u8> },
    /// Reading from the socket failed.
    ReceiveFailed,
    /// The POST to the upstream ended.
    Upstream(HttpOutcome),
    /// The response was written to the socket.
    ReplySent,
    /// Writing the response to the socket failed.
    ReplyFailed,
}

/// Mathematical value of an [`Event`].
pub enum EventView {
    Proceed,
    Received { sender: ClientEndpoint, datagram: Seq<u8> },
    ReceiveFailed,
    Upstream(HttpOutcomeView),
    ReplySent,
    ReplyFailed,
}

impl View for Event {
    type V = EventView;

    open spec fn view(&self) -> EventView {
        match *self {
            Event::Proceed => EventView::Proceed,
            Event::Received { sender, datagram } => EventView::Received {
                sender,
                datagram: datagram@,
            },
            Event::ReceiveFailed => EventView::ReceiveFailed,
            Event::Upstream(outcome) => EventView::Upstream(outcome@),
            Event::ReplySent => EventView::ReplySent,
            Event::ReplyFailed => EventView::ReplyFailed,
        }
    }
}

/// What the caller has to do next.
#[derive(Clone, Debug, PartialEq, Eq)]
pub enum Action {
    /// Nothing outside: report [`Event::Proceed`].
    Proceed,
    /// Wait for the next datagram and report it, or the failure to read it.
    Receive,
    /// Issue this POST and report its outcome.
    Post(DohRequest),
    /// Send this payload to this client as one datagram and report whether it
    /// went out.
    Reply { to: ClientEndpoint, payload: Vec<u8> },
}

/// Mathematical value of an [`Action`].
pub enum ActionView {
    Proceed,
    Receive,
    Post(DohRequestView),
    Reply { to: ClientEndpoint, payload: Seq<u8> },
}

impl View for Action {
    type V = ActionView;

    open spec fn view(&self) -> ActionView {
        match *self {
            Action::Proceed => ActionView::Proceed,
            Action::Receive => ActionView::Receive,
            Action::Post(request) => ActionView::Post(request@),
            Action::Reply { to, payload } => ActionView::Reply { to, payload: payload@ },
        }
    }
}

/// What one step did, for the log.
#[derive(Clone, Copy, Debug, PartialEq, Eq, Structural)]
pub enum Report {
    /// The machine moved on; there is nothing to log.
    Advanced,
    /// Reading from the socket failed; the loop goes on.
    ReceiveFailed,
    /// A datagram of acceptable size arrived from this client.
    Received { from: ClientEndpoint },
    /// A datagram over the size limit was dropped; no reply is sent.
    Oversized { from: ClientEndpoint },
    /// A datagram that is no well-formed DNS message was dropped; no reply is
    /// sent.
    Malformed { from: ClientEndpoint },
    /// The upstream gave no payload; the request is dropped and no reply is
    /// sent.
    UpstreamFailed { from: ClientEndpoint, error: TransportError },
    /// The response went out to this client.
    Replied { to: ClientEndpoint },
    /// The response could not be written to the socket.
    ReplyFailed { to: ClientEndpoint },
    /// The event does not belong to the state and was ignored.
    Ignored,
}

/// The action that a state asks for.
pub open spec fn action_of(state: StateView, upstream_url: Seq<char>) -> ActionView {
    match state {
        StateView::Listening => ActionView::Proceed,
        StateView::Receiving => ActionView::Receive,
        StateView::Decoding { .. } => ActionView::Proceed,
        StateView::Forwarding { sender, query } => ActionView::Post(
            request_for(upstream_url, query),
        ),
        StateView::Replying { sender, response } => ActionView::Reply {
            to: sender,
            payload: response,
        },
    }
}

/// The transition function: the state and the report that follow an event.
pub open spec fn next(state: StateView, event: EventView) -> (StateView, Report) {
    match (state, event) {
        (StateView::Listening, EventView::Proceed) => (StateView::Receiving, Report::Advanced),
        (StateView::Receiving, EventView::Received { sender, datagram }) => {
            if datagram.len() > MAX_DATAGRAM {
                (StateView::Listening, Report::Oversized { from: sender })
            } else {
                (StateView::Decoding { sender, datagram }, Report::Received { from: sender })
            }
        },
        (StateView::Receiving, EventView::ReceiveFailed) => (
            StateView::Listening,
            Report::ReceiveFailed,
        ),
        (StateView::Decoding { sender, datagram }, EventView::Proceed) => {
            if decoded(datagram) is Some {
                (StateView::Forwarding { sender, query: datagram }, Report::Advanced)
            } else {
                (StateView::Listening, Report::Malformed { from: sender })
            }
        },
        (StateView::Forwarding { sender, query }, EventView::Upstream(outcome)) => {
            match payload_of(outcome) {
                Ok(body) => (StateView::Replying { sender, response: body }, Report::Advanced),
                Err(error) => (
                    StateView::Listening,
                    Report::UpstreamFailed { from: sender, error },
                ),
            }
        },
        (StateView::Replying { sender, response }, EventView::ReplySent) => (
            StateView::Listening,
            Report::Replied { to: sender },
        ),
        (StateView::Replying { sender, response }, EventView::ReplyFailed) => (
            StateView::Listening,
            Report::ReplyFailed { to: sender },
        ),
        _ => (state, Report::Ignored),
    }
}

impl State {
    /// What the caller has to do in this state. A query goes to the upstream
    /// as it arrived and a response goes to the client as the upstream sent
    /// it, byte for byte.
    pub fn action(&self, upstream_url: &str) -> (a: Action)
        ensures
            a@ == action_of(self@, upstream_url@),
    {
        match self {
            State::Listening => Action::Proceed,
            State::Receiving => Action::Receive,
            State::Decoding { .. } => Action::Proceed,
            State::Forwarding { sender, query } => Action::Post(
                doh_request(upstream_url, query.as_slice()),
            ),
            State::Replying { sender, response } => Action::Reply {
                to: *sender,
                payload: response.clone(),
            },
        }
    }
}

/// What becomes of a datagram once it is known whether it is a well-formed
/// DNS message: it is forwarded as it arrived, or dropped.
pub fn forward_or_drop(sender: ClientEndpoint, datagram: Vec<u8>, well_formed: bool) -> (r: (
    State,
    Report,
))
    ensures
        well_formed ==> r.0@ == (StateView::Forwarding { sender, query: datagram@ }) && r.1
            == Report::Advanced,
        !well_formed ==> r.0@ == StateView::Listening && r.1 == (Report::Malformed {
            from: sender,
        }),
{
    if well_formed {
        (State::Forwarding { sender, query: datagram }, Report::Advanced)
    } else {
        (State::Listening, Report::Malformed { from: sender })
    }
}

/// Takes one step: the state and the report that follow the event.
///
/// An event that does not belong to the state changes nothing and is reported
/// as ignored. A datagram shorter than a DNS header is never forwarded.
pub fn step(state: State, event: Event) -> (r: (State, Report))
    ensures
        (r.0@, r.1) == next(state@, event@),
        state@ is Decoding && event@ is Proceed && state@->Decoding_datagram.len() < 12
            ==> r.0@ is Listening,
{
    match (state, event) {
        (State::Listening, Event::Proceed) => (State::Receiving, Report::Advanced),
        (State::Receiving, Event::Received { sender, datagram }) => {
            if datagram.len() > MAX_DATAGRAM {
                (State::Listening, Report::Oversized { from: sender })
            } else {
                (State::Decoding { sender, datagram }, Report::Received { from: sender })
            }
        },
        (State::Receiving, Event::ReceiveFailed) => (State::Listening, Report::ReceiveFailed),
        (State::Decoding { sender, datagram }, Event::Proceed) => {
            let well_formed = is_well_formed(datagram.as_slice());
            forward_or_drop(sender, datagram, well_formed)
        },
        (State::Forwarding { sender, query }, Event::Upstream(outcome)) => {
            match response_bytes(outcome) {
                Ok(body) => (State::Replying { sender, response: body }, Report::Advanced),
                Err(error) => (State::Listening, Report::UpstreamFailed { from: sender, error }),
            }
        },
        (State::Replying { sender, response }, Event::ReplySent) => (
            State::Listening,
            Report::Replied { to: sender },
        ),
        (State::Replying { sender, response }, Event::ReplyFailed) => (
            State::Listening,
            Report::ReplyFailed { to: sender },
        ),
        (state, _) => (state, Report::Ignored),
    }
}

/// How many steps a state can take by itself before it waits for the outside.
pub open spec fn own_steps(state: StateView) -> nat {
    match state {
        StateView::Decoding { .. } => 2,
        StateView::Listening => 1,
        _ => 0,
    }
}

/// The state in which the machine comes to rest when it is left to proceed by
/// itself, with the reports of the steps it took: `Receiving`, `Forwarding` or
/// `Replying`, each of which waits for an outside event.
pub open spec fn settle(state: StateView) -> (StateView, Seq<Report>)
    decreases own_steps(state),
{
    if own_steps(state) == 0 {
        (state, Seq::empty())
    } else {
        let (after, report) = next(state, EventView::Proceed);
        let (rest, reports) = settle(after);
        (rest, seq![report] + reports)
    }
}

/// One outside event taken to its end: the step it causes and every step the
/// machine then takes by itself.
pub open spec fn drive(state: StateView, event: EventView) -> (StateView, Seq<Report>) {
    let (after, report) = next(state, event);
    let (rest, reports) = settle(after);
    (rest, seq![report] + reports)
}

/// A run of outside events, each taken to its end, with all reports in order.
pub open spec fn serve(state: StateView, events: Seq<EventView>) -> (StateView, Seq<Report>)
    decreases events.len(),
{
    if events.len() == 0 {
        (state, Seq::empty())
    } else {
        let (after, reports) = drive(state, events[0]);
        let (rest, more) = serve(after, events.drop_first());
        (rest, reports + more)
    }
}

/// Whether a report records a request that was dropped without a reply.
pub open spec fn is_drop(report: Report) -> bool {
    report is Oversized || report is Malformed || report is UpstreamFailed
}

/// How many reports of a log satisfy a predicate.
pub open spec fn count(log: Seq<Report>, wanted: spec_fn(Report) -> bool) -> nat
    decreases log.len(),
{
    if log.len() == 0 {
        0
    } else {
        count(log.drop_last(), wanted) + if wanted(log.last()) {
            1nat
        } else {
            0nat
        }
    }
}

/// How many requests a log records as dropped.
pub open spec fn drops(log: Seq<Report>) -> nat {
    count(log, |r: Report| is_drop(r))
}

/// How many requests a log records as answered.
pub open spec fn replies(log: Seq<Report>) -> nat {
    count(log, |r: Report| r is Replied)
}

impl State {
    /// Whether this state moves on by itself rather than waiting for the
    /// outside.
    pub fn moves_by_itself(&self) -> (b: bool)
        ensures
            b == (own_steps(self@) > 0),
            forall|upstream_url: Seq<char>|
                b == (#[trigger] action_of(self@, upstream_url) is Proceed),
    {
        match self {
            State::Listening => true,
            State::Decoding { .. } => true,
            _ => false,
        }
    }
}

/// Whether a state is one through which a datagram too short for a header
/// passes on its way out: it is about to be checked, or it is gone.
pub open spec fn on_the_way_out(state: StateView) -> bool {
    match state {
        StateView::Decoding { sender, datagram } => datagram.len() < 12,
        StateView::Listening => true,
        StateView::Receiving => true,
        _ => false,
    }
}

/// Takes an outside event to its end: the step it causes, then every step
/// the machine takes by itself, until it waits for the outside again. Returns
/// the state it rests in and the reports of all steps in order.
///
/// A datagram shorter than a DNS header is never forwarded: the machine is
/// back to waiting for the next one.
pub fn advance(state: State, event: Event) -> (r: (State, Vec<Report>))
    ensures
        (r.0@, r.1@) == drive(state@, event@),
        own_steps(r.0@) == 0,
        state@ is Receiving && event@ is Received && event@->Received_datagram.len() < 12
            ==> r.0@ is Receiving,
{
    let ghost short = state@ is Receiving && event@ is Received
        && event@->Received_datagram.len() < 12;
    let (first_state, first_report) = step(state, event);
    let mut current = first_state;
    let mut reports: Vec<Report> = Vec::new();
    reports.push(first_report);
    let ghost target = drive(state@, event@);
    assert(reports@ + settle(current@).1 =~= target.1);
    while current.moves_by_itself()
        invariant
            settle(current@).0 == target.0,
            reports@ + settle(current@).1 == target.1,
            short ==> on_the_way_out(current@),
        decreases own_steps(current@),
    {
        let ghost before = current@;
        let (after, report) = step(current, Event::Proceed);
        proof {
            assert(reports@.push(report) + settle(after@).1 =~= reports@ + settle(before).1);
        }
        reports.push(report);
        current = after;
    }
    assert(reports@ + settle(current@).1 =~= reports@);
    (current, reports)
}

proof fn lemma_count_push(log: Seq<Report>, report: Report, wanted: spec_fn(Report) -> bool)
    ensures
        count(log.push(report), wanted) == count(log, wanted) + if wanted(report) {
            1nat
        } else {
            0nat
        },
{
    assert(log.push(report).drop_last() =~= log);
}

proof fn lemma_count_concat(left: Seq<Report>, right: Seq<Report>, wanted: spec_fn(Report) -> bool)
    ensures
        count(left + right, wanted) == count(left, wanted) + count(right, wanted),
    decreases right.len(),
{
    if right.len() == 0 {
        assert(left + right =~= left);
    } else {
        lemma_count_concat(left, right.drop_last(), wanted);
        assert((left + right).drop_last() =~= left + right.drop_last());
    }
}

proof fn lemma_count_one(report: Report, wanted: spec_fn(Report) -> bool)
    ensures
        count(seq![report], wanted) == if wanted(report) {
            1nat
        } else {
            0nat
        },
{
    assert(seq![report] =~= Seq::<Report>::empty().push(report));
    lemma_count_push(Seq::empty(), report, wanted);
}

proof fn lemma_count_two(first: Report, second: Report, wanted: spec_fn(Report) -> bool)
    ensures
        count(seq![first] + seq![second], wanted) == count(seq![first], wanted) + count(
            seq![second],
            wanted,
        ),
{
    lemma_count_concat(seq![first], seq![second], wanted);
}

proof fn lemma_serve_concat(state: StateView, first: Seq<EventView>, rest: Seq<EventView>)
    ensures
        serve(state, first + rest).0 == serve(serve(state, first).0, rest).0,
        serve(state, first + rest).1 == serve(state, first).1 + serve(
            serve(state, first).0,
            rest,
        ).1,
    decreases first.len(),
{
    if first.len() == 0 {
        assert(first + rest =~= rest);
        assert(serve(state, first).1 + serve(state, rest).1 =~= serve(state, rest).1);
    } else {
        let after = drive(state, first[0]).0;
        assert((first + rest).drop_first() =~= first.drop_first() + rest);
        assert((first + rest)[0] == first[0]);
        lemma_serve_concat(after, first.drop_first(), rest);
        assert(drive(state, first[0]).1 + (serve(after, first.drop_first()).1 + serve(
            serve(after, first.drop_first()).0,
            rest,
        ).1) =~= (drive(state, first[0]).1 + serve(after, first.drop_first()).1) + serve(
            serve(after, first.drop_first()).0,
            rest,
        ).1);
    }
}

proof fn lemma_serve_one(state: StateView, event: EventView)
    ensures
        serve(state, seq![event]) == drive(state, event),
{
    reveal_with_fuel(serve, 2);
    assert(seq![event].drop_first() =~= Seq::<EventView>::empty());
    assert(drive(state, event).1 + Seq::<Report>::empty() =~= drive(state, event).1);
}

/// Left to itself the machine always comes to rest in a state that waits for
/// the outside, and so does every outside event taken to its end: there is no
/// terminal state and no state in which the loop is stuck.
pub proof fn law_always_comes_to_rest(state: StateView, event: EventView)
    ensures
        own_steps(settle(state).0) == 0,
        own_steps(drive(state, event).0) == 0,
        forall|upstream_url: Seq<char>|
            !(#[trigger] action_of(drive(state, event).0, upstream_url) is Proceed),
{
    reveal_with_fuel(settle, 3);
}

/// A dropped datagram, whatever was wrong with it, puts the machine back to
/// waiting for the next one with exactly one drop in the log.
pub proof fn law_bad_datagram_is_dropped(sender: ClientEndpoint, datagram: Seq<u8>)
    requires
        datagram.len() > MAX_DATAGRAM || decoded(datagram) is None,
    ensures
        drive(StateView::Receiving, EventView::Received { sender, datagram }).0
            == StateView::Receiving,
        drops(drive(StateView::Receiving, EventView::Received { sender, datagram }).1) == 1,
        replies(drive(StateView::Receiving, EventView::Received { sender, datagram }).1) == 0,
{
    reveal_with_fuel(settle, 3);
    let log = drive(StateView::Receiving, EventView::Received { sender, datagram }).1;
    let is_a_drop = |r: Report| is_drop(r);
    let is_a_reply = |r: Report| r is Replied;
    if datagram.len() > MAX_DATAGRAM {
        assert(log =~= seq![Report::Oversized { from: sender }] + seq![Report::Advanced]);
        lemma_count_concat(
            seq![Report::Oversized { from: sender }],
            seq![Report::Advanced],
            is_a_drop,
        );
        lemma_count_concat(
            seq![Report::Oversized { from: sender }],
            seq![Report::Advanced],
            is_a_reply,
        );
        lemma_count_one(Report::Oversized { from: sender }, is_a_drop);
        lemma_count_one(Report::Oversized { from: sender }, is_a_reply);
    } else {
        assert(log =~= seq![Report::Received { from: sender }] + (seq![
            Report::Malformed { from: sender },
        ] + seq![Report::Advanced]));
        lemma_count_concat(
            seq![Report::Received { from: sender }],
            seq![Report::Malformed { from: sender }] + seq![Report::Advanced],
            is_a_drop,
        );
        lemma_count_concat(
            seq![Report::Malformed { from: sender }],
            seq![Report::Advanced],
            is_a_drop,
        );
        lemma_count_concat(
            seq![Report::Received { from: sender }],
            seq![Report::Malformed { from: sender }] + seq![Report::Advanced],
            is_a_reply,
        );
        lemma_count_concat(
            seq![Report::Malformed { from: sender }],
            seq![Report::Advanced],
            is_a_reply,
        );
        lemma_count_one(Report::Received { from: sender }, is_a_drop);
        lemma_count_one(Report::Received { from: sender }, is_a_reply);
        lemma_count_one(Report::Malformed { from: sender }, is_a_drop);
        lemma_count_one(Report::Malformed { from: sender }, is_a_reply);
    }
    lemma_count_one(Report::Advanced, is_a_drop);
    lemma_count_one(Report::Advanced, is_a_reply);
}

/// The events of one request that goes well: its datagram arrives, the
/// upstream answers, the reply goes out.
pub open spec fn good_cycle(
    sender: ClientEndpoint,
    datagram: Seq<u8>,
    outcome: HttpOutcomeView,
) -> Seq<EventView> {
    seq![EventView::Received { sender, datagram }] + seq![EventView::Upstream(outcome)]
        + seq![EventView::ReplySent]
}

/// Passthrough. A well-formed datagram within the size limit is posted to the
/// upstream exactly as it arrived, and what the upstream returns is sent to
/// the client that asked exactly as it was returned. The machine then waits
/// for the next datagram, with one reply and no drop in the log.
pub proof fn law_good_datagram_is_relayed(
    sender: ClientEndpoint,
    datagram: Seq<u8>,
    outcome: HttpOutcomeView,
    body: Seq<u8>,
    upstream_url: Seq<char>,
)
    requires
        datagram.len() <= MAX_DATAGRAM,
        decoded(datagram) is Some,
        payload_of(outcome) == Ok::<Seq<u8>, TransportError>(body),
    ensures
        ({
            let forwarding = drive(StateView::Receiving, EventView::Received { sender, datagram }).0;
            let replying = drive(forwarding, EventView::Upstream(outcome)).0;
            &&& forwarding == StateView::Forwarding { sender, query: datagram }
            &&& action_of(forwarding, upstream_url) == ActionView::Post(
                request_for(upstream_url, datagram),
            )
            &&& replying == StateView::Replying { sender, response: body }
            &&& action_of(replying, upstream_url) == ActionView::Reply { to: sender, payload: body }
            &&& drive(replying, EventView::ReplySent).0 == StateView::Receiving
        }),
        serve(StateView::Receiving, good_cycle(sender, datagram, outcome)).0
            == StateView::Receiving,
        drops(serve(StateView::Receiving, good_cycle(sender, datagram, outcome)).1) == 0,
        replies(serve(StateView::Receiving, good_cycle(sender, datagram, outcome)).1) == 1,
{
    reveal_with_fuel(settle, 3);
    let received = EventView::Received { sender, datagram };
    let answered = EventView::Upstream(outcome);
    let forwarding = StateView::Forwarding { sender, query: datagram };
    let replying = StateView::Replying { sender, response: body };
    let is_a_drop = |r: Report| is_drop(r);
    let is_a_reply = |r: Report| r is Replied;

    let first = drive(StateView::Receiving, received);
    let second = drive(forwarding, answered);
    let third = drive(replying, EventView::ReplySent);
    assert(first.1 =~= seq![Report::Received { from: sender }] + seq![Report::Advanced]);
    assert(second.1 =~= seq![Report::Advanced]);
    assert(third.1 =~= seq![Report::Replied { to: sender }] + seq![Report::Advanced]);

    lemma_serve_one(StateView::Receiving, received);
    lemma_serve_one(forwarding, answered);
    lemma_serve_one(replying, EventView::ReplySent);
    lemma_serve_concat(StateView::Receiving, seq![received], seq![answered]);
    lemma_serve_concat(
        StateView::Receiving,
        seq![received] + seq![answered],
        seq![EventView::ReplySent],
    );
    let log = serve(StateView::Receiving, good_cycle(sender, datagram, outcome)).1;
    assert(log == (first.1 + second.1) + third.1);

    lemma_count_concat(first.1 + second.1, third.1, is_a_drop);
    lemma_count_concat(first.1, second.1, is_a_drop);
    lemma_count_concat(first.1 + second.1, third.1, is_a_reply);
    lemma_count_concat(first.1, second.1, is_a_reply);
    lemma_count_two(Report::Received { from: sender }, Report::Advanced, is_a_drop);
    lemma_count_two(Report::Received { from: sender }, Report::Advanced, is_a_reply);
    lemma_count_two(Report::Replied { to: sender }, Report::Advanced, is_a_drop);
    lemma_count_two(Report::Replied { to: sender }, Report::Advanced, is_a_reply);
    lemma_count_one(Report::Received { from: sender }, is_a_drop);
    lemma_count_one(Report::Received { from: sender }, is_a_reply);
    lemma_count_one(Report::Replied { to: sender }, is_a_drop);
    lemma_count_one(Report::Replied { to: sender }, is_a_reply);
    lemma_count_one(Report::Advanced, is_a_drop);
    lemma_count_one(Report::Advanced, is_a_reply);
}

/// Resilience. One bad datagram followed by one request that goes well gives
/// exactly one drop and one reply, and leaves the machine waiting for the next
/// datagram.
pub proof fn law_bad_then_good(
    first_sender: ClientEndpoint,
    bad: Seq<u8>,
    second_sender: ClientEndpoint,
    good: Seq<u8>,
    outcome: HttpOutcomeView,
)
    requires
        bad.len() > MAX_DATAGRAM || decoded(bad) is None,
        good.len() <= MAX_DATAGRAM,
        decoded(good) is Some,
        payload_of(outcome) is Ok,
    ensures
        ({
            let events = seq![EventView::Received { sender: first_sender, datagram: bad }]
                + good_cycle(second_sender, good, outcome);
            let (rest, log) = serve(StateView::Receiving, events);
            &&& rest == StateView::Receiving
            &&& drops(log) == 1
            &&& replies(log) == 1
        }),
{
    let dropped = EventView::Received { sender: first_sender, datagram: bad };
    let cycle = good_cycle(second_sender, good, outcome);
    law_bad_datagram_is_dropped(first_sender, bad);
    law_good_datagram_is_relayed(
        second_sender,
        good,
        outcome,
        payload_of(outcome)->Ok_0,
        Seq::empty(),
    );
    lemma_serve_one(StateView::Receiving, dropped);
    lemma_serve_concat(StateView::Receiving, seq![dropped], cycle);
    lemma_count_concat(
        serve(StateView::Receiving, seq![dropped]).1,
        serve(StateView::Receiving, cycle).1,
        |r: Report| is_drop(r),
    );
    lemma_count_concat(
        serve(StateView::Receiving, seq![dropped]).1,
        serve(StateView::Receiving, cycle).1,
        |r: Report| r is Replied,
    );
}

/// Isolation. A request whose upstream call fails is dropped without a reply,
/// and the machine is then in the very state in which it waits for its first
/// datagram. So the next request, once the upstream answers again, is served
/// exactly as it would have been had the failure never happened: it gets its
/// reply.
pub proof fn law_upstream_failure_is_isolated(
    sender: ClientEndpoint,
    query: Seq<u8>,
    failure: HttpOutcomeView,
    next_sender: ClientEndpoint,
    next_datagram: Seq<u8>,
    recovered: HttpOutcomeView,
)
    requires
        payload_of(failure) is Err,
        next_datagram.len() <= MAX_DATAGRAM,
        decoded(next_datagram) is Some,
        payload_of(recovered) is Ok,
    ensures
        ({
            let failed = drive(
                StateView::Forwarding { sender, query },
                EventView::Upstream(failure),
            );
            let next_cycle = good_cycle(next_sender, next_datagram, recovered);
            let after_failure = serve(failed.0, next_cycle);
            let from_the_start = serve(settle(StateView::Listening).0, next_cycle);
            &&& failed.0 == StateView::Receiving
            &&& drops(failed.1) == 1
            &&& replies(failed.1) == 0
            &&& after_failure == from_the_start
            &&& after_failure.0 == StateView::Receiving
            &&& drops(after_failure.1) == 0
            &&& replies(after_failure.1) == 1
        }),
{
    reveal_with_fuel(settle, 3);
    let error = payload_of(failure)->Err_0;
    let failed = Report::UpstreamFailed { from: sender, error };
    let log = drive(StateView::Forwarding { sender, query }, EventView::Upstream(failure)).1;
    assert(log =~= seq![failed] + seq![Report::Advanced]);
    lemma_count_two(failed, Report::Advanced, |r: Report| is_drop(r));
    lemma_count_two(failed, Report::Advanced, |r: Report| r is Replied);
    lemma_count_one(failed, |r: Report| is_drop(r));
    lemma_count_one(failed, |r: Report| r is Replied);
    lemma_count_one(Report::Advanced, |r: Report| is_drop(r));
    lemma_count_one(Report::Advanced, |r: Report| r is Replied);
    law_good_datagram_is_relayed(
        next_sender,
        next_datagram,
        recovered,
        payload_of(recovered)->Ok_0,
        Seq::empty(),
    );
}

} // verus!
