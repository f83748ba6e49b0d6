use doh_gateway::forward::{
    advance, forward_or_drop, step, Action, ClientEndpoint, Event, IpAddress, Report, State,
    MAX_DATAGRAM,
};
use doh_gateway::transport::{HttpOutcome, TransportError};

const FORWARD_URL: &str = "https://dns.example/dns-query";

fn forward_client(last: u32, port: u16) -> ClientEndpoint {
    ClientEndpoint { address: IpAddress::V4(0x0a00_0000 + last), port }
}

fn forward_query(id: u16) -> Vec<u8> {
    let mut bytes: Vec<u8> = vec![(id >> 8) as u8, (id & 0xff) as u8, 1, 0, 0, 1, 0, 0, 0, 0, 0, 0];
    bytes.push(7);
    bytes.extend_from_slice(b"example");
    bytes.push(3);
    bytes.extend_from_slice(b"com");
    bytes.extend_from_slice(&[0, 0, 1, 0, 1]);
    bytes
}

fn forward_ok(body: &[u8]) -> Event {
    Event::Upstream(HttpOutcome::Complete { status: 200, body: body.to_vec() })
}

/// Runs a list of outside events through the machine as a caller would and
/// returns the final state, the log, and every action that was asked for.
fn forward_run(events: Vec<Event>) -> (State, Vec<Report>, Vec<Action>) {
    let (mut state, mut log) = advance(State::Listening, Event::Proceed);
    let mut actions = vec![state.action(FORWARD_URL)];
    for event in events {
        let (next, reports) = advance(state, event);
        log.extend(reports);
        state = next;
        actions.push(state.action(FORWARD_URL));
    }
    (state, log, actions)
}

fn forward_drops(log: &[Report]) -> usize {
    log.iter()
        .filter(|r| {
            matches!(
                r,
                Report::Oversized { .. } | Report::Malformed { .. } | Report::UpstreamFailed { .. }
            )
        })
        .count()
}

fn forward_replies(log: &[Report]) -> usize {
    log.iter().filter(|r| matches!(r, Report::Replied { .. })).count()
}

fn forward_reply_actions(actions: &[Action]) -> Vec<(ClientEndpoint, Vec<u8>)> {
    let mut out = Vec::new();
    for action in actions {
        if let Action::Reply { to, payload } = action {
            out.push((*to, payload.clone()));
        }
    }
    out
}

fn forward_posts(actions: &[Action]) -> Vec<Vec<u8>> {
    let mut out = Vec::new();
    for action in actions {
        if let Action::Post(request) = action {
            out.push(request.body.clone());
        }
    }
    out
}

#[test]
fn the_datagram_limit_is_512_bytes() {
    assert_eq!(MAX_DATAGRAM, 512);
}

#[test]
fn listening_moves_to_receiving() {
    let (state, report) = step(State::Listening, Event::Proceed);
    assert!(matches!(state, State::Receiving));
    assert_eq!(report, Report::Advanced);
    assert!(matches!(State::Listening.action(FORWARD_URL), Action::Proceed));
    assert!(matches!(State::Receiving.action(FORWARD_URL), Action::Receive));
}

#[test]
fn a_received_datagram_moves_to_decoding() {
    let sender = forward_client(1, 4000);
    let (state, report) =
        step(State::Receiving, Event::Received { sender, datagram: forward_query(1) });
    match &state {
        State::Decoding { sender: s, datagram } => {
            assert_eq!(*s, sender);
            assert_eq!(*datagram, forward_query(1));
        }
        other => panic!("unexpected: {:?}", other),
    }
    assert_eq!(report, Report::Received { from: sender });
    assert!(matches!(state.action(FORWARD_URL), Action::Proceed));
}

#[test]
fn a_receive_failure_returns_to_listening() {
    let (state, report) = step(State::Receiving, Event::ReceiveFailed);
    assert!(matches!(state, State::Listening));
    assert_eq!(report, Report::ReceiveFailed);
    let (state, log) = advance(State::Receiving, Event::ReceiveFailed);
    assert!(matches!(state, State::Receiving));
    assert_eq!(log, vec![Report::ReceiveFailed, Report::Advanced]);
}

#[test]
fn a_well_formed_datagram_moves_to_forwarding_unchanged() {
    let sender = forward_client(2, 4001);
    let decoding = State::Decoding { sender, datagram: forward_query(0x4242) };
    let (state, report) = step(decoding, Event::Proceed);
    assert_eq!(report, Report::Advanced);
    match &state {
        State::Forwarding { sender: s, query } => {
            assert_eq!(*s, sender);
            assert_eq!(*query, forward_query(0x4242));
        }
        other => panic!("unexpected: {:?}", other),
    }
    match state.action(FORWARD_URL) {
        Action::Post(request) => {
            assert_eq!(request.url, FORWARD_URL);
            assert_eq!(request.content_type, "application/dns-message");
            assert_eq!(request.body, forward_query(0x4242));
        }
        other => panic!("unexpected: {:?}", other),
    }
}

#[test]
fn a_datagram_is_forwarded_or_dropped_by_its_form_alone() {
    let sender = forward_client(20, 4020);
    assert_eq!(
        forward_or_drop(sender, vec![1, 2, 3], true),
        (State::Forwarding { sender, query: vec![1, 2, 3] }, Report::Advanced)
    );
    assert_eq!(
        forward_or_drop(sender, vec![1, 2, 3], false),
        (State::Listening, Report::Malformed { from: sender })
    );
}

#[test]
fn a_malformed_datagram_is_dropped() {
    let sender = forward_client(3, 4002);
    let decoding = State::Decoding { sender, datagram: vec![1, 2, 3] };
    let (state, report) = step(decoding, Event::Proceed);
    assert!(matches!(state, State::Listening));
    assert_eq!(report, Report::Malformed { from: sender });
}

#[test]
fn an_upstream_success_moves_to_replying() {
    let sender = forward_client(4, 4003);
    let forwarding = State::Forwarding { sender, query: forward_query(1) };
    let (state, report) = step(forwarding, forward_ok(&[1, 2, 3]));
    assert_eq!(report, Report::Advanced);
    match state.action(FORWARD_URL) {
        Action::Reply { to, payload } => {
            assert_eq!(to, sender);
            assert_eq!(payload, vec![1, 2, 3]);
        }
        other => panic!("unexpected: {:?}", other),
    }
}

#[test]
fn every_upstream_failure_returns_to_listening() {
    let sender = forward_client(5, 4004);
    let cases = vec![
        (HttpOutcome::Unreachable, TransportError::Network),
        (HttpOutcome::BodyUnreadable { status: 200 }, TransportError::BodyRead),
        (HttpOutcome::Complete { status: 500, body: vec![1] }, TransportError::Status(500)),
    ];
    for (outcome, error) in cases {
        let forwarding = State::Forwarding { sender, query: forward_query(1) };
        let (state, report) = step(forwarding, Event::Upstream(outcome));
        assert!(matches!(state, State::Listening));
        assert_eq!(report, Report::UpstreamFailed { from: sender, error });
    }
}

#[test]
fn replying_returns_to_listening_either_way() {
    let sender = forward_client(6, 4005);
    let (state, report) =
        step(State::Replying { sender, response: vec![1] }, Event::ReplySent);
    assert!(matches!(state, State::Listening));
    assert_eq!(report, Report::Replied { to: sender });
    let (state, report) =
        step(State::Replying { sender, response: vec![1] }, Event::ReplyFailed);
    assert!(matches!(state, State::Listening));
    assert_eq!(report, Report::ReplyFailed { to: sender });
}

#[test]
fn an_event_that_does_not_belong_is_ignored() {
    let sender = forward_client(7, 4006);
    let (state, report) = step(State::Listening, Event::ReplySent);
    assert!(matches!(state, State::Listening));
    assert_eq!(report, Report::Ignored);
    let (state, report) = step(State::Receiving, forward_ok(&[1]));
    assert!(matches!(state, State::Receiving));
    assert_eq!(report, Report::Ignored);
    let (state, report) = step(
        State::Forwarding { sender, query: vec![9] },
        Event::Received { sender, datagram: vec![1] },
    );
    match state {
        State::Forwarding { sender: s, query } => {
            assert_eq!(s, sender);
            assert_eq!(query, vec![9]);
        }
        other => panic!("unexpected: {:?}", other),
    }
    assert_eq!(report, Report::Ignored);
    let (state, report) =
        step(State::Replying { sender, response: vec![5] }, Event::Proceed);
    assert!(matches!(state, State::Replying { .. }));
    assert_eq!(report, Report::Ignored);
}

#[test]
fn a_datagram_of_the_limit_is_accepted_and_one_byte_more_is_dropped() {
    let sender = forward_client(8, 4007);
    let mut at_limit = forward_query(1);
    at_limit.resize(MAX_DATAGRAM, 0);
    let (state, log) =
        advance(State::Receiving, Event::Received { sender, datagram: at_limit.clone() });
    match state {
        State::Forwarding { query, .. } => assert_eq!(query, at_limit),
        other => panic!("unexpected: {:?}", other),
    }
    assert_eq!(log, vec![Report::Received { from: sender }, Report::Advanced]);

    let mut over = forward_query(1);
    over.resize(MAX_DATAGRAM + 1, 0);
    let (state, log) = advance(State::Receiving, Event::Received { sender, datagram: over });
    assert!(matches!(state, State::Receiving));
    assert_eq!(log, vec![Report::Oversized { from: sender }, Report::Advanced]);
}

#[test]
fn an_empty_datagram_is_dropped_without_a_reply_and_the_loop_goes_on() {
    let first = forward_client(9, 4008);
    let second = forward_client(10, 4009);
    let (state, log, actions) = forward_run(vec![
        Event::Received { sender: first, datagram: vec![] },
        Event::Received { sender: second, datagram: forward_query(7) },
        forward_ok(&[4, 5, 6]),
        Event::ReplySent,
    ]);
    assert!(matches!(state, State::Receiving));
    assert_eq!(
        log,
        vec![
            Report::Advanced,
            Report::Received { from: first },
            Report::Malformed { from: first },
            Report::Advanced,
            Report::Received { from: second },
            Report::Advanced,
            Report::Advanced,
            Report::Replied { to: second },
            Report::Advanced,
        ]
    );
    // nothing was posted for the empty datagram and nothing was sent to its sender
    assert_eq!(forward_posts(&actions), vec![forward_query(7)]);
    assert_eq!(forward_reply_actions(&actions), vec![(second, vec![4, 5, 6])]);
}

#[test]
fn a_503_from_the_upstream_is_dropped_without_a_reply_and_the_loop_goes_on() {
    let first = forward_client(11, 4010);
    let second = forward_client(12, 4011);
    let (state, log, actions) = forward_run(vec![
        Event::Received { sender: first, datagram: forward_query(1) },
        Event::Upstream(HttpOutcome::Complete { status: 503, body: b"unavailable".to_vec() }),
        Event::Received { sender: second, datagram: forward_query(2) },
        forward_ok(&[7, 7]),
        Event::ReplySent,
    ]);
    assert!(matches!(state, State::Receiving));
    assert!(log.contains(&Report::UpstreamFailed {
        from: first,
        error: TransportError::Status(503)
    }));
    assert_eq!(forward_drops(&log), 1);
    assert_eq!(forward_replies(&log), 1);
    assert_eq!(forward_reply_actions(&actions), vec![(second, vec![7, 7])]);
    assert_eq!(forward_posts(&actions), vec![forward_query(1), forward_query(2)]);
}

#[test]
fn one_malformed_then_one_well_formed_gives_one_drop_and_one_reply() {
    let first = forward_client(13, 4012);
    let second = forward_client(14, 4013);
    let (state, log, actions) = forward_run(vec![
        Event::Received { sender: first, datagram: vec![0xff; 30] },
        Event::Received { sender: second, datagram: forward_query(3) },
        forward_ok(&[1, 2, 3, 4]),
        Event::ReplySent,
    ]);
    assert!(matches!(state, State::Receiving));
    assert_eq!(forward_drops(&log), 1);
    assert_eq!(forward_replies(&log), 1);
    assert!(log.contains(&Report::Malformed { from: first }));
    assert!(log.contains(&Report::Replied { to: second }));
    assert_eq!(forward_reply_actions(&actions), vec![(second, vec![1, 2, 3, 4])]);
}

#[test]
fn an_upstream_failure_does_not_touch_the_next_request() {
    let first = forward_client(15, 4014);
    let second = forward_client(16, 4015);
    // the second request after a failure of the first
    let (_, after_failure, actions_after_failure) = forward_run(vec![
        Event::Received { sender: first, datagram: forward_query(1) },
        Event::Upstream(HttpOutcome::Unreachable),
        Event::Received { sender: second, datagram: forward_query(2) },
        forward_ok(&[8, 8, 8]),
        Event::ReplySent,
    ]);
    // the second request alone
    let (_, alone, actions_alone) = forward_run(vec![
        Event::Received { sender: second, datagram: forward_query(2) },
        forward_ok(&[8, 8, 8]),
        Event::ReplySent,
    ]);
    assert_eq!(&after_failure[after_failure.len() - 5..], &alone[alone.len() - 5..]);
    assert_eq!(
        forward_reply_actions(&actions_after_failure),
        forward_reply_actions(&actions_alone)
    );
    assert_eq!(forward_reply_actions(&actions_alone), vec![(second, vec![8, 8, 8])]);
}

#[test]
fn the_upstream_body_is_relayed_byte_for_byte() {
    let sender = ClientEndpoint { address: IpAddress::V6(1), port: 53 };
    // a body that is no DNS message at all goes through as it is
    let bodies: Vec<Vec<u8>> = vec![
        vec![],
        vec![0],
        b"<html>upstream error page</html>".to_vec(),
        (0..=255u8).collect(),
        vec![0xab; 4096],
    ];
    for body in bodies {
        let (_, _, actions) = forward_run(vec![
            Event::Received { sender, datagram: forward_query(5) },
            forward_ok(&body),
        ]);
        assert_eq!(forward_reply_actions(&actions), vec![(sender, body)]);
    }
}

#[test]
fn a_failed_reply_costs_only_its_own_request() {
    let first = forward_client(17, 4016);
    let second = forward_client(18, 4017);
    let (state, log, _) = forward_run(vec![
        Event::Received { sender: first, datagram: forward_query(1) },
        forward_ok(&[1]),
        Event::ReplyFailed,
        Event::Received { sender: second, datagram: forward_query(2) },
        forward_ok(&[2]),
        Event::ReplySent,
    ]);
    assert!(matches!(state, State::Receiving));
    assert!(log.contains(&Report::ReplyFailed { to: first }));
    assert!(log.contains(&Report::Replied { to: second }));
    assert_eq!(forward_replies(&log), 1);
}

#[test]
fn advance_rests_only_where_the_outside_is_awaited() {
    let sender = forward_client(19, 4018);
    let (state, log) = advance(State::Listening, Event::Proceed);
    assert!(matches!(state, State::Receiving));
    assert_eq!(log, vec![Report::Advanced]);
    assert!(!state.moves_by_itself());
    let (state, _) = advance(state, Event::Received { sender, datagram: forward_query(1) });
    assert!(matches!(state, State::Forwarding { .. }));
    assert!(!state.moves_by_itself());
    let (state, _) = advance(state, forward_ok(&[1]));
    assert!(matches!(state, State::Replying { .. }));
    assert!(!state.moves_by_itself());
    let (state, log) = advance(state, Event::ReplySent);
    assert!(matches!(state, State::Receiving));
    assert_eq!(log, vec![Report::Replied { to: sender }, Report::Advanced]);
    assert!(State::Listening.moves_by_itself());
    assert!(State::Decoding { sender, datagram: vec![] }.moves_by_itself());
}
