//! Exchanges: which head may follow which, and what becomes of the connection.

use vakya::error::ErrorKind;
use vakya::proto::h1::config::Config;
use vakya::proto::h1::exchange::{Direction, Exchange, HeadAction, Outcome};
use vakya::proto::h1::head::{HeadParser, ParseOutcome, RequestRole, ResponseHead, ResponseRole};
use vakya::proto::h1::UpgradeKind;

fn exchange(wire: &[u8]) -> Exchange {
    let config = Config::default();
    let mut parser = HeadParser::<RequestRole>::request(config.head);
    let ParseOutcome::Complete { head, .. } = parser.parse(wire).unwrap() else {
        panic!("incomplete request")
    };
    Exchange::new(&head.validate().unwrap(), config.max_informational)
}

fn response(wire: &[u8]) -> ResponseHead {
    let mut parser = HeadParser::<ResponseRole>::response(Config::default().head);
    let ParseOutcome::Complete { head, .. } = parser.parse(wire).unwrap() else {
        panic!("incomplete response")
    };
    head
}

#[test]
fn early_final_preserves_upload_and_reuse_waits_for_both_directions() {
    for status in ["200 OK", "400 Bad Request", "500 Internal Server Error"] {
        for first in [Direction::Request, Direction::Response] {
            let mut state = exchange(
                b"POST / HTTP/1.1\r\nHost: example.test\r\nContent-Length: 10\r\nExpect: 100-continue\r\n\r\n",
            );
            assert!(!state.request_body_allowed());
            let (_, action) = state
                .receive_head(response(
                    format!("HTTP/1.1 {status}\r\nContent-Length: 0\r\n\r\n").as_bytes(),
                ))
                .unwrap();
            assert_eq!(action, HeadAction::Final);
            assert!(state.request_body_allowed());
            state.settle(first, true).unwrap();
            assert_eq!(state.outcome(), Outcome::Active);
            let second = if first == Direction::Request {
                Direction::Response
            } else {
                Direction::Request
            };
            state.settle(second, true).unwrap();
            assert_eq!(state.outcome(), Outcome::Reusable);
        }
    }
}

#[test]
fn abort_does_not_claim_completion_or_allow_reuse() {
    let mut state = exchange(b"GET / HTTP/1.1\r\nHost: example.test\r\n\r\n");
    state.abort();
    assert_eq!(state.outcome(), Outcome::Active);
    assert!(!state.request_body_allowed());
    state.settle(Direction::Request, false).unwrap();
    assert_eq!(state.outcome(), Outcome::Active);
    state.settle(Direction::Response, false).unwrap();
    assert_eq!(state.outcome(), Outcome::Close);
}

#[test]
fn informational_ordering_and_budget_are_enforced() {
    let mut state =
        exchange(b"POST / HTTP/1.1\r\nHost: example.test\r\nExpect: 100-continue\r\nContent-Length: 1\r\n\r\n");
    let early = b"HTTP/1.1 103 Early Hints\r\n\r\n";
    assert_eq!(
        state.receive_head(response(early)).unwrap().1,
        HeadAction::Informational
    );
    assert!(!state.request_body_allowed());
    state.receive_head(response(b"HTTP/1.1 100 Continue\r\n\r\n")).unwrap();
    assert!(state.request_body_allowed());
    for _ in 2..16 {
        state.receive_head(response(early)).unwrap();
    }
    assert_eq!(
        state.receive_head(response(early)).unwrap_err().kind(),
        ErrorKind::Limit
    );
    assert!(!state.request_body_allowed());

    let mut state = exchange(b"GET / HTTP/1.1\r\nHost: example.test\r\n\r\n");
    state
        .receive_head(response(b"HTTP/1.1 200 OK\r\nContent-Length: 0\r\n\r\n"))
        .unwrap();
    assert_eq!(
        state.receive_head(response(early)).unwrap_err().kind(),
        ErrorKind::InvalidMessage
    );
}

#[test]
fn upgrades_require_matching_intent_and_settled_directions() {
    for (request, reply, kind) in [
        (
            b"GET / HTTP/1.1\r\nHost: example.test\r\nConnection: upgrade\r\nUpgrade: websocket\r\n\r\n".as_slice(),
            b"HTTP/1.1 101 Switching Protocols\r\nConnection: upgrade\r\nUpgrade: websocket\r\n\r\n".as_slice(),
            UpgradeKind::Protocol,
        ),
        (
            b"CONNECT example.test:443 HTTP/1.1\r\nHost: example.test\r\n\r\n".as_slice(),
            b"HTTP/1.1 200 OK\r\n\r\n".as_slice(),
            UpgradeKind::Tunnel,
        ),
    ] {
        let mut state = exchange(request);
        assert_eq!(
            state.receive_head(response(reply)).unwrap().1,
            HeadAction::Upgrade(kind)
        );
        state.settle(Direction::Response, true).unwrap();
        assert_eq!(state.outcome(), Outcome::Active);
        state.settle(Direction::Request, true).unwrap();
        assert_eq!(state.outcome(), Outcome::Handoff(kind));
    }
    for request in [
        b"GET / HTTP/1.1\r\nHost: example.test\r\n\r\n".as_slice(),
        b"GET / HTTP/1.1\r\nHost: example.test\r\nConnection: upgrade\r\nUpgrade: h2c\r\n\r\n".as_slice(),
    ] {
        let mut state = exchange(request);
        assert_eq!(
            state
                .receive_head(response(
                    b"HTTP/1.1 101 Switching Protocols\r\nConnection: upgrade\r\nUpgrade: websocket\r\n\r\n"
                ))
                .unwrap_err()
                .kind(),
            ErrorKind::Upgrade
        );
    }
}

#[test]
fn close_delimited_and_explicit_close_exchanges_never_reuse() {
    for reply in [
        b"HTTP/1.1 200 OK\r\n\r\n".as_slice(),
        b"HTTP/1.1 200 OK\r\nContent-Length: 0\r\nConnection: close\r\n\r\n".as_slice(),
    ] {
        let mut state = exchange(b"GET / HTTP/1.1\r\nHost: example.test\r\n\r\n");
        state.receive_head(response(reply)).unwrap();
        state.settle(Direction::Request, true).unwrap();
        assert_eq!(state.outcome(), Outcome::Active);
        state.settle(Direction::Response, true).unwrap();
        assert_eq!(state.outcome(), Outcome::Close);
    }
}
