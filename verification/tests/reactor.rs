use http_reactor::address::{Address, AddressV4};
use http_reactor::client::{begin_get, finish_get};
use http_reactor::connection::{
    Action, EventSet, Message, Method, Phase, PollOpt, Request, StopReason, Token,
};
use http_reactor::reactor::{Reactor, INITIAL_SLOTS};
use http_reactor::url::{Target, Url};

fn addr() -> Address {
    Address::V4(AddressV4 { ip: 0x7f00_0001, port: 80 })
}

fn request(text: &str) -> Request {
    Request { url: Url::parse(text).expect("a valid URL"), addr: addr() }
}

fn events(readable: bool, writable: bool, hup: bool) -> EventSet {
    EventSet { readable, writable, error: false, hup }
}

fn open(reactor: &mut Reactor, text: &str) -> Token {
    let actions = reactor.notify(Message::Req(request(text)));
    assert_eq!(actions.len(), 1);
    let token = match &actions[0] {
        Action::Open { token, .. } => *token,
        other => panic!("expected an open, got {:?}", other),
    };
    assert!(reactor.opened(token, true).is_empty());
    token
}

#[test]
fn a_new_reactor_runs_with_an_empty_table() {
    let reactor = Reactor::new();
    assert!(reactor.is_running());
    assert_eq!(reactor.in_flight(), 0);
    assert!(reactor.find_connection_by_token(Token(0)).is_none());
    assert_eq!(INITIAL_SLOTS, 128);
}

#[test]
fn a_request_is_given_a_slot_and_ordered_to_open() {
    let mut reactor = Reactor::new();
    let actions = reactor.notify(Message::Req(request("http://example.test/")));
    assert_eq!(actions.len(), 1);
    let token = match &actions[0] {
        Action::Open { token, addr: a, interest, options } => {
            assert_eq!(*a, addr());
            assert_eq!(
                *interest,
                EventSet { readable: true, writable: true, error: false, hup: false }
            );
            assert_eq!(*options, PollOpt { edge: true, level: false, oneshot: true });
            *token
        },
        other => panic!("expected an open, got {:?}", other),
    };
    assert!(reactor.is_running());
    assert_eq!(reactor.in_flight(), 1);
    let conn = reactor.find_connection_by_token(token).expect("in flight");
    assert_eq!(conn.token, token);
    assert_eq!(conn.url.text, "http://example.test/");
    assert_eq!(conn.phase, Phase::Connecting);
}

#[test]
fn a_successful_open_awaits_writability() {
    let mut reactor = Reactor::new();
    let token = open(&mut reactor, "http://example.test/");
    assert_eq!(
        reactor.find_connection_by_token(token).unwrap().phase,
        Phase::AwaitingWritable
    );
    assert!(reactor.opened(token, true).is_empty());
    assert_eq!(
        reactor.find_connection_by_token(token).unwrap().phase,
        Phase::AwaitingWritable
    );
    assert!(reactor.opened(Token(77), true).is_empty());
    assert_eq!(reactor.in_flight(), 1);
}

#[test]
fn a_failed_open_stops_the_reactor() {
    let mut reactor = Reactor::new();
    let first = open(&mut reactor, "http://example.test/");
    let actions = reactor.notify(Message::Req(request("http://refused.test/")));
    let second = match &actions[0] {
        Action::Open { token, .. } => *token,
        other => panic!("expected an open, got {:?}", other),
    };
    assert_ne!(first, second);
    let actions = reactor.opened(second, false);
    assert_eq!(actions, vec![Action::Stop { reason: StopReason::OpenFailed }]);
    assert!(!reactor.is_running());
    assert_eq!(reactor.in_flight(), 0);
    assert!(reactor.find_connection_by_token(first).is_none());
}

#[test]
fn writability_sends_the_request_head() {
    let mut reactor = Reactor::new();
    let token = open(&mut reactor, "http://example.test:8080/index.html");
    let actions = reactor.ready(token, events(false, true, false));
    assert_eq!(actions.len(), 1);
    match &actions[0] {
        Action::SendRequest { token: t, head } => {
            assert_eq!(*t, token);
            assert_eq!(head.method, Method::Get);
            assert_eq!(head.url.text, "http://example.test:8080/index.html");
            assert_eq!(head.hostname, "example.test");
            assert_eq!(head.port, Some(8080));
            assert!(head.keep_alive);
        },
        other => panic!("expected a request head, got {:?}", other),
    }
    assert_eq!(reactor.in_flight(), 1);
    assert_eq!(
        reactor.find_connection_by_token(token).unwrap().phase,
        Phase::AwaitingReadable
    );
}

#[test]
fn the_host_header_of_an_ip_url_is_empty() {
    let mut reactor = Reactor::new();
    let token = open(&mut reactor, "http://127.0.0.1/");
    let actions = reactor.ready(token, events(false, true, false));
    match &actions[0] {
        Action::SendRequest { head, .. } => {
            assert_eq!(head.hostname, "");
            assert_eq!(head.port, None);
        },
        other => panic!("expected a request head, got {:?}", other),
    }
}

#[test]
fn readability_completes_the_connection() {
    let mut reactor = Reactor::new();
    let token = open(&mut reactor, "http://example.test/");
    reactor.ready(token, events(false, true, false));
    let actions = reactor.ready(token, events(true, false, false));
    assert_eq!(actions.len(), 1);
    match &actions[0] {
        Action::Complete { connection } => {
            assert_eq!(connection.token, token);
            assert_eq!(connection.url.text, "http://example.test/");
            assert_eq!(connection.phase, Phase::AwaitingReadable);
        },
        other => panic!("expected a completion, got {:?}", other),
    }
    assert_eq!(reactor.in_flight(), 0);
    assert!(reactor.find_connection_by_token(token).is_none());
    assert!(reactor.is_running());
}

#[test]
fn readability_alone_completes_without_a_write() {
    let mut reactor = Reactor::new();
    let token = open(&mut reactor, "http://example.test/");
    let actions = reactor.ready(token, events(true, false, false));
    assert_eq!(actions.len(), 1);
    match &actions[0] {
        Action::Complete { connection } => {
            assert_eq!(connection.phase, Phase::AwaitingWritable);
        },
        other => panic!("expected a completion, got {:?}", other),
    }
    assert_eq!(reactor.in_flight(), 0);
}

#[test]
fn one_event_writes_before_it_reads() {
    let mut reactor = Reactor::new();
    let token = open(&mut reactor, "http://example.test/");
    let actions = reactor.ready(token, events(true, true, false));
    assert_eq!(actions.len(), 2);
    assert!(matches!(&actions[0], Action::SendRequest { token: t, .. } if *t == token));
    match &actions[1] {
        Action::Complete { connection } => {
            assert_eq!(connection.token, token);
            assert_eq!(connection.phase, Phase::AwaitingReadable);
        },
        other => panic!("expected a completion, got {:?}", other),
    }
    assert_eq!(reactor.in_flight(), 0);
}

#[test]
fn an_event_without_readiness_does_nothing() {
    let mut reactor = Reactor::new();
    let token = open(&mut reactor, "http://example.test/");
    assert!(reactor.ready(token, events(false, false, false)).is_empty());
    assert!(reactor.ready(Token(99), events(false, false, false)).is_empty());
    assert_eq!(reactor.in_flight(), 1);
    assert_eq!(
        reactor.find_connection_by_token(token).unwrap().phase,
        Phase::AwaitingWritable
    );
}

#[test]
fn a_hang_up_stops_the_reactor() {
    let mut reactor = Reactor::new();
    let first = open(&mut reactor, "http://example.test/a");
    let second = open(&mut reactor, "http://example.test/b");
    let actions = reactor.ready(first, events(true, true, true));
    assert_eq!(actions, vec![Action::Stop { reason: StopReason::HangUp }]);
    assert!(!reactor.is_running());
    assert_eq!(reactor.in_flight(), 0);
    assert!(reactor.find_connection_by_token(second).is_none());
}

#[test]
fn a_refused_connection_hangs_up_and_stops_the_reactor() {
    let mut reactor = Reactor::new();
    let pending = open(&mut reactor, "http://example.test/");
    let refused = open(&mut reactor, "http://refused.test/");
    let actions = reactor.ready(refused, events(false, false, true));
    assert_eq!(actions, vec![Action::Stop { reason: StopReason::HangUp }]);
    assert!(!reactor.is_running());
    assert!(reactor.ready(pending, events(true, true, false)).is_empty());
}

#[test]
fn a_shutdown_stops_the_reactor_and_drops_what_is_in_flight() {
    let mut reactor = Reactor::new();
    let token = open(&mut reactor, "http://example.test/");
    let actions = reactor.notify(Message::Shutdown);
    assert_eq!(actions, vec![Action::Stop { reason: StopReason::Requested }]);
    assert!(!reactor.is_running());
    assert_eq!(reactor.in_flight(), 0);
    assert!(reactor.find_connection_by_token(token).is_none());
}

#[test]
fn a_stopped_reactor_answers_nothing() {
    let mut reactor = Reactor::new();
    let token = open(&mut reactor, "http://example.test/");
    reactor.notify(Message::Shutdown);
    assert!(reactor.notify(Message::Req(request("http://example.test/"))).is_empty());
    assert!(reactor.notify(Message::Shutdown).is_empty());
    assert!(reactor.opened(token, true).is_empty());
    assert!(reactor.opened(token, false).is_empty());
    assert!(reactor.ready(token, events(true, true, false)).is_empty());
    assert!(reactor.ready(token, events(false, false, true)).is_empty());
    assert!(!reactor.is_running());
    assert_eq!(reactor.in_flight(), 0);
}

#[test]
fn a_full_table_stops_the_reactor() {
    let mut reactor = Reactor::with_capacity(1, 2);
    let first = open(&mut reactor, "http://example.test/1");
    let second = open(&mut reactor, "http://example.test/2");
    assert_ne!(first, second);
    assert_eq!(reactor.in_flight(), 2);
    let actions = reactor.notify(Message::Req(request("http://example.test/3")));
    assert_eq!(actions, vec![Action::Stop { reason: StopReason::TableFull }]);
    assert!(!reactor.is_running());
    assert_eq!(reactor.in_flight(), 0);
}

#[test]
fn a_reactor_without_slots_stops_on_the_first_request() {
    let mut reactor = Reactor::with_capacity(0, 0);
    let actions = reactor.notify(Message::Req(request("http://example.test/")));
    assert_eq!(actions, vec![Action::Stop { reason: StopReason::TableFull }]);
    assert!(!reactor.is_running());
}

#[test]
fn a_freed_slot_takes_the_next_request() {
    let mut reactor = Reactor::with_capacity(1, 1);
    let first = open(&mut reactor, "http://example.test/1");
    assert_eq!(reactor.ready(first, events(true, true, false)).len(), 2);
    let second = open(&mut reactor, "http://example.test/2");
    assert_eq!(
        reactor.find_connection_by_token(second).unwrap().url.text,
        "http://example.test/2"
    );
    assert_eq!(reactor.in_flight(), 1);
}

#[test]
fn expects_tells_which_events_may_be_handed_over() {
    let mut reactor = Reactor::new();
    let token = open(&mut reactor, "http://example.test/");
    let stale = Token(token.0 + 1);
    assert!(reactor.expects(token, events(true, true, false)));
    assert!(!reactor.expects(stale, events(true, false, false)));
    assert!(!reactor.expects(stale, events(false, true, false)));
    assert!(reactor.expects(stale, events(false, false, false)));
    assert!(reactor.expects(stale, events(true, true, true)));
    reactor.notify(Message::Shutdown);
    assert!(reactor.expects(stale, events(true, true, false)));
}

#[test]
fn ten_concurrent_gets_complete_ten_times() {
    let mut reactor = Reactor::new();
    let mut tokens: Vec<Token> = Vec::new();
    for i in 0..10 {
        let token = open(&mut reactor, &format!("http://example.test/{}", i));
        assert!(!tokens.contains(&token));
        tokens.push(token);
    }
    assert_eq!(reactor.in_flight(), 10);
    let mut completed: Vec<String> = Vec::new();
    for (i, token) in tokens.iter().enumerate().rev() {
        let actions = reactor.ready(*token, events(true, true, false));
        assert_eq!(actions.len(), 2);
        match &actions[1] {
            Action::Complete { connection } => {
                assert_eq!(connection.token, *token);
                assert_eq!(connection.url.text, format!("http://example.test/{}", i));
                assert!(!completed.contains(&connection.url.text));
                completed.push(connection.url.text.clone());
            },
            other => panic!("expected a completion, got {:?}", other),
        }
    }
    assert_eq!(completed.len(), 10);
    assert_eq!(reactor.in_flight(), 0);
    assert!(reactor.is_running());
}

#[test]
fn more_requests_than_initial_slots_are_taken_in() {
    let mut reactor = Reactor::new();
    let mut tokens: Vec<Token> = Vec::new();
    for i in 0..300 {
        let token = open(&mut reactor, &format!("http://example.test/{}", i));
        assert!(!tokens.contains(&token));
        tokens.push(token);
    }
    assert_eq!(reactor.in_flight(), 300);
    for token in tokens {
        assert_eq!(reactor.ready(token, events(true, false, false)).len(), 1);
    }
    assert_eq!(reactor.in_flight(), 0);
}

#[test]
fn a_get_runs_from_submission_to_completion() {
    let mut reactor = Reactor::new();
    let lookup = begin_get("http://example.test/").expect("a valid URL");
    assert_eq!(lookup.target, Target::Resolve("example.test".to_string()));
    assert_eq!(lookup.port, 80);
    let resolved = vec![Address::V4(AddressV4 { ip: 0x0a00_0001, port: 0 })];
    let msg = finish_get(lookup, &resolved).expect("an address");
    let actions = reactor.notify(msg);
    let token = match &actions[0] {
        Action::Open { token, addr, .. } => {
            assert_eq!(*addr, Address::V4(AddressV4 { ip: 0x0a00_0001, port: 80 }));
            *token
        },
        other => panic!("expected an open, got {:?}", other),
    };
    assert!(reactor.opened(token, true).is_empty());
    let actions = reactor.ready(token, events(false, true, false));
    assert!(matches!(&actions[0], Action::SendRequest { head, .. } if head.hostname == "example.test"));
    let actions = reactor.ready(token, events(true, false, false));
    let mut calls = 0;
    for action in actions {
        if let Action::Complete { connection } = action {
            assert_eq!(connection.url.text, "http://example.test/");
            calls += 1;
        }
    }
    assert_eq!(calls, 1);
    assert!(!reactor.expects(token, events(true, false, false)));
}

#[test]
fn a_get_to_an_ip_literal_goes_to_that_address() {
    let mut reactor = Reactor::new();
    let lookup = begin_get("http://127.0.0.1:9000/").expect("a valid URL");
    let msg = finish_get(lookup, &Vec::new()).expect("the address is in the URL");
    let actions = reactor.notify(msg);
    match &actions[0] {
        Action::Open { addr, .. } => {
            assert_eq!(*addr, Address::V4(AddressV4 { ip: 0x7f00_0001, port: 9000 }));
        },
        other => panic!("expected an open, got {:?}", other),
    }
}

#[test]
fn it_works() {
    let mut reactor = Reactor::new();
    let resolved = vec![Address::V4(AddressV4 { ip: 0x0808_0808, port: 0 })];
    let mut tokens: Vec<Token> = Vec::new();
    for _ in 0..3 {
        let lookup = begin_get("http://www.google.com/").expect("failed parsing surl");
        let msg = finish_get(lookup, &resolved).expect("unable to resolve host");
        let actions = reactor.notify(msg);
        match &actions[0] {
            Action::Open { token, .. } => tokens.push(*token),
            other => panic!("expected an open, got {:?}", other),
        }
    }
    assert_eq!(reactor.in_flight(), 3);
    let mut calls = 0;
    for token in tokens {
        reactor.opened(token, true);
        for action in reactor.ready(token, events(true, true, false)) {
            if let Action::Complete { .. } = action {
                calls += 1;
            }
        }
    }
    assert_eq!(calls, 3);
    let actions = reactor.notify(Message::Shutdown);
    assert_eq!(actions, vec![Action::Stop { reason: StopReason::Requested }]);
}
