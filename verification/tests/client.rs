use http_reactor::address::{choose_address, Address, AddressV4, AddressV6, Error};
use http_reactor::client::{begin_get, finish_get, Lookup};
use http_reactor::connection::{Message, Method, RequestHead};
use http_reactor::stream::settle_close;
use http_reactor::url::{Host, Target, Url, DEFAULT_PORT};

fn domain(name: &str) -> Option<Host> {
    Some(Host::Domain(name.to_string()))
}

fn resolve(name: &str) -> Target {
    Target::Resolve(name.to_string())
}

#[test]
fn parse_reads_domain_and_port() {
    let url = Url::parse("http://www.google.com/").unwrap();
    assert_eq!(url.text, "http://www.google.com/");
    assert_eq!(url.host, domain("www.google.com"));
    assert_eq!(url.port, None);
    let url = Url::parse("http://example.test:8080/a/b?c=d").unwrap();
    assert_eq!(url.text, "http://example.test:8080/a/b?c=d");
    assert_eq!(url.host, domain("example.test"));
    assert_eq!(url.port, Some(8080));
}

#[test]
fn parse_gives_the_serialization_not_the_input() {
    let url = Url::parse("HTTP://Example.TEST").unwrap();
    assert_eq!(url.text, "http://example.test/");
    assert_eq!(url.host, domain("example.test"));
}

#[test]
fn parse_reads_an_ipv4_host() {
    let url = Url::parse("http://127.0.0.1:3000/").unwrap();
    assert_eq!(url.host, Some(Host::V4(0x7f00_0001)));
    assert_eq!(url.port, Some(3000));
    let url = Url::parse("http://192.168.1.20/").unwrap();
    assert_eq!(url.host, Some(Host::V4(0xc0a8_0114)));
    assert_eq!(url.port, None);
}

#[test]
fn parse_reads_an_ipv6_host() {
    let url = Url::parse("http://[2001:db8::1]:8080/").unwrap();
    assert_eq!(url.host, Some(Host::V6(0x2001_0db8_0000_0000_0000_0000_0000_0001)));
    assert_eq!(url.port, Some(8080));
    let url = Url::parse("http://[::1]/").unwrap();
    assert_eq!(url.host, Some(Host::V6(1)));
}

#[test]
fn parse_reads_a_url_without_a_host() {
    let url = Url::parse("data:text/plain,Stuff").unwrap();
    assert_eq!(url.host, None);
    assert_eq!(url.port, None);
    assert_eq!(url.text, "data:text/plain,Stuff");
}

#[test]
fn parse_rejects_what_is_no_absolute_url() {
    assert_eq!(Url::parse("not a url"), Err(Error::UrlParse));
    assert_eq!(Url::parse(""), Err(Error::UrlParse));
    assert_eq!(Url::parse("/relative/path"), Err(Error::UrlParse));
}

#[test]
fn accept_maps_a_missing_url_to_the_parse_error() {
    assert_eq!(Url::accept(None), Err(Error::UrlParse));
    let url = Url { text: "http://a.test/".to_string(), host: domain("a.test"), port: None };
    let same = url.duplicate();
    assert_eq!(Url::accept(Some(url)), Ok(same));
}

#[test]
fn a_domain_is_resolved_under_the_urls_port_or_80() {
    let url = Url { text: "http://a.test:81/".to_string(), host: domain("a.test"), port: Some(81) };
    assert_eq!(url.lookup_target(), resolve("a.test"));
    assert_eq!(url.lookup_port(), 81);
    assert_eq!(url.header_host(), "a.test");
    let url = Url { text: "http://a.test/".to_string(), host: domain("a.test"), port: None };
    assert_eq!(url.lookup_target(), resolve("a.test"));
    assert_eq!(url.lookup_port(), 80);
    assert_eq!(DEFAULT_PORT, 80);
}

#[test]
fn an_ip_host_is_its_own_address() {
    let url = Url { text: "http://10.0.0.1/".to_string(), host: Some(Host::V4(0x0a00_0001)), port: None };
    assert_eq!(
        url.lookup_target(),
        Target::Literal(Address::V4(AddressV4 { ip: 0x0a00_0001, port: 80 }))
    );
    assert_eq!(url.header_host(), "");
    let url = Url { text: "http://[::1]:8080/".to_string(), host: Some(Host::V6(1)), port: Some(8080) };
    assert_eq!(
        url.lookup_target(),
        Target::Literal(Address::V6(AddressV6 { ip: 1, port: 8080, flowinfo: 0, scope_id: 0 }))
    );
}

#[test]
fn a_url_without_a_host_resolves_localhost() {
    let url = Url { text: "data:text/plain,Stuff".to_string(), host: None, port: None };
    assert_eq!(url.lookup_target(), resolve("localhost"));
    assert_eq!(url.lookup_port(), 80);
    assert_eq!(url.header_host(), "");
}

#[test]
fn duplicate_copies_every_part() {
    let url = Url::parse("http://example.test:8080/x").unwrap();
    assert_eq!(url.duplicate(), url);
    let url = Url::parse("http://[2001:db8::1]/").unwrap();
    assert_eq!(url.duplicate(), url);
    let url = Url::parse("http://127.0.0.1/").unwrap();
    assert_eq!(url.duplicate(), url);
}

#[test]
fn the_head_of_a_get_announces_host_and_keep_alive() {
    let url = Url::parse("http://example.test:8080/x").unwrap();
    let head = RequestHead::get(&url);
    assert_eq!(head.method, Method::Get);
    assert_eq!(head.url, url);
    assert_eq!(head.hostname, "example.test");
    assert_eq!(head.port, Some(8080));
    assert!(head.keep_alive);
}

#[test]
fn with_port_keeps_the_host() {
    let v4 = Address::V4(AddressV4 { ip: 0xc0a8_0001, port: 0 });
    assert_eq!(v4.with_port(8080), Address::V4(AddressV4 { ip: 0xc0a8_0001, port: 8080 }));
    assert_eq!(v4.with_port(8080).port(), 8080);
    let v6 = Address::V6(AddressV6 { ip: 1, port: 0, flowinfo: 7, scope_id: 9 });
    assert_eq!(
        v6.with_port(443),
        Address::V6(AddressV6 { ip: 1, port: 443, flowinfo: 7, scope_id: 9 })
    );
    assert_eq!(v6.port(), 0);
}

#[test]
fn the_first_candidate_is_chosen_with_the_requested_port() {
    let candidates = vec![
        Address::V6(AddressV6 { ip: 1, port: 0, flowinfo: 2, scope_id: 3 }),
        Address::V4(AddressV4 { ip: 0x7f00_0001, port: 0 }),
    ];
    assert_eq!(
        choose_address(&candidates, 80),
        Ok(Address::V6(AddressV6 { ip: 1, port: 80, flowinfo: 2, scope_id: 3 }))
    );
}

#[test]
fn no_candidate_is_a_resolution_error() {
    assert_eq!(choose_address(&Vec::new(), 80), Err(Error::Resolution));
}

#[test]
fn a_malformed_url_fails_before_anything_is_sent() {
    assert_eq!(begin_get("not a url"), Err(Error::UrlParse));
}

#[test]
fn begin_get_says_what_to_resolve() {
    let lookup = begin_get("http://example.test/").unwrap();
    assert_eq!(lookup.url.text, "http://example.test/");
    assert_eq!(lookup.target, resolve("example.test"));
    assert_eq!(lookup.port, 80);
    let lookup = begin_get("http://example.test:8443/").unwrap();
    assert_eq!(lookup.target, resolve("example.test"));
    assert_eq!(lookup.port, 8443);
}

#[test]
fn begin_get_takes_an_ip_literal_as_the_address() {
    let lookup = begin_get("http://127.0.0.1:9000/").unwrap();
    assert_eq!(
        lookup.target,
        Target::Literal(Address::V4(AddressV4 { ip: 0x7f00_0001, port: 9000 }))
    );
    assert_eq!(lookup.port, 9000);
    let lookup = begin_get("http://[2001:db8::1]:8080/").unwrap();
    assert_eq!(
        lookup.target,
        Target::Literal(Address::V6(AddressV6 {
            ip: 0x2001_0db8_0000_0000_0000_0000_0000_0001,
            port: 8080,
            flowinfo: 0,
            scope_id: 0,
        }))
    );
    assert_eq!(lookup.port, 8080);
}

#[test]
fn plan_passes_the_parse_error_on() {
    assert_eq!(Lookup::plan(Err(Error::UrlParse)), Err(Error::UrlParse));
    let url = Url { text: "http://a.test/".to_string(), host: domain("a.test"), port: None };
    let lookup = Lookup::plan(Ok(url)).unwrap();
    assert_eq!(lookup.target, resolve("a.test"));
    assert_eq!(lookup.port, 80);
    assert_eq!(lookup.url.text, "http://a.test/");
}

#[test]
fn finish_get_makes_the_request_message() {
    let lookup = begin_get("http://example.test:8080/").unwrap();
    let resolved = vec![
        Address::V4(AddressV4 { ip: 0x5db8_d822, port: 0 }),
        Address::V4(AddressV4 { ip: 0x5db8_d823, port: 0 }),
    ];
    match finish_get(lookup, &resolved) {
        Ok(Message::Req(request)) => {
            assert_eq!(request.url.text, "http://example.test:8080/");
            assert_eq!(request.addr, Address::V4(AddressV4 { ip: 0x5db8_d822, port: 8080 }));
        },
        other => panic!("expected a request, got {:?}", other),
    }
}

#[test]
fn finish_get_sends_an_ip_literal_to_itself_whatever_was_resolved() {
    let expected = Address::V6(AddressV6 {
        ip: 0x2001_0db8_0000_0000_0000_0000_0000_0001,
        port: 8080,
        flowinfo: 0,
        scope_id: 0,
    });
    let others = vec![Address::V4(AddressV4 { ip: 0x7f00_0001, port: 0 })];
    for candidates in [Vec::new(), others] {
        let lookup = begin_get("http://[2001:db8::1]:8080/").unwrap();
        match finish_get(lookup, &candidates) {
            Ok(Message::Req(request)) => {
                assert_eq!(request.url.text, "http://[2001:db8::1]:8080/");
                assert_eq!(request.addr, expected);
            },
            other => panic!("expected a request, got {:?}", other),
        }
    }
    let lookup = begin_get("http://127.0.0.1/").unwrap();
    match finish_get(lookup, &Vec::new()) {
        Ok(Message::Req(request)) => {
            assert_eq!(request.addr, Address::V4(AddressV4 { ip: 0x7f00_0001, port: 80 }));
        },
        other => panic!("expected a request, got {:?}", other),
    }
}

#[test]
fn an_unresolved_host_fails_before_anything_is_sent() {
    let lookup = begin_get("http://nowhere.test/").unwrap();
    assert_eq!(finish_get(lookup, &Vec::new()), Err(Error::Resolution));
}

#[test]
fn closing_a_disconnected_stream_succeeds() {
    assert_eq!(settle_close::<u8>(Ok(()), false), Ok(()));
    assert_eq!(settle_close::<u8>(Ok(()), true), Ok(()));
    assert_eq!(settle_close(Err(107u8), true), Ok(()));
    assert_eq!(settle_close(Err(32u8), false), Err(32u8));
}
