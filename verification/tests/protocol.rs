use ipecho::args::Args;
use ipecho::counter::CounterStore;
use ipecho::handler::{finish_geo, finish_ip_echo, geo_url, route_request, Route};
use ipecho::parse::{extract_path_token, rule_capture, HeaderRule};
use ipecho::resolve::resolve_ip;
use ipecho::response::{build_response, usize_to_string, ContentType};

#[test]
fn path_token_simple() {
    assert_eq!(extract_path_token("GET /us HTTP/1.1"), Some(String::from("us")));
}

#[test]
fn path_token_root_is_none() {
    assert_eq!(extract_path_token("GET / HTTP/1.1"), None);
}

#[test]
fn path_token_takes_last_segment() {
    assert_eq!(extract_path_token("GET /a/b HTTP/1.1"), Some(String::from("b")));
}

#[test]
fn path_token_stops_at_query() {
    assert_eq!(extract_path_token("GET /us?lang=en HTTP/1.1"), Some(String::from("us")));
}

#[test]
fn path_token_stops_at_fragment() {
    assert_eq!(extract_path_token("GET /us#frag HTTP/1.1"), Some(String::from("us")));
}

#[test]
fn path_token_needs_protocol_marker() {
    assert_eq!(extract_path_token("GET /us"), None);
    assert_eq!(extract_path_token(""), None);
    assert_eq!(extract_path_token("no slash here HTTP/1.1"), None);
}

#[test]
fn rule_captures_dotted_quad() {
    assert_eq!(
        rule_capture("X-Forwarded-For: 1.2.3.4", HeaderRule::ForwardedFor),
        Some(String::from("1.2.3.4"))
    );
    assert_eq!(
        rule_capture("X-Real-IP: 5.6.7.8", HeaderRule::RealIp),
        Some(String::from("5.6.7.8"))
    );
    assert_eq!(
        rule_capture("REMOTE-HOST: 10.20.30.40", HeaderRule::RemoteHost),
        Some(String::from("10.20.30.40"))
    );
}

#[test]
fn rule_name_is_case_insensitive() {
    assert_eq!(
        rule_capture("x-forwarded-for: 1.2.3.4", HeaderRule::ForwardedFor),
        Some(String::from("1.2.3.4"))
    );
    assert_eq!(
        rule_capture("X-REAL-ip:\t5.6.7.8", HeaderRule::RealIp),
        Some(String::from("5.6.7.8"))
    );
}

#[test]
fn rule_capture_takes_quad_prefix() {
    assert_eq!(
        rule_capture("X-Real-IP: 5.6.7.8junk", HeaderRule::RealIp),
        Some(String::from("5.6.7.8"))
    );
    assert_eq!(
        rule_capture("X-Real-IP: 12.34.56.7890", HeaderRule::RealIp),
        Some(String::from("12.34.56.789"))
    );
}

#[test]
fn rule_capture_rejects_other_lines() {
    assert_eq!(rule_capture("Host: example.org", HeaderRule::ForwardedFor), None);
    assert_eq!(rule_capture("X-Real-IP: not-an-address", HeaderRule::RealIp), None);
    assert_eq!(rule_capture("X-Real-IP 1.2.3.4", HeaderRule::RealIp), None);
    assert_eq!(rule_capture("X-Forwarded-For: 1.2.3", HeaderRule::ForwardedFor), None);
}

#[test]
fn resolve_later_line_wins() {
    let headers = vec![
        String::from("X-Forwarded-For: 1.2.3.4"),
        String::from("X-Real-IP: 5.6.7.8"),
    ];
    assert_eq!(resolve_ip("9.9.9.9", &headers), "5.6.7.8");
}

#[test]
fn resolve_falls_back_to_peer() {
    let headers = vec![
        String::from("Host: example.org"),
        String::from("Accept: */*"),
    ];
    assert_eq!(resolve_ip("9.9.9.9", &headers), "9.9.9.9");
    assert_eq!(resolve_ip("9.9.9.9", &Vec::new()), "9.9.9.9");
}

#[test]
fn resolve_any_rule_line_overwrites() {
    let headers = vec![
        String::from("X-Real-IP: 5.6.7.8"),
        String::from("REMOTE-HOST: 1.1.1.1"),
        String::from("Host: example.org"),
    ];
    assert_eq!(resolve_ip("9.9.9.9", &headers), "1.1.1.1");
}

#[test]
fn counter_counts_per_key() {
    let mut store = CounterStore::new();
    assert_eq!(store.count("a"), 0);
    assert_eq!(store.increment("a"), 1);
    assert_eq!(store.increment("b"), 1);
    assert_eq!(store.increment("a"), 2);
    assert_eq!(store.increment("b"), 2);
    assert_eq!(store.increment("a"), 3);
    assert_eq!(store.count("a"), 3);
    assert_eq!(store.count("b"), 2);
    assert_eq!(store.count("c"), 0);
}

#[test]
fn response_has_exact_content_length() {
    assert_eq!(
        build_response(ContentType::Html, "5.6.7.8"),
        "HTTP/1.1 200 OK\r\nContent-Length: 7\r\nContent-Type: text/html; charset=utf-8\r\n\r\n5.6.7.8\r\n"
    );
}

#[test]
fn content_length_counts_bytes_not_chars() {
    let body = "\u{4e2d}\u{6587}";
    assert_eq!(body.len(), 6);
    assert_eq!(
        build_response(ContentType::Json, body),
        format!(
            "HTTP/1.1 200 OK\r\nContent-Length: 6\r\nContent-Type: application/json; charset=utf-8\r\n\r\n{}\r\n",
            body
        )
    );
}

#[test]
fn ip_token_routes_to_ip_echo() {
    assert!(matches!(route_request("GET /ip HTTP/1.1"), Route::IpEcho));
    assert!(matches!(route_request("GET / HTTP/1.1"), Route::IpEcho));
}

#[test]
fn other_token_routes_to_geo() {
    match route_request("GET /us HTTP/1.1") {
        Route::Geo(tok) => assert_eq!(tok, "us"),
        Route::IpEcho => panic!("expected geo-lookup mode"),
    }
}

#[test]
fn geo_url_form() {
    assert_eq!(geo_url("us"), "http://ip-api.com/json/us?lang=zh-CN");
}

#[test]
fn forwarded_request_echoes_last_header() {
    let mut store = CounterStore::new();
    assert!(matches!(route_request("GET / HTTP/1.1"), Route::IpEcho));
    let headers = vec![
        String::from("X-Forwarded-For: 1.2.3.4"),
        String::from("X-Real-IP: 5.6.7.8"),
    ];
    let reply = finish_ip_echo(&mut store, "9.9.9.9", &headers);
    assert_eq!(reply.key, "5.6.7.8");
    assert_eq!(reply.count, 1);
    assert_eq!(
        reply.response,
        "HTTP/1.1 200 OK\r\nContent-Length: 7\r\nContent-Type: text/html; charset=utf-8\r\n\r\n5.6.7.8\r\n"
    );
    let again = finish_ip_echo(&mut store, "9.9.9.9", &headers);
    assert_eq!(again.key, "5.6.7.8");
    assert_eq!(again.count, 2);
    assert_eq!(again.response, reply.response);
}

#[test]
fn geo_request_relays_body_verbatim() {
    let mut store = CounterStore::new();
    let token = match route_request("GET /us HTTP/1.1") {
        Route::Geo(tok) => tok,
        Route::IpEcho => panic!("expected geo-lookup mode"),
    };
    assert_eq!(token, "us");
    let body = "{\"country\":\"United States\"}";
    let reply = finish_geo(&mut store, token.as_str(), body);
    assert_eq!(reply.key, "us");
    assert_eq!(reply.count, 1);
    assert_eq!(
        reply.response,
        format!(
            "HTTP/1.1 200 OK\r\nContent-Length: {}\r\nContent-Type: application/json; charset=utf-8\r\n\r\n{}\r\n",
            body.len(),
            body
        )
    );
}

#[test]
fn distinct_peers_count_independently() {
    let mut store = CounterStore::new();
    let none: Vec<String> = Vec::new();
    let first = finish_ip_echo(&mut store, "10.0.0.1", &none);
    let second = finish_ip_echo(&mut store, "10.0.0.2", &none);
    assert_eq!(first.key, "10.0.0.1");
    assert_eq!(second.key, "10.0.0.2");
    assert_eq!(first.count, 1);
    assert_eq!(second.count, 1);
}

#[test]
fn args_to_string_joins_address_and_port() {
    let args = Args { listen: String::from("127.0.0.1"), port: 80 };
    assert_eq!(args.to_string(), "127.0.0.1:80");
    let args = Args { listen: String::from("0.0.0.0"), port: 8080 };
    assert_eq!(args.to_string(), "0.0.0.0:8080");
}

#[test]
fn decimal_rendering() {
    assert_eq!(usize_to_string(0), "0");
    assert_eq!(usize_to_string(7), "7");
    assert_eq!(usize_to_string(80), "80");
    assert_eq!(usize_to_string(12345), "12345");
}
