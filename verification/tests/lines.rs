use theshy::gate::hub::http::{request_path, ContentSource, HttpStep, Mime};
use theshy::gate::hub::line_header::{Line as FrontLine, LineStatus as FrontStatus, LineType as FrontType};
use theshy::hub::line::{Line, LineStatus, LineType};

/// A SOCKS5 connect request for `domain` and `port`.
fn connect_request(domain: &str, port: u16) -> Vec<u8> {
    let mut v = vec![5u8, 1, 0, 3, domain.len() as u8];
    v.extend_from_slice(domain.as_bytes());
    v.push((port >> 8) as u8);
    v.push(port as u8);
    v
}

#[test]
fn fox_answers_greeting_then_connect() {
    let mut fox = Line::new(1, LineType::Fox, 0);
    assert_eq!(fox.fox_data(vec![5, 1, 0]), None);
    assert_eq!(fox.queue().clone(), vec![5u8, 0]);
    assert_eq!(fox.stage(), 1);
    assert_eq!(fox.fox_data(connect_request("example.com", 443)), None);
    assert_eq!(fox.host().as_str(), "example.com:443");
    assert_eq!(fox.stage(), 2);
    assert_eq!(
        fox.queue().clone(),
        vec![5u8, 0, 5, 0, 0, 1, 0, 0, 0, 0, 0, 0]
    );
}

#[test]
fn fox_shuffles_first_payload() {
    let mut fox = Line::new(1, LineType::Fox, 0);
    fox.fox_data(vec![5, 1, 0]);
    fox.fox_data(connect_request("ab", 1));
    assert_eq!(fox.host().as_str(), "ab:1");
    // frame [4, a, b, :, 1, 9, 8]: even positions, then odd ones
    let out = fox.fox_data(vec![9, 8]).unwrap();
    assert_eq!(out, vec![4u8, 98, 49, 8, 97, 58, 9]);
    assert_eq!(fox.stage(), 3);
    // later payloads pass unchanged
    assert_eq!(fox.fox_data(vec![1, 2, 3]).unwrap(), vec![1u8, 2, 3]);
    assert_eq!(fox.stage(), 3);
}

#[test]
fn operator_reads_what_fox_sent() {
    let mut fox = Line::new(1, LineType::Fox, 0);
    fox.fox_data(vec![5, 1, 0]);
    fox.fox_data(connect_request("www.rust-lang.org", 8080));
    let payload = b"\x16\x03\x01 client hello".to_vec();
    let sent = fox.fox_data(payload.clone()).unwrap();
    let mut op = Line::new(2, LineType::Operator, 0);
    let rest = op.decrypt_sni(&sent).unwrap();
    assert_eq!(op.host().as_str(), "www.rust-lang.org:8080");
    assert_eq!(rest, payload);
}

#[test]
fn front_fox_frame_carries_id() {
    let mut fox = FrontLine::new(7, FrontType::Fox, 0);
    fox.fox_data(vec![5, 1, 0]);
    fox.fox_data(connect_request("ab", 1));
    assert_eq!(fox.host().as_str(), "ab:1");
    let out = fox.fox_data(vec![9, 8]).unwrap();
    assert_eq!(
        out,
        vec![4u8, 98, 49, 0, 0, 0, 7, 8, 97, 58, 0, 0, 0, 0, 9]
    );
}

#[test]
fn line_status_and_partner() {
    let mut l = Line::new(3, LineType::Caller, 5);
    assert!(l.just_born());
    assert!(l.available());
    assert!(!l.send());
    assert!(!l.on_writable());
    assert_eq!(l.status(), LineStatus::Connected);
    l.add_queue(vec![1, 2, 3]);
    assert!(l.send());
    l.shrink_queue(2);
    assert_eq!(l.queue().clone(), vec![3u8]);
    l.set_partner_id(9);
    assert!(!l.available());
    assert!(l.go_die());
    assert!(l.is_dead());
    assert_eq!(l.partner_id(), 0);
    assert!(l.queue().is_empty());
    assert!(!l.go_die());
    l.on_read_closed();
    l.on_write_closed();
    assert!(l.is_read_closed() && l.is_write_closed());
}

#[test]
fn born_line_dies_without_shutdown() {
    let mut l = Line::new(3, LineType::Spider, 5);
    l.add_queue(vec![1]);
    assert!(!l.go_die());
    assert!(l.queue().is_empty());
}

#[test]
fn front_status_only_moves_forward() {
    let mut l = FrontLine::new(4, FrontType::Caller, 11);
    assert_eq!(l.born_time(), 11);
    assert!(!l.available());
    l.on_writable();
    assert_eq!(l.status(), FrontStatus::Connected);
    assert!(l.available());
    assert!(l.call_available());
    assert_eq!(l.call_status(), 2);
    l.set_partner_id(8);
    assert_eq!(l.status(), FrontStatus::Occupied);
    assert_eq!(l.call_status(), 1);
    assert!(!l.call_available());
    l.set_status(FrontStatus::Born);
    assert_eq!(l.status(), FrontStatus::Occupied);
    l.set_partner_id(0);
    assert_eq!(l.status(), FrontStatus::Occupied);
    assert!(l.go_die());
    assert_eq!(l.status(), FrontStatus::Dead);
    assert_eq!(l.call_status(), 3);
    assert!(!l.go_die());
}

#[test]
fn front_call_status_of_other_kinds() {
    let l = FrontLine::new(4, FrontType::Spider, 0);
    assert_eq!(l.call_status(), u8::MAX);
    assert!(!l.call_available());
    let b = FrontLine::new(5, FrontType::Caller, 0);
    assert_eq!(b.call_status(), 0);
}

#[test]
fn front_queue_operations() {
    let mut l = FrontLine::new(4, FrontType::Fox, 0);
    l.add_queue(vec![1, 2, 3, 4]);
    l.add_queue(vec![]);
    l.shrink_queue(1);
    assert_eq!(l.queue().clone(), vec![2u8, 3, 4]);
    l.clear_queue();
    assert!(l.queue().is_empty());
    l.next_stage();
    assert_eq!(l.stage(), 1);
    l.set_host("h:1".to_string(), 3);
    assert_eq!(l.host().as_str(), "h:1");
    l.read_closed();
    l.write_closed();
    assert!(l.is_read_closed() && l.is_write_closed());
    assert_eq!(l.id(), 4);
    assert_eq!(l.kind(), FrontType::Fox);
    assert!(!l.is_dead());
}

#[test]
fn front_http_plans() {
    let mut l = FrontLine::new(4, FrontType::Http, 0);
    match l.http_data(b"GET / HTTP/1.1\r\n".to_vec()) {
        HttpStep::Serve { source, mime } => {
            assert_eq!(source, ContentSource::File("dist/index.html".to_string()));
            assert_eq!(mime, Mime::Html);
        }
        other => panic!("{:?}", other),
    }
    match l.http_data(b"GET /proxy.pac HTTP/1.1".to_vec()) {
        HttpStep::Serve { source, mime } => {
            assert_eq!(source, ContentSource::File("dist//proxy.pac".to_string()));
            assert_eq!(mime, Mime::ProxyAutoConfig);
        }
        other => panic!("{:?}", other),
    }
    let long = format!("GET /{} HTTP/1.1", "a".repeat(300));
    match l.http_data(long.into_bytes()) {
        HttpStep::Serve { source, mime } => {
            assert_eq!(source, ContentSource::Forbidden);
            assert_eq!(mime, Mime::Html);
        }
        other => panic!("{:?}", other),
    }
    assert!(!l.is_dead());
    assert_eq!(l.http_data(b"GARBAGE".to_vec()), HttpStep::Close { shutdown: false });
    assert!(l.is_dead());
}

#[test]
fn http_line_plans_and_answers() {
    let mut l = Line::new(4, LineType::Log, 0);
    let (source, mime) = l.http(b"GET /app.css HTTP/1.1".to_vec());
    assert_eq!(source, ContentSource::File("dist//app.css".to_string()));
    assert_eq!(mime, Mime::Css);
    let (_, mime) = l.http(b"GET /x.pac HTTP/1.1".to_vec());
    assert_eq!(mime, Mime::Html);
    let (_, mime) = l.http(b"GET /logo.png HTTP/1.1".to_vec());
    assert_eq!(mime, Mime::Png);
    let (_, mime) = l.http(b"GET /main.js HTTP/1.1".to_vec());
    assert_eq!(mime, Mime::Javascript);
    l.respond(200, Mime::Css, b"body{}".to_vec());
    let expected = b"HTTP/1.1 200 OK\r\nContent-Type: text/css; charset=utf-8\r\n\r\nbody{}".to_vec();
    assert_eq!(l.queue().clone(), expected);
}

#[test]
fn front_respond_queues_head_and_body() {
    let mut l = FrontLine::new(4, FrontType::Http, 0);
    l.respond(404, Mime::Html, vec![]);
    let expected = b"HTTP/1.1 404 OK\r\nContent-Type: text/html; charset=utf-8\r\n\r\n".to_vec();
    assert_eq!(l.queue().clone(), expected);
}

#[test]
fn invalid_domain_bytes_are_replaced() {
    let mut fox = Line::new(1, LineType::Fox, 0);
    fox.fox_data(vec![5, 1, 0]);
    let mut req = vec![5u8, 1, 0, 3, 3, b'a', 0xff, b'b'];
    req.push(0);
    req.push(80);
    fox.fox_data(req);
    assert_eq!(fox.host().as_str(), "a\u{FFFD}b:80");
}

#[test]
fn invalid_path_bytes_are_replaced() {
    assert_eq!(
        request_path(b"GET /a\xffb HTTP/1.1"),
        Some("/a\u{FFFD}b".to_string())
    );
    assert_eq!(request_path(b"GET /plain HTTP/1.1"), Some("/plain".to_string()));
    assert_eq!(request_path(b"NOSPACE"), None);
}
