use theshy::gate::hub::http::{ContentSource, Mime};
use theshy::hub::line::LineType;
use theshy::hub::{Action, EventFlags, EventPlan, Hub};

fn connect_request(domain: &str, port: u16) -> Vec<u8> {
    let mut v = vec![5u8, 1, 0, 3, domain.len() as u8];
    v.extend_from_slice(domain.as_bytes());
    v.push((port >> 8) as u8);
    v.push(port as u8);
    v
}

fn writable() -> EventFlags {
    EventFlags { is_error: false, is_writable: true, is_readable: false, is_read_closed: false }
}

#[test]
fn callers_are_numbered_from_the_hub_id() {
    let mut h = Hub::new(10);
    let ids = h.init_callers(3, "127.0.0.1:9000", 0);
    assert_eq!(ids, vec![11usize, 12, 13]);
    assert_eq!(h.proxy_server().as_str(), "127.0.0.1:9000");
    for id in ids {
        assert_eq!(h.get_line(id).kind(), LineType::Caller);
    }
    assert_eq!(h.add_one_caller(0), 14);
    assert!(h.has_line(14));
}

#[test]
fn failed_socket_removes_the_pair() {
    let mut h = Hub::new(0);
    let a = h.new_line(LineType::Caller, 0);
    let err = EventFlags { is_error: true, is_writable: true, is_readable: true, is_read_closed: true };
    assert_eq!(h.process(a, err), EventPlan::Failed(vec![Action::Deregister(a)]));
    assert!(!h.has_line(a));
    let b = h.new_line(LineType::Caller, 0);
    h.process(b, writable());
    assert_eq!(
        h.process(b, err),
        EventPlan::Failed(vec![Action::Shutdown(b), Action::Deregister(b)])
    );
    assert!(!h.has_line(b));
}

#[test]
fn events_are_planned() {
    let mut h = Hub::new(0);
    let id = h.new_line(LineType::Caller, 0);
    assert_eq!(
        h.process(id, writable()),
        EventPlan::Ready { send: true, read: false, close: false }
    );
    assert!(!h.get_line(id).just_born());
    let acts = h.close_line(id);
    assert_eq!(acts, vec![Action::Shutdown(id)]);
    let all = EventFlags { is_error: false, is_writable: true, is_readable: true, is_read_closed: true };
    assert_eq!(h.process(id, all), EventPlan::Ready { send: false, read: false, close: true });
}

#[test]
fn fox_is_paired_with_an_idle_caller() {
    let mut h = Hub::new(0);
    h.init_callers(1, "127.0.0.1:9000", 0);
    h.process(1, writable());
    let fox = h.new_line(LineType::Fox, 0);
    assert_eq!(h.process_read(fox, vec![5, 1, 0]), vec![Action::Send(fox)]);
    assert_eq!(h.process_read(fox, connect_request("ab", 1)), vec![Action::Send(fox)]);
    assert_eq!(h.get_idle_caller(), 1);
    assert!(h.can_process_read(fox, &vec![9, 8]));
    assert_eq!(h.process_read(fox, vec![9, 8]), vec![Action::Send(1)]);
    assert_eq!(h.get_line(fox).partner_id(), 1);
    assert_eq!(h.get_line(1).partner_id(), fox);
    assert_eq!(h.get_line(1).queue().clone(), vec![4u8, 98, 49, 8, 97, 58, 9]);
    // later bytes follow the same caller unchanged
    assert_eq!(h.process_read(fox, vec![7]), vec![Action::Send(1)]);
    assert_eq!(h.get_line(1).queue().clone(), vec![4u8, 98, 49, 8, 97, 58, 9, 7]);
    // and what the caller reads goes back to the fox
    assert_eq!(h.process_read(1, vec![42]), vec![Action::Send(fox)]);
    assert_eq!(h.get_line(fox).queue().clone(), vec![5u8, 0, 5, 0, 0, 1, 0, 0, 0, 0, 0, 0, 42]);
    // empty reads change nothing
    assert_eq!(h.process_read(fox, vec![]), vec![]);
}

#[test]
fn fox_without_idle_caller_cannot_forward() {
    let mut h = Hub::new(0);
    let fox = h.new_line(LineType::Fox, 0);
    h.process_read(fox, vec![5, 1, 0]);
    h.process_read(fox, connect_request("ab", 1));
    assert!(!h.has_idle_caller());
    assert!(!h.can_process_read(fox, &vec![1]));
    assert!(h.can_process_read(fox, &vec![]));
}

#[test]
fn short_connect_request_cannot_be_read() {
    let mut h = Hub::new(0);
    let fox = h.new_line(LineType::Fox, 0);
    h.process_read(fox, vec![5, 1, 0]);
    assert!(!h.can_process_read(fox, &vec![5, 1, 0, 3, 0, 0]));
    assert!(h.can_process_read(fox, &vec![5, 1, 0, 3, 0, 0, 1]));
}

#[test]
fn operator_resolves_then_opens_a_spider() {
    let mut h = Hub::new(0);
    let op = h.new_line(LineType::Operator, 0);
    // shuffled frame of host "ab:1" and payload [9, 8]
    let sent = vec![4u8, 98, 49, 8, 97, 58, 9];
    assert!(h.can_process_read(op, &sent));
    let acts = h.process_read(op, sent);
    assert_eq!(
        acts,
        vec![Action::Resolve { operator: op, host: "ab:1".to_string(), data: vec![9, 8] }]
    );
    assert_eq!(h.get_line(op).host().as_str(), "ab:1");
    let spider = h.create_spider("ab:1".to_string(), op, vec![9, 8], 0);
    assert_eq!(spider, op + 1);
    assert_eq!(h.get_line(spider).kind(), LineType::Spider);
    assert_eq!(h.get_line(spider).partner_id(), op);
    assert_eq!(h.get_line(op).partner_id(), spider);
    assert_eq!(h.get_line(spider).queue().clone(), vec![9u8, 8]);
    assert_eq!(h.get_line(spider).host().as_str(), "ab:1");
    // more bytes from the operator go to the spider, and back
    assert_eq!(h.process_read(op, vec![1]), vec![Action::Send(spider)]);
    assert_eq!(h.process_read(spider, vec![2]), vec![Action::Send(op)]);
    assert_eq!(h.get_line(op).queue().clone(), vec![2u8]);
}

#[test]
fn unreadable_first_payload_is_refused() {
    let mut h = Hub::new(0);
    let op = h.new_line(LineType::Operator, 0);
    assert!(!h.can_process_read(op, &vec![9, 1]));
    let lone = h.new_line(LineType::Spider, 0);
    assert!(!h.can_process_read(lone, &vec![1]));
}

#[test]
fn remove_pair_kills_the_partner() {
    let mut h = Hub::new(0);
    h.init_callers(1, "127.0.0.1:9000", 0);
    h.process(1, writable());
    let fox = h.new_line(LineType::Fox, 0);
    h.process(fox, writable());
    h.process_read(fox, vec![5, 1, 0]);
    h.process_read(fox, connect_request("ab", 1));
    h.process_read(fox, vec![1]);
    let acts = h.remove_pair(fox);
    assert_eq!(acts, vec![Action::Shutdown(fox), Action::Deregister(fox), Action::Shutdown(1)]);
    assert!(!h.has_line(fox));
    assert!(h.get_line(1).is_dead());
    assert_eq!(h.get_line(1).partner_id(), 0);
    assert_eq!(h.remove_line_by_id(1), vec![Action::Deregister(1)]);
    assert_eq!(h.remove_line_by_id(0), vec![]);
    assert!(!h.has_line(1));
}

#[test]
fn http_line_is_served_then_closed() {
    let mut h = Hub::new(0);
    let l = h.new_line(LineType::Log, 0);
    h.process(l, writable());
    let acts = h.process_read(l, b"GET / HTTP/1.1".to_vec());
    assert_eq!(
        acts,
        vec![Action::Serve {
            id: l,
            source: ContentSource::File("dist/index.html".to_string()),
            mime: Mime::Html
        }]
    );
    h.answer_http(l, &ContentSource::File("dist/index.html".to_string()), Mime::Html, None);
    let expected = b"HTTP/1.1 404 OK\r\nContent-Type: text/html; charset=utf-8\r\n\r\n".to_vec();
    assert_eq!(h.get_line(l).queue().clone(), expected);
    assert_eq!(h.close_line(l), vec![Action::Shutdown(l)]);
    assert!(h.get_line(l).is_dead());
    assert!(!h.can_process_read(l, &b"NOSPACE".to_vec()));
}

#[test]
fn check_callers_spawns_once() {
    let mut h = Hub::new(0);
    h.init_callers(2, "127.0.0.1:9000", 0);
    // two born callers are idle: enough
    assert_eq!(h.check_callers(0), Vec::<usize>::new());
    let fox = h.new_line(LineType::Fox, 0);
    h.process_read(fox, vec![5, 1, 0]);
    h.process_read(fox, connect_request("ab", 1));
    h.process_read(fox, vec![1]);
    // one caller is taken: a spawn of two starts
    assert_eq!(h.check_callers(0), vec![4usize, 5]);
    // now three idle: spawning stops
    assert_eq!(h.check_callers(0), Vec::<usize>::new());
}

#[test]
fn check_callers_waits_for_a_spawn() {
    let mut h = Hub::new(0);
    h.init_callers(1, "127.0.0.1:9000", 0);
    let fox = h.new_line(LineType::Fox, 0);
    h.process_read(fox, vec![5, 1, 0]);
    h.process_read(fox, connect_request("ab", 1));
    h.process_read(fox, vec![1]);
    assert_eq!(h.check_callers(0), vec![3usize]);
    let fox2 = h.new_line(LineType::Fox, 0);
    h.process_read(fox2, vec![5, 1, 0]);
    h.process_read(fox2, connect_request("ab", 1));
    h.process_read(fox2, vec![1]);
    // still spawning: nothing more
    assert_eq!(h.check_callers(0), Vec::<usize>::new());
}

#[test]
fn caller_upkeep_preconditions_are_tested() {
    let mut h = Hub::new(0);
    assert!(!h.can_check_callers());
    assert!(!h.can_add_caller());
    h.init_callers(0, "127.0.0.1:9000", 0);
    assert!(h.can_check_callers());
    assert!(h.can_add_caller());
    for _ in 0..255 {
        h.add_one_caller(0);
    }
    assert!(h.can_check_callers());
    h.add_one_caller(0);
    // 256 idle callers no longer fit a u8 count
    assert!(!h.can_check_callers());
    assert!(h.can_add_caller());
    assert!(!Hub::new(usize::MAX).can_add_caller());
}

#[test]
fn first_hub_reports_its_last_id() {
    let mut h = Hub::new(7);
    assert_eq!(h.last_id(), 7);
    assert_eq!(h.new_line(LineType::Fox, 0), 8);
    assert_eq!(h.last_id(), 8);
}
