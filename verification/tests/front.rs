use theshy::gate::hub::line_header::{LineStatus, LineType};
use theshy::gate::hub_header::Hub;
use theshy::gate::{Gate, GateEvent, LISTENER};
use theshy::server::{Server, Status};

#[test]
fn callers_wait_in_order() {
    let mut h = Hub::new(0);
    let ids = h.init_callers(2, "127.0.0.1:9000", 0);
    assert_eq!(ids, vec![1u64, 2]);
    assert_eq!(h.idle_caller_count(), 2);
    assert_eq!(h.healthy_size(), 2);
    assert_eq!(h.proxy_server().as_str(), "127.0.0.1:9000");
    assert_eq!(h.idle_caller_list().iter().cloned().collect::<Vec<u64>>(), vec![1u64, 2]);
    assert_eq!(h.idle_caller(), 1);
    assert_eq!(h.idle_caller_count(), 1);
    h.add_idle_caller(1);
    assert_eq!(h.idle_caller_list().iter().cloned().collect::<Vec<u64>>(), vec![2u64, 1]);
    assert_eq!(h.m().len(), 2);
}

#[test]
fn working_callers_are_the_occupied_ones() {
    let mut h = Hub::new(0);
    h.init_callers(3, "127.0.0.1:9000", 0);
    assert_eq!(h.working_caller_count(), 0);
    h.get_mut_line_by_id(2).set_partner_id(9);
    assert_eq!(h.get_line_by_id(2).status(), LineStatus::Occupied);
    assert_eq!(h.working_caller_count(), 1);
}

#[test]
fn old_callers_are_retired() {
    let mut h = Hub::new(0);
    h.init_callers(2, "127.0.0.1:9000", 0);
    let young = h.new_line(LineType::Caller, 100_000);
    h.add_idle_caller(young);
    h.get_mut_line(1).on_writable();
    assert!(h.callers_aged(200_000));
    assert!(!h.callers_aged(50_000));
    let shutdown = h.old_check(200_000);
    assert_eq!(shutdown, vec![1u64]);
    assert_eq!(h.idle_caller_list().iter().cloned().collect::<Vec<u64>>(), vec![young]);
    assert_eq!(h.dead_list().clone(), vec![1u64, 2]);
    assert!(h.get_line(1).is_dead());
    assert!(h.get_line(2).is_dead());
    // two dead, healthy size two: kept for now
    assert_eq!(h.dead_count(), 2);
    assert_eq!(h.dead_check(), Vec::<u64>::new());
    assert_eq!(h.health_check(300_000), vec![4u64, 5]);
    assert_eq!(h.idle_caller_count(), 3);
    h.kill_line_by_id(4);
    assert_eq!(h.dead_check(), vec![4u64, 2, 1]);
    assert_eq!(h.dead_count(), 0);
    assert!(h.m().get(&1).is_none());
    assert_eq!(h.m().len(), 2);
}

#[test]
fn dead_callers_have_no_age() {
    let mut h = Hub::new(0);
    h.init_callers(1, "127.0.0.1:9000", 0);
    h.kill_line(1);
    assert_eq!(h.old_check(1_000_000), Vec::<u64>::new());
    assert_eq!(h.idle_caller_count(), 0);
    assert_eq!(h.dead_list().clone(), vec![1u64]);
}

#[test]
fn dead_pair_kills_both() {
    let mut h = Hub::new(0);
    let a = h.new_line(LineType::Fox, 0);
    let b = h.new_line(LineType::Caller, 0);
    h.get_mut_line(a).set_partner_id(b);
    h.get_mut_line(b).set_partner_id(a);
    assert_eq!(h.dead_pair(a), vec![b, a]);
    assert!(h.get_line(a).is_dead() && h.get_line(b).is_dead());
    assert_eq!(h.dead_list().clone(), vec![b, a]);
    assert!(!h.kill_line_by_id(0));
    assert_eq!(h.remove_dead(), vec![a, b]);
    assert_eq!(h.m().len(), 0);
}

#[test]
fn a_twice_killed_line_cannot_be_removed() {
    let mut h = Hub::new(0);
    let a = h.new_line(LineType::Fox, 0);
    h.kill_line(a);
    h.kill_line(a);
    // listed twice: removing the dead would look the line up again
    assert_eq!(h.dead_list().clone(), vec![a, a]);
}

#[test]
fn settings_of_the_hub() {
    let mut h = Hub::new(5);
    assert_eq!(h.next_id(), 6);
    assert_eq!(h.last_id(), 6);
    h.set_healthy_size(4);
    h.set_spawning(true);
    assert!(h.spawning());
    h.set_proxy_server("10.0.0.1:1");
    assert_eq!(h.proxy_server().as_str(), "10.0.0.1:1");
    assert_eq!(h.healthy_size(), 4);
}

#[test]
fn front_routes_and_checks() {
    let mut g = Gate::new(LineType::Fox);
    assert_eq!(g.kind(), LineType::Fox);
    assert_eq!(g.process(LISTENER), GateEvent::Listener);
    assert_eq!(g.process(3), GateEvent::Line(3));
    g.hub.init_callers(2, "127.0.0.1:9000", 0);
    assert!(g.can_check(500_000));
    let r = g.check(500_000, 500_000);
    // both callers were old: killed (born, so no shutdown), then respawned
    assert!(r.shutdown.is_empty());
    assert!(r.removed.is_empty());
    assert_eq!(r.added, vec![3u64, 4]);
    assert_eq!(g.hub.dead_count(), 2);
}

#[test]
fn other_fronts_do_not_check() {
    let mut g = Gate::new(LineType::Http);
    g.hub.init_callers(1, "127.0.0.1:9000", 0);
    let r = g.check(900_000, 0);
    assert!(r.shutdown.is_empty() && r.removed.is_empty() && r.added.is_empty());
    assert_eq!(g.hub.idle_caller_count(), 1);
}

#[test]
fn server_status() {
    assert_eq!(Server::status(1, 5), Status::Dead);
    assert_eq!(Server::status(0, 0), Status::Dead);
    assert_eq!(Server::status(0, 3), Status::Working);
    let mut s = Server::new(LineType::Operator);
    assert_eq!(s.init(2, "127.0.0.1:1", 0), vec![1u64, 2]);
    assert_eq!(s.gate.hub.idle_caller_count(), 2);
}

#[test]
fn plain_hub_adds_and_removes_lines() {
    let mut h = theshy::hub_header::Hub::new(0);
    let a = h.new_line(LineType::Spider, 3);
    assert_eq!(a, 1);
    assert_eq!(h.get_line_by_id(a).born_time(), 3);
    h.set_healthy_size(2);
    h.set_proxy_server("1.1.1.1:1");
    assert_eq!(h.proxy_server().as_str(), "1.1.1.1:1");
    h.remove_line_by_id(0);
    assert_eq!(h.m().len(), 1);
    h.remove_line_by_id(a);
    assert_eq!(h.m().len(), 0);
    assert_eq!(h.next_id(), 2);
    let b = h.new_line(LineType::Fox, 0);
    h.remove_line(b);
    assert!(h.m().is_empty());
}

#[test]
fn a_dead_caller_born_later_is_not_aged() {
    let mut h = Hub::new(0);
    h.init_callers(1, "127.0.0.1:9000", 1_000_000);
    assert!(!h.callers_aged(10));
    h.kill_line(1);
    // a dead caller has no age, so its birth time does not matter
    assert!(h.callers_aged(10));
    assert_eq!(h.old_check(10), Vec::<u64>::new());
    assert_eq!(h.idle_caller_count(), 0);
}

#[test]
fn front_checks_only_need_the_clock_and_id_room() {
    let mut g = Gate::new(LineType::Fox);
    g.hub.init_callers(1, "127.0.0.1:9000", 500);
    assert!(!g.can_check(100));
    assert!(g.can_check(500));
    let r = g.check(500, 600);
    assert_eq!(r.added, Vec::<u64>::new());
}

#[test]
fn dead_pair_shuts_down_only_live_sockets() {
    let mut h = Hub::new(0);
    let a = h.new_line(LineType::Fox, 0);
    // a born line without partner: nothing to shut down
    assert_eq!(h.dead_pair(a), Vec::<u64>::new());
    let b = h.new_line(LineType::Fox, 0);
    let c = h.new_line(LineType::Caller, 0);
    h.get_mut_line(b).on_writable();
    h.get_mut_line(b).set_partner_id(c);
    // the partner was only born; the line itself was occupied
    assert_eq!(h.dead_pair(b), vec![b]);
}

#[test]
fn server_init_hands_out_the_next_ids() {
    let mut s = Server::new(LineType::Fox);
    assert_eq!(s.init(3, "127.0.0.1:9000", 0), vec![1u64, 2, 3]);
    assert_eq!(s.gate.hub.last_id(), 3);
}
