use toll_gate::ClientAddr;
use toll_gate::OutboundQueue;
use toll_gate::Registry;
use toll_gate::RouteOutcome;
use toll_gate::Session;
use toll_gate::ephemeral_port;

fn addr_a() -> ClientAddr {
    ClientAddr::new(0xC0A84001, 40001)
}

fn addr_b() -> ClientAddr {
    ClientAddr::new(0xC0A84002, 40002)
}

#[test]
fn fifo_per_client_order() {
    let mut s = Session::new(addr_a());
    assert!(s.enqueue(vec![1, 1, 1]).is_ok());
    assert!(s.enqueue(vec![2, 2]).is_ok());
    assert!(s.enqueue(vec![3]).is_ok());
    assert_eq!(s.next_forward(), Some(vec![1, 1, 1]));
    assert_eq!(s.next_forward(), Some(vec![2, 2]));
    assert_eq!(s.next_forward(), Some(vec![3]));
    assert_eq!(s.next_forward(), None);
}

#[test]
fn content_fidelity_all_byte_values() {
    let payload: Vec<u8> = (0..=255u8).collect();
    let mut s = Session::new(addr_a());
    assert!(s.enqueue(payload.clone()).is_ok());
    assert_eq!(s.next_forward(), Some(payload.clone()));

    let item = s.deliver_response(payload.clone());
    assert_eq!(item.client, addr_a());
    assert_eq!(item.payload, payload);
}

#[test]
fn idle_budget_times_out_session() {
    let mut s = Session::new(addr_a());
    for _ in 0..9 {
        assert!(!s.idle_wait());
        assert!(!s.is_timed_out());
    }
    assert!(s.idle_wait());
    assert!(s.is_timed_out());
    // A timed-out session turns payloads away, handing them back untouched.
    assert_eq!(s.enqueue(vec![42, 43]), Err(vec![42, 43]));
}

#[test]
fn traffic_resets_idle_budget() {
    let mut s = Session::new(addr_a());
    for _ in 0..9 {
        assert!(!s.idle_wait());
    }
    assert!(s.enqueue(vec![5]).is_ok());
    assert_eq!(s.next_forward(), Some(vec![5]));
    // The successful receive reset the count: a full budget remains.
    for _ in 0..9 {
        assert!(!s.idle_wait());
    }
    assert!(s.idle_wait());
    assert!(s.is_timed_out());
}

#[test]
fn single_session_per_client() {
    let mut reg = Registry::new();
    assert_eq!(reg.route_inbound(addr_a(), vec![1]), RouteOutcome::Created);
    assert_eq!(reg.len(), 1);
    assert_eq!(reg.route_inbound(addr_a(), vec![2]), RouteOutcome::Delivered);
    assert_eq!(reg.len(), 1);
    assert_eq!(reg.route_inbound(addr_b(), vec![3]), RouteOutcome::Created);
    assert_eq!(reg.len(), 2);
    assert!(reg.contains(addr_a()));
    assert!(reg.contains(addr_b()));
}

#[test]
fn stale_session_recreated_without_losing_payload() {
    let mut reg = Registry::new();
    assert_eq!(reg.route_inbound(addr_a(), vec![1]), RouteOutcome::Created);
    assert_eq!(reg.take_forward(addr_a()), Some(Some(vec![1])));
    // The client goes silent for the whole idle budget.
    for _ in 0..9 {
        assert_eq!(reg.idle_tick(addr_a()), Some(false));
    }
    assert_eq!(reg.idle_tick(addr_a()), Some(true));
    assert!(!reg.reader_keeps_running(addr_a()));
    // The stale entry is still in the table; the next datagram triggers
    // eviction and recreation, and the datagram itself is not lost.
    assert_eq!(reg.route_inbound(addr_a(), vec![9, 9]), RouteOutcome::Recreated);
    assert_eq!(reg.len(), 1);
    assert!(reg.reader_keeps_running(addr_a()));
    assert_eq!(reg.take_forward(addr_a()), Some(Some(vec![9, 9])));
}

#[test]
fn response_routing_two_clients() {
    let sa = Session::new(addr_a());
    let sb = Session::new(addr_b());
    let mut q = OutboundQueue::new();
    q.push_response(sa.deliver_response(vec![0xAA]));
    q.push_response(sb.deliver_response(vec![0xBB]));
    assert_eq!(q.len(), 2);

    let first = q.pop_next().unwrap();
    assert_eq!(first.client, addr_a());
    assert_eq!(first.payload, vec![0xAA]);
    let second = q.pop_next().unwrap();
    assert_eq!(second.client, addr_b());
    assert_eq!(second.payload, vec![0xBB]);
    assert!(q.pop_next().is_none());
}

#[test]
fn write_failure_recoverable() {
    let mut s = Session::new(addr_a());
    assert!(s.enqueue(vec![1]).is_ok());
    assert!(s.enqueue(vec![2]).is_ok());
    // The first payload comes out; the upstream write of it fails and the
    // payload is dropped.  The session is untouched by the failure...
    let lost = s.next_forward();
    assert_eq!(lost, Some(vec![1]));
    drop(lost);
    assert!(!s.is_timed_out());
    assert!(s.reader_keeps_running());
    // ...and the next payload is still forwarded.
    assert_eq!(s.next_forward(), Some(vec![2]));
}

#[test]
fn reader_lifetime_follows_idle_decision() {
    let mut s = Session::new(addr_a());
    // While the forwarding loop has not decided, a read deadline alone never
    // terminates the reader.
    assert!(s.reader_keeps_running());
    for _ in 0..9 {
        s.idle_wait();
        assert!(s.reader_keeps_running());
    }
    s.idle_wait();
    assert!(!s.reader_keeps_running());
}

#[test]
fn other_clients_untouched_by_one_clients_traffic() {
    let mut reg = Registry::new();
    reg.route_inbound(addr_a(), vec![1]);
    reg.route_inbound(addr_b(), vec![7, 7]);
    // Client A times out and is recreated; client B's queue is untouched.
    for _ in 0..10 {
        reg.idle_tick(addr_a());
    }
    assert_eq!(reg.route_inbound(addr_a(), vec![2]), RouteOutcome::Recreated);
    assert!(reg.reader_keeps_running(addr_b()));
    assert_eq!(reg.take_forward(addr_b()), Some(Some(vec![7, 7])));
}

#[test]
fn idle_tick_and_take_forward_need_a_session() {
    let mut reg = Registry::new();
    assert_eq!(reg.idle_tick(addr_a()), None);
    assert_eq!(reg.take_forward(addr_a()), None);
    assert!(!reg.reader_keeps_running(addr_a()));
    assert!(!reg.contains(addr_a()));
    assert_eq!(reg.len(), 0);
}

#[test]
fn take_forward_on_empty_queue_yields_nothing() {
    let mut reg = Registry::new();
    reg.route_inbound(addr_a(), vec![1]);
    assert_eq!(reg.take_forward(addr_a()), Some(Some(vec![1])));
    assert_eq!(reg.take_forward(addr_a()), Some(None));
}

#[test]
fn session_cap_turns_new_clients_away() {
    let mut reg = Registry::with_max_sessions(1);
    assert_eq!(reg.route_inbound(addr_a(), vec![1]), RouteOutcome::Created);
    assert_eq!(reg.route_inbound(addr_b(), vec![2]), RouteOutcome::AtCapacity);
    assert_eq!(reg.len(), 1);
    assert!(!reg.contains(addr_b()));
    // The client already registered is unaffected by the cap...
    assert_eq!(reg.route_inbound(addr_a(), vec![3]), RouteOutcome::Delivered);
    // ...and recreation does not grow the table, so it is allowed at the cap.
    for _ in 0..10 {
        reg.idle_tick(addr_a());
    }
    assert_eq!(reg.route_inbound(addr_a(), vec![4]), RouteOutcome::Recreated);
    assert_eq!(reg.len(), 1);
}

#[test]
fn cancellation_tears_everything_down() {
    let mut reg = Registry::new();
    assert!(!reg.is_cancelled());
    reg.route_inbound(addr_a(), vec![1]);
    reg.route_inbound(addr_b(), vec![2]);
    reg.cancel();
    assert!(reg.is_cancelled());
    // Both sessions are torn down: their readers stop at the next deadline
    // and their forwarding loops at the next step.
    assert!(!reg.reader_keeps_running(addr_a()));
    assert!(!reg.reader_keeps_running(addr_b()));
    assert_eq!(reg.idle_tick(addr_a()), Some(true));
    // No session is created any more; the payload is dropped.
    assert_eq!(reg.route_inbound(addr_a(), vec![3]), RouteOutcome::Rejected);
    assert_eq!(reg.len(), 2);
}

#[test]
fn closed_queue_still_drains() {
    let mut q = OutboundQueue::new();
    assert!(!q.is_closed());
    let s = Session::new(addr_a());
    q.push_response(s.deliver_response(vec![1]));
    q.close();
    assert!(q.is_closed());
    let item = q.pop_next().unwrap();
    assert_eq!(item.client, addr_a());
    assert_eq!(item.payload, vec![1]);
    assert!(q.pop_next().is_none());
}

#[test]
fn ephemeral_ports_avoid_well_known_range() {
    for _ in 0..1000 {
        assert!(ephemeral_port() >= 1024);
    }
}
