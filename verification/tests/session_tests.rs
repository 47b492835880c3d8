use rocky_rs::connection_manager::{Mode, Operation, Request, ServerReply};
use rocky_rs::initiator::{planned_transfers, Initiator, Stats, StatsMap};
use rocky_rs::queue::Queue;
use rocky_rs::server::{mtu_for_size, Server};
use rocky_rs::session::{apply_server_reply, initiator_entry, ServerSession, SessionState};
use rocky_rs::connection_manager::Mtu;
use rocky_rs::initiator::SendRequest;

fn request() -> Request {
    Request {
        uuid: None,
        server_address: "h2".to_string(),
        server_port: 50051,
        iterations: Some(10),
        message_size: Some(4096),
        mtu: None,
        duration: None,
        operation: Operation::Send,
        mode: Mode::Bw,
        cm: false,
    }
}

#[test]
fn initiator_entry_assigns_uuid_when_absent() {
    let mut req = request();
    let reply = initiator_entry(&mut req);
    assert_eq!(reply.uuid.len(), 36);
    assert_eq!(req.uuid, Some(reply.uuid.clone()));
    let mut second = request();
    let other = initiator_entry(&mut second);
    assert_ne!(reply.uuid, other.uuid);
}

#[test]
fn initiator_entry_keeps_present_uuid() {
    let mut req = request();
    req.uuid = Some("fixed".to_string());
    let reply = initiator_entry(&mut req);
    assert_eq!(reply.uuid, "fixed");
    assert_eq!(req.uuid, Some("fixed".to_string()));
}

#[test]
fn server_reply_rewrites_the_port() {
    let mut req = request();
    apply_server_reply(&mut req, &ServerReply { port: 61234 });
    assert_eq!(req.server_port, 61234);
    assert_eq!(req.server_address, "h2");
}

#[test]
fn server_session_walks_its_states() {
    let mut session = ServerSession::new(request());
    assert_eq!(session.state, SessionState::Created);
    match session.allocate_port() {
        Ok(reply) => {
            assert_eq!(session.state, SessionState::PortAllocated);
            assert_eq!(session.request.server_port, reply.port);
            assert_eq!(session.port.map(|p| p as u32), Some(reply.port));
            session.mark_child_spawned();
            assert_eq!(session.state, SessionState::ChildSpawned);
        },
        Err(_) => {
            assert_eq!(session.state, SessionState::Failed);
        },
    }
}

#[test]
fn clean_exit_files_a_server_report() {
    let mut req = request();
    req.uuid = Some("X".to_string());
    let mut session = ServerSession::new(req);
    session.state = SessionState::Running;
    session.on_child_exit(true);
    assert_eq!(session.state, SessionState::Exited);
    let (uuid, suffix) = session.report_key();
    assert_eq!(uuid, "X");
    assert_eq!(suffix, "server");
    session.mark_reported();
    assert_eq!(session.state, SessionState::Reported);
}

#[test]
fn failed_exit_files_nothing() {
    let mut session = ServerSession::new(request());
    session.state = SessionState::Running;
    session.on_child_exit(false);
    assert_eq!(session.state, SessionState::Failed);
}

#[test]
fn legacy_endpoints_hold_their_addresses() {
    let i = Initiator::new("0.0.0.0:50050".to_string());
    assert_eq!(i.address, "0.0.0.0:50050");
    let s = Server::new("0.0.0.0".to_string(), 50051);
    assert_eq!(s.address, "0.0.0.0");
    assert_eq!(s.port, 50051);
}

#[test]
fn transfer_plan_and_mtu_fallback() {
    assert_eq!(planned_transfers(1_000_000, 4096), 244);
    assert_eq!(planned_transfers(4096, 4096), 1);
    assert_eq!(mtu_for_size(512), Mtu::Mtu512);
    assert_eq!(mtu_for_size(4096), Mtu::Mtu4096);
    assert_eq!(mtu_for_size(9000), Mtu::Mtu1024);
}

#[test]
fn iteration_stats_render_exactly() {
    let stats = Stats::new(125_000_000, 10, 1000, "X".to_string());
    assert_eq!(stats.total_time, "1000 ms");
    assert_eq!(stats.rate, "1000.00 Mbps");
    let stats = Stats::new(2_000_000_000, 1, 1000, "X".to_string());
    assert_eq!(stats.rate, "16.00 Gbps");
    let stats = Stats::new(125, 1, 1000, "X".to_string());
    assert_eq!(stats.rate, "1000.00 bps");
    let stats = Stats::new(250, 1, 1000, "X".to_string());
    assert_eq!(stats.rate, "2.00 Kbps");
    let stats = Stats::new(0, 0, 2500, "X".to_string());
    assert_eq!(stats.total_time, "2.50 s");
    assert_eq!(stats.rate, "0.00 bps");
    assert_eq!(
        stats.render(),
        "\tuid: X\n\tmessages: 0\n\ttotal message size: 0\n\ttotal time: 2.50 s\n\trate: 0.00 bps"
    );
}

#[test]
fn stats_map_keeps_iterations_in_order() {
    let mut map = StatsMap::new();
    map.push(0, Stats::new(100, 1, 1000, "X".to_string()));
    map.push(1, Stats::new(200, 2, 1000, "X".to_string()));
    assert_eq!(map.0.len(), 2);
    assert_eq!(map.0[0].0, 0);
    assert_eq!(map.0[1].0, 1);
    let rendered = map.render();
    assert!(rendered.starts_with("iteration: 0\n"));
    assert!(rendered.contains("iteration: 1\n"));
}

#[test]
fn queue_is_first_in_first_out() {
    let mut q = Queue::new();
    assert!(q.pop().is_none());
    q.push(SendRequest {
        address: "a".to_string(),
        iterations: 1,
        message_size: 1,
        volume: 1,
        mtu: 1024,
        op: 0,
    });
    q.push(SendRequest {
        address: "b".to_string(),
        iterations: 1,
        message_size: 1,
        volume: 1,
        mtu: 1024,
        op: 0,
    });
    assert_eq!(q.pop().unwrap().address, "a");
    assert_eq!(q.pop().unwrap().address, "b");
    assert!(q.pop().is_none());
}
