use rocky_rs::connection_manager::CounterFilter;
use rocky_rs::counter_monitor::{
    filter_matches, CounterMonitor, Counters, HwCounters, MonitorCommand, PortCounters,
};

fn filter(interface: Option<&str>, port: Option<u32>) -> CounterFilter {
    CounterFilter {
        interface: interface.map(|s| s.to_string()),
        port,
        counter_list: Vec::new(),
    }
}

#[test]
fn filters_constrain_only_named_parts() {
    assert!(filter_matches(&filter(None, None), "rxe0", 1));
    assert!(filter_matches(&filter(Some("rxe0"), None), "rxe0", 1));
    assert!(!filter_matches(&filter(Some("rxe1"), None), "rxe0", 1));
    assert!(filter_matches(&filter(None, Some(1)), "rxe0", 1));
    assert!(!filter_matches(&filter(None, Some(2)), "rxe0", 1));
    assert!(filter_matches(&filter(Some("rxe0"), Some(1)), "rxe0", 1));
}

#[test]
fn matching_subscribers_receive_every_snapshot() {
    let mut router = CounterMonitor::new();
    router.register("a".to_string(), filter(Some("rxe0"), None));
    router.register("b".to_string(), filter(None, Some(1)));
    for _ in 0..3 {
        let routed = router.route("rxe0", 1);
        assert!(routed.iter().any(|id| id == "a"));
        assert!(routed.iter().any(|id| id == "b"));
    }
    let routed = router.route("rxe1", 1);
    assert!(!routed.iter().any(|id| id == "a"));
    assert!(routed.iter().any(|id| id == "b"));
    let routed = router.route("rxe0", 2);
    assert!(routed.iter().any(|id| id == "a"));
    assert!(!routed.iter().any(|id| id == "b"));
}

#[test]
fn unregister_stops_the_stream() {
    let mut router = CounterMonitor::new();
    router.register("a".to_string(), filter(None, None));
    assert!(router.route("rxe0", 1).iter().any(|id| id == "a"));
    router.unregister("a");
    assert!(router.route("rxe0", 1).is_empty());
    router.unregister("a");
    assert!(router.route("rxe0", 1).is_empty());
}

#[test]
fn reregistration_replaces_the_filter() {
    let mut router = CounterMonitor::new();
    router.register("a".to_string(), filter(Some("rxe0"), None));
    router.register("a".to_string(), filter(Some("rxe1"), None));
    assert!(router.route("rxe0", 1).is_empty());
    let routed = router.route("rxe1", 1);
    assert_eq!(routed.len(), 1);
    assert_eq!(routed[0], "a");
}

#[test]
fn commands_drive_the_registry() {
    let mut router = CounterMonitor::new();
    router.apply(MonitorCommand::Register {
        id: "a".to_string(),
        counter_filter: filter(None, None),
    });
    assert_eq!(router.route("rxe0", 1).len(), 1);
    router.apply(MonitorCommand::UnRegister { id: "a".to_string() });
    assert!(router.route("rxe0", 1).is_empty());
}

fn sample_counters() -> Counters {
    Counters {
        interface: "mlx5_0".to_string(),
        port: "1".to_string(),
        port_counters: PortCounters {
            unicast_xmit_packets: 1,
            unicast_rcv_packets: 2,
            port_xmit_wait: 3,
            port_xmit_packets: 4,
            port_xmit_data: 5,
            port_rcv_packets: 6,
            port_rcv_errors: 7,
            port_rcv_data: 8,
            multicast_xmit_packets: 9,
            multicast_rcv_packets: 10,
        },
        hw_counters: HwCounters {
            rx_write_requests: 11,
            rx_read_requests: 12,
            rx_atomic_requests: 13,
            resp_cqe_errors: 14,
            req_cqe_errors: 15,
            resp_cqe_fl: 16,
            out_of_sequence: 17,
            out_of_buffer: 18,
            local_ack_timeout_errors: 19,
            implied_nak_seq_errors: 20,
            duplicate_request: 21,
        },
    }
}

#[test]
fn stream_message_carries_the_reading() {
    let counters = sample_counters();
    let msg = counters.to_interface_counter(1);
    assert_eq!(msg.name, "mlx5_0");
    assert_eq!(msg.port, 1);
    assert_eq!(msg.counters.port_counter.port_rcv_data, 8);
    assert_eq!(msg.counters.hw_counter.duplicate_request, 21);
    assert_eq!(msg.counters.hw_counter.resp_cqe_fl, 16);
}

#[test]
fn read_records_follow_the_name_order() {
    let hw_names = HwCounters::names();
    assert_eq!(hw_names.len(), 11);
    assert_eq!(hw_names[3], "resp_cqe_error");
    assert_eq!(hw_names[8], "local_ack_timeout_err");
    let values: Vec<u64> = (100..111).collect();
    let hw = HwCounters::from_values(&values);
    assert_eq!(hw.rx_write_requests, 100);
    assert_eq!(hw.resp_cqe_errors, 103);
    assert_eq!(hw.duplicate_request, 110);
    let port_names = PortCounters::names();
    assert_eq!(port_names.len(), 10);
    assert_eq!(port_names[0], "unicast_xmit_packets");
    let values: Vec<u64> = (200..210).collect();
    let pc = PortCounters::from_values(&values);
    assert_eq!(pc.unicast_xmit_packets, 200);
    assert_eq!(pc.multicast_rcv_packets, 209);
}
