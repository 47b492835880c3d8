use rocky_rs::collector::{
    apply_tick, counter_path, linux_name_from_rdma_output, net_statistics_path, rate_milli,
    Collector, Driver, Interface, PortHistory,
};
use rocky_rs::monitor::{CounterData, Elapsed, Rxe, RxeCounter, RxeHwCounter};

fn rxe_data(rcvd_pkts: u64, rx_bytes: u64, sent_pkts: u64, tx_bytes: u64) -> CounterData {
    CounterData::Rxe(Rxe {
        rxe_counter: RxeCounter { rx_bytes, tx_bytes },
        rxe_hw_counter: RxeHwCounter {
            duplicate_request: 0,
            sent_pkts,
            send_rnr_err: 0,
            send_err: 0,
            retry_rnr_exceeded_err: 0,
            retry_exceeded_err: 0,
            rdma_sends: 0,
            rdma_recvs: 0,
            rcvd_seq_err: 0,
            rcvd_rnr_err: 0,
            rcvd_pkts,
            out_of_seq_request: 0,
            link_downed: 0,
            lifespan: 0,
            completer_retry_err: 0,
            ack_deferred: 0,
            port_xmit_data: 0,
        },
    })
}

#[test]
fn first_tick_has_zero_rates() {
    let mut h = PortHistory::empty();
    let rates = apply_tick(&mut h, &rxe_data(10, 100, 20, 200), 1000);
    assert_eq!(rates.bytes_rcv_per_sec, 0);
    assert_eq!(rates.packets_rcv_per_sec, 0);
    assert_eq!(rates.bytes_xmit_per_sec, 0);
    assert_eq!(rates.packets_xmit_per_sec, 0);
    assert_eq!(h.rcv_data, Some(100));
    assert_eq!(h.rcv_packets, Some(10));
}

#[test]
fn growing_counter_derives_rate() {
    let mut h = PortHistory::empty();
    apply_tick(&mut h, &rxe_data(0, 100, 0, 0), 1000);
    let rates = apply_tick(&mut h, &rxe_data(0, 150, 0, 0), 1000);
    assert_eq!(rates.bytes_rcv_per_sec, 50_000);
}

#[test]
fn equal_counter_derives_zero_rate() {
    let mut h = PortHistory::empty();
    apply_tick(&mut h, &rxe_data(5, 100, 5, 100), 1000);
    let rates = apply_tick(&mut h, &rxe_data(5, 100, 5, 100), 1000);
    assert_eq!(rates.bytes_rcv_per_sec, 0);
    assert_eq!(rates.packets_rcv_per_sec, 0);
    assert_eq!(rates.bytes_xmit_per_sec, 0);
    assert_eq!(rates.packets_xmit_per_sec, 0);
}

#[test]
fn counter_reset_derives_zero_and_updates_history() {
    let mut h = PortHistory::empty();
    let samples = [100u64, 150, 80, 200];
    let expected = [0u64, 50_000, 0, 120_000];
    for (sample, want) in samples.iter().zip(expected.iter()) {
        let rates = apply_tick(&mut h, &rxe_data(0, *sample, 0, 0), 1000);
        assert_eq!(rates.bytes_rcv_per_sec, *want);
        assert_eq!(h.rcv_data, Some(*sample));
    }
}

#[test]
fn sub_second_period_scales_rate() {
    let mut h = PortHistory::empty();
    apply_tick(&mut h, &rxe_data(0, 0, 0, 0), 500);
    let rates = apply_tick(&mut h, &rxe_data(0, 50, 0, 0), 500);
    assert_eq!(rates.bytes_rcv_per_sec, 100_000);
}

#[test]
fn rate_helper_matches_formula() {
    assert_eq!(rate_milli(None, 10, 1000), 0);
    assert_eq!(rate_milli(Some(10), 10, 1000), 0);
    assert_eq!(rate_milli(Some(20), 10, 1000), 0);
    assert_eq!(rate_milli(Some(0), 30, 2000), 15_000);
    assert_eq!(rate_milli(Some(0), 1, 0), 0);
}

#[test]
fn collector_keeps_history_per_port() {
    let interfaces = vec![Interface {
        name: "rxe0".to_string(),
        linux_name: "eth0".to_string(),
        ports: vec!["1".to_string(), "2".to_string()],
    }];
    let mut collector = Collector::new(1000, Driver::Rxe, interfaces);
    let e = Elapsed { low: 0, high: 0 };
    collector.observe(0, 0, rxe_data(0, 100, 0, 0), e);
    collector.observe(0, 1, rxe_data(0, 900, 0, 0), e);
    let s = collector.observe(0, 0, rxe_data(0, 160, 0, 0), e);
    assert_eq!(s.meta.interface, "rxe0");
    assert_eq!(s.meta.port, "1");
    assert_eq!(s.data.per_sec.bytes_rcv_per_sec, 60_000);
    let s = collector.observe(0, 1, rxe_data(0, 1000, 0, 0), e);
    assert_eq!(s.meta.port, "2");
    assert_eq!(s.data.per_sec.bytes_rcv_per_sec, 100_000);
}

#[test]
fn driver_names() {
    assert_eq!(Driver::from_str("rxe"), Ok(Driver::Rxe));
    assert_eq!(Driver::from_str("mlx"), Ok(Driver::Mlx));
    assert_eq!(Driver::from_str("ib"), Err("invalid driver"));
}

#[test]
fn counter_paths() {
    assert_eq!(
        counter_path("mlx5_0", "1", "counters", "port_rcv_data"),
        "/sys/class/infiniband/mlx5_0/ports/1/counters/port_rcv_data"
    );
    assert_eq!(
        counter_path("rxe0", "1", "hw_counters", "rcvd_pkts"),
        "/sys/class/infiniband/rxe0/ports/1/hw_counters/rcvd_pkts"
    );
    assert_eq!(
        net_statistics_path("eth0", "rx_bytes"),
        "/sys/class/net/eth0/statistics/rx_bytes"
    );
}

#[test]
fn linux_name_is_second_to_last_token() {
    let out = "link rxe0/1 state ACTIVE physical_state LINK_UP netdev eth0 \n";
    assert_eq!(linux_name_from_rdma_output(out), "eth0");
    assert_eq!(linux_name_from_rdma_output(""), "");
}

#[test]
fn elapsed_round_trip() {
    let t: u128 = (7u128 << 64) | 42u128;
    let e = Elapsed::from_u128(t);
    assert_eq!(e.high, 7);
    assert_eq!(e.low, 42);
    assert_eq!(e.to_u128(), t);
    let e = Elapsed::from_u128(u128::MAX);
    assert_eq!(e.high, u64::MAX);
    assert_eq!(e.low, u64::MAX);
    assert_eq!(e.to_u128(), u128::MAX);
}
