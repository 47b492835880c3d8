use rocky_rs::connection_manager::{BwResults, Report, TestInfo};
use rocky_rs::monitor::{CounterData, Data, Elapsed, Meta, PerSec, Rxe, RxeCounter, RxeHwCounter, Stats};
use rocky_rs::stats_db::{DbCommand, DbReply, StatsDb};
use rocky_rs::stats_manager::{Command, CommandReply, StatsManager};

fn sample_test_info() -> TestInfo {
    TestInfo {
        test: "SEND_BW".to_string(),
        dual_port: "OFF".to_string(),
        device: "mlx5_0".to_string(),
        number_of_qps: 1,
        transport_type: "IB".to_string(),
        connection_type: "RC".to_string(),
        using_srq: "OFF".to_string(),
        pci_relax_order: "ON".to_string(),
        ibv_wr_api: "ON".to_string(),
        tx_depth: Some(128),
        rx_depth: None,
        cq_moderation: 100,
        mtu: 4096,
        link_type: "IB".to_string(),
        gid_index: 3,
        max_inline_data: 0,
        rdma_cm_qps: "OFF".to_string(),
        data_ex_method: "ethernet".to_string(),
    }
}

fn sample_report(uuid: &str) -> Report {
    Report {
        hostname: "h1".to_string(),
        uuid: uuid.to_string(),
        test_info: sample_test_info(),
        bw_results: BwResults {
            msg_size: 65536,
            n_iterations: 1000,
            bw_peak_milli: 12500,
            bw_average_milli: 12400,
            msg_rate_milli: 190,
        },
    }
}

#[test]
fn add_then_get_returns_same_report() {
    let mut store = StatsManager::new();
    let report = sample_report("X");
    store.add("X".to_string(), "server".to_string(), report.clone());
    let got = store.get("X", "server").expect("stored report");
    assert_eq!(got.uuid, "X");
    assert_eq!(got.hostname, "h1");
    assert_eq!(got.bw_results, report.bw_results);
    assert_eq!(got.test_info.device, "mlx5_0");
}

#[test]
fn get_after_unrelated_operations_still_returns_it() {
    let mut store = StatsManager::new();
    store.add("X".to_string(), "server".to_string(), sample_report("X"));
    store.add("Y".to_string(), "server".to_string(), sample_report("Y"));
    store.remove("Y", "server");
    let got = store.get("X", "server").expect("stored report");
    assert_eq!(got.uuid, "X");
}

#[test]
fn at_most_one_report_per_key() {
    let mut store = StatsManager::new();
    store.add("X".to_string(), "server".to_string(), sample_report("X"));
    let mut second = sample_report("X");
    second.bw_results.msg_size = 4096;
    store.add("X".to_string(), "server".to_string(), second);
    assert_eq!(store.list().len(), 1);
    assert_eq!(store.get("X", "server").unwrap().bw_results.msg_size, 4096);
}

#[test]
fn suffixes_are_distinct_keys() {
    let mut store = StatsManager::new();
    store.add("X".to_string(), "server".to_string(), sample_report("X"));
    store.add("X".to_string(), "initiator".to_string(), sample_report("X"));
    assert_eq!(store.list().len(), 2);
}

#[test]
fn remove_is_idempotent() {
    let mut store = StatsManager::new();
    store.add("X".to_string(), "server".to_string(), sample_report("X"));
    store.remove("X", "server");
    assert!(store.get("X", "server").is_none());
    store.remove("X", "server");
    assert!(store.get("X", "server").is_none());
    assert_eq!(store.list().len(), 0);
}

#[test]
fn absent_key_is_absent() {
    let store = StatsManager::new();
    assert!(store.get("nothing", "server").is_none());
}

#[test]
fn store_commands_drive_the_table() {
    let mut store = StatsManager::new();
    let reply = store.apply(Command::Add {
        uuid: "X".to_string(),
        suffix: "initiator".to_string(),
        report: sample_report("X"),
    });
    assert!(matches!(reply, CommandReply::Added));
    let reply = store.apply(Command::Get { uuid: "X".to_string(), suffix: "initiator".to_string() });
    match reply {
        CommandReply::Report(Some(rep)) => assert_eq!(rep.uuid, "X"),
        _ => panic!("expected the stored report"),
    }
    let reply = store.apply(Command::List);
    match reply {
        CommandReply::List(entries) => assert_eq!(entries.len(), 1),
        _ => panic!("expected a listing"),
    }
    let reply = store.apply(Command::Remove { uuid: "X".to_string(), suffix: "initiator".to_string() });
    assert!(matches!(reply, CommandReply::Removed));
    assert!(store.get("X", "initiator").is_none());
}

fn sample_stats(interface: &str, port: &str, rx_bytes: u64) -> Stats {
    Stats {
        meta: Meta {
            hostname: "h1".to_string(),
            interface: interface.to_string(),
            port: port.to_string(),
        },
        data: Data {
            per_sec: PerSec {
                bytes_xmit_per_sec: 0,
                packets_xmit_per_sec: 0,
                bytes_rcv_per_sec: 0,
                packets_rcv_per_sec: 0,
            },
            elapsed: Elapsed { low: 0, high: 0 },
            data: CounterData::Rxe(Rxe {
                rxe_counter: RxeCounter { rx_bytes, tx_bytes: 0 },
                rxe_hw_counter: RxeHwCounter {
                    duplicate_request: 0,
                    sent_pkts: 0,
                    send_rnr_err: 0,
                    send_err: 0,
                    retry_rnr_exceeded_err: 0,
                    retry_exceeded_err: 0,
                    rdma_sends: 0,
                    rdma_recvs: 0,
                    rcvd_seq_err: 0,
                    rcvd_rnr_err: 0,
                    rcvd_pkts: 0,
                    out_of_seq_request: 0,
                    link_downed: 0,
                    lifespan: 0,
                    completer_retry_err: 0,
                    ack_deferred: 0,
                    port_xmit_data: 0,
                },
            }),
        },
    }
}

#[test]
fn db_insert_replaces_per_interface_port() {
    let mut db = StatsDb::new();
    db.insert(sample_stats("rxe0", "1", 100));
    db.insert(sample_stats("rxe0", "1", 200));
    db.insert(sample_stats("rxe1", "1", 300));
    assert_eq!(db.list().len(), 2);
    let got = db.get("rxe0", Some(&"1".to_string())).expect("stored snapshot");
    match got.data.data {
        CounterData::Rxe(r) => assert_eq!(r.rxe_counter.rx_bytes, 200),
        _ => panic!("wrong driver"),
    }
}

#[test]
fn db_get_without_port_is_absent() {
    let mut db = StatsDb::new();
    db.insert(sample_stats("rxe0", "1", 100));
    assert!(db.get("rxe0", None).is_none());
    assert!(db.get("rxe9", Some(&"1".to_string())).is_none());
}

#[test]
fn db_commands_drive_the_table() {
    let mut db = StatsDb::new();
    let reply = db.apply(DbCommand::Insert(sample_stats("rxe0", "1", 7)));
    assert!(matches!(reply, DbReply::Inserted));
    let reply = db.apply(DbCommand::List);
    match reply {
        DbReply::List(all) => assert_eq!(all.len(), 1),
        _ => panic!("expected a listing"),
    }
    let reply = db.apply(DbCommand::Get { address: "rxe0".to_string(), port: Some("1".to_string()) });
    match reply {
        DbReply::Got(Some(st)) => assert_eq!(st.meta.interface, "rxe0"),
        _ => panic!("expected the stored snapshot"),
    }
}
