//! The report ingestion path as the agent runs it: a child's JSON-ish
//! blob is normalized, parsed as strict JSON, and filed in the store.

use rocky_rs::connection_manager::{BwResults, Report, TestInfo};
use rocky_rs::normalize::quote_strings;
use rocky_rs::stats_manager::StatsManager;

fn milli(v: f64) -> u64 {
    (v * 1000.0).round() as u64
}

fn report_from_json(value: &serde_json::Value, hostname: &str, uuid: &str) -> Report {
    let s = |k: &str| value[k].as_str().unwrap_or("").to_string();
    let n = |k: &str| value[k].as_u64().unwrap_or(0) as u32;
    let f = |k: &str| milli(value[k].as_f64().unwrap_or(0.0));
    Report {
        hostname: hostname.to_string(),
        uuid: uuid.to_string(),
        test_info: TestInfo {
            test: s("test"),
            dual_port: s("Dual_port"),
            device: s("Device"),
            number_of_qps: n("Number_of_qps"),
            transport_type: s("Transport_type"),
            connection_type: s("Connection_type"),
            using_srq: s("Using_SRQ"),
            pci_relax_order: s("PCIe_relax_order"),
            ibv_wr_api: s("ibv_wr_API"),
            tx_depth: value["TX_depth"].as_u64().map(|v| v as u32),
            rx_depth: value["RX_depth"].as_u64().map(|v| v as u32),
            cq_moderation: n("CQ_Moderation"),
            mtu: n("Mtu"),
            link_type: s("Link_type"),
            gid_index: n("GID_index"),
            max_inline_data: n("Max_inline_data"),
            rdma_cm_qps: s("rdma_cm_QPs"),
            data_ex_method: s("Data_ex_method"),
        },
        bw_results: BwResults {
            msg_size: n("MsgSize"),
            n_iterations: n("n_iterations"),
            bw_peak_milli: f("BW_peak"),
            bw_average_milli: f("BW_average"),
            msg_rate_milli: f("MsgRate"),
        },
    }
}

#[test]
fn malformed_blob_is_ingested() {
    let blob = "{ test: foo, Dual_port: OFF, BW_peak: 12.5, MsgSize: 4096, n_iterations: 10, }";
    let normalized = quote_strings(blob);
    let value: serde_json::Value = serde_json::from_str(&normalized).expect("strict json");
    let report = report_from_json(&value, "h1", "X");
    assert_eq!(report.test_info.test, "foo");
    assert_eq!(report.test_info.dual_port, "OFF");
    assert_eq!(report.bw_results.bw_peak_milli, 12500);
    assert_eq!(report.bw_results.msg_size, 4096);
    assert_eq!(report.bw_results.n_iterations, 10);
    let mut store = StatsManager::new();
    store.add("X".to_string(), "server".to_string(), report);
    let got = store.get("X", "server").expect("stored report");
    assert_eq!(got.bw_results.msg_size, 4096);
    assert_eq!(got.test_info.test, "foo");
}

#[test]
fn full_report_blob_round_trips() {
    let blob = "{ test: SEND_BW, Dual_port: OFF, Device: mlx5_0, Number_of_qps: 1, Transport_type: IB, Connection_type: RC, Using_SRQ: OFF, PCIe_relax_order: ON, ibv_wr_API: ON, TX_depth: 128, CQ_Moderation: 100, Mtu: 4096, Link_type: IB, GID_index: 3, Max_inline_data: 0, rdma_cm_QPs: OFF, Data_ex_method: ethernet, MsgSize: 65536, n_iterations: 1000, BW_peak: 97.22, BW_average: 96.95, MsgRate: 1.55, }";
    let normalized = quote_strings(blob);
    let value: serde_json::Value = serde_json::from_str(&normalized).expect("strict json");
    let report = report_from_json(&value, "h2", "Y");
    assert_eq!(report.test_info.device, "mlx5_0");
    assert_eq!(report.test_info.tx_depth, Some(128));
    assert_eq!(report.test_info.rx_depth, None);
    assert_eq!(report.bw_results.msg_size, 65536);
    assert_eq!(report.bw_results.n_iterations, 1000);
    assert!(report.bw_results.bw_peak_milli >= report.bw_results.bw_average_milli);
    assert_eq!(report.bw_results.bw_peak_milli, 97220);
    assert_eq!(report.bw_results.msg_rate_milli, 1550);
}
