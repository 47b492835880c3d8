use rocky_rs::connection_manager::BwResults;
use rocky_rs::monitor::{
    CounterData, Data, Elapsed, Meta, Mlx, MlxCounter, MlxHwCounter, PerSec, Stats,
};
use rocky_rs::web_server::{bw_gauge_rows, counter_gauge_rows};

fn mlx_stats() -> Stats {
    let mut counter_values: Vec<u64> = (0..21).collect();
    counter_values[8] = 888;
    let hw_values: Vec<u64> = (100..129).collect();
    Stats {
        meta: Meta {
            hostname: "h1".to_string(),
            interface: "mlx5_0".to_string(),
            port: "1".to_string(),
        },
        data: Data {
            per_sec: PerSec {
                bytes_xmit_per_sec: 1,
                packets_xmit_per_sec: 2,
                bytes_rcv_per_sec: 3,
                packets_rcv_per_sec: 4,
            },
            elapsed: Elapsed { low: 0, high: 0 },
            data: CounterData::Mlx(Mlx {
                mlx_counter: MlxCounter::from_values(&counter_values),
                mlx_hw_counter: MlxHwCounter::from_values(&hw_values),
            }),
        },
    }
}

#[test]
fn every_counter_field_becomes_a_gauge_row() {
    let rows = counter_gauge_rows(&mlx_stats());
    assert_eq!(rows.len(), 21 + 29 + 4);
    let rcv_data = rows.iter().find(|r| r.name == "port_rcv_data").expect("row");
    assert_eq!(rcv_data.value, 888);
    let hw = rows.iter().find(|r| r.name == "rx_write_requests").expect("row");
    assert_eq!(hw.value, 128);
    let rate = rows.iter().find(|r| r.name == "bytes_rcv_per_sec").expect("row");
    assert_eq!(rate.value, 3);
}

#[test]
fn bandwidth_results_become_host_rows() {
    let bw = BwResults {
        msg_size: 65536,
        n_iterations: 1000,
        bw_peak_milli: 97220,
        bw_average_milli: 96950,
        msg_rate_milli: 1550,
    };
    let rows = bw_gauge_rows(&bw);
    assert_eq!(rows.len(), 5);
    assert_eq!(rows[0].name, "msg_size");
    assert_eq!(rows[0].value, 65536);
    assert_eq!(rows[2].name, "bw_peak");
    assert_eq!(rows[2].value, 97220);
    assert_eq!(rows[4].name, "msg_rate");
    assert_eq!(rows[4].value, 1550);
}

#[test]
fn name_lists_match_field_counts() {
    assert_eq!(MlxCounter::names().len(), 21);
    assert_eq!(MlxHwCounter::names().len(), 29);
    assert_eq!(rocky_rs::monitor::RxeCounter::names().len(), 2);
    assert_eq!(rocky_rs::monitor::RxeHwCounter::names().len(), 17);
    assert_eq!(PerSec::names().len(), 4);
}
