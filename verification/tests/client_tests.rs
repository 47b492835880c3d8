use rocky_rs::client::{
    is_yaml_path, ClientMode, ClientOperation, CliArgs, MonitorFilter, MtuSize,
};
use rocky_rs::connection_manager::{Mode, Mtu, Operation};

fn args(server: Option<&str>, port: Option<u16>, message_size: Option<&str>) -> CliArgs {
    CliArgs {
        server: server.map(|s| s.to_string()),
        initiator: Some("h1".to_string()),
        server_port: port,
        initiator_port: Some(50050),
        op: ClientOperation::Send,
        mode: ClientMode::Bw,
        message_size: message_size.map(|s| s.to_string()),
        iterations: Some(1000),
        mtu: Some(MtuSize::Mtu4096),
        duration: None,
        config: None,
        cm: None,
    }
}

#[test]
fn options_become_a_request() {
    let req = args(Some("h2"), Some(50051), Some("65536")).to_request().expect("request");
    assert_eq!(req.uuid, None);
    assert_eq!(req.server_address, "h2");
    assert_eq!(req.server_port, 50051);
    assert_eq!(req.iterations, Some(1000));
    assert_eq!(req.message_size, Some(65536));
    assert_eq!(req.mtu, Some(Mtu::Mtu4096));
    assert_eq!(req.duration, None);
    assert_eq!(req.operation, Operation::Send);
    assert_eq!(req.mode, Mode::Bw);
    assert!(!req.cm);
}

#[test]
fn byte_units_are_parsed() {
    let req = args(Some("h2"), Some(50051), Some("1KiB")).to_request().expect("request");
    assert_eq!(req.message_size, Some(1024));
    let req = args(Some("h2"), Some(50051), Some("2MiB")).to_request().expect("request");
    assert_eq!(req.message_size, Some(2 * 1024 * 1024));
}

#[test]
fn missing_options_yield_nothing() {
    assert!(args(None, Some(50051), None).to_request().is_none());
    assert!(args(Some("h2"), None, None).to_request().is_none());
    assert!(args(Some("h2"), Some(50051), Some("not a size")).to_request().is_none());
}

#[test]
fn operation_and_mode_names() {
    assert_eq!(ClientOperation::from_str("send"), Ok(ClientOperation::Send));
    assert_eq!(ClientOperation::from_str("atomic"), Ok(ClientOperation::Atomic));
    assert_eq!(ClientOperation::from_str("SEND"), Err("invalid operation"));
    assert_eq!(ClientMode::from_str("bw"), Ok(ClientMode::Bw));
    assert_eq!(ClientMode::from_str("latency"), Err("invalid mode"));
    assert_eq!(MtuSize::from_str("2048"), Ok(MtuSize::Mtu2048));
    assert_eq!(MtuSize::from_str("1500"), Err("invalid mtu"));
}

#[test]
fn yaml_paths_are_recognised() {
    assert!(is_yaml_path("jobs.yaml"));
    assert!(is_yaml_path("a/b/c.yaml"));
    assert!(!is_yaml_path("jobs.yml"));
    assert!(!is_yaml_path("yaml"));
    assert!(!is_yaml_path(""));
}

#[test]
fn monitor_filter_words() {
    let f = MonitorFilter::from_str("interface=rxe0 port=1 counter_list=rx_bytes,tx_bytes")
        .expect("filter");
    assert_eq!(f.interface, Some("rxe0".to_string()));
    assert_eq!(f.port, Some(1));
    assert_eq!(f.counter_list, vec!["rx_bytes".to_string(), "tx_bytes".to_string()]);
}

#[test]
fn monitor_filter_defaults_and_errors() {
    let f = MonitorFilter::from_str("").expect("empty filter");
    assert_eq!(f.interface, None);
    assert_eq!(f.port, None);
    assert!(f.counter_list.is_empty());
    assert!(MonitorFilter::from_str("speed=9").is_err());
    assert!(MonitorFilter::from_str("port=abc").is_err());
    assert!(MonitorFilter::from_str("interface").is_err());
}

#[test]
fn monitor_filter_becomes_stream_filter() {
    let f = MonitorFilter {
        interface: Some("rxe0".to_string()),
        port: Some(2),
        counter_list: vec!["rx_bytes".to_string()],
    };
    let cf = f.to_counter_filter();
    assert_eq!(cf.interface, Some("rxe0".to_string()));
    assert_eq!(cf.port, Some(2));
    assert_eq!(cf.counter_list, vec!["rx_bytes".to_string()]);
}
