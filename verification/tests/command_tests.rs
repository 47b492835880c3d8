use rocky_rs::command::request_to_cmd;
use rocky_rs::connection_manager::{Mode, Mtu, Operation, Request};

fn base_request() -> Request {
    Request {
        uuid: Some("X".to_string()),
        server_address: "h2".to_string(),
        server_port: 50051,
        iterations: None,
        message_size: None,
        mtu: None,
        duration: None,
        operation: Operation::Send,
        mode: Mode::Bw,
        cm: false,
    }
}

#[test]
fn program_per_operation_and_mode() {
    let mut req = base_request();
    let cmd = request_to_cmd(&req, &None, "server");
    assert_eq!(cmd.program, "/usr/bin/ib_send_bw");
    req.operation = Operation::Write;
    req.mode = Mode::Lat;
    let cmd = request_to_cmd(&req, &None, "server");
    assert_eq!(cmd.program, "/usr/bin/ib_write_lat");
    req.operation = Operation::Read;
    let cmd = request_to_cmd(&req, &None, "server");
    assert_eq!(cmd.program, "/usr/bin/ib_read_lat");
    req.operation = Operation::Atomic;
    req.mode = Mode::Bw;
    let cmd = request_to_cmd(&req, &None, "server");
    assert_eq!(cmd.program, "/usr/bin/ib_atomic_bw");
}

#[test]
fn minimal_request_args() {
    let req = base_request();
    let cmd = request_to_cmd(&req, &None, "server");
    let expected = vec![
        "-p".to_string(),
        "50051".to_string(),
        "--out_json".to_string(),
        "--out_json_file".to_string(),
        "/tmp/X-server.json".to_string(),
    ];
    assert_eq!(cmd.args, expected);
}

#[test]
fn full_request_args() {
    let mut req = base_request();
    req.iterations = Some(1000);
    req.message_size = Some(65536);
    req.mtu = Some(Mtu::Mtu4096);
    req.duration = Some(30);
    req.cm = true;
    let device = Some("mlx5_0".to_string());
    let cmd = request_to_cmd(&req, &device, "initiator");
    let expected = vec![
        "-d".to_string(),
        "mlx5_0".to_string(),
        "-m".to_string(),
        "4096".to_string(),
        "-n".to_string(),
        "1000".to_string(),
        "-D".to_string(),
        "30".to_string(),
        "-p".to_string(),
        "50051".to_string(),
        "-s".to_string(),
        "65536".to_string(),
        "--out_json".to_string(),
        "--out_json_file".to_string(),
        "/tmp/X-initiator.json".to_string(),
        "-R".to_string(),
    ];
    assert_eq!(cmd.args, expected);
}

#[test]
fn absent_mtu_emits_no_mtu_flag() {
    let mut req = base_request();
    req.iterations = Some(5);
    let cmd = request_to_cmd(&req, &None, "server");
    assert!(!cmd.args.iter().any(|a| a == "-m"));
}

#[test]
fn absent_iterations_and_duration_emit_neither_flag() {
    let mut req = base_request();
    req.mtu = Some(Mtu::Mtu1024);
    let cmd = request_to_cmd(&req, &None, "server");
    assert!(!cmd.args.iter().any(|a| a == "-n"));
    assert!(!cmd.args.iter().any(|a| a == "-D"));
}

#[test]
fn mtu_variants() {
    assert_eq!(Mtu::Mtu512.size(), 512);
    assert_eq!(Mtu::Mtu1024.size(), 1024);
    assert_eq!(Mtu::Mtu2048.size(), 2048);
    assert_eq!(Mtu::Mtu4096.size(), 4096);
    assert_eq!(Mtu::from_size(2048), Some(Mtu::Mtu2048));
    assert_eq!(Mtu::from_size(9000), None);
}

#[test]
fn enum_names_round_trip() {
    assert_eq!(Operation::Send.as_str_name(), "SEND");
    assert_eq!(Operation::from_str_name("ATOMIC"), Some(Operation::Atomic));
    assert_eq!(Operation::from_str_name("atomic"), None);
    assert_eq!(Mode::Lat.as_str_name(), "LAT");
    assert_eq!(Mode::from_str_name("BW"), Some(Mode::Bw));
    assert_eq!(Mode::from_str_name("bw"), None);
    assert_eq!(Mtu::Mtu512.as_str_name(), "MTU_512");
    assert_eq!(Mtu::from_str_name("MTU_4096"), Some(Mtu::Mtu4096));
    assert_eq!(Mtu::from_str_name("MTU_9000"), None);
}
