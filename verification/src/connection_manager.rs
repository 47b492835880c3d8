//! Control-plane message types: the session descriptor (`Request`), the
//! replies of the two connection services, and the report messages served
//! by the statistics service.

use vstd::prelude::*;

verus! {

/// MTU requested for a benchmark session; only these four sizes exist.
#[derive(Clone, Copy, PartialEq, Eq, Structural, Debug)]
pub enum Mtu {
    Mtu512,
    Mtu1024,
    Mtu2048,
    Mtu4096,
}

impl Mtu {
    /// The byte size this MTU variant stands for.
    pub open spec fn spec_size(self) -> u32 {
        match self {
            Mtu::Mtu512 => 512,
            Mtu::Mtu1024 => 1024,
            Mtu::Mtu2048 => 2048,
            Mtu::Mtu4096 => 4096,
        }
    }

    pub fn size(&self) -> (r: u32)
        ensures
            r == self.spec_size(),
    {
        match self {
            Mtu::Mtu512 => 512,
            Mtu::Mtu1024 => 1024,
            Mtu::Mtu2048 => 2048,
            Mtu::Mtu4096 => 4096,
        }
    }

    /// The variant standing for a byte size, if the size is one of the four.
    pub fn from_size(size: u32) -> (r: Option<Mtu>)
        ensures
            match r {
                Some(m) => m.spec_size() == size,
                None => size != 512 && size != 1024 && size != 2048 && size != 4096,
            },
    {
        match size {
            512 => Some(Mtu::Mtu512),
            1024 => Some(Mtu::Mtu1024),
            2048 => Some(Mtu::Mtu2048),
            4096 => Some(Mtu::Mtu4096),
            _ => None,
        }
    }

    pub open spec fn spec_str_name(self) -> Seq<char> {
        match self {
            Mtu::Mtu512 => "MTU_512"@,
            Mtu::Mtu1024 => "MTU_1024"@,
            Mtu::Mtu2048 => "MTU_2048"@,
            Mtu::Mtu4096 => "MTU_4096"@,
        }
    }

    pub fn as_str_name(&self) -> (r: &'static str)
        ensures
            r@ == self.spec_str_name(),
    {
        match self {
            Mtu::Mtu512 => "MTU_512",
            Mtu::Mtu1024 => "MTU_1024",
            Mtu::Mtu2048 => "MTU_2048",
            Mtu::Mtu4096 => "MTU_4096",
        }
    }

    pub fn from_str_name(value: &str) -> (r: Option<Mtu>)
        ensures
            match r {
                Some(m) => m.spec_str_name() == value@,
                None => forall|m: Mtu| m.spec_str_name() != value@,
            },
    {
        if crate::text::str_eq(value, "MTU_512") {
            Some(Mtu::Mtu512)
        } else if crate::text::str_eq(value, "MTU_1024") {
            Some(Mtu::Mtu1024)
        } else if crate::text::str_eq(value, "MTU_2048") {
            Some(Mtu::Mtu2048)
        } else if crate::text::str_eq(value, "MTU_4096") {
            Some(Mtu::Mtu4096)
        } else {
            assert(forall|m: Mtu| m.spec_str_name() != value@) by {
                assert(Mtu::Mtu512.spec_str_name() != value@);
                assert(Mtu::Mtu1024.spec_str_name() != value@);
                assert(Mtu::Mtu2048.spec_str_name() != value@);
                assert(Mtu::Mtu4096.spec_str_name() != value@);
            }
            None
        }
    }
}

/// The RDMA verb family a session exercises.
#[derive(Clone, Copy, PartialEq, Eq, Structural, Debug)]
pub enum Operation {
    Send,
    Write,
    Read,
    Atomic,
}

impl Operation {
    pub open spec fn spec_str_name(self) -> Seq<char> {
        match self {
            Operation::Send => "SEND"@,
            Operation::Write => "WRITE"@,
            Operation::Read => "READ"@,
            Operation::Atomic => "ATOMIC"@,
        }
    }

    pub fn as_str_name(&self) -> (r: &'static str)
        ensures
            r@ == self.spec_str_name(),
    {
        match self {
            Operation::Send => "SEND",
            Operation::Write => "WRITE",
            Operation::Read => "READ",
            Operation::Atomic => "ATOMIC",
        }
    }

    pub fn from_str_name(value: &str) -> (r: Option<Operation>)
        ensures
            match r {
                Some(op) => op.spec_str_name() == value@,
                None => forall|op: Operation| op.spec_str_name() != value@,
            },
    {
        if crate::text::str_eq(value, "SEND") {
            Some(Operation::Send)
        } else if crate::text::str_eq(value, "WRITE") {
            Some(Operation::Write)
        } else if crate::text::str_eq(value, "READ") {
            Some(Operation::Read)
        } else if crate::text::str_eq(value, "ATOMIC") {
            Some(Operation::Atomic)
        } else {
            assert(forall|op: Operation| op.spec_str_name() != value@) by {
                assert(Operation::Send.spec_str_name() != value@);
                assert(Operation::Write.spec_str_name() != value@);
                assert(Operation::Read.spec_str_name() != value@);
                assert(Operation::Atomic.spec_str_name() != value@);
            }
            None
        }
    }
}

/// Whether a session measures bandwidth or latency.
#[derive(Clone, Copy, PartialEq, Eq, Structural, Debug)]
pub enum Mode {
    Bw,
    Lat,
}

impl Mode {
    pub open spec fn spec_str_name(self) -> Seq<char> {
        match self {
            Mode::Bw => "BW"@,
            Mode::Lat => "LAT"@,
        }
    }

    pub fn as_str_name(&self) -> (r: &'static str)
        ensures
            r@ == self.spec_str_name(),
    {
        match self {
            Mode::Bw => "BW",
            Mode::Lat => "LAT",
        }
    }

    pub fn from_str_name(value: &str) -> (r: Option<Mode>)
        ensures
            match r {
                Some(m) => m.spec_str_name() == value@,
                None => forall|m: Mode| m.spec_str_name() != value@,
            },
    {
        if crate::text::str_eq(value, "BW") {
            Some(Mode::Bw)
        } else if crate::text::str_eq(value, "LAT") {
            Some(Mode::Lat)
        } else {
            assert(forall|m: Mode| m.spec_str_name() != value@) by {
                assert(Mode::Bw.spec_str_name() != value@);
                assert(Mode::Lat.spec_str_name() != value@);
            }
            None
        }
    }
}

/// Session descriptor, used for both the Server and the Initiator calls.
pub struct Request {
    /// Session identifier; assigned by the initiator agent when absent.
    pub uuid: Option<String>,
    /// Address of the peer that will run the server role.
    pub server_address: String,
    /// Control-plane port of the peer, later rewritten to the allocated
    /// benchmark port.
    pub server_port: u32,
    /// Iteration count handed to the benchmark binary, when set.
    pub iterations: Option<u32>,
    /// Message size in bytes handed to the benchmark binary, when set.
    pub message_size: Option<u64>,
    /// Requested MTU, when set.
    pub mtu: Option<Mtu>,
    /// Run duration in seconds handed to the benchmark binary, when set.
    pub duration: Option<u32>,
    pub operation: Operation,
    pub mode: Mode,
    /// Use the RDMA connection manager for the benchmark handshake.
    pub cm: bool,
}

impl Clone for Request {
    fn clone(&self) -> (r: Self)
        ensures
            r == *self,
    {
        Request {
            uuid: match &self.uuid {
                Some(u) => Some(u.clone()),
                None => None,
            },
            server_address: self.server_address.clone(),
            server_port: self.server_port,
            iterations: self.iterations,
            message_size: self.message_size,
            mtu: self.mtu,
            duration: self.duration,
            operation: self.operation,
            mode: self.mode,
            cm: self.cm,
        }
    }
}

/// Reply of the Server call: the port the initiator must connect to.
#[derive(Clone, Copy, PartialEq, Eq, Structural, Debug)]
pub struct ServerReply {
    pub port: u32,
}

/// Reply of the Initiator call: the session identifier assigned to the run.
pub struct InitiatorReply {
    pub uuid: String,
}

/// Names one stored report: the session identifier and the role suffix.
pub struct ReportRequest {
    pub uuid: String,
    pub suffix: String,
}

/// Device and test attributes parsed from a benchmark report.
pub struct TestInfo {
    pub test: String,
    pub dual_port: String,
    pub device: String,
    pub number_of_qps: u32,
    pub transport_type: String,
    pub connection_type: String,
    pub using_srq: String,
    pub pci_relax_order: String,
    pub ibv_wr_api: String,
    pub tx_depth: Option<u32>,
    pub rx_depth: Option<u32>,
    pub cq_moderation: u32,
    pub mtu: u32,
    pub link_type: String,
    pub gid_index: u32,
    pub max_inline_data: u32,
    pub rdma_cm_qps: String,
    pub data_ex_method: String,
}

impl Clone for TestInfo {
    fn clone(&self) -> (r: Self)
        ensures
            r == *self,
    {
        TestInfo {
            test: self.test.clone(),
            dual_port: self.dual_port.clone(),
            device: self.device.clone(),
            number_of_qps: self.number_of_qps,
            transport_type: self.transport_type.clone(),
            connection_type: self.connection_type.clone(),
            using_srq: self.using_srq.clone(),
            pci_relax_order: self.pci_relax_order.clone(),
            ibv_wr_api: self.ibv_wr_api.clone(),
            tx_depth: self.tx_depth,
            rx_depth: self.rx_depth,
            cq_moderation: self.cq_moderation,
            mtu: self.mtu,
            link_type: self.link_type.clone(),
            gid_index: self.gid_index,
            max_inline_data: self.max_inline_data,
            rdma_cm_qps: self.rdma_cm_qps.clone(),
            data_ex_method: self.data_ex_method.clone(),
        }
    }
}

/// Bandwidth results of one benchmark run.  The three rate figures are
/// non-negative reals in the report file; they are carried here in
/// thousandths, so a stored `12500` stands for `12.5` in the source unit.
#[derive(Clone, Copy, PartialEq, Eq, Structural, Debug)]
pub struct BwResults {
    pub msg_size: u32,
    pub n_iterations: u32,
    /// Peak bandwidth, in thousandths of the report's unit.
    pub bw_peak_milli: u64,
    /// Average bandwidth, in thousandths of the report's unit.
    pub bw_average_milli: u64,
    /// Message rate, in thousandths of the report's unit.
    pub msg_rate_milli: u64,
}

/// One stored benchmark report: who produced it and what it measured.
pub struct Report {
    pub hostname: String,
    pub uuid: String,
    pub test_info: TestInfo,
    pub bw_results: BwResults,
}

impl Report {
    /// A report is well formed when its results name real work: a positive
    /// message size and a positive iteration count.
    pub open spec fn wf(self) -> bool {
        self.bw_results.msg_size > 0 && self.bw_results.n_iterations > 0
    }
}

impl Clone for Report {
    fn clone(&self) -> (r: Self)
        ensures
            r == *self,
    {
        Report {
            hostname: self.hostname.clone(),
            uuid: self.uuid.clone(),
            test_info: self.test_info.clone(),
            bw_results: self.bw_results,
        }
    }
}

/// Per-port counters streamed to monitor subscribers.
#[derive(Clone, Copy, PartialEq, Eq, Structural, Debug)]
pub struct PortCounter {
    pub unicast_xmit_packets: u64,
    pub unicast_rcv_packets: u64,
    pub port_xmit_wait: u64,
    pub port_xmit_packets: u64,
    pub port_xmit_data: u64,
    pub port_rcv_packets: u64,
    pub port_rcv_errors: u64,
    pub port_rcv_data: u64,
    pub multicast_xmit_packets: u64,
    pub multicast_rcv_packets: u64,
}

/// Hardware counters streamed to monitor subscribers.
#[derive(Clone, Copy, PartialEq, Eq, Structural, Debug)]
pub struct HwCounter {
    pub rx_write_requests: u64,
    pub rx_read_requests: u64,
    pub rx_atomic_requests: u64,
    pub resp_cqe_errors: u64,
    pub req_cqe_errors: u64,
    pub resp_cqe_fl: u64,
    pub out_of_sequence: u64,
    pub out_of_buffer: u64,
    pub local_ack_timeout_errors: u64,
    pub implied_nak_seq_errors: u64,
    pub duplicate_request: u64,
}

/// Both counter groups of one port, as one stream message carries them.
#[derive(Clone, Copy, PartialEq, Eq, Structural, Debug)]
pub struct MonitorCounters {
    pub hw_counter: HwCounter,
    pub port_counter: PortCounter,
}

/// One message of the monitor stream: the counters of one port of one
/// interface.
pub struct InterfaceCounter {
    pub name: String,
    pub port: u32,
    pub counters: MonitorCounters,
}

impl Clone for InterfaceCounter {
    fn clone(&self) -> (r: Self)
        ensures
            r == *self,
    {
        InterfaceCounter { name: self.name.clone(), port: self.port, counters: self.counters }
    }
}

/// What a monitor subscriber asks to see: an interface, a port, a subset
/// of counters; each part optional.
pub struct CounterFilter {
    pub interface: Option<String>,
    pub port: Option<u32>,
    pub counter_list: Vec<String>,
}

impl Clone for CounterFilter {
    fn clone(&self) -> (r: Self)
        ensures
            r.interface == self.interface,
            r.port == self.port,
            r.counter_list@ == self.counter_list@,
    {
        let mut counter_list: Vec<String> = Vec::new();
        let mut i: usize = 0;
        while i < self.counter_list.len()
            invariant
                i <= self.counter_list@.len(),
                counter_list@.len() == i,
                forall|j: int| 0 <= j < i ==> counter_list@[j] == self.counter_list@[j],
            decreases self.counter_list@.len() - i,
        {
            counter_list.push(self.counter_list[i].clone());
            i = i + 1;
        }
        proof {
            assert(counter_list@ =~= self.counter_list@);
        }
        CounterFilter {
            interface: match &self.interface {
                Some(s) => Some(s.clone()),
                None => None,
            },
            port: self.port,
            counter_list,
        }
    }
}

} // verus!
