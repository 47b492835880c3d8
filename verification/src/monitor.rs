//! Counter snapshot messages: the per-driver counter records whose field
//! names mirror the counter filenames under the RDMA pseudo-filesystem,
//! the derived per-second rates, and the snapshot envelope the collector
//! publishes.

use vstd::prelude::*;

verus! {

/// The counter filenames of the record, in field order.
pub open spec fn spec_mlx_counter_names() -> Seq<Seq<char>> {
    seq![
        "vl15_dropped"@,
        "excessive_buffer_overrun_errors"@,
        "link_downed"@,
        "link_error_recovery"@,
        "local_link_integrity_errors"@,
        "multicast_rcv_packets"@,
        "multicast_xmit_packets"@,
        "port_rcv_constraint_errors"@,
        "port_rcv_data"@,
        "port_rcv_errors"@,
        "port_rcv_packets"@,
        "port_rcv_remote_physical_errors"@,
        "port_rcv_switch_relay_errors"@,
        "port_xmit_constraint_errors"@,
        "port_xmit_data"@,
        "port_xmit_discards"@,
        "port_xmit_packets"@,
        "port_xmit_wait"@,
        "symbol_error"@,
        "unicast_rcv_packets"@,
        "unicast_xmit_packets"@,
    ]
}

/// The counter filenames of the record, in field order.
pub open spec fn spec_mlx_hw_counter_names() -> Seq<Seq<char>> {
    seq![
        "duplicate_request"@,
        "implied_nak_seq_err"@,
        "lifespan"@,
        "local_ack_timeout_err"@,
        "np_cnp_sent"@,
        "np_ecn_marked_roce_packets"@,
        "out_of_buffer"@,
        "out_of_sequence"@,
        "packet_seq_err"@,
        "req_cqe_error"@,
        "req_cqe_flush_error"@,
        "req_remote_access_errors"@,
        "req_remote_invalid_request"@,
        "resp_cqe_error"@,
        "resp_cqe_flush_error"@,
        "resp_local_length_error"@,
        "resp_remote_access_errors"@,
        "rnr_nak_retry_err"@,
        "roce_adp_retrans"@,
        "roce_adp_retrans_to"@,
        "roce_slow_restart"@,
        "roce_slow_restart_cnps"@,
        "roce_slow_restart_trans"@,
        "rp_cnp_handled"@,
        "rp_cnp_ignored"@,
        "rx_atomic_requests"@,
        "rx_icrc_encapsulated"@,
        "rx_read_requests"@,
        "rx_write_requests"@,
    ]
}

/// The counter filenames of the record, in field order.
pub open spec fn spec_rxe_counter_names() -> Seq<Seq<char>> {
    seq![
        "rx_bytes"@,
        "tx_bytes"@,
    ]
}

/// The counter filenames of the record, in field order.
pub open spec fn spec_rxe_hw_counter_names() -> Seq<Seq<char>> {
    seq![
        "duplicate_request"@,
        "sent_pkts"@,
        "send_rnr_err"@,
        "send_err"@,
        "retry_rnr_exceeded_err"@,
        "retry_exceeded_err"@,
        "rdma_sends"@,
        "rdma_recvs"@,
        "rcvd_seq_err"@,
        "rcvd_rnr_err"@,
        "rcvd_pkts"@,
        "out_of_seq_request"@,
        "link_downed"@,
        "lifespan"@,
        "completer_retry_err"@,
        "ack_deferred"@,
        "port_xmit_data"@,
    ]
}

/// Per-port counters of the Mellanox driver family, one field per file
/// under the port's `counters` directory.
#[derive(Clone, Copy, PartialEq, Eq, Structural, Debug)]
pub struct MlxCounter {
    pub vl15_dropped: u64,
    pub excessive_buffer_overrun_errors: u64,
    pub link_downed: u64,
    pub link_error_recovery: u64,
    pub local_link_integrity_errors: u64,
    pub multicast_rcv_packets: u64,
    pub multicast_xmit_packets: u64,
    pub port_rcv_constraint_errors: u64,
    pub port_rcv_data: u64,
    pub port_rcv_errors: u64,
    pub port_rcv_packets: u64,
    pub port_rcv_remote_physical_errors: u64,
    pub port_rcv_switch_relay_errors: u64,
    pub port_xmit_constraint_errors: u64,
    pub port_xmit_data: u64,
    pub port_xmit_discards: u64,
    pub port_xmit_packets: u64,
    pub port_xmit_wait: u64,
    pub symbol_error: u64,
    pub unicast_rcv_packets: u64,
    pub unicast_xmit_packets: u64,
}

impl MlxCounter {
    /// The counter filenames, in the fixed order `from_values` expects.
    pub fn names() -> (r: Vec<&'static str>)
        ensures
            r.deep_view() == seq![
                "vl15_dropped"@,
                "excessive_buffer_overrun_errors"@,
                "link_downed"@,
                "link_error_recovery"@,
                "local_link_integrity_errors"@,
                "multicast_rcv_packets"@,
                "multicast_xmit_packets"@,
                "port_rcv_constraint_errors"@,
                "port_rcv_data"@,
                "port_rcv_errors"@,
                "port_rcv_packets"@,
                "port_rcv_remote_physical_errors"@,
                "port_rcv_switch_relay_errors"@,
                "port_xmit_constraint_errors"@,
                "port_xmit_data"@,
                "port_xmit_discards"@,
                "port_xmit_packets"@,
                "port_xmit_wait"@,
                "symbol_error"@,
                "unicast_rcv_packets"@,
                "unicast_xmit_packets"@,
            ],
    {
        let mut v: Vec<&'static str> = Vec::new();
        v.push("vl15_dropped");
        v.push("excessive_buffer_overrun_errors");
        v.push("link_downed");
        v.push("link_error_recovery");
        v.push("local_link_integrity_errors");
        v.push("multicast_rcv_packets");
        v.push("multicast_xmit_packets");
        v.push("port_rcv_constraint_errors");
        v.push("port_rcv_data");
        v.push("port_rcv_errors");
        v.push("port_rcv_packets");
        v.push("port_rcv_remote_physical_errors");
        v.push("port_rcv_switch_relay_errors");
        v.push("port_xmit_constraint_errors");
        v.push("port_xmit_data");
        v.push("port_xmit_discards");
        v.push("port_xmit_packets");
        v.push("port_xmit_wait");
        v.push("symbol_error");
        v.push("unicast_rcv_packets");
        v.push("unicast_xmit_packets");
        proof {
            assert(v.deep_view() =~= seq![
                "vl15_dropped"@,
                "excessive_buffer_overrun_errors"@,
                "link_downed"@,
                "link_error_recovery"@,
                "local_link_integrity_errors"@,
                "multicast_rcv_packets"@,
                "multicast_xmit_packets"@,
                "port_rcv_constraint_errors"@,
                "port_rcv_data"@,
                "port_rcv_errors"@,
                "port_rcv_packets"@,
                "port_rcv_remote_physical_errors"@,
                "port_rcv_switch_relay_errors"@,
                "port_xmit_constraint_errors"@,
                "port_xmit_data"@,
                "port_xmit_discards"@,
                "port_xmit_packets"@,
                "port_xmit_wait"@,
                "symbol_error"@,
                "unicast_rcv_packets"@,
                "unicast_xmit_packets"@,
            ]);
        }
        v
    }

    /// Builds the record from values read in the `names` order.
    pub fn from_values(v: &Vec<u64>) -> (r: MlxCounter)
        requires
            v@.len() == 21,
        ensures
            r == (MlxCounter {
                vl15_dropped: v@[0],
                excessive_buffer_overrun_errors: v@[1],
                link_downed: v@[2],
                link_error_recovery: v@[3],
                local_link_integrity_errors: v@[4],
                multicast_rcv_packets: v@[5],
                multicast_xmit_packets: v@[6],
                port_rcv_constraint_errors: v@[7],
                port_rcv_data: v@[8],
                port_rcv_errors: v@[9],
                port_rcv_packets: v@[10],
                port_rcv_remote_physical_errors: v@[11],
                port_rcv_switch_relay_errors: v@[12],
                port_xmit_constraint_errors: v@[13],
                port_xmit_data: v@[14],
                port_xmit_discards: v@[15],
                port_xmit_packets: v@[16],
                port_xmit_wait: v@[17],
                symbol_error: v@[18],
                unicast_rcv_packets: v@[19],
                unicast_xmit_packets: v@[20],
            }),
    {
        MlxCounter {
            vl15_dropped: v[0],
            excessive_buffer_overrun_errors: v[1],
            link_downed: v[2],
            link_error_recovery: v[3],
            local_link_integrity_errors: v[4],
            multicast_rcv_packets: v[5],
            multicast_xmit_packets: v[6],
            port_rcv_constraint_errors: v[7],
            port_rcv_data: v[8],
            port_rcv_errors: v[9],
            port_rcv_packets: v[10],
            port_rcv_remote_physical_errors: v[11],
            port_rcv_switch_relay_errors: v[12],
            port_xmit_constraint_errors: v[13],
            port_xmit_data: v[14],
            port_xmit_discards: v[15],
            port_xmit_packets: v[16],
            port_xmit_wait: v[17],
            symbol_error: v[18],
            unicast_rcv_packets: v[19],
            unicast_xmit_packets: v[20],
        }
    }

    /// The field values, in the names' order.
    pub open spec fn spec_values(self) -> Seq<u64> {
        seq![self.vl15_dropped, self.excessive_buffer_overrun_errors, self.link_downed, self.link_error_recovery, self.local_link_integrity_errors, self.multicast_rcv_packets, self.multicast_xmit_packets, self.port_rcv_constraint_errors, self.port_rcv_data, self.port_rcv_errors, self.port_rcv_packets, self.port_rcv_remote_physical_errors, self.port_rcv_switch_relay_errors, self.port_xmit_constraint_errors, self.port_xmit_data, self.port_xmit_discards, self.port_xmit_packets, self.port_xmit_wait, self.symbol_error, self.unicast_rcv_packets, self.unicast_xmit_packets]
    }

    /// The field values, in the names' order.
    pub fn values(&self) -> (r: Vec<u64>)
        ensures
            r@ == self.spec_values(),
    {
        let mut v: Vec<u64> = Vec::new();
        v.push(self.vl15_dropped);
        v.push(self.excessive_buffer_overrun_errors);
        v.push(self.link_downed);
        v.push(self.link_error_recovery);
        v.push(self.local_link_integrity_errors);
        v.push(self.multicast_rcv_packets);
        v.push(self.multicast_xmit_packets);
        v.push(self.port_rcv_constraint_errors);
        v.push(self.port_rcv_data);
        v.push(self.port_rcv_errors);
        v.push(self.port_rcv_packets);
        v.push(self.port_rcv_remote_physical_errors);
        v.push(self.port_rcv_switch_relay_errors);
        v.push(self.port_xmit_constraint_errors);
        v.push(self.port_xmit_data);
        v.push(self.port_xmit_discards);
        v.push(self.port_xmit_packets);
        v.push(self.port_xmit_wait);
        v.push(self.symbol_error);
        v.push(self.unicast_rcv_packets);
        v.push(self.unicast_xmit_packets);
        proof {
            assert(v@ =~= self.spec_values());
        }
        v
    }
}

/// Hardware counters of the Mellanox driver family, one field per file
/// under the port's `hw_counters` directory.
#[derive(Clone, Copy, PartialEq, Eq, Structural, Debug)]
pub struct MlxHwCounter {
    pub duplicate_request: u64,
    pub implied_nak_seq_err: u64,
    pub lifespan: u64,
    pub local_ack_timeout_err: u64,
    pub np_cnp_sent: u64,
    pub np_ecn_marked_roce_packets: u64,
    pub out_of_buffer: u64,
    pub out_of_sequence: u64,
    pub packet_seq_err: u64,
    pub req_cqe_error: u64,
    pub req_cqe_flush_error: u64,
    pub req_remote_access_errors: u64,
    pub req_remote_invalid_request: u64,
    pub resp_cqe_error: u64,
    pub resp_cqe_flush_error: u64,
    pub resp_local_length_error: u64,
    pub resp_remote_access_errors: u64,
    pub rnr_nak_retry_err: u64,
    pub roce_adp_retrans: u64,
    pub roce_adp_retrans_to: u64,
    pub roce_slow_restart: u64,
    pub roce_slow_restart_cnps: u64,
    pub roce_slow_restart_trans: u64,
    pub rp_cnp_handled: u64,
    pub rp_cnp_ignored: u64,
    pub rx_atomic_requests: u64,
    pub rx_icrc_encapsulated: u64,
    pub rx_read_requests: u64,
    pub rx_write_requests: u64,
}

impl MlxHwCounter {
    /// The counter filenames, in the fixed order `from_values` expects.
    pub fn names() -> (r: Vec<&'static str>)
        ensures
            r.deep_view() == seq![
                "duplicate_request"@,
                "implied_nak_seq_err"@,
                "lifespan"@,
                "local_ack_timeout_err"@,
                "np_cnp_sent"@,
                "np_ecn_marked_roce_packets"@,
                "out_of_buffer"@,
                "out_of_sequence"@,
                "packet_seq_err"@,
                "req_cqe_error"@,
                "req_cqe_flush_error"@,
                "req_remote_access_errors"@,
                "req_remote_invalid_request"@,
                "resp_cqe_error"@,
                "resp_cqe_flush_error"@,
                "resp_local_length_error"@,
                "resp_remote_access_errors"@,
                "rnr_nak_retry_err"@,
                "roce_adp_retrans"@,
                "roce_adp_retrans_to"@,
                "roce_slow_restart"@,
                "roce_slow_restart_cnps"@,
                "roce_slow_restart_trans"@,
                "rp_cnp_handled"@,
                "rp_cnp_ignored"@,
                "rx_atomic_requests"@,
                "rx_icrc_encapsulated"@,
                "rx_read_requests"@,
                "rx_write_requests"@,
            ],
    {
        let mut v: Vec<&'static str> = Vec::new();
        v.push("duplicate_request");
        v.push("implied_nak_seq_err");
        v.push("lifespan");
        v.push("local_ack_timeout_err");
        v.push("np_cnp_sent");
        v.push("np_ecn_marked_roce_packets");
        v.push("out_of_buffer");
        v.push("out_of_sequence");
        v.push("packet_seq_err");
        v.push("req_cqe_error");
        v.push("req_cqe_flush_error");
        v.push("req_remote_access_errors");
        v.push("req_remote_invalid_request");
        v.push("resp_cqe_error");
        v.push("resp_cqe_flush_error");
        v.push("resp_local_length_error");
        v.push("resp_remote_access_errors");
        v.push("rnr_nak_retry_err");
        v.push("roce_adp_retrans");
        v.push("roce_adp_retrans_to");
        v.push("roce_slow_restart");
        v.push("roce_slow_restart_cnps");
        v.push("roce_slow_restart_trans");
        v.push("rp_cnp_handled");
        v.push("rp_cnp_ignored");
        v.push("rx_atomic_requests");
        v.push("rx_icrc_encapsulated");
        v.push("rx_read_requests");
        v.push("rx_write_requests");
        proof {
            assert(v.deep_view() =~= seq![
                "duplicate_request"@,
                "implied_nak_seq_err"@,
                "lifespan"@,
                "local_ack_timeout_err"@,
                "np_cnp_sent"@,
                "np_ecn_marked_roce_packets"@,
                "out_of_buffer"@,
                "out_of_sequence"@,
                "packet_seq_err"@,
                "req_cqe_error"@,
                "req_cqe_flush_error"@,
                "req_remote_access_errors"@,
                "req_remote_invalid_request"@,
                "resp_cqe_error"@,
                "resp_cqe_flush_error"@,
                "resp_local_length_error"@,
                "resp_remote_access_errors"@,
                "rnr_nak_retry_err"@,
                "roce_adp_retrans"@,
                "roce_adp_retrans_to"@,
                "roce_slow_restart"@,
                "roce_slow_restart_cnps"@,
                "roce_slow_restart_trans"@,
                "rp_cnp_handled"@,
                "rp_cnp_ignored"@,
                "rx_atomic_requests"@,
                "rx_icrc_encapsulated"@,
                "rx_read_requests"@,
                "rx_write_requests"@,
            ]);
        }
        v
    }

    /// Builds the record from values read in the `names` order.
    pub fn from_values(v: &Vec<u64>) -> (r: MlxHwCounter)
        requires
            v@.len() == 29,
        ensures
            r == (MlxHwCounter {
                duplicate_request: v@[0],
                implied_nak_seq_err: v@[1],
                lifespan: v@[2],
                local_ack_timeout_err: v@[3],
                np_cnp_sent: v@[4],
                np_ecn_marked_roce_packets: v@[5],
                out_of_buffer: v@[6],
                out_of_sequence: v@[7],
                packet_seq_err: v@[8],
                req_cqe_error: v@[9],
                req_cqe_flush_error: v@[10],
                req_remote_access_errors: v@[11],
                req_remote_invalid_request: v@[12],
                resp_cqe_error: v@[13],
                resp_cqe_flush_error: v@[14],
                resp_local_length_error: v@[15],
                resp_remote_access_errors: v@[16],
                rnr_nak_retry_err: v@[17],
                roce_adp_retrans: v@[18],
                roce_adp_retrans_to: v@[19],
                roce_slow_restart: v@[20],
                roce_slow_restart_cnps: v@[21],
                roce_slow_restart_trans: v@[22],
                rp_cnp_handled: v@[23],
                rp_cnp_ignored: v@[24],
                rx_atomic_requests: v@[25],
                rx_icrc_encapsulated: v@[26],
                rx_read_requests: v@[27],
                rx_write_requests: v@[28],
            }),
    {
        MlxHwCounter {
            duplicate_request: v[0],
            implied_nak_seq_err: v[1],
            lifespan: v[2],
            local_ack_timeout_err: v[3],
            np_cnp_sent: v[4],
            np_ecn_marked_roce_packets: v[5],
            out_of_buffer: v[6],
            out_of_sequence: v[7],
            packet_seq_err: v[8],
            req_cqe_error: v[9],
            req_cqe_flush_error: v[10],
            req_remote_access_errors: v[11],
            req_remote_invalid_request: v[12],
            resp_cqe_error: v[13],
            resp_cqe_flush_error: v[14],
            resp_local_length_error: v[15],
            resp_remote_access_errors: v[16],
            rnr_nak_retry_err: v[17],
            roce_adp_retrans: v[18],
            roce_adp_retrans_to: v[19],
            roce_slow_restart: v[20],
            roce_slow_restart_cnps: v[21],
            roce_slow_restart_trans: v[22],
            rp_cnp_handled: v[23],
            rp_cnp_ignored: v[24],
            rx_atomic_requests: v[25],
            rx_icrc_encapsulated: v[26],
            rx_read_requests: v[27],
            rx_write_requests: v[28],
        }
    }

    /// The field values, in the names' order.
    pub open spec fn spec_values(self) -> Seq<u64> {
        seq![self.duplicate_request, self.implied_nak_seq_err, self.lifespan, self.local_ack_timeout_err, self.np_cnp_sent, self.np_ecn_marked_roce_packets, self.out_of_buffer, self.out_of_sequence, self.packet_seq_err, self.req_cqe_error, self.req_cqe_flush_error, self.req_remote_access_errors, self.req_remote_invalid_request, self.resp_cqe_error, self.resp_cqe_flush_error, self.resp_local_length_error, self.resp_remote_access_errors, self.rnr_nak_retry_err, self.roce_adp_retrans, self.roce_adp_retrans_to, self.roce_slow_restart, self.roce_slow_restart_cnps, self.roce_slow_restart_trans, self.rp_cnp_handled, self.rp_cnp_ignored, self.rx_atomic_requests, self.rx_icrc_encapsulated, self.rx_read_requests, self.rx_write_requests]
    }

    /// The field values, in the names' order.
    pub fn values(&self) -> (r: Vec<u64>)
        ensures
            r@ == self.spec_values(),
    {
        let mut v: Vec<u64> = Vec::new();
        v.push(self.duplicate_request);
        v.push(self.implied_nak_seq_err);
        v.push(self.lifespan);
        v.push(self.local_ack_timeout_err);
        v.push(self.np_cnp_sent);
        v.push(self.np_ecn_marked_roce_packets);
        v.push(self.out_of_buffer);
        v.push(self.out_of_sequence);
        v.push(self.packet_seq_err);
        v.push(self.req_cqe_error);
        v.push(self.req_cqe_flush_error);
        v.push(self.req_remote_access_errors);
        v.push(self.req_remote_invalid_request);
        v.push(self.resp_cqe_error);
        v.push(self.resp_cqe_flush_error);
        v.push(self.resp_local_length_error);
        v.push(self.resp_remote_access_errors);
        v.push(self.rnr_nak_retry_err);
        v.push(self.roce_adp_retrans);
        v.push(self.roce_adp_retrans_to);
        v.push(self.roce_slow_restart);
        v.push(self.roce_slow_restart_cnps);
        v.push(self.roce_slow_restart_trans);
        v.push(self.rp_cnp_handled);
        v.push(self.rp_cnp_ignored);
        v.push(self.rx_atomic_requests);
        v.push(self.rx_icrc_encapsulated);
        v.push(self.rx_read_requests);
        v.push(self.rx_write_requests);
        proof {
            assert(v@ =~= self.spec_values());
        }
        v
    }
}

/// Byte counters of the soft-RoCE driver family, read from the associated
/// Linux net-device's statistics directory.
#[derive(Clone, Copy, PartialEq, Eq, Structural, Debug)]
pub struct RxeCounter {
    pub rx_bytes: u64,
    pub tx_bytes: u64,
}

impl RxeCounter {
    /// The statistics filenames, in the fixed order `from_values` expects.
    pub fn names() -> (r: Vec<&'static str>)
        ensures
            r.deep_view() == seq!["rx_bytes"@, "tx_bytes"@],
    {
        let mut v: Vec<&'static str> = Vec::new();
        v.push("rx_bytes");
        v.push("tx_bytes");
        proof {
            assert(v.deep_view() =~= seq!["rx_bytes"@, "tx_bytes"@]);
        }
        v
    }

    /// Builds the record from values read in the `names` order.
    pub fn from_values(v: &Vec<u64>) -> (r: RxeCounter)
        requires
            v@.len() == 2,
        ensures
            r == (RxeCounter { rx_bytes: v@[0], tx_bytes: v@[1] }),
    {
        RxeCounter { rx_bytes: v[0], tx_bytes: v[1] }
    }

    /// The field values, in the names' order.
    pub open spec fn spec_values(self) -> Seq<u64> {
        seq![self.rx_bytes, self.tx_bytes]
    }

    /// The field values, in the names' order.
    pub fn values(&self) -> (r: Vec<u64>)
        ensures
            r@ == self.spec_values(),
    {
        let mut v: Vec<u64> = Vec::new();
        v.push(self.rx_bytes);
        v.push(self.tx_bytes);
        proof {
            assert(v@ =~= self.spec_values());
        }
        v
    }
}

/// Hardware counters of the soft-RoCE driver family, one field per file
/// under the port's `hw_counters` directory.
#[derive(Clone, Copy, PartialEq, Eq, Structural, Debug)]
pub struct RxeHwCounter {
    pub duplicate_request: u64,
    pub sent_pkts: u64,
    pub send_rnr_err: u64,
    pub send_err: u64,
    pub retry_rnr_exceeded_err: u64,
    pub retry_exceeded_err: u64,
    pub rdma_sends: u64,
    pub rdma_recvs: u64,
    pub rcvd_seq_err: u64,
    pub rcvd_rnr_err: u64,
    pub rcvd_pkts: u64,
    pub out_of_seq_request: u64,
    pub link_downed: u64,
    pub lifespan: u64,
    pub completer_retry_err: u64,
    pub ack_deferred: u64,
    pub port_xmit_data: u64,
}

impl RxeHwCounter {
    /// The counter filenames, in the fixed order `from_values` expects.
    pub fn names() -> (r: Vec<&'static str>)
        ensures
            r.deep_view() == seq![
                "duplicate_request"@,
                "sent_pkts"@,
                "send_rnr_err"@,
                "send_err"@,
                "retry_rnr_exceeded_err"@,
                "retry_exceeded_err"@,
                "rdma_sends"@,
                "rdma_recvs"@,
                "rcvd_seq_err"@,
                "rcvd_rnr_err"@,
                "rcvd_pkts"@,
                "out_of_seq_request"@,
                "link_downed"@,
                "lifespan"@,
                "completer_retry_err"@,
                "ack_deferred"@,
                "port_xmit_data"@,
            ],
    {
        let mut v: Vec<&'static str> = Vec::new();
        v.push("duplicate_request");
        v.push("sent_pkts");
        v.push("send_rnr_err");
        v.push("send_err");
        v.push("retry_rnr_exceeded_err");
        v.push("retry_exceeded_err");
        v.push("rdma_sends");
        v.push("rdma_recvs");
        v.push("rcvd_seq_err");
        v.push("rcvd_rnr_err");
        v.push("rcvd_pkts");
        v.push("out_of_seq_request");
        v.push("link_downed");
        v.push("lifespan");
        v.push("completer_retry_err");
        v.push("ack_deferred");
        v.push("port_xmit_data");
        proof {
            assert(v.deep_view() =~= seq![
                "duplicate_request"@,
                "sent_pkts"@,
                "send_rnr_err"@,
                "send_err"@,
                "retry_rnr_exceeded_err"@,
                "retry_exceeded_err"@,
                "rdma_sends"@,
                "rdma_recvs"@,
                "rcvd_seq_err"@,
                "rcvd_rnr_err"@,
                "rcvd_pkts"@,
                "out_of_seq_request"@,
                "link_downed"@,
                "lifespan"@,
                "completer_retry_err"@,
                "ack_deferred"@,
                "port_xmit_data"@,
            ]);
        }
        v
    }

    /// Builds the record from values read in the `names` order.
    pub fn from_values(v: &Vec<u64>) -> (r: RxeHwCounter)
        requires
            v@.len() == 17,
        ensures
            r == (RxeHwCounter {
                duplicate_request: v@[0],
                sent_pkts: v@[1],
                send_rnr_err: v@[2],
                send_err: v@[3],
                retry_rnr_exceeded_err: v@[4],
                retry_exceeded_err: v@[5],
                rdma_sends: v@[6],
                rdma_recvs: v@[7],
                rcvd_seq_err: v@[8],
                rcvd_rnr_err: v@[9],
                rcvd_pkts: v@[10],
                out_of_seq_request: v@[11],
                link_downed: v@[12],
                lifespan: v@[13],
                completer_retry_err: v@[14],
                ack_deferred: v@[15],
                port_xmit_data: v@[16],
            }),
    {
        RxeHwCounter {
            duplicate_request: v[0],
            sent_pkts: v[1],
            send_rnr_err: v[2],
            send_err: v[3],
            retry_rnr_exceeded_err: v[4],
            retry_exceeded_err: v[5],
            rdma_sends: v[6],
            rdma_recvs: v[7],
            rcvd_seq_err: v[8],
            rcvd_rnr_err: v[9],
            rcvd_pkts: v[10],
            out_of_seq_request: v[11],
            link_downed: v[12],
            lifespan: v[13],
            completer_retry_err: v[14],
            ack_deferred: v[15],
            port_xmit_data: v[16],
        }
    }

    /// The field values, in the names' order.
    pub open spec fn spec_values(self) -> Seq<u64> {
        seq![self.duplicate_request, self.sent_pkts, self.send_rnr_err, self.send_err, self.retry_rnr_exceeded_err, self.retry_exceeded_err, self.rdma_sends, self.rdma_recvs, self.rcvd_seq_err, self.rcvd_rnr_err, self.rcvd_pkts, self.out_of_seq_request, self.link_downed, self.lifespan, self.completer_retry_err, self.ack_deferred, self.port_xmit_data]
    }

    /// The field values, in the names' order.
    pub fn values(&self) -> (r: Vec<u64>)
        ensures
            r@ == self.spec_values(),
    {
        let mut v: Vec<u64> = Vec::new();
        v.push(self.duplicate_request);
        v.push(self.sent_pkts);
        v.push(self.send_rnr_err);
        v.push(self.send_err);
        v.push(self.retry_rnr_exceeded_err);
        v.push(self.retry_exceeded_err);
        v.push(self.rdma_sends);
        v.push(self.rdma_recvs);
        v.push(self.rcvd_seq_err);
        v.push(self.rcvd_rnr_err);
        v.push(self.rcvd_pkts);
        v.push(self.out_of_seq_request);
        v.push(self.link_downed);
        v.push(self.lifespan);
        v.push(self.completer_retry_err);
        v.push(self.ack_deferred);
        v.push(self.port_xmit_data);
        proof {
            assert(v@ =~= self.spec_values());
        }
        v
    }
}

/// Both Mellanox counter records of one port at one tick.
#[derive(Clone, Copy, PartialEq, Eq, Structural, Debug)]
pub struct Mlx {
    pub mlx_counter: MlxCounter,
    pub mlx_hw_counter: MlxHwCounter,
}

/// Both soft-RoCE counter records of one port at one tick.
#[derive(Clone, Copy, PartialEq, Eq, Structural, Debug)]
pub struct Rxe {
    pub rxe_counter: RxeCounter,
    pub rxe_hw_counter: RxeHwCounter,
}

/// The driver-tagged counter payload of one snapshot.
#[derive(Clone, Copy, PartialEq, Eq, Structural, Debug)]
pub enum CounterData {
    Rxe(Rxe),
    Mlx(Mlx),
}


/// The rate field names, in field order.
pub open spec fn spec_per_sec_names() -> Seq<Seq<char>> {
    seq![
        "bytes_xmit_per_sec"@,
        "packets_xmit_per_sec"@,
        "bytes_rcv_per_sec"@,
        "packets_rcv_per_sec"@,
    ]
}

/// The four derived rates of one snapshot.  Each figure is carried in
/// thousandths of a unit per second, so `50_000` stands for fifty bytes or
/// packets per second; every field is by construction non-negative.
#[derive(Clone, Copy, PartialEq, Eq, Structural, Debug)]
pub struct PerSec {
    pub bytes_xmit_per_sec: u64,
    pub packets_xmit_per_sec: u64,
    pub bytes_rcv_per_sec: u64,
    pub packets_rcv_per_sec: u64,
}

impl PerSec {

    /// The rate field names, in the order `values` uses.
    pub fn names() -> (r: Vec<&'static str>)
        ensures
            r.deep_view() == spec_per_sec_names(),
    {
        let mut v: Vec<&'static str> = Vec::new();
        v.push("bytes_xmit_per_sec");
        v.push("packets_xmit_per_sec");
        v.push("bytes_rcv_per_sec");
        v.push("packets_rcv_per_sec");
        proof {
            assert(v.deep_view() =~= spec_per_sec_names());
        }
        v
    }

    /// The field values, in the names' order.
    pub open spec fn spec_values(self) -> Seq<u64> {
        seq![
            self.bytes_xmit_per_sec,
            self.packets_xmit_per_sec,
            self.bytes_rcv_per_sec,
            self.packets_rcv_per_sec,
        ]
    }

    /// The field values, in the names' order.
    pub fn values(&self) -> (r: Vec<u64>)
        ensures
            r@ == self.spec_values(),
    {
        let mut v: Vec<u64> = Vec::new();
        v.push(self.bytes_xmit_per_sec);
        v.push(self.packets_xmit_per_sec);
        v.push(self.bytes_rcv_per_sec);
        v.push(self.packets_rcv_per_sec);
        proof {
            assert(v@ =~= self.spec_values());
        }
        v
    }
}

/// Every rate a snapshot can carry is at least zero: the rates live in an
/// unsigned domain, and a counter reset yields zero, never a negative.
pub proof fn lemma_per_sec_nonnegative(p: PerSec)
    ensures
        p.bytes_xmit_per_sec >= 0,
        p.packets_xmit_per_sec >= 0,
        p.bytes_rcv_per_sec >= 0,
        p.packets_rcv_per_sec >= 0,
{
}

/// The 128-bit sampling timestamp, split in two for transport.
#[derive(Clone, Copy, PartialEq, Eq, Structural, Debug)]
pub struct Elapsed {
    pub low: u64,
    pub high: u64,
}

impl Elapsed {
    /// Splits a 128-bit timestamp into its transport halves.
    pub fn from_u128(t: u128) -> (r: Elapsed)
        ensures
            r.low == t & 0xffff_ffff_ffff_ffff,
            r.high == t >> 64,
            (r.high as u128) * 0x1_0000_0000_0000_0000 + (r.low as u128) == t,
    {
        let low = (t & 0xffff_ffff_ffff_ffff) as u64;
        let high = (t >> 64) as u64;
        proof {
            assert((((t >> 64) & 0xffff_ffff_ffff_ffff) as u64) as u128 * 0x1_0000_0000_0000_0000
                + ((t & 0xffff_ffff_ffff_ffff) as u64) as u128 == t) by (bit_vector);
            assert((t >> 64) & 0xffff_ffff_ffff_ffff == t >> 64) by (bit_vector);
            assert(t & 0xffff_ffff_ffff_ffff <= 0xffff_ffff_ffff_ffff) by (bit_vector);
            assert(t >> 64 <= 0xffff_ffff_ffff_ffff) by (bit_vector);
        }
        Elapsed { low, high }
    }

    /// The timestamp the two halves stand for.
    pub fn to_u128(&self) -> (r: u128)
        ensures
            r == (self.high as u128) * 0x1_0000_0000_0000_0000 + (self.low as u128),
    {
        (self.high as u128) * 0x1_0000_0000_0000_0000 + (self.low as u128)
    }
}

/// Splitting a timestamp and joining the halves gives the timestamp back.
pub proof fn lemma_elapsed_round_trip(t: u128, e: Elapsed)
    requires
        e.low == t & 0xffff_ffff_ffff_ffff,
        e.high == t >> 64,
    ensures
        (e.high as u128) * 0x1_0000_0000_0000_0000 + (e.low as u128) == t,
{
    assert((((t >> 64) & 0xffff_ffff_ffff_ffff) as u64) as u128 * 0x1_0000_0000_0000_0000 + ((t
        & 0xffff_ffff_ffff_ffff) as u64) as u128 == t) by (bit_vector);
    assert((t >> 64) & 0xffff_ffff_ffff_ffff == t >> 64) by (bit_vector);
    assert(t & 0xffff_ffff_ffff_ffff <= 0xffff_ffff_ffff_ffff) by (bit_vector);
    assert(t >> 64 <= 0xffff_ffff_ffff_ffff) by (bit_vector);
}

/// One snapshot's payload: the raw counters, the derived rates and the
/// sampling timestamp.
#[derive(Clone, Copy, PartialEq, Eq, Structural, Debug)]
pub struct Data {
    pub per_sec: PerSec,
    pub elapsed: Elapsed,
    pub data: CounterData,
}

/// Names the host, interface and port a snapshot belongs to.
pub struct Meta {
    pub hostname: String,
    pub interface: String,
    pub port: String,
}

impl Clone for Meta {
    fn clone(&self) -> (r: Self)
        ensures
            r == *self,
    {
        Meta {
            hostname: self.hostname.clone(),
            interface: self.interface.clone(),
            port: self.port.clone(),
        }
    }
}

/// One counter snapshot, as published by the collector for a single
/// `(hostname, interface, port)` at a single tick.
pub struct Stats {
    pub meta: Meta,
    pub data: Data,
}

impl Clone for Stats {
    fn clone(&self) -> (r: Self)
        ensures
            r == *self,
    {
        Stats { meta: self.meta.clone(), data: self.data }
    }
}

} // verus!
