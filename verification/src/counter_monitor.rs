//! The fan-out router for counter snapshots: a registry of live
//! subscribers, each with a filter, and the routing decision that picks
//! which subscribers a snapshot reaches.

use vstd::prelude::*;

use crate::connection_manager::{
    CounterFilter, HwCounter, InterfaceCounter, MonitorCounters, PortCounter,
};
use vstd::std_specs::convert::FromSpec;

verus! {

/// Hardware counters of one port as read for the monitor stream; the
/// filenames differ slightly from the message's field names.
#[derive(Clone, Copy, PartialEq, Eq, Structural, Debug)]
pub struct HwCounters {
    pub rx_write_requests: u64,
    pub rx_read_requests: u64,
    pub rx_atomic_requests: u64,
    pub resp_cqe_errors: u64,
    pub req_cqe_errors: u64,
    pub resp_cqe_fl: u64,
    pub out_of_sequence: u64,
    pub out_of_buffer: u64,
    pub local_ack_timeout_errors: u64,
    pub implied_nak_seq_errors: u64,
    pub duplicate_request: u64,
}

impl HwCounters {
    /// The counter filenames, in the fixed order `from_values` expects.
    pub fn names() -> (r: Vec<&'static str>)
        ensures
            r.deep_view() == seq![
                "rx_write_requests"@,
                "rx_read_requests"@,
                "rx_atomic_requests"@,
                "resp_cqe_error"@,
                "req_cqe_error"@,
                "resp_cqe_flush_error"@,
                "out_of_sequence"@,
                "out_of_buffer"@,
                "local_ack_timeout_err"@,
                "implied_nak_seq_err"@,
                "duplicate_request"@,
            ],
    {
        let mut v: Vec<&'static str> = Vec::new();
        v.push("rx_write_requests");
        v.push("rx_read_requests");
        v.push("rx_atomic_requests");
        v.push("resp_cqe_error");
        v.push("req_cqe_error");
        v.push("resp_cqe_flush_error");
        v.push("out_of_sequence");
        v.push("out_of_buffer");
        v.push("local_ack_timeout_err");
        v.push("implied_nak_seq_err");
        v.push("duplicate_request");
        proof {
            assert(v.deep_view() =~= seq![
                "rx_write_requests"@,
                "rx_read_requests"@,
                "rx_atomic_requests"@,
                "resp_cqe_error"@,
                "req_cqe_error"@,
                "resp_cqe_flush_error"@,
                "out_of_sequence"@,
                "out_of_buffer"@,
                "local_ack_timeout_err"@,
                "implied_nak_seq_err"@,
                "duplicate_request"@,
            ]);
        }
        v
    }

    /// Builds the record from values read in the `names` order.
    pub fn from_values(v: &Vec<u64>) -> (r: HwCounters)
        requires
            v@.len() == 11,
        ensures
            r == (HwCounters {
                rx_write_requests: v@[0],
                rx_read_requests: v@[1],
                rx_atomic_requests: v@[2],
                resp_cqe_errors: v@[3],
                req_cqe_errors: v@[4],
                resp_cqe_fl: v@[5],
                out_of_sequence: v@[6],
                out_of_buffer: v@[7],
                local_ack_timeout_errors: v@[8],
                implied_nak_seq_errors: v@[9],
                duplicate_request: v@[10],
            }),
    {
        HwCounters {
            rx_write_requests: v[0],
            rx_read_requests: v[1],
            rx_atomic_requests: v[2],
            resp_cqe_errors: v[3],
            req_cqe_errors: v[4],
            resp_cqe_fl: v[5],
            out_of_sequence: v[6],
            out_of_buffer: v[7],
            local_ack_timeout_errors: v[8],
            implied_nak_seq_errors: v[9],
            duplicate_request: v[10],
        }
    }
}

impl From<HwCounters> for HwCounter {
    fn from(c: HwCounters) -> (r: HwCounter) {
        HwCounter {
            rx_write_requests: c.rx_write_requests,
            rx_read_requests: c.rx_read_requests,
            rx_atomic_requests: c.rx_atomic_requests,
            resp_cqe_errors: c.resp_cqe_errors,
            req_cqe_errors: c.req_cqe_errors,
            resp_cqe_fl: c.resp_cqe_fl,
            out_of_sequence: c.out_of_sequence,
            out_of_buffer: c.out_of_buffer,
            local_ack_timeout_errors: c.local_ack_timeout_errors,
            implied_nak_seq_errors: c.implied_nak_seq_errors,
            duplicate_request: c.duplicate_request,
        }
    }
}

impl vstd::std_specs::convert::FromSpecImpl<HwCounters> for HwCounter {
    open spec fn obeys_from_spec() -> bool {
        true
    }

    open spec fn from_spec(c: HwCounters) -> HwCounter {
        HwCounter {
            rx_write_requests: c.rx_write_requests,
            rx_read_requests: c.rx_read_requests,
            rx_atomic_requests: c.rx_atomic_requests,
            resp_cqe_errors: c.resp_cqe_errors,
            req_cqe_errors: c.req_cqe_errors,
            resp_cqe_fl: c.resp_cqe_fl,
            out_of_sequence: c.out_of_sequence,
            out_of_buffer: c.out_of_buffer,
            local_ack_timeout_errors: c.local_ack_timeout_errors,
            implied_nak_seq_errors: c.implied_nak_seq_errors,
            duplicate_request: c.duplicate_request,
        }
    }
}

/// Port counters of one port as read for the monitor stream.
#[derive(Clone, Copy, PartialEq, Eq, Structural, Debug)]
pub struct PortCounters {
    pub unicast_xmit_packets: u64,
    pub unicast_rcv_packets: u64,
    pub port_xmit_wait: u64,
    pub port_xmit_packets: u64,
    pub port_xmit_data: u64,
    pub port_rcv_packets: u64,
    pub port_rcv_errors: u64,
    pub port_rcv_data: u64,
    pub multicast_xmit_packets: u64,
    pub multicast_rcv_packets: u64,
}

impl PortCounters {
    /// The counter filenames, in the fixed order `from_values` expects.
    pub fn names() -> (r: Vec<&'static str>)
        ensures
            r.deep_view() == seq![
                "unicast_xmit_packets"@,
                "unicast_rcv_packets"@,
                "port_xmit_wait"@,
                "port_xmit_packets"@,
                "port_xmit_data"@,
                "port_rcv_packets"@,
                "port_rcv_errors"@,
                "port_rcv_data"@,
                "multicast_xmit_packets"@,
                "multicast_rcv_packets"@,
            ],
    {
        let mut v: Vec<&'static str> = Vec::new();
        v.push("unicast_xmit_packets");
        v.push("unicast_rcv_packets");
        v.push("port_xmit_wait");
        v.push("port_xmit_packets");
        v.push("port_xmit_data");
        v.push("port_rcv_packets");
        v.push("port_rcv_errors");
        v.push("port_rcv_data");
        v.push("multicast_xmit_packets");
        v.push("multicast_rcv_packets");
        proof {
            assert(v.deep_view() =~= seq![
                "unicast_xmit_packets"@,
                "unicast_rcv_packets"@,
                "port_xmit_wait"@,
                "port_xmit_packets"@,
                "port_xmit_data"@,
                "port_rcv_packets"@,
                "port_rcv_errors"@,
                "port_rcv_data"@,
                "multicast_xmit_packets"@,
                "multicast_rcv_packets"@,
            ]);
        }
        v
    }

    /// Builds the record from values read in the `names` order.
    pub fn from_values(v: &Vec<u64>) -> (r: PortCounters)
        requires
            v@.len() == 10,
        ensures
            r == (PortCounters {
                unicast_xmit_packets: v@[0],
                unicast_rcv_packets: v@[1],
                port_xmit_wait: v@[2],
                port_xmit_packets: v@[3],
                port_xmit_data: v@[4],
                port_rcv_packets: v@[5],
                port_rcv_errors: v@[6],
                port_rcv_data: v@[7],
                multicast_xmit_packets: v@[8],
                multicast_rcv_packets: v@[9],
            }),
    {
        PortCounters {
            unicast_xmit_packets: v[0],
            unicast_rcv_packets: v[1],
            port_xmit_wait: v[2],
            port_xmit_packets: v[3],
            port_xmit_data: v[4],
            port_rcv_packets: v[5],
            port_rcv_errors: v[6],
            port_rcv_data: v[7],
            multicast_xmit_packets: v[8],
            multicast_rcv_packets: v[9],
        }
    }
}

impl From<PortCounters> for PortCounter {
    fn from(c: PortCounters) -> (r: PortCounter) {
        PortCounter {
            unicast_xmit_packets: c.unicast_xmit_packets,
            unicast_rcv_packets: c.unicast_rcv_packets,
            port_xmit_wait: c.port_xmit_wait,
            port_xmit_packets: c.port_xmit_packets,
            port_xmit_data: c.port_xmit_data,
            port_rcv_packets: c.port_rcv_packets,
            port_rcv_errors: c.port_rcv_errors,
            port_rcv_data: c.port_rcv_data,
            multicast_xmit_packets: c.multicast_xmit_packets,
            multicast_rcv_packets: c.multicast_rcv_packets,
        }
    }
}

impl vstd::std_specs::convert::FromSpecImpl<PortCounters> for PortCounter {
    open spec fn obeys_from_spec() -> bool {
        true
    }

    open spec fn from_spec(c: PortCounters) -> PortCounter {
        PortCounter {
            unicast_xmit_packets: c.unicast_xmit_packets,
            unicast_rcv_packets: c.unicast_rcv_packets,
            port_xmit_wait: c.port_xmit_wait,
            port_xmit_packets: c.port_xmit_packets,
            port_xmit_data: c.port_xmit_data,
            port_rcv_packets: c.port_rcv_packets,
            port_rcv_errors: c.port_rcv_errors,
            port_rcv_data: c.port_rcv_data,
            multicast_xmit_packets: c.multicast_xmit_packets,
            multicast_rcv_packets: c.multicast_rcv_packets,
        }
    }
}

/// One reading of one port's monitor counters, with the names it belongs
/// to.
pub struct Counters {
    pub interface: String,
    pub port: String,
    pub port_counters: PortCounters,
    pub hw_counters: HwCounters,
}

impl Counters {
    /// The stream message this reading becomes for a subscriber.
    pub fn to_interface_counter(&self, port_num: u32) -> (r: InterfaceCounter)
        ensures
            r.name@ == self.interface@,
            r.port == port_num,
            r.counters.hw_counter == HwCounter::from_spec(self.hw_counters),
            r.counters.port_counter == PortCounter::from_spec(self.port_counters),
    {
        InterfaceCounter {
            name: self.interface.clone(),
            port: port_num,
            counters: MonitorCounters {
                hw_counter: HwCounter::from(self.hw_counters),
                port_counter: PortCounter::from(self.port_counters),
            },
        }
    }
}

/// Whether a snapshot of `(interface, port)` passes a subscriber's filter:
/// a named interface must equal the snapshot's, a named port must equal
/// the snapshot's; an absent part constrains nothing.
pub open spec fn spec_filter_matches(f: CounterFilter, interface: Seq<char>, port: u32) -> bool {
    &&& (f.interface matches Some(i) ==> i@ == interface)
    &&& (f.port matches Some(p) ==> p == port)
}

/// Evaluates a subscriber's filter against one snapshot's names.
pub fn filter_matches(f: &CounterFilter, interface: &str, port: u32) -> (r: bool)
    ensures
        r == spec_filter_matches(*f, interface@, port),
{
    match &f.interface {
        Some(i) => {
            if !crate::text::str_eq(i.as_str(), interface) {
                return false;
            }
        },
        None => {},
    }
    match f.port {
        Some(p) => {
            if p != port {
                return false;
            }
        },
        None => {},
    }
    true
}

/// The registry as a map from subscriber identifier to filter; a later
/// registration under the same identifier wins.
pub open spec fn spec_sub_map(subs: Seq<(String, CounterFilter)>) -> Map<Seq<char>, CounterFilter>
    decreases subs.len(),
{
    if subs.len() == 0 {
        Map::empty()
    } else {
        spec_sub_map(subs.drop_last()).insert(subs.last().0@, subs.last().1)
    }
}

/// A registry key is exactly a registered identifier.
proof fn lemma_sub_map_dom(subs: Seq<(String, CounterFilter)>, k: Seq<char>)
    ensures
        spec_sub_map(subs).dom().contains(k) <==> exists|j: int|
            0 <= j < subs.len() && subs[j].0@ == k,
    decreases subs.len(),
{
    if subs.len() > 0 {
        lemma_sub_map_dom(subs.drop_last(), k);
        if subs.last().0@ == k {
            assert(subs[subs.len() - 1].0@ == k);
        } else if spec_sub_map(subs).dom().contains(k) {
            let j = choose|j: int| 0 <= j < subs.drop_last().len() && subs.drop_last()[j].0@ == k;
            assert(subs[j].0@ == k);
        } else if exists|j: int| 0 <= j < subs.len() && subs[j].0@ == k {
            let j = choose|j: int| 0 <= j < subs.len() && subs[j].0@ == k;
            assert(subs.drop_last()[j].0@ == k);
        }
    }
}

/// With identifiers unique, the registry maps each identifier to the
/// filter stored beside it.
proof fn lemma_sub_map_at(subs: Seq<(String, CounterFilter)>, j: int)
    requires
        forall|a: int, b: int|
            0 <= a < b < subs.len() ==> #[trigger] subs[a].0@ != #[trigger] subs[b].0@,
        0 <= j < subs.len(),
    ensures
        spec_sub_map(subs).dom().contains(subs[j].0@),
        spec_sub_map(subs)[subs[j].0@] == subs[j].1,
    decreases subs.len(),
{
    if j == subs.len() - 1 {
    } else {
        lemma_sub_map_at(subs.drop_last(), j);
        assert(subs[subs.len() - 1].0@ != subs[j].0@);
    }
}

/// The fan-out router's registry: live subscribers in registration order,
/// each with the filter it asked for.
pub struct CounterMonitor {
    pub receivers: Vec<(String, CounterFilter)>,
}

/// A command the router accepts.
pub enum MonitorCommand {
    Register { id: String, counter_filter: CounterFilter },
    UnRegister { id: String },
}

impl CounterMonitor {
    /// Subscriber identifiers are unique.
    pub open spec fn wf(self) -> bool {
        forall|a: int, b: int|
            0 <= a < b < self.receivers@.len() ==> #[trigger] self.receivers@[a].0@
                != #[trigger] self.receivers@[b].0@
    }

    /// The registry as a map from identifier to filter.
    pub open spec fn spec_map(self) -> Map<Seq<char>, CounterFilter> {
        spec_sub_map(self.receivers@)
    }

    /// An empty registry.
    pub fn new() -> (r: CounterMonitor)
        ensures
            r.wf(),
            r.spec_map() == Map::<Seq<char>, CounterFilter>::empty(),
    {
        CounterMonitor { receivers: Vec::new() }
    }

    /// Registers a subscriber; an existing registration under the same
    /// identifier is replaced.
    pub fn register(&mut self, id: String, counter_filter: CounterFilter)
        requires
            old(self).wf(),
        ensures
            final(self).wf(),
            final(self).spec_map() == old(self).spec_map().insert(id@, counter_filter),
    {
        let n = self.receivers.len();
        let mut j: usize = 0;
        while j < n
            invariant
                self == old(self),
                old(self).wf(),
                n == self.receivers@.len(),
                j <= n,
                forall|a: int| 0 <= a < j ==> #[trigger] self.receivers@[a].0@ != id@,
            decreases n - j,
        {
            if crate::text::str_eq(self.receivers[j].0.as_str(), id.as_str()) {
                let ghost old_subs = self.receivers@;
                self.receivers.set(j, (id, counter_filter));
                proof {
                    lemma_update_is_insert(old_subs, j as int, self.receivers@[j as int]);
                }
                return;
            }
            j = j + 1;
        }
        let ghost old_subs = self.receivers@;
        self.receivers.push((id, counter_filter));
        proof {
            assert(self.receivers@.drop_last() =~= old_subs);
            assert forall|a: int, b: int|
                0 <= a < b < self.receivers@.len() implies #[trigger] self.receivers@[a].0@
                != #[trigger] self.receivers@[b].0@ by {
                if b == self.receivers@.len() - 1 {
                    assert(old_subs[a].0@ != id@);
                }
            }
        }
    }

    /// Unregisters a subscriber; unregistering an identifier that is not
    /// registered changes nothing.
    pub fn unregister(&mut self, id: &str)
        requires
            old(self).wf(),
        ensures
            final(self).wf(),
            final(self).spec_map() == old(self).spec_map().remove(id@),
    {
        let n = self.receivers.len();
        let mut j: usize = 0;
        while j < n
            invariant
                self == old(self),
                old(self).wf(),
                n == self.receivers@.len(),
                j <= n,
                forall|a: int| 0 <= a < j ==> #[trigger] self.receivers@[a].0@ != id@,
            decreases n - j,
        {
            if crate::text::str_eq(self.receivers[j].0.as_str(), id) {
                let ghost old_subs = self.receivers@;
                self.receivers.remove(j);
                proof {
                    lemma_remove_is_remove(old_subs, j as int);
                    assert(self.receivers@ =~= old_subs.remove(j as int));
                    assert forall|a: int, b: int|
                        0 <= a < b < self.receivers@.len() implies #[trigger] self.receivers@[a].0@
                        != #[trigger] self.receivers@[b].0@ by {
                        let sa = if a < j { a } else { a + 1 };
                        let sb = if b < j { b } else { b + 1 };
                        assert(old_subs[sa].0@ != old_subs[sb].0@);
                    }
                }
                return;
            }
            j = j + 1;
        }
        proof {
            lemma_sub_map_dom(self.receivers@, id@);
            assert(!self.spec_map().dom().contains(id@));
            assert(self.spec_map() =~= self.spec_map().remove(id@));
        }
    }

    /// Applies one router command.
    pub fn apply(&mut self, cmd: MonitorCommand)
        requires
            old(self).wf(),
        ensures
            final(self).wf(),
            match cmd {
                MonitorCommand::Register { id, counter_filter } => final(self).spec_map() == old(
                    self,
                ).spec_map().insert(id@, counter_filter),
                MonitorCommand::UnRegister { id } => final(self).spec_map() == old(
                    self,
                ).spec_map().remove(id@),
            },
    {
        match cmd {
            MonitorCommand::Register { id, counter_filter } => self.register(id, counter_filter),
            MonitorCommand::UnRegister { id } => self.unregister(id.as_str()),
        }
    }

    /// The identifiers of every subscriber whose filter passes a snapshot
    /// of `(interface, port)`, in registration order.
    pub fn route(&self, interface: &str, port: u32) -> (r: Vec<String>)
        requires
            self.wf(),
        ensures
            forall|k: Seq<char>|
                #[trigger] r.deep_view().contains(k) <==> (self.spec_map().dom().contains(k)
                    && spec_filter_matches(self.spec_map()[k], interface@, port)),
    {
        let n = self.receivers.len();
        let mut out: Vec<String> = Vec::new();
        let mut j: usize = 0;
        while j < n
            invariant
                self.wf(),
                n == self.receivers@.len(),
                j <= n,
                forall|k: Seq<char>|
                    #[trigger] out.deep_view().contains(k) <==> exists|a: int|
                        0 <= a < j && self.receivers@[a].0@ == k && spec_filter_matches(
                            self.receivers@[a].1,
                            interface@,
                            port,
                        ),
            decreases n - j,
        {
            let entry = &self.receivers[j];
            if filter_matches(&entry.1, interface, port) {
                let ghost old_out = out.deep_view();
                out.push(entry.0.clone());
                proof {
                    assert(out.deep_view() =~= old_out.push(self.receivers@[j as int].0@));
                    assert forall|k: Seq<char>| #[trigger]
                        out.deep_view().contains(k) implies exists|a: int|
                        0 <= a < j + 1 && self.receivers@[a].0@ == k && spec_filter_matches(
                            self.receivers@[a].1,
                            interface@,
                            port,
                        ) by {
                        let w = choose|w: int|
                            0 <= w < out.deep_view().len() && out.deep_view()[w] == k;
                        if w < old_out.len() {
                            assert(old_out.contains(k));
                        } else {
                            assert(self.receivers@[j as int].0@ == k);
                        }
                    }
                    assert forall|k: Seq<char>|
                        exists|a: int|
                            0 <= a < j + 1 && self.receivers@[a].0@ == k && spec_filter_matches(
                                self.receivers@[a].1,
                                interface@,
                                port,
                            ) implies #[trigger] out.deep_view().contains(k) by {
                        let a = choose|a: int|
                            0 <= a < j + 1 && self.receivers@[a].0@ == k && spec_filter_matches(
                                self.receivers@[a].1,
                                interface@,
                                port,
                            );
                        if a < j {
                            assert(old_out.contains(k));
                            let w = choose|w: int| 0 <= w < old_out.len() && old_out[w] == k;
                            assert(out.deep_view()[w] == k);
                        } else {
                            assert(out.deep_view()[out.deep_view().len() - 1] == k);
                        }
                    }
                }
            } else {
                proof {
                    assert forall|k: Seq<char>|
                        exists|a: int|
                            0 <= a < j + 1 && self.receivers@[a].0@ == k && spec_filter_matches(
                                self.receivers@[a].1,
                                interface@,
                                port,
                            ) implies #[trigger] out.deep_view().contains(k) by {
                        let a = choose|a: int|
                            0 <= a < j + 1 && self.receivers@[a].0@ == k && spec_filter_matches(
                                self.receivers@[a].1,
                                interface@,
                                port,
                            );
                        assert(0 <= a < j && self.receivers@[a].0@ == k);
                    }
                }
            }
            j = j + 1;
        }
        proof {
            assert forall|k: Seq<char>| #[trigger]
                out.deep_view().contains(k) implies (self.spec_map().dom().contains(k)
                && spec_filter_matches(self.spec_map()[k], interface@, port)) by {
                let a = choose|a: int|
                    0 <= a < n && self.receivers@[a].0@ == k && spec_filter_matches(
                        self.receivers@[a].1,
                        interface@,
                        port,
                    );
                lemma_sub_map_at(self.receivers@, a);
            }
            assert forall|k: Seq<char>|
                (self.spec_map().dom().contains(k) && spec_filter_matches(
                    self.spec_map()[k],
                    interface@,
                    port,
                )) implies #[trigger] out.deep_view().contains(k) by {
                lemma_sub_map_dom(self.receivers@, k);
                let a = choose|a: int| 0 <= a < n && self.receivers@[a].0@ == k;
                lemma_sub_map_at(self.receivers@, a);
            }
        }
        out
    }
}

/// Replacing the entry that already carries an identifier updates the
/// registry map as an insert does.
proof fn lemma_update_is_insert(
    subs: Seq<(String, CounterFilter)>,
    j: int,
    entry: (String, CounterFilter),
)
    requires
        forall|a: int, b: int|
            0 <= a < b < subs.len() ==> #[trigger] subs[a].0@ != #[trigger] subs[b].0@,
        0 <= j < subs.len(),
        entry.0@ == subs[j].0@,
    ensures
        spec_sub_map(subs.update(j, entry)) == spec_sub_map(subs).insert(entry.0@, entry.1),
        forall|a: int, b: int|
            0 <= a < b < subs.update(j, entry).len() ==> #[trigger] subs.update(j, entry)[a].0@
                != #[trigger] subs.update(j, entry)[b].0@,
    decreases subs.len(),
{
    let upd = subs.update(j, entry);
    if j == subs.len() - 1 {
        assert(upd.drop_last() =~= subs.drop_last());
        assert(spec_sub_map(upd) =~= spec_sub_map(subs).insert(entry.0@, entry.1));
    } else {
        lemma_update_is_insert(subs.drop_last(), j, entry);
        assert(upd.drop_last() =~= subs.drop_last().update(j, entry));
        assert(upd.last() == subs.last());
        assert(subs[subs.len() - 1].0@ != subs[j].0@);
        assert(spec_sub_map(upd) == spec_sub_map(subs.drop_last()).insert(
            entry.0@,
            entry.1,
        ).insert(subs.last().0@, subs.last().1));
        assert(spec_sub_map(upd) =~= spec_sub_map(subs).insert(entry.0@, entry.1));
    }
}

/// Removing the entry that carries an identifier updates the registry map
/// as a remove does.
proof fn lemma_remove_is_remove(subs: Seq<(String, CounterFilter)>, j: int)
    requires
        forall|a: int, b: int|
            0 <= a < b < subs.len() ==> #[trigger] subs[a].0@ != #[trigger] subs[b].0@,
        0 <= j < subs.len(),
    ensures
        spec_sub_map(subs.remove(j)) == spec_sub_map(subs).remove(subs[j].0@),
    decreases subs.len(),
{
    let rem = subs.remove(j);
    if j == subs.len() - 1 {
        assert(rem =~= subs.drop_last());
        lemma_sub_map_dom(subs.drop_last(), subs[j].0@);
        assert(!spec_sub_map(subs.drop_last()).dom().contains(subs[j].0@));
        assert(spec_sub_map(rem) =~= spec_sub_map(subs).remove(subs[j].0@));
    } else {
        lemma_remove_is_remove(subs.drop_last(), j);
        assert(rem.drop_last() =~= subs.drop_last().remove(j));
        assert(rem.last() == subs.last());
        assert(subs[subs.len() - 1].0@ != subs[j].0@);
        assert(spec_sub_map(rem) == spec_sub_map(subs.drop_last()).remove(subs[j].0@).insert(
            subs.last().0@,
            subs.last().1,
        ));
        assert(spec_sub_map(rem) =~= spec_sub_map(subs).remove(subs[j].0@));
    }
}

/// A subscriber that is registered, and not since unregistered, is routed
/// every snapshot its filter passes: its identifier is in the router's
/// pick for any such snapshot.
pub proof fn lemma_registered_receives(
    m: CounterMonitor,
    id: Seq<char>,
    interface: Seq<char>,
    port: u32,
    routed: Seq<Seq<char>>,
)
    requires
        m.wf(),
        m.spec_map().dom().contains(id),
        spec_filter_matches(m.spec_map()[id], interface, port),
        forall|k: Seq<char>|
            #[trigger] routed.contains(k) <==> (m.spec_map().dom().contains(k)
                && spec_filter_matches(m.spec_map()[k], interface, port)),
    ensures
        routed.contains(id),
{
}

} // verus!
