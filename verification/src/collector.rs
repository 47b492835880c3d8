//! The counter collector: which driver family is sampled, the paths its
//! counters are read from, and the per-second rate derivation across
//! consecutive ticks.

use vstd::prelude::*;

use crate::monitor::{CounterData, Data, Elapsed, Meta, PerSec, Stats};

verus! {

/// The driver family whose counters the collector samples.
#[derive(Clone, Copy, PartialEq, Eq, Structural, Debug)]
pub enum Driver {
    Mlx,
    Rxe,
}

impl Driver {
    /// Parses the driver name, accepting exactly `rxe` and `mlx`.
    pub fn from_str(s: &str) -> (r: Result<Driver, &'static str>)
        ensures
            match r {
                Ok(d) => (d == Driver::Rxe && s@ == "rxe"@) || (d == Driver::Mlx && s@
                    == "mlx"@),
                Err(e) => s@ != "rxe"@ && s@ != "mlx"@ && e@ == "invalid driver"@,
            },
    {
        if crate::text::str_eq(s, "rxe") {
            Ok(Driver::Rxe)
        } else if crate::text::str_eq(s, "mlx") {
            Ok(Driver::Mlx)
        } else {
            Err("invalid driver")
        }
    }
}

/// One RDMA interface as enumerated at startup: its name under the RDMA
/// sysfs root, the Linux net-device resolved for it (empty when the
/// resolution failed), and its port directory names.
pub struct Interface {
    pub name: String,
    pub linux_name: String,
    pub ports: Vec<String>,
}

impl Clone for Interface {
    fn clone(&self) -> (r: Self)
        ensures
            r.name == self.name,
            r.linux_name == self.linux_name,
            r.ports@ == self.ports@,
    {
        let mut ports: Vec<String> = Vec::new();
        let mut i: usize = 0;
        while i < self.ports.len()
            invariant
                i <= self.ports@.len(),
                ports@.len() == i,
                forall|j: int| 0 <= j < i ==> ports@[j] == self.ports@[j],
            decreases self.ports@.len() - i,
        {
            ports.push(self.ports[i].clone());
            i = i + 1;
        }
        proof {
            assert(ports@ =~= self.ports@);
        }
        Interface {
            name: self.name.clone(),
            linux_name: self.linux_name.clone(),
            ports,
        }
    }
}

/// The Linux net-device named by the output of the link-show utility: its
/// second-to-last space-delimited field, or the empty string when the
/// output has fewer than two fields.
pub open spec fn spec_linux_name(parts: Seq<Seq<char>>) -> Seq<char> {
    if parts.len() >= 2 {
        parts[parts.len() - 2]
    } else {
        Seq::empty()
    }
}

/// How many characters the sequence starts with before its first space.
pub open spec fn spec_field_len(s: Seq<char>) -> nat
    decreases s.len(),
{
    if s.len() > 0 && s[0] != ' ' {
        1 + spec_field_len(s.skip(1))
    } else {
        0
    }
}

proof fn lemma_field_len_bound(s: Seq<char>)
    ensures
        spec_field_len(s) <= s.len(),
    decreases s.len(),
{
    if s.len() > 0 && s[0] != ' ' {
        lemma_field_len_bound(s.skip(1));
    }
}

/// The fields of a line split at single spaces; empty fields are kept.
pub open spec fn spec_space_split(s: Seq<char>) -> Seq<Seq<char>>
    decreases s.len(),
    via spec_space_split_decreases
{
    let k = spec_field_len(s) as int;
    if k == s.len() {
        seq![s]
    } else {
        seq![s.take(k)] + spec_space_split(s.skip(k + 1))
    }
}

#[via_fn]
proof fn spec_space_split_decreases(s: Seq<char>) {
    lemma_field_len_bound(s);
}

/// Splits one line of text at single spaces; empty fields are kept, as
/// the splitting the utility output receives does.
pub fn split_spaces(s: &str) -> (r: Vec<String>)
    ensures
        r.deep_view() == spec_space_split(s@),
        r@.len() >= 1,
{
    let chars = crate::text::str_to_chars(s);
    let n = chars.len();
    let mut parts: Vec<String> = Vec::new();
    let mut i: usize = 0;
    proof {
        assert(chars@.skip(0) =~= chars@);
        assert(parts.deep_view() =~= Seq::<Seq<char>>::empty());
    }
    loop
        invariant_except_break
            n == chars@.len(),
            i <= n,
            spec_space_split(chars@) == parts.deep_view() + spec_space_split(
                chars@.skip(i as int),
            ),
        ensures
            parts.deep_view() == spec_space_split(chars@),
            parts@.len() >= 1,
        decreases n - i,
    {
        let ghost pre = parts.deep_view();
        let ghost rest = chars@.skip(i as int);
        let mut j: usize = i;
        while j < n && chars[j] != ' '
            invariant
                n == chars@.len(),
                i <= j <= n,
                forall|m: int| i <= m < j ==> #[trigger] chars@[m] != ' ',
            decreases n - j,
        {
            j = j + 1;
        }
        proof {
            lemma_field_len_is(rest, j - i);
            assert(rest.take(j - i) =~= chars@.subrange(i as int, j as int));
        }
        let mut field: Vec<char> = Vec::new();
        let mut m: usize = i;
        while m < j
            invariant
                n == chars@.len(),
                i <= m <= j <= n,
                field@ == chars@.subrange(i as int, m as int),
            decreases j - m,
        {
            field.push(chars[m]);
            proof {
                assert(field@ =~= chars@.subrange(i as int, m + 1));
            }
            m = m + 1;
        }
        parts.push(crate::text::chars_to_string(&field));
        if j == n {
            proof {
                assert(spec_space_split(rest) =~= seq![rest]);
                assert(rest =~= chars@.subrange(i as int, j as int));
                assert(parts.deep_view() =~= pre + seq![rest]);
            }
            break;
        }
        proof {
            assert(rest.skip(j - i + 1) =~= chars@.skip(j + 1));
            assert(spec_space_split(rest) == seq![rest.take(j - i)] + spec_space_split(
                rest.skip(j - i + 1),
            ));
            assert(parts.deep_view() =~= pre + seq![rest.take(j - i)]);
            assert(pre + (seq![rest.take(j - i)] + spec_space_split(rest.skip(j - i + 1)))
                =~= parts.deep_view() + spec_space_split(chars@.skip(j + 1)));
        }
        i = j + 1;
    }
    parts
}

proof fn lemma_field_len_is(s: Seq<char>, k: int)
    requires
        0 <= k <= s.len(),
        forall|m: int| 0 <= m < k ==> #[trigger] s[m] != ' ',
        k < s.len() ==> s[k] == ' ',
    ensures
        spec_field_len(s) == k,
    decreases k,
{
    if k == 0 {
    } else {
        lemma_field_len_is(s.skip(1), k - 1);
    }
}

/// Picks the second-to-last field of the utility's output, the position
/// that names the Linux net-device.
pub fn linux_name_from_rdma_output(s: &str) -> (r: String)
    ensures
        r@ == spec_linux_name(spec_space_split(s@)),
{
    let parts = split_spaces(s);
    proof {
        assert(parts@.len() == parts.deep_view().len());
    }
    if parts.len() >= 2 {
        let out = parts[parts.len() - 2].clone();
        proof {
            assert(out@ == parts.deep_view()[parts.deep_view().len() - 2]);
        }
        out
    } else {
        String::new()
    }
}

/// The path of one counter pseudo-file:
/// `/sys/class/infiniband/<iface>/ports/<port>/<group>/<name>`.
pub open spec fn spec_counter_path(
    iface: Seq<char>,
    port: Seq<char>,
    group: Seq<char>,
    name: Seq<char>,
) -> Seq<char> {
    "/sys/class/infiniband/"@ + iface + "/ports/"@ + port + "/"@ + group + "/"@ + name
}

/// Composes the path of one counter pseudo-file.
pub fn counter_path(iface: &str, port: &str, group: &str, name: &str) -> (r: String)
    ensures
        r@ == spec_counter_path(iface@, port@, group@, name@),
{
    let mut p = String::new();
    p.append("/sys/class/infiniband/");
    p.append(iface);
    p.append("/ports/");
    p.append(port);
    p.append("/");
    p.append(group);
    p.append("/");
    p.append(name);
    p
}

/// The path of one Linux net-device statistics file, where the soft-RoCE
/// byte counters live: `/sys/class/net/<linux-iface>/statistics/<name>`.
pub open spec fn spec_net_statistics_path(linux_iface: Seq<char>, name: Seq<char>) -> Seq<char> {
    "/sys/class/net/"@ + linux_iface + "/statistics/"@ + name
}

/// Composes the path of one net-device statistics file.
pub fn net_statistics_path(linux_iface: &str, name: &str) -> (r: String)
    ensures
        r@ == spec_net_statistics_path(linux_iface@, name@),
{
    let mut p = String::new();
    p.append("/sys/class/net/");
    p.append(linux_iface);
    p.append("/statistics/");
    p.append(name);
    p
}

/// The previous tick's values of the four rate-bearing counters of one
/// `(interface, port)`; absent before the first tick.
#[derive(Clone, Copy, PartialEq, Eq, Structural, Debug)]
pub struct PortHistory {
    pub rcv_packets: Option<u64>,
    pub rcv_data: Option<u64>,
    pub xmit_packets: Option<u64>,
    pub xmit_data: Option<u64>,
}

impl PortHistory {
    pub fn empty() -> (r: PortHistory)
        ensures
            r == (PortHistory {
                rcv_packets: None::<u64>,
                rcv_data: None::<u64>,
                xmit_packets: None::<u64>,
                xmit_data: None::<u64>,
            }),
    {
        PortHistory { rcv_packets: None, rcv_data: None, xmit_packets: None, xmit_data: None }
    }
}

/// The derived rate for one counter, in thousandths of a unit per second.
/// A rate is computed only when a previous value exists and the counter
/// strictly grew; otherwise it is zero.  A quotient beyond `u64` saturates.
pub open spec fn spec_rate_milli(prev: Option<u64>, cur: u64, period_ms: u64) -> u64 {
    if prev is Some && prev.unwrap() < cur && period_ms > 0 {
        let q = (cur - prev.unwrap()) * 1_000_000 / (period_ms as int);
        if q <= u64::MAX {
            q as u64
        } else {
            u64::MAX
        }
    } else {
        0
    }
}

/// Derives one rate from the previous and the current counter value.
pub fn rate_milli(prev: Option<u64>, cur: u64, period_ms: u64) -> (r: u64)
    ensures
        r == spec_rate_milli(prev, cur, period_ms),
{
    match prev {
        Some(p) => {
            if p < cur && period_ms > 0 {
                let q: u128 = (cur - p) as u128 * 1_000_000 / period_ms as u128;
                if q > u64::MAX as u128 {
                    u64::MAX
                } else {
                    q as u64
                }
            } else {
                0
            }
        },
        None => 0,
    }
}

/// Observing the same counter value on consecutive ticks derives a rate of
/// exactly zero.
pub proof fn lemma_equal_counter_rate_zero(cur: u64, period_ms: u64)
    ensures
        spec_rate_milli(Some(cur), cur, period_ms) == 0,
{
}

/// A counter wrap or reset, where the previous value exceeds the current
/// one, derives a rate of zero.
pub proof fn lemma_counter_reset_rate_zero(prev: u64, cur: u64, period_ms: u64)
    requires
        prev > cur,
    ensures
        spec_rate_milli(Some(prev), cur, period_ms) == 0,
{
}

/// The four rate-bearing readings of one tick: received packets, received
/// bytes, transmitted packets, transmitted bytes.
pub open spec fn spec_rate_fields(d: CounterData) -> (u64, u64, u64, u64) {
    match d {
        CounterData::Mlx(m) => (
            m.mlx_counter.port_rcv_packets,
            m.mlx_counter.port_rcv_data,
            m.mlx_counter.port_xmit_packets,
            m.mlx_counter.port_xmit_data,
        ),
        CounterData::Rxe(r) => (
            r.rxe_hw_counter.rcvd_pkts,
            r.rxe_counter.rx_bytes,
            r.rxe_hw_counter.sent_pkts,
            r.rxe_counter.tx_bytes,
        ),
    }
}

/// Extracts the rate-bearing readings from a counter payload.
pub fn rate_fields(d: &CounterData) -> (r: (u64, u64, u64, u64))
    ensures
        r == spec_rate_fields(*d),
{
    match d {
        CounterData::Mlx(m) => (
            m.mlx_counter.port_rcv_packets,
            m.mlx_counter.port_rcv_data,
            m.mlx_counter.port_xmit_packets,
            m.mlx_counter.port_xmit_data,
        ),
        CounterData::Rxe(r) => (
            r.rxe_hw_counter.rcvd_pkts,
            r.rxe_counter.rx_bytes,
            r.rxe_hw_counter.sent_pkts,
            r.rxe_counter.tx_bytes,
        ),
    }
}

/// The rates one tick derives from a payload against the port's history.
pub open spec fn spec_tick_rates(h: PortHistory, d: CounterData, period_ms: u64) -> PerSec {
    let (rcv_packets, rcv_data, xmit_packets, xmit_data) = spec_rate_fields(d);
    PerSec {
        bytes_xmit_per_sec: spec_rate_milli(h.xmit_data, xmit_data, period_ms),
        packets_xmit_per_sec: spec_rate_milli(h.xmit_packets, xmit_packets, period_ms),
        bytes_rcv_per_sec: spec_rate_milli(h.rcv_data, rcv_data, period_ms),
        packets_rcv_per_sec: spec_rate_milli(h.rcv_packets, rcv_packets, period_ms),
    }
}

/// The history one tick leaves behind: the current readings, kept for the
/// next differencing, whether or not a rate was derived.
pub open spec fn spec_tick_history(d: CounterData) -> PortHistory {
    let (rcv_packets, rcv_data, xmit_packets, xmit_data) = spec_rate_fields(d);
    PortHistory {
        rcv_packets: Some(rcv_packets),
        rcv_data: Some(rcv_data),
        xmit_packets: Some(xmit_packets),
        xmit_data: Some(xmit_data),
    }
}

/// Applies one tick for one port: derives the four rates against the
/// stored history and stores the current readings back.
pub fn apply_tick(h: &mut PortHistory, d: &CounterData, period_ms: u64) -> (r: PerSec)
    ensures
        r == spec_tick_rates(*old(h), *d, period_ms),
        *final(h) == spec_tick_history(*d),
{
    let (rcv_packets, rcv_data, xmit_packets, xmit_data) = rate_fields(d);
    let rates = PerSec {
        bytes_xmit_per_sec: rate_milli(h.xmit_data, xmit_data, period_ms),
        packets_xmit_per_sec: rate_milli(h.xmit_packets, xmit_packets, period_ms),
        bytes_rcv_per_sec: rate_milli(h.rcv_data, rcv_data, period_ms),
        packets_rcv_per_sec: rate_milli(h.rcv_packets, rcv_packets, period_ms),
    };
    h.rcv_packets = Some(rcv_packets);
    h.rcv_data = Some(rcv_data);
    h.xmit_packets = Some(xmit_packets);
    h.xmit_data = Some(xmit_data);
    rates
}

/// Relies on `gethostname::gethostname`: this host's name, as the
/// operating system reports it; nothing is promised of its value.
#[verifier::external_body]
fn hostname_string() -> String {
    gethostname::gethostname().to_string_lossy().to_string()
}

/// The periodic counter sampler.  Interfaces are enumerated once, at
/// construction; each `(interface, port)` keeps its rate history across
/// ticks.
pub struct Collector {
    pub interfaces: Vec<Interface>,
    pub freq: u64,
    pub driver: Driver,
    pub history: Vec<Vec<PortHistory>>,
    pub hostname: String,
}

impl Collector {
    /// The histories mirror the interface list: one entry per port.
    pub open spec fn wf(self) -> bool {
        &&& self.history@.len() == self.interfaces@.len()
        &&& forall|i: int|
            0 <= i < self.history@.len() ==> #[trigger] self.history@[i]@.len()
                == self.interfaces@[i].ports@.len()
    }

    pub open spec fn spec_history(self, iface: int, port: int) -> PortHistory {
        self.history@[iface]@[port]
    }

    /// Builds a collector over the interfaces enumerated at startup, with
    /// an empty history: the first tick derives only zero rates.
    pub fn new(freq: u64, driver: Driver, interfaces: Vec<Interface>) -> (r: Collector)
        ensures
            r.wf(),
            r.freq == freq,
            r.driver == driver,
            r.interfaces@ == interfaces@,
            forall|i: int, p: int|
                0 <= i < r.history@.len() && 0 <= p < r.history@[i]@.len()
                    ==> r.spec_history(i, p) == (PortHistory {
                    rcv_packets: None::<u64>,
                    rcv_data: None::<u64>,
                    xmit_packets: None::<u64>,
                    xmit_data: None::<u64>,
                }),
    {
        let mut history: Vec<Vec<PortHistory>> = Vec::new();
        let mut i: usize = 0;
        while i < interfaces.len()
            invariant
                i <= interfaces@.len(),
                history@.len() == i,
                forall|j: int| 0 <= j < i ==> #[trigger] history@[j]@.len()
                    == interfaces@[j].ports@.len(),
                forall|j: int, p: int|
                    0 <= j < i && 0 <= p < history@[j]@.len() ==> history@[j]@[p]
                        == (PortHistory {
                        rcv_packets: None::<u64>,
                        rcv_data: None::<u64>,
                        xmit_packets: None::<u64>,
                        xmit_data: None::<u64>,
                    }),
            decreases interfaces@.len() - i,
        {
            let mut row: Vec<PortHistory> = Vec::new();
            let nports = interfaces[i].ports.len();
            let mut p: usize = 0;
            while p < nports
                invariant
                    p <= nports,
                    row@.len() == p,
                    forall|q: int| 0 <= q < p ==> row@[q] == (PortHistory {
                        rcv_packets: None::<u64>,
                        rcv_data: None::<u64>,
                        xmit_packets: None::<u64>,
                        xmit_data: None::<u64>,
                    }),
                decreases nports - p,
            {
                row.push(PortHistory::empty());
                p = p + 1;
            }
            history.push(row);
            i = i + 1;
        }
        let hostname = hostname_string();
        Collector { interfaces, freq, driver, history, hostname }
    }

    /// Applies one tick for one `(interface, port)`: derives the rates
    /// against that port's history, stores the readings back, and wraps
    /// everything into the snapshot the router receives.  Every other
    /// port's history is untouched.
    pub fn observe(&mut self, iface: usize, port: usize, data: CounterData, elapsed: Elapsed) -> (r:
        Stats)
        requires
            old(self).wf(),
            iface < old(self).interfaces@.len(),
            port < old(self).interfaces@[iface as int].ports@.len(),
        ensures
            final(self).wf(),
            final(self).interfaces@ == old(self).interfaces@,
            final(self).freq == old(self).freq,
            final(self).driver == old(self).driver,
            r.data.per_sec == spec_tick_rates(
                old(self).spec_history(iface as int, port as int),
                data,
                old(self).freq,
            ),
            r.data.data == data,
            r.data.elapsed == elapsed,
            r.meta.interface@ == old(self).interfaces@[iface as int].name@,
            r.meta.port@ == old(self).interfaces@[iface as int].ports@[port as int]@,
            final(self).spec_history(iface as int, port as int) == spec_tick_history(data),
            forall|i: int, p: int|
                0 <= i < old(self).history@.len() && 0 <= p < old(self).history@[i]@.len() && !(i
                    == iface && p == port) ==> final(self).spec_history(i, p) == old(
                    self,
                ).spec_history(i, p),
    {
        let freq = self.freq;
        let mut h = self.history[iface][port];
        let per_sec = apply_tick(&mut h, &data, freq);
        let mut row = self.history.remove(iface);
        row.set(port, h);
        self.history.insert(iface, row);
        proof {
            assert(final(self).history@[iface as int]@ =~= old(self).history@[
                iface as int]@.update(port as int, spec_tick_history(data)));
            assert(final(self).history@ =~= old(self).history@.update(
                iface as int,
                final(self).history@[iface as int],
            ));
        }
        let meta = Meta {
            hostname: self.hostname.clone(),
            interface: self.interfaces[iface].name.clone(),
            port: self.interfaces[iface].ports[port].clone(),
        };
        Stats { meta, data: Data { per_sec, elapsed, data } }
    }
}

} // verus!
