//! The in-process benchmark initiator's bookkeeping: what one send
//! request asks for, and the per-iteration transfer statistics it
//! renders.  The memory-region traffic itself happens outside.

use vstd::prelude::*;

use crate::text::{spec_decimal, u64_to_string};

verus! {

/// One in-process benchmark request, as the listener endpoint receives
/// it.
pub struct SendRequest {
    pub address: String,
    pub iterations: u32,
    pub message_size: u64,
    pub volume: u64,
    pub mtu: u32,
    pub op: i32,
}

impl Clone for SendRequest {
    fn clone(&self) -> (r: Self)
        ensures
            r == *self,
    {
        SendRequest {
            address: self.address.clone(),
            iterations: self.iterations,
            message_size: self.message_size,
            volume: self.volume,
            mtu: self.mtu,
            op: self.op,
        }
    }
}

/// The in-process initiator endpoint.
pub struct Initiator {
    pub address: String,
}

impl Initiator {
    pub fn new(address: String) -> (r: Initiator)
        ensures
            r.address == address,
    {
        Initiator { address }
    }
}

/// How many transfers one iteration performs: the volume divided by the
/// message size, rounded down.
pub fn planned_transfers(volume: u64, message_size: u64) -> (r: u64)
    requires
        message_size > 0,
    ensures
        r == volume / message_size,
{
    volume / message_size
}

/// A quantity with two decimal places: the whole part, a dot, and the
/// first two digits of the fraction, truncated.
pub open spec fn spec_two_dec(v: nat, unit: nat) -> Seq<char>
    recommends
        unit > 0,
{
    let frac = v % unit * 100 / unit;
    spec_decimal(v / unit) + seq!['.'] + seq![
        crate::text::spec_digit_char(frac / 10),
        crate::text::spec_digit_char(frac % 10),
    ]
}

fn two_dec(v: u128, unit: u64) -> (r: String)
    requires
        unit > 0,
        v / (unit as u128) <= u64::MAX,
    ensures
        r@ == spec_two_dec(v as nat, unit as nat),
{
    let whole: u64 = (v / unit as u128) as u64;
    let frac: u64 = (v % unit as u128 * 100 / unit as u128) as u64;
    proof {
        assert((v as int) % (unit as int) < unit as int);
        assert((v as int) % (unit as int) * 100 / (unit as int) < 100) by (nonlinear_arith)
            requires
                unit > 0,
                (v as int) % (unit as int) < unit as int,
        ;
    }
    let mut s = u64_to_string(whole);
    let mut tail: Vec<char> = Vec::new();
    tail.push('.');
    tail.push(digit_char_local(frac / 10));
    tail.push(digit_char_local(frac % 10));
    let tail_s = crate::text::chars_to_string(&tail);
    s.append(tail_s.as_str());
    proof {
        assert(tail@ =~= seq![
            '.',
            crate::text::spec_digit_char((frac / 10) as nat),
            crate::text::spec_digit_char((frac % 10) as nat),
        ]);
        assert(s@ =~= spec_two_dec(v as nat, unit as nat));
    }
    s
}

fn digit_char_local(d: u64) -> (r: char)
    requires
        d < 10,
    ensures
        r == crate::text::spec_digit_char(d as nat),
{
    match d {
        0 => '0',
        1 => '1',
        2 => '2',
        3 => '3',
        4 => '4',
        5 => '5',
        6 => '6',
        7 => '7',
        8 => '8',
        _ => '9',
    }
}

/// The bit rate one iteration achieved, in bits per second: the bits
/// moved over the elapsed milliseconds; with no measurable time the bit
/// count itself stands in.
pub open spec fn spec_bits_per_sec(total_bytes: nat, elapsed_millis: nat) -> nat {
    if elapsed_millis > 0 {
        total_bytes * 8 * 1000 / elapsed_millis
    } else {
        total_bytes * 8
    }
}

/// The elapsed-time text: seconds with two decimals beyond one second,
/// plain milliseconds otherwise.
pub open spec fn spec_total_time(elapsed_millis: nat) -> Seq<char> {
    if elapsed_millis > 1000 {
        spec_two_dec(elapsed_millis, 1000) + " s"@
    } else {
        spec_decimal(elapsed_millis) + " ms"@
    }
}

/// The rate text: the bit rate scaled to the largest unit it exceeds,
/// with two decimals, truncated.
pub open spec fn spec_rate_text(total_bytes: nat, elapsed_millis: nat) -> Seq<char> {
    let bps = spec_bits_per_sec(total_bytes, elapsed_millis);
    if bps > 1_000_000_000 {
        spec_two_dec(bps, 1_000_000_000) + " Gbps"@
    } else if bps > 1_000_000 {
        spec_two_dec(bps, 1_000_000) + " Mbps"@
    } else if bps > 1_000 {
        spec_two_dec(bps, 1_000) + " Kbps"@
    } else {
        spec_two_dec(bps, 1) + " bps"@
    }
}

/// The statistics of one benchmark iteration, with the elapsed time and
/// the achieved rate already rendered.
pub struct Stats {
    pub messages: u32,
    pub total_message_size: u64,
    pub total_time: String,
    pub rate: String,
    pub uuid: String,
}

impl Clone for Stats {
    fn clone(&self) -> (r: Self)
        ensures
            r == *self,
    {
        Stats {
            messages: self.messages,
            total_message_size: self.total_message_size,
            total_time: self.total_time.clone(),
            rate: self.rate.clone(),
            uuid: self.uuid.clone(),
        }
    }
}

impl Stats {
    /// Builds the record for one iteration from the moved volume and the
    /// elapsed wall time.
    pub fn new(total_message_size: u64, messages: u32, elapsed_millis: u64, uuid: String) -> (r:
        Stats)
        ensures
            r.messages == messages,
            r.total_message_size == total_message_size,
            r.uuid == uuid,
            r.total_time@ == spec_total_time(elapsed_millis as nat),
            r.rate@ == spec_rate_text(total_message_size as nat, elapsed_millis as nat),
    {
        let total_time = if elapsed_millis > 1000 {
            let mut t = two_dec(elapsed_millis as u128, 1000);
            t.append(" s");
            t
        } else {
            let mut t = u64_to_string(elapsed_millis);
            t.append(" ms");
            t
        };
        let bits: u128 = total_message_size as u128 * 8;
        let bps: u128 = if elapsed_millis > 0 {
            bits * 1000 / elapsed_millis as u128
        } else {
            bits
        };
        let rate = if bps > 1_000_000_000 {
            let mut t = two_dec(bps, 1_000_000_000);
            t.append(" Gbps");
            t
        } else if bps > 1_000_000 {
            let mut t = two_dec(bps, 1_000_000);
            t.append(" Mbps");
            t
        } else if bps > 1_000 {
            let mut t = two_dec(bps, 1_000);
            t.append(" Kbps");
            t
        } else {
            let mut t = two_dec(bps, 1);
            t.append(" bps");
            t
        };
        Stats { messages, total_message_size, total_time, rate, uuid }
    }

    /// The record as the lines the benchmark log shows.
    pub open spec fn spec_render(self) -> Seq<char> {
        "\tuid: "@ + self.uuid@ + "\n\tmessages: "@ + spec_decimal(self.messages as nat)
            + "\n\ttotal message size: "@ + spec_decimal(self.total_message_size as nat)
            + "\n\ttotal time: "@ + self.total_time@ + "\n\trate: "@ + self.rate@
    }

    /// The record as the lines the benchmark log shows.
    pub fn render(&self) -> (r: String)
        ensures
            r@ == self.spec_render(),
    {
        let mut s = String::new();
        s.append("\tuid: ");
        s.append(self.uuid.as_str());
        s.append("\n\tmessages: ");
        let m = u64_to_string(self.messages as u64);
        s.append(m.as_str());
        s.append("\n\ttotal message size: ");
        let t = u64_to_string(self.total_message_size);
        s.append(t.as_str());
        s.append("\n\ttotal time: ");
        s.append(self.total_time.as_str());
        s.append("\n\trate: ");
        s.append(self.rate.as_str());
        s
    }
}

/// The per-iteration statistics of one run, in iteration order.
pub struct StatsMap(pub Vec<(u32, Stats)>);

impl StatsMap {
    pub fn new() -> (r: StatsMap)
        ensures
            r.0@.len() == 0,
    {
        StatsMap(Vec::new())
    }

    /// Files one iteration's statistics at the end.
    pub fn push(&mut self, it: u32, stats: Stats)
        ensures
            final(self).0@ == old(self).0@.push((it, stats)),
    {
        self.0.push((it, stats));
    }

    /// The whole run as the lines the benchmark log shows, iteration by
    /// iteration.
    pub open spec fn spec_render(entries: Seq<(u32, Stats)>) -> Seq<char>
        decreases entries.len(),
    {
        if entries.len() == 0 {
            Seq::empty()
        } else {
            Self::spec_render(entries.drop_last()) + "iteration: "@ + spec_decimal(
                entries.last().0 as nat,
            ) + "\n"@ + entries.last().1.spec_render() + "\n"@
        }
    }

    /// The whole run as the lines the benchmark log shows.
    pub fn render(&self) -> (r: String)
        ensures
            r@ == Self::spec_render(self.0@),
    {
        let mut s = String::new();
        let mut i: usize = 0;
        while i < self.0.len()
            invariant
                i <= self.0@.len(),
                s@ == Self::spec_render(self.0@.take(i as int)),
            decreases self.0@.len() - i,
        {
            proof {
                assert(self.0@.take(i + 1).drop_last() =~= self.0@.take(i as int));
                assert(self.0@.take(i + 1).last() == self.0@[i as int]);
            }
            s.append("iteration: ");
            let it = u64_to_string(self.0[i].0 as u64);
            s.append(it.as_str());
            s.append("\n");
            let line = self.0[i].1.render();
            s.append(line.as_str());
            s.append("\n");
            i = i + 1;
        }
        proof {
            assert(self.0@.take(self.0@.len() as int) =~= self.0@);
        }
        s
    }
}

} // verus!
