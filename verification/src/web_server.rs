//! The aggregator's metrics projection: each counter field of an incoming
//! snapshot becomes one gauge row, named after the field and labelled
//! with the snapshot's host, interface and port; bandwidth results become
//! rows labelled with the host alone.

use vstd::prelude::*;

use crate::connection_manager::BwResults;
use crate::monitor::{
    spec_mlx_counter_names, spec_mlx_hw_counter_names, spec_per_sec_names,
    spec_rxe_counter_names, spec_rxe_hw_counter_names, CounterData, Stats,
};

verus! {

/// The aggregator process's options: where the metrics page binds and
/// where the ingest endpoint binds.
pub struct Args {
    pub address: String,
    pub grpc_address: String,
}

/// One gauge update: the gauge's name and the value to set it to.  The
/// caller attaches the label values the row's label set asks for.
pub struct GaugeRow {
    pub name: String,
    pub value: u64,
}

/// Pairs every name with the value at the same position.
pub open spec fn spec_rows(names: Seq<Seq<char>>, values: Seq<u64>) -> Seq<(Seq<char>, u64)> {
    Seq::new(names.len(), |i: int| (names[i], values[i]))
}

/// The gauge rows of one counter payload: every field of the driver's
/// two records, in field order.
pub open spec fn spec_counter_rows(d: CounterData) -> Seq<(Seq<char>, u64)> {
    match d {
        CounterData::Mlx(m) => spec_rows(spec_mlx_counter_names(), m.mlx_counter.spec_values())
            + spec_rows(spec_mlx_hw_counter_names(), m.mlx_hw_counter.spec_values()),
        CounterData::Rxe(r) => spec_rows(spec_rxe_counter_names(), r.rxe_counter.spec_values())
            + spec_rows(spec_rxe_hw_counter_names(), r.rxe_hw_counter.spec_values()),
    }
}

fn zip_rows(names: Vec<&'static str>, values: Vec<u64>, out: &mut Vec<GaugeRow>)
    requires
        names@.len() == values@.len(),
    ensures
        final(out)@.len() == old(out)@.len() + names@.len(),
        forall|j: int| 0 <= j < old(out)@.len() ==> final(out)@[j] == old(out)@[j],
        forall|j: int|
            0 <= j < names@.len() ==> (#[trigger] final(out)@[old(out)@.len() + j]).name@
                == names@[j]@ && final(out)@[old(out)@.len() + j].value == values@[j],
{
    let n = names.len();
    let mut i: usize = 0;
    while i < n
        invariant
            n == names@.len(),
            n == values@.len(),
            i <= n,
            out@.len() == old(out)@.len() + i,
            forall|j: int| 0 <= j < old(out)@.len() ==> out@[j] == old(out)@[j],
            forall|j: int|
                0 <= j < i ==> (#[trigger] out@[old(out)@.len() + j]).name@ == names@[j]@
                    && out@[old(out)@.len() + j].value == values@[j],
        decreases n - i,
    {
        out.push(GaugeRow { name: names[i].to_owned(), value: values[i] });
        i = i + 1;
    }
}

/// The gauge rows of one snapshot's counters, one per field, in field
/// order: first the driver's two records, then the derived rates.  These
/// rows carry the `(hostname, interface, port)` label set.
pub fn counter_gauge_rows(stats: &Stats) -> (r: Vec<GaugeRow>)
    ensures
        r@.len() == spec_counter_rows(stats.data.data).len() + 4,
        forall|j: int|
            0 <= j < spec_counter_rows(stats.data.data).len() ==> (#[trigger] r@[j]).name@
                == spec_counter_rows(stats.data.data)[j].0 && r@[j].value == spec_counter_rows(
                stats.data.data,
            )[j].1,
        forall|j: int|
            0 <= j < 4 ==> (#[trigger] r@[spec_counter_rows(stats.data.data).len() + j]).name@
                == spec_per_sec_names()[j] && r@[spec_counter_rows(stats.data.data).len() + j].value
                == stats.data.per_sec.spec_values()[j],
{
    let mut out: Vec<GaugeRow> = Vec::new();
    match &stats.data.data {
        CounterData::Mlx(m) => {
            let names_a = crate::monitor::MlxCounter::names();
            let values_a = m.mlx_counter.values();
            proof {
                assert(names_a@.len() == names_a.deep_view().len());
                assert(names_a.deep_view().len() == 21);
                assert(values_a@.len() == 21);
            }
            let ghost names_av = names_a.deep_view();
            let ghost values_av = values_a@;
            zip_rows(names_a, values_a, &mut out);
            let names_b = crate::monitor::MlxHwCounter::names();
            let values_b = m.mlx_hw_counter.values();
            proof {
                assert(names_b@.len() == names_b.deep_view().len());
                assert(names_b.deep_view().len() == 29);
                assert(values_b@.len() == 29);
            }
            let ghost names_bv = names_b.deep_view();
            let ghost values_bv = values_b@;
            zip_rows(names_b, values_b, &mut out);
            proof {
                assert(spec_mlx_counter_names().len() == 21);
                assert(spec_mlx_hw_counter_names().len() == 29);
                let rows = spec_counter_rows(stats.data.data);
                assert(rows.len() == 50);
                assert forall|j: int| 0 <= j < 50 implies (#[trigger] out@[j]).name@
                    == rows[j].0 && out@[j].value == rows[j].1 by {
                    if j < 21 {
                        assert(out@[0 + j].name@ == names_av[j]);
                        assert(out@[0 + j].value == values_av[j]);
                        assert(rows[j] == (spec_mlx_counter_names()[j], m.mlx_counter.spec_values()[j]));
                    } else {
                        assert(out@[21 + (j - 21)].name@ == names_bv[j - 21]);
                        assert(out@[21 + (j - 21)].value == values_bv[j - 21]);
                        assert(rows[j] == (spec_mlx_hw_counter_names()[j - 21], m.mlx_hw_counter.spec_values()[j
                            - 21]));
                    }
                }
            }
        },
        CounterData::Rxe(x) => {
            let names_a = crate::monitor::RxeCounter::names();
            let values_a = x.rxe_counter.values();
            proof {
                assert(names_a@.len() == names_a.deep_view().len());
                assert(names_a.deep_view().len() == 2);
                assert(values_a@.len() == 2);
            }
            let ghost names_av = names_a.deep_view();
            let ghost values_av = values_a@;
            zip_rows(names_a, values_a, &mut out);
            let names_b = crate::monitor::RxeHwCounter::names();
            let values_b = x.rxe_hw_counter.values();
            proof {
                assert(names_b@.len() == names_b.deep_view().len());
                assert(names_b.deep_view().len() == 17);
                assert(values_b@.len() == 17);
            }
            let ghost names_bv = names_b.deep_view();
            let ghost values_bv = values_b@;
            zip_rows(names_b, values_b, &mut out);
            proof {
                assert(spec_rxe_counter_names().len() == 2);
                assert(spec_rxe_hw_counter_names().len() == 17);
                let rows = spec_counter_rows(stats.data.data);
                assert(rows.len() == 19);
                assert forall|j: int| 0 <= j < 19 implies (#[trigger] out@[j]).name@
                    == rows[j].0 && out@[j].value == rows[j].1 by {
                    if j < 2 {
                        assert(out@[0 + j].name@ == names_av[j]);
                        assert(out@[0 + j].value == values_av[j]);
                        assert(rows[j] == (spec_rxe_counter_names()[j], x.rxe_counter.spec_values()[j]));
                    } else {
                        assert(out@[2 + (j - 2)].name@ == names_bv[j - 2]);
                        assert(out@[2 + (j - 2)].value == values_bv[j - 2]);
                        assert(rows[j] == (spec_rxe_hw_counter_names()[j - 2], x.rxe_hw_counter.spec_values()[j
                            - 2]));
                    }
                }
            }
        },
    }
    let names_p = crate::monitor::PerSec::names();
    let values_p = stats.data.per_sec.values();
    proof {
        assert(names_p@.len() == names_p.deep_view().len());
        assert(names_p.deep_view().len() == 4);
        assert(values_p@.len() == 4);
    }
    let ghost base = out@.len() as int;
    let ghost names_pv = names_p.deep_view();
    let ghost values_pv = values_p@;
    zip_rows(names_p, values_p, &mut out);
    proof {
        assert(base == spec_counter_rows(stats.data.data).len());
        assert forall|j: int| 0 <= j < 4 implies (#[trigger] out@[base + j]).name@
            == spec_per_sec_names()[j] && out@[base + j].value
            == stats.data.per_sec.spec_values()[j] by {
            assert(out@[base + j].name@ == names_pv[j]);
            assert(out@[base + j].value == values_pv[j]);
        }
    }
    out
}

/// The bandwidth-result field names, in field order.
pub open spec fn spec_bw_names() -> Seq<Seq<char>> {
    seq!["msg_size"@, "n_iterations"@, "bw_peak"@, "bw_average"@, "msg_rate"@]
}

/// The gauge rows of one report's bandwidth results; these rows carry the
/// `(hostname)` label set.  The three rate figures stay in thousandths,
/// as the report message carries them.
pub fn bw_gauge_rows(bw: &BwResults) -> (r: Vec<GaugeRow>)
    ensures
        r@.len() == 5,
        forall|j: int|
            0 <= j < 5 ==> (#[trigger] r@[j]).name@ == spec_bw_names()[j],
        r@[0].value == bw.msg_size,
        r@[1].value == bw.n_iterations,
        r@[2].value == bw.bw_peak_milli,
        r@[3].value == bw.bw_average_milli,
        r@[4].value == bw.msg_rate_milli,
{
    let mut names: Vec<&'static str> = Vec::new();
    names.push("msg_size");
    names.push("n_iterations");
    names.push("bw_peak");
    names.push("bw_average");
    names.push("msg_rate");
    proof {
        assert(names.deep_view() =~= spec_bw_names());
    }
    let mut values: Vec<u64> = Vec::new();
    values.push(bw.msg_size as u64);
    values.push(bw.n_iterations as u64);
    values.push(bw.bw_peak_milli);
    values.push(bw.bw_average_milli);
    values.push(bw.msg_rate_milli);
    let mut out: Vec<GaugeRow> = Vec::new();
    let ghost names_v = names.deep_view();
    let ghost values_v = values@;
    zip_rows(names, values, &mut out);
    proof {
        assert forall|j: int| 0 <= j < 5 implies (#[trigger] out@[j]).name@ == spec_bw_names()[j]
            && out@[j].value == values_v[j] by {
            assert(out@[0 + j].name@ == names_v[j]);
            assert(out@[0 + j].value == values_v[j]);
        }
    }
    out
}

} // verus!
