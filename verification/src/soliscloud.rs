//! One polling step for one device: from its raw detail to the readings that
//! go to the sink.

use vstd::prelude::*;
use vstd::string::*;
use crate::classify::{
    claimed, classifiable, first_fault, metric_views, opinionated, residual_of, stripped,
    ClassifyError, Metric, MetricView,
};
use crate::clock::wall_clock_millis;
use crate::config::Solis;
use crate::fallback::{entry_views, fallback_of, map_detail, sifted, EntryView, ZeroSuppressor};
use crate::numeric::{is_float_text, reads_as_number};
use crate::timestamp::{
    candidate_of, resolve_timestamp, resolved, timestamp_candidate, timestamp_field,
};
use crate::units::{Quantity, QuantityView, Scale};
use crate::value::{drop_named, FieldView, RawDetail};
use crate::vm::{label_views, FullName, FullNameView};

verus! {

/// The devices to poll, with the credential to poll them with.
#[derive(Debug)]
pub struct Service {
    config: Solis,
    inverter_ids: Vec<String>,
}

impl Service {
    /// The service for the devices `inverter_ids`.
    pub fn new(config: Solis, inverter_ids: Vec<String>) -> (r: Service)
        ensures
            r.config() == config,
            r.inverter_ids() == inverter_ids,
    {
        Service { config, inverter_ids }
    }

    /// The credential.
    pub closed spec fn config(&self) -> Solis {
        self.config
    }

    /// The ids of the devices, in the order in which they are polled.
    pub closed spec fn inverter_ids(&self) -> Vec<String> {
        self.inverter_ids
    }

    /// The credential.
    pub fn credential(&self) -> (r: &Solis)
        ensures
            *r == self.config(),
    {
        &self.config
    }

    /// The ids of the devices, in the order in which they are polled.
    pub fn ids(&self) -> (r: &Vec<String>)
        ensures
            *r == self.inverter_ids(),
    {
        &self.inverter_ids
    }
}

/// The name under which a claimed metric goes out.
pub open spec fn claimed_name(name: Seq<char>) -> Seq<char> {
    "soliscloud_"@ + name
}

/// The name under which a fallback entry goes out.
pub open spec fn raw_name(key: Seq<char>) -> Seq<char> {
    "soliscloud_raw_"@ + key
}

/// A claimed metric under the name it goes out with.
pub open spec fn as_claimed() -> spec_fn(MetricView) -> MetricView {
    |m: MetricView| MetricView { name: claimed_name(m.name), value: m.value }
}

/// A fallback entry as a metric, where its value reads as a number.
pub open spec fn as_raw() -> spec_fn(EntryView) -> Option<MetricView> {
    |e: EntryView|
        if is_float_text(e.value) {
            Some(
                MetricView {
                    name: raw_name(e.key),
                    value: QuantityView { literal: e.value, scale: Scale::One },
                },
            )
        } else {
            None
        }
}

/// The fallback entries of `detail` after the policy on zeros: all of them
/// where it is off.
pub open spec fn fallback_after_policy(
    detail: Seq<FieldView>,
    enabled: bool,
    seen: Set<Seq<char>>,
) -> Seq<EntryView> {
    let all = fallback_of(residual_of(stripped(detail)));
    if enabled {
        sifted(all, seen)
    } else {
        all
    }
}

/// The metrics of `detail`: the claimed ones, then the fallback entries whose
/// values read as numbers, each under the name it goes out with.
pub open spec fn mapped_with(detail: Seq<FieldView>, enabled: bool, seen: Set<Seq<char>>) -> Seq<
    MetricView,
> {
    claimed(stripped(detail)).map_values(as_claimed()) + fallback_after_policy(
        detail,
        enabled,
        seen,
    ).filter_map(as_raw())
}

/// The metrics of `detail`, with no policy on zeros.
pub open spec fn mapped(detail: Seq<FieldView>) -> Seq<MetricView> {
    mapped_with(detail, false, Set::empty())
}

/// The metrics of `detail`, under the policy on zeros that `zeros` holds.
///
/// The classifier's metrics come first, named `soliscloud_` and their
/// canonical name. Then come the fallback entries that the policy keeps and
/// whose values read as numbers, named `soliscloud_raw_` and their key, with
/// the value as it stands. An entry whose value does not read as a number is
/// left out.
pub fn map_with(detail: &RawDetail, zeros: &mut ZeroSuppressor) -> (r: Result<
    Vec<Metric>,
    ClassifyError,
>)
    ensures
        r is Ok <==> classifiable(stripped(detail@)),
        r matches Ok(metrics) ==> metric_views(metrics@) == mapped_with(
            detail@,
            old(zeros).enabled(),
            old(zeros).seen(),
        ),
        r matches Err(e) ==> first_fault(stripped(detail@)) == Some(e@),
        final(zeros).enabled() == old(zeros).enabled(),
        r is Err ==> final(zeros).seen() == old(zeros).seen(),
        r is Ok && !old(zeros).enabled() ==> final(zeros).seen() == old(zeros).seen(),
        r is Ok && old(zeros).enabled() ==> final(zeros).seen() == old(zeros).seen().union(
            crate::fallback::nonzero_keys(fallback_of(residual_of(stripped(detail@)))),
        ),
{
    let (good, rest) = match opinionated(detail) {
        Ok(out) => out,
        Err(e) => {
            return Err(e);
        },
    };
    let mut metrics: Vec<Metric> = Vec::new();
    let ghost goods = metric_views(good@);
    let mut i: usize = 0;
    while i < good.len()
        invariant
            i <= good.len(),
            goods == metric_views(good@),
            metric_views(metrics@) == goods.take(i as int).map_values(as_claimed()),
        decreases good.len() - i,
    {
        let mut name = String::from_str("soliscloud_");
        name.append(good[i].name.as_str());
        metrics.push(Metric { name, value: good[i].value.clone() });
        proof {
            assert(goods.take(i + 1).map_values(as_claimed()) =~= goods.take(i as int).map_values(
                as_claimed(),
            ).push(as_claimed()(goods[i as int])));
        }
        i = i + 1;
    }
    let ghost front = metric_views(metrics@);
    let entries = zeros.sift(map_detail(&rest));
    let ghost all = entry_views(entries@);
    let mut j: usize = 0;
    while j < entries.len()
        invariant
            j <= entries.len(),
            all == entry_views(entries@),
            metric_views(metrics@) == front + all.take(j as int).filter_map(as_raw()),
        decreases entries.len() - j,
    {
        let ghost before = metric_views(metrics@);
        proof {
            all.lemma_filter_map_take_succ(as_raw(), j as int);
        }
        if reads_as_number(entries[j].value.as_str()) {
            let mut name = String::from_str("soliscloud_raw_");
            name.append(entries[j].key.as_str());
            metrics.push(
                Metric {
                    name,
                    value: Quantity { literal: entries[j].value.clone(), scale: Scale::One },
                },
            );
            assert(metric_views(metrics@) =~= before.push(as_raw()(all[j as int])->0));
        }
        j = j + 1;
    }
    assert(all.take(j as int) =~= all);
    Ok(metrics)
}

/// The metrics of `detail`, with no policy on zeros.
pub fn map(detail: &RawDetail) -> (r: Result<Vec<Metric>, ClassifyError>)
    ensures
        r is Ok <==> classifiable(stripped(detail@)),
        r matches Ok(metrics) ==> metric_views(metrics@) == mapped(detail@),
        r matches Err(e) ==> first_fault(stripped(detail@)) == Some(e@),
{
    let mut zeros = ZeroSuppressor::off();
    map_with(detail, &mut zeros)
}

/// One reading of one device: the metric, its value, and the time it was
/// observed at.
#[derive(Debug, PartialEq, Eq)]
pub struct Reading {
    pub name: FullName,
    pub value: Quantity,
    pub timestamp: i64,
}

/// The labels of a device's metrics: its id.
pub open spec fn device_labels(id: Seq<char>) -> Seq<(Seq<char>, Seq<char>)> {
    seq![("id"@, id)]
}

/// The detail without its timestamp field.
pub open spec fn without_timestamp(detail: Seq<FieldView>) -> Seq<FieldView> {
    detail.filter_map(drop_named(timestamp_field()))
}

/// `readings` are the readings of the device `id` for `metrics`, all at the
/// time `time`: one for each metric, in order, labelled with the id.
pub open spec fn are_readings(
    readings: Seq<Reading>,
    metrics: Seq<MetricView>,
    id: Seq<char>,
    time: i64,
) -> bool {
    &&& readings.len() == metrics.len()
    &&& forall|i: int|
        0 <= i < readings.len() ==> {
            &&& (#[trigger] readings[i]).name@ == FullNameView {
                name: metrics[i].name,
                labels: device_labels(id),
            }
            &&& readings[i].value@ == metrics[i].value
            &&& readings[i].timestamp == time
        }
}

/// `r` is what observing the device `id` gives from `detail` with the clock
/// at `clock`, under the policy on zeros with `seen` seen so far.
pub open spec fn is_observation(
    r: Result<Vec<Reading>, ClassifyError>,
    id: Seq<char>,
    detail: Seq<FieldView>,
    clock: i64,
    enabled: bool,
    seen: Set<Seq<char>>,
) -> bool {
    match r {
        Ok(readings) => classifiable(stripped(without_timestamp(detail))) && are_readings(
            readings@,
            mapped_with(without_timestamp(detail), enabled, seen),
            id,
            resolved(candidate_of(detail), clock).timestamp(),
        ),
        Err(e) => first_fault(stripped(without_timestamp(detail))) == Some(e@),
    }
}

/// The readings of the device `id` from its raw detail, with the clock at
/// `clock` milliseconds since the start of 1970.
///
/// The time of every reading is the detail's own where it holds one that is
/// no more than ten minutes from the clock, else the clock's. The timestamp
/// field is then set aside, and the rest of the detail is mapped to metrics,
/// each labelled with the device's id.
pub fn observe(id: &str, detail: &RawDetail, clock: i64, zeros: &mut ZeroSuppressor) -> (r: Result<
    Vec<Reading>,
    ClassifyError,
>)
    ensures
        is_observation(r, id@, detail@, clock, old(zeros).enabled(), old(zeros).seen()),
        final(zeros).enabled() == old(zeros).enabled(),
{
    let time = resolve_timestamp(timestamp_candidate(detail), clock).millis();
    let rest = detail.without("dataTimestamp");
    let metrics = match map_with(&rest, zeros) {
        Ok(metrics) => metrics,
        Err(e) => {
            return Err(e);
        },
    };
    let ghost wanted = metric_views(metrics@);
    let mut readings: Vec<Reading> = Vec::new();
    let mut i: usize = 0;
    while i < metrics.len()
        invariant
            i <= metrics.len(),
            wanted == metric_views(metrics@),
            readings.len() == i,
            forall|k: int|
                0 <= k < i ==> {
                    &&& (#[trigger] readings[k]).name@ == FullNameView {
                        name: wanted[k].name,
                        labels: device_labels(id@),
                    }
                    &&& readings[k].value@ == wanted[k].value
                    &&& readings[k].timestamp == time
                },
        decreases metrics.len() - i,
    {
        let mut labels: Vec<(String, String)> = Vec::new();
        labels.push((String::from_str("id"), String::from_str(id)));
        proof {
            reveal_strlit("id");
            reveal_strlit("__name__");
            assert(label_views(labels@) =~= device_labels(id@));
            assert("id"@.len() == 2 && "__name__"@.len() == 8);
        }
        let name = FullName::new(metrics[i].name.clone(), labels);
        readings.push(Reading { name, value: metrics[i].value.clone(), timestamp: time });
        i = i + 1;
    }
    Ok(readings)
}

/// The readings of the device `id` from its raw detail, with the clock read
/// as it stands. Whatever the clock shows, what comes back is an observation
/// for some instant.
pub fn observe_now(id: &str, detail: &RawDetail, zeros: &mut ZeroSuppressor) -> (r: Result<
    Vec<Reading>,
    ClassifyError,
>)
    ensures
        exists|clock: i64| #[trigger]
            is_observation(r, id@, detail@, clock, old(zeros).enabled(), old(zeros).seen()),
        final(zeros).enabled() == old(zeros).enabled(),
{
    let clock = wall_clock_millis();
    let r = observe(id, detail, clock, zeros);
    r
}

} // verus!
