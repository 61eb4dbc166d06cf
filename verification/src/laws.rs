//! What holds of the classifier and the fallback mapper on every detail.

use vstd::prelude::*;
use crate::classify::{
    claimed, classifiable, classified, keep_signal, lemma_classifiable,
    lemma_residual_names_differ, outcome_view, residual_field, residual_of, residual_step,
    rule_metric, rule_step, soc_applies, soc_field, soc_metric, stripped, ClassifyError, Metric,
    MetricView,
};
use crate::decimal::decimal;
use crate::fallback::{fallback_entry, fallback_of, fallback_step, is_fallback_value, EntryView};
use crate::noise::{is_channel_duplicate, is_channel_of, is_noise, is_secret, lemma_index_text};
use crate::numeric::is_float_text;
use crate::pairing::{
    base_of_unit, is_pair_unit, is_pair_value, lemma_unit_base, lemma_value_or_unit,
};
use crate::rules::{is_ruled, table_rows};
use crate::soliscloud::{as_claimed, as_raw, fallback_after_policy, mapped_with};
use crate::text::has_suffix;
use crate::value::{
    distinct_names, has_name, lemma_place_of, place_of, value_of, FieldView, RawDetail,
};

verus! {

/// Where the items of a filtered and mapped sequence come from: the place of
/// each in the sequence it was made of. The places rise, and every item that
/// was kept has its place among them.
pub proof fn lemma_filter_map_sources<A, B>(s: Seq<A>, f: spec_fn(A) -> Option<B>) -> (src: Seq<
    int,
>)
    ensures
        src.len() == s.filter_map(f).len(),
        forall|j: int|
            0 <= j < src.len() ==> 0 <= #[trigger] src[j] < s.len() && f(s[src[j]]) == Some(
                s.filter_map(f)[j],
            ),
        forall|j: int, k: int| 0 <= j < k < src.len() ==> #[trigger] src[j] < #[trigger] src[k],
        forall|i: int|
            0 <= i < s.len() && (#[trigger] f(s[i])) is Some ==> exists|j: int|
                0 <= j < src.len() && #[trigger] src[j] == i,
    decreases s.len(),
{
    if s.len() == 0 {
        Seq::empty()
    } else {
        let rest = s.drop_last();
        let r = lemma_filter_map_sources(rest, f);
        let last = s.len() - 1;
        match f(s.last()) {
            Some(b) => {
                let src = r.push(last);
                assert forall|j: int| 0 <= j < src.len() implies 0 <= #[trigger] src[j] < s.len()
                    && f(s[src[j]]) == Some(s.filter_map(f)[j]) by {
                }
                assert forall|j: int, k: int| 0 <= j < k < src.len() implies #[trigger] src[j]
                    < #[trigger] src[k] by {
                }
                assert forall|i: int| 0 <= i < s.len() && (#[trigger] f(s[i])) is Some implies exists|
                    j: int,
                | 0 <= j < src.len() && #[trigger] src[j] == i by {
                    if i < last {
                        assert(f(rest[i]) is Some);
                        let j = choose|j: int| 0 <= j < r.len() && #[trigger] r[j] == i;
                        assert(src[j] == i);
                    } else {
                        assert(src[r.len() as int] == i);
                    }
                }
                src
            },
            None => {
                assert forall|j: int| 0 <= j < r.len() implies 0 <= #[trigger] r[j] < s.len() && f(
                    s[r[j]],
                ) == Some(s.filter_map(f)[j]) by {
                }
                assert forall|i: int| 0 <= i < s.len() && (#[trigger] f(s[i])) is Some implies exists|
                    j: int,
                | 0 <= j < r.len() && #[trigger] r[j] == i by {
                    assert(f(rest[i]) is Some);
                }
                r
            },
        }
    }
}

/// The detail without its noise holds the fields of the detail that are no
/// noise, and no others, each with its value; and their names are distinct.
pub proof fn lemma_stripped(detail: Seq<FieldView>)
    requires
        distinct_names(detail),
    ensures
        distinct_names(stripped(detail)),
        forall|i: int|
            0 <= i < stripped(detail).len() ==> !is_noise((#[trigger] stripped(detail)[i]).name)
                && has_name(detail, stripped(detail)[i].name) && value_of(
                detail,
                stripped(detail)[i].name,
            ) == stripped(detail)[i].value,
        forall|i: int|
            0 <= i < detail.len() && !is_noise((#[trigger] detail[i]).name) ==> has_name(
                stripped(detail),
                detail[i].name,
            ) && value_of(stripped(detail), detail[i].name) == detail[i].value,
{
    let w = stripped(detail);
    let src = lemma_filter_map_sources(detail, keep_signal());
    assert forall|a: int, b: int| 0 <= a < b < w.len() implies (#[trigger] w[a]).name != (
    #[trigger] w[b]).name by {
        assert(detail[src[a]].name != detail[src[b]].name);
    }
    assert forall|i: int| 0 <= i < w.len() implies !is_noise((#[trigger] w[i]).name) && has_name(
        detail,
        w[i].name,
    ) && value_of(detail, w[i].name) == w[i].value by {
        lemma_place_of(detail, src[i]);
    }
    assert forall|i: int| 0 <= i < detail.len() && !is_noise((#[trigger] detail[i]).name) implies has_name(
        w,
        detail[i].name,
    ) && value_of(w, detail[i].name) == detail[i].value by {
        assert(keep_signal()(detail[i]) is Some);
        let j = choose|j: int| 0 <= j < src.len() && #[trigger] src[j] == i;
        lemma_place_of(w, j);
    }
}

/// What the classifier hands on has distinct names, and holds what becomes of
/// each field that is handed on.
pub proof fn lemma_residual(w: Seq<FieldView>)
    requires
        distinct_names(w),
    ensures
        distinct_names(residual_of(w)),
        forall|i: int|
            0 <= i < w.len() && (#[trigger] residual_field(w, w[i])) is Some ==> residual_of(
                w,
            ).contains(residual_field(w, w[i])->0),
        forall|j: int|
            0 <= j < residual_of(w).len() ==> exists|i: int|
                0 <= i < w.len() && #[trigger] residual_field(w, w[i]) == Some(
                    #[trigger] residual_of(w)[j],
                ),
{
    let r = residual_of(w);
    let src = lemma_filter_map_sources(w, residual_step(w));
    assert forall|a: int, b: int| 0 <= a < b < r.len() implies (#[trigger] r[a]).name != (
    #[trigger] r[b]).name by {
        lemma_residual_names_differ(w, src[a], src[b]);
    }
    assert forall|i: int| 0 <= i < w.len() && (#[trigger] residual_field(w, w[i])) is Some implies r.contains(
        residual_field(w, w[i])->0,
    ) by {
        assert(residual_step(w)(w[i]) is Some);
    }
    assert forall|j: int| 0 <= j < r.len() implies exists|i: int|
        0 <= i < w.len() && #[trigger] residual_field(w, w[i]) == Some(#[trigger] r[j]) by {
        assert(residual_field(w, w[src[j]]) == Some(r[j]));
    }
}


/// A name with `Str` behind it is noise only where the name is.
pub proof fn lemma_unit_name_of_signal(base: Seq<char>)
    ensures
        is_noise(base + "Str"@) ==> is_noise(base),
{
    reveal_strlit("Str");
    reveal_strlit("sn");
    reveal_strlit("sno");
    reveal_strlit("userId");
    let unit = "Str"@;
    let name = base + unit;
    let n = name.len() as int;
    if is_secret(name) {
        if name == "sno"@ {
            assert(name[0] == 'S');
        }
        if name == "userId"@ {
            assert(name[3] == 'S');
        }
    }
    lemma_unit_name_of_channel(base, "iPv"@);
    lemma_unit_name_of_channel(base, "mpptIpv"@);
    lemma_unit_name_of_channel(base, "mpptPow"@);
    lemma_unit_name_of_channel(base, "mpptUpv"@);
    lemma_unit_name_of_channel(base, "pow"@);
    lemma_unit_name_of_channel(base, "uPv"@);
}

/// A name with `Str` behind it is an indexed channel of `prefix` only where
/// the name is.
pub proof fn lemma_unit_name_of_channel(base: Seq<char>, prefix: Seq<char>)
    ensures
        is_channel_of(base + "Str"@, prefix) ==> is_channel_of(base, prefix),
{
    reveal_strlit("Str");
    let unit = "Str"@;
    let name = base + unit;
    let n = name.len() as int;
    if is_channel_of(name, prefix) {
        let i = choose|i: int|
            1 <= i <= 39 && (name == prefix + #[trigger] decimal(i as nat) || name == prefix
                + decimal(i as nat) + unit);
        let d = decimal(i as nat);
        lemma_index_text(i);
        if name == prefix + d {
            assert((prefix + d)[n - 1] == d[d.len() - 1]);
        } else {
            let m = prefix + d;
            assert((m + unit).subrange(0, n - 3) =~= m);
            assert(base == m);
        }
    }
}

/// Noise reaches neither the classifier nor the fallback mapper: a name that
/// is noise is the name of no field that the classifier works on, and of no
/// field that it hands on.
pub proof fn lemma_noise_reaches_no_output(detail: Seq<FieldView>, name: Seq<char>)
    requires
        distinct_names(detail),
        is_noise(name),
    ensures
        !has_name(stripped(detail), name),
        !has_name(residual_of(stripped(detail)), name),
{
    let w = stripped(detail);
    let r = residual_of(w);
    lemma_stripped(detail);
    lemma_residual(w);
    if has_name(r, name) {
        let j = place_of(r, name);
        let i = choose|i: int| 0 <= i < w.len() && #[trigger] residual_field(w, w[i]) == Some(r[j]);
        if !is_pair_value(w, w[i].name) && is_pair_unit(w, w[i].name) {
            let base = base_of_unit(w[i].name);
            lemma_unit_base(w, w[i].name);
            lemma_unit_name_of_signal(base);
        }
    }
}

/// The duplicate channels of a multi-input device never reach an output:
/// a field such as `iPv1` or `mpptPow3Str`, with an index from 1 to 39, is
/// not among the fields that the classifier works on, and not among those
/// that it hands on to the fallback mapper.
pub proof fn duplicate_channels_reach_no_output(detail: Seq<FieldView>, name: Seq<char>)
    requires
        distinct_names(detail),
        is_channel_duplicate(name),
    ensures
        !has_name(stripped(detail), name),
        !has_name(residual_of(stripped(detail)), name),
{
    lemma_noise_reaches_no_output(detail, name);
}

/// The fields that identify the device or its owner never reach an output:
/// `sn`, `sno` and `userId` are not among the fields that the classifier
/// works on, and not among those that it hands on to the fallback mapper.
pub proof fn secrets_reach_no_output(detail: Seq<FieldView>, name: Seq<char>)
    requires
        distinct_names(detail),
        is_secret(name),
    ensures
        !has_name(stripped(detail), name),
        !has_name(residual_of(stripped(detail)), name),
{
    lemma_noise_reaches_no_output(detail, name);
}

/// Every claimed metric is made of a field that the classifier works on: by a
/// rule of the table from the value of a pair, or from the state of charge.
pub proof fn claimed_metrics_come_from_fields(w: Seq<FieldView>, metric: MetricView)
    requires
        claimed(w).contains(metric),
    ensures
        (exists|j: int|
            0 <= j < table_rows().len() && is_pair_value(w, (#[trigger] table_rows()[j]).source)
                && has_name(w, table_rows()[j].source) && rule_metric(w, table_rows()[j]) == Some(
                metric,
            )) || (soc_applies(w) && has_name(w, soc_field()) && soc_metric(w) == seq![metric]),
{
    let ruled = table_rows().filter_map(rule_step(w));
    let k = choose|k: int| 0 <= k < claimed(w).len() && claimed(w)[k] == metric;
    if k < ruled.len() {
        let src = lemma_filter_map_sources(table_rows(), rule_step(w));
        assert(rule_metric(w, table_rows()[src[k]]) == Some(metric));
    }
}

/// Every entry of the fallback mapper is made of a field that was handed to
/// it.
pub proof fn fallback_entries_come_from_fields(r: Seq<FieldView>, entry: EntryView)
    requires
        fallback_of(r).contains(entry),
    ensures
        exists|i: int| 0 <= i < r.len() && #[trigger] fallback_entry(r, r[i]) == Some(entry),
{
    let src = lemma_filter_map_sources(r, fallback_step(r));
    let k = choose|k: int| 0 <= k < fallback_of(r).len() && fallback_of(r)[k] == entry;
    assert(fallback_entry(r, r[src[k]]) == Some(entry));
}

/// The field called `name` is claimed by the classifier: as the value or the
/// unit of a pair that a rule is about, or as the state of charge.
pub open spec fn is_claimed(w: Seq<FieldView>, name: Seq<char>) -> bool {
    ||| is_pair_value(w, name) && is_ruled(name)
    ||| is_pair_unit(w, name) && is_ruled(base_of_unit(name))
    ||| name == soc_field() && soc_applies(w)
}

/// The state of charge is the unit of no pair.
pub proof fn lemma_soc_is_no_unit(w: Seq<FieldView>)
    ensures
        !is_pair_unit(w, soc_field()),
{
    reveal_strlit("batteryCapacitySoc");
    reveal_strlit("Str");
    reveal_strlit("Unit");
    let name = soc_field();
    let n = name.len() as int;
    if has_suffix(name, "Str"@) {
        assert(name.subrange(n - 3, n)[2] == name[n - 1]);
    }
    if has_suffix(name, "Unit"@) {
        assert(name.subrange(n - 4, n)[3] == name[n - 1]);
    }
}

/// Every field of a detail goes one way, and one way only: it is dropped as
/// noise, or claimed by the classifier, or handed on to the fallback mapper.
/// A field that is handed on is among what the classifier hands on.
pub proof fn every_field_goes_one_way(detail: Seq<FieldView>, i: int)
    requires
        distinct_names(detail),
        0 <= i < detail.len(),
    ensures
        ({
            let name = detail[i].name;
            let w = stripped(detail);
            let dropped = is_noise(name);
            let claimed = !is_noise(name) && is_claimed(w, name);
            let handed_on = !is_noise(name) && residual_field(w, detail[i]) is Some;
            &&& dropped || claimed || handed_on
            &&& !(dropped && claimed) && !(dropped && handed_on) && !(claimed && handed_on)
            &&& !dropped ==> has_name(w, name) && value_of(w, name) == detail[i].value
            &&& handed_on ==> residual_of(w).contains(residual_field(w, detail[i])->0)
        }),
{
    let name = detail[i].name;
    let w = stripped(detail);
    lemma_stripped(detail);
    lemma_residual(w);
    lemma_value_or_unit(w, name);
    lemma_soc_is_no_unit(w);
    if !is_noise(name) {
        let k = place_of(w, name);
        lemma_place_of(w, k);
    }
}

/// A claimed field is not lost: where the detail can be classified, the
/// metric of the rule that claims it, or the state of charge, is among the
/// claimed metrics.
pub proof fn claimed_fields_give_metrics(w: Seq<FieldView>, name: Seq<char>)
    requires
        distinct_names(w),
        classifiable(w),
        is_claimed(w, name),
    ensures
        name == soc_field() && soc_applies(w) ==> claimed(w).contains(soc_metric(w)[0]),
        is_pair_value(w, name) && is_ruled(name) ==> exists|j: int|
            0 <= j < table_rows().len() && (#[trigger] table_rows()[j]).source == name
                && rule_metric(w, table_rows()[j]) is Some && claimed(w).contains(
                rule_metric(w, table_rows()[j])->0,
            ),
        is_pair_unit(w, name) && is_ruled(base_of_unit(name)) ==> exists|j: int|
            0 <= j < table_rows().len() && (#[trigger] table_rows()[j]).source == base_of_unit(name)
                && rule_metric(w, table_rows()[j]) is Some && claimed(w).contains(
                rule_metric(w, table_rows()[j])->0,
            ),
{
    lemma_classifiable(w);
    let ruled = table_rows().filter_map(rule_step(w));
    if name == soc_field() && soc_applies(w) {
        assert(claimed(w)[ruled.len() as int] == soc_metric(w)[0]);
    }
    if is_pair_value(w, name) && is_ruled(name) {
        lemma_rule_gives_metric(w, name);
    }
    if is_pair_unit(w, name) && is_ruled(base_of_unit(name)) {
        lemma_unit_base(w, name);
        lemma_rule_gives_metric(w, base_of_unit(name));
    }
}

/// Where the detail can be classified, a rule about the value of a pair gives
/// a metric, and the metric is among the claimed ones.
pub proof fn lemma_rule_gives_metric(w: Seq<FieldView>, source: Seq<char>)
    requires
        distinct_names(w),
        classifiable(w),
        is_pair_value(w, source),
        is_ruled(source),
    ensures
        exists|j: int|
            0 <= j < table_rows().len() && (#[trigger] table_rows()[j]).source == source
                && rule_metric(w, table_rows()[j]) is Some && claimed(w).contains(
                rule_metric(w, table_rows()[j])->0,
            ),
{
    lemma_classifiable(w);
    let ruled = table_rows().filter_map(rule_step(w));
    let src = lemma_filter_map_sources(table_rows(), rule_step(w));
    let j = choose|j: int| 0 <= j < table_rows().len() && (#[trigger] table_rows()[j]).source == source;
    assert(rule_step(w)(table_rows()[j]) is Some);
    let k = choose|k: int| 0 <= k < src.len() && #[trigger] src[k] == j;
    assert(claimed(w)[k] == ruled[k]);
}

/// A field that is handed on is not lost: the fallback mapper makes an entry
/// of it. A unit gives the entry of its value, a value with a unit is in the
/// entry that its unit gives, and any other field gives an entry of its own.
pub proof fn handed_on_fields_give_entries(r: Seq<FieldView>, i: int)
    requires
        distinct_names(r),
        0 <= i < r.len(),
    ensures
        !is_fallback_value(r, r[i].name) ==> fallback_entry(r, r[i]) is Some && fallback_of(
            r,
        ).contains(fallback_entry(r, r[i])->0),
        is_fallback_value(r, r[i].name) ==> has_name(r, r[i].name + "Str"@) && fallback_entry(
            r,
            r[place_of(r, r[i].name + "Str"@)],
        ) is Some && fallback_of(r).contains(
            fallback_entry(r, r[place_of(r, r[i].name + "Str"@)])->0,
        ),
{
    reveal_strlit("Str");
    let src = lemma_filter_map_sources(r, fallback_step(r));
    let name = r[i].name;
    if is_fallback_value(r, name) {
        let unit = name + "Str"@;
        let u = place_of(r, unit);
        assert(fallback_step(r)(r[u]) is Some);
    } else {
        assert(fallback_step(r)(r[i]) is Some);
    }
}

/// The literal of every claimed metric reads as a number.
pub proof fn lemma_claimed_quantities(w: Seq<FieldView>, metric: MetricView)
    requires
        distinct_names(w),
        classifiable(w),
        claimed(w).contains(metric),
    ensures
        is_float_text(metric.value.literal),
{
    lemma_classifiable(w);
    claimed_metrics_come_from_fields(w, metric);
    if soc_applies(w) && soc_metric(w) == seq![metric] {
        assert(soc_metric(w)[0] == metric);
    }
}

/// Every quantity that comes out for a detail can be evaluated: its literal
/// reads as a number.
pub proof fn quantities_read_as_numbers(
    detail: Seq<FieldView>,
    enabled: bool,
    seen: Set<Seq<char>>,
    i: int,
)
    requires
        distinct_names(detail),
        classifiable(stripped(detail)),
        0 <= i < mapped_with(detail, enabled, seen).len(),
    ensures
        is_float_text(mapped_with(detail, enabled, seen)[i].value.literal),
{
    let w = stripped(detail);
    let front = claimed(w).map_values(as_claimed());
    let entries = fallback_after_policy(detail, enabled, seen);
    let back = entries.filter_map(as_raw());
    if i < front.len() {
        let m = claimed(w)[i];
        lemma_stripped(detail);
        lemma_claimed_quantities(w, m);
    } else {
        let src = lemma_filter_map_sources(entries, as_raw());
        let j = i - front.len();
        assert(as_raw()(entries[src[j]]) == Some(back[j]));
    }
}

/// Classification is a function of the detail: whatever two runs of the
/// classifier give on one detail, they give the same.
pub proof fn classification_is_repeatable(
    detail: RawDetail,
    first: Result<(Vec<Metric>, RawDetail), ClassifyError>,
    second: Result<(Vec<Metric>, RawDetail), ClassifyError>,
)
    requires
        outcome_view(first) == classified(stripped(detail@)),
        outcome_view(second) == classified(stripped(detail@)),
    ensures
        outcome_view(first) == outcome_view(second),
{
}

} // verus!
