//! The classifier: it takes the known metrics out of a raw detail, each
//! brought to its base unit, and hands on what it did not claim.

use vstd::prelude::*;
use vstd::string::*;
use crate::noise::{is_noise, is_noise_name};
use crate::numeric::{is_float_text, reads_as_number};
use crate::pairing::{
    base_of_unit, companion_of, is_pair_unit, is_pair_value, lemma_unit_base, pairs_as_unit,
    pairs_as_value, unit_of,
};
use crate::rules::{find_rule, is_ruled, rule_table, rule_views, table_rows, Family, Rule, RuleView};
use crate::text::{drop_suffix, ends_with, joined, same_text};
use crate::units::{
    denotes_celsius, energy_scale, energy_scale_of, is_celsius, power_scale, power_scale_of,
    Quantity, QuantityView, Scale,
};
use crate::value::{
    distinct_names, field_views, has_name, lemma_place_of, literal_of, place_of, text_in,
    value_of, Field, FieldView, RawDetail, Scalar, ScalarView,
};

verus! {

/// A metric that the classifier claimed: its canonical name and its value in
/// the base unit.
#[derive(Debug, PartialEq, Eq)]
pub struct Metric {
    pub name: String,
    pub value: Quantity,
}

/// What a [`Metric`] holds.
pub struct MetricView {
    pub name: Seq<char>,
    pub value: QuantityView,
}

impl View for Metric {
    type V = MetricView;

    open spec fn view(&self) -> MetricView {
        MetricView { name: self.name@, value: self.value@ }
    }
}

/// The views of a run of metrics.
pub open spec fn metric_views(metrics: Seq<Metric>) -> Seq<MetricView> {
    metrics.map_values(|m: Metric| m@)
}

/// Why a detail cannot be classified.
#[derive(Debug, PartialEq, Eq)]
pub enum ClassifyError {
    /// The field is the value of a pair, or the state of charge, and holds
    /// no number: it is held as something else, or its literal does not
    /// read as a number.
    NotANumber { field: String },
    /// The field is the value of a pair whose unit is no string.
    UnitNotText { field: String },
    /// The field is a known energy or power, and the table of its family
    /// does not hold its unit.
    UnknownUnit { field: String, unit: String },
    /// The unit of the inverter's temperature does not denote Celsius.
    NotCelsius { unit: String },
}

/// What a [`ClassifyError`] holds.
pub enum ClassifyErrorView {
    NotANumber { field: Seq<char> },
    UnitNotText { field: Seq<char> },
    UnknownUnit { field: Seq<char>, unit: Seq<char> },
    NotCelsius { unit: Seq<char> },
}

impl View for ClassifyError {
    type V = ClassifyErrorView;

    open spec fn view(&self) -> ClassifyErrorView {
        match self {
            ClassifyError::NotANumber { field } => ClassifyErrorView::NotANumber { field: field@ },
            ClassifyError::UnitNotText { field } => ClassifyErrorView::UnitNotText {
                field: field@,
            },
            ClassifyError::UnknownUnit { field, unit } => ClassifyErrorView::UnknownUnit {
                field: field@,
                unit: unit@,
            },
            ClassifyError::NotCelsius { unit } => ClassifyErrorView::NotCelsius { unit: unit@ },
        }
    }
}

/// The field of the battery's state of charge.
pub open spec fn soc_field() -> Seq<char> {
    "batteryCapacitySoc"@
}

/// The canonical name of the battery's state of charge.
pub open spec fn soc_name() -> Seq<char> {
    "battery_soc"@
}

/// Keeps a field unless it is noise.
pub open spec fn keep_signal() -> spec_fn(FieldView) -> Option<FieldView> {
    |f: FieldView|
        if is_noise(f.name) {
            None
        } else {
            Some(f)
        }
}

/// The detail without its noise: what the classifier works on.
pub open spec fn stripped(detail: Seq<FieldView>) -> Seq<FieldView> {
    detail.filter_map(keep_signal())
}

/// The scale that a rule of `family` reads from `unit`.
pub open spec fn rule_scale(family: Family, unit: Seq<char>) -> Option<Scale> {
    match family {
        Family::Energy => energy_scale(unit),
        Family::Power => power_scale(unit),
        Family::Temperature => if denotes_celsius(unit) {
            Some(Scale::One)
        } else {
            None
        },
    }
}

/// The value is a number: it is held as one, and its literal reads as one.
pub open spec fn holds_number(v: ScalarView) -> bool {
    v is Number && is_float_text(literal_of(v))
}

/// Every pair of `w` holds a number with a string for its unit.
pub open spec fn pairs_well_typed(w: Seq<FieldView>) -> bool {
    forall|name: Seq<char>| #[trigger]
        is_pair_value(w, name) ==> holds_number(value_of(w, name)) && unit_of(w, name) is Text
}

/// The rule can be applied to `w`: where its field is the value of a pair,
/// the unit of the pair is one that the rule's family reads.
pub open spec fn rule_ok(w: Seq<FieldView>, rule: RuleView) -> bool {
    is_pair_value(w, rule.source) ==> rule_scale(
        rule.family,
        text_in(unit_of(w, rule.source)),
    ) is Some
}

/// The state of charge is taken from `w`: the field is there and belongs to
/// no pair.
pub open spec fn soc_applies(w: Seq<FieldView>) -> bool {
    has_name(w, soc_field()) && !is_pair_value(w, soc_field())
}

/// What is wrong with the field at place `i` of `w` as the value of a pair:
/// it holds no number, or its unit is no string.
pub open spec fn pair_fault(w: Seq<FieldView>, i: int) -> Option<ClassifyErrorView> {
    let name = w[i].name;
    if is_pair_value(w, name) {
        if !holds_number(w[i].value) {
            Some(ClassifyErrorView::NotANumber { field: name })
        } else if !(unit_of(w, name) is Text) {
            Some(ClassifyErrorView::UnitNotText { field: name })
        } else {
            None
        }
    } else {
        None
    }
}

/// What is wrong with `w` under `rule`: the rule's field is the value of a
/// pair, and the rule's family does not read the unit.
pub open spec fn rule_fault(w: Seq<FieldView>, rule: RuleView) -> Option<ClassifyErrorView> {
    let unit = text_in(unit_of(w, rule.source));
    if is_pair_value(w, rule.source) && rule_scale(rule.family, unit) is None {
        Some(
            match rule.family {
                Family::Temperature => ClassifyErrorView::NotCelsius { unit },
                _ => ClassifyErrorView::UnknownUnit { field: rule.source, unit },
            },
        )
    } else {
        None
    }
}

/// What is wrong with the state of charge of `w`: it is taken, and is no
/// number.
pub open spec fn soc_fault(w: Seq<FieldView>) -> Option<ClassifyErrorView> {
    if soc_applies(w) && !holds_number(value_of(w, soc_field())) {
        Some(ClassifyErrorView::NotANumber { field: soc_field() })
    } else {
        None
    }
}

/// The field at place `i` is the first of `w` with a fault as the value of a
/// pair.
pub open spec fn is_first_pair_fault(w: Seq<FieldView>, i: int) -> bool {
    &&& 0 <= i < w.len()
    &&& pair_fault(w, i) is Some
    &&& forall|k: int| 0 <= k < i ==> (#[trigger] pair_fault(w, k)) is None
}

/// The rule at place `j` of the table is the first under which `w` has a
/// fault.
pub open spec fn is_first_rule_fault(w: Seq<FieldView>, j: int) -> bool {
    &&& 0 <= j < table_rows().len()
    &&& rule_fault(w, table_rows()[j]) is Some
    &&& forall|k: int| 0 <= k < j ==> rule_fault(w, #[trigger] table_rows()[k]) is None
}

/// The fault that stops the classification of `w`, if there is one: the first
/// fault of a pair, in the order of the fields; else the first fault under a
/// rule, in the order of the table; else that of the state of charge.
pub open spec fn first_fault(w: Seq<FieldView>) -> Option<ClassifyErrorView> {
    if exists|i: int| is_first_pair_fault(w, i) {
        pair_fault(w, choose|i: int| is_first_pair_fault(w, i))
    } else if exists|j: int| is_first_rule_fault(w, j) {
        rule_fault(w, table_rows()[choose|j: int| is_first_rule_fault(w, j)])
    } else {
        soc_fault(w)
    }
}

/// `w` can be classified: nothing is wrong with it.
pub open spec fn classifiable(w: Seq<FieldView>) -> bool {
    first_fault(w) is None
}

/// The first fault of a pair is the fault of the one field that has it.
pub proof fn lemma_first_pair_fault(w: Seq<FieldView>, i: int)
    requires
        is_first_pair_fault(w, i),
    ensures
        first_fault(w) == pair_fault(w, i),
{
}

/// Where no pair has a fault, the first fault under a rule is the fault
/// under the one rule that has it.
pub proof fn lemma_first_rule_fault(w: Seq<FieldView>, j: int)
    requires
        forall|i: int| 0 <= i < w.len() ==> (#[trigger] pair_fault(w, i)) is None,
        is_first_rule_fault(w, j),
    ensures
        first_fault(w) == rule_fault(w, table_rows()[j]),
{
}

/// Where no pair has a fault and there is none under any rule, the only
/// fault left is that of the state of charge.
pub proof fn lemma_last_fault(w: Seq<FieldView>)
    requires
        forall|i: int| 0 <= i < w.len() ==> (#[trigger] pair_fault(w, i)) is None,
        forall|j: int| 0 <= j < table_rows().len() ==> rule_fault(w, #[trigger] table_rows()[j]) is None,
    ensures
        first_fault(w) == soc_fault(w),
{
}

/// Where the fields of `w` have no fault as values of pairs, every pair of
/// `w` is well typed.
pub proof fn lemma_pairs_well_typed(w: Seq<FieldView>)
    requires
        distinct_names(w),
        forall|i: int| 0 <= i < w.len() ==> (#[trigger] pair_fault(w, i)) is None,
    ensures
        pairs_well_typed(w),
{
    assert forall|name: Seq<char>| #[trigger] is_pair_value(w, name) implies holds_number(
        value_of(w, name),
    ) && unit_of(w, name) is Text by {
        let k = place_of(w, name);
        lemma_place_of(w, k);
        assert(pair_fault(w, k) is None);
    }
}

/// A detail that can be classified has well-typed pairs, a unit that can be
/// read under every rule that applies, and a number for its state of
/// charge where that is taken.
pub proof fn lemma_classifiable(w: Seq<FieldView>)
    requires
        distinct_names(w),
        classifiable(w),
    ensures
        pairs_well_typed(w),
        forall|j: int| 0 <= j < table_rows().len() ==> rule_ok(w, #[trigger] table_rows()[j]),
        soc_applies(w) ==> holds_number(value_of(w, soc_field())),
{
    if exists|i: int| 0 <= i < w.len() && pair_fault(w, i) is Some {
        let i = lemma_least_pair_fault(w, w.len() as int);
        lemma_first_pair_fault(w, i);
    }
    assert forall|i: int| 0 <= i < w.len() implies (#[trigger] pair_fault(w, i)) is None by {}
    lemma_pairs_well_typed(w);
    if exists|j: int| 0 <= j < table_rows().len() && rule_fault(w, table_rows()[j]) is Some {
        let j = lemma_least_rule_fault(w, table_rows().len() as int);
        lemma_first_rule_fault(w, j);
    }
    assert forall|j: int| 0 <= j < table_rows().len() implies rule_ok(
        w,
        #[trigger] table_rows()[j],
    ) by {
    }
    lemma_last_fault(w);
}

/// Among the first `n` fields of `w`, where one has a fault as the value of a
/// pair, one is the first to have it.
pub proof fn lemma_least_pair_fault(w: Seq<FieldView>, n: int) -> (i: int)
    requires
        0 <= n <= w.len(),
        exists|i: int| 0 <= i < n && pair_fault(w, i) is Some,
    ensures
        is_first_pair_fault(w, i),
        i < n,
    decreases n,
{
    if exists|i: int| 0 <= i < n - 1 && pair_fault(w, i) is Some {
        lemma_least_pair_fault(w, n - 1)
    } else {
        n - 1
    }
}

/// Among the first `n` rules of the table, where `w` has a fault under one,
/// one is the first under which it has.
pub proof fn lemma_least_rule_fault(w: Seq<FieldView>, n: int) -> (j: int)
    requires
        0 <= n <= table_rows().len(),
        exists|j: int| 0 <= j < n && rule_fault(w, table_rows()[j]) is Some,
    ensures
        is_first_rule_fault(w, j),
        j < n,
    decreases n,
{
    if exists|j: int| 0 <= j < n - 1 && rule_fault(w, table_rows()[j]) is Some {
        lemma_least_rule_fault(w, n - 1)
    } else {
        n - 1
    }
}

/// The outcome of the classification of `w`: the claimed metrics and what is
/// handed on, or the fault that stops it.
pub open spec fn classified(w: Seq<FieldView>) -> Result<
    (Seq<MetricView>, Seq<FieldView>),
    ClassifyErrorView,
> {
    match first_fault(w) {
        Some(e) => Err(e),
        None => Ok((claimed(w), residual_of(w))),
    }
}

/// The metric that `rule` claims from `w`, if its field is the value of a
/// pair.
pub open spec fn rule_metric(w: Seq<FieldView>, rule: RuleView) -> Option<MetricView> {
    if is_pair_value(w, rule.source) {
        match rule_scale(rule.family, text_in(unit_of(w, rule.source))) {
            Some(scale) => Some(
                MetricView {
                    name: rule.name,
                    value: QuantityView { literal: literal_of(value_of(w, rule.source)), scale },
                },
            ),
            None => None,
        }
    } else {
        None
    }
}

/// Applies one rule to `w`.
pub open spec fn rule_step(w: Seq<FieldView>) -> spec_fn(RuleView) -> Option<MetricView> {
    |rule: RuleView| rule_metric(w, rule)
}

/// The state of charge of `w` as a metric, where it is taken: the number as
/// it is.
pub open spec fn soc_metric(w: Seq<FieldView>) -> Seq<MetricView> {
    if soc_applies(w) {
        seq![
            MetricView {
                name: soc_name(),
                value: QuantityView {
                    literal: literal_of(value_of(w, soc_field())),
                    scale: Scale::One,
                },
            },
        ]
    } else {
        Seq::empty()
    }
}

/// The metrics claimed from `w`: one for each rule whose field is the value
/// of a pair, in the order of the table, then the state of charge.
pub open spec fn claimed(w: Seq<FieldView>) -> Seq<MetricView> {
    table_rows().filter_map(rule_step(w)) + soc_metric(w)
}

/// What becomes of one field of `w` that is not claimed: the value of a pair
/// without a rule stays, and so does its unit, under the name of the value
/// with `Str` behind it; a field of no pair stays as it is.
pub open spec fn residual_field(w: Seq<FieldView>, f: FieldView) -> Option<FieldView> {
    if is_pair_value(w, f.name) {
        if is_ruled(f.name) {
            None
        } else {
            Some(f)
        }
    } else if is_pair_unit(w, f.name) {
        if is_ruled(base_of_unit(f.name)) {
            None
        } else {
            Some(FieldView { name: base_of_unit(f.name) + "Str"@, value: f.value })
        }
    } else if f.name == soc_field() {
        None
    } else {
        Some(f)
    }
}

/// Hands one field of `w` on, or not.
pub open spec fn residual_step(w: Seq<FieldView>) -> spec_fn(FieldView) -> Option<FieldView> {
    |f: FieldView| residual_field(w, f)
}

/// What the classifier hands on from `w`: the fields it did not claim, in
/// their order.
pub open spec fn residual_of(w: Seq<FieldView>) -> Seq<FieldView> {
    w.filter_map(residual_step(w))
}

/// Two fields of `w` that are handed on are handed on under different names.
pub proof fn lemma_residual_names_differ(w: Seq<FieldView>, a: int, b: int)
    requires
        distinct_names(w),
        0 <= a < w.len(),
        0 <= b < w.len(),
        a != b,
        residual_field(w, w[a]) is Some,
        residual_field(w, w[b]) is Some,
    ensures
        residual_field(w, w[a])->0.name != residual_field(w, w[b])->0.name,
{
    reveal_strlit("Str");
    reveal_strlit("Unit");
    let x = residual_field(w, w[a])->0.name;
    let y = residual_field(w, w[b])->0.name;
    let s = "Str"@;
    assert(w[a].name != w[b].name) by {
    }
    lemma_place_of(w, a);
    lemma_place_of(w, b);
    let renamed_a = !is_pair_value(w, w[a].name) && is_pair_unit(w, w[a].name);
    let renamed_b = !is_pair_value(w, w[b].name) && is_pair_unit(w, w[b].name);
    if x == y {
        if renamed_a && renamed_b {
            let ba = base_of_unit(w[a].name);
            let bb = base_of_unit(w[b].name);
            lemma_unit_base(w, w[a].name);
            lemma_unit_base(w, w[b].name);
            assert((bb + s).len() == bb.len() + s.len());
            assert((bb + s).subrange(0, bb.len() as int) =~= bb);
            assert(ba == bb);
        } else if renamed_a {
            lemma_unit_base(w, w[a].name);
        } else if renamed_b {
            lemma_unit_base(w, w[b].name);
        }
    }
}

/// The detail without its noise.
pub fn strip_noise(detail: &RawDetail) -> (w: RawDetail)
    ensures
        w@ == stripped(detail@),
        distinct_names(w@),
{
    let fields = detail.fields();
    let mut kept: Vec<Field> = Vec::new();
    let ghost mut sources: Seq<int> = Seq::empty();
    let mut i: usize = 0;
    while i < fields.len()
        invariant
            i <= fields.len(),
            field_views(fields@) == detail@,
            distinct_names(detail@),
            field_views(kept@) == detail@.take(i as int).filter_map(keep_signal()),
            sources.len() == kept.len(),
            forall|j: int|
                0 <= j < sources.len() ==> 0 <= #[trigger] sources[j] < i && detail@[sources[j]]
                    == field_views(kept@)[j],
            distinct_names(field_views(kept@)),
        decreases fields.len() - i,
    {
        let ghost before = field_views(kept@);
        proof {
            detail@.lemma_filter_map_take_succ(keep_signal(), i as int);
        }
        if !is_noise_name(fields[i].name.as_str()) {
            kept.push(fields[i].clone());
            proof {
                let after = field_views(kept@);
                sources = sources.push(i as int);
                assert forall|a: int, b: int| 0 <= a < b < after.len() implies (#[trigger] after[a]).name
                    != (#[trigger] after[b]).name by {
                    if b == after.len() - 1 {
                        assert(detail@[sources[a]].name != detail@[i as int].name);
                    } else {
                        assert(before[a].name != before[b].name);
                    }
                }
            }
        }
        i = i + 1;
    }
    assert(detail@.take(i as int) =~= detail@);
    RawDetail::from_distinct(kept)
}

/// Looks for the first field of `w` with a fault as the value of a pair.
fn check_pairs(w: &RawDetail) -> (r: Result<(), ClassifyError>)
    ensures
        r is Ok ==> forall|i: int| 0 <= i < w@.len() ==> (#[trigger] pair_fault(w@, i)) is None,
        r matches Err(e) ==> exists|i: int|
            is_first_pair_fault(w@, i) && pair_fault(w@, i) == Some(e@),
{
    let fields = w.fields();
    let mut i: usize = 0;
    while i < fields.len()
        invariant
            i <= fields.len(),
            field_views(fields@) == w@,
            distinct_names(w@),
            forall|k: int| 0 <= k < i ==> (#[trigger] pair_fault(w@, k)) is None,
        decreases fields.len() - i,
    {
        let name = fields[i].name.as_str();
        proof {
            lemma_place_of(w@, i as int);
        }
        if pairs_as_value(w, name) {
            if !is_number(&fields[i].value) {
                let e = ClassifyError::NotANumber { field: fields[i].name.clone() };
                return Err(e);
            }
            match companion_of(w, name) {
                Some(c) => {
                    match w.get(c.as_str()) {
                        Some(Scalar::Text(_)) => {},
                        _ => {
                            let e = ClassifyError::UnitNotText { field: fields[i].name.clone() };
                            assert(is_first_pair_fault(w@, i as int) && pair_fault(w@, i as int)
                                == Some(e@));
                            return Err(e);
                        },
                    }
                },
                None => {},
            }
        }
        i = i + 1;
    }
    Ok(())
}

/// The text that the unit of the pair of `name` holds.
fn unit_text_of(w: &RawDetail, name: &str) -> (r: String)
    requires
        is_pair_value(w@, name@),
        unit_of(w@, name@) is Text,
    ensures
        ScalarView::Text(r@) == unit_of(w@, name@),
{
    match companion_of(w, name) {
        Some(c) => match w.get(c.as_str()) {
            Some(Scalar::Text(s)) => s.clone(),
            _ => String::new(),
        },
        None => String::new(),
    }
}

/// Is the value a number?
pub fn is_number(v: &Scalar) -> (r: bool)
    ensures
        r == holds_number(v@),
{
    match v {
        Scalar::Number(literal) => reads_as_number(literal.as_str()),
        _ => false,
    }
}

/// The literal of the number that the field `name` holds.
fn number_of(w: &RawDetail, name: &str) -> (r: String)
    requires
        has_name(w@, name@),
        holds_number(value_of(w@, name@)),
    ensures
        r@ == literal_of(value_of(w@, name@)),
{
    match w.get(name) {
        Some(Scalar::Number(s)) => s.clone(),
        _ => String::new(),
    }
}

/// The scale that a rule of `family` reads from `unit`.
pub fn rule_scale_of(family: Family, unit: &str) -> (r: Option<Scale>)
    ensures
        r == rule_scale(family, unit@),
{
    match family {
        Family::Energy => energy_scale_of(unit),
        Family::Power => power_scale_of(unit),
        Family::Temperature => if is_celsius(unit) {
            Some(Scale::One)
        } else {
            None
        },
    }
}

/// Applies the rules of the table to `w`, one after another, up to the first
/// under which `w` has a fault.
fn apply_rules(w: &RawDetail, rules: &Vec<Rule>) -> (r: Result<Vec<Metric>, ClassifyError>)
    requires
        pairs_well_typed(w@),
        rule_views(rules@) == table_rows(),
    ensures
        r is Ok ==> forall|j: int|
            0 <= j < table_rows().len() ==> rule_fault(w@, #[trigger] table_rows()[j]) is None,
        r matches Ok(metrics) ==> metric_views(metrics@) == table_rows().filter_map(rule_step(w@)),
        r matches Err(e) ==> exists|j: int|
            is_first_rule_fault(w@, j) && rule_fault(w@, table_rows()[j]) == Some(e@),
{
    let mut metrics: Vec<Metric> = Vec::new();
    let ghost table = table_rows();
    let mut i: usize = 0;
    while i < rules.len()
        invariant
            i <= rules.len(),
            pairs_well_typed(w@),
            table == table_rows(),
            rule_views(rules@) == table,
            metric_views(metrics@) == table.take(i as int).filter_map(rule_step(w@)),
            forall|k: int| 0 <= k < i ==> rule_fault(w@, #[trigger] table[k]) is None,
        decreases rules.len() - i,
    {
        let rule = &rules[i];
        proof {
            table.lemma_filter_map_take_succ(rule_step(w@), i as int);
        }
        if pairs_as_value(w, rule.source.as_str()) {
            let unit = unit_text_of(w, rule.source.as_str());
            match rule_scale_of(rule.family, unit.as_str()) {
                Some(scale) => {
                    let literal = number_of(w, rule.source.as_str());
                    metrics.push(
                        Metric { name: rule.name.clone(), value: Quantity { literal, scale } },
                    );
                },
                None => {
                    let e = match rule.family {
                        Family::Temperature => ClassifyError::NotCelsius { unit },
                        _ => ClassifyError::UnknownUnit { field: rule.source.clone(), unit },
                    };
                    assert(is_first_rule_fault(w@, i as int) && rule_fault(w@, table[i as int])
                        == Some(e@));
                    return Err(e);
                },
            }
        }
        i = i + 1;
    }
    assert(table.take(i as int) =~= table);
    Ok(metrics)
}

/// Hands on the fields of `w` that no rule claims.
fn hand_on(w: &RawDetail, rules: &Vec<Rule>) -> (r: RawDetail)
    requires
        rule_views(rules@) == table_rows(),
    ensures
        r@ == residual_of(w@),
{
    let fields = w.fields();
    let mut rest: Vec<Field> = Vec::new();
    let ghost mut sources: Seq<int> = Seq::empty();
    let mut i: usize = 0;
    while i < fields.len()
        invariant
            i <= fields.len(),
            field_views(fields@) == w@,
            distinct_names(w@),
            rule_views(rules@) == table_rows(),
            field_views(rest@) == w@.take(i as int).filter_map(residual_step(w@)),
            sources.len() == rest.len(),
            forall|j: int|
                0 <= j < sources.len() ==> 0 <= #[trigger] sources[j] < i && residual_field(
                    w@,
                    w@[sources[j]],
                ) == Some(field_views(rest@)[j]),
            distinct_names(field_views(rest@)),
        decreases fields.len() - i,
    {
        let ghost before = field_views(rest@);
        let name = fields[i].name.as_str();
        proof {
            w@.lemma_filter_map_take_succ(residual_step(w@), i as int);
            reveal_strlit("Str");
            reveal_strlit("Unit");
        }
        let handed: Option<Field> = if pairs_as_value(w, name) {
            if find_rule(rules, name).is_some() {
                None
            } else {
                Some(fields[i].clone())
            }
        } else if pairs_as_unit(w, name) {
            let base = if ends_with(name, "Str") {
                drop_suffix(name, 3)
            } else {
                drop_suffix(name, 4)
            };
            if find_rule(rules, base.as_str()).is_some() {
                None
            } else {
                Some(Field { name: joined(base.as_str(), "Str"), value: fields[i].value.clone() })
            }
        } else if same_text(name, "batteryCapacitySoc") {
            None
        } else {
            Some(fields[i].clone())
        };
        match handed {
            Some(f) => {
                rest.push(f);
                proof {
                    let after = field_views(rest@);
                    sources = sources.push(i as int);
                    assert forall|a: int, b: int| 0 <= a < b < after.len() implies (#[trigger] after[a]).name
                        != (#[trigger] after[b]).name by {
                        if b == after.len() - 1 {
                            lemma_residual_names_differ(w@, sources[a], i as int);
                        } else {
                            assert(before[a].name != before[b].name);
                        }
                    }
                }
            },
            None => {},
        }
        i = i + 1;
    }
    assert(w@.take(i as int) =~= w@);
    RawDetail::from_distinct(rest)
}

/// The views of what the classifier gives back.
pub open spec fn outcome_view(r: Result<(Vec<Metric>, RawDetail), ClassifyError>) -> Result<
    (Seq<MetricView>, Seq<FieldView>),
    ClassifyErrorView,
> {
    match r {
        Ok(out) => Ok((metric_views(out.0@), out.1@)),
        Err(e) => Err(e@),
    }
}

/// Takes the known metrics out of `detail`.
///
/// The noise is dropped first. Then every rule of the table whose field is
/// the value of a pair claims that pair, and the state of charge is claimed
/// where it stands alone. What is left is handed on, in its order; a pair
/// that no rule claimed is handed on as the value and, under the value's
/// name with `Str` behind it, the unit.
///
/// It fails where a pair does not hold a number with a string for its unit,
/// where a claimed unit is not one that its family reads, or where the state
/// of charge is no number; the error is the first such fault.
pub fn opinionated(detail: &RawDetail) -> (r: Result<(Vec<Metric>, RawDetail), ClassifyError>)
    ensures
        outcome_view(r) == classified(stripped(detail@)),
{
    let w = strip_noise(detail);
    match check_pairs(&w) {
        Err(e) => {
            proof {
                let i = choose|i: int| is_first_pair_fault(w@, i) && pair_fault(w@, i) == Some(e@);
                lemma_first_pair_fault(w@, i);
            }
            return Err(e);
        },
        Ok(_) => {},
    }
    proof {
        lemma_pairs_well_typed(w@);
    }
    let rules = rule_table();
    let mut metrics = match apply_rules(&w, &rules) {
        Err(e) => {
            proof {
                let j = choose|j: int|
                    is_first_rule_fault(w@, j) && rule_fault(w@, table_rows()[j]) == Some(e@);
                lemma_first_rule_fault(w@, j);
            }
            return Err(e);
        },
        Ok(metrics) => metrics,
    };
    proof {
        lemma_last_fault(w@);
    }
    let ghost ruled = metric_views(metrics@);
    if w.contains("batteryCapacitySoc") && !pairs_as_value(&w, "batteryCapacitySoc") {
        let held = match w.get("batteryCapacitySoc") {
            Some(v) => is_number(v),
            None => false,
        };
        if !held {
            return Err(ClassifyError::NotANumber { field: String::from_str("batteryCapacitySoc") });
        }
        let literal = number_of(&w, "batteryCapacitySoc");
        metrics.push(
            Metric {
                name: String::from_str("battery_soc"),
                value: Quantity { literal, scale: Scale::One },
            },
        );
        assert(metric_views(metrics@) =~= ruled + soc_metric(w@));
    }
    let rest = hand_on(&w, &rules);
    Ok((metrics, rest))
}

} // verus!
