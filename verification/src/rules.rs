//! The table of known metrics: which vendor field is which canonical metric,
//! and how its unit is read.

use vstd::prelude::*;
use vstd::string::*;
use crate::text::same_text;

verus! {

/// How the unit of a known field is read.
#[derive(Clone, Copy, Debug, PartialEq, Eq, Structural)]
pub enum Family {
    /// An energy: brought to kilowatt-hours.
    Energy,
    /// A power: brought to watts.
    Power,
    /// A temperature: taken as it is, where the unit denotes Celsius.
    Temperature,
}

/// One row of the table: the vendor's field, the canonical name of the
/// metric, and the family of its unit.
#[derive(Debug, PartialEq, Eq)]
pub struct Rule {
    pub source: String,
    pub name: String,
    pub family: Family,
}

/// What a [`Rule`] holds.
pub struct RuleView {
    pub source: Seq<char>,
    pub name: Seq<char>,
    pub family: Family,
}

impl View for Rule {
    type V = RuleView;

    open spec fn view(&self) -> RuleView {
        RuleView { source: self.source@, name: self.name@, family: self.family }
    }
}

/// The views of a run of rules.
pub open spec fn rule_views(rules: Seq<Rule>) -> Seq<RuleView> {
    rules.map_values(|r: Rule| r@)
}

/// The views of a run of word pairs.
pub open spec fn word_views(words: Seq<(&'static str, &'static str)>) -> Seq<
    (Seq<char>, Seq<char>),
> {
    words.map_values(|w: (&'static str, &'static str)| (w.0@, w.1@))
}

/// The periods over which an energy is summed, each as the vendor writes it
/// and as a canonical name holds it. The last one, without a word, is the
/// running value.
pub open spec fn periods() -> Seq<(Seq<char>, Seq<char>)> {
    seq![
        ("Total"@, "total"@),
        ("Year"@, "year"@),
        ("Month"@, "month"@),
        ("Yesterday"@, "yesterday"@),
        ("Today"@, "today"@),
        (""@, ""@),
    ]
}

/// The classes of energy, each as the vendor writes it and as a canonical
/// name holds it.
pub open spec fn energy_classes() -> Seq<(Seq<char>, Seq<char>)> {
    seq![
        ("backup"@, "backup"@),
        ("gridPurchased"@, "grid_purchased"@),
        ("gridSell"@, "grid_sell"@),
        ("homeGrid"@, "home_grid"@),
        ("homeLoad"@, "home_load"@),
        ("generator"@, "generator"@),
    ]
}

/// The two directions of battery energy.
pub open spec fn directions() -> Seq<(Seq<char>, Seq<char>)> {
    seq![("Charge"@, "charge"@), ("Discharge"@, "discharge"@)]
}

/// The fields of power, each with the canonical name of its metric.
pub open spec fn power_aliases() -> Seq<(Seq<char>, Seq<char>)> {
    seq![
        ("batteryPower"@, "battery_power_w"@),
        ("pEpm"@, "epm_power_w"@),
        ("pEpmSet"@, "epm_set_power_w"@),
        ("bypassLoadPower"@, "bypass_load_power_w"@),
        ("psum"@, "sum_power_w"@),
        ("psumCal"@, "sum_cal_power_w"@),
        ("powTotal"@, "total_power_w"@),
        ("familyLoadPower"@, "family_load_power_w"@),
        ("generatorPower"@, "generator_power_w"@),
        ("totalLoadPower"@, "total_load_power_w"@),
        ("pac"@, "ac_power_w"@),
    ]
}

/// The rule for the energy of one class over one period:
/// `{class}{period}Energy` is `energy_{class}_{period}_kwh`.
pub open spec fn energy_rule(class: (Seq<char>, Seq<char>), period: (Seq<char>, Seq<char>)) -> RuleView {
    RuleView {
        source: class.0 + period.0 + "Energy"@,
        name: "energy_"@ + class.1 + "_"@ + period.1 + "_kwh"@,
        family: Family::Energy,
    }
}

/// The rule for the battery's energy in one direction over one period:
/// `battery{period}{direction}Energy` is
/// `energy_battery_{direction}_{period}_kwh`.
pub open spec fn battery_rule(direction: (Seq<char>, Seq<char>), period: (Seq<char>, Seq<char>)) -> RuleView {
    RuleView {
        source: "battery"@ + period.0 + direction.0 + "Energy"@,
        name: "energy_battery_"@ + direction.1 + "_"@ + period.1 + "_kwh"@,
        family: Family::Energy,
    }
}

/// The `i`-th energy rule of the battery, or of the classes: the rows one
/// after another, each over the six periods.
pub open spec fn energy_rule_at(battery: bool, i: int) -> RuleView {
    if battery {
        battery_rule(directions()[i / 6], periods()[i % 6])
    } else {
        energy_rule(energy_classes()[i / 6], periods()[i % 6])
    }
}

/// The rule for one field of power.
pub open spec fn power_rule(alias: (Seq<char>, Seq<char>)) -> RuleView {
    RuleView { source: alias.0, name: alias.1, family: Family::Power }
}

/// The rule for the inverter's temperature.
pub open spec fn temperature_rule() -> RuleView {
    RuleView {
        source: "inverterTemperature"@,
        name: "inverter_temperature_c"@,
        family: Family::Temperature,
    }
}

/// The whole table, in the order in which its rules are applied: the
/// energies class by class, the battery's energies, the powers, the
/// temperature.
pub open spec fn table_rows() -> Seq<RuleView> {
    Seq::new(36, |i: int| energy_rule_at(false, i)) + Seq::new(
        12,
        |i: int| energy_rule_at(true, i),
    ) + Seq::new(11, |i: int| power_rule(power_aliases()[i])) + seq![temperature_rule()]
}

/// Some rule of the table is about the field `name`.
pub open spec fn is_ruled(name: Seq<char>) -> bool {
    exists|i: int| 0 <= i < table_rows().len() && (#[trigger] table_rows()[i]).source == name
}

fn period_words() -> (t: Vec<(&'static str, &'static str)>)
    ensures
        word_views(t@) == periods(),
        t.len() == 6,
{
    let t = vec![
        ("Total", "total"),
        ("Year", "year"),
        ("Month", "month"),
        ("Yesterday", "yesterday"),
        ("Today", "today"),
        ("", ""),
    ];
    t
}

fn class_words() -> (t: Vec<(&'static str, &'static str)>)
    ensures
        word_views(t@) == energy_classes(),
        t.len() == 6,
{
    let t = vec![
        ("backup", "backup"),
        ("gridPurchased", "grid_purchased"),
        ("gridSell", "grid_sell"),
        ("homeGrid", "home_grid"),
        ("homeLoad", "home_load"),
        ("generator", "generator"),
    ];
    t
}

fn direction_words() -> (t: Vec<(&'static str, &'static str)>)
    ensures
        word_views(t@) == directions(),
        t.len() == 2,
{
    let t = vec![("Charge", "charge"), ("Discharge", "discharge")];
    t
}

fn alias_words() -> (t: Vec<(&'static str, &'static str)>)
    ensures
        word_views(t@) == power_aliases(),
        t.len() == 11,
{
    let t = vec![
        ("batteryPower", "battery_power_w"),
        ("pEpm", "epm_power_w"),
        ("pEpmSet", "epm_set_power_w"),
        ("bypassLoadPower", "bypass_load_power_w"),
        ("psum", "sum_power_w"),
        ("psumCal", "sum_cal_power_w"),
        ("powTotal", "total_power_w"),
        ("familyLoadPower", "family_load_power_w"),
        ("generatorPower", "generator_power_w"),
        ("totalLoadPower", "total_load_power_w"),
        ("pac", "ac_power_w"),
    ];
    t
}

fn energy_rule_of(class: (&'static str, &'static str), period: (&'static str, &'static str)) -> (r: Rule)
    ensures
        r@ == energy_rule((class.0@, class.1@), (period.0@, period.1@)),
{
    let mut source = String::from_str(class.0);
    source.append(period.0);
    source.append("Energy");
    let mut name = String::from_str("energy_");
    name.append(class.1);
    name.append("_");
    name.append(period.1);
    name.append("_kwh");
    Rule { source, name, family: Family::Energy }
}

fn battery_rule_of(direction: (&'static str, &'static str), period: (&'static str, &'static str)) -> (r: Rule)
    ensures
        r@ == battery_rule((direction.0@, direction.1@), (period.0@, period.1@)),
{
    let mut source = String::from_str("battery");
    source.append(period.0);
    source.append(direction.0);
    source.append("Energy");
    let mut name = String::from_str("energy_battery_");
    name.append(direction.1);
    name.append("_");
    name.append(period.1);
    name.append("_kwh");
    Rule { source, name, family: Family::Energy }
}

/// Appends the energy rules to `rules`: those of the battery's two
/// directions, or those of the six classes, each over the six periods.
fn push_energy_rules(rules: &mut Vec<Rule>, battery: bool)
    ensures
        rule_views(final(rules)@) == rule_views(old(rules)@) + Seq::new(
            if battery { 12nat } else { 36nat },
            |i: int| energy_rule_at(battery, i),
        ),
{
    let spans = period_words();
    let rows = if battery {
        direction_words()
    } else {
        class_words()
    };
    let ghost before = rule_views(rules@);
    let mut row: usize = 0;
    while row < rows.len()
        invariant
            row <= rows.len(),
            rows.len() == if battery { 2usize } else { 6usize },
            spans.len() == 6,
            word_views(spans@) == periods(),
            battery ==> word_views(rows@) == directions(),
            !battery ==> word_views(rows@) == energy_classes(),
            rule_views(rules@) == before + Seq::new(
                (row * 6) as nat,
                |i: int| energy_rule_at(battery, i),
            ),
        decreases rows.len() - row,
    {
        let mut period: usize = 0;
        while period < 6
            invariant
                row < rows.len(),
                rows.len() <= 6,
                period <= 6,
                spans.len() == 6,
                word_views(spans@) == periods(),
                battery ==> word_views(rows@) == directions(),
                !battery ==> word_views(rows@) == energy_classes(),
                rule_views(rules@) == before + Seq::new(
                    (row * 6 + period) as nat,
                    |i: int| energy_rule_at(battery, i),
                ),
            decreases 6 - period,
        {
            let ghost sofar = rule_views(rules@);
            let ghost place = (row * 6 + period) as int;
            let rule = if battery {
                battery_rule_of(rows[row], spans[period])
            } else {
                energy_rule_of(rows[row], spans[period])
            };
            rules.push(rule);
            assert(rule_views(rules@) =~= sofar.push(energy_rule_at(battery, place)));
            period = period + 1;
        }
        row = row + 1;
    }
}

/// The table of known metrics.
pub fn rule_table() -> (rules: Vec<Rule>)
    ensures
        rule_views(rules@) == table_rows(),
{
    let mut rules: Vec<Rule> = Vec::new();
    push_energy_rules(&mut rules, false);
    push_energy_rules(&mut rules, true);
    let aliases = alias_words();
    let ghost before = rule_views(rules@);
    let mut i: usize = 0;
    while i < aliases.len()
        invariant
            i <= aliases.len(),
            aliases.len() == 11,
            word_views(aliases@) == power_aliases(),
            rule_views(rules@) == before + Seq::new(i as nat, |k: int| power_rule(power_aliases()[k])),
        decreases aliases.len() - i,
    {
        let ghost sofar = rule_views(rules@);
        let rule = Rule {
            source: String::from_str(aliases[i].0),
            name: String::from_str(aliases[i].1),
            family: Family::Power,
        };
        rules.push(rule);
        assert(rule_views(rules@) =~= sofar.push(power_rule(power_aliases()[i as int])));
        i = i + 1;
    }
    rules.push(
        Rule {
            source: String::from_str("inverterTemperature"),
            name: String::from_str("inverter_temperature_c"),
            family: Family::Temperature,
        },
    );
    rules
}

/// The first rule of `rules` that is about the field `name`.
pub fn find_rule(rules: &Vec<Rule>, name: &str) -> (r: Option<usize>)
    ensures
        r is Some <==> exists|i: int|
            0 <= i < rules.len() && (#[trigger] rule_views(rules@)[i]).source == name@,
        r matches Some(i) ==> i < rules.len() && rule_views(rules@)[i as int].source == name@,
{
    let mut i: usize = 0;
    while i < rules.len()
        invariant
            i <= rules.len(),
            forall|k: int| 0 <= k < i ==> (#[trigger] rule_views(rules@)[k]).source != name@,
        decreases rules.len() - i,
    {
        if same_text(rules[i].source.as_str(), name) {
            return Some(i);
        }
        i = i + 1;
    }
    None
}

} // verus!
