use solis_metrics::classify::{opinionated, strip_noise, ClassifyError, Metric};
use solis_metrics::fallback::{map_detail, FallbackEntry};
use solis_metrics::noise::is_noise_name;
use solis_metrics::pairing::{companion_of, pairs_as_unit, pairs_as_value};
use solis_metrics::rules::{find_rule, rule_table, Family};
use solis_metrics::units::{Quantity, Scale};
use solis_metrics::value::{RawDetail, Scalar};

fn text(s: &str) -> Scalar {
    Scalar::Text(s.to_string())
}

fn number(s: &str) -> Scalar {
    Scalar::Number(s.to_string())
}

fn detail_of(fields: Vec<(&str, Scalar)>) -> RawDetail {
    let mut detail = RawDetail::new();
    for (name, value) in fields {
        detail.insert(name.to_string(), value);
    }
    detail
}

fn inverter_detail() -> RawDetail {
    detail_of(vec![
        ("id", text("1308675217944611083")),
        ("sn", text("0123456789ABCDEF")),
        ("userId", text("1145611319416590995")),
        ("dataTimestamp", text("1696518000000")),
        ("dataTimestampStr", text("2023-10-05 23:00:00 (UTC+08:00)")),
        ("homeLoadTodayEnergy", number("6.1")),
        ("homeLoadTodayEnergyStr", text("kWh")),
        ("homeLoadTotalEnergy", number("1.377")),
        ("homeLoadTotalEnergyStr", text("MWh")),
        ("familyLoadPower", number("0.809")),
        ("familyLoadPowerStr", text("kW")),
        ("familyLoadPowerPec", text("1")),
        ("pac", number("1.5")),
        ("pacStr", text("kW")),
        ("inverterTemperature", number("41.3")),
        ("inverterTemperatureUnit", text("\u{2103}")),
        ("batteryCapacitySoc", number("85")),
        ("iPv1", number("2.3")),
        ("iPv1Str", text("A")),
        ("mpptPow3", number("100")),
        ("uPv", number("230.1")),
        ("uPvStr", text("V")),
        ("timeZone", number("8.0")),
        ("timeZoneStr", text("(UTC+08:00)Asia/Shanghai")),
        ("state", number("1")),
    ])
}

fn evaluate(q: &Quantity) -> f64 {
    let v: f64 = q.literal.parse().unwrap();
    match q.scale {
        Scale::Milli => v * 0.001,
        Scale::One => v,
        Scale::Kilo => v * 1_000.,
        Scale::Mega => v * 1_000_000.,
        Scale::Giga => v * 1_000_000_000.,
    }
}

fn value_of(metrics: &[Metric], name: &str) -> Option<f64> {
    metrics.iter().find(|m| m.name == name).map(|m| evaluate(&m.value))
}

fn entry_of(entries: &[FallbackEntry], key: &str) -> Option<String> {
    entries.iter().find(|e| e.key == key).map(|e| e.value.clone())
}

#[test]
fn test_opinion() {
    let (good, bad) = opinionated(&inverter_detail()).unwrap();
    let bad = map_detail(&bad);
    assert_eq!(value_of(&good, "energy_home_load_today_kwh"), Some(6.1));
    assert_eq!(value_of(&good, "family_load_power_w"), Some(809.0));
    assert_eq!(entry_of(&bad, "family_load_power_kw"), None);
    assert_eq!(entry_of(&bad, "family_load_power_pec"), Some("1".to_string()));
}

#[test]
fn fixture_home_load_today_is_claimed_as_it_is() {
    let detail = detail_of(vec![
        ("homeLoadTodayEnergy", number("6.1")),
        ("homeLoadTodayEnergyStr", text("kWh")),
    ]);
    let (good, rest) = opinionated(&detail).unwrap();
    assert_eq!(
        good,
        vec![Metric {
            name: "energy_home_load_today_kwh".to_string(),
            value: Quantity { literal: "6.1".to_string(), scale: Scale::One },
        }]
    );
    assert_eq!(evaluate(&good[0].value), 6.1);
    assert_eq!(rest.len(), 0);
}

#[test]
fn fixture_watt_hours_keep_their_literal() {
    let detail = detail_of(vec![
        ("homeLoadTotalEnergy", number("1377.0")),
        ("homeLoadTotalEnergyStr", text("Wh")),
    ]);
    let (good, rest) = opinionated(&detail).unwrap();
    assert_eq!(good.len(), 1);
    assert_eq!(good[0].name, "energy_home_load_total_kwh");
    assert_eq!(good[0].value.literal, "1377.0");
    assert_eq!(good[0].value.scale, Scale::Milli);
    assert_eq!(evaluate(&good[0].value), 1377.0 * 0.001);
    assert_eq!(rest.len(), 0);
    let entries = map_detail(&detail);
    assert_eq!(
        entries,
        vec![FallbackEntry {
            key: "home_load_total_energy_wh".to_string(),
            value: "1377.0".to_string(),
        }]
    );
}

#[test]
fn claimed_metrics_come_in_the_order_of_the_table() {
    let (good, _) = opinionated(&inverter_detail()).unwrap();
    let names: Vec<&str> = good.iter().map(|m| m.name.as_str()).collect();
    assert_eq!(
        names,
        vec![
            "energy_home_load_total_kwh",
            "energy_home_load_today_kwh",
            "family_load_power_w",
            "ac_power_w",
            "inverter_temperature_c",
            "battery_soc",
        ]
    );
    assert_eq!(value_of(&good, "energy_home_load_total_kwh"), Some(1377.0));
    assert_eq!(value_of(&good, "ac_power_w"), Some(1500.0));
    assert_eq!(value_of(&good, "inverter_temperature_c"), Some(41.3));
    assert_eq!(value_of(&good, "battery_soc"), Some(85.0));
}

#[test]
fn what_is_not_claimed_is_handed_on_in_order() {
    let (_, rest) = opinionated(&inverter_detail()).unwrap();
    let names: Vec<&str> = rest.fields().iter().map(|f| f.name.as_str()).collect();
    assert_eq!(
        names,
        vec![
            "id",
            "dataTimestamp",
            "dataTimestampStr",
            "familyLoadPowerPec",
            "uPv",
            "uPvStr",
            "timeZone",
            "timeZoneStr",
            "state",
        ]
    );
    assert_eq!(rest.get("uPv"), Some(&number("230.1")));
    assert_eq!(rest.get("uPvStr"), Some(&text("V")));
}

#[test]
fn every_field_is_dropped_claimed_or_handed_on() {
    let detail = inverter_detail();
    let (good, rest) = opinionated(&detail).unwrap();
    let entries = map_detail(&rest);
    let w = strip_noise(&detail);
    let rules = rule_table();
    let mut dropped = 0;
    let mut claimed = 0;
    let mut handed_on = 0;
    for field in detail.fields() {
        let name = field.name.as_str();
        if is_noise_name(name) {
            dropped += 1;
            assert!(!w.contains(name));
            assert!(!rest.contains(name));
            continue;
        }
        let source = if pairs_as_value(&w, name) {
            Some(name.to_string())
        } else if pairs_as_unit(&w, name) {
            Some(name.trim_end_matches("Str").trim_end_matches("Unit").to_string())
        } else {
            None
        };
        let rule = source.as_deref().and_then(|s| find_rule(&rules, s));
        if let Some(at) = rule {
            claimed += 1;
            assert!(good.iter().any(|m| m.name == rules[at].name));
            assert!(!rest.contains(name));
        } else if name == "batteryCapacitySoc" {
            claimed += 1;
            assert!(good.iter().any(|m| m.name == "battery_soc"));
            assert!(!rest.contains(name));
        } else {
            handed_on += 1;
            assert!(rest.contains(name));
        }
    }
    assert_eq!(dropped, 5);
    assert_eq!(claimed, 11);
    assert_eq!(handed_on, 9);
    assert_eq!(dropped + claimed + handed_on, detail.len());
    assert_eq!(good.len(), 6);
    assert_eq!(rest.len(), 9);
    assert_eq!(entries.len(), 7);
}

#[test]
fn classification_gives_the_same_twice() {
    let detail = inverter_detail();
    let first = opinionated(&detail).unwrap();
    let second = opinionated(&detail).unwrap();
    assert_eq!(first.0, second.0);
    assert_eq!(first.1.fields(), second.1.fields());
    let broken = detail_of(vec![("pac", number("1")), ("pacStr", text("horsepower"))]);
    assert_eq!(opinionated(&broken).unwrap_err(), opinionated(&broken).unwrap_err());
}

#[test]
fn duplicate_channels_never_come_out() {
    let detail = detail_of(vec![
        ("iPv", number("1.0")),
        ("iPv1", number("1.1")),
        ("iPv1Str", text("A")),
        ("mpptPow3", number("3")),
        ("mpptIpv39", number("4")),
        ("mpptUpv12Str", text("V")),
        ("pow7", number("5")),
        ("uPv2", number("6")),
    ]);
    let (good, rest) = opinionated(&detail).unwrap();
    assert!(good.is_empty());
    let names: Vec<&str> = rest.fields().iter().map(|f| f.name.as_str()).collect();
    assert_eq!(names, vec!["iPv"]);
    let entries = map_detail(&rest);
    assert_eq!(entries.len(), 1);
    assert_eq!(entries[0].value, "1.0");
}

#[test]
fn channels_outside_the_indices_stay() {
    for name in ["iPv0", "iPv40", "iPv01", "iPv100", "iPvStr", "pow", "powTotal", "xiPv1"] {
        assert!(!is_noise_name(name), "{name}");
    }
    for name in ["iPv1", "iPv9", "iPv10", "iPv39", "iPv39Str", "mpptPow3", "mpptIpv5", "mpptUpv20", "pow1", "uPv3Str"] {
        assert!(is_noise_name(name), "{name}");
    }
    let detail = detail_of(vec![("iPv40", number("1"))]);
    let (_, rest) = opinionated(&detail).unwrap();
    assert!(rest.contains("iPv40"));
}

#[test]
fn secrets_never_come_out() {
    let detail = detail_of(vec![
        ("sn", text("0123456789ABCDEF")),
        ("sno", text("FEDCBA9876543210")),
        ("userId", number("7")),
        ("snStr", text("x")),
        ("state", number("1")),
    ]);
    let (good, rest) = opinionated(&detail).unwrap();
    assert!(good.is_empty());
    for secret in ["sn", "sno", "userId"] {
        assert!(is_noise_name(secret));
        assert!(!rest.contains(secret));
    }
    let names: Vec<&str> = rest.fields().iter().map(|f| f.name.as_str()).collect();
    assert_eq!(names, vec!["snStr", "state"]);
    let entries = map_detail(&rest);
    assert!(entries.iter().all(|e| e.value != "0123456789ABCDEF" && e.value != "FEDCBA9876543210"));
}

#[test]
fn a_unit_field_may_be_called_unit() {
    let detail = detail_of(vec![("pac", number("2")), ("pacUnit", text("W"))]);
    let w = strip_noise(&detail);
    assert_eq!(companion_of(&w, "pac"), Some("pacUnit".to_string()));
    assert!(pairs_as_value(&w, "pac"));
    assert!(pairs_as_unit(&w, "pacUnit"));
    let (good, rest) = opinionated(&detail).unwrap();
    assert_eq!(value_of(&good, "ac_power_w"), Some(2.0));
    assert_eq!(rest.len(), 0);
}

#[test]
fn str_comes_before_unit() {
    let detail = detail_of(vec![
        ("pac", number("2")),
        ("pacUnit", text("MW")),
        ("pacStr", text("kW")),
    ]);
    let (good, rest) = opinionated(&detail).unwrap();
    assert_eq!(value_of(&good, "ac_power_w"), Some(2000.0));
    let names: Vec<&str> = rest.fields().iter().map(|f| f.name.as_str()).collect();
    assert_eq!(names, vec!["pacUnit"]);
}

#[test]
fn an_unclaimed_pair_is_handed_on_with_a_str_unit() {
    let detail = detail_of(vec![("flow", number("3")), ("flowUnit", text("l/min"))]);
    let (good, rest) = opinionated(&detail).unwrap();
    assert!(good.is_empty());
    assert_eq!(rest.fields().len(), 2);
    assert_eq!(rest.get("flow"), Some(&number("3")));
    assert_eq!(rest.get("flowStr"), Some(&text("l/min")));
    assert!(!rest.contains("flowUnit"));
}

#[test]
fn a_unit_is_not_a_value_of_its_own() {
    let detail = detail_of(vec![
        ("flow", number("3")),
        ("flowUnit", text("l")),
        ("flowUnitUnit", text("x")),
    ]);
    let w = strip_noise(&detail);
    assert!(pairs_as_value(&w, "flow"));
    assert!(pairs_as_unit(&w, "flowUnit"));
    assert!(!pairs_as_value(&w, "flowUnit"));
    assert!(!pairs_as_unit(&w, "flowUnitUnit"));
    let (_, rest) = opinionated(&detail).unwrap();
    let names: Vec<&str> = rest.fields().iter().map(|f| f.name.as_str()).collect();
    assert_eq!(names, vec!["flow", "flowStr", "flowUnitUnit"]);
}

#[test]
fn times_are_no_values() {
    let detail = detail_of(vec![
        ("fisTime", number("1696518000000")),
        ("fisTimeStr", text("2023-10-05")),
    ]);
    let w = strip_noise(&detail);
    assert!(!pairs_as_value(&w, "fisTime"));
    let (good, rest) = opinionated(&detail).unwrap();
    assert!(good.is_empty());
    assert_eq!(rest.len(), 2);
}

#[test]
fn an_unknown_energy_unit_is_an_error() {
    let detail = detail_of(vec![
        ("gridSellTodayEnergy", number("1")),
        ("gridSellTodayEnergyStr", text("J")),
    ]);
    assert_eq!(
        opinionated(&detail).unwrap_err(),
        ClassifyError::UnknownUnit {
            field: "gridSellTodayEnergy".to_string(),
            unit: "J".to_string(),
        }
    );
}

#[test]
fn an_unknown_power_unit_is_an_error() {
    let detail = detail_of(vec![("batteryPower", number("1")), ("batteryPowerStr", text("kWh"))]);
    assert_eq!(
        opinionated(&detail).unwrap_err(),
        ClassifyError::UnknownUnit { field: "batteryPower".to_string(), unit: "kWh".to_string() }
    );
}

#[test]
fn a_temperature_must_be_in_celsius() {
    let detail = detail_of(vec![
        ("inverterTemperature", number("100")),
        ("inverterTemperatureStr", text("F")),
    ]);
    assert_eq!(
        opinionated(&detail).unwrap_err(),
        ClassifyError::NotCelsius { unit: "F".to_string() }
    );
    for unit in ["C", "\u{00b0}C", "\u{00c2}\u{00b0}C", "\u{2103}", "degC"] {
        let detail = detail_of(vec![
            ("inverterTemperature", number("41.3")),
            ("inverterTemperatureStr", text(unit)),
        ]);
        let (good, _) = opinionated(&detail).unwrap();
        assert_eq!(value_of(&good, "inverter_temperature_c"), Some(41.3));
    }
}

#[test]
fn the_value_of_a_pair_must_be_a_number() {
    let detail = detail_of(vec![("model", text("S6")), ("modelStr", text("x"))]);
    assert_eq!(
        opinionated(&detail).unwrap_err(),
        ClassifyError::NotANumber { field: "model".to_string() }
    );
}

#[test]
fn a_number_must_read_as_one() {
    for literal in ["", "abc", "1,5", "0x10", "1 "] {
        let detail = detail_of(vec![("pac", number(literal)), ("pacStr", text("kW"))]);
        assert_eq!(
            opinionated(&detail).unwrap_err(),
            ClassifyError::NotANumber { field: "pac".to_string() },
            "{literal:?}"
        );
        let detail = detail_of(vec![("batteryCapacitySoc", number(literal))]);
        assert_eq!(
            opinionated(&detail).unwrap_err(),
            ClassifyError::NotANumber { field: "batteryCapacitySoc".to_string() },
            "{literal:?}"
        );
    }
    for literal in ["0", "-3", "6.1", "1e21", "1.5E-7"] {
        let detail = detail_of(vec![("pac", number(literal)), ("pacStr", text("kW"))]);
        let (good, _) = opinionated(&detail).unwrap();
        assert_eq!(good[0].value.literal, literal);
        assert!(good[0].value.literal.parse::<f64>().is_ok());
    }
}

#[test]
fn the_unit_of_a_pair_must_be_a_string() {
    let detail = detail_of(vec![("pac", number("1")), ("pacStr", number("2"))]);
    assert_eq!(
        opinionated(&detail).unwrap_err(),
        ClassifyError::UnitNotText { field: "pac".to_string() }
    );
}

#[test]
fn the_state_of_charge_must_be_a_number() {
    let detail = detail_of(vec![("batteryCapacitySoc", text("85"))]);
    assert_eq!(
        opinionated(&detail).unwrap_err(),
        ClassifyError::NotANumber { field: "batteryCapacitySoc".to_string() }
    );
}

#[test]
fn the_first_fault_is_reported() {
    let detail = detail_of(vec![
        ("pac", number("1")),
        ("pacStr", text("horsepower")),
        ("model", text("S6")),
        ("modelStr", text("x")),
        ("batteryCapacitySoc", text("85")),
    ]);
    assert_eq!(
        opinionated(&detail).unwrap_err(),
        ClassifyError::NotANumber { field: "model".to_string() }
    );
}

#[test]
fn the_state_of_charge_with_a_unit_is_handed_on() {
    let detail = detail_of(vec![
        ("batteryCapacitySoc", number("85")),
        ("batteryCapacitySocStr", text("%")),
    ]);
    let (good, rest) = opinionated(&detail).unwrap();
    assert!(good.is_empty());
    assert_eq!(rest.len(), 2);
}

#[test]
fn the_table_holds_sixty_rules() {
    let rules = rule_table();
    assert_eq!(rules.len(), 60);
    assert_eq!(rules[0].source, "backupTotalEnergy");
    assert_eq!(rules[0].name, "energy_backup_total_kwh");
    assert_eq!(rules[5].source, "backupEnergy");
    assert_eq!(rules[5].name, "energy_backup__kwh");
    assert_eq!(rules[28].source, "homeLoadTodayEnergy");
    assert_eq!(rules[28].name, "energy_home_load_today_kwh");
    assert_eq!(rules[36].source, "batteryTotalChargeEnergy");
    assert_eq!(rules[36].name, "energy_battery_charge_total_kwh");
    assert_eq!(rules[46].source, "batteryTodayDischargeEnergy");
    assert_eq!(rules[46].name, "energy_battery_discharge_today_kwh");
    assert_eq!(rules[47].source, "batteryDischargeEnergy");
    assert_eq!(rules[48].source, "batteryPower");
    assert_eq!(rules[48].name, "battery_power_w");
    assert_eq!(rules[48].family, Family::Power);
    assert_eq!(rules[58].source, "pac");
    assert_eq!(rules[58].name, "ac_power_w");
    assert_eq!(rules[59].source, "inverterTemperature");
    assert_eq!(rules[59].family, Family::Temperature);
    assert_eq!(find_rule(&rules, "pac"), Some(58));
    assert_eq!(find_rule(&rules, "pacStr"), None);
    let mut sources: Vec<&str> = rules.iter().map(|r| r.source.as_str()).collect();
    sources.sort();
    sources.dedup();
    assert_eq!(sources.len(), 60);
    let mut names: Vec<&str> = rules.iter().map(|r| r.name.as_str()).collect();
    names.sort();
    names.dedup();
    assert_eq!(names.len(), 60);
}
