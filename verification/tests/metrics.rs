use solis_metrics::classify::{ClassifyError, Metric};
use solis_metrics::config::Solis;
use solis_metrics::fallback::ZeroSuppressor;
use solis_metrics::soliscloud;
use solis_metrics::soliscloud::{map_with, observe, Service};
use solis_metrics::units::{to_kwh, to_watt, is_celsius, Quantity, Scale, UnitError};
use solis_metrics::value::{RawDetail, Scalar};
use solis_metrics::vm::{labels_are_valid, write_metric, FullName, Obs};

fn text(s: &str) -> Scalar {
    Scalar::Text(s.to_string())
}

fn number(s: &str) -> Scalar {
    Scalar::Number(s.to_string())
}

fn detail_of(fields: Vec<(&str, Scalar)>) -> RawDetail {
    let mut detail = RawDetail::new();
    for (name, value) in fields {
        detail.insert(name.to_string(), value);
    }
    detail
}

fn metric(name: &str, literal: &str, scale: Scale) -> Metric {
    Metric { name: name.to_string(), value: Quantity { literal: literal.to_string(), scale } }
}

fn evaluate(q: &Quantity) -> f64 {
    let v: f64 = q.literal.parse().unwrap();
    match q.scale {
        Scale::Milli => v * 0.001,
        Scale::One => v,
        Scale::Kilo => v * 1_000.,
        Scale::Mega => v * 1_000_000.,
        Scale::Giga => v * 1_000_000_000.,
    }
}

fn labels(pairs: &[(&str, &str)]) -> Vec<(String, String)> {
    pairs.iter().map(|(k, v)| (k.to_string(), v.to_string())).collect()
}

#[test]
fn energies_are_brought_to_kilowatt_hours() {
    assert_eq!(evaluate(&to_kwh("1", "Wh").unwrap()), 0.001);
    assert_eq!(evaluate(&to_kwh("1", "kWh").unwrap()), 1.0);
    assert_eq!(evaluate(&to_kwh("1", "MWh").unwrap()), 1000.0);
    assert_eq!(evaluate(&to_kwh("1", "GWh").unwrap()), 1_000_000.0);
    assert_eq!(to_kwh("1", "Wh").unwrap().scale.power_of_ten(), -3);
    assert_eq!(to_kwh("1", "kWh").unwrap().scale.power_of_ten(), 0);
    assert_eq!(to_kwh("1", "MWh").unwrap().scale.power_of_ten(), 3);
    assert_eq!(to_kwh("1", "GWh").unwrap().scale.power_of_ten(), 6);
    assert_eq!(
        to_kwh("6.1", "kWh"),
        Ok(Quantity { literal: "6.1".to_string(), scale: Scale::One })
    );
}

#[test]
fn powers_are_brought_to_watts() {
    assert_eq!(evaluate(&to_watt("1", "W").unwrap()), 1.0);
    assert_eq!(evaluate(&to_watt("1", "kW").unwrap()), 1000.0);
    assert_eq!(evaluate(&to_watt("1", "MW").unwrap()), 1_000_000.0);
    assert_eq!(evaluate(&to_watt("1", "GW").unwrap()), 1_000_000_000.0);
    assert_eq!(to_watt("1", "GW").unwrap().scale.power_of_ten(), 9);
}

#[test]
fn any_other_unit_is_an_error() {
    for unit in ["", "wh", "KWh", "kwh", "TWh", "W", "kW", "J", " Wh", "Wh "] {
        assert_eq!(
            to_kwh("1", unit),
            Err(UnitError { unit: unit.to_string(), value: "1".to_string() }),
            "{unit}"
        );
    }
    for unit in ["", "w", "KW", "mW", "TW", "Wh", "kWh", "VA", "W "] {
        assert_eq!(
            to_watt("2.5", unit),
            Err(UnitError { unit: unit.to_string(), value: "2.5".to_string() }),
            "{unit}"
        );
    }
}

#[test]
fn celsius_is_known_by_its_letter_or_its_sign() {
    for unit in ["C", "\u{2103}", "\u{00b0}C", "\u{00c2}\u{00b0}C", "deg C"] {
        assert!(is_celsius(unit), "{unit}");
    }
    for unit in ["", "c", "F", "K", "\u{00b0}", "\u{2109}"] {
        assert!(!is_celsius(unit), "{unit}");
    }
}

#[test]
fn metrics_go_out_under_their_prefixes() {
    let detail = detail_of(vec![
        ("homeLoadTodayEnergy", number("6.1")),
        ("homeLoadTodayEnergyStr", text("kWh")),
        ("pac", number("1.5")),
        ("pacStr", text("kW")),
        ("state", number("1")),
        ("model", text("S6-EH1P")),
        ("uPv", number("230.1")),
        ("uPvStr", text("V")),
        ("sn", text("0123456789ABCDEF")),
        ("iPv1", number("3")),
    ]);
    assert_eq!(
        soliscloud::map(&detail),
        Ok(vec![
            metric("soliscloud_energy_home_load_today_kwh", "6.1", Scale::One),
            metric("soliscloud_ac_power_w", "1.5", Scale::Kilo),
            metric("soliscloud_raw_state", "1", Scale::One),
            metric("soliscloud_raw_u_pv_v", "230.1", Scale::One),
        ])
    );
}

#[test]
fn values_that_read_as_no_number_are_left_out() {
    let detail = detail_of(vec![
        ("a", text("12")),
        ("b", text("twelve")),
        ("c", Scalar::Bool(true)),
        ("d", Scalar::Other("null".to_string())),
        ("e", text("1e3")),
        ("f", text("")),
        ("g", text("NaN")),
    ]);
    let names: Vec<String> = soliscloud::map(&detail).unwrap().into_iter().map(|m| m.name).collect();
    assert_eq!(names, vec!["soliscloud_raw_a", "soliscloud_raw_e", "soliscloud_raw_g"]);
}

#[test]
fn a_fault_stops_the_mapping() {
    let detail = detail_of(vec![("pac", number("1.5")), ("pacStr", text("PS"))]);
    assert_eq!(
        soliscloud::map(&detail),
        Err(ClassifyError::UnknownUnit { field: "pac".to_string(), unit: "PS".to_string() })
    );
    let mut zeros = ZeroSuppressor::on();
    assert!(observe("42", &detail, 0, &mut zeros).is_err());
}

#[test]
fn zeros_are_suppressed_across_cycles_when_asked_for() {
    let quiet = detail_of(vec![("a", number("0")), ("b", number("0.0")), ("c", number("3"))]);
    let busy = detail_of(vec![("a", number("2")), ("b", number("0.0")), ("c", number("0"))]);
    let mut zeros = ZeroSuppressor::on();
    assert_eq!(map_with(&quiet, &mut zeros), Ok(vec![metric("soliscloud_raw_c", "3", Scale::One)]));
    assert_eq!(
        map_with(&busy, &mut zeros),
        Ok(vec![
            metric("soliscloud_raw_a", "2", Scale::One),
            metric("soliscloud_raw_c", "0", Scale::One),
        ])
    );
    assert_eq!(
        map_with(&quiet, &mut zeros),
        Ok(vec![
            metric("soliscloud_raw_a", "0", Scale::One),
            metric("soliscloud_raw_c", "3", Scale::One),
        ])
    );
    assert_eq!(soliscloud::map(&quiet).unwrap().len(), 3);
}

#[test]
fn readings_carry_the_id_of_their_device() {
    let detail = detail_of(vec![
        ("dataTimestamp", text("1696518000000")),
        ("pac", number("1.5")),
        ("pacStr", text("kW")),
        ("state", number("1")),
    ]);
    let mut zeros = ZeroSuppressor::off();
    let readings = observe("1308675217944611083", &detail, 1696518060000, &mut zeros).unwrap();
    assert_eq!(readings.len(), 2);
    assert_eq!(readings[0].name.name(), "soliscloud_ac_power_w");
    assert_eq!(readings[0].name.labels(), &labels(&[("id", "1308675217944611083")]));
    assert_eq!(readings[0].value, Quantity { literal: "1.5".to_string(), scale: Scale::Kilo });
    assert_eq!(readings[0].timestamp, 1696518000000);
    assert_eq!(readings[1].name.name(), "soliscloud_raw_state");
    assert_eq!(readings[1].name.labels(), &labels(&[("id", "1308675217944611083")]));
    assert_eq!(readings[1].timestamp, 1696518000000);
}

#[test]
fn the_service_keeps_its_ids_in_order() {
    let config = Solis { api: "a".to_string(), key: "k".to_string(), secret: "s".to_string() };
    let service = Service::new(
        Solis { api: "a".to_string(), key: "k".to_string(), secret: "s".to_string() },
        vec!["2".to_string(), "1".to_string()],
    );
    assert_eq!(service.credential(), &config);
    assert_eq!(service.ids(), &vec!["2".to_string(), "1".to_string()]);
}

#[test]
fn labels_must_have_keys_of_their_own() {
    assert!(labels_are_valid(&labels(&[])));
    assert!(labels_are_valid(&labels(&[("id", "1"), ("site", "1"), ("Id", "1")])));
    assert!(!labels_are_valid(&labels(&[("id", "1"), ("site", "2"), ("id", "3")])));
    assert!(!labels_are_valid(&labels(&[("__name__", "x")])));
    assert!(!labels_are_valid(&labels(&[("id", "1"), ("__name__", "x")])));
}

#[test]
fn a_full_name_keeps_its_name_and_labels() {
    let given = labels(&[("id", "42"), ("site", "home")]);
    assert!(labels_are_valid(&given));
    let name = FullName::new("soliscloud_ac_power_w".to_string(), given.clone());
    assert_eq!(name.name(), "soliscloud_ac_power_w");
    assert_eq!(name.labels(), &given);
}

#[test]
fn a_metric_is_written_as_one_line_of_json() {
    let name = FullName::new("soliscloud_ac_power_w".to_string(), labels(&[("id", "42")]));
    let mut out = String::new();
    write_metric(&mut out, &name, &vec![Obs::new("1500.0".to_string(), 1696518000000)]);
    assert_eq!(
        out,
        "{\"metric\":{\"id\":\"42\",\"__name__\":\"soliscloud_ac_power_w\"},\"values\":[1500.0],\"timestamps\":[1696518000000]}\n"
    );
    let parsed: serde_json::Value = serde_json::from_str(&out).unwrap();
    assert_eq!(parsed["metric"]["__name__"], "soliscloud_ac_power_w");
    assert_eq!(parsed["metric"]["id"], "42");
    assert_eq!(parsed["values"][0], 1500.0);
    assert_eq!(parsed["timestamps"][0], 1696518000000i64);
}

#[test]
fn lines_follow_one_another() {
    let plain = FullName::new("a".to_string(), Vec::new());
    let labelled = FullName::new(
        "b \"quoted\"".to_string(),
        labels(&[("id", "4\\2"), ("site", "home\n")]),
    );
    let mut out = String::from("# start\n");
    write_metric(&mut out, &plain, &Vec::new());
    write_metric(
        &mut out,
        &labelled,
        &vec![Obs::new("1".to_string(), -1), Obs::new("2.5".to_string(), 0), Obs::new("null".to_string(), i64::MIN)],
    );
    assert_eq!(
        out,
        "# start\n\
         {\"metric\":{\"__name__\":\"a\"},\"values\":[],\"timestamps\":[]}\n\
         {\"metric\":{\"id\":\"4\\\\2\",\"site\":\"home\\n\",\"__name__\":\"b \\\"quoted\\\"\"},\"values\":[1,2.5,null],\"timestamps\":[-1,0,-9223372036854775808]}\n"
    );
    for line in out.lines().skip(1) {
        assert!(serde_json::from_str::<serde_json::Value>(line).is_ok());
    }
}

#[test]
fn an_observation_now_is_dated_by_the_clock() {
    let before = chrono::Utc::now().timestamp_millis();
    let obs = Obs::now("6.1".to_string());
    let after = chrono::Utc::now().timestamp_millis();
    assert_eq!(obs.value, "6.1");
    assert!(before <= obs.timestamp && obs.timestamp <= after);
    assert_eq!(Obs::new("6.1".to_string(), 7), Obs { value: "6.1".to_string(), timestamp: 7 });
}
