//! Line decoding: the dispatch table, value sub-decoders and their errors.

use dsmr_proto::attribute::Attribute;
use dsmr_proto::attribute::Unit;
use dsmr_proto::decimal::Decimal;
use dsmr_proto::dispatch::rules;
use dsmr_proto::dispatch::rule_applies;
use dsmr_proto::dispatch::SlotPattern;
use dsmr_proto::error::DecodeError;

fn dec(mantissa: u64, scale: u32) -> Decimal {
    Decimal { mantissa, scale }
}

#[test]
fn test_attribute() {
    let tests: Vec<(&str, Attribute)> = vec![
        ("1-3:0.2.8(50)", Attribute::Version("50".into())),
        ("0-0:1.0.0(220611162528S)", Attribute::Timestamp("220611162528S".into())),
        (
            "0-0:96.1.1(4530313233343536373839303132333435)",
            Attribute::EquipmentIdentifier("E0123456789012345".into()),
        ),
        ("1-0:1.8.1(006024.008*kWh)", Attribute::ElectricityDelivered(1, dec(6024008, 3))),
        ("1-0:2.8.1(001375.008*kWh)", Attribute::ElectricityReceived(1, dec(1375008, 3))),
        ("0-0:96.14.0(0001)", Attribute::TariffIndicator(1)),
        ("1-0:1.7.0(00.000*kW)", Attribute::ActualPowerDelivered(dec(0, 3))),
        ("1-0:2.7.0(03.106*kW)", Attribute::ActualPowerReceived(dec(3106, 3))),
        ("0-0:96.7.21(00010)", Attribute::PowerFailures(10)),
        ("0-0:96.7.9(00002)", Attribute::PowerFailuresLong(2)),
        (
            "1-0:99.97.0(1)(0-0:96.7.19)(180228084605W)(0000000486*s)",
            Attribute::PowerFailureLog(vec![
                "1".into(),
                "0-0:96.7.19".into(),
                "180228084605W".into(),
                "0000000486*s".into(),
            ]),
        ),
        ("1-0:32.32.0(00007)", Attribute::VoltageSags(1, 7)),
        ("1-0:32.36.0(00001)", Attribute::VoltageSwells(1, 1)),
        ("0-0:96.13.0()", Attribute::TextMessage("".into())),
        ("1-0:32.7.0(242.6*V)", Attribute::InstantVoltage(1, dec(2426, 1))),
        ("1-0:31.7.0(012*A)", Attribute::InstantCurrent(1, dec(12, 0))),
        ("1-0:21.7.0(00.000*kW)", Attribute::InstantPowerDelivered(1, dec(0, 3))),
        ("1-0:22.7.0(03.059*kW)", Attribute::InstantPowerReceived(1, dec(3059, 3))),
        ("0-1:24.1.0(003)", Attribute::GasEquipmentDeviceType(1, 3)),
        (
            "0-1:96.1.0(4730313233343536373839303132333435)",
            Attribute::GasEquipmentIdentifier(1, "G0123456789012345".into()),
        ),
        (
            "0-1:24.2.1(220611162510S)(03814.705*m3)",
            Attribute::GasDelivered(1, "220611162510S".into(), dec(3814705, 3)),
        ),
    ];
    for (s, e) in tests {
        assert_eq!(Attribute::from_line(s.as_bytes()).unwrap(), e);
    }
}

#[test]
fn electricity_delivered_line() {
    let r = Attribute::from_line(b"1-0:1.8.1(006024.008*kWh)").unwrap();
    assert_eq!(r, Attribute::ElectricityDelivered(1, dec(6024008, 3)));
}

#[test]
fn equipment_identifier_line() {
    let r = Attribute::from_line(b"0-0:96.1.1(4530313233343536373839303132333435)").unwrap();
    assert_eq!(r, Attribute::EquipmentIdentifier("E0123456789012345".into()));
}

#[test]
fn instant_voltage_line() {
    let r = Attribute::from_line(b"1-0:32.7.0(242.6*V)").unwrap();
    assert_eq!(r, Attribute::InstantVoltage(1, dec(2426, 1)));
}

#[test]
fn phase_indices_derived() {
    assert_eq!(
        Attribute::from_line(b"1-0:52.7.0(230.0*V)").unwrap(),
        Attribute::InstantVoltage(2, dec(2300, 1))
    );
    assert_eq!(
        Attribute::from_line(b"1-0:72.7.0(230.0*V)").unwrap(),
        Attribute::InstantVoltage(3, dec(2300, 1))
    );
    assert_eq!(
        Attribute::from_line(b"1-0:51.7.0(002*A)").unwrap(),
        Attribute::InstantCurrent(2, dec(2, 0))
    );
    assert_eq!(
        Attribute::from_line(b"1-0:61.7.0(00.100*kW)").unwrap(),
        Attribute::InstantPowerDelivered(3, dec(100, 3))
    );
    assert_eq!(
        Attribute::from_line(b"1-0:42.7.0(00.200*kW)").unwrap(),
        Attribute::InstantPowerReceived(2, dec(200, 3))
    );
    assert_eq!(
        Attribute::from_line(b"1-0:52.32.0(00003)").unwrap(),
        Attribute::VoltageSags(2, 3)
    );
}

#[test]
fn gas_delivered_line() {
    let r = Attribute::from_line(b"0-1:24.2.1(220611162510S)(03814.705*m3)").unwrap();
    assert_eq!(r, Attribute::GasDelivered(1, "220611162510S".into(), dec(3814705, 3)));
}

#[test]
fn obis_with_four_components_fails() {
    let r = Attribute::from_line(b"1-0:1.8(0001)");
    assert_eq!(r, Err(DecodeError::ObisWrongArity { code: b"1-0:1.8".to_vec() }));
}

#[test]
fn obis_with_six_components_fails() {
    let r = Attribute::from_line(b"1-0:1.8.1.2(0001)");
    assert_eq!(r, Err(DecodeError::ObisWrongArity { code: b"1-0:1.8.1.2".to_vec() }));
}

#[test]
fn obis_with_bad_component_fails() {
    let r = Attribute::from_line(b"1-x:1.8.1(0001)");
    assert_eq!(r, Err(DecodeError::ObisBadComponent { code: b"1-x:1.8.1".to_vec() }));
}

#[test]
fn numeric_field_with_non_digits_fails() {
    let r = Attribute::from_line(b"0-0:96.7.21(00x10)");
    assert_eq!(r, Err(DecodeError::BadNumber { text: b"00x10".to_vec() }));
}

#[test]
fn unknown_obis_key_is_named() {
    let r = Attribute::from_line(b"9-9:9.9.9(123)");
    assert_eq!(r, Err(DecodeError::UnknownObisKey { key: [9, 9, 9, 9, 9] }));
}

#[test]
fn odd_length_hex_fails() {
    let r = Attribute::from_line(b"0-0:96.1.1(453)");
    assert_eq!(r, Err(DecodeError::OddHexLength { text: b"453".to_vec() }));
}

#[test]
fn bad_hex_digit_fails() {
    let r = Attribute::from_line(b"0-0:96.1.1(45ZZ)");
    assert_eq!(r, Err(DecodeError::BadHexDigit { text: b"45ZZ".to_vec() }));
}

#[test]
fn hex_that_is_not_utf8_fails() {
    let r = Attribute::from_line(b"0-0:96.1.1(FF)");
    assert_eq!(r, Err(DecodeError::InvalidUtf8 { bytes: vec![0xFF] }));
}

#[test]
fn missing_unit_separator_fails() {
    let r = Attribute::from_line(b"1-0:1.7.0(00.000)");
    assert_eq!(r, Err(DecodeError::MissingUnitSeparator { text: b"00.000".to_vec() }));
}

#[test]
fn unknown_unit_fails() {
    let r = Attribute::from_line(b"1-0:1.8.1(0.1*XX)");
    assert_eq!(r, Err(DecodeError::UnknownUnit { text: b"XX".to_vec() }));
}

#[test]
fn missing_parenthesis_fails() {
    let r = Attribute::from_line(b"1-0:1.8.1");
    assert_eq!(r, Err(DecodeError::MissingParenthesis { line: b"1-0:1.8.1".to_vec() }));
}

#[test]
fn gas_line_without_second_group_fails() {
    let r = Attribute::from_line(b"0-1:24.2.1(220611162510S)");
    assert_eq!(r, Err(DecodeError::MissingValueGroup { index: 1 }));
}

#[test]
fn decoding_twice_gives_equal_values() {
    let line = b"1-0:1.8.1(006024.008*kWh)";
    let a = Attribute::from_line(line).unwrap();
    let b = Attribute::from_line(line).unwrap();
    assert_eq!(a, b);
    let bad = b"9-9:9.9.9(1)";
    assert_eq!(Attribute::from_line(bad), Attribute::from_line(bad));
}

#[test]
fn unit_tokens_resolve() {
    assert_eq!(Unit::parse(b"kW").unwrap(), Unit::KiloWatt);
    assert_eq!(Unit::parse(b"kWh").unwrap(), Unit::KiloWattHour);
    assert_eq!(Unit::parse(b"A").unwrap(), Unit::Ampere);
    assert_eq!(Unit::parse(b"V").unwrap(), Unit::Volt);
    assert_eq!(Unit::parse(b"m3").unwrap(), Unit::CubicMeters);
    assert_eq!(Unit::parse(b"s").unwrap(), Unit::Seconds);
    assert_eq!(
        Unit::parse(b"kVA"),
        Err(DecodeError::UnknownUnit { text: b"kVA".to_vec() })
    );
}

/// A key that matches the rule: each exact slot's value, the first choice of
/// a variable slot, 1 for a channel slot.
fn witness(p: &SlotPattern) -> u8 {
    match p {
        SlotPattern::Exact(x) => *x,
        SlotPattern::OneOfTwo(a, _) => *a,
        SlotPattern::OneOfThree(a, _, _) => *a,
        SlotPattern::Any => 1,
    }
}

#[test]
fn rules_are_mutually_exclusive() {
    let table = rules();
    for r in &table {
        let key = [
            witness(&r.p0),
            witness(&r.p1),
            witness(&r.p2),
            witness(&r.p3),
            witness(&r.p4),
        ];
        let matches = table.iter().filter(|other| rule_applies(*other, &key)).count();
        assert_eq!(matches, 1, "key {key:?} must match exactly one rule");
    }
}
