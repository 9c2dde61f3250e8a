//! Source selection and metric updates.

use dsmr_proto::attribute::Attribute;
use dsmr_proto::cli::Source;
use dsmr_proto::cli::SourceArgs;
use dsmr_proto::decimal::Decimal;
use dsmr_proto::metrics::MetricUpdate;
use dsmr_proto::metrics::export;

#[test]
fn source_connect() {
    let args = SourceArgs { connect: Some("example.com:8000".into()), serial: None, file: None };
    assert_eq!(args.get(), Source::Socket("example.com:8000".into()));
}

#[test]
fn source_serial() {
    let args = SourceArgs { connect: None, serial: Some("/dev/ttyS0".into()), file: None };
    assert_eq!(args.get(), Source::Serial("/dev/ttyS0".into()));
}

#[test]
fn source_file() {
    let args = SourceArgs { connect: None, serial: None, file: Some("file.txt".into()) };
    assert_eq!(args.get(), Source::File("file.txt".into()));
}

fn dec(mantissa: u64, scale: u32) -> Decimal {
    Decimal { mantissa, scale }
}

#[test]
fn exported_updates_follow_document_order() {
    let attrs = vec![
        Attribute::Version("50".into()),
        Attribute::ElectricityDelivered(1, dec(6024008, 3)),
        Attribute::TariffIndicator(2),
        Attribute::PowerFailures(10),
        Attribute::InstantVoltage(3, dec(2426, 1)),
        Attribute::GasDelivered(1, "220611162510S".into(), dec(3814705, 3)),
    ];
    let updates = export(&attrs);
    assert_eq!(
        updates,
        vec![
            MetricUpdate::ElectricityDelivered { tariff: 1, kwh: dec(6024008, 3) },
            MetricUpdate::TariffIndicator { tariff: 2 },
            MetricUpdate::InstantVoltage { phase: 3, volt: dec(2426, 1) },
            MetricUpdate::GasDelivered { m3: dec(3814705, 3) },
        ]
    );
}

#[test]
fn unexported_measurements_update_nothing() {
    let attrs = vec![
        Attribute::Version("50".into()),
        Attribute::Timestamp("220611162528S".into()),
        Attribute::PowerFailures(10),
        Attribute::TextMessage("".into()),
    ];
    assert_eq!(export(&attrs), Vec::<MetricUpdate>::new());
}
