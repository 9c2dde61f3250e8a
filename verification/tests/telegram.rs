//! The telegram builder over whole frames.

use dsmr_proto::assembler::Assembler;
use dsmr_proto::assembler::FeedOutcome;
use dsmr_proto::attribute::Attribute;
use dsmr_proto::crc::Crc16;
use dsmr_proto::crc::hex4_bytes;
use dsmr_proto::decimal::Decimal;
use dsmr_proto::error::DecodeError;
use dsmr_proto::metrics::MetricUpdate;
use dsmr_proto::metrics::export;
use dsmr_proto::telegram::Telegram;

fn frame(lines: &[&[u8]]) -> Vec<Vec<u8>> {
    lines.iter().map(|l| l.to_vec()).collect()
}

#[test]
fn telegram_from_frame_lines() {
    let data = frame(&[
        b"/ISK5MT382-1000\r\n",
        b"\r\n",
        b"1-0:1.8.1(006024.008*kWh)\r\n",
        b"0-0:96.14.0(0001)\r\n",
    ]);
    let t = Telegram::new(&data).unwrap();
    assert_eq!(t.header, "ISK5MT382-1000");
    assert_eq!(
        t.elements,
        vec![
            Attribute::ElectricityDelivered(1, Decimal { mantissa: 6024008, scale: 3 }),
            Attribute::TariffIndicator(1),
        ]
    );
}

#[test]
fn telegram_without_data_lines_is_empty() {
    let data = frame(&[b"/HDR\r\n", b"\r\n"]);
    let t = Telegram::new(&data).unwrap();
    assert_eq!(t.header, "HDR");
    assert_eq!(t.elements, Vec::<Attribute>::new());
}

#[test]
fn too_short_frame_is_rejected() {
    let data = frame(&[b"/HDR\r\n"]);
    assert_eq!(Telegram::new(&data), Err(DecodeError::FrameTooShort { len: 1 }));
    assert_eq!(Telegram::new(&frame(&[])), Err(DecodeError::FrameTooShort { len: 0 }));
}

#[test]
fn empty_header_line_is_rejected() {
    let data = frame(&[b"", b"\r\n"]);
    assert_eq!(Telegram::new(&data), Err(DecodeError::FrameTooShort { len: 2 }));
}

#[test]
fn first_bad_line_aborts_the_telegram() {
    let data = frame(&[
        b"/HDR\r\n",
        b"\r\n",
        b"1-0:1.8.1(006024.008*kWh)\r\n",
        b"9-9:9.9.9(1)\r\n",
        b"0-0:96.14.0(0001)\r\n",
    ]);
    assert_eq!(
        Telegram::new(&data),
        Err(DecodeError::UnknownObisKey { key: [9, 9, 9, 9, 9] })
    );
}

#[test]
fn stream_to_updates_end_to_end() {
    let lines: Vec<&[u8]> = vec![
        b"/ISK5MT382-1000\r\n",
        b"\r\n",
        b"1-0:1.8.1(006024.008*kWh)\r\n",
        b"1-0:32.7.0(242.6*V)\r\n",
        b"0-0:96.13.0()\r\n",
    ];
    let mut crc = Crc16::new();
    for line in &lines {
        crc.update(line);
    }
    crc.update(b"!");
    let mut term = b"!".to_vec();
    term.extend_from_slice(&hex4_bytes(crc.get()));
    term.extend_from_slice(b"\r\n");

    let mut machine = Assembler::new(100);
    for line in &lines {
        assert_eq!(machine.feed_line(line.to_vec()), FeedOutcome::Accumulated);
    }
    let frame = match machine.feed_line(term) {
        FeedOutcome::Frame(frame) => frame,
        other => panic!("expected a frame, got {other:?}"),
    };
    let telegram = Telegram::new(&frame).unwrap();
    assert_eq!(telegram.header, "ISK5MT382-1000");
    assert_eq!(telegram.elements.len(), 3);
    let updates = export(&telegram.elements);
    assert_eq!(
        updates,
        vec![
            MetricUpdate::ElectricityDelivered {
                tariff: 1,
                kwh: Decimal { mantissa: 6024008, scale: 3 },
            },
            MetricUpdate::InstantVoltage { phase: 1, volt: Decimal { mantissa: 2426, scale: 1 } },
        ]
    );
}

#[test]
fn separator_line_is_skipped_without_validation() {
    // the second line is not blank; it is skipped all the same
    let data = frame(&[b"/HDR\r\n", b"anything at all\r\n", b"0-0:96.7.21(00010)\r\n"]);
    let t = Telegram::new(&data).unwrap();
    assert_eq!(t.elements, vec![Attribute::PowerFailures(10)]);
}
