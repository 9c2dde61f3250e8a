//! The checksum accumulator and the frame assembler.

use dsmr_proto::assembler::Assembler;
use dsmr_proto::assembler::FeedOutcome;
use dsmr_proto::crc::Crc16;
use dsmr_proto::crc::hex4_bytes;

/// The terminator line that closes the given lines, computed as the device
/// computes it: the checksum of every line byte and the `!` itself.
fn terminator_for(lines: &[&[u8]]) -> Vec<u8> {
    let mut crc = Crc16::new();
    for line in lines {
        crc.update(line);
    }
    crc.update(b"!");
    let mut t = b"!".to_vec();
    t.extend_from_slice(&hex4_bytes(crc.get()));
    t.extend_from_slice(b"\r\n");
    t
}

#[test]
fn crc16_arc_check_value() {
    let mut crc = Crc16::new();
    crc.update(b"123456789");
    assert_eq!(crc.get(), 0xBB3D);
}

#[test]
fn crc16_is_incremental() {
    let mut whole = Crc16::new();
    whole.update(b"123456789");
    let mut parts = Crc16::new();
    parts.update(b"1234");
    parts.update(b"56789");
    assert_eq!(whole.get(), parts.get());
}

#[test]
fn checksum_formats_as_uppercase_hex() {
    assert_eq!(hex4_bytes(0xBB3D), b"BB3D".to_vec());
    assert_eq!(hex4_bytes(0x0001), b"0001".to_vec());
    assert_eq!(hex4_bytes(0xFFFF), b"FFFF".to_vec());
}

#[test]
fn intact_frame_is_reconstructed_exactly() {
    let lines: Vec<&[u8]> = vec![
        b"/ISK5MT382-1000\r\n",
        b"\r\n",
        b"1-0:1.8.1(006024.008*kWh)\r\n",
        b"1-0:32.7.0(242.6*V)\r\n",
    ];
    let term = terminator_for(&lines);
    let mut machine = Assembler::new(0);
    for line in &lines {
        assert_eq!(machine.feed_line(line.to_vec()), FeedOutcome::Accumulated);
    }
    match machine.feed_line(term) {
        FeedOutcome::Frame(frame) => {
            let sent: Vec<Vec<u8>> = lines.iter().map(|l| l.to_vec()).collect();
            assert_eq!(frame, sent);
        },
        other => panic!("expected a frame, got {other:?}"),
    }
}

#[test]
fn corrupted_frame_resyncs_and_next_frame_is_emitted() {
    let lines: Vec<&[u8]> = vec![
        b"/ISK5MT382-1000\r\n",
        b"\r\n",
        b"1-0:1.8.1(006024.008*kWh)\r\n",
    ];
    let term = terminator_for(&lines);

    // the same frame with one flipped byte in its body
    let mut corrupted: Vec<Vec<u8>> = lines.iter().map(|l| l.to_vec()).collect();
    corrupted[2][0] ^= 0x01;

    let mut machine = Assembler::new(0);
    let mut frames: usize = 0;
    let mut resyncs: usize = 0;
    for line in &corrupted {
        assert_eq!(machine.feed_line(line.clone()), FeedOutcome::Accumulated);
    }
    match machine.feed_line(term.clone()) {
        FeedOutcome::Resync => resyncs += 1,
        other => panic!("expected a resync, got {other:?}"),
    }
    for line in &lines {
        assert_eq!(machine.feed_line(line.to_vec()), FeedOutcome::Accumulated);
    }
    match machine.feed_line(term) {
        FeedOutcome::Frame(frame) => {
            frames += 1;
            let sent: Vec<Vec<u8>> = lines.iter().map(|l| l.to_vec()).collect();
            assert_eq!(frame, sent);
        },
        other => panic!("expected a frame, got {other:?}"),
    }
    assert_eq!(frames, 1);
    assert_eq!(resyncs, 1);
}

#[test]
fn mismatch_cap_declares_link_down() {
    let mut machine = Assembler::new(2);
    assert_eq!(machine.feed_line(b"data\r\n".to_vec()), FeedOutcome::Accumulated);
    assert_eq!(machine.feed_line(b"!0000\r\n".to_vec()), FeedOutcome::Resync);
    assert_eq!(machine.feed_line(b"!0000\r\n".to_vec()), FeedOutcome::LinkDown);
}

#[test]
fn successful_frame_resets_the_mismatch_count() {
    let mut machine = Assembler::new(2);
    assert_eq!(machine.feed_line(b"!XXXX\r\n".to_vec()), FeedOutcome::Resync);
    // an empty frame: terminator over nothing but the `!` byte
    let term = terminator_for(&[]);
    match machine.feed_line(term) {
        FeedOutcome::Frame(frame) => assert_eq!(frame, Vec::<Vec<u8>>::new()),
        other => panic!("expected a frame, got {other:?}"),
    }
    // the counter starts over: one more mismatch is only a resync
    assert_eq!(machine.feed_line(b"!XXXX\r\n".to_vec()), FeedOutcome::Resync);
}

#[test]
fn terminator_without_checksum_digits_resyncs() {
    let mut machine = Assembler::new(0);
    assert_eq!(machine.feed_line(b"!\r\n".to_vec()), FeedOutcome::Resync);
}
