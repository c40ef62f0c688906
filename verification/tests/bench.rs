//! Measuring streams.
use rw_vn100::bench::{bench, AsciiScanner, MeasureStep, Scanner, Stats};
use rw_vn100::fields::fields_from_mask;
use rw_vn100::proto::{checksum, vn_crc16};
use rw_vn100::transact::ReadEvent;

/// Measures `data`, handed out in `chunk`-sized pieces (to simulate a real port
/// splitting frames/lines across reads) of at most 1024 bytes.
fn measure(data: &[u8], chunk: usize) -> Stats {
    let mut scanner = Scanner::new();
    let mut pos = 0;
    while pos < data.len() {
        let n = (data.len() - pos).min(1024).min(chunk);
        let step = scanner.measure(ReadEvent::Data(&data[pos..pos + n]));
        assert!(matches!(step, MeasureStep::Continue));
        pos += n;
    }
    assert!(matches!(
        scanner.measure(ReadEvent::Data(&[])),
        MeasureStep::Continue
    ));
    assert!(matches!(
        scanner.measure(ReadEvent::Deadline),
        MeasureStep::Finish
    ));
    scanner.finish()
}

/// Build a CRC-valid Common frame for `mask` with zeroed payload.
fn test_frame(mask: u16) -> Vec<u8> {
    let payload: usize = fields_from_mask(mask).iter().map(|f| f.size).sum();
    let mut data = vec![0x01, (mask & 0xff) as u8, (mask >> 8) as u8];
    data.extend(std::iter::repeat_n(0u8, payload));
    let crc = vn_crc16(&data);
    let mut frame = vec![0xFA];
    frame.extend_from_slice(&data);
    frame.extend_from_slice(&crc.to_be_bytes()); // appended big-endian → CRC over frame == 0
    frame
}

/// Build the device-shaped interleaved stream: `reps` binary frames (full
/// 7-field, like the real 110-byte frame) each followed by an ASCII line.
fn interleaved_stream(reps: usize) -> Vec<u8> {
    let frame = test_frame(0x0739); // all seven Common fields
    let payload = "VNYMR,1.0,2.0,3.0,4.0,5.0,6.0,7.0,8.0,9.0,1.0,2.0,3.0";
    let ascii = format!("${payload}*{:02X}\r\n", checksum(payload));
    let mut data = Vec::new();
    for _ in 0..reps {
        data.extend_from_slice(&frame);
        data.extend_from_slice(ascii.as_bytes());
    }
    data
}

#[test]
fn measure_counts_interleaved_streams_one_read() {
    let data = interleaved_stream(5);
    let st = measure(&data, usize::MAX);
    assert_eq!(st.frames, 5, "binary frames");
    assert_eq!(st.msgs, 5, "ascii messages");
}

#[test]
fn measure_counts_interleaved_streams_fragmented() {
    // Small reads split frames and lines across reads, like a real port.
    for chunk in [1usize, 7, 13, 64] {
        let data = interleaved_stream(20);
        let st = measure(&data, chunk);
        assert_eq!(st.frames, 20, "binary frames at chunk={chunk}");
        assert_eq!(st.msgs, 20, "ascii messages at chunk={chunk}");
    }
}

#[test]
fn passive_stats_hold_what_was_seen() {
    let line = "$VNYMR,1.0,2.0,3.0,4.0,5.0,6.0,7.0,8.0,9.0,1.0,2.0,3.0*";
    let data = interleaved_stream(3);
    let st = measure(&data, 10);
    assert_eq!(st.total_bytes, data.len() as u64);
    assert_eq!(st.bin_bytes, 330);
    assert_eq!(st.bin_mask, Some(0x0739));
    assert_eq!(st.bin_first.as_deref(), Some(&test_frame(0x0739)[..]));
    let sample = st.ascii_sample.unwrap();
    assert!(sample.starts_with(line));
    assert_eq!(st.ascii_bytes, 3 * (sample.len() as u64 + 2));
}

#[test]
fn noise_counts_as_bytes_only() {
    let noise = b"garbage\r\n$VNYMR,1*00\r\n$VNRRG,07,40*5C\r\n\xFA\x01\x00";
    let st = measure(noise, 4);
    assert_eq!(st.total_bytes, noise.len() as u64);
    assert_eq!((st.msgs, st.ascii_bytes, st.frames, st.bin_bytes), (0, 0, 0, 0));
    assert!(st.ascii_sample.is_none() && st.bin_mask.is_none() && st.bin_first.is_none());
}

#[test]
fn a_failed_read_ends_a_measurement() {
    let mut scanner = Scanner::new();
    for event in [ReadEvent::TimedOut, ReadEvent::WouldBlock] {
        assert!(matches!(scanner.measure(event), MeasureStep::Continue));
    }
    assert!(matches!(
        scanner.measure(ReadEvent::Failed),
        MeasureStep::Fail
    ));
    assert_eq!(scanner.total_bytes(), 0);
}

#[test]
fn ascii_measurement_counts_messages_and_their_bytes() {
    let mut data = Vec::new();
    for payload in [
        "VNWNV",
        "VNYMR,1",
        "VNERR,0C",
        "VNQTN,2",
        "VNRRG,07,40",
        "VNRST",
        "VNRFS",
    ] {
        data.extend_from_slice(b"\xFA\xFF");
        data.extend_from_slice(format!("${payload}*{:02X}\r\n", checksum(payload)).as_bytes());
    }
    for chunk in [1usize, 3, 100] {
        let mut scanner = AsciiScanner::new();
        for piece in data.chunks(chunk) {
            assert!(matches!(
                scanner.measure_ascii(ReadEvent::Data(piece)),
                MeasureStep::Continue
            ));
        }
        assert!(matches!(
            scanner.measure_ascii(ReadEvent::Deadline),
            MeasureStep::Finish
        ));
        let tally = scanner.tally();
        assert_eq!(tally.msgs, 2);
        assert_eq!(tally.bytes, 2 * 13);
        assert!(tally.sample.as_deref().unwrap().starts_with("$VNYMR,1*"));
    }
}

#[test]
fn seeing_nothing_is_an_error() {
    let st = measure(b"", 1);
    let (_, verdict) = bench(115_200, &st);
    assert_eq!(
        verdict,
        Err(
            "saw no ASCII messages or binary frames — is the device streaming, and does --baud \
             match its current rate?"
                .to_string()
        )
    );
    let st = measure(&interleaved_stream(1), 9);
    let (_, verdict) = bench(115_200, &st);
    assert_eq!(verdict, Ok(()));
}
