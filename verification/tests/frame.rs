//! Binary frames.
use rw_vn100::bench::{MeasureStep, SizedScanner};
use rw_vn100::frame::{take_frames, take_sized_frames, try_common_frame, Sniff};
use rw_vn100::proto::vn_crc16;
use rw_vn100::transact::ReadEvent;

/// A frame with this mask and payload.
fn frame(mask: u16, payload: &[u8]) -> Vec<u8> {
    let mut data = vec![0x01];
    data.extend_from_slice(&mask.to_le_bytes());
    data.extend_from_slice(payload);
    let crc = vn_crc16(&data);
    let mut f = vec![0xFA];
    f.extend_from_slice(&data);
    f.extend_from_slice(&crc.to_be_bytes());
    f
}

#[test]
fn sniffing_sizes_a_frame_by_its_header() {
    let f = frame(0x0101, &[7; 20]);
    assert_eq!(f.len(), 26);
    for n in 1..f.len() {
        assert!(matches!(try_common_frame(&f[..n]), Sniff::NeedMore), "{n}");
    }
    assert!(matches!(try_common_frame(&f), Sniff::Frame(26)));
    let mut more = f.clone();
    more.extend_from_slice(b"more");
    assert!(matches!(try_common_frame(&more), Sniff::Frame(26)));
}

#[test]
fn sniffing_rejects_what_is_no_frame() {
    assert!(matches!(try_common_frame(&[]), Sniff::NotHere));
    assert!(matches!(try_common_frame(b"$VN"), Sniff::NotHere));
    assert!(matches!(try_common_frame(&[0xFB, 0x01]), Sniff::NotHere));
    // Another group.
    assert!(matches!(try_common_frame(&[0xFA, 0x04]), Sniff::NotHere));
    // No field, and a field of unknown size.
    assert!(matches!(
        try_common_frame(&[0xFA, 0x01, 0x00, 0x00]),
        Sniff::NotHere
    ));
    assert!(matches!(
        try_common_frame(&[0xFA, 0x01, 0x05, 0x00]),
        Sniff::NotHere
    ));
    // A wrong CRC.
    let mut f = frame(0x0001, &[1, 2, 3, 4, 5, 6, 7, 8]);
    f[6] ^= 0x40;
    assert!(matches!(try_common_frame(&f), Sniff::NotHere));
}

#[test]
fn every_known_mask_makes_a_frame() {
    let bits = [(0, 8), (3, 12), (4, 16), (5, 12), (8, 12), (9, 24), (10, 20)];
    for pick in 1..128u32 {
        let mut mask = 0u16;
        let mut size = 0usize;
        for (i, (bit, bytes)) in bits.iter().enumerate() {
            if pick & (1 << i) != 0 {
                mask |= 1 << bit;
                size += bytes;
            }
        }
        let f = frame(mask, &vec![0xFA; size]);
        match try_common_frame(&f) {
            Sniff::Frame(n) => assert_eq!(n, f.len()),
            _ => panic!("mask {mask:04X}"),
        }
    }
}

#[test]
fn a_scan_resynchronises_on_a_false_start() {
    let f = frame(0x0100, &[0xFA; 12]);
    let mut broken = frame(0x0100, &[0xFA; 12]);
    broken[9] = 0;
    let mut acc = vec![0x00, 0xFA, 0x02];
    acc.extend_from_slice(&broken);
    acc.extend_from_slice(&f);
    acc.extend_from_slice(b"$VNYMR\r\n");
    acc.extend_from_slice(&f);
    acc.extend_from_slice(&f[..5]);
    let found = take_frames(&mut acc);
    assert_eq!(found, vec![f.clone(), f.clone()]);
    assert_eq!(acc, &f[..5]);
}

#[test]
fn a_tail_is_never_longer_than_a_frame() {
    let mut acc = vec![0xFA; 20000];
    assert!(take_frames(&mut acc).is_empty());
    assert_eq!(acc, [0xFA]);
    let mut acc = b"x".repeat(20000);
    assert!(take_frames(&mut acc).is_empty());
    assert!(acc.is_empty());
}

#[test]
fn sized_frames_are_taken_whole() {
    let f = frame(0x0101, &[3; 20]);
    let g = frame(0x0101, &[4; 20]);
    let mut acc = vec![0xFA, 0x01, 0x55];
    acc.extend_from_slice(&f);
    acc.extend_from_slice(&g);
    acc.extend_from_slice(&g[..25]);
    let found = take_sized_frames(&mut acc, 26);
    assert_eq!(found, vec![f, g.clone()]);
    assert_eq!(acc, &g[..25]);
}

#[test]
fn sized_measurement_counts_frames_at_every_read_size() {
    let f = frame(0x0101, &[3; 20]);
    let g = frame(0x0101, &[4; 20]);
    let mut data = b"noise".to_vec();
    for _ in 0..10 {
        data.extend_from_slice(&f);
        data.extend_from_slice(&g);
        data.push(0xFA);
    }
    for chunk in [1usize, 5, 26, 27, 1000] {
        let mut scanner = SizedScanner::new(26);
        for piece in data.chunks(chunk) {
            assert!(matches!(
                scanner.measure_binary(ReadEvent::Data(piece)),
                MeasureStep::Continue
            ));
        }
        assert!(matches!(
            scanner.measure_binary(ReadEvent::TimedOut),
            MeasureStep::Continue
        ));
        assert!(matches!(
            scanner.measure_binary(ReadEvent::Failed),
            MeasureStep::Fail
        ));
        assert!(matches!(
            scanner.measure_binary(ReadEvent::Deadline),
            MeasureStep::Finish
        ));
        assert_eq!(scanner.frames(), 20);
        assert_eq!(scanner.bytes(), 520);
        assert_eq!(scanner.first().as_deref(), Some(&f[..]));
    }
}
