//! Lines off the wire.
use rw_vn100::line::{candidate_of, is_async_line, push_byte};
use rw_vn100::proto::build_command;

/// What the whole line, decoded first, carries from its last `$` on.
fn decoded_first(raw: &[u8]) -> String {
    let text = String::from_utf8_lossy(raw);
    match text.rfind('$') {
        Some(p) => text[p..].trim().to_string(),
        None => text.trim().to_string(),
    }
}

#[test]
fn message_starts_at_the_last_dollar() {
    assert_eq!(candidate_of(b"$VNRRG,07,40*5C"), "$VNRRG,07,40*5C");
    assert_eq!(
        candidate_of(b"\xFA\x01$x\xFF$VNRRG,07,40*5C "),
        "$VNRRG,07,40*5C"
    );
    assert_eq!(candidate_of(b"  no start "), "no start");
    assert_eq!(candidate_of(b""), "");
}

#[test]
fn decoding_may_start_at_the_last_dollar() {
    let alphabet = [
        0x00, 0x20, b'$', b'A', 0x7F, 0x80, 0x85, 0xA0, 0xBF, 0xC2, 0xC3, 0xE0, 0xE2, 0xED, 0xF0,
        0xF4, 0xFA, 0xFF,
    ];
    let mut x: u64 = 88172645463325252;
    for _ in 0..20000 {
        let mut raw = Vec::new();
        x ^= x << 13;
        x ^= x >> 7;
        x ^= x << 17;
        let mut bits = x;
        for _ in 0..(x % 12) {
            raw.push(alphabet[(bits % alphabet.len() as u64) as usize]);
            bits /= alphabet.len() as u64;
        }
        assert_eq!(candidate_of(&raw), decoded_first(&raw), "{raw:?}");
    }
}

#[test]
fn runaway_line_is_dropped() {
    let mut line = Vec::new();
    for _ in 0..1024 {
        assert!(!push_byte(&mut line, b'x'));
    }
    assert_eq!(line.len(), 1024);
    assert!(!push_byte(&mut line, b'\r'));
    assert_eq!(line.len(), 1024);
    assert!(!push_byte(&mut line, b'x'));
    assert!(line.is_empty());
    assert!(!push_byte(&mut line, b'y'));
    assert!(push_byte(&mut line, b'\n'));
    assert_eq!(line, b"y");
}

#[test]
fn async_messages_are_data_with_a_valid_checksum() {
    for payload in ["VNYMR,1,2", "VNQTN", "VN"] {
        assert!(is_async_line(build_command(payload).trim()), "{payload}");
    }
    for payload in [
        "VNRRG,07,40",
        "VNWRG,07,40",
        "VNWNV",
        "VNRST",
        "VNRFS",
        "VNERR,0C",
        "XNYMR,1",
    ] {
        assert!(!is_async_line(build_command(payload).trim()), "{payload}");
    }
    for echo in ["$VNWNV*57", "$VNRST*4D", "$VNRFS*5F", "$VNRRG,07,40*5C"] {
        assert!(!is_async_line(echo), "{echo}");
    }
    assert!(!is_async_line("$VNYMR,1,2*00"));
    assert!(!is_async_line(""));
}
