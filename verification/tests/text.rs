//! Text and number primitives against the standard library.
use rw_vn100::number::{
    decimal2_text, decimal_text, hex2_text, hex4_text, number_list_text, parse_hex_u16,
    parse_hex_u8, parse_u32, parse_u64, parse_u8,
};
use rw_vn100::text::{
    before_char, joined, pieces, same, space, split_at_first, split_at_last, starts_with, trimmed,
    without_prefix,
};
use rw_vn100::unicode::{decode, quote, to_lower};

#[test]
fn white_space_is_unicode_white_space() {
    for n in 0..=0x10FFFFu32 {
        if let Some(c) = char::from_u32(n) {
            assert_eq!(space(c), c.is_whitespace(), "U+{n:04X}");
        }
    }
}

#[test]
fn trimming_drops_white_space_on_both_sides() {
    for s in ["", " ", "a", " a b ", "\t\n x\r\n", "\u{a0}x\u{3000}", "x\u{200b}"] {
        assert_eq!(trimmed(s), s.trim(), "{s:?}");
    }
}

#[test]
fn splitting_matches_std() {
    for s in ["", ",", "a", "a,b", ",a,,b,", "é,ü", "=x=y"] {
        let parts: Vec<&str> = s.split(',').collect();
        assert_eq!(pieces(s, ','), parts, "{s:?}");
        assert_eq!(split_at_first(s, '='), s.split_once('='), "{s:?}");
        assert_eq!(split_at_last(s, '='), s.rsplit_once('='), "{s:?}");
        assert_eq!(before_char(s, ','), s.split(',').next().unwrap(), "{s:?}");
        assert_eq!(joined(&parts, ", "), parts.join(", "), "{s:?}");
    }
}

#[test]
fn prefixes_match_std() {
    for (s, p) in [("", ""), ("abc", ""), ("abc", "ab"), ("abc", "abcd"), ("äbc", "ä"), ("a", "b")] {
        assert_eq!(starts_with(s, p), s.starts_with(p));
        assert_eq!(without_prefix(s, p), s.strip_prefix(p));
        assert_eq!(same(s, p), s == p);
    }
}

#[test]
fn numbers_parse_as_in_std() {
    let words = [
        "", "+", "-", "0", "00", "7", "+7", "++7", "-1", "-0", "40", "255", "256", "0C", "ff", "FF",
        "1FF", "FFFF", "10000", "4294967295", "4294967296", "18446744073709551615",
        "18446744073709551616", "99999999999999999999999", " 1", "1 ", "1_0", "0x1", "٣", "1.0",
    ];
    for w in words {
        assert_eq!(parse_u8(w), w.parse::<u8>().ok(), "{w:?}");
        assert_eq!(parse_u32(w), w.parse::<u32>().ok(), "{w:?}");
        assert_eq!(parse_u64(w), w.parse::<u64>().ok(), "{w:?}");
        assert_eq!(parse_hex_u8(w), u8::from_str_radix(w, 16).ok(), "{w:?}");
        assert_eq!(parse_hex_u16(w), u16::from_str_radix(w, 16).ok(), "{w:?}");
    }
}

#[test]
fn numbers_are_written_as_in_std() {
    for n in [0u64, 1, 7, 9, 10, 40, 99, 100, 921600, u32::MAX as u64, u64::MAX] {
        assert_eq!(decimal_text(n), format!("{n}"));
        assert_eq!(decimal2_text(n), format!("{n:02}"));
    }
    for b in 0..=255u8 {
        assert_eq!(hex2_text(b), format!("{b:02X}"));
        assert_eq!(parse_hex_u8(&hex2_text(b)), Some(b));
    }
    for w in [0u16, 1, 0x0101, 0x0739, 0xABCD, 0xFFFF] {
        assert_eq!(hex4_text(w), format!("{w:04X}"));
        assert_eq!(parse_hex_u16(&hex4_text(w)), Some(w));
    }
    assert_eq!(number_list_text(&[]), "[]");
    assert_eq!(number_list_text(&[1, 20, 300]), format!("{:?}", [1, 20, 300]));
}

#[test]
fn decoding_replaces_what_is_no_utf8() {
    assert_eq!(decode(b"$VNWNV*57"), "$VNWNV*57");
    assert_eq!(decode("grün".as_bytes()), "grün");
    assert_eq!(decode(&[0x24, 0xFA, 0x41]), "$\u{FFFD}A");
}

#[test]
fn lower_case_follows_unicode() {
    assert_eq!(to_lower("VNymr 7"), "vnymr 7");
    assert_eq!(to_lower("ÄΣ"), "ÄΣ".to_lowercase());
}

#[test]
fn quoting_escapes_like_debug() {
    for s in ["", "plain", "a\"b", "tab\t", "back\\slash", "it's", "é\u{200b}"] {
        assert_eq!(quote(s), format!("{s:?}"));
    }
}
