//! The wire protocol: framing, checksums, replies, CRC.
use rw_vn100::fields::{
    default_fields, field_names, fields_from_mask, lookup_field, parse_fields,
};
use rw_vn100::proto::{
    build_command, checksum, error_description, parse_reg06, parse_reg07, verify_checksum, vn_crc16,
    vnerr_message,
};

#[test]
fn proto_checksum_matches_known_value() {
    assert_eq!(format!("{:02X}", checksum("VNRRG,07")), "74");
}

#[test]
fn proto_builds_read_command() {
    assert_eq!(build_command("VNRRG,07"), "$VNRRG,07*74\r\n");
}

#[test]
fn proto_builds_write_command() {
    // XOR of "VNWRG,07,40"
    assert_eq!(build_command("VNWRG,07,40"), "$VNWRG,07,40*59\r\n");
}

#[test]
fn proto_verifies_good_checksum() {
    let line = format!("$VNRRG,07,40*{:02X}", checksum("VNRRG,07,40"));
    assert!(verify_checksum(&line).is_ok());
}

#[test]
fn proto_rejects_bad_checksum() {
    assert!(verify_checksum("$VNRRG,07,40*00").is_err());
    assert!(verify_checksum("no dollar*FF").is_err());
    assert!(verify_checksum("$VNRRG,07,40").is_err()); // no '*'
}

#[test]
fn proto_decodes_insufficient_baud_error() {
    let msg = vnerr_message("$VNERR,0C*02");
    assert!(msg.contains("insufficient baud rate"), "{msg}");
    assert!(msg.contains("(12)"), "{msg}");
}

#[test]
fn proto_decodes_other_error_codes() {
    assert_eq!(error_description(7), "invalid parameter");
    assert_eq!(error_description(8), "invalid register");
    assert!(vnerr_message("$VNERR,07*XX").contains("invalid parameter"));
}

#[test]
fn proto_parses_read_and_write_responses() {
    assert_eq!(parse_reg07("$VNRRG,07,40*4C"), Some(40));
    assert_eq!(parse_reg07("$VNWRG,07,100*2B"), Some(100));
    assert_eq!(parse_reg07("$VNYMR,+010.0*7F"), None);
}

#[test]
fn proto_fields_parse_orders_by_bit_and_dedups() {
    let f = parse_fields("accel,time,accel").unwrap();
    let names: Vec<&str> = f.iter().map(|x| x.name).collect();
    assert_eq!(names, vec!["time", "accel"]); // bit-ordered + de-duplicated
    let mask: u16 = f.iter().fold(0, |m, x| m | (1u16 << x.bit));
    assert_eq!(mask, 0x0101); // time bit0 + accel bit8 — matches the known config
    assert!(parse_fields("bogus").is_err());
}

#[test]
fn proto_builds_reset_commands() {
    // XOR of "VNRST" and "VNRFS"
    assert_eq!(build_command("VNRST"), "$VNRST*4D\r\n");
    assert_eq!(build_command("VNRFS"), "$VNRFS*5F\r\n");
}

#[test]
fn proto_vn_crc16_append_yields_zero() {
    // The property frame validation relies on: CRC over (data + its CRC) == 0.
    let data = [0x01u8, 0x01, 0x01, 0xDE, 0xAD, 0xBE, 0xEF];
    let c = vn_crc16(&data);
    let mut framed = data.to_vec();
    framed.push((c >> 8) as u8); // VN sends CRC MSB first
    framed.push((c & 0xff) as u8);
    assert_eq!(vn_crc16(&framed), 0);
}

#[test]
fn documented_commands_are_framed_as_documented() {
    for (payload, line) in [
        ("VNRRG,07", "$VNRRG,07*74\r\n"),
        ("VNWRG,05,921600", "$VNWRG,05,921600*53\r\n"),
        ("VNWRG,05,115200", "$VNWRG,05,115200*58\r\n"),
        ("VNWRG,75,1,4,01,0101", "$VNWRG,75,1,4,01,0101*70\r\n"),
        ("VNWRG,07,0", "$VNWRG,07,0*6D\r\n"),
        ("VNWNV", "$VNWNV*57\r\n"),
    ] {
        assert_eq!(build_command(payload), line);
        assert_eq!(verify_checksum(line), Ok(()));
        assert_eq!(verify_checksum(line.trim()), Ok(()));
    }
}

#[test]
fn checksum_covers_the_bytes_of_the_text() {
    assert_eq!(checksum(""), 0);
    assert_eq!(checksum("é"), 0xC3 ^ 0xA9);
}

#[test]
fn each_checksum_fault_has_its_message() {
    assert_eq!(
        verify_checksum("VNRRG,07*74"),
        Err("reply missing leading '$'".to_string())
    );
    assert_eq!(
        verify_checksum("$VNRRG,07"),
        Err("reply missing '*' checksum delimiter".to_string())
    );
    assert_eq!(
        verify_checksum("$VNRRG,07*7G"),
        Err("malformed checksum field \"7G\"".to_string())
    );
    assert_eq!(
        verify_checksum("$VNRRG,07*\"7\u{1b}"),
        Err(format!("malformed checksum field {:?}", "\"7\u{1b}"))
    );
    assert_eq!(
        verify_checksum("$VNRRG,07*75"),
        Err("checksum mismatch: reply says 75, computed 74".to_string())
    );
}

#[test]
fn checksum_stands_after_the_last_star() {
    let payload = "VNRRG,01,a*b";
    let line = format!("${payload}*{:02X}", checksum(payload));
    assert_eq!(verify_checksum(&line), Ok(()));
    // White space around the sum, lower case and a sign are accepted.
    assert_eq!(verify_checksum("$VNRRG,07* 74 "), Ok(()));
    assert_eq!(verify_checksum("$VNRST*4d"), Ok(()));
    assert_eq!(verify_checksum("$VNRST*+4D"), Ok(()));
}

#[test]
fn only_its_own_sum_is_accepted() {
    let payload = "VNWRG,07,40";
    for x in 0..=255u8 {
        let line = format!("${payload}*{x:02X}");
        assert_eq!(verify_checksum(&line).is_ok(), x == checksum(payload));
    }
}

#[test]
fn error_replies_are_spelled_out() {
    assert_eq!(
        vnerr_message("$VNERR,07*40"),
        "device error 0x07 (7): invalid parameter"
    );
    assert_eq!(
        vnerr_message("$VNERR,0C*02"),
        "device error 0x0C (12): insufficient baud rate — the configured async message won't fit \
         at this output rate over the current serial baud; raise the baud (e.g. `baud 921600`) or \
         shorten the async message (register 6)"
    );
    assert_eq!(
        vnerr_message("$VNERR, ff *00"),
        "device error 0xFF (255): error buffer overflow"
    );
    assert_eq!(
        vnerr_message("$VNERR,100*00"),
        "device error: $VNERR,100*00"
    );
    assert_eq!(vnerr_message("nonsense"), "device error: nonsense");
}

#[test]
fn error_codes_have_descriptions() {
    let known = [
        (1, "hard fault"),
        (2, "serial buffer overflow"),
        (3, "invalid checksum"),
        (4, "invalid command"),
        (5, "not enough parameters"),
        (6, "too many parameters"),
        (7, "invalid parameter"),
        (8, "invalid register"),
        (9, "unauthorized access"),
        (10, "watchdog reset"),
        (11, "output buffer overflow"),
        (12, "insufficient baud rate"),
        (255, "error buffer overflow"),
    ];
    for code in 0..=255u8 {
        let text = known
            .iter()
            .find(|(c, _)| *c == code)
            .map(|(_, t)| *t)
            .unwrap_or("unknown error");
        assert_eq!(error_description(code), text);
    }
}

#[test]
fn register_replies_give_their_value() {
    for hz in [0u32, 1, 40, 200, u32::MAX] {
        let line = build_command(&format!("VNWRG,07,{hz}"));
        assert_eq!(parse_reg07(&line), Some(hz));
    }
    for preset in [0u8, 14, 255] {
        let line = build_command(&format!("VNRRG,06,{preset}"));
        assert_eq!(parse_reg06(&line), Some(preset));
    }
    assert_eq!(parse_reg06("$VNWRG,06, 14 *5C"), Some(14));
    assert_eq!(parse_reg06("$VNRRG,06,256*00"), None);
    assert_eq!(parse_reg06("$VNRRG,07,40*5C"), None);
    assert_eq!(parse_reg07("$VNRRG,07,*00"), None);
    assert_eq!(parse_reg07("$VNRRG,7,40*00"), None);
}

#[test]
fn crc_is_xmodem() {
    assert_eq!(vn_crc16(b""), 0);
    assert_eq!(vn_crc16(b"123456789"), 0x31C3);
}

#[test]
fn crc_of_a_message_and_its_crc_is_zero() {
    let mut data: Vec<u8> = Vec::new();
    let mut x: u32 = 12345;
    for _ in 0..200 {
        x = x.wrapping_mul(1103515245).wrapping_add(12345);
        data.push((x >> 16) as u8);
        let mut framed = data.clone();
        framed.extend_from_slice(&vn_crc16(&data).to_be_bytes());
        assert_eq!(vn_crc16(&framed), 0);
    }
}

#[test]
fn field_lists_are_checked() {
    let names = |list: &str| -> Vec<&'static str> {
        parse_fields(list).unwrap().iter().map(|f| f.name).collect()
    };
    assert_eq!(names(" magpres ,imu,, accel,gyro,quat,ypr,time"), [
        "time", "ypr", "quat", "gyro", "accel", "imu", "magpres"
    ]);
    assert_eq!(names("gyro,accel"), names("accel,gyro,accel"));
    assert_eq!(
        parse_fields(" , ").err().unwrap(),
        "--fields needs at least one field"
    );
    assert_eq!(
        parse_fields("time,Accel,bogus").err().unwrap(),
        "unknown field `Accel`; choose from time, ypr, quat, gyro, accel, imu, magpres"
    );
}

#[test]
fn field_table_is_the_common_group() {
    for (name, bit, size) in [
        ("time", 0, 8),
        ("ypr", 3, 12),
        ("quat", 4, 16),
        ("gyro", 5, 12),
        ("accel", 8, 12),
        ("imu", 9, 24),
        ("magpres", 10, 20),
    ] {
        let f = lookup_field(name).unwrap();
        assert_eq!((f.name, f.bit, f.size), (name, bit, size));
    }
    assert!(lookup_field("Time").is_none());
    assert!(lookup_field("").is_none());
    assert_eq!(field_names(), "time, ypr, quat, gyro, accel, imu, magpres");
    let defaults: Vec<&str> = default_fields().iter().map(|f| f.name).collect();
    assert_eq!(defaults, ["time", "accel"]);
}

#[test]
fn masks_select_fields_and_back() {
    for mask in 0..=0xFFFFu16 {
        let picked = fields_from_mask(mask);
        let back = picked.iter().fold(0u16, |m, f| m | (1 << f.bit));
        assert_eq!(back, mask & 0x0739);
    }
    let all = fields_from_mask(0xFFFF);
    assert_eq!(all.iter().map(|f| f.size).sum::<usize>(), 104);
}

#[test]
fn listed_fields_survive_their_mask() {
    for list in ["time", "magpres,time", "gyro,accel,quat", "ypr,imu,time,accel"] {
        let listed = parse_fields(list).unwrap();
        let mask = listed.iter().fold(0u16, |m, f| m | (1 << f.bit));
        let back: Vec<&str> = fields_from_mask(mask).iter().map(|f| f.name).collect();
        let names: Vec<&str> = listed.iter().map(|f| f.name).collect();
        assert_eq!(back, names);
        assert!(listed.windows(2).all(|w| w[0].bit < w[1].bit));
    }
}

#[test]
fn every_error_code_reads_back() {
    for code in 0..=255u8 {
        let line = build_command(&format!("VNERR,{code:02X}"));
        let message = vnerr_message(line.trim());
        let start = format!("device error 0x{code:02X} ({code}): {}", error_description(code));
        assert!(message.starts_with(&start), "{message}");
    }
}

#[test]
fn field_names_read_back() {
    let names = |list: &str| -> Vec<&str> {
        parse_fields(list).unwrap().iter().map(|f| f.name).collect()
    };
    for list in ["accel", "magpres,time", " imu ,,gyro,imu, ypr"] {
        let once = names(list);
        assert_eq!(names(&once.join(",")), once);
    }
    assert_eq!(
        names(&field_names()),
        ["time", "ypr", "quat", "gyro", "accel", "imu", "magpres"]
    );
    assert_eq!(names("gyro,time"), names(" time,,gyro ,time,"));
}

#[test]
fn a_register_reply_is_of_one_register() {
    for verb in ["VNWRG", "VNRRG"] {
        for n in [0u64, 7, 255, 256, 1000, 4_294_967_295, 4_294_967_296] {
            let six = build_command(&format!("{verb},06,{n}"));
            assert_eq!(parse_reg06(&six), u8::try_from(n).ok());
            assert_eq!(parse_reg07(&six), None);
            let seven = build_command(&format!("{verb},07,{n}"));
            assert_eq!(parse_reg07(&seven), u32::try_from(n).ok());
            assert_eq!(parse_reg06(&seven), None);
        }
    }
}

#[test]
fn only_its_own_crc_makes_a_message_zero() {
    let data = [0x01, 0x01, 0x01, 0xFA, 0x7F];
    let crc = vn_crc16(&data).to_be_bytes();
    for a in 0..=255u8 {
        for b in 0..=255u8 {
            let mut whole = data.to_vec();
            whole.extend_from_slice(&[a, b]);
            assert_eq!(vn_crc16(&whole) == 0, [a, b] == crc);
        }
    }
}
