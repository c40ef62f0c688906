//! The `rdwr_vn100` tool: its protocol use, command line and reply reading.
use rw_vn100::cli::Config;
use rw_vn100::fields::parse_fields;
use rw_vn100::proto::{
    build_command, checksum, error_description, parse_reg07, verify_checksum, vn_crc16,
    vnerr_message,
};
use rw_vn100::rdwr::{parse_args, parse_serial_port, Command};
use rw_vn100::registers::parse_ascii_type;
use rw_vn100::transact::{read_reply, Accept, ReadEvent, ReplyStep};
use std::io::{ErrorKind, Read};
use std::time::{Duration, Instant};

#[test]
fn main_checksum_matches_known_value() {
    assert_eq!(format!("{:02X}", checksum("VNRRG,07")), "74");
}

#[test]
fn main_builds_read_command() {
    assert_eq!(build_command("VNRRG,07"), "$VNRRG,07*74\r\n");
}

#[test]
fn main_builds_write_command() {
    // XOR of "VNWRG,07,40"
    assert_eq!(build_command("VNWRG,07,40"), "$VNWRG,07,40*59\r\n");
}

#[test]
fn main_verifies_good_checksum() {
    let line = format!("$VNRRG,07,40*{:02X}", checksum("VNRRG,07,40"));
    assert!(verify_checksum(&line).is_ok());
}

#[test]
fn main_rejects_bad_checksum() {
    assert!(verify_checksum("$VNRRG,07,40*00").is_err());
    assert!(verify_checksum("no dollar*FF").is_err());
    assert!(verify_checksum("$VNRRG,07,40").is_err()); // no '*'
}

#[test]
fn main_decodes_insufficient_baud_error() {
    let msg = vnerr_message("$VNERR,0C*02");
    assert!(msg.contains("insufficient baud rate"), "{msg}");
    assert!(msg.contains("(12)"), "{msg}");
}

#[test]
fn main_decodes_other_error_codes() {
    assert_eq!(error_description(7), "invalid parameter");
    assert_eq!(error_description(8), "invalid register");
    assert!(vnerr_message("$VNERR,07*XX").contains("invalid parameter"));
}

#[test]
fn main_parses_read_and_write_responses() {
    assert_eq!(parse_reg07("$VNRRG,07,40*4C"), Some(40));
    assert_eq!(parse_reg07("$VNWRG,07,100*2B"), Some(100));
    assert_eq!(parse_reg07("$VNYMR,+010.0*7F"), None);
}

#[test]
fn main_fields_parse_orders_by_bit_and_dedups() {
    let f = parse_fields("accel,time,accel").unwrap();
    let names: Vec<&str> = f.iter().map(|x| x.name).collect();
    assert_eq!(names, vec!["time", "accel"]); // bit-ordered + de-duplicated
    let mask: u16 = f.iter().fold(0, |m, x| m | (1u16 << x.bit));
    assert_eq!(mask, 0x0101); // time bit0 + accel bit8 — matches the known config
    assert!(parse_fields("bogus").is_err());
}

#[test]
fn main_builds_reset_commands() {
    // XOR of "VNRST" and "VNRFS"
    assert_eq!(build_command("VNRST"), "$VNRST*4D\r\n");
    assert_eq!(build_command("VNRFS"), "$VNRFS*5F\r\n");
}

#[test]
fn main_vn_crc16_append_yields_zero() {
    // The property frame validation relies on: CRC over (data + its CRC) == 0.
    let data = [0x01u8, 0x01, 0x01, 0xDE, 0xAD, 0xBE, 0xEF];
    let c = vn_crc16(&data);
    let mut framed = data.to_vec();
    framed.push((c >> 8) as u8); // VN sends CRC MSB first
    framed.push((c & 0xff) as u8);
    assert_eq!(vn_crc16(&framed), 0);
}

fn parse(words: &[&str]) -> Result<(Config, Command), String> {
    parse_args(words.iter().map(|w| w.to_string()).collect())
}

#[test]
fn rejects_invalid_set_rate() {
    assert!(parse(&["set-hz", "33"]).is_err());
}

#[test]
fn parses_flags_and_set_hz_command() {
    let args = ["--port", "/dev/ttyACM0", "--baud", "921600", "set-hz", "40"];
    let (config, command) = parse(&args).unwrap();
    assert_eq!(config.port, "/dev/ttyACM0");
    assert_eq!(config.baud, 921_600);
    assert!(matches!(
        command,
        Command::SetHz {
            hz: 40,
            persist: false
        }
    ));
}

#[test]
fn set_hz_with_persist_flag() {
    let (_, command) = parse(&["set-hz", "40", "--persist"]).unwrap();
    assert!(matches!(
        command,
        Command::SetHz {
            hz: 40,
            persist: true
        }
    ));
}

#[test]
fn persist_with_get_hz_is_rejected() {
    assert!(parse(&["get-hz", "--persist"]).is_err());
}

#[test]
fn main_parses_rrg_and_wrg() {
    let (_, c) = parse(&["rrg", "1"]).unwrap();
    assert!(matches!(c, Command::Rrg { id: 1 }));

    let (_, c) = parse(&["wrg", "7", "40"]).unwrap();
    match c {
        Command::Wrg { id, params } => {
            assert_eq!(id, 7);
            assert_eq!(params, vec!["40".to_string()]);
        }
        _ => panic!("expected Wrg"),
    }

    // wrg needs at least one value
    assert!(parse(&["wrg", "7"]).is_err());
}

#[test]
fn parses_bench_bin_with_fields() {
    let args = [
        "bench",
        "--bin",
        "--hz",
        "200",
        "--fields",
        "time,accel,gyro",
    ];
    let (_, c) = parse(&args).unwrap();
    match c {
        Command::Bench {
            binary,
            hz,
            fields,
            serial_port,
            ..
        } => {
            assert!(binary);
            assert_eq!(hz, 200);
            assert_eq!(serial_port, 2); // default port 2 (RPi5 TTL header)
            let names: Vec<&str> = fields.iter().map(|f| f.name).collect();
            assert_eq!(names, vec!["time", "gyro", "accel"]); // bits 0, 5, 8
        }
        _ => panic!("expected Bench"),
    }
    // --fields requires --bin
    assert!(parse(&["bench", "--fields", "time"]).is_err());
}

#[test]
fn parses_serial_port() {
    assert_eq!(parse_serial_port("1").unwrap(), 1);
    assert_eq!(parse_serial_port("2").unwrap(), 2);
    assert_eq!(parse_serial_port("both").unwrap(), 3);
    assert_eq!(parse_serial_port("3").unwrap(), 3);
    assert!(parse_serial_port("0").is_err());

    // --serial-port flows through to the binary bench config.
    let (_, c) = parse(&["bench", "--bin", "--serial-port", "2"]).unwrap();
    match c {
        Command::Bench { serial_port, .. } => assert_eq!(serial_port, 2),
        _ => panic!("expected Bench"),
    }

    // --serial-port requires --bin (ASCII targets the connected port).
    assert!(parse(&["bench", "--serial-port", "2"]).is_err());
}

#[test]
fn main_help_is_recognized() {
    for flag in ["help", "--help", "-h"] {
        let (_, command) = parse(&[flag]).unwrap();
        assert!(matches!(command, Command::Help));
    }
}

#[test]
fn main_parses_baud_command() {
    let (_, command) = parse(&["baud", "921600"]).unwrap();
    assert!(matches!(
        command,
        Command::SetBaud {
            baud: 921_600,
            persist: false
        }
    ));
}

#[test]
fn main_rejects_invalid_baud() {
    assert!(parse(&["baud", "100000"]).is_err());
}

#[test]
fn parses_bench_ascii_command() {
    let (_, command) = parse(&["bench", "--hz", "50", "--secs", "3"]).unwrap();
    match command {
        Command::Bench {
            binary,
            hz,
            secs,
            fields,
            serial_port,
            ascii_type,
        } => {
            assert!(!binary); // ASCII is the default
            assert_eq!(hz, 50);
            assert_eq!(secs, 3);
            assert!(fields.is_empty());
            assert_eq!(serial_port, 0); // unused for ASCII
            assert_eq!(ascii_type, None);
        }
        _ => panic!("expected Bench"),
    }
}

#[test]
fn main_parses_ascii_type() {
    assert_eq!(parse_ascii_type("vnymr").unwrap(), 14); // ICD §3.2.3 / Ador::YMR
    assert_eq!(parse_ascii_type("YMR").unwrap(), 14);
    assert_eq!(parse_ascii_type("qtn").unwrap(), 2);
    assert!(parse_ascii_type("bogus").is_err());

    let (_, c) = parse(&["bench", "--type", "vnqtn"]).unwrap();
    match c {
        Command::Bench {
            binary, ascii_type, ..
        } => {
            assert!(!binary);
            assert_eq!(ascii_type, Some(2));
        }
        _ => panic!("expected Bench"),
    }

    // --type with --bin is rejected.
    assert!(parse(&["bench", "--bin", "--type", "ymr"]).is_err());
}

#[test]
fn bench_defaults_and_validation() {
    // Bare bench: ASCII, 40 Hz, 5 s.
    let (_, command) = parse(&["bench"]).unwrap();
    match command {
        Command::Bench {
            binary, hz, secs, ..
        } => {
            assert!(!binary);
            assert_eq!(hz, 40);
            assert_eq!(secs, 5);
        }
        _ => panic!("expected Bench"),
    }
    // 150 is not a valid ASCII async rate.
    assert!(parse(&["bench", "--hz", "150"]).is_err());
    // 150 does not divide 800 for binary either.
    assert!(parse(&["bench", "--bin", "--hz", "150"]).is_err());
}

#[test]
fn main_parses_reset_commands() {
    let (_, reset) = parse(&["reset"]).unwrap();
    assert!(matches!(reset, Command::Reset));
    let (_, factory) = parse(&["factory-reset"]).unwrap();
    assert!(matches!(factory, Command::FactoryReset));
}

#[test]
fn main_baud_with_persist_flag() {
    let (_, command) = parse(&["baud", "921600", "--persist"]).unwrap();
    assert!(matches!(
        command,
        Command::SetBaud {
            baud: 921_600,
            persist: true
        }
    ));
}

/// Reads from `reader` until `filter` accepts a line or the deadline passes.
fn read_until<R: Read>(
    reader: &mut R,
    deadline: Instant,
    filter: &Accept,
) -> std::io::Result<Option<String>> {
    let mut buf = [0u8; 256];
    let mut line: Vec<u8> = Vec::new();
    loop {
        let mut failure = None;
        let event = if Instant::now() >= deadline {
            ReadEvent::Deadline
        } else {
            match reader.read(&mut buf) {
                Ok(n) => ReadEvent::Data(&buf[..n]),
                Err(e) => match e.kind() {
                    ErrorKind::TimedOut => ReadEvent::TimedOut,
                    ErrorKind::WouldBlock => ReadEvent::WouldBlock,
                    _ => {
                        failure = Some(e);
                        ReadEvent::Failed
                    }
                },
            }
        };
        match read_reply(&mut line, event, filter) {
            ReplyStep::Continue => {}
            ReplyStep::Reply(reply) => return Ok(Some(reply)),
            ReplyStep::NoReply => return Ok(None),
            ReplyStep::Fail => return Err(failure.unwrap()),
        }
    }
}

#[test]
fn main_read_reply_recovers_reply_after_binary_junk() {
    // Binary bytes (no newline) immediately precede the ASCII echo, as when
    // the binary stream is still flowing during the disable-binary command.
    let mut data = vec![0xFA, 0x01, 0x10, 0x99, 0x00];
    data.extend_from_slice(b"$VNWRG,75,0,4,01,0101*71\r\n");
    let mut cursor = std::io::Cursor::new(data);
    let deadline = Instant::now() + Duration::from_secs(5);
    let got = read_until(&mut cursor, deadline, &Accept::Prefix("$VNWRG,75")).unwrap();
    assert_eq!(got.as_deref(), Some("$VNWRG,75,0,4,01,0101*71"));
}

/// A reader that always yields non-newline bytes.
struct Garbage;

impl Read for Garbage {
    fn read(&mut self, buf: &mut [u8]) -> std::io::Result<usize> {
        for b in buf.iter_mut() {
            *b = b'x';
        }
        Ok(buf.len())
    }
}

#[test]
fn main_read_reply_honors_deadline_on_newlineless_garbage() {
    // A reader that always yields non-newline bytes must not hang.
    let deadline = Instant::now() + Duration::from_millis(100);
    let got = read_until(&mut Garbage, deadline, &Accept::Prefix("")).unwrap();
    assert_eq!(got, None);
    assert!(Instant::now() >= deadline);
}

fn error(words: &[&str]) -> String {
    match parse(words) {
        Ok(_) => panic!("expected an error for {words:?}"),
        Err(e) => e,
    }
}

#[test]
fn every_option_with_a_value_needs_one() {
    for option in [
        "--port",
        "--baud",
        "--hz",
        "--secs",
        "--fields",
        "--serial-port",
        "--type",
    ] {
        assert_eq!(
            error(&["bench", option]),
            format!("{option} requires a value")
        );
    }
    assert_eq!(error(&["--baud", "x"]), "--baud must be a number");
    assert_eq!(error(&["--hz", "x"]), "--hz must be a number");
    assert_eq!(error(&["--secs", "-1"]), "--secs must be a number");
}

#[test]
fn configuring_command_errors_are_named() {
    assert_eq!(
        error(&[]),
        "missing command (`get-hz`, `set-hz`, `baud`, `rrg`, `wrg`, `bench`, `reset`, \
         `factory-reset`, or `help`)"
    );
    assert_eq!(error(&["bench=5"]), "unknown command `bench=5`");
    assert_eq!(
        error(&["get-hz", "--persist"]),
        "--persist only applies to `set-hz`"
    );
    assert_eq!(
        error(&["set-hz"]),
        "set-hz requires a frequency, e.g. `set-hz 40`"
    );
    assert_eq!(error(&["set-hz", "fast"]), "frequency must be a number");
    assert_eq!(
        error(&["set-hz", "33"]),
        "33 Hz is not valid; choose one of [1, 2, 4, 5, 10, 20, 25, 40, 50, 100, 200]"
    );
}

#[test]
fn configuring_bench_errors_are_named() {
    assert_eq!(
        error(&["bench", "--bin", "--type", "ymr"]),
        "--type only applies to the ASCII bench (binary picks data with --fields)"
    );
    assert_eq!(
        error(&["bench", "--bin", "--hz", "0"]),
        "--hz 0 invalid for --bin; the binary rate is 800/divisor, so HZ must divide 800 (e.g. 50, \
         100, 200, 400)"
    );
    assert_eq!(
        error(&["bench", "--bin", "--fields", "x"]),
        "unknown field `x`; choose from time, ypr, quat, gyro, accel, imu, magpres"
    );
    assert_eq!(
        error(&["bench", "--bin", "--serial-port", " ÄB "]),
        "invalid --serial-port `äb`; choose 1, 2, or both"
    );
    assert_eq!(
        error(&["bench", "--fields", "time"]),
        "--fields only applies with --bin (ASCII async uses preset messages, not arbitrary fields)"
    );
    assert_eq!(
        error(&["bench", "--serial-port", "2"]),
        "--serial-port only applies with --bin (register 75); the ASCII async output targets the \
         connected port automatically"
    );
    assert!(error(&["bench", "--type", "x"]).starts_with("unknown ASCII type `x`"));
    assert_eq!(
        error(&["bench", "--hz", "150"]),
        "--hz 150 not valid for the ASCII async output; choose one of [1, 2, 4, 5, 10, 20, 25, 40, \
         50, 100, 200] (or use --bin)"
    );
}

#[test]
fn port_names_ignore_case_and_white_space() {
    assert_eq!(parse_serial_port(" BOTH\n"), Ok(3));
    assert_eq!(parse_serial_port("\t1 "), Ok(1));
    assert!(parse_serial_port("").is_err());
}

#[test]
fn the_port_may_stand_anywhere_when_configuring() {
    let args = ["bench", "--bin", "--hz", "200", "--fields", "accel,gyro"];
    for at in [0, 1, 2, 4, 6] {
        let mut more = args.to_vec();
        more.splice(at..at, ["--port", "/dev/x"]);
        let (config, command) = parse(&more).unwrap();
        assert_eq!((config.port.as_str(), config.baud), ("/dev/x", 115_200));
        assert!(matches!(
            command,
            Command::Bench {
                binary: true,
                hz: 200,
                ..
            }
        ));
    }
}
