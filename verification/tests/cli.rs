//! The command line of `rw-vn100`.
use rw_vn100::cli::{parse_args, BinSet, Command, Config};
use rw_vn100::registers::{ascii_type_name, parse_ascii_type};

fn parse(words: &[&str]) -> Result<(Config, Command), String> {
    parse_args(words.iter().map(|w| w.to_string()).collect())
}

#[test]
fn parses_set_ascii_hz_and_flags() {
    let args = [
        "--port",
        "/dev/ttyACM0",
        "--baud",
        "921600",
        "set-ascii-hz=40",
    ];
    let (config, command) = parse(&args).unwrap();
    assert_eq!(config.port, "/dev/ttyACM0");
    assert_eq!(config.baud, 921_600);
    assert!(matches!(
        command,
        Command::SetAsciiHz {
            hz: 40,
            persist: false
        }
    ));
}

#[test]
fn rejects_invalid_ascii_rate() {
    assert!(parse(&["set-ascii-hz=33"]).is_err());
}

#[test]
fn parses_set_ascii_preset_and_off() {
    let (_, c) = parse(&["set-ascii=ymr"]).unwrap();
    assert!(matches!(
        c,
        Command::SetAscii {
            preset: 14,
            persist: false
        }
    ));
    let (_, c) = parse(&["set-ascii=off"]).unwrap();
    assert!(matches!(c, Command::SetAscii { preset: 0, .. }));
    // Bare set-ascii is an error: reg 6 has no separate enable bit.
    assert!(parse(&["set-ascii"]).is_err());
}

#[test]
fn parses_get_ascii_with_persist_guard() {
    let (_, c) = parse(&["get-ascii"]).unwrap();
    assert!(matches!(c, Command::GetAscii));
    assert!(parse(&["get-ascii", "--persist"]).is_err());
}

#[test]
fn parses_set_bin_variants() {
    // set-bin-fields sets the mask. The list sorts to bit order
    // (time=0, accel=8) and persists.
    let (_, c) = parse(&["set-bin-fields=accel,time", "--persist"]).unwrap();
    match c {
        Command::SetBin {
            action: BinSet::Fields(fields),
            persist,
        } => {
            assert!(persist);
            let names: Vec<&str> = fields.iter().map(|f| f.name).collect();
            assert_eq!(names, vec!["time", "accel"]);
        }
        _ => panic!("expected SetBin Fields"),
    }
    // set-bin=on / =off toggle streaming.
    let (_, c) = parse(&["set-bin=on"]).unwrap();
    assert!(matches!(
        c,
        Command::SetBin {
            action: BinSet::Enable,
            ..
        }
    ));
    let (_, c) = parse(&["set-bin=off"]).unwrap();
    assert!(matches!(
        c,
        Command::SetBin {
            action: BinSet::Off,
            ..
        }
    ));
    // Bare set-bin and a non-on/off value are errors.
    assert!(parse(&["set-bin"]).is_err());
    assert!(parse(&["set-bin=bogus"]).is_err());
    // Unknown field, and bare set-bin-fields, are errors.
    assert!(parse(&["set-bin-fields=bogus"]).is_err());
    assert!(parse(&["set-bin-fields"]).is_err());
}

#[test]
fn parses_set_bin_hz_and_validates_divisor() {
    let (_, c) = parse(&["set-bin-hz=200"]).unwrap();
    assert!(matches!(
        c,
        Command::SetBinHz {
            hz: 200,
            persist: false
        }
    ));
    // 150 does not divide 800.
    assert!(parse(&["set-bin-hz=150"]).is_err());
    // Bare set-bin-hz needs a value.
    assert!(parse(&["set-bin-hz"]).is_err());
}

#[test]
fn parses_get_bin() {
    let (_, c) = parse(&["get-bin"]).unwrap();
    assert!(matches!(c, Command::GetBin));
}

#[test]
fn cli_parses_rrg_and_wrg() {
    let (_, c) = parse(&["rrg", "1"]).unwrap();
    assert!(matches!(c, Command::Rrg { id: 1 }));

    let (_, c) = parse(&["wrg", "7", "40"]).unwrap();
    match c {
        Command::Wrg { id, params } => {
            assert_eq!(id, 7);
            assert_eq!(params, vec!["40".to_string()]);
        }
        _ => panic!("expected Wrg"),
    }

    // wrg needs at least one value
    assert!(parse(&["wrg", "7"]).is_err());
}

#[test]
fn parses_bench_passive() {
    // Bare bench defaults to 5 s.
    let (_, c) = parse(&["bench"]).unwrap();
    assert!(matches!(c, Command::Bench { secs: 5 }));
    // Positional SECS.
    let (_, c) = parse(&["bench", "10"]).unwrap();
    assert!(matches!(c, Command::Bench { secs: 10 }));
    // Non-numeric duration is rejected.
    assert!(parse(&["bench", "abc"]).is_err());
    // bench takes at most one argument — it is passive and configures nothing.
    assert!(parse(&["bench", "1", "2"]).is_err());
}

#[test]
fn cli_help_is_recognized() {
    for flag in ["help", "--help", "-h"] {
        let (_, command) = parse(&[flag]).unwrap();
        assert!(matches!(command, Command::Help));
    }
}

#[test]
fn cli_parses_baud_command() {
    let (_, command) = parse(&["baud", "921600"]).unwrap();
    assert!(matches!(
        command,
        Command::SetBaud {
            baud: 921_600,
            persist: false
        }
    ));
}

#[test]
fn cli_rejects_invalid_baud() {
    assert!(parse(&["baud", "100000"]).is_err());
}

#[test]
fn cli_parses_ascii_type() {
    assert_eq!(parse_ascii_type("vnymr").unwrap(), 14); // ICD §3.2.3 / Ador::YMR
    assert_eq!(parse_ascii_type("YMR").unwrap(), 14);
    assert_eq!(parse_ascii_type("qtn").unwrap(), 2);
    assert!(parse_ascii_type("bogus").is_err());
}

#[test]
fn cli_parses_reset_commands() {
    let (_, reset) = parse(&["reset"]).unwrap();
    assert!(matches!(reset, Command::Reset));
    let (_, factory) = parse(&["factory-reset"]).unwrap();
    assert!(matches!(factory, Command::FactoryReset));
}

#[test]
fn cli_baud_with_persist_flag() {
    let (_, command) = parse(&["baud", "921600", "--persist"]).unwrap();
    assert!(matches!(
        command,
        Command::SetBaud {
            baud: 921_600,
            persist: true
        }
    ));
}

fn error(words: &[&str]) -> String {
    match parse(words) {
        Ok(_) => panic!("expected an error for {words:?}"),
        Err(e) => e,
    }
}

#[test]
fn options_may_stand_anywhere_and_the_last_one_counts() {
    let (config, command) =
        parse(&["--baud", "9600", "rrg", "--port", "a", "1", "--port", "b", "--baud", "+57600"])
            .unwrap();
    assert_eq!(config.port, "b");
    assert_eq!(config.baud, 57600);
    assert!(matches!(command, Command::Rrg { id: 1 }));
    let (config, _) = parse(&["get-bin"]).unwrap();
    assert_eq!(config.port, "/dev/ttyAMA0");
    assert_eq!(config.baud, 115_200);
}

#[test]
fn help_and_version_win_over_everything() {
    let (config, command) = parse(&["--port", "-h", "bogus", "-V"]).unwrap();
    assert!(matches!(command, Command::Help));
    assert_eq!((config.port.as_str(), config.baud), ("", 0));
    for flag in ["--version", "-V"] {
        let (_, command) = parse(&["bogus", "--baud", flag]).unwrap();
        assert!(matches!(command, Command::Version));
    }
}

#[test]
fn option_errors_are_named() {
    assert_eq!(error(&["--port"]), "--port requires a value");
    assert_eq!(error(&["get-bin", "--baud"]), "--baud requires a value");
    assert_eq!(error(&["--baud", "fast"]), "--baud must be a number");
    assert_eq!(error(&["--baud", "4294967296"]), "--baud must be a number");
}

#[test]
fn command_errors_are_named() {
    assert_eq!(
        error(&[]),
        "missing command (`get-ascii`, `set-ascii`, `set-ascii-hz`, `get-bin`, `set-bin-fields`, \
         `set-bin-hz`, `set-bin`, `baud`, `rrg`, `wrg`, `bench`, `reset`, `factory-reset`, or \
         `help`)"
    );
    assert_eq!(error(&["get-hz"]), "unknown command `get-hz`");
    assert_eq!(error(&["nope=1=2"]), "unknown command `nope`");
    assert_eq!(
        error(&["get-ascii", "--persist"]),
        "--persist applies to a `set-*` verb, not `get-ascii`"
    );
    assert_eq!(
        error(&["--persist", "get-bin"]),
        "--persist applies to a `set-*` verb, not `get-bin`"
    );
}

#[test]
fn output_verb_errors_are_named() {
    assert_eq!(
        error(&["set-ascii"]),
        "set-ascii needs a preset, e.g. `set-ascii=ymr` (or `set-ascii=off`)"
    );
    assert_eq!(
        error(&["set-ascii= Bogus"]),
        "unknown ASCII type ` Bogus`; choose from off, ypr, qtn, qmr, mag, acc, gyr, mar, ymr, \
         yba, yia, imu, dtv, hve"
    );
    assert_eq!(
        error(&["set-ascii-hz"]),
        "set-ascii-hz needs a rate, e.g. `set-ascii-hz=40`"
    );
    assert_eq!(error(&["set-ascii-hz=x"]), "ASCII rate must be a number");
    assert_eq!(
        error(&["set-ascii-hz=33"]),
        "33 Hz is not a valid ASCII async rate; choose one of [1, 2, 4, 5, 10, 20, 25, 40, 50, \
         100, 200]"
    );
    assert_eq!(
        error(&["set-bin=maybe"]),
        "set-bin needs =on or =off (set fields with set-bin-fields=<FIELDS>)"
    );
    assert_eq!(
        error(&["set-bin-fields"]),
        "set-bin-fields needs a field list, e.g. `set-bin-fields=time,accel,gyro`"
    );
    assert_eq!(
        error(&["set-bin-fields=,"]),
        "--fields needs at least one field"
    );
    assert_eq!(
        error(&["set-bin-hz"]),
        "set-bin-hz needs a rate, e.g. `set-bin-hz=200`"
    );
    assert_eq!(error(&["set-bin-hz="]), "binary rate must be a number");
    for hz in ["0", "150", "801"] {
        assert_eq!(
            error(&[&format!("set-bin-hz={hz}")]),
            format!(
                "{hz} Hz invalid for binary; the rate is 800/divisor, so HZ must divide 800 \
                 (e.g. 50, 100, 200, 400)"
            )
        );
    }
}

#[test]
fn argument_errors_are_named() {
    assert_eq!(
        error(&["baud"]),
        "baud requires a value, e.g. `baud 921600`"
    );
    assert_eq!(error(&["baud", "x"]), "baud must be a number");
    assert_eq!(
        error(&["baud", "100000"]),
        "100000 is not a valid VN-100 baud; choose one of [9600, 19200, 38400, 57600, 115200, \
         128000, 230400, 460800, 921600]"
    );
    assert_eq!(
        error(&["rrg"]),
        "rrg requires a register id, e.g. `rrg 1`"
    );
    assert_eq!(error(&["rrg", "256"]), "register id must be 0-255");
    assert_eq!(
        error(&["wrg"]),
        "wrg requires a register id, e.g. `wrg 7 40`"
    );
    assert_eq!(error(&["wrg", "-1"]), "register id must be 0-255");
    assert_eq!(
        error(&["wrg", "7"]),
        "wrg requires at least one value, e.g. `wrg 7 40`"
    );
    assert_eq!(
        error(&["bench", "1", "2"]),
        "bench takes at most one argument, the measurement duration in seconds (e.g. `bench 10`); \
         it is passive and configures nothing"
    );
    assert_eq!(
        error(&["bench", "abc"]),
        "bench duration must be a number of seconds, got `abc`"
    );
}

#[test]
fn values_stand_after_the_first_equals_sign() {
    assert_eq!(error(&["set-bin-hz=200=1"]), "binary rate must be a number");
    // Verbs without a value ignore one.
    let (_, command) = parse(&["reset=now"]).unwrap();
    assert!(matches!(command, Command::Reset));
    let (_, command) = parse(&["baud=1", "9600"]).unwrap();
    assert!(matches!(command, Command::SetBaud { baud: 9600, .. }));
}

#[test]
fn presets_have_names() {
    for (name, value, shown) in [
        ("off", 0, "off"),
        ("ypr", 1, "VNYPR"),
        ("qtn", 2, "VNQTN"),
        ("qmr", 8, "VNQMR"),
        ("mag", 10, "VNMAG"),
        ("acc", 11, "VNACC"),
        ("gyr", 12, "VNGYR"),
        ("mar", 13, "VNMAR"),
        ("ymr", 14, "VNYMR"),
        ("yba", 16, "VNYBA"),
        ("yia", 17, "VNYIA"),
        ("imu", 19, "VNIMU"),
        ("dtv", 30, "VNDTV"),
        ("hve", 34, "VNHVE"),
    ] {
        assert_eq!(parse_ascii_type(name), Ok(value));
        assert_eq!(parse_ascii_type(&format!(" VN{name}\t")), Ok(value));
        assert_eq!(ascii_type_name(value), shown);
    }
    assert_eq!(ascii_type_name(9), "ADOR 9");
    // Lower-casing follows Unicode: the Kelvin sign is a `k`, no preset.
    assert!(parse_ascii_type("\u{212a}").is_err());
}

#[test]
fn the_port_may_stand_anywhere() {
    for line in [
        "set-ascii-hz=40 --persist",
        "--baud 9600 wrg 7 40",
        "--baud 9600 bogus",
        "bench 1 2",
        "reset",
    ] {
        let args: Vec<&str> = line.split(' ').collect();
        let without = parse(&args);
        for at in 0..=args.len() {
            // Not between an option and its value.
            if at > 0 && args[at - 1] == "--baud" {
                continue;
            }
            let mut more = args.clone();
            more.splice(at..at, ["--port", "/dev/x"]);
            match (parse(&more), &without) {
                (Ok((config, command)), Ok((plain, same))) => {
                    assert_eq!(config.port, "/dev/x");
                    assert_eq!(plain.port, "/dev/ttyAMA0");
                    assert_eq!(config.baud, plain.baud);
                    assert_eq!(
                        std::mem::discriminant(&command),
                        std::mem::discriminant(same)
                    );
                }
                (Err(e), Err(f)) => assert_eq!(e, *f),
                _ => panic!("{more:?}"),
            }
        }
    }
    let (config, _) = parse(&["--port", "a", "reset", "--port", "b"]).unwrap();
    assert_eq!(config.port, "b");
}

#[test]
fn display_names_read_back() {
    let named = [0, 1, 2, 8, 10, 11, 12, 13, 14, 16, 17, 19, 30, 34];
    for value in 0..=255u8 {
        let name = ascii_type_name(value);
        if named.contains(&value) {
            assert_eq!(parse_ascii_type(&name), Ok(value));
        } else {
            assert_eq!(name, format!("ADOR {value}"));
            assert!(parse_ascii_type(&name).is_err());
        }
    }
}
