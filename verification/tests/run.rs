//! Whole sessions, played against a scripted device.
use rw_vn100::bench::{AsciiTally, Stats};
use rw_vn100::cli::Config;
use rw_vn100::report::Cell;
use rw_vn100::run::{configuring_prelude, prelude, Prelude, Session};
use rw_vn100::session::{print_reg_fields, Action, Event, Turn};
use rw_vn100::transact::LineFilter;

/// The text of cells; numbers that need the measured time are shown as `#`.
fn shown(cells: &[Cell]) -> String {
    cells
        .iter()
        .map(|c| match c {
            Cell::Text(s) => s.clone(),
            _ => "#".to_string(),
        })
        .collect()
}

fn words(line: &str) -> Vec<String> {
    line.split_whitespace().map(String::from).collect()
}

/// What was printed and done, one entry per print or action.
struct Log {
    entries: Vec<String>,
    result: Result<(), String>,
}

/// Plays a session: `device` answers each action.
fn play(mut session: Session, mut turn: Turn, mut device: impl FnMut(&Action) -> Event) -> Log {
    let mut entries = Vec::new();
    for _ in 0..10 {
        let text = shown(&turn.output);
        entries.extend(text.lines().map(String::from));
        let event = match turn.action {
            Action::Done(result) => return Log { entries, result },
            ref action => {
                entries.push(match action {
                    Action::Send {
                        command, attempts, ..
                    } => format!("> {} x{attempts}", command.trim()),
                    Action::Reboot { command, .. } => format!("> {} reboot", command.trim()),
                    Action::SwitchBaud { baud } => format!("> switch {baud}"),
                    Action::Measure { secs } => format!("> measure {secs}"),
                    Action::MeasureAscii { secs } => format!("> measure ascii {secs}"),
                    Action::MeasureBinary { secs, frame_len } => {
                        format!("> measure {frame_len}-byte frames {secs}")
                    }
                    Action::Done(_) => String::new(),
                });
                let event = device(action);
                if let (Action::Send { accept, .. }, Event::Replied(Ok(reply))) = (action, &event) {
                    assert!(accept.accept(reply), "{reply}");
                }
                event
            }
        };
        let (next, then) = session.next(event);
        session = next;
        turn = then;
    }
    panic!("the session does not end");
}

/// Answers commands from a list, in order.
fn script(replies: &[Result<&str, &str>]) -> impl FnMut(&Action) -> Event {
    let mut left: Vec<Result<String, String>> = replies
        .iter()
        .map(|r| r.map(String::from).map_err(String::from))
        .collect();
    left.reverse();
    move |action| match action {
        Action::Send { .. } => Event::Replied(left.pop().unwrap()),
        Action::Reboot { .. } => Event::Rebooted(left.pop().unwrap()),
        Action::SwitchBaud { .. } => Event::Switched(left.pop().unwrap().map(|_| ())),
        Action::Measure { .. } => Event::Measured(Stats {
            msgs: 0,
            ascii_bytes: 0,
            ascii_sample: None,
            frames: 0,
            bin_bytes: 0,
            bin_mask: None,
            bin_first: None,
            total_bytes: 0,
        }),
        Action::MeasureAscii { .. } => match left.pop().unwrap() {
            Ok(sample) => Event::MeasuredAscii(AsciiTally {
                msgs: 200,
                bytes: 23000,
                sample: Some(sample),
            }),
            Err(e) if e.is_empty() => Event::MeasuredAscii(AsciiTally {
                msgs: 0,
                bytes: 0,
                sample: None,
            }),
            Err(e) => Event::Failed(e),
        },
        Action::MeasureBinary { frame_len, .. } => match left.pop().unwrap() {
            Ok(_) => Event::MeasuredBinary {
                frames: 1000,
                bytes: 1000 * *frame_len as u64,
                first: Some(vec![0; *frame_len]),
            },
            Err(e) if e.is_empty() => Event::MeasuredBinary {
                frames: 0,
                bytes: 0,
                first: None,
            },
            Err(e) => Event::Failed(e),
        },
        Action::Done(_) => panic!("done"),
    }
}

fn rdwr(line: &str, replies: &[Result<&str, &str>]) -> Log {
    let (config, command) = rw_vn100::rdwr::parse_args(words(line)).unwrap();
    let (session, turn) = Session::run_configuring(config.baud, command);
    play(session, turn, script(replies))
}

fn rw(line: &str, replies: &[Result<&str, &str>]) -> Log {
    let (config, command) = rw_vn100::cli::parse_args(words(line)).unwrap();
    let (session, turn) = Session::run(config.baud, command);
    play(session, turn, script(replies))
}

#[test]
fn reading_the_rate() {
    let log = rdwr("get-hz", &[Ok("$VNRRG,07,40*5C")]);
    assert_eq!(
        log.entries,
        [
            "> $VNRRG,07*74 x5",
            "RX: $VNRRG,07,40*5C",
            "Async output rate: 40 Hz"
        ]
    );
    assert_eq!(log.result, Ok(()));
    let log = rdwr("get-hz", &[Err("gone")]);
    assert_eq!(log.entries, ["> $VNRRG,07*74 x5"]);
    assert_eq!(log.result, Err("gone".to_string()));
}

#[test]
fn writing_the_rate_and_saving_it() {
    let log = rdwr("set-hz 40", &[Ok("$VNWRG,07,40*59")]);
    assert_eq!(
        log.entries,
        [
            "> $VNWRG,07,40*59 x5",
            "RX: $VNWRG,07,40*59",
            "Async output rate: 40 Hz"
        ]
    );
    let log = rdwr(
        "set-hz 40 --persist",
        &[Ok("$VNWRG,07,40*59"), Ok("$VNWNV*57")],
    );
    assert_eq!(
        log.entries[3..],
        [
            "> $VNWNV*57 x5",
            "RX: $VNWNV*57",
            "Settings written to non-volatile memory."
        ]
    );
    let log = rw(
        "set-ascii-hz=40 --persist",
        &[Ok("$VNWRG,07,40*59"), Err("gone")],
    );
    assert_eq!(log.entries[0], "> $VNWRG,07,40*59 x5");
    assert_eq!(log.entries[3], "> $VNWNV*57 x5");
    assert_eq!(log.result, Err("gone".to_string()));
}

#[test]
fn changing_the_baud_rate() {
    let replies = [
        Ok("$VNWRG,05,921600*53"),
        Ok(""),
        Ok("$VNRRG,07,40*5C"),
        Ok("$VNWNV*57"),
    ];
    let log = rdwr("baud 921600", &replies);
    assert_eq!(
        log.entries,
        [
            "> $VNWRG,05,921600*53 x5",
            "RX: $VNWRG,05,921600*53",
            "Device acknowledged baud change to 921600.",
            "> switch 921600",
            "Verifying at 921600 baud...",
            "> $VNRRG,07*74 x5",
            "RX: $VNRRG,07,40*5C",
            "Verified — device is at 921600 baud (async rate 40 Hz).",
            "(Volatile — the device holds this across host reconnects, but a power cycle or \
             `reset`/`factory-reset` reverts it to the flash baud. Re-run with `baud 921600 \
             --persist` to make it permanent.)",
        ]
    );
    assert_eq!(log.result, Ok(()));
    let log = rw("baud 921600 --persist", &replies);
    assert_eq!(
        log.entries[8..],
        [
            "> $VNWNV*57 x5",
            "RX: $VNWNV*57",
            "Baud saved to flash; the device will boot at 921600 from now on."
        ]
    );
    assert_eq!(log.result, Ok(()));
}

#[test]
fn a_baud_rate_that_is_not_heard_is_not_saved() {
    let log = rdwr(
        "baud 921600 --persist",
        &[Ok("$VNWRG,05,921600*53"), Ok(""), Err("silence")],
    );
    assert_eq!(log.entries.last().unwrap(), "> $VNRRG,07*74 x5");
    assert_eq!(log.result, Err("silence".to_string()));
    let log = rdwr(
        "baud 921600",
        &[Ok("$VNWRG,05,921600*53"), Err("cannot switch")],
    );
    assert_eq!(log.entries.last().unwrap(), "> switch 921600");
    assert_eq!(log.result, Err("cannot switch".to_string()));
}

#[test]
fn hints_name_the_baud_rate_of_the_connection() {
    let (config, command) =
        rw_vn100::rdwr::parse_args(words("--baud 921600 get-hz")).unwrap();
    let (_, turn) = Session::run_configuring(config.baud, command);
    match turn.action {
        Action::Send { missing, .. } => assert_eq!(
            missing,
            "no usable reply from device — is it actually at 921600 baud? (VN-100 factory default \
             is 115200; use --baud to match, or the `baud` command to change it)"
        ),
        _ => panic!("expected a command"),
    }
}

#[test]
fn resetting() {
    let log = rw("reset", &[Ok("RX: $VNRST*4D")]);
    assert_eq!(
        log.entries,
        [
            "> $VNRST*4D reboot",
            "RX: $VNRST*4D",
            "Reset requested — sensor is rebooting and reloading its saved settings."
        ]
    );
    let log = rdwr("factory-reset", &[Ok("(no echo)")]);
    assert_eq!(
        log.entries,
        [
            "Restoring factory defaults — this overwrites flash and cannot be undone.",
            "> $VNRFS*5F reboot",
            "(no echo)",
            "Factory restore requested — sensor is rebooting.",
            "It is now at 115200 baud with the default async output. Reconnect with the default \
             --baud (115200)."
        ]
    );
    let log = rdwr("reset", &[Err("device error")]);
    assert_eq!(log.result, Err("device error".to_string()));
}

#[test]
fn reading_and_writing_any_register() {
    let log = rw("rrg 1", &[Ok("$VNRRG,01,VN-100S-CR*00")]);
    assert_eq!(
        log.entries,
        [
            "> $VNRRG,01*72 x5",
            "RX: $VNRRG,01,VN-100S-CR*00",
            "register 01: [\"VN-100S-CR\"]"
        ]
    );
    let log = rdwr("wrg 123 a b,c", &[Ok("$VNWRG,123,a,b,c*00")]);
    assert_eq!(log.entries[0], "> $VNWRG,123,a,b,c*0A x5");
    assert_eq!(log.entries[2], "register 123: [\"a\", \"b\", \"c\"]");
}

#[test]
fn register_fields_are_listed() {
    assert_eq!(
        print_reg_fields("$VNRRG,07,40*5C"),
        "register 07: [\"40\"]"
    );
    assert_eq!(
        print_reg_fields("$$VNRRG,01,a,\"b\",*00*11"),
        format!("register 01: {:?}", ["a", "\"b\"", ""])
    );
    assert_eq!(
        print_reg_fields("$VNRRG,07*00"),
        "register 07: (no fields)"
    );
    assert_eq!(print_reg_fields("$VNWNV*57"), "(unrecognized reply)");
    assert_eq!(print_reg_fields(""), "(unrecognized reply)");
}

#[test]
fn presets_are_read_and_written() {
    let log = rw("get-ascii", &[Ok("$VNRRG,06,14*58")]);
    assert_eq!(
        log.entries,
        [
            "> $VNRRG,06*75 x5",
            "RX: $VNRRG,06,14*58",
            "Async output type: VNYMR (ADOR 14)"
        ]
    );
    let log = rw("set-ascii=off", &[Ok("$VNWRG,06,0*6C")]);
    assert_eq!(
        log.entries,
        [
            "> $VNWRG,06,0*6C x5",
            "RX: $VNWRG,06,0*6C",
            "Async output type: off (ADOR 0)"
        ]
    );
}

#[test]
fn the_binary_output_is_read_before_it_is_written() {
    let before = "$VNRRG,75,0,4,01,0101*00";
    let log = rw("get-bin", &[Ok(before)]);
    assert_eq!(
        log.entries,
        [
            "> $VNRRG,75*71 x5",
            "RX: $VNRRG,75,0,4,01,0101*00",
            "Binary output: off, 200 Hz, fields [\"time\", \"accel\"]"
        ]
    );
    for (reply, line) in [
        (
            "$VNRRG,75,2,800,01,0021*00",
            "Binary output: port 2, 1 Hz, fields [\"time\", \"gyro\"]",
        ),
        (
            "$VNRRG,75,3,3,01,0000*00",
            "Binary output: both ports, 800/3 Hz, fields []",
        ),
        (
            "$VNRRG,75,1,0,01,0200*00",
            "Binary output: port 1, 800/0 Hz, fields [\"imu\"]",
        ),
        (
            "$VNRRG,75,1,4,03,0101,0001*00",
            "register 75: [\"1\", \"4\", \"03\", \"0101\", \"0001\"]",
        ),
    ] {
        let log = rw("get-bin", &[Ok(reply)]);
        assert_eq!(log.entries[2], line);
        assert_eq!(log.result, Ok(()));
    }
    let written = |line: &str| -> String {
        let log = rw(line, &[Ok(before), Ok("$VNWRG,75,x*00")]);
        assert_eq!(log.entries[0], "> $VNRRG,75*71 x5");
        assert_eq!(log.result, Ok(()));
        log.entries[2].clone()
    };
    assert!(written("set-bin=on").starts_with("> $VNWRG,75,2,4,01,0101*"));
    assert!(written("set-bin=off").starts_with("> $VNWRG,75,0,4,01,0101*"));
    assert!(written("set-bin-hz=50").starts_with("> $VNWRG,75,0,16,01,0101*"));
    assert!(written("set-bin-fields=gyro").starts_with("> $VNWRG,75,0,4,01,0020*"));
}

#[test]
fn a_binary_output_that_cannot_be_changed_is_left_alone() {
    let log = rw("set-bin=on", &[Ok("$VNRRG,75,0,0,01,0000*00")]);
    assert_eq!(log.entries.len(), 2);
    assert!(log.result.unwrap_err().starts_with("no binary fields"));
    let log = rw("set-bin-hz=50", &[Ok("$VNRRG,75,0,0,03,0001,0001*00")]);
    assert_eq!(
        log.result,
        Err(
            "unrecognized binary output configuration: $VNRRG,75,0,0,03,0001,0001*00".to_string()
        )
    );
}

#[test]
fn a_passive_bench_only_measures() {
    let log = rw("bench 3", &[]);
    assert_eq!(
        log.entries[..3],
        [
            "Measuring the live stream for 3s (passive — no device writes)...",
            "> measure 3",
            ""
        ]
    );
    assert!(log.result.unwrap_err().starts_with("saw no ASCII"));
}

#[test]
fn a_binary_bench_silences_configures_measures_and_restores() {
    let replies = [
        Ok("$VNRRG,07,40*5C"),
        Ok("$VNWRG,07,0*6D"),
        Ok("$VNWRG,75,2,4,01,0101*73"),
        Ok(""),
        Err("lost"),
        Err("lost"),
    ];
    let log = rdwr("bench --bin --hz 200 --secs 5", &replies);
    assert_eq!(
        log.entries[..7],
        [
            "> $VNRRG,07*74 x5",
            "> $VNWRG,07,0*6D x5",
            "> $VNWRG,75,2,4,01,0101*73 x5",
            "Configured binary output: Common[\"time\", \"accel\"] @ 200 Hz (divisor 4, 26 B/frame).",
            "Measuring for 5s...",
            "> measure 26-byte frames 5",
            "",
        ]
    );
    assert_eq!(
        log.entries[7..],
        [
            "Result: 1000 frames in #s = # Hz (target 200 Hz).",
            "Sample: t=0 ns, accel=[#, #, #] m/s^2",
            "Wire throughput ~# kbit/s = #% of the # kbit/s 115200-baud link.",
            "> $VNWRG,75,0,4,01,0101*71 x3",
            "> $VNWRG,07,40*59 x3",
            "Restored: binary output off, ASCII async back to 40 Hz.",
        ]
    );
    assert_eq!(log.result, Ok(()));
}

#[test]
fn a_refused_binary_configuration_puts_the_rate_back() {
    let replies = [
        Ok("$VNRRG,07,40*5C"),
        Ok("$VNWRG,07,0*6D"),
        Err("device error 0x0C (12): insufficient baud rate"),
        Err("lost"),
    ];
    let log = rdwr(
        "bench --bin --hz 200 --fields time,accel,gyro --serial-port 1",
        &replies,
    );
    assert!(log.entries[2].starts_with("> $VNWRG,75,1,4,01,0121*"));
    assert_eq!(log.entries[3..], ["> $VNWRG,07,40*59 x3"]);
    assert_eq!(
        log.result,
        Err("device error 0x0C (12): insufficient baud rate".to_string())
    );
}

#[test]
fn a_binary_bench_without_frames_fails_after_restoring() {
    let replies = [
        Ok("$VNRRG,07,40*5C"),
        Ok("$VNWRG,07,0*6D"),
        Ok("$VNWRG,75,2,20,01,0101*46"),
        Err(""),
        Ok("$VNWRG,75,0,20,01,0101*44"),
        Ok("$VNWRG,07,40*59"),
    ];
    let log = rdwr("bench --bin", &replies);
    assert_eq!(
        log.entries.last().unwrap(),
        "Restored: binary output off, ASCII async back to 40 Hz."
    );
    assert_eq!(
        log.result,
        Err(
            "received 0 binary frames — the config may have targeted the wrong serial port (try a \
             VN-100 on serial1), or the device isn't streaming"
                .to_string()
        )
    );
    // A read that fails ends the bench.
    let mut broken = replies;
    broken[3] = Err("unplugged");
    let log = rdwr("bench --bin", &broken);
    assert_eq!(log.entries.last().unwrap(), "> measure 26-byte frames 5");
    assert_eq!(log.result, Err("unplugged".to_string()));
}

#[test]
fn an_ascii_bench_sets_measures_and_restores() {
    let log = rdwr(
        "bench --hz 50 --secs 3",
        &[
            Ok("$VNRRG,07,40*5C"),
            Ok("$VNWRG,07,50*58"),
            Ok("$VNYMR,1*00"),
            Err("lost"),
        ],
    );
    assert_eq!(
        log.entries,
        [
            "> $VNRRG,07*74 x5",
            "> $VNWRG,07,50*58 x5",
            "Set ASCII async rate to 50 Hz; measuring the $VN message stream for 3s...",
            "> measure ascii 3",
            "",
            "Result: 200 messages in #s = # Hz (target 50 Hz).",
            "Sample: $VNYMR,1*00",
            "Wire throughput ~# kbit/s = #% of the # kbit/s 115200-baud link.",
            "> $VNWRG,07,40*59 x3",
            "Restored: ASCII async back to 40 Hz.",
        ]
    );
    assert_eq!(log.result, Ok(()));
}

#[test]
fn an_ascii_bench_of_a_preset_restores_that_too() {
    let log = rdwr(
        "bench --type qtn",
        &[
            Ok("$VNRRG,07,40*5C"),
            Ok("$VNRRG,06,14*58"),
            Ok("$VNWRG,06,2*6E"),
            Ok("$VNWRG,07,40*59"),
            Err(""),
            Ok("$VNWRG,07,40*59"),
            Ok("$VNWRG,06,14*59"),
        ],
    );
    assert_eq!(
        log.entries[..6],
        [
            "> $VNRRG,07*74 x5",
            "> $VNRRG,06*75 x5",
            "> $VNWRG,06,2*6E x5",
            "Set ASCII type to VNQTN (ADOR 2).",
            "> $VNWRG,07,40*59 x5",
            "Set ASCII async rate to 40 Hz; measuring the $VN message stream for 5s...",
        ]
    );
    assert_eq!(
        log.entries[log.entries.len() - 3..],
        [
            "> $VNWRG,07,40*59 x3",
            "> $VNWRG,06,14*59 x3",
            "Restored: ASCII async back to 40 Hz, type VNYMR."
        ]
    );
    assert_eq!(
        log.result,
        Err(
            "received 0 async messages — is async output (register 6) on, or is the port wrong?"
                .to_string()
        )
    );
}

#[test]
fn an_ascii_bench_ends_at_an_error_before_measuring() {
    let ok = [
        Ok("$VNRRG,07,40*5C"),
        Ok("$VNRRG,06,14*58"),
        Ok("$VNWRG,06,2*6E"),
        Ok("$VNWRG,07,40*59"),
    ];
    for k in 0..4 {
        let mut replies = ok;
        replies[k] = Err("refused");
        let log = rdwr("bench --type qtn", &replies);
        assert_eq!(log.result, Err("refused".to_string()));
        let sent = log.entries.iter().filter(|e| e.starts_with("> ")).count();
        assert_eq!(sent, k + 1);
    }
}

#[test]
fn preludes() {
    let config = Config {
        port: "/dev/x".to_string(),
        baud: 9600,
    };
    let opening = "Opening /dev/x at 9600 baud...\n";
    let rw_prelude = |line: &str| prelude(&config, &rw_vn100::cli::parse_args(words(line)).unwrap().1);
    match rw_prelude("-h") {
        Prelude::Show(s) => assert_eq!(s, rw_vn100::cli::help_text()),
        _ => panic!("expected help"),
    }
    match rw_prelude("-V") {
        Prelude::Show(s) => assert_eq!(s, "rw-vn100 0.2.1\n"),
        _ => panic!("expected the version"),
    }
    match rw_prelude("bench") {
        Prelude::Open(s) => assert_eq!(s, format!("rw-vn100 0.2.1\n{opening}")),
        _ => panic!("expected a stamped opening"),
    }
    match rw_prelude("get-bin") {
        Prelude::Open(s) => assert_eq!(s, opening),
        _ => panic!("expected an opening"),
    }
    let old_prelude = |line: &str| {
        configuring_prelude(&config, &rw_vn100::rdwr::parse_args(words(line)).unwrap().1)
    };
    match old_prelude("help") {
        Prelude::Show(s) => assert_eq!(s, rw_vn100::rdwr::help_text()),
        _ => panic!("expected help"),
    }
    match old_prelude("bench") {
        Prelude::Open(s) => assert_eq!(s, opening),
        _ => panic!("expected an opening"),
    }
}

#[test]
fn settings_are_saved_only_when_asked() {
    let save = "> $VNWNV*57 x5";
    let read = Ok("$VNRRG,75,0,4,01,0101*00");
    let written = Ok("$VNWRG,75,0,4,01,0101*00");
    let saved = Ok("$VNWNV*57");
    for (line, replies) in [
        ("set-ascii=ymr", vec![Ok("$VNWRG,06,14*00")]),
        ("set-ascii-hz=40", vec![Ok("$VNWRG,07,40*59")]),
        ("set-bin-fields=time", vec![read, written]),
        ("set-bin-hz=200", vec![read, written]),
        ("set-bin=on", vec![read, written]),
    ] {
        let plain = rw(line, &replies);
        assert!(!plain.entries.iter().any(|e| e == save), "{line}");
        assert_eq!(plain.result, Ok(()));
        let mut with_echo = replies.clone();
        with_echo.push(saved);
        let kept = rw(&format!("{line} --persist"), &with_echo);
        assert_eq!(kept.entries.iter().filter(|e| *e == save).count(), 1);
        assert_eq!(kept.result, Ok(()));
        // A refused setting is not saved.
        let refused = rw(&format!("{line} --persist"), &[Err("no")]);
        assert!(!refused.entries.iter().any(|e| e == save), "{line}");
        assert_eq!(refused.result, Err("no".to_string()));
    }
}
