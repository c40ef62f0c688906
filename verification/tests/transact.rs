//! Reading replies.
use rw_vn100::proto::build_command;
use rw_vn100::transact::{
    read_reply, send_reboot_command, transact, transact_retry, Accept, LineFilter, OrError,
    ReadEvent, ReplyStep, RetryStep,
};
use std::io::{ErrorKind, Read};
use std::time::{Duration, Instant};

/// Reads from `reader` until `filter` accepts a line or the deadline passes.
fn read_until<R: Read>(
    reader: &mut R,
    deadline: Instant,
    filter: &Accept,
) -> std::io::Result<Option<String>> {
    let mut buf = [0u8; 256];
    let mut line: Vec<u8> = Vec::new();
    loop {
        let mut failure = None;
        let event = if Instant::now() >= deadline {
            ReadEvent::Deadline
        } else {
            match reader.read(&mut buf) {
                Ok(n) => ReadEvent::Data(&buf[..n]),
                Err(e) => match e.kind() {
                    ErrorKind::TimedOut => ReadEvent::TimedOut,
                    ErrorKind::WouldBlock => ReadEvent::WouldBlock,
                    _ => {
                        failure = Some(e);
                        ReadEvent::Failed
                    }
                },
            }
        };
        match read_reply(&mut line, event, filter) {
            ReplyStep::Continue => {}
            ReplyStep::Reply(reply) => return Ok(Some(reply)),
            ReplyStep::NoReply => return Ok(None),
            ReplyStep::Fail => return Err(failure.unwrap()),
        }
    }
}

#[test]
fn transact_read_reply_recovers_reply_after_binary_junk() {
    // Binary bytes (no newline) immediately precede the ASCII echo, as when
    // the binary stream is still flowing during the disable-binary command.
    let mut data = vec![0xFA, 0x01, 0x10, 0x99, 0x00];
    data.extend_from_slice(b"$VNWRG,75,0,4,01,0101*71\r\n");
    let mut cursor = std::io::Cursor::new(data);
    let deadline = Instant::now() + Duration::from_secs(5);
    let got = read_until(&mut cursor, deadline, &Accept::Prefix("$VNWRG,75")).unwrap();
    assert_eq!(got.as_deref(), Some("$VNWRG,75,0,4,01,0101*71"));
}

/// A reader that always yields non-newline bytes.
struct Garbage;

impl Read for Garbage {
    fn read(&mut self, buf: &mut [u8]) -> std::io::Result<usize> {
        for b in buf.iter_mut() {
            *b = b'x';
        }
        Ok(buf.len())
    }
}

#[test]
fn transact_read_reply_honors_deadline_on_newlineless_garbage() {
    // A reader that always yields non-newline bytes must not hang.
    let deadline = Instant::now() + Duration::from_millis(100);
    let got = read_until(&mut Garbage, deadline, &Accept::Prefix("")).unwrap();
    assert_eq!(got, None);
    assert!(Instant::now() >= deadline);
}

#[test]
fn quiet_reads_keep_waiting() {
    let mut line = b"$VNW".to_vec();
    let filter = Accept::Prefix("$VNWNV");
    for event in [
        ReadEvent::Data(&[]),
        ReadEvent::TimedOut,
        ReadEvent::WouldBlock,
    ] {
        assert!(matches!(
            read_reply(&mut line, event, &filter),
            ReplyStep::Continue
        ));
        assert_eq!(line, b"$VNW");
    }
    match read_reply(&mut line, ReadEvent::Data(b"NV*57\r\n$VNX"), &filter) {
        ReplyStep::Reply(r) => assert_eq!(r, "$VNWNV*57"),
        _ => panic!("expected a reply"),
    }
    assert!(line.is_empty());
}

#[test]
fn failures_and_the_deadline_end_the_wait() {
    let mut line = Vec::new();
    let filter = Accept::Rate;
    assert!(matches!(
        read_reply(&mut line, ReadEvent::Failed, &filter),
        ReplyStep::Fail
    ));
    assert!(matches!(
        read_reply(&mut line, ReadEvent::Deadline, &filter),
        ReplyStep::NoReply
    ));
}

#[test]
fn split_reads_find_the_same_reply() {
    let data = b"\xFA\x01\x0D$VNYMR,1*00\r\n\xFF\xFE$VNRRG,07,40*5C\r\n$VNRRG,07,50*5D\r\n";
    for chunk in 1..data.len() {
        let mut line = Vec::new();
        let mut got = None;
        for piece in data.chunks(chunk) {
            if let ReplyStep::Reply(r) = read_reply(&mut line, ReadEvent::Data(piece), &Accept::Rate)
            {
                got = Some(r);
                break;
            }
        }
        assert_eq!(got.as_deref(), Some("$VNRRG,07,40*5C"), "chunk={chunk}");
    }
}

#[test]
fn error_replies_end_the_wait_too() {
    let wanted = Accept::Preset;
    let filter = OrError { wanted: &wanted };
    let mut line = Vec::new();
    match read_reply(
        &mut line,
        ReadEvent::Data(b"$VNRRG,07,40*5C\n$VNERR,0C*02\n"),
        &filter,
    ) {
        ReplyStep::Reply(r) => assert_eq!(r, "$VNERR,0C*02"),
        _ => panic!("expected a reply"),
    }
    assert!(filter.accept("$VNWRG,06,14*5C"));
    assert!(!filter.accept("$VNWRG,06,x*5C"));
}

#[test]
fn a_transaction_validates_its_reply() {
    assert_eq!(
        transact(Some("$VNRRG,07,40*5C".to_string()), "nothing"),
        Ok("$VNRRG,07,40*5C".to_string())
    );
    assert_eq!(transact(None, "nothing"), Err("nothing".to_string()));
    assert_eq!(
        transact(Some("$VNRRG,07,40*5D".to_string()), "nothing"),
        Err("checksum mismatch: reply says 5D, computed 5C".to_string())
    );
    let error = build_command("VNERR,08");
    assert_eq!(
        transact(Some(error.trim().to_string()), "nothing"),
        Err("device error 0x08 (8): invalid register".to_string())
    );
    // The checksum is looked at first, also of an error reply.
    assert!(transact(Some("$VNERR,08*00".to_string()), "nothing")
        .unwrap_err()
        .starts_with("checksum mismatch"));
}

/// Plays the attempts against these outcomes: the attempts made, the progress
/// lines, and the result.
fn play(
    attempts: u32,
    outcomes: &[Result<&str, &str>],
) -> (u32, Vec<String>, Result<String, String>) {
    let mut done = 0;
    let mut last = None;
    let mut shown = Vec::new();
    loop {
        match transact_retry(attempts, done, last, "gone") {
            RetryStep::Finish(r) => return (done, shown, r),
            RetryStep::Send {
                progress,
                pause_ms,
                wait_ms,
                missing,
            } => {
                assert_eq!(pause_ms, if done == 0 { 0 } else { 100 });
                assert_eq!(wait_ms, 800);
                assert_eq!(missing, "no reply yet");
                shown.extend(progress);
                last = Some(
                    outcomes[done as usize]
                        .map(String::from)
                        .map_err(String::from),
                );
                done += 1;
            }
        }
    }
}

#[test]
fn retrying_gives_up_after_its_attempts() {
    let (sent, shown, r) = play(5, &[Err("no reply yet"); 9]);
    assert_eq!(sent, 5);
    assert_eq!(
        shown,
        [
            "  attempt 1/5: no response yet, retrying...",
            "  attempt 2/5: no response yet, retrying...",
            "  attempt 3/5: no response yet, retrying...",
            "  attempt 4/5: no response yet, retrying...",
        ]
    );
    assert_eq!(
        r,
        Err("gone (after 5 attempts; last: no reply yet)".to_string())
    );
    let (sent, shown, r) = play(0, &[]);
    assert_eq!((sent, shown.len()), (0, 0));
    assert_eq!(r, Err("gone (after 0 attempts; last: )".to_string()));
}

#[test]
fn retrying_stops_at_an_answer() {
    let (sent, shown, r) = play(3, &[Err("no reply yet"), Ok("$VNWNV*57")]);
    assert_eq!((sent, shown.len()), (2, 1));
    assert_eq!(r, Ok("$VNWNV*57".to_string()));
    let (sent, shown, r) = play(3, &[Err("device error 0x0C (12): insufficient baud rate")]);
    assert_eq!((sent, shown.len()), (1, 0));
    assert!(r.unwrap_err().starts_with("device error"));
}

#[test]
fn a_reboot_needs_no_echo() {
    assert_eq!(
        send_reboot_command(None),
        Ok("(no echo — device likely rebooted before replying, which is normal)".to_string())
    );
    assert_eq!(
        send_reboot_command(Some("$VNRST*4D".to_string())),
        Ok("RX: $VNRST*4D".to_string())
    );
    assert_eq!(
        send_reboot_command(Some("$VNERR,09*00".to_string())),
        Err("device error 0x09 (9): unauthorized access".to_string())
    );
}

#[test]
fn only_intact_replies_settle_a_command() {
    let intact = build_command("VNERR,0C");
    for (reply, settles) in [
        (None, false),
        (Some("$VNRRG,07,40*5C"), true),
        (Some("$VNRRG,07,40*5D"), false),
        (Some("$VNRRG,07,40"), false),
        (Some("VNRRG,07,40*5C"), false),
        (Some("$VNRRG,07,40*zz"), false),
        (Some(intact.trim()), true),
        (Some("$VNERR,0C*00"), false),
    ] {
        let outcome = transact(reply.map(String::from), "no reply yet");
        let step = transact_retry(2, 1, Some(outcome), "gone");
        assert_eq!(matches!(step, RetryStep::Finish(_)), settles, "{reply:?}");
    }
}

#[test]
fn quiet_reads_between_make_no_difference() {
    let data = b"\xFA\x01junk\r\n\xFF$VNRRG,07,40*5C\r\n$VNRRG,07,50*5D\r\n";
    for chunk in 1..data.len() {
        let mut line = Vec::new();
        let mut got = None;
        'reads: for piece in data.chunks(chunk) {
            for event in [
                ReadEvent::TimedOut,
                ReadEvent::Data(&[]),
                ReadEvent::Data(piece),
                ReadEvent::WouldBlock,
            ] {
                match read_reply(&mut line, event, &Accept::Rate) {
                    ReplyStep::Continue => {}
                    ReplyStep::Reply(r) => {
                        got = Some(r);
                        break 'reads;
                    }
                    _ => panic!("the wait ended"),
                }
            }
        }
        assert_eq!(got.as_deref(), Some("$VNRRG,07,40*5C"), "chunk={chunk}");
    }
}
