//! Usage texts.
use rw_vn100::cli::version_line;
use rw_vn100::help::help_row;

#[test]
fn usage_of_rw_vn100() {
    assert_eq!(rw_vn100::cli::help_text(), RW_VN100);
}

#[test]
fn usage_of_rdwr_vn100() {
    assert_eq!(rw_vn100::rdwr::help_text(), RDWR_VN100);
}

/// The arguments of each example in a usage text, without its note.
fn examples(usage: &str) -> Vec<Vec<String>> {
    let (_, lines) = usage.split_once("Examples:\n").unwrap();
    lines
        .lines()
        .map(|line| {
            let command = line.split('#').next().unwrap();
            command.split_whitespace().skip(1).map(String::from).collect()
        })
        .collect()
}

#[test]
fn the_examples_are_accepted() {
    let rw = examples(&rw_vn100::cli::help_text());
    assert_eq!(rw.len(), 6);
    assert_eq!(rw[1], ["set-ascii-hz=40", "--persist"]);
    for args in rw {
        let (_, command) = rw_vn100::cli::parse_args(args).unwrap();
        assert!(!matches!(command, rw_vn100::cli::Command::Help));
    }
    let rdwr = examples(&rw_vn100::rdwr::help_text());
    assert_eq!(rdwr.len(), 5);
    assert_eq!(rdwr[4], ["bench", "--hz", "50"]);
    for args in rdwr {
        let (_, command) = rw_vn100::rdwr::parse_args(args).unwrap();
        assert!(!matches!(command, rw_vn100::rdwr::Command::Help));
    }
}

#[test]
fn version_is_the_name_and_the_number() {
    assert_eq!(version_line(), "rw-vn100 0.2.1");
}

#[test]
fn rows_align_their_descriptions() {
    assert_eq!(
        help_row("get-hz", &["Read it.", "Then print it."]),
        format!("  {:<24}Read it.\n  {:<24}Then print it.\n", "get-hz", "")
    );
    let exact = "x".repeat(24);
    assert_eq!(help_row(&exact, &["d"]), format!("  {exact}d\n"));
    let wide = "x".repeat(25);
    assert_eq!(
        help_row(&wide, &["d"]),
        format!("  {wide}\n  {:<24}d\n", "")
    );
    // The width is that of the bytes, the padding that of the characters.
    assert_eq!(help_row("é", &["d"]), format!("  {:<24}d\n", "é"));
    let accents = "é".repeat(13);
    assert_eq!(
        help_row(&accents, &["d"]),
        format!("  {accents}\n  {:<24}d\n", "")
    );
}

const RW_VN100: &str = r#"rw-vn100 - read/configure a VectorNav VN-100 over serial

Usage: rw-vn100 [--port PORT] [--baud BAUD] <command> [args]

Commands:
  The output-config verbs each own one register. Adding `--persist`
  on a `set-*` causes the register to be written to flash.

  get-ascii               Read the ASCII async preset (register 6).
  set-ascii=<PRESET|off>  Set the ASCII async preset (register 6).
                          Presets: off, ypr, qtn, qmr, mag, acc, gyr, mar, ymr, yba, yia, imu, dtv, hve
  set-ascii-hz=<HZ>       Set the ASCII async rate (register 7).
  get-bin                 Read the binary output: port, rate, fields (register 75).
  set-bin-fields=<FIELDS> Set the binary field mask (register 75), leaving
                          streaming as-is.
                          Fields: time, ypr, quat, gyro, accel, imu, magpres
  set-bin-hz=<HZ>         Set the binary rate (register 75 divisor; HZ must divide 800).
  set-bin=on|off          Enable or disable binary streaming (needs fields to enable).
  baud <NEW> [--persist]  Change serial baud (register 5); switch this
                          connection to it and verify, without closing
                          the port.
  rrg <ID>                Read any register; print its fields.
  wrg <ID> <P1> [P2...]   Write any register. Sharp tool: e.g.
                          `wrg 5 921600` skips the safe baud switch —
                          use `baud` instead.
  bench [SECS]            Passively measure whatever is already streaming
                          (default 5 s) — no device writes. Reports ASCII
                          line rate, binary frame rate, and wire throughput.
  reset | factory-reset   Reboot / restore-to-defaults ($VNRST / $VNRFS).
  help | --help | -h      Show this help.
  --version | -V          Print the version and exit.

Global options:
  --port PORT             Serial device (default: /dev/ttyAMA0, the RPi5
                          header UART). Use /dev/ttyUSB0 for a USB adapter.
  --baud BAUD             Baud to talk to the device NOW (default 115200);
                          must match the device's CURRENT rate.
  --persist               Save to flash so it survives a power cycle (set-*, baud).

Valid HZ (ASCII async / set-ascii-hz): [1, 2, 4, 5, 10, 20, 25, 40, 50, 100, 200]
  Fixed in firmware; the device rejects others with a $VNERR.
Valid BAUD: [9600, 19200, 38400, 57600, 115200, 128000, 230400, 460800, 921600]

Note: a baud change is volatile — the device keeps it across host
      reconnects, but a power cycle or reset reverts to the flash
      baud. Persist to keep it.

Examples:
  rw-vn100 get-ascii
  rw-vn100 set-ascii-hz=40 --persist
  rw-vn100 set-bin-fields=time,accel,gyro  # configure fields
  rw-vn100 set-bin-hz=200                  # set the rate
  rw-vn100 set-bin=on                      # then enable streaming
  rw-vn100 rrg 1                      # model number
"#;

const RDWR_VN100: &str = r#"rdwr_vn100 - read/configure a VectorNav VN-100 over serial

Usage: rdwr_vn100 [--port PORT] [--baud BAUD] <command> [args]

Commands:
  get-hz                  Read the async output rate (register 7).
  set-hz <HZ> [--persist] Write the async output rate (validated).
  baud <NEW> [--persist]  Change serial baud (register 5); switch this
                          connection to it and verify, without closing
                          the port.
  rrg <ID>                Read any register; print its fields.
  wrg <ID> <P1> [P2...]   Write any register. Sharp tool: e.g.
                          `wrg 5 921600` skips the safe baud switch —
                          use `baud` instead.
  bench [--bin] [--hz HZ] [--secs S] [--fields LIST]
                          Configure an output and measure the achieved
                          rate, then restore. ASCII async by default;
                          --bin selects a binary output (register 75).
  reset | factory-reset   Reboot / restore-to-defaults ($VNRST / $VNRFS).
  help | --help | -h      Show this help.

Bench options:
  --bin                   Binary output (register 75) instead of ASCII async.
  --hz HZ                 Output rate (default 40). ASCII: a valid HZ below.
                          Binary: must divide 800 (up to 800; link may cap lower).
  --secs S                Measurement duration in seconds (default 5).
  --fields L              Binary only: comma-separated fields (default time,accel).
                          Choices: time, ypr, quat, gyro, accel, imu, magpres
  --serial-port P         Binary only: VN-100 UART(s) to stream on — 1, 2,
                          or both (default 2, the RPi5 TTL header). The
                          RS-232 bench is port 1. `both` also makes a port
                          left at a low baud veto the fit check.
  --type NAME             ASCII only: set the message preset (register 6) first.
                          Choices: off, ypr, qtn, qmr, mag, acc, gyr, mar, ymr, yba, yia, imu, dtv, hve

Global options:
  --port PORT             Serial device (default: /dev/ttyAMA0, the RPi5
                          header UART). Use /dev/ttyUSB0 for a USB adapter.
  --baud BAUD             Baud to talk to the device NOW (default 115200);
                          must match the device's CURRENT rate.
  --persist               Save to flash so it survives a power cycle (set-hz, baud).

Valid HZ (ASCII / set-hz): [1, 2, 4, 5, 10, 20, 25, 40, 50, 100, 200]
  Fixed in firmware; the device rejects others with a $VNERR.
Valid BAUD: [9600, 19200, 38400, 57600, 115200, 128000, 230400, 460800, 921600]

Note: a baud change is volatile — the device keeps it across host
      reconnects, but a power cycle or reset reverts to the flash
      baud. Persist to keep it.

Examples:
  rdwr_vn100 get-hz
  rdwr_vn100 set-hz 40 --persist
  rdwr_vn100 rrg 1                      # model number
  rdwr_vn100 bench --bin --hz 200 --fields accel,gyro
  rdwr_vn100 bench --hz 50              # ASCII async at 50 Hz
"#;
