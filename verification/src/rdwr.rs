//! Command line of `rdwr_vn100`, the configuring tool: its `bench` configures an
//! output, measures it, and restores what was there.
//!
//! - `parse_args` turns the arguments into a `Config` (port/baud) plus a
//!   `Command`.
//! - `help_text` renders usage.
use crate::args;
use crate::args::{asks_for_help, parse_baud_arg, parse_rrg_arg, parse_wrg_arg};
use crate::cli;
use crate::cli::Config;
use crate::fields;
use crate::fields::{default_fields, field_names, parse_fields, Field};
use crate::help;
use crate::help::{global_options_text, indented_text, row1, row2, row3, row4};
use crate::number;
use crate::number::{decimal_text, parse_u32, parse_u64};
use crate::registers;
use crate::registers::{
    ascii_type_names, bauds_text, is_valid_rate, parse_ascii_type, rates_text,
};
use crate::text;
use crate::text::{concat2, concat3, same, trimmed};
use crate::transact;
use crate::unicode;
use crate::unicode::to_lower;
use vstd::prelude::*;
use vstd::string::*;

verus! {

/// One invocation's command.
pub enum Command {
    Help,
    /// Read the async output rate (register 7).
    GetHz,
    /// Write the async output rate (register 7).
    SetHz { hz: u32, persist: bool },
    SetBaud { baud: u32, persist: bool },
    Reset,
    FactoryReset,
    /// Read any register (generic ASCII Read Register).
    Rrg { id: u8 },
    /// Write any register (generic ASCII Write Register).
    Wrg { id: u8, params: Vec<String> },
    /// Configure an output (ASCII async by default, or binary with `--bin`) and
    /// measure the achieved rate, then restore prior state.
    ///
    /// - `serial_port` is the register-75 `asyncMode` (binary only): 1 or 2 for
    ///   one of the VN-100's two UARTs, 3 for both. Ignored for the ASCII bench.
    Bench {
        binary: bool,
        hz: u32,
        secs: u64,
        fields: Vec<&'static Field>,
        serial_port: u8,
        ascii_type: Option<u8>,
    },
}

/// A `Command` with its contents taken by their views.
pub enum CommandView {
    Help,
    GetHz,
    SetHz { hz: u32, persist: bool },
    SetBaud { baud: u32, persist: bool },
    Reset,
    FactoryReset,
    Rrg { id: u8 },
    Wrg { id: u8, params: Seq<Seq<char>> },
    Bench {
        binary: bool,
        hz: u32,
        secs: u64,
        fields: Seq<fields::FieldView>,
        serial_port: u8,
        ascii_type: Option<u8>,
    },
}

impl View for Command {
    type V = CommandView;

    open spec fn view(&self) -> CommandView {
        match *self {
            Command::Help => CommandView::Help,
            Command::GetHz => CommandView::GetHz,
            Command::SetHz { hz, persist } => CommandView::SetHz { hz, persist },
            Command::SetBaud { baud, persist } => CommandView::SetBaud { baud, persist },
            Command::Reset => CommandView::Reset,
            Command::FactoryReset => CommandView::FactoryReset,
            Command::Rrg { id } => CommandView::Rrg { id },
            Command::Wrg { id, params } => CommandView::Wrg { id, params: text::views(params@) },
            Command::Bench { binary, hz, secs, fields, serial_port, ascii_type } => {
                CommandView::Bench {
                    binary,
                    hz,
                    secs,
                    fields: fields::field_views(fields@),
                    serial_port,
                    ascii_type,
                }
            },
        }
    }
}

/// A parsed command, or the message that says why there is none.
pub type Parsed = Result<CommandView, Seq<char>>;

/// The view of a command result.
pub open spec fn parsed(r: Result<Command, String>) -> Parsed {
    match r {
        Ok(c) => Ok(c@),
        Err(e) => Err(e@),
    }
}

// ---------------------------------------------------------------------------
// Help
// ---------------------------------------------------------------------------
/// The usage line and the commands.
pub open spec fn help_commands() -> Seq<char> {
    "rdwr_vn100 - read/configure a VectorNav VN-100 over serial\n\n"@
        + "Usage: rdwr_vn100 [--port PORT] [--baud BAUD] <command> [args]\n\n"@
        + "Commands:\n"@
        + help::row("get-hz"@, seq!["Read the async output rate (register 7)."@])
        + help::row("set-hz <HZ> [--persist]"@, seq!["Write the async output rate (validated)."@])
        + help::row(
            "baud <NEW> [--persist]"@,
            seq![
                "Change serial baud (register 5); switch this"@,
                "connection to it and verify, without closing"@,
                "the port."@,
            ],
        )
        + help::row("rrg <ID>"@, seq!["Read any register; print its fields."@])
        + help::row(
            "wrg <ID> <P1> [P2...]"@,
            seq![
                "Write any register. Sharp tool: e.g."@,
                "`wrg 5 921600` skips the safe baud switch —"@,
                "use `baud` instead."@,
            ],
        )
        + help::row(
            "bench [--bin] [--hz HZ] [--secs S] [--fields LIST]"@,
            seq![
                "Configure an output and measure the achieved"@,
                "rate, then restore. ASCII async by default;"@,
                "--bin selects a binary output (register 75)."@,
            ],
        )
        + help::row(
            "reset | factory-reset"@,
            seq!["Reboot / restore-to-defaults ($VNRST / $VNRFS)."@],
        )
        + help::row("help | --help | -h"@, seq!["Show this help."@])
}

/// The usage line and the commands.
fn help_commands_text() -> (r: String)
    ensures
        r@ == help_commands(),
{
    let mut s = "rdwr_vn100 - read/configure a VectorNav VN-100 over serial\n\n".to_string();
    s.append("Usage: rdwr_vn100 [--port PORT] [--baud BAUD] <command> [args]\n\n");
    s.append("Commands:\n");
    let r = row1("get-hz", "Read the async output rate (register 7).");
    s.append(r.as_str());
    let r = row1("set-hz <HZ> [--persist]", "Write the async output rate (validated).");
    s.append(r.as_str());
    let r = row3(
        "baud <NEW> [--persist]",
        "Change serial baud (register 5); switch this",
        "connection to it and verify, without closing",
        "the port.",
    );
    s.append(r.as_str());
    let r = row1("rrg <ID>", "Read any register; print its fields.");
    s.append(r.as_str());
    let r = row3(
        "wrg <ID> <P1> [P2...]",
        "Write any register. Sharp tool: e.g.",
        "`wrg 5 921600` skips the safe baud switch —",
        "use `baud` instead.",
    );
    s.append(r.as_str());
    let r = row3(
        "bench [--bin] [--hz HZ] [--secs S] [--fields LIST]",
        "Configure an output and measure the achieved",
        "rate, then restore. ASCII async by default;",
        "--bin selects a binary output (register 75).",
    );
    s.append(r.as_str());
    let r = row1("reset | factory-reset", "Reboot / restore-to-defaults ($VNRST / $VNRFS).");
    s.append(r.as_str());
    let r = row1("help | --help | -h", "Show this help.");
    s.append(r.as_str());
    s
}

/// The options of `bench`.
pub open spec fn help_bench_options() -> Seq<char> {
    "\nBench options:\n"@
        + help::row("--bin"@, seq!["Binary output (register 75) instead of ASCII async."@])
        + help::row(
            "--hz HZ"@,
            seq![
                "Output rate (default 40). ASCII: a valid HZ below."@,
                "Binary: must divide 800 (up to 800; link may cap lower)."@,
            ],
        )
        + help::row("--secs S"@, seq!["Measurement duration in seconds (default 5)."@])
        + help::row(
            "--fields L"@,
            seq![
                "Binary only: comma-separated fields (default time,accel)."@,
                "Choices: "@ + text::join(fields::name_table(), ", "@),
            ],
        )
        + help::row(
            "--serial-port P"@,
            seq![
                "Binary only: VN-100 UART(s) to stream on — 1, 2,"@,
                "or both (default 2, the RPi5 TTL header). The"@,
                "RS-232 bench is port 1. `both` also makes a port"@,
                "left at a low baud veto the fit check."@,
            ],
        )
        + help::row(
            "--type NAME"@,
            seq![
                "ASCII only: set the message preset (register 6) first."@,
                "Choices: "@ + text::join(registers::preset_names(), ", "@),
            ],
        )
}

/// The options of `bench`.
fn help_bench_options_text() -> (r: String)
    ensures
        r@ == help_bench_options(),
{
    let mut s = "\nBench options:\n".to_string();
    let r = row1("--bin", "Binary output (register 75) instead of ASCII async.");
    s.append(r.as_str());
    let r = row2(
        "--hz HZ",
        "Output rate (default 40). ASCII: a valid HZ below.",
        "Binary: must divide 800 (up to 800; link may cap lower).",
    );
    s.append(r.as_str());
    let r = row1("--secs S", "Measurement duration in seconds (default 5).");
    s.append(r.as_str());
    let names = field_names();
    let all = concat2("Choices: ", names.as_str());
    let r = row2(
        "--fields L",
        "Binary only: comma-separated fields (default time,accel).",
        all.as_str(),
    );
    s.append(r.as_str());
    let r = row4(
        "--serial-port P",
        "Binary only: VN-100 UART(s) to stream on — 1, 2,",
        "or both (default 2, the RPi5 TTL header). The",
        "RS-232 bench is port 1. `both` also makes a port",
        "left at a low baud veto the fit check.",
    );
    s.append(r.as_str());
    let names = ascii_type_names();
    let all = concat2("Choices: ", names.as_str());
    let r = row2(
        "--type NAME",
        "ASCII only: set the message preset (register 6) first.",
        all.as_str(),
    );
    s.append(r.as_str());
    s
}

/// The example lines.
pub open spec fn examples() -> Seq<Seq<char>> {
    seq![
        "rdwr_vn100 get-hz"@,
        "rdwr_vn100 set-hz 40 --persist"@,
        "rdwr_vn100 rrg 1                      # model number"@,
        "rdwr_vn100 bench --bin --hz 200 --fields accel,gyro"@,
        "rdwr_vn100 bench --hz 50              # ASCII async at 50 Hz"@,
    ]
}

/// Valid values, a note on baud changes, and examples.
pub open spec fn help_notes() -> Seq<char> {
    "\nValid HZ (ASCII / set-hz): "@
        + number::number_list(registers::rates())
        + "\n"@
        + "  Fixed in firmware; the device rejects others with a $VNERR.\n"@
        + "Valid BAUD: "@
        + number::number_list(registers::bauds())
        + "\n\n"@
        + "Note: a baud change is volatile — the device keeps it across host\n"@
        + "      reconnects, but a power cycle or reset reverts to the flash\n"@
        + "      baud. Persist to keep it.\n\n"@
        + "Examples:\n"@
        + help::indented(examples())
}

/// Valid values, a note on baud changes, and examples.
fn help_notes_text() -> (r: String)
    ensures
        r@ == help_notes(),
{
    let mut s = "\nValid HZ (ASCII / set-hz): ".to_string();
    let list = rates_text();
    s.append(list.as_str());
    s.append("\n");
    s.append("  Fixed in firmware; the device rejects others with a $VNERR.\n");
    s.append("Valid BAUD: ");
    let list = bauds_text();
    s.append(list.as_str());
    s.append("\n\n");
    s.append("Note: a baud change is volatile — the device keeps it across host\n");
    s.append("      reconnects, but a power cycle or reset reverts to the flash\n");
    s.append("      baud. Persist to keep it.\n\n");
    s.append("Examples:\n");
    let lines = [
        "rdwr_vn100 get-hz",
        "rdwr_vn100 set-hz 40 --persist",
        "rdwr_vn100 rrg 1                      # model number",
        "rdwr_vn100 bench --bin --hz 200 --fields accel,gyro",
        "rdwr_vn100 bench --hz 50              # ASCII async at 50 Hz",
    ];
    assert(text::str_views(lines@) =~= examples());
    let shown = indented_text(lines.as_slice());
    s.append(shown.as_str());
    s
}

/// The usage text.
pub open spec fn help() -> Seq<char> {
    help_commands() + help_bench_options() + help::global_options("set-hz, baud"@) + help_notes()
}

/// The usage text.
pub fn help_text() -> (r: String)
    ensures
        r@ == help(),
{
    let mut s = help_commands_text();
    let bench = help_bench_options_text();
    s.append(bench.as_str());
    let options = global_options_text("set-hz, baud");
    s.append(options.as_str());
    let notes = help_notes_text();
    s.append(notes.as_str());
    s
}

// ---------------------------------------------------------------------------
// Options
// ---------------------------------------------------------------------------
/// What the options and positional words of a command line say.
pub struct OptionsView {
    pub port: Seq<char>,
    pub baud: u32,
    pub persist: bool,
    pub binary: bool,
    pub hz: Option<u32>,
    pub secs: Option<u64>,
    pub fields: Option<Seq<char>>,
    pub serial_port: Option<Seq<char>>,
    pub ascii_type: Option<Seq<char>>,
    pub positional: Seq<Seq<char>>,
}

/// Without options: the RPi5 header UART at the factory baud rate, and nothing
/// else said.
pub open spec fn default_options() -> OptionsView {
    OptionsView {
        port: "/dev/ttyAMA0"@,
        baud: 115200,
        persist: false,
        binary: false,
        hz: None,
        secs: None,
        fields: None,
        serial_port: None,
        ascii_type: None,
        positional: Seq::empty(),
    }
}

/// The options that take a value.
pub open spec fn takes_value(word: Seq<char>) -> bool {
    word == "--port"@ || word == "--baud"@ || word == "--hz"@ || word == "--secs"@ || word
        == "--fields"@ || word == "--serial-port"@ || word == "--type"@
}

/// One option that takes a value, on top of `o`.
pub open spec fn with_value(o: OptionsView, word: Seq<char>, value: Seq<char>) -> Result<
    OptionsView,
    Seq<char>,
> {
    if word == "--port"@ {
        Ok(OptionsView { port: value, ..o })
    } else if word == "--baud"@ {
        match number::parse_number(value, 10, u32::MAX as int) {
            Some(n) => Ok(OptionsView { baud: n as u32, ..o }),
            None => Err("--baud must be a number"@),
        }
    } else if word == "--hz"@ {
        match number::parse_number(value, 10, u32::MAX as int) {
            Some(n) => Ok(OptionsView { hz: Some(n as u32), ..o }),
            None => Err("--hz must be a number"@),
        }
    } else if word == "--secs"@ {
        match number::parse_number(value, 10, u64::MAX as int) {
            Some(n) => Ok(OptionsView { secs: Some(n as u64), ..o }),
            None => Err("--secs must be a number"@),
        }
    } else if word == "--fields"@ {
        Ok(OptionsView { fields: Some(value), ..o })
    } else if word == "--serial-port"@ {
        Ok(OptionsView { serial_port: Some(value), ..o })
    } else {
        Ok(OptionsView { ascii_type: Some(value), ..o })
    }
}

/// One word that takes no value, on top of `o`.
pub open spec fn with_word(o: OptionsView, word: Seq<char>) -> OptionsView {
    if word == "--persist"@ {
        OptionsView { persist: true, ..o }
    } else if word == "--bin"@ {
        OptionsView { binary: true, ..o }
    } else {
        OptionsView { positional: o.positional.push(word), ..o }
    }
}

/// Reads the arguments from left to right on top of `o`. A later option
/// overrides an earlier one; what is no option is positional.
pub open spec fn read_options(args: Seq<Seq<char>>, o: OptionsView) -> Result<
    OptionsView,
    Seq<char>,
>
    decreases args.len(),
{
    if args.len() == 0 {
        Ok(o)
    } else if takes_value(args[0]) {
        if args.len() < 2 {
            Err(args[0] + " requires a value"@)
        } else {
            match with_value(o, args[0], args[1]) {
                Ok(next) => read_options(args.skip(2), next),
                Err(e) => Err(e),
            }
        }
    } else {
        read_options(args.skip(1), with_word(o, args[0]))
    }
}

/// The options and positional words of a command line.
struct Options {
    port: String,
    baud: u32,
    persist: bool,
    binary: bool,
    hz: Option<u32>,
    secs: Option<u64>,
    fields: Option<String>,
    serial_port: Option<String>,
    ascii_type: Option<String>,
    positional: Vec<String>,
}

impl View for Options {
    type V = OptionsView;

    closed spec fn view(&self) -> OptionsView {
        OptionsView {
            port: self.port@,
            baud: self.baud,
            persist: self.persist,
            binary: self.binary,
            hz: self.hz,
            secs: self.secs,
            fields: transact::opt_text(self.fields),
            serial_port: transact::opt_text(self.serial_port),
            ascii_type: transact::opt_text(self.ascii_type),
            positional: text::views(self.positional@),
        }
    }
}

/// Whether the option takes a value.
fn option_takes_value(word: &str) -> (r: bool)
    ensures
        r == takes_value(word@),
{
    same(word, "--port") || same(word, "--baud") || same(word, "--hz") || same(word, "--secs")
        || same(word, "--fields") || same(word, "--serial-port") || same(word, "--type")
}

/// Applies one option that takes a value.
fn apply_value(o: &mut Options, word: &str, value: &String) -> (r: Result<(), String>)
    ensures
        match r {
            Ok(_) => with_value(old(o)@, word@, value@) == Ok::<OptionsView, Seq<char>>(final(o)@),
            Err(e) => with_value(old(o)@, word@, value@) == Err::<OptionsView, Seq<char>>(e@),
        },
{
    if same(word, "--port") {
        o.port = value.clone();
    } else if same(word, "--baud") {
        match parse_u32(value.as_str()) {
            Some(n) => {
                o.baud = n;
            },
            None => return Err("--baud must be a number".to_string()),
        }
    } else if same(word, "--hz") {
        match parse_u32(value.as_str()) {
            Some(n) => {
                o.hz = Some(n);
            },
            None => return Err("--hz must be a number".to_string()),
        }
    } else if same(word, "--secs") {
        match parse_u64(value.as_str()) {
            Some(n) => {
                o.secs = Some(n);
            },
            None => return Err("--secs must be a number".to_string()),
        }
    } else if same(word, "--fields") {
        o.fields = Some(value.clone());
    } else if same(word, "--serial-port") {
        o.serial_port = Some(value.clone());
    } else {
        o.ascii_type = Some(value.clone());
    }
    Ok(())
}

/// Reads the options and positional words of a command line.
fn options_of(args: &[String]) -> (r: Result<Options, String>)
    ensures
        match r {
            Ok(o) => read_options(text::views(args@), default_options()) == Ok::<
                OptionsView,
                Seq<char>,
            >(o@),
            Err(e) => read_options(text::views(args@), default_options()) == Err::<
                OptionsView,
                Seq<char>,
            >(e@),
        },
{
    let mut o = Options {
        port: "/dev/ttyAMA0".to_string(),
        baud: 115200,
        persist: false,
        binary: false,
        hz: None,
        secs: None,
        fields: None,
        serial_port: None,
        ascii_type: None,
        positional: Vec::new(),
    };
    let ghost all = text::views(args@);
    let mut i: usize = 0;
    proof {
        assert(o@.positional =~= Seq::<Seq<char>>::empty());
        assert(all.skip(0) =~= all);
    }
    while i < args.len()
        invariant
            i <= args.len(),
            all == text::views(args@),
            read_options(all, default_options()) == read_options(all.skip(i as int), o@),
        decreases args.len() - i,
    {
        let arg = args[i].as_str();
        let ghost was = o@;
        proof {
            assert(all.skip(i as int)[0] == arg@);
            assert(all.skip(i as int).skip(1) =~= all.skip(i + 1));
            if i + 1 < args.len() {
                assert(all.skip(i as int)[1] == args@[i + 1]@);
                assert(all.skip(i as int).skip(2) =~= all.skip(i + 2));
            }
        }
        if option_takes_value(arg) {
            if args.len() - i < 2 {
                return Err(concat2(arg, " requires a value"));
            }
            match apply_value(&mut o, arg, &args[i + 1]) {
                Ok(_) => {},
                Err(e) => return Err(e),
            }
            i = i + 2;
        } else {
            if same(arg, "--persist") {
                o.persist = true;
            } else if same(arg, "--bin") {
                o.binary = true;
            } else {
                o.positional.push(args[i].clone());
                assert(o@.positional =~= was.positional.push(arg@));
            }
            i = i + 1;
        }
    }
    assert(all.skip(i as int) =~= Seq::<Seq<char>>::empty());
    Ok(o)
}

// ---------------------------------------------------------------------------
// Commands
// ---------------------------------------------------------------------------
/// The register-75 `asyncMode` code for a lower-case port name without white
/// space around it.
pub open spec fn port_code(name: Seq<char>) -> Result<u8, Seq<char>> {
    if name == "1"@ {
        Ok(1)
    } else if name == "2"@ {
        Ok(2)
    } else if name == "3"@ || name == "both"@ {
        Ok(3)
    } else {
        Err("invalid --serial-port `"@ + name + "`; choose 1, 2, or both"@)
    }
}

/// The register-75 `asyncMode` code for a port name: case and white space around
/// it do not matter.
pub open spec fn serial_port_code(s: Seq<char>) -> Result<u8, Seq<char>> {
    port_code(unicode::lowercase(text::trim(s)))
}

/// The code for a lower-case port name without white space around it.
pub fn resolve_port(name: &str) -> (r: Result<u8, String>)
    ensures
        text::message(r) == port_code(name@),
{
    if same(name, "1") {
        Ok(1)
    } else if same(name, "2") {
        Ok(2)
    } else if same(name, "3") || same(name, "both") {
        Ok(3)
    } else {
        Err(concat3("invalid --serial-port `", name, "`; choose 1, 2, or both"))
    }
}

/// Parses the `--serial-port` value into a register-75 `asyncMode` code.
///
/// - `1` / `2` target one of the VN-100's two UARTs; `both` (or `3`) targets
///   both. The default elsewhere is `2`, the RPi5 TTL header (the flight
///   target); the RS-232 bench is port 1. Selecting a port also subjects it to
///   the register-75 fit check, so `both` is avoided as a default: a port left
///   at a low baud would veto a frame the connected port could take.
pub fn parse_serial_port(s: &str) -> (r: Result<u8, String>)
    ensures
        text::message(r) == serial_port_code(s@),
{
    let name = to_lower(trimmed(s));
    resolve_port(name.as_str())
}

/// `set-hz <hz>`.
pub open spec fn set_hz(words: Seq<Seq<char>>, persist: bool) -> Parsed {
    if words.len() < 2 {
        Err("set-hz requires a frequency, e.g. `set-hz 40`"@)
    } else {
        match number::parse_number(words[1], 10, u32::MAX as int) {
            None => Err("frequency must be a number"@),
            Some(hz) => if registers::rates().contains(hz as u32) {
                Ok(CommandView::SetHz { hz: hz as u32, persist })
            } else {
                Err(
                    number::decimal(hz as nat) + " Hz is not valid; choose one of "@
                        + number::number_list(registers::rates()),
                )
            },
        }
    }
}

/// `bench --bin`: timestamp and acceleration on port 2 unless told otherwise.
pub open spec fn binary_bench(o: OptionsView, hz: u32, secs: u64) -> Parsed {
    if o.ascii_type is Some {
        Err("--type only applies to the ASCII bench (binary picks data with --fields)"@)
    } else if !registers::divides_base(hz) {
        Err(
            "--hz "@ + number::decimal(hz as nat)
                + " invalid for --bin; the binary rate is 800/divisor, so HZ must divide 800 (e.g. 50, 100, 200, 400)"@,
        )
    } else {
        match match o.fields {
            Some(list) => fields::field_list(list),
            None => Ok(seq![fields::field_table()[0], fields::field_table()[4]]),
        } {
            Err(e) => Err(e),
            Ok(fs) => match match o.serial_port {
                Some(s) => serial_port_code(s),
                None => Ok(2u8),
            } {
                Err(e) => Err(e),
                Ok(port) => Ok(
                    CommandView::Bench {
                        binary: true,
                        hz,
                        secs,
                        fields: fs,
                        serial_port: port,
                        ascii_type: None,
                    },
                ),
            },
        }
    }
}

/// `bench` of the ASCII async output.
pub open spec fn ascii_bench(o: OptionsView, hz: u32, secs: u64) -> Parsed {
    if o.fields is Some {
        Err(
            "--fields only applies with --bin (ASCII async uses preset messages, not arbitrary fields)"@,
        )
    } else if o.serial_port is Some {
        Err(
            "--serial-port only applies with --bin (register 75); the ASCII async output targets the connected port automatically"@,
        )
    } else {
        match match o.ascii_type {
            Some(t) => match registers::ascii_preset(t) {
                Ok(v) => Ok(Some(v)),
                Err(e) => Err(e),
            },
            None => Ok(None::<u8>),
        } {
            Err(e) => Err(e),
            Ok(ascii_type) => if registers::rates().contains(hz) {
                Ok(
                    CommandView::Bench {
                        binary: false,
                        hz,
                        secs,
                        fields: Seq::empty(),
                        serial_port: 0,
                        ascii_type,
                    },
                )
            } else {
                Err(
                    "--hz "@ + number::decimal(hz as nat)
                        + " not valid for the ASCII async output; choose one of "@
                        + number::number_list(registers::rates()) + " (or use --bin)"@,
                )
            },
        }
    }
}

/// `bench`: 40 Hz for 5 seconds unless told otherwise.
pub open spec fn bench(o: OptionsView) -> Parsed {
    let hz = match o.hz {
        Some(n) => n,
        None => 40,
    };
    let secs = match o.secs {
        Some(n) => n,
        None => 5,
    };
    if o.binary {
        binary_bench(o, hz, secs)
    } else {
        ascii_bench(o, hz, secs)
    }
}

/// The command that options and positional words make.
pub open spec fn command_of(o: OptionsView) -> Parsed {
    let words = o.positional;
    if words.len() == 0 {
        Err(
            "missing command (`get-hz`, `set-hz`, `baud`, `rrg`, `wrg`, `bench`, `reset`, `factory-reset`, or `help`)"@,
        )
    } else {
        let verb = words[0];
        if verb == "get-hz"@ {
            if o.persist {
                Err("--persist only applies to `set-hz`"@)
            } else {
                Ok(CommandView::GetHz)
            }
        } else if verb == "set-hz"@ {
            set_hz(words, o.persist)
        } else if verb == "baud"@ {
            match args::baud_arg(words) {
                Ok(baud) => Ok(CommandView::SetBaud { baud, persist: o.persist }),
                Err(e) => Err(e),
            }
        } else if verb == "rrg"@ {
            match args::rrg_arg(words) {
                Ok(id) => Ok(CommandView::Rrg { id }),
                Err(e) => Err(e),
            }
        } else if verb == "wrg"@ {
            match args::wrg_arg(words) {
                Ok((id, params)) => Ok(CommandView::Wrg { id, params }),
                Err(e) => Err(e),
            }
        } else if verb == "reset"@ {
            Ok(CommandView::Reset)
        } else if verb == "factory-reset"@ {
            Ok(CommandView::FactoryReset)
        } else if verb == "bench"@ {
            bench(o)
        } else {
            Err("unknown command `"@ + verb + "`"@)
        }
    }
}

/// The meaning of a command line. Asking for help anywhere wins over all else.
pub open spec fn command_line(args: Seq<Seq<char>>) -> Result<
    (cli::ConfigView, CommandView),
    Seq<char>,
> {
    if args::wants_help(args) {
        Ok((cli::ConfigView { port: Seq::empty(), baud: 0 }, CommandView::Help))
    } else {
        match read_options(args, default_options()) {
            Err(e) => Err(e),
            Ok(o) => match command_of(o) {
                Err(e) => Err(e),
                Ok(c) => Ok((cli::ConfigView { port: o.port, baud: o.baud }, c)),
            },
        }
    }
}

fn parse_set_hz(words: &[String], persist: bool) -> (r: Result<Command, String>)
    ensures
        parsed(r) == set_hz(text::views(words@), persist),
{
    if words.len() < 2 {
        return Err("set-hz requires a frequency, e.g. `set-hz 40`".to_string());
    }
    match parse_u32(words[1].as_str()) {
        None => Err("frequency must be a number".to_string()),
        Some(hz) => if is_valid_rate(hz) {
            Ok(Command::SetHz { hz, persist })
        } else {
            let d = decimal_text(hz as u64);
            let all = rates_text();
            Err(concat3(d.as_str(), " Hz is not valid; choose one of ", all.as_str()))
        },
    }
}

fn parse_binary_bench(o: &Options, hz: u32, secs: u64) -> (r: Result<Command, String>)
    ensures
        parsed(r) == binary_bench(o@, hz, secs),
{
    if o.ascii_type.is_some() {
        return Err(
            "--type only applies to the ASCII bench (binary picks data with --fields)".to_string(),
        );
    }
    if hz == 0 || 800 % hz != 0 {
        let d = decimal_text(hz as u64);
        return Err(
            concat3(
                "--hz ",
                d.as_str(),
                " invalid for --bin; the binary rate is 800/divisor, so HZ must divide 800 (e.g. 50, 100, 200, 400)",
            ),
        );
    }
    let selected: Vec<&'static Field> = match &o.fields {
        Some(list) => match parse_fields(list.as_str()) {
            Ok(v) => v,
            Err(e) => return Err(e),
        },
        None => default_fields(),
    };
    // Default to port 2, the RPi5 TTL header (the flight target). Not `both`:
    // selecting a port also subjects it to the register-75 fit check, so once
    // port 2 is raised to a high baud with port 1 left low, `both` would let
    // port 1 veto a frame port 2 can take.
    let serial_port: u8 = match &o.serial_port {
        Some(s) => match parse_serial_port(s.as_str()) {
            Ok(p) => p,
            Err(e) => return Err(e),
        },
        None => 2,
    };
    Ok(Command::Bench { binary: true, hz, secs, fields: selected, serial_port, ascii_type: None })
}

fn parse_ascii_bench(o: &Options, hz: u32, secs: u64) -> (r: Result<Command, String>)
    ensures
        parsed(r) == ascii_bench(o@, hz, secs),
{
    if o.fields.is_some() {
        return Err(
            "--fields only applies with --bin (ASCII async uses preset messages, not arbitrary fields)".to_string(),
        );
    }
    if o.serial_port.is_some() {
        return Err(
            "--serial-port only applies with --bin (register 75); the ASCII async output targets the connected port automatically".to_string(),
        );
    }
    let ascii_type: Option<u8> = match &o.ascii_type {
        Some(t) => match parse_ascii_type(t.as_str()) {
            Ok(v) => Some(v),
            Err(e) => return Err(e),
        },
        None => None,
    };
    if !is_valid_rate(hz) {
        let d = decimal_text(hz as u64);
        let all = rates_text();
        let mut e = concat3(
            "--hz ",
            d.as_str(),
            " not valid for the ASCII async output; choose one of ",
        );
        e.append(all.as_str());
        e.append(" (or use --bin)");
        return Err(e);
    }
    let none: Vec<&'static Field> = Vec::new();
    assert(fields::field_views(none@) =~= Seq::<fields::FieldView>::empty());
    Ok(Command::Bench { binary: false, hz, secs, fields: none, serial_port: 0, ascii_type })
}

fn parse_bench(o: &Options) -> (r: Result<Command, String>)
    ensures
        parsed(r) == bench(o@),
{
    let hz: u32 = match o.hz {
        Some(n) => n,
        None => 40,
    };
    let secs: u64 = match o.secs {
        Some(n) => n,
        None => 5,
    };
    if o.binary {
        parse_binary_bench(o, hz, secs)
    } else {
        parse_ascii_bench(o, hz, secs)
    }
}

/// The command that options and positional words make.
fn parse_command(o: &Options) -> (r: Result<Command, String>)
    ensures
        parsed(r) == command_of(o@),
{
    let words = o.positional.as_slice();
    if words.len() == 0 {
        return Err(
            "missing command (`get-hz`, `set-hz`, `baud`, `rrg`, `wrg`, `bench`, `reset`, `factory-reset`, or `help`)".to_string(),
        );
    }
    let verb = words[0].as_str();
    if same(verb, "get-hz") {
        if o.persist {
            Err("--persist only applies to `set-hz`".to_string())
        } else {
            Ok(Command::GetHz)
        }
    } else if same(verb, "set-hz") {
        parse_set_hz(words, o.persist)
    } else if same(verb, "baud") {
        match parse_baud_arg(words) {
            Ok(baud) => Ok(Command::SetBaud { baud, persist: o.persist }),
            Err(e) => Err(e),
        }
    } else if same(verb, "rrg") {
        match parse_rrg_arg(words) {
            Ok(id) => Ok(Command::Rrg { id }),
            Err(e) => Err(e),
        }
    } else if same(verb, "wrg") {
        match parse_wrg_arg(words) {
            Ok((id, params)) => Ok(Command::Wrg { id, params }),
            Err(e) => Err(e),
        }
    } else if same(verb, "reset") {
        Ok(Command::Reset)
    } else if same(verb, "factory-reset") {
        Ok(Command::FactoryReset)
    } else if same(verb, "bench") {
        parse_bench(o)
    } else {
        Err(concat3("unknown command `", verb, "`"))
    }
}

/// Parses command-line arguments into a connection config and a command.
pub fn parse_args(args: Vec<String>) -> (r: Result<(Config, Command), String>)
    ensures
        match r {
            Ok(p) => command_line(text::views(args@)) == Ok::<
                (cli::ConfigView, CommandView),
                Seq<char>,
            >((p.0@, p.1@)),
            Err(e) => command_line(text::views(args@)) == Err::<
                (cli::ConfigView, CommandView),
                Seq<char>,
            >(e@),
        },
{
    let all = args.as_slice();
    if asks_for_help(all) {
        return Ok((Config { port: String::new(), baud: 0 }, Command::Help));
    }
    match options_of(all) {
        Err(e) => Err(e),
        Ok(o) => match parse_command(&o) {
            Err(e) => Err(e),
            Ok(c) => Ok((Config { port: o.port, baud: o.baud }, c)),
        },
    }
}

// ---------------------------------------------------------------------------
// Laws
// ---------------------------------------------------------------------------
/// Whether the values of a command are ones that the device accepts.
pub open spec fn is_valid(c: CommandView) -> bool {
    match c {
        CommandView::SetHz { hz, persist } => registers::rates().contains(hz),
        CommandView::SetBaud { baud, persist } => registers::bauds().contains(baud),
        CommandView::Wrg { id, params } => params.len() > 0,
        CommandView::Bench { binary, hz, secs, fields, serial_port, ascii_type } => if binary {
            &&& registers::divides_base(hz)
            &&& fields.len() > 0
            &&& 1 <= serial_port <= 3
            &&& ascii_type is None
        } else {
            &&& registers::rates().contains(hz)
            &&& fields.len() == 0
            &&& ascii_type matches Some(t) ==> registers::is_preset(t)
        },
        _ => true,
    }
}

/// Only commands with valid values are accepted.
pub proof fn law_accepted_values_are_valid(args: Seq<Seq<char>>)
    ensures
        command_line(args) matches Ok((config, command)) ==> is_valid(command),
{
    match command_line(args) {
        Ok((config, command)) => {
            if command is Bench {
                let o = read_options(args, default_options())->Ok_0;
                match o.fields {
                    Some(list) => fields::law_accepted_list_selects_a_field(list),
                    None => {},
                }
                match o.ascii_type {
                    Some(t) => registers::law_resolved_preset_exists(t),
                    None => {},
                }
            }
        },
        Err(_) => {},
    }
}

/// Whether no option at the end still waits for its value.
pub open spec fn is_complete(args: Seq<Seq<char>>) -> bool
    decreases args.len(),
{
    if args.len() == 0 {
        true
    } else if takes_value(args[0]) {
        args.len() >= 2 && is_complete(args.skip(2))
    } else {
        is_complete(args.skip(1))
    }
}

/// The same options with another port.
pub open spec fn with_port(o: OptionsView, port: Seq<char>) -> OptionsView {
    OptionsView { port, ..o }
}

/// Complete arguments are read as they are, whatever follows.
pub proof fn lemma_options_in_pieces(a: Seq<Seq<char>>, b: Seq<Seq<char>>, o: OptionsView)
    requires
        is_complete(a),
    ensures
        read_options(a + b, o) == match read_options(a, o) {
            Ok(next) => read_options(b, next),
            Err(e) => Err(e),
        },
    decreases a.len(),
{
    let all = a + b;
    if a.len() == 0 {
        assert(all =~= b);
    } else {
        assert(all[0] == a[0]);
        assert(all.skip(1) =~= a.skip(1) + b);
        if takes_value(a[0]) {
            assert(all[1] == a[1]);
            assert(all.skip(2) =~= a.skip(2) + b);
            match with_value(o, a[0], a[1]) {
                Ok(next) => lemma_options_in_pieces(a.skip(2), b, next),
                Err(_) => {},
            }
        } else {
            lemma_options_in_pieces(a.skip(1), b, with_word(o, a[0]));
        }
    }
}

/// Whether two readings of options differ in the port at most.
pub open spec fn differ_in_port(
    x: Result<OptionsView, Seq<char>>,
    y: Result<OptionsView, Seq<char>>,
) -> bool {
    match (x, y) {
        (Ok(o), Ok(q)) => q == with_port(o, q.port),
        (Err(e), Err(f)) => e == f,
        _ => false,
    }
}

/// The port to start from makes no difference but for the port, and stays where no
/// argument is `--port`.
proof fn lemma_port_is_apart(args: Seq<Seq<char>>, o: OptionsView, port: Seq<char>)
    ensures
        differ_in_port(read_options(args, o), read_options(args, with_port(o, port))),
        !args.contains("--port"@) ==> (read_options(args, with_port(o, port)) matches Ok(q)
            ==> q.port == port),
    decreases args.len(),
{
    if args.len() > 0 {
        assert forall|w: Seq<char>, n: int|
            0 <= n <= args.len() && #[trigger] args.skip(n).contains(w) implies args.contains(w) by {
            let i = choose|i: int| 0 <= i < args.skip(n).len() && args.skip(n)[i] == w;
            assert(args[i + n] == w);
        }
        assert(args.contains(args[0]));
        if takes_value(args[0]) {
            if args.len() >= 2 {
                match with_value(o, args[0], args[1]) {
                    Ok(next) => {
                        let then = with_value(with_port(o, port), args[0], args[1])->Ok_0;
                        assert(then == with_port(next, then.port));
                        lemma_port_is_apart(args.skip(2), next, then.port);
                    },
                    Err(_) => {},
                }
            }
        } else {
            lemma_port_is_apart(args.skip(1), with_word(o, args[0]), port);
        }
    }
}

/// Where `--port` stands among the arguments makes no difference: putting
/// `--port <port>` between complete arguments and others changes nothing but the
/// port, which is the given one unless a later `--port` overrides it.
pub proof fn law_port_may_stand_anywhere(
    a: Seq<Seq<char>>,
    b: Seq<Seq<char>>,
    port: Seq<char>,
)
    requires
        is_complete(a),
        !args::wants_help(a),
        !args::wants_help(b),
        !args::wants_help(seq![port]),
    ensures
        ({
            let with = command_line(a + seq!["--port"@, port] + b);
            let without = command_line(a + b);
            match (with, without) {
                (Ok((c, command)), Ok((d, same))) => {
                    &&& command == same
                    &&& c.baud == d.baud
                    &&& !b.contains("--port"@) ==> c.port == port
                },
                (Err(e), Err(f)) => e == f,
                _ => false,
            }
        }),
{
    let flag = seq!["--port"@, port];
    let o = default_options();
    assert(a + flag + b =~= a + (flag + b));
    lemma_options_in_pieces(a, b, o);
    lemma_options_in_pieces(a, flag + b, o);
    assert((flag + b)[0] == "--port"@ && (flag + b)[1] == port);
    assert((flag + b).skip(2) =~= b);
    match read_options(a, o) {
        Ok(next) => {
            lemma_port_is_apart(b, next, port);
            assert(read_options(flag + b, next) == read_options(b, with_port(next, port)));
        },
        Err(_) => {},
    }
    reveal_strlit("--port");
    reveal_strlit("help");
    reveal_strlit("--help");
    reveal_strlit("-h");
    assert("--port"@[2] == 'p' && "--help"@[2] == 'h');
    assert forall|w: Seq<char>| #[trigger] (a + flag + b).contains(w) implies a.contains(w)
        || b.contains(w) || w == "--port"@ || seq![port].contains(w) by {
        let all = a + flag + b;
        let i = choose|i: int| 0 <= i < all.len() && all[i] == w;
        if i < a.len() {
            assert(a[i] == w);
        } else if i == a.len() + 1 {
            assert(seq![port][0] == w);
        } else if i > a.len() + 1 {
            assert(b[i - a.len() - 2] == w);
        }
    }
    assert forall|w: Seq<char>| #[trigger] (a + b).contains(w) implies a.contains(w)
        || b.contains(w) by {
        let i = choose|i: int| 0 <= i < (a + b).len() && (a + b)[i] == w;
        if i < a.len() {
            assert(a[i] == w);
        } else {
            assert(b[i - a.len()] == w);
        }
    }
    assert(!args::wants_help(a + flag + b));
    assert(!args::wants_help(a + b));
}

/// The lengths of the option words, and that each starts with a dash.
pub proof fn lemma_option_words()
    ensures
        "--port"@.len() == 6 && "--port"@[0] == '-',
        "--baud"@.len() == 6 && "--baud"@[0] == '-',
        "--hz"@.len() == 4 && "--hz"@[0] == '-',
        "--secs"@.len() == 6 && "--secs"@[0] == '-',
        "--fields"@.len() == 8 && "--fields"@[0] == '-',
        "--serial-port"@.len() == 13 && "--serial-port"@[0] == '-',
        "--type"@.len() == 6 && "--type"@[0] == '-',
        "--persist"@.len() == 9 && "--persist"@[0] == '-',
        "--bin"@.len() == 5 && "--bin"@[0] == '-',
{
    reveal_strlit("--port");
    reveal_strlit("--baud");
    reveal_strlit("--hz");
    reveal_strlit("--secs");
    reveal_strlit("--fields");
    reveal_strlit("--serial-port");
    reveal_strlit("--type");
    reveal_strlit("--persist");
    reveal_strlit("--bin");
}

/// The lengths and first letters of the verbs, by which they differ.
pub proof fn lemma_verbs()
    ensures
        "get-hz"@.len() == 6 && "get-hz"@[0] == 'g',
        "set-hz"@.len() == 6 && "set-hz"@[0] == 's',
        "baud"@.len() == 4,
        "rrg"@.len() == 3,
        "wrg"@.len() == 3,
        "reset"@.len() == 5 && "reset"@[0] == 'r',
        "factory-reset"@.len() == 13,
        "bench"@.len() == 5 && "bench"@[0] == 'b',
{
    reveal_strlit("get-hz");
    reveal_strlit("set-hz");
    reveal_strlit("baud");
    reveal_strlit("rrg");
    reveal_strlit("wrg");
    reveal_strlit("reset");
    reveal_strlit("factory-reset");
    reveal_strlit("bench");
}

/// A word that starts with no dash is positional.
pub proof fn lemma_word_is_positional(args: Seq<Seq<char>>, o: OptionsView)
    requires
        args.len() > 0,
        args[0].len() > 0,
        args[0][0] != '-',
    ensures
        read_options(args, o) == read_options(
            args.skip(1),
            OptionsView { positional: o.positional.push(args[0]), ..o },
        ),
{
    lemma_option_words();
}

proof fn lemma_example_get_hz()
    ensures
        command_line(help::example_args(examples()[0])) is Ok,
{
    reveal_strlit("rdwr_vn100");
    reveal_strlit("get-hz");
    reveal_strlit("rdwr_vn100 get-hz");
    let program = "rdwr_vn100"@;
    let line = "rdwr_vn100 get-hz"@;
    let verb = "get-hz"@;
    let none = Seq::<Seq<char>>::empty();
    assert(line.take(17) =~= program + seq![' '] + verb + help::spaces(0));
    help::lemma_one_arg(line, program, verb, 0);
    lemma_word_is_positional(seq![verb], default_options());
    assert(seq![verb].skip(1) =~= none);
}

proof fn lemma_example_set_hz()
    ensures
        command_line(help::example_args(examples()[1])) is Ok,
{
    reveal_strlit("rdwr_vn100");
    reveal_strlit("set-hz");
    reveal_strlit("40");
    reveal_strlit("--persist");
    reveal_strlit("rdwr_vn100 set-hz 40 --persist");
    let program = "rdwr_vn100"@;
    let line = "rdwr_vn100 set-hz 40 --persist"@;
    let verb = "set-hz"@;
    let hz = "40"@;
    let flag = "--persist"@;
    let none = Seq::<Seq<char>>::empty();
    let sp = seq![' '];
    let args = seq![verb, hz, flag];
    let f1 = program + sp + verb;
    let f2 = f1 + sp + hz;
    let f3 = f2 + sp + flag;
    text::lemma_words_push(program, program);
    text::lemma_words_push(program, verb);
    text::lemma_words_push(f1, hz);
    text::lemma_words_push(f2, flag);
    assert(text::words(f3).skip(1) =~= args);
    assert(line.take(30) =~= f3 + help::spaces(0));
    help::lemma_example(line, f3, args, 0);
    let o1 = OptionsView { positional: none.push(verb), ..default_options() };
    let o2 = OptionsView { positional: none.push(verb).push(hz), ..default_options() };
    lemma_word_is_positional(args, default_options());
    assert(args.skip(1) =~= seq![hz, flag]);
    lemma_word_is_positional(seq![hz, flag], o1);
    assert(seq![hz, flag].skip(1) =~= seq![flag]);
    lemma_option_words();
    assert(seq![flag].skip(1) =~= none);
    assert(read_options(seq![flag], o2) == read_options(none, OptionsView { persist: true, ..o2 }));
    lemma_verbs();
    reveal_with_fuel(number::decimal, 3);
    assert(number::decimal(40) =~= hz);
    number::law_parse_decimal(40, u32::MAX as int);
    assert(registers::rates()[7] == 40);
}

proof fn lemma_example_rrg()
    ensures
        command_line(help::example_args(examples()[2])) is Ok,
{
    reveal_strlit("rdwr_vn100");
    reveal_strlit("rrg");
    reveal_strlit("1");
    reveal_strlit("rdwr_vn100 rrg 1                      # model number");
    let program = "rdwr_vn100"@;
    let line = "rdwr_vn100 rrg 1                      # model number"@;
    let verb = "rrg"@;
    let id = "1"@;
    let none = Seq::<Seq<char>>::empty();
    assert(line.take(38) =~= program + seq![' '] + verb + seq![' '] + id + help::spaces(22));
    help::lemma_two_args(line, program, verb, id, 22);
    let args = seq![verb, id];
    let o = OptionsView { positional: none.push(verb), ..default_options() };
    lemma_word_is_positional(args, default_options());
    assert(args.skip(1) =~= seq![id]);
    lemma_word_is_positional(seq![id], o);
    assert(seq![id].skip(1) =~= none);
    lemma_verbs();
    assert(number::decimal(1) =~= id);
    number::law_parse_decimal(1, 255);
}

/// The arguments of the binary bench example.
proof fn lemma_binary_example_args()
    ensures
        help::example_args(examples()[3]) == seq![
            "bench"@,
            "--bin"@,
            "--hz"@,
            "200"@,
            "--fields"@,
            "accel,gyro"@,
        ],
{
    reveal_strlit("rdwr_vn100");
    reveal_strlit("bench");
    reveal_strlit("--bin");
    reveal_strlit("--hz");
    reveal_strlit("200");
    reveal_strlit("--fields");
    reveal_strlit("accel,gyro");
    reveal_strlit("rdwr_vn100 bench --bin --hz 200 --fields accel,gyro");
    let program = "rdwr_vn100"@;
    let line = "rdwr_vn100 bench --bin --hz 200 --fields accel,gyro"@;
    let args = seq!["bench"@, "--bin"@, "--hz"@, "200"@, "--fields"@, "accel,gyro"@];
    let sp = seq![' '];
    let f1 = program + sp + "bench"@;
    let f2 = f1 + sp + "--bin"@;
    let f3 = f2 + sp + "--hz"@;
    let f4 = f3 + sp + "200"@;
    let f5 = f4 + sp + "--fields"@;
    let f6 = f5 + sp + "accel,gyro"@;
    text::lemma_words_push(program, program);
    text::lemma_words_push(program, "bench"@);
    text::lemma_words_push(f1, "--bin"@);
    text::lemma_words_push(f2, "--hz"@);
    text::lemma_words_push(f3, "200"@);
    text::lemma_words_push(f4, "--fields"@);
    text::lemma_words_push(f5, "accel,gyro"@);
    assert(text::words(f6).skip(1) =~= args);
    assert(line.take(51) =~= f6 + help::spaces(0));
    help::lemma_example(line, f6, args, 0);
}

proof fn lemma_example_binary_bench()
    ensures
        command_line(help::example_args(examples()[3])) is Ok,
{
    lemma_binary_example_args();
    reveal_strlit("bench");
    reveal_strlit("200");
    reveal_strlit("accel");
    reveal_strlit("gyro");
    reveal_strlit("accel,gyro");
    lemma_option_words();
    lemma_verbs();
    let list = "accel,gyro"@;
    let none = Seq::<Seq<char>>::empty();
    let args = seq!["bench"@, "--bin"@, "--hz"@, "200"@, "--fields"@, list];
    let o1 = OptionsView { positional: none.push("bench"@), ..default_options() };
    let o2 = OptionsView { binary: true, ..o1 };
    let o3 = OptionsView { hz: Some(200u32), ..o2 };
    let o4 = OptionsView { fields: Some(list), ..o3 };
    lemma_word_is_positional(args, default_options());
    let a1 = seq!["--bin"@, "--hz"@, "200"@, "--fields"@, list];
    let a2 = seq!["--hz"@, "200"@, "--fields"@, list];
    let a3 = seq!["--fields"@, list];
    assert(args.skip(1) =~= a1);
    assert(a1.skip(1) =~= a2);
    assert(a2.skip(2) =~= a3);
    assert(a3.skip(2) =~= none);
    assert(read_options(a1, o1) == read_options(a2, o2));
    reveal_with_fuel(number::decimal, 4);
    assert(number::decimal(200) =~= "200"@);
    number::law_parse_decimal(200, u32::MAX as int);
    assert(with_value(o2, "--hz"@, "200"@) == Ok::<OptionsView, Seq<char>>(o3));
    assert(read_options(a2, o2) == read_options(a3, o3));
    assert(with_value(o3, "--fields"@, list) == Ok::<OptionsView, Seq<char>>(o4));
    assert(read_options(a3, o3) == read_options(none, o4));
    let names = seq!["accel"@, "gyro"@];
    let pad = Seq::<char>::empty();
    let sep = seq![','] + pad;
    assert(sep =~= seq![',']);
    assert(names.drop_last() =~= seq!["accel"@]);
    reveal_with_fuel(text::join, 3);
    assert(text::join(names, sep) =~= list);
    assert forall|i: int| 0 <= i < names.len() implies fields::name_table().contains(
        #[trigger] names[i],
    ) by {
        assert(fields::name_table()[4] == "accel"@);
        assert(fields::name_table()[3] == "gyro"@);
    }
    fields::lemma_names_are_accepted(names, pad);
}

proof fn lemma_example_ascii_bench()
    ensures
        command_line(help::example_args(examples()[4])) is Ok,
{
    reveal_strlit("rdwr_vn100");
    reveal_strlit("bench");
    reveal_strlit("--hz");
    reveal_strlit("50");
    reveal_strlit("rdwr_vn100 bench --hz 50              # ASCII async at 50 Hz");
    let program = "rdwr_vn100"@;
    let line = "rdwr_vn100 bench --hz 50              # ASCII async at 50 Hz"@;
    let verb = "bench"@;
    let hz = "50"@;
    let none = Seq::<Seq<char>>::empty();
    let sp = seq![' '];
    let args = seq![verb, "--hz"@, hz];
    let f1 = program + sp + verb;
    let f2 = f1 + sp + "--hz"@;
    let f3 = f2 + sp + hz;
    text::lemma_words_push(program, program);
    text::lemma_words_push(program, verb);
    text::lemma_words_push(f1, "--hz"@);
    text::lemma_words_push(f2, hz);
    assert(text::words(f3).skip(1) =~= args);
    assert(line.take(38) =~= f3 + help::spaces(14));
    help::lemma_example(line, f3, args, 14);
    let o1 = OptionsView { positional: none.push(verb), ..default_options() };
    let o2 = OptionsView { hz: Some(50u32), ..o1 };
    let a1 = seq!["--hz"@, hz];
    lemma_word_is_positional(args, default_options());
    assert(args.skip(1) =~= a1);
    assert(a1.skip(2) =~= none);
    lemma_option_words();
    lemma_verbs();
    reveal_with_fuel(number::decimal, 3);
    assert(number::decimal(50) =~= hz);
    number::law_parse_decimal(50, u32::MAX as int);
    assert(with_value(o1, "--hz"@, hz) == Ok::<OptionsView, Seq<char>>(o2));
    assert(read_options(a1, o1) == read_options(none, o2));
    assert(registers::rates()[8] == 50);
}

/// The help offers no command line that the parser refuses: the arguments of every
/// example are accepted.
pub proof fn law_examples_are_accepted(i: int)
    requires
        0 <= i < examples().len(),
    ensures
        command_line(help::example_args(examples()[i])) is Ok,
{
    lemma_example_get_hz();
    lemma_example_set_hz();
    lemma_example_rrg();
    lemma_example_binary_bench();
    lemma_example_ascii_bench();
    assert(i == 0 || i == 1 || i == 2 || i == 3 || i == 4);
}

} // verus!
