//! Command line of `rw-vn100`: argument parsing, the `Command` enum, and help.
//!
//! - `parse_args` turns the arguments into a `Config` (port/baud) plus a
//!   `Command`.
//! - `help_text` renders usage; `version_line` the banner.
use crate::args;
use crate::args::{asks_for_help, has_arg, parse_baud_arg, parse_rrg_arg, parse_wrg_arg};
use crate::fields;
use crate::fields::{field_names, parse_fields, Field};
use crate::help;
use crate::help::{global_options_text, indented_text, row1, row2, row3};
use crate::number;
use crate::number::{decimal_text, parse_u32, parse_u64};
use crate::registers;
use crate::registers::{
    ascii_type_names, bauds_text, is_valid_rate, parse_ascii_type, rates_text,
};
use crate::text;
use crate::text::{concat2, concat3, same, split_at_first};
use vstd::prelude::*;
use vstd::string::*;

verus! {

/// Where and how to talk to the device.
pub struct Config {
    pub port: String,
    pub baud: u32,
}

/// What a binary-output config step does (register 75).
///
/// Fields and on/off live in separate verbs so they stay orthogonal: a mask
/// write never toggles streaming, and a streaming toggle never touches the mask.
pub enum BinSet {
    /// `set-bin-fields=<list>`: set the Common field mask to these fields,
    /// leaving streaming on/off unchanged.
    Fields(Vec<&'static Field>),
    /// `set-bin=on`: enable streaming with the device's current mask (an error
    /// if no fields are configured).
    Enable,
    /// `set-bin=off`: disable streaming, leaving the mask configured.
    Off,
}

/// One invocation's command.
pub enum Command {
    Help,
    Version,
    /// Read the ASCII async preset (register 6).
    GetAscii,
    /// Write the ASCII async preset (register 6); `off` disables it.
    SetAscii { preset: u8, persist: bool },
    /// Write the ASCII async rate (register 7).
    SetAsciiHz { hz: u32, persist: bool },
    /// Read the binary output config (register 75).
    GetBin,
    /// Configure the binary output field mask (register 75).
    SetBin { action: BinSet, persist: bool },
    /// Write the binary output rate as register 75's rateDivisor (`800/hz`).
    SetBinHz { hz: u32, persist: bool },
    SetBaud { baud: u32, persist: bool },
    Reset,
    FactoryReset,
    /// Read any register (generic ASCII Read Register).
    Rrg { id: u8 },
    /// Write any register (generic ASCII Write Register).
    Wrg { id: u8, params: Vec<String> },
    /// Passively measure whatever the device is already streaming for `secs`
    /// seconds, with no device writes.
    Bench { secs: u64 },
}

/// A `Config` with its text taken by characters.
pub struct ConfigView {
    pub port: Seq<char>,
    pub baud: u32,
}

impl View for Config {
    type V = ConfigView;

    open spec fn view(&self) -> ConfigView {
        ConfigView { port: self.port@, baud: self.baud }
    }
}

/// A `BinSet` with its fields taken by their views.
pub enum BinSetView {
    Fields(Seq<fields::FieldView>),
    Enable,
    Off,
}

impl View for BinSet {
    type V = BinSetView;

    open spec fn view(&self) -> BinSetView {
        match *self {
            BinSet::Fields(v) => BinSetView::Fields(fields::field_views(v@)),
            BinSet::Enable => BinSetView::Enable,
            BinSet::Off => BinSetView::Off,
        }
    }
}

/// A `Command` with its contents taken by their views.
pub enum CommandView {
    Help,
    Version,
    GetAscii,
    SetAscii { preset: u8, persist: bool },
    SetAsciiHz { hz: u32, persist: bool },
    GetBin,
    SetBin { action: BinSetView, persist: bool },
    SetBinHz { hz: u32, persist: bool },
    SetBaud { baud: u32, persist: bool },
    Reset,
    FactoryReset,
    Rrg { id: u8 },
    Wrg { id: u8, params: Seq<Seq<char>> },
    Bench { secs: u64 },
}

impl View for Command {
    type V = CommandView;

    open spec fn view(&self) -> CommandView {
        match *self {
            Command::Help => CommandView::Help,
            Command::Version => CommandView::Version,
            Command::GetAscii => CommandView::GetAscii,
            Command::SetAscii { preset, persist } => CommandView::SetAscii { preset, persist },
            Command::SetAsciiHz { hz, persist } => CommandView::SetAsciiHz { hz, persist },
            Command::GetBin => CommandView::GetBin,
            Command::SetBin { action, persist } => CommandView::SetBin { action: action@, persist },
            Command::SetBinHz { hz, persist } => CommandView::SetBinHz { hz, persist },
            Command::SetBaud { baud, persist } => CommandView::SetBaud { baud, persist },
            Command::Reset => CommandView::Reset,
            Command::FactoryReset => CommandView::FactoryReset,
            Command::Rrg { id } => CommandView::Rrg { id },
            Command::Wrg { id, params } => CommandView::Wrg { id, params: text::views(params@) },
            Command::Bench { secs } => CommandView::Bench { secs },
        }
    }
}

/// A parsed command, or the message that says why there is none.
pub type Parsed = Result<CommandView, Seq<char>>;

/// The view of a command result.
pub open spec fn parsed(r: Result<Command, String>) -> Parsed {
    match r {
        Ok(c) => Ok(c@),
        Err(e) => Err(e@),
    }
}

// ---------------------------------------------------------------------------
// Help
// ---------------------------------------------------------------------------
/// The usage line and the commands.
pub open spec fn help_commands() -> Seq<char> {
    "rw-vn100 - read/configure a VectorNav VN-100 over serial\n\n"@
        + "Usage: rw-vn100 [--port PORT] [--baud BAUD] <command> [args]\n\n"@
        + "Commands:\n"@
        + "  The output-config verbs each own one register. Adding `--persist`\n"@
        + "  on a `set-*` causes the register to be written to flash.\n\n"@
        + help::row("get-ascii"@, seq!["Read the ASCII async preset (register 6)."@])
        + help::row(
            "set-ascii=<PRESET|off>"@,
            seq![
                "Set the ASCII async preset (register 6)."@,
                "Presets: "@ + text::join(registers::preset_names(), ", "@),
            ],
        )
        + help::row("set-ascii-hz=<HZ>"@, seq!["Set the ASCII async rate (register 7)."@])
        + help::row(
            "get-bin"@,
            seq!["Read the binary output: port, rate, fields (register 75)."@],
        )
        + help::row(
            "set-bin-fields=<FIELDS>"@,
            seq![
                "Set the binary field mask (register 75), leaving"@,
                "streaming as-is."@,
                "Fields: "@ + text::join(fields::name_table(), ", "@),
            ],
        )
        + help::row(
            "set-bin-hz=<HZ>"@,
            seq!["Set the binary rate (register 75 divisor; HZ must divide 800)."@],
        )
        + help::row(
            "set-bin=on|off"@,
            seq!["Enable or disable binary streaming (needs fields to enable)."@],
        )
        + help::row(
            "baud <NEW> [--persist]"@,
            seq![
                "Change serial baud (register 5); switch this"@,
                "connection to it and verify, without closing"@,
                "the port."@,
            ],
        )
        + help::row("rrg <ID>"@, seq!["Read any register; print its fields."@])
        + help::row(
            "wrg <ID> <P1> [P2...]"@,
            seq![
                "Write any register. Sharp tool: e.g."@,
                "`wrg 5 921600` skips the safe baud switch —"@,
                "use `baud` instead."@,
            ],
        )
        + help::row(
            "bench [SECS]"@,
            seq![
                "Passively measure whatever is already streaming"@,
                "(default 5 s) — no device writes. Reports ASCII"@,
                "line rate, binary frame rate, and wire throughput."@,
            ],
        )
        + help::row(
            "reset | factory-reset"@,
            seq!["Reboot / restore-to-defaults ($VNRST / $VNRFS)."@],
        )
        + help::row("help | --help | -h"@, seq!["Show this help."@])
        + help::row("--version | -V"@, seq!["Print the version and exit."@])
}

/// The usage line and the commands.
fn help_commands_text() -> (r: String)
    ensures
        r@ == help_commands(),
{
    let mut s = "rw-vn100 - read/configure a VectorNav VN-100 over serial\n\n".to_string();
    s.append("Usage: rw-vn100 [--port PORT] [--baud BAUD] <command> [args]\n\n");
    s.append("Commands:\n");
    s.append("  The output-config verbs each own one register. Adding `--persist`\n");
    s.append("  on a `set-*` causes the register to be written to flash.\n\n");
    let r = row1("get-ascii", "Read the ASCII async preset (register 6).");
    s.append(r.as_str());
    let names = ascii_type_names();
    let all = concat2("Presets: ", names.as_str());
    let r = row2(
        "set-ascii=<PRESET|off>",
        "Set the ASCII async preset (register 6).",
        all.as_str(),
    );
    s.append(r.as_str());
    let r = row1("set-ascii-hz=<HZ>", "Set the ASCII async rate (register 7).");
    s.append(r.as_str());
    let r = row1("get-bin", "Read the binary output: port, rate, fields (register 75).");
    s.append(r.as_str());
    let names = field_names();
    let all = concat2("Fields: ", names.as_str());
    let r = row3(
        "set-bin-fields=<FIELDS>",
        "Set the binary field mask (register 75), leaving",
        "streaming as-is.",
        all.as_str(),
    );
    s.append(r.as_str());
    let r = row1(
        "set-bin-hz=<HZ>",
        "Set the binary rate (register 75 divisor; HZ must divide 800).",
    );
    s.append(r.as_str());
    let r = row1("set-bin=on|off", "Enable or disable binary streaming (needs fields to enable).");
    s.append(r.as_str());
    let r = row3(
        "baud <NEW> [--persist]",
        "Change serial baud (register 5); switch this",
        "connection to it and verify, without closing",
        "the port.",
    );
    s.append(r.as_str());
    let r = row1("rrg <ID>", "Read any register; print its fields.");
    s.append(r.as_str());
    let r = row3(
        "wrg <ID> <P1> [P2...]",
        "Write any register. Sharp tool: e.g.",
        "`wrg 5 921600` skips the safe baud switch —",
        "use `baud` instead.",
    );
    s.append(r.as_str());
    let r = row3(
        "bench [SECS]",
        "Passively measure whatever is already streaming",
        "(default 5 s) — no device writes. Reports ASCII",
        "line rate, binary frame rate, and wire throughput.",
    );
    s.append(r.as_str());
    let r = row1("reset | factory-reset", "Reboot / restore-to-defaults ($VNRST / $VNRFS).");
    s.append(r.as_str());
    let r = row1("help | --help | -h", "Show this help.");
    s.append(r.as_str());
    let r = row1("--version | -V", "Print the version and exit.");
    s.append(r.as_str());
    s
}

/// The example lines.
pub open spec fn examples() -> Seq<Seq<char>> {
    seq![
        "rw-vn100 get-ascii"@,
        "rw-vn100 set-ascii-hz=40 --persist"@,
        "rw-vn100 set-bin-fields=time,accel,gyro  # configure fields"@,
        "rw-vn100 set-bin-hz=200                  # set the rate"@,
        "rw-vn100 set-bin=on                      # then enable streaming"@,
        "rw-vn100 rrg 1                      # model number"@,
    ]
}

/// Valid values, a note on baud changes, and examples.
pub open spec fn help_notes() -> Seq<char> {
    "\nValid HZ (ASCII async / set-ascii-hz): "@
        + number::number_list(registers::rates())
        + "\n"@
        + "  Fixed in firmware; the device rejects others with a $VNERR.\n"@
        + "Valid BAUD: "@
        + number::number_list(registers::bauds())
        + "\n\n"@
        + "Note: a baud change is volatile — the device keeps it across host\n"@
        + "      reconnects, but a power cycle or reset reverts to the flash\n"@
        + "      baud. Persist to keep it.\n\n"@
        + "Examples:\n"@
        + help::indented(examples())
}

/// Valid values, a note on baud changes, and examples.
fn help_notes_text() -> (r: String)
    ensures
        r@ == help_notes(),
{
    let mut s = "\nValid HZ (ASCII async / set-ascii-hz): ".to_string();
    let list = rates_text();
    s.append(list.as_str());
    s.append("\n");
    s.append("  Fixed in firmware; the device rejects others with a $VNERR.\n");
    s.append("Valid BAUD: ");
    let list = bauds_text();
    s.append(list.as_str());
    s.append("\n\n");
    s.append("Note: a baud change is volatile — the device keeps it across host\n");
    s.append("      reconnects, but a power cycle or reset reverts to the flash\n");
    s.append("      baud. Persist to keep it.\n\n");
    s.append("Examples:\n");
    let lines = [
        "rw-vn100 get-ascii",
        "rw-vn100 set-ascii-hz=40 --persist",
        "rw-vn100 set-bin-fields=time,accel,gyro  # configure fields",
        "rw-vn100 set-bin-hz=200                  # set the rate",
        "rw-vn100 set-bin=on                      # then enable streaming",
        "rw-vn100 rrg 1                      # model number",
    ];
    assert(text::str_views(lines@) =~= examples());
    let shown = indented_text(lines.as_slice());
    s.append(shown.as_str());
    s
}

/// The usage text.
pub open spec fn help() -> Seq<char> {
    help_commands() + help::global_options("set-*, baud"@) + help_notes()
}

/// The usage text.
pub fn help_text() -> (r: String)
    ensures
        r@ == help(),
{
    let mut s = help_commands_text();
    let options = global_options_text("set-*, baud");
    s.append(options.as_str());
    let notes = help_notes_text();
    s.append(notes.as_str());
    s
}

/// The version of this tool.
pub const VERSION: &'static str = "0.2.1";

/// The `name version` banner line, e.g. `rw-vn100 0.2.1`.
pub fn version_line() -> (r: String)
    ensures
        r@ == "rw-vn100 "@ + VERSION@,
{
    concat2("rw-vn100 ", VERSION)
}

// ---------------------------------------------------------------------------
// Options
// ---------------------------------------------------------------------------
/// What the options and positional words of a command line say.
pub struct OptionsView {
    pub port: Seq<char>,
    pub baud: u32,
    pub persist: bool,
    pub positional: Seq<Seq<char>>,
}

/// Without options: the RPi5 header UART at the factory baud rate, nothing
/// persisted.
pub open spec fn default_options() -> OptionsView {
    OptionsView {
        port: "/dev/ttyAMA0"@,
        baud: 115200,
        persist: false,
        positional: Seq::empty(),
    }
}

/// Reads the arguments from left to right on top of `o`. A later option
/// overrides an earlier one; what is no option is positional.
pub open spec fn read_options(args: Seq<Seq<char>>, o: OptionsView) -> Result<
    OptionsView,
    Seq<char>,
>
    decreases args.len(),
{
    if args.len() == 0 {
        Ok(o)
    } else if args[0] == "--port"@ {
        if args.len() < 2 {
            Err("--port requires a value"@)
        } else {
            read_options(args.skip(2), OptionsView { port: args[1], ..o })
        }
    } else if args[0] == "--baud"@ {
        if args.len() < 2 {
            Err("--baud requires a value"@)
        } else {
            match number::parse_number(args[1], 10, u32::MAX as int) {
                Some(n) => read_options(args.skip(2), OptionsView { baud: n as u32, ..o }),
                None => Err("--baud must be a number"@),
            }
        }
    } else if args[0] == "--persist"@ {
        read_options(args.skip(1), OptionsView { persist: true, ..o })
    } else {
        read_options(args.skip(1), OptionsView { positional: o.positional.push(args[0]), ..o })
    }
}

/// The options and positional words of a command line.
struct Options {
    port: String,
    baud: u32,
    persist: bool,
    positional: Vec<String>,
}

impl View for Options {
    type V = OptionsView;

    closed spec fn view(&self) -> OptionsView {
        OptionsView {
            port: self.port@,
            baud: self.baud,
            persist: self.persist,
            positional: text::views(self.positional@),
        }
    }
}

/// Reads the options and positional words of a command line.
fn options_of(args: &[String]) -> (r: Result<Options, String>)
    ensures
        match r {
            Ok(o) => read_options(text::views(args@), default_options()) == Ok::<
                OptionsView,
                Seq<char>,
            >(o@),
            Err(e) => read_options(text::views(args@), default_options()) == Err::<
                OptionsView,
                Seq<char>,
            >(e@),
        },
{
    let mut o = Options {
        port: "/dev/ttyAMA0".to_string(),
        baud: 115200,
        persist: false,
        positional: Vec::new(),
    };
    let ghost all = text::views(args@);
    let mut i: usize = 0;
    proof {
        assert(o@.positional =~= Seq::<Seq<char>>::empty());
        assert(all.skip(0) =~= all);
    }
    while i < args.len()
        invariant
            i <= args.len(),
            all == text::views(args@),
            read_options(all, default_options()) == read_options(all.skip(i as int), o@),
        decreases args.len() - i,
    {
        let arg = args[i].as_str();
        let ghost was = o@;
        proof {
            assert(all.skip(i as int)[0] == arg@);
            assert(all.skip(i as int).skip(1) =~= all.skip(i + 1));
            if i + 1 < args.len() {
                assert(all.skip(i as int)[1] == args@[i + 1]@);
                assert(all.skip(i as int).skip(2) =~= all.skip(i + 2));
            }
        }
        if same(arg, "--port") {
            if args.len() - i < 2 {
                return Err("--port requires a value".to_string());
            }
            o.port = args[i + 1].clone();
            i = i + 2;
        } else if same(arg, "--baud") {
            if args.len() - i < 2 {
                return Err("--baud requires a value".to_string());
            }
            match parse_u32(args[i + 1].as_str()) {
                Some(n) => {
                    o.baud = n;
                },
                None => return Err("--baud must be a number".to_string()),
            }
            i = i + 2;
        } else if same(arg, "--persist") {
            o.persist = true;
            i = i + 1;
        } else {
            o.positional.push(args[i].clone());
            assert(o@.positional =~= was.positional.push(arg@));
            i = i + 1;
        }
    }
    assert(all.skip(i as int) =~= Seq::<Seq<char>>::empty());
    Ok(o)
}

// ---------------------------------------------------------------------------
// Commands
// ---------------------------------------------------------------------------
/// `get-ascii` and `get-bin`: a read verb, which cannot be persisted.
pub open spec fn read_verb(verb: Seq<char>, persist: bool, command: CommandView) -> Parsed {
    if persist {
        Err("--persist applies to a `set-*` verb, not `"@ + verb + "`"@)
    } else {
        Ok(command)
    }
}

/// `set-ascii=<preset>`.
pub open spec fn set_ascii(value: Option<Seq<char>>, persist: bool) -> Parsed {
    match value {
        None => Err(
            "set-ascii needs a preset, e.g. `set-ascii=ymr` (or `set-ascii=off`)"@,
        ),
        Some(v) => match registers::ascii_preset(v) {
            Ok(preset) => Ok(CommandView::SetAscii { preset, persist }),
            Err(e) => Err(e),
        },
    }
}

/// `set-ascii-hz=<rate>`.
pub open spec fn set_ascii_hz(value: Option<Seq<char>>, persist: bool) -> Parsed {
    match value {
        None => Err("set-ascii-hz needs a rate, e.g. `set-ascii-hz=40`"@),
        Some(v) => match number::parse_number(v, 10, u32::MAX as int) {
            None => Err("ASCII rate must be a number"@),
            Some(hz) => if registers::rates().contains(hz as u32) {
                Ok(CommandView::SetAsciiHz { hz: hz as u32, persist })
            } else {
                Err(
                    number::decimal(hz as nat)
                        + " Hz is not a valid ASCII async rate; choose one of "@
                        + number::number_list(registers::rates()),
                )
            },
        },
    }
}

/// `set-bin=on|off`.
pub open spec fn set_bin(value: Option<Seq<char>>, persist: bool) -> Parsed {
    if value == Some("on"@) {
        Ok(CommandView::SetBin { action: BinSetView::Enable, persist })
    } else if value == Some("off"@) {
        Ok(CommandView::SetBin { action: BinSetView::Off, persist })
    } else {
        Err("set-bin needs =on or =off (set fields with set-bin-fields=<FIELDS>)"@)
    }
}

/// `set-bin-fields=<list>`.
pub open spec fn set_bin_fields(value: Option<Seq<char>>, persist: bool) -> Parsed {
    match value {
        None => Err("set-bin-fields needs a field list, e.g. `set-bin-fields=time,accel,gyro`"@),
        Some(list) => match fields::field_list(list) {
            Ok(fs) => Ok(CommandView::SetBin { action: BinSetView::Fields(fs), persist }),
            Err(e) => Err(e),
        },
    }
}

/// `set-bin-hz=<rate>`.
pub open spec fn set_bin_hz(value: Option<Seq<char>>, persist: bool) -> Parsed {
    match value {
        None => Err("set-bin-hz needs a rate, e.g. `set-bin-hz=200`"@),
        Some(v) => match number::parse_number(v, 10, u32::MAX as int) {
            None => Err("binary rate must be a number"@),
            Some(hz) => if registers::divides_base(hz as u32) {
                Ok(CommandView::SetBinHz { hz: hz as u32, persist })
            } else {
                Err(
                    number::decimal(hz as nat)
                        + " Hz invalid for binary; the rate is 800/divisor, so HZ must divide 800 (e.g. 50, 100, 200, 400)"@,
                )
            },
        },
    }
}

/// `baud <new>`.
pub open spec fn set_baud(words: Seq<Seq<char>>, persist: bool) -> Parsed {
    match args::baud_arg(words) {
        Ok(baud) => Ok(CommandView::SetBaud { baud, persist }),
        Err(e) => Err(e),
    }
}

/// `rrg <id>`.
pub open spec fn read_register(words: Seq<Seq<char>>) -> Parsed {
    match args::rrg_arg(words) {
        Ok(id) => Ok(CommandView::Rrg { id }),
        Err(e) => Err(e),
    }
}

/// `wrg <id> <value>...`.
pub open spec fn write_register(words: Seq<Seq<char>>) -> Parsed {
    match args::wrg_arg(words) {
        Ok((id, params)) => Ok(CommandView::Wrg { id, params }),
        Err(e) => Err(e),
    }
}

/// `bench [secs]`.
pub open spec fn passive_bench(words: Seq<Seq<char>>) -> Parsed {
    if words.len() > 2 {
        Err(
            "bench takes at most one argument, the measurement duration in seconds (e.g. `bench 10`); it is passive and configures nothing"@,
        )
    } else if words.len() == 2 {
        match number::parse_number(words[1], 10, u64::MAX as int) {
            None => Err("bench duration must be a number of seconds, got `"@ + words[1] + "`"@),
            Some(n) => Ok(CommandView::Bench { secs: n as u64 }),
        }
    } else {
        Ok(CommandView::Bench { secs: 5 })
    }
}

/// The verb of a command word: what stands before its first `=`.
pub open spec fn verb_of(word: Seq<char>) -> Seq<char> {
    text::before(word, '=')
}

/// The value of a command word: what stands after its first `=`.
pub open spec fn value_of(word: Seq<char>) -> Option<Seq<char>> {
    match text::split_once(word, '=') {
        Some(p) => Some(p.1),
        None => None,
    }
}

/// The command that positional words and the persist flag make.
pub open spec fn command_of(words: Seq<Seq<char>>, persist: bool) -> Parsed {
    if words.len() == 0 {
        Err(
            "missing command (`get-ascii`, `set-ascii`, `set-ascii-hz`, `get-bin`, `set-bin-fields`, `set-bin-hz`, `set-bin`, `baud`, `rrg`, `wrg`, `bench`, `reset`, `factory-reset`, or `help`)"@,
        )
    } else {
        let verb = verb_of(words[0]);
        let value = value_of(words[0]);
        if verb == "get-ascii"@ {
            read_verb("get-ascii"@, persist, CommandView::GetAscii)
        } else if verb == "set-ascii"@ {
            set_ascii(value, persist)
        } else if verb == "set-ascii-hz"@ {
            set_ascii_hz(value, persist)
        } else if verb == "get-bin"@ {
            read_verb("get-bin"@, persist, CommandView::GetBin)
        } else if verb == "set-bin"@ {
            set_bin(value, persist)
        } else if verb == "set-bin-fields"@ {
            set_bin_fields(value, persist)
        } else if verb == "set-bin-hz"@ {
            set_bin_hz(value, persist)
        } else if verb == "baud"@ {
            set_baud(words, persist)
        } else if verb == "rrg"@ {
            read_register(words)
        } else if verb == "wrg"@ {
            write_register(words)
        } else if verb == "reset"@ {
            Ok(CommandView::Reset)
        } else if verb == "factory-reset"@ {
            Ok(CommandView::FactoryReset)
        } else if verb == "bench"@ {
            passive_bench(words)
        } else {
            Err("unknown command `"@ + verb + "`"@)
        }
    }
}

/// The meaning of a command line. Asking for help anywhere wins over all else,
/// then asking for the version.
pub open spec fn command_line(args: Seq<Seq<char>>) -> Result<
    (ConfigView, CommandView),
    Seq<char>,
> {
    let none = ConfigView { port: Seq::empty(), baud: 0 };
    if args::wants_help(args) {
        Ok((none, CommandView::Help))
    } else if args.contains("--version"@) || args.contains("-V"@) {
        Ok((none, CommandView::Version))
    } else {
        match read_options(args, default_options()) {
            Err(e) => Err(e),
            Ok(o) => match command_of(o.positional, o.persist) {
                Err(e) => Err(e),
                Ok(c) => Ok((ConfigView { port: o.port, baud: o.baud }, c)),
            },
        }
    }
}

fn parse_read_verb(verb: &str, persist: bool, command: Command) -> (r: Result<Command, String>)
    ensures
        parsed(r) == read_verb(verb@, persist, command@),
{
    if persist {
        Err(concat3("--persist applies to a `set-*` verb, not `", verb, "`"))
    } else {
        Ok(command)
    }
}

/// The view of an optional text.
pub open spec fn opt_view(v: Option<&str>) -> Option<Seq<char>> {
    match v {
        Some(s) => Some(s@),
        None => None,
    }
}

fn parse_set_ascii(value: Option<&str>, persist: bool) -> (r: Result<Command, String>)
    ensures
        parsed(r) == set_ascii(opt_view(value), persist),
{
    match value {
        None => Err(
            "set-ascii needs a preset, e.g. `set-ascii=ymr` (or `set-ascii=off`)".to_string(),
        ),
        Some(v) => match parse_ascii_type(v) {
            Ok(preset) => Ok(Command::SetAscii { preset, persist }),
            Err(e) => Err(e),
        },
    }
}

fn parse_set_ascii_hz(value: Option<&str>, persist: bool) -> (r: Result<Command, String>)
    ensures
        parsed(r) == set_ascii_hz(opt_view(value), persist),
{
    match value {
        None => Err("set-ascii-hz needs a rate, e.g. `set-ascii-hz=40`".to_string()),
        Some(v) => match parse_u32(v) {
            None => Err("ASCII rate must be a number".to_string()),
            Some(hz) => if is_valid_rate(hz) {
                Ok(Command::SetAsciiHz { hz, persist })
            } else {
                let d = decimal_text(hz as u64);
                let all = rates_text();
                Err(
                    concat3(
                        d.as_str(),
                        " Hz is not a valid ASCII async rate; choose one of ",
                        all.as_str(),
                    ),
                )
            },
        },
    }
}

fn parse_set_bin(value: Option<&str>, persist: bool) -> (r: Result<Command, String>)
    ensures
        parsed(r) == set_bin(opt_view(value), persist),
{
    match value {
        Some(v) => {
            if same(v, "on") {
                return Ok(Command::SetBin { action: BinSet::Enable, persist });
            }
            if same(v, "off") {
                return Ok(Command::SetBin { action: BinSet::Off, persist });
            }
        },
        None => {},
    }
    Err("set-bin needs =on or =off (set fields with set-bin-fields=<FIELDS>)".to_string())
}

fn parse_set_bin_fields(value: Option<&str>, persist: bool) -> (r: Result<Command, String>)
    ensures
        parsed(r) == set_bin_fields(opt_view(value), persist),
{
    match value {
        None => Err(
            "set-bin-fields needs a field list, e.g. `set-bin-fields=time,accel,gyro`".to_string(),
        ),
        Some(list) => match parse_fields(list) {
            Ok(v) => Ok(Command::SetBin { action: BinSet::Fields(v), persist }),
            Err(e) => Err(e),
        },
    }
}

fn parse_set_bin_hz(value: Option<&str>, persist: bool) -> (r: Result<Command, String>)
    ensures
        parsed(r) == set_bin_hz(opt_view(value), persist),
{
    match value {
        None => Err("set-bin-hz needs a rate, e.g. `set-bin-hz=200`".to_string()),
        Some(v) => match parse_u32(v) {
            None => Err("binary rate must be a number".to_string()),
            Some(hz) => if hz == 0 || 800 % hz != 0 {
                let d = decimal_text(hz as u64);
                Err(
                    concat2(
                        d.as_str(),
                        " Hz invalid for binary; the rate is 800/divisor, so HZ must divide 800 (e.g. 50, 100, 200, 400)",
                    ),
                )
            } else {
                Ok(Command::SetBinHz { hz, persist })
            },
        },
    }
}

fn parse_set_baud(words: &[String], persist: bool) -> (r: Result<Command, String>)
    ensures
        parsed(r) == set_baud(text::views(words@), persist),
{
    match parse_baud_arg(words) {
        Ok(baud) => Ok(Command::SetBaud { baud, persist }),
        Err(e) => Err(e),
    }
}

fn parse_rrg(words: &[String]) -> (r: Result<Command, String>)
    ensures
        parsed(r) == read_register(text::views(words@)),
{
    match parse_rrg_arg(words) {
        Ok(id) => Ok(Command::Rrg { id }),
        Err(e) => Err(e),
    }
}

fn parse_wrg(words: &[String]) -> (r: Result<Command, String>)
    ensures
        parsed(r) == write_register(text::views(words@)),
{
    match parse_wrg_arg(words) {
        Ok((id, params)) => Ok(Command::Wrg { id, params }),
        Err(e) => Err(e),
    }
}

fn parse_bench(words: &[String]) -> (r: Result<Command, String>)
    ensures
        parsed(r) == passive_bench(text::views(words@)),
{
    if words.len() > 2 {
        return Err(
            "bench takes at most one argument, the measurement duration in seconds (e.g. `bench 10`); it is passive and configures nothing".to_string(),
        );
    }
    if words.len() == 2 {
        match parse_u64(words[1].as_str()) {
            None => Err(
                concat3(
                    "bench duration must be a number of seconds, got `",
                    words[1].as_str(),
                    "`",
                ),
            ),
            Some(n) => Ok(Command::Bench { secs: n }),
        }
    } else {
        Ok(Command::Bench { secs: 5 })
    }
}

/// The command that positional words and the persist flag make.
fn parse_command(words: &[String], persist: bool) -> (r: Result<Command, String>)
    ensures
        parsed(r) == command_of(text::views(words@), persist),
{
    if words.len() == 0 {
        return Err(
            "missing command (`get-ascii`, `set-ascii`, `set-ascii-hz`, `get-bin`, `set-bin-fields`, `set-bin-hz`, `set-bin`, `baud`, `rrg`, `wrg`, `bench`, `reset`, `factory-reset`, or `help`)".to_string(),
        );
    }
    // The config verbs are `key=value` words; the others take positional
    // arguments. Splitting the command word on its first '=' serves both.
    let word = words[0].as_str();
    let (verb, value): (&str, Option<&str>) = match split_at_first(word, '=') {
        Some((v, val)) => (v, Some(val)),
        None => (word, None),
    };
    if same(verb, "get-ascii") {
        parse_read_verb("get-ascii", persist, Command::GetAscii)
    } else if same(verb, "set-ascii") {
        parse_set_ascii(value, persist)
    } else if same(verb, "set-ascii-hz") {
        parse_set_ascii_hz(value, persist)
    } else if same(verb, "get-bin") {
        parse_read_verb("get-bin", persist, Command::GetBin)
    } else if same(verb, "set-bin") {
        parse_set_bin(value, persist)
    } else if same(verb, "set-bin-fields") {
        parse_set_bin_fields(value, persist)
    } else if same(verb, "set-bin-hz") {
        parse_set_bin_hz(value, persist)
    } else if same(verb, "baud") {
        parse_set_baud(words, persist)
    } else if same(verb, "rrg") {
        parse_rrg(words)
    } else if same(verb, "wrg") {
        parse_wrg(words)
    } else if same(verb, "reset") {
        Ok(Command::Reset)
    } else if same(verb, "factory-reset") {
        Ok(Command::FactoryReset)
    } else if same(verb, "bench") {
        parse_bench(words)
    } else {
        Err(concat3("unknown command `", verb, "`"))
    }
}

/// Parses command-line arguments into a connection config and a command.
pub fn parse_args(args: Vec<String>) -> (r: Result<(Config, Command), String>)
    ensures
        match r {
            Ok(p) => command_line(text::views(args@)) == Ok::<
                (ConfigView, CommandView),
                Seq<char>,
            >((p.0@, p.1@)),
            Err(e) => command_line(text::views(args@)) == Err::<
                (ConfigView, CommandView),
                Seq<char>,
            >(e@),
        },
{
    let all = args.as_slice();
    if asks_for_help(all) {
        return Ok((Config { port: String::new(), baud: 0 }, Command::Help));
    }
    if has_arg(all, "--version") || has_arg(all, "-V") {
        return Ok((Config { port: String::new(), baud: 0 }, Command::Version));
    }
    match options_of(all) {
        Err(e) => Err(e),
        Ok(o) => match parse_command(o.positional.as_slice(), o.persist) {
            Err(e) => Err(e),
            Ok(c) => Ok((Config { port: o.port, baud: o.baud }, c)),
        },
    }
}

// ---------------------------------------------------------------------------
// Laws
// ---------------------------------------------------------------------------
/// Whether the values of a command are ones that the device accepts.
pub open spec fn is_valid(c: CommandView) -> bool {
    match c {
        CommandView::SetAscii { preset, persist } => registers::is_preset(preset),
        CommandView::SetAsciiHz { hz, persist } => registers::rates().contains(hz),
        CommandView::SetBin { action, persist } => action matches BinSetView::Fields(fs)
            ==> fs.len() > 0,
        CommandView::SetBinHz { hz, persist } => registers::divides_base(hz),
        CommandView::SetBaud { baud, persist } => registers::bauds().contains(baud),
        CommandView::Wrg { id, params } => params.len() > 0,
        _ => true,
    }
}

/// Only commands with valid values are accepted.
pub proof fn law_accepted_values_are_valid(args: Seq<Seq<char>>)
    ensures
        command_line(args) matches Ok((config, command)) ==> is_valid(command),
{
    match command_line(args) {
        Ok((config, command)) => {
            if command is SetAscii || command is SetBin {
                let o = read_options(args, default_options())->Ok_0;
                match value_of(o.positional[0]) {
                    Some(v) => {
                        registers::law_resolved_preset_exists(v);
                        fields::law_accepted_list_selects_a_field(v);
                    },
                    None => {},
                }
            }
        },
        Err(_) => {},
    }
}

/// Asking for help anywhere wins over everything else on the command line, and
/// asking for the version over everything but that.
pub proof fn law_help_wins(args: Seq<Seq<char>>)
    ensures
        args::wants_help(args) ==> (command_line(args) matches Ok((config, command)) && command
            is Help),
        !args::wants_help(args) && (args.contains("--version"@) || args.contains("-V"@)) ==> (
        command_line(args) matches Ok((config, command)) && command is Version),
{
}

/// Whether the arguments ask for help or the version anywhere.
pub open spec fn asks_for_text(args: Seq<Seq<char>>) -> bool {
    args::wants_help(args) || args.contains("--version"@) || args.contains("-V"@)
}

/// Whether no option at the end still waits for its value.
pub open spec fn is_complete(args: Seq<Seq<char>>) -> bool
    decreases args.len(),
{
    if args.len() == 0 {
        true
    } else if args[0] == "--port"@ || args[0] == "--baud"@ {
        args.len() >= 2 && is_complete(args.skip(2))
    } else {
        is_complete(args.skip(1))
    }
}

/// The same options with another port.
pub open spec fn with_port(o: OptionsView, port: Seq<char>) -> OptionsView {
    OptionsView { port, ..o }
}

/// Complete arguments are read as they are, whatever follows.
pub proof fn lemma_options_in_pieces(a: Seq<Seq<char>>, b: Seq<Seq<char>>, o: OptionsView)
    requires
        is_complete(a),
    ensures
        read_options(a + b, o) == match read_options(a, o) {
            Ok(next) => read_options(b, next),
            Err(e) => Err(e),
        },
    decreases a.len(),
{
    let all = a + b;
    if a.len() == 0 {
        assert(all =~= b);
    } else {
        assert(all[0] == a[0]);
        assert(all.skip(1) =~= a.skip(1) + b);
        if a[0] == "--port"@ || a[0] == "--baud"@ {
            assert(all[1] == a[1]);
            assert(all.skip(2) =~= a.skip(2) + b);
            if a[0] == "--port"@ {
                lemma_options_in_pieces(a.skip(2), b, OptionsView { port: a[1], ..o });
            } else {
                match number::parse_number(a[1], 10, u32::MAX as int) {
                    Some(n) => lemma_options_in_pieces(
                        a.skip(2),
                        b,
                        OptionsView { baud: n as u32, ..o },
                    ),
                    None => {},
                }
            }
        } else {
            let next = if a[0] == "--persist"@ {
                OptionsView { persist: true, ..o }
            } else {
                OptionsView { positional: o.positional.push(a[0]), ..o }
            };
            lemma_options_in_pieces(a.skip(1), b, next);
        }
    }
}

/// Whether two readings of options differ in the port at most.
pub open spec fn differ_in_port(
    x: Result<OptionsView, Seq<char>>,
    y: Result<OptionsView, Seq<char>>,
) -> bool {
    match (x, y) {
        (Ok(o), Ok(q)) => q == with_port(o, q.port),
        (Err(e), Err(f)) => e == f,
        _ => false,
    }
}

/// The port to start from makes no difference but for the port, and stays where no
/// argument is `--port`.
proof fn lemma_port_is_apart(args: Seq<Seq<char>>, o: OptionsView, port: Seq<char>)
    ensures
        differ_in_port(read_options(args, o), read_options(args, with_port(o, port))),
        !args.contains("--port"@) ==> (read_options(args, with_port(o, port)) matches Ok(q)
            ==> q.port == port),
    decreases args.len(),
{
    if args.len() > 0 {
        assert forall|w: Seq<char>, n: int|
            0 <= n <= args.len() && #[trigger] args.skip(n).contains(w) implies args.contains(w) by {
            let i = choose|i: int| 0 <= i < args.skip(n).len() && args.skip(n)[i] == w;
            assert(args[i + n] == w);
        }
        assert(args.contains(args[0]));
        if args[0] == "--port"@ {
            if args.len() >= 2 {
                let next = OptionsView { port: args[1], ..o };
                lemma_port_is_apart(args.skip(2), next, args[1]);
            }
        } else if args[0] == "--baud"@ {
            if args.len() >= 2 {
                match number::parse_number(args[1], 10, u32::MAX as int) {
                    Some(n) => lemma_port_is_apart(
                        args.skip(2),
                        OptionsView { baud: n as u32, ..o },
                        port,
                    ),
                    None => {},
                }
            }
        } else if args[0] == "--persist"@ {
            lemma_port_is_apart(args.skip(1), OptionsView { persist: true, ..o }, port);
        } else {
            lemma_port_is_apart(
                args.skip(1),
                OptionsView { positional: o.positional.push(args[0]), ..o },
                port,
            );
        }
    }
}

/// Where `--port` stands among the arguments makes no difference: putting
/// `--port <port>` between complete arguments and others changes nothing but the
/// port, which is the given one unless a later `--port` overrides it.
pub proof fn law_port_may_stand_anywhere(
    a: Seq<Seq<char>>,
    b: Seq<Seq<char>>,
    port: Seq<char>,
)
    requires
        is_complete(a),
        !asks_for_text(a),
        !asks_for_text(b),
        !asks_for_text(seq![port]),
    ensures
        ({
            let with = command_line(a + seq!["--port"@, port] + b);
            let without = command_line(a + b);
            match (with, without) {
                (Ok((c, command)), Ok((d, same))) => {
                    &&& command == same
                    &&& c.baud == d.baud
                    &&& !b.contains("--port"@) ==> c.port == port
                },
                (Err(e), Err(f)) => e == f,
                _ => false,
            }
        }),
{
    let flag = seq!["--port"@, port];
    let o = default_options();
    assert(a + flag + b =~= a + (flag + b));
    lemma_options_in_pieces(a, b, o);
    lemma_options_in_pieces(a, flag + b, o);
    assert((flag + b)[0] == "--port"@ && (flag + b)[1] == port);
    assert((flag + b).skip(2) =~= b);
    match read_options(a, o) {
        Ok(next) => {
            lemma_port_is_apart(b, next, port);
            assert(read_options(flag + b, next) == read_options(b, with_port(next, port)));
        },
        Err(_) => {},
    }
    reveal_strlit("--port");
    reveal_strlit("help");
    reveal_strlit("--help");
    reveal_strlit("-h");
    reveal_strlit("--version");
    reveal_strlit("-V");
    assert("--port"@[2] == 'p' && "--help"@[2] == 'h');
    assert forall|w: Seq<char>| #[trigger] (a + flag + b).contains(w) implies a.contains(w)
        || b.contains(w) || w == "--port"@ || seq![port].contains(w) by {
        let all = a + flag + b;
        let i = choose|i: int| 0 <= i < all.len() && all[i] == w;
        if i < a.len() {
            assert(a[i] == w);
        } else if i == a.len() + 1 {
            assert(seq![port][0] == w);
        } else if i > a.len() + 1 {
            assert(b[i - a.len() - 2] == w);
        }
    }
    assert forall|w: Seq<char>| #[trigger] (a + b).contains(w) implies a.contains(w)
        || b.contains(w) by {
        let i = choose|i: int| 0 <= i < (a + b).len() && (a + b)[i] == w;
        if i < a.len() {
            assert(a[i] == w);
        } else {
            assert(b[i - a.len()] == w);
        }
    }
    assert(!asks_for_text(a + flag + b));
    assert(!asks_for_text(a + b));
}

/// A word that starts with no dash is positional.
proof fn lemma_word_is_positional(args: Seq<Seq<char>>, o: OptionsView)
    requires
        args.len() > 0,
        args[0].len() > 0,
        args[0][0] != '-',
    ensures
        read_options(args, o) == read_options(
            args.skip(1),
            OptionsView { positional: o.positional.push(args[0]), ..o },
        ),
{
    reveal_strlit("--port");
    reveal_strlit("--baud");
    reveal_strlit("--persist");
    assert("--port"@[0] == '-' && "--baud"@[0] == '-' && "--persist"@[0] == '-');
}

/// What one positional word says.
proof fn lemma_one_word(word: Seq<char>)
    requires
        word.len() > 0,
        word[0] != '-',
    ensures
        read_options(seq![word], default_options()) == Ok::<OptionsView, Seq<char>>(
            OptionsView { positional: seq![word], ..default_options() },
        ),
{
    let none = Seq::<Seq<char>>::empty();
    lemma_word_is_positional(seq![word], default_options());
    assert(seq![word].skip(1) =~= none);
    assert(none.push(word) =~= seq![word]);
}

/// A command word with a value: its verb and its value.
pub proof fn lemma_valued(word: Seq<char>, verb: Seq<char>, value: Seq<char>)
    requires
        word == verb + seq!['='] + value,
        forall|j: int| 0 <= j < verb.len() ==> #[trigger] verb[j] != '=',
    ensures
        verb_of(word) == verb,
        value_of(word) == Some(value),
{
    let n = verb.len() as int;
    assert forall|j: int| 0 <= j < n implies word[j] != '=' by {
        assert(word[j] == verb[j]);
    }
    text::lemma_find_at(word, '=', n);
    assert(word.take(n) =~= verb);
    assert(word.skip(n + 1) =~= value);
}

/// A command word without a value.
pub proof fn lemma_bare(word: Seq<char>)
    requires
        forall|j: int| 0 <= j < word.len() ==> #[trigger] word[j] != '=',
    ensures
        verb_of(word) == word,
{
    text::lemma_find(word, '=');
}

/// The lengths and first letters of the verbs, by which they differ.
proof fn lemma_verbs()
    ensures
        "get-ascii"@.len() == 9 && "get-ascii"@[0] == 'g',
        "set-ascii"@.len() == 9,
        "set-ascii-hz"@.len() == 12,
        "get-bin"@.len() == 7 && "get-bin"@[0] == 'g',
        "set-bin"@.len() == 7 && "set-bin"@[0] == 's',
        "set-bin-fields"@.len() == 14,
        "set-bin-hz"@.len() == 10,
        "baud"@.len() == 4,
        "rrg"@.len() == 3,
{
    reveal_strlit("get-ascii");
    reveal_strlit("set-ascii");
    reveal_strlit("set-ascii-hz");
    reveal_strlit("get-bin");
    reveal_strlit("set-bin");
    reveal_strlit("set-bin-fields");
    reveal_strlit("set-bin-hz");
    reveal_strlit("baud");
    reveal_strlit("rrg");
}

proof fn lemma_example_get_ascii()
    ensures
        command_line(help::example_args(examples()[0])) is Ok,
{
    reveal_strlit("rw-vn100");
    reveal_strlit("get-ascii");
    reveal_strlit("rw-vn100 get-ascii");
    let program = "rw-vn100"@;
    let line = "rw-vn100 get-ascii"@;
    let word = "get-ascii"@;
    assert(line.take(18) =~= program + seq![' '] + word + help::spaces(0));
    help::lemma_one_arg(line, program, word, 0);
    lemma_one_word(word);
    lemma_bare(word);
}

proof fn lemma_example_set_ascii_hz()
    ensures
        command_line(help::example_args(examples()[1])) is Ok,
{
    reveal_strlit("rw-vn100");
    reveal_strlit("set-ascii-hz");
    reveal_strlit("set-ascii-hz=40");
    reveal_strlit("--port");
    reveal_strlit("--baud");
    reveal_strlit("--persist");
    reveal_strlit("rw-vn100 set-ascii-hz=40 --persist");
    let program = "rw-vn100"@;
    let line = "rw-vn100 set-ascii-hz=40 --persist"@;
    let word = "set-ascii-hz=40"@;
    let flag = "--persist"@;
    let none = Seq::<Seq<char>>::empty();
    assert(line.take(34) =~= program + seq![' '] + word + seq![' '] + flag + help::spaces(0));
    help::lemma_two_args(line, program, word, flag, 0);
    let args = seq![word, flag];
    let o = OptionsView { positional: none.push(word), ..default_options() };
    lemma_word_is_positional(args, default_options());
    assert(args.skip(1) =~= seq![flag]);
    assert(seq![flag].skip(1) =~= none);
    assert(read_options(seq![flag], o) == read_options(none, OptionsView { persist: true, ..o }));
    let value = seq!['4', '0'];
    assert(word =~= "set-ascii-hz"@ + seq!['='] + value);
    lemma_valued(word, "set-ascii-hz"@, value);
    lemma_verbs();
    reveal_with_fuel(number::decimal, 3);
    assert(number::decimal(40) =~= value);
    number::law_parse_decimal(40, u32::MAX as int);
    assert(registers::rates()[7] == 40);
}

proof fn lemma_example_set_bin_fields()
    ensures
        command_line(help::example_args(examples()[2])) is Ok,
{
    reveal_strlit("rw-vn100");
    reveal_strlit("set-bin-fields");
    reveal_strlit("set-bin-fields=time,accel,gyro");
    reveal_strlit("rw-vn100 set-bin-fields=time,accel,gyro  # configure fields");
    reveal_strlit("time");
    reveal_strlit("accel");
    reveal_strlit("gyro");
    let program = "rw-vn100"@;
    let line = "rw-vn100 set-bin-fields=time,accel,gyro  # configure fields"@;
    let word = "set-bin-fields=time,accel,gyro"@;
    assert(line.take(41) =~= program + seq![' '] + word + help::spaces(2));
    help::lemma_one_arg(line, program, word, 2);
    lemma_one_word(word);
    let value = "time"@ + seq![','] + "accel"@ + seq![','] + "gyro"@;
    assert(word =~= "set-bin-fields"@ + seq!['='] + value);
    lemma_valued(word, "set-bin-fields"@, value);
    lemma_verbs();
    let names = seq!["time"@, "accel"@, "gyro"@];
    let two = seq!["time"@, "accel"@];
    let none = Seq::<char>::empty();
    let sep = seq![','] + none;
    assert(sep =~= seq![',']);
    assert(names.drop_last() =~= two);
    assert(two.drop_last() =~= seq!["time"@]);
    reveal_with_fuel(text::join, 4);
    assert(text::join(names, sep) =~= value);
    assert forall|i: int| 0 <= i < names.len() implies fields::name_table().contains(
        #[trigger] names[i],
    ) by {
        assert(fields::name_table()[0] == "time"@);
        assert(fields::name_table()[4] == "accel"@);
        assert(fields::name_table()[3] == "gyro"@);
    }
    fields::lemma_names_are_accepted(names, none);
}

proof fn lemma_example_set_bin_hz()
    ensures
        command_line(help::example_args(examples()[3])) is Ok,
{
    reveal_strlit("rw-vn100");
    reveal_strlit("set-bin-hz");
    reveal_strlit("set-bin-hz=200");
    reveal_strlit("rw-vn100 set-bin-hz=200                  # set the rate");
    let program = "rw-vn100"@;
    let line = "rw-vn100 set-bin-hz=200                  # set the rate"@;
    let word = "set-bin-hz=200"@;
    assert(line.take(41) =~= program + seq![' '] + word + help::spaces(18));
    help::lemma_one_arg(line, program, word, 18);
    lemma_one_word(word);
    let value = seq!['2', '0', '0'];
    assert(word =~= "set-bin-hz"@ + seq!['='] + value);
    lemma_valued(word, "set-bin-hz"@, value);
    lemma_verbs();
    reveal_with_fuel(number::decimal, 4);
    assert(number::decimal(200) =~= value);
    number::law_parse_decimal(200, u32::MAX as int);
}

proof fn lemma_example_set_bin()
    ensures
        command_line(help::example_args(examples()[4])) is Ok,
{
    reveal_strlit("rw-vn100");
    reveal_strlit("set-bin");
    reveal_strlit("on");
    reveal_strlit("set-bin=on");
    reveal_strlit("rw-vn100 set-bin=on                      # then enable streaming");
    let program = "rw-vn100"@;
    let line = "rw-vn100 set-bin=on                      # then enable streaming"@;
    let word = "set-bin=on"@;
    assert(line.take(41) =~= program + seq![' '] + word + help::spaces(22));
    help::lemma_one_arg(line, program, word, 22);
    lemma_one_word(word);
    assert(word =~= "set-bin"@ + seq!['='] + "on"@);
    lemma_valued(word, "set-bin"@, "on"@);
    lemma_verbs();
}

proof fn lemma_example_rrg()
    ensures
        command_line(help::example_args(examples()[5])) is Ok,
{
    reveal_strlit("rw-vn100");
    reveal_strlit("rrg");
    reveal_strlit("1");
    reveal_strlit("rw-vn100 rrg 1                      # model number");
    let program = "rw-vn100"@;
    let line = "rw-vn100 rrg 1                      # model number"@;
    let verb = "rrg"@;
    let id = "1"@;
    let none = Seq::<Seq<char>>::empty();
    assert(line.take(36) =~= program + seq![' '] + verb + seq![' '] + id + help::spaces(22));
    help::lemma_two_args(line, program, verb, id, 22);
    let args = seq![verb, id];
    let o = OptionsView { positional: none.push(verb), ..default_options() };
    lemma_word_is_positional(args, default_options());
    assert(args.skip(1) =~= seq![id]);
    lemma_word_is_positional(seq![id], o);
    assert(seq![id].skip(1) =~= none);
    lemma_bare(verb);
    lemma_verbs();
    assert(number::decimal(1) =~= id);
    number::law_parse_decimal(1, 255);
}

/// The help offers no command line that the parser refuses: the arguments of every
/// example are accepted.
pub proof fn law_examples_are_accepted(i: int)
    requires
        0 <= i < examples().len(),
    ensures
        command_line(help::example_args(examples()[i])) is Ok,
{
    lemma_example_get_ascii();
    lemma_example_set_ascii_hz();
    lemma_example_set_bin_fields();
    lemma_example_set_bin_hz();
    lemma_example_set_bin();
    lemma_example_rrg();
    assert(i == 0 || i == 1 || i == 2 || i == 3 || i == 4 || i == 5);
}

} // verus!
