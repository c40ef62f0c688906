//! Running a command: from the parsed command line to the end of the session.
//!
//! `Session::run` starts a session of `rw-vn100`, `Session::run_configuring` one
//! of `rdwr_vn100`; `Session::next` takes what came of the last action and gives
//! the next turn.
use crate::bench;
use crate::cli;
use crate::cli::{help_text, version_line, BinSet, Config};
use crate::configure;
use crate::configure::{AsciiBench, AsciiStep, BinaryBench, BinaryStep};
use crate::fields;
use crate::number;
use crate::number::{decimal2_text, decimal_text};
use crate::output;
use crate::output::{apply, apply_rate, parse_reg75, shown_text, write_payload_text, BinOutput};
use crate::proto;
use crate::proto::build_command;
use crate::rdwr;
use crate::registers;
use crate::registers::ascii_type_name;
use crate::report;
use crate::report::Cell;
use crate::session;
use crate::session::{
    around_text, end, fail, no_reply_text, preset_of, print_reg_fields, rate_of, reply_of, say,
    say_rx, send, silence, Action, Event, Turn,
};
use crate::text;
use crate::text::{concat2, concat3, joined};
use crate::transact;
use crate::transact::Accept;
use vstd::pervasive::unreached;
use vstd::prelude::*;
use vstd::string::*;

verus! {

// ---------------------------------------------------------------------------
// Before the port is open
// ---------------------------------------------------------------------------
/// What to do with a parsed command line.
pub enum Prelude {
    /// Print this and leave.
    Show(String),
    /// Print this and open the port.
    Open(String),
}

/// A `Prelude` with its text taken by characters.
pub enum PreludeView {
    Show(Seq<char>),
    Open(Seq<char>),
}

impl View for Prelude {
    type V = PreludeView;

    open spec fn view(&self) -> PreludeView {
        match *self {
            Prelude::Show(s) => PreludeView::Show(s@),
            Prelude::Open(s) => PreludeView::Open(s@),
        }
    }
}

/// The line that announces the port.
pub open spec fn opening(c: cli::ConfigView) -> Seq<char> {
    "Opening "@ + c.port + " at "@ + number::decimal(c.baud as nat) + " baud...\n"@
}

/// The line that announces the port.
fn opening_text(c: &Config) -> (r: String)
    ensures
        r@ == opening(c@),
{
    let n = decimal_text(c.baud as u64);
    let mut s = concat3("Opening ", c.port.as_str(), " at ");
    s.append(n.as_str());
    s.append(" baud...\n");
    s
}

/// The banner line of `rw-vn100`.
pub open spec fn banner() -> Seq<char> {
    "rw-vn100 "@ + cli::VERSION@ + "\n"@
}

/// What `rw-vn100` does with a parsed command line. A bench is stamped with the
/// version as its first line, so that a captured log records which build produced
/// the numbers.
pub open spec fn prelude_of(c: cli::ConfigView, command: cli::CommandView) -> PreludeView {
    match command {
        cli::CommandView::Help => PreludeView::Show(cli::help()),
        cli::CommandView::Version => PreludeView::Show(banner()),
        cli::CommandView::Bench { secs } => PreludeView::Open(banner() + opening(c)),
        _ => PreludeView::Open(opening(c)),
    }
}

/// What `rw-vn100` does with a parsed command line.
pub fn prelude(c: &Config, command: &cli::Command) -> (r: Prelude)
    ensures
        r@ == prelude_of(c@, command@),
{
    match command {
        cli::Command::Help => Prelude::Show(help_text()),
        cli::Command::Version => {
            let v = version_line();
            Prelude::Show(concat2(v.as_str(), "\n"))
        },
        cli::Command::Bench { secs } => {
            let v = version_line();
            let mut s = concat2(v.as_str(), "\n");
            let o = opening_text(c);
            s.append(o.as_str());
            Prelude::Open(s)
        },
        _ => Prelude::Open(opening_text(c)),
    }
}

/// What `rdwr_vn100` does with a parsed command line.
pub open spec fn configuring_prelude_of(
    c: cli::ConfigView,
    command: rdwr::CommandView,
) -> PreludeView {
    match command {
        rdwr::CommandView::Help => PreludeView::Show(rdwr::help()),
        _ => PreludeView::Open(opening(c)),
    }
}

/// What `rdwr_vn100` does with a parsed command line.
pub fn configuring_prelude(c: &Config, command: &rdwr::Command) -> (r: Prelude)
    ensures
        r@ == configuring_prelude_of(c@, command@),
{
    match command {
        rdwr::Command::Help => Prelude::Show(rdwr::help_text()),
        _ => Prelude::Open(opening_text(c)),
    }
}

// ---------------------------------------------------------------------------
// Sessions
// ---------------------------------------------------------------------------
/// A change to the binary output.
pub enum OutputChange {
    Step(BinSet),
    Rate { hz: u32 },
}

/// The view of an `OutputChange`.
pub enum OutputChangeView {
    Step(cli::BinSetView),
    Rate { hz: u32 },
}

impl View for OutputChange {
    type V = OutputChangeView;

    open spec fn view(&self) -> OutputChangeView {
        match *self {
            OutputChange::Step(b) => OutputChangeView::Step(b@),
            OutputChange::Rate { hz } => OutputChangeView::Rate { hz },
        }
    }
}

/// Whether a change can be made: fields that a mask has, and a rate that divides the base
/// rate.
pub open spec fn change_wf(c: OutputChangeView) -> bool {
    match c {
        OutputChangeView::Step(b) => output::valid_step(b),
        OutputChangeView::Rate { hz } => registers::divides_base(hz),
    }
}

/// Where a session stands: what it waits for and what it will do then.
pub enum State {
    Finished,
    /// A register-7 reply; `persist` saves to flash after it.
    Rate { persist: bool },
    /// A register-6 reply; `persist` saves to flash after it.
    Preset { persist: bool },
    /// The echo of saving to flash.
    Saving,
    /// The echo of the new baud rate, still at the old one.
    BaudAck { baud: u32, persist: bool },
    /// The switch of this connection.
    BaudSwitch { baud: u32, persist: bool },
    /// Any reply at the new baud rate.
    BaudVerify { baud: u32, persist: bool },
    /// The echo of saving to flash at the new baud rate.
    BaudSaving { baud: u32 },
    /// The reboot of a reset.
    Resetting,
    /// The reboot of a factory reset.
    Restoring,
    /// A register reply to show; `persist` saves to flash after it.
    Register { accept: Accept, persist: bool },
    /// The binary output to show.
    Output,
    /// The binary output as it is, before `change` is written.
    OutputBefore { change: OutputChange, persist: bool },
    /// The passive bench's measurement.
    Streaming,
    /// A bench of the ASCII output.
    Ascii(AsciiBench, AsciiStep),
    /// A bench of the binary output.
    Binary(BinaryBench, BinaryStep),
}

/// The view of a `State`.
pub enum StateView {
    Finished,
    Rate { persist: bool },
    Preset { persist: bool },
    Saving,
    BaudAck { baud: u32, persist: bool },
    BaudSwitch { baud: u32, persist: bool },
    BaudVerify { baud: u32, persist: bool },
    BaudSaving { baud: u32 },
    Resetting,
    Restoring,
    Register { accept: transact::AcceptView, persist: bool },
    Output,
    OutputBefore { change: OutputChangeView, persist: bool },
    Streaming,
    Ascii(AsciiBench, AsciiStep),
    Binary(configure::BinaryBenchView, configure::BinaryStepView),
}

impl View for State {
    type V = StateView;

    open spec fn view(&self) -> StateView {
        match *self {
            State::Finished => StateView::Finished,
            State::Rate { persist } => StateView::Rate { persist },
            State::Preset { persist } => StateView::Preset { persist },
            State::Saving => StateView::Saving,
            State::BaudAck { baud, persist } => StateView::BaudAck { baud, persist },
            State::BaudSwitch { baud, persist } => StateView::BaudSwitch { baud, persist },
            State::BaudVerify { baud, persist } => StateView::BaudVerify { baud, persist },
            State::BaudSaving { baud } => StateView::BaudSaving { baud },
            State::Resetting => StateView::Resetting,
            State::Restoring => StateView::Restoring,
            State::Register { accept, persist } => StateView::Register { accept: accept@, persist },
            State::Output => StateView::Output,
            State::OutputBefore { change, persist } => StateView::OutputBefore {
                change: change@,
                persist,
            },
            State::Streaming => StateView::Streaming,
            State::Ascii(b, s) => StateView::Ascii(b, s),
            State::Binary(b, s) => StateView::Binary(b@, s@),
        }
    }
}

/// Whether a state can go on.
pub open spec fn state_wf(s: StateView) -> bool {
    match s {
        StateView::OutputBefore { change, persist } => change_wf(change),
        StateView::Binary(b, step) => configure::binary_wf(b),
        _ => true,
    }
}

/// What a state waits for.
pub open spec fn awaits(s: StateView) -> session::Awaited {
    match s {
        StateView::Finished => session::Awaited::Nothing,
        StateView::Rate { persist } => session::Awaited::Reply(transact::AcceptView::Rate),
        StateView::Preset { persist } => session::Awaited::Reply(transact::AcceptView::Preset),
        StateView::Saving => session::Awaited::Reply(transact::AcceptView::Prefix("$VNWNV"@)),
        StateView::BaudAck { baud, persist } => session::Awaited::Reply(
            transact::AcceptView::Prefix("$VNWRG,05,"@),
        ),
        StateView::BaudSwitch { baud, persist } => session::Awaited::Switch,
        StateView::BaudVerify { baud, persist } => session::Awaited::Reply(
            transact::AcceptView::Rate,
        ),
        StateView::BaudSaving { baud } => session::Awaited::Reply(
            transact::AcceptView::Prefix("$VNWNV"@),
        ),
        StateView::Resetting => session::Awaited::Reboot,
        StateView::Restoring => session::Awaited::Reboot,
        StateView::Register { accept, persist } => session::Awaited::Reply(accept),
        StateView::Output => session::Awaited::Reply(
            transact::AcceptView::Prefix("$VNRRG,75,"@),
        ),
        StateView::OutputBefore { change, persist } => session::Awaited::Reply(
            transact::AcceptView::Prefix("$VNRRG,75,"@),
        ),
        StateView::Streaming => session::Awaited::Stats,
        StateView::Ascii(b, step) => configure::ascii_awaits(step),
        StateView::Binary(b, step) => configure::binary_awaits(b, step),
    }
}

/// A session: the baud rate of its connection, and where it stands.
pub struct Session {
    pub baud: u32,
    pub state: State,
}

/// No cells.
pub open spec fn nothing() -> Seq<report::CellView> {
    Seq::empty()
}

/// A turn that asks for the async rate.
pub open spec fn asking_rate(output: Seq<report::CellView>, missing: Seq<char>) -> session::TurnView {
    session::sending(output, "VNRRG,07"@, configure::TRIES, transact::AcceptView::Rate, missing)
}

/// A turn that saves all settings to flash.
pub open spec fn saving(output: Seq<report::CellView>, missing: Seq<char>) -> session::TurnView {
    session::sending(
        output,
        "VNWNV"@,
        configure::TRIES,
        transact::AcceptView::Prefix("$VNWNV"@),
        missing,
    )
}

/// After a setting was acknowledged: save it if asked to, else done.
pub open spec fn then_persist(
    output: Seq<report::CellView>,
    persist: bool,
    baud: u32,
) -> (StateView, session::TurnView) {
    if persist {
        (StateView::Saving, saving(output, session::no_reply(baud)))
    } else {
        (StateView::Finished, session::ending(output, Ok(())))
    }
}

/// The payload that reads a register.
pub open spec fn read_payload(id: u8) -> Seq<char> {
    "VNRRG,"@ + number::decimal2(id as nat)
}

/// The payload that writes a register.
pub open spec fn write_payload(id: u8, params: Seq<Seq<char>>) -> Seq<char> {
    "VNWRG,"@ + number::decimal2(id as nat) + ","@ + text::join(params, ","@)
}

/// The line that shows a preset.
pub open spec fn preset_shown(preset: u8) -> Seq<char> {
    "Async output type: "@ + registers::preset_display(preset) + " (ADOR "@ + number::decimal(
        preset as nat,
    ) + ")"@
}

/// The note on a baud rate that was not saved.
pub open spec fn volatile_note(baud: u32) -> Seq<char> {
    "(Volatile — the device holds this across host reconnects, but a power cycle or `reset`/`factory-reset` reverts it to the flash baud. Re-run with `baud "@
        + number::decimal(baud as nat) + " --persist` to make it permanent.)"@
}

/// The binary output after a change.
pub open spec fn changed_output(o: BinOutput, c: OutputChangeView) -> Result<
    BinOutput,
    Seq<char>,
> {
    match c {
        OutputChangeView::Step(b) => output::changed(o, b),
        OutputChangeView::Rate { hz } => Ok(output::with_rate(o, hz)),
    }
}

/// The line that shows a register-75 reply: port, rate and fields, or, where it is
/// no configuration of the Common group alone, the register's fields.
pub open spec fn output_line(reply: Seq<char>) -> Seq<char> {
    match output::reply_output(reply) {
        Some(o) => output::shown(o),
        None => session::reg_fields(reply),
    }
}

/// The next state and turn.
pub open spec fn stepped(baud: u32, s: StateView, e: Event) -> (StateView, session::TurnView) {
    match s {
        StateView::Finished => (s, session::ending(nothing(), Ok(()))),
        StateView::Rate { persist } => match e->Replied_0 {
            Err(t) => (StateView::Finished, session::failing(t@)),
            Ok(reply) => then_persist(
                nothing().push(session::rx(reply@)).push(
                    session::said(
                        session::around(
                            "Async output rate: "@,
                            proto::reg07_value(reply@)->0 as nat,
                            " Hz"@,
                        ),
                    ),
                ),
                persist,
                baud,
            ),
        },
        StateView::Preset { persist } => match e->Replied_0 {
            Err(t) => (StateView::Finished, session::failing(t@)),
            Ok(reply) => then_persist(
                nothing().push(session::rx(reply@)).push(
                    session::said(preset_shown(proto::reg06_value(reply@)->0 as u8)),
                ),
                persist,
                baud,
            ),
        },
        StateView::Saving => match e->Replied_0 {
            Err(t) => (StateView::Finished, session::failing(t@)),
            Ok(reply) => (
                StateView::Finished,
                session::ending(
                    nothing().push(session::rx(reply@)).push(
                        session::said("Settings written to non-volatile memory."@),
                    ),
                    Ok(()),
                ),
            ),
        },
        StateView::BaudAck { baud: new_baud, persist } => match e->Replied_0 {
            Err(t) => (StateView::Finished, session::failing(t@)),
            Ok(reply) => (
                StateView::BaudSwitch { baud: new_baud, persist },
                session::TurnView {
                    output: nothing().push(session::rx(reply@)).push(
                        session::said(
                            session::around(
                                "Device acknowledged baud change to "@,
                                new_baud as nat,
                                "."@,
                            ),
                        ),
                    ),
                    action: session::ActionView::SwitchBaud { baud: new_baud },
                },
            ),
        },
        StateView::BaudSwitch { baud: new_baud, persist } => match e->Switched_0 {
            Err(t) => (StateView::Finished, session::failing(t@)),
            Ok(_) => (
                StateView::BaudVerify { baud: new_baud, persist },
                asking_rate(
                    nothing().push(
                        session::said(
                            session::around("Verifying at "@, new_baud as nat, " baud..."@),
                        ),
                    ),
                    "device did not respond at the new baud (a power cycle reverts to the flash baud)"@,
                ),
            ),
        },
        StateView::BaudVerify { baud: new_baud, persist } => match e->Replied_0 {
            Err(t) => (StateView::Finished, session::failing(t@)),
            Ok(reply) => {
                let shown = nothing().push(session::rx(reply@)).push(
                    session::said(
                        session::around(
                            "Verified — device is at "@,
                            new_baud as nat,
                            " baud (async rate "@,
                        ) + number::decimal(proto::reg07_value(reply@)->0 as nat) + " Hz)."@,
                    ),
                );
                if persist {
                    (
                        StateView::BaudSaving { baud: new_baud },
                        saving(shown, "no $VNWNV confirmation at the new baud"@),
                    )
                } else {
                    (
                        StateView::Finished,
                        session::ending(
                            shown.push(session::said(volatile_note(new_baud))),
                            Ok(()),
                        ),
                    )
                }
            },
        },
        StateView::BaudSaving { baud: new_baud } => match e->Replied_0 {
            Err(t) => (StateView::Finished, session::failing(t@)),
            Ok(reply) => (
                StateView::Finished,
                session::ending(
                    nothing().push(session::rx(reply@)).push(
                        session::said(
                            session::around(
                                "Baud saved to flash; the device will boot at "@,
                                new_baud as nat,
                                " from now on."@,
                            ),
                        ),
                    ),
                    Ok(()),
                ),
            ),
        },
        StateView::Resetting => match e->Rebooted_0 {
            Err(t) => (StateView::Finished, session::failing(t@)),
            Ok(line) => (
                StateView::Finished,
                session::ending(
                    nothing().push(session::said(line@)).push(
                        session::said(
                            "Reset requested — sensor is rebooting and reloading its saved settings."@,
                        ),
                    ),
                    Ok(()),
                ),
            ),
        },
        StateView::Restoring => match e->Rebooted_0 {
            Err(t) => (StateView::Finished, session::failing(t@)),
            Ok(line) => (
                StateView::Finished,
                session::ending(
                    nothing().push(session::said(line@)).push(
                        session::said("Factory restore requested — sensor is rebooting."@),
                    ).push(
                        session::said(
                            "It is now at 115200 baud with the default async output. Reconnect with the default --baud (115200)."@,
                        ),
                    ),
                    Ok(()),
                ),
            ),
        },
        StateView::Register { accept, persist } => match e->Replied_0 {
            Err(t) => (StateView::Finished, session::failing(t@)),
            Ok(reply) => then_persist(
                nothing().push(session::rx(reply@)).push(
                    session::said(session::reg_fields(reply@)),
                ),
                persist,
                baud,
            ),
        },
        StateView::Output => match e->Replied_0 {
            Err(t) => (StateView::Finished, session::failing(t@)),
            Ok(reply) => (
                StateView::Finished,
                session::ending(
                    nothing().push(session::rx(reply@)).push(session::said(output_line(reply@))),
                    Ok(()),
                ),
            ),
        },
        StateView::OutputBefore { change, persist } => match e->Replied_0 {
            Err(t) => (StateView::Finished, session::failing(t@)),
            Ok(reply) => {
                let shown = nothing().push(session::rx(reply@));
                match output::reply_output(reply@) {
                    None => (
                        StateView::Finished,
                        session::ending(
                            shown,
                            Err("unrecognized binary output configuration: "@ + reply@),
                        ),
                    ),
                    Some(o) => match changed_output(o, change) {
                        Err(t) => (StateView::Finished, session::ending(shown, Err(t))),
                        Ok(p) => (
                            StateView::Register {
                                accept: transact::AcceptView::Prefix("$VNWRG,75"@),
                                persist,
                            },
                            session::sending(
                                shown,
                                output::write_payload(p),
                                configure::TRIES,
                                transact::AcceptView::Prefix("$VNWRG,75"@),
                                session::no_reply(baud),
                            ),
                        ),
                    },
                }
            },
        },
        StateView::Streaming => match e {
            Event::Measured(st) => (
                StateView::Finished,
                session::ending(report::report_cells(baud, st), bench::bench_verdict(st)),
            ),
            _ => (StateView::Finished, session::failing(e->Failed_0@)),
        },
        StateView::Ascii(b, step) => {
            let (next, turn) = configure::ascii_stepped(b, step, e);
            (
                match next {
                    Some(n) => StateView::Ascii(b, n),
                    None => StateView::Finished,
                },
                turn,
            )
        },
        StateView::Binary(b, step) => {
            let (next, turn) = configure::binary_stepped(b, step, e);
            (
                match next {
                    Some(n) => StateView::Binary(b, n),
                    None => StateView::Finished,
                },
                turn,
            )
        },
    }
}

/// After a setting was acknowledged: save it if asked to, else done.
fn persist_then(output: Vec<Cell>, persist: bool, baud: u32) -> (r: (State, Turn))
    ensures
        (r.0@, r.1@) == then_persist(report::cells(output@), persist, baud),
{
    if persist {
        let missing = no_reply_text(baud);
        let t = send(
            output,
            "VNWNV",
            configure::TRIES,
            Accept::Prefix("$VNWNV"),
            missing.as_str(),
        );
        (State::Saving, t)
    } else {
        (State::Finished, end(output, Ok(())))
    }
}

/// The note on a baud rate that was not saved.
fn volatile_text(baud: u32) -> (r: String)
    ensures
        r@ == volatile_note(baud),
{
    let n = decimal_text(baud as u64);
    concat3(
        "(Volatile — the device holds this across host reconnects, but a power cycle or `reset`/`factory-reset` reverts it to the flash baud. Re-run with `baud ",
        n.as_str(),
        " --persist` to make it permanent.)",
    )
}

/// The line that shows a preset.
fn preset_shown_text(preset: u8) -> (r: String)
    ensures
        r@ == preset_shown(preset),
{
    let name = ascii_type_name(preset);
    let n = decimal_text(preset as u64);
    let mut s = concat3("Async output type: ", name.as_str(), " (ADOR ");
    s.append(n.as_str());
    s.append(")");
    s
}

/// The line that shows a register-75 reply.
fn output_line_text(reply: &str) -> (r: String)
    ensures
        r@ == output_line(reply@),
{
    match parse_reg75(reply) {
        Some(o) => shown_text(&o),
        None => print_reg_fields(reply),
    }
}

/// After the baud rate was verified.
fn baud_verified(reply: &str, baud: u32, persist: bool) -> (r: (State, Turn))
    requires
        proto::reg07_value(reply@) is Some,
    ensures
        ({
            let shown = nothing().push(session::rx(reply@)).push(
                session::said(
                    session::around(
                        "Verified — device is at "@,
                        baud as nat,
                        " baud (async rate "@,
                    ) + number::decimal(proto::reg07_value(reply@)->0 as nat) + " Hz)."@,
                ),
            );
            (r.0@, r.1@) == if persist {
                (
                    StateView::BaudSaving { baud },
                    saving(shown, "no $VNWNV confirmation at the new baud"@),
                )
            } else {
                (
                    StateView::Finished,
                    session::ending(shown.push(session::said(volatile_note(baud))), Ok(())),
                )
            }
        }),
{
    let mut out = silence();
    say_rx(&mut out, reply);
    let hz = decimal_text(rate_of(reply) as u64);
    let mut line = around_text("Verified — device is at ", baud as u64, " baud (async rate ");
    line.append(hz.as_str());
    line.append(" Hz).");
    say(&mut out, line.as_str());
    if persist {
        let t = send(
            out,
            "VNWNV",
            configure::TRIES,
            Accept::Prefix("$VNWNV"),
            "no $VNWNV confirmation at the new baud",
        );
        (State::BaudSaving { baud }, t)
    } else {
        let note = volatile_text(baud);
        say(&mut out, note.as_str());
        (State::Finished, end(out, Ok(())))
    }
}

/// After the binary output was read: write it changed.
fn output_read(baud: u32, change: OutputChange, persist: bool, reply: &str) -> (r: (State, Turn))
    requires
        change_wf(change@),
    ensures
        ({
            let shown = nothing().push(session::rx(reply@));
            (r.0@, r.1@) == match output::reply_output(reply@) {
                None => (
                    StateView::Finished,
                    session::ending(
                        shown,
                        Err("unrecognized binary output configuration: "@ + reply@),
                    ),
                ),
                Some(o) => match changed_output(o, change@) {
                    Err(t) => (StateView::Finished, session::ending(shown, Err(t))),
                    Ok(p) => (
                        StateView::Register {
                            accept: transact::AcceptView::Prefix("$VNWRG,75"@),
                            persist,
                        },
                        session::sending(
                            shown,
                            output::write_payload(p),
                            configure::TRIES,
                            transact::AcceptView::Prefix("$VNWRG,75"@),
                            session::no_reply(baud),
                        ),
                    ),
                },
            }
        }),
{
    let mut out = silence();
    say_rx(&mut out, reply);
    let now: BinOutput = match parse_reg75(reply) {
        Some(o) => o,
        None => {
            let e = concat2("unrecognized binary output configuration: ", reply);
            return (State::Finished, end(out, Err(e)));
        },
    };
    let new: BinOutput = match &change {
        OutputChange::Step(b) => match apply(now, b) {
            Ok(p) => p,
            Err(e) => return (State::Finished, end(out, Err(e))),
        },
        OutputChange::Rate { hz } => apply_rate(now, *hz),
    };
    let p = write_payload_text(&new);
    let missing = no_reply_text(baud);
    let t = send(
        out,
        p.as_str(),
        configure::TRIES,
        Accept::Prefix("$VNWRG,75"),
        missing.as_str(),
    );
    (State::Register { accept: Accept::Prefix("$VNWRG,75"), persist }, t)
}

/// After the device rebooted for a reset.
fn reset_done(line: &str) -> (r: Turn)
    ensures
        r@ == session::ending(
            nothing().push(session::said(line@)).push(
                session::said(
                    "Reset requested — sensor is rebooting and reloading its saved settings."@,
                ),
            ),
            Ok(()),
        ),
{
    let mut out = silence();
    say(&mut out, line);
    say(
        &mut out,
        "Reset requested — sensor is rebooting and reloading its saved settings.",
    );
    end(out, Ok(()))
}

/// After the device rebooted for a factory reset.
fn restore_done(line: &str) -> (r: Turn)
    ensures
        r@ == session::ending(
            nothing().push(session::said(line@)).push(
                session::said("Factory restore requested — sensor is rebooting."@),
            ).push(
                session::said(
                    "It is now at 115200 baud with the default async output. Reconnect with the default --baud (115200)."@,
                ),
            ),
            Ok(()),
        ),
{
    let mut out = silence();
    say(&mut out, line);
    say(&mut out, "Factory restore requested — sensor is rebooting.");
    say(
        &mut out,
        "It is now at 115200 baud with the default async output. Reconnect with the default --baud (115200).",
    );
    end(out, Ok(()))
}

/// The state and turn after an event.
fn step(baud: u32, state: State, event: Event) -> (r: (State, Turn))
    requires
        state_wf(state@),
        session::answers(awaits(state@), event),
    ensures
        (r.0@, r.1@) == stepped(baud, state@, event),
        state_wf(r.0@),
        session::brings(r.1.action@) == awaits(r.0@),
{
    match state {
        State::Finished => unreached(),
        State::Rate { persist } => match reply_of(event) {
            Err(e) => (State::Finished, fail(e)),
            Ok(reply) => {
                let mut out = silence();
                say_rx(&mut out, reply.as_str());
                let line = around_text(
                    "Async output rate: ",
                    rate_of(reply.as_str()) as u64,
                    " Hz",
                );
                say(&mut out, line.as_str());
                persist_then(out, persist, baud)
            },
        },
        State::Preset { persist } => match reply_of(event) {
            Err(e) => (State::Finished, fail(e)),
            Ok(reply) => {
                let mut out = silence();
                say_rx(&mut out, reply.as_str());
                let line = preset_shown_text(preset_of(reply.as_str()));
                say(&mut out, line.as_str());
                persist_then(out, persist, baud)
            },
        },
        State::Saving => match reply_of(event) {
            Err(e) => (State::Finished, fail(e)),
            Ok(reply) => {
                let mut out = silence();
                say_rx(&mut out, reply.as_str());
                say(&mut out, "Settings written to non-volatile memory.");
                (State::Finished, end(out, Ok(())))
            },
        },
        State::BaudAck { baud: new_baud, persist } => match reply_of(event) {
            Err(e) => (State::Finished, fail(e)),
            Ok(reply) => {
                let mut out = silence();
                say_rx(&mut out, reply.as_str());
                let line = around_text(
                    "Device acknowledged baud change to ",
                    new_baud as u64,
                    ".",
                );
                say(&mut out, line.as_str());
                // The device replied at the current baud and then switches. This
                // connection is switched in place: it is not that the device
                // would forget the baud, but each reconnect risks a line
                // transient that, at very high baud, can wedge the link until a
                // power cycle.
                (
                    State::BaudSwitch { baud: new_baud, persist },
                    Turn { output: out, action: Action::SwitchBaud { baud: new_baud } },
                )
            },
        },
        State::BaudSwitch { baud: new_baud, persist } => match event {
            Event::Switched(Ok(_)) => {
                let mut out = silence();
                let line = around_text("Verifying at ", new_baud as u64, " baud...");
                say(&mut out, line.as_str());
                let t = send(
                    out,
                    "VNRRG,07",
                    configure::TRIES,
                    Accept::Rate,
                    "device did not respond at the new baud (a power cycle reverts to the flash baud)",
                );
                (State::BaudVerify { baud: new_baud, persist }, t)
            },
            Event::Switched(Err(e)) => (State::Finished, fail(e)),
            _ => unreached(),
        },
        State::BaudVerify { baud: new_baud, persist } => match reply_of(event) {
            Err(e) => (State::Finished, fail(e)),
            Ok(reply) => baud_verified(reply.as_str(), new_baud, persist),
        },
        State::BaudSaving { baud: new_baud } => match reply_of(event) {
            Err(e) => (State::Finished, fail(e)),
            Ok(reply) => {
                let mut out = silence();
                say_rx(&mut out, reply.as_str());
                let line = around_text(
                    "Baud saved to flash; the device will boot at ",
                    new_baud as u64,
                    " from now on.",
                );
                say(&mut out, line.as_str());
                (State::Finished, end(out, Ok(())))
            },
        },
        State::Resetting => match event {
            Event::Rebooted(Ok(line)) => (State::Finished, reset_done(line.as_str())),
            Event::Rebooted(Err(e)) => (State::Finished, fail(e)),
            _ => unreached(),
        },
        State::Restoring => match event {
            Event::Rebooted(Ok(line)) => (State::Finished, restore_done(line.as_str())),
            Event::Rebooted(Err(e)) => (State::Finished, fail(e)),
            _ => unreached(),
        },
        State::Register { accept, persist } => match reply_of(event) {
            Err(e) => (State::Finished, fail(e)),
            Ok(reply) => {
                let mut out = silence();
                say_rx(&mut out, reply.as_str());
                let line = print_reg_fields(reply.as_str());
                say(&mut out, line.as_str());
                persist_then(out, persist, baud)
            },
        },
        State::Output => match reply_of(event) {
            Err(e) => (State::Finished, fail(e)),
            Ok(reply) => {
                let mut out = silence();
                say_rx(&mut out, reply.as_str());
                let line = output_line_text(reply.as_str());
                say(&mut out, line.as_str());
                (State::Finished, end(out, Ok(())))
            },
        },
        State::OutputBefore { change, persist } => match reply_of(event) {
            Err(e) => (State::Finished, fail(e)),
            Ok(reply) => output_read(baud, change, persist, reply.as_str()),
        },
        State::Streaming => match event {
            Event::Measured(st) => {
                let (out, verdict) = bench::bench(baud, &st);
                (State::Finished, end(out, verdict))
            },
            Event::Failed(e) => (State::Finished, fail(e)),
            _ => unreached(),
        },
        State::Ascii(b, s) => {
            let (next, t) = b.bench_ascii(s, event);
            match next {
                Some(n) => (State::Ascii(b, n), t),
                None => (State::Finished, t),
            }
        },
        State::Binary(b, s) => {
            let (next, t) = b.bench_binary(s, event);
            match next {
                Some(n) => (State::Binary(b, n), t),
                None => (State::Finished, t),
            }
        },
    }
}

// ---------------------------------------------------------------------------
// Starting
// ---------------------------------------------------------------------------
/// A first turn that sends a command, with the shared hint where nothing is heard.
pub open spec fn asking(baud: u32, payload: Seq<char>, accept: transact::AcceptView) -> session::TurnView {
    session::sending(nothing(), payload, configure::TRIES, accept, session::no_reply(baud))
}

/// A first turn that sends a command.
fn ask(baud: u32, payload: &str, accept: Accept) -> (r: Turn)
    ensures
        r@ == asking(baud, payload@, accept@),
{
    let missing = no_reply_text(baud);
    send(silence(), payload, configure::TRIES, accept, missing.as_str())
}

/// `baud <new>`.
pub open spec fn baud_started(baud: u32, new_baud: u32, persist: bool) -> (
    StateView,
    session::TurnView,
) {
    (
        StateView::BaudAck { baud: new_baud, persist },
        asking(
            baud,
            "VNWRG,05,"@ + number::decimal(new_baud as nat),
            transact::AcceptView::Prefix("$VNWRG,05,"@),
        ),
    )
}

fn start_baud(baud: u32, new_baud: u32, persist: bool) -> (r: (State, Turn))
    ensures
        (r.0@, r.1@) == baud_started(baud, new_baud, persist),
{
    let n = decimal_text(new_baud as u64);
    let p = concat2("VNWRG,05,", n.as_str());
    (
        State::BaudAck { baud: new_baud, persist },
        ask(baud, p.as_str(), Accept::Prefix("$VNWRG,05,")),
    )
}

/// `reset`.
pub open spec fn reset_started() -> (StateView, session::TurnView) {
    (
        StateView::Resetting,
        session::TurnView {
            output: nothing(),
            action: session::ActionView::Reboot {
                command: proto::command_line("VNRST"@),
                accept: transact::AcceptView::Prefix("$VNRST"@),
            },
        },
    )
}

fn start_reset() -> (r: (State, Turn))
    ensures
        (r.0@, r.1@) == reset_started(),
{
    let action = Action::Reboot {
        command: build_command("VNRST"),
        accept: Accept::Prefix("$VNRST"),
    };
    (State::Resetting, Turn { output: silence(), action })
}

/// `factory-reset`.
pub open spec fn restore_started() -> (StateView, session::TurnView) {
    (
        StateView::Restoring,
        session::TurnView {
            output: nothing().push(
                session::said(
                    "Restoring factory defaults — this overwrites flash and cannot be undone."@,
                ),
            ),
            action: session::ActionView::Reboot {
                command: proto::command_line("VNRFS"@),
                accept: transact::AcceptView::Prefix("$VNRFS"@),
            },
        },
    )
}

fn start_restore() -> (r: (State, Turn))
    ensures
        (r.0@, r.1@) == restore_started(),
{
    let mut out = silence();
    say(
        &mut out,
        "Restoring factory defaults — this overwrites flash and cannot be undone.",
    );
    let action = Action::Reboot {
        command: build_command("VNRFS"),
        accept: Accept::Prefix("$VNRFS"),
    };
    (State::Restoring, Turn { output: out, action })
}

/// `rrg <id>`.
pub open spec fn rrg_started(baud: u32, id: u8) -> (StateView, session::TurnView) {
    (
        StateView::Register {
            accept: transact::AcceptView::Prefix("$VNRRG,"@),
            persist: false,
        },
        asking(baud, read_payload(id), transact::AcceptView::Prefix("$VNRRG,"@)),
    )
}

fn start_rrg(baud: u32, id: u8) -> (r: (State, Turn))
    ensures
        (r.0@, r.1@) == rrg_started(baud, id),
{
    let n = decimal2_text(id as u64);
    let p = concat2("VNRRG,", n.as_str());
    (
        State::Register { accept: Accept::Prefix("$VNRRG,"), persist: false },
        ask(baud, p.as_str(), Accept::Prefix("$VNRRG,")),
    )
}

/// `wrg <id> <value>...`.
pub open spec fn wrg_started(baud: u32, id: u8, params: Seq<Seq<char>>) -> (
    StateView,
    session::TurnView,
) {
    (
        StateView::Register {
            accept: transact::AcceptView::Prefix("$VNWRG,"@),
            persist: false,
        },
        asking(baud, write_payload(id, params), transact::AcceptView::Prefix("$VNWRG,"@)),
    )
}

fn start_wrg(baud: u32, id: u8, params: &Vec<String>) -> (r: (State, Turn))
    ensures
        (r.0@, r.1@) == wrg_started(baud, id, text::views(params@)),
{
    let mut parts: Vec<&str> = Vec::new();
    let mut i: usize = 0;
    while i < params.len()
        invariant
            i <= params.len(),
            parts@.len() == i,
            forall|j: int| 0 <= j < i ==> #[trigger] parts@[j]@ == params@[j]@,
        decreases params.len() - i,
    {
        parts.push(params[i].as_str());
        i = i + 1;
    }
    assert(text::str_views(parts@) =~= text::views(params@));
    let values = joined(parts.as_slice(), ",");
    let n = decimal2_text(id as u64);
    let mut p = concat3("VNWRG,", n.as_str(), ",");
    p.append(values.as_str());
    (
        State::Register { accept: Accept::Prefix("$VNWRG,"), persist: false },
        ask(baud, p.as_str(), Accept::Prefix("$VNWRG,")),
    )
}

/// Whether a command of `rw-vn100` can be run, as every parsed one can.
pub open spec fn command_wf(c: cli::CommandView) -> bool {
    match c {
        cli::CommandView::SetBin { action, persist } => output::valid_step(action),
        cli::CommandView::SetBinHz { hz, persist } => registers::divides_base(hz),
        _ => true,
    }
}

/// The first state and turn of a command of `rw-vn100`.
pub open spec fn started(baud: u32, c: cli::CommandView) -> (StateView, session::TurnView) {
    match c {
        cli::CommandView::Help => (StateView::Finished, session::ending(nothing(), Ok(()))),
        cli::CommandView::Version => (StateView::Finished, session::ending(nothing(), Ok(()))),
        cli::CommandView::GetAscii => (
            StateView::Preset { persist: false },
            asking(baud, "VNRRG,06"@, transact::AcceptView::Preset),
        ),
        cli::CommandView::SetAscii { preset, persist } => (
            StateView::Preset { persist },
            asking(
                baud,
                configure::preset_payload(preset as nat),
                transact::AcceptView::Preset,
            ),
        ),
        cli::CommandView::SetAsciiHz { hz, persist } => (
            StateView::Rate { persist },
            asking(baud, configure::rate_payload(hz as nat), transact::AcceptView::Rate),
        ),
        cli::CommandView::GetBin => (
            StateView::Output,
            asking(baud, "VNRRG,75"@, transact::AcceptView::Prefix("$VNRRG,75,"@)),
        ),
        cli::CommandView::SetBin { action, persist } => (
            StateView::OutputBefore { change: OutputChangeView::Step(action), persist },
            asking(baud, "VNRRG,75"@, transact::AcceptView::Prefix("$VNRRG,75,"@)),
        ),
        cli::CommandView::SetBinHz { hz, persist } => (
            StateView::OutputBefore { change: OutputChangeView::Rate { hz }, persist },
            asking(baud, "VNRRG,75"@, transact::AcceptView::Prefix("$VNRRG,75,"@)),
        ),
        cli::CommandView::SetBaud { baud: new_baud, persist } => baud_started(
            baud,
            new_baud,
            persist,
        ),
        cli::CommandView::Reset => reset_started(),
        cli::CommandView::FactoryReset => restore_started(),
        cli::CommandView::Rrg { id } => rrg_started(baud, id),
        cli::CommandView::Wrg { id, params } => wrg_started(baud, id, params),
        cli::CommandView::Bench { secs } => (
            StateView::Streaming,
            session::TurnView {
                output: nothing().push(
                    session::said(
                        session::around(
                            "Measuring the live stream for "@,
                            secs as nat,
                            "s (passive — no device writes)..."@,
                        ),
                    ),
                ),
                action: session::ActionView::Measure { secs },
            },
        ),
    }
}

/// Whether a command of `rdwr_vn100` can be run, as every parsed one can.
pub open spec fn configuring_wf(c: rdwr::CommandView) -> bool {
    match c {
        rdwr::CommandView::Bench { binary, hz, secs, fields, serial_port, ascii_type } => binary
            ==> configure::binary_wf(
            configure::BinaryBenchView { baud: 0, hz, secs, fields, serial_port },
        ),
        _ => true,
    }
}

/// The first state and turn of a command of `rdwr_vn100`.
pub open spec fn configuring_started(baud: u32, c: rdwr::CommandView) -> (
    StateView,
    session::TurnView,
) {
    match c {
        rdwr::CommandView::Help => (StateView::Finished, session::ending(nothing(), Ok(()))),
        rdwr::CommandView::GetHz => (
            StateView::Rate { persist: false },
            asking(baud, "VNRRG,07"@, transact::AcceptView::Rate),
        ),
        rdwr::CommandView::SetHz { hz, persist } => (
            StateView::Rate { persist },
            asking(baud, configure::rate_payload(hz as nat), transact::AcceptView::Rate),
        ),
        rdwr::CommandView::SetBaud { baud: new_baud, persist } => baud_started(
            baud,
            new_baud,
            persist,
        ),
        rdwr::CommandView::Reset => reset_started(),
        rdwr::CommandView::FactoryReset => restore_started(),
        rdwr::CommandView::Rrg { id } => rrg_started(baud, id),
        rdwr::CommandView::Wrg { id, params } => wrg_started(baud, id, params),
        rdwr::CommandView::Bench { binary, hz, secs, fields, serial_port, ascii_type } => if binary {
            (
                StateView::Binary(
                    configure::BinaryBenchView { baud, hz, secs, fields, serial_port },
                    configure::BinaryStepView::ReadRate,
                ),
                configure::asking_rate(),
            )
        } else {
            (
                StateView::Ascii(
                    AsciiBench { baud, hz, secs, ascii_type },
                    AsciiStep::ReadRate,
                ),
                configure::asking_rate(),
            )
        },
    }
}

/// The first state and turn of a command of `rw-vn100`.
fn start(baud: u32, command: cli::Command) -> (r: (State, Turn))
    requires
        command_wf(command@),
    ensures
        (r.0@, r.1@) == started(baud, command@),
{
    match command {
        cli::Command::Help => (State::Finished, end(silence(), Ok(()))),
        cli::Command::Version => (State::Finished, end(silence(), Ok(()))),
        cli::Command::GetAscii => (
            State::Preset { persist: false },
            ask(baud, "VNRRG,06", Accept::Preset),
        ),
        cli::Command::SetAscii { preset, persist } => {
            let n = decimal_text(preset as u64);
            let p = concat2("VNWRG,06,", n.as_str());
            (State::Preset { persist }, ask(baud, p.as_str(), Accept::Preset))
        },
        cli::Command::SetAsciiHz { hz, persist } => {
            let n = decimal_text(hz as u64);
            let p = concat2("VNWRG,07,", n.as_str());
            (State::Rate { persist }, ask(baud, p.as_str(), Accept::Rate))
        },
        cli::Command::GetBin => (
            State::Output,
            ask(baud, "VNRRG,75", Accept::Prefix("$VNRRG,75,")),
        ),
        cli::Command::SetBin { action, persist } => (
            State::OutputBefore { change: OutputChange::Step(action), persist },
            ask(baud, "VNRRG,75", Accept::Prefix("$VNRRG,75,")),
        ),
        cli::Command::SetBinHz { hz, persist } => (
            State::OutputBefore { change: OutputChange::Rate { hz }, persist },
            ask(baud, "VNRRG,75", Accept::Prefix("$VNRRG,75,")),
        ),
        cli::Command::SetBaud { baud: new_baud, persist } => start_baud(baud, new_baud, persist),
        cli::Command::Reset => start_reset(),
        cli::Command::FactoryReset => start_restore(),
        cli::Command::Rrg { id } => start_rrg(baud, id),
        cli::Command::Wrg { id, params } => start_wrg(baud, id, &params),
        cli::Command::Bench { secs } => {
            let mut out = silence();
            let line = around_text(
                "Measuring the live stream for ",
                secs,
                "s (passive — no device writes)...",
            );
            say(&mut out, line.as_str());
            (State::Streaming, Turn { output: out, action: Action::Measure { secs } })
        },
    }
}

/// The first state and turn of a command of `rdwr_vn100`.
fn start_configuring(baud: u32, command: rdwr::Command) -> (r: (State, Turn))
    requires
        configuring_wf(command@),
    ensures
        (r.0@, r.1@) == configuring_started(baud, command@),
{
    match command {
        rdwr::Command::Help => (State::Finished, end(silence(), Ok(()))),
        rdwr::Command::GetHz => (
            State::Rate { persist: false },
            ask(baud, "VNRRG,07", Accept::Rate),
        ),
        rdwr::Command::SetHz { hz, persist } => {
            let n = decimal_text(hz as u64);
            let p = concat2("VNWRG,07,", n.as_str());
            (State::Rate { persist }, ask(baud, p.as_str(), Accept::Rate))
        },
        rdwr::Command::SetBaud { baud: new_baud, persist } => start_baud(baud, new_baud, persist),
        rdwr::Command::Reset => start_reset(),
        rdwr::Command::FactoryReset => start_restore(),
        rdwr::Command::Rrg { id } => start_rrg(baud, id),
        rdwr::Command::Wrg { id, params } => start_wrg(baud, id, &params),
        rdwr::Command::Bench { binary, hz, secs, fields, serial_port, ascii_type } => if binary {
            let b = BinaryBench { baud, hz, secs, fields, serial_port };
            let (step, turn) = b.start();
            (State::Binary(b, step), turn)
        } else {
            let b = AsciiBench { baud, hz, secs, ascii_type };
            let (step, turn) = b.start();
            (State::Ascii(b, step), turn)
        },
    }
}

impl Session {
    /// Whether the session can go on.
    pub open spec fn wf(&self) -> bool {
        state_wf(self.state@)
    }

    /// Starts a command of `rw-vn100` on a connection at `baud`: the session and
    /// its first turn.
    pub fn run(baud: u32, command: cli::Command) -> (r: (Session, Turn))
        requires
            command_wf(command@),
        ensures
            (r.0.state@, r.1@) == started(baud, command@),
            r.0.baud == baud,
            r.0.wf(),
            session::brings(r.1.action@) == awaits(r.0.state@),
    {
        let (state, turn) = start(baud, command);
        (Session { baud, state }, turn)
    }

    /// Starts a command of `rdwr_vn100` on a connection at `baud`: the session and
    /// its first turn.
    pub fn run_configuring(baud: u32, command: rdwr::Command) -> (r: (Session, Turn))
        requires
            configuring_wf(command@),
        ensures
            (r.0.state@, r.1@) == configuring_started(baud, command@),
            r.0.baud == baud,
            r.0.wf(),
            session::brings(r.1.action@) == awaits(r.0.state@),
    {
        let (state, turn) = start_configuring(baud, command);
        (Session { baud, state }, turn)
    }

    /// The session and its turn after what came of the last action.
    pub fn next(self, event: Event) -> (r: (Session, Turn))
        requires
            self.wf(),
            session::answers(awaits(self.state@), event),
        ensures
            (r.0.state@, r.1@) == stepped(self.baud, self.state@, event),
            r.0.baud == self.baud,
            r.0.wf(),
            session::brings(r.1.action@) == awaits(r.0.state@),
    {
        let baud: u32 = self.baud;
        let (state, turn) = step(baud, self.state, event);
        (Session { baud, state }, turn)
    }
}

// ---------------------------------------------------------------------------
// Laws
// ---------------------------------------------------------------------------
/// The fields that a list names are known ones and take at most 104 bytes.
proof fn lemma_listed_fields(list: Seq<char>)
    ensures
        fields::field_list(list) matches Ok(fs) ==> report::from_table(fs) && fields::bits_fit(fs)
            && fields::size_of_fields(fs) <= 104,
{
    match fields::field_list(list) {
        Ok(fs) => {
            let words = fields::list_words(list);
            let mask = fields::mask_of(fields::fields_called(words));
            fields::law_fields_survive_mask(words);
            fields::law_mask_round_trip(mask);
            report::lemma_fields_in_table(mask);
            report::lemma_table_bits(fs);
        },
        Err(_) => {},
    }
}

/// Every command line of `rw-vn100` that is accepted can be run.
pub proof fn law_parsed_commands_can_run(args: Seq<Seq<char>>)
    ensures
        cli::command_line(args) matches Ok((config, command)) ==> command_wf(command),
{
    match cli::command_line(args) {
        Ok((config, command)) => {
            if command is SetBin {
                let o = cli::read_options(args, cli::default_options())->Ok_0;
                match cli::value_of(o.positional[0]) {
                    Some(list) => lemma_listed_fields(list),
                    None => {},
                }
            }
        },
        Err(_) => {},
    }
}

/// The default fields are known ones and take 20 bytes.
proof fn lemma_default_fields()
    ensures
        ({
            let fs = seq![fields::field_table()[0], fields::field_table()[4]];
            report::from_table(fs) && fields::size_of_fields(fs) == 20
        }),
{
    let fs = seq![fields::field_table()[0], fields::field_table()[4]];
    assert forall|i: int| 0 <= i < fs.len() implies report::in_table(#[trigger] fs[i]) by {
        if i == 0 {
            assert(fields::field_table()[0] == fs[i]);
        } else {
            assert(fields::field_table()[4] == fs[i]);
        }
    }
    let one = seq![fields::field_table()[0]];
    assert(fs.drop_last() =~= one);
    assert(one.drop_last() =~= Seq::<fields::FieldView>::empty());
    reveal_with_fuel(fields::size_of_fields, 3);
}

/// Every command line of `rdwr_vn100` that is accepted can be run.
pub proof fn law_parsed_configuring_commands_can_run(args: Seq<Seq<char>>)
    ensures
        rdwr::command_line(args) matches Ok((config, command)) ==> configuring_wf(command),
{
    match rdwr::command_line(args) {
        Ok((config, command)) => {
            if command is Bench {
                let o = rdwr::read_options(args, rdwr::default_options())->Ok_0;
                match o.fields {
                    Some(list) => lemma_listed_fields(list),
                    None => lemma_default_fields(),
                }
            }
        },
        Err(_) => {},
    }
}

/// How many more answers a session takes at most.
pub open spec fn rank(s: StateView) -> nat {
    match s {
        StateView::Finished => 0,
        StateView::Saving => 1,
        StateView::Rate { persist } => 2,
        StateView::Preset { persist } => 2,
        StateView::Register { accept, persist } => 2,
        StateView::Output => 1,
        StateView::OutputBefore { change, persist } => 3,
        StateView::BaudSaving { baud } => 1,
        StateView::BaudVerify { baud, persist } => 2,
        StateView::BaudSwitch { baud, persist } => 3,
        StateView::BaudAck { baud, persist } => 4,
        StateView::Resetting => 1,
        StateView::Restoring => 1,
        StateView::Streaming => 1,
        StateView::Ascii(b, step) => configure::ascii_rank(step),
        StateView::Binary(b, step) => configure::binary_rank(step),
    }
}

/// Sessions other than benches that configure come to an end.
proof fn lemma_core_ends(baud: u32, s: StateView, e: Event)
    requires
        session::answers(awaits(s), e),
        s !is Ascii,
        s !is Binary,
    ensures
        rank(stepped(baud, s, e).0) < rank(s),
        stepped(baud, s, e).0 is Finished <==> stepped(baud, s, e).1.action is Done,
{
}

/// A bench of the ASCII output comes to an end.
proof fn lemma_ascii_ends(baud: u32, b: AsciiBench, step: AsciiStep, e: Event)
    requires
        session::answers(configure::ascii_awaits(step), e),
    ensures
        ({
            let s = StateView::Ascii(b, step);
            &&& rank(stepped(baud, s, e).0) < rank(s)
            &&& stepped(baud, s, e).0 is Finished <==> stepped(baud, s, e).1.action is Done
        }),
{
    configure::law_ascii_bench_ends(b, step, e);
}

/// A bench of the binary output comes to an end.
proof fn lemma_binary_ends(
    baud: u32,
    b: configure::BinaryBenchView,
    step: configure::BinaryStepView,
    e: Event,
)
    requires
        session::answers(configure::binary_awaits(b, step), e),
    ensures
        ({
            let s = StateView::Binary(b, step);
            &&& rank(stepped(baud, s, e).0) < rank(s)
            &&& stepped(baud, s, e).0 is Finished <==> stepped(baud, s, e).1.action is Done
        }),
{
    configure::law_binary_bench_ends(b, step, e);
}

/// Every session comes to an end: each answer leaves fewer to wait for, and a
/// session is done exactly when it waits for nothing more.
pub proof fn law_sessions_end(baud: u32, s: StateView, e: Event)
    requires
        session::answers(awaits(s), e),
    ensures
        rank(stepped(baud, s, e).0) < rank(s),
        stepped(baud, s, e).0 is Finished <==> stepped(baud, s, e).1.action is Done,
{
    match s {
        StateView::Ascii(b, step) => {
            lemma_ascii_ends(baud, b, step, e);
        },
        StateView::Binary(b, step) => {
            lemma_binary_ends(baud, b, step, e);
        },
        _ => {
            lemma_core_ends(baud, s, e);
        },
    }
}

/// The passive bench writes nothing: its one action is to measure, and then it is
/// done.
pub proof fn law_passive_bench_writes_nothing(baud: u32, secs: u64, e: Event)
    requires
        session::answers(session::Awaited::Stats, e),
    ensures
        started(baud, cli::CommandView::Bench { secs }).1.action == (session::ActionView::Measure {
            secs,
        }),
        stepped(baud, started(baud, cli::CommandView::Bench { secs }).0, e).1.action is Done,
{
}

/// Whether a session has been asked to save the settings to flash, and has yet to.
pub open spec fn will_save(s: StateView) -> bool {
    match s {
        StateView::Rate { persist } => persist,
        StateView::Preset { persist } => persist,
        StateView::BaudAck { baud, persist } => persist,
        StateView::BaudSwitch { baud, persist } => persist,
        StateView::BaudVerify { baud, persist } => persist,
        StateView::Register { accept, persist } => persist,
        StateView::OutputBefore { change, persist } => persist,
        _ => false,
    }
}

/// Whether a turn saves the settings to flash.
pub open spec fn saves(t: session::TurnView) -> bool {
    configure::sends(t.action, "VNWNV"@)
}

/// Whether a command of `rw-vn100` asks to save the settings to flash.
pub open spec fn asks_to_save(c: cli::CommandView) -> bool {
    match c {
        cli::CommandView::SetAscii { preset, persist } => persist,
        cli::CommandView::SetAsciiHz { hz, persist } => persist,
        cli::CommandView::SetBin { action, persist } => persist,
        cli::CommandView::SetBinHz { hz, persist } => persist,
        cli::CommandView::SetBaud { baud, persist } => persist,
        _ => false,
    }
}

/// Whether a command of `rdwr_vn100` asks to save the settings to flash.
pub open spec fn configuring_asks_to_save(c: rdwr::CommandView) -> bool {
    match c {
        rdwr::CommandView::SetHz { hz, persist } => persist,
        rdwr::CommandView::SetBaud { baud, persist } => persist,
        _ => false,
    }
}

/// A session knows from its command alone whether to save the settings to flash,
/// and does not begin with that.
pub proof fn law_saving_is_asked_for(baud: u32, c: cli::CommandView, d: rdwr::CommandView)
    ensures
        will_save(started(baud, c).0) == asks_to_save(c),
        !saves(started(baud, c).1),
        will_save(configuring_started(baud, d).0) == configuring_asks_to_save(d),
        !saves(configuring_started(baud, d).1),
{
    configure::lemma_only_saving_saves();
    reveal_strlit("VNRRG,06");
    reveal_strlit("VNRRG,07");
    reveal_strlit("VNRRG,75");
    reveal_strlit("VNWRG,05,");
    reveal_strlit("VNWRG,06,");
    reveal_strlit("VNWRG,07,");
    reveal_strlit("VNRRG,");
    reveal_strlit("VNWRG,");
}

/// Every setting is saved to flash exactly when that was asked for: a session that
/// was not asked never saves, and one that was saves after the last reply unless
/// it fails before.
pub proof fn law_saved_only_when_asked(baud: u32, s: StateView, e: Event)
    requires
        session::answers(awaits(s), e),
    ensures
        ({
            let (next, turn) = stepped(baud, s, e);
            &&& !will_save(s) ==> !will_save(next) && !saves(turn)
            &&& will_save(s) ==> will_save(next) || saves(turn) || (turn.action
                matches session::ActionView::Done(r) && r is Err)
        }),
{
    match s {
        StateView::Ascii(b, step) => {
            configure::law_ascii_bench_saves_nothing(b, step, e);
        },
        StateView::Binary(b, step) => {
            configure::law_binary_bench_saves_nothing(b, step, e);
        },
        _ => {
            configure::lemma_only_saving_saves();
            reveal_strlit("VNRRG,07");
            reveal_strlit("VNWRG,75,");
        },
    }
}

/// A new baud rate is saved to flash only after the device was heard at it.
pub proof fn law_baud_is_saved_only_when_verified(baud: u32, s: StateView, e: Event)
    requires
        session::answers(awaits(s), e),
    ensures
        stepped(baud, s, e).0 matches StateView::BaudSaving { baud: saved } ==> s
            == (StateView::BaudVerify { baud: saved, persist: true }) && e->Replied_0 is Ok,
{
}

} // verus!
