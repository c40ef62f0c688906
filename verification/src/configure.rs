//! The configuring bench: set an output, measure it, restore what was there.
//!
//! - `AsciiBench` sets the async rate (register 7), and optionally the message
//!   preset (register 6).
//! - `BinaryBench` sets binary output 1 (register 75). It silences the ASCII
//!   async output first: the device checks what fits against all streams of the
//!   port together, so it would reject a binary output that fits on its own.
use crate::bench::AsciiTally;
use crate::fields;
use crate::fields::Field;
use crate::frame::{CRC, HEADER};
use crate::number;
use crate::number::decimal_text;
use crate::output;
use crate::output::{mask_of_fields, write_payload_text, BinOutput, BASE_HZ};
use crate::proto;
use crate::registers;
use crate::registers::ascii_type_name;
use crate::report;
use crate::report::{decode_binary_sample, names_text, put, report_bench, Cell};
use crate::session;
use crate::session::{
    around_text, end, fail, preset_of, rate_of, reply_of, say, send, silence, Action, Event, Turn,
};
use crate::text;
use crate::text::{concat2, concat3};
use crate::transact;
use crate::transact::Accept;
use vstd::pervasive::unreached;
use vstd::prelude::*;
use vstd::string::*;

verus! {

/// How often a command of the measurement proper is sent.
pub const TRIES: u32 = 5;

/// How often a command that restores is sent.
pub const RESTORE_TRIES: u32 = 3;

/// The payload that writes the async rate.
pub open spec fn rate_payload(hz: nat) -> Seq<char> {
    "VNWRG,07,"@ + number::decimal(hz)
}

/// The payload that writes the message preset.
pub open spec fn preset_payload(preset: nat) -> Seq<char> {
    "VNWRG,06,"@ + number::decimal(preset)
}

/// The payload that writes the async rate.
fn rate_text(hz: u32) -> (r: String)
    ensures
        r@ == rate_payload(hz as nat),
{
    let d = decimal_text(hz as u64);
    concat2("VNWRG,07,", d.as_str())
}

/// The payload that writes the message preset.
fn preset_text(preset: u8) -> (r: String)
    ensures
        r@ == preset_payload(preset as nat),
{
    let d = decimal_text(preset as u64);
    concat2("VNWRG,06,", d.as_str())
}

/// The turn that asks for the async rate, so that it can be put back.
pub open spec fn asking_rate() -> session::TurnView {
    session::sending(
        Seq::empty(),
        "VNRRG,07"@,
        TRIES,
        transact::AcceptView::Rate,
        "could not read current async rate"@,
    )
}

/// The turn that asks for the async rate.
fn ask_rate() -> (r: Turn)
    ensures
        r@ == asking_rate(),
{
    send(silence(), "VNRRG,07", TRIES, Accept::Rate, "could not read current async rate")
}

/// The turn that puts the async rate back, after printing `output`.
pub open spec fn restoring_rate(output: Seq<report::CellView>, hz: nat) -> session::TurnView {
    session::sending(
        output,
        rate_payload(hz),
        RESTORE_TRIES,
        transact::AcceptView::Rate,
        "restore: ASCII async rate"@,
    )
}

/// The turn that puts the async rate back.
fn restore_rate(output: Vec<Cell>, hz: u32) -> (r: Turn)
    ensures
        r@ == restoring_rate(report::cells(output@), hz as nat),
{
    let p = rate_text(hz);
    send(output, p.as_str(), RESTORE_TRIES, Accept::Rate, "restore: ASCII async rate")
}

// ---------------------------------------------------------------------------
// ASCII
// ---------------------------------------------------------------------------
/// A bench of the ASCII async output.
#[derive(Clone, Copy)]
pub struct AsciiBench {
    /// The baud rate of the connection.
    pub baud: u32,
    pub hz: u32,
    pub secs: u64,
    /// The preset to measure, or none to leave it.
    pub ascii_type: Option<u8>,
}

/// Where an ASCII bench stands: what it waits for, and what it has to restore.
#[derive(Clone, Copy)]
pub enum AsciiStep {
    /// The current rate.
    ReadRate,
    /// The current preset, with the preset to set.
    ReadType { prev_hz: u32, preset: u8 },
    /// The echo of the new preset.
    WriteType { prev_hz: u32, preset: u8, old_type: u8 },
    /// The echo of the new rate.
    WriteRate { prev_hz: u32, prev_type: Option<u8> },
    /// The measurement.
    Measuring { prev_hz: u32, prev_type: Option<u8> },
    /// The echo of the old rate.
    RestoreRate { prev_hz: u32, prev_type: Option<u8>, msgs: u64 },
    /// The echo of the old preset.
    RestoreType { prev_hz: u32, old_type: u8, msgs: u64 },
}

/// What an ASCII bench waits for.
pub open spec fn ascii_awaits(step: AsciiStep) -> session::Awaited {
    match step {
        AsciiStep::ReadRate => session::Awaited::Reply(transact::AcceptView::Rate),
        AsciiStep::ReadType { prev_hz, preset } => session::Awaited::Reply(
            transact::AcceptView::Preset,
        ),
        AsciiStep::WriteType { prev_hz, preset, old_type } => session::Awaited::Reply(
            transact::AcceptView::Prefix("$VNWRG,06"@),
        ),
        AsciiStep::WriteRate { prev_hz, prev_type } => session::Awaited::Reply(
            transact::AcceptView::Rate,
        ),
        AsciiStep::Measuring { prev_hz, prev_type } => session::Awaited::Ascii,
        AsciiStep::RestoreRate { prev_hz, prev_type, msgs } => session::Awaited::Reply(
            transact::AcceptView::Rate,
        ),
        AsciiStep::RestoreType { prev_hz, old_type, msgs } => session::Awaited::Reply(
            transact::AcceptView::Prefix("$VNWRG,06"@),
        ),
    }
}

/// The turn that sets the rate to measure.
pub open spec fn setting_rate(output: Seq<report::CellView>, hz: u32) -> session::TurnView {
    session::sending(
        output,
        rate_payload(hz as nat),
        TRIES,
        transact::AcceptView::Rate,
        "device did not accept the async rate (a $VNERR means the message won't fit at this baud)"@,
    )
}

/// Whether an ASCII bench saw anything.
pub open spec fn ascii_verdict(msgs: u64) -> Result<(), Seq<char>> {
    if msgs == 0 {
        Err(
            "received 0 async messages — is async output (register 6) on, or is the port wrong?"@,
        )
    } else {
        Ok(())
    }
}

/// The line that says what was set as preset.
pub open spec fn preset_line(preset: u8) -> Seq<char> {
    "Set ASCII type to "@ + registers::preset_display(preset) + " (ADOR "@ + number::decimal(
        preset as nat,
    ) + ")."@
}

/// The line that announces an ASCII measurement.
pub open spec fn measuring_line(hz: u32, secs: u64) -> Seq<char> {
    "Set ASCII async rate to "@ + number::decimal(hz as nat)
        + " Hz; measuring the $VN message stream for "@ + number::decimal(secs as nat) + "s..."@
}

/// The next step and turn of an ASCII bench. An error before the measurement ends
/// it; what comes of restoring does not matter.
pub open spec fn ascii_stepped(b: AsciiBench, step: AsciiStep, e: Event) -> (
    Option<AsciiStep>,
    session::TurnView,
) {
    match step {
        AsciiStep::ReadRate => match e->Replied_0 {
            Err(t) => (None, session::failing(t@)),
            Ok(reply) => {
                let prev_hz = proto::reg07_value(reply@)->0 as u32;
                match b.ascii_type {
                    Some(preset) => (
                        Some(AsciiStep::ReadType { prev_hz, preset }),
                        session::sending(
                            Seq::empty(),
                            "VNRRG,06"@,
                            TRIES,
                            transact::AcceptView::Preset,
                            "could not read current ASCII type"@,
                        ),
                    ),
                    None => (
                        Some(AsciiStep::WriteRate { prev_hz, prev_type: None }),
                        setting_rate(Seq::empty(), b.hz),
                    ),
                }
            },
        },
        AsciiStep::ReadType { prev_hz, preset } => match e->Replied_0 {
            Err(t) => (None, session::failing(t@)),
            Ok(reply) => (
                Some(
                    AsciiStep::WriteType {
                        prev_hz,
                        preset,
                        old_type: proto::reg06_value(reply@)->0 as u8,
                    },
                ),
                session::sending(
                    Seq::empty(),
                    preset_payload(preset as nat),
                    TRIES,
                    transact::AcceptView::Prefix("$VNWRG,06"@),
                    "device did not accept the ASCII type (register 6)"@,
                ),
            ),
        },
        AsciiStep::WriteType { prev_hz, preset, old_type } => match e->Replied_0 {
            Err(t) => (None, session::failing(t@)),
            Ok(reply) => (
                Some(AsciiStep::WriteRate { prev_hz, prev_type: Some(old_type) }),
                setting_rate(
                    Seq::<report::CellView>::empty().push(session::said(preset_line(preset))),
                    b.hz,
                ),
            ),
        },
        AsciiStep::WriteRate { prev_hz, prev_type } => match e->Replied_0 {
            Err(t) => (None, session::failing(t@)),
            Ok(reply) => (
                Some(AsciiStep::Measuring { prev_hz, prev_type }),
                session::TurnView {
                    output: Seq::<report::CellView>::empty().push(
                        session::said(measuring_line(b.hz, b.secs)),
                    ),
                    action: session::ActionView::MeasureAscii { secs: b.secs },
                },
            ),
        },
        AsciiStep::Measuring { prev_hz, prev_type } => match e {
            Event::MeasuredAscii(t) => (
                Some(AsciiStep::RestoreRate { prev_hz, prev_type, msgs: t.msgs }),
                restoring_rate(
                    report::result_cells(
                        "messages"@,
                        b.hz,
                        t.msgs,
                        t.bytes,
                        match t.sample {
                            Some(s) => Some(seq![report::CellView::Text(s@)]),
                            None => None,
                        },
                        b.baud,
                    ),
                    prev_hz as nat,
                ),
            ),
            _ => (None, session::failing(e->Failed_0@)),
        },
        AsciiStep::RestoreRate { prev_hz, prev_type, msgs } => match prev_type {
            Some(t) => (
                Some(AsciiStep::RestoreType { prev_hz, old_type: t, msgs }),
                session::sending(
                    Seq::empty(),
                    preset_payload(t as nat),
                    RESTORE_TRIES,
                    transact::AcceptView::Prefix("$VNWRG,06"@),
                    "restore: ASCII type"@,
                ),
            ),
            None => (
                None,
                session::ending(
                    Seq::<report::CellView>::empty().push(
                        session::said(
                            session::around(
                                "Restored: ASCII async back to "@,
                                prev_hz as nat,
                                " Hz."@,
                            ),
                        ),
                    ),
                    ascii_verdict(msgs),
                ),
            ),
        },
        AsciiStep::RestoreType { prev_hz, old_type, msgs } => (
            None,
            session::ending(
                Seq::<report::CellView>::empty().push(
                    session::said(
                        session::around(
                            "Restored: ASCII async back to "@,
                            prev_hz as nat,
                            " Hz, type "@,
                        ) + registers::preset_display(old_type) + "."@,
                    ),
                ),
                ascii_verdict(msgs),
            ),
        ),
    }
}

/// Whether an ASCII bench saw anything.
fn ascii_result(msgs: u64) -> (r: Result<(), String>)
    ensures
        text::message(r) == ascii_verdict(msgs),
{
    if msgs == 0 {
        Err(
            "received 0 async messages — is async output (register 6) on, or is the port wrong?".to_string(),
        )
    } else {
        Ok(())
    }
}

/// The turn that sets the rate to measure.
fn set_rate(output: Vec<Cell>, hz: u32) -> (r: Turn)
    ensures
        r@ == setting_rate(report::cells(output@), hz),
{
    let p = rate_text(hz);
    send(
        output,
        p.as_str(),
        TRIES,
        Accept::Rate,
        "device did not accept the async rate (a $VNERR means the message won't fit at this baud)",
    )
}

/// The report of an ASCII measurement.
fn ascii_report(b: &AsciiBench, t: AsciiTally) -> (r: Vec<Cell>)
    ensures
        report::cells(r@) == report::result_cells(
            "messages"@,
            b.hz,
            t.msgs,
            t.bytes,
            match t.sample {
                Some(s) => Some(seq![report::CellView::Text(s@)]),
                None => None,
            },
            b.baud,
        ),
{
    let sample: Option<Vec<Cell>> = match t.sample {
        Some(s) => {
            let mut c = silence();
            put(&mut c, s.as_str());
            assert(report::cells(c@) =~= seq![report::CellView::Text(s@)]);
            Some(c)
        },
        None => None,
    };
    report_bench("messages", b.hz, t.msgs, t.bytes, sample, b.baud)
}

impl AsciiBench {
    /// The first turn: remember the current ASCII async rate so that it can be put
    /// back.
    pub fn start(&self) -> (r: (AsciiStep, Turn))
        ensures
            r.0 == AsciiStep::ReadRate,
            r.1@ == asking_rate(),
            session::brings(r.1.action@) == ascii_awaits(r.0),
    {
        (AsciiStep::ReadRate, ask_rate())
    }

    /// Sets the ASCII async rate (register 7), and optionally the message type
    /// (register 6), measures the message rate, then restores prior state: the
    /// next step and turn.
    pub fn bench_ascii(&self, step: AsciiStep, event: Event) -> (r: (Option<AsciiStep>, Turn))
        requires
            session::answers(ascii_awaits(step), event),
        ensures
            (r.0, r.1@) == ascii_stepped(*self, step, event),
            session::brings(r.1.action@) == match r.0 {
                Some(next) => ascii_awaits(next),
                None => session::Awaited::Nothing,
            },
    {
        match step {
            AsciiStep::ReadRate => match reply_of(event) {
                Ok(reply) => {
                    let prev_hz: u32 = rate_of(reply.as_str());
                    match self.ascii_type {
                        Some(preset) => {
                            let t = send(
                                silence(),
                                "VNRRG,06",
                                TRIES,
                                Accept::Preset,
                                "could not read current ASCII type",
                            );
                            (Some(AsciiStep::ReadType { prev_hz, preset }), t)
                        },
                        None => (
                            Some(AsciiStep::WriteRate { prev_hz, prev_type: None }),
                            set_rate(silence(), self.hz),
                        ),
                    }
                },
                Err(e) => (None, fail(e)),
            },
            AsciiStep::ReadType { prev_hz, preset } => match reply_of(event) {
                Ok(reply) => {
                    let old_type: u8 = preset_of(reply.as_str());
                    let p = preset_text(preset);
                    let t = send(
                        silence(),
                        p.as_str(),
                        TRIES,
                        Accept::Prefix("$VNWRG,06"),
                        "device did not accept the ASCII type (register 6)",
                    );
                    (Some(AsciiStep::WriteType { prev_hz, preset, old_type }), t)
                },
                Err(e) => (None, fail(e)),
            },
            AsciiStep::WriteType { prev_hz, preset, old_type } => match reply_of(event) {
                Ok(_) => {
                    let mut out = silence();
                    let name = ascii_type_name(preset);
                    let n = decimal_text(preset as u64);
                    let mut line = concat3("Set ASCII type to ", name.as_str(), " (ADOR ");
                    line.append(n.as_str());
                    line.append(").");
                    say(&mut out, line.as_str());
                    (
                        Some(AsciiStep::WriteRate { prev_hz, prev_type: Some(old_type) }),
                        set_rate(out, self.hz),
                    )
                },
                Err(e) => (None, fail(e)),
            },
            AsciiStep::WriteRate { prev_hz, prev_type } => match reply_of(event) {
                Ok(_) => {
                    let mut out = silence();
                    let n = decimal_text(self.hz as u64);
                    let s = decimal_text(self.secs);
                    let mut line = concat3(
                        "Set ASCII async rate to ",
                        n.as_str(),
                        " Hz; measuring the $VN message stream for ",
                    );
                    line.append(s.as_str());
                    line.append("s...");
                    say(&mut out, line.as_str());
                    (
                        Some(AsciiStep::Measuring { prev_hz, prev_type }),
                        Turn { output: out, action: Action::MeasureAscii { secs: self.secs } },
                    )
                },
                Err(e) => (None, fail(e)),
            },
            AsciiStep::Measuring { prev_hz, prev_type } => match event {
                Event::MeasuredAscii(t) => {
                    let msgs: u64 = t.msgs;
                    let out = ascii_report(self, t);
                    (
                        Some(AsciiStep::RestoreRate { prev_hz, prev_type, msgs }),
                        restore_rate(out, prev_hz),
                    )
                },
                Event::Failed(e) => (None, fail(e)),
                _ => unreached(),
            },
            AsciiStep::RestoreRate { prev_hz, prev_type, msgs } => match prev_type {
                Some(t) => {
                    let p = preset_text(t);
                    let turn = send(
                        silence(),
                        p.as_str(),
                        RESTORE_TRIES,
                        Accept::Prefix("$VNWRG,06"),
                        "restore: ASCII type",
                    );
                    (Some(AsciiStep::RestoreType { prev_hz, old_type: t, msgs }), turn)
                },
                None => {
                    let mut out = silence();
                    let line = around_text(
                        "Restored: ASCII async back to ",
                        prev_hz as u64,
                        " Hz.",
                    );
                    say(&mut out, line.as_str());
                    (None, end(out, ascii_result(msgs)))
                },
            },
            AsciiStep::RestoreType { prev_hz, old_type, msgs } => {
                let mut out = silence();
                let mut line = around_text(
                    "Restored: ASCII async back to ",
                    prev_hz as u64,
                    " Hz, type ",
                );
                let name = ascii_type_name(old_type);
                line.append(name.as_str());
                line.append(".");
                say(&mut out, line.as_str());
                (None, end(out, ascii_result(msgs)))
            },
        }
    }
}

// ---------------------------------------------------------------------------
// Binary
// ---------------------------------------------------------------------------
/// A bench of the binary output.
pub struct BinaryBench {
    /// The baud rate of the connection.
    pub baud: u32,
    pub hz: u32,
    pub secs: u64,
    pub fields: Vec<&'static Field>,
    /// The register-75 `asyncMode`: 1 / 2 for one of the VN-100's two UARTs, 3 for
    /// both. Binary only streams on the UART the host is wired to, so this must
    /// include that port (the RPi5 TTL header is port 2; the RS-232 bench is
    /// port 1).
    pub serial_port: u8,
}

/// The view of a `BinaryBench`.
pub struct BinaryBenchView {
    pub baud: u32,
    pub hz: u32,
    pub secs: u64,
    pub fields: Seq<fields::FieldView>,
    pub serial_port: u8,
}

impl View for BinaryBench {
    type V = BinaryBenchView;

    open spec fn view(&self) -> BinaryBenchView {
        BinaryBenchView {
            baud: self.baud,
            hz: self.hz,
            secs: self.secs,
            fields: fields::field_views(self.fields@),
            serial_port: self.serial_port,
        }
    }
}

/// Whether a binary bench can be run: its rate divides the base rate, and it
/// measures known fields whose frame length is a number.
pub open spec fn binary_wf(b: BinaryBenchView) -> bool {
    &&& registers::divides_base(b.hz)
    &&& report::from_table(b.fields)
    &&& frame_len(b) <= usize::MAX
}

/// The length of the frames that a binary bench measures.
pub open spec fn frame_len(b: BinaryBenchView) -> int {
    HEADER + fields::size_of_fields(b.fields) + CRC
}

/// The configuration that a binary bench measures.
pub open spec fn measured_output(b: BinaryBenchView) -> BinOutput {
    BinOutput {
        mode: b.serial_port,
        divisor: BASE_HZ / b.hz,
        mask: fields::mask_of(b.fields),
    }
}

/// The same with streaming off.
pub open spec fn disabled_output(b: BinaryBenchView) -> BinOutput {
    BinOutput { mode: 0, ..measured_output(b) }
}

/// Where a binary bench stands: what it waits for, and what it has to restore.
pub enum BinaryStep {
    /// The current async rate.
    ReadRate,
    /// The echo of turning the ASCII async output off.
    Silence { prev_hz: u32 },
    /// The echo of the binary configuration.
    Configure { prev_hz: u32 },
    /// The echo of the old rate, after the configuration was refused with `error`.
    Undo { error: String },
    /// The measurement.
    Measuring { prev_hz: u32 },
    /// The echo of turning the binary output off.
    Disable { prev_hz: u32, frames: u64 },
    /// The echo of the old rate.
    RestoreRate { prev_hz: u32, frames: u64 },
}

/// A `BinaryStep` with its text taken by characters.
pub enum BinaryStepView {
    ReadRate,
    Silence { prev_hz: u32 },
    Configure { prev_hz: u32 },
    Undo { error: Seq<char> },
    Measuring { prev_hz: u32 },
    Disable { prev_hz: u32, frames: u64 },
    RestoreRate { prev_hz: u32, frames: u64 },
}

impl View for BinaryStep {
    type V = BinaryStepView;

    open spec fn view(&self) -> BinaryStepView {
        match *self {
            BinaryStep::ReadRate => BinaryStepView::ReadRate,
            BinaryStep::Silence { prev_hz } => BinaryStepView::Silence { prev_hz },
            BinaryStep::Configure { prev_hz } => BinaryStepView::Configure { prev_hz },
            BinaryStep::Undo { error } => BinaryStepView::Undo { error: error@ },
            BinaryStep::Measuring { prev_hz } => BinaryStepView::Measuring { prev_hz },
            BinaryStep::Disable { prev_hz, frames } => BinaryStepView::Disable { prev_hz, frames },
            BinaryStep::RestoreRate { prev_hz, frames } => BinaryStepView::RestoreRate {
                prev_hz,
                frames,
            },
        }
    }
}

/// What a binary bench waits for.
pub open spec fn binary_awaits(b: BinaryBenchView, step: BinaryStepView) -> session::Awaited {
    match step {
        BinaryStepView::ReadRate => session::Awaited::Reply(transact::AcceptView::Rate),
        BinaryStepView::Silence { prev_hz } => session::Awaited::Reply(transact::AcceptView::Rate),
        BinaryStepView::Configure { prev_hz } => session::Awaited::Reply(
            transact::AcceptView::Prefix("$VNWRG,75"@),
        ),
        BinaryStepView::Undo { error } => session::Awaited::Reply(transact::AcceptView::Rate),
        BinaryStepView::Measuring { prev_hz } => session::Awaited::Binary(frame_len(b)),
        BinaryStepView::Disable { prev_hz, frames } => session::Awaited::Reply(
            transact::AcceptView::Prefix("$VNWRG,75"@),
        ),
        BinaryStepView::RestoreRate { prev_hz, frames } => session::Awaited::Reply(
            transact::AcceptView::Rate,
        ),
    }
}

/// Whether a binary bench saw anything.
pub open spec fn binary_verdict(frames: u64) -> Result<(), Seq<char>> {
    if frames == 0 {
        Err(
            "received 0 binary frames — the config may have targeted the wrong serial port (try a VN-100 on serial1), or the device isn't streaming"@,
        )
    } else {
        Ok(())
    }
}

/// The line that says what was configured.
pub open spec fn configured_line(b: BinaryBenchView) -> Seq<char> {
    "Configured binary output: Common"@ + report::debug_list(fields::names_of(b.fields)) + " @ "@
        + number::decimal(b.hz as nat) + " Hz (divisor "@ + number::decimal(
        measured_output(b).divisor as nat,
    ) + ", "@ + number::decimal(frame_len(b) as nat) + " B/frame)."@
}

/// The next step and turn of a binary bench.
///
/// The ASCII async output is silenced before the binary output is configured; if
/// the device still refuses the configuration, the rate is put back before the
/// error is passed on. What comes of restoring does not matter.
pub open spec fn binary_stepped(b: BinaryBenchView, step: BinaryStepView, e: Event) -> (
    Option<BinaryStepView>,
    session::TurnView,
) {
    match step {
        BinaryStepView::ReadRate => match e->Replied_0 {
            Err(t) => (None, session::failing(t@)),
            Ok(reply) => (
                Some(
                    BinaryStepView::Silence { prev_hz: proto::reg07_value(reply@)->0 as u32 },
                ),
                session::sending(
                    Seq::empty(),
                    rate_payload(0),
                    TRIES,
                    transact::AcceptView::Rate,
                    "could not disable ASCII async output"@,
                ),
            ),
        },
        BinaryStepView::Silence { prev_hz } => match e->Replied_0 {
            Err(t) => (None, session::failing(t@)),
            Ok(reply) => (
                Some(BinaryStepView::Configure { prev_hz }),
                session::sending(
                    Seq::empty(),
                    output::write_payload(measured_output(b)),
                    TRIES,
                    transact::AcceptView::Prefix("$VNWRG,75"@),
                    "device did not accept the binary config (a $VNERR means it won't fit at this baud)"@,
                ),
            ),
        },
        BinaryStepView::Configure { prev_hz } => match e->Replied_0 {
            Err(t) => (
                Some(BinaryStepView::Undo { error: t@ }),
                restoring_rate(Seq::empty(), prev_hz as nat),
            ),
            Ok(reply) => (
                Some(BinaryStepView::Measuring { prev_hz }),
                session::TurnView {
                    output: Seq::<report::CellView>::empty().push(
                        session::said(configured_line(b)),
                    ).push(
                        session::said(session::around("Measuring for "@, b.secs as nat, "s..."@)),
                    ),
                    action: session::ActionView::MeasureBinary {
                        secs: b.secs,
                        frame_len: frame_len(b),
                    },
                },
            ),
        },
        BinaryStepView::Undo { error } => (None, session::failing(error)),
        BinaryStepView::Measuring { prev_hz } => match e {
            Event::MeasuredBinary { frames, bytes, first } => (
                Some(BinaryStepView::Disable { prev_hz, frames }),
                session::sending(
                    report::result_cells(
                        "frames"@,
                        b.hz,
                        frames,
                        bytes,
                        match first {
                            Some(f) => Some(report::sample_cells(f@, b.fields)),
                            None => None,
                        },
                        b.baud,
                    ),
                    output::write_payload(disabled_output(b)),
                    RESTORE_TRIES,
                    transact::AcceptView::Prefix("$VNWRG,75"@),
                    "restore: disable binary output"@,
                ),
            ),
            _ => (None, session::failing(e->Failed_0@)),
        },
        BinaryStepView::Disable { prev_hz, frames } => (
            Some(BinaryStepView::RestoreRate { prev_hz, frames }),
            restoring_rate(Seq::empty(), prev_hz as nat),
        ),
        BinaryStepView::RestoreRate { prev_hz, frames } => (
            None,
            session::ending(
                Seq::<report::CellView>::empty().push(
                    session::said(
                        session::around(
                            "Restored: binary output off, ASCII async back to "@,
                            prev_hz as nat,
                            " Hz."@,
                        ),
                    ),
                ),
                binary_verdict(frames),
            ),
        ),
    }
}

/// The view of an optional step.
pub open spec fn opt_step(s: Option<BinaryStep>) -> Option<BinaryStepView> {
    match s {
        Some(step) => Some(step@),
        None => None,
    }
}

impl BinaryBench {
    /// Whether the bench can be run.
    pub open spec fn wf(&self) -> bool {
        binary_wf(self@)
    }

    /// The length of the frames to measure.
    fn frame_len(&self) -> (r: usize)
        requires
            self.wf(),
        ensures
            r == frame_len(self@),
    {
        let ghost fs = self@.fields;
        let mut n: usize = HEADER;
        let mut i: usize = 0;
        proof {
            assert forall|j: int| 0 <= j < fs.len() implies (#[trigger] fs[j]).size >= 0 by {
                assert(fs[j] == self.fields@[j]@);
            }
        }
        while i < self.fields.len()
            invariant
                i <= self.fields.len(),
                fs == fields::field_views(self.fields@),
                forall|j: int| 0 <= j < fs.len() ==> (#[trigger] fs[j]).size >= 0,
                HEADER + fields::size_of_fields(fs) + CRC <= usize::MAX,
                n == HEADER + fields::size_of_fields(fs.take(i as int)),
            decreases self.fields.len() - i,
        {
            proof {
                report::lemma_size_grows(fs, i + 1);
                assert(fs.take(i + 1).drop_last() =~= fs.take(i as int));
                assert(fs[i as int] == self.fields@[i as int]@);
            }
            n = n + self.fields[i].size;
            i = i + 1;
        }
        assert(fs.take(i as int) =~= fs);
        n + CRC
    }

    /// The configuration to measure.
    fn output(&self) -> (r: BinOutput)
        requires
            self.wf(),
        ensures
            r == measured_output(self@),
    {
        proof {
            report::lemma_table_bits(self@.fields);
        }
        BinOutput {
            mode: self.serial_port,
            divisor: BASE_HZ / self.hz,
            mask: mask_of_fields(self.fields.as_slice()),
        }
    }

    /// The line that says what was configured.
    fn configured(&self) -> (r: String)
        requires
            self.wf(),
        ensures
            r@ == configured_line(self@),
    {
        let names = names_text(self.fields.as_slice());
        let hz = decimal_text(self.hz as u64);
        let divisor = decimal_text(self.output().divisor as u64);
        let len = decimal_text(self.frame_len() as u64);
        let mut s = concat3("Configured binary output: Common", names.as_str(), " @ ");
        s.append(hz.as_str());
        s.append(" Hz (divisor ");
        s.append(divisor.as_str());
        s.append(", ");
        s.append(len.as_str());
        s.append(" B/frame).");
        s
    }

    /// The first turn: remember the current ASCII async rate so that it can be put
    /// back.
    pub fn start(&self) -> (r: (BinaryStep, Turn))
        ensures
            r.0@ == BinaryStepView::ReadRate,
            r.1@ == asking_rate(),
            session::brings(r.1.action@) == binary_awaits(self@, r.0@),
    {
        (BinaryStep::ReadRate, ask_rate())
    }

    /// Configures a binary output (register 75) with the fields at the rate,
    /// measures the frame rate, then restores the prior state: the next step and
    /// turn.
    pub fn bench_binary(&self, step: BinaryStep, event: Event) -> (r: (Option<BinaryStep>, Turn))
        requires
            self.wf(),
            session::answers(binary_awaits(self@, step@), event),
        ensures
            (opt_step(r.0), r.1@) == binary_stepped(self@, step@, event),
            session::brings(r.1.action@) == match opt_step(r.0) {
                Some(next) => binary_awaits(self@, next),
                None => session::Awaited::Nothing,
            },
    {
        match step {
            BinaryStep::ReadRate => match reply_of(event) {
                Ok(reply) => {
                    let prev_hz: u32 = rate_of(reply.as_str());
                    let p = rate_text(0);
                    let t = send(
                        silence(),
                        p.as_str(),
                        TRIES,
                        Accept::Rate,
                        "could not disable ASCII async output",
                    );
                    (Some(BinaryStep::Silence { prev_hz }), t)
                },
                Err(e) => (None, fail(e)),
            },
            BinaryStep::Silence { prev_hz } => match reply_of(event) {
                Ok(_) => {
                    let p = write_payload_text(&self.output());
                    let t = send(
                        silence(),
                        p.as_str(),
                        TRIES,
                        Accept::Prefix("$VNWRG,75"),
                        "device did not accept the binary config (a $VNERR means it won't fit at this baud)",
                    );
                    (Some(BinaryStep::Configure { prev_hz }), t)
                },
                Err(e) => (None, fail(e)),
            },
            BinaryStep::Configure { prev_hz } => match reply_of(event) {
                Ok(_) => {
                    let mut out = silence();
                    let line = self.configured();
                    say(&mut out, line.as_str());
                    let wait = around_text("Measuring for ", self.secs, "s...");
                    say(&mut out, wait.as_str());
                    let t = Turn {
                        output: out,
                        action: Action::MeasureBinary {
                            secs: self.secs,
                            frame_len: self.frame_len(),
                        },
                    };
                    (Some(BinaryStep::Measuring { prev_hz }), t)
                },
                Err(error) => (
                    Some(BinaryStep::Undo { error }),
                    restore_rate(silence(), prev_hz),
                ),
            },
            BinaryStep::Undo { error } => (None, fail(error)),
            BinaryStep::Measuring { prev_hz } => match event {
                Event::MeasuredBinary { frames, bytes, first } => {
                    let sample: Option<Vec<Cell>> = match first {
                        Some(f) => {
                            proof {
                                report::law_sample_fits(f@.len(), self@.fields);
                            }
                            Some(decode_binary_sample(f.as_slice(), self.fields.as_slice()))
                        },
                        None => None,
                    };
                    let out = report_bench("frames", self.hz, frames, bytes, sample, self.baud);
                    let mut off = self.output();
                    off.mode = 0;
                    let p = write_payload_text(&off);
                    let t = send(
                        out,
                        p.as_str(),
                        RESTORE_TRIES,
                        Accept::Prefix("$VNWRG,75"),
                        "restore: disable binary output",
                    );
                    (Some(BinaryStep::Disable { prev_hz, frames }), t)
                },
                Event::Failed(e) => (None, fail(e)),
                _ => unreached(),
            },
            BinaryStep::Disable { prev_hz, frames } => (
                Some(BinaryStep::RestoreRate { prev_hz, frames }),
                restore_rate(silence(), prev_hz),
            ),
            BinaryStep::RestoreRate { prev_hz, frames } => {
                let mut out = silence();
                let line = around_text(
                    "Restored: binary output off, ASCII async back to ",
                    prev_hz as u64,
                    " Hz.",
                );
                say(&mut out, line.as_str());
                let verdict: Result<(), String> = if frames == 0 {
                    Err(
                        "received 0 binary frames — the config may have targeted the wrong serial port (try a VN-100 on serial1), or the device isn't streaming".to_string(),
                    )
                } else {
                    Ok(())
                };
                (None, end(out, verdict))
            },
        }
    }
}

// ---------------------------------------------------------------------------
// Laws
// ---------------------------------------------------------------------------
/// Whether an action sends the command with this payload.
pub open spec fn sends(a: session::ActionView, payload: Seq<char>) -> bool {
    a matches session::ActionView::Send { command, attempts, accept, missing } && command
        == proto::command_line(payload)
}

/// A command with another fourth letter does not save the settings to flash.
pub proof fn lemma_only_saving_saves()
    ensures
        forall|p: Seq<char>|
            p.len() >= 4 && p[3] != 'N' ==> #[trigger] proto::command_line(p)
                != proto::command_line("VNWNV"@),
{
    reveal_strlit("VNWNV");
    let save = proto::command_line("VNWNV"@);
    assert(save[4] == 'N');
    assert forall|p: Seq<char>| p.len() >= 4 && p[3] != 'N' implies #[trigger] proto::command_line(
        p,
    ) != save by {
        assert(proto::command_line(p)[4] == p[3]);
    }
}

/// A bench of the ASCII output saves nothing to flash.
pub proof fn law_ascii_bench_saves_nothing(b: AsciiBench, step: AsciiStep, e: Event)
    ensures
        !sends(ascii_stepped(b, step, e).1.action, "VNWNV"@),
{
    lemma_only_saving_saves();
    reveal_strlit("VNRRG,06");
    reveal_strlit("VNWRG,06,");
    reveal_strlit("VNWRG,07,");
}

/// A bench of the binary output saves nothing to flash.
pub proof fn law_binary_bench_saves_nothing(b: BinaryBenchView, step: BinaryStepView, e: Event)
    ensures
        !sends(binary_stepped(b, step, e).1.action, "VNWNV"@),
{
    lemma_only_saving_saves();
    reveal_strlit("VNWRG,07,");
    reveal_strlit("VNWRG,75,");
}

/// How many more answers a binary bench takes at most.
pub open spec fn binary_rank(step: BinaryStepView) -> nat {
    match step {
        BinaryStepView::ReadRate => 6,
        BinaryStepView::Silence { prev_hz } => 5,
        BinaryStepView::Configure { prev_hz } => 4,
        BinaryStepView::Measuring { prev_hz } => 3,
        BinaryStepView::Disable { prev_hz, frames } => 2,
        BinaryStepView::RestoreRate { prev_hz, frames } => 1,
        BinaryStepView::Undo { error } => 1,
    }
}

/// How many more answers an ASCII bench takes at most.
pub open spec fn ascii_rank(step: AsciiStep) -> nat {
    match step {
        AsciiStep::ReadRate => 7,
        AsciiStep::ReadType { prev_hz, preset } => 6,
        AsciiStep::WriteType { prev_hz, preset, old_type } => 5,
        AsciiStep::WriteRate { prev_hz, prev_type } => 4,
        AsciiStep::Measuring { prev_hz, prev_type } => 3,
        AsciiStep::RestoreRate { prev_hz, prev_type, msgs } => 2,
        AsciiStep::RestoreType { prev_hz, old_type, msgs } => 1,
    }
}

/// Every ASCII bench comes to an end: each answer leaves fewer to wait for, and a
/// bench without a next step is done.
pub proof fn law_ascii_bench_ends(b: AsciiBench, step: AsciiStep, e: Event)
    requires
        session::answers(ascii_awaits(step), e),
    ensures
        match ascii_stepped(b, step, e) {
            (Some(next), turn) => ascii_rank(next) < ascii_rank(step) && turn.action !is Done,
            (None, turn) => turn.action is Done,
        },
{
}

/// Every binary bench comes to an end: each answer leaves fewer to wait for, and a
/// bench without a next step is done.
pub proof fn law_binary_bench_ends(b: BinaryBenchView, step: BinaryStepView, e: Event)
    requires
        session::answers(binary_awaits(b, step), e),
    ensures
        match binary_stepped(b, step, e) {
            (Some(next), turn) => binary_rank(next) < binary_rank(step) && turn.action !is Done,
            (None, turn) => turn.action is Done,
        },
{
}

/// The async rate that a binary bench has to put back.
pub open spec fn binary_prev(step: BinaryStepView) -> Option<u32> {
    match step {
        BinaryStepView::ReadRate => None,
        BinaryStepView::Silence { prev_hz } => Some(prev_hz),
        BinaryStepView::Configure { prev_hz } => Some(prev_hz),
        BinaryStepView::Undo { error } => None,
        BinaryStepView::Measuring { prev_hz } => Some(prev_hz),
        BinaryStepView::Disable { prev_hz, frames } => Some(prev_hz),
        BinaryStepView::RestoreRate { prev_hz, frames } => Some(prev_hz),
    }
}

/// The async rate that an ASCII bench has to put back.
pub open spec fn ascii_prev(step: AsciiStep) -> Option<u32> {
    match step {
        AsciiStep::ReadRate => None,
        AsciiStep::ReadType { prev_hz, preset } => Some(prev_hz),
        AsciiStep::WriteType { prev_hz, preset, old_type } => Some(prev_hz),
        AsciiStep::WriteRate { prev_hz, prev_type } => Some(prev_hz),
        AsciiStep::Measuring { prev_hz, prev_type } => Some(prev_hz),
        AsciiStep::RestoreRate { prev_hz, prev_type, msgs } => Some(prev_hz),
        AsciiStep::RestoreType { prev_hz, old_type, msgs } => Some(prev_hz),
    }
}

/// The preset that an ASCII bench has to put back.
pub open spec fn ascii_prev_type(step: AsciiStep) -> Option<u8> {
    match step {
        AsciiStep::ReadRate => None,
        AsciiStep::ReadType { prev_hz, preset } => None,
        AsciiStep::WriteType { prev_hz, preset, old_type } => Some(old_type),
        AsciiStep::WriteRate { prev_hz, prev_type } => prev_type,
        AsciiStep::Measuring { prev_hz, prev_type } => prev_type,
        AsciiStep::RestoreRate { prev_hz, prev_type, msgs } => prev_type,
        AsciiStep::RestoreType { prev_hz, old_type, msgs } => Some(old_type),
    }
}

/// A binary bench remembers the rate that the device reported at the start until
/// it has put it back.
pub proof fn law_binary_bench_remembers(b: BinaryBenchView, step: BinaryStepView, e: Event)
    requires
        session::answers(binary_awaits(b, step), e),
    ensures
        binary_stepped(b, step, e).0 matches Some(next) ==> next is Undo || binary_prev(next)
            == match binary_prev(step) {
            Some(hz) => Some(hz),
            None => Some(proto::reg07_value(e->Replied_0->Ok_0@)->0 as u32),
        },
{
}

/// An ASCII bench remembers the rate, and the preset, that the device reported
/// until it has put them back.
pub proof fn law_ascii_bench_remembers(b: AsciiBench, step: AsciiStep, e: Event)
    requires
        session::answers(ascii_awaits(step), e),
    ensures
        ascii_stepped(b, step, e).0 matches Some(next) ==> ascii_prev(next) == match ascii_prev(
            step,
        ) {
            Some(hz) => Some(hz),
            None => Some(proto::reg07_value(e->Replied_0->Ok_0@)->0 as u32),
        },
        ascii_stepped(b, step, e).0 matches Some(next) ==> ascii_prev_type(next)
            == if step is ReadType {
            Some(proto::reg06_value(e->Replied_0->Ok_0@)->0 as u8)
        } else {
            ascii_prev_type(step)
        },
{
}

/// The ASCII async output is turned off first; the binary output is configured
/// only once that was acknowledged, else the bench ends there.
pub proof fn law_silence_precedes_configuration(
    b: BinaryBenchView,
    reply: String,
    ack: Result<String, String>,
)
    ensures
        ({
            let (first, turn) = binary_stepped(b, BinaryStepView::ReadRate, Event::Replied(Ok(reply)));
            let (second, then) = binary_stepped(b, first->0, Event::Replied(ack));
            &&& sends(turn.action, rate_payload(0))
            &&& match ack {
                Ok(_) => sends(then.action, output::write_payload(measured_output(b))),
                Err(t) => then == session::failing(t@),
            }
        }),
{
}

/// A refused configuration leaves the ASCII async output at its old rate: the rate
/// is put back, and then the refusal is the bench's error, whatever came of that.
pub proof fn law_refused_configuration_restores(
    b: BinaryBenchView,
    prev_hz: u32,
    error: String,
    restored: Result<String, String>,
)
    ensures
        ({
            let (next, turn) = binary_stepped(
                b,
                BinaryStepView::Configure { prev_hz },
                Event::Replied(Err(error)),
            );
            let (last, then) = binary_stepped(b, next->0, Event::Replied(restored));
            &&& sends(turn.action, rate_payload(prev_hz as nat))
            &&& last is None
            &&& then == session::failing(error@)
        }),
{
}

/// After the measurement a binary bench turns the binary output off and puts the
/// async rate back, whatever comes of the first, and ends with its verdict.
pub proof fn law_binary_bench_restores(
    b: BinaryBenchView,
    prev_hz: u32,
    frames: u64,
    bytes: u64,
    first: Option<Vec<u8>>,
    r1: Result<String, String>,
    r2: Result<String, String>,
)
    ensures
        ({
            let (s1, t1) = binary_stepped(
                b,
                BinaryStepView::Measuring { prev_hz },
                Event::MeasuredBinary { frames, bytes, first },
            );
            let (s2, t2) = binary_stepped(b, s1->0, Event::Replied(r1));
            let (s3, t3) = binary_stepped(b, s2->0, Event::Replied(r2));
            &&& sends(t1.action, output::write_payload(disabled_output(b)))
            &&& sends(t2.action, rate_payload(prev_hz as nat))
            &&& t3.action == session::ActionView::Done(binary_verdict(frames))
        }),
{
}

/// After the measurement an ASCII bench puts the async rate back, then the preset
/// if it had changed it, whatever comes of either, and ends with its verdict.
pub proof fn law_ascii_bench_restores(
    b: AsciiBench,
    prev_hz: u32,
    prev_type: Option<u8>,
    tally: AsciiTally,
    r1: Result<String, String>,
    r2: Result<String, String>,
)
    ensures
        ({
            let (s1, t1) = ascii_stepped(
                b,
                AsciiStep::Measuring { prev_hz, prev_type },
                Event::MeasuredAscii(tally),
            );
            let (s2, t2) = ascii_stepped(b, s1->0, Event::Replied(r1));
            &&& sends(t1.action, rate_payload(prev_hz as nat))
            &&& match prev_type {
                None => t2.action == session::ActionView::Done(ascii_verdict(tally.msgs)),
                Some(t) => {
                    let (s3, t3) = ascii_stepped(b, s2->0, Event::Replied(r2));
                    &&& sends(t2.action, preset_payload(t as nat))
                    &&& t3.action == session::ActionView::Done(ascii_verdict(tally.msgs))
                },
            }
        }),
{
}

/// Whether an action writes the configuration `o` to register 75, as a reader of
/// register-75 lines sees it.
pub open spec fn writes_output(a: session::ActionView, o: BinOutput, attempts: u32) -> bool {
    a matches session::ActionView::Send { command, attempts: n, accept, missing }
        && session::sends_command(
        a,
        command,
        attempts,
        transact::AcceptView::Prefix("$VNWRG,75"@),
    ) && "$VNWRG,75,"@.is_prefix_of(command) && output::reply_output(command) == Some(o)
}

/// The command that writes a configuration is a register-75 line with that
/// configuration.
pub proof fn lemma_output_command(o: BinOutput)
    ensures
        ({
            let c = proto::command_line(output::write_payload(o));
            &&& "$VNWRG,75,"@.is_prefix_of(c)
            &&& output::reply_output(c) == Some(o)
            &&& proto::checksum_fault(c) is None
        }),
{
    output::law_output_reads_back(o);
    proto::law_built_command_verifies(output::write_payload(o));
}

/// Whether a configuration is the one that a binary bench was asked to measure: on
/// the requested port, at the requested rate, with exactly the requested fields.
pub open spec fn is_requested(o: BinOutput, b: BinaryBenchView) -> bool {
    &&& o.mode == b.serial_port
    &&& o.divisor * b.hz == 800
    &&& forall|bit: u8|
        bit < 16 ==> (#[trigger] fields::has_bit(o.mask, bit) <==> exists|i: int|
            0 <= i < b.fields.len() && (#[trigger] b.fields[i]).bit == bit)
}

/// The configuration that a binary bench writes is the requested one.
pub proof fn law_measured_output_is_requested(b: BinaryBenchView)
    requires
        binary_wf(b),
    ensures
        is_requested(measured_output(b), b),
        measured_output(b).divisor * b.hz == BASE_HZ,
{
    registers::law_binary_rates(b.hz, 0);
    report::lemma_table_bits(b.fields);
    let o = measured_output(b);
    assert(o.divisor * b.hz == 800) by (nonlinear_arith)
        requires
            o.divisor == 800u32 / b.hz,
            b.hz * (800u32 / b.hz) == 800,
    ;
    assert forall|bit: u8| bit < 16 implies (#[trigger] fields::has_bit(o.mask, bit) <==> exists|
        i: int,
    |
        0 <= i < b.fields.len() && (#[trigger] b.fields[i]).bit == bit) by {
        fields::lemma_mask_bits(b.fields, bit);
    }
}

/// Each step of a binary bench sends what it is named for: the ASCII output is
/// silenced with the rate 0, the requested configuration is written and then
/// measured for the requested time in frames of its length, and afterwards the same
/// configuration is written with streaming off and the old rate put back.
#[verifier::rlimit(80)]
pub proof fn law_binary_steps_send(b: BinaryBenchView, step: BinaryStepView, e: Event)
    requires
        binary_wf(b),
        session::answers(binary_awaits(b, step), e),
    ensures
        match binary_stepped(b, step, e) {
            (None, turn) => turn.action is Done,
            (Some(BinaryStepView::ReadRate), turn) => false,
            (Some(BinaryStepView::Silence { prev_hz }), turn) => session::writes_rate(
                turn.action,
                0,
                5,
            ),
            (Some(BinaryStepView::Configure { prev_hz }), turn) => exists|o: BinOutput|
                #[trigger] writes_output(turn.action, o, 5) && is_requested(o, b),
            (Some(BinaryStepView::Measuring { prev_hz }), turn) => turn.action
                == (session::ActionView::MeasureBinary {
                secs: b.secs,
                frame_len: fields::size_of_fields(b.fields) + 6,
            }),
            (Some(BinaryStepView::Undo { error }), turn) => binary_prev(step) is Some
                && session::writes_rate(turn.action, binary_prev(step)->0 as int, 3),
            (Some(BinaryStepView::Disable { prev_hz, frames }), turn) => exists|o: BinOutput|
                #[trigger] is_requested(o, b) && writes_output(
                    turn.action,
                    BinOutput { mode: 0, ..o },
                    3,
                ),
            (Some(BinaryStepView::RestoreRate { prev_hz, frames }), turn) => session::writes_rate(
                turn.action,
                prev_hz as int,
                3,
            ),
        },
{
    let o = measured_output(b);
    let (next, turn) = binary_stepped(b, step, e);
    match step {
        BinaryStepView::ReadRate => {
            session::lemma_rate_command(0);
        },
        BinaryStepView::Silence { prev_hz } => {
            law_measured_output_is_requested(b);
            lemma_output_command(o);
            if next is Some {
                assert(writes_output(turn.action, o, 5));
            }
        },
        BinaryStepView::Configure { prev_hz } => {
            session::lemma_rate_command(prev_hz);
        },
        BinaryStepView::Undo { error } => {},
        BinaryStepView::Measuring { prev_hz } => {
            law_measured_output_is_requested(b);
            lemma_output_command(BinOutput { mode: 0, ..o });
            if next is Some {
                assert(is_requested(o, b) && writes_output(
                    turn.action,
                    BinOutput { mode: 0, ..o },
                    3,
                ));
            }
        },
        BinaryStepView::Disable { prev_hz, frames } => {
            session::lemma_rate_command(prev_hz);
        },
        BinaryStepView::RestoreRate { prev_hz, frames } => {},
    }
}

/// A binary bench goes on in order where it is answered: read, silence, configure,
/// measure, switch off, put back. An error before the measurement ends it with that
/// error and nothing printed, but for a refused configuration, which is undone; a
/// failed measurement ends it too.
#[verifier::rlimit(80)]
pub proof fn law_binary_bench_in_order(b: BinaryBenchView, step: BinaryStepView, e: Event)
    requires
        session::answers(binary_awaits(b, step), e),
    ensures
        ({
            let (next, turn) = binary_stepped(b, step, e);
            &&& step is ReadRate && e->Replied_0 is Ok ==> next == Some(
                BinaryStepView::Silence {
                    prev_hz: proto::reg07_value(e->Replied_0->Ok_0@)->0 as u32,
                },
            )
            &&& step matches BinaryStepView::Silence { prev_hz } ==> (e->Replied_0 is Ok ==> next
                == Some(BinaryStepView::Configure { prev_hz }))
            &&& step matches BinaryStepView::Configure { prev_hz } ==> (e->Replied_0 is Ok ==> next
                == Some(BinaryStepView::Measuring { prev_hz }))
            &&& step is Configure && e->Replied_0 is Err ==> next == Some(
                BinaryStepView::Undo { error: e->Replied_0->Err_0@ },
            )
            &&& step matches BinaryStepView::Measuring { prev_hz } ==> (e is MeasuredBinary ==> next
                == Some(BinaryStepView::Disable { prev_hz, frames: e->frames }))
            &&& step matches BinaryStepView::Disable { prev_hz, frames } ==> next == Some(
                BinaryStepView::RestoreRate { prev_hz, frames },
            )
            &&& (step is ReadRate || step is Silence) && e->Replied_0 is Err ==> next is None
                && turn.output.len() == 0 && turn.action == session::ActionView::Done(
                Err(e->Replied_0->Err_0@),
            )
            &&& step is Measuring && e is Failed ==> next is None && turn.output.len() == 0
                && turn.action == session::ActionView::Done(Err(e->Failed_0@))
            &&& step matches BinaryStepView::Undo { error } ==> turn.output.len() == 0
                && turn.action == session::ActionView::Done(Err(error))
            &&& step matches BinaryStepView::RestoreRate { prev_hz, frames } ==> next is None
                && turn.action is Done && (turn.action->Done_0 is Ok <==> frames > 0)
        }),
{
}

/// What a binary bench prints: the configuration it measures by its fields, rate,
/// divisor and frame length; the result of what was measured; and the rate that was
/// put back. Nothing else is printed.
#[verifier::rlimit(80)]
pub proof fn law_binary_bench_prints(b: BinaryBenchView, step: BinaryStepView, e: Event)
    requires
        binary_wf(b),
        session::answers(binary_awaits(b, step), e),
    ensures
        ({
            let (next, turn) = binary_stepped(b, step, e);
            &&& next is Some && next->0 is Measuring ==> turn.output == seq![
                session::said(
                    "Configured binary output: Common"@ + report::debug_list(
                        fields::names_of(b.fields),
                    ) + " @ "@ + number::decimal(b.hz as nat) + " Hz (divisor "@ + number::decimal(
                        (800u32 / b.hz) as nat,
                    ) + ", "@ + number::decimal((fields::size_of_fields(b.fields) + 6) as nat)
                        + " B/frame)."@,
                ),
                session::said("Measuring for "@ + number::decimal(b.secs as nat) + "s..."@),
            ]
            &&& next is Some && next->0 is Disable ==> turn.output == report::result_cells(
                "frames"@,
                b.hz,
                e->frames,
                e->bytes,
                match e->first {
                    Some(f) => Some(report::sample_cells(f@, b.fields)),
                    None => None,
                },
                b.baud,
            )
            &&& step matches BinaryStepView::RestoreRate { prev_hz, frames } ==> turn.output
                == seq![
                session::said(
                    "Restored: binary output off, ASCII async back to "@ + number::decimal(
                        prev_hz as nat,
                    ) + " Hz."@,
                ),
            ]
            &&& !(next is Some && (next->0 is Measuring || next->0 is Disable))
                && step !is RestoreRate ==> turn.output.len() == 0
        }),
{
    let (next, turn) = binary_stepped(b, step, e);
    let none = Seq::<report::CellView>::empty();
    if next is Some && next->0 is Measuring {
        let a = session::said(configured_line(b));
        let w = session::said(session::around("Measuring for "@, b.secs as nat, "s..."@));
        assert(none.push(a).push(w) =~= seq![a, w]);
    }
    if step is RestoreRate {
        assert(turn.output =~= seq![turn.output[0]]);
    }
}

/// Whether a step of an ASCII bench fits its bench: it sets the requested preset,
/// and has one to put back exactly when it sets one.
pub open spec fn ascii_step_fits(b: AsciiBench, step: AsciiStep) -> bool {
    match step {
        AsciiStep::ReadRate => true,
        AsciiStep::ReadType { prev_hz, preset } => b.ascii_type == Some(preset),
        AsciiStep::WriteType { prev_hz, preset, old_type } => b.ascii_type == Some(preset),
        AsciiStep::WriteRate { prev_hz, prev_type } => prev_type is Some <==> b.ascii_type is Some,
        AsciiStep::Measuring { prev_hz, prev_type } => prev_type is Some <==> b.ascii_type is Some,
        AsciiStep::RestoreRate { prev_hz, prev_type, msgs } => prev_type is Some
            <==> b.ascii_type is Some,
        AsciiStep::RestoreType { prev_hz, old_type, msgs } => b.ascii_type is Some,
    }
}

/// Each step of an ASCII bench sends what it is named for: whatever went before,
/// the rate to measure is the requested one and is the last thing written before
/// the measurement, the preset to measure is the requested one, and afterwards the
/// old rate and the old preset are put back.
#[verifier::rlimit(80)]
pub proof fn law_ascii_steps_send(b: AsciiBench, step: AsciiStep, e: Event)
    requires
        ascii_step_fits(b, step),
        session::answers(ascii_awaits(step), e),
    ensures
        ascii_stepped(b, step, e).0 matches Some(next) ==> ascii_step_fits(b, next),
        match ascii_stepped(b, step, e) {
            (None, turn) => turn.action is Done,
            (Some(AsciiStep::ReadRate), turn) => false,
            (Some(AsciiStep::ReadType { prev_hz, preset }), turn) => session::sends_command(
                turn.action,
                proto::command_line("VNRRG,06"@),
                5,
                transact::AcceptView::Preset,
            ),
            (Some(AsciiStep::WriteType { prev_hz, preset, old_type }), turn) => b.ascii_type is Some
                && session::writes_preset(
                turn.action,
                b.ascii_type->0 as int,
                5,
                transact::AcceptView::Prefix("$VNWRG,06"@),
            ),
            (Some(AsciiStep::WriteRate { prev_hz, prev_type }), turn) => session::writes_rate(
                turn.action,
                b.hz as int,
                5,
            ),
            (Some(AsciiStep::Measuring { prev_hz, prev_type }), turn) => step is WriteRate
                && turn.action == (session::ActionView::MeasureAscii { secs: b.secs }),
            (Some(AsciiStep::RestoreRate { prev_hz, prev_type, msgs }), turn) => {
                session::writes_rate(turn.action, prev_hz as int, 3)
            },
            (Some(AsciiStep::RestoreType { prev_hz, old_type, msgs }), turn) => {
                session::writes_preset(
                    turn.action,
                    old_type as int,
                    3,
                    transact::AcceptView::Prefix("$VNWRG,06"@),
                )
            },
        },
{
    match step {
        AsciiStep::ReadRate => {
            proto::law_built_command_verifies("VNRRG,06"@);
            session::lemma_rate_command(b.hz);
        },
        AsciiStep::ReadType { prev_hz, preset } => {
            session::lemma_preset_command(preset);
        },
        AsciiStep::WriteType { prev_hz, preset, old_type } => {
            session::lemma_rate_command(b.hz);
        },
        AsciiStep::WriteRate { prev_hz, prev_type } => {},
        AsciiStep::Measuring { prev_hz, prev_type } => {
            session::lemma_rate_command(prev_hz);
        },
        AsciiStep::RestoreRate { prev_hz, prev_type, msgs } => {
            if prev_type is Some {
                session::lemma_preset_command(prev_type->0);
            }
        },
        AsciiStep::RestoreType { prev_hz, old_type, msgs } => {},
    }
}

/// An ASCII bench goes on in order where it is answered: read the rate; read and
/// set the preset, if one was requested; set the rate, measure, put the rate back,
/// and the preset if it was set. An error before the measurement, or a failed
/// measurement, ends it with that error and nothing printed.
#[verifier::rlimit(80)]
pub proof fn law_ascii_bench_in_order(b: AsciiBench, step: AsciiStep, e: Event)
    requires
        session::answers(ascii_awaits(step), e),
    ensures
        ({
            let (next, turn) = ascii_stepped(b, step, e);
            &&& step is ReadRate && e->Replied_0 is Ok ==> next is Some && (if b.ascii_type is Some {
                next->0 is ReadType
            } else {
                next->0 is WriteRate
            })
            &&& step is ReadType && e->Replied_0 is Ok ==> next is Some && next->0 is WriteType
            &&& step is WriteType && e->Replied_0 is Ok ==> next is Some && next->0 is WriteRate
            &&& step is WriteRate && e->Replied_0 is Ok ==> next is Some && next->0 is Measuring
            &&& step is Measuring && e is MeasuredAscii ==> next is Some && (next->0
                matches AsciiStep::RestoreRate { prev_hz, prev_type, msgs } && msgs
                == e->MeasuredAscii_0.msgs)
            &&& step matches AsciiStep::RestoreRate { prev_hz, prev_type: Some(t), msgs } ==> next
                == Some(AsciiStep::RestoreType { prev_hz, old_type: t, msgs })
            &&& (step is ReadRate || step is ReadType || step is WriteType || step is WriteRate)
                && e->Replied_0 is Err ==> next is None && turn.output.len() == 0 && turn.action
                == session::ActionView::Done(Err(e->Replied_0->Err_0@))
            &&& step is Measuring && e is Failed ==> next is None && turn.output.len() == 0
                && turn.action == session::ActionView::Done(Err(e->Failed_0@))
            &&& step matches AsciiStep::RestoreRate { prev_hz, prev_type: None, msgs } ==> next
                is None && turn.action is Done && (turn.action->Done_0 is Ok <==> msgs > 0)
            &&& step matches AsciiStep::RestoreType { prev_hz, old_type, msgs } ==> next is None
                && turn.action is Done && (turn.action->Done_0 is Ok <==> msgs > 0)
        }),
{
}

/// What an ASCII bench prints: the preset and the rate it has set, the result of
/// what was measured, and what was put back. Nothing else is printed.
#[verifier::rlimit(80)]
pub proof fn law_ascii_bench_prints(b: AsciiBench, step: AsciiStep, e: Event)
    requires
        ascii_step_fits(b, step),
        session::answers(ascii_awaits(step), e),
    ensures
        ({
            let (next, turn) = ascii_stepped(b, step, e);
            &&& step is WriteType && next is Some ==> turn.output == seq![
                session::said(
                    "Set ASCII type to "@ + registers::preset_display(b.ascii_type->0) + " (ADOR "@
                        + number::decimal(b.ascii_type->0 as nat) + ")."@,
                ),
            ]
            &&& step is WriteRate && next is Some ==> turn.output == seq![
                session::said(
                    "Set ASCII async rate to "@ + number::decimal(b.hz as nat)
                        + " Hz; measuring the $VN message stream for "@ + number::decimal(
                        b.secs as nat,
                    ) + "s..."@,
                ),
            ]
            &&& step is Measuring && e is MeasuredAscii ==> turn.output == report::result_cells(
                "messages"@,
                b.hz,
                e->MeasuredAscii_0.msgs,
                e->MeasuredAscii_0.bytes,
                match e->MeasuredAscii_0.sample {
                    Some(s) => Some(seq![report::CellView::Text(s@)]),
                    None => None,
                },
                b.baud,
            )
            &&& step matches AsciiStep::RestoreRate { prev_hz, prev_type: None, msgs }
                ==> turn.output == seq![
                session::said(
                    "Restored: ASCII async back to "@ + number::decimal(prev_hz as nat) + " Hz."@,
                ),
            ]
            &&& step matches AsciiStep::RestoreType { prev_hz, old_type, msgs } ==> turn.output
                == seq![
                session::said(
                    "Restored: ASCII async back to "@ + number::decimal(prev_hz as nat)
                        + " Hz, type "@ + registers::preset_display(old_type) + "."@,
                ),
            ]
            &&& step is ReadRate || step is ReadType || (step is RestoreRate && next is Some)
                ==> turn.output.len() == 0
        }),
{
    let (next, turn) = ascii_stepped(b, step, e);
    if turn.output.len() == 1 {
        assert(turn.output =~= seq![turn.output[0]]);
    }
}

/// Both benches begin by asking for the async rate, before they change anything.
pub proof fn law_benches_begin_by_asking()
    ensures
        asking_rate().output.len() == 0,
        session::sends_command(
            asking_rate().action,
            proto::command_line("VNRRG,07"@),
            5,
            transact::AcceptView::Rate,
        ),
        asking_rate().action->missing == "could not read current async rate"@,
{
    proto::law_built_command_verifies("VNRRG,07"@);
}

/// Every command of a bench says what it means if no reply comes, and a bench that
/// saw nothing says what to look at.
#[verifier::rlimit(80)]
pub proof fn law_bench_errors_say_what_is_wrong(
    a: AsciiBench,
    astep: AsciiStep,
    b: BinaryBenchView,
    bstep: BinaryStepView,
    e: Event,
)
    ensures
        ({
            let (next, turn) = ascii_stepped(a, astep, e);
            let missing = turn.action->missing;
            &&& next matches Some(AsciiStep::ReadType { prev_hz, preset }) ==> missing
                == "could not read current ASCII type"@
            &&& next matches Some(AsciiStep::WriteType { prev_hz, preset, old_type }) ==> missing
                == "device did not accept the ASCII type (register 6)"@
            &&& next matches Some(AsciiStep::WriteRate { prev_hz, prev_type }) ==> missing
                == "device did not accept the async rate (a $VNERR means the message won't fit at this baud)"@
            &&& next matches Some(AsciiStep::RestoreRate { prev_hz, prev_type, msgs }) ==> missing
                == "restore: ASCII async rate"@
            &&& next matches Some(AsciiStep::RestoreType { prev_hz, old_type, msgs }) ==> missing
                == "restore: ASCII type"@
            &&& (astep is RestoreRate || astep is RestoreType) && turn.action is Done
                && turn.action->Done_0 is Err ==> turn.action->Done_0->Err_0
                == "received 0 async messages — is async output (register 6) on, or is the port wrong?"@
        }),
        ({
            let (next, turn) = binary_stepped(b, bstep, e);
            let missing = turn.action->missing;
            &&& next matches Some(BinaryStepView::Silence { prev_hz }) ==> missing
                == "could not disable ASCII async output"@
            &&& next matches Some(BinaryStepView::Configure { prev_hz }) ==> missing
                == "device did not accept the binary config (a $VNERR means it won't fit at this baud)"@
            &&& next matches Some(BinaryStepView::Undo { error }) ==> missing
                == "restore: ASCII async rate"@
            &&& next matches Some(BinaryStepView::Disable { prev_hz, frames }) ==> missing
                == "restore: disable binary output"@
            &&& next matches Some(BinaryStepView::RestoreRate { prev_hz, frames }) ==> missing
                == "restore: ASCII async rate"@
            &&& bstep is RestoreRate && turn.action->Done_0 is Err ==> turn.action->Done_0->Err_0
                == "received 0 binary frames — the config may have targeted the wrong serial port (try a VN-100 on serial1), or the device isn't streaming"@
        }),
{
}

} // verus!
