//! What a command does with the device, as a dialogue.
//!
//! A session gives one turn at a time: what to print, then one action on the
//! port. The caller performs the action and hands back what came of it, until the
//! action says that the session is done. `AsciiBench` and `BinaryBench` of
//! `configure` are dialogues of their own.
use crate::bench::{AsciiTally, Stats};
use crate::number;
use crate::number::decimal_text;
use crate::proto;
use crate::proto::{build_command, parse_reg06, parse_reg07};
use crate::report;
use crate::report::{debug_list_text, put, Cell};
use crate::text;
use crate::text::{before_char, chars_of, concat2, concat3, pieces, skip_chars};
use crate::transact;
use crate::transact::Accept;
use vstd::pervasive::unreached;
use vstd::prelude::*;
use vstd::string::*;

verus! {

// ---------------------------------------------------------------------------
// Turns
// ---------------------------------------------------------------------------
/// What to do on the port.
pub enum Action {
    /// Send a command until an accepted reply comes, up to `attempts` times.
    Send { command: String, attempts: u32, accept: Accept, missing: String },
    /// Send a command that makes the device reboot.
    Reboot { command: String, accept: Accept },
    /// Let the device reconfigure its UART, switch this connection to `baud`, and
    /// drop what was in flight.
    SwitchBaud { baud: u32 },
    /// Measure whatever is streaming.
    Measure { secs: u64 },
    /// Measure the ASCII async stream.
    MeasureAscii { secs: u64 },
    /// Measure binary frames of one length.
    MeasureBinary { secs: u64, frame_len: usize },
    /// Nothing more.
    Done(Result<(), String>),
}

/// An `Action` with its text taken by characters.
pub enum ActionView {
    Send { command: Seq<char>, attempts: u32, accept: transact::AcceptView, missing: Seq<char> },
    Reboot { command: Seq<char>, accept: transact::AcceptView },
    SwitchBaud { baud: u32 },
    Measure { secs: u64 },
    MeasureAscii { secs: u64 },
    MeasureBinary { secs: u64, frame_len: int },
    Done(Result<(), Seq<char>>),
}

impl View for Action {
    type V = ActionView;

    open spec fn view(&self) -> ActionView {
        match *self {
            Action::Send { command, attempts, accept, missing } => ActionView::Send {
                command: command@,
                attempts,
                accept: accept@,
                missing: missing@,
            },
            Action::Reboot { command, accept } => ActionView::Reboot {
                command: command@,
                accept: accept@,
            },
            Action::SwitchBaud { baud } => ActionView::SwitchBaud { baud },
            Action::Measure { secs } => ActionView::Measure { secs },
            Action::MeasureAscii { secs } => ActionView::MeasureAscii { secs },
            Action::MeasureBinary { secs, frame_len } => ActionView::MeasureBinary {
                secs,
                frame_len: frame_len as int,
            },
            Action::Done(r) => ActionView::Done(text::message(r)),
        }
    }
}

/// What to print, and then what to do.
pub struct Turn {
    pub output: Vec<Cell>,
    pub action: Action,
}

/// The view of a `Turn`.
pub struct TurnView {
    pub output: Seq<report::CellView>,
    pub action: ActionView,
}

impl View for Turn {
    type V = TurnView;

    open spec fn view(&self) -> TurnView {
        TurnView { output: report::cells(self.output@), action: self.action@ }
    }
}

/// What came of an action.
pub enum Event {
    /// The reply to a command, or why there is none.
    Replied(Result<String, String>),
    /// The line to show for a reboot, or why it failed.
    Rebooted(Result<String, String>),
    /// Whether the connection was switched.
    Switched(Result<(), String>),
    /// What was measured of all streams.
    Measured(Stats),
    /// What was measured of the ASCII stream.
    MeasuredAscii(AsciiTally),
    /// What was measured of frames of one length.
    MeasuredBinary { frames: u64, bytes: u64, first: Option<Vec<u8>> },
    /// A measurement failed.
    Failed(String),
}

/// What a session waits for.
pub enum Awaited {
    Reply(transact::AcceptView),
    Reboot,
    Switch,
    Stats,
    Ascii,
    Binary(int),
    Nothing,
}

/// What an action brings.
pub open spec fn brings(a: ActionView) -> Awaited {
    match a {
        ActionView::Send { command, attempts, accept, missing } => Awaited::Reply(accept),
        ActionView::Reboot { command, accept } => Awaited::Reboot,
        ActionView::SwitchBaud { baud } => Awaited::Switch,
        ActionView::Measure { secs } => Awaited::Stats,
        ActionView::MeasureAscii { secs } => Awaited::Ascii,
        ActionView::MeasureBinary { secs, frame_len } => Awaited::Binary(frame_len),
        ActionView::Done(r) => Awaited::Nothing,
    }
}

/// Whether an event is what is waited for: a reply is an accepted one, and a
/// first frame is a whole one.
pub open spec fn answers(w: Awaited, e: Event) -> bool {
    match w {
        Awaited::Reply(a) => e matches Event::Replied(r) && (r matches Ok(s)
            ==> transact::accepted_by(a, s@)),
        Awaited::Reboot => e is Rebooted,
        Awaited::Switch => e is Switched,
        Awaited::Stats => e is Failed || (e matches Event::Measured(st) && report::reportable(st)),
        Awaited::Ascii => e is Failed || e is MeasuredAscii,
        Awaited::Binary(n) => e is Failed || (e matches Event::MeasuredBinary {
            frames,
            bytes,
            first,
        } && (first matches Some(f) ==> f@.len() == n)),
        Awaited::Nothing => false,
    }
}

/// A line of its own.
pub open spec fn said(s: Seq<char>) -> report::CellView {
    report::CellView::Text(s + "\n"@)
}

/// A received line.
pub open spec fn rx(reply: Seq<char>) -> report::CellView {
    report::CellView::Text("RX: "@ + reply + "\n"@)
}

/// A turn that sends the command with this payload.
pub open spec fn sending(
    output: Seq<report::CellView>,
    payload: Seq<char>,
    attempts: u32,
    accept: transact::AcceptView,
    missing: Seq<char>,
) -> TurnView {
    TurnView {
        output,
        action: ActionView::Send {
            command: proto::command_line(payload),
            attempts,
            accept,
            missing,
        },
    }
}

/// A turn that ends the session.
pub open spec fn ending(output: Seq<report::CellView>, r: Result<(), Seq<char>>) -> TurnView {
    TurnView { output, action: ActionView::Done(r) }
}

/// A turn that ends the session with an error and prints nothing.
pub open spec fn failing(e: Seq<char>) -> TurnView {
    ending(Seq::empty(), Err(e))
}

/// Nothing to print.
pub fn silence() -> (r: Vec<Cell>)
    ensures
        report::cells(r@) == Seq::<report::CellView>::empty(),
{
    let v: Vec<Cell> = Vec::new();
    assert(report::cells(v@) =~= Seq::<report::CellView>::empty());
    v
}

/// Adds a line of its own.
pub fn say(out: &mut Vec<Cell>, s: &str)
    ensures
        report::cells(final(out)@) == report::cells(old(out)@).push(said(s@)),
{
    let line = concat2(s, "\n");
    put(out, line.as_str());
}

/// Adds a received line.
pub fn say_rx(out: &mut Vec<Cell>, reply: &str)
    ensures
        report::cells(final(out)@) == report::cells(old(out)@).push(rx(reply@)),
{
    let line = concat3("RX: ", reply, "\n");
    put(out, line.as_str());
}

/// A turn that sends the command with this payload.
pub fn send(output: Vec<Cell>, payload: &str, attempts: u32, accept: Accept, missing: &str) -> (r:
    Turn)
    ensures
        r@ == sending(report::cells(output@), payload@, attempts, accept@, missing@),
{
    Turn {
        output,
        action: Action::Send {
            command: build_command(payload),
            attempts,
            accept,
            missing: missing.to_string(),
        },
    }
}

/// A turn that ends the session.
pub fn end(output: Vec<Cell>, r: Result<(), String>) -> (t: Turn)
    ensures
        t@ == ending(report::cells(output@), text::message(r)),
{
    Turn { output, action: Action::Done(r) }
}

/// A turn that ends the session with an error and prints nothing.
pub fn fail(e: String) -> (r: Turn)
    ensures
        r@ == failing(e@),
{
    end(silence(), Err(e))
}

/// The reply of an event that is one.
pub fn reply_of(event: Event) -> (r: Result<String, String>)
    requires
        event is Replied,
    ensures
        event == Event::Replied(r),
{
    match event {
        Event::Replied(r) => r,
        _ => unreached(),
    }
}

/// The rate in a reply that has one.
pub fn rate_of(reply: &str) -> (r: u32)
    requires
        proto::reg07_value(reply@) is Some,
    ensures
        proto::reg07_value(reply@) == Some(r as int),
{
    match parse_reg07(reply) {
        Some(n) => n,
        None => unreached(),
    }
}

/// The preset in a reply that has one.
pub fn preset_of(reply: &str) -> (r: u8)
    requires
        proto::reg06_value(reply@) is Some,
    ensures
        proto::reg06_value(reply@) == Some(r as int),
{
    match parse_reg06(reply) {
        Some(n) => n,
        None => unreached(),
    }
}

// ---------------------------------------------------------------------------
// Register fields
// ---------------------------------------------------------------------------
/// `s` without the `$`s it starts with.
pub open spec fn without_dollars(s: Seq<char>) -> Seq<char>
    decreases s.len(),
{
    if s.len() > 0 && s[0] == '$' {
        without_dollars(s.skip(1))
    } else {
        s
    }
}

/// `s` without the `$`s it starts with.
fn skip_dollars(s: &str) -> (r: &str)
    ensures
        r@ == without_dollars(s@),
{
    let cs = chars_of(s);
    let mut i: usize = 0;
    assert(s@.skip(0) =~= s@);
    while i < cs.len() && cs[i] == '$'
        invariant
            i <= cs.len(),
            cs@ == s@,
            without_dollars(s@) == without_dollars(s@.skip(i as int)),
        decreases cs.len() - i,
    {
        assert(s@.skip(i as int)[0] == cs@[i as int]);
        assert(s@.skip(i as int).skip(1) =~= s@.skip(i + 1));
        i = i + 1;
    }
    if i < cs.len() {
        assert(s@.skip(i as int)[0] == cs@[i as int]);
    }
    skip_chars(s, i)
}

/// The line that shows the fields of a `$VN(R|W)RG,<id>,<f1>,<f2>...*XX` reply.
pub open spec fn reg_fields(reply: Seq<char>) -> Seq<char> {
    let parts = text::split(text::before(without_dollars(reply), '*'), ',');
    if parts.len() > 2 {
        "register "@ + parts[1] + ": "@ + report::debug_list(parts.skip(2))
    } else if parts.len() == 2 {
        "register "@ + parts[1] + ": (no fields)"@
    } else {
        "(unrecognized reply)"@
    }
}

/// The line that shows the fields of a `$VN(R|W)RG,<id>,<f1>,<f2>...*XX` reply.
pub fn print_reg_fields(reply: &str) -> (r: String)
    ensures
        r@ == reg_fields(reply@),
{
    let body = before_char(skip_dollars(reply), '*');
    let parts = pieces(body, ',');
    let ghost all = text::str_views(parts@);
    if parts.len() > 2 {
        assert(all[1] == parts@[1]@);
        let rest = &parts.as_slice()[2..parts.len()];
        assert(text::str_views(rest@) =~= all.skip(2));
        let list = debug_list_text(rest);
        let mut s = concat3("register ", parts[1], ": ");
        s.append(list.as_str());
        s
    } else if parts.len() == 2 {
        assert(all[1] == parts@[1]@);
        concat3("register ", parts[1], ": (no fields)")
    } else {
        "(unrecognized reply)".to_string()
    }
}

// ---------------------------------------------------------------------------
// Shared texts
// ---------------------------------------------------------------------------
/// The hint when nothing usable was heard: usually a baud mismatch.
pub open spec fn no_reply(baud: u32) -> Seq<char> {
    "no usable reply from device — is it actually at "@ + number::decimal(baud as nat)
        + " baud? (VN-100 factory default is 115200; use --baud to match, or the `baud` command to change it)"@
}

/// The hint when nothing usable was heard.
pub fn no_reply_text(baud: u32) -> (r: String)
    ensures
        r@ == no_reply(baud),
{
    let n = decimal_text(baud as u64);
    concat3(
        "no usable reply from device — is it actually at ",
        n.as_str(),
        " baud? (VN-100 factory default is 115200; use --baud to match, or the `baud` command to change it)",
    )
}

/// `<before><n><after>`.
pub open spec fn around(before: Seq<char>, n: nat, after: Seq<char>) -> Seq<char> {
    before + number::decimal(n) + after
}

/// `<before><n><after>`.
pub fn around_text(before: &str, n: u64, after: &str) -> (r: String)
    ensures
        r@ == around(before@, n as nat, after@),
{
    let d = decimal_text(n);
    concat3(before, d.as_str(), after)
}

// ---------------------------------------------------------------------------
// Laws
// ---------------------------------------------------------------------------
/// Whether an action sends a well-formed command, so many times at most, and waits
/// for such a reply.
pub open spec fn sends_command(
    a: ActionView,
    command: Seq<char>,
    attempts: u32,
    accept: transact::AcceptView,
) -> bool {
    &&& a matches ActionView::Send { command: c, attempts: n, accept: w, missing } && c == command
        && n == attempts && w == accept
    &&& proto::checksum_fault(command) is None
}

/// Whether an action writes the async rate `hz` to register 7, as a reader of
/// register-7 lines sees it.
pub open spec fn writes_rate(a: ActionView, hz: int, attempts: u32) -> bool {
    a matches ActionView::Send { command, attempts: n, accept, missing } && sends_command(
        a,
        command,
        attempts,
        transact::AcceptView::Rate,
    ) && "$VNWRG,07,"@.is_prefix_of(command) && proto::reg07_value(command) == Some(hz)
}

/// Whether an action writes `preset` to register 6, as a reader of register-6 lines
/// sees it.
pub open spec fn writes_preset(
    a: ActionView,
    preset: int,
    attempts: u32,
    accept: transact::AcceptView,
) -> bool {
    a matches ActionView::Send { command, attempts: n, accept: w, missing } && sends_command(
        a,
        command,
        attempts,
        accept,
    ) && "$VNWRG,06,"@.is_prefix_of(command) && proto::reg06_value(command) == Some(preset)
}

/// The command that writes a rate is a register-7 line with that rate.
pub proof fn lemma_rate_command(hz: u32)
    ensures
        ({
            let c = proto::command_line("VNWRG,07,"@ + number::decimal(hz as nat));
            &&& "$VNWRG,07,"@.is_prefix_of(c)
            &&& proto::reg07_value(c) == Some(hz as int)
            &&& proto::checksum_fault(c) is None
        }),
{
    let p = "VNWRG,07,"@ + number::decimal(hz as nat);
    let c = proto::command_line(p);
    proto::law_reg07_reads_back(hz as nat);
    proto::law_built_command_verifies(p);
    reveal_strlit("VNWRG,07,");
    reveal_strlit("$VNWRG,07,");
    assert("$VNWRG,07,"@ =~= c.subrange(0, 10));
}

/// The command that writes a preset is a register-6 line with that preset.
pub proof fn lemma_preset_command(preset: u8)
    ensures
        ({
            let c = proto::command_line("VNWRG,06,"@ + number::decimal(preset as nat));
            &&& "$VNWRG,06,"@.is_prefix_of(c)
            &&& proto::reg06_value(c) == Some(preset as int)
            &&& proto::checksum_fault(c) is None
        }),
{
    let p = "VNWRG,06,"@ + number::decimal(preset as nat);
    let c = proto::command_line(p);
    proto::law_reg06_reads_back(preset as nat);
    proto::law_built_command_verifies(p);
    reveal_strlit("VNWRG,06,");
    reveal_strlit("$VNWRG,06,");
    assert("$VNWRG,06,"@ =~= c.subrange(0, 10));
}

/// Any text without the characters that delimit a reply can be one of its fields.
pub open spec fn is_field_text(s: Seq<char>) -> bool {
    !s.contains(',') && !s.contains('*')
}

/// The fields of a register reply are listed as they stand in it, after its
/// register number, whatever checksum follows.
pub proof fn law_register_fields_are_listed(
    verb: Seq<char>,
    id: Seq<char>,
    values: Seq<Seq<char>>,
    sum: Seq<char>,
)
    requires
        is_field_text(verb),
        verb.len() > 0,
        verb[0] != '$',
        is_field_text(id),
        forall|i: int| 0 <= i < values.len() ==> is_field_text(#[trigger] values[i]),
    ensures
        reg_fields(
            seq!['$'] + text::join(seq![verb, id] + values, seq![',']) + seq!['*'] + sum,
        ) == if values.len() == 0 {
            "register "@ + id + ": (no fields)"@
        } else {
            "register "@ + id + ": "@ + report::debug_list(values)
        },
{
    let parts = seq![verb, id] + values;
    let none = Seq::<char>::empty();
    let sep = seq![','] + none;
    let body = text::join(parts, seq![',']);
    let tail = body + seq!['*'] + sum;
    let reply = seq!['$'] + body + seq!['*'] + sum;
    assert(sep =~= seq![',']);
    assert forall|i: int| 0 <= i < parts.len() implies is_field_text(#[trigger] parts[i]) by {
        if i >= 2 {
            assert(parts[i] == values[i - 2]);
        }
    }
    assert forall|i: int| 0 <= i < parts.len() implies !(#[trigger] parts[i]).contains(',') by {
        assert(is_field_text(parts[i]));
    }
    text::lemma_split_joined(parts, ',', none);
    let all = seq![parts[0]] + parts.skip(1).map_values(|p: Seq<char>| none + p);
    assert forall|i: int| 0 <= i < parts.len() implies all[i] == parts[i] by {
        if i > 0 {
            assert(none + parts[i] =~= parts[i]);
        }
    }
    assert(all =~= parts);
    assert(text::split(body, ',') == parts);
    lemma_no_star(parts);
    assert(reply.skip(1) =~= tail);
    text::lemma_join_front(parts, seq![',']);
    assert(body[0] == verb[0]);
    assert(tail[0] == verb[0]);
    reveal_with_fuel(without_dollars, 3);
    assert(reply[0] == '$');
    assert(without_dollars(reply) == tail);
    let n = body.len() as int;
    assert forall|j: int| 0 <= j < n implies tail[j] != '*' by {
        assert(tail[j] == body[j]);
        assert(body.contains(body[j]));
    }
    text::lemma_find_at(tail, '*', n);
    assert(tail.take(n) =~= body);
    assert(parts.skip(2) =~= values);
}

/// Joining adds no delimiter of its own but the comma.
proof fn lemma_no_star(parts: Seq<Seq<char>>)
    requires
        forall|i: int| 0 <= i < parts.len() ==> is_field_text(#[trigger] parts[i]),
    ensures
        !text::join(parts, seq![',']).contains('*'),
    decreases parts.len(),
{
    let s = text::join(parts, seq![',']);
    if parts.len() > 1 {
        let most = parts.drop_last();
        assert forall|i: int| 0 <= i < most.len() implies is_field_text(#[trigger] most[i]) by {
            assert(most[i] == parts[i]);
        }
        lemma_no_star(most);
        assert(is_field_text(parts[parts.len() - 1]));
        let front = text::join(most, seq![',']);
        assert(s =~= front + seq![','] + parts.last());
        if s.contains('*') {
            let i = choose|i: int| 0 <= i < s.len() && s[i] == '*';
            if i < front.len() {
                assert(front[i] == '*');
            } else if i > front.len() {
                assert(parts.last()[i - front.len() - 1] == '*');
            }
        }
    } else if parts.len() == 1 {
        assert(is_field_text(parts[0]));
    }
}

/// Lines are printed as they are, received ones marked, and the hint at a silent
/// device names the baud rate of the connection.
pub proof fn law_shared_texts(s: Seq<char>, baud: u32, other: u32)
    ensures
        said(s) == report::CellView::Text(s.push('\n')),
        rx(s) == report::CellView::Text("RX: "@ + s.push('\n')),
        no_reply(baud) == no_reply(other) ==> baud == other,
        "no usable reply from device"@.is_prefix_of(no_reply(baud)),
{
    reveal_strlit("\n");
    reveal_strlit("no usable reply from device");
    reveal_strlit("no usable reply from device — is it actually at ");
    assert(s + "\n"@ =~= s.push('\n'));
    assert("RX: "@ + s + "\n"@ =~= "RX: "@ + s.push('\n'));
    let head = "no usable reply from device — is it actually at "@;
    let end = " baud? (VN-100 factory default is 115200; use --baud to match, or the `baud` command to change it)"@;
    assert("no usable reply from device"@ =~= no_reply(baud).subrange(0, 27));
    lemma_around_injective(head, baud as nat, other as nat, end);
}

/// A number between fixed texts can be told from any other.
pub proof fn lemma_around_injective(before: Seq<char>, a: nat, b: nat, after: Seq<char>)
    ensures
        before + number::decimal(a) + after == before + number::decimal(b) + after ==> a == b,
{
    let x = number::decimal(a);
    let y = number::decimal(b);
    if before + x + after == before + y + after {
        assert(x.len() == y.len()) by {
            assert((before + x + after).len() == (before + y + after).len());
        }
        assert forall|i: int| 0 <= i < x.len() implies x[i] == y[i] by {
            assert((before + x + after)[before.len() + i] == x[i]);
            assert((before + y + after)[before.len() + i] == y[i]);
        }
        assert(x =~= y);
        number::lemma_decimal_digits(a);
        number::lemma_decimal_digits(b);
    }
}

/// Any number of `$`s in front of a reply makes no difference to its fields, and a
/// reply without a comma is not recognised.
pub proof fn law_odd_replies(reply: Seq<char>, sum: Seq<char>)
    ensures
        reg_fields(seq!['$'] + reply) == reg_fields(reply),
        is_field_text(reply) && (reply.len() == 0 || reply[0] != '$') ==> reg_fields(
            seq!['$'] + reply + seq!['*'] + sum,
        ) == "(unrecognized reply)"@,
{
    assert((seq!['$'] + reply).skip(1) =~= reply);
    if is_field_text(reply) && (reply.len() == 0 || reply[0] != '$') {
        let tail = reply + seq!['*'] + sum;
        let line = seq!['$'] + reply + seq!['*'] + sum;
        let n = reply.len() as int;
        assert(line.skip(1) =~= tail);
        assert(tail[0] != '$');
        assert(without_dollars(line) == without_dollars(tail));
        assert(without_dollars(tail) == tail);
        assert forall|j: int| 0 <= j < n implies tail[j] != '*' by {
            assert(tail[j] == reply[j]);
            assert(reply.contains(reply[j]));
        }
        text::lemma_find_at(tail, '*', n);
        assert(tail.take(n) =~= reply);
        text::lemma_split_last(reply, ',');
    }
}

/// What the laws say of an action holds of the action that is carried out.
pub proof fn law_actions_are_as_stated(a: Action)
    ensures
        match a@ {
            ActionView::Send { command, attempts, accept, missing } => a matches Action::Send {
                command: c,
                attempts: n,
                accept: w,
                missing: m,
            } && c@ == command && n == attempts && w@ == accept && m@ == missing,
            ActionView::Reboot { command, accept } => a matches Action::Reboot {
                command: c,
                accept: w,
            } && c@ == command && w@ == accept,
            ActionView::SwitchBaud { baud } => a == (Action::SwitchBaud { baud }),
            ActionView::Measure { secs } => a == (Action::Measure { secs }),
            ActionView::MeasureAscii { secs } => a == (Action::MeasureAscii { secs }),
            ActionView::MeasureBinary { secs, frame_len } => a matches Action::MeasureBinary {
                secs: s,
                frame_len: n,
            } && s == secs && n == frame_len,
            ActionView::Done(Ok(_)) => a matches Action::Done(r) && r is Ok,
            ActionView::Done(Err(e)) => a matches Action::Done(r) && (r matches Err(t) && t@ == e),
        },
{
}

} // verus!
