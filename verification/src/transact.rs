//! Transactions: what to make of the bytes that come back after a command.
//!
//! - `read_reply` reads bytes into lines until one is accepted.
//! - `transact` validates a reply (checksum, `$VNERR`); `transact_retry` decides
//!   when to send again; `send_reboot_command` tolerates a missing echo.
//!
//! Writing to the port, reading from it and the clock are the caller's.
use crate::line;
use crate::line::{candidate_of, push_byte};
use crate::number;
use crate::number::decimal_text;
use crate::proto;
use crate::proto::{parse_reg06, parse_reg07, verify_checksum, vnerr_message};
use crate::text::{concat2, concat3, starts_with};
use vstd::prelude::*;
use vstd::string::*;

verus! {

// ---------------------------------------------------------------------------
// Which lines are wanted
// ---------------------------------------------------------------------------
/// A condition on a line.
pub trait LineFilter {
    /// Whether the line is wanted.
    spec fn accepts(&self, line: Seq<char>) -> bool;

    /// Whether the line is wanted.
    fn accept(&self, line: &str) -> (r: bool)
        ensures
            r == self.accepts(line@),
    ;
}

/// The replies that commands wait for.
pub enum Accept {
    /// A register-7 reply with a rate in it.
    Rate,
    /// A register-6 reply with a preset in it.
    Preset,
    /// A line that starts with this text.
    Prefix(&'static str),
}

impl LineFilter for Accept {
    open spec fn accepts(&self, line: Seq<char>) -> bool {
        accepted_by(self@, line)
    }

    fn accept(&self, line: &str) -> (r: bool) {
        match self {
            Accept::Rate => parse_reg07(line).is_some(),
            Accept::Preset => parse_reg06(line).is_some(),
            Accept::Prefix(p) => starts_with(line, *p),
        }
    }
}

/// An `Accept` with its text taken by characters.
pub enum AcceptView {
    Rate,
    Preset,
    Prefix(Seq<char>),
}

impl View for Accept {
    type V = AcceptView;

    open spec fn view(&self) -> AcceptView {
        match *self {
            Accept::Rate => AcceptView::Rate,
            Accept::Preset => AcceptView::Preset,
            Accept::Prefix(p) => AcceptView::Prefix(p@),
        }
    }
}

/// Whether a command that waits for `a` wants the line.
pub open spec fn accepted_by(a: AcceptView, line: Seq<char>) -> bool {
    match a {
        AcceptView::Rate => proto::reg07_value(line) is Some,
        AcceptView::Preset => proto::reg06_value(line) is Some,
        AcceptView::Prefix(p) => p.is_prefix_of(line),
    }
}

/// Lines that a filter wants, and error replies.
pub struct OrError<'a, F> {
    pub wanted: &'a F,
}

/// Whether `line` is an error reply.
pub open spec fn is_vnerr(line: Seq<char>) -> bool {
    "$VNERR"@.is_prefix_of(line)
}

impl<'a, F: LineFilter> LineFilter for OrError<'a, F> {
    open spec fn accepts(&self, line: Seq<char>) -> bool {
        self.wanted.accepts(line) || is_vnerr(line)
    }

    fn accept(&self, line: &str) -> (r: bool) {
        self.wanted.accept(line) || starts_with(line, "$VNERR")
    }
}

// ---------------------------------------------------------------------------
// Reading a reply
// ---------------------------------------------------------------------------
/// What happened next on the port.
pub enum ReadEvent<'a> {
    /// The overall deadline has passed.
    Deadline,
    /// A read gave these bytes. None is no end of file on a serial port: it means
    /// no data within this read window.
    Data(&'a [u8]),
    /// A read gave nothing within its window.
    TimedOut,
    /// A read would have had to wait.
    WouldBlock,
    /// A read failed otherwise.
    Failed,
}

/// What to do after an event.
pub enum ReplyStep {
    /// Keep reading.
    Continue,
    /// This is the reply.
    Reply(String),
    /// There was no reply in time.
    NoReply,
    /// Give up and pass the read's failure on.
    Fail,
}

/// A `ReplyStep` with its text taken by characters.
pub enum ReplyStepView {
    Continue,
    Reply(Seq<char>),
    NoReply,
    Fail,
}

impl View for ReplyStep {
    type V = ReplyStepView;

    open spec fn view(&self) -> ReplyStepView {
        match *self {
            ReplyStep::Continue => ReplyStepView::Continue,
            ReplyStep::Reply(s) => ReplyStepView::Reply(s@),
            ReplyStep::NoReply => ReplyStepView::NoReply,
            ReplyStep::Fail => ReplyStepView::Fail,
        }
    }
}

/// The first of the lines' messages that the filter wants.
pub open spec fn first_accepted<F: LineFilter>(lines: Seq<Seq<u8>>, filter: &F) -> Option<
    Seq<char>,
>
    decreases lines.len(),
{
    if lines.len() == 0 {
        None
    } else {
        match first_accepted(lines.drop_last(), filter) {
            Some(c) => Some(c),
            None => if filter.accepts(line::candidate(lines.last())) {
                Some(line::candidate(lines.last()))
            } else {
                None
            },
        }
    }
}

/// The reply among the lines that `bytes` complete, starting with `open_line` in
/// progress.
pub open spec fn reply_in<F: LineFilter>(open_line: Seq<u8>, bytes: Seq<u8>, filter: &F) -> Option<
    Seq<char>,
> {
    first_accepted(line::read_lines(open_line, bytes).lines, filter)
}

/// What to do after an event, and the line in progress then.
pub open spec fn reply_step<F: LineFilter>(
    open_line: Seq<u8>,
    event: ReadEvent,
    filter: &F,
) -> (ReplyStepView, Seq<u8>) {
    match event {
        ReadEvent::Deadline => (ReplyStepView::NoReply, open_line),
        ReadEvent::Data(bytes) => match reply_in(open_line, bytes@, filter) {
            Some(c) => (ReplyStepView::Reply(c), Seq::empty()),
            None => (ReplyStepView::Continue, line::read_lines(open_line, bytes@).open_line),
        },
        ReadEvent::TimedOut => (ReplyStepView::Continue, open_line),
        ReadEvent::WouldBlock => (ReplyStepView::Continue, open_line),
        ReadEvent::Failed => (ReplyStepView::Fail, open_line),
    }
}

/// A line that is accepted stays the first one whatever follows.
proof fn lemma_first_accepted_prefix<F: LineFilter>(
    a: Seq<Seq<u8>>,
    b: Seq<Seq<u8>>,
    filter: &F,
)
    ensures
        first_accepted(a + b, filter) == match first_accepted(a, filter) {
            Some(c) => Some(c),
            None => first_accepted(b, filter),
        },
    decreases b.len(),
{
    if b.len() == 0 {
        assert(a + b =~= a);
    } else {
        lemma_first_accepted_prefix(a, b.drop_last(), filter);
        assert((a + b).drop_last() =~= a + b.drop_last());
        assert((a + b).last() == b.last());
    }
}

/// Reads from the device until `filter` accepts a line or the deadline passes:
/// takes one event, with the line in progress in `open_line`, and says what to do.
///
/// Only the deadline ends the wait: a read that yields nothing just means "no
/// data within this read window", so a reply that lags isn't dropped. Raw bytes
/// are read, not lines, and the line length is capped, so a stream of garbage
/// with no newline can't block forever.
pub fn read_reply<F: LineFilter>(
    open_line: &mut Vec<u8>,
    event: ReadEvent,
    filter: &F,
) -> (r: ReplyStep)
    ensures
        (r@, final(open_line)@) == reply_step(old(open_line)@, event, filter),
{
    let bytes: &[u8] = match event {
        ReadEvent::Deadline => return ReplyStep::NoReply,
        ReadEvent::Failed => return ReplyStep::Fail,
        ReadEvent::TimedOut | ReadEvent::WouldBlock => return ReplyStep::Continue,
        ReadEvent::Data(bytes) => bytes,
    };
    let ghost was = open_line@;
    let mut i: usize = 0;
    while i < bytes.len()
        invariant
            i <= bytes.len(),
            event == ReadEvent::Data(bytes),
            was == old(open_line)@,
            open_line@ == line::read_lines(was, bytes@.take(i as int)).open_line,
            first_accepted(line::read_lines(was, bytes@.take(i as int)).lines, filter) is None,
        decreases bytes.len() - i,
    {
        let b: u8 = bytes[i];
        let ghost done = bytes@.take(i + 1);
        proof {
            assert(done.drop_last() =~= bytes@.take(i as int));
            if b == 10 {
                assert(line::read_lines(was, done).lines.drop_last() =~= line::read_lines(
                    was,
                    bytes@.take(i as int),
                ).lines);
            }
        }
        if push_byte(open_line, b) {
            let c = candidate_of(open_line.as_slice());
            open_line.clear();
            if filter.accept(c.as_str()) {
                proof {
                    line::law_lines_in_pieces(was, done, bytes@.skip(i + 1));
                    assert(done + bytes@.skip(i + 1) =~= bytes@);
                    lemma_first_accepted_prefix(
                        line::read_lines(was, done).lines,
                        line::read_lines(
                            line::read_lines(was, done).open_line,
                            bytes@.skip(i + 1),
                        ).lines,
                        filter,
                    );
                }
                return ReplyStep::Reply(c);
            }
        }
        i = i + 1;
    }
    assert(bytes@.take(i as int) =~= bytes@);
    ReplyStep::Continue
}

/// How a stream is split across reads does not matter: the reply found in `a`
/// stays the reply, and where there is none, `b` is searched as if read at once.
pub proof fn law_reply_in_pieces<F: LineFilter>(
    open_line: Seq<u8>,
    a: Seq<u8>,
    b: Seq<u8>,
    filter: &F,
)
    ensures
        reply_in(open_line, a + b, filter) == match reply_in(open_line, a, filter) {
            Some(c) => Some(c),
            None => reply_in(line::read_lines(open_line, a).open_line, b, filter),
        },
{
    line::law_lines_in_pieces(open_line, a, b);
    lemma_first_accepted_prefix(
        line::read_lines(open_line, a).lines,
        line::read_lines(line::read_lines(open_line, a).open_line, b).lines,
        filter,
    );
}

/// Plays `read_reply` through these events, until one ends the wait: what to do
/// then, and the line in progress.
pub open spec fn waited<F: LineFilter>(
    open_line: Seq<u8>,
    events: Seq<ReadEvent>,
    filter: &F,
) -> (ReplyStepView, Seq<u8>)
    decreases events.len(),
{
    if events.len() == 0 {
        (ReplyStepView::Continue, open_line)
    } else {
        match reply_step(open_line, events[0], filter) {
            (ReplyStepView::Continue, line) => waited(line, events.skip(1), filter),
            ended => ended,
        }
    }
}

/// The bytes that an event brings.
pub open spec fn event_bytes(event: ReadEvent) -> Seq<u8> {
    match event {
        ReadEvent::Data(bytes) => bytes@,
        _ => Seq::empty(),
    }
}

/// The bytes that these events bring, end to end.
pub open spec fn bytes_of(events: Seq<ReadEvent>) -> Seq<u8>
    decreases events.len(),
{
    if events.len() == 0 {
        Seq::empty()
    } else {
        event_bytes(events[0]) + bytes_of(events.skip(1))
    }
}

/// Whether each of these events is a read that gave bytes, none, or nothing in
/// time: neither a failure nor the deadline.
pub open spec fn all_reads(events: Seq<ReadEvent>) -> bool {
    forall|i: int|
        0 <= i < events.len() ==> (#[trigger] events[i]) !is Deadline && events[i] !is Failed
}

/// What to do after bytes, however they were read, and the line in progress then.
pub open spec fn after_bytes<F: LineFilter>(
    open_line: Seq<u8>,
    bytes: Seq<u8>,
    filter: &F,
) -> (ReplyStepView, Seq<u8>) {
    match reply_in(open_line, bytes, filter) {
        Some(c) => (ReplyStepView::Reply(c), Seq::empty()),
        None => (ReplyStepView::Continue, line::read_lines(open_line, bytes).open_line),
    }
}

/// What comes of reads depends on the bytes that they bring alone: not on the
/// number and sizes of the reads, nor on empty, timed-out and would-block ones
/// between them.
pub proof fn law_wait_depends_on_bytes_alone<F: LineFilter>(
    open_line: Seq<u8>,
    events: Seq<ReadEvent>,
    filter: &F,
)
    requires
        all_reads(events),
    ensures
        waited(open_line, events, filter) == after_bytes(open_line, bytes_of(events), filter),
    decreases events.len(),
{
    if events.len() > 0 {
        let first = event_bytes(events[0]);
        let rest = events.skip(1);
        let next = line::read_lines(open_line, first).open_line;
        assert(events[0] !is Deadline && events[0] !is Failed);
        assert forall|i: int| 0 <= i < rest.len() implies (#[trigger] rest[i]) !is Deadline
            && rest[i] !is Failed by {
            assert(rest[i] == events[i + 1]);
        }
        law_wait_depends_on_bytes_alone(next, rest, filter);
        law_reply_in_pieces(open_line, first, bytes_of(rest), filter);
        line::law_lines_in_pieces(open_line, first, bytes_of(rest));
    }
}

/// What ends a wait, ends it whatever follows; what does not is followed up.
pub proof fn law_wait_in_pieces<F: LineFilter>(
    open_line: Seq<u8>,
    a: Seq<ReadEvent>,
    b: Seq<ReadEvent>,
    filter: &F,
)
    ensures
        waited(open_line, a + b, filter) == match waited(open_line, a, filter) {
            (ReplyStepView::Continue, line) => waited(line, b, filter),
            ended => ended,
        },
    decreases a.len(),
{
    if a.len() == 0 {
        assert(a + b =~= b);
    } else {
        assert((a + b)[0] == a[0]);
        assert((a + b).skip(1) =~= a.skip(1) + b);
        match reply_step(open_line, a[0], filter) {
            (ReplyStepView::Continue, line) => law_wait_in_pieces(line, a.skip(1), b, filter),
            _ => {},
        }
    }
}

/// Two ways to read the same bytes give the same result, whatever events follow.
pub proof fn law_reads_are_interchangeable<F: LineFilter>(
    open_line: Seq<u8>,
    a: Seq<ReadEvent>,
    b: Seq<ReadEvent>,
    then: Seq<ReadEvent>,
    filter: &F,
)
    requires
        all_reads(a),
        all_reads(b),
        bytes_of(a) == bytes_of(b),
    ensures
        waited(open_line, a + then, filter) == waited(open_line, b + then, filter),
{
    law_wait_depends_on_bytes_alone(open_line, a, filter);
    law_wait_depends_on_bytes_alone(open_line, b, filter);
    law_wait_in_pieces(open_line, a, then, filter);
    law_wait_in_pieces(open_line, b, then, filter);
}

/// A reply among the bytes is the result whatever comes after it. Without one, the
/// deadline ends the wait with no reply, and a read that fails ends it with that
/// failure.
pub proof fn law_wait_ends<F: LineFilter>(
    open_line: Seq<u8>,
    events: Seq<ReadEvent>,
    end: ReadEvent,
    then: Seq<ReadEvent>,
    filter: &F,
)
    requires
        all_reads(events),
        end is Deadline || end is Failed,
    ensures
        waited(open_line, events.push(end) + then, filter).0 == match reply_in(
            open_line,
            bytes_of(events),
            filter,
        ) {
            Some(c) => ReplyStepView::Reply(c),
            None => if end is Failed {
                ReplyStepView::Fail
            } else {
                ReplyStepView::NoReply
            },
        },
{
    let ended = seq![end] + then;
    assert(events.push(end) + then =~= events + ended);
    law_wait_depends_on_bytes_alone(open_line, events, filter);
    law_wait_in_pieces(open_line, events, ended, filter);
    assert(ended[0] == end);
}

/// A framed ASCII reply that the filter wants is found though other bytes stand
/// before it on its line, as when the binary stream is still flowing.
pub proof fn law_reply_after_junk<F: LineFilter>(junk: Seq<u8>, payload: Seq<char>, filter: &F)
    requires
        line::fits_a_line(junk, payload),
        filter.accepts(proto::framed(payload)),
    ensures
        reply_in(Seq::empty(), line::wire_line(junk, payload), filter) == Some(
            proto::framed(payload),
        ),
{
    line::law_wire_line_is_one_message(junk, payload);
    let found = line::read_lines(Seq::empty(), line::wire_line(junk, payload)).lines;
    assert(found.drop_last() =~= Seq::<Seq<u8>>::empty());
    assert(first_accepted(found.drop_last(), filter) is None);
    assert(found.last() == found[0]);
}

// ---------------------------------------------------------------------------
// One transaction
// ---------------------------------------------------------------------------
/// A reply or an error message, by characters.
pub type Outcome = Result<Seq<char>, Seq<char>>;

/// The view of a reply or an error message.
pub open spec fn outcome(r: Result<String, String>) -> Outcome {
    match r {
        Ok(s) => Ok(s@),
        Err(e) => Err(e@),
    }
}

/// The view of an optional text.
pub open spec fn opt_text(o: Option<String>) -> Option<Seq<char>> {
    match o {
        Some(s) => Some(s@),
        None => None,
    }
}

/// What a transaction comes to: no reply gives `missing`, a bad checksum its
/// fault, an error reply its meaning, and any other reply itself.
pub open spec fn transaction(reply: Option<Seq<char>>, missing: Seq<char>) -> Outcome {
    match reply {
        None => Err(missing),
        Some(line) => match proto::checksum_verdict(line) {
            Err(fault) => Err(fault),
            Ok(_) => if is_vnerr(line) {
                Err(proto::vnerr_text(line))
            } else {
                Ok(line)
            },
        },
    }
}

/// Validates the reply to a command. A `$VNERR` reply is surfaced as an error; a
/// checksum mismatch is rejected.
pub fn transact(reply: Option<String>, missing: &str) -> (r: Result<String, String>)
    ensures
        outcome(r) == transaction(opt_text(reply), missing@),
{
    match reply {
        None => Err(missing.to_string()),
        Some(line) => match verify_checksum(line.as_str()) {
            Err(fault) => Err(fault),
            Ok(_) => if starts_with(line.as_str(), "$VNERR") {
                Err(vnerr_message(line.as_str()))
            } else {
                Ok(line)
            },
        },
    }
}

/// A framed reply that is no error passes a transaction as it is; a framed error
/// reply fails it with its meaning.
pub proof fn law_framed_reply_passes(payload: Seq<char>, missing: Seq<char>)
    ensures
        transaction(Some(proto::framed(payload)), missing) == if is_vnerr(proto::framed(payload)) {
            Err::<Seq<char>, Seq<char>>(proto::vnerr_text(proto::framed(payload)))
        } else {
            Ok::<Seq<char>, Seq<char>>(proto::framed(payload))
        },
{
    proto::law_built_command_verifies(payload);
}

/// What a transaction hands on was wanted by the filter that found it, whatever
/// the filter.
pub proof fn law_transaction_keeps_the_filter<F: LineFilter>(
    open_line: Seq<u8>,
    bytes: Seq<u8>,
    wanted: &F,
    missing: Seq<char>,
)
    ensures
        ({
            let filter = OrError { wanted };
            transaction(reply_in(open_line, bytes, &filter), missing) matches Ok(line)
                ==> wanted.accepts(line)
        }),
{
    let filter = OrError { wanted };
    lemma_first_accepted_is_accepted(line::read_lines(open_line, bytes).lines, &filter);
}

/// The first accepted message is accepted.
proof fn lemma_first_accepted_is_accepted<F: LineFilter>(lines: Seq<Seq<u8>>, filter: &F)
    ensures
        first_accepted(lines, filter) matches Some(c) ==> filter.accepts(c),
    decreases lines.len(),
{
    if lines.len() > 0 {
        lemma_first_accepted_is_accepted(lines.drop_last(), filter);
    }
}

// ---------------------------------------------------------------------------
// Sending again
// ---------------------------------------------------------------------------
/// Whether an outcome settles the matter: a reply, or an error that the device
/// reported. Sending a rejected command again won't change the answer.
pub open spec fn is_definitive(o: Outcome) -> bool {
    match o {
        Ok(_) => true,
        Err(e) => "device error"@.is_prefix_of(e),
    }
}

/// The meaning of every error reply counts as an error that the device reported.
pub proof fn law_device_error_is_definitive(line: Seq<char>)
    ensures
        is_definitive(Err(proto::vnerr_text(line))),
{
    reveal_strlit("device error");
    reveal_strlit("device error 0x");
    reveal_strlit("device error: ");
    let t = proto::vnerr_text(line);
    assert("device error"@ =~= t.subrange(0, 12));
}

/// A reply that an attempt misses and one whose checksum is wrong settle nothing;
/// every reply with the right checksum does.
pub proof fn law_only_intact_replies_are_definitive(reply: Option<Seq<char>>)
    ensures
        is_definitive(transaction(reply, not_yet())) <==> (reply matches Some(line)
            && proto::checksum_fault(line) is None),
{
    reveal_strlit("device error");
    reveal_strlit("no reply yet");
    reveal_strlit("reply missing leading '$'");
    reveal_strlit("reply missing '*' checksum delimiter");
    reveal_strlit("malformed checksum field ");
    reveal_strlit("checksum mismatch: reply says ");
    match transaction(reply, not_yet()) {
        Err(e) => {
            if reply is Some && proto::checksum_fault(reply->0) is None {
                law_device_error_is_definitive(reply->0);
            } else {
                assert(e[0] != 'd');
                assert("device error"@[0] == 'd');
                if "device error"@.is_prefix_of(e) {
                    assert(e.subrange(0, 12)[0] == e[0]);
                }
            }
        },
        Ok(_) => {},
    }
}

/// The pause between two attempts, in milliseconds.
pub const PAUSE_MS: u64 = 100;

/// How long each attempt waits for its reply, in milliseconds.
pub const WAIT_MS: u64 = 800;

/// How long a reboot command waits for its echo, in milliseconds.
pub const REBOOT_WAIT_MS: u64 = 1500;

/// What to do about a command that is sent up to a number of times.
pub enum RetryStep {
    /// Show the progress line, if there is one, and pause; then send the command
    /// and wait for its reply. Where none comes, `missing` says so.
    Send { progress: Option<String>, pause_ms: u64, wait_ms: u64, missing: &'static str },
    /// Done, with this reply or error message.
    Finish(Result<String, String>),
}

/// A `RetryStep` with its text taken by characters.
pub enum RetryStepView {
    Send { progress: Option<Seq<char>>, pause_ms: u64, wait_ms: u64, missing: Seq<char> },
    Finish(Outcome),
}

impl View for RetryStep {
    type V = RetryStepView;

    open spec fn view(&self) -> RetryStepView {
        match *self {
            RetryStep::Send { progress, pause_ms, wait_ms, missing } => RetryStepView::Send {
                progress: opt_text(progress),
                pause_ms,
                wait_ms,
                missing: missing@,
            },
            RetryStep::Finish(r) => RetryStepView::Finish(outcome(r)),
        }
    }
}

/// The message when every attempt has failed.
pub open spec fn exhausted(missing: Seq<char>, attempts: nat, last: Seq<char>) -> Seq<char> {
    missing + " (after "@ + number::decimal(attempts) + " attempts; last: "@ + last + ")"@
}

/// The progress line between two attempts.
pub open spec fn progress_line(done: nat, attempts: nat) -> Seq<char> {
    "  attempt "@ + number::decimal(done) + "/"@ + number::decimal(attempts)
        + ": no response yet, retrying..."@
}

/// What a single attempt comes to without a reply.
pub open spec fn not_yet() -> Seq<char> {
    "no reply yet"@
}

/// Sends the command for the first time, or again after a progress line and a
/// pause.
pub open spec fn sending(progress: Option<Seq<char>>) -> RetryStepView {
    RetryStepView::Send {
        progress,
        pause_ms: if progress is Some {
            PAUSE_MS
        } else {
            0
        },
        wait_ms: WAIT_MS,
        missing: not_yet(),
    }
}

/// What to do once `done` of `attempts` have been made, the latest with the
/// outcome `last`.
pub open spec fn retry_step(
    attempts: nat,
    done: nat,
    last: Option<Outcome>,
    missing: Seq<char>,
) -> RetryStepView {
    match last {
        None => if attempts == 0 {
            RetryStepView::Finish(Err(exhausted(missing, attempts, Seq::empty())))
        } else {
            sending(None)
        },
        Some(o) => if is_definitive(o) {
            RetryStepView::Finish(o)
        } else if done < attempts {
            sending(Some(progress_line(done, attempts)))
        } else {
            RetryStepView::Finish(Err(exhausted(missing, attempts, o->Err_0)))
        },
    }
}

/// The view of an optional outcome.
pub open spec fn opt_outcome(o: Option<Result<String, String>>) -> Option<Outcome> {
    match o {
        Some(r) => Some(outcome(r)),
        None => None,
    }
}

fn exhausted_message(missing: &str, attempts: u32, last: &str) -> (r: String)
    ensures
        r@ == exhausted(missing@, attempts as nat, last@),
{
    let n = decimal_text(attempts as u64);
    let mut s = concat3(missing, " (after ", n.as_str());
    s.append(" attempts; last: ");
    s.append(last);
    s.append(")");
    s
}

/// Like `transact`, but the command is sent up to `attempts` times: says what to
/// do once `done` attempts have been made, the latest with the outcome `last`.
///
/// A fresh open (especially at high baud) can drop the first query or its reply
/// while the USB-serial chip locks its divisor and open-time line noise drains,
/// so a single shot is unreliable. A device `$VNERR` ends it at once.
pub fn transact_retry(
    attempts: u32,
    done: u32,
    last: Option<Result<String, String>>,
    missing: &str,
) -> (r: RetryStep)
    ensures
        r@ == retry_step(attempts as nat, done as nat, opt_outcome(last), missing@),
{
    match last {
        None => if attempts == 0 {
            proof {
                reveal_strlit("");
            }
            assert(""@ =~= Seq::<char>::empty());
            RetryStep::Finish(Err(exhausted_message(missing, attempts, "")))
        } else {
            RetryStep::Send {
                progress: None,
                pause_ms: 0,
                wait_ms: WAIT_MS,
                missing: "no reply yet",
            }
        },
        Some(Ok(reply)) => RetryStep::Finish(Ok(reply)),
        Some(Err(e)) => {
            if starts_with(e.as_str(), "device error") {
                return RetryStep::Finish(Err(e));
            }
            if done < attempts {
                let d = decimal_text(done as u64);
                let n = decimal_text(attempts as u64);
                let mut s = concat3("  attempt ", d.as_str(), "/");
                s.append(n.as_str());
                s.append(": no response yet, retrying...");
                return RetryStep::Send {
                    progress: Some(s),
                    pause_ms: PAUSE_MS,
                    wait_ms: WAIT_MS,
                    missing: "no reply yet",
                };
            }
            RetryStep::Finish(Err(exhausted_message(missing, attempts, e.as_str())))
        },
    }
}

/// Plays `transact_retry` against the outcomes that the attempts will have:
/// how many attempts it makes and what it comes to, once it is done.
pub open spec fn retried(
    attempts: nat,
    done: nat,
    last: Option<Outcome>,
    outcomes: Seq<Outcome>,
    missing: Seq<char>,
) -> Option<(nat, Outcome)>
    decreases outcomes.len(),
{
    match retry_step(attempts, done, last, missing) {
        RetryStepView::Finish(o) => Some((done, o)),
        RetryStepView::Send { progress, pause_ms, wait_ms, missing: text } => if outcomes.len() == 0 {
            None
        } else {
            retried(attempts, done + 1, Some(outcomes[0]), outcomes.skip(1), missing)
        },
    }
}

/// The first `k` outcomes settle nothing.
proof fn lemma_retried_upto(
    attempts: nat,
    done: nat,
    last: Option<Outcome>,
    outcomes: Seq<Outcome>,
    missing: Seq<char>,
    k: nat,
)
    requires
        done + k < attempts,
        k < outcomes.len(),
        last is None ==> done == 0,
        last matches Some(o) ==> !is_definitive(o),
        forall|i: int| 0 <= i < k ==> !is_definitive(#[trigger] outcomes[i]),
    ensures
        retried(attempts, done, last, outcomes, missing) == retried(
            attempts,
            done + k + 1,
            Some(outcomes[k as int]),
            outcomes.skip(k as int + 1),
            missing,
        ),
    decreases k,
{
    if k > 0 {
        let more = outcomes.skip(1);
        assert forall|i: int| 0 <= i < k - 1 implies !is_definitive(#[trigger] more[i]) by {
            assert(more[i] == outcomes[i + 1]);
        }
        assert(!is_definitive(outcomes[0]));
        lemma_retried_upto(
            attempts,
            done + 1,
            Some(outcomes[0]),
            more,
            missing,
            (k - 1) as nat,
        );
        assert(more[k - 1] == outcomes[k as int]);
        assert(more.skip(k as int) =~= outcomes.skip(k as int + 1));
    } else {
        assert(outcomes.skip(1) =~= outcomes.skip(k as int + 1));
    }
}

/// The first reply, or error that the device reports, within the allowed number
/// of attempts is returned at once and nothing is sent after it.
pub proof fn law_retry_stops_at_an_answer(
    attempts: nat,
    outcomes: Seq<Outcome>,
    missing: Seq<char>,
    k: nat,
)
    requires
        k < attempts,
        k < outcomes.len(),
        is_definitive(outcomes[k as int]),
        forall|i: int| 0 <= i < k ==> !is_definitive(#[trigger] outcomes[i]),
    ensures
        retried(attempts, 0, None, outcomes, missing) == Some((k + 1, outcomes[k as int])),
{
    lemma_retried_upto(attempts, 0, None, outcomes, missing, k);
}

/// Without an answer the command is sent exactly the allowed number of times, and
/// the error names that number and what went wrong last.
pub proof fn law_retry_gives_up(attempts: nat, outcomes: Seq<Outcome>, missing: Seq<char>)
    requires
        attempts <= outcomes.len(),
        forall|i: int| 0 <= i < attempts ==> !is_definitive(#[trigger] outcomes[i]),
    ensures
        retried(attempts, 0, None, outcomes, missing) == Some(
            (
                attempts,
                Err::<Seq<char>, Seq<char>>(
                    exhausted(
                        missing,
                        attempts,
                        if attempts == 0 {
                            Seq::empty()
                        } else {
                            outcomes[attempts - 1]->Err_0
                        },
                    ),
                ),
            ),
        ),
{
    if attempts > 0 {
        assert(!is_definitive(outcomes[attempts - 1]));
        lemma_retried_upto(attempts, 0, None, outcomes, missing, (attempts - 1) as nat);
    }
}

// ---------------------------------------------------------------------------
// Reboots
// ---------------------------------------------------------------------------
/// What the reply to a reboot command comes to: the line to show, or the error.
pub open spec fn reboot_outcome(reply: Option<Seq<char>>) -> Outcome {
    match reply {
        Some(line) => if is_vnerr(line) {
            Err(proto::vnerr_text(line))
        } else {
            Ok("RX: "@ + line)
        },
        None => Ok("(no echo — device likely rebooted before replying, which is normal)"@),
    }
}

/// Judges the reply to a command that causes the device to reboot ($VNRST /
/// $VNRFS) and gives the line to show. The echo may or may not arrive before the
/// reset, so a missing reply is NOT an error; only a `$VNERR` (e.g. unauthorized)
/// is surfaced.
pub fn send_reboot_command(reply: Option<String>) -> (r: Result<String, String>)
    ensures
        outcome(r) == reboot_outcome(opt_text(reply)),
{
    match reply {
        Some(line) => if starts_with(line.as_str(), "$VNERR") {
            Err(vnerr_message(line.as_str()))
        } else {
            Ok(concat2("RX: ", line.as_str()))
        },
        None => Ok(
            "(no echo — device likely rebooted before replying, which is normal)".to_string(),
        ),
    }
}


// ---------------------------------------------------------------------------
// Laws
// ---------------------------------------------------------------------------
/// A command that waits for a rate takes every reply and every echo of register 7
/// that holds one, and one that waits for a preset those of register 6; neither
/// takes an async message or a reply of the other register.
pub proof fn law_replies_are_told_apart(hz: u32, preset: u8, line: Seq<char>)
    ensures
        ({
            let rate = number::decimal(hz as nat);
            let kind = number::decimal(preset as nat);
            let read_rate = proto::framed("VNRRG,07,"@ + rate);
            let wrote_rate = proto::framed("VNWRG,07,"@ + rate);
            let read_preset = proto::framed("VNRRG,06,"@ + kind);
            let wrote_preset = proto::framed("VNWRG,06,"@ + kind);
            &&& accepted_by(AcceptView::Rate, read_rate)
            &&& accepted_by(AcceptView::Rate, wrote_rate)
            &&& accepted_by(AcceptView::Preset, read_preset)
            &&& accepted_by(AcceptView::Preset, wrote_preset)
            &&& !accepted_by(AcceptView::Preset, read_rate)
            &&& !accepted_by(AcceptView::Preset, wrote_rate)
            &&& !accepted_by(AcceptView::Rate, read_preset)
            &&& !accepted_by(AcceptView::Rate, wrote_preset)
        }),
        line::is_async(line) ==> !accepted_by(AcceptView::Rate, line) && !accepted_by(
            AcceptView::Preset,
            line,
        ),
{
    proto::law_reg07_reads_back(hz as nat);
    proto::law_reg06_reads_back(preset as nat);
    let rate = number::decimal(hz as nat);
    let kind = number::decimal(preset as nat);
    proto::law_reply_is_of_one_register(proto::framed("VNRRG,07,"@ + rate));
    proto::law_reply_is_of_one_register(proto::framed("VNWRG,07,"@ + rate));
    proto::law_reply_is_of_one_register(proto::framed("VNRRG,06,"@ + kind));
    proto::law_reply_is_of_one_register(proto::framed("VNWRG,06,"@ + kind));
    if line::is_async(line) {
        line::law_async_is_no_reply(line);
    }
}

/// A command that waits for a text in front takes exactly the lines that begin with
/// it, and every command also hears an error reply.
pub proof fn law_prefix_and_errors_are_heard(p: Seq<char>, rest: Seq<char>, wanted: &Accept)
    ensures
        accepted_by(AcceptView::Prefix(p), p + rest),
        rest.len() < p.len() ==> !accepted_by(AcceptView::Prefix(p), rest),
        rest.len() >= p.len() && rest.take(p.len() as int) != p ==> !accepted_by(
            AcceptView::Prefix(p),
            rest,
        ),
        (OrError { wanted }).accepts("$VNERR"@ + rest),
        (OrError { wanted }).accepts(rest) ==> accepted_by(wanted@, rest) || is_vnerr(rest),
        accepted_by(wanted@, rest) ==> (OrError { wanted }).accepts(rest),
{
    assert(p =~= (p + rest).subrange(0, p.len() as int));
    assert("$VNERR"@ =~= ("$VNERR"@ + rest).subrange(0, "$VNERR"@.len() as int));
    if p.is_prefix_of(rest) {
        assert(rest.take(p.len() as int) =~= p);
    }
}

/// The reply is the message of the earliest line that the filter takes.
pub proof fn law_reply_is_the_earliest<F: LineFilter>(lines: Seq<Seq<u8>>, filter: &F)
    ensures
        match first_accepted(lines, filter) {
            Some(c) => exists|k: int|
                0 <= k < lines.len() && c == line::candidate(#[trigger] lines[k]) && filter.accepts(
                    c,
                ) && (forall|j: int|
                    0 <= j < k ==> !filter.accepts(line::candidate(#[trigger] lines[j]))),
            None => forall|j: int|
                0 <= j < lines.len() ==> !filter.accepts(line::candidate(#[trigger] lines[j])),
        },
    decreases lines.len(),
{
    if lines.len() > 0 {
        let most = lines.drop_last();
        let n = most.len() as int;
        law_reply_is_the_earliest(most, filter);
        match first_accepted(most, filter) {
            Some(c) => {
                let k = choose|k: int|
                    0 <= k < most.len() && c == line::candidate(#[trigger] most[k])
                        && filter.accepts(c) && (forall|j: int|
                        0 <= j < k ==> !filter.accepts(line::candidate(#[trigger] most[j])));
                assert(lines[k] == most[k]);
                assert forall|j: int| 0 <= j < k implies !filter.accepts(
                    line::candidate(#[trigger] lines[j]),
                ) by {
                    assert(lines[j] == most[j]);
                }
            },
            None => {
                assert forall|j: int| 0 <= j < n implies !filter.accepts(
                    line::candidate(#[trigger] lines[j]),
                ) by {
                    assert(lines[j] == most[j]);
                }
                assert(lines[n] == lines.last());
            },
        }
    }
}

/// A transaction succeeds exactly with a reply whose checksum is right and that is
/// no error, and hands on that reply as it came; without a reply the error is the
/// one that was given for that.
pub proof fn law_transaction_hands_on_the_reply(reply: Option<Seq<char>>, missing: Seq<char>)
    ensures
        transaction(reply, missing) is Ok <==> (reply matches Some(line) && proto::checksum_fault(
            line,
        ) is None && !"$VNERR"@.is_prefix_of(line)),
        transaction(reply, missing) matches Ok(line) ==> reply == Some(line),
        reply is None ==> transaction(reply, missing) == Err::<Seq<char>, Seq<char>>(missing),
        reply matches Some(line) ==> (proto::checksum_verdict(line) matches Err(fault)
            ==> transaction(reply, missing) == Err::<Seq<char>, Seq<char>>(fault)),
{
}

/// A command is sent at once, waits 800 ms for its reply, and is sent again after a
/// pause of 100 ms with a line that names the attempt; when none is left, the error
/// names what was missing, the number of attempts and the last error.
pub proof fn law_retries_are_announced(
    attempts: nat,
    done: nat,
    missing: Seq<char>,
    reply: Seq<char>,
    e: Seq<char>,
)
    ensures
        attempts > 0 ==> retry_step(attempts, 0, None, missing) == (RetryStepView::Send {
            progress: None,
            pause_ms: 0,
            wait_ms: 800,
            missing: "no reply yet"@,
        }),
        retry_step(attempts, done, Some(Ok(reply)), missing) == RetryStepView::Finish(Ok(reply)),
        "device error"@.is_prefix_of(e) ==> retry_step(attempts, done, Some(Err(e)), missing)
            == RetryStepView::Finish(Err(e)),
        !"device error"@.is_prefix_of(e) && done < attempts ==> retry_step(
            attempts,
            done,
            Some(Err(e)),
            missing,
        ) == (RetryStepView::Send {
            progress: Some(
                "  attempt "@ + number::decimal(done) + "/"@ + number::decimal(attempts)
                    + ": no response yet, retrying..."@,
            ),
            pause_ms: 100,
            wait_ms: 800,
            missing: "no reply yet"@,
        }),
        !"device error"@.is_prefix_of(e) && done >= attempts ==> retry_step(
            attempts,
            done,
            Some(Err(e)),
            missing,
        ) == RetryStepView::Finish(
            Err(
                missing + " (after "@ + number::decimal(attempts) + " attempts; last: "@ + e + ")"@,
            ),
        ),
{
}

/// A reboot fails only where the device says so: a missing echo is as good as one
/// that is shown.
pub proof fn law_reboot_fails_only_by_an_error(reply: Option<Seq<char>>)
    ensures
        reboot_outcome(reply) is Err <==> (reply matches Some(line) && "$VNERR"@.is_prefix_of(
            line,
        )),
        reply matches Some(line) ==> reboot_outcome(reply) == if "$VNERR"@.is_prefix_of(line) {
            Err::<Seq<char>, Seq<char>>(proto::vnerr_text(line))
        } else {
            Ok::<Seq<char>, Seq<char>>("RX: "@ + line)
        },
        reply is None ==> reboot_outcome(reply) == Ok::<Seq<char>, Seq<char>>(
            "(no echo — device likely rebooted before replying, which is normal)"@,
        ),
{
}

/// What the laws say of a wanted reply holds of the one that is waited for.
pub proof fn law_wanted_replies_are_as_stated(a: Accept, line: Seq<char>)
    ensures
        a@ is Rate <==> a is Rate,
        a@ is Preset <==> a is Preset,
        a@ matches AcceptView::Prefix(p) ==> (a matches Accept::Prefix(q) && q@ == p),
        a.accepts(line) <==> accepted_by(a@, line),
{
}

} // verus!
