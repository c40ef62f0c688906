//! Lines off the wire.
//!
//! The device's ASCII lines end in CRLF. They can arrive with other bytes in
//! front, such as binary frames still streaming, or not at all, as with a baud
//! mismatch: so carriage returns are dropped, a line is cut at its last `$`, and
//! a runaway line is discarded.
use crate::frame::cut;
use crate::number;
use crate::proto;
use crate::proto::find_checksum_fault;
use crate::text;
use crate::text::{starts_with, trimmed};
use crate::unicode;
use crate::unicode::decode;
use vstd::prelude::*;
use vstd::string::*;
use vstd::utf8;

verus! {

/// A line that grows past this many bytes is discarded.
pub const LINE_LIMIT: usize = 1024;

/// What reading bytes into lines yields.
pub struct LineScan {
    /// The completed lines, without their line ends.
    pub lines: Seq<Seq<u8>>,
    /// The line in progress.
    pub open_line: Seq<u8>,
}

/// Reads one more byte. A line feed completes the line in progress, a carriage
/// return is dropped, and a byte too many discards what there is of the line.
pub open spec fn read_byte(s: LineScan, b: u8) -> LineScan {
    if b == 10 {
        LineScan { lines: s.lines.push(s.open_line), open_line: Seq::empty() }
    } else if b == 13 {
        s
    } else if s.open_line.len() >= LINE_LIMIT {
        LineScan { lines: s.lines, open_line: Seq::empty() }
    } else {
        LineScan { lines: s.lines, open_line: s.open_line.push(b) }
    }
}

/// Reads `bytes`, starting with `line` in progress.
pub open spec fn read_lines(line: Seq<u8>, bytes: Seq<u8>) -> LineScan
    decreases bytes.len(),
{
    if bytes.len() == 0 {
        LineScan { lines: Seq::empty(), open_line: line }
    } else {
        read_byte(read_lines(line, bytes.drop_last()), bytes.last())
    }
}

/// Reading `a` and then `b` completes the lines that reading `a + b` at once
/// completes.
pub proof fn law_lines_in_pieces(line: Seq<u8>, a: Seq<u8>, b: Seq<u8>)
    ensures
        read_lines(line, a + b).lines == read_lines(line, a).lines + read_lines(
            read_lines(line, a).open_line,
            b,
        ).lines,
        read_lines(line, a + b).open_line == read_lines(
            read_lines(line, a).open_line,
            b,
        ).open_line,
    decreases b.len(),
{
    let m = read_lines(line, a).open_line;
    if b.len() == 0 {
        assert(a + b =~= a);
        assert(read_lines(line, a).lines + read_lines(m, b).lines =~= read_lines(line, a).lines);
    } else {
        law_lines_in_pieces(line, a, b.drop_last());
        assert((a + b).drop_last() =~= a + b.drop_last());
        assert((a + b).last() == b.last());
        assert(read_lines(line, a + b).lines =~= read_lines(line, a).lines + read_lines(
            m,
            b,
        ).lines);
    }
}

/// Neither a line in progress nor a completed one is longer than the limit, and
/// at most one line is completed per byte.
pub proof fn law_open_line_is_bounded(line: Seq<u8>, bytes: Seq<u8>)
    requires
        line.len() <= LINE_LIMIT,
    ensures
        read_lines(line, bytes).open_line.len() <= LINE_LIMIT,
        read_lines(line, bytes).lines.len() <= bytes.len(),
        forall|i: int|
            0 <= i < read_lines(line, bytes).lines.len()
                ==> (#[trigger] read_lines(line, bytes).lines[i]).len() <= LINE_LIMIT,
    decreases bytes.len(),
{
    if bytes.len() > 0 {
        law_open_line_is_bounded(line, bytes.drop_last());
    }
}

/// Bytes without a line end that fit the limit stay in progress as they are.
pub proof fn lemma_plain_bytes(line: Seq<u8>, bytes: Seq<u8>)
    requires
        line.len() + bytes.len() <= LINE_LIMIT,
        forall|i: int| 0 <= i < bytes.len() ==> #[trigger] bytes[i] != 10 && bytes[i] != 13,
    ensures
        read_lines(line, bytes) == (LineScan { lines: Seq::empty(), open_line: line + bytes }),
    decreases bytes.len(),
{
    if bytes.len() == 0 {
        assert(line + bytes =~= line);
    } else {
        lemma_plain_bytes(line, bytes.drop_last());
        assert(line + bytes =~= (line + bytes.drop_last()).push(bytes.last()));
    }
}

/// Reads one more byte into the line in progress; `true` when a line feed
/// completed it, and then the line is left for the caller to use and clear.
pub fn push_byte(line: &mut Vec<u8>, b: u8) -> (r: bool)
    ensures
        r == (b == 10),
        r ==> final(line)@ == old(line)@,
        !r ==> final(line)@ == read_byte(
            LineScan { lines: Seq::empty(), open_line: old(line)@ },
            b,
        ).open_line,
{
    if b == 10 {
        return true;
    }
    if b != 13 {
        line.push(b);
        if line.len() > LINE_LIMIT {
            // Drop a runaway (likely garbage) line.
            line.clear();
        }
    }
    false
}

/// The bytes of a line from its last `$` on, or all of them.
pub open spec fn from_last_start(raw: Seq<u8>) -> Seq<u8> {
    match text::rfind(raw, 36u8) {
        Some(i) => raw.skip(i),
        None => raw,
    }
}

/// The message that a line carries: an ASCII message starts at the last `$`; it
/// is decoded, and white space around it is dropped.
pub open spec fn candidate(raw: Seq<u8>) -> Seq<char> {
    text::trim(unicode::decoded(from_last_start(raw)))
}

/// The message that a line carries. A `$` byte is a character of its own in
/// whatever bytes it stands, so decoding can start there.
pub fn candidate_of(raw: &[u8]) -> (r: String)
    ensures
        r@ == candidate(raw@),
{
    let mut k: usize = raw.len();
    while k > 0
        invariant
            k <= raw.len(),
            forall|j: int| k <= j < raw.len() ==> raw@[j] != 36,
        decreases k,
    {
        if raw[k - 1] == 36 {
            proof {
                text::lemma_rfind_at(raw@, 36u8, k - 1);
            }
            let tail = cut(raw, k - 1, raw.len());
            assert(tail@ =~= raw@.skip(k - 1));
            let t = decode(tail.as_slice());
            return trimmed(t.as_str()).to_string();
        }
        k = k - 1;
    }
    proof {
        text::lemma_rfind(raw@, 36u8);
    }
    let t = decode(raw);
    trimmed(t.as_str()).to_string()
}

/// Whether `line` is an async data message: a `$VN...` line that isn't a command
/// echo or error, with a valid checksum.
pub open spec fn is_async(line: Seq<char>) -> bool {
    &&& "$VN"@.is_prefix_of(line)
    &&& !"$VNRRG"@.is_prefix_of(line)
    &&& !"$VNWRG"@.is_prefix_of(line)
    &&& !"$VNWNV"@.is_prefix_of(line)
    &&& !"$VNRST"@.is_prefix_of(line)
    &&& !"$VNRFS"@.is_prefix_of(line)
    &&& !"$VNERR"@.is_prefix_of(line)
    &&& proto::checksum_fault(line) is None
}

/// True if `line` is an async data message (a `$VN...` line that isn't a command
/// echo or error) with a valid checksum.
pub fn is_async_line(line: &str) -> (r: bool)
    ensures
        r == is_async(line@),
{
    starts_with(line, "$VN") && !starts_with(line, "$VNRRG") && !starts_with(line, "$VNWRG")
        && !starts_with(line, "$VNWNV") && !starts_with(line, "$VNRST") && !starts_with(
        line,
        "$VNRFS",
    ) && !starts_with(line, "$VNERR") && find_checksum_fault(line).is_none()
}

// ---------------------------------------------------------------------------
// Laws of messages
// ---------------------------------------------------------------------------
/// A framed payload starts with `$` and a text without `*` exactly when the payload
/// starts with that text.
proof fn lemma_dollar_prefix(p: Seq<char>, short: Seq<char>, long: Seq<char>)
    requires
        long == seq!['$'] + short,
        forall|i: int| 0 <= i < short.len() ==> #[trigger] short[i] != '*',
    ensures
        long.is_prefix_of(proto::framed(p)) <==> short.is_prefix_of(p),
{
    let rest = p + seq!['*'] + number::hex2(proto::checksum_of(p));
    let line = proto::framed(p);
    assert(line =~= seq!['$'] + rest);
    if long.is_prefix_of(line) {
        assert forall|i: int| 0 <= i < short.len() implies short[i] == rest[i] by {
            assert(long[i + 1] == line.subrange(0, long.len() as int)[i + 1]);
        }
        if short.len() > p.len() {
            assert(short[p.len() as int] == rest[p.len() as int]);
        }
        assert forall|i: int| 0 <= i < short.len() implies short[i] == p[i] by {
            assert(rest[i] == p[i]);
        }
        assert(short =~= p.subrange(0, short.len() as int));
    }
    if short.is_prefix_of(p) {
        assert forall|i: int| 0 <= i < long.len() implies long[i] == line[i] by {
            if i > 0 {
                assert(short[i - 1] == p.subrange(0, short.len() as int)[i - 1]);
            }
        }
        assert(long =~= line.subrange(0, long.len() as int));
    }
}

/// Whether a payload is that of a command, and so of its echo, or of an error: a
/// read or written register, saving to flash, a reset, a factory reset, an error.
pub open spec fn is_command_or_error(p: Seq<char>) -> bool {
    ||| "VNRRG"@.is_prefix_of(p)
    ||| "VNWRG"@.is_prefix_of(p)
    ||| "VNWNV"@.is_prefix_of(p)
    ||| "VNRST"@.is_prefix_of(p)
    ||| "VNRFS"@.is_prefix_of(p)
    ||| "VNERR"@.is_prefix_of(p)
}

/// A framed payload counts as an async message exactly when it is a data message:
/// `VN...`, and neither a command echo nor an error.
pub proof fn law_framed_message_is_async(p: Seq<char>)
    ensures
        is_async(proto::framed(p)) <==> "VN"@.is_prefix_of(p) && !is_command_or_error(p),
{
    reveal_strlit("VN");
    reveal_strlit("$VN");
    reveal_strlit("VNRRG");
    reveal_strlit("$VNRRG");
    reveal_strlit("VNWRG");
    reveal_strlit("$VNWRG");
    reveal_strlit("VNWNV");
    reveal_strlit("$VNWNV");
    reveal_strlit("VNRST");
    reveal_strlit("$VNRST");
    reveal_strlit("VNRFS");
    reveal_strlit("$VNRFS");
    reveal_strlit("VNERR");
    reveal_strlit("$VNERR");
    assert("$VN"@ =~= seq!['$'] + "VN"@);
    assert("$VNRRG"@ =~= seq!['$'] + "VNRRG"@);
    assert("$VNWRG"@ =~= seq!['$'] + "VNWRG"@);
    assert("$VNWNV"@ =~= seq!['$'] + "VNWNV"@);
    assert("$VNRST"@ =~= seq!['$'] + "VNRST"@);
    assert("$VNRFS"@ =~= seq!['$'] + "VNRFS"@);
    assert("$VNERR"@ =~= seq!['$'] + "VNERR"@);
    lemma_dollar_prefix(p, "VN"@, "$VN"@);
    lemma_dollar_prefix(p, "VNRRG"@, "$VNRRG"@);
    lemma_dollar_prefix(p, "VNWRG"@, "$VNWRG"@);
    lemma_dollar_prefix(p, "VNWNV"@, "$VNWNV"@);
    lemma_dollar_prefix(p, "VNRST"@, "$VNRST"@);
    lemma_dollar_prefix(p, "VNRFS"@, "$VNRFS"@);
    lemma_dollar_prefix(p, "VNERR"@, "$VNERR"@);
    proto::law_built_command_verifies(p);
}

/// The bytes of a framed ASCII payload: one per character, none of them a line
/// end, and `$` only at the start.
pub proof fn lemma_framed_bytes(payload: Seq<char>)
    requires
        utf8::is_ascii_chars(payload),
        !payload.contains('$'),
        !payload.contains('\r'),
        !payload.contains('\n'),
    ensures
        ({
            let b = utf8::encode_utf8(proto::framed(payload));
            &&& b.len() == payload.len() + 4
            &&& b[0] == 36
            &&& forall|i: int| 0 <= i < b.len() ==> #[trigger] b[i] != 10 && b[i] != 13
            &&& forall|i: int| 0 < i < b.len() ==> #[trigger] b[i] != 36
        }),
{
    let line = proto::framed(payload);
    let b = utf8::encode_utf8(line);
    let sum = number::hex2(proto::checksum_of(payload));
    assert forall|i: int| 0 <= i < line.len() implies '\0' <= #[trigger] line[i] <= '\u{7f}' && (i
        > 0 ==> line[i] != '$') && line[i] != '\r' && line[i] != '\n' by {
        if 0 < i <= payload.len() {
            assert(line[i] == payload[i - 1]);
            assert(payload.contains(payload[i - 1]));
        } else if i > payload.len() + 1 {
            assert(line[i] == sum[i - payload.len() - 2]);
        }
    }
    utf8::is_ascii_chars_encode_utf8(line);
    assert(line[0] == '$');
    assert forall|i: int| 0 <= i < b.len() implies #[trigger] b[i] != 10 && b[i] != 13 && (i > 0
        ==> b[i] != 36) by {
        assert(line[i] as u8 == b[i]);
    }
    assert(line[0] as u8 == b[0]);
}

/// An ASCII message that follows other bytes on its line, such as binary frames
/// still streaming, is recovered whole.
pub proof fn law_message_after_junk(junk: Seq<u8>, payload: Seq<char>)
    requires
        utf8::is_ascii_chars(payload),
        !payload.contains('$'),
        !payload.contains('\r'),
        !payload.contains('\n'),
    ensures
        candidate(junk + utf8::encode_utf8(proto::framed(payload))) == proto::framed(payload),
{
    let line = proto::framed(payload);
    let b = utf8::encode_utf8(line);
    let raw = junk + b;
    let n = junk.len() as int;
    lemma_framed_bytes(payload);
    assert forall|j: int| n < j < raw.len() implies raw[j] != 36 by {
        assert(raw[j] == b[j - n]);
    }
    assert(raw[n] == b[0]);
    text::lemma_rfind_at(raw, 36u8, n);
    assert(raw.skip(n) =~= b);
    utf8::encode_utf8_valid_utf8(line);
    utf8::encode_utf8_decode_utf8(line);
    proto::lemma_framed_is_trimmed(payload);
}

/// A message and its line end, as they stand on the wire after other bytes.
pub open spec fn wire_line(junk: Seq<u8>, payload: Seq<char>) -> Seq<u8> {
    junk + utf8::encode_utf8(proto::framed(payload)) + seq![13u8, 10u8]
}

/// Whether a payload can be framed as one ASCII line, after `junk` on the same
/// line, within the limit.
pub open spec fn fits_a_line(junk: Seq<u8>, payload: Seq<char>) -> bool {
    &&& utf8::is_ascii_chars(payload)
    &&& !payload.contains('$')
    &&& !payload.contains('\r')
    &&& !payload.contains('\n')
    &&& forall|i: int| 0 <= i < junk.len() ==> #[trigger] junk[i] != 10 && junk[i] != 13
    &&& junk.len() + payload.len() + 4 <= LINE_LIMIT
}

/// Such a line is read as one line that carries the message.
pub proof fn law_wire_line_is_one_message(junk: Seq<u8>, payload: Seq<char>)
    requires
        fits_a_line(junk, payload),
    ensures
        ({
            let read = read_lines(Seq::empty(), wire_line(junk, payload));
            &&& read.lines.len() == 1
            &&& candidate(read.lines[0]) == proto::framed(payload)
            &&& read.open_line.len() == 0
        }),
{
    let none = Seq::<u8>::empty();
    let raw = junk + utf8::encode_utf8(proto::framed(payload));
    let all = wire_line(junk, payload);
    let cr = raw + seq![13u8];
    lemma_framed_bytes(payload);
    law_message_after_junk(junk, payload);
    assert forall|i: int| 0 <= i < raw.len() implies #[trigger] raw[i] != 10 && raw[i] != 13 by {
        if i >= junk.len() {
            assert(raw[i] == utf8::encode_utf8(proto::framed(payload))[i - junk.len()]);
        }
    }
    lemma_plain_bytes(none, raw);
    assert(none + raw =~= raw);
    assert(all.drop_last() =~= cr);
    assert(cr.drop_last() =~= raw);
    assert(read_lines(none, cr) == read_lines(none, raw));
    assert(read_lines(none, all).lines =~= seq![raw]);
}


/// Each byte does one thing to the line in progress: a line feed completes it, a
/// carriage return is ignored, and any other byte is added to it, unless the line
/// has 1024 bytes already: then it is dropped.
pub proof fn law_each_byte_of_a_line(line: Seq<u8>, b: u8)
    ensures
        ({
            let r = read_lines(line, seq![b]);
            &&& b == 10 ==> r.lines == seq![line] && r.open_line.len() == 0
            &&& b != 10 ==> r.lines.len() == 0
            &&& b == 13 ==> r.open_line == line
            &&& b != 10 && b != 13 && line.len() < 1024 ==> r.open_line == line + seq![b]
            &&& b != 10 && b != 13 && line.len() >= 1024 ==> r.open_line.len() == 0
        }),
        read_lines(line, Seq::empty()) == (LineScan { lines: Seq::empty(), open_line: line }),
{
    let one = seq![b];
    assert(one.drop_last() =~= Seq::<u8>::empty());
    assert(one.last() == b);
    let r = read_lines(line, one);
    assert(read_lines(line, Seq::empty()) == (LineScan { lines: Seq::empty(), open_line: line }));
    assert(r == read_byte(LineScan { lines: Seq::empty(), open_line: line }, b));
    if b == 10 {
        assert(r.lines =~= seq![line]);
    } else if b != 13 && line.len() < 1024 {
        assert(r.open_line =~= line + seq![b]);
    }
}

/// A line's message starts at its last `$`, whatever the bytes before it; without
/// one it is the whole line. White space around it is dropped.
pub proof fn law_message_starts_at_the_last_dollar(junk: Seq<u8>, rest: Seq<u8>)
    requires
        forall|i: int| 0 <= i < rest.len() ==> #[trigger] rest[i] != 36,
    ensures
        candidate(junk + seq![36u8] + rest) == text::trim(unicode::decoded(seq![36u8] + rest)),
        candidate(rest) == text::trim(unicode::decoded(rest)),
{
    let raw = junk + seq![36u8] + rest;
    let n = junk.len() as int;
    assert forall|j: int| n < j < raw.len() implies raw[j] != 36 by {
        assert(raw[j] == rest[j - n - 1]);
    }
    text::lemma_rfind_at(raw, 36u8, n);
    assert(raw.skip(n) =~= seq![36u8] + rest);
    text::lemma_rfind(rest, 36u8);
}

/// An async message has a `$VN` in front and an intact checksum, and is no reply
/// that any command waits for.
pub proof fn law_async_is_no_reply(line: Seq<char>)
    requires
        is_async(line),
    ensures
        "$VN"@.is_prefix_of(line),
        proto::checksum_fault(line) is None,
        proto::reg06_value(line) is None,
        proto::reg07_value(line) is None,
        !"$VNERR"@.is_prefix_of(line),
{
    reveal_strlit("$VNRRG");
    reveal_strlit("$VNWRG");
    reveal_strlit("$VNRRG,06,");
    reveal_strlit("$VNWRG,06,");
    reveal_strlit("$VNRRG,07,");
    reveal_strlit("$VNWRG,07,");
    assert forall|p: Seq<char>| #[trigger] p.is_prefix_of(line) && p.len() == 10 implies p.take(6)
        =~= line.subrange(0, 6) by {
        assert(line.subrange(0, 10).take(6) =~= line.subrange(0, 6));
    }
    assert("$VNRRG,06,"@.take(6) =~= "$VNRRG"@);
    assert("$VNWRG,06,"@.take(6) =~= "$VNWRG"@);
    assert("$VNRRG,07,"@.take(6) =~= "$VNRRG"@);
    assert("$VNWRG,07,"@.take(6) =~= "$VNWRG"@);
}

} // verus!
