//! VN-100 wire-protocol primitives.
//!
//! - ASCII command framing: `checksum`, `build_command`, `verify_checksum`.
//! - Replies and errors: `parse_reg06`, `parse_reg07`, `error_description`,
//!   `vnerr_message`.
//! - The binary-output CRC: `vn_crc16`.
use crate::number;
use crate::number::{decimal_text, hex2_text, parse_hex_u8, parse_u32, parse_u8};
use crate::text;
use crate::text::{before_char, concat2, split_at_last, trimmed, without_prefix};
use crate::unicode;
use crate::unicode::quote;
use vstd::prelude::*;
use vstd::string::*;
use vstd::utf8;

verus! {

// ---------------------------------------------------------------------------
// ASCII framing
// ---------------------------------------------------------------------------
/// XOR of all bytes.
pub open spec fn xor_bytes(bytes: Seq<u8>) -> u8
    decreases bytes.len(),
{
    if bytes.len() == 0 {
        0
    } else {
        xor_bytes(bytes.drop_last()) ^ bytes.last()
    }
}

/// The checksum of a payload: XOR of the bytes of its UTF-8 form.
pub open spec fn checksum_of(payload: Seq<char>) -> u8 {
    xor_bytes(utf8::encode_utf8(payload))
}

/// The VN-100 checksum: XOR of all bytes in `payload`.
pub fn checksum(payload: &str) -> (r: u8)
    ensures
        r == checksum_of(payload@),
{
    let bytes = payload.as_bytes();
    let mut acc: u8 = 0;
    let mut i: usize = 0;
    while i < bytes.len()
        invariant
            i <= bytes.len(),
            acc == xor_bytes(bytes@.take(i as int)),
        decreases bytes.len() - i,
    {
        assert(bytes@.take(i + 1).drop_last() =~= bytes@.take(i as int));
        acc = acc ^ bytes[i];
        i = i + 1;
    }
    assert(bytes@.take(i as int) =~= bytes@);
    acc
}

/// `$<payload>*XX`: a framed payload without its line end.
pub open spec fn framed(payload: Seq<char>) -> Seq<char> {
    seq!['$'] + payload + seq!['*'] + number::hex2(checksum_of(payload))
}

/// `$<payload>*XX\r\n`: the command line for a payload.
pub open spec fn command_line(payload: Seq<char>) -> Seq<char> {
    framed(payload) + seq!['\r', '\n']
}

/// A full command line (including `$`, `*`, checksum and CRLF) from the payload
/// that sits between `$` and `*`, e.g. `"VNRRG,07"`.
pub fn build_command(payload: &str) -> (r: String)
    ensures
        r@ == command_line(payload@),
{
    let mut s = String::new();
    s.push('$');
    s.append(payload);
    s.push('*');
    let sum = hex2_text(checksum(payload));
    s.append(sum.as_str());
    s.push('\r');
    s.push('\n');
    assert(s@ =~= command_line(payload@));
    s
}

/// What is wrong with the checksum of a received line.
pub enum ChecksumFault {
    /// The line does not start with `$`.
    NoStart,
    /// There is no `*` after the `$`.
    NoDelimiter,
    /// What follows the last `*` is not a hexadecimal byte.
    Malformed { field: String },
    /// The line states another checksum than its payload has.
    Mismatch { given: u8, actual: u8 },
}

/// A `ChecksumFault` with its text taken by characters.
pub enum FaultView {
    NoStart,
    NoDelimiter,
    Malformed { field: Seq<char> },
    Mismatch { given: u8, actual: u8 },
}

impl View for ChecksumFault {
    type V = FaultView;

    open spec fn view(&self) -> FaultView {
        match *self {
            ChecksumFault::NoStart => FaultView::NoStart,
            ChecksumFault::NoDelimiter => FaultView::NoDelimiter,
            ChecksumFault::Malformed { field } => FaultView::Malformed { field: field@ },
            ChecksumFault::Mismatch { given, actual } => FaultView::Mismatch { given, actual },
        }
    }
}

/// What is wrong with the trailing `*XX` of a `$...*XX` line, if anything: the
/// checksum stands after the last `*`, in hexadecimal, white space around it
/// ignored, and covers everything between `$` and that `*`.
pub open spec fn checksum_fault(line: Seq<char>) -> Option<FaultView> {
    match text::strip_prefix(line, seq!['$']) {
        None => Some(FaultView::NoStart),
        Some(rest) => match text::rsplit_once(rest, '*') {
            None => Some(FaultView::NoDelimiter),
            Some((payload, sum)) => match number::parse_number(text::trim(sum), 16, 255) {
                None => Some(FaultView::Malformed { field: sum }),
                Some(given) => if given == checksum_of(payload) {
                    None
                } else {
                    Some(
                        FaultView::Mismatch { given: given as u8, actual: checksum_of(payload) },
                    )
                },
            },
        },
    }
}

/// The message for a checksum fault, where `shown` is how `Debug` shows a
/// malformed field.
pub open spec fn fault_text(fault: FaultView, shown: Seq<char>) -> Seq<char> {
    match fault {
        FaultView::NoStart => "reply missing leading '$'"@,
        FaultView::NoDelimiter => "reply missing '*' checksum delimiter"@,
        FaultView::Malformed { field } => "malformed checksum field "@ + shown,
        FaultView::Mismatch { given, actual } => "checksum mismatch: reply says "@ + number::hex2(
            given,
        ) + ", computed "@ + number::hex2(actual),
    }
}

/// The outcome of verifying a line: nothing, or the message for its fault.
pub open spec fn checksum_verdict(line: Seq<char>) -> Result<(), Seq<char>> {
    match checksum_fault(line) {
        None => Ok(()),
        Some(fault) => Err(
            fault_text(
                fault,
                match fault {
                    FaultView::Malformed { field } => unicode::quoted(field),
                    _ => Seq::empty(),
                },
            ),
        ),
    }
}

/// Finds what is wrong with the checksum of a received `$...*XX` line.
pub fn find_checksum_fault(line: &str) -> (r: Option<ChecksumFault>)
    ensures
        r matches Some(f) ==> checksum_fault(line@) == Some(f@),
        r is None ==> checksum_fault(line@) is None,
{
    proof {
        reveal_strlit("$");
        assert("$"@ =~= seq!['$']);
    }
    let rest = match without_prefix(line, "$") {
        Some(t) => t,
        None => return Some(ChecksumFault::NoStart),
    };
    let (payload, sum) = match split_at_last(rest, '*') {
        Some(t) => t,
        None => return Some(ChecksumFault::NoDelimiter),
    };
    let given: u8 = match parse_hex_u8(trimmed(sum)) {
        Some(n) => n,
        None => return Some(ChecksumFault::Malformed { field: sum.to_string() }),
    };
    let actual = checksum(payload);
    if given == actual {
        None
    } else {
        Some(ChecksumFault::Mismatch { given, actual })
    }
}

/// The message for a checksum fault, where `shown` is how `Debug` shows a
/// malformed field.
pub fn fault_message(fault: &ChecksumFault, shown: &str) -> (r: String)
    ensures
        r@ == fault_text(fault@, shown@),
{
    match fault {
        ChecksumFault::NoStart => "reply missing leading '$'".to_string(),
        ChecksumFault::NoDelimiter => "reply missing '*' checksum delimiter".to_string(),
        ChecksumFault::Malformed { field } => concat2("malformed checksum field ", shown),
        ChecksumFault::Mismatch { given, actual } => {
            let g = hex2_text(*given);
            let a = hex2_text(*actual);
            let mut s = concat2("checksum mismatch: reply says ", g.as_str());
            s.append(", computed ");
            s.append(a.as_str());
            s
        },
    }
}

/// Verifies the trailing `*XX` checksum of a received `$...*XX` line.
pub fn verify_checksum(line: &str) -> (r: Result<(), String>)
    ensures
        text::message(r) == checksum_verdict(line@),
{
    match find_checksum_fault(line) {
        None => Ok(()),
        Some(fault) => {
            let shown: String = match &fault {
                ChecksumFault::Malformed { field } => quote(field.as_str()),
                _ => String::new(),
            };
            Err(fault_message(&fault, shown.as_str()))
        },
    }
}

// ---------------------------------------------------------------------------
// Device errors
// ---------------------------------------------------------------------------
/// Description of a VN-100 system error code.
pub open spec fn error_text(code: u8) -> Seq<char> {
    if code == 1 {
        "hard fault"@
    } else if code == 2 {
        "serial buffer overflow"@
    } else if code == 3 {
        "invalid checksum"@
    } else if code == 4 {
        "invalid command"@
    } else if code == 5 {
        "not enough parameters"@
    } else if code == 6 {
        "too many parameters"@
    } else if code == 7 {
        "invalid parameter"@
    } else if code == 8 {
        "invalid register"@
    } else if code == 9 {
        "unauthorized access"@
    } else if code == 10 {
        "watchdog reset"@
    } else if code == 11 {
        "output buffer overflow"@
    } else if code == 12 {
        "insufficient baud rate"@
    } else if code == 255 {
        "error buffer overflow"@
    } else {
        "unknown error"@
    }
}

/// Human-readable description of a VN-100 system error code.
pub fn error_description(code: u8) -> (r: &'static str)
    ensures
        r@ == error_text(code),
{
    match code {
        1 => "hard fault",
        2 => "serial buffer overflow",
        3 => "invalid checksum",
        4 => "invalid command",
        5 => "not enough parameters",
        6 => "too many parameters",
        7 => "invalid parameter",
        8 => "invalid register",
        9 => "unauthorized access",
        10 => "watchdog reset",
        11 => "output buffer overflow",
        12 => "insufficient baud rate",
        255 => "error buffer overflow",
        _ => "unknown error",
    }
}

/// The code of a `$VNERR,<code>*XX` line: hexadecimal, white space around it
/// ignored.
pub open spec fn vnerr_code(line: Seq<char>) -> Option<int> {
    match text::strip_prefix(line, "$VNERR,"@) {
        Some(body) => number::parse_number(text::trim(text::before(body, '*')), 16, 255),
        None => None,
    }
}

/// The readable form of a `$VNERR` line.
pub open spec fn vnerr_text(line: Seq<char>) -> Seq<char> {
    match vnerr_code(line) {
        Some(n) => {
            let msg = "device error 0x"@ + number::hex2(n as u8) + " ("@ + number::decimal(n as nat)
                + "): "@ + error_text(n as u8);
            if n == 12 {
                msg
                    + " — the configured async message won't fit at this output rate over the current serial baud; raise the baud (e.g. `baud 921600`) or shorten the async message (register 6)"@
            } else {
                msg
            }
        },
        None => "device error: "@ + line,
    }
}

/// Turns a `$VNERR,<code>*XX` line into a readable message. The code is hex.
pub fn vnerr_message(line: &str) -> (r: String)
    ensures
        r@ == vnerr_text(line@),
{
    let code: Option<u8> = match without_prefix(line, "$VNERR,") {
        Some(body) => parse_hex_u8(trimmed(before_char(body, '*'))),
        None => None,
    };
    match code {
        Some(n) => {
            let h = hex2_text(n);
            let d = decimal_text(n as u64);
            let mut msg = concat2("device error 0x", h.as_str());
            msg.append(" (");
            msg.append(d.as_str());
            msg.append("): ");
            msg.append(error_description(n));
            if n == 12 {
                // By far the most likely error when setting a high output rate.
                msg.append(
                    " — the configured async message won't fit at this output rate over the current serial baud; raise the baud (e.g. `baud 921600`) or shorten the async message (register 6)",
                );
            }
            msg
        },
        None => concat2("device error: ", line),
    }
}

// ---------------------------------------------------------------------------
// Register replies
// ---------------------------------------------------------------------------
/// The first field of a `$VN(R|W)RG,<id>,<field>*XX` line, where `read` and
/// `write` are the two spellings up to the field.
pub open spec fn reply_field(line: Seq<char>, read: Seq<char>, write: Seq<char>) -> Option<
    Seq<char>,
> {
    match text::strip_prefix(line, read) {
        Some(body) => Some(text::trim(text::before(body, '*'))),
        None => match text::strip_prefix(line, write) {
            Some(body) => Some(text::trim(text::before(body, '*'))),
            None => None,
        },
    }
}

/// The rate in a register-7 reply.
pub open spec fn reg07_value(line: Seq<char>) -> Option<int> {
    match reply_field(line, "$VNRRG,07,"@, "$VNWRG,07,"@) {
        Some(f) => number::parse_number(f, 10, u32::MAX as int),
        None => None,
    }
}

/// The preset in a register-6 reply.
pub open spec fn reg06_value(line: Seq<char>) -> Option<int> {
    match reply_field(line, "$VNRRG,06,"@, "$VNWRG,06,"@) {
        Some(f) => number::parse_number(f, 10, 255),
        None => None,
    }
}

/// The first field of a `$VN(R|W)RG,<id>,<field>*XX` line.
fn field_of<'a>(line: &'a str, read: &str, write: &str) -> (r: Option<&'a str>)
    ensures
        r matches Some(f) ==> reply_field(line@, read@, write@) == Some(f@),
        r is None ==> reply_field(line@, read@, write@) is None,
{
    match without_prefix(line, read) {
        Some(body) => Some(trimmed(before_char(body, '*'))),
        None => match without_prefix(line, write) {
            Some(body) => Some(trimmed(before_char(body, '*'))),
            None => None,
        },
    }
}

/// Parses the rate out of a `$VN(R|W)RG,07,<freq>*XX` response line.
/// Returns `None` for any other (e.g. async) line.
pub fn parse_reg07(line: &str) -> (r: Option<u32>)
    ensures
        r matches Some(n) ==> reg07_value(line@) == Some(n as int),
        r is None ==> reg07_value(line@) is None,
{
    match field_of(line, "$VNRRG,07,", "$VNWRG,07,") {
        Some(f) => parse_u32(f),
        None => None,
    }
}

/// Parses the register 6 (Async Data Output Type / ADOR) value from a reply.
pub fn parse_reg06(line: &str) -> (r: Option<u8>)
    ensures
        r matches Some(n) ==> reg06_value(line@) == Some(n as int),
        r is None ==> reg06_value(line@) is None,
{
    match field_of(line, "$VNRRG,06,", "$VNWRG,06,") {
        Some(f) => parse_u8(f),
        None => None,
    }
}

// ---------------------------------------------------------------------------
// Binary-output CRC
// ---------------------------------------------------------------------------
/// One bit of CRC-CCITT long division (polynomial 0x1021, high bit first).
pub open spec fn crc_bit(crc: u16) -> u16 {
    if crc & 0x8000 != 0 {
        (crc << 1) ^ 0x1021
    } else {
        crc << 1
    }
}

/// One byte of CRC-CCITT long division.
pub open spec fn crc_byte(crc: u16, b: u8) -> u16 {
    let c = crc ^ ((b as u16) << 8);
    crc_bit(crc_bit(crc_bit(crc_bit(crc_bit(crc_bit(crc_bit(crc_bit(c))))))))
}

/// CRC-CCITT/XMODEM of `data`: initial value zero, no final inversion.
pub open spec fn crc16(data: Seq<u8>) -> u16
    decreases data.len(),
{
    if data.len() == 0 {
        0
    } else {
        crc_byte(crc16(data.drop_last()), data.last())
    }
}

/// VectorNav 16-bit CRC (CRC-CCITT/XMODEM, computed a byte at a time).
/// A valid binary packet, run from the groups byte through the trailing CRC,
/// produces 0.
pub fn vn_crc16(data: &[u8]) -> (r: u16)
    ensures
        r == crc16(data@),
{
    let mut crc: u16 = 0;
    let mut i: usize = 0;
    while i < data.len()
        invariant
            i <= data.len(),
            crc == crc16(data@.take(i as int)),
        decreases data.len() - i,
    {
        let b: u8 = data[i];
        assert(data@.take(i + 1).drop_last() =~= data@.take(i as int));
        let c0: u16 = ((crc << 8) | (crc >> 8)) ^ (b as u16);
        let c1: u16 = c0 ^ ((c0 & 0xff) >> 4);
        let c2: u16 = c1 ^ (c1 << 12);
        let c3: u16 = c2 ^ ((c2 & 0x00ff) << 5);
        proof {
            lemma_crc_step(crc, b, c0, c1, c2, c3);
        }
        crc = c3;
        i = i + 1;
    }
    assert(data@.take(i as int) =~= data@);
    crc
}

/// The byte-wise update: its four intermediate values.
spec fn is_byte_update(crc: u16, b: u8, c0: u16, c1: u16, c2: u16, c3: u16) -> bool {
    &&& c0 == ((crc << 8) | (crc >> 8)) ^ (b as u16)
    &&& c1 == c0 ^ ((c0 & 0xff) >> 4)
    &&& c2 == c1 ^ (c1 << 12)
    &&& c3 == c2 ^ ((c2 & 0x00ff) << 5)
}

/// The byte-wise update computes eight bits of long division at once.
proof fn lemma_crc_step(crc: u16, b: u8, c0: u16, c1: u16, c2: u16, c3: u16)
    requires
        is_byte_update(crc, b, c0, c1, c2, c3),
    ensures
        c3 == crc_byte(crc, b),
{
    let x0 = crc ^ ((b as u16) << 8);
    let x1 = crc_bit(x0);
    let x2 = crc_bit(x1);
    let x3 = crc_bit(x2);
    let x4 = crc_bit(x3);
    let x5 = crc_bit(x4);
    let x6 = crc_bit(x5);
    let x7 = crc_bit(x6);
    let x8 = crc_bit(x7);
    assert(c3 == x8) by (bit_vector)
        requires
            c0 == ((crc << 8) | (crc >> 8)) ^ (b as u16),
            c1 == c0 ^ ((c0 & 0xff) >> 4),
            c2 == c1 ^ (c1 << 12),
            c3 == c2 ^ ((c2 & 0x00ff) << 5),
            x0 == crc ^ ((b as u16) << 8),
            x1 == crc_bit(x0),
            x2 == crc_bit(x1),
            x3 == crc_bit(x2),
            x4 == crc_bit(x3),
            x5 == crc_bit(x4),
            x6 == crc_bit(x5),
            x7 == crc_bit(x6),
            x8 == crc_bit(x7),
    ;
}

/// Dividing a remainder's own two bytes, high byte first, leaves nothing.
proof fn lemma_crc_cancels(crc: u16)
    ensures
        crc_byte(crc_byte(crc, (crc >> 8) as u8), (crc & 0xff) as u8) == 0,
{
    let hi = (crc >> 8) as u8;
    let lo = (crc & 0xff) as u8;
    let c0 = ((crc << 8) | (crc >> 8)) ^ (hi as u16);
    let c1 = c0 ^ ((c0 & 0xff) >> 4);
    let c2 = c1 ^ (c1 << 12);
    let c3 = c2 ^ ((c2 & 0x00ff) << 5);
    let d0 = ((c3 << 8) | (c3 >> 8)) ^ (lo as u16);
    let d1 = d0 ^ ((d0 & 0xff) >> 4);
    let d2 = d1 ^ (d1 << 12);
    let d3 = d2 ^ ((d2 & 0x00ff) << 5);
    lemma_crc_step(crc, hi, c0, c1, c2, c3);
    lemma_crc_step(c3, lo, d0, d1, d2, d3);
    assert(d3 == 0) by (bit_vector)
        requires
            hi == (crc >> 8) as u8,
            lo == (crc & 0xff) as u8,
            c0 == ((crc << 8) | (crc >> 8)) ^ (hi as u16),
            c1 == c0 ^ ((c0 & 0xff) >> 4),
            c2 == c1 ^ (c1 << 12),
            c3 == c2 ^ ((c2 & 0x00ff) << 5),
            d0 == ((c3 << 8) | (c3 >> 8)) ^ (lo as u16),
            d1 == d0 ^ ((d0 & 0xff) >> 4),
            d2 == d1 ^ (d1 << 12),
            d3 == d2 ^ ((d2 & 0x00ff) << 5),
    ;
}

/// No other two bytes leave nothing.
proof fn lemma_crc_cancels_only(crc: u16, a: u8, b: u8)
    requires
        crc_byte(crc_byte(crc, a), b) == 0,
    ensures
        a == (crc >> 8) as u8,
        b == (crc & 0xff) as u8,
{
    let c0 = ((crc << 8) | (crc >> 8)) ^ (a as u16);
    let c1 = c0 ^ ((c0 & 0xff) >> 4);
    let c2 = c1 ^ (c1 << 12);
    let c3 = c2 ^ ((c2 & 0x00ff) << 5);
    let d0 = ((c3 << 8) | (c3 >> 8)) ^ (b as u16);
    let d1 = d0 ^ ((d0 & 0xff) >> 4);
    let d2 = d1 ^ (d1 << 12);
    let d3 = d2 ^ ((d2 & 0x00ff) << 5);
    lemma_crc_step(crc, a, c0, c1, c2, c3);
    lemma_crc_step(c3, b, d0, d1, d2, d3);
    assert(a == (crc >> 8) as u8 && b == (crc & 0xff) as u8) by (bit_vector)
        requires
            c0 == ((crc << 8) | (crc >> 8)) ^ (a as u16),
            c1 == c0 ^ ((c0 & 0xff) >> 4),
            c2 == c1 ^ (c1 << 12),
            c3 == c2 ^ ((c2 & 0x00ff) << 5),
            d0 == ((c3 << 8) | (c3 >> 8)) ^ (b as u16),
            d1 == d0 ^ ((d0 & 0xff) >> 4),
            d2 == d1 ^ (d1 << 12),
            d3 == d2 ^ ((d2 & 0x00ff) << 5),
            d3 == 0,
    ;
}

/// The CRC of a message and two bytes.
proof fn lemma_crc_of_two_more(data: Seq<u8>, a: u8, b: u8)
    ensures
        crc16(data + seq![a, b]) == crc_byte(crc_byte(crc16(data), a), b),
{
    let one = data + seq![a];
    let two = data + seq![a, b];
    assert(two.drop_last() =~= one);
    assert(one.drop_last() =~= data);
    assert(crc16(one) == crc_byte(crc16(data), a));
    assert(crc16(two) == crc_byte(crc16(one), b));
}

/// Appending a message's CRC, high byte first, makes the CRC of the whole zero.
pub proof fn law_crc_append_is_zero(data: Seq<u8>)
    ensures
        crc16(data + seq![(crc16(data) >> 8) as u8, (crc16(data) & 0xff) as u8]) == 0,
{
    let c = crc16(data);
    lemma_crc_of_two_more(data, (c >> 8) as u8, (c & 0xff) as u8);
    lemma_crc_cancels(c);
}

/// Two bytes after a message make the CRC of the whole zero only if they are the
/// message's CRC, high byte first.
pub proof fn law_crc_accepts_only_own_crc(data: Seq<u8>, a: u8, b: u8)
    ensures
        crc16(data + seq![a, b]) == 0 <==> a == (crc16(data) >> 8) as u8 && b == (crc16(data)
            & 0xff) as u8,
{
    let c = crc16(data);
    lemma_crc_of_two_more(data, a, b);
    lemma_crc_cancels(c);
    if crc16(data + seq![a, b]) == 0 {
        lemma_crc_cancels_only(c, a, b);
    }
}

// ---------------------------------------------------------------------------
// Laws of the framing
// ---------------------------------------------------------------------------
/// Two hexadecimal digits hold neither white space nor a delimiter.
proof fn lemma_hex2_plain(x: u8)
    ensures
        forall|i: int|
            0 <= i < 2 ==> {
                let c = #[trigger] number::hex2(x)[i];
                !text::is_space(c) && c != '*' && c != '$' && c != '\r' && c != '\n'
            },
{
}

/// A line `$<payload>*XX`, with nothing but white space after it, is accepted
/// exactly when `XX` is the checksum of the payload; otherwise the fault names
/// both sums.
pub proof fn law_checksum_accepts_only_own_sum(payload: Seq<char>, x: u8, tail: Seq<char>)
    requires
        forall|i: int| 0 <= i < tail.len() ==> text::is_space(#[trigger] tail[i]),
    ensures
        checksum_fault(seq!['$'] + payload + seq!['*'] + number::hex2(x) + tail) == if x
            == checksum_of(payload) {
            None::<FaultView>
        } else {
            Some(FaultView::Mismatch { given: x, actual: checksum_of(payload) })
        },
{
    let line = seq!['$'] + payload + seq!['*'] + number::hex2(x) + tail;
    let rest = payload + seq!['*'] + number::hex2(x) + tail;
    let sum = number::hex2(x) + tail;
    let n = payload.len() as int;
    lemma_hex2_plain(x);
    assert(line.skip(1) =~= rest);
    assert(seq!['$'] =~= line.subrange(0, 1));
    assert forall|j: int| n < j < rest.len() implies rest[j] != '*' by {
        if j < n + 3 {
            assert(rest[j] == number::hex2(x)[j - n - 1]);
        } else {
            assert(rest[j] == tail[j - n - 3]);
        }
    }
    text::lemma_rfind_at(rest, '*', n);
    assert(rest.take(n) =~= payload);
    assert(rest.skip(n + 1) =~= sum);
    assert forall|j: int| 2 <= j < sum.len() implies text::is_space(sum[j]) by {
        assert(sum[j] == tail[j - 2]);
    }
    assert(sum[0] == number::hex2(x)[0] && sum[1] == number::hex2(x)[1]);
    text::lemma_trim_start(sum, 0);
    assert(sum.skip(0) =~= sum);
    text::lemma_trim_end(sum, 2);
    assert(sum.take(2) =~= number::hex2(x));
    number::law_parse_hex2(x);
}

/// A framed payload has no white space around it.
pub proof fn lemma_framed_is_trimmed(payload: Seq<char>)
    ensures
        text::trim(framed(payload)) == framed(payload),
{
    let line = framed(payload);
    let n = line.len() as int;
    lemma_hex2_plain(checksum_of(payload));
    assert(line[0] == '$');
    assert(line[n - 1] == number::hex2(checksum_of(payload))[1]);
    text::lemma_trim_start(line, 0);
    assert(line.skip(0) =~= line);
    text::lemma_trim_end(line, n);
    assert(line.take(n) =~= line);
}

/// Every built command line verifies, with and without its line end.
pub proof fn law_built_command_verifies(payload: Seq<char>)
    ensures
        checksum_fault(command_line(payload)) is None,
        checksum_fault(framed(payload)) is None,
{
    law_checksum_accepts_only_own_sum(payload, checksum_of(payload), seq!['\r', '\n']);
    law_checksum_accepts_only_own_sum(payload, checksum_of(payload), Seq::empty());
    assert(framed(payload) + Seq::<char>::empty() =~= framed(payload));
}

/// The field text of `<prefix><digits>*...`, where the digits are a decimal number.
proof fn lemma_number_field(line: Seq<char>, prefix: Seq<char>, n: nat, tail: Seq<char>, max: int)
    requires
        line == prefix + number::decimal(n) + seq!['*'] + tail,
    ensures
        text::strip_prefix(line, prefix) is Some,
        number::parse_number(
            text::trim(text::before(text::strip_prefix(line, prefix)->0, '*')),
            10,
            max,
        ) == number::within(n, max),
{
    let d = number::decimal(n);
    let body = d + seq!['*'] + tail;
    number::lemma_decimal_digits(n);
    assert(line.skip(prefix.len() as int) =~= body);
    assert(prefix =~= line.subrange(0, prefix.len() as int));
    assert forall|j: int| 0 <= j < d.len() implies d[j] != '*' && !text::is_space(d[j]) by {
        assert(number::digit_value(d[j], 10) is Some);
    }
    assert forall|j: int| 0 <= j < d.len() implies body[j] != '*' by {
        assert(body[j] == d[j]);
    }
    text::lemma_find_at(body, '*', d.len() as int);
    assert(body.take(d.len() as int) =~= d);
    text::lemma_trim_start(d, 0);
    assert(d.skip(0) =~= d);
    text::lemma_trim_end(d, d.len() as int);
    assert(d.take(d.len() as int) =~= d);
    number::law_parse_decimal(n, max);
}

/// A register-7 echo or read reply, with and without its line end, gives back the
/// rate it was written with; a number that is no 32-bit one gives nothing.
pub proof fn law_reg07_reads_back(n: nat)
    ensures
        ({
            let w = "VNWRG,07,"@ + number::decimal(n);
            let r = "VNRRG,07,"@ + number::decimal(n);
            let rate = number::within(n, u32::MAX as int);
            &&& reg07_value(framed(w)) == rate
            &&& reg07_value(framed(r)) == rate
            &&& reg07_value(command_line(w)) == rate
            &&& reg07_value(command_line(r)) == rate
        }),
{
    reveal_strlit("VNWRG,07,");
    reveal_strlit("$VNWRG,07,");
    reveal_strlit("VNRRG,07,");
    reveal_strlit("$VNRRG,07,");
    let d = number::decimal(n);
    let w = "VNWRG,07,"@ + d;
    let r = "VNRRG,07,"@ + d;
    let end = seq!['\r', '\n'];
    let max = u32::MAX as int;
    let tw = number::hex2(checksum_of(w));
    let tr = number::hex2(checksum_of(r));
    assert(framed(w) =~= "$VNWRG,07,"@ + d + seq!['*'] + tw);
    assert(framed(r) =~= "$VNRRG,07,"@ + d + seq!['*'] + tr);
    assert(command_line(w) =~= "$VNWRG,07,"@ + d + seq!['*'] + (tw + end));
    assert(command_line(r) =~= "$VNRRG,07,"@ + d + seq!['*'] + (tr + end));
    lemma_number_field(framed(w), "$VNWRG,07,"@, n, tw, max);
    lemma_number_field(framed(r), "$VNRRG,07,"@, n, tr, max);
    lemma_number_field(command_line(w), "$VNWRG,07,"@, n, tw + end, max);
    lemma_number_field(command_line(r), "$VNRRG,07,"@, n, tr + end, max);
    assert("$VNRRG,07,"@[3] == 'R');
    assert(framed(w).subrange(0, 10)[3] == 'W');
    assert(command_line(w).subrange(0, 10)[3] == 'W');
}

/// A register-6 echo or read reply, with and without its line end, gives back the
/// preset it was written with; a number above 255 gives nothing.
pub proof fn law_reg06_reads_back(n: nat)
    ensures
        ({
            let w = "VNWRG,06,"@ + number::decimal(n);
            let r = "VNRRG,06,"@ + number::decimal(n);
            let preset = number::within(n, 255);
            &&& reg06_value(framed(w)) == preset
            &&& reg06_value(framed(r)) == preset
            &&& reg06_value(command_line(w)) == preset
            &&& reg06_value(command_line(r)) == preset
        }),
{
    reveal_strlit("VNWRG,06,");
    reveal_strlit("$VNWRG,06,");
    reveal_strlit("VNRRG,06,");
    reveal_strlit("$VNRRG,06,");
    let d = number::decimal(n);
    let w = "VNWRG,06,"@ + d;
    let r = "VNRRG,06,"@ + d;
    let end = seq!['\r', '\n'];
    let tw = number::hex2(checksum_of(w));
    let tr = number::hex2(checksum_of(r));
    assert(framed(w) =~= "$VNWRG,06,"@ + d + seq!['*'] + tw);
    assert(framed(r) =~= "$VNRRG,06,"@ + d + seq!['*'] + tr);
    assert(command_line(w) =~= "$VNWRG,06,"@ + d + seq!['*'] + (tw + end));
    assert(command_line(r) =~= "$VNRRG,06,"@ + d + seq!['*'] + (tr + end));
    lemma_number_field(framed(w), "$VNWRG,06,"@, n, tw, 255);
    lemma_number_field(framed(r), "$VNRRG,06,"@, n, tr, 255);
    lemma_number_field(command_line(w), "$VNWRG,06,"@, n, tw + end, 255);
    lemma_number_field(command_line(r), "$VNRRG,06,"@, n, tr + end, 255);
    assert("$VNRRG,06,"@[3] == 'R');
    assert(framed(w).subrange(0, 10)[3] == 'W');
    assert(command_line(w).subrange(0, 10)[3] == 'W');
}

/// A line with a preset in it is a register-6 reply and holds no rate; a line with
/// a rate in it is a register-7 reply and holds no preset.
pub proof fn law_reply_is_of_one_register(line: Seq<char>)
    ensures
        reg06_value(line) is Some ==> ("$VNRRG,06,"@.is_prefix_of(line)
            || "$VNWRG,06,"@.is_prefix_of(line)) && reg07_value(line) is None,
        reg07_value(line) is Some ==> ("$VNRRG,07,"@.is_prefix_of(line)
            || "$VNWRG,07,"@.is_prefix_of(line)) && reg06_value(line) is None,
{
    reveal_strlit("$VNRRG,06,");
    reveal_strlit("$VNWRG,06,");
    reveal_strlit("$VNRRG,07,");
    reveal_strlit("$VNWRG,07,");
    let head = line.subrange(0, 10);
    assert("$VNRRG,06,"@.is_prefix_of(line) || "$VNWRG,06,"@.is_prefix_of(line) ==> head[8] == '6');
    assert("$VNRRG,07,"@.is_prefix_of(line) || "$VNWRG,07,"@.is_prefix_of(line) ==> head[8] == '7');
}

/// An error reply with a two-digit code is decoded to that code.
pub proof fn law_vnerr_code_reads_back(code: u8)
    ensures
        vnerr_code(framed("VNERR,"@ + number::hex2(code))) == Some(code as int),
{
    reveal_strlit("VNERR,");
    reveal_strlit("$VNERR,");
    let h = number::hex2(code);
    let p = "VNERR,"@ + h;
    let line = framed(p);
    let tail = number::hex2(checksum_of(p));
    let body = h + seq!['*'] + tail;
    lemma_hex2_plain(code);
    assert(line =~= "$VNERR,"@ + body);
    assert("$VNERR,"@ =~= line.subrange(0, 7));
    assert(line.skip(7) =~= body);
    assert(body[0] == h[0] && body[1] == h[1]);
    text::lemma_find_at(body, '*', 2);
    assert(body.take(2) =~= h);
    text::lemma_trim_start(h, 0);
    assert(h.skip(0) =~= h);
    text::lemma_trim_end(h, 2);
    assert(h.take(2) =~= h);
    number::law_parse_hex2(code);
}

/// Checksums add up: the XOR of two byte strings end to end is that of their XORs,
/// and a single byte is its own.
pub proof fn law_checksum_adds_up(a: Seq<u8>, b: Seq<u8>, x: u8)
    ensures
        xor_bytes(Seq::empty()) == 0,
        xor_bytes(seq![x]) == x,
        xor_bytes(a + b) == xor_bytes(a) ^ xor_bytes(b),
    decreases b.len(),
{
    let none = Seq::<u8>::empty();
    assert(seq![x].drop_last() =~= none);
    assert(xor_bytes(none) == 0);
    assert(xor_bytes(seq![x]) == xor_bytes(none) ^ x);
    assert(0u8 ^ x == x) by (bit_vector);
    if b.len() == 0 {
        let p = xor_bytes(a);
        assert(a + b =~= a);
        assert(p ^ 0u8 == p) by (bit_vector);
    } else {
        let c = b.drop_last();
        law_checksum_adds_up(a, c, x);
        assert((a + b).drop_last() =~= a + c);
        let p = xor_bytes(a);
        let q = xor_bytes(c);
        let l = b.last();
        assert((p ^ q) ^ l == p ^ (q ^ l)) by (bit_vector);
    }
}

/// A CRC starts from zero: zero bytes in front of a message do not change it.
pub proof fn law_crc_starts_from_zero(data: Seq<u8>)
    ensures
        crc16(Seq::empty()) == 0,
        crc16(seq![0u8] + data) == crc16(data),
    decreases data.len(),
{
    let more = seq![0u8] + data;
    if data.len() == 0 {
        assert(more.drop_last() =~= data);
        assert(0u16 == ((0u16 << 8) | (0u16 >> 8)) ^ (0u8 as u16)) by (bit_vector);
        assert(0u16 == 0u16 ^ ((0u16 & 0xff) >> 4)) by (bit_vector);
        assert(0u16 == 0u16 ^ (0u16 << 12)) by (bit_vector);
        assert(0u16 == 0u16 ^ ((0u16 & 0x00ff) << 5)) by (bit_vector);
        lemma_crc_step(0, 0, 0, 0, 0, 0);
    } else {
        law_crc_starts_from_zero(data.drop_last());
        assert(more.drop_last() =~= seq![0u8] + data.drop_last());
        assert(more.last() == data.last());
    }
}

/// What is wrong with a line: without a `$` in front it has no start, without a `*`
/// no checksum; what follows the last `*` must be a byte in hexadecimal, and the
/// XOR of what stands before it. Each fault has its own message.
pub proof fn law_checksum_faults(payload: Seq<char>, sum: Seq<char>, line: Seq<char>)
    requires
        !sum.contains('*'),
        line.len() == 0 || line[0] != '$',
    ensures
        checksum_verdict(line) == Err::<(), Seq<char>>("reply missing leading '$'"@),
        !payload.contains('*') ==> checksum_verdict(seq!['$'] + payload) == Err::<(), Seq<char>>(
            "reply missing '*' checksum delimiter"@,
        ),
        checksum_verdict(seq!['$'] + payload + seq!['*'] + sum) == match number::parse_number(
            text::trim(sum),
            16,
            255,
        ) {
            None => Err::<(), Seq<char>>("malformed checksum field "@ + unicode::quoted(sum)),
            Some(given) => if given == checksum_of(payload) {
                Ok::<(), Seq<char>>(())
            } else {
                Err::<(), Seq<char>>(
                    "checksum mismatch: reply says "@ + number::hex2(given as u8) + ", computed "@
                        + number::hex2(checksum_of(payload)),
                )
            },
        },
{
    let start = seq!['$'];
    if start.is_prefix_of(line) {
        assert(line.subrange(0, 1)[0] == '$');
    }
    let bare = start + payload;
    assert(start =~= bare.subrange(0, 1));
    assert(bare.skip(1) =~= payload);
    text::lemma_rfind(payload, '*');
    if !payload.contains('*') {
        match text::rfind(payload, '*') {
            Some(i) => {
                assert(payload.contains(payload[i]));
            },
            None => {},
        }
    }
    let full = start + payload + seq!['*'] + sum;
    let rest = payload + seq!['*'] + sum;
    let n = payload.len() as int;
    assert(start =~= full.subrange(0, 1));
    assert(full.skip(1) =~= rest);
    assert forall|j: int| n < j < rest.len() implies rest[j] != '*' by {
        assert(rest[j] == sum[j - n - 1]);
        assert(sum.contains(sum[j - n - 1]));
    }
    text::lemma_rfind_at(rest, '*', n);
    assert(rest.take(n) =~= payload);
    assert(rest.skip(n + 1) =~= sum);
}

/// An error reply is shown with its code in both notations and what the code means;
/// only a baud rate that is too low comes with advice.
#[verifier::rlimit(80)]
pub proof fn law_error_reply_is_explained(code: u8)
    ensures
        vnerr_text(framed("VNERR,"@ + number::hex2(code))) == "device error 0x"@ + number::hex2(code)
            + " ("@ + number::decimal(code as nat) + "): "@ + error_text(code) + if code == 12 {
            " — the configured async message won't fit at this output rate over the current serial baud; raise the baud (e.g. `baud 921600`) or shorten the async message (register 6)"@
        } else {
            Seq::empty()
        },
        code == 12 <==> error_text(code) == "insufficient baud rate"@,
        1 <= code <= 12 || code == 255 <==> error_text(code) != "unknown error"@,
{
    law_vnerr_code_reads_back(code);
    let msg = "device error 0x"@ + number::hex2(code) + " ("@ + number::decimal(code as nat)
        + "): "@ + error_text(code);
    assert(msg + Seq::<char>::empty() =~= msg);
    reveal_strlit("hard fault");
    reveal_strlit("serial buffer overflow");
    reveal_strlit("invalid checksum");
    reveal_strlit("invalid command");
    reveal_strlit("not enough parameters");
    reveal_strlit("too many parameters");
    reveal_strlit("invalid parameter");
    reveal_strlit("invalid register");
    reveal_strlit("unauthorized access");
    reveal_strlit("watchdog reset");
    reveal_strlit("output buffer overflow");
    reveal_strlit("insufficient baud rate");
    reveal_strlit("error buffer overflow");
    reveal_strlit("unknown error");
    let t = error_text(code);
    assert("insufficient baud rate"@[2] == 's');
    assert("unknown error"@[1] == 'n' && "unknown error"@.len() == 13);
    assert(t[0] != 'u' || t.len() != 13 || t == "unknown error"@);
    assert(t[2] != 's' || t == "insufficient baud rate"@);
}

/// A command line is `$`, the payload, `*`, two digits of checksum and a line end.
pub proof fn law_command_line_frames_the_payload(payload: Seq<char>, other: Seq<char>)
    ensures
        ({
            let c = command_line(payload);
            let n = payload.len() as int;
            &&& c.len() == n + 6
            &&& c[0] == '$'
            &&& c.subrange(1, n + 1) == payload
            &&& c[n + 1] == '*'
            &&& number::parse_number(c.subrange(n + 2, n + 4), 16, 255)
                == Some(checksum_of(payload) as int)
            &&& c[n + 4] == '\r'
            &&& c[n + 5] == '\n'
        }),
        command_line(payload) == command_line(other) ==> payload == other,
{
    let c = command_line(payload);
    let d = command_line(other);
    let n = payload.len() as int;
    let h = number::hex2(checksum_of(payload));
    number::law_parse_hex2(checksum_of(payload));
    assert(h.len() == 2);
    assert(number::hex2(checksum_of(other)).len() == 2);
    assert(c.subrange(1, n + 1) =~= payload);
    assert(d.subrange(1, other.len() as int + 1) =~= other);
    assert(c.subrange(n + 2, n + 4) =~= h);
}

/// White space around the value of a register reply or of an error code does not
/// matter.
#[verifier::rlimit(80)]
pub proof fn law_space_around_values_is_ignored(
    a: Seq<char>,
    n: nat,
    b: Seq<char>,
    code: u8,
    tail: Seq<char>,
)
    requires
        forall|i: int| 0 <= i < a.len() ==> text::is_space(#[trigger] a[i]),
        forall|i: int| 0 <= i < b.len() ==> text::is_space(#[trigger] b[i]),
    ensures
        ({
            let number = a + number::decimal(n) + b + seq!['*'] + tail;
            let error = a + number::hex2(code) + b + seq!['*'] + tail;
            &&& reg07_value("$VNRRG,07,"@ + number) == number::within(n, u32::MAX as int)
            &&& reg07_value("$VNWRG,07,"@ + number) == number::within(n, u32::MAX as int)
            &&& reg06_value("$VNRRG,06,"@ + number) == number::within(n, 255)
            &&& reg06_value("$VNWRG,06,"@ + number) == number::within(n, 255)
            &&& vnerr_code("$VNERR,"@ + error) == Some(code as int)
        }),
{
    reveal_strlit("$VNRRG,07,");
    reveal_strlit("$VNWRG,07,");
    reveal_strlit("$VNRRG,06,");
    reveal_strlit("$VNWRG,06,");
    reveal_strlit("$VNERR,");
    let d = number::decimal(n);
    let h = number::hex2(code);
    let rest = a + d + b + seq!['*'] + tail;
    let error = a + h + b + seq!['*'] + tail;
    number::lemma_decimal_digits(n);
    number::law_parse_decimal(n, u32::MAX as int);
    number::law_parse_decimal(n, 255);
    number::law_parse_hex2(code);
    lemma_hex2_plain(code);
    assert(number::digit_value(d[0], 10) is Some);
    assert(number::digit_value(d[d.len() - 1], 10) is Some);
    assert forall|j: int| 0 <= j < d.len() implies #[trigger] d[j] != '*' by {
        assert(number::digit_value(d[j], 10) is Some);
    }
    lemma_padded_field(a, d, b, tail);
    lemma_padded_field(a, h, b, tail);
    assert(("$VNRRG,07,"@ + rest).skip(10) =~= rest);
    assert(("$VNWRG,07,"@ + rest).skip(10) =~= rest);
    assert(("$VNRRG,06,"@ + rest).skip(10) =~= rest);
    assert(("$VNWRG,06,"@ + rest).skip(10) =~= rest);
    assert(("$VNERR,"@ + error).skip(7) =~= error);
    assert("$VNRRG,07,"@ =~= ("$VNRRG,07,"@ + rest).subrange(0, 10));
    assert("$VNWRG,07,"@ =~= ("$VNWRG,07,"@ + rest).subrange(0, 10));
    assert("$VNRRG,06,"@ =~= ("$VNRRG,06,"@ + rest).subrange(0, 10));
    assert("$VNWRG,06,"@ =~= ("$VNWRG,06,"@ + rest).subrange(0, 10));
    assert("$VNERR,"@ =~= ("$VNERR,"@ + error).subrange(0, 7));
    assert(("$VNWRG,07,"@ + rest).subrange(0, 10)[3] == 'W' && "$VNRRG,07,"@[3] == 'R');
    assert(("$VNWRG,06,"@ + rest).subrange(0, 10)[3] == 'W' && "$VNRRG,06,"@[3] == 'R');
}

/// A field between white space and a `*` is found.
proof fn lemma_padded_field(a: Seq<char>, d: Seq<char>, b: Seq<char>, tail: Seq<char>)
    requires
        forall|i: int| 0 <= i < a.len() ==> text::is_space(#[trigger] a[i]),
        forall|i: int| 0 <= i < b.len() ==> text::is_space(#[trigger] b[i]),
        d.len() > 0,
        !text::is_space(d[0]) && !text::is_space(d.last()),
        forall|j: int| 0 <= j < d.len() ==> #[trigger] d[j] != '*',
    ensures
        text::trim(text::before(a + d + b + seq!['*'] + tail, '*')) == d,
{
    let body = a + d + b;
    let s = body + seq!['*'] + tail;
    let n = body.len() as int;
    assert forall|j: int| 0 <= j < n implies s[j] != '*' by {
        if j < a.len() {
            assert(s[j] == a[j]);
        } else if j < a.len() + d.len() {
            assert(s[j] == d[j - a.len()]);
        } else {
            assert(s[j] == b[j - a.len() - d.len()]);
        }
    }
    text::lemma_find_at(s, '*', n);
    assert(s.take(n) =~= body);
    text::law_trim_drops_the_space_around(a, d, b);
}

/// What each error code of the device means.
pub proof fn law_error_codes()
    ensures
        error_text(0x01) == "hard fault"@,
        error_text(0x02) == "serial buffer overflow"@,
        error_text(0x03) == "invalid checksum"@,
        error_text(0x04) == "invalid command"@,
        error_text(0x05) == "not enough parameters"@,
        error_text(0x06) == "too many parameters"@,
        error_text(0x07) == "invalid parameter"@,
        error_text(0x08) == "invalid register"@,
        error_text(0x09) == "unauthorized access"@,
        error_text(0x0a) == "watchdog reset"@,
        error_text(0x0b) == "output buffer overflow"@,
        error_text(0x0c) == "insufficient baud rate"@,
        error_text(0xff) == "error buffer overflow"@,
{
}

} // verus!
