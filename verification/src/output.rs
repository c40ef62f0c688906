//! Binary output 1 (register 75): which port it streams on, its rate, and its
//! Common field mask.
//!
//! Fields and on/off stay orthogonal: a mask write never toggles streaming, and a
//! streaming toggle never touches the mask.
use crate::cli;
use crate::cli::BinSet;
use crate::fields;
use crate::fields::{fields_from_mask, Field};
use crate::number;
use crate::number::{decimal_text, hex4_text, parse_hex_u8, parse_hex_u16, parse_u32, parse_u8};
use crate::proto;
use crate::registers;
use crate::report;
use crate::report::names_text;
use crate::text;
use crate::text::{before_char, concat2, concat3, pieces, trimmed, without_prefix};
use vstd::prelude::*;
use vstd::string::*;

verus! {

/// The IMU's base rate in Hz; an output's rate is this over its divisor.
pub const BASE_HZ: u32 = 800;

/// The port that streaming is enabled on where it was off: port 2, the RPi5 TTL
/// header.
pub const DEFAULT_PORT: u8 = 2;

/// The configuration of the binary output.
#[derive(Clone, Copy)]
pub struct BinOutput {
    /// The ports it streams on (`asyncMode`): 0 is off, 1 and 2 are the two UARTs,
    /// 3 is both.
    pub mode: u8,
    /// The base rate over the output's rate.
    pub divisor: u32,
    /// The Common field mask.
    pub mask: u16,
}

/// The payload that writes a configuration.
pub open spec fn write_payload(o: BinOutput) -> Seq<char> {
    "VNWRG,75,"@ + number::decimal(o.mode as nat) + ","@ + number::decimal(o.divisor as nat)
        + ",01,"@ + number::hex4(o.mask)
}

/// The payload that writes a configuration, e.g. `VNWRG,75,1,4,01,0101`.
pub fn write_payload_text(o: &BinOutput) -> (r: String)
    ensures
        r@ == write_payload(*o),
{
    let m = decimal_text(o.mode as u64);
    let d = decimal_text(o.divisor as u64);
    let h = hex4_text(o.mask);
    let mut s = concat3("VNWRG,75,", m.as_str(), ",");
    s.append(d.as_str());
    s.append(",01,");
    s.append(h.as_str());
    s
}

/// The mask with the bit of each field set.
pub fn mask_of_fields(selected: &[&'static Field]) -> (r: u16)
    requires
        fields::bits_fit(fields::field_views(selected@)),
    ensures
        r == fields::mask_of(fields::field_views(selected@)),
{
    let ghost fs = fields::field_views(selected@);
    let mut m: u16 = 0;
    let mut i: usize = 0;
    while i < selected.len()
        invariant
            i <= selected.len(),
            fs == fields::field_views(selected@),
            fields::bits_fit(fs),
            m == fields::mask_of(fs.take(i as int)),
        decreases selected.len() - i,
    {
        proof {
            assert(fs.take(i + 1).drop_last() =~= fs.take(i as int));
            assert(fs[i as int] == selected@[i as int]@);
        }
        m = m | (1u16 << selected[i].bit);
        i = i + 1;
    }
    assert(fs.take(i as int) =~= fs);
    m
}

/// The configuration in the fields of a register-75 reply: port, divisor, the
/// Common group, and its field mask in hexadecimal.
pub open spec fn fields_output(parts: Seq<Seq<char>>) -> Option<BinOutput> {
    if parts.len() != 4 {
        None
    } else {
        match (
            number::parse_number(text::trim(parts[0]), 10, 255),
            number::parse_number(text::trim(parts[1]), 10, u32::MAX as int),
            number::parse_number(text::trim(parts[2]), 16, 255),
            number::parse_number(text::trim(parts[3]), 16, 0xffff),
        ) {
            (Some(mode), Some(divisor), Some(groups), Some(mask)) => if groups == 1 {
                Some(BinOutput { mode: mode as u8, divisor: divisor as u32, mask: mask as u16 })
            } else {
                None
            },
            _ => None,
        }
    }
}

/// The configuration in a `$VN(R|W)RG,75,...*XX` reply.
pub open spec fn reply_output(line: Seq<char>) -> Option<BinOutput> {
    match text::strip_prefix(line, "$VNRRG,75,"@) {
        Some(body) => fields_output(text::split(text::before(body, '*'), ',')),
        None => match text::strip_prefix(line, "$VNWRG,75,"@) {
            Some(body) => fields_output(text::split(text::before(body, '*'), ',')),
            None => None,
        },
    }
}

/// The configuration in the fields of a reply.
fn parse_fields_output(body: &str) -> (r: Option<BinOutput>)
    ensures
        r == fields_output(text::split(text::before(body@, '*'), ',')),
{
    let parts = pieces(before_char(body, '*'), ',');
    let ghost all = text::str_views(parts@);
    if parts.len() != 4 {
        return None;
    }
    assert(all[0] == parts@[0]@ && all[1] == parts@[1]@ && all[2] == parts@[2]@ && all[3]
        == parts@[3]@);
    let mode: u8 = match parse_u8(trimmed(parts[0])) {
        Some(n) => n,
        None => return None,
    };
    let divisor: u32 = match parse_u32(trimmed(parts[1])) {
        Some(n) => n,
        None => return None,
    };
    let groups: u8 = match parse_hex_u8(trimmed(parts[2])) {
        Some(n) => n,
        None => return None,
    };
    let mask: u16 = match parse_hex_u16(trimmed(parts[3])) {
        Some(n) => n,
        None => return None,
    };
    if groups == 1 {
        Some(BinOutput { mode, divisor, mask })
    } else {
        None
    }
}

/// Parses the configuration out of a `$VN(R|W)RG,75,...*XX` reply.
pub fn parse_reg75(line: &str) -> (r: Option<BinOutput>)
    ensures
        r == reply_output(line@),
{
    match without_prefix(line, "$VNRRG,75,") {
        Some(body) => parse_fields_output(body),
        None => match without_prefix(line, "$VNWRG,75,") {
            Some(body) => parse_fields_output(body),
            None => None,
        },
    }
}

/// How the ports of a configuration are shown.
pub open spec fn shown_port(mode: u8) -> Seq<char> {
    if mode == 0 {
        "off"@
    } else if mode == 3 {
        "both ports"@
    } else {
        "port "@ + number::decimal(mode as nat)
    }
}

/// How the rate of a configuration is shown: in Hz where the divisor divides the
/// base rate.
pub open spec fn shown_rate(divisor: u32) -> Seq<char> {
    if divisor != 0 && BASE_HZ % divisor == 0 {
        number::decimal((BASE_HZ / divisor) as nat) + " Hz"@
    } else {
        "800/"@ + number::decimal(divisor as nat) + " Hz"@
    }
}

/// How a configuration is shown: port, rate, fields.
pub open spec fn shown(o: BinOutput) -> Seq<char> {
    "Binary output: "@ + shown_port(o.mode) + ", "@ + shown_rate(o.divisor) + ", fields "@
        + report::debug_list(fields::names_of(fields::fields_in(o.mask)))
}

/// How a configuration is shown, e.g.
/// `Binary output: port 2, 200 Hz, fields ["time", "accel"]`.
pub fn shown_text(o: &BinOutput) -> (r: String)
    ensures
        r@ == shown(*o),
{
    let port: String = if o.mode == 0 {
        "off".to_string()
    } else if o.mode == 3 {
        "both ports".to_string()
    } else {
        let n = decimal_text(o.mode as u64);
        concat2("port ", n.as_str())
    };
    let rate: String = if o.divisor != 0 && BASE_HZ % o.divisor == 0 {
        let n = decimal_text((BASE_HZ / o.divisor) as u64);
        concat2(n.as_str(), " Hz")
    } else {
        let n = decimal_text(o.divisor as u64);
        concat3("800/", n.as_str(), " Hz")
    };
    let selected = fields_from_mask(o.mask);
    let names = names_text(selected.as_slice());
    let mut s = concat3("Binary output: ", port.as_str(), ", ");
    s.append(rate.as_str());
    s.append(", fields ");
    s.append(names.as_str());
    s
}

/// A configuration after a `set-bin` or `set-bin-fields` step.
pub open spec fn changed(o: BinOutput, action: cli::BinSetView) -> Result<BinOutput, Seq<char>> {
    match action {
        cli::BinSetView::Fields(fs) => Ok(BinOutput { mask: fields::mask_of(fs), ..o }),
        cli::BinSetView::Enable => if o.mask == 0 {
            Err("no binary fields are configured; set them first with set-bin-fields=<FIELDS>"@)
        } else {
            Ok(
                BinOutput {
                    mode: if o.mode == 0 {
                        DEFAULT_PORT
                    } else {
                        o.mode
                    },
                    ..o
                },
            )
        },
        cli::BinSetView::Off => Ok(BinOutput { mode: 0, ..o }),
    }
}

/// Whether a binary step names only fields whose bits a mask has.
pub open spec fn valid_step(action: cli::BinSetView) -> bool {
    action matches cli::BinSetView::Fields(fs) ==> fields::bits_fit(fs)
}

/// Changes a configuration by a `set-bin` or `set-bin-fields` step.
pub fn apply(o: BinOutput, action: &BinSet) -> (r: Result<BinOutput, String>)
    requires
        valid_step(action@),
    ensures
        text::message(r) == changed(o, action@),
{
    match action {
        BinSet::Fields(selected) => Ok(BinOutput { mask: mask_of_fields(selected.as_slice()), ..o }),
        BinSet::Enable => if o.mask == 0 {
            Err(
                "no binary fields are configured; set them first with set-bin-fields=<FIELDS>".to_string(),
            )
        } else {
            let mode: u8 = if o.mode == 0 {
                DEFAULT_PORT
            } else {
                o.mode
            };
            Ok(BinOutput { mode, ..o })
        },
        BinSet::Off => Ok(BinOutput { mode: 0, ..o }),
    }
}

/// A configuration at `hz`.
pub open spec fn with_rate(o: BinOutput, hz: u32) -> BinOutput {
    BinOutput { divisor: BASE_HZ / hz, ..o }
}

/// Changes the rate of a configuration.
pub fn apply_rate(o: BinOutput, hz: u32) -> (r: BinOutput)
    requires
        registers::divides_base(hz),
    ensures
        r == with_rate(o, hz),
{
    BinOutput { divisor: BASE_HZ / hz, ..o }
}

/// A mask write never toggles streaming, a streaming toggle never touches the
/// mask, and neither changes the rate; a rate write changes the rate alone.
pub proof fn law_mask_streaming_and_rate_are_orthogonal(
    o: BinOutput,
    fs: Seq<fields::FieldView>,
    hz: u32,
)
    ensures
        changed(o, cli::BinSetView::Fields(fs)) matches Ok(p) && p.mode == o.mode && p.divisor
            == o.divisor && p.mask == fields::mask_of(fs),
        changed(o, cli::BinSetView::Off) matches Ok(p) && p.mode == 0 && p.divisor == o.divisor
            && p.mask == o.mask,
        changed(o, cli::BinSetView::Enable) matches Ok(p) ==> p.mode != 0 && p.divisor
            == o.divisor && p.mask == o.mask,
        with_rate(o, hz).mode == o.mode,
        with_rate(o, hz).mask == o.mask,
{
}

/// Streaming can be enabled exactly when a field is configured.
pub proof fn law_enable_needs_fields(o: BinOutput)
    ensures
        changed(o, cli::BinSetView::Enable) is Ok <==> o.mask != 0,
{
}

/// Turning streaming off and on again keeps everything but the port, and the port
/// too where it is the default one.
pub proof fn law_off_then_on(o: BinOutput)
    requires
        o.mask != 0,
    ensures
        ({
            let off = changed(o, cli::BinSetView::Off)->Ok_0;
            changed(off, cli::BinSetView::Enable) == Ok::<BinOutput, Seq<char>>(
                BinOutput { mode: DEFAULT_PORT, ..o },
            )
        }),
{
}

/// A rate that divides the base rate is recovered from its divisor.
pub proof fn law_rate_is_base_over_divisor(o: BinOutput, hz: u32)
    requires
        registers::divides_base(hz),
    ensures
        with_rate(o, hz).divisor > 0,
        BASE_HZ / with_rate(o, hz).divisor == hz,
{
    let d = BASE_HZ / hz;
    assert(d > 0 && 800u32 / d == hz) by (nonlinear_arith)
        requires
            hz != 0,
            800u32 % hz == 0,
            d == 800u32 / hz,
    ;
}

/// Digits hold neither a separator nor white space.
proof fn lemma_digits_plain(s: Seq<char>, radix: int)
    requires
        2 <= radix <= 16,
        number::all_digits(s, radix),
        s.len() > 0,
    ensures
        !s.contains(','),
        !s.contains('*'),
        text::trim(s) == s,
{
    assert forall|j: int| 0 <= j < s.len() implies s[j] != ',' && s[j] != '*' && !text::is_space(
        s[j],
    ) by {
        assert(number::digit_value(s[j], radix) is Some);
    }
    text::lemma_trim_start(s, 0);
    assert(s.skip(0) =~= s);
    text::lemma_trim_end(s, s.len() as int);
    assert(s.take(s.len() as int) =~= s);
}

/// The echo of a written configuration, and the reply to reading it, give the
/// configuration back.
pub proof fn law_output_reads_back(o: BinOutput)
    ensures
        reply_output(proto::framed(write_payload(o))) == Some(o),
        reply_output(
            proto::framed("VNRRG,75,"@ + write_payload(o).skip("VNWRG,75,"@.len() as int)),
        ) == Some(o),
        reply_output(proto::command_line(write_payload(o))) == Some(o),
        "$VNWRG,75,"@.is_prefix_of(proto::command_line(write_payload(o))),
{
    reveal_strlit("VNWRG,75,");
    reveal_strlit("$VNWRG,75,");
    reveal_strlit("VNRRG,75,");
    reveal_strlit("$VNRRG,75,");
    reveal_strlit(",");
    reveal_strlit(",01,");
    let m = number::decimal(o.mode as nat);
    let d = number::decimal(o.divisor as nat);
    let g = seq!['0', '1'];
    let h = number::hex4(o.mask);
    let body = m + seq![','] + (d + seq![','] + (g + seq![','] + h));
    let wp = write_payload(o);
    let rp = "VNRRG,75,"@ + wp.skip(9);
    assert(wp =~= "VNWRG,75,"@ + body);
    assert(rp =~= "VNRRG,75,"@ + body);
    lemma_body(o, body);
    let lw = proto::framed(wp);
    let lr = proto::framed(rp);
    let tw = number::hex2(proto::checksum_of(wp));
    let tr = number::hex2(proto::checksum_of(rp));
    assert(lw =~= "$VNWRG,75,"@ + (body + seq!['*'] + tw));
    assert(lr =~= "$VNRRG,75,"@ + (body + seq!['*'] + tr));
    assert("$VNWRG,75,"@ =~= lw.subrange(0, 10));
    assert("$VNRRG,75,"@ =~= lr.subrange(0, 10));
    assert(lw.skip(10) =~= body + seq!['*'] + tw);
    assert(lr.skip(10) =~= body + seq!['*'] + tr);
    assert(lw.subrange(0, 10)[3] == 'W');
    assert("$VNRRG,75,"@[3] == 'R');
    lemma_before_star(body, tw);
    lemma_before_star(body, tr);
    let cw = proto::command_line(wp);
    let tc = tw + seq!['\r', '\n'];
    assert(cw =~= "$VNWRG,75,"@ + (body + seq!['*'] + tc));
    assert("$VNWRG,75,"@ =~= cw.subrange(0, 10));
    assert(cw.skip(10) =~= body + seq!['*'] + tc);
    assert(cw.subrange(0, 10)[3] == 'W');
    lemma_before_star(body, tc);
}

/// What stands before the first `*`.
proof fn lemma_before_star(body: Seq<char>, tail: Seq<char>)
    requires
        !body.contains('*'),
    ensures
        text::before(body + seq!['*'] + tail, '*') == body,
{
    let s = body + seq!['*'] + tail;
    let n = body.len() as int;
    assert forall|j: int| 0 <= j < n implies s[j] != '*' by {
        assert(s[j] == body[j]);
        assert(body.contains(body[j]));
    }
    text::lemma_find_at(s, '*', n);
    assert(s.take(n) =~= body);
}

/// The fields of a configuration, as they stand in a message, read back.
proof fn lemma_body(o: BinOutput, body: Seq<char>)
    requires
        body == number::decimal(o.mode as nat) + seq![','] + (number::decimal(o.divisor as nat)
            + seq![','] + (seq!['0', '1'] + seq![','] + number::hex4(o.mask))),
    ensures
        fields_output(text::split(body, ',')) == Some(o),
        !body.contains('*'),
{
    let m = number::decimal(o.mode as nat);
    let d = number::decimal(o.divisor as nat);
    let g = seq!['0', '1'];
    let h = number::hex4(o.mask);
    let tail1 = g + seq![','] + h;
    let tail2 = d + seq![','] + tail1;
    number::lemma_decimal_digits(o.mode as nat);
    number::lemma_decimal_digits(o.divisor as nat);
    number::law_parse_decimal(o.mode as nat, 255);
    number::law_parse_decimal(o.divisor as nat, u32::MAX as int);
    number::law_parse_hex4(o.mask);
    assert(number::digit_value('0', 16) == Some(0int) && number::digit_value('1', 16) == Some(1int));
    assert(number::hex2(1) =~= g);
    number::law_parse_hex2(1);
    lemma_digits_plain(m, 10);
    lemma_digits_plain(d, 10);
    lemma_digits_plain(g, 16);
    lemma_digits_plain(h, 16);
    text::lemma_split_last(h, ',');
    text::lemma_split_front(g, h, ',');
    text::lemma_split_front(d, tail1, ',');
    text::lemma_split_front(m, tail2, ',');
    assert(text::split(body, ',') =~= seq![m, d, g, h]);
    assert forall|j: int| 0 <= j < body.len() implies body[j] != '*' by {
        if j < m.len() {
            assert(body[j] == m[j]);
            assert(m.contains(m[j]));
        } else if j > m.len() {
            let k = j - m.len() - 1;
            assert(body[j] == tail2[k]);
            if k < d.len() {
                assert(tail2[k] == d[k]);
                assert(d.contains(d[k]));
            } else if k > d.len() {
                let i = k - d.len() - 1;
                assert(tail2[k] == tail1[i]);
                if i < 2 {
                    assert(tail1[i] == g[i]);
                    assert(g.contains(g[i]));
                } else if i > 2 {
                    assert(tail1[i] == h[i - 3]);
                    assert(h.contains(h[i - 3]));
                }
            }
        }
    }
}

/// A written configuration holds, in this order and separated by commas: the
/// command and the register, the port and the divisor in decimal, the Common group,
/// and the field mask as four hexadecimal digits.
pub proof fn law_output_is_written_in_order(o: BinOutput)
    ensures
        ({
            let parts = text::split(write_payload(o), ',');
            &&& parts.len() == 6
            &&& parts[0] == "VNWRG"@
            &&& parts[1] == "75"@
            &&& number::parse_number(parts[2], 10, 255) == Some(o.mode as int)
            &&& number::parse_number(parts[3], 10, u32::MAX as int) == Some(o.divisor as int)
            &&& number::parse_number(parts[4], 16, 255) == Some(1int)
            &&& number::parse_number(parts[5], 16, 0xffff) == Some(o.mask as int)
            &&& parts[5].len() == 4
        }),
{
    reveal_strlit("VNWRG");
    reveal_strlit("75");
    reveal_strlit("VNWRG,75,");
    reveal_strlit(",");
    reveal_strlit(",01,");
    let m = number::decimal(o.mode as nat);
    let d = number::decimal(o.divisor as nat);
    let g = seq!['0', '1'];
    let h = number::hex4(o.mask);
    let tail1 = g + seq![','] + h;
    let tail2 = d + seq![','] + tail1;
    let tail3 = m + seq![','] + tail2;
    let tail4 = "75"@ + seq![','] + tail3;
    number::lemma_decimal_digits(o.mode as nat);
    number::lemma_decimal_digits(o.divisor as nat);
    number::law_parse_decimal(o.mode as nat, 255);
    number::law_parse_decimal(o.divisor as nat, u32::MAX as int);
    number::law_parse_hex4(o.mask);
    number::law_parse_hex2(1);
    assert(number::hex2(1) =~= g);
    assert(number::digit_value('0', 16) == Some(0int) && number::digit_value('1', 16) == Some(1int));
    lemma_digits_plain(m, 10);
    lemma_digits_plain(d, 10);
    lemma_digits_plain(g, 16);
    lemma_digits_plain(h, 16);
    assert(!"75"@.contains(','));
    assert(!"VNWRG"@.contains(','));
    text::lemma_split_last(h, ',');
    text::lemma_split_front(g, h, ',');
    text::lemma_split_front(d, tail1, ',');
    text::lemma_split_front(m, tail2, ',');
    text::lemma_split_front("75"@, tail3, ',');
    text::lemma_split_front("VNWRG"@, tail4, ',');
    assert(write_payload(o) =~= "VNWRG"@ + seq![','] + tail4);
    assert(text::split(write_payload(o), ',') =~= seq!["VNWRG"@, "75"@, m, d, g, h]);
}

/// Setting fields leaves in the mask the bits of exactly those fields.
pub proof fn law_mask_holds_the_fields(o: BinOutput, fs: Seq<fields::FieldView>, bit: u8)
    requires
        fields::bits_fit(fs),
        bit < 16,
    ensures
        changed(o, cli::BinSetView::Fields(fs)) matches Ok(p) && (p.mask & (1u16 << bit) != 0
            <==> exists|i: int| 0 <= i < fs.len() && (#[trigger] fs[i]).bit == bit),
{
    fields::lemma_mask_bits(fs, bit);
}

/// The divisor of a rate times that rate is the base rate of 800 Hz.
pub proof fn law_divisor_times_rate(hz: u32)
    requires
        registers::divides_base(hz),
    ensures
        (800u32 / hz) * hz == 800,
        800u32 / hz > 0,
        BASE_HZ == 800,
{
    assert((800u32 / hz) * hz == 800 && 800u32 / hz > 0) by (nonlinear_arith)
        requires
            hz != 0,
            800u32 % hz == 0,
    ;
}

/// Changing the rate writes the divisor that, times the rate, gives 800 Hz.
pub proof fn law_changed_rate_is_the_rate(o: BinOutput, hz: u32)
    requires
        registers::divides_base(hz),
    ensures
        with_rate(o, hz).divisor * hz == 800,
        with_rate(o, hz).mode == o.mode,
        with_rate(o, hz).mask == o.mask,
{
    law_divisor_times_rate(hz);
}

/// A configuration is shown by where it streams, its rate, and its fields: off,
/// one port by number, or both; the rate in Hz, or as a fraction where it is none.
pub proof fn law_shown_output(o: BinOutput)
    ensures
        ({
            let names = report::debug_list(fields::names_of(fields::fields_in(o.mask)));
            let port = if o.mode == 0 {
                "off"@
            } else if o.mode == 3 {
                "both ports"@
            } else {
                "port "@ + number::decimal(o.mode as nat)
            };
            &&& o.divisor != 0 && 800u32 % o.divisor == 0 ==> shown(o) == "Binary output: "@ + port
                + ", "@ + (number::decimal((800u32 / o.divisor) as nat) + " Hz"@) + ", fields "@
                + names
            &&& o.divisor == 0 || 800u32 % o.divisor != 0 ==> shown(o) == "Binary output: "@ + port
                + ", "@ + ("800/"@ + number::decimal(o.divisor as nat) + " Hz"@) + ", fields "@
                + names
        }),
{
}

/// A line is a configuration exactly where it is a reply or an echo of register 75
/// with four fields: a port, a divisor, the Common group alone, and a mask.
pub proof fn law_only_common_outputs_are_read(line: Seq<char>, o: BinOutput)
    ensures
        reply_output(line) == Some(o) <==> {
            let parts = text::split(text::before(line.skip(10), '*'), ',');
            &&& "$VNRRG,75,"@.is_prefix_of(line) || "$VNWRG,75,"@.is_prefix_of(line)
            &&& parts.len() == 4
            &&& number::parse_number(text::trim(parts[0]), 10, 255) == Some(o.mode as int)
            &&& number::parse_number(text::trim(parts[1]), 10, u32::MAX as int) == Some(
                o.divisor as int,
            )
            &&& number::parse_number(text::trim(parts[2]), 16, 255) == Some(1int)
            &&& number::parse_number(text::trim(parts[3]), 16, 0xffff) == Some(o.mask as int)
        },
{
    reveal_strlit("$VNRRG,75,");
    reveal_strlit("$VNWRG,75,");
    assert("$VNRRG,75,"@.len() == 10 && "$VNWRG,75,"@.len() == 10);
    let parts = text::split(text::before(line.skip(10), '*'), ',');
    number::lemma_parsed_is_bounded(text::trim(parts[0]), 10, 255);
    number::lemma_parsed_is_bounded(text::trim(parts[1]), 10, u32::MAX as int);
    number::lemma_parsed_is_bounded(text::trim(parts[3]), 16, 0xffff);
}

/// Enabling a silent output streams it on port 2, the one on the header.
pub proof fn law_enable_picks_the_header_port(o: BinOutput)
    requires
        o.mask != 0,
    ensures
        changed(o, cli::BinSetView::Enable) == Ok::<BinOutput, Seq<char>>(
            BinOutput {
                mode: if o.mode == 0 {
                    2
                } else {
                    o.mode
                },
                divisor: o.divisor,
                mask: o.mask,
            },
        ),
{
}

} // verus!
