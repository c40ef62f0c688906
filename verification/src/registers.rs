//! Value sets of the VN-100's configuration registers: baud rates (register 5),
//! ASCII message presets (register 6), and async rates (register 7).
use crate::number;
use crate::number::decimal_text;
use crate::text;
use crate::text::{chars_of, concat2, joined, same, trimmed, without_prefix};
use crate::unicode;
use crate::unicode::to_lower;
use vstd::prelude::*;
use vstd::string::*;
use vstd::utf8;

verus! {

/// Frequencies (Hz) the VN-100 accepts for the async data output rate.
pub const VALID_RATES: [u32; 11] = [1, 2, 4, 5, 10, 20, 25, 40, 50, 100, 200];

/// Serial baud rates the VN-100 supports (register 5).
pub const VALID_BAUDS: [u32; 9] = [
    9600,
    19200,
    38400,
    57600,
    115200,
    128000,
    230400,
    460800,
    921600,
];

/// The async rates as a sequence.
pub open spec fn rates() -> Seq<u32> {
    seq![1, 2, 4, 5, 10, 20, 25, 40, 50, 100, 200]
}

/// The baud rates as a sequence.
pub open spec fn bauds() -> Seq<u32> {
    seq![9600, 19200, 38400, 57600, 115200, 128000, 230400, 460800, 921600]
}

/// Whether `x` is in the list.
fn listed(xs: &[u32], x: u32) -> (r: bool)
    ensures
        r == xs@.contains(x),
{
    let mut i: usize = 0;
    while i < xs.len()
        invariant
            i <= xs.len(),
            forall|j: int| 0 <= j < i ==> xs@[j] != x,
        decreases xs.len() - i,
    {
        if xs[i] == x {
            return true;
        }
        i = i + 1;
    }
    false
}

/// Whether the device accepts `hz` as its async output rate.
pub fn is_valid_rate(hz: u32) -> (r: bool)
    ensures
        r == rates().contains(hz),
{
    let all = VALID_RATES;
    assert(all@ =~= rates());
    listed(all.as_slice(), hz)
}

/// Whether the device supports `baud`.
pub fn is_valid_baud(baud: u32) -> (r: bool)
    ensures
        r == bauds().contains(baud),
{
    let all = VALID_BAUDS;
    assert(all@ =~= bauds());
    listed(all.as_slice(), baud)
}

/// The async rates as `[1, 2, ...]`.
pub fn rates_text() -> (r: String)
    ensures
        r@ == number::number_list(rates()),
{
    let all = VALID_RATES;
    assert(all@ =~= rates());
    number::number_list_text(all.as_slice())
}

/// The baud rates as `[9600, 19200, ...]`.
pub fn bauds_text() -> (r: String)
    ensures
        r@ == number::number_list(bauds()),
{
    let all = VALID_BAUDS;
    assert(all@ =~= bauds());
    number::number_list_text(all.as_slice())
}

/// Whether `hz` can be the rate of a binary output: it divides the 800 Hz base.
pub open spec fn divides_base(hz: u32) -> bool {
    hz != 0 && 800u32 % hz == 0
}

// ---------------------------------------------------------------------------
// ASCII message presets
// ---------------------------------------------------------------------------
/// The number of ASCII message presets.
pub const PRESET_COUNT: usize = 14;

/// ASCII async message presets: CLI name and register-6 value.
pub open spec fn preset_table() -> Seq<(Seq<char>, u8)> {
    seq![
        ("off"@, 0u8),
        ("ypr"@, 1u8),
        ("qtn"@, 2u8),
        ("qmr"@, 8u8),
        ("mag"@, 10u8),
        ("acc"@, 11u8),
        ("gyr"@, 12u8),
        ("mar"@, 13u8),
        ("ymr"@, 14u8),
        ("yba"@, 16u8),
        ("yia"@, 17u8),
        ("imu"@, 19u8),
        ("dtv"@, 30u8),
        ("hve"@, 34u8),
    ]
}

/// The preset at position `i` of the table.
fn preset_at(i: usize) -> (r: (&'static str, u8))
    requires
        i < PRESET_COUNT,
    ensures
        (r.0@, r.1) == preset_table()[i as int],
{
    if i == 0 {
        ("off", 0)
    } else if i == 1 {
        ("ypr", 1)
    } else if i == 2 {
        ("qtn", 2)
    } else if i == 3 {
        ("qmr", 8)
    } else if i == 4 {
        ("mag", 10)
    } else if i == 5 {
        ("acc", 11)
    } else if i == 6 {
        ("gyr", 12)
    } else if i == 7 {
        ("mar", 13)
    } else if i == 8 {
        // The factory default.
        ("ymr", 14)
    } else if i == 9 {
        ("yba", 16)
    } else if i == 10 {
        ("yia", 17)
    } else if i == 11 {
        ("imu", 19)
    } else if i == 12 {
        ("dtv", 30)
    } else {
        ("hve", 34)
    }
}

/// The preset names, in table order.
pub open spec fn preset_names() -> Seq<Seq<char>> {
    Seq::new(PRESET_COUNT as nat, |i: int| preset_table()[i].0)
}

/// The preset names, comma-separated.
pub fn ascii_type_names() -> (r: String)
    ensures
        r@ == text::join(preset_names(), ", "@),
{
    let mut names: Vec<&str> = Vec::new();
    let mut i: usize = 0;
    while i < PRESET_COUNT
        invariant
            i <= PRESET_COUNT,
            text::str_views(names@) =~= preset_names().take(i as int),
        decreases PRESET_COUNT - i,
    {
        let ghost was = text::str_views(names@);
        let p = preset_at(i);
        names.push(p.0);
        assert(text::str_views(names@) =~= was.push(p.0@));
        i = i + 1;
    }
    assert(preset_names().take(i as int) =~= preset_names());
    joined(names.as_slice(), ", ")
}

/// The value of the preset called `name`, looked for from position `i` on.
pub open spec fn preset_from(name: Seq<char>, i: int) -> Option<u8>
    decreases PRESET_COUNT - i,
{
    if 0 <= i < PRESET_COUNT {
        if preset_table()[i].0 == name {
            Some(preset_table()[i].1)
        } else {
            preset_from(name, i + 1)
        }
    } else {
        None
    }
}

/// The value of the preset that a lower-case word names, with or without a `vn`
/// in front.
pub open spec fn preset_value(lower: Seq<char>) -> Option<u8> {
    match text::strip_prefix(lower, "vn"@) {
        Some(key) => preset_from(key, 0),
        None => preset_from(lower, 0),
    }
}

/// The meaning of a preset name, given its lower-case form without white space
/// around it.
pub open spec fn preset_result(s: Seq<char>, lower: Seq<char>) -> Result<u8, Seq<char>> {
    match preset_value(lower) {
        Some(v) => Ok(v),
        None => Err(
            "unknown ASCII type `"@ + s + "`; choose from "@ + text::join(preset_names(), ", "@),
        ),
    }
}

/// The meaning of a preset name: case and white space around it do not matter.
pub open spec fn ascii_preset(s: Seq<char>) -> Result<u8, Seq<char>> {
    preset_result(s, unicode::lowercase(text::trim(s)))
}

/// The value of the preset that a lower-case word names.
pub fn find_preset(lower: &str) -> (r: Option<u8>)
    ensures
        r == preset_value(lower@),
{
    let key: &str = match without_prefix(lower, "vn") {
        Some(k) => k,
        None => lower,
    };
    let mut i: usize = 0;
    while i < PRESET_COUNT
        invariant
            i <= PRESET_COUNT,
            preset_value(lower@) == preset_from(key@, i as int),
        decreases PRESET_COUNT - i,
    {
        let p = preset_at(i);
        if same(p.0, key) {
            return Some(p.1);
        }
        i = i + 1;
    }
    None
}

/// Resolves a preset name, given its lower-case form without white space around
/// it, to its register-6 value.
pub fn resolve_preset(s: &str, lower: &str) -> (r: Result<u8, String>)
    ensures
        text::message(r) == preset_result(s@, lower@),
{
    match find_preset(lower) {
        Some(v) => Ok(v),
        None => {
            let names = ascii_type_names();
            let mut e = concat2("unknown ASCII type `", s);
            e.append("`; choose from ");
            e.append(names.as_str());
            Err(e)
        },
    }
}

/// Resolves a preset name (case-insensitive, optional `vn` prefix) to its
/// register-6 value.
pub fn parse_ascii_type(s: &str) -> (r: Result<u8, String>)
    ensures
        text::message(r) == ascii_preset(s@),
{
    let lower = to_lower(trimmed(s));
    resolve_preset(s, lower.as_str())
}

/// Display name of the preset with `value`, looked for from position `i` on.
pub open spec fn name_from(value: u8, i: int) -> Seq<char>
    decreases PRESET_COUNT - i,
{
    if 0 <= i < PRESET_COUNT {
        if preset_table()[i].1 == value {
            if preset_table()[i].0 == "off"@ {
                "off"@
            } else {
                "VN"@ + unicode::ascii_uppercase(preset_table()[i].0)
            }
        } else {
            name_from(value, i + 1)
        }
    } else {
        "ADOR "@ + number::decimal(value as nat)
    }
}

/// Display name for a register-6 value.
pub open spec fn preset_display(value: u8) -> Seq<char> {
    name_from(value, 0)
}

/// `s` with its ASCII letters in upper case.
fn upper(s: &str) -> (r: String)
    ensures
        r@ == unicode::ascii_uppercase(s@),
{
    let cs = chars_of(s);
    let mut out = String::new();
    let mut i: usize = 0;
    while i < cs.len()
        invariant
            i <= cs.len(),
            cs@ == s@,
            out@ =~= unicode::ascii_uppercase(s@).take(i as int),
        decreases cs.len() - i,
    {
        let c = cs[i];
        let v: u32 = c as u32;
        if 97 <= v && v <= 122 {
            out.push((v as u8 - 32) as char);
        } else {
            out.push(c);
        }
        i = i + 1;
    }
    out
}

/// Display name for a register-6 value, e.g. 14 -> "VNYMR".
pub fn ascii_type_name(value: u8) -> (r: String)
    ensures
        r@ == preset_display(value),
{
    let mut i: usize = 0;
    while i < PRESET_COUNT
        invariant
            i <= PRESET_COUNT,
            preset_display(value) == name_from(value, i as int),
        decreases PRESET_COUNT - i,
    {
        let p = preset_at(i);
        if p.1 == value {
            if same(p.0, "off") {
                return "off".to_string();
            }
            let u = upper(p.0);
            return concat2("VN", u.as_str());
        }
        i = i + 1;
    }
    let d = decimal_text(value as u64);
    concat2("ADOR ", d.as_str())
}

/// The preset names: three lower-case letters each.
proof fn lemma_preset_letters()
    ensures
        forall|i: int|
            0 <= i < PRESET_COUNT ==> (#[trigger] preset_table()[i]).0 == seq![
                preset_letters(i).0,
                preset_letters(i).1,
                preset_letters(i).2,
            ],
        "off"@ == seq!['o', 'f', 'f'],
{
    reveal_strlit("off");
    reveal_strlit("ypr");
    reveal_strlit("qtn");
    reveal_strlit("qmr");
    reveal_strlit("mag");
    reveal_strlit("acc");
    reveal_strlit("gyr");
    reveal_strlit("mar");
    reveal_strlit("ymr");
    reveal_strlit("yba");
    reveal_strlit("yia");
    reveal_strlit("imu");
    reveal_strlit("dtv");
    reveal_strlit("hve");
    assert(preset_table()[0].0 =~= seq!['o', 'f', 'f']);
    assert(preset_table()[1].0 =~= seq!['y', 'p', 'r']);
    assert(preset_table()[2].0 =~= seq!['q', 't', 'n']);
    assert(preset_table()[3].0 =~= seq!['q', 'm', 'r']);
    assert(preset_table()[4].0 =~= seq!['m', 'a', 'g']);
    assert(preset_table()[5].0 =~= seq!['a', 'c', 'c']);
    assert(preset_table()[6].0 =~= seq!['g', 'y', 'r']);
    assert(preset_table()[7].0 =~= seq!['m', 'a', 'r']);
    assert(preset_table()[8].0 =~= seq!['y', 'm', 'r']);
    assert(preset_table()[9].0 =~= seq!['y', 'b', 'a']);
    assert(preset_table()[10].0 =~= seq!['y', 'i', 'a']);
    assert(preset_table()[11].0 =~= seq!['i', 'm', 'u']);
    assert(preset_table()[12].0 =~= seq!['d', 't', 'v']);
    assert(preset_table()[13].0 =~= seq!['h', 'v', 'e']);
}

/// The three letters of the preset name at position `i`.
spec fn preset_letters(i: int) -> (char, char, char) {
    if i == 0 {
        ('o', 'f', 'f')
    } else if i == 1 {
        ('y', 'p', 'r')
    } else if i == 2 {
        ('q', 't', 'n')
    } else if i == 3 {
        ('q', 'm', 'r')
    } else if i == 4 {
        ('m', 'a', 'g')
    } else if i == 5 {
        ('a', 'c', 'c')
    } else if i == 6 {
        ('g', 'y', 'r')
    } else if i == 7 {
        ('m', 'a', 'r')
    } else if i == 8 {
        ('y', 'm', 'r')
    } else if i == 9 {
        ('y', 'b', 'a')
    } else if i == 10 {
        ('y', 'i', 'a')
    } else if i == 11 {
        ('i', 'm', 'u')
    } else if i == 12 {
        ('d', 't', 'v')
    } else {
        ('h', 'v', 'e')
    }
}

/// Looking a table name up finds its own entry.
proof fn lemma_preset_found(k: int, i: int)
    requires
        0 <= i <= k < PRESET_COUNT,
    ensures
        preset_from(preset_table()[k].0, i) == Some(preset_table()[k].1),
        name_from(preset_table()[k].1, i) == if k == 0 {
            "off"@
        } else {
            "VN"@ + unicode::ascii_uppercase(preset_table()[k].0)
        },
    decreases k - i,
{
    lemma_preset_letters();
    let a = preset_table()[i].0;
    let b = preset_table()[k].0;
    if i < k {
        assert(a[0] != b[0] || a[1] != b[1] || a[2] != b[2]);
        lemma_preset_found(k, i + 1);
    } else if k > 0 {
        assert(b[0] != "off"@[0]);
    }
}

/// The display name of every preset, lower-cased, resolves to that preset again.
pub proof fn law_preset_name_reads_back(k: int)
    requires
        0 <= k < PRESET_COUNT,
    ensures
        preset_value(unicode::ascii_lowercase(preset_display(preset_table()[k].1))) == Some(
            preset_table()[k].1,
        ),
{
    lemma_preset_letters();
    lemma_preset_found(k, 0);
    reveal_strlit("VN");
    reveal_strlit("vn");
    let name = preset_table()[k].0;
    let shown = preset_display(preset_table()[k].1);
    let lower = unicode::ascii_lowercase(shown);
    if k == 0 {
        assert(lower =~= name);
        assert(lower.subrange(0, 2)[0] == 'o');
        assert("vn"@[0] == 'v');
    } else {
        assert(lower =~= "vn"@ + name);
        assert(lower.subrange(0, 2) =~= "vn"@);
        assert(lower.skip(2) =~= name);
    }
}

/// A name that is not three letters long is none of the table.
proof fn lemma_no_such_preset(name: Seq<char>, i: int)
    requires
        name.len() != 3,
        0 <= i,
    ensures
        preset_from(name, i) is None,
    decreases PRESET_COUNT - i,
{
    lemma_preset_letters();
    if i < PRESET_COUNT {
        assert(preset_table()[i].0.len() == 3);
        lemma_no_such_preset(name, i + 1);
    }
}

/// A value that no preset has is shown by its number.
proof fn lemma_unnamed_value(value: u8, i: int)
    requires
        !is_preset(value),
        0 <= i,
    ensures
        name_from(value, i) == "ADOR "@ + number::decimal(value as nat),
    decreases PRESET_COUNT - i,
{
    if i < PRESET_COUNT {
        assert(preset_table()[i].1 != value);
        lemma_unnamed_value(value, i + 1);
    }
}

/// Text of ASCII characters that neither starts nor ends with white space is
/// resolved by its lower-case letters.
proof fn lemma_plain_preset(s: Seq<char>)
    requires
        s.len() > 0,
        utf8::is_ascii_chars(s),
        !text::is_space(s[0]),
        !text::is_space(s.last()),
    ensures
        ascii_preset(s) == preset_result(s, unicode::ascii_lowercase(s)),
{
    text::lemma_trim_start(s, 0);
    assert(s.skip(0) =~= s);
    text::lemma_trim_end(s, s.len() as int);
    assert(s.take(s.len() as int) =~= s);
}

/// The display name of a register-6 value is `off` for 0, `VN` and the name in
/// upper case for another preset, and resolves to the value again; any other value
/// is shown as `ADOR` and its number, which resolves to no preset.
pub proof fn law_display_name_reads_back(value: u8)
    ensures
        value == 0 ==> preset_display(value) == "off"@,
        forall|k: int|
            0 < k < PRESET_COUNT && (#[trigger] preset_table()[k]).1 == value ==> preset_display(
                value,
            ) == "VN"@ + unicode::ascii_uppercase(preset_table()[k].0),
        !is_preset(value) ==> preset_display(value) == "ADOR "@ + number::decimal(value as nat),
        is_preset(value) ==> ascii_preset(preset_display(value)) == Ok::<u8, Seq<char>>(value),
        !is_preset(value) ==> ascii_preset(preset_display(value)) is Err,
{
    let s = preset_display(value);
    let lower = unicode::ascii_lowercase(s);
    lemma_preset_letters();
    reveal_strlit("VN");
    reveal_strlit("vn");
    reveal_strlit("ADOR ");
    lemma_preset_found(0, 0);
    assert forall|k: int|
        0 < k < PRESET_COUNT && (#[trigger] preset_table()[k]).1 == value implies s == "VN"@
        + unicode::ascii_uppercase(preset_table()[k].0) by {
        lemma_preset_found(k, 0);
    }
    if is_preset(value) {
        let k = choose|k: int| 0 <= k < PRESET_COUNT && (#[trigger] preset_table()[k]).1 == value;
        lemma_preset_found(k, 0);
        law_preset_name_reads_back(k);
        assert(utf8::is_ascii_chars(s));
        lemma_plain_preset(s);
    } else {
        let d = number::decimal(value as nat);
        lemma_unnamed_value(value, 0);
        number::lemma_decimal_digits(value as nat);
        assert forall|i: int| 0 <= i < d.len() implies '0' <= #[trigger] d[i] <= '9' by {
            assert(number::digit_value(d[i], 10) is Some);
        }
        assert forall|i: int| 0 <= i < s.len() implies '\0' <= #[trigger] s[i] <= '\u{7f}' by {
            if i >= 5 {
                assert(s[i] == d[i - 5]);
            }
        }
        assert(s.last() == d[d.len() - 1]);
        lemma_plain_preset(s);
        assert(lower[0] == 'a');
        assert("vn"@[0] == 'v');
        if "vn"@.is_prefix_of(lower) {
            assert(lower.subrange(0, 2)[0] == lower[0]);
        }
        lemma_no_such_preset(lower, 0);
    }
}

/// Whether `value` is the register-6 value of a preset.
pub open spec fn is_preset(value: u8) -> bool {
    exists|k: int| 0 <= k < PRESET_COUNT && (#[trigger] preset_table()[k]).1 == value
}

/// What is looked up in the table is in the table.
proof fn lemma_preset_from(name: Seq<char>, i: int)
    requires
        0 <= i,
    ensures
        preset_from(name, i) matches Some(v) ==> is_preset(v),
    decreases PRESET_COUNT - i,
{
    if i < PRESET_COUNT {
        if preset_table()[i].0 == name {
            assert(is_preset(preset_table()[i].1));
        } else {
            lemma_preset_from(name, i + 1);
        }
    }
}

/// A preset name resolves to the value of a preset or not at all.
pub proof fn law_resolved_preset_exists(s: Seq<char>)
    ensures
        ascii_preset(s) matches Ok(v) ==> is_preset(v),
{
    let lower = unicode::lowercase(text::trim(s));
    match text::strip_prefix(lower, "vn"@) {
        Some(key) => lemma_preset_from(key, 0),
        None => lemma_preset_from(lower, 0),
    }
}

/// The rates of a binary output are those of which 800 Hz is a multiple.
pub proof fn law_binary_rates(hz: u32, divisor: u32)
    ensures
        hz * divisor == 800 ==> divides_base(hz) && 800u32 / hz == divisor,
        divides_base(hz) ==> hz * (800u32 / hz) == 800,
{
    if hz * divisor == 800 {
        assert(hz != 0 && 800u32 % hz == 0 && 800u32 / hz == divisor) by (nonlinear_arith)
            requires
                hz * divisor == 800,
        ;
    }
    if divides_base(hz) {
        assert(hz * (800u32 / hz) == 800) by (nonlinear_arith)
            requires
                hz != 0,
                800u32 % hz == 0,
        ;
    }
}

/// The presets: each name with its register-6 value, with or without a `vn` in
/// front.
#[verifier::rlimit(80)]
pub proof fn law_preset_values(name: Seq<char>)
    ensures
        preset_value("off"@) == Some(0u8),
        preset_value("ypr"@) == Some(1u8),
        preset_value("qtn"@) == Some(2u8),
        preset_value("qmr"@) == Some(8u8),
        preset_value("mag"@) == Some(10u8),
        preset_value("acc"@) == Some(11u8),
        preset_value("gyr"@) == Some(12u8),
        preset_value("mar"@) == Some(13u8),
        preset_value("ymr"@) == Some(14u8),
        preset_value("yba"@) == Some(16u8),
        preset_value("yia"@) == Some(17u8),
        preset_value("imu"@) == Some(19u8),
        preset_value("dtv"@) == Some(30u8),
        preset_value("hve"@) == Some(34u8),
        !"vn"@.is_prefix_of(name) ==> preset_value("vn"@ + name) == preset_value(name),
        preset_value(name) is None ==> preset_result(name, name) == Err::<u8, Seq<char>>(
            "unknown ASCII type `"@ + name + "`; choose from "@ + text::join(preset_names(), ", "@),
        ),
{
    lemma_preset_letters();
    reveal_strlit("vn");
    reveal_strlit("off");
    reveal_strlit("ypr");
    reveal_strlit("qtn");
    reveal_strlit("qmr");
    reveal_strlit("mag");
    reveal_strlit("acc");
    reveal_strlit("gyr");
    reveal_strlit("mar");
    reveal_strlit("ymr");
    reveal_strlit("yba");
    reveal_strlit("yia");
    reveal_strlit("imu");
    reveal_strlit("dtv");
    reveal_strlit("hve");
    assert forall|k: int| 0 <= k < PRESET_COUNT implies preset_value(
        (#[trigger] preset_table()[k]).0,
    ) == Some(preset_table()[k].1) by {
        lemma_preset_found(k, 0);
        let key = preset_table()[k].0;
        assert(key[0] != 'v');
        if "vn"@.is_prefix_of(key) {
            assert(key.subrange(0, 2)[0] == "vn"@[0]);
        }
    }
    let t = preset_table();
    assert(t[0].1 == 0 && t[1].1 == 1 && t[2].1 == 2 && t[3].1 == 8 && t[4].1 == 10 && t[5].1 == 11
        && t[6].1 == 12);
    assert(t[7].1 == 13 && t[8].1 == 14 && t[9].1 == 16 && t[10].1 == 17 && t[11].1 == 19
        && t[12].1 == 30 && t[13].1 == 34);
    let both = "vn"@ + name;
    assert("vn"@ =~= both.subrange(0, 2));
    assert(both.skip(2) =~= name);
}

/// A preset is shown by its name in capitals with a `VN` in front, `off` as it is,
/// and a value that is no preset by its number.
pub proof fn law_presets_are_shown_by_name(k: int, value: u8)
    requires
        0 <= k < PRESET_COUNT,
    ensures
        preset_display(0) == "off"@,
        k > 0 ==> preset_display(preset_table()[k].1) == "VN"@ + unicode::ascii_uppercase(
            preset_table()[k].0,
        ),
        (forall|j: int| 0 <= j < PRESET_COUNT ==> (#[trigger] preset_table()[j]).1 != value)
            ==> preset_display(value) == "ADOR "@ + number::decimal(value as nat),
{
    lemma_preset_letters();
    lemma_preset_found(k, 0);
    lemma_preset_found(0, 0);
    if forall|j: int| 0 <= j < PRESET_COUNT ==> (#[trigger] preset_table()[j]).1 != value {
        lemma_unnamed_value(value, 0);
    }
}

/// Case and white space around a preset name do not matter.
pub proof fn law_preset_case_and_space_are_ignored(a: Seq<char>, s: Seq<char>, b: Seq<char>)
    requires
        forall|i: int| 0 <= i < a.len() ==> text::is_space(#[trigger] a[i]),
        forall|i: int| 0 <= i < b.len() ==> text::is_space(#[trigger] b[i]),
        s.len() > 0,
        !text::is_space(s[0]) && !text::is_space(s.last()),
        utf8::is_ascii_chars(s),
    ensures
        ascii_preset(a + s + b) == match preset_value(unicode::ascii_lowercase(s)) {
            Some(v) => Ok::<u8, Seq<char>>(v),
            None => Err::<u8, Seq<char>>(
                "unknown ASCII type `"@ + (a + s + b) + "`; choose from "@ + text::join(
                    preset_names(),
                    ", "@,
                ),
            ),
        },
{
    text::law_trim_drops_the_space_around(a, s, b);
}

} // verus!
