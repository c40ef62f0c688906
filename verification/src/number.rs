//! Numbers as text: decimal and hexadecimal rendering and parsing.
use crate::text;
use crate::text::chars_of;
use vstd::prelude::*;
use vstd::string::*;

verus! {

/// The digit `d` as a character: `0`-`9`, then `A`-`Z`.
pub open spec fn digit_char(d: int) -> char {
    if d < 10 {
        (48 + d) as char
    } else {
        (55 + d) as char
    }
}

/// `n` in decimal, without leading zeros.
pub open spec fn decimal(n: nat) -> Seq<char>
    decreases n,
{
    if n < 10 {
        seq![digit_char(n as int)]
    } else {
        decimal(n / 10).push(digit_char((n % 10) as int))
    }
}

/// `n` in decimal with at least two digits.
pub open spec fn decimal2(n: nat) -> Seq<char> {
    if n < 10 {
        seq!['0'] + decimal(n)
    } else {
        decimal(n)
    }
}

/// A byte as two upper-case hexadecimal digits.
pub open spec fn hex2(b: u8) -> Seq<char> {
    seq![digit_char(b as int / 16), digit_char(b as int % 16)]
}

/// A 16-bit word as four upper-case hexadecimal digits.
pub open spec fn hex4(w: u16) -> Seq<char> {
    seq![
        digit_char(w as int / 4096),
        digit_char(w as int / 256 % 16),
        digit_char(w as int / 16 % 16),
        digit_char(w as int % 16),
    ]
}

/// A list of numbers as `[a, b, c]`.
pub open spec fn number_list(ns: Seq<u32>) -> Seq<char> {
    "["@ + text::join(Seq::new(ns.len(), |i: int| decimal(ns[i] as nat)), ", "@) + "]"@
}

/// The value of the digit `c` in base `radix`; letters of either case stand for
/// ten and up.
pub open spec fn digit_value(c: char, radix: int) -> Option<int> {
    let v = c as int;
    let d = if 48 <= v <= 57 {
        v - 48
    } else if 65 <= v <= 90 {
        v - 55
    } else if 97 <= v <= 122 {
        v - 87
    } else {
        -1
    };
    if 0 <= d < radix {
        Some(d)
    } else {
        None
    }
}

/// Whether every character is a digit in base `radix`.
pub open spec fn all_digits(s: Seq<char>, radix: int) -> bool {
    forall|i: int| 0 <= i < s.len() ==> (#[trigger] digit_value(s[i], radix)) is Some
}

/// The number that the digits `s` write in base `radix`.
pub open spec fn digits_value(s: Seq<char>, radix: int) -> int
    decreases s.len(),
{
    if s.len() == 0 {
        0
    } else {
        digits_value(s.drop_last(), radix) * radix + digit_value(s.last(), radix)->0
    }
}

/// `s` without one leading plus sign.
pub open spec fn unsigned_part(s: Seq<char>) -> Seq<char> {
    if s.len() > 0 && s[0] == '+' {
        s.skip(1)
    } else {
        s
    }
}

/// The number that `s` writes in base `radix`: an optional plus sign, then one
/// or more digits, the whole at most `max`.
pub open spec fn parse_number(s: Seq<char>, radix: int, max: int) -> Option<int> {
    let d = unsigned_part(s);
    if d.len() > 0 && all_digits(d, radix) && digits_value(d, radix) <= max {
        Some(digits_value(d, radix))
    } else {
        None
    }
}

/// Digits only add to the number before them.
proof fn lemma_digits_value_grows(s: Seq<char>, k: int, radix: int)
    requires
        0 <= k <= s.len(),
        radix >= 1,
        all_digits(s, radix),
    ensures
        0 <= digits_value(s.take(k), radix) <= digits_value(s, radix),
    decreases s.len(),
{
    if k == s.len() {
        assert(s.take(k) =~= s);
        if k > 0 {
            assert(s.drop_last().take(0) =~= Seq::<char>::empty());
            lemma_digits_value_grows(s.drop_last(), 0, radix);
            let p = digits_value(s.drop_last(), radix);
            assert(p * radix >= 0) by (nonlinear_arith)
                requires
                    p >= 0,
                    radix >= 1,
            ;
            assert(digit_value(s[s.len() - 1], radix) is Some);
        }
    } else {
        let t = s.drop_last();
        assert(all_digits(t, radix)) by {
            assert forall|i: int| 0 <= i < t.len() implies (#[trigger] digit_value(
                t[i],
                radix,
            )) is Some by {
                assert(t[i] == s[i]);
            }
        }
        lemma_digits_value_grows(t, k, radix);
        assert(t.take(k) =~= s.take(k));
        let p = digits_value(t, radix);
        assert(p * radix >= p) by (nonlinear_arith)
            requires
                p >= 0,
                radix >= 1,
        ;
        assert(digit_value(s[s.len() - 1], radix) is Some);
    }
}

/// The value of the digit `c` in base `radix`.
pub fn digit(c: char, radix: u64) -> (r: Option<u64>)
    requires
        radix <= 36,
    ensures
        r matches Some(d) ==> digit_value(c, radix as int) == Some(d as int) && d < radix,
        r is None ==> digit_value(c, radix as int) is None,
{
    let v: u32 = c as u32;
    let d: u32 = if 48 <= v && v <= 57 {
        v - 48
    } else if 65 <= v && v <= 90 {
        v - 55
    } else if 97 <= v && v <= 122 {
        v - 87
    } else {
        return None;
    };
    if (d as u64) < radix {
        Some(d as u64)
    } else {
        None
    }
}

/// The number that `s` writes in base `radix`, if it is one and is at most `max`.
pub fn parse_bounded(s: &str, radix: u64, max: u64) -> (r: Option<u64>)
    requires
        2 <= radix <= 36,
    ensures
        r matches Some(n) ==> parse_number(s@, radix as int, max as int) == Some(n as int) && n
            <= max,
        r is None ==> parse_number(s@, radix as int, max as int) is None,
{
    let all = chars_of(s);
    let ghost d = unsigned_part(s@);
    let start: usize = if all.len() > 0 && all[0] == '+' {
        1
    } else {
        0
    };
    assert(d =~= s@.skip(start as int));
    if all.len() == start {
        return None;
    }
    let mut acc: u64 = 0;
    let mut i: usize = start;
    assert(d.take(0) =~= Seq::<char>::empty());
    while i < all.len()
        invariant
            2 <= radix <= 36,
            all@ == s@,
            d == unsigned_part(s@),
            d == s@.skip(start as int),
            start <= i <= all.len(),
            all_digits(d.take(i - start), radix as int),
            acc == digits_value(d.take(i - start), radix as int),
            acc <= max,
        decreases all.len() - i,
    {
        let ghost k = i - start;
        assert(d[k] == all@[i as int]);
        match digit(all[i], radix) {
            Some(v) => {
                proof {
                    assert(d.take(k + 1).drop_last() =~= d.take(k));
                    assert forall|j: int| 0 <= j < k + 1 implies (#[trigger] digit_value(
                        d.take(k + 1)[j],
                        radix as int,
                    )) is Some by {
                        if j < k {
                            assert(d.take(k + 1)[j] == d.take(k)[j]);
                            assert(digit_value(d.take(k)[j], radix as int) is Some);
                        }
                    }
                    assert(0 <= acc * radix <= max * 36) by (nonlinear_arith)
                        requires
                            0 <= acc <= max,
                            2 <= radix <= 36,
                    ;
                }
                let next: u128 = (acc as u128) * (radix as u128) + (v as u128);
                if next > max as u128 {
                    proof {
                        if all_digits(d, radix as int) {
                            lemma_digits_value_grows(d, k + 1, radix as int);
                        }
                    }
                    return None;
                }
                acc = next as u64;
            },
            None => {
                assert(digit_value(d[k], radix as int) is None);
                return None;
            },
        }
        i = i + 1;
    }
    assert(d.take(i - start) =~= d);
    Some(acc)
}

/// The `u8` that `s` writes in decimal.
pub fn parse_u8(s: &str) -> (r: Option<u8>)
    ensures
        r matches Some(n) ==> parse_number(s@, 10, 255) == Some(n as int),
        r is None ==> parse_number(s@, 10, 255) is None,
{
    match parse_bounded(s, 10, 255) {
        Some(n) => Some(n as u8),
        None => None,
    }
}

/// The `u8` that `s` writes in hexadecimal.
pub fn parse_hex_u8(s: &str) -> (r: Option<u8>)
    ensures
        r matches Some(n) ==> parse_number(s@, 16, 255) == Some(n as int),
        r is None ==> parse_number(s@, 16, 255) is None,
{
    match parse_bounded(s, 16, 255) {
        Some(n) => Some(n as u8),
        None => None,
    }
}

/// The `u16` that `s` writes in hexadecimal.
pub fn parse_hex_u16(s: &str) -> (r: Option<u16>)
    ensures
        r matches Some(n) ==> parse_number(s@, 16, 0xffff) == Some(n as int),
        r is None ==> parse_number(s@, 16, 0xffff) is None,
{
    match parse_bounded(s, 16, 0xffff) {
        Some(n) => Some(n as u16),
        None => None,
    }
}

/// The `u32` that `s` writes in decimal.
pub fn parse_u32(s: &str) -> (r: Option<u32>)
    ensures
        r matches Some(n) ==> parse_number(s@, 10, u32::MAX as int) == Some(n as int),
        r is None ==> parse_number(s@, 10, u32::MAX as int) is None,
{
    match parse_bounded(s, 10, 0xffff_ffff) {
        Some(n) => Some(n as u32),
        None => None,
    }
}

/// The `u64` that `s` writes in decimal.
pub fn parse_u64(s: &str) -> (r: Option<u64>)
    ensures
        r matches Some(n) ==> parse_number(s@, 10, u64::MAX as int) == Some(n as int),
        r is None ==> parse_number(s@, 10, u64::MAX as int) is None,
{
    parse_bounded(s, 10, 0xffff_ffff_ffff_ffff)
}

/// The digit `d` as a character.
fn digit_text(d: u8) -> (c: char)
    requires
        d < 36,
    ensures
        c == digit_char(d as int),
{
    if d < 10 {
        (48 + d) as char
    } else {
        (55 + d) as char
    }
}

/// `n` in decimal.
pub fn decimal_text(n: u64) -> (r: String)
    ensures
        r@ == decimal(n as nat),
    decreases n,
{
    if n < 10 {
        let mut s = String::new();
        s.push(digit_text(n as u8));
        assert(s@ =~= seq![digit_char(n as int)]);
        s
    } else {
        let mut s = decimal_text(n / 10);
        s.push(digit_text((n % 10) as u8));
        s
    }
}

/// `n` in decimal with at least two digits.
pub fn decimal2_text(n: u64) -> (r: String)
    ensures
        r@ == decimal2(n as nat),
{
    if n < 10 {
        let mut s = String::new();
        s.push('0');
        let d = decimal_text(n);
        s.append(d.as_str());
        assert(s@ =~= seq!['0'] + decimal(n as nat));
        s
    } else {
        decimal_text(n)
    }
}

/// A byte as two upper-case hexadecimal digits.
pub fn hex2_text(b: u8) -> (r: String)
    ensures
        r@ == hex2(b),
{
    let mut s = String::new();
    s.push(digit_text(b / 16));
    s.push(digit_text(b % 16));
    assert(s@ =~= hex2(b));
    s
}

/// A 16-bit word as four upper-case hexadecimal digits.
pub fn hex4_text(w: u16) -> (r: String)
    ensures
        r@ == hex4(w),
{
    let mut s = String::new();
    s.push(digit_text((w / 4096) as u8));
    s.push(digit_text((w / 256 % 16) as u8));
    s.push(digit_text((w / 16 % 16) as u8));
    s.push(digit_text((w % 16) as u8));
    assert(s@ =~= hex4(w));
    s
}

/// A list of numbers as `[a, b, c]`.
pub fn number_list_text(ns: &[u32]) -> (r: String)
    ensures
        r@ == number_list(ns@),
{
    let mut s = String::new();
    s.append("[");
    let ghost all = Seq::new(ns@.len(), |i: int| decimal(ns@[i] as nat));
    let mut i: usize = 0;
    proof {
        assert(s@ =~= "["@);
        assert("["@ + text::join(all.take(0), ", "@) =~= "["@);
    }
    while i < ns.len()
        invariant
            i <= ns.len(),
            all == Seq::new(ns@.len(), |i: int| decimal(ns@[i] as nat)),
            s@ == "["@ + text::join(all.take(i as int), ", "@),
        decreases ns.len() - i,
    {
        let ghost was = text::join(all.take(i as int), ", "@);
        proof {
            assert(all.take(i + 1).drop_last() =~= all.take(i as int));
            assert(all.take(i + 1).last() == decimal(ns@[i as int] as nat));
        }
        if i > 0 {
            s.append(", ");
        }
        let d = decimal_text(ns[i] as u64);
        s.append(d.as_str());
        proof {
            if i == 0 {
                assert(all.take(0) =~= Seq::<Seq<char>>::empty());
                assert(all.take(1)[0] == d@);
                assert(s@ =~= "["@ + d@);
            } else {
                assert(s@ =~= "["@ + (was + ", "@ + d@));
            }
        }
        i = i + 1;
    }
    assert(all.take(i as int) =~= all);
    s.append("]");
    s
}

// ---------------------------------------------------------------------------
// Rendering and parsing are inverse
// ---------------------------------------------------------------------------
/// Decimal rendering is made of decimal digits that write the number.
pub proof fn lemma_decimal_digits(n: nat)
    ensures
        decimal(n).len() >= 1,
        all_digits(decimal(n), 10),
        digits_value(decimal(n), 10) == n,
        decimal(n)[0] != '+',
    decreases n,
{
    let s = decimal(n);
    if n < 10 {
        assert(s.drop_last() =~= Seq::<char>::empty());
        assert(digits_value(Seq::<char>::empty(), 10) == 0);
    } else {
        let p = decimal(n / 10);
        lemma_decimal_digits(n / 10);
        assert(s.drop_last() =~= p);
        assert forall|i: int| 0 <= i < s.len() implies (#[trigger] digit_value(s[i], 10)) is Some by {
            if i < s.len() - 1 {
                assert(s[i] == p[i]);
                assert(digit_value(p[i], 10) is Some);
            }
        }
        assert(s[0] == p[0]);
    }
}

/// `n`, if it is at most `max`.
pub open spec fn within(n: nat, max: int) -> Option<int> {
    if n <= max {
        Some(n as int)
    } else {
        None
    }
}

/// Parsing the decimal text of a number gives the number back, or nothing where it
/// is too large.
pub proof fn law_parse_decimal(n: nat, max: int)
    ensures
        parse_number(decimal(n), 10, max) == within(n, max),
{
    lemma_decimal_digits(n);
}

/// The padded decimal text of a number has at least two digits, and parsing it
/// gives the number back, or nothing where it is too large.
pub proof fn law_parse_decimal2(n: nat, max: int)
    ensures
        decimal2(n).len() >= 2,
        all_digits(decimal2(n), 10),
        digits_value(decimal2(n), 10) == n,
        parse_number(decimal2(n), 10, max) == within(n, max),
{
    lemma_decimal_digits(n);
    let s = decimal2(n);
    if n < 10 {
        assert(s =~= seq!['0', digit_char(n as int)]);
        assert(s.drop_last() =~= seq!['0']);
        assert(seq!['0'].drop_last() =~= Seq::<char>::empty());
        reveal_with_fuel(digits_value, 3);
        assert(digit_value('0', 10) == Some(0int));
        assert(digit_value(digit_char(n as int), 10) == Some(n as int));
        assert(digits_value(seq!['0'], 10) == 0);
    } else {
        assert(decimal(n) == decimal(n / 10).push(digit_char((n % 10) as int)));
        lemma_decimal_digits(n / 10);
    }
}

/// Parsing the two-digit hexadecimal text of a byte gives the byte back.
pub proof fn law_parse_hex2(b: u8)
    ensures
        parse_number(hex2(b), 16, 255) == Some(b as int),
{
    let s = hex2(b);
    assert(s.drop_last() =~= seq![s[0]]);
    assert(seq![s[0]].drop_last() =~= Seq::<char>::empty());
    reveal_with_fuel(digits_value, 3);
    assert(unsigned_part(s) == s);
    assert(digit_value(s[0], 16) == Some(b as int / 16));
    assert(digit_value(s[1], 16) == Some(b as int % 16));
}

/// Parsing the four-digit hexadecimal text of a word gives the word back.
#[verifier::rlimit(40)]
#[verifier::spinoff_prover]
pub proof fn law_parse_hex4(w: u16)
    ensures
        parse_number(hex4(w), 16, 0xffff) == Some(w as int),
        all_digits(hex4(w), 16),
{
    let s = hex4(w);
    let a = seq![s[0], s[1], s[2]];
    let b = seq![s[0], s[1]];
    let c = seq![s[0]];
    assert(s.drop_last() =~= a);
    assert(a.drop_last() =~= b);
    assert(b.drop_last() =~= c);
    assert(c.drop_last() =~= Seq::<char>::empty());
    reveal_with_fuel(digits_value, 5);
    assert(unsigned_part(s) == s);
    assert(digit_value(s[0], 16) == Some(w as int / 4096));
    assert(digit_value(s[1], 16) == Some(w as int / 256 % 16));
    assert(digit_value(s[2], 16) == Some(w as int / 16 % 16));
    assert(digit_value(s[3], 16) == Some(w as int % 16));
}

/// Decimal text has no leading zero, and hexadecimal text is in upper case.
pub proof fn law_digits_are_canonical(n: nat, b: u8, w: u16)
    ensures
        n > 0 ==> decimal(n)[0] != '0',
        hex2(b).len() == 2,
        hex4(w).len() == 4,
        forall|i: int|
            0 <= i < 2 ==> '0' <= #[trigger] hex2(b)[i] <= '9' || 'A' <= hex2(b)[i] <= 'F',
        forall|i: int|
            0 <= i < 4 ==> '0' <= #[trigger] hex4(w)[i] <= '9' || 'A' <= hex4(w)[i] <= 'F',
    decreases n,
{
    if n >= 10 {
        law_digits_are_canonical(n / 10, b, w);
        lemma_decimal_digits(n / 10);
        assert(decimal(n)[0] == decimal(n / 10)[0]);
    }
    assert forall|i: int| 0 <= i < 4 implies '0' <= #[trigger] hex4(w)[i] <= '9' || 'A' <= hex4(
        w,
    )[i] <= 'F' by {
        assert(i == 0 || i == 1 || i == 2 || i == 3);
    }
}

/// A parsed number is at least zero and at most the bound.
pub proof fn lemma_parsed_is_bounded(s: Seq<char>, radix: int, max: int)
    requires
        radix > 0,
    ensures
        parse_number(s, radix, max) matches Some(n) ==> 0 <= n <= max,
{
    lemma_value_is_not_negative(unsigned_part(s), radix);
}

/// Digits are worth at least nothing.
proof fn lemma_value_is_not_negative(s: Seq<char>, radix: int)
    requires
        radix > 0,
    ensures
        all_digits(s, radix) ==> digits_value(s, radix) >= 0,
    decreases s.len(),
{
    if s.len() > 0 && all_digits(s, radix) {
        let most = s.drop_last();
        assert forall|i: int| 0 <= i < most.len() implies (#[trigger] digit_value(
            most[i],
            radix,
        )) is Some by {
            assert(most[i] == s[i]);
            assert(digit_value(s[i], radix) is Some);
        }
        lemma_value_is_not_negative(most, radix);
        assert(digit_value(s[s.len() - 1], radix) is Some);
        let v = digits_value(most, radix);
        assert(v * radix >= 0) by (nonlinear_arith)
            requires
                v >= 0,
                radix > 0,
        ;
    }
}

/// A list of numbers is shown in brackets, with a comma and a space between each
/// two.
pub proof fn law_numbers_are_shown_in_brackets(ns: Seq<u32>, n: u32)
    ensures
        number_list(Seq::empty()) == "[]"@,
        number_list(seq![n]) == "["@ + decimal(n as nat) + "]"@,
        ns.len() > 0 ==> number_list(ns.push(n)) == number_list(ns).drop_last() + ", "@ + decimal(
            n as nat,
        ) + "]"@,
{
    reveal_strlit("[");
    reveal_strlit("]");
    reveal_strlit("[]");
    let none = Seq::<u32>::empty();
    assert(number_list(none) =~= "[]"@);
    let shown = Seq::new(ns.len(), |i: int| decimal(ns[i] as nat));
    let one = Seq::new(seq![n].len(), |i: int| decimal(seq![n][i] as nat));
    let more = Seq::new(ns.push(n).len(), |i: int| decimal(ns.push(n)[i] as nat));
    assert(one =~= seq![decimal(n as nat)]);
    if ns.len() > 0 {
        assert(more.drop_last() =~= shown);
        assert(more.last() == decimal(n as nat));
        assert(number_list(ns).drop_last() =~= "["@ + text::join(shown, ", "@));
        assert(number_list(ns.push(n)) =~= number_list(ns).drop_last() + ", "@ + decimal(n as nat)
            + "]"@);
    }
}

/// What the digits are worth: the ten decimal ones, and in base 16 the letters from
/// `a` to `f` in either case.
pub proof fn law_digits_are_worth(c: char)
    ensures
        '0' <= c <= '9' ==> digit_value(c, 10) == Some(c as int - '0' as int) && digit_value(c, 16)
            == digit_value(c, 10),
        'a' <= c <= 'f' ==> digit_value(c, 16) == Some(c as int - 'a' as int + 10),
        'A' <= c <= 'F' ==> digit_value(c, 16) == Some(c as int - 'A' as int + 10),
        !('0' <= c <= '9') ==> digit_value(c, 10) is None,
        !('0' <= c <= '9') && !('a' <= c <= 'f') && !('A' <= c <= 'F') ==> digit_value(c, 16)
            is None,
{
}

/// One more digit makes a number its base times as large and adds the digit.
pub proof fn law_digits_have_places(s: Seq<char>, c: char, radix: int)
    ensures
        digits_value(Seq::empty(), radix) == 0,
        digits_value(s.push(c), radix) == digits_value(s, radix) * radix + digit_value(
            c,
            radix,
        )->0,
{
    assert(s.push(c).drop_last() =~= s);
}

/// A number is one or more digits, with or without one plus sign in front; nothing
/// else is taken, and nothing above the bound.
pub proof fn law_numbers_are_digits(s: Seq<char>, radix: int, max: int)
    requires
        radix > 0,
    ensures
        parse_number(Seq::empty(), radix, max) is None,
        parse_number(seq!['+'], radix, max) is None,
        s.len() > 0 && all_digits(s, radix) ==> {
            &&& digits_value(s, radix) <= max ==> parse_number(s, radix, max) == Some(
                digits_value(s, radix),
            )
            &&& digits_value(s, radix) > max ==> parse_number(s, radix, max) is None
            &&& parse_number(seq!['+'] + s, radix, max) == parse_number(s, radix, max)
        },
        !all_digits(s, radix) && (s.len() == 0 || s[0] != '+') ==> parse_number(s, radix, max)
            is None && parse_number(seq!['+'] + s, radix, max) is None,
{
    let signed = seq!['+'] + s;
    assert(signed.skip(1) =~= s);
    assert(seq!['+'].skip(1) =~= Seq::<char>::empty());
    assert(digit_value('+', radix) is None);
    if s.len() > 0 && all_digits(s, radix) {
        assert(digit_value(s[0], radix) is Some);
    }
}

} // verus!
