//! What holds of the command language of `rw-vn100` for every value: which command
//! line means which command, and that options may stand anywhere.
use crate::cli;
use crate::cli::{BinSetView, CommandView, ConfigView, OptionsView};
use crate::fields;
use crate::number;
use crate::registers;
use crate::text;
use vstd::prelude::*;
use vstd::string::*;

verus! {

// ---------------------------------------------------------------------------
// Plain words
// ---------------------------------------------------------------------------
/// Whether a word is no option, and no request for help or the version. Any other
/// word with a dash in front, such as a negative number, is plain too.
pub open spec fn is_plain(word: Seq<char>) -> bool {
    &&& word != "--port"@ && word != "--baud"@ && word != "--persist"@
    &&& word != "help"@ && word != "--help"@ && word != "-h"@
    &&& word != "--version"@ && word != "-V"@
}

/// A word that begins with neither a dash nor an `h` is plain.
proof fn lemma_plain_by_letter(word: Seq<char>)
    requires
        word.len() > 0,
        word[0] != '-',
        word[0] != 'h',
    ensures
        is_plain(word),
{
    reveal_strlit("--port");
    reveal_strlit("--baud");
    reveal_strlit("--persist");
    reveal_strlit("help");
    reveal_strlit("--help");
    reveal_strlit("-h");
    reveal_strlit("--version");
    reveal_strlit("-V");
    assert("--port"@[0] == '-' && "--baud"@[0] == '-' && "--persist"@[0] == '-');
    assert("help"@[0] == 'h' && "--help"@[0] == '-' && "-h"@[0] == '-');
    assert("--version"@[0] == '-' && "-V"@[0] == '-');
}

/// Whether all these words are plain.
pub open spec fn all_plain(words: Seq<Seq<char>>) -> bool {
    forall|i: int| 0 <= i < words.len() ==> is_plain(#[trigger] words[i])
}

/// Plain words are positional, in their order.
proof fn lemma_plain_words(words: Seq<Seq<char>>, o: OptionsView)
    requires
        all_plain(words),
    ensures
        cli::read_options(words, o) == Ok::<OptionsView, Seq<char>>(
            OptionsView { positional: o.positional + words, ..o },
        ),
    decreases words.len(),
{
    if words.len() == 0 {
        assert(o.positional + words =~= o.positional);
    } else {
        assert(is_plain(words[0]));
        let rest = words.skip(1);
        assert forall|i: int| 0 <= i < rest.len() implies is_plain(#[trigger] rest[i]) by {
            assert(rest[i] == words[i + 1]);
        }
        lemma_plain_words(rest, OptionsView { positional: o.positional.push(words[0]), ..o });
        assert(o.positional.push(words[0]) + rest =~= o.positional + words);
    }
}

/// Plain words ask for neither help nor the version.
proof fn lemma_plain_asks_for_nothing(words: Seq<Seq<char>>)
    requires
        all_plain(words),
    ensures
        !cli::asks_for_text(words),
{
    assert forall|w: Seq<char>| #[trigger] words.contains(w) implies is_plain(w) by {
        let i = choose|i: int| 0 <= i < words.len() && words[i] == w;
        assert(is_plain(words[i]));
    }
}

/// What plain words mean: a command at the default port and baud rate, not saved.
proof fn lemma_plain_line(words: Seq<Seq<char>>)
    requires
        all_plain(words),
    ensures
        cli::command_line(words) == match cli::command_of(words, false) {
            Ok(c) => Ok::<(ConfigView, CommandView), Seq<char>>((default_config(), c)),
            Err(e) => Err::<(ConfigView, CommandView), Seq<char>>(e),
        },
{
    lemma_plain_words(words, cli::default_options());
    lemma_plain_asks_for_nothing(words);
    assert(Seq::<Seq<char>>::empty() + words =~= words);
}

/// The port and baud rate without options.
pub open spec fn default_config() -> ConfigView {
    ConfigView { port: "/dev/ttyAMA0"@, baud: 115200 }
}

/// Whether the words mean this command, at the default port and baud rate.
pub open spec fn means(words: Seq<Seq<char>>, c: CommandView) -> bool {
    cli::command_line(words) == Ok::<(ConfigView, CommandView), Seq<char>>((default_config(), c))
}

/// Whether the words are refused with this message.
pub open spec fn refused(words: Seq<Seq<char>>, message: Seq<char>) -> bool {
    cli::command_line(words) == Err::<(ConfigView, CommandView), Seq<char>>(message)
}

/// The verbs differ: by length, or by a letter.
proof fn lemma_all_verbs()
    ensures
        "get-ascii"@.len() == 9 && "get-ascii"@[0] == 'g',
        "set-ascii"@.len() == 9 && "set-ascii"@[0] == 's',
        "set-ascii-hz"@.len() == 12 && "set-ascii-hz"@[0] == 's',
        "get-bin"@.len() == 7 && "get-bin"@[0] == 'g',
        "set-bin"@.len() == 7 && "set-bin"@[0] == 's',
        "set-bin-fields"@.len() == 14 && "set-bin-fields"@[0] == 's',
        "set-bin-hz"@.len() == 10 && "set-bin-hz"@[0] == 's',
        "baud"@.len() == 4 && "baud"@[0] == 'b',
        "rrg"@.len() == 3 && "rrg"@[0] == 'r',
        "wrg"@.len() == 3 && "wrg"@[0] == 'w',
        "reset"@.len() == 5 && "reset"@[0] == 'r',
        "factory-reset"@.len() == 13 && "factory-reset"@[0] == 'f',
        "bench"@.len() == 5 && "bench"@[0] == 'b',
        "help"@.len() == 4 && "help"@[0] == 'h',
        is_plain("baud"@) && is_plain("rrg"@) && is_plain("wrg"@) && is_plain("bench"@),
        is_plain("reset"@) && is_plain("factory-reset"@),
        is_plain("get-ascii"@) && is_plain("get-bin"@) && is_plain("set-ascii"@),
        is_plain("set-ascii-hz"@) && is_plain("set-bin"@) && is_plain("set-bin-fields"@),
        is_plain("set-bin-hz"@),
        forall|j: int| 0 <= j < 9 ==> "set-ascii"@[j] != '=',
        forall|j: int| 0 <= j < 12 ==> "set-ascii-hz"@[j] != '=',
        forall|j: int| 0 <= j < 7 ==> "set-bin"@[j] != '=',
        forall|j: int| 0 <= j < 14 ==> "set-bin-fields"@[j] != '=',
        forall|j: int| 0 <= j < 10 ==> "set-bin-hz"@[j] != '=',
        forall|j: int| 0 <= j < 9 ==> "get-ascii"@[j] != '=',
        forall|j: int| 0 <= j < 7 ==> "get-bin"@[j] != '=',
        forall|j: int| 0 <= j < 4 ==> "baud"@[j] != '=',
        forall|j: int| 0 <= j < 3 ==> "rrg"@[j] != '=',
        forall|j: int| 0 <= j < 3 ==> "wrg"@[j] != '=',
        forall|j: int| 0 <= j < 5 ==> "reset"@[j] != '=',
        forall|j: int| 0 <= j < 13 ==> "factory-reset"@[j] != '=',
        forall|j: int| 0 <= j < 5 ==> "bench"@[j] != '=',
{
    reveal_strlit("get-ascii");
    reveal_strlit("set-ascii");
    reveal_strlit("set-ascii-hz");
    reveal_strlit("get-bin");
    reveal_strlit("set-bin");
    reveal_strlit("set-bin-fields");
    reveal_strlit("set-bin-hz");
    reveal_strlit("baud");
    reveal_strlit("rrg");
    reveal_strlit("wrg");
    reveal_strlit("reset");
    reveal_strlit("factory-reset");
    reveal_strlit("bench");
    reveal_strlit("help");
    lemma_plain_by_letter("baud"@);
    lemma_plain_by_letter("rrg"@);
    lemma_plain_by_letter("wrg"@);
    lemma_plain_by_letter("bench"@);
    lemma_plain_by_letter("reset"@);
    lemma_plain_by_letter("factory-reset"@);
    lemma_plain_by_letter("get-ascii"@);
    lemma_plain_by_letter("get-bin"@);
    lemma_plain_by_letter("set-ascii"@);
    lemma_plain_by_letter("set-ascii-hz"@);
    lemma_plain_by_letter("set-bin"@);
    lemma_plain_by_letter("set-bin-fields"@);
    lemma_plain_by_letter("set-bin-hz"@);
}

/// One word `verb=value` is plain and splits into the two.
proof fn lemma_valued_word(verb: Seq<char>, value: Seq<char>)
    requires
        verb.len() > 0,
        verb[0] != '-',
        verb[0] != 'h',
        forall|j: int| 0 <= j < verb.len() ==> #[trigger] verb[j] != '=',
    ensures
        ({
            let word = verb + seq!['='] + value;
            &&& all_plain(seq![word])
            &&& cli::verb_of(word) == verb
            &&& cli::value_of(word) == Some(value)
        }),
{
    let word = verb + seq!['='] + value;
    assert(word[0] == verb[0]);
    lemma_plain_by_letter(word);
    cli::lemma_valued(word, verb, value);
}

/// A decimal number is a plain word.
proof fn lemma_number_is_plain(n: nat)
    ensures
        is_plain(number::decimal(n)),
{
    let d = number::decimal(n);
    number::lemma_decimal_digits(n);
    assert(number::digit_value(d[0], 10) is Some);
    assert(number::digit_value('-', 10) is None);
    assert(number::digit_value('h', 10) is None);
    lemma_plain_by_letter(d);
}

// ---------------------------------------------------------------------------
// The verbs, for every value
// ---------------------------------------------------------------------------
/// Whether `hz` is one of the async rates of the firmware.
pub open spec fn is_async_rate(hz: u32) -> bool {
    hz == 1 || hz == 2 || hz == 4 || hz == 5 || hz == 10 || hz == 20 || hz == 25 || hz == 40 || hz
        == 50 || hz == 100 || hz == 200
}

/// Whether `baud` is one of the device's baud rates.
pub open spec fn is_device_baud(baud: u32) -> bool {
    baud == 9600 || baud == 19200 || baud == 38400 || baud == 57600 || baud == 115200 || baud
        == 128000 || baud == 230400 || baud == 460800 || baud == 921600
}

/// The lists of rates hold these and no others.
pub proof fn law_rate_lists(n: u32)
    ensures
        registers::rates().contains(n) <==> is_async_rate(n),
        registers::bauds().contains(n) <==> is_device_baud(n),
{
    let r = registers::rates();
    let b = registers::bauds();
    assert(r[0] == 1 && r[1] == 2 && r[2] == 4 && r[3] == 5 && r[4] == 10 && r[5] == 20 && r[6]
        == 25 && r[7] == 40 && r[8] == 50 && r[9] == 100 && r[10] == 200);
    assert(b[0] == 9600 && b[1] == 19200 && b[2] == 38400 && b[3] == 57600 && b[4] == 115200
        && b[5] == 128000 && b[6] == 230400 && b[7] == 460800 && b[8] == 921600);
}

/// `set-ascii-hz=<n>` sets that rate where the firmware has it, and is refused with
/// the list of rates where it has not, however the number is written.
pub proof fn law_set_ascii_hz(d: Seq<char>, hz: u32)
    requires
        number::parse_number(d, 10, u32::MAX as int) == Some(hz as int),
    ensures
        ({
            let words = seq!["set-ascii-hz"@ + seq!['='] + d];
            &&& is_async_rate(hz) ==> means(words, CommandView::SetAsciiHz { hz, persist: false })
            &&& !is_async_rate(hz) ==> refused(
                words,
                number::decimal(hz as nat) + " Hz is not a valid ASCII async rate; choose one of "@
                    + number::number_list(registers::rates()),
            )
        }),
{
    let words = seq!["set-ascii-hz"@ + seq!['='] + d];
    lemma_all_verbs();
    lemma_valued_word("set-ascii-hz"@, d);
    lemma_plain_line(words);
    law_rate_lists(hz);
}

/// `set-bin-hz=<n>` sets that rate exactly where 800 is a multiple of it, however
/// the number is written.
pub proof fn law_set_bin_hz(d: Seq<char>, hz: u32, divisor: u32)
    requires
        number::parse_number(d, 10, u32::MAX as int) == Some(hz as int),
    ensures
        ({
            let words = seq!["set-bin-hz"@ + seq!['='] + d];
            &&& hz * divisor == 800 ==> means(words, CommandView::SetBinHz { hz, persist: false })
            &&& cli::command_line(words) is Ok ==> hz * (800u32 / hz) == 800
            &&& cli::command_line(words) is Err ==> refused(
                words,
                number::decimal(hz as nat)
                    + " Hz invalid for binary; the rate is 800/divisor, so HZ must divide 800 (e.g. 50, 100, 200, 400)"@,
            )
        }),
{
    let words = seq!["set-bin-hz"@ + seq!['='] + d];
    lemma_all_verbs();
    lemma_valued_word("set-bin-hz"@, d);
    lemma_plain_line(words);
    registers::law_binary_rates(hz, divisor);
}

/// `set-ascii=<name>` sets the preset of that name, and `set-bin-fields=<list>` the
/// fields of that list; what names none is refused as it was found wanting.
pub proof fn law_set_ascii_and_fields(s: Seq<char>)
    ensures
        ({
            let ascii = seq!["set-ascii"@ + seq!['='] + s];
            let fields = seq!["set-bin-fields"@ + seq!['='] + s];
            &&& match registers::ascii_preset(s) {
                Ok(preset) => means(ascii, CommandView::SetAscii { preset, persist: false }),
                Err(e) => refused(ascii, e),
            }
            &&& match fields::field_list(s) {
                Ok(fs) => means(
                    fields,
                    CommandView::SetBin { action: BinSetView::Fields(fs), persist: false },
                ),
                Err(e) => refused(fields, e),
            }
        }),
{
    lemma_all_verbs();
    lemma_valued_word("set-ascii"@, s);
    lemma_valued_word("set-bin-fields"@, s);
    lemma_plain_line(seq!["set-ascii"@ + seq!['='] + s]);
    lemma_plain_line(seq!["set-bin-fields"@ + seq!['='] + s]);
}

/// `set-bin=on` enables streaming, `set-bin=off` turns it off, and no other value
/// is taken.
pub proof fn law_set_bin(s: Seq<char>)
    ensures
        ({
            let words = seq!["set-bin"@ + seq!['='] + s];
            &&& s == "on"@ ==> means(
                words,
                CommandView::SetBin { action: BinSetView::Enable, persist: false },
            )
            &&& s == "off"@ ==> means(
                words,
                CommandView::SetBin { action: BinSetView::Off, persist: false },
            )
            &&& s != "on"@ && s != "off"@ ==> refused(
                words,
                "set-bin needs =on or =off (set fields with set-bin-fields=<FIELDS>)"@,
            )
        }),
{
    lemma_all_verbs();
    reveal_strlit("on");
    reveal_strlit("off");
    assert("on"@.len() == 2 && "off"@.len() == 3);
    lemma_valued_word("set-bin"@, s);
    lemma_plain_line(seq!["set-bin"@ + seq!['='] + s]);
}

/// `baud <n>` sets that baud rate where the device has it, and is refused with the
/// list where it has not, however the number is written.
pub proof fn law_baud(d: Seq<char>, n: u32)
    requires
        is_plain(d),
        number::parse_number(d, 10, u32::MAX as int) == Some(n as int),
    ensures
        ({
            let words = seq!["baud"@, d];
            &&& is_device_baud(n) ==> means(words, CommandView::SetBaud { baud: n, persist: false })
            &&& !is_device_baud(n) ==> refused(
                words,
                number::decimal(n as nat) + " is not a valid VN-100 baud; choose one of "@
                    + number::number_list(registers::bauds()),
            )
        }),
{
    let words = seq!["baud"@, d];
    lemma_all_verbs();
    cli::lemma_bare("baud"@);
    lemma_plain_line(words);
    law_rate_lists(n);
}

/// `rrg <n>` reads register `n` where there is one, from 0 to 255.
pub proof fn law_rrg(n: nat, d: Seq<char>, id: u8)
    requires
        is_plain(d),
        number::parse_number(d, 10, 255) == Some(id as int),
    ensures
        means(seq!["rrg"@, d], CommandView::Rrg { id }),
        ({
            let words = seq!["rrg"@, number::decimal(n)];
            &&& n <= 255 ==> means(words, CommandView::Rrg { id: n as u8 })
            &&& n > 255 ==> refused(words, "register id must be 0-255"@)
        }),
{
    let words = seq!["rrg"@, number::decimal(n)];
    lemma_all_verbs();
    lemma_number_is_plain(n);
    cli::lemma_bare("rrg"@);
    lemma_plain_line(words);
    lemma_plain_line(seq!["rrg"@, d]);
    number::law_parse_decimal(n, 255);
}

/// `wrg <n> <values>` writes the values, as they stand and in their order, to
/// register `n` where there is one, from 0 to 255, and if there is a value.
pub proof fn law_wrg(n: nat, values: Seq<Seq<char>>)
    requires
        all_plain(values),
    ensures
        ({
            let words = seq!["wrg"@, number::decimal(n)] + values;
            &&& n <= 255 && values.len() > 0 ==> means(
                words,
                CommandView::Wrg { id: n as u8, params: values },
            )
            &&& n <= 255 && values.len() == 0 ==> refused(
                words,
                "wrg requires at least one value, e.g. `wrg 7 40`"@,
            )
            &&& n > 255 ==> refused(words, "register id must be 0-255"@)
        }),
{
    let words = seq!["wrg"@, number::decimal(n)] + values;
    lemma_all_verbs();
    lemma_number_is_plain(n);
    cli::lemma_bare("wrg"@);
    assert forall|i: int| 0 <= i < words.len() implies is_plain(#[trigger] words[i]) by {
        if i >= 2 {
            assert(words[i] == values[i - 2]);
        }
    }
    lemma_plain_line(words);
    assert(words.skip(2) =~= values);
    number::law_parse_decimal(n, 255);
}

/// `bench` measures for 5 seconds, and `bench <n>` for `n`, as far as 64 bits hold
/// them; a third word is refused.
#[verifier::rlimit(80)]
pub proof fn law_bench(n: nat, more: Seq<Seq<char>>)
    requires
        all_plain(more),
    ensures
        means(seq!["bench"@], CommandView::Bench { secs: 5 }),
        n <= u64::MAX ==> means(
            seq!["bench"@, number::decimal(n)],
            CommandView::Bench { secs: n as u64 },
        ),
        n > u64::MAX ==> refused(
            seq!["bench"@, number::decimal(n)],
            "bench duration must be a number of seconds, got `"@ + number::decimal(n) + "`"@,
        ),
        more.len() >= 2 ==> refused(
            seq!["bench"@] + more,
            "bench takes at most one argument, the measurement duration in seconds (e.g. `bench 10`); it is passive and configures nothing"@,
        ),
{
    let words = seq!["bench"@] + more;
    lemma_all_verbs();
    lemma_number_is_plain(n);
    cli::lemma_bare("bench"@);
    lemma_plain_line(seq!["bench"@]);
    lemma_plain_line(seq!["bench"@, number::decimal(n)]);
    assert forall|i: int| 0 <= i < words.len() implies is_plain(#[trigger] words[i]) by {
        if i >= 1 {
            assert(words[i] == more[i - 1]);
        }
    }
    lemma_plain_line(words);
    number::law_parse_decimal(n, u64::MAX as int);
}

/// The verbs without a value mean themselves.
#[verifier::rlimit(80)]
pub proof fn law_bare_verbs()
    ensures
        means(seq!["get-ascii"@], CommandView::GetAscii),
        means(seq!["get-bin"@], CommandView::GetBin),
        means(seq!["reset"@], CommandView::Reset),
        means(seq!["factory-reset"@], CommandView::FactoryReset),
{
    lemma_all_verbs();
    cli::lemma_bare("get-ascii"@);
    cli::lemma_bare("get-bin"@);
    cli::lemma_bare("reset"@);
    cli::lemma_bare("factory-reset"@);
    lemma_plain_line(seq!["get-ascii"@]);
    lemma_plain_line(seq!["get-bin"@]);
    lemma_plain_line(seq!["reset"@]);
    lemma_plain_line(seq!["factory-reset"@]);
}

/// The verbs that take no value ignore one.
#[verifier::rlimit(80)]
pub proof fn law_needless_values_are_ignored(v: Seq<char>)
    ensures
        means(seq!["get-ascii"@ + seq!['='] + v], CommandView::GetAscii),
        means(seq!["get-bin"@ + seq!['='] + v], CommandView::GetBin),
        means(seq!["reset"@ + seq!['='] + v], CommandView::Reset),
        means(seq!["factory-reset"@ + seq!['='] + v], CommandView::FactoryReset),
{
    lemma_all_verbs();
    lemma_valued_word("get-ascii"@, v);
    lemma_valued_word("get-bin"@, v);
    lemma_valued_word("reset"@, v);
    lemma_valued_word("factory-reset"@, v);
    lemma_plain_line(seq!["get-ascii"@ + seq!['='] + v]);
    lemma_plain_line(seq!["get-bin"@ + seq!['='] + v]);
    lemma_plain_line(seq!["reset"@ + seq!['='] + v]);
    lemma_plain_line(seq!["factory-reset"@ + seq!['='] + v]);
}

/// Words after a whole command are ignored, but for `bench`, which refuses them, and
/// `wrg`, which writes them.
pub proof fn law_further_words_are_ignored(words: Seq<Seq<char>>, more: Seq<Seq<char>>)
    requires
        all_plain(words),
        all_plain(more),
        words.len() >= 1,
        cli::verb_of(words[0]) != "wrg"@,
        cli::verb_of(words[0]) != "bench"@,
        words.len() >= 2 || (cli::verb_of(words[0]) != "baud"@ && cli::verb_of(words[0])
            != "rrg"@),
    ensures
        cli::command_line(words + more) == cli::command_line(words),
{
    let all = words + more;
    assert forall|i: int| 0 <= i < all.len() implies is_plain(#[trigger] all[i]) by {
        if i < words.len() {
            assert(is_plain(words[i]));
        } else {
            assert(is_plain(more[i - words.len()]));
        }
    }
    lemma_plain_line(words);
    lemma_plain_line(all);
    assert(all[0] == words[0]);
    if words.len() >= 2 {
        assert(all[1] == words[1]);
    }
}

/// A verb that needs a value and has none is refused with an example of one.
#[verifier::rlimit(80)]
pub proof fn law_missing_values_are_named()
    ensures
        refused(
            seq!["set-ascii"@],
            "set-ascii needs a preset, e.g. `set-ascii=ymr` (or `set-ascii=off`)"@,
        ),
        refused(seq!["set-ascii-hz"@], "set-ascii-hz needs a rate, e.g. `set-ascii-hz=40`"@),
        refused(
            seq!["set-bin"@],
            "set-bin needs =on or =off (set fields with set-bin-fields=<FIELDS>)"@,
        ),
        refused(
            seq!["set-bin-fields"@],
            "set-bin-fields needs a field list, e.g. `set-bin-fields=time,accel,gyro`"@,
        ),
        refused(seq!["set-bin-hz"@], "set-bin-hz needs a rate, e.g. `set-bin-hz=200`"@),
        refused(seq!["baud"@], "baud requires a value, e.g. `baud 921600`"@),
        refused(seq!["rrg"@], "rrg requires a register id, e.g. `rrg 1`"@),
        refused(seq!["wrg"@], "wrg requires a register id, e.g. `wrg 7 40`"@),
{
    lemma_all_verbs();
    lemma_bare_value("set-ascii"@);
    lemma_bare_value("set-ascii-hz"@);
    lemma_bare_value("set-bin"@);
    lemma_bare_value("set-bin-fields"@);
    lemma_bare_value("set-bin-hz"@);
    lemma_bare_value("baud"@);
    lemma_bare_value("rrg"@);
    lemma_bare_value("wrg"@);
    lemma_plain_line(seq!["set-ascii"@]);
    lemma_plain_line(seq!["set-ascii-hz"@]);
    lemma_plain_line(seq!["set-bin"@]);
    lemma_plain_line(seq!["set-bin-fields"@]);
    lemma_plain_line(seq!["set-bin-hz"@]);
    lemma_plain_line(seq!["baud"@]);
    lemma_plain_line(seq!["rrg"@]);
    lemma_plain_line(seq!["wrg"@]);
}

/// Where a number is needed, what is none is refused as that.
#[verifier::rlimit(80)]
pub proof fn law_wrong_numbers_are_named(w: Seq<char>)
    requires
        is_plain(w),
        number::parse_number(w, 10, u64::MAX as int) is None,
        number::parse_number(w, 10, u32::MAX as int) is None,
        number::parse_number(w, 10, 255) is None,
    ensures
        refused(seq!["set-ascii-hz"@ + seq!['='] + w], "ASCII rate must be a number"@),
        refused(seq!["set-bin-hz"@ + seq!['='] + w], "binary rate must be a number"@),
        refused(seq!["baud"@, w], "baud must be a number"@),
        refused(seq!["rrg"@, w], "register id must be 0-255"@),
        refused(seq!["wrg"@, w], "register id must be 0-255"@),
        refused(
            seq!["bench"@, w],
            "bench duration must be a number of seconds, got `"@ + w + "`"@,
        ),
{
    lemma_all_verbs();
    lemma_bare_value("baud"@);
    lemma_bare_value("rrg"@);
    lemma_bare_value("wrg"@);
    lemma_bare_value("bench"@);
    lemma_valued_word("set-ascii-hz"@, w);
    lemma_valued_word("set-bin-hz"@, w);
    lemma_plain_line(seq!["set-ascii-hz"@ + seq!['='] + w]);
    lemma_plain_line(seq!["set-bin-hz"@ + seq!['='] + w]);
    lemma_plain_line(seq!["baud"@, w]);
    lemma_plain_line(seq!["rrg"@, w]);
    lemma_plain_line(seq!["wrg"@, w]);
    lemma_plain_line(seq!["bench"@, w]);
}

/// A word without an `=` is its own verb and has no value.
proof fn lemma_bare_value(word: Seq<char>)
    requires
        forall|j: int| 0 <= j < word.len() ==> #[trigger] word[j] != '=',
    ensures
        cli::verb_of(word) == word,
        cli::value_of(word) is None,
{
    text::lemma_find(word, '=');
}

/// Without a word there is no command; a word that is no verb is named as unknown.
pub proof fn law_unknown_verbs_are_named(w: Seq<char>)
    requires
        is_plain(w),
        !w.contains('='),
        w != "get-ascii"@ && w != "set-ascii"@ && w != "set-ascii-hz"@ && w != "get-bin"@,
        w != "set-bin"@ && w != "set-bin-fields"@ && w != "set-bin-hz"@ && w != "baud"@,
        w != "rrg"@ && w != "wrg"@ && w != "reset"@ && w != "factory-reset"@ && w != "bench"@,
    ensures
        refused(seq![w], "unknown command `"@ + w + "`"@),
        refused(
            Seq::empty(),
            "missing command (`get-ascii`, `set-ascii`, `set-ascii-hz`, `get-bin`, `set-bin-fields`, `set-bin-hz`, `set-bin`, `baud`, `rrg`, `wrg`, `bench`, `reset`, `factory-reset`, or `help`)"@,
        ),
{
    assert forall|j: int| 0 <= j < w.len() implies #[trigger] w[j] != '=' by {
        assert(w.contains(w[j]));
    }
    cli::lemma_bare(w);
    lemma_plain_line(seq![w]);
    lemma_plain_line(Seq::empty());
}

// ---------------------------------------------------------------------------
// Options
// ---------------------------------------------------------------------------
/// The same command, saved to flash.
pub open spec fn saved(c: CommandView) -> CommandView {
    match c {
        CommandView::SetAscii { preset, persist } => CommandView::SetAscii {
            preset,
            persist: true,
        },
        CommandView::SetAsciiHz { hz, persist } => CommandView::SetAsciiHz { hz, persist: true },
        CommandView::SetBin { action, persist } => CommandView::SetBin { action, persist: true },
        CommandView::SetBinHz { hz, persist } => CommandView::SetBinHz { hz, persist: true },
        CommandView::SetBaud { baud, persist } => CommandView::SetBaud { baud, persist: true },
        _ => c,
    }
}

/// Whether two readings differ in their baud rate and in being saved at most.
spec fn differ_in_options(
    x: Result<OptionsView, Seq<char>>,
    y: Result<OptionsView, Seq<char>>,
    baud: bool,
    persist: bool,
) -> bool {
    match (x, y) {
        (Ok(o), Ok(q)) => {
            &&& q.port == o.port
            &&& q.positional == o.positional
            &&& !baud ==> q.baud == o.baud
            &&& !persist ==> q.persist == o.persist
        },
        (Err(e), Err(f)) => e == f,
        _ => false,
    }
}

/// The baud rate and the persist flag to start from make no difference but for
/// themselves.
proof fn lemma_options_are_apart(
    args: Seq<Seq<char>>,
    o: OptionsView,
    q: OptionsView,
    baud: bool,
    persist: bool,
)
    requires
        differ_in_options(Ok(o), Ok(q), baud, persist),
    ensures
        differ_in_options(cli::read_options(args, o), cli::read_options(args, q), baud, persist),
        !args.contains("--baud"@) ==> (cli::read_options(args, q) matches Ok(r) ==> r.baud
            == q.baud),
        q.persist || args.contains("--persist"@) ==> (cli::read_options(args, q) matches Ok(r)
            ==> r.persist || !q.persist),
    decreases args.len(),
{
    reveal_strlit("--port");
    reveal_strlit("--baud");
    reveal_strlit("--persist");
    if args.len() > 0 {
        assert forall|w: Seq<char>, n: int|
            0 <= n <= args.len() && #[trigger] args.skip(n).contains(w) implies args.contains(w) by {
            let i = choose|i: int| 0 <= i < args.skip(n).len() && args.skip(n)[i] == w;
            assert(args[i + n] == w);
        }
        assert(args.contains(args[0]));
        if args[0] == "--port"@ {
            if args.len() >= 2 {
                lemma_options_are_apart(
                    args.skip(2),
                    OptionsView { port: args[1], ..o },
                    OptionsView { port: args[1], ..q },
                    baud,
                    persist,
                );
            }
        } else if args[0] == "--baud"@ {
            if args.len() >= 2 {
                match number::parse_number(args[1], 10, u32::MAX as int) {
                    Some(n) => lemma_options_are_apart(
                        args.skip(2),
                        OptionsView { baud: n as u32, ..o },
                        OptionsView { baud: n as u32, ..q },
                        baud,
                        persist,
                    ),
                    None => {},
                }
            }
        } else if args[0] == "--persist"@ {
            lemma_options_are_apart(
                args.skip(1),
                OptionsView { persist: true, ..o },
                OptionsView { persist: true, ..q },
                baud,
                persist,
            );
        } else {
            lemma_options_are_apart(
                args.skip(1),
                OptionsView { positional: o.positional.push(args[0]), ..o },
                OptionsView { positional: q.positional.push(args[0]), ..q },
                baud,
                persist,
            );
        }
    }
}

/// Arguments that ask for no text still ask for none with these between them.
proof fn lemma_between_asks_for_nothing(
    a: Seq<Seq<char>>,
    m: Seq<Seq<char>>,
    b: Seq<Seq<char>>,
)
    requires
        !cli::asks_for_text(a),
        !cli::asks_for_text(m),
        !cli::asks_for_text(b),
    ensures
        !cli::asks_for_text(a + m + b),
        !cli::asks_for_text(a + b),
{
    assert forall|w: Seq<char>| #[trigger] (a + m + b).contains(w) implies a.contains(w)
        || m.contains(w) || b.contains(w) by {
        let all = a + m + b;
        let i = choose|i: int| 0 <= i < all.len() && all[i] == w;
        if i < a.len() {
            assert(a[i] == w);
        } else if i < a.len() + m.len() {
            assert(m[i - a.len()] == w);
        } else {
            assert(b[i - a.len() - m.len()] == w);
        }
    }
    assert forall|w: Seq<char>| #[trigger] (a + b).contains(w) implies a.contains(w)
        || b.contains(w) by {
        let i = choose|i: int| 0 <= i < (a + b).len() && (a + b)[i] == w;
        if i < a.len() {
            assert(a[i] == w);
        } else {
            assert(b[i - a.len()] == w);
        }
    }
}

/// Where `--baud` stands among the arguments makes no difference: putting
/// `--baud <n>` between complete arguments and others changes nothing but the baud
/// rate of the connection, which is the given one unless a later `--baud` overrides
/// it.
pub proof fn law_baud_option_may_stand_anywhere(
    a: Seq<Seq<char>>,
    b: Seq<Seq<char>>,
    d: Seq<char>,
    n: u32,
)
    requires
        cli::is_complete(a),
        !cli::asks_for_text(a),
        !cli::asks_for_text(b),
        is_plain(d),
        number::parse_number(d, 10, u32::MAX as int) == Some(n as int),
    ensures
        ({
            let with = cli::command_line(a + seq!["--baud"@, d] + b);
            let without = cli::command_line(a + b);
            match (with, without) {
                (Ok((c, command)), Ok((d, same))) => {
                    &&& command == same
                    &&& c.port == d.port
                    &&& !b.contains("--baud"@) ==> c.baud == n
                },
                (Err(e), Err(f)) => e == f,
                _ => false,
            }
        }),
{
    let flag = seq!["--baud"@, d];
    let o = cli::default_options();
    reveal_strlit("--port");
    reveal_strlit("--baud");
    reveal_strlit("--persist");
    lemma_plain_asks_for_nothing(seq![d]);
    assert(!cli::asks_for_text(flag)) by {
        reveal_strlit("help");
        reveal_strlit("--help");
        reveal_strlit("-h");
        reveal_strlit("--version");
        reveal_strlit("-V");
        assert("--baud"@[2] == 'b' && "--help"@[2] == 'h' && "--baud"@.len() == 6);
        assert("help"@.len() == 4 && "-h"@.len() == 2 && "--version"@.len() == 9 && "-V"@.len()
            == 2);
        assert forall|w: Seq<char>| #[trigger] flag.contains(w) implies w == "--baud"@ || w
            == d by {
            let i = choose|i: int| 0 <= i < flag.len() && flag[i] == w;
        }
    }
    lemma_between_asks_for_nothing(a, flag, b);
    assert(a + flag + b =~= a + (flag + b));
    cli::lemma_options_in_pieces(a, b, o);
    cli::lemma_options_in_pieces(a, flag + b, o);
    assert((flag + b)[0] == "--baud"@ && (flag + b)[1] == d);
    assert((flag + b).skip(2) =~= b);
    match cli::read_options(a, o) {
        Ok(next) => {
            let q = OptionsView { baud: n, ..next };
            assert("--baud"@[2] == 'b' && "--port"@[2] == 'p');
            assert(cli::read_options(flag + b, next) == cli::read_options(b, q));
            lemma_options_are_apart(b, next, q, true, false);
        },
        Err(_) => {},
    }
}

/// Where `--persist` stands among the arguments makes no difference: putting it
/// between complete arguments and others saves a command that sets something,
/// refuses one that only reads an output, and changes nothing else.
#[verifier::rlimit(80)]
pub proof fn law_persist_may_stand_anywhere(a: Seq<Seq<char>>, b: Seq<Seq<char>>)
    requires
        cli::is_complete(a),
        !cli::asks_for_text(a),
        !cli::asks_for_text(b),
    ensures
        ({
            let with = cli::command_line(a + seq!["--persist"@] + b);
            let without = cli::command_line(a + b);
            let (config, command) = without->Ok_0;
            if without is Err {
                with == without
            } else if command is GetAscii {
                with == Err::<(ConfigView, CommandView), Seq<char>>(
                    "--persist applies to a `set-*` verb, not `get-ascii`"@,
                )
            } else if command is GetBin {
                with == Err::<(ConfigView, CommandView), Seq<char>>(
                    "--persist applies to a `set-*` verb, not `get-bin`"@,
                )
            } else {
                with == Ok::<(ConfigView, CommandView), Seq<char>>((config, saved(command)))
            }
        }),
{
    let flag = seq!["--persist"@];
    let o = cli::default_options();
    reveal_strlit("--port");
    reveal_strlit("--baud");
    reveal_strlit("--persist");
    assert(!cli::asks_for_text(flag)) by {
        reveal_strlit("help");
        reveal_strlit("--help");
        reveal_strlit("-h");
        reveal_strlit("--version");
        reveal_strlit("-V");
        assert("--persist"@[2] == 'p' && "--help"@[2] == 'h' && "--version"@[2] == 'v');
        assert("--persist"@.len() == 9 && "help"@.len() == 4 && "--help"@.len() == 6);
        assert("-h"@.len() == 2 && "-V"@.len() == 2);
        assert forall|w: Seq<char>| #[trigger] flag.contains(w) implies w == "--persist"@ by {
            let i = choose|i: int| 0 <= i < flag.len() && flag[i] == w;
        }
    }
    lemma_between_asks_for_nothing(a, flag, b);
    assert(a + flag + b =~= a + (flag + b));
    cli::lemma_options_in_pieces(a, b, o);
    cli::lemma_options_in_pieces(a, flag + b, o);
    assert((flag + b)[0] == "--persist"@);
    assert((flag + b).skip(1) =~= b);
    assert("--persist"@.len() == 9 && "--port"@.len() == 6 && "--baud"@.len() == 6);
    match cli::read_options(a, o) {
        Ok(next) => {
            let q = OptionsView { persist: true, ..next };
            assert(cli::read_options(flag + b, next) == cli::read_options(b, q));
            lemma_options_are_apart(b, next, q, false, true);
            match cli::read_options(a + b, o) {
                Ok(plain) => {
                    let kept = cli::read_options(a + flag + b, o)->Ok_0;
                    assert(kept.persist);
                    lemma_persist_alone(plain.positional, plain.persist);
                },
                Err(_) => {},
            }
        },
        Err(_) => {},
    }
}

/// What the persist flag does to a command.
proof fn lemma_persist_alone(words: Seq<Seq<char>>, persist: bool)
    ensures
        ({
            let without = cli::command_of(words, persist);
            let command = without->Ok_0;
            cli::command_of(words, true) == if without is Err {
                without
            } else if command is GetAscii {
                Err::<CommandView, Seq<char>>(
                    "--persist applies to a `set-*` verb, not `get-ascii`"@,
                )
            } else if command is GetBin {
                Err::<CommandView, Seq<char>>("--persist applies to a `set-*` verb, not `get-bin`"@)
            } else {
                Ok::<CommandView, Seq<char>>(saved(command))
            }
        }),
{
    reveal_strlit("--persist applies to a `set-*` verb, not `");
    reveal_strlit("--persist applies to a `set-*` verb, not `get-ascii`");
    reveal_strlit("--persist applies to a `set-*` verb, not `get-bin`");
    reveal_strlit("get-ascii");
    reveal_strlit("get-bin");
    reveal_strlit("`");
    assert("--persist applies to a `set-*` verb, not `"@ + "get-ascii"@ + "`"@
        =~= "--persist applies to a `set-*` verb, not `get-ascii`"@);
    assert("--persist applies to a `set-*` verb, not `"@ + "get-bin"@ + "`"@
        =~= "--persist applies to a `set-*` verb, not `get-bin`"@);
}

/// An option at the end that waits for its value is refused by its name, and a baud
/// rate must be a number.
#[verifier::rlimit(80)]
pub proof fn law_options_need_their_values(words: Seq<Seq<char>>, w: Seq<char>)
    requires
        all_plain(words),
        is_plain(w),
        number::parse_number(w, 10, u32::MAX as int) is None,
    ensures
        refused(words + seq!["--port"@], "--port requires a value"@),
        refused(words + seq!["--baud"@], "--baud requires a value"@),
        refused(words + seq!["--baud"@, w], "--baud must be a number"@),
{
    let o = cli::default_options();
    reveal_strlit("--port");
    reveal_strlit("--baud");
    reveal_strlit("help");
    reveal_strlit("--help");
    reveal_strlit("-h");
    reveal_strlit("--version");
    reveal_strlit("-V");
    assert("--baud"@[2] == 'b' && "--help"@[2] == 'h' && "--port"@[2] == 'p');
    let none = Seq::<Seq<char>>::empty();
    lemma_plain_is_complete(words);
    lemma_plain_words(words, o);
    lemma_plain_asks_for_nothing(words);
    lemma_plain_asks_for_nothing(none);
    let port = seq!["--port"@];
    let baud = seq!["--baud"@];
    let rate = seq!["--baud"@, w];
    cli::lemma_options_in_pieces(words, port, o);
    cli::lemma_options_in_pieces(words, baud, o);
    cli::lemma_options_in_pieces(words, rate, o);
    assert forall|x: Seq<char>| #[trigger] port.contains(x) implies x == "--port"@ by {}
    assert forall|x: Seq<char>| #[trigger] baud.contains(x) implies x == "--baud"@ by {}
    assert forall|x: Seq<char>| #[trigger] rate.contains(x) implies x == "--baud"@ || x == w by {}
    assert("--port"@.len() == 6 && "--baud"@.len() == 6 && "--version"@.len() == 9);
    assert(!cli::asks_for_text(port));
    assert(!cli::asks_for_text(baud));
    assert(!cli::asks_for_text(rate));
    lemma_between_asks_for_nothing(words, port, none);
    lemma_between_asks_for_nothing(words, baud, none);
    lemma_between_asks_for_nothing(words, rate, none);
    assert(words + port + none =~= words + port);
    assert(words + baud + none =~= words + baud);
    assert(words + rate + none =~= words + rate);
}

/// Plain words leave no option waiting.
proof fn lemma_plain_is_complete(words: Seq<Seq<char>>)
    requires
        all_plain(words),
    ensures
        cli::is_complete(words),
    decreases words.len(),
{
    if words.len() > 0 {
        assert(is_plain(words[0]));
        let rest = words.skip(1);
        assert forall|i: int| 0 <= i < rest.len() implies is_plain(#[trigger] rest[i]) by {
            assert(rest[i] == words[i + 1]);
        }
        lemma_plain_is_complete(rest);
    }
}


/// `help`, `--help` and `-h` show the help wherever they stand; `--version` and `-V`
/// show the version wherever they stand, unless help is asked for too. Nothing else
/// shows either.
pub proof fn law_help_and_version_words(a: Seq<Seq<char>>, w: Seq<char>, b: Seq<Seq<char>>)
    ensures
        ({
            let line = cli::command_line(a + seq![w] + b);
            &&& w == "help"@ || w == "--help"@ || w == "-h"@ ==> (line matches Ok((config, command))
                && command is Help)
            &&& w == "--version"@ || w == "-V"@ ==> (line matches Ok((config, command)) && (command
                is Version || command is Help))
        }),
        ({
            let line = cli::command_line(a);
            &&& line matches Ok((config, command)) ==> {
                &&& command is Help ==> a.contains("help"@) || a.contains("--help"@) || a.contains(
                    "-h"@,
                )
                &&& command is Version ==> a.contains("--version"@) || a.contains("-V"@)
            }
        }),
{
    let all = a + seq![w] + b;
    assert(all[a.len() as int] == w);
    assert(all.contains(w));
}

/// What the laws say of a command holds of the command that is run.
pub proof fn law_commands_are_as_stated(c: cli::Command, config: cli::Config)
    ensures
        config@ == (ConfigView { port: config.port@, baud: config.baud }),
        match c@ {
            CommandView::SetAscii { preset, persist } => c == (cli::Command::SetAscii {
                preset,
                persist,
            }),
            CommandView::SetAsciiHz { hz, persist } => c == (cli::Command::SetAsciiHz {
                hz,
                persist,
            }),
            CommandView::SetBinHz { hz, persist } => c == (cli::Command::SetBinHz { hz, persist }),
            CommandView::SetBaud { baud, persist } => c == (cli::Command::SetBaud {
                baud,
                persist,
            }),
            CommandView::SetBin { action, persist } => c matches cli::Command::SetBin {
                action: b,
                persist: p,
            } && p == persist && match action {
                BinSetView::Fields(fs) => b matches cli::BinSet::Fields(v) && v@.len() == fs.len()
                    && (forall|i: int| 0 <= i < fs.len() ==> (#[trigger] fs[i]) == v@[i]@),
                BinSetView::Enable => b is Enable,
                BinSetView::Off => b is Off,
            },
            CommandView::Rrg { id } => c == (cli::Command::Rrg { id }),
            CommandView::Wrg { id, params } => c matches cli::Command::Wrg { id: n, params: v } && n
                == id && v@.len() == params.len() && (forall|i: int|
                0 <= i < params.len() ==> (#[trigger] params[i]) == v@[i]@),
            CommandView::Bench { secs } => c == (cli::Command::Bench { secs }),
            CommandView::Help => c is Help,
            CommandView::Version => c is Version,
            CommandView::GetAscii => c is GetAscii,
            CommandView::GetBin => c is GetBin,
            CommandView::Reset => c is Reset,
            CommandView::FactoryReset => c is FactoryReset,
        },
{
}

} // verus!
