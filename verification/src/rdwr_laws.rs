//! What holds of the command language of `rdwr_vn100` for every value: which
//! command line means which command, what each option of a bench does, and that
//! options may stand anywhere.
use crate::args;
use crate::cli::ConfigView;
use crate::cli_laws;
use crate::cli_laws::{default_config, is_async_rate, is_device_baud};
use crate::fields;
use crate::number;
use crate::rdwr;
use crate::rdwr::{CommandView, OptionsView};
use crate::registers;
use crate::text;
use crate::unicode;
use vstd::prelude::*;
use vstd::string::*;
use vstd::utf8;

verus! {

/// Whether the words mean this command, at the default port and baud rate.
pub open spec fn means(words: Seq<Seq<char>>, c: CommandView) -> bool {
    rdwr::command_line(words) == Ok::<(ConfigView, CommandView), Seq<char>>((default_config(), c))
}

/// Whether the words are refused with this message.
pub open spec fn refused(words: Seq<Seq<char>>, message: Seq<char>) -> bool {
    rdwr::command_line(words) == Err::<(ConfigView, CommandView), Seq<char>>(message)
}

// ---------------------------------------------------------------------------
// Plain words
// ---------------------------------------------------------------------------
/// Whether a word is no option and no request for help. Any other word with a dash
/// in front, such as a negative number, is plain too.
pub open spec fn is_plain(word: Seq<char>) -> bool {
    &&& word != "--port"@ && word != "--baud"@ && word != "--hz"@ && word != "--secs"@
    &&& word != "--fields"@ && word != "--serial-port"@ && word != "--type"@
    &&& word != "--persist"@ && word != "--bin"@
    &&& word != "help"@ && word != "--help"@ && word != "-h"@
}

/// Whether all these words are plain.
pub open spec fn all_plain(words: Seq<Seq<char>>) -> bool {
    forall|i: int| 0 <= i < words.len() ==> is_plain(#[trigger] words[i])
}

/// A word that begins with neither a dash nor an `h` is plain.
proof fn lemma_plain_by_letter(word: Seq<char>)
    requires
        word.len() > 0,
        word[0] != '-',
        word[0] != 'h',
    ensures
        is_plain(word),
{
    rdwr::lemma_option_words();
    reveal_strlit("help");
    reveal_strlit("--help");
    reveal_strlit("-h");
    assert("help"@[0] == 'h' && "--help"@[0] == '-' && "-h"@[0] == '-');
}

/// Plain words ask for no help.
proof fn lemma_plain_asks_for_nothing(words: Seq<Seq<char>>)
    requires
        all_plain(words),
    ensures
        !args::wants_help(words),
{
    assert forall|w: Seq<char>| #[trigger] words.contains(w) implies is_plain(w) by {
        let i = choose|i: int| 0 <= i < words.len() && words[i] == w;
        assert(is_plain(words[i]));
    }
}

/// A decimal number is a plain word.
proof fn lemma_number_is_plain(n: nat)
    ensures
        is_plain(number::decimal(n)),
{
    let d = number::decimal(n);
    number::lemma_decimal_digits(n);
    assert(number::digit_value(d[0], 10) is Some);
    assert(number::digit_value('-', 10) is None);
    assert(number::digit_value('h', 10) is None);
    lemma_plain_by_letter(d);
}

/// Plain words are positional, in their order.
proof fn lemma_plain_words(words: Seq<Seq<char>>, o: OptionsView)
    requires
        all_plain(words),
    ensures
        rdwr::read_options(words, o) == Ok::<OptionsView, Seq<char>>(
            OptionsView { positional: o.positional + words, ..o },
        ),
    decreases words.len(),
{
    if words.len() == 0 {
        assert(o.positional + words =~= o.positional);
    } else {
        assert(is_plain(words[0]));
        let rest = words.skip(1);
        assert forall|i: int| 0 <= i < rest.len() implies is_plain(#[trigger] rest[i]) by {
            assert(rest[i] == words[i + 1]);
        }
        lemma_plain_words(rest, OptionsView { positional: o.positional.push(words[0]), ..o });
        assert(o.positional.push(words[0]) + rest =~= o.positional + words);
    }
}

/// What plain words mean.
proof fn lemma_plain_line(words: Seq<Seq<char>>)
    requires
        all_plain(words),
    ensures
        rdwr::command_line(words) == match rdwr::command_of(
            OptionsView { positional: words, ..rdwr::default_options() },
        ) {
            Ok(c) => Ok::<(ConfigView, CommandView), Seq<char>>((default_config(), c)),
            Err(e) => Err::<(ConfigView, CommandView), Seq<char>>(e),
        },
{
    lemma_plain_words(words, rdwr::default_options());
    lemma_plain_asks_for_nothing(words);
    assert(Seq::<Seq<char>>::empty() + words =~= words);
}

/// The verbs are plain words.
proof fn lemma_verbs_are_plain()
    ensures
        is_plain("get-hz"@),
        is_plain("set-hz"@),
        is_plain("baud"@),
        is_plain("rrg"@),
        is_plain("wrg"@),
        is_plain("reset"@),
        is_plain("factory-reset"@),
        is_plain("bench"@),
{
    rdwr::lemma_verbs();
    reveal_strlit("baud");
    reveal_strlit("rrg");
    reveal_strlit("wrg");
    reveal_strlit("factory-reset");
    assert("baud"@[0] == 'b');
    assert("rrg"@[0] == 'r' && "wrg"@[0] == 'w' && "factory-reset"@[0] == 'f');
    lemma_plain_by_letter("get-hz"@);
    lemma_plain_by_letter("set-hz"@);
    lemma_plain_by_letter("baud"@);
    lemma_plain_by_letter("rrg"@);
    lemma_plain_by_letter("wrg"@);
    lemma_plain_by_letter("reset"@);
    lemma_plain_by_letter("factory-reset"@);
    lemma_plain_by_letter("bench"@);
}

/// The verbs without a value mean themselves; `bench` measures the ASCII output at
/// 40 Hz for 5 seconds.
#[verifier::rlimit(80)]
pub proof fn law_bare_verbs()
    ensures
        means(seq!["get-hz"@], CommandView::GetHz),
        means(seq!["reset"@], CommandView::Reset),
        means(seq!["factory-reset"@], CommandView::FactoryReset),
        means(
            seq!["bench"@],
            CommandView::Bench {
                binary: false,
                hz: 40,
                secs: 5,
                fields: Seq::empty(),
                serial_port: 0,
                ascii_type: None,
            },
        ),
        refused(seq!["set-hz"@], "set-hz requires a frequency, e.g. `set-hz 40`"@),
        refused(seq!["baud"@], "baud requires a value, e.g. `baud 921600`"@),
        refused(seq!["rrg"@], "rrg requires a register id, e.g. `rrg 1`"@),
        refused(seq!["wrg"@], "wrg requires a register id, e.g. `wrg 7 40`"@),
        refused(
            Seq::empty(),
            "missing command (`get-hz`, `set-hz`, `baud`, `rrg`, `wrg`, `bench`, `reset`, `factory-reset`, or `help`)"@,
        ),
{
    lemma_verbs_are_plain();
    rdwr::lemma_verbs();
    cli_laws::law_rate_lists(40);
    reveal_strlit("rrg");
    reveal_strlit("wrg");
    assert("rrg"@[0] == 'r' && "wrg"@[0] == 'w');
    lemma_plain_line(seq!["get-hz"@]);
    lemma_plain_line(seq!["reset"@]);
    lemma_plain_line(seq!["factory-reset"@]);
    lemma_plain_line(seq!["bench"@]);
    lemma_plain_line(seq!["set-hz"@]);
    lemma_plain_line(seq!["baud"@]);
    lemma_plain_line(seq!["rrg"@]);
    lemma_plain_line(seq!["wrg"@]);
    lemma_plain_line(Seq::empty());
}

/// `set-hz <n>` sets that rate where the firmware has it, and `baud <n>` that baud
/// rate where the device has it; else they are refused with the list.
pub proof fn law_set_hz_and_baud(d: Seq<char>, n: u32)
    requires
        is_plain(d),
        number::parse_number(d, 10, u32::MAX as int) == Some(n as int),
    ensures
        ({
            let rate = seq!["set-hz"@, d];
            let baud = seq!["baud"@, d];
            let shown = number::decimal(n as nat);
            &&& is_async_rate(n) ==> means(rate, CommandView::SetHz { hz: n, persist: false })
            &&& !is_async_rate(n) ==> refused(
                rate,
                shown + " Hz is not valid; choose one of "@ + number::number_list(registers::rates()),
            )
            &&& is_device_baud(n) ==> means(baud, CommandView::SetBaud { baud: n, persist: false })
            &&& !is_device_baud(n) ==> refused(
                baud,
                shown + " is not a valid VN-100 baud; choose one of "@ + number::number_list(
                    registers::bauds(),
                ),
            )
        }),
{
    lemma_verbs_are_plain();
    rdwr::lemma_verbs();
    cli_laws::law_rate_lists(n);
    lemma_plain_line(seq!["set-hz"@, d]);
    lemma_plain_line(seq!["baud"@, d]);
}

/// `rrg <n>` reads register `n`, and `wrg <n> <values>` writes the values, as they
/// stand and in their order, to it, where there is one, from 0 to 255.
#[verifier::rlimit(80)]
pub proof fn law_rrg_and_wrg(n: nat, values: Seq<Seq<char>>)
    requires
        all_plain(values),
    ensures
        ({
            let read = seq!["rrg"@, number::decimal(n)];
            let write = seq!["wrg"@, number::decimal(n)] + values;
            &&& n <= 255 ==> means(read, CommandView::Rrg { id: n as u8 })
            &&& n > 255 ==> refused(read, "register id must be 0-255"@) && refused(
                write,
                "register id must be 0-255"@,
            )
            &&& n <= 255 && values.len() > 0 ==> means(
                write,
                CommandView::Wrg { id: n as u8, params: values },
            )
            &&& n <= 255 && values.len() == 0 ==> refused(
                write,
                "wrg requires at least one value, e.g. `wrg 7 40`"@,
            )
        }),
{
    let d = number::decimal(n);
    let write = seq!["wrg"@, d] + values;
    lemma_verbs_are_plain();
    rdwr::lemma_verbs();
    reveal_strlit("rrg");
    reveal_strlit("wrg");
    assert("rrg"@[0] == 'r' && "wrg"@[0] == 'w');
    lemma_number_is_plain(n);
    number::law_parse_decimal(n, 255);
    assert forall|i: int| 0 <= i < write.len() implies is_plain(#[trigger] write[i]) by {
        if i >= 2 {
            assert(write[i] == values[i - 2]);
        }
    }
    assert(write.skip(2) =~= values);
    lemma_plain_line(seq!["rrg"@, d]);
    lemma_plain_line(write);
}

/// Words after a whole command are ignored, but for `wrg`, which writes them.
pub proof fn law_further_words_are_ignored(words: Seq<Seq<char>>, more: Seq<Seq<char>>)
    requires
        all_plain(words),
        all_plain(more),
        words.len() >= 1,
        words[0] != "wrg"@,
        words.len() >= 2 || (words[0] != "baud"@ && words[0] != "rrg"@ && words[0] != "set-hz"@),
    ensures
        rdwr::command_line(words + more) == rdwr::command_line(words),
{
    let all = words + more;
    assert forall|i: int| 0 <= i < all.len() implies is_plain(#[trigger] all[i]) by {
        if i < words.len() {
            assert(is_plain(words[i]));
        } else {
            assert(is_plain(more[i - words.len()]));
        }
    }
    lemma_plain_line(words);
    lemma_plain_line(all);
    assert(all[0] == words[0]);
    if words.len() >= 2 {
        assert(all[1] == words[1]);
    }
}

/// A word that is no verb is named as unknown, and words that are no number where
/// one is needed are refused as that.
#[verifier::rlimit(80)]
pub proof fn law_wrong_words_are_named(w: Seq<char>)
    requires
        is_plain(w),
        number::parse_number(w, 10, u32::MAX as int) is None,
        number::parse_number(w, 10, 255) is None,
        w != "get-hz"@ && w != "set-hz"@ && w != "baud"@ && w != "rrg"@ && w != "wrg"@,
        w != "reset"@ && w != "factory-reset"@ && w != "bench"@,
    ensures
        refused(seq![w], "unknown command `"@ + w + "`"@),
        refused(seq!["set-hz"@, w], "frequency must be a number"@),
        refused(seq!["baud"@, w], "baud must be a number"@),
        refused(seq!["rrg"@, w], "register id must be 0-255"@),
        refused(seq!["wrg"@, w], "register id must be 0-255"@),
{
    lemma_verbs_are_plain();
    rdwr::lemma_verbs();
    reveal_strlit("rrg");
    reveal_strlit("wrg");
    assert("rrg"@[0] == 'r' && "wrg"@[0] == 'w');
    lemma_plain_line(seq![w]);
    lemma_plain_line(seq!["set-hz"@, w]);
    lemma_plain_line(seq!["baud"@, w]);
    lemma_plain_line(seq!["rrg"@, w]);
    lemma_plain_line(seq!["wrg"@, w]);
}

// ---------------------------------------------------------------------------
// The options of a bench
// ---------------------------------------------------------------------------
/// The names of the two ports and of both: no other name is a port.
pub proof fn law_port_names(name: Seq<char>)
    ensures
        rdwr::port_code("1"@) == Ok::<u8, Seq<char>>(1),
        rdwr::port_code("2"@) == Ok::<u8, Seq<char>>(2),
        rdwr::port_code("3"@) == Ok::<u8, Seq<char>>(3),
        rdwr::port_code("both"@) == Ok::<u8, Seq<char>>(3),
        name != "1"@ && name != "2"@ && name != "3"@ && name != "both"@ ==> rdwr::port_code(name)
            == Err::<u8, Seq<char>>(
            "invalid --serial-port `"@ + name + "`; choose 1, 2, or both"@,
        ),
{
    reveal_strlit("1");
    reveal_strlit("2");
    reveal_strlit("3");
    reveal_strlit("both");
    assert("1"@[0] == '1' && "2"@[0] == '2' && "3"@[0] == '3' && "both"@.len() == 4);
    assert("1"@.len() == 1 && "2"@.len() == 1 && "3"@.len() == 1);
}

/// An option and its value, if it is given.
pub open spec fn given(option: Seq<char>, value: Option<Seq<char>>) -> Seq<Seq<char>> {
    match value {
        Some(v) => seq![option, v],
        None => Seq::empty(),
    }
}

/// What a bench is asked for on the command line.
pub struct Request {
    pub binary: bool,
    pub hz: Option<Seq<char>>,
    pub secs: Option<Seq<char>>,
    pub fields: Option<Seq<char>>,
    pub serial_port: Option<Seq<char>>,
    pub ascii_type: Option<Seq<char>>,
}

/// The rate that is asked for, if it is given and a number.
pub open spec fn rate_of(r: Request) -> Option<u32> {
    match r.hz {
        Some(t) => match number::parse_number(t, 10, u32::MAX as int) {
            Some(n) => Some(n as u32),
            None => None,
        },
        None => None,
    }
}

/// The time that is asked for, if it is given and a number.
pub open spec fn secs_of(r: Request) -> Option<u64> {
    match r.secs {
        Some(t) => match number::parse_number(t, 10, u64::MAX as int) {
            Some(n) => Some(n as u64),
            None => None,
        },
        None => None,
    }
}

/// Whether the numbers that are asked for are numbers.
pub open spec fn has_numbers(r: Request) -> bool {
    &&& r.hz is Some ==> rate_of(r) is Some
    &&& r.secs is Some ==> secs_of(r) is Some
}

/// The command line that asks for a bench.
pub open spec fn bench_line(r: Request) -> Seq<Seq<char>> {
    seq!["bench"@] + (if r.binary {
        seq!["--bin"@]
    } else {
        Seq::empty()
    }) + given("--hz"@, r.hz) + given("--secs"@, r.secs) + given(
        "--fields"@,
        r.fields,
    ) + given("--serial-port"@, r.serial_port) + given("--type"@, r.ascii_type)
}

/// One given option is read on top of what stands before it.
proof fn lemma_given(
    before: Seq<Seq<char>>,
    option: Seq<char>,
    value: Option<Seq<char>>,
    o: OptionsView,
    p: OptionsView,
    next: OptionsView,
)
    requires
        rdwr::is_complete(before),
        rdwr::read_options(before, o) == Ok::<OptionsView, Seq<char>>(p),
        rdwr::takes_value(option),
        match value {
            Some(v) => rdwr::with_value(p, option, v) == Ok::<OptionsView, Seq<char>>(next),
            None => next == p,
        },
    ensures
        rdwr::is_complete(before + given(option, value)),
        rdwr::read_options(before + given(option, value), o) == Ok::<OptionsView, Seq<char>>(next),
{
    let none = Seq::<Seq<char>>::empty();
    let more = given(option, value);
    rdwr::lemma_options_in_pieces(before, more, o);
    assert(rdwr::read_options(none, next) == Ok::<OptionsView, Seq<char>>(next));
    match value {
        Some(v) => {
            assert(more.skip(2) =~= none);
            assert(rdwr::is_complete(none));
            assert(rdwr::is_complete(more));
        },
        None => {
            assert(rdwr::is_complete(more));
        },
    }
    lemma_complete_in_pieces(before, more);
}

/// Complete arguments one after another are complete.
proof fn lemma_complete_in_pieces(a: Seq<Seq<char>>, b: Seq<Seq<char>>)
    requires
        rdwr::is_complete(a),
        rdwr::is_complete(b),
    ensures
        rdwr::is_complete(a + b),
    decreases a.len(),
{
    let all = a + b;
    if a.len() == 0 {
        assert(all =~= b);
    } else if rdwr::takes_value(a[0]) {
        assert(all[0] == a[0]);
        assert(all.skip(2) =~= a.skip(2) + b);
        lemma_complete_in_pieces(a.skip(2), b);
    } else {
        assert(all[0] == a[0]);
        assert(all.skip(1) =~= a.skip(1) + b);
        lemma_complete_in_pieces(a.skip(1), b);
    }
}

/// What a bench's command line says.
proof fn lemma_bench_line(r: Request)
    requires
        has_numbers(r),
    ensures
        rdwr::read_options(bench_line(r), rdwr::default_options()) == Ok::<
            OptionsView,
            Seq<char>,
        >(
            OptionsView {
                binary: r.binary,
                hz: rate_of(r),
                secs: secs_of(r),
                fields: r.fields,
                serial_port: r.serial_port,
                ascii_type: r.ascii_type,
                positional: seq!["bench"@],
                ..rdwr::default_options()
            },
        ),
{
    let o = rdwr::default_options();
    let none = Seq::<Seq<char>>::empty();
    rdwr::lemma_option_words();
    rdwr::lemma_verbs();
    reveal_strlit("--port");
    reveal_strlit("--baud");
    reveal_strlit("--secs");
    reveal_strlit("--type");
    assert("--port"@[2] == 'p' && "--baud"@[2] == 'b' && "--secs"@[2] == 's' && "--type"@[2] == 't');
    let o1 = OptionsView { positional: seq!["bench"@], ..o };
    let a1 = seq!["bench"@];
    rdwr::lemma_word_is_positional(a1, o);
    assert(a1.skip(1) =~= none);
    assert(none.push("bench"@) =~= a1);
    assert(rdwr::read_options(none, o1) == Ok::<OptionsView, Seq<char>>(o1));
    assert(rdwr::is_complete(none));
    assert(rdwr::is_complete(a1));
    let bin = if r.binary {
        seq!["--bin"@]
    } else {
        none
    };
    let o2 = OptionsView { binary: r.binary, ..o1 };
    let a2 = a1 + bin;
    assert(rdwr::is_complete(bin)) by {
        if r.binary {
            assert(bin.skip(1) =~= none);
        }
    }
    rdwr::lemma_options_in_pieces(a1, bin, o);
    lemma_complete_in_pieces(a1, bin);
    assert(rdwr::read_options(bin, o1) == Ok::<OptionsView, Seq<char>>(o2)) by {
        if r.binary {
            assert(bin.skip(1) =~= none);
            assert(rdwr::with_word(o1, "--bin"@) == o2);
            assert(rdwr::read_options(none, o2) == Ok::<OptionsView, Seq<char>>(o2));
        }
    }
    let o3 = OptionsView { hz: rate_of(r), ..o2 };
    let o4 = OptionsView { secs: secs_of(r), ..o3 };
    let o5 = OptionsView { fields: r.fields, ..o4 };
    let o6 = OptionsView { serial_port: r.serial_port, ..o5 };
    let o7 = OptionsView { ascii_type: r.ascii_type, ..o6 };
    lemma_given(a2, "--hz"@, r.hz, o, o2, o3);
    let a3 = a2 + given("--hz"@, r.hz);
    lemma_given(a3, "--secs"@, r.secs, o, o3, o4);
    let a4 = a3 + given("--secs"@, r.secs);
    lemma_given(a4, "--fields"@, r.fields, o, o4, o5);
    let a5 = a4 + given("--fields"@, r.fields);
    lemma_given(a5, "--serial-port"@, r.serial_port, o, o5, o6);
    let a6 = a5 + given("--serial-port"@, r.serial_port);
    lemma_given(a6, "--type"@, r.ascii_type, o, o6, o7);
}

/// A bench of the binary output takes its rate, time, fields and port from the
/// command line, else 40 Hz for 5 seconds, timestamp and acceleration, and port 2.
/// It is refused exactly where the rate does not divide 800 Hz, the fields or the
/// port are unknown, or an ASCII type is asked for.
#[verifier::rlimit(80)]
pub proof fn law_binary_bench_options(r: Request)
    requires
        r.binary,
        has_numbers(r),
        !args::wants_help(bench_line(r)),
    ensures
        ({
            let hz = match rate_of(r) {
                Some(n) => n,
                None => 40,
            };
            let secs = match secs_of(r) {
                Some(n) => n,
                None => 5,
            };
            let parsed = rdwr::command_line(bench_line(r));
            &&& parsed is Ok <==> r.ascii_type is None && registers::divides_base(hz)
                && (r.fields matches Some(l) ==> fields::field_list(l) is Ok) && (r.serial_port
                matches Some(p) ==> rdwr::serial_port_code(p) is Ok)
            &&& parsed matches Ok((config, command)) ==> {
                &&& config == default_config()
                &&& command is Bench
                &&& command->binary
                &&& command->Bench_hz == hz
                &&& command->secs == secs
                &&& command->ascii_type is None
                &&& match r.fields {
                    Some(l) => command->fields == fields::field_list(l)->Ok_0,
                    None => command->fields.len() == 2 && command->fields[0].name == "time"@
                        && command->fields[1].name == "accel"@,
                }
                &&& command->serial_port == match r.serial_port {
                    Some(p) => rdwr::serial_port_code(p)->Ok_0,
                    None => 2,
                }
            }
            &&& r.ascii_type is Some ==> refused(
                bench_line(r),
                "--type only applies to the ASCII bench (binary picks data with --fields)"@,
            )
            &&& r.ascii_type is None && !registers::divides_base(hz) ==> refused(
                bench_line(r),
                "--hz "@ + number::decimal(hz as nat)
                    + " invalid for --bin; the binary rate is 800/divisor, so HZ must divide 800 (e.g. 50, 100, 200, 400)"@,
            )
        }),
{
    lemma_bench_line(r);
    lemma_verbs_differ();
}

/// A bench of the ASCII output takes its rate, time and type from the command line,
/// else 40 Hz for 5 seconds and whatever type is set. It is refused exactly where
/// the firmware does not have the rate, the type is unknown, or fields or a port are
/// asked for.
#[verifier::rlimit(80)]
pub proof fn law_ascii_bench_options(r: Request)
    requires
        !r.binary,
        has_numbers(r),
        !args::wants_help(bench_line(r)),
    ensures
        ({
            let hz = match rate_of(r) {
                Some(n) => n,
                None => 40,
            };
            let secs = match secs_of(r) {
                Some(n) => n,
                None => 5,
            };
            let parsed = rdwr::command_line(bench_line(r));
            &&& parsed is Ok <==> r.fields is None && r.serial_port is None && is_async_rate(hz)
                && (r.ascii_type matches Some(t) ==> registers::ascii_preset(t) is Ok)
            &&& parsed matches Ok((config, command)) ==> {
                &&& config == default_config()
                &&& command is Bench
                &&& !command->binary
                &&& command->Bench_hz == hz
                &&& command->secs == secs
                &&& command->ascii_type == match r.ascii_type {
                    Some(t) => Some(registers::ascii_preset(t)->Ok_0),
                    None => None,
                }
            }
            &&& r.fields is Some ==> refused(
                bench_line(r),
                "--fields only applies with --bin (ASCII async uses preset messages, not arbitrary fields)"@,
            )
            &&& r.fields is None && r.serial_port is Some ==> refused(
                bench_line(r),
                "--serial-port only applies with --bin (register 75); the ASCII async output targets the connected port automatically"@,
            )
            &&& r.fields is None && r.serial_port is None && r.ascii_type is None
                && !is_async_rate(hz) ==> refused(
                bench_line(r),
                "--hz "@ + number::decimal(hz as nat)
                    + " not valid for the ASCII async output; choose one of "@
                    + number::number_list(registers::rates()) + " (or use --bin)"@,
            )
        }),
{
    lemma_bench_line(r);
    lemma_verbs_differ();
    cli_laws::law_rate_lists(
        match rate_of(r) {
            Some(n) => n,
            None => 40,
        },
    );
}

/// `bench` is no other verb.
proof fn lemma_verbs_differ()
    ensures
        "bench"@ != "get-hz"@ && "bench"@ != "set-hz"@ && "bench"@ != "baud"@ && "bench"@
            != "rrg"@ && "bench"@ != "wrg"@ && "bench"@ != "reset"@ && "bench"@
            != "factory-reset"@,
{
    rdwr::lemma_verbs();
}

// ---------------------------------------------------------------------------
// Options anywhere
// ---------------------------------------------------------------------------
/// The same command, saved to flash.
pub open spec fn saved(c: CommandView) -> CommandView {
    match c {
        CommandView::SetHz { hz, persist } => CommandView::SetHz { hz, persist: true },
        CommandView::SetBaud { baud, persist } => CommandView::SetBaud { baud, persist: true },
        _ => c,
    }
}

/// Whether two readings differ in their baud rate and in being saved at most.
spec fn differ_in_options(
    x: Result<OptionsView, Seq<char>>,
    y: Result<OptionsView, Seq<char>>,
    baud: bool,
    persist: bool,
) -> bool {
    match (x, y) {
        (Ok(o), Ok(q)) => {
            &&& !baud ==> q.baud == o.baud
            &&& !persist ==> q.persist == o.persist
            &&& q == (OptionsView { baud: q.baud, persist: q.persist, ..o })
        },
        (Err(e), Err(f)) => e == f,
        _ => false,
    }
}

/// The baud rate and the persist flag to start from make no difference but for
/// themselves.
proof fn lemma_options_are_apart(
    args: Seq<Seq<char>>,
    o: OptionsView,
    q: OptionsView,
    baud: bool,
    persist: bool,
)
    requires
        differ_in_options(Ok(o), Ok(q), baud, persist),
    ensures
        differ_in_options(rdwr::read_options(args, o), rdwr::read_options(args, q), baud, persist),
        !args.contains("--baud"@) ==> (rdwr::read_options(args, q) matches Ok(r) ==> r.baud
            == q.baud),
        q.persist ==> (rdwr::read_options(args, q) matches Ok(r) ==> r.persist),
    decreases args.len(),
{
    if args.len() > 0 {
        assert forall|w: Seq<char>, n: int|
            0 <= n <= args.len() && #[trigger] args.skip(n).contains(w) implies args.contains(w) by {
            let i = choose|i: int| 0 <= i < args.skip(n).len() && args.skip(n)[i] == w;
            assert(args[i + n] == w);
        }
        assert(args.contains(args[0]));
        if rdwr::takes_value(args[0]) {
            if args.len() >= 2 {
                let x = rdwr::with_value(o, args[0], args[1]);
                let y = rdwr::with_value(q, args[0], args[1]);
                assert(differ_in_options(x, y, baud, persist));
                match (x, y) {
                    (Ok(p), Ok(r)) => {
                        lemma_options_are_apart(args.skip(2), p, r, baud, persist);
                    },
                    _ => {},
                }
            }
        } else {
            lemma_options_are_apart(
                args.skip(1),
                rdwr::with_word(o, args[0]),
                rdwr::with_word(q, args[0]),
                baud,
                persist,
            );
        }
    }
}

/// Where `--baud` stands among the arguments makes no difference: putting
/// `--baud <n>` between complete arguments and others changes nothing but the baud
/// rate of the connection, which is the given one unless a later `--baud` overrides
/// it.
pub proof fn law_baud_option_may_stand_anywhere(
    a: Seq<Seq<char>>,
    b: Seq<Seq<char>>,
    d: Seq<char>,
    n: u32,
)
    requires
        rdwr::is_complete(a),
        number::parse_number(d, 10, u32::MAX as int) == Some(n as int),
        !args::wants_help(a + b),
        !args::wants_help(a + seq!["--baud"@, d] + b),
    ensures
        ({
            let with = rdwr::command_line(a + seq!["--baud"@, d] + b);
            let without = rdwr::command_line(a + b);
            match (with, without) {
                (Ok((c, command)), Ok((d, same))) => {
                    &&& command == same
                    &&& c.port == d.port
                    &&& !b.contains("--baud"@) ==> c.baud == n
                },
                (Err(e), Err(f)) => e == f,
                _ => false,
            }
        }),
{
    let flag = seq!["--baud"@, d];
    let o = rdwr::default_options();
    reveal_strlit("--port");
    reveal_strlit("--baud");
    assert("--port"@[2] == 'p' && "--baud"@[2] == 'b');
    assert(a + flag + b =~= a + (flag + b));
    rdwr::lemma_options_in_pieces(a, b, o);
    rdwr::lemma_options_in_pieces(a, flag + b, o);
    assert((flag + b)[0] == "--baud"@ && (flag + b)[1] == d);
    assert((flag + b).skip(2) =~= b);
    match rdwr::read_options(a, o) {
        Ok(next) => {
            let q = OptionsView { baud: n, ..next };
            assert(rdwr::with_value(next, "--baud"@, d) == Ok::<OptionsView, Seq<char>>(q));
            assert(rdwr::read_options(flag + b, next) == rdwr::read_options(b, q));
            lemma_options_are_apart(b, next, q, true, false);
        },
        Err(_) => {},
    }
}

/// Where `--persist` stands among the arguments makes no difference: putting it
/// between complete arguments and others saves a command that sets something,
/// refuses the one that only reads the rate, and changes nothing else.
pub proof fn law_persist_may_stand_anywhere(a: Seq<Seq<char>>, b: Seq<Seq<char>>)
    requires
        rdwr::is_complete(a),
        !args::wants_help(a + b),
        !args::wants_help(a + seq!["--persist"@] + b),
    ensures
        ({
            let with = rdwr::command_line(a + seq!["--persist"@] + b);
            let without = rdwr::command_line(a + b);
            let (config, command) = without->Ok_0;
            if without is Err {
                with == without
            } else if command is GetHz {
                with == Err::<(ConfigView, CommandView), Seq<char>>(
                    "--persist only applies to `set-hz`"@,
                )
            } else {
                with == Ok::<(ConfigView, CommandView), Seq<char>>((config, saved(command)))
            }
        }),
{
    let flag = seq!["--persist"@];
    let o = rdwr::default_options();
    rdwr::lemma_option_words();
    assert(a + flag + b =~= a + (flag + b));
    rdwr::lemma_options_in_pieces(a, b, o);
    rdwr::lemma_options_in_pieces(a, flag + b, o);
    assert((flag + b)[0] == "--persist"@);
    assert((flag + b).skip(1) =~= b);
    assert(!rdwr::takes_value("--persist"@));
    match rdwr::read_options(a, o) {
        Ok(next) => {
            let q = OptionsView { persist: true, ..next };
            assert(rdwr::with_word(next, "--persist"@) == q);
            assert(rdwr::read_options(flag + b, next) == rdwr::read_options(b, q));
            lemma_options_are_apart(b, next, q, false, true);
        },
        Err(_) => {},
    }
}


/// `help`, `--help` and `-h` show the help wherever they stand, and nothing else
/// does.
pub proof fn law_help_words(a: Seq<Seq<char>>, w: Seq<char>, b: Seq<Seq<char>>)
    ensures
        w == "help"@ || w == "--help"@ || w == "-h"@ ==> (rdwr::command_line(a + seq![w] + b)
            matches Ok((config, command)) && command is Help),
        rdwr::command_line(a) matches Ok((config, command)) ==> (command is Help ==> a.contains(
            "help"@,
        ) || a.contains("--help"@) || a.contains("-h"@)),
{
    let all = a + seq![w] + b;
    assert(all[a.len() as int] == w);
    assert(all.contains(w));
}

/// An option that waits for its value is refused by its name, and where a number is
/// needed, what is none is refused.
#[verifier::rlimit(80)]
pub proof fn law_options_need_their_values(words: Seq<Seq<char>>, option: Seq<char>, w: Seq<char>)
    requires
        all_plain(words),
        is_plain(w),
        number::parse_number(w, 10, u64::MAX as int) is None,
        number::parse_number(w, 10, u32::MAX as int) is None,
    ensures
        option == "--port"@ || option == "--baud"@ || option == "--hz"@ || option == "--secs"@
            || option == "--fields"@ || option == "--serial-port"@ || option == "--type"@
            ==> refused(words + seq![option], option + " requires a value"@),
        refused(words + seq!["--baud"@, w], "--baud must be a number"@),
        refused(words + seq!["--hz"@, w], "--hz must be a number"@),
        refused(words + seq!["--secs"@, w], "--secs must be a number"@),
{
    let o = rdwr::default_options();
    rdwr::lemma_option_words();
    reveal_strlit("--port");
    reveal_strlit("--baud");
    reveal_strlit("--secs");
    reveal_strlit("--type");
    assert("--port"@[2] == 'p' && "--baud"@[2] == 'b' && "--secs"@[2] == 's' && "--type"@[2] == 't');
    lemma_plain_is_complete(words);
    lemma_plain_words(words, o);
    rdwr::lemma_options_in_pieces(words, seq![option], o);
    rdwr::lemma_options_in_pieces(words, seq!["--baud"@, w], o);
    rdwr::lemma_options_in_pieces(words, seq!["--hz"@, w], o);
    rdwr::lemma_options_in_pieces(words, seq!["--secs"@, w], o);
    if rdwr::takes_value(option) {
        lemma_no_help(words, option, w);
    }
    lemma_no_help(words, "--baud"@, w);
    lemma_no_help(words, "--hz"@, w);
    lemma_no_help(words, "--secs"@, w);
}

/// Plain words and an option ask for no help.
proof fn lemma_no_help(words: Seq<Seq<char>>, option: Seq<char>, w: Seq<char>)
    requires
        all_plain(words),
        is_plain(w),
        rdwr::takes_value(option),
    ensures
        !args::wants_help(words + seq![option]),
        !args::wants_help(words + seq![option, w]),
{
    rdwr::lemma_option_words();
    reveal_strlit("help");
    reveal_strlit("--help");
    reveal_strlit("-h");
    reveal_strlit("--port");
    reveal_strlit("--baud");
    reveal_strlit("--secs");
    reveal_strlit("--type");
    assert("--port"@[2] == 'p' && "--baud"@[2] == 'b' && "--secs"@[2] == 's' && "--type"@[2] == 't');
    assert("--help"@[2] == 'h' && "--help"@[0] == '-' && "--help"@.len() == 6);
    assert("-h"@[0] == '-' && "-h"@.len() == 2 && "help"@[0] == 'h');
    let both = words + seq![option, w];
    let one = words + seq![option];
    assert forall|x: Seq<char>| #[trigger] both.contains(x) implies is_plain(x) || x == option by {
        let i = choose|i: int| 0 <= i < both.len() && both[i] == x;
        if i < words.len() {
            assert(is_plain(words[i]));
        }
    }
    assert forall|x: Seq<char>| #[trigger] one.contains(x) implies is_plain(x) || x == option by {
        let i = choose|i: int| 0 <= i < one.len() && one[i] == x;
        if i < words.len() {
            assert(is_plain(words[i]));
        }
    }
}

/// Plain words leave no option waiting.
proof fn lemma_plain_is_complete(words: Seq<Seq<char>>)
    requires
        all_plain(words),
    ensures
        rdwr::is_complete(words),
    decreases words.len(),
{
    if words.len() > 0 {
        assert(is_plain(words[0]));
        let rest = words.skip(1);
        assert forall|i: int| 0 <= i < rest.len() implies is_plain(#[trigger] rest[i]) by {
            assert(rest[i] == words[i + 1]);
        }
        lemma_plain_is_complete(rest);
    }
}

/// Case and white space around a port name do not matter.
pub proof fn law_port_case_and_space_are_ignored(a: Seq<char>, s: Seq<char>, b: Seq<char>)
    requires
        forall|i: int| 0 <= i < a.len() ==> text::is_space(#[trigger] a[i]),
        forall|i: int| 0 <= i < b.len() ==> text::is_space(#[trigger] b[i]),
        s.len() > 0,
        !text::is_space(s[0]) && !text::is_space(s.last()),
        utf8::is_ascii_chars(s),
    ensures
        rdwr::serial_port_code(a + s + b) == rdwr::port_code(unicode::ascii_lowercase(s)),
{
    text::law_trim_drops_the_space_around(a, s, b);
}

/// What the laws say of a command holds of the command that is run.
pub proof fn law_commands_are_as_stated(c: rdwr::Command)
    ensures
        match c@ {
            CommandView::SetHz { hz, persist } => c == (rdwr::Command::SetHz { hz, persist }),
            CommandView::SetBaud { baud, persist } => c == (rdwr::Command::SetBaud {
                baud,
                persist,
            }),
            CommandView::Rrg { id } => c == (rdwr::Command::Rrg { id }),
            CommandView::Wrg { id, params } => c matches rdwr::Command::Wrg { id: n, params: v } && n
                == id && v@.len() == params.len() && (forall|i: int|
                0 <= i < params.len() ==> (#[trigger] params[i]) == v@[i]@),
            CommandView::Bench { binary, hz, secs, fields, serial_port, ascii_type } => c
                matches rdwr::Command::Bench {
                binary: b,
                hz: h,
                secs: s,
                fields: v,
                serial_port: p,
                ascii_type: t,
            } && b == binary && h == hz && s == secs && p == serial_port && t == ascii_type
                && v@.len() == fields.len() && (forall|i: int|
                0 <= i < fields.len() ==> (#[trigger] fields[i]) == v@[i]@),
            CommandView::Help => c is Help,
            CommandView::GetHz => c is GetHz,
            CommandView::Reset => c is Reset,
            CommandView::FactoryReset => c is FactoryReset,
        },
{
}

} // verus!
