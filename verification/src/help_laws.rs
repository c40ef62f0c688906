//! What holds of the usage texts: they name every command, every option and every
//! value that can be chosen.
use crate::cli;
use crate::fields;
use crate::help;
use crate::number;
use crate::rdwr;
use crate::registers;
use crate::text;
use vstd::prelude::*;
use vstd::string::*;

verus! {

/// Whether `s` stands in `t` at position `i`.
pub open spec fn stands_at(t: Seq<char>, s: Seq<char>, i: int) -> bool {
    0 <= i <= t.len() - s.len() && t.subrange(i, i + s.len()) == s
}

/// Whether `s` stands somewhere in `t`.
#[verifier::opaque]
pub open spec fn mentions(t: Seq<char>, s: Seq<char>) -> bool {
    exists|i: int| #[trigger] stands_at(t, s, i)
}

/// A text mentions itself, and what either of its parts mentions.
proof fn lemma_mentions(a: Seq<char>, b: Seq<char>, s: Seq<char>)
    ensures
        mentions(s, s),
        mentions(a, s) ==> mentions(a + b, s),
        mentions(b, s) ==> mentions(a + b, s),
{
    reveal(mentions);
    assert(s.subrange(0, s.len() as int) =~= s);
    assert(stands_at(s, s, 0));
    if mentions(a, s) {
        let i = choose|i: int| #[trigger] stands_at(a, s, i);
        assert((a + b).subrange(i, i + s.len()) =~= a.subrange(i, i + s.len()));
        assert(stands_at(a + b, s, i));
    }
    if mentions(b, s) {
        let i = choose|i: int| #[trigger] stands_at(b, s, i);
        let j = a.len() + i;
        assert((a + b).subrange(j, j + s.len()) =~= b.subrange(i, i + s.len()));
        assert(stands_at(a + b, s, j));
    }
}

/// A row mentions its label and each line of its description.
proof fn lemma_row_mentions(label: Seq<char>, desc: Seq<Seq<char>>)
    requires
        desc.len() > 0,
    ensures
        mentions(help::row(label, desc), label),
        forall|i: int| 0 <= i < desc.len() ==> mentions(help::row(label, desc), #[trigger] desc[i]),
    decreases desc.len(),
{
    let r = help::row(label, desc);
    if desc.len() == 1 {
        let d = desc[0];
        let pad = help::spaces(help::COL - label.len());
        let far = help::spaces(help::COL as int);
        lemma_mentions("  "@, label, label);
        lemma_mentions("  "@ + label, pad, label);
        lemma_mentions("  "@ + label + pad, d, label);
        lemma_mentions("  "@ + label + pad, d, d);
        lemma_mentions("  "@ + label + pad + d, "\n"@, label);
        lemma_mentions("  "@ + label + pad + d, "\n"@, d);
        lemma_mentions("  "@ + label, "\n"@, label);
        lemma_mentions("  "@ + label + "\n"@, help::continued(d), label);
        lemma_mentions("  "@ + far, d, d);
        lemma_mentions("  "@ + far + d, "\n"@, d);
        lemma_mentions("  "@ + label + "\n"@, help::continued(d), d);
    } else {
        let most = desc.drop_last();
        let last = desc.last();
        let far = help::spaces(help::COL as int);
        lemma_row_mentions(label, most);
        lemma_mentions(help::row(label, most), help::continued(last), label);
        assert forall|i: int| 0 <= i < desc.len() implies mentions(r, #[trigger] desc[i]) by {
            if i < most.len() {
                assert(most[i] == desc[i]);
                lemma_mentions(help::row(label, most), help::continued(last), most[i]);
            } else {
                lemma_mentions("  "@ + far, last, last);
                lemma_mentions("  "@ + far + last, "\n"@, last);
                lemma_mentions(help::row(label, most), help::continued(last), last);
            }
        }
    }
}

/// Indented lines mention each of them.
proof fn lemma_indented_mentions(lines: Seq<Seq<char>>, i: int)
    requires
        0 <= i < lines.len(),
    ensures
        mentions(help::indented(lines), lines[i]),
    decreases lines.len(),
{
    let most = lines.drop_last();
    let before = help::indented(most);
    let last = lines.last();
    let s = lines[i];
    if i < most.len() {
        lemma_indented_mentions(most, i);
        assert(most[i] == s);
        lemma_mentions(before, "  "@, s);
        lemma_mentions(before + "  "@, last, s);
        lemma_mentions(before + "  "@ + last, "\n"@, s);
    } else {
        lemma_mentions(before + "  "@, last, s);
        lemma_mentions(before + "  "@ + last, "\n"@, s);
    }
}

/// What a part mentions, the whole mentions too, whatever is joined to it.
proof fn lemma_joining()
    ensures
        forall|a: Seq<char>, b: Seq<char>, s: Seq<char>|
            #![trigger a + b, mentions(a, s)]
            mentions(a, s) ==> mentions(a + b, s),
        forall|a: Seq<char>, b: Seq<char>, s: Seq<char>|
            #![trigger a + b, mentions(b, s)]
            mentions(b, s) ==> mentions(a + b, s),
        forall|label: Seq<char>, desc: Seq<Seq<char>>|
            #![trigger help::row(label, desc)]
            desc.len() > 0 ==> mentions(help::row(label, desc), label),
{
    assert forall|a: Seq<char>, b: Seq<char>, s: Seq<char>|
        #![trigger a + b, mentions(a, s)]
        mentions(a, s) implies mentions(a + b, s) by {
        lemma_mentions(a, b, s);
    }
    assert forall|a: Seq<char>, b: Seq<char>, s: Seq<char>|
        #![trigger a + b, mentions(b, s)]
        mentions(b, s) implies mentions(a + b, s) by {
        lemma_mentions(a, b, s);
    }
    assert forall|label: Seq<char>, desc: Seq<Seq<char>>|
        #![trigger help::row(label, desc)]
        desc.len() > 0 implies mentions(help::row(label, desc), label) by {
        lemma_row_mentions(label, desc);
    }
}

/// Three parts in a row mention what each of them does.
proof fn lemma_three_parts(a: Seq<char>, b: Seq<char>, c: Seq<char>)
    ensures
        forall|s: Seq<char>|
            #![trigger mentions(a, s)]
            mentions(a, s) ==> mentions(a + b, s) && mentions(a + b + c, s),
        forall|s: Seq<char>|
            #![trigger mentions(b, s)]
            mentions(b, s) ==> mentions(a + b, s) && mentions(a + b + c, s),
        forall|s: Seq<char>|
            #![trigger mentions(c, s)]
            mentions(c, s) ==> mentions(a + b + c, s),
{
    lemma_joining();
}

/// The commands of `rw-vn100` are named.
#[verifier::rlimit(60)]
proof fn lemma_commands_are_named()
    ensures
        ({
            let t = cli::help_commands();
            &&& mentions(t, "get-ascii"@)
            &&& mentions(t, "set-ascii=<PRESET|off>"@)
            &&& mentions(t, "set-ascii-hz=<HZ>"@)
            &&& mentions(t, "get-bin"@)
            &&& mentions(t, "set-bin-fields=<FIELDS>"@)
            &&& mentions(t, "set-bin-hz=<HZ>"@)
            &&& mentions(t, "set-bin=on|off"@)
            &&& mentions(t, "baud <NEW> [--persist]"@)
            &&& mentions(t, "rrg <ID>"@)
            &&& mentions(t, "wrg <ID> <P1> [P2...]"@)
            &&& mentions(t, "bench [SECS]"@)
            &&& mentions(t, "reset | factory-reset"@)
            &&& mentions(t, "help | --help | -h"@)
            &&& mentions(t, "--version | -V"@)
        }),
{
    lemma_joining();
}

/// The help of `rw-vn100` names every command, every global option, and the rates
/// and baud rates that can be chosen, and shows every example.
#[verifier::rlimit(60)]
pub proof fn law_help_names_everything(i: int)
    requires
        0 <= i < cli::examples().len(),
    ensures
        mentions(cli::help(), "get-ascii"@),
        mentions(cli::help(), "set-ascii=<PRESET|off>"@),
        mentions(cli::help(), "set-ascii-hz=<HZ>"@),
        mentions(cli::help(), "get-bin"@),
        mentions(cli::help(), "set-bin-fields=<FIELDS>"@),
        mentions(cli::help(), "set-bin-hz=<HZ>"@),
        mentions(cli::help(), "set-bin=on|off"@),
        mentions(cli::help(), "baud <NEW> [--persist]"@),
        mentions(cli::help(), "rrg <ID>"@),
        mentions(cli::help(), "wrg <ID> <P1> [P2...]"@),
        mentions(cli::help(), "bench [SECS]"@),
        mentions(cli::help(), "reset | factory-reset"@),
        mentions(cli::help(), "help | --help | -h"@),
        mentions(cli::help(), "--version | -V"@),
        mentions(cli::help(), "--port PORT"@),
        mentions(cli::help(), "--baud BAUD"@),
        mentions(cli::help(), "--persist"@),
        mentions(cli::help(), number::number_list(registers::rates())),
        mentions(cli::help(), number::number_list(registers::bauds())),
        mentions(cli::help(), cli::examples()[i]),
{
    let a = cli::help_commands();
    let b = help::global_options("set-*, baud"@);
    let c = cli::help_notes();
    lemma_commands_are_named();
    lemma_global_options_are_named("set-*, baud"@);
    lemma_notes(i);
    lemma_three_parts(a, b, c);
}

/// The commands of `rdwr_vn100` are named.
#[verifier::rlimit(60)]
proof fn lemma_configuring_commands_are_named()
    ensures
        ({
            let t = rdwr::help_commands();
            &&& mentions(t, "get-hz"@)
            &&& mentions(t, "set-hz <HZ> [--persist]"@)
            &&& mentions(t, "baud <NEW> [--persist]"@)
            &&& mentions(t, "rrg <ID>"@)
            &&& mentions(t, "wrg <ID> <P1> [P2...]"@)
            &&& mentions(t, "bench [--bin] [--hz HZ] [--secs S] [--fields LIST]"@)
            &&& mentions(t, "reset | factory-reset"@)
            &&& mentions(t, "help | --help | -h"@)
        }),
{
    lemma_joining();
}

/// The options of a bench are named.
#[verifier::rlimit(60)]
proof fn lemma_bench_options_are_named()
    ensures
        ({
            let t = rdwr::help_bench_options();
            &&& mentions(t, "--bin"@)
            &&& mentions(t, "--hz HZ"@)
            &&& mentions(t, "--secs S"@)
            &&& mentions(t, "--fields L"@)
            &&& mentions(t, "--serial-port P"@)
            &&& mentions(t, "--type NAME"@)
        }),
{
    lemma_joining();
}

/// The global options are named, whatever can be saved.
proof fn lemma_global_options_are_named(savers: Seq<char>)
    ensures
        ({
            let t = help::global_options(savers);
            &&& mentions(t, "--port PORT"@)
            &&& mentions(t, "--baud BAUD"@)
            &&& mentions(t, "--persist"@)
        }),
{
    lemma_joining();
}

/// The notes of `rw-vn100` show the rates and each example.
#[verifier::rlimit(60)]
proof fn lemma_notes(i: int)
    requires
        0 <= i < cli::examples().len(),
    ensures
        mentions(cli::help_notes(), number::number_list(registers::rates())),
        mentions(cli::help_notes(), number::number_list(registers::bauds())),
        mentions(cli::help_notes(), cli::examples()[i]),
{
    lemma_joining();
    lemma_indented_mentions(cli::examples(), i);
    let none = Seq::<char>::empty();
    lemma_mentions(none, none, number::number_list(registers::rates()));
    lemma_mentions(none, none, number::number_list(registers::bauds()));
}

/// The notes of `rdwr_vn100` show the rates and each example.
#[verifier::rlimit(60)]
proof fn lemma_configuring_notes(i: int)
    requires
        0 <= i < rdwr::examples().len(),
    ensures
        mentions(rdwr::help_notes(), number::number_list(registers::rates())),
        mentions(rdwr::help_notes(), number::number_list(registers::bauds())),
        mentions(rdwr::help_notes(), rdwr::examples()[i]),
{
    lemma_joining();
    lemma_indented_mentions(rdwr::examples(), i);
    let none = Seq::<char>::empty();
    lemma_mentions(none, none, number::number_list(registers::rates()));
    lemma_mentions(none, none, number::number_list(registers::bauds()));
}

/// The help of `rdwr_vn100` names every command, every option, and the rates and
/// baud rates that can be chosen, and shows every example.
#[verifier::rlimit(60)]
pub proof fn law_configuring_help_names_everything(i: int)
    requires
        0 <= i < rdwr::examples().len(),
    ensures
        mentions(rdwr::help(), "get-hz"@),
        mentions(rdwr::help(), "set-hz <HZ> [--persist]"@),
        mentions(rdwr::help(), "baud <NEW> [--persist]"@),
        mentions(rdwr::help(), "rrg <ID>"@),
        mentions(rdwr::help(), "wrg <ID> <P1> [P2...]"@),
        mentions(rdwr::help(), "bench [--bin] [--hz HZ] [--secs S] [--fields LIST]"@),
        mentions(rdwr::help(), "reset | factory-reset"@),
        mentions(rdwr::help(), "help | --help | -h"@),
        mentions(rdwr::help(), "--bin"@),
        mentions(rdwr::help(), "--hz HZ"@),
        mentions(rdwr::help(), "--secs S"@),
        mentions(rdwr::help(), "--fields L"@),
        mentions(rdwr::help(), "--serial-port P"@),
        mentions(rdwr::help(), "--type NAME"@),
        mentions(rdwr::help(), "--port PORT"@),
        mentions(rdwr::help(), "--baud BAUD"@),
        mentions(rdwr::help(), "--persist"@),
        mentions(rdwr::help(), number::number_list(registers::rates())),
        mentions(rdwr::help(), number::number_list(registers::bauds())),
        mentions(rdwr::help(), rdwr::examples()[i]),
{
    let a = rdwr::help_commands();
    let b = rdwr::help_bench_options();
    let c = help::global_options("set-hz, baud"@);
    let d = rdwr::help_notes();
    lemma_configuring_commands_are_named();
    lemma_bench_options_are_named();
    lemma_global_options_are_named("set-hz, baud"@);
    lemma_configuring_notes(i);
    lemma_three_parts(a, b, c);
    lemma_three_parts(a + b, c, d);
}

/// The help of both tools names every preset and every field.
#[verifier::rlimit(60)]
pub proof fn law_help_names_the_choices()
    ensures
        mentions(cli::help(), text::join(registers::preset_names(), ", "@)),
        mentions(cli::help(), text::join(fields::name_table(), ", "@)),
        mentions(rdwr::help(), text::join(registers::preset_names(), ", "@)),
        mentions(rdwr::help(), text::join(fields::name_table(), ", "@)),
{
    let presets = text::join(registers::preset_names(), ", "@);
    let names = text::join(fields::name_table(), ", "@);
    lemma_joining();
    lemma_last_line(
        "set-ascii=<PRESET|off>"@,
        seq!["Set the ASCII async preset (register 6)."@, "Presets: "@ + presets],
        "Presets: "@,
        presets,
    );
    lemma_last_line(
        "set-bin-fields=<FIELDS>"@,
        seq![
            "Set the binary field mask (register 75), leaving"@,
            "streaming as-is."@,
            "Fields: "@ + names,
        ],
        "Fields: "@,
        names,
    );
    lemma_last_line(
        "--fields L"@,
        seq![
            "Binary only: comma-separated fields (default time,accel)."@,
            "Choices: "@ + names,
        ],
        "Choices: "@,
        names,
    );
    lemma_last_line(
        "--type NAME"@,
        seq!["ASCII only: set the message preset (register 6) first."@, "Choices: "@ + presets],
        "Choices: "@,
        presets,
    );
}

/// A row mentions what its last line ends with.
proof fn lemma_last_line(
    label: Seq<char>,
    desc: Seq<Seq<char>>,
    before: Seq<char>,
    s: Seq<char>,
)
    requires
        desc.len() >= 2,
        desc.last() == before + s,
    ensures
        mentions(help::row(label, desc), s),
{
    let last = desc.last();
    let far = help::spaces(help::COL as int);
    lemma_mentions(before, s, s);
    lemma_mentions("  "@ + far, last, s);
    lemma_mentions("  "@ + far + last, "\n"@, s);
    lemma_mentions(help::row(label, desc.drop_last()), help::continued(last), s);
}

} // verus!
