//! Usage text: aligned rows, and the options that every command takes.
use crate::text;
use crate::text::{chars_of, concat3};
use vstd::prelude::*;
use vstd::string::*;
use vstd::utf8;

verus! {

/// Label column width; a description starts after it.
pub const COL: usize = 24;

/// So many spaces.
pub open spec fn spaces(n: int) -> Seq<char> {
    Seq::new(
        if n > 0 {
            n as nat
        } else {
            0
        },
        |i: int| ' ',
    )
}

/// A description line of its own, aligned to the description column.
pub open spec fn continued(line: Seq<char>) -> Seq<char> {
    "  "@ + spaces(COL as int) + line + "\n"@
}

/// One help row: the label and the first line of its description, or, where the
/// label is too wide, the description from the next line on; then the other lines.
pub open spec fn row(label: Seq<char>, desc: Seq<Seq<char>>) -> Seq<char>
    decreases desc.len(),
{
    if desc.len() <= 1 {
        if utf8::encode_utf8(label).len() <= COL {
            "  "@ + label + spaces(COL - label.len()) + desc[0] + "\n"@
        } else {
            "  "@ + label + "\n"@ + continued(desc[0])
        }
    } else {
        row(label, desc.drop_last()) + continued(desc.last())
    }
}

/// So many spaces.
fn space_text(n: usize) -> (r: String)
    ensures
        r@ == spaces(n as int),
{
    let mut s = String::new();
    let mut i: usize = 0;
    while i < n
        invariant
            i <= n,
            s@ =~= spaces(i as int),
        decreases n - i,
    {
        s.push(' ');
        i = i + 1;
    }
    s
}

/// A description line of its own.
fn continued_text(line: &str) -> (r: String)
    ensures
        r@ == continued(line@),
{
    let pad = space_text(COL);
    let mut s = concat3("  ", pad.as_str(), line);
    s.append("\n");
    s
}

/// Formats one help row: a `label` and one-or-more wrapped description lines,
/// aligned to a common description column. If the label is too wide, the
/// description starts on the next line.
pub fn help_row(label: &str, desc: &[&str]) -> (r: String)
    requires
        desc@.len() > 0,
    ensures
        r@ == row(label@, text::str_views(desc@)),
{
    let ghost all = text::str_views(desc@);
    let mut out = String::new();
    let chars = chars_of(label).len();
    if label.as_bytes().len() <= COL {
        let n: usize = if chars < COL {
            COL - chars
        } else {
            0
        };
        let pad = space_text(n);
        assert(spaces(n as int) == spaces(COL - label@.len()));
        out = concat3("  ", label, pad.as_str());
        out.append(desc[0]);
        out.append("\n");
    } else {
        out = concat3("  ", label, "\n");
        let c = continued_text(desc[0]);
        out.append(c.as_str());
    }
    assert(all.take(1)[0] == desc@[0]@);
    let mut i: usize = 1;
    while i < desc.len()
        invariant
            1 <= i <= desc.len(),
            all == text::str_views(desc@),
            out@ == row(label@, all.take(i as int)),
        decreases desc.len() - i,
    {
        assert(all.take(i + 1).drop_last() =~= all.take(i as int));
        assert(all.take(i + 1).last() == desc@[i as int]@);
        let c = continued_text(desc[i]);
        out.append(c.as_str());
        i = i + 1;
    }
    assert(all.take(i as int) =~= all);
    out
}

/// A row with one description line.
pub fn row1(label: &str, a: &str) -> (r: String)
    ensures
        r@ == row(label@, seq![a@]),
{
    let d = [a];
    assert(text::str_views(d@) =~= seq![a@]);
    help_row(label, d.as_slice())
}

/// A row with two description lines.
pub fn row2(label: &str, a: &str, b: &str) -> (r: String)
    ensures
        r@ == row(label@, seq![a@, b@]),
{
    let d = [a, b];
    assert(text::str_views(d@) =~= seq![a@, b@]);
    help_row(label, d.as_slice())
}

/// A row with three description lines.
pub fn row3(label: &str, a: &str, b: &str, c: &str) -> (r: String)
    ensures
        r@ == row(label@, seq![a@, b@, c@]),
{
    let l = [a, b, c];
    assert(text::str_views(l@) =~= seq![a@, b@, c@]);
    help_row(label, l.as_slice())
}

/// A row with four description lines.
pub fn row4(label: &str, a: &str, b: &str, c: &str, d: &str) -> (r: String)
    ensures
        r@ == row(label@, seq![a@, b@, c@, d@]),
{
    let l = [a, b, c, d];
    assert(text::str_views(l@) =~= seq![a@, b@, c@, d@]);
    help_row(label, l.as_slice())
}

/// The options that every command takes; `savers` are the verbs whose settings can
/// be saved.
pub open spec fn global_options(savers: Seq<char>) -> Seq<char> {
    "\nGlobal options:\n"@
        + row(
            "--port PORT"@,
            seq![
                "Serial device (default: /dev/ttyAMA0, the RPi5"@,
                "header UART). Use /dev/ttyUSB0 for a USB adapter."@,
            ],
        )
        + row(
            "--baud BAUD"@,
            seq![
                "Baud to talk to the device NOW (default 115200);"@,
                "must match the device's CURRENT rate."@,
            ],
        )
        + row(
            "--persist"@,
            seq!["Save to flash so it survives a power cycle ("@ + savers + ")."@],
        )
}

/// The options that every command takes.
pub fn global_options_text(savers: &str) -> (r: String)
    ensures
        r@ == global_options(savers@),
{
    let mut s = "\nGlobal options:\n".to_string();
    let r = row2(
        "--port PORT",
        "Serial device (default: /dev/ttyAMA0, the RPi5",
        "header UART). Use /dev/ttyUSB0 for a USB adapter.",
    );
    s.append(r.as_str());
    let r = row2(
        "--baud BAUD",
        "Baud to talk to the device NOW (default 115200);",
        "must match the device's CURRENT rate.",
    );
    s.append(r.as_str());
    let persist = concat3("Save to flash so it survives a power cycle (", savers, ").");
    let r = row1("--persist", persist.as_str());
    s.append(r.as_str());
    s
}

// ---------------------------------------------------------------------------
// Examples
// ---------------------------------------------------------------------------
/// The lines, each indented.
pub open spec fn indented(lines: Seq<Seq<char>>) -> Seq<char>
    decreases lines.len(),
{
    if lines.len() == 0 {
        Seq::empty()
    } else {
        indented(lines.drop_last()) + "  "@ + lines.last() + "\n"@
    }
}

/// The lines, each indented.
pub fn indented_text(lines: &[&str]) -> (r: String)
    ensures
        r@ == indented(text::str_views(lines@)),
{
    let ghost all = text::str_views(lines@);
    let mut s = String::new();
    let mut i: usize = 0;
    while i < lines.len()
        invariant
            i <= lines.len(),
            all == text::str_views(lines@),
            s@ == indented(all.take(i as int)),
        decreases lines.len() - i,
    {
        assert(all.take(i + 1).drop_last() =~= all.take(i as int));
        assert(all.take(i + 1).last() == lines@[i as int]@);
        s.append("  ");
        s.append(lines[i]);
        s.append("\n");
        i = i + 1;
    }
    assert(all.take(i as int) =~= all);
    s
}

/// The arguments that an example line gives its program: its words after the
/// first, up to a note.
pub open spec fn example_args(line: Seq<char>) -> Seq<Seq<char>> {
    text::words(text::before(line, '#')).skip(1)
}

/// The arguments of a line that starts with `front`, then spaces and perhaps a
/// note.
pub proof fn lemma_example(line: Seq<char>, front: Seq<char>, args: Seq<Seq<char>>, pad: nat)
    requires
        text::words(front).skip(1) == args,
        front.len() + pad <= line.len(),
        line.take((front.len() + pad) as int) == front + spaces(pad as int),
        forall|j: int| 0 <= j < front.len() ==> #[trigger] front[j] != '#',
        front.len() + pad < line.len() ==> line[(front.len() + pad) as int] == '#',
    ensures
        example_args(line) == args,
{
    let n = (front.len() + pad) as int;
    assert forall|j: int| 0 <= j < n implies line[j] != '#' by {
        assert(line[j] == (front + spaces(pad as int))[j]);
        if j < front.len() {
            assert(front[j] != '#');
        }
    }
    if n < line.len() {
        text::lemma_find_at(line, '#', n);
    } else {
        text::lemma_find(line, '#');
        assert(line.take(n) =~= line);
    }
    text::lemma_words_padded(front, pad);
    assert(spaces(pad as int) =~= Seq::new(pad, |i: int| ' '));
}

/// Whether a word of an example holds neither a space nor the start of a note.
pub open spec fn is_example_word(w: Seq<char>) -> bool {
    &&& w.len() > 0
    &&& forall|j: int| 0 <= j < w.len() ==> #[trigger] w[j] != ' ' && w[j] != '#'
}

/// The arguments of a line with one word behind the program's name.
pub proof fn lemma_one_arg(line: Seq<char>, program: Seq<char>, word: Seq<char>, pad: nat)
    requires
        is_example_word(program),
        is_example_word(word),
        program.len() + 1 + word.len() + pad <= line.len(),
        line.take((program.len() + 1 + word.len() + pad) as int) == program + seq![' '] + word
            + spaces(pad as int),
        program.len() + 1 + word.len() + pad < line.len() ==> line[(program.len() + 1 + word.len()
            + pad) as int] == '#',
    ensures
        example_args(line) == seq![word],
{
    let front = program + seq![' '] + word;
    text::lemma_words_push(program, program);
    text::lemma_words_push(program, word);
    assert(text::words(front).skip(1) =~= seq![word]);
    lemma_example(line, front, seq![word], pad);
}

/// The arguments of a line with two words behind the program's name.
pub proof fn lemma_two_args(
    line: Seq<char>,
    program: Seq<char>,
    a: Seq<char>,
    b: Seq<char>,
    pad: nat,
)
    requires
        is_example_word(program),
        is_example_word(a),
        is_example_word(b),
        program.len() + a.len() + b.len() + 2 + pad <= line.len(),
        line.take((program.len() + a.len() + b.len() + 2 + pad) as int) == program + seq![' '] + a
            + seq![' '] + b + spaces(pad as int),
        program.len() + a.len() + b.len() + 2 + pad < line.len() ==> line[(program.len() + a.len()
            + b.len() + 2 + pad) as int] == '#',
    ensures
        example_args(line) == seq![a, b],
{
    let front = program + seq![' '] + a;
    let all = front + seq![' '] + b;
    text::lemma_words_push(program, program);
    text::lemma_words_push(program, a);
    text::lemma_words_push(front, b);
    assert(text::words(all).skip(1) =~= seq![a, b]);
    lemma_example(line, all, seq![a, b], pad);
}


/// Every description line starts at one column, 26 characters in: behind a label
/// that fits before it, or on a line of its own.
pub proof fn law_rows_are_aligned(label: Seq<char>, first: Seq<char>, more: Seq<Seq<char>>, next: Seq<char>)
    requires
        utf8::is_ascii_chars(label),
    ensures
        label.len() <= 24 ==> {
            let r = row(label, seq![first]);
            &&& r.len() == 26 + first.len() + 1
            &&& r.subrange(2, 2 + label.len() as int) == label
            &&& r.subrange(26, 26 + first.len() as int) == first
            &&& r.last() == '\n'
            &&& forall|i: int|
                0 <= i < 2 || 2 + label.len() <= i < 26 ==> #[trigger] r[i] == ' '
        },
        label.len() > 24 ==> {
            let r = row(label, seq![first]);
            &&& r == "  "@ + label + "\n"@ + r.skip(3 + label.len() as int)
            &&& r.len() == 3 + label.len() + 26 + first.len() + 1
            &&& r.subrange(29 + label.len() as int, 29 + label.len() as int + first.len() as int)
                == first
            &&& r.last() == '\n'
            &&& forall|i: int|
                3 + label.len() <= i < 29 + label.len() ==> #[trigger] r[i] == ' '
        },
        more.len() > 0 ==> {
            let before = row(label, more);
            let r = row(label, more.push(next));
            let n = before.len() as int;
            &&& r.take(n) == before
            &&& r.len() == n + 26 + next.len() + 1
            &&& r.subrange(n + 26, n + 26 + next.len() as int) == next
            &&& r.last() == '\n'
            &&& forall|i: int| n <= i < n + 26 ==> #[trigger] r[i] == ' '
        },
{
    reveal_strlit("  ");
    reveal_strlit("\n");
    utf8::is_ascii_chars_encode_utf8(label);
    let l = label.len() as int;
    let f = first.len() as int;
    let r = row(label, seq![first]);
    if l <= 24 {
        assert(r =~= "  "@ + label + spaces(24 - l) + first + "\n"@);
        assert(r.subrange(2, 2 + l) =~= label);
        assert(r.subrange(26, 26 + f) =~= first);
    } else {
        assert(r =~= "  "@ + label + "\n"@ + continued(first));
        assert(r.skip(3 + l) =~= continued(first));
        assert(r.subrange(29 + l, 29 + l + f) =~= first);
    }
    if more.len() > 0 {
        let before = row(label, more);
        let all = row(label, more.push(next));
        let n = before.len() as int;
        assert(more.push(next).drop_last() =~= more);
        assert(all == before + continued(next));
        assert(all.take(n) =~= before);
        assert(all.subrange(n + 26, n + 26 + next.len() as int) =~= next);
    }
}

/// Every example line is indented by two blanks and ends in a line feed.
pub proof fn law_examples_are_indented(lines: Seq<Seq<char>>, next: Seq<char>)
    ensures
        indented(Seq::empty()).len() == 0,
        indented(lines.push(next)) == indented(lines) + seq![' ', ' '] + next + seq!['\n'],
{
    reveal_strlit("  ");
    reveal_strlit("\n");
    assert(lines.push(next).drop_last() =~= lines);
    assert("  "@ =~= seq![' ', ' ']);
    assert("\n"@ =~= seq!['\n']);
}

} // verus!
