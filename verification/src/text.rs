//! Text primitives: searching, splitting, trimming, and number syntax.
//!
//! Specifications speak of character sequences (`Seq<char>`); the executable
//! functions work on `&str` and return sub-slices where they can.
use vstd::prelude::*;
use vstd::string::*;

verus! {

/// `String::push` of the standard library: appends one character.
pub assume_specification[ String::push ](s: &mut String, c: char)
    ensures
        final(s)@ == old(s)@.push(c),
;

// ---------------------------------------------------------------------------
// Searching
// ---------------------------------------------------------------------------
/// Index of the first `c` in `s`.
pub open spec fn find<T>(s: Seq<T>, c: T) -> Option<int>
    decreases s.len(),
{
    if s.len() == 0 {
        None
    } else if s[0] == c {
        Some(0)
    } else {
        match find(s.skip(1), c) {
            Some(i) => Some(i + 1),
            None => None,
        }
    }
}

/// Index of the last `c` in `s`.
pub open spec fn rfind<T>(s: Seq<T>, c: T) -> Option<int>
    decreases s.len(),
{
    if s.len() == 0 {
        None
    } else if s.last() == c {
        Some(s.len() - 1)
    } else {
        rfind(s.drop_last(), c)
    }
}

/// What `find` means: the hit is a `c`, and nothing before it is.
pub proof fn lemma_find<T>(s: Seq<T>, c: T)
    ensures
        match find(s, c) {
            Some(i) => 0 <= i < s.len() && s[i] == c && (forall|j: int| 0 <= j < i ==> s[j] != c),
            None => forall|j: int| 0 <= j < s.len() ==> s[j] != c,
        },
    decreases s.len(),
{
    if s.len() > 0 && s[0] != c {
        let t = s.skip(1);
        lemma_find(t, c);
        match find(t, c) {
            Some(k) => {
                assert forall|j: int| 0 <= j < k + 1 implies s[j] != c by {
                    if j > 0 {
                        assert(s[j] == t[j - 1]);
                    }
                }
            },
            None => {
                assert forall|j: int| 0 <= j < s.len() implies s[j] != c by {
                    if j > 0 {
                        assert(s[j] == t[j - 1]);
                    }
                }
            },
        }
    }
}

/// A position that holds the first `c` is the one `find` reports.
pub proof fn lemma_find_at<T>(s: Seq<T>, c: T, i: int)
    requires
        0 <= i < s.len(),
        s[i] == c,
        forall|j: int| 0 <= j < i ==> s[j] != c,
    ensures
        find(s, c) == Some(i),
{
    lemma_find(s, c);
    match find(s, c) {
        Some(k) => {
            if k < i {
                assert(s[k] != c);
            }
        },
        None => {
            assert(s[i] != c);
        },
    }
}

/// What `rfind` means: the hit is a `c`, and nothing after it is.
pub proof fn lemma_rfind<T>(s: Seq<T>, c: T)
    ensures
        match rfind(s, c) {
            Some(i) => 0 <= i < s.len() && s[i] == c && (forall|j: int|
                i < j < s.len() ==> s[j] != c),
            None => forall|j: int| 0 <= j < s.len() ==> s[j] != c,
        },
    decreases s.len(),
{
    if s.len() > 0 && s.last() != c {
        let t = s.drop_last();
        lemma_rfind(t, c);
        let lo = match rfind(t, c) {
            Some(k) => k,
            None => -1int,
        };
        assert forall|j: int| lo < j < s.len() implies s[j] != c by {
            if j < s.len() - 1 {
                assert(s[j] == t[j]);
            }
        }
    }
}

/// A position that holds the last `c` is the one `rfind` reports.
pub proof fn lemma_rfind_at<T>(s: Seq<T>, c: T, i: int)
    requires
        0 <= i < s.len(),
        s[i] == c,
        forall|j: int| i < j < s.len() ==> s[j] != c,
    ensures
        rfind(s, c) == Some(i),
{
    lemma_rfind(s, c);
    match rfind(s, c) {
        Some(k) => {
            if k > i {
                assert(s[k] != c);
            } else if k < i {
                assert(s[i] != c);
            }
        },
        None => {
            assert(s[i] != c);
        },
    }
}

/// The part of `s` before its first `c` (all of `s` where there is none).
pub open spec fn before(s: Seq<char>, c: char) -> Seq<char> {
    match find(s, c) {
        Some(i) => s.take(i),
        None => s,
    }
}

/// `s` cut at its first `c`, the `c` dropped.
pub open spec fn split_once(s: Seq<char>, c: char) -> Option<(Seq<char>, Seq<char>)> {
    match find(s, c) {
        Some(i) => Some((s.take(i), s.skip(i + 1))),
        None => None,
    }
}

/// `s` cut at its last `c`, the `c` dropped.
pub open spec fn rsplit_once(s: Seq<char>, c: char) -> Option<(Seq<char>, Seq<char>)> {
    match rfind(s, c) {
        Some(i) => Some((s.take(i), s.skip(i + 1))),
        None => None,
    }
}

/// The pieces of `s` between its `c`s: one more piece than there are `c`s.
pub open spec fn split(s: Seq<char>, c: char) -> Seq<Seq<char>>
    decreases s.len(),
{
    match find(s, c) {
        Some(i) => if 0 <= i < s.len() {
            seq![s.take(i)] + split(s.skip(i + 1), c)
        } else {
            seq![s]
        },
        None => seq![s],
    }
}

/// `s` without the prefix `p`, if it starts with it.
pub open spec fn strip_prefix(s: Seq<char>, p: Seq<char>) -> Option<Seq<char>> {
    if p.is_prefix_of(s) {
        Some(s.skip(p.len() as int))
    } else {
        None
    }
}

/// The pieces with `sep` between each two neighbours.
pub open spec fn join(parts: Seq<Seq<char>>, sep: Seq<char>) -> Seq<char>
    decreases parts.len(),
{
    if parts.len() == 0 {
        Seq::empty()
    } else if parts.len() == 1 {
        parts[0]
    } else {
        join(parts.drop_last(), sep) + sep + parts.last()
    }
}

/// The words of `s`: what stands between its spaces.
pub open spec fn words(s: Seq<char>) -> Seq<Seq<char>> {
    split(s, ' ').filter(|w: Seq<char>| w.len() > 0)
}

/// Cutting at the first `c`, where the first piece holds none.
pub proof fn lemma_split_front(a: Seq<char>, rest: Seq<char>, c: char)
    requires
        !a.contains(c),
    ensures
        split(a + seq![c] + rest, c) == seq![a] + split(rest, c),
{
    let s = a + seq![c] + rest;
    let n = a.len() as int;
    assert forall|j: int| 0 <= j < n implies s[j] != c by {
        assert(s[j] == a[j]);
        assert(a.contains(a[j]));
    }
    lemma_find_at(s, c, n);
    assert(s.take(n) =~= a);
    assert(s.skip(n + 1) =~= rest);
}

/// A text without a `c` is its only piece.
pub proof fn lemma_split_last(a: Seq<char>, c: char)
    requires
        !a.contains(c),
    ensures
        split(a, c) == seq![a],
{
    lemma_find(a, c);
    match find(a, c) {
        Some(i) => {
            assert(a.contains(a[i]));
        },
        None => {},
    }
}

/// Joining starts with the first piece.
pub proof fn lemma_join_front(parts: Seq<Seq<char>>, sep: Seq<char>)
    requires
        parts.len() >= 2,
    ensures
        join(parts, sep) == parts[0] + sep + join(parts.skip(1), sep),
    decreases parts.len(),
{
    let rest = parts.skip(1);
    if parts.len() == 2 {
        assert(join(parts.drop_last(), sep) == parts[0]);
        assert(join(rest, sep) == parts[1]);
    } else {
        let most = parts.drop_last();
        lemma_join_front(most, sep);
        assert(most.skip(1) =~= rest.drop_last());
        assert(most[0] == parts[0] && rest.last() == parts.last());
        assert(join(parts, sep) =~= parts[0] + sep + join(rest, sep));
    }
}

/// Splitting undoes joining: the pieces come back, all but the first with what
/// stands behind `c` in the separator.
pub proof fn lemma_split_joined(parts: Seq<Seq<char>>, c: char, pad: Seq<char>)
    requires
        parts.len() > 0,
        !pad.contains(c),
        forall|i: int| 0 <= i < parts.len() ==> !(#[trigger] parts[i]).contains(c),
    ensures
        split(pad + join(parts, seq![c] + pad), c) == parts.map_values(|p: Seq<char>| pad + p),
        split(join(parts, seq![c] + pad), c) == seq![parts[0]] + parts.skip(1).map_values(
            |p: Seq<char>| pad + p,
        ),
    decreases parts.len(),
{
    let sep = seq![c] + pad;
    let padded = |p: Seq<char>| pad + p;
    let first = parts[0];
    assert(!first.contains(c));
    assert(!(pad + first).contains(c)) by {
        if (pad + first).contains(c) {
            let i = choose|i: int| 0 <= i < (pad + first).len() && (pad + first)[i] == c;
            if i < pad.len() {
                assert(pad[i] == c);
            } else {
                assert(first[i - pad.len()] == c);
            }
        }
    }
    if parts.len() == 1 {
        lemma_split_last(first, c);
        lemma_split_last(pad + first, c);
        assert(parts.map_values(padded) =~= seq![pad + first]);
        assert(seq![first] + parts.skip(1).map_values(padded) =~= seq![first]);
    } else {
        let rest = parts.skip(1);
        assert forall|i: int| 0 <= i < rest.len() implies !(#[trigger] rest[i]).contains(c) by {
            assert(rest[i] == parts[i + 1]);
        }
        lemma_split_joined(rest, c, pad);
        lemma_join_front(parts, sep);
        let tail = pad + join(rest, sep);
        assert(join(parts, sep) =~= first + seq![c] + tail);
        assert(pad + join(parts, sep) =~= (pad + first) + seq![c] + tail);
        lemma_split_front(first, tail, c);
        lemma_split_front(pad + first, tail, c);
        assert(parts.map_values(padded) =~= seq![pad + first] + rest.map_values(padded));
    }
}

/// A last piece stays a piece of its own.
pub proof fn lemma_split_push(s: Seq<char>, w: Seq<char>, c: char)
    requires
        !w.contains(c),
    ensures
        split(s + seq![c] + w, c) == split(s, c).push(w),
    decreases s.len(),
{
    let t = s + seq![c] + w;
    lemma_find(s, c);
    match find(s, c) {
        Some(i) => {
            let rest = s.skip(i + 1);
            assert forall|j: int| 0 <= j < i implies t[j] != c by {
                assert(t[j] == s[j]);
            }
            lemma_find_at(t, c, i);
            assert(t.take(i) =~= s.take(i));
            assert(t.skip(i + 1) =~= rest + seq![c] + w);
            lemma_split_push(rest, w, c);
            assert(seq![s.take(i)] + split(rest, c).push(w) =~= (seq![s.take(i)] + split(
                rest,
                c,
            )).push(w));
        },
        None => {
            assert(!s.contains(c));
            lemma_split_front(s, w, c);
            lemma_split_last(w, c);
            assert(seq![s] + seq![w] =~= seq![s].push(w));
        },
    }
}

/// The words of one word, and of more words with one behind them.
pub proof fn lemma_words_push(s: Seq<char>, w: Seq<char>)
    requires
        w.len() > 0,
        forall|j: int| 0 <= j < w.len() ==> #[trigger] w[j] != ' ',
    ensures
        words(w) == seq![w],
        words(s + seq![' '] + w) == words(s).push(w),
{
    let keep = |x: Seq<char>| x.len() > 0;
    assert(!w.contains(' '));
    lemma_split_last(w, ' ');
    lemma_split_push(s, w, ' ');
    reveal(Seq::filter);
    assert(seq![w].drop_last() =~= Seq::<Seq<char>>::empty());
    assert(Seq::<Seq<char>>::empty().filter(keep) =~= Seq::<Seq<char>>::empty());
    assert(seq![w].filter(keep) =~= seq![w]);
    assert(split(s, ' ').push(w).drop_last() =~= split(s, ' '));
}

/// Spaces at the end add no word.
pub proof fn lemma_words_padded(s: Seq<char>, n: nat)
    ensures
        words(s + Seq::new(n, |i: int| ' ')) == words(s),
    decreases n,
{
    let pad = Seq::new(n, |i: int| ' ');
    if n == 0 {
        assert(s + pad =~= s);
    } else {
        let m = (n - 1) as nat;
        let t = s + Seq::new(m, |i: int| ' ');
        let none = Seq::<char>::empty();
        lemma_words_padded(s, m);
        assert(s + pad =~= t + seq![' '] + none);
        lemma_split_push(t, none, ' ');
        reveal(Seq::filter);
        assert(split(t, ' ').push(none).drop_last() =~= split(t, ' '));
    }
}

/// Keeping what all satisfy keeps all.
pub proof fn lemma_filter_all<T>(parts: Seq<T>, keep: spec_fn(T) -> bool)
    requires
        forall|i: int| 0 <= i < parts.len() ==> keep(#[trigger] parts[i]),
    ensures
        parts.filter(keep) == parts,
    decreases parts.len(),
{
    reveal(Seq::filter);
    if parts.len() > 0 {
        let most = parts.drop_last();
        assert forall|i: int| 0 <= i < most.len() implies keep(#[trigger] most[i]) by {
            assert(most[i] == parts[i]);
        }
        lemma_filter_all(most, keep);
        assert(keep(parts[parts.len() - 1]));
        assert(most.push(parts.last()) =~= parts);
    }
}

/// The views of a list of strings.
pub open spec fn views(v: Seq<String>) -> Seq<Seq<char>> {
    Seq::new(v.len(), |i: int| v[i]@)
}

/// The views of a list of string slices.
pub open spec fn str_views(v: Seq<&str>) -> Seq<Seq<char>> {
    Seq::new(v.len(), |i: int| v[i]@)
}

/// A result whose error is a message, with the message taken by its characters.
pub open spec fn message<T>(r: Result<T, String>) -> Result<T, Seq<char>> {
    match r {
        Ok(v) => Ok(v),
        Err(e) => Err(e@),
    }
}

/// The characters of `s`.
pub fn chars_of(s: &str) -> (r: Vec<char>)
    ensures
        r@ == s@,
{
    let mut v: Vec<char> = Vec::new();
    for c in it: s.chars()
        invariant
            v@ == it.seq().take(it.index() as int),
            it.seq() == s@,
    {
        v.push(c);
    }
    v
}

/// Whether two texts are the same.
pub fn same(a: &str, b: &str) -> (r: bool)
    ensures
        r == (a@ == b@),
{
    let x = chars_of(a);
    let y = chars_of(b);
    if x.len() != y.len() {
        return false;
    }
    let mut i: usize = 0;
    while i < x.len()
        invariant
            x.len() == y.len(),
            x@ == a@,
            y@ == b@,
            i <= x.len(),
            forall|j: int| 0 <= j < i ==> x@[j] == y@[j],
        decreases x.len() - i,
    {
        if x[i] != y[i] {
            assert(a@[i as int] != b@[i as int]);
            return false;
        }
        i = i + 1;
    }
    assert(a@ =~= b@);
    true
}

/// Whether `s` starts with `p`.
pub fn starts_with(s: &str, p: &str) -> (r: bool)
    ensures
        r == p@.is_prefix_of(s@),
{
    let x = chars_of(s);
    let y = chars_of(p);
    if y.len() > x.len() {
        return false;
    }
    let mut i: usize = 0;
    while i < y.len()
        invariant
            y.len() <= x.len(),
            x@ == s@,
            y@ == p@,
            i <= y.len(),
            forall|j: int| 0 <= j < i ==> x@[j] == y@[j],
        decreases y.len() - i,
    {
        if x[i] != y[i] {
            assert(s@.subrange(0, p@.len() as int)[i as int] != p@[i as int]);
            return false;
        }
        i = i + 1;
    }
    assert(p@ =~= s@.subrange(0, p@.len() as int));
    true
}

/// `s` from its character `from` on.
pub fn skip_chars(s: &str, from: usize) -> (r: &str)
    requires
        from <= s@.len(),
    ensures
        r@ == s@.skip(from as int),
{
    let n = s.unicode_len();
    let r = s.substring_char(from, n);
    assert(r@ =~= s@.skip(from as int));
    r
}

/// `s` up to its character `to`.
pub fn take_chars(s: &str, to: usize) -> (r: &str)
    requires
        to <= s@.len(),
    ensures
        r@ == s@.take(to as int),
{
    let r = s.substring_char(0, to);
    assert(r@ =~= s@.take(to as int));
    r
}

/// `s` without the prefix `p`, if it starts with it.
pub fn without_prefix<'a>(s: &'a str, p: &str) -> (r: Option<&'a str>)
    ensures
        r matches Some(t) ==> strip_prefix(s@, p@) == Some(t@),
        r is None ==> strip_prefix(s@, p@) is None,
{
    if starts_with(s, p) {
        let n = p.unicode_len();
        Some(skip_chars(s, n))
    } else {
        None
    }
}

/// Index of the first `c` in `s`, counted in characters.
pub fn find_char(s: &str, c: char) -> (r: Option<usize>)
    ensures
        r matches Some(i) ==> find(s@, c) == Some(i as int) && i < s@.len() && i < usize::MAX,
        r is None ==> find(s@, c) is None,
{
    let cs = chars_of(s);
    let mut i: usize = 0;
    while i < cs.len()
        invariant
            cs@ == s@,
            i <= cs.len(),
            forall|j: int| 0 <= j < i ==> s@[j] != c,
        decreases cs.len() - i,
    {
        if cs[i] == c {
            proof {
                lemma_find_at(s@, c, i as int);
            }
            return Some(i);
        }
        i = i + 1;
    }
    proof {
        lemma_find(s@, c);
    }
    None
}

/// Index of the last `c` in `s`, counted in characters.
pub fn rfind_char(s: &str, c: char) -> (r: Option<usize>)
    ensures
        r matches Some(i) ==> rfind(s@, c) == Some(i as int) && i < s@.len() && i < usize::MAX,
        r is None ==> rfind(s@, c) is None,
{
    let cs = chars_of(s);
    let mut i: usize = cs.len();
    while i > 0
        invariant
            cs@ == s@,
            i <= cs.len(),
            forall|j: int| i <= j < s@.len() ==> s@[j] != c,
        decreases i,
    {
        i = i - 1;
        if cs[i] == c {
            proof {
                lemma_rfind_at(s@, c, i as int);
            }
            return Some(i);
        }
    }
    proof {
        lemma_rfind(s@, c);
    }
    None
}

/// The part of `s` before its first `c` (all of `s` where there is none).
pub fn before_char(s: &str, c: char) -> (r: &str)
    ensures
        r@ == before(s@, c),
{
    match find_char(s, c) {
        Some(i) => take_chars(s, i),
        None => s,
    }
}

/// `s` cut at its first `c`, the `c` dropped.
pub fn split_at_first(s: &str, c: char) -> (r: Option<(&str, &str)>)
    ensures
        r matches Some(t) ==> split_once(s@, c) == Some((t.0@, t.1@)),
        r is None ==> split_once(s@, c) is None,
{
    match find_char(s, c) {
        Some(i) => Some((take_chars(s, i), skip_chars(s, i + 1))),
        None => None,
    }
}

/// `s` cut at its last `c`, the `c` dropped.
pub fn split_at_last(s: &str, c: char) -> (r: Option<(&str, &str)>)
    ensures
        r matches Some(t) ==> rsplit_once(s@, c) == Some((t.0@, t.1@)),
        r is None ==> rsplit_once(s@, c) is None,
{
    match rfind_char(s, c) {
        Some(i) => Some((take_chars(s, i), skip_chars(s, i + 1))),
        None => None,
    }
}

/// The pieces of `s` between its `c`s.
pub fn pieces(s: &str, c: char) -> (r: Vec<&str>)
    ensures
        str_views(r@) == split(s@, c),
{
    let mut out: Vec<&str> = Vec::new();
    let mut rest: &str = s;
    loop
        invariant_except_break
            str_views(out@) + split(rest@, c) == split(s@, c),
        ensures
            str_views(out@) == split(s@, c),
        decreases rest@.len(),
    {
        let ghost done = str_views(out@);
        match find_char(rest, c) {
            Some(i) => {
                let head = take_chars(rest, i);
                let tail = skip_chars(rest, i + 1);
                out.push(head);
                proof {
                    assert(str_views(out@) =~= done + seq![head@]);
                    assert(done + (seq![head@] + split(tail@, c)) =~= str_views(out@) + split(
                        tail@,
                        c,
                    ));
                }
                rest = tail;
            },
            None => {
                out.push(rest);
                assert(str_views(out@) =~= done + seq![rest@]);
                break;
            },
        }
    }
    out
}

/// The pieces with `sep` between each two neighbours.
pub fn joined(parts: &[&str], sep: &str) -> (r: String)
    ensures
        r@ == join(str_views(parts@), sep@),
{
    let mut s = String::new();
    let mut i: usize = 0;
    let ghost all = str_views(parts@);
    while i < parts.len()
        invariant
            i <= parts.len(),
            all == str_views(parts@),
            s@ == join(all.take(i as int), sep@),
        decreases parts.len() - i,
    {
        let ghost was = s@;
        proof {
            assert(all.take(i + 1).drop_last() =~= all.take(i as int));
            assert(all.take(i + 1).last() == parts@[i as int]@);
        }
        if i > 0 {
            s.append(sep);
        }
        s.append(parts[i]);
        if i == 0 {
            assert(s@ =~= parts@[0]@);
        }
        i = i + 1;
    }
    assert(all.take(i as int) =~= all);
    s
}

/// Joins two texts.
pub fn concat2(a: &str, b: &str) -> (r: String)
    ensures
        r@ == a@ + b@,
{
    let mut s = a.to_string();
    s.append(b);
    s
}

/// Joins three texts.
pub fn concat3(a: &str, b: &str, c: &str) -> (r: String)
    ensures
        r@ == a@ + b@ + c@,
{
    let mut s = concat2(a, b);
    s.append(c);
    s
}

// ---------------------------------------------------------------------------
// White space
// ---------------------------------------------------------------------------
/// The characters with the Unicode `White_Space` property.
pub open spec fn is_space(c: char) -> bool {
    let v = c as u32;
    ||| 0x09 <= v <= 0x0d
    ||| v == 0x20
    ||| v == 0x85
    ||| v == 0xa0
    ||| v == 0x1680
    ||| 0x2000 <= v <= 0x200a
    ||| v == 0x2028
    ||| v == 0x2029
    ||| v == 0x202f
    ||| v == 0x205f
    ||| v == 0x3000
}

/// `s` without its leading white space.
pub open spec fn trim_start(s: Seq<char>) -> Seq<char>
    decreases s.len(),
{
    if s.len() > 0 && is_space(s[0]) {
        trim_start(s.skip(1))
    } else {
        s
    }
}

/// `s` without its trailing white space.
pub open spec fn trim_end(s: Seq<char>) -> Seq<char>
    decreases s.len(),
{
    if s.len() > 0 && is_space(s.last()) {
        trim_end(s.drop_last())
    } else {
        s
    }
}

/// `s` without its leading and trailing white space.
pub open spec fn trim(s: Seq<char>) -> Seq<char> {
    trim_end(trim_start(s))
}

/// Dropping the leading white space drops exactly the first `i` characters
/// when those are white space and the next one is not.
pub proof fn lemma_trim_start(s: Seq<char>, i: int)
    requires
        0 <= i <= s.len(),
        forall|j: int| 0 <= j < i ==> is_space(s[j]),
        i < s.len() ==> !is_space(s[i]),
    ensures
        trim_start(s) == s.skip(i),
    decreases s.len(),
{
    if i > 0 {
        let t = s.skip(1);
        assert forall|j: int| 0 <= j < i - 1 implies is_space(t[j]) by {
            assert(t[j] == s[j + 1]);
        }
        lemma_trim_start(t, i - 1);
        assert(t.skip(i - 1) =~= s.skip(i));
    } else {
        assert(s.skip(0) =~= s);
    }
}

/// Dropping the trailing white space keeps exactly the first `i` characters
/// when all after them is white space and the last kept one is not.
pub proof fn lemma_trim_end(s: Seq<char>, i: int)
    requires
        0 <= i <= s.len(),
        forall|j: int| i <= j < s.len() ==> is_space(s[j]),
        i > 0 ==> !is_space(s[i - 1]),
    ensures
        trim_end(s) == s.take(i),
    decreases s.len(),
{
    if i < s.len() {
        let t = s.drop_last();
        lemma_trim_end(t, i);
        assert(t.take(i) =~= s.take(i));
    } else {
        assert(s.take(i) =~= s);
    }
}

/// Whether `c` is white space.
pub fn space(c: char) -> (r: bool)
    ensures
        r == is_space(c),
{
    let v: u32 = c as u32;
    (0x09 <= v && v <= 0x0d) || v == 0x20 || v == 0x85 || v == 0xa0 || v == 0x1680 || (0x2000 <= v
        && v <= 0x200a) || v == 0x2028 || v == 0x2029 || v == 0x202f || v == 0x205f || v == 0x3000
}

/// `s` without its leading and trailing white space.
pub fn trimmed(s: &str) -> (r: &str)
    ensures
        r@ == trim(s@),
{
    let cs = chars_of(s);
    let mut i: usize = 0;
    while i < cs.len() && space(cs[i])
        invariant
            cs@ == s@,
            i <= cs.len(),
            forall|j: int| 0 <= j < i ==> is_space(s@[j]),
        decreases cs.len() - i,
    {
        i = i + 1;
    }
    let mut k: usize = cs.len();
    while k > i && space(cs[k - 1])
        invariant
            cs@ == s@,
            i <= k <= cs.len(),
            forall|j: int| k <= j < s@.len() ==> is_space(s@[j]),
        decreases k,
    {
        k = k - 1;
    }
    let r = s.substring_char(i, k);
    proof {
        lemma_trim_start(s@, i as int);
        let t = s@.skip(i as int);
        lemma_trim_end(t, k - i);
        assert(t.take(k - i) =~= s@.subrange(i as int, k as int));
    }
    r
}


/// Trimming drops all white space around a text and nothing else.
pub proof fn law_trim_drops_the_space_around(a: Seq<char>, s: Seq<char>, b: Seq<char>)
    requires
        forall|i: int| 0 <= i < a.len() ==> is_space(#[trigger] a[i]),
        forall|i: int| 0 <= i < b.len() ==> is_space(#[trigger] b[i]),
        s.len() > 0 ==> !is_space(s[0]) && !is_space(s.last()),
    ensures
        trim(a + s + b) == s,
{
    let all = a + s + b;
    let n = a.len() as int;
    if s.len() > 0 {
        assert(all[n] == s[0]);
        lemma_trim_start(all, n);
        let t = all.skip(n);
        assert(t =~= s + b);
        assert forall|j: int| s.len() <= j < t.len() implies is_space(t[j]) by {
            assert(t[j] == b[j - s.len()]);
        }
        assert(t[s.len() - 1] == s.last());
        lemma_trim_end(t, s.len() as int);
        assert(t.take(s.len() as int) =~= s);
    } else {
        assert forall|j: int| 0 <= j < all.len() implies is_space(all[j]) by {
            if j < n {
                assert(all[j] == a[j]);
            } else {
                assert(all[j] == b[j - n]);
            }
        }
        lemma_trim_start(all, all.len() as int);
        assert(all.skip(all.len() as int) =~= s);
        lemma_trim_end(s, 0);
        assert(s.take(0) =~= s);
    }
}

/// The white space of ASCII is the blank and the control characters from tab to
/// carriage return; no printable character is.
pub proof fn law_ascii_space(c: char)
    requires
        (c as u32) < 128,
    ensures
        is_space(c) <==> c == ' ' || c == '\t' || c == '\n' || c as u32 == 11 || c as u32 == 12 || c
            == '\r',
{
}

/// Pieces that hold no separator are what a split of their join gives back.
pub proof fn law_split_undoes_join(parts: Seq<Seq<char>>, c: char)
    requires
        parts.len() > 0,
        forall|i: int| 0 <= i < parts.len() ==> !(#[trigger] parts[i]).contains(c),
    ensures
        split(join(parts, seq![c]), c) == parts,
{
    let none = Seq::<char>::empty();
    assert(seq![c] + none =~= seq![c]);
    lemma_split_joined(parts, c, none);
    let rest = parts.skip(1);
    assert forall|i: int| 0 <= i < rest.len() implies none + rest[i] == rest[i] by {
        assert(none + rest[i] =~= rest[i]);
    }
    assert(seq![parts[0]] + rest.map_values(|p: Seq<char>| none + p) =~= parts);
}

} // verus!
