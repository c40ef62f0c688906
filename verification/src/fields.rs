//! The selectable fields of the VN-100's binary output.
//!
//! All fields come from the "Common" group (group 1), which keeps a frame to
//! one group and one 16-bit field mask.
use crate::text;
use crate::text::{concat2, joined, pieces, same, trimmed};
use vstd::prelude::*;
use vstd::string::*;

verus! {

/// A selectable binary-output field: CLI name, the group-1 bit it occupies, and
/// its on-wire byte size.
pub struct Field {
    pub name: &'static str,
    pub bit: u8,
    pub size: usize,
}

/// A `Field` with its name taken by characters.
pub struct FieldView {
    pub name: Seq<char>,
    pub bit: u8,
    pub size: int,
}

impl View for Field {
    type V = FieldView;

    open spec fn view(&self) -> FieldView {
        FieldView { name: self.name@, bit: self.bit, size: self.size as int }
    }
}

/// The number of selectable fields.
pub const FIELD_COUNT: usize = 7;

/// The field vocabulary, in bit order.
pub open spec fn field_table() -> Seq<FieldView> {
    seq![
        FieldView { name: "time"@, bit: 0, size: 8 },
        FieldView { name: "ypr"@, bit: 3, size: 12 },
        FieldView { name: "quat"@, bit: 4, size: 16 },
        FieldView { name: "gyro"@, bit: 5, size: 12 },
        FieldView { name: "accel"@, bit: 8, size: 12 },
        FieldView { name: "imu"@, bit: 9, size: 24 },
        FieldView { name: "magpres"@, bit: 10, size: 20 },
    ]
}

/// The views of a list of fields.
pub open spec fn field_views(v: Seq<&'static Field>) -> Seq<FieldView> {
    Seq::new(v.len(), |i: int| v[i]@)
}

/// The field at position `i` of the vocabulary.
pub fn field_at(i: usize) -> (r: &'static Field)
    requires
        i < FIELD_COUNT,
    ensures
        r@ == field_table()[i as int],
{
    if i == 0 {
        // TimeStartup, u64 ns
        &Field { name: "time", bit: 0, size: 8 }
    } else if i == 1 {
        // YawPitchRoll, 3 x f32 deg
        &Field { name: "ypr", bit: 3, size: 12 }
    } else if i == 2 {
        // Quaternion, 4 x f32
        &Field { name: "quat", bit: 4, size: 16 }
    } else if i == 3 {
        // AngularRate, 3 x f32 rad/s
        &Field { name: "gyro", bit: 5, size: 12 }
    } else if i == 4 {
        // Accel, 3 x f32 m/s^2
        &Field { name: "accel", bit: 8, size: 12 }
    } else if i == 5 {
        // Uncompensated accel and gyro, 6 x f32
        &Field { name: "imu", bit: 9, size: 24 }
    } else {
        // Mag (3 x f32), temperature, pressure
        &Field { name: "magpres", bit: 10, size: 20 }
    }
}

/// The field called `name`, looked for from position `i` on.
pub open spec fn named_from(name: Seq<char>, i: int) -> Option<FieldView>
    decreases FIELD_COUNT - i,
{
    if 0 <= i < FIELD_COUNT {
        if field_table()[i].name == name {
            Some(field_table()[i])
        } else {
            named_from(name, i + 1)
        }
    } else {
        None
    }
}

/// The field called `name`.
pub open spec fn field_named(name: Seq<char>) -> Option<FieldView> {
    named_from(name, 0)
}

/// The field called `name`, if there is one.
pub fn lookup_field(name: &str) -> (r: Option<&'static Field>)
    ensures
        r matches Some(f) ==> field_named(name@) == Some(f@) && f.name@ == name@,
        r is None ==> field_named(name@) is None,
{
    let mut i: usize = 0;
    while i < FIELD_COUNT
        invariant
            i <= FIELD_COUNT,
            named_from(name@, 0) == named_from(name@, i as int),
        decreases FIELD_COUNT - i,
    {
        let f = field_at(i);
        if same(f.name, name) {
            return Some(f);
        }
        i = i + 1;
    }
    None
}

/// The names of the vocabulary, in bit order.
pub open spec fn name_table() -> Seq<Seq<char>> {
    Seq::new(FIELD_COUNT as nat, |i: int| field_table()[i].name)
}

/// The names of the vocabulary, comma-separated.
pub fn field_names() -> (r: String)
    ensures
        r@ == text::join(name_table(), ", "@),
{
    let mut names: Vec<&str> = Vec::new();
    let mut i: usize = 0;
    while i < FIELD_COUNT
        invariant
            i <= FIELD_COUNT,
            text::str_views(names@) =~= name_table().take(i as int),
        decreases FIELD_COUNT - i,
    {
        let ghost was = text::str_views(names@);
        let f = field_at(i);
        names.push(f.name);
        assert(text::str_views(names@) =~= was.push(f.name@));
        i = i + 1;
    }
    assert(name_table().take(i as int) =~= name_table());
    joined(names.as_slice(), ", ")
}

/// The names of these fields.
pub open spec fn names_of(fs: Seq<FieldView>) -> Seq<Seq<char>> {
    Seq::new(fs.len(), |i: int| fs[i].name)
}

/// The words of a comma-separated list: trimmed, empty ones dropped.
pub open spec fn list_words(list: Seq<char>) -> Seq<Seq<char>> {
    text::split(list, ',').map_values(|p: Seq<char>| text::trim(p)).filter(
        |w: Seq<char>| w.len() > 0,
    )
}

/// The first word that names no field.
pub open spec fn first_unknown(words: Seq<Seq<char>>) -> Option<Seq<char>>
    decreases words.len(),
{
    if words.len() == 0 {
        None
    } else {
        match first_unknown(words.drop_last()) {
            Some(w) => Some(w),
            None => if field_named(words.last()) is None {
                Some(words.last())
            } else {
                None
            },
        }
    }
}

/// The fields that the words name: each once, in bit order.
pub open spec fn fields_called(words: Seq<Seq<char>>) -> Seq<FieldView> {
    field_table().filter(|f: FieldView| words.contains(f.name))
}

/// The meaning of a field list.
pub open spec fn field_list(list: Seq<char>) -> Result<Seq<FieldView>, Seq<char>> {
    let words = list_words(list);
    match first_unknown(words) {
        Some(w) => Err(
            "unknown field `"@ + w + "`; choose from "@ + text::join(name_table(), ", "@),
        ),
        None => if words.len() == 0 {
            Err("--fields needs at least one field"@)
        } else {
            Ok(fields_called(words))
        },
    }
}

/// The words of a comma-separated list.
fn words_of(list: &str) -> (r: Vec<&str>)
    ensures
        text::str_views(r@) == list_words(list@),
{
    let parts = pieces(list, ',');
    let mut words: Vec<&str> = Vec::new();
    let ghost keep = |w: Seq<char>| w.len() > 0;
    let ghost all = text::split(list@, ',').map_values(|p: Seq<char>| text::trim(p));
    let mut i: usize = 0;
    assert(all.take(0).filter(keep) =~= Seq::<Seq<char>>::empty()) by {
        reveal(Seq::filter);
    }
    while i < parts.len()
        invariant
            i <= parts.len(),
            keep == (|w: Seq<char>| w.len() > 0),
            all == text::split(list@, ',').map_values(|p: Seq<char>| text::trim(p)),
            text::str_views(parts@) == text::split(list@, ','),
            text::str_views(words@) =~= all.take(i as int).filter(keep),
        decreases parts.len() - i,
    {
        let ghost was = text::str_views(words@);
        let w = trimmed(parts[i]);
        proof {
            assert(text::str_views(parts@)[i as int] == parts@[i as int]@);
            assert(all[i as int] == w@);
            assert(all.take(i + 1).drop_last() =~= all.take(i as int));
            reveal(Seq::filter);
        }
        if !w.is_empty() {
            words.push(w);
            assert(text::str_views(words@) =~= was.push(w@));
        }
        i = i + 1;
    }
    assert(all.take(i as int) =~= all);
    words
}

/// Whether `name` is one of the words.
fn mentions(words: &[&str], name: &str) -> (r: bool)
    ensures
        r == text::str_views(words@).contains(name@),
{
    let ghost all = text::str_views(words@);
    let mut i: usize = 0;
    while i < words.len()
        invariant
            i <= words.len(),
            all == text::str_views(words@),
            forall|j: int| 0 <= j < i ==> all[j] != name@,
        decreases words.len() - i,
    {
        if same(words[i], name) {
            assert(all[i as int] == name@);
            return true;
        }
        i = i + 1;
    }
    false
}

/// An unknown word stays the first one whatever follows.
proof fn lemma_first_unknown_prefix(words: Seq<Seq<char>>, k: int)
    requires
        0 <= k <= words.len(),
        first_unknown(words.take(k)) is Some,
    ensures
        first_unknown(words) == first_unknown(words.take(k)),
    decreases words.len(),
{
    if k == words.len() {
        assert(words.take(k) =~= words);
    } else {
        assert(words.drop_last().take(k) =~= words.take(k));
        lemma_first_unknown_prefix(words.drop_last(), k);
    }
}

/// Parses a comma-separated field list into Common-group fields, ordered by bit
/// (the order the device emits them), de-duplicated.
pub fn parse_fields(list: &str) -> (r: Result<Vec<&'static Field>, String>)
    ensures
        match r {
            Ok(v) => field_list(list@) == Ok::<Seq<FieldView>, Seq<char>>(field_views(v@)),
            Err(e) => field_list(list@) == Err::<Seq<FieldView>, Seq<char>>(e@),
        },
{
    let words = words_of(list);
    let ghost all = text::str_views(words@);
    let mut i: usize = 0;
    while i < words.len()
        invariant
            i <= words.len(),
            all == text::str_views(words@),
            all == list_words(list@),
            first_unknown(all.take(i as int)) is None,
        decreases words.len() - i,
    {
        assert(all.take(i + 1).drop_last() =~= all.take(i as int));
        if lookup_field(words[i]).is_none() {
            proof {
                lemma_first_unknown_prefix(all, i + 1);
            }
            let names = field_names();
            let mut e = concat2("unknown field `", words[i]);
            e.append("`; choose from ");
            e.append(names.as_str());
            return Err(e);
        }
        i = i + 1;
    }
    assert(all.take(i as int) =~= all);
    if words.len() == 0 {
        return Err("--fields needs at least one field".to_string());
    }
    let mut out: Vec<&'static Field> = Vec::new();
    let ghost pick = |f: FieldView| all.contains(f.name);
    let mut k: usize = 0;
    assert(field_table().take(0).filter(pick) =~= Seq::<FieldView>::empty()) by {
        reveal(Seq::filter);
    }
    while k < FIELD_COUNT
        invariant
            k <= FIELD_COUNT,
            all == text::str_views(words@),
            pick == (|f: FieldView| all.contains(f.name)),
            field_views(out@) =~= field_table().take(k as int).filter(pick),
        decreases FIELD_COUNT - k,
    {
        let ghost was = field_views(out@);
        let f = field_at(k);
        proof {
            assert(field_table().take(k + 1).drop_last() =~= field_table().take(k as int));
            reveal(Seq::filter);
        }
        if mentions(words.as_slice(), f.name) {
            out.push(f);
            assert(field_views(out@) =~= was.push(f@));
        }
        k = k + 1;
    }
    assert(field_table().take(k as int) =~= field_table());
    Ok(out)
}

/// Default binary field set: timestamp + acceleration.
pub fn default_fields() -> (r: Vec<&'static Field>)
    ensures
        field_views(r@) == seq![field_table()[0], field_table()[4]],
{
    let mut v: Vec<&'static Field> = Vec::new();
    v.push(field_at(0));
    v.push(field_at(4));
    assert(field_views(v@) =~= seq![field_table()[0], field_table()[4]]);
    v
}

// ---------------------------------------------------------------------------
// Field masks
// ---------------------------------------------------------------------------
/// Whether `mask` has `bit` set.
pub open spec fn has_bit(mask: u16, bit: u8) -> bool {
    mask & (1u16 << bit) != 0
}

/// The mask with the bit of each field set.
pub open spec fn mask_of(fields: Seq<FieldView>) -> u16
    decreases fields.len(),
{
    if fields.len() == 0 {
        0
    } else {
        mask_of(fields.drop_last()) | (1u16 << fields.last().bit)
    }
}

/// Whether the bit of each field is one of a 16-bit mask.
pub open spec fn bits_fit(fields: Seq<FieldView>) -> bool {
    forall|i: int| 0 <= i < fields.len() ==> (#[trigger] fields[i]).bit < 16
}

/// The bytes that the fields take on the wire.
pub open spec fn size_of_fields(fields: Seq<FieldView>) -> int
    decreases fields.len(),
{
    if fields.len() == 0 {
        0
    } else {
        size_of_fields(fields.drop_last()) + fields.last().size
    }
}

/// The fields whose bits are set in `mask`, in bit order.
pub open spec fn fields_in(mask: u16) -> Seq<FieldView> {
    field_table().filter(|f: FieldView| has_bit(mask, f.bit))
}

/// The mask with every known field's bit set.
pub const KNOWN_MASK: u16 = 0x0739;

/// The fields of the first `n` table entries whose bits are set in `mask`.
pub open spec fn fields_in_upto(mask: u16, n: int) -> Seq<FieldView> {
    field_table().take(n).filter(|f: FieldView| has_bit(mask, f.bit))
}

/// One more table entry adds its field, bit and size, if the mask selects it.
pub proof fn lemma_fields_in_step(mask: u16, n: int)
    requires
        0 <= n < FIELD_COUNT,
    ensures
        ({
            let f = field_table()[n];
            let a = fields_in_upto(mask, n);
            let b = fields_in_upto(mask, n + 1);
            if has_bit(mask, f.bit) {
                b == a.push(f) && mask_of(b) == mask_of(a) | (1u16 << f.bit) && size_of_fields(b)
                    == size_of_fields(a) + f.size
            } else {
                b == a
            }
        }),
{
    let pick = |f: FieldView| has_bit(mask, f.bit);
    let f = field_table()[n];
    let a = fields_in_upto(mask, n);
    reveal(Seq::filter);
    assert(field_table().take(n + 1).drop_last() =~= field_table().take(n));
    if has_bit(mask, f.bit) {
        assert(a.push(f).drop_last() =~= a);
    }
}

/// The whole table at once.
pub proof fn lemma_fields_in_all(mask: u16)
    ensures
        fields_in_upto(mask, FIELD_COUNT as int) == fields_in(mask),
        fields_in_upto(mask, 0) == Seq::<FieldView>::empty(),
{
    reveal(Seq::filter);
    assert(field_table().take(FIELD_COUNT as int) =~= field_table());
    assert(fields_in_upto(mask, 0) =~= Seq::<FieldView>::empty());
}

/// The mask of the fields that a mask selects is the known part of the mask,
/// and they take at most 104 bytes, at least 8 when there is one.
pub proof fn law_mask_round_trip(mask: u16)
    ensures
        mask_of(fields_in(mask)) == mask & KNOWN_MASK,
        0 <= size_of_fields(fields_in(mask)) <= 104,
        mask & KNOWN_MASK != 0 ==> size_of_fields(fields_in(mask)) >= 8,
{
    lemma_fields_in_all(mask);
    lemma_fields_in_step(mask, 0);
    lemma_fields_in_step(mask, 1);
    lemma_fields_in_step(mask, 2);
    lemma_fields_in_step(mask, 3);
    lemma_fields_in_step(mask, 4);
    lemma_fields_in_step(mask, 5);
    lemma_fields_in_step(mask, 6);
    let m1 = mask_of(fields_in_upto(mask, 1));
    let m2 = mask_of(fields_in_upto(mask, 2));
    let m3 = mask_of(fields_in_upto(mask, 3));
    let m4 = mask_of(fields_in_upto(mask, 4));
    let m5 = mask_of(fields_in_upto(mask, 5));
    let m6 = mask_of(fields_in_upto(mask, 6));
    let m7 = mask_of(fields_in_upto(mask, 7));
    assert(m7 == mask & 0x0739) by (bit_vector)
        requires
            m1 == if mask & (1u16 << 0u8) != 0 { 0u16 | (1u16 << 0u8) } else { 0u16 },
            m2 == if mask & (1u16 << 3u8) != 0 { m1 | (1u16 << 3u8) } else { m1 },
            m3 == if mask & (1u16 << 4u8) != 0 { m2 | (1u16 << 4u8) } else { m2 },
            m4 == if mask & (1u16 << 5u8) != 0 { m3 | (1u16 << 5u8) } else { m3 },
            m5 == if mask & (1u16 << 8u8) != 0 { m4 | (1u16 << 8u8) } else { m4 },
            m6 == if mask & (1u16 << 9u8) != 0 { m5 | (1u16 << 9u8) } else { m5 },
            m7 == if mask & (1u16 << 10u8) != 0 { m6 | (1u16 << 10u8) } else { m6 },
    ;
    assert(mask & 0x0739 != 0 ==> (mask & (1u16 << 0u8) != 0 || mask & (1u16 << 3u8) != 0 || mask
        & (1u16 << 4u8) != 0 || mask & (1u16 << 5u8) != 0 || mask & (1u16 << 8u8) != 0 || mask & (
    1u16 << 9u8) != 0 || mask & (1u16 << 10u8) != 0)) by (bit_vector);
}

/// The fields whose bits are set in `mask`, in bit order.
pub fn fields_from_mask(mask: u16) -> (r: Vec<&'static Field>)
    ensures
        field_views(r@) == fields_in(mask),
{
    let mut out: Vec<&'static Field> = Vec::new();
    let mut k: usize = 0;
    proof {
        lemma_fields_in_all(mask);
    }
    while k < FIELD_COUNT
        invariant
            k <= FIELD_COUNT,
            field_views(out@) =~= fields_in_upto(mask, k as int),
        decreases FIELD_COUNT - k,
    {
        let ghost was = field_views(out@);
        let f = field_at(k);
        proof {
            lemma_fields_in_step(mask, k as int);
        }
        if mask & (1u16 << f.bit) != 0 {
            out.push(f);
            assert(field_views(out@) =~= was.push(f@));
        }
        k = k + 1;
    }
    out
}

// ---------------------------------------------------------------------------
// Laws of field selection
// ---------------------------------------------------------------------------
/// What is picked from the first `n` table entries: exactly the entries that
/// satisfy the condition, strictly ordered by bit.
pub proof fn lemma_picked(pick: spec_fn(FieldView) -> bool, n: int)
    requires
        0 <= n <= FIELD_COUNT,
    ensures
        ({
            let s = field_table().take(n).filter(pick);
            &&& forall|i: int, j: int| 0 <= i < j < s.len() ==> s[i].bit < s[j].bit
            &&& forall|i: int| 0 <= i < s.len() ==> s[i].bit < 16 && pick(s[i]) && exists|k: int|
                0 <= k < n && #[trigger] field_table()[k] == s[i]
            &&& forall|k: int|
                0 <= k < n && pick(#[trigger] field_table()[k]) ==> s.contains(field_table()[k])
        }),
    decreases n,
{
    reveal(Seq::filter);
    if n == 0 {
        assert(field_table().take(0).filter(pick) =~= Seq::<FieldView>::empty());
    } else {
        lemma_picked(pick, n - 1);
        let t = field_table().take(n - 1).filter(pick);
        let s = field_table().take(n).filter(pick);
        let f = field_table()[n - 1];
        assert(field_table().take(n).drop_last() =~= field_table().take(n - 1));
        if pick(f) {
            assert(s =~= t.push(f));
            assert forall|i: int, j: int| 0 <= i < j < s.len() implies s[i].bit < s[j].bit by {
                if j == s.len() - 1 {
                    assert(s[i] == t[i]);
                }
            }
            assert forall|i: int| 0 <= i < s.len() implies s[i].bit < 16 && pick(s[i]) && exists|
                k: int,
            |
                0 <= k < n && #[trigger] field_table()[k] == s[i] by {
                if i < t.len() {
                    assert(s[i] == t[i]);
                } else {
                    assert(field_table()[n - 1] == s[i]);
                }
            }
            assert forall|k: int| 0 <= k < n && pick(#[trigger] field_table()[k]) implies s.contains(
                field_table()[k],
            ) by {
                if k < n - 1 {
                    let x = choose|x: int| 0 <= x < t.len() && t[x] == field_table()[k];
                    assert(s[x] == field_table()[k]);
                } else {
                    assert(s[t.len() as int] == f);
                }
            }
        } else {
            assert(s =~= t);
        }
    }
}

/// A field list selects exactly the fields it names, each once, in strictly
/// increasing bit order.
pub proof fn law_named_fields_ordered_once(words: Seq<Seq<char>>)
    ensures
        ({
            let s = fields_called(words);
            &&& forall|i: int, j: int| 0 <= i < j < s.len() ==> s[i].bit < s[j].bit
            &&& forall|i: int| 0 <= i < s.len() ==> words.contains(#[trigger] s[i].name)
            &&& forall|k: int|
                0 <= k < FIELD_COUNT && words.contains(#[trigger] field_table()[k].name)
                    ==> s.contains(field_table()[k])
        }),
{
    let pick = |f: FieldView| words.contains(f.name);
    lemma_picked(pick, FIELD_COUNT as int);
    assert(field_table().take(FIELD_COUNT as int) =~= field_table());
    let s = fields_called(words);
    assert forall|i: int| 0 <= i < s.len() implies words.contains(#[trigger] s[i].name) by {
        assert(pick(s[i]));
    }
    assert forall|k: int|
        0 <= k < FIELD_COUNT && words.contains(#[trigger] field_table()[k].name) implies s.contains(
        field_table()[k],
    ) by {
        assert(pick(field_table()[k]));
    }
}

/// Conditions that agree on the table pick the same fields.
proof fn lemma_same_pick(p: spec_fn(FieldView) -> bool, q: spec_fn(FieldView) -> bool, n: int)
    requires
        0 <= n <= FIELD_COUNT,
        forall|k: int| 0 <= k < n ==> p(#[trigger] field_table()[k]) == q(field_table()[k]),
    ensures
        field_table().take(n).filter(p) == field_table().take(n).filter(q),
    decreases n,
{
    reveal(Seq::filter);
    if n > 0 {
        lemma_same_pick(p, q, n - 1);
        assert(field_table().take(n).drop_last() =~= field_table().take(n - 1));
        assert(p(field_table()[n - 1]) == q(field_table()[n - 1]));
    }
}

/// Two lists that name the same fields, in any order and any number of times,
/// select the same fields.
pub proof fn law_word_order_is_irrelevant(a: Seq<Seq<char>>, b: Seq<Seq<char>>)
    requires
        forall|w: Seq<char>| a.contains(w) <==> b.contains(w),
    ensures
        fields_called(a) == fields_called(b),
{
    lemma_same_pick(
        |f: FieldView| a.contains(f.name),
        |f: FieldView| b.contains(f.name),
        FIELD_COUNT as int,
    );
    assert(field_table().take(FIELD_COUNT as int) =~= field_table());
}

/// Two field lists with the same words, in any order and any number of times, with
/// any white space around them and any empty pieces between, are both refused or
/// select the same fields.
pub proof fn law_same_words_same_fields(a: Seq<char>, b: Seq<char>)
    requires
        forall|w: Seq<char>| list_words(a).contains(w) <==> list_words(b).contains(w),
    ensures
        field_list(a) is Ok <==> field_list(b) is Ok,
        field_list(a) matches Ok(fs) ==> field_list(b) == Ok::<Seq<FieldView>, Seq<char>>(fs),
{
    lemma_accepted_words(list_words(a));
    lemma_accepted_words(list_words(b));
    lemma_same_words_accepted(list_words(a), list_words(b));
    lemma_same_words_accepted(list_words(b), list_words(a));
    law_word_order_is_irrelevant(list_words(a), list_words(b));
}

/// Whether there are words and each names a field.
pub open spec fn all_known(words: Seq<Seq<char>>) -> bool {
    &&& words.len() > 0
    &&& forall|i: int| 0 <= i < words.len() ==> field_named(#[trigger] words[i]) is Some
}

/// Words are accepted exactly when there are some and each names a field.
proof fn lemma_accepted_words(words: Seq<Seq<char>>)
    ensures
        all_known(words) <==> words.len() > 0 && first_unknown(words) is None,
    decreases words.len(),
{
    if words.len() > 0 {
        let most = words.drop_last();
        lemma_accepted_words(most);
        if all_known(words) {
            assert forall|i: int| 0 <= i < most.len() implies field_named(
                #[trigger] most[i],
            ) is Some by {
                assert(most[i] == words[i]);
            }
            assert(field_named(words[words.len() - 1]) is Some);
        }
        if first_unknown(words) is None {
            assert forall|i: int| 0 <= i < words.len() implies field_named(
                #[trigger] words[i],
            ) is Some by {
                lemma_all_known(words, i);
            }
        }
    }
}

/// The same words are accepted in any order and number.
proof fn lemma_same_words_accepted(a: Seq<Seq<char>>, b: Seq<Seq<char>>)
    requires
        forall|w: Seq<char>| a.contains(w) <==> b.contains(w),
    ensures
        all_known(a) ==> all_known(b),
{
    if all_known(a) {
        assert(a.contains(a[0]));
        assert forall|i: int| 0 <= i < b.len() implies field_named(#[trigger] b[i]) is Some by {
            assert(b.contains(b[i]));
            let j = choose|j: int| 0 <= j < a.len() && a[j] == b[i];
            assert(field_named(a[j]) is Some);
        }
    }
}

/// Whether a word can stand in a list as it is: it is not empty, and holds neither
/// a comma nor white space.
pub open spec fn is_plain_word(w: Seq<char>) -> bool {
    &&& w.len() > 0
    &&& forall|j: int| 0 <= j < w.len() ==> #[trigger] w[j] != ',' && !text::is_space(w[j])
}

/// The names of the vocabulary can stand in a list as they are.
proof fn lemma_names_are_plain(k: int)
    requires
        0 <= k < FIELD_COUNT,
    ensures
        is_plain_word(field_table()[k].name),
{
    reveal_strlit("time");
    reveal_strlit("ypr");
    reveal_strlit("quat");
    reveal_strlit("gyro");
    reveal_strlit("accel");
    reveal_strlit("imu");
    reveal_strlit("magpres");
    assert(is_plain_word("time"@));
    assert(is_plain_word("ypr"@));
    assert(is_plain_word("quat"@));
    assert(is_plain_word("gyro"@));
    assert(is_plain_word("accel"@));
    assert(is_plain_word("imu"@));
    assert(is_plain_word("magpres"@));
    assert(k == 0 || k == 1 || k == 2 || k == 3 || k == 4 || k == 5 || k == 6);
}

/// A plain word is what trimming leaves, whatever white space stands before it.
proof fn lemma_trim_plain(pad: Seq<char>, w: Seq<char>)
    requires
        is_plain_word(w),
        forall|j: int| 0 <= j < pad.len() ==> text::is_space(pad[j]),
    ensures
        text::trim(pad + w) == w,
{
    let s = pad + w;
    let n = pad.len() as int;
    assert forall|j: int| 0 <= j < n implies text::is_space(s[j]) by {
        assert(s[j] == pad[j]);
    }
    assert(s[n] == w[0]);
    text::lemma_trim_start(s, n);
    assert(s.skip(n) =~= w);
    text::lemma_trim_end(w, w.len() as int);
    assert(w.take(w.len() as int) =~= w);
}

/// The words of plain words, joined with a comma and white space, are those words.
pub proof fn lemma_joined_words(words: Seq<Seq<char>>, pad: Seq<char>)
    requires
        words.len() > 0,
        forall|i: int| 0 <= i < words.len() ==> is_plain_word(#[trigger] words[i]),
        forall|j: int| 0 <= j < pad.len() ==> text::is_space(#[trigger] pad[j]),
    ensures
        list_words(text::join(words, seq![','] + pad)) == words,
{
    assert forall|i: int| 0 <= i < words.len() implies !(#[trigger] words[i]).contains(',') by {
        assert(is_plain_word(words[i]));
    }
    text::lemma_split_joined(words, ',', pad);
    let parts = text::split(text::join(words, seq![','] + pad), ',');
    let trimmed = parts.map_values(|p: Seq<char>| text::trim(p));
    assert forall|i: int| 0 <= i < words.len() implies trimmed[i] == #[trigger] words[i] by {
        assert(is_plain_word(words[i]));
        let none = Seq::<char>::empty();
        lemma_trim_plain(none, words[i]);
        lemma_trim_plain(pad, words[i]);
        if i == 0 {
            assert(none + words[0] =~= words[0]);
        } else {
            assert(words.skip(1)[i - 1] == words[i]);
        }
    }
    assert(trimmed =~= words);
    assert forall|i: int| 0 <= i < words.len() implies words[i].len() > 0 by {
        assert(is_plain_word(words[i]));
    }
    text::lemma_filter_all(words, |w: Seq<char>| w.len() > 0);
}

/// The first field called `name` is found.
proof fn lemma_name_is_found(k: int, i: int)
    requires
        0 <= i <= k < FIELD_COUNT,
    ensures
        named_from(field_table()[k].name, i) is Some,
    decreases FIELD_COUNT - i,
{
    if field_table()[i].name != field_table()[k].name {
        lemma_name_is_found(k, i + 1);
    }
}

/// A list of field names, joined with a comma and white space, is accepted and
/// selects the fields it names.
pub proof fn lemma_names_are_accepted(names: Seq<Seq<char>>, pad: Seq<char>)
    requires
        names.len() > 0,
        forall|i: int| 0 <= i < names.len() ==> name_table().contains(#[trigger] names[i]),
        forall|j: int| 0 <= j < pad.len() ==> text::is_space(#[trigger] pad[j]),
    ensures
        field_list(text::join(names, seq![','] + pad)) == Ok::<Seq<FieldView>, Seq<char>>(
            fields_called(names),
        ),
{
    assert forall|i: int| 0 <= i < names.len() implies is_plain_word(#[trigger] names[i])
        && field_named(names[i]) is Some by {
        assert(name_table().contains(names[i]));
        let k = choose|k: int| 0 <= k < FIELD_COUNT && name_table()[k] == names[i];
        lemma_names_are_plain(k);
        lemma_name_is_found(k, 0);
    }
    lemma_joined_words(names, pad);
    lemma_accepted_words(names);
}

/// The names of selected fields, as words, select those fields again.
proof fn lemma_names_select(words: Seq<Seq<char>>)
    ensures
        fields_called(names_of(fields_called(words))) == fields_called(words),
        forall|i: int|
            0 <= i < fields_called(words).len() ==> name_table().contains(
                #[trigger] names_of(fields_called(words))[i],
            ),
{
    let s = fields_called(words);
    let names = names_of(s);
    let p = |f: FieldView| words.contains(f.name);
    let q = |f: FieldView| names.contains(f.name);
    lemma_picked(p, FIELD_COUNT as int);
    assert(field_table().take(FIELD_COUNT as int) =~= field_table());
    assert forall|k: int| 0 <= k < FIELD_COUNT implies p(#[trigger] field_table()[k]) == q(
        field_table()[k],
    ) by {
        let f = field_table()[k];
        if p(f) {
            let x = choose|x: int| 0 <= x < s.len() && s[x] == f;
            assert(names[x] == f.name);
        }
        if q(f) {
            let x = choose|x: int| 0 <= x < names.len() && names[x] == f.name;
            assert(p(s[x]));
        }
    }
    lemma_same_pick(p, q, FIELD_COUNT as int);
    assert forall|i: int| 0 <= i < s.len() implies name_table().contains(#[trigger] names[i]) by {
        assert(s[i].bit < 16);
        let k = choose|k: int| 0 <= k < FIELD_COUNT && #[trigger] field_table()[k] == s[i];
        assert(name_table()[k] == names[i]);
    }
}

/// The names of the fields that an accepted list selects, joined with commas, are
/// accepted and select the same fields.
pub proof fn law_field_names_read_back(list: Seq<char>)
    ensures
        field_list(list) matches Ok(fs) ==> field_list(text::join(names_of(fs), ","@)) == Ok::<
            Seq<FieldView>,
            Seq<char>,
        >(fs),
{
    match field_list(list) {
        Ok(fs) => {
            let words = list_words(list);
            law_accepted_list_selects_a_field(list);
            lemma_names_select(words);
            reveal_strlit(",");
            let none = Seq::<char>::empty();
            assert(","@ =~= seq![','] + none);
            lemma_names_are_accepted(names_of(fs), none);
        },
        Err(_) => {},
    }
}

/// The list of all names, as `field_names` gives it, selects the whole vocabulary
/// in order.
pub proof fn law_vocabulary_reads_back()
    ensures
        field_list(text::join(name_table(), ", "@)) == Ok::<Seq<FieldView>, Seq<char>>(
            field_table(),
        ),
{
    let names = name_table();
    let pad = seq![' '];
    reveal_strlit(", ");
    assert(", "@ =~= seq![','] + pad);
    assert forall|i: int| 0 <= i < names.len() implies name_table().contains(
        #[trigger] names[i],
    ) by {}
    lemma_names_are_accepted(names, pad);
    let pick = |f: FieldView| names.contains(f.name);
    assert forall|k: int| 0 <= k < field_table().len() implies pick(
        #[trigger] field_table()[k],
    ) by {
        assert(names[k] == field_table()[k].name);
    }
    text::lemma_filter_all(field_table(), pick);
}

/// A bit of a mask is set exactly when some field sits there.
pub proof fn lemma_mask_bits(fields: Seq<FieldView>, bit: u8)
    requires
        bit < 16,
        bits_fit(fields),
    ensures
        has_bit(mask_of(fields), bit) <==> exists|i: int|
            0 <= i < fields.len() && (#[trigger] fields[i]).bit == bit,
    decreases fields.len(),
{
    if fields.len() == 0 {
        assert(0u16 & (1u16 << bit) == 0) by (bit_vector);
    } else {
        let t = fields.drop_last();
        let x = fields.last().bit;
        let m = mask_of(t);
        assert forall|i: int| 0 <= i < t.len() implies (#[trigger] t[i]).bit < 16 by {
            assert(t[i] == fields[i]);
        }
        lemma_mask_bits(t, bit);
        assert(fields[fields.len() - 1].bit == x);
        assert((m | (1u16 << x)) & (1u16 << bit) != 0 <==> (m & (1u16 << bit) != 0 || x == bit))
            by (bit_vector)
            requires
                x < 16,
                bit < 16,
        ;
        if exists|i: int| 0 <= i < t.len() && (#[trigger] t[i]).bit == bit {
            let i = choose|i: int| 0 <= i < t.len() && (#[trigger] t[i]).bit == bit;
            assert(fields[i].bit == bit);
        }
        if exists|i: int| 0 <= i < fields.len() && (#[trigger] fields[i]).bit == bit {
            let i = choose|i: int| 0 <= i < fields.len() && (#[trigger] fields[i]).bit == bit;
            if i < t.len() {
                assert(t[i].bit == bit);
            }
        }
    }
}

/// The mask of the fields that a list names selects those fields again.
pub proof fn law_fields_survive_mask(words: Seq<Seq<char>>)
    ensures
        fields_in(mask_of(fields_called(words))) == fields_called(words),
{
    let pick = |f: FieldView| words.contains(f.name);
    let s = fields_called(words);
    let m = mask_of(s);
    let back = |f: FieldView| has_bit(m, f.bit);
    lemma_picked(pick, FIELD_COUNT as int);
    assert(field_table().take(FIELD_COUNT as int) =~= field_table());
    assert forall|k: int| 0 <= k < FIELD_COUNT implies pick(#[trigger] field_table()[k]) == back(
        field_table()[k],
    ) by {
        let f = field_table()[k];
        lemma_mask_bits(s, f.bit);
        if pick(f) {
            let x = choose|x: int| 0 <= x < s.len() && s[x] == f;
            assert(s[x].bit == f.bit);
        }
        if has_bit(m, f.bit) {
            let x = choose|x: int| 0 <= x < s.len() && (#[trigger] s[x]).bit == f.bit;
            let j = choose|j: int| 0 <= j < FIELD_COUNT && #[trigger] field_table()[j] == s[x];
            assert(field_table()[j].bit == field_table()[k].bit);
            assert(j == k);
            assert(pick(s[x]));
        }
    }
    lemma_same_pick(pick, back, FIELD_COUNT as int);
}

/// The position of a field that a name finds.
proof fn lemma_named_from(name: Seq<char>, i: int) -> (k: int)
    requires
        0 <= i,
        named_from(name, i) is Some,
    ensures
        i <= k < FIELD_COUNT,
        field_table()[k].name == name,
    decreases FIELD_COUNT - i,
{
    if field_table()[i].name == name {
        i
    } else {
        lemma_named_from(name, i + 1)
    }
}

/// Words without an unknown one each name a field.
proof fn lemma_all_known(words: Seq<Seq<char>>, i: int)
    requires
        first_unknown(words) is None,
        0 <= i < words.len(),
    ensures
        field_named(words[i]) is Some,
    decreases words.len(),
{
    if i < words.len() - 1 {
        lemma_all_known(words.drop_last(), i);
    }
}

/// A field list that is accepted selects at least one field.
pub proof fn law_accepted_list_selects_a_field(list: Seq<char>)
    ensures
        field_list(list) matches Ok(fs) ==> fs.len() > 0,
{
    let words = list_words(list);
    if field_list(list) is Ok {
        lemma_all_known(words, 0);
        let k = lemma_named_from(words[0], 0);
        law_named_fields_ordered_once(words);
        assert(words.contains(field_table()[k].name));
        assert(fields_called(words).contains(field_table()[k]));
    }
}

/// A mask selects a field of the vocabulary exactly when the field's bit is set,
/// and the fields come in bit order, each once.
pub proof fn law_mask_selects_fields(mask: u16)
    ensures
        ({
            let s = fields_in(mask);
            &&& forall|k: int|
                0 <= k < FIELD_COUNT ==> (s.contains(#[trigger] field_table()[k]) <==> mask & (1u16
                    << field_table()[k].bit) != 0)
            &&& forall|i: int, j: int| 0 <= i < j < s.len() ==> s[i].bit < s[j].bit
            &&& forall|i: int| 0 <= i < s.len() ==> field_table().contains(#[trigger] s[i])
        }),
{
    let pick = |f: FieldView| has_bit(mask, f.bit);
    let s = fields_in(mask);
    lemma_picked(pick, FIELD_COUNT as int);
    assert(field_table().take(FIELD_COUNT as int) =~= field_table());
    assert forall|k: int| 0 <= k < FIELD_COUNT implies (s.contains(#[trigger] field_table()[k])
        <==> mask & (1u16 << field_table()[k].bit) != 0) by {
        let f = field_table()[k];
        if s.contains(f) {
            let i = choose|i: int| 0 <= i < s.len() && s[i] == f;
            assert(pick(s[i]));
        }
        if has_bit(mask, f.bit) {
            assert(pick(f));
        }
    }
    assert forall|i: int| 0 <= i < s.len() implies field_table().contains(#[trigger] s[i]) by {
        assert(s[i].bit < 16);
        let k = choose|k: int| 0 <= k < FIELD_COUNT && #[trigger] field_table()[k] == s[i];
        assert(field_table()[k] == s[i]);
    }
}

/// The bytes that fields take are the sum of their sizes.
pub proof fn law_sizes_add_up(fs: Seq<FieldView>, f: FieldView)
    ensures
        size_of_fields(fs.push(f)) == size_of_fields(fs) + f.size,
        size_of_fields(Seq::empty()) == 0,
{
    assert(fs.push(f).drop_last() =~= fs);
}

/// The vocabulary: each name with its bit in the mask and its bytes in a frame, and
/// no other name.
#[verifier::rlimit(80)]
pub proof fn law_field_vocabulary(name: Seq<char>)
    ensures
        field_named("time"@) == Some(FieldView { name: "time"@, bit: 0, size: 8 }),
        field_named("ypr"@) == Some(FieldView { name: "ypr"@, bit: 3, size: 12 }),
        field_named("quat"@) == Some(FieldView { name: "quat"@, bit: 4, size: 16 }),
        field_named("gyro"@) == Some(FieldView { name: "gyro"@, bit: 5, size: 12 }),
        field_named("accel"@) == Some(FieldView { name: "accel"@, bit: 8, size: 12 }),
        field_named("imu"@) == Some(FieldView { name: "imu"@, bit: 9, size: 24 }),
        field_named("magpres"@) == Some(FieldView { name: "magpres"@, bit: 10, size: 20 }),
        field_named(name) is Some <==> name == "time"@ || name == "ypr"@ || name == "quat"@ || name
            == "gyro"@ || name == "accel"@ || name == "imu"@ || name == "magpres"@,
        field_named(name) matches Some(f) ==> f.name == name,
{
    reveal_strlit("time");
    reveal_strlit("ypr");
    reveal_strlit("quat");
    reveal_strlit("gyro");
    reveal_strlit("accel");
    reveal_strlit("imu");
    reveal_strlit("magpres");
    assert("time"@[0] == 't' && "quat"@[0] == 'q' && "gyro"@[0] == 'g' && "ypr"@[0] == 'y');
    assert("imu"@[0] == 'i' && "accel"@.len() == 5 && "magpres"@.len() == 7);
    reveal_with_fuel(named_from, 8);
}

/// A field list is accepted exactly where it has a word and each of its words is a
/// name; the fields are then those that a word names. The first word that is no
/// name is the one that an error shows.
pub proof fn law_field_list_is_judged(list: Seq<char>)
    ensures
        ({
            let words = list_words(list);
            &&& field_list(list) is Ok <==> words.len() > 0 && (forall|i: int|
                0 <= i < words.len() ==> field_named(#[trigger] words[i]) is Some)
            &&& field_list(list) matches Ok(fs) ==> (forall|f: FieldView| #[trigger]
                fs.contains(f) <==> field_table().contains(f) && words.contains(f.name))
            &&& words.len() == 0 ==> field_list(list) == Err::<Seq<FieldView>, Seq<char>>(
                "--fields needs at least one field"@,
            )
            &&& field_list(list) is Err && words.len() > 0 ==> exists|k: int|
                0 <= k < words.len() && field_named(#[trigger] words[k]) is None && (forall|j: int|
                    0 <= j < k ==> field_named(#[trigger] words[j]) is Some) && field_list(list)
                    == Err::<Seq<FieldView>, Seq<char>>(
                    "unknown field `"@ + words[k] + "`; choose from "@ + text::join(
                        name_table(),
                        ", "@,
                    ),
                )
        }),
{
    let words = list_words(list);
    lemma_accepted_words(words);
    lemma_first_unknown_is_first(words);
    assert(all_known(words) <==> words.len() > 0 && (forall|i: int|
        0 <= i < words.len() ==> field_named(#[trigger] words[i]) is Some));
    match field_list(list) {
        Ok(fs) => {
            let pick = |f: FieldView| words.contains(f.name);
            assert forall|f: FieldView| #[trigger] fs.contains(f) <==> field_table().contains(f)
                && words.contains(f.name) by {
                lemma_filter_contains(field_table(), pick, f);
            }
        },
        Err(_) => {},
    }
}

/// What a filtered list holds.
proof fn lemma_filter_contains(s: Seq<FieldView>, pick: spec_fn(FieldView) -> bool, f: FieldView)
    ensures
        s.filter(pick).contains(f) <==> s.contains(f) && pick(f),
    decreases s.len(),
{
    reveal(Seq::filter);
    if s.len() > 0 {
        let most = s.drop_last();
        let last = s.last();
        lemma_filter_contains(most, pick, f);
        assert(s.contains(f) <==> most.contains(f) || last == f) by {
            if s.contains(f) {
                let i = choose|i: int| 0 <= i < s.len() && s[i] == f;
                if i < most.len() {
                    assert(most[i] == f);
                }
            }
            if most.contains(f) {
                let i = choose|i: int| 0 <= i < most.len() && most[i] == f;
                assert(s[i] == f);
            }
            assert(s[s.len() - 1] == last);
        }
        let kept = most.filter(pick);
        if pick(last) {
            let all = kept.push(last);
            assert(s.filter(pick) == all);
            if all.contains(f) {
                let i = choose|i: int| 0 <= i < all.len() && all[i] == f;
                if i < kept.len() {
                    assert(kept[i] == f);
                }
            }
            if kept.contains(f) {
                let i = choose|i: int| 0 <= i < kept.len() && kept[i] == f;
                assert(all[i] == f);
            }
            assert(all[kept.len() as int] == last);
        }
    }
}

/// The first unknown word is unknown, and all before it are known.
proof fn lemma_first_unknown_is_first(words: Seq<Seq<char>>)
    ensures
        first_unknown(words) matches Some(w) ==> exists|k: int|
            0 <= k < words.len() && w == #[trigger] words[k] && field_named(words[k]) is None && (
            forall|j: int| 0 <= j < k ==> field_named(#[trigger] words[j]) is Some),
    decreases words.len(),
{
    if words.len() > 0 {
        let most = words.drop_last();
        let n = most.len() as int;
        lemma_first_unknown_is_first(most);
        match first_unknown(most) {
            Some(w) => {
                let k = choose|k: int|
                    0 <= k < most.len() && w == #[trigger] most[k] && field_named(most[k]) is None
                        && (forall|j: int| 0 <= j < k ==> field_named(#[trigger] most[j]) is Some);
                assert(words[k] == most[k]);
                assert forall|j: int| 0 <= j < k implies field_named(#[trigger] words[j]) is Some by {
                    assert(words[j] == most[j]);
                }
            },
            None => {
                assert(words[n] == words.last());
                assert forall|j: int| 0 <= j < n implies field_named(#[trigger] words[j]) is Some by {
                    lemma_all_known(most, j);
                    assert(words[j] == most[j]);
                }
            },
        }
    }
}

/// The words of a list are what stands between its commas, without the white space
/// around it; where nothing stands, there is no word.
pub proof fn law_words_stand_between_commas(s: Seq<char>, w: Seq<char>)
    requires
        !w.contains(','),
    ensures
        list_words(w) == if text::trim(w).len() > 0 {
            seq![text::trim(w)]
        } else {
            Seq::empty()
        },
        list_words(s + seq![','] + w) == if text::trim(w).len() > 0 {
            list_words(s).push(text::trim(w))
        } else {
            list_words(s)
        },
{
    let trimmed = |p: Seq<char>| text::trim(p);
    let keep = |x: Seq<char>| x.len() > 0;
    let none = Seq::<Seq<char>>::empty();
    reveal(Seq::filter);
    text::lemma_split_last(w, ',');
    assert(seq![w].map_values(trimmed) =~= none.push(text::trim(w)));
    assert(none.push(text::trim(w)).drop_last() =~= none);
    assert(none.filter(keep) =~= none);
    assert(none.push(text::trim(w)).filter(keep) =~= if text::trim(w).len() > 0 {
        seq![text::trim(w)]
    } else {
        none
    });
    text::lemma_split_push(s, w, ',');
    let before = text::split(s, ',').map_values(trimmed);
    let all = text::split(s, ',').push(w).map_values(trimmed);
    assert(all =~= before.push(text::trim(w)));
    assert(all.drop_last() =~= before);
}

} // verus!
