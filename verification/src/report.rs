//! What a bench prints.
//!
//! A report is a list of cells: text, and numbers that are computed with the
//! measured time or shown as floating point, which the caller formats. The cells
//! one after the other, each as its description says, are what is printed.
use crate::bench::Stats;
use crate::fields;
use crate::fields::{fields_from_mask, Field};
use crate::frame;
use crate::frame::HEADER;
use crate::number;
use crate::number::decimal_text;
use crate::text;
use crate::text::{concat3, joined, same};
use crate::unicode;
use crate::unicode::quote;
use vstd::prelude::*;
use vstd::string::*;

verus! {

/// One piece of a report, where `t` is the measured time in seconds.
pub enum Cell {
    /// This text.
    Text(String),
    /// The 32-bit float with these bits, with so many decimals.
    Float { bits: u32, decimals: u8 },
    /// `t`, with two decimals.
    Elapsed,
    /// `count / t` (0 where `t` is not positive), with one decimal.
    Rate { count: u64 },
    /// `bytes / t`, rounded to a whole number.
    PerSecond { bytes: u64 },
    /// `bytes / t` (0 where `t` is not positive), without decimals.
    WireBytes { bytes: u64 },
    /// `bytes / t` (0 where `t` is not positive) times 10 over 1000, without
    /// decimals: a byte takes ten bits on the wire.
    WireKbits { bytes: u64 },
    /// `bytes / t` (0 where `t` is not positive) times 10 as a percentage of
    /// `baud`, without decimals.
    WirePercent { bytes: u64, baud: u32 },
    /// `bytes * 10 / t` over 1000 (0 where `t` is not positive), without decimals.
    LoadKbits { bytes: u64 },
    /// `bytes * 10 / t` (0 where `t` is not positive) as a percentage of `baud`,
    /// without decimals.
    LoadPercent { bytes: u64, baud: u32 },
    /// `baud / 1000`, with one decimal.
    LinkKbits { baud: u32 },
}

/// A `Cell` with its text taken by characters.
pub enum CellView {
    Text(Seq<char>),
    Float { bits: u32, decimals: u8 },
    Elapsed,
    Rate { count: u64 },
    PerSecond { bytes: u64 },
    WireBytes { bytes: u64 },
    WireKbits { bytes: u64 },
    WirePercent { bytes: u64, baud: u32 },
    LoadKbits { bytes: u64 },
    LoadPercent { bytes: u64, baud: u32 },
    LinkKbits { baud: u32 },
}

impl View for Cell {
    type V = CellView;

    open spec fn view(&self) -> CellView {
        match *self {
            Cell::Text(s) => CellView::Text(s@),
            Cell::Float { bits, decimals } => CellView::Float { bits, decimals },
            Cell::Elapsed => CellView::Elapsed,
            Cell::Rate { count } => CellView::Rate { count },
            Cell::PerSecond { bytes } => CellView::PerSecond { bytes },
            Cell::WireBytes { bytes } => CellView::WireBytes { bytes },
            Cell::WireKbits { bytes } => CellView::WireKbits { bytes },
            Cell::WirePercent { bytes, baud } => CellView::WirePercent { bytes, baud },
            Cell::LoadKbits { bytes } => CellView::LoadKbits { bytes },
            Cell::LoadPercent { bytes, baud } => CellView::LoadPercent { bytes, baud },
            Cell::LinkKbits { baud } => CellView::LinkKbits { baud },
        }
    }
}

/// The views of a list of cells.
pub open spec fn cells(v: Seq<Cell>) -> Seq<CellView> {
    Seq::new(v.len(), |i: int| v[i]@)
}

/// Adds a cell of text.
pub fn put(out: &mut Vec<Cell>, s: &str)
    ensures
        cells(final(out)@) == cells(old(out)@).push(CellView::Text(s@)),
{
    let ghost was = cells(out@);
    out.push(Cell::Text(s.to_string()));
    assert(cells(out@) =~= was.push(CellView::Text(s@)));
}

/// Adds a cell.
fn put_cell(out: &mut Vec<Cell>, c: Cell)
    ensures
        cells(final(out)@) == cells(old(out)@).push(c@),
{
    let ghost was = cells(out@);
    out.push(c);
    assert(cells(out@) =~= was.push(c@));
}

// ---------------------------------------------------------------------------
// One frame, decoded
// ---------------------------------------------------------------------------
/// The little-endian number with these bytes.
pub open spec fn le_value(bytes: Seq<u8>) -> nat
    decreases bytes.len(),
{
    if bytes.len() == 0 {
        0
    } else {
        bytes[0] as nat + 256 * le_value(bytes.skip(1))
    }
}

/// The four bytes at `off` as a little-endian number: the bits of a float.
pub open spec fn le32_at(frame: Seq<u8>, off: int) -> u32 {
    le_value(frame.subrange(off, off + 4)) as u32
}

/// The eight bytes at `off` as a little-endian number.
pub open spec fn le64_at(frame: Seq<u8>, off: int) -> u64 {
    le_value(frame.subrange(off, off + 8)) as u64
}

/// Little-endian numbers of so many bytes fit so many bits.
proof fn lemma_le_value(bytes: Seq<u8>)
    ensures
        bytes.len() == 4 ==> le_value(bytes) <= u32::MAX && le_value(bytes) == bytes[0] + 0x100
            * bytes[1] + 0x1_0000 * bytes[2] + 0x100_0000 * bytes[3],
        bytes.len() == 8 ==> le_value(bytes) <= u64::MAX && le_value(bytes) == le_value(
            bytes.take(4),
        ) + 0x1_0000_0000 * le_value(bytes.skip(4)),
{
    reveal_with_fuel(le_value, 9);
    if bytes.len() == 8 {
        let lo = bytes.take(4);
        let hi = bytes.skip(4);
        assert(le_value(lo) == bytes[0] + 0x100 * bytes[1] + 0x1_0000 * bytes[2] + 0x100_0000
            * bytes[3]);
        assert(le_value(hi) == bytes[4] + 0x100 * bytes[5] + 0x1_0000 * bytes[6] + 0x100_0000
            * bytes[7]);
    }
}

/// Reads the bits of a little-endian float from `buf` at `off`.
fn read_le32(buf: &[u8], off: usize) -> (r: u32)
    requires
        off + 4 <= buf.len(),
    ensures
        r == le32_at(buf@, off as int),
{
    let ghost b = buf@.subrange(off as int, off + 4);
    proof {
        lemma_le_value(b);
        assert(b[0] == buf@[off as int] && b[1] == buf@[off + 1] && b[2] == buf@[off + 2] && b[3]
            == buf@[off + 3]);
    }
    buf[off] as u32 + 0x100 * (buf[off + 1] as u32) + 0x1_0000 * (buf[off + 2] as u32)
        + 0x100_0000 * (buf[off + 3] as u32)
}

/// Reads a little-endian 64-bit number from `buf` at `off`.
fn read_le64(buf: &[u8], off: usize) -> (r: u64)
    requires
        off + 8 <= buf.len(),
    ensures
        r == le64_at(buf@, off as int),
{
    let ghost b = buf@.subrange(off as int, off + 8);
    proof {
        lemma_le_value(b);
        lemma_le_value(b.take(4));
        lemma_le_value(b.skip(4));
        assert(b.take(4) =~= buf@.subrange(off as int, off + 4));
        assert(b.skip(4) =~= buf@.subrange(off + 4, off + 8));
    }
    read_le32(buf, off) as u64 + 0x1_0000_0000 * (read_le32(buf, off + 4) as u64)
}

/// `n` floats from `off` on, comma-separated.
pub open spec fn numbers(frame: Seq<u8>, off: int, n: nat, decimals: u8) -> Seq<CellView>
    decreases n,
{
    if n == 0 {
        Seq::empty()
    } else if n == 1 {
        seq![CellView::Float { bits: le32_at(frame, off), decimals }]
    } else {
        numbers(frame, off, (n - 1) as nat, decimals).push(CellView::Text(", "@)).push(
            CellView::Float { bits: le32_at(frame, off + 4 * (n - 1)), decimals },
        )
    }
}

/// `n` floats from `off` on, between two texts.
pub open spec fn vector(
    before: Seq<char>,
    frame: Seq<u8>,
    off: int,
    n: nat,
    decimals: u8,
    after: Seq<char>,
) -> Seq<CellView> {
    seq![CellView::Text(before)] + numbers(frame, off, n, decimals) + seq![CellView::Text(after)]
}

/// A field of a frame, decoded from `off` on.
pub open spec fn field_cells(name: Seq<char>, frame: Seq<u8>, off: int) -> Seq<CellView> {
    if name == "time"@ {
        seq![
            CellView::Text("t="@ + number::decimal(le64_at(frame, off) as nat) + " ns"@),
        ]
    } else if name == "ypr"@ {
        vector("ypr=["@, frame, off, 3, 2, "] deg"@)
    } else if name == "quat"@ {
        vector("quat=["@, frame, off, 4, 4, "]"@)
    } else if name == "gyro"@ {
        vector("gyro=["@, frame, off, 3, 4, "] rad/s"@)
    } else if name == "accel"@ {
        vector("accel=["@, frame, off, 3, 3, "] m/s^2"@)
    } else if name == "imu"@ {
        vector("uncomp_accel=["@, frame, off, 3, 3, "] m/s^2 "@) + vector(
            "uncomp_gyro=["@,
            frame,
            off + 12,
            3,
            4,
            "] rad/s"@,
        )
    } else if name == "magpres"@ {
        vector("mag=["@, frame, off, 3, 3, "] G temp="@) + vector(
            ""@,
            frame,
            off + 12,
            1,
            2,
            " C pres="@,
        ) + vector(""@, frame, off + 16, 1, 3, " kPa"@)
    } else {
        seq![CellView::Text("?"@)]
    }
}

/// The bytes that decoding a field reads.
pub open spec fn bytes_read(name: Seq<char>) -> int {
    if name == "time"@ {
        8
    } else if name == "ypr"@ {
        12
    } else if name == "quat"@ {
        16
    } else if name == "gyro"@ {
        12
    } else if name == "accel"@ {
        12
    } else if name == "imu"@ {
        24
    } else if name == "magpres"@ {
        20
    } else {
        0
    }
}

/// Where the field after these starts.
pub open spec fn offset_after(before: Seq<fields::FieldView>) -> int {
    HEADER + fields::size_of_fields(before)
}

/// The selected fields of a frame, decoded, comma-separated.
pub open spec fn sample_cells(frame: Seq<u8>, fs: Seq<fields::FieldView>) -> Seq<CellView>
    decreases fs.len(),
{
    if fs.len() == 0 {
        Seq::empty()
    } else {
        let before = fs.drop_last();
        let last = field_cells(fs.last().name, frame, offset_after(before));
        if before.len() == 0 {
            last
        } else {
            sample_cells(frame, before).push(CellView::Text(", "@)) + last
        }
    }
}

/// Whether each field's bytes lie within `len` bytes.
pub open spec fn sample_fits(len: nat, fs: Seq<fields::FieldView>) -> bool {
    &&& forall|i: int|
        0 <= i < fs.len() ==> offset_after(fs.take(i)) + bytes_read(#[trigger] fs[i].name) <= len
    &&& forall|i: int| 0 <= i <= fs.len() ==> #[trigger] offset_after(fs.take(i)) <= usize::MAX
}

/// Adds `n` floats from `off` on, between two texts.
fn put_vector(
    out: &mut Vec<Cell>,
    before: &str,
    frame: &[u8],
    off: usize,
    n: usize,
    decimals: u8,
    after: &str,
)
    requires
        1 <= n <= 4,
        off + 4 * n <= frame.len(),
    ensures
        cells(final(out)@) == cells(old(out)@) + vector(
            before@,
            frame@,
            off as int,
            n as nat,
            decimals,
            after@,
        ),
{
    let ghost was = cells(out@);
    let ghost front = was + seq![CellView::Text(before@)];
    put(out, before);
    let mut k: usize = 0;
    assert(cells(out@) =~= front + numbers(frame@, off as int, 0, decimals));
    while k < n
        invariant
            k <= n <= 4,
            off + 4 * n <= frame.len(),
            front == was + seq![CellView::Text(before@)],
            cells(out@) == front + numbers(frame@, off as int, k as nat, decimals),
        decreases n - k,
    {
        let ghost so_far = numbers(frame@, off as int, k as nat, decimals);
        if k > 0 {
            put(out, ", ");
        }
        let bits = read_le32(frame, off + 4 * k);
        put_cell(out, Cell::Float { bits, decimals });
        assert(numbers(frame@, off as int, (k + 1) as nat, decimals) == if k == 0 {
            seq![CellView::Float { bits, decimals }]
        } else {
            so_far.push(CellView::Text(", "@)).push(CellView::Float { bits, decimals })
        });
        assert(cells(out@) =~= front + numbers(frame@, off as int, (k + 1) as nat, decimals));
        k = k + 1;
    }
    put(out, after);
    assert(cells(out@) =~= was + vector(before@, frame@, off as int, n as nat, decimals, after@));
}

/// Adds a field of a frame, decoded from `off` on.
fn put_field(out: &mut Vec<Cell>, name: &str, frame: &[u8], off: usize)
    requires
        off + bytes_read(name@) <= frame.len(),
    ensures
        cells(final(out)@) == cells(old(out)@) + field_cells(name@, frame@, off as int),
{
    let ghost was = cells(out@);
    if same(name, "time") {
        let t = decimal_text(read_le64(frame, off));
        let s = concat3("t=", t.as_str(), " ns");
        put(out, s.as_str());
        assert(cells(out@) =~= was + seq![CellView::Text(s@)]);
    } else if same(name, "ypr") {
        put_vector(out, "ypr=[", frame, off, 3, 2, "] deg");
    } else if same(name, "quat") {
        put_vector(out, "quat=[", frame, off, 4, 4, "]");
    } else if same(name, "gyro") {
        put_vector(out, "gyro=[", frame, off, 3, 4, "] rad/s");
    } else if same(name, "accel") {
        put_vector(out, "accel=[", frame, off, 3, 3, "] m/s^2");
    } else if same(name, "imu") {
        put_vector(out, "uncomp_accel=[", frame, off, 3, 3, "] m/s^2 ");
        put_vector(out, "uncomp_gyro=[", frame, off + 12, 3, 4, "] rad/s");
        assert(cells(out@) =~= was + field_cells(name@, frame@, off as int));
    } else if same(name, "magpres") {
        put_vector(out, "mag=[", frame, off, 3, 3, "] G temp=");
        put_vector(out, "", frame, off + 12, 1, 2, " C pres=");
        put_vector(out, "", frame, off + 16, 1, 3, " kPa");
        assert(cells(out@) =~= was + field_cells(name@, frame@, off as int));
    } else {
        put(out, "?");
        assert(cells(out@) =~= was + seq![CellView::Text("?"@)]);
    }
}

/// Human-readable decode of the selected fields in one binary frame.
pub fn decode_binary_sample(frame: &[u8], selected: &[&'static Field]) -> (r: Vec<Cell>)
    requires
        sample_fits(frame@.len(), fields::field_views(selected@)),
    ensures
        cells(r@) == sample_cells(frame@, fields::field_views(selected@)),
{
    let ghost fs = fields::field_views(selected@);
    let mut out: Vec<Cell> = Vec::new();
    let mut off: usize = HEADER;
    let mut i: usize = 0;
    assert(cells(out@) =~= Seq::<CellView>::empty());
    while i < selected.len()
        invariant
            i <= selected.len(),
            fs == fields::field_views(selected@),
            sample_fits(frame@.len(), fs),
            off == offset_after(fs.take(i as int)),
            cells(out@) == sample_cells(frame@, fs.take(i as int)),
        decreases selected.len() - i,
    {
        let ghost was = cells(out@);
        let f = selected[i];
        proof {
            assert(fs[i as int].name == f.name@);
            assert(fs.take(i + 1).drop_last() =~= fs.take(i as int));
            assert(offset_after(fs.take(i + 1)) <= usize::MAX);
        }
        if i > 0 {
            put(&mut out, ", ");
        }
        put_field(&mut out, f.name, frame, off);
        assert(cells(out@) =~= sample_cells(frame@, fs.take(i + 1)));
        off = off + f.size;
        i = i + 1;
    }
    assert(fs.take(i as int) =~= fs);
    out
}

/// Whether `f` is one of the vocabulary.
pub open spec fn in_table(f: fields::FieldView) -> bool {
    exists|k: int| 0 <= k < fields::FIELD_COUNT && #[trigger] fields::field_table()[k] == f
}

/// Whether each of the fields is one of the vocabulary.
pub open spec fn from_table(fs: Seq<fields::FieldView>) -> bool {
    forall|i: int| 0 <= i < fs.len() ==> in_table(#[trigger] fs[i])
}

/// Decoding a field of the vocabulary reads its bytes, and it has some.
pub proof fn lemma_bytes_read(k: int)
    requires
        0 <= k < fields::FIELD_COUNT,
    ensures
        bytes_read(fields::field_table()[k].name) == fields::field_table()[k].size,
        fields::field_table()[k].size > 0,
{
    reveal_strlit("time");
    reveal_strlit("ypr");
    reveal_strlit("quat");
    reveal_strlit("gyro");
    reveal_strlit("accel");
    reveal_strlit("imu");
    reveal_strlit("magpres");
    assert("quat"@[0] != "time"@[0] && "gyro"@[0] != "time"@[0] && "gyro"@[0] != "quat"@[0]);
    assert("imu"@[0] != "ypr"@[0]);
    let t = fields::field_table();
    assert(t[0].name == "time"@ && t[1].name == "ypr"@ && t[2].name == "quat"@ && t[3].name
        == "gyro"@ && t[4].name == "accel"@ && t[5].name == "imu"@ && t[6].name == "magpres"@);
    assert(k == 0 || k == 1 || k == 2 || k == 3 || k == 4 || k == 5 || k == 6);
}

/// The fields of the vocabulary sit at bits of a mask.
pub proof fn lemma_table_bits(fs: Seq<fields::FieldView>)
    requires
        from_table(fs),
    ensures
        fields::bits_fit(fs),
{
    assert forall|i: int| 0 <= i < fs.len() implies (#[trigger] fs[i]).bit < 16 by {
        assert(in_table(fs[i]));
    }
}

/// More fields take more bytes.
pub proof fn lemma_size_grows(fs: Seq<fields::FieldView>, i: int)
    requires
        0 <= i <= fs.len(),
        forall|j: int| 0 <= j < fs.len() ==> (#[trigger] fs[j]).size >= 0,
    ensures
        0 <= fields::size_of_fields(fs.take(i)) <= fields::size_of_fields(fs),
    decreases fs.len(),
{
    if i == fs.len() {
        assert(fs.take(i) =~= fs);
        if i > 0 {
            assert(fs.drop_last() =~= fs.take(i - 1));
            lemma_size_grows(fs.drop_last(), i - 1);
            assert(fs.drop_last().take(i - 1) =~= fs.drop_last());
            assert(fs[i - 1].size >= 0);
        }
    } else {
        lemma_size_grows(fs.drop_last(), i);
        assert(fs.drop_last().take(i) =~= fs.take(i));
        assert(fs[fs.len() - 1].size >= 0);
    }
}

/// A frame that is long enough for its fields can be decoded.
pub proof fn law_sample_fits(len: nat, fs: Seq<fields::FieldView>)
    requires
        from_table(fs),
        offset_after(fs) <= len <= usize::MAX,
    ensures
        sample_fits(len, fs),
{
    assert forall|j: int| 0 <= j < fs.len() implies (#[trigger] fs[j]).size >= 0 && bytes_read(
        fs[j].name,
    ) == fs[j].size by {
        let k = choose|k: int|
            0 <= k < fields::FIELD_COUNT && #[trigger] fields::field_table()[k] == fs[j];
        lemma_bytes_read(k);
    }
    assert forall|i: int| 0 <= i < fs.len() implies offset_after(fs.take(i)) + bytes_read(
        #[trigger] fs[i].name,
    ) <= len by {
        lemma_size_grows(fs, i + 1);
        assert(fs.take(i + 1).drop_last() =~= fs.take(i));
        assert(fs[i].size >= 0);
    }
    assert forall|i: int| 0 <= i <= fs.len() implies #[trigger] offset_after(fs.take(i))
        <= usize::MAX by {
        lemma_size_grows(fs, i);
    }
}

/// The fields that a mask selects are of the vocabulary.
pub proof fn lemma_fields_in_table(mask: u16)
    ensures
        from_table(fields::fields_in(mask)),
{
    fields::lemma_picked(|f: fields::FieldView| fields::has_bit(mask, f.bit), 7);
    assert(fields::field_table().take(7) =~= fields::field_table());
}

/// Floats that stand in equal bytes are shown alike.
proof fn lemma_same_numbers(f: Seq<u8>, i: int, g: Seq<u8>, j: int, n: nat, decimals: u8)
    requires
        0 <= i <= i + 4 * n <= f.len(),
        0 <= j <= j + 4 * n <= g.len(),
        f.subrange(i, i + 4 * n) == g.subrange(j, j + 4 * n),
    ensures
        numbers(f, i, n, decimals) == numbers(g, j, n, decimals),
    decreases n,
{
    if n > 0 {
        let m = n - 1;
        let a = f.subrange(i, i + 4 * n);
        let b = g.subrange(j, j + 4 * n);
        assert(f.subrange(i, i + 4 * m) =~= a.take(4 * m));
        assert(g.subrange(j, j + 4 * m) =~= b.take(4 * m));
        lemma_same_numbers(f, i, g, j, m as nat, decimals);
        assert(f.subrange(i + 4 * m, i + 4 * m + 4) =~= a.skip(4 * m));
        assert(g.subrange(j + 4 * m, j + 4 * m + 4) =~= b.skip(4 * m));
    }
}

/// Vectors that stand in equal bytes, so many bytes in, are shown alike.
proof fn lemma_same_vector(
    before: Seq<char>,
    f: Seq<u8>,
    i: int,
    g: Seq<u8>,
    j: int,
    len: int,
    skip: int,
    n: nat,
    decimals: u8,
    after: Seq<char>,
)
    requires
        0 <= i <= i + len <= f.len(),
        0 <= j <= j + len <= g.len(),
        f.subrange(i, i + len) == g.subrange(j, j + len),
        0 <= skip <= skip + 4 * n <= len,
    ensures
        vector(before, f, i + skip, n, decimals, after) == vector(
            before,
            g,
            j + skip,
            n,
            decimals,
            after,
        ),
{
    let a = f.subrange(i, i + len);
    let b = g.subrange(j, j + len);
    assert(f.subrange(i + skip, i + skip + 4 * n) =~= a.subrange(skip, skip + 4 * n));
    assert(g.subrange(j + skip, j + skip + 4 * n) =~= b.subrange(skip, skip + 4 * n));
    lemma_same_numbers(f, i + skip, g, j + skip, n, decimals);
}

/// A field that stands in equal bytes is shown alike.
proof fn lemma_same_field(name: Seq<char>, f: Seq<u8>, i: int, g: Seq<u8>, j: int)
    requires
        0 <= i <= i + bytes_read(name) <= f.len(),
        0 <= j <= j + bytes_read(name) <= g.len(),
        f.subrange(i, i + bytes_read(name)) == g.subrange(j, j + bytes_read(name)),
    ensures
        field_cells(name, f, i) == field_cells(name, g, j),
{
    let len = bytes_read(name);
    if name == "time"@ {
    } else if name == "ypr"@ {
        lemma_same_vector("ypr=["@, f, i, g, j, len, 0, 3, 2, "] deg"@);
    } else if name == "quat"@ {
        lemma_same_vector("quat=["@, f, i, g, j, len, 0, 4, 4, "]"@);
    } else if name == "gyro"@ {
        lemma_same_vector("gyro=["@, f, i, g, j, len, 0, 3, 4, "] rad/s"@);
    } else if name == "accel"@ {
        lemma_same_vector("accel=["@, f, i, g, j, len, 0, 3, 3, "] m/s^2"@);
    } else if name == "imu"@ {
        lemma_same_vector("uncomp_accel=["@, f, i, g, j, len, 0, 3, 3, "] m/s^2 "@);
        lemma_same_vector("uncomp_gyro=["@, f, i, g, j, len, 12, 3, 4, "] rad/s"@);
    } else if name == "magpres"@ {
        lemma_same_vector("mag=["@, f, i, g, j, len, 0, 3, 3, "] G temp="@);
        lemma_same_vector(""@, f, i, g, j, len, 12, 1, 2, " C pres="@);
        lemma_same_vector(""@, f, i, g, j, len, 16, 1, 3, " kPa"@);
    }
}

/// The last of these fields: where it starts and how many bytes it reads.
proof fn lemma_last_field(fs: Seq<fields::FieldView>)
    requires
        from_table(fs),
        fs.len() > 0,
    ensures
        from_table(fs.drop_last()),
        bytes_read(fs.last().name) == fs.last().size,
        fs.last().size > 0,
        fields::size_of_fields(fs.drop_last()) >= 0,
        offset_after(fs) == offset_after(fs.drop_last()) + fs.last().size,
{
    assert forall|j: int| 0 <= j < fs.len() implies (#[trigger] fs[j]).size >= 0 && bytes_read(
        fs[j].name,
    ) == fs[j].size && fs[j].size > 0 by {
        assert(in_table(fs[j]));
        let k = choose|k: int|
            0 <= k < fields::FIELD_COUNT && #[trigger] fields::field_table()[k] == fs[j];
        lemma_bytes_read(k);
    }
    let t = fs.drop_last();
    assert forall|j: int| 0 <= j < t.len() implies in_table(#[trigger] t[j]) && t[j].size >= 0 by {
        assert(t[j] == fs[j]);
    }
    lemma_size_grows(t, t.len() as int);
    assert(t.take(t.len() as int) =~= t);
    assert(fs[fs.len() - 1] == fs.last());
}

/// What is decoded depends on the payload bytes of the fields alone: not on the
/// header, and not on what follows the fields.
pub proof fn law_sample_depends_on_payload_alone(
    f: Seq<u8>,
    g: Seq<u8>,
    fs: Seq<fields::FieldView>,
)
    requires
        from_table(fs),
        offset_after(fs) <= f.len(),
        offset_after(fs) <= g.len(),
        f.subrange(HEADER as int, offset_after(fs)) == g.subrange(HEADER as int, offset_after(fs)),
    ensures
        sample_cells(f, fs) == sample_cells(g, fs),
    decreases fs.len(),
{
    if fs.len() > 0 {
        let before = fs.drop_last();
        lemma_last_field(fs);
        let off = offset_after(before);
        let end = offset_after(fs);
        let a = f.subrange(HEADER as int, end);
        let b = g.subrange(HEADER as int, end);
        assert(f.subrange(HEADER as int, off) =~= a.take(off - HEADER));
        assert(g.subrange(HEADER as int, off) =~= b.take(off - HEADER));
        law_sample_depends_on_payload_alone(f, g, before);
        assert(f.subrange(off, end) =~= a.skip(off - HEADER));
        assert(g.subrange(off, end) =~= b.skip(off - HEADER));
        lemma_same_field(fs.last().name, f, off, g, off);
    }
}

/// The sizes of the fields of `a` and then those of `b`.
proof fn lemma_size_of_both(a: Seq<fields::FieldView>, b: Seq<fields::FieldView>)
    ensures
        fields::size_of_fields(a + b) == fields::size_of_fields(a) + fields::size_of_fields(b),
    decreases b.len(),
{
    if b.len() == 0 {
        assert(a + b =~= a);
    } else {
        lemma_size_of_both(a, b.drop_last());
        assert((a + b).drop_last() =~= a + b.drop_last());
        assert((a + b).last() == b.last());
    }
}

/// Decoding splits at any point of the list of fields: the fields of `a` are
/// decoded from the frame, those of `b` from the frame without the bytes of `a`.
pub proof fn law_sample_splits_anywhere(
    frame: Seq<u8>,
    a: Seq<fields::FieldView>,
    b: Seq<fields::FieldView>,
)
    requires
        from_table(a),
        from_table(b),
        a.len() > 0,
        b.len() > 0,
        offset_after(a + b) <= frame.len(),
    ensures
        sample_cells(frame, a + b) == sample_cells(frame, a).push(CellView::Text(", "@))
            + sample_cells(frame.take(HEADER as int) + frame.skip(offset_after(a)), b),
    decreases b.len(),
{
    let shorter = frame.take(HEADER as int) + frame.skip(offset_after(a));
    let before = b.drop_last();
    let last = b.last();
    assert((a + b).drop_last() =~= a + before);
    assert((a + b).last() == last);
    lemma_last_field(a);
    lemma_last_field(b);
    lemma_size_of_both(a, before);
    lemma_size_of_both(a, b);
    let i = offset_after(a + before);
    let j = offset_after(before);
    let n = bytes_read(last.name);
    assert(frame.subrange(i, i + n) =~= shorter.subrange(j, j + n));
    lemma_same_field(last.name, frame, i, shorter, j);
    let front = sample_cells(frame, a).push(CellView::Text(", "@));
    let cells = field_cells(last.name, frame, i);
    if before.len() == 0 {
        assert(a + before =~= a);
    } else {
        law_sample_splits_anywhere(frame, a, before);
        let rest = sample_cells(shorter, before);
        assert((front + rest).push(CellView::Text(", "@)) + cells =~= front + (rest.push(
            CellView::Text(", "@),
        ) + cells));
    }
}

// ---------------------------------------------------------------------------
// The passive bench's report
// ---------------------------------------------------------------------------
/// `["a", "b"]`: how `Debug` shows a list of texts.
pub open spec fn debug_list(items: Seq<Seq<char>>) -> Seq<char> {
    "["@ + text::join(items.map_values(|s: Seq<char>| unicode::quoted(s)), ", "@) + "]"@
}

/// How `Debug` shows a list of texts.
pub fn debug_list_text(items: &[&str]) -> (r: String)
    ensures
        r@ == debug_list(text::str_views(items@)),
{
    let ghost all = text::str_views(items@);
    let mut shown: Vec<String> = Vec::new();
    let mut i: usize = 0;
    while i < items.len()
        invariant
            i <= items.len(),
            shown@.len() == i,
            all == text::str_views(items@),
            forall|j: int| 0 <= j < i ==> shown@[j]@ == unicode::quoted(#[trigger] all[j]),
        decreases items.len() - i,
    {
        shown.push(quote(items[i]));
        i = i + 1;
    }
    let mut parts: Vec<&str> = Vec::new();
    let mut k: usize = 0;
    while k < shown.len()
        invariant
            k <= shown.len(),
            parts@.len() == k,
            shown@.len() == items@.len(),
            all == text::str_views(items@),
            forall|j: int| 0 <= j < shown@.len() ==> shown@[j]@ == unicode::quoted(
                #[trigger] all[j],
            ),
            forall|j: int| 0 <= j < k ==> #[trigger] parts@[j]@ == unicode::quoted(all[j]),
        decreases shown.len() - k,
    {
        assert(shown@[k as int]@ == unicode::quoted(all[k as int]));
        parts.push(shown[k].as_str());
        k = k + 1;
    }
    assert(text::str_views(parts@) =~= all.map_values(|s: Seq<char>| unicode::quoted(s)));
    let inner = joined(parts.as_slice(), ", ");
    concat3("[", inner.as_str(), "]")
}

/// How `Debug` shows the names of these fields.
pub fn names_text(selected: &[&'static Field]) -> (r: String)
    ensures
        r@ == debug_list(fields::names_of(fields::field_views(selected@))),
{
    let mut names: Vec<&str> = Vec::new();
    let mut i: usize = 0;
    while i < selected.len()
        invariant
            i <= selected.len(),
            names@.len() == i,
            forall|j: int| 0 <= j < i ==> names@[j]@ == (#[trigger] selected@[j]).name@,
        decreases selected.len() - i,
    {
        names.push(selected[i].name);
        i = i + 1;
    }
    assert(text::str_views(names@) =~= fields::names_of(fields::field_views(selected@)));
    debug_list_text(names.as_slice())
}

/// The counting line of one stream, after its heading.
pub open spec fn count_cells(heading: Seq<char>, count: u64, unit: Seq<char>, bytes: u64) -> Seq<
    CellView,
> {
    seq![
        CellView::Text(heading + number::decimal(count as nat) + unit),
        CellView::Elapsed,
        CellView::Text("s = "@),
        CellView::Rate { count },
        CellView::Text(" Hz ("@),
        CellView::PerSecond { bytes },
        CellView::Text(" B/s).\n"@),
    ]
}

/// The ASCII part of the report.
pub open spec fn ascii_cells(st: Stats) -> Seq<CellView> {
    if st.msgs > 0 {
        count_cells("ASCII:  "@, st.msgs, " messages in "@, st.ascii_bytes) + match st.ascii_sample {
            Some(s) => seq![CellView::Text("  Sample: "@ + s@ + "\n"@)],
            None => Seq::empty(),
        }
    } else {
        seq![CellView::Text("ASCII:  none seen.\n"@)]
    }
}

/// The mask that the report goes by.
pub open spec fn reported_mask(st: Stats) -> u16 {
    match st.bin_mask {
        Some(m) => m,
        None => 0,
    }
}

/// The fields line of the binary part.
pub open spec fn fields_line(fs: Seq<fields::FieldView>, frame_len: nat) -> Seq<char> {
    "  Fields: Common"@ + debug_list(fields::names_of(fs)) + " ("@ + number::decimal(frame_len)
        + " B/frame).\n"@
}

/// The binary part of the report.
pub open spec fn binary_cells(st: Stats) -> Seq<CellView> {
    if st.frames > 0 {
        let fs = fields::fields_in(reported_mask(st));
        let count = count_cells("Binary: "@, st.frames, " frames in "@, st.bin_bytes);
        match st.bin_first {
            Some(f) => count.push(CellView::Text(fields_line(fs, f@.len()))).push(
                CellView::Text("  Sample: "@),
            ) + sample_cells(f@, fs).push(CellView::Text("\n"@)),
            None => count.push(CellView::Text(fields_line(fs, 0))),
        }
    } else {
        seq![CellView::Text("Binary: none seen.\n"@)]
    }
}

/// The wire part of the report.
pub open spec fn wire_cells(bytes: u64, baud: u32) -> Seq<CellView> {
    seq![
        CellView::Text("Wire throughput ~"@),
        CellView::WireBytes { bytes },
        CellView::Text(" B/s = ~"@),
        CellView::WireKbits { bytes },
        CellView::Text(" kbit/s = "@),
        CellView::WirePercent { bytes, baud },
        CellView::Text("% of the "@),
        CellView::LinkKbits { baud },
        CellView::Text(" kbit/s "@ + number::decimal(baud as nat) + "-baud link.\n"@),
    ]
}

/// The passive bench's report: ASCII rate, binary rate, wire throughput.
pub open spec fn report_cells(baud: u32, st: Stats) -> Seq<CellView> {
    seq![CellView::Text("\n"@)] + ascii_cells(st) + binary_cells(st) + wire_cells(
        st.total_bytes,
        baud,
    )
}

/// Whether the first frame is long enough for the fields of its mask.
pub open spec fn reportable(st: Stats) -> bool {
    st.bin_first matches Some(f) ==> f@.len() + frame::CRC >= frame::frame_size(reported_mask(st))
}

/// Adds a counting line.
fn put_count(out: &mut Vec<Cell>, heading: &str, count: u64, unit: &str, bytes: u64)
    ensures
        cells(final(out)@) == cells(old(out)@) + count_cells(heading@, count, unit@, bytes),
{
    let ghost was = cells(out@);
    let n = decimal_text(count);
    let s = concat3(heading, n.as_str(), unit);
    put(out, s.as_str());
    put_cell(out, Cell::Elapsed);
    put(out, "s = ");
    put_cell(out, Cell::Rate { count });
    put(out, " Hz (");
    put_cell(out, Cell::PerSecond { bytes });
    put(out, " B/s).\n");
    assert(cells(out@) =~= was + count_cells(heading@, count, unit@, bytes));
}

/// Adds cells.
pub fn put_all(out: &mut Vec<Cell>, more: Vec<Cell>)
    ensures
        cells(final(out)@) == cells(old(out)@) + cells(more@),
{
    let ghost was = cells(out@);
    let ghost added = cells(more@);
    let mut more = more;
    out.append(&mut more);
    assert(cells(out@) =~= was + added);
}

/// Adds the ASCII part of the report.
fn put_ascii(out: &mut Vec<Cell>, st: &Stats)
    ensures
        cells(final(out)@) == cells(old(out)@) + ascii_cells(*st),
{
    let ghost was = cells(out@);
    if st.msgs > 0 {
        put_count(out, "ASCII:  ", st.msgs, " messages in ", st.ascii_bytes);
        match &st.ascii_sample {
            Some(s) => {
                let line = concat3("  Sample: ", s.as_str(), "\n");
                put(out, line.as_str());
            },
            None => {},
        }
    } else {
        put(out, "ASCII:  none seen.\n");
    }
    assert(cells(out@) =~= was + ascii_cells(*st));
}

/// Adds the binary part of the report.
fn put_binary(out: &mut Vec<Cell>, st: &Stats)
    requires
        reportable(*st),
    ensures
        cells(final(out)@) == cells(old(out)@) + binary_cells(*st),
{
    let ghost was = cells(out@);
    if st.frames > 0 {
        let mask: u16 = match st.bin_mask {
            Some(m) => m,
            None => 0,
        };
        let selected = fields_from_mask(mask);
        let names = names_text(selected.as_slice());
        let frame_len: usize = match &st.bin_first {
            Some(f) => f.len(),
            None => 0,
        };
        put_count(out, "Binary: ", st.frames, " frames in ", st.bin_bytes);
        let n = decimal_text(frame_len as u64);
        let mut line = concat3("  Fields: Common", names.as_str(), " (");
        line.append(n.as_str());
        line.append(" B/frame).\n");
        put(out, line.as_str());
        match &st.bin_first {
            Some(f) => {
                proof {
                    lemma_fields_in_table(mask);
                    law_sample_fits(f@.len(), fields::fields_in(mask));
                }
                put(out, "  Sample: ");
                let sample = decode_binary_sample(f.as_slice(), selected.as_slice());
                put_all(out, sample);
                put(out, "\n");
            },
            None => {},
        }
    } else {
        put(out, "Binary: none seen.\n");
    }
    assert(cells(out@) =~= was + binary_cells(*st));
}

/// The passive bench result: ASCII rate, binary rate, wire throughput.
pub fn report(baud: u32, st: &Stats) -> (r: Vec<Cell>)
    requires
        reportable(*st),
    ensures
        cells(r@) == report_cells(baud, *st),
{
    let mut out: Vec<Cell> = Vec::new();
    put(&mut out, "\n");
    put_ascii(&mut out, st);
    put_binary(&mut out, st);
    put(&mut out, "Wire throughput ~");
    put_cell(&mut out, Cell::WireBytes { bytes: st.total_bytes });
    put(&mut out, " B/s = ~");
    put_cell(&mut out, Cell::WireKbits { bytes: st.total_bytes });
    put(&mut out, " kbit/s = ");
    put_cell(&mut out, Cell::WirePercent { bytes: st.total_bytes, baud });
    put(&mut out, "% of the ");
    put_cell(&mut out, Cell::LinkKbits { baud });
    let n = decimal_text(baud as u64);
    let end = concat3(" kbit/s ", n.as_str(), "-baud link.\n");
    put(&mut out, end.as_str());
    assert(cells(out@) =~= report_cells(baud, *st));
    out
}

// ---------------------------------------------------------------------------
// The configuring bench's report
// ---------------------------------------------------------------------------
/// The sample line, if there is a sample.
pub open spec fn sample_line(sample: Option<Seq<CellView>>) -> Seq<CellView> {
    match sample {
        Some(c) => (seq![CellView::Text("Sample: "@)] + c).push(CellView::Text("\n"@)),
        None => Seq::empty(),
    }
}

/// The result block: rate, sample, wire utilization.
pub open spec fn result_cells(
    unit: Seq<char>,
    target_hz: u32,
    count: u64,
    bytes: u64,
    sample: Option<Seq<CellView>>,
    baud: u32,
) -> Seq<CellView> {
    seq![
        CellView::Text("\nResult: "@ + number::decimal(count as nat) + " "@ + unit + " in "@),
        CellView::Elapsed,
        CellView::Text("s = "@),
        CellView::Rate { count },
        CellView::Text(" Hz (target "@ + number::decimal(target_hz as nat) + " Hz).\n"@),
    ] + sample_line(sample) + seq![
        CellView::Text("Wire throughput ~"@),
        CellView::LoadKbits { bytes },
        CellView::Text(" kbit/s = "@),
        CellView::LoadPercent { bytes, baud },
        CellView::Text("% of the "@),
        CellView::LinkKbits { baud },
        CellView::Text(" kbit/s "@ + number::decimal(baud as nat) + "-baud link.\n"@),
    ]
}

/// The view of an optional sample.
pub open spec fn opt_cells(o: Option<Vec<Cell>>) -> Option<Seq<CellView>> {
    match o {
        Some(v) => Some(cells(v@)),
        None => None,
    }
}

/// The shared bench result block (rate, sample, wire utilization).
pub fn report_bench(
    unit: &str,
    target_hz: u32,
    count: u64,
    bytes: u64,
    sample: Option<Vec<Cell>>,
    baud: u32,
) -> (r: Vec<Cell>)
    ensures
        cells(r@) == result_cells(unit@, target_hz, count, bytes, opt_cells(sample), baud),
{
    let ghost shown = opt_cells(sample);
    let mut out: Vec<Cell> = Vec::new();
    let n = decimal_text(count);
    let mut head = concat3("\nResult: ", n.as_str(), " ");
    head.append(unit);
    head.append(" in ");
    put(&mut out, head.as_str());
    put_cell(&mut out, Cell::Elapsed);
    put(&mut out, "s = ");
    put_cell(&mut out, Cell::Rate { count });
    let hz = decimal_text(target_hz as u64);
    let target = concat3(" Hz (target ", hz.as_str(), " Hz).\n");
    put(&mut out, target.as_str());
    match sample {
        Some(c) => {
            put(&mut out, "Sample: ");
            put_all(&mut out, c);
            put(&mut out, "\n");
        },
        None => {},
    }
    put(&mut out, "Wire throughput ~");
    put_cell(&mut out, Cell::LoadKbits { bytes });
    put(&mut out, " kbit/s = ");
    put_cell(&mut out, Cell::LoadPercent { bytes, baud });
    put(&mut out, "% of the ");
    put_cell(&mut out, Cell::LinkKbits { baud });
    let b = decimal_text(baud as u64);
    let end = concat3(" kbit/s ", b.as_str(), "-baud link.\n");
    put(&mut out, end.as_str());
    assert(cells(out@) =~= result_cells(unit@, target_hz, count, bytes, shown, baud));
    out
}


// ---------------------------------------------------------------------------
// Laws
// ---------------------------------------------------------------------------
/// How many cells the report of a passive bench has before its binary part.
pub open spec fn cells_before_binary(st: Stats) -> int {
    if st.msgs == 0 {
        2
    } else if st.ascii_sample is Some {
        9
    } else {
        8
    }
}

/// Whether a text begins with an `A`.
spec fn begins_with_a(c: CellView) -> bool {
    c matches CellView::Text(t) && t.len() > 0 && t[0] == 'A'
}

/// No cell of a decoded field begins with an `A`.
proof fn lemma_field_begins(name: Seq<char>, frame: Seq<u8>, off: int, i: int)
    requires
        0 <= i < field_cells(name, frame, off).len(),
    ensures
        !begins_with_a(field_cells(name, frame, off)[i]),
{
    reveal_with_fuel(numbers, 5);
    reveal_strlit("t=");
    reveal_strlit("ypr=[");
    reveal_strlit("] deg");
    reveal_strlit("quat=[");
    reveal_strlit("]");
    reveal_strlit("gyro=[");
    reveal_strlit("] rad/s");
    reveal_strlit("accel=[");
    reveal_strlit("] m/s^2");
    reveal_strlit("uncomp_accel=[");
    reveal_strlit("] m/s^2 ");
    reveal_strlit("uncomp_gyro=[");
    reveal_strlit("mag=[");
    reveal_strlit("] G temp=");
    reveal_strlit("");
    reveal_strlit(" C pres=");
    reveal_strlit(" kPa");
    reveal_strlit("?");
    reveal_strlit(", ");
}

/// No cell of a decoded sample begins with an `A`.
proof fn lemma_sample_begins(frame: Seq<u8>, fs: Seq<fields::FieldView>, i: int)
    requires
        0 <= i < sample_cells(frame, fs).len(),
    ensures
        !begins_with_a(sample_cells(frame, fs)[i]),
    decreases fs.len(),
{
    if fs.len() > 0 {
        let before = fs.drop_last();
        let off = offset_after(before);
        let last = field_cells(fs.last().name, frame, off);
        if before.len() == 0 {
            lemma_field_begins(fs.last().name, frame, off, i);
        } else {
            let n = sample_cells(frame, before).len() as int;
            reveal_strlit(", ");
            if i < n {
                lemma_sample_begins(frame, before, i);
            } else if i > n {
                lemma_field_begins(fs.last().name, frame, off, i - n - 1);
            }
        }
    }
}

/// The ASCII part of the report shows what was seen of the ASCII stream, whatever
/// was seen of the binary one: where there were messages, their number, rate and
/// bytes per second, and the first of them, and nothing says that none was seen;
/// where there were none, it says so.
#[verifier::rlimit(80)]
pub proof fn law_report_shows_ascii(baud: u32, st: Stats)
    ensures
        ({
            let r = report_cells(baud, st);
            let none = CellView::Text("ASCII:  none seen.\n"@);
            &&& r.len() > cells_before_binary(st)
            &&& r[0] == CellView::Text("\n"@)
            &&& st.msgs > 0 ==> {
                &&& r[1] == CellView::Text(
                    "ASCII:  "@ + number::decimal(st.msgs as nat) + " messages in "@,
                )
                &&& r[2] == CellView::Elapsed
                &&& r[3] == CellView::Text("s = "@)
                &&& r[4] == (CellView::Rate { count: st.msgs })
                &&& r[5] == CellView::Text(" Hz ("@)
                &&& r[6] == (CellView::PerSecond { bytes: st.ascii_bytes })
                &&& r[7] == CellView::Text(" B/s).\n"@)
                &&& st.ascii_sample matches Some(s) ==> r[8] == CellView::Text(
                    "  Sample: "@ + s@ + "\n"@,
                )
                &&& !r.contains(none)
            }
            &&& st.msgs == 0 ==> r[1] == none
        }),
{
    let r = report_cells(baud, st);
    let none = CellView::Text("ASCII:  none seen.\n"@);
    reveal_strlit("ASCII:  none seen.\n");
    if st.msgs > 0 {
        let k = cells_before_binary(st);
        let b = binary_cells(st);
        reveal_strlit("ASCII:  ");
        reveal_strlit("\n");
        reveal_strlit("s = ");
        reveal_strlit(" Hz (");
        reveal_strlit(" B/s).\n");
        reveal_strlit("  Sample: ");
        reveal_strlit("Binary: none seen.\n");
        reveal_strlit("Binary: ");
        reveal_strlit("  Fields: Common");
        reveal_strlit("Wire throughput ~");
        reveal_strlit(" B/s = ~");
        reveal_strlit(" kbit/s = ");
        reveal_strlit("% of the ");
        reveal_strlit(" kbit/s ");
        number::lemma_decimal_digits(st.msgs as nat);
        let d = number::decimal(st.msgs as nat);
        assert(d.len() > 0);
        assert(number::digit_value(d[0], 10) is Some);
        assert(r[1]->Text_0[8] == d[0]);
        assert(none->Text_0[8] == 'n');
        assert(number::digit_value('n', 10) is None);
        assert(r[1] != none);
        assert forall|i: int| 0 <= i < b.len() implies !begins_with_a(#[trigger] b[i]) by {
            if st.frames > 0 {
                match st.bin_first {
                    Some(f) => {
                        let fs = fields::fields_in(reported_mask(st));
                        let n = sample_cells(f@, fs).len() as int;
                        if 9 <= i < 9 + n {
                            lemma_sample_begins(f@, fs, i - 9);
                            assert(b[i] == sample_cells(f@, fs)[i - 9]);
                        }
                    },
                    None => {},
                }
            }
        }
        assert forall|i: int| 0 <= i < r.len() implies #[trigger] r[i] != none by {
            if i != 1 {
                if k <= i < k + b.len() {
                    assert(r[i] == b[i - k]);
                }
                assert(!begins_with_a(r[i]));
            }
        }
        assert(!r.contains(none));
    }
}

/// The ASCII part of a report depends on what was seen of the ASCII stream alone.
pub proof fn law_ascii_report_depends_on_ascii_alone(
    baud: u32,
    st: Stats,
    other_baud: u32,
    other: Stats,
)
    requires
        st.msgs == other.msgs,
        st.ascii_bytes == other.ascii_bytes,
        st.ascii_sample matches Some(s) ==> other.ascii_sample matches Some(t) && s@ == t@,
        st.ascii_sample is None ==> other.ascii_sample is None,
    ensures
        ({
            let k = cells_before_binary(st);
            &&& cells_before_binary(other) == k
            &&& report_cells(baud, st).take(k) == report_cells(other_baud, other).take(k)
        }),
{
    let k = cells_before_binary(st);
    assert(report_cells(baud, st).take(k) =~= report_cells(other_baud, other).take(k));
}

/// The binary part of the report shows what was seen of the binary stream, whatever
/// was seen of the ASCII one: the number, rate and bytes per second of the frames,
/// the fields of their mask, and the first of them decoded, or that none was seen.
/// The wire part, with the bytes of everything read, comes last.
#[verifier::rlimit(80)]
pub proof fn law_report_shows_binary_and_wire(baud: u32, st: Stats)
    ensures
        ({
            let r = report_cells(baud, st);
            let k = cells_before_binary(st);
            let w = r.len() - 9;
            let fs = fields::fields_in(
                match st.bin_mask {
                    Some(mask) => mask,
                    None => 0,
                },
            );
            &&& st.frames == 0 ==> w == k + 1 && r[k] == CellView::Text("Binary: none seen.\n"@)
            &&& st.frames > 0 ==> {
                &&& w >= k + 8
                &&& r[k] == CellView::Text(
                    "Binary: "@ + number::decimal(st.frames as nat) + " frames in "@,
                )
                &&& r[k + 1] == CellView::Elapsed
                &&& r[k + 2] == CellView::Text("s = "@)
                &&& r[k + 3] == (CellView::Rate { count: st.frames })
                &&& r[k + 4] == CellView::Text(" Hz ("@)
                &&& r[k + 5] == (CellView::PerSecond { bytes: st.bin_bytes })
                &&& r[k + 6] == CellView::Text(" B/s).\n"@)
                &&& st.bin_first is None ==> w == k + 8 && r[k + 7] == CellView::Text(
                    "  Fields: Common"@ + debug_list(fields::names_of(fs)) + " ("@
                        + number::decimal(0) + " B/frame).\n"@,
                )
                &&& st.bin_first matches Some(f) ==> {
                    &&& w >= k + 10
                    &&& r[k + 8] == CellView::Text("  Sample: "@)
                    &&& r[w - 1] == CellView::Text("\n"@)
                    &&& r[k + 7] == CellView::Text(
                        "  Fields: Common"@ + debug_list(fields::names_of(fs)) + " ("@
                            + number::decimal(f@.len()) + " B/frame).\n"@,
                    )
                    &&& r.subrange(k + 9, w - 1) == sample_cells(f@, fs)
                }
            }
            &&& r[w] == CellView::Text("Wire throughput ~"@)
            &&& r[w + 1] == (CellView::WireBytes { bytes: st.total_bytes })
            &&& r[w + 2] == CellView::Text(" B/s = ~"@)
            &&& r[w + 3] == (CellView::WireKbits { bytes: st.total_bytes })
            &&& r[w + 4] == CellView::Text(" kbit/s = "@)
            &&& r[w + 5] == (CellView::WirePercent { bytes: st.total_bytes, baud })
            &&& r[w + 6] == CellView::Text("% of the "@)
            &&& r[w + 7] == (CellView::LinkKbits { baud })
            &&& r[w + 8] == CellView::Text(
                " kbit/s "@ + number::decimal(baud as nat) + "-baud link.\n"@,
            )
        }),
{
    let r = report_cells(baud, st);
    let k = cells_before_binary(st);
    let w = r.len() - 9;
    match st.bin_first {
        Some(f) => {
            if st.frames > 0 {
                let fs = fields::fields_in(reported_mask(st));
                let n = sample_cells(f@, fs).len() as int;
                assert(w == k + 10 + n);
                assert(r.subrange(k + 9, w - 1) =~= sample_cells(f@, fs));
            }
        },
        None => {},
    }
}

/// The result of a configuring bench names what was counted and how often, the
/// requested rate, the sample where there is one, and the load of the link.
pub proof fn law_result_shows_the_bench(
    unit: Seq<char>,
    target_hz: u32,
    count: u64,
    bytes: u64,
    sample: Option<Seq<CellView>>,
    baud: u32,
)
    ensures
        ({
            let r = result_cells(unit, target_hz, count, bytes, sample, baud);
            let w = r.len() - 7;
            &&& r[0] == CellView::Text(
                "\nResult: "@ + number::decimal(count as nat) + " "@ + unit + " in "@,
            )
            &&& r[1] == CellView::Elapsed
            &&& r[2] == CellView::Text("s = "@)
            &&& r[3] == (CellView::Rate { count })
            &&& r[4] == CellView::Text(
                " Hz (target "@ + number::decimal(target_hz as nat) + " Hz).\n"@,
            )
            &&& sample is None ==> w == 5
            &&& sample matches Some(s) ==> w == 7 + s.len() && r[5] == CellView::Text("Sample: "@)
                && r.subrange(6, w - 1) == s && r[w - 1] == CellView::Text("\n"@)
            &&& r[w] == CellView::Text("Wire throughput ~"@)
            &&& r[w + 1] == (CellView::LoadKbits { bytes })
            &&& r[w + 2] == CellView::Text(" kbit/s = "@)
            &&& r[w + 3] == (CellView::LoadPercent { bytes, baud })
            &&& r[w + 4] == CellView::Text("% of the "@)
            &&& r[w + 5] == (CellView::LinkKbits { baud })
            &&& r[w + 6] == CellView::Text(
                " kbit/s "@ + number::decimal(baud as nat) + "-baud link.\n"@,
            )
        }),
{
    let r = result_cells(unit, target_hz, count, bytes, sample, baud);
    match sample {
        Some(s) => {
            assert(r.subrange(6, r.len() - 8) =~= s);
        },
        None => {},
    }
}

/// Numbers are read from a frame with the low byte first.
pub proof fn law_numbers_are_little_endian(frame: Seq<u8>, off: int)
    requires
        0 <= off,
    ensures
        off + 4 <= frame.len() ==> le32_at(frame, off) == frame[off] + 0x100 * frame[off + 1]
            + 0x1_0000 * frame[off + 2] + 0x100_0000 * frame[off + 3],
        off + 8 <= frame.len() ==> le64_at(frame, off) == le32_at(frame, off) + 0x1_0000_0000
            * le32_at(frame, off + 4),
{
    reveal_with_fuel(le_value, 9);
    if off + 4 <= frame.len() {
        let b = frame.subrange(off, off + 4);
        assert(b.skip(1).skip(1).skip(1).skip(1).len() == 0);
    }
    if off + 8 <= frame.len() {
        let b = frame.subrange(off, off + 8);
        assert(b.skip(4) =~= frame.subrange(off + 4, off + 8));
        assert(b.skip(1).skip(1).skip(1).skip(1) =~= b.skip(4));
        let c = frame.subrange(off, off + 4);
        let d = b.skip(4);
        assert(c.skip(1).skip(1).skip(1).skip(1).len() == 0);
        assert(d.skip(1).skip(1).skip(1).skip(1).len() == 0);
    }
}

/// The float at `off`, with so many decimals.
pub open spec fn float_at(frame: Seq<u8>, off: int, decimals: u8) -> CellView {
    CellView::Float { bits: le32_at(frame, off), decimals }
}

/// Each field shows its numbers in the order of its bytes, with its unit and its
/// number of decimals.
#[verifier::rlimit(80)]
pub proof fn law_fields_show_their_numbers(frame: Seq<u8>, off: int)
    ensures
        field_cells("time"@, frame, off) == seq![
            CellView::Text("t="@ + number::decimal(le64_at(frame, off) as nat) + " ns"@),
        ],
        field_cells("ypr"@, frame, off) == seq![
            CellView::Text("ypr=["@),
            float_at(frame, off, 2),
            CellView::Text(", "@),
            float_at(frame, off + 4, 2),
            CellView::Text(", "@),
            float_at(frame, off + 8, 2),
            CellView::Text("] deg"@),
        ],
        field_cells("quat"@, frame, off) == seq![
            CellView::Text("quat=["@),
            float_at(frame, off, 4),
            CellView::Text(", "@),
            float_at(frame, off + 4, 4),
            CellView::Text(", "@),
            float_at(frame, off + 8, 4),
            CellView::Text(", "@),
            float_at(frame, off + 12, 4),
            CellView::Text("]"@),
        ],
        field_cells("gyro"@, frame, off) == seq![
            CellView::Text("gyro=["@),
            float_at(frame, off, 4),
            CellView::Text(", "@),
            float_at(frame, off + 4, 4),
            CellView::Text(", "@),
            float_at(frame, off + 8, 4),
            CellView::Text("] rad/s"@),
        ],
        field_cells("accel"@, frame, off) == seq![
            CellView::Text("accel=["@),
            float_at(frame, off, 3),
            CellView::Text(", "@),
            float_at(frame, off + 4, 3),
            CellView::Text(", "@),
            float_at(frame, off + 8, 3),
            CellView::Text("] m/s^2"@),
        ],
        field_cells("imu"@, frame, off) == seq![
            CellView::Text("uncomp_accel=["@),
            float_at(frame, off, 3),
            CellView::Text(", "@),
            float_at(frame, off + 4, 3),
            CellView::Text(", "@),
            float_at(frame, off + 8, 3),
            CellView::Text("] m/s^2 "@),
            CellView::Text("uncomp_gyro=["@),
            float_at(frame, off + 12, 4),
            CellView::Text(", "@),
            float_at(frame, off + 16, 4),
            CellView::Text(", "@),
            float_at(frame, off + 20, 4),
            CellView::Text("] rad/s"@),
        ],
        field_cells("magpres"@, frame, off) == seq![
            CellView::Text("mag=["@),
            float_at(frame, off, 3),
            CellView::Text(", "@),
            float_at(frame, off + 4, 3),
            CellView::Text(", "@),
            float_at(frame, off + 8, 3),
            CellView::Text("] G temp="@),
            CellView::Text(""@),
            float_at(frame, off + 12, 2),
            CellView::Text(" C pres="@),
            CellView::Text(""@),
            float_at(frame, off + 16, 3),
            CellView::Text(" kPa"@),
        ],
{
    reveal_strlit("time");
    reveal_strlit("ypr");
    reveal_strlit("quat");
    reveal_strlit("gyro");
    reveal_strlit("accel");
    reveal_strlit("imu");
    reveal_strlit("magpres");
    reveal_with_fuel(numbers, 5);
    assert("ypr"@[0] != "imu"@[0]);
    assert("quat"@[0] == 'q' && "gyro"@[0] == 'g' && "time"@[0] == 't');
    assert("magpres"@.len() == 7);
    assert(field_cells("magpres"@, frame, off) =~= seq![
        CellView::Text("mag=["@),
        float_at(frame, off, 3),
        CellView::Text(", "@),
        float_at(frame, off + 4, 3),
        CellView::Text(", "@),
        float_at(frame, off + 8, 3),
        CellView::Text("] G temp="@),
        CellView::Text(""@),
        float_at(frame, off + 12, 2),
        CellView::Text(" C pres="@),
        CellView::Text(""@),
        float_at(frame, off + 16, 3),
        CellView::Text(" kPa"@),
    ]);
}

/// A sample starts behind the frame's four header bytes, and every further field
/// stands after a comma, at the end of the fields before it.
pub proof fn law_sample_lists_the_fields(
    frame: Seq<u8>,
    fs: Seq<fields::FieldView>,
    f: fields::FieldView,
)
    ensures
        sample_cells(frame, Seq::empty()).len() == 0,
        sample_cells(frame, seq![f]) == field_cells(f.name, frame, 4),
        fs.len() > 0 ==> sample_cells(frame, fs.push(f)) == sample_cells(frame, fs) + seq![
            CellView::Text(", "@),
        ] + field_cells(f.name, frame, 4 + fields::size_of_fields(fs)),
{
    let one = seq![f];
    assert(one.drop_last() =~= Seq::<fields::FieldView>::empty());
    let more = fs.push(f);
    assert(more.drop_last() =~= fs);
    if fs.len() > 0 {
        let last = field_cells(f.name, frame, 4 + fields::size_of_fields(fs));
        assert(sample_cells(frame, fs).push(CellView::Text(", "@)) + last =~= sample_cells(
            frame,
            fs,
        ) + seq![CellView::Text(", "@)] + last);
    }
}

/// A list is shown in brackets, each text quoted, with a comma and a space between
/// each two.
pub proof fn law_list_is_shown_in_brackets(items: Seq<Seq<char>>, x: Seq<char>)
    ensures
        debug_list(Seq::empty()) == "[]"@,
        debug_list(seq![x]) == "["@ + unicode::quoted(x) + "]"@,
        items.len() > 0 ==> debug_list(items.push(x)) == debug_list(items).drop_last() + ", "@
            + unicode::quoted(x) + "]"@,
{
    reveal_strlit("[");
    reveal_strlit("]");
    reveal_strlit("[]");
    reveal_strlit(", ");
    let q = |s: Seq<char>| unicode::quoted(s);
    let none = Seq::<Seq<char>>::empty();
    assert(none.map_values(q) =~= none);
    assert(debug_list(none) =~= "[]"@);
    assert(seq![x].map_values(q) =~= seq![unicode::quoted(x)]);
    if items.len() > 0 {
        let shown = items.map_values(q);
        assert(items.push(x).map_values(q) =~= shown.push(unicode::quoted(x)));
        assert(shown.push(unicode::quoted(x)).drop_last() =~= shown);
        assert(debug_list(items).drop_last() =~= "["@ + text::join(shown, ", "@));
        assert(debug_list(items.push(x)) =~= debug_list(items).drop_last() + ", "@
            + unicode::quoted(x) + "]"@);
    }
}

} // verus!
