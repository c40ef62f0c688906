//! Binary output frames (register 75).
//!
//! A frame is sync `0xFA`, a groups byte (`0x01`, the Common group), one 16-bit
//! field mask, little-endian, the selected fields' payload, then a 2-byte CRC.
//! A frame's length depends on its field set. Frames arrive split across reads
//! and the sync byte can appear inside payload data, so a scan keeps an
//! undecided tail and resynchronises on a bad CRC.
use crate::fields;
use crate::fields::{field_at, FIELD_COUNT, KNOWN_MASK};
use crate::proto;
use crate::proto::vn_crc16;
use vstd::prelude::*;

verus! {

/// The first byte of every frame.
pub const SYNC: u8 = 0xFA;

/// The groups byte: the Common group alone.
pub const GROUPS: u8 = 0x01;

/// Bytes before the payload: sync, groups, field mask.
pub const HEADER: usize = 4;

/// Bytes after the payload.
pub const CRC: usize = 2;

/// No frame is longer than this: header, all seven fields, CRC.
pub const LONGEST: usize = 110;

/// The 16-bit number with these two bytes.
pub open spec fn le16(lo: u8, hi: u8) -> u16 {
    (lo + 256 * hi) as u16
}

/// The 16-bit number with these two bytes.
pub fn read_le16(lo: u8, hi: u8) -> (r: u16)
    ensures
        r == le16(lo, hi),
{
    lo as u16 + 256 * (hi as u16)
}

/// The length of a frame with this field mask.
pub open spec fn frame_size(mask: u16) -> int {
    HEADER + fields::size_of_fields(fields::fields_in(mask)) + CRC
}

/// Whether every bit of the mask stands for a known field, and there is one.
pub open spec fn is_known_mask(mask: u16) -> bool {
    mask != 0 && mask & KNOWN_MASK == mask
}

/// Whether `f` is one whole Common-group frame.
pub open spec fn is_frame(f: Seq<u8>) -> bool {
    &&& f.len() >= HEADER
    &&& f[0] == SYNC
    &&& f[1] == GROUPS
    &&& is_known_mask(le16(f[2], f[3]))
    &&& f.len() == frame_size(le16(f[2], f[3]))
    &&& proto::crc16(f.skip(1)) == 0
}

/// Outcome of sniffing a possible binary frame at the start of a slice.
pub enum Sniff {
    /// A CRC-valid Common frame of this many bytes starts here.
    Frame(usize),
    /// A plausible frame prefix, but too short to decide yet.
    NeedMore,
    /// Not a frame start: false sync, other group, or an unknown field bit that
    /// cannot be sized.
    NotHere,
}

/// What a byte sequence starts with.
pub open spec fn sniffed(s: Seq<u8>) -> Sniff {
    if s.len() == 0 || s[0] != SYNC {
        Sniff::NotHere
    } else if s.len() == 1 {
        Sniff::NeedMore
    } else if s[1] != GROUPS {
        Sniff::NotHere
    } else if s.len() < HEADER {
        Sniff::NeedMore
    } else {
        let mask = le16(s[2], s[3]);
        if !is_known_mask(mask) {
            Sniff::NotHere
        } else if s.len() < frame_size(mask) {
            Sniff::NeedMore
        } else if is_frame(s.take(frame_size(mask))) {
            Sniff::Frame(frame_size(mask) as usize)
        } else {
            Sniff::NotHere
        }
    }
}

/// Frames are between 14 and 110 bytes long.
pub proof fn lemma_frame_size(mask: u16)
    ensures
        6 <= frame_size(mask) <= LONGEST,
        is_known_mask(mask) ==> frame_size(mask) >= 14,
{
    fields::law_mask_round_trip(mask);
}

/// Sniffs one Common-group binary frame at the start of `s`.
///
/// Passive: the frame length is read from the frame's own header, by summing the
/// known fields' sizes for the payload; then the CRC confirms the guess.
pub fn try_common_frame(s: &[u8]) -> (r: Sniff)
    ensures
        r == sniffed(s@),
{
    if s.len() == 0 || s[0] != SYNC {
        return Sniff::NotHere;
    }
    if s.len() < 2 {
        return Sniff::NeedMore;
    }
    if s[1] != GROUPS {
        return Sniff::NotHere;  // only the Common group is supported
    }
    if s.len() < HEADER {
        return Sniff::NeedMore;
    }
    let mask = read_le16(s[2], s[3]);
    if mask == 0 {
        return Sniff::NotHere;  // a real frame always carries at least one field
    }
    // Sum the payload from the known Common fields. A set bit that is not known
    // can't be sized, so the frame end can't be found: a false sync.
    let mut payload: usize = 0;
    let mut known: u16 = 0;
    let mut k: usize = 0;
    proof {
        fields::lemma_fields_in_all(mask);
    }
    while k < FIELD_COUNT
        invariant
            k <= FIELD_COUNT,
            payload == fields::size_of_fields(fields::fields_in_upto(mask, k as int)),
            known == fields::mask_of(fields::fields_in_upto(mask, k as int)),
            payload <= 24 * k,
        decreases FIELD_COUNT - k,
    {
        let f = field_at(k);
        proof {
            fields::lemma_fields_in_step(mask, k as int);
        }
        if mask & (1u16 << f.bit) != 0 {
            payload = payload + f.size;
            known = known | (1u16 << f.bit);
        }
        k = k + 1;
    }
    proof {
        fields::lemma_fields_in_all(mask);
        fields::law_mask_round_trip(mask);
    }
    if known != mask {
        return Sniff::NotHere;
    }
    let frame_len: usize = HEADER + payload + CRC;
    if s.len() < frame_len {
        return Sniff::NeedMore;
    }
    // The CRC runs over everything after the sync byte (groups, mask, payload,
    // CRC); a correct frame makes it zero.
    let body = &s[1..frame_len];
    assert(body@ =~= s@.take(frame_len as int).skip(1));
    if vn_crc16(body) == 0 {
        Sniff::Frame(frame_len)
    } else {
        Sniff::NotHere
    }
}

/// Once decided, what a sequence starts with does not change with what follows.
pub proof fn lemma_sniff_stable(s: Seq<u8>, t: Seq<u8>)
    requires
        s.len() > 0,
        sniffed(s) !is NeedMore,
    ensures
        sniffed(s + t) == sniffed(s),
{
    let st = s + t;
    if s[0] == SYNC && s.len() >= 2 && s[1] == GROUPS && s.len() >= HEADER {
        let mask = le16(s[2], s[3]);
        lemma_frame_size(mask);
        if is_known_mask(mask) && s.len() >= frame_size(mask) {
            assert(st.take(frame_size(mask)) =~= s.take(frame_size(mask)));
        }
    }
}

/// A whole frame is recognised wherever it starts, whatever follows it.
pub proof fn law_frame_is_recognised(f: Seq<u8>, rest: Seq<u8>)
    requires
        is_frame(f),
    ensures
        sniffed(f + rest) == Sniff::Frame(f.len() as usize),
{
    lemma_frame_size(le16(f[2], f[3]));
    assert((f + rest).take(f.len() as int) =~= f);
}

/// What is recognised is a whole frame.
pub proof fn law_recognised_is_a_frame(s: Seq<u8>)
    requires
        sniffed(s) is Frame,
    ensures
        is_frame(s.take(sniffed(s)->Frame_0 as int)),
        14 <= sniffed(s)->Frame_0 <= LONGEST,
        sniffed(s)->Frame_0 <= s.len(),
{
    lemma_frame_size(le16(s[2], s[3]));
}

/// An undecided sequence is shorter than the longest frame.
pub proof fn law_undecided_is_short(s: Seq<u8>)
    requires
        sniffed(s) is NeedMore,
    ensures
        0 < s.len() < LONGEST,
{
    if s.len() >= HEADER {
        lemma_frame_size(le16(s[2], s[3]));
    }
}

/// A header and payload followed by their CRC, high byte first, are a frame.
pub proof fn law_built_frame_is_a_frame(mask: u16, payload: Seq<u8>)
    requires
        is_known_mask(mask),
        payload.len() == fields::size_of_fields(fields::fields_in(mask)),
    ensures
        is_frame(built_frame(mask, payload)),
{
    let data = seq![GROUPS, (mask & 0xff) as u8, (mask >> 8) as u8] + payload;
    let crc = proto::crc16(data);
    let f = built_frame(mask, payload);
    let lo = (mask & 0xff) as u8;
    let hi = (mask >> 8) as u8;
    assert(lo + 256 * hi == mask) by (bit_vector)
        requires
            lo == (mask & 0xff) as u8,
            hi == (mask >> 8) as u8,
    ;
    assert(f[2] == lo && f[3] == hi);
    assert(f.skip(1) =~= data + seq![(crc >> 8) as u8, (crc & 0xff) as u8]);
    proto::law_crc_append_is_zero(data);
}

/// The frame that carries `payload` under `mask`.
pub open spec fn built_frame(mask: u16, payload: Seq<u8>) -> Seq<u8> {
    let data = seq![GROUPS, (mask & 0xff) as u8, (mask >> 8) as u8] + payload;
    let crc = proto::crc16(data);
    seq![SYNC] + data + seq![(crc >> 8) as u8, (crc & 0xff) as u8]
}

// ---------------------------------------------------------------------------
// Scanning a stream
// ---------------------------------------------------------------------------
/// What a scan of a stream yields.
pub struct Scan {
    /// The frames, in the order they end.
    pub frames: Seq<Seq<u8>>,
    /// The undecided tail.
    pub rest: Seq<u8>,
}

/// `f` in front of what another scan yields.
pub open spec fn with_frame(f: Seq<u8>, s: Scan) -> Scan {
    Scan { frames: seq![f] + s.frames, rest: s.rest }
}

/// Scans from left to right: a frame is taken whole, a byte that starts none is
/// skipped, and an undecided tail is left.
pub open spec fn scanned(s: Seq<u8>) -> Scan
    decreases s.len(),
{
    if s.len() == 0 {
        Scan { frames: Seq::empty(), rest: s }
    } else {
        match sniffed(s) {
            Sniff::Frame(n) => if 0 < n <= s.len() {
                with_frame(s.take(n as int), scanned(s.skip(n as int)))
            } else {
                Scan { frames: Seq::empty(), rest: s }
            },
            Sniff::NotHere => scanned(s.skip(1)),
            Sniff::NeedMore => Scan { frames: Seq::empty(), rest: s },
        }
    }
}

/// Scanning `a` and then what it left together with `b` finds what scanning
/// `a + b` at once finds.
pub proof fn law_scan_in_pieces(a: Seq<u8>, b: Seq<u8>)
    ensures
        scanned(a + b).frames == scanned(a).frames + scanned(scanned(a).rest + b).frames,
        scanned(a + b).rest == scanned(scanned(a).rest + b).rest,
    decreases a.len(),
{
    if a.len() == 0 {
        assert(a + b =~= b);
        assert(scanned(a).rest + b =~= b);
        assert(scanned(a).frames + scanned(b).frames =~= scanned(b).frames);
    } else {
        match sniffed(a) {
            Sniff::Frame(n) => {
                law_recognised_is_a_frame(a);
                lemma_sniff_stable(a, b);
                let n = n as int;
                assert((a + b).take(n) =~= a.take(n));
                assert((a + b).skip(n) =~= a.skip(n) + b);
                law_scan_in_pieces(a.skip(n), b);
                assert(scanned(a + b).frames =~= scanned(a).frames + scanned(
                    scanned(a).rest + b,
                ).frames);
            },
            Sniff::NotHere => {
                lemma_sniff_stable(a, b);
                assert((a + b).skip(1) =~= a.skip(1) + b);
                law_scan_in_pieces(a.skip(1), b);
            },
            Sniff::NeedMore => {
                assert(scanned(a).frames + scanned(a + b).frames =~= scanned(a + b).frames);
            },
        }
    }
}

/// The tail that a scan leaves is shorter than the longest frame, holds no frame,
/// and everything that is found is a frame.
pub proof fn law_scan_tail_is_short(s: Seq<u8>)
    ensures
        scanned(s).rest.len() < LONGEST,
        scanned(scanned(s).rest) == (Scan { frames: Seq::empty(), rest: scanned(s).rest }),
        forall|i: int| 0 <= i < scanned(s).frames.len() ==> is_frame(#[trigger] scanned(s).frames[i]),
        total_len(scanned(s).frames) + scanned(s).rest.len() <= s.len(),
    decreases s.len(),
{
    if s.len() > 0 {
        match sniffed(s) {
            Sniff::Frame(n) => {
                law_recognised_is_a_frame(s);
                let t = scanned(s.skip(n as int));
                law_scan_tail_is_short(s.skip(n as int));
                lemma_total_len_front(s.take(n as int), t.frames);
                assert forall|i: int| 0 <= i < scanned(s).frames.len() implies is_frame(
                    #[trigger] scanned(s).frames[i],
                ) by {
                    if i > 0 {
                        assert(scanned(s).frames[i] == t.frames[i - 1]);
                    }
                }
            },
            Sniff::NotHere => {
                law_scan_tail_is_short(s.skip(1));
            },
            Sniff::NeedMore => {
                law_undecided_is_short(s);
            },
        }
    }
}

/// The bytes that the frames take together.
pub open spec fn total_len(frames: Seq<Seq<u8>>) -> nat
    decreases frames.len(),
{
    if frames.len() == 0 {
        0
    } else {
        total_len(frames.drop_last()) + frames.last().len()
    }
}

/// A frame in front adds its length.
proof fn lemma_total_len_front(f: Seq<u8>, frames: Seq<Seq<u8>>)
    ensures
        total_len(seq![f] + frames) == f.len() + total_len(frames),
    decreases frames.len(),
{
    let all = seq![f] + frames;
    if frames.len() == 0 {
        assert(all.drop_last() =~= frames);
        assert(all.last() == f);
    } else {
        lemma_total_len_front(f, frames.drop_last());
        assert(all.drop_last() =~= seq![f] + frames.drop_last());
        assert(all.last() == frames.last());
    }
}

/// Two lists of frames take their lengths together.
pub proof fn lemma_total_len_concat(a: Seq<Seq<u8>>, b: Seq<Seq<u8>>)
    ensures
        total_len(a + b) == total_len(a) + total_len(b),
    decreases b.len(),
{
    if b.len() == 0 {
        assert(a + b =~= a);
    } else {
        lemma_total_len_concat(a, b.drop_last());
        assert((a + b).drop_last() =~= a + b.drop_last());
        assert((a + b).last() == b.last());
    }
}

/// A stream with frames in it: a gap before each frame and one at the end.
pub open spec fn interleaved(gaps: Seq<Seq<u8>>, frames: Seq<Seq<u8>>) -> Seq<u8>
    recommends
        gaps.len() == frames.len() + 1,
    decreases frames.len(),
{
    if frames.len() == 0 {
        gaps[0]
    } else {
        gaps[0] + (frames[0] + interleaved(gaps.skip(1), frames.skip(1)))
    }
}

/// Whether `s` holds no sync byte.
pub open spec fn no_sync(s: Seq<u8>) -> bool {
    forall|i: int| 0 <= i < s.len() ==> #[trigger] s[i] != SYNC
}

/// A scan skips bytes that hold no sync byte.
proof fn lemma_scan_skips(gap: Seq<u8>, t: Seq<u8>)
    requires
        no_sync(gap),
    ensures
        scanned(gap + t) == scanned(t),
    decreases gap.len(),
{
    let s = gap + t;
    if gap.len() > 0 {
        assert(s[0] == gap[0]);
        assert(s.skip(1) =~= gap.skip(1) + t);
        assert forall|i: int| 0 <= i < gap.skip(1).len() implies #[trigger] gap.skip(1)[i]
            != SYNC by {
            assert(gap.skip(1)[i] == gap[i + 1]);
        }
        lemma_scan_skips(gap.skip(1), t);
    } else {
        assert(s =~= t);
    }
}

/// Frames between bytes that hold no sync byte, such as ASCII lines, are all
/// found, in order, with nothing left over.
pub proof fn law_every_frame_is_found(gaps: Seq<Seq<u8>>, frames: Seq<Seq<u8>>)
    requires
        gaps.len() == frames.len() + 1,
        forall|i: int| 0 <= i < gaps.len() ==> no_sync(#[trigger] gaps[i]),
        forall|i: int| 0 <= i < frames.len() ==> is_frame(#[trigger] frames[i]),
    ensures
        scanned(interleaved(gaps, frames)) == (Scan { frames, rest: Seq::empty() }),
    decreases frames.len(),
{
    assert(no_sync(gaps[0]));
    if frames.len() == 0 {
        let none = Seq::<u8>::empty();
        lemma_scan_skips(gaps[0], none);
        assert(gaps[0] + none =~= gaps[0]);
        assert(frames =~= Seq::<Seq<u8>>::empty());
    } else {
        let f = frames[0];
        let more = frames.skip(1);
        let later = gaps.skip(1);
        let tail = interleaved(later, more);
        let s = f + tail;
        assert(is_frame(f));
        lemma_scan_skips(gaps[0], s);
        law_frame_is_recognised(f, tail);
        lemma_frame_size(le16(f[2], f[3]));
        assert(s.take(f.len() as int) =~= f);
        assert(s.skip(f.len() as int) =~= tail);
        assert forall|i: int| 0 <= i < more.len() implies is_frame(#[trigger] more[i]) by {
            assert(more[i] == frames[i + 1]);
        }
        assert forall|i: int| 0 <= i < later.len() implies no_sync(#[trigger] later[i]) by {
            assert(later[i] == gaps[i + 1]);
        }
        law_every_frame_is_found(later, more);
        assert(seq![f] + more =~= frames);
    }
}

/// The bytes `a` and then `b`.
pub fn extended(a: &[u8], b: &[u8]) -> (r: Vec<u8>)
    ensures
        r@ == a@ + b@,
{
    let mut v: Vec<u8> = Vec::new();
    v.extend_from_slice(a);
    v.extend_from_slice(b);
    assert(v@ =~= a@ + b@);
    v
}

/// The bytes of `s` from `from` on up to `to`.
pub fn cut(s: &[u8], from: usize, to: usize) -> (r: Vec<u8>)
    requires
        from <= to <= s.len(),
    ensures
        r@ == s@.subrange(from as int, to as int),
{
    let mut v: Vec<u8> = Vec::new();
    v.extend_from_slice(&s[from..to]);
    assert(v@ =~= s@.subrange(from as int, to as int));
    v
}

/// The views of a list of byte strings.
pub open spec fn byte_views(v: Seq<Vec<u8>>) -> Seq<Seq<u8>> {
    Seq::new(v.len(), |i: int| v[i]@)
}

/// Pulls the frames out of `acc` and leaves the undecided tail.
pub fn take_frames(acc: &mut Vec<u8>) -> (r: Vec<Vec<u8>>)
    ensures
        byte_views(r@) == scanned(old(acc)@).frames,
        final(acc)@ == scanned(old(acc)@).rest,
{
    let mut found: Vec<Vec<u8>> = Vec::new();
    let all = acc.as_slice();
    let ghost s = all@;
    let mut i: usize = 0;
    assert(s.skip(0) =~= s);
    assert(byte_views(found@) + scanned(s).frames =~= scanned(s).frames);
    loop
        invariant_except_break
            i <= all.len(),
            s == all@,
            scanned(s).frames == byte_views(found@) + scanned(s.skip(i as int)).frames,
            scanned(s).rest == scanned(s.skip(i as int)).rest,
        invariant
            s == all@,
        ensures
            i <= all.len(),
            scanned(s).frames == byte_views(found@),
            scanned(s).rest == s.skip(i as int),
        decreases all.len() - i,
    {
        let ghost t = s.skip(i as int);
        if i == all.len() {
            assert(byte_views(found@) + scanned(t).frames =~= byte_views(found@));
            break;
        }
        let window = &all[i..all.len()];
        assert(window@ =~= t);
        match try_common_frame(window) {
            Sniff::Frame(n) => {
                let ghost was = byte_views(found@);
                proof {
                    law_recognised_is_a_frame(t);
                    assert(t.take(n as int) =~= s.subrange(i as int, i + n));
                    assert(t.skip(n as int) =~= s.skip(i + n));
                }
                found.push(cut(all, i, i + n));
                assert(byte_views(found@) =~= was.push(t.take(n as int)));
                assert(was + scanned(t).frames =~= byte_views(found@) + scanned(
                    s.skip(i + n),
                ).frames);
                i = i + n;
            },
            Sniff::NotHere => {
                assert(t.skip(1) =~= s.skip(i + 1));
                i = i + 1;
            },
            Sniff::NeedMore => {
                // A partial frame at the tail: wait for more.
                assert(byte_views(found@) + scanned(t).frames =~= byte_views(found@));
                break;
            },
        }
    }
    let tail = cut(all, i, all.len());
    assert(tail@ =~= s.skip(i as int));
    *acc = tail;
    found
}

// ---------------------------------------------------------------------------
// Frames of a known length
// ---------------------------------------------------------------------------
/// Whether `f` starts as a Common-group frame and its CRC fits.
pub open spec fn is_sized_frame(f: Seq<u8>) -> bool {
    &&& f.len() >= 2
    &&& f[0] == SYNC
    &&& f[1] == GROUPS
    &&& proto::crc16(f.skip(1)) == 0
}

/// Scans for frames of `n` bytes each, from left to right: a frame is taken
/// whole, a byte that starts none is skipped, and a tail shorter than a frame is
/// left.
pub open spec fn scanned_sized(s: Seq<u8>, n: int) -> Scan
    decreases s.len(),
{
    if n < 2 || s.len() < n {
        Scan { frames: Seq::empty(), rest: s }
    } else if is_sized_frame(s.take(n)) {
        with_frame(s.take(n), scanned_sized(s.skip(n), n))
    } else {
        scanned_sized(s.skip(1), n)
    }
}

/// Scanning for sized frames in pieces finds what scanning at once finds.
pub proof fn law_sized_scan_in_pieces(a: Seq<u8>, b: Seq<u8>, n: int)
    requires
        n >= 2,
    ensures
        scanned_sized(a + b, n).frames == scanned_sized(a, n).frames + scanned_sized(
            scanned_sized(a, n).rest + b,
            n,
        ).frames,
        scanned_sized(a + b, n).rest == scanned_sized(scanned_sized(a, n).rest + b, n).rest,
    decreases a.len(),
{
    if a.len() < n {
        assert(scanned_sized(a, n).frames + scanned_sized(a + b, n).frames =~= scanned_sized(
            a + b,
            n,
        ).frames);
    } else {
        assert((a + b).take(n) =~= a.take(n));
        if is_sized_frame(a.take(n)) {
            assert((a + b).skip(n) =~= a.skip(n) + b);
            law_sized_scan_in_pieces(a.skip(n), b, n);
            assert(scanned_sized(a + b, n).frames =~= scanned_sized(a, n).frames + scanned_sized(
                scanned_sized(a, n).rest + b,
                n,
            ).frames);
        } else {
            assert((a + b).skip(1) =~= a.skip(1) + b);
            law_sized_scan_in_pieces(a.skip(1), b, n);
        }
    }
}

/// The tail that a scan for sized frames leaves is shorter than a frame, and
/// everything that is found is such a frame.
pub proof fn law_sized_scan_tail_is_short(s: Seq<u8>, n: int)
    requires
        n >= 2,
    ensures
        scanned_sized(s, n).rest.len() < n,
        forall|i: int|
            0 <= i < scanned_sized(s, n).frames.len() ==> {
                let f = #[trigger] scanned_sized(s, n).frames[i];
                f.len() == n && is_sized_frame(f)
            },
        scanned_sized(s, n).frames.len() * n + scanned_sized(s, n).rest.len() <= s.len(),
    decreases s.len(),
{
    if s.len() >= n {
        if is_sized_frame(s.take(n)) {
            law_sized_scan_tail_is_short(s.skip(n), n);
            let t = scanned_sized(s.skip(n), n);
            let k = t.frames.len();
            assert((k + 1) * n == k * n + n) by (nonlinear_arith);
            assert forall|i: int| 0 <= i < scanned_sized(s, n).frames.len() implies {
                let f = #[trigger] scanned_sized(s, n).frames[i];
                f.len() == n && is_sized_frame(f)
            } by {
                if i > 0 {
                    assert(scanned_sized(s, n).frames[i] == t.frames[i - 1]);
                }
            }
        } else {
            law_sized_scan_tail_is_short(s.skip(1), n);
        }
    } else {
        assert(0 * n == 0) by (nonlinear_arith);
    }
}

/// Frames laid end to end.
pub open spec fn laid_out(frames: Seq<Seq<u8>>) -> Seq<u8>
    decreases frames.len(),
{
    if frames.len() == 0 {
        Seq::empty()
    } else {
        frames[0] + laid_out(frames.skip(1))
    }
}

/// Frames of one length laid end to end are all found, in order, with nothing
/// left over.
pub proof fn law_every_sized_frame_is_found(frames: Seq<Seq<u8>>, n: int)
    requires
        n >= 2,
        forall|i: int|
            0 <= i < frames.len() ==> (#[trigger] frames[i]).len() == n && is_sized_frame(
                frames[i],
            ),
    ensures
        scanned_sized(laid_out(frames), n) == (Scan { frames, rest: Seq::empty() }),
    decreases frames.len(),
{
    if frames.len() == 0 {
        assert(frames =~= Seq::<Seq<u8>>::empty());
    } else {
        let f = frames[0];
        let more = frames.skip(1);
        let s = laid_out(frames);
        assert(f.len() == n);
        assert(s.take(n) =~= f);
        assert(s.skip(n) =~= laid_out(more));
        assert forall|i: int| 0 <= i < more.len() implies (#[trigger] more[i]).len() == n
            && is_sized_frame(more[i]) by {
            assert(more[i] == frames[i + 1]);
        }
        law_every_sized_frame_is_found(more, n);
        assert(seq![f] + more =~= frames);
    }
}

/// A whole frame is found by a scan for frames of its length.
pub proof fn law_frame_is_a_sized_frame(f: Seq<u8>)
    requires
        is_frame(f),
    ensures
        is_sized_frame(f),
        f.len() == frame_size(le16(f[2], f[3])),
{
}

/// Pulls the frames of `n` bytes out of `acc` and leaves the tail.
pub fn take_sized_frames(acc: &mut Vec<u8>, n: usize) -> (r: Vec<Vec<u8>>)
    requires
        n >= 2,
    ensures
        byte_views(r@) == scanned_sized(old(acc)@, n as int).frames,
        final(acc)@ == scanned_sized(old(acc)@, n as int).rest,
{
    let mut found: Vec<Vec<u8>> = Vec::new();
    let all = acc.as_slice();
    let ghost s = all@;
    let mut i: usize = 0;
    assert(s.skip(0) =~= s);
    assert(byte_views(found@) + scanned_sized(s, n as int).frames =~= scanned_sized(
        s,
        n as int,
    ).frames);
    while all.len() - i >= n
        invariant
            n >= 2,
            i <= all.len(),
            s == all@,
            scanned_sized(s, n as int).frames == byte_views(found@) + scanned_sized(
                s.skip(i as int),
                n as int,
            ).frames,
            scanned_sized(s, n as int).rest == scanned_sized(s.skip(i as int), n as int).rest,
        decreases all.len() - i,
    {
        let ghost t = s.skip(i as int);
        let frame = &all[i..i + n];
        assert(frame@ =~= t.take(n as int));
        let body = &all[i + 1..i + n];
        assert(body@ =~= t.take(n as int).skip(1));
        // A false sync is possible, since 0xFA can appear in payload: resync.
        if all[i] == SYNC && all[i + 1] == GROUPS && vn_crc16(body) == 0 {
            let ghost was = byte_views(found@);
            found.push(cut(all, i, i + n));
            proof {
                assert(t.take(n as int) =~= s.subrange(i as int, i + n));
                assert(t.skip(n as int) =~= s.skip(i + n));
                assert(byte_views(found@) =~= was.push(t.take(n as int)));
                assert(was + scanned_sized(t, n as int).frames =~= byte_views(found@)
                    + scanned_sized(s.skip(i + n), n as int).frames);
            }
            i = i + n;
        } else {
            assert(t.skip(1) =~= s.skip(i + 1));
            i = i + 1;
        }
    }
    assert(byte_views(found@) + scanned_sized(s.skip(i as int), n as int).frames =~= byte_views(
        found@,
    ));
    let tail = cut(all, i, all.len());
    assert(tail@ =~= s.skip(i as int));
    *acc = tail;
    found
}


/// A frame by its bytes: `FA 01`, a mask of known fields with the low byte first,
/// their bytes, and the CRC of everything after the sync byte, high byte first.
pub proof fn law_frame_by_its_bytes(f: Seq<u8>)
    ensures
        is_frame(f) <==> {
            let n = f.len() as int;
            let mask = (f[2] + 0x100 * f[3]) as u16;
            let crc = proto::crc16(f.subrange(1, n - 2));
            &&& n >= 6
            &&& f[0] == 0xFA
            &&& f[1] == 0x01
            &&& mask != 0
            &&& mask & 0x0739 == mask
            &&& n == 6 + fields::size_of_fields(fields::fields_in(mask))
            &&& f[n - 2] == (crc >> 8) as u8
            &&& f[n - 1] == (crc & 0xff) as u8
        },
{
    let n = f.len() as int;
    if n >= 6 {
        let data = f.subrange(1, n - 2);
        assert(f.skip(1) =~= data + seq![f[n - 2], f[n - 1]]);
        proto::law_crc_accepts_only_own_crc(data, f[n - 2], f[n - 1]);
    }
    if n >= 4 {
        lemma_frame_size(le16(f[2], f[3]));
    }
}

/// A sized frame by its bytes: `FA 01`, and the CRC of everything after the sync
/// byte at its end, high byte first.
pub proof fn law_sized_frame_by_its_bytes(f: Seq<u8>)
    requires
        f.len() >= 4,
    ensures
        is_sized_frame(f) <==> {
            let n = f.len() as int;
            let crc = proto::crc16(f.subrange(1, n - 2));
            &&& f[0] == 0xFA
            &&& f[1] == 0x01
            &&& f[n - 2] == (crc >> 8) as u8
            &&& f[n - 1] == (crc & 0xff) as u8
        },
{
    let n = f.len() as int;
    let data = f.subrange(1, n - 2);
    assert(f.skip(1) =~= data + seq![f[n - 2], f[n - 1]]);
    proto::law_crc_accepts_only_own_crc(data, f[n - 2], f[n - 1]);
}

/// Where no frame is sniffed, none starts, whatever follows; where more is needed,
/// none has ended yet.
pub proof fn law_sniffing_misses_nothing(s: Seq<u8>, t: Seq<u8>, n: int)
    requires
        s.len() > 0,
    ensures
        sniffed(s) is NotHere && 0 <= n <= s.len() + t.len() ==> !is_frame((s + t).take(n)),
        sniffed(s) is NeedMore && 0 <= n <= s.len() ==> !is_frame(s.take(n)),
{
    let st = s + t;
    if sniffed(s) is NotHere && 0 <= n <= st.len() {
        lemma_sniff_stable(s, t);
        if is_frame(st.take(n)) {
            law_frame_is_recognised(st.take(n), st.skip(n));
            assert(st.take(n) + st.skip(n) =~= st);
        }
    }
    if sniffed(s) is NeedMore && 0 <= n <= s.len() {
        if is_frame(s.take(n)) {
            law_frame_is_recognised(s.take(n), s.skip(n));
            assert(s.take(n) + s.skip(n) =~= s);
        }
    }
}

/// A scan goes on behind a frame, and at the very next byte where none starts.
pub proof fn law_scan_goes_on(s: Seq<u8>, f: Seq<u8>, n: int)
    requires
        s.len() > 0,
    ensures
        is_frame(f) ==> scanned(f + s).frames == seq![f] + scanned(s).frames && scanned(f + s).rest
            == scanned(s).rest,
        sniffed(s) is NotHere ==> scanned(s) == scanned(s.skip(1)),
        sniffed(s) is NeedMore ==> scanned(s).frames.len() == 0 && scanned(s).rest == s,
        n >= 2 && f.len() == n && is_sized_frame(f) ==> scanned_sized(f + s, n).frames == seq![f]
            + scanned_sized(s, n).frames && scanned_sized(f + s, n).rest == scanned_sized(
            s,
            n,
        ).rest,
        2 <= n <= s.len() && !is_sized_frame(s.take(n)) ==> scanned_sized(s, n) == scanned_sized(
            s.skip(1),
            n,
        ),
        s.len() < n ==> scanned_sized(s, n).frames.len() == 0 && scanned_sized(s, n).rest == s,
{
    let all = f + s;
    if is_frame(f) {
        law_frame_is_recognised(f, s);
        lemma_frame_size(le16(f[2], f[3]));
        assert(all.take(f.len() as int) =~= f);
        assert(all.skip(f.len() as int) =~= s);
    }
    if n >= 2 && f.len() == n && is_sized_frame(f) {
        assert(all.take(n) =~= f);
        assert(all.skip(n) =~= s);
    }
}

/// A scan for sized frames skips bytes that hold no sync byte.
pub proof fn law_sized_scan_skips_gaps(gap: Seq<u8>, t: Seq<u8>, n: int)
    requires
        no_sync(gap),
        2 <= n <= t.len(),
    ensures
        scanned_sized(gap + t, n) == scanned_sized(t, n),
    decreases gap.len(),
{
    let s = gap + t;
    if gap.len() > 0 {
        assert(s.take(n)[0] == gap[0]);
        assert(s.skip(1) =~= gap.skip(1) + t);
        assert forall|i: int| 0 <= i < gap.skip(1).len() implies #[trigger] gap.skip(1)[i]
            != SYNC by {
            assert(gap.skip(1)[i] == gap[i + 1]);
        }
        law_sized_scan_skips_gaps(gap.skip(1), t, n);
    } else {
        assert(s =~= t);
    }
}

/// A stream takes the bytes of its gaps and of its frames.
pub proof fn lemma_interleaved_len(gaps: Seq<Seq<u8>>, frames: Seq<Seq<u8>>)
    requires
        gaps.len() == frames.len() + 1,
    ensures
        interleaved(gaps, frames).len() == total_len(gaps) + total_len(frames),
    decreases frames.len(),
{
    assert(gaps =~= seq![gaps[0]] + gaps.skip(1));
    lemma_total_len_front(gaps[0], gaps.skip(1));
    if frames.len() == 0 {
        assert(gaps.skip(1) =~= Seq::<Seq<u8>>::empty());
    } else {
        assert(frames =~= seq![frames[0]] + frames.skip(1));
        lemma_total_len_front(frames[0], frames.skip(1));
        lemma_interleaved_len(gaps.skip(1), frames.skip(1));
    }
}

/// Frames of one length laid end to end take their number times that length.
pub proof fn lemma_laid_out_len(frames: Seq<Seq<u8>>, n: int)
    requires
        forall|i: int| 0 <= i < frames.len() ==> (#[trigger] frames[i]).len() == n,
    ensures
        laid_out(frames).len() == frames.len() * n,
    decreases frames.len(),
{
    if frames.len() > 0 {
        let more = frames.skip(1);
        assert forall|i: int| 0 <= i < more.len() implies (#[trigger] more[i]).len() == n by {
            assert(more[i] == frames[i + 1]);
        }
        lemma_laid_out_len(more, n);
        let k = more.len();
        assert((k + 1) * n == k * n + n) by (nonlinear_arith);
        assert(frames[0].len() == n);
    } else {
        assert(0 * n == 0);
    }
}

} // verus!
