//! The `bench` command: measure what the device streams.
//!
//! - The passive bench does no device writes. The same bytes are scanned two ways
//!   at once, for ASCII `$VN...` async lines (checksum-valid) and for binary
//!   Common-group frames (CRC-valid), and every byte off the wire is counted.
//! - The configuring bench knows its output, and counts messages
//!   (`measure_ascii`) or frames of one length (`measure_binary`).
//!
//! Reading the port and the clock are the caller's.
use crate::frame;
use crate::frame::{extended, take_frames, take_sized_frames};
use crate::line;
use crate::line::{candidate_of, is_async_line, push_byte};
use crate::proto;
use crate::report;
use crate::text;
use crate::transact;
use crate::transact::ReadEvent;
use vstd::prelude::*;
use vstd::string::*;
use vstd::utf8;

verus! {

/// What to do after an event during a measurement.
pub enum MeasureStep {
    /// Keep reading.
    Continue,
    /// The window is over.
    Finish,
    /// Give up and pass the read's failure on.
    Fail,
}

/// What to do after an event: only the end of the window ends a measurement, and
/// a read that yields nothing is no end of file.
pub open spec fn measure_step(event: ReadEvent) -> MeasureStep {
    match event {
        ReadEvent::Deadline => MeasureStep::Finish,
        ReadEvent::Failed => MeasureStep::Fail,
        _ => MeasureStep::Continue,
    }
}

// ---------------------------------------------------------------------------
// ASCII messages
// ---------------------------------------------------------------------------
/// What was seen of the ASCII async stream: the number of messages, the bytes
/// they took on the wire, and the first of them.
pub struct AsciiTally {
    pub msgs: u64,
    pub bytes: u64,
    pub sample: Option<String>,
}

/// An `AsciiTally` with its numbers unbounded and its text taken by characters.
pub struct AsciiTallyView {
    pub msgs: nat,
    pub bytes: nat,
    pub sample: Option<Seq<char>>,
}

impl View for AsciiTally {
    type V = AsciiTallyView;

    open spec fn view(&self) -> AsciiTallyView {
        AsciiTallyView {
            msgs: self.msgs as nat,
            bytes: self.bytes as nat,
            sample: match self.sample {
                Some(s) => Some(s@),
                None => None,
            },
        }
    }
}

/// A sum of bytes, held at the largest 64-bit number.
pub open spec fn held(n: nat) -> nat {
    if n <= u64::MAX {
        n
    } else {
        u64::MAX as nat
    }
}

/// The tally with one more line: an async message counts, with the CRLF that
/// ended it.
pub open spec fn with_line(t: AsciiTallyView, raw: Seq<u8>) -> AsciiTallyView {
    with_message(t, line::candidate(raw))
}

/// The tally with one more line that carries `c`.
pub open spec fn with_message(t: AsciiTallyView, c: Seq<char>) -> AsciiTallyView {
    if line::is_async(c) {
        AsciiTallyView {
            msgs: t.msgs + 1,
            bytes: held(t.bytes + utf8::encode_utf8(c).len() + 2),
            sample: match t.sample {
                Some(s) => Some(s),
                None => Some(c),
            },
        }
    } else {
        t
    }
}

/// The tally with these lines.
pub open spec fn with_lines(t: AsciiTallyView, lines: Seq<Seq<u8>>) -> AsciiTallyView
    decreases lines.len(),
{
    if lines.len() == 0 {
        t
    } else {
        with_line(with_lines(t, lines.drop_last()), lines.last())
    }
}

/// A scan for ASCII messages: the tally and the line in progress.
pub struct AsciiScanner {
    tally: AsciiTally,
    open_line: Vec<u8>,
}

/// The view of an `AsciiScanner`.
pub struct AsciiScanView {
    pub tally: AsciiTallyView,
    pub open_line: Seq<u8>,
}

impl View for AsciiScanner {
    type V = AsciiScanView;

    closed spec fn view(&self) -> AsciiScanView {
        AsciiScanView { tally: self.tally@, open_line: self.open_line@ }
    }
}

/// The scan after these bytes.
pub open spec fn ascii_fed(s: AsciiScanView, bytes: Seq<u8>) -> AsciiScanView {
    let read = line::read_lines(s.open_line, bytes);
    AsciiScanView { tally: with_lines(s.tally, read.lines), open_line: read.open_line }
}

/// Before anything has been read.
pub open spec fn ascii_start() -> AsciiScanView {
    AsciiScanView {
        tally: AsciiTallyView { msgs: 0, bytes: 0, sample: None },
        open_line: Seq::empty(),
    }
}

/// The lines of `a` and then those of `b`.
proof fn lemma_with_lines(t: AsciiTallyView, a: Seq<Seq<u8>>, b: Seq<Seq<u8>>)
    ensures
        with_lines(t, a + b) == with_lines(with_lines(t, a), b),
    decreases b.len(),
{
    if b.len() == 0 {
        assert(a + b =~= a);
    } else {
        lemma_with_lines(t, a, b.drop_last());
        assert((a + b).drop_last() =~= a + b.drop_last());
        assert((a + b).last() == b.last());
    }
}

/// How the stream is split across reads does not change the tally.
pub proof fn law_ascii_in_pieces(s: AsciiScanView, a: Seq<u8>, b: Seq<u8>)
    ensures
        ascii_fed(ascii_fed(s, a), b) == ascii_fed(s, a + b),
{
    line::law_lines_in_pieces(s.open_line, a, b);
    lemma_with_lines(
        s.tally,
        line::read_lines(s.open_line, a).lines,
        line::read_lines(line::read_lines(s.open_line, a).open_line, b).lines,
    );
}

/// Each line adds at most one message, and a tally never forgets.
proof fn lemma_with_lines_bounds(t: AsciiTallyView, lines: Seq<Seq<u8>>)
    requires
        t.bytes <= u64::MAX,
    ensures
        t.msgs <= with_lines(t, lines).msgs <= t.msgs + lines.len(),
        with_lines(t, lines).bytes <= u64::MAX,
    decreases lines.len(),
{
    if lines.len() > 0 {
        lemma_with_lines_bounds(t, lines.drop_last());
    }
}

/// At most one line per byte.
proof fn lemma_line_count(open_line: Seq<u8>, bytes: Seq<u8>)
    ensures
        line::read_lines(open_line, bytes).lines.len() <= bytes.len(),
    decreases bytes.len(),
{
    if bytes.len() > 0 {
        lemma_line_count(open_line, bytes.drop_last());
    }
}

impl AsciiScanner {
    /// A scan of nothing.
    pub fn new() -> (r: AsciiScanner)
        ensures
            r@ == ascii_start(),
    {
        let s = AsciiScanner {
            tally: AsciiTally { msgs: 0, bytes: 0, sample: None },
            open_line: Vec::new(),
        };
        assert(s@.open_line =~= Seq::<u8>::empty());
        s
    }

    /// What was seen so far.
    pub fn tally(&self) -> (r: &AsciiTally)
        ensures
            r@ == self@.tally,
    {
        &self.tally
    }

    /// What was seen.
    pub fn into_tally(self) -> (r: AsciiTally)
        ensures
            r@ == self@.tally,
    {
        self.tally
    }

    /// Counts one completed line that carries `c`.
    fn count(&mut self, c: String)
        requires
            old(self)@.tally.msgs < u64::MAX,
        ensures
            final(self)@.tally == with_message(old(self)@.tally, c@),
            final(self)@.open_line == old(self)@.open_line,
    {
        if is_async_line(c.as_str()) {
            let n: usize = c.as_str().as_bytes().len();
            self.tally.msgs = self.tally.msgs + 1;
            // Two more for the CRLF.
            self.tally.bytes = self.tally.bytes.saturating_add(n as u64).saturating_add(2);
            if self.tally.sample.is_none() {
                self.tally.sample = Some(c);
            }
        }
    }

    /// Scans more bytes: splits on `\n`, counts checksum-valid `$VN...` messages
    /// and keeps the first as a sample.
    pub fn feed(&mut self, bytes: &[u8])
        requires
            old(self)@.tally.msgs + bytes@.len() <= u64::MAX,
        ensures
            final(self)@ == ascii_fed(old(self)@, bytes@),
    {
        let ghost was = self@;
        let mut i: usize = 0;
        while i < bytes.len()
            invariant
                i <= bytes.len(),
                was == old(self)@,
                was.tally.msgs + bytes@.len() <= u64::MAX,
                was.tally.bytes <= u64::MAX,
                self@ == ascii_fed(was, bytes@.take(i as int)),
            decreases bytes.len() - i,
        {
            let ghost seen = bytes@.take(i as int);
            let ghost read = line::read_lines(was.open_line, seen);
            let ghost more = line::read_lines(was.open_line, bytes@.take(i + 1));
            proof {
                assert(bytes@.take(i + 1).drop_last() =~= seen);
                lemma_with_lines_bounds(was.tally, read.lines);
                lemma_line_count(was.open_line, seen);
            }
            let b: u8 = bytes[i];
            if push_byte(&mut self.open_line, b) {
                let c = candidate_of(self.open_line.as_slice());
                self.count(c);
                self.open_line.clear();
                assert(more.lines.drop_last() =~= read.lines);
            }
            i = i + 1;
        }
        assert(bytes@.take(i as int) =~= bytes@);
    }

    /// Measures ASCII async messages: takes one event and says what to do.
    pub fn measure_ascii(&mut self, event: ReadEvent) -> (r: MeasureStep)
        requires
            old(self)@.tally.msgs + transact::event_bytes(event).len() <= u64::MAX,
        ensures
            r == measure_step(event),
            final(self)@ == ascii_fed(old(self)@, transact::event_bytes(event)),
    {
        match event {
            ReadEvent::Deadline => MeasureStep::Finish,
            ReadEvent::Failed => MeasureStep::Fail,
            ReadEvent::TimedOut | ReadEvent::WouldBlock => MeasureStep::Continue,
            ReadEvent::Data(bytes) => {
                self.feed(bytes);
                MeasureStep::Continue
            },
        }
    }
}

// ---------------------------------------------------------------------------
// Binary frames
// ---------------------------------------------------------------------------
/// What was seen of the binary Common-group stream: the number of frames, the
/// bytes they took, and the mask and bytes of the first of them (the field set is
/// constant).
pub struct BinaryTally {
    pub frames: u64,
    pub bytes: u64,
    pub mask: Option<u16>,
    pub first: Option<Vec<u8>>,
}

/// A `BinaryTally` with its numbers unbounded and its bytes as a sequence.
pub struct BinaryTallyView {
    pub frames: nat,
    pub bytes: nat,
    pub mask: Option<u16>,
    pub first: Option<Seq<u8>>,
}

/// The view of optional bytes.
pub open spec fn opt_bytes(o: Option<Vec<u8>>) -> Option<Seq<u8>> {
    match o {
        Some(v) => Some(v@),
        None => None,
    }
}

impl View for BinaryTally {
    type V = BinaryTallyView;

    open spec fn view(&self) -> BinaryTallyView {
        BinaryTallyView {
            frames: self.frames as nat,
            bytes: self.bytes as nat,
            mask: self.mask,
            first: opt_bytes(self.first),
        }
    }
}

/// The tally with these frames.
pub open spec fn with_frames(t: BinaryTallyView, frames: Seq<Seq<u8>>) -> BinaryTallyView {
    let news = t.mask is None && frames.len() > 0;
    BinaryTallyView {
        frames: t.frames + frames.len(),
        bytes: t.bytes + frame::total_len(frames),
        mask: if news {
            Some(frame::le16(frames[0][2], frames[0][3]))
        } else {
            t.mask
        },
        first: if news {
            Some(frames[0])
        } else {
            t.first
        },
    }
}

/// A scan for binary frames: the tally and the bytes still undecided.
pub struct FrameScanner {
    tally: BinaryTally,
    undecided: Vec<u8>,
}

/// The view of a `FrameScanner`.
pub struct FrameScanView {
    pub tally: BinaryTallyView,
    pub undecided: Seq<u8>,
}

impl View for FrameScanner {
    type V = FrameScanView;

    closed spec fn view(&self) -> FrameScanView {
        FrameScanView { tally: self.tally@, undecided: self.undecided@ }
    }
}

/// The scan after these bytes.
pub open spec fn frames_fed(s: FrameScanView, bytes: Seq<u8>) -> FrameScanView {
    let scan = frame::scanned(s.undecided + bytes);
    FrameScanView { tally: with_frames(s.tally, scan.frames), undecided: scan.rest }
}

/// Before anything has been read.
pub open spec fn frames_start() -> FrameScanView {
    FrameScanView {
        tally: BinaryTallyView { frames: 0, bytes: 0, mask: None, first: None },
        undecided: Seq::empty(),
    }
}

/// How the stream is split across reads does not change the tally.
pub proof fn law_frames_in_pieces(s: FrameScanView, a: Seq<u8>, b: Seq<u8>)
    ensures
        frames_fed(frames_fed(s, a), b) == frames_fed(s, a + b),
{
    let fa = frame::scanned(s.undecided + a);
    let fb = frame::scanned(fa.rest + b);
    frame::law_scan_in_pieces(s.undecided + a, b);
    assert(s.undecided + a + b =~= s.undecided + (a + b));
    frame::lemma_total_len_concat(fa.frames, fb.frames);
    if fa.frames.len() > 0 {
        assert((fa.frames + fb.frames)[0] == fa.frames[0]);
    } else if fb.frames.len() > 0 {
        assert((fa.frames + fb.frames)[0] == fb.frames[0]);
    }
}

/// A list of frames takes at least a byte each.
proof fn lemma_frames_take_bytes(frames: Seq<Seq<u8>>)
    requires
        forall|i: int| 0 <= i < frames.len() ==> frame::is_frame(#[trigger] frames[i]),
    ensures
        frames.len() <= frame::total_len(frames),
    decreases frames.len(),
{
    if frames.len() > 0 {
        let t = frames.drop_last();
        assert forall|i: int| 0 <= i < t.len() implies frame::is_frame(#[trigger] t[i]) by {
            assert(t[i] == frames[i]);
        }
        assert(frame::is_frame(frames[frames.len() - 1]));
        lemma_frames_take_bytes(t);
    }
}

/// The bytes that a scan has accounted for: those of its frames and the undecided.
pub open spec fn accounted(s: FrameScanView) -> nat {
    s.tally.bytes + s.undecided.len()
}

/// Whether a scan fits together: a frame takes more than a byte, and once a frame
/// was seen, the first one and its mask are kept.
pub open spec fn frames_wf(s: FrameScanView) -> bool {
    &&& s.tally.frames <= s.tally.bytes
    &&& s.tally.frames > 0 <==> s.tally.mask is Some
    &&& s.tally.frames > 0 <==> s.tally.first is Some
    &&& s.tally.first matches Some(f) ==> frame::is_frame(f) && s.tally.mask == Some(
        frame::le16(f[2], f[3]),
    )
}

impl FrameScanner {
    /// A scan of nothing.
    pub fn new() -> (r: FrameScanner)
        ensures
            r@ == frames_start(),
    {
        let s = FrameScanner {
            tally: BinaryTally { frames: 0, bytes: 0, mask: None, first: None },
            undecided: Vec::new(),
        };
        assert(s@.undecided =~= Seq::<u8>::empty());
        s
    }

    /// Scans more bytes: pulls out CRC-valid Common frames and keeps the first for
    /// a decoded sample. What is left undecided is shorter than a frame.
    pub fn feed(&mut self, bytes: &[u8])
        requires
            frames_wf(old(self)@),
            accounted(old(self)@) + bytes@.len() <= u64::MAX,
        ensures
            final(self)@ == frames_fed(old(self)@, bytes@),
            frames_wf(final(self)@),
            accounted(final(self)@) <= accounted(old(self)@) + bytes@.len(),
            final(self)@.undecided.len() < frame::LONGEST,
    {
        let ghost was = self@;
        let mut acc = extended(self.undecided.as_slice(), bytes);
        let ghost all = acc@;
        let found = take_frames(&mut acc);
        let ghost fs = frame::byte_views(found@);
        proof {
            frame::law_scan_tail_is_short(all);
            lemma_frames_take_bytes(fs);
        }
        let mut i: usize = 0;
        while i < found.len()
            invariant
                i <= found.len(),
                fs == frame::byte_views(found@),
                forall|k: int| 0 <= k < fs.len() ==> frame::is_frame(#[trigger] fs[k]),
                self.tally@ == with_frames(was.tally, fs.take(i as int)),
                was.tally.frames + fs.len() <= u64::MAX,
                was.tally.bytes + frame::total_len(fs) <= u64::MAX,
            decreases found.len() - i,
        {
            proof {
                let a = fs.take(i as int);
                let b = fs.take(i + 1);
                assert(b.drop_last() =~= a);
                assert(fs[i as int] == found@[i as int]@);
                assert(frame::is_frame(fs[i as int]));
                assert(b[0] == fs[0]);
                assert(fs =~= b + fs.skip(i + 1));
                frame::lemma_total_len_concat(b, fs.skip(i + 1));
            }
            let f = &found[i];
            self.tally.frames = self.tally.frames + 1;
            self.tally.bytes = self.tally.bytes + f.len() as u64;
            if self.tally.mask.is_none() {
                self.tally.mask = Some(frame::read_le16(f[2], f[3]));
                self.tally.first = Some(frame::cut(f.as_slice(), 0, f.len()));
                assert(f@.subrange(0, f@.len() as int) =~= f@);
            }
            i = i + 1;
        }
        assert(fs.take(i as int) =~= fs);
        self.undecided = acc;
    }
}

// ---------------------------------------------------------------------------
// Both at once
// ---------------------------------------------------------------------------
/// What a passive bench run observed over its window.
///
/// - ASCII fields cover the `$VN...` async line stream.
/// - Binary fields cover the `0xFA` Common-group frame stream; `bin_mask` and
///   `bin_first` come from the first valid frame (the field set is constant).
/// - `total_bytes` is every byte read, both streams plus any line noise, for the
///   wire-utilization figure.
pub struct Stats {
    pub msgs: u64,
    pub ascii_bytes: u64,
    pub ascii_sample: Option<String>,
    pub frames: u64,
    pub bin_bytes: u64,
    pub bin_mask: Option<u16>,
    pub bin_first: Option<Vec<u8>>,
    pub total_bytes: u64,
}

/// The ASCII half of a passive bench's result.
pub open spec fn ascii_part(st: Stats) -> AsciiTallyView {
    AsciiTallyView {
        msgs: st.msgs as nat,
        bytes: st.ascii_bytes as nat,
        sample: match st.ascii_sample {
            Some(s) => Some(s@),
            None => None,
        },
    }
}

/// The binary half of a passive bench's result.
pub open spec fn binary_part(st: Stats) -> BinaryTallyView {
    BinaryTallyView {
        frames: st.frames as nat,
        bytes: st.bin_bytes as nat,
        mask: st.bin_mask,
        first: opt_bytes(st.bin_first),
    }
}

/// A passive bench in progress.
pub struct Scanner {
    ascii: AsciiScanner,
    binary: FrameScanner,
    total_bytes: u64,
}

/// The view of a `Scanner`.
pub struct ScanView {
    pub ascii: AsciiScanView,
    pub binary: FrameScanView,
    pub total_bytes: nat,
}

impl View for Scanner {
    type V = ScanView;

    closed spec fn view(&self) -> ScanView {
        ScanView { ascii: self.ascii@, binary: self.binary@, total_bytes: self.total_bytes as nat }
    }
}

/// Before anything has been read.
pub open spec fn scan_start() -> ScanView {
    ScanView { ascii: ascii_start(), binary: frames_start(), total_bytes: 0 }
}

/// The scan after these bytes: both views see all of them, and all are counted.
pub open spec fn scan_fed(s: ScanView, bytes: Seq<u8>) -> ScanView {
    ScanView {
        ascii: ascii_fed(s.ascii, bytes),
        binary: frames_fed(s.binary, bytes),
        total_bytes: s.total_bytes + bytes.len(),
    }
}

/// The scan after these reads.
pub open spec fn scan_fed_all(s: ScanView, reads: Seq<Seq<u8>>) -> ScanView
    decreases reads.len(),
{
    if reads.len() == 0 {
        s
    } else {
        scan_fed(scan_fed_all(s, reads.drop_last()), reads.last())
    }
}

/// The bytes of these reads, end to end.
pub open spec fn end_to_end(reads: Seq<Seq<u8>>) -> Seq<u8>
    decreases reads.len(),
{
    if reads.len() == 0 {
        Seq::empty()
    } else {
        end_to_end(reads.drop_last()) + reads.last()
    }
}

/// The numbers of a scan never exceed the bytes that were read.
pub open spec fn scan_wf(s: ScanView) -> bool {
    &&& s.ascii.tally.msgs <= s.total_bytes
    &&& frames_wf(s.binary)
    &&& accounted(s.binary) <= s.total_bytes
}

/// How the stream is split across reads does not change what is measured: frames
/// and lines may be cut anywhere.
pub proof fn law_measure_in_pieces(s: ScanView, a: Seq<u8>, b: Seq<u8>)
    ensures
        scan_fed(scan_fed(s, a), b) == scan_fed(s, a + b),
{
    law_ascii_in_pieces(s.ascii, a, b);
    law_frames_in_pieces(s.binary, a, b);
}

/// What is measured depends on the bytes of the stream alone, not on the number
/// and sizes of the reads that brought them.
pub proof fn law_measure_depends_on_bytes_alone(reads: Seq<Seq<u8>>)
    ensures
        scan_fed_all(scan_start(), reads) == scan_fed(scan_start(), end_to_end(reads)),
    decreases reads.len(),
{
    if reads.len() == 0 {
        let none = Seq::<u8>::empty();
        assert(none + none =~= none);
        assert(scan_fed(scan_start(), none) == scan_start()) by {
            assert(frame::scanned(none).rest =~= none);
            assert(with_frames(frames_start().tally, frame::scanned(none).frames)
                == frames_start().tally);
        }
    } else {
        law_measure_depends_on_bytes_alone(reads.drop_last());
        law_measure_in_pieces(scan_start(), end_to_end(reads.drop_last()), reads.last());
    }
}

/// ASCII messages on the wire, one per line, each after other bytes on its line.
pub open spec fn ascii_stream(junks: Seq<Seq<u8>>, payloads: Seq<Seq<char>>) -> Seq<u8>
    recommends
        junks.len() == payloads.len(),
    decreases payloads.len(),
{
    if payloads.len() == 0 {
        Seq::empty()
    } else {
        ascii_stream(junks.drop_last(), payloads.drop_last()) + line::wire_line(
            junks.last(),
            payloads.last(),
        )
    }
}

/// The bytes that these messages take on the wire, each with its frame (`$`, `*`
/// and two digits) and its line end.
pub open spec fn message_bytes(payloads: Seq<Seq<char>>) -> nat
    decreases payloads.len(),
{
    if payloads.len() == 0 {
        0
    } else {
        message_bytes(payloads.drop_last()) + payloads.last().len() + 6
    }
}

/// Every async message of a stream is counted with its bytes, and the first is the
/// sample.
pub proof fn law_every_message_is_counted(junks: Seq<Seq<u8>>, payloads: Seq<Seq<char>>)
    requires
        junks.len() == payloads.len(),
        forall|i: int|
            0 <= i < payloads.len() ==> line::fits_a_line(junks[i], #[trigger] payloads[i])
                && line::is_async(proto::framed(payloads[i])),
    ensures
        ({
            let s = ascii_fed(ascii_start(), ascii_stream(junks, payloads));
            &&& s.tally.msgs == payloads.len()
            &&& s.tally.bytes == held(message_bytes(payloads))
            &&& payloads.len() > 0 ==> s.tally.sample == Some(proto::framed(payloads[0]))
            &&& payloads.len() == 0 ==> s.tally.sample is None
            &&& s.open_line.len() == 0
        }),
    decreases payloads.len(),
{
    if payloads.len() > 0 {
        let js = junks.drop_last();
        let ps = payloads.drop_last();
        let before = ascii_stream(js, ps);
        let last = line::wire_line(junks.last(), payloads.last());
        assert forall|i: int| 0 <= i < ps.len() implies line::fits_a_line(
            js[i],
            #[trigger] ps[i],
        ) && line::is_async(proto::framed(ps[i])) by {
            assert(ps[i] == payloads[i] && js[i] == junks[i]);
        }
        law_every_message_is_counted(js, ps);
        law_ascii_in_pieces(ascii_start(), before, last);
        let s = ascii_fed(ascii_start(), before);
        assert(s.open_line =~= Seq::<u8>::empty());
        assert(payloads[payloads.len() - 1] == payloads.last());
        line::law_wire_line_is_one_message(junks.last(), payloads.last());
        line::lemma_framed_bytes(payloads.last());
        let read = line::read_lines(Seq::empty(), last);
        assert(read.lines.drop_last() =~= Seq::<Seq<u8>>::empty());
        assert(with_lines(s.tally, read.lines.drop_last()) == s.tally);
        assert(with_lines(s.tally, read.lines) == with_line(s.tally, read.lines[0]));
    }
}

/// Every frame of a stream is counted with its bytes, whatever stands between the
/// frames without a sync byte, and the first frame and its mask are kept.
pub proof fn law_every_frame_is_counted(gaps: Seq<Seq<u8>>, frames: Seq<Seq<u8>>)
    requires
        gaps.len() == frames.len() + 1,
        forall|i: int| 0 <= i < gaps.len() ==> frame::no_sync(#[trigger] gaps[i]),
        forall|i: int| 0 <= i < frames.len() ==> frame::is_frame(#[trigger] frames[i]),
    ensures
        ({
            let s = frames_fed(frames_start(), frame::interleaved(gaps, frames));
            &&& s.tally == with_frames(frames_start().tally, frames)
            &&& s.tally.frames == frames.len()
            &&& s.tally.bytes + frame::total_len(gaps) == frame::interleaved(gaps, frames).len()
            &&& frames.len() > 0 ==> s.tally.first == Some(frames[0]) && s.tally.mask == Some(
                (frames[0][2] + 0x100 * frames[0][3]) as u16,
            )
            &&& frames.len() == 0 ==> s.tally.first is None && s.tally.mask is None
            &&& s.undecided.len() == 0
        }),
{
    frame::law_every_frame_is_found(gaps, frames);
    frame::lemma_interleaved_len(gaps, frames);
    let all = frame::interleaved(gaps, frames);
    assert(frames_start().undecided + all =~= all);
}

impl Scanner {
    /// Whether the scan fits together.
    pub open spec fn wf(&self) -> bool {
        scan_wf(self@)
    }

    /// A scan of nothing.
    pub fn new() -> (r: Scanner)
        ensures
            r@ == scan_start(),
            r.wf(),
    {
        Scanner { ascii: AsciiScanner::new(), binary: FrameScanner::new(), total_bytes: 0 }
    }

    /// The bytes read so far.
    pub fn total_bytes(&self) -> (r: u64)
        ensures
            r == self@.total_bytes,
    {
        self.total_bytes
    }

    /// Passively scans the live stream for ASCII async lines and binary Common
    /// frames at once: takes one event and says what to do.
    pub fn measure(&mut self, event: ReadEvent) -> (r: MeasureStep)
        requires
            old(self).wf(),
            old(self)@.total_bytes + transact::event_bytes(event).len() <= u64::MAX,
        ensures
            r == measure_step(event),
            event is Data ==> final(self)@ == scan_fed(old(self)@, transact::event_bytes(event)),
            event !is Data ==> final(self)@ == old(self)@,
            final(self).wf(),
    {
        match event {
            ReadEvent::Deadline => MeasureStep::Finish,
            ReadEvent::Failed => MeasureStep::Fail,
            ReadEvent::TimedOut | ReadEvent::WouldBlock => MeasureStep::Continue,
            ReadEvent::Data(bytes) => {
                let ghost was = self.ascii@;
                proof {
                    lemma_line_count(was.open_line, bytes@);
                    lemma_with_lines_bounds(
                        was.tally,
                        line::read_lines(was.open_line, bytes@).lines,
                    );
                }
                self.total_bytes = self.total_bytes + bytes.len() as u64;
                self.ascii.feed(bytes);
                self.binary.feed(bytes);
                MeasureStep::Continue
            },
        }
    }

    /// What was observed.
    pub fn finish(self) -> (r: Stats)
        requires
            self.wf(),
        ensures
            report::reportable(r),
            ascii_part(r) == self@.ascii.tally,
            binary_part(r) == self@.binary.tally,
            r.msgs == self@.ascii.tally.msgs,
            r.ascii_bytes == self@.ascii.tally.bytes,
            transact::opt_text(r.ascii_sample) == self@.ascii.tally.sample,
            r.frames == self@.binary.tally.frames,
            r.bin_bytes == self@.binary.tally.bytes,
            r.bin_mask == self@.binary.tally.mask,
            opt_bytes(r.bin_first) == self@.binary.tally.first,
            r.total_bytes == self@.total_bytes,
    {
        proof {
            match self@.binary.tally.first {
                Some(f) => {
                    frame::lemma_frame_size(frame::le16(f[2], f[3]));
                },
                None => {},
            }
        }
        let ascii = self.ascii.tally;
        let binary = self.binary.tally;
        Stats {
            msgs: ascii.msgs,
            ascii_bytes: ascii.bytes,
            ascii_sample: ascii.sample,
            frames: binary.frames,
            bin_bytes: binary.bytes,
            bin_mask: binary.mask,
            bin_first: binary.first,
            total_bytes: self.total_bytes,
        }
    }
}

/// Whether a passive bench succeeded.
pub open spec fn bench_verdict(st: Stats) -> Result<(), Seq<char>> {
    if st.msgs == 0 && st.frames == 0 {
        Err(
            "saw no ASCII messages or binary frames — is the device streaming, and does --baud match its current rate?"@,
        )
    } else {
        Ok(())
    }
}

/// Passively measuring the device's live output comes to this: what to print, and
/// whether anything was seen.
pub fn bench(baud: u32, st: &Stats) -> (r: (Vec<report::Cell>, Result<(), String>))
    requires
        report::reportable(*st),
    ensures
        report::cells(r.0@) == report::report_cells(baud, *st),
        text::message(r.1) == bench_verdict(*st),
{
    let out = report::report(baud, st);
    if st.msgs == 0 && st.frames == 0 {
        (
            out,
            Err(
                "saw no ASCII messages or binary frames — is the device streaming, and does --baud match its current rate?".to_string(),
            ),
        )
    } else {
        (out, Ok(()))
    }
}

// ---------------------------------------------------------------------------
// Frames of a known length
// ---------------------------------------------------------------------------
/// A scan for frames of one length: their number, the first of them, and the tail
/// that is shorter than a frame.
pub struct SizedScanner {
    frame_len: usize,
    frames: u64,
    first: Option<Vec<u8>>,
    tail: Vec<u8>,
}

/// The view of a `SizedScanner`.
pub struct SizedScanView {
    pub frame_len: nat,
    pub frames: nat,
    pub first: Option<Seq<u8>>,
    pub tail: Seq<u8>,
}

impl View for SizedScanner {
    type V = SizedScanView;

    closed spec fn view(&self) -> SizedScanView {
        SizedScanView {
            frame_len: self.frame_len as nat,
            frames: self.frames as nat,
            first: opt_bytes(self.first),
            tail: self.tail@,
        }
    }
}

/// Before anything has been read.
pub open spec fn sized_start(frame_len: nat) -> SizedScanView {
    SizedScanView { frame_len, frames: 0, first: None, tail: Seq::empty() }
}

/// The scan after these bytes.
pub open spec fn sized_fed(s: SizedScanView, bytes: Seq<u8>) -> SizedScanView {
    let scan = frame::scanned_sized(s.tail + bytes, s.frame_len as int);
    SizedScanView {
        frame_len: s.frame_len,
        frames: s.frames + scan.frames.len(),
        first: match s.first {
            Some(f) => Some(f),
            None => if scan.frames.len() > 0 {
                Some(scan.frames[0])
            } else {
                None
            },
        },
        tail: scan.rest,
    }
}

/// The bytes that the counted frames took on the wire.
pub open spec fn sized_bytes(s: SizedScanView) -> nat {
    s.frames * s.frame_len
}

/// How the stream is split across reads does not change the count.
pub proof fn law_sized_frames_in_pieces(s: SizedScanView, a: Seq<u8>, b: Seq<u8>)
    requires
        s.frame_len >= 2,
    ensures
        sized_fed(sized_fed(s, a), b) == sized_fed(s, a + b),
{
    let n = s.frame_len as int;
    let fa = frame::scanned_sized(s.tail + a, n);
    let fb = frame::scanned_sized(fa.rest + b, n);
    frame::law_sized_scan_in_pieces(s.tail + a, b, n);
    assert(s.tail + a + b =~= s.tail + (a + b));
    if fa.frames.len() > 0 {
        assert((fa.frames + fb.frames)[0] == fa.frames[0]);
    } else if fb.frames.len() > 0 {
        assert((fa.frames + fb.frames)[0] == fb.frames[0]);
    }
}

impl SizedScanner {
    /// Whether the numbers of the scan fit together: a frame has at least a sync
    /// and a groups byte, and all counted bytes fit 64 bits.
    pub open spec fn wf(&self) -> bool {
        &&& self@.frame_len >= 2
        &&& sized_bytes(self@) <= u64::MAX
    }

    /// A scan of nothing for frames of `frame_len` bytes.
    pub fn new(frame_len: usize) -> (r: SizedScanner)
        requires
            frame_len >= 2,
        ensures
            r@ == sized_start(frame_len as nat),
            r.wf(),
    {
        let s = SizedScanner { frame_len, frames: 0, first: None, tail: Vec::new() };
        assert(s@.tail =~= Seq::<u8>::empty());
        assert(0 * s@.frame_len == 0) by (nonlinear_arith);
        s
    }

    /// Measures binary frames of one length: takes one event and says what to do.
    /// Counts CRC-valid frames and captures the first frame's raw bytes.
    pub fn measure_binary(&mut self, event: ReadEvent) -> (r: MeasureStep)
        requires
            old(self).wf(),
            sized_bytes(old(self)@) + old(self)@.tail.len() + transact::event_bytes(event).len() <= u64::MAX,
        ensures
            r == measure_step(event),
            event is Data ==> final(self)@ == sized_fed(old(self)@, transact::event_bytes(event)),
            event !is Data ==> final(self)@ == old(self)@,
            final(self).wf(),
    {
        match event {
            ReadEvent::Deadline => MeasureStep::Finish,
            ReadEvent::Failed => MeasureStep::Fail,
            ReadEvent::TimedOut | ReadEvent::WouldBlock => MeasureStep::Continue,
            ReadEvent::Data(bytes) => {
                let mut acc = extended(self.tail.as_slice(), bytes);
                let ghost all = acc@;
                let mut found = take_sized_frames(&mut acc, self.frame_len);
                let ghost fs = frame::byte_views(found@);
                proof {
                    let n = self.frame_len as int;
                    frame::law_sized_scan_tail_is_short(all, n);
                    let a = self.frames as int;
                    let b = fs.len() as int;
                    assert((a + b) * n == a * n + b * n) by (nonlinear_arith);
                    assert(a + b <= (a + b) * n) by (nonlinear_arith)
                        requires
                            n >= 2,
                            a >= 0,
                            b >= 0,
                    ;
                }
                self.frames = self.frames + found.len() as u64;
                if self.first.is_none() && found.len() > 0 {
                    assert(fs[0] == found@[0]@);
                    self.first = Some(found.swap_remove(0));
                }
                self.tail = acc;
                MeasureStep::Continue
            },
        }
    }

    /// The frames counted so far.
    pub fn frames(&self) -> (r: u64)
        ensures
            r == self@.frames,
    {
        self.frames
    }

    /// The bytes that the counted frames took on the wire.
    pub fn bytes(&self) -> (r: u64)
        requires
            self.wf(),
        ensures
            r == sized_bytes(self@),
    {
        self.frames * self.frame_len as u64
    }

    /// The raw bytes of the first frame.
    pub fn first(&self) -> (r: &Option<Vec<u8>>)
        ensures
            opt_bytes(*r) == self@.first,
    {
        &self.first
    }
}


// ---------------------------------------------------------------------------
// Laws
// ---------------------------------------------------------------------------
/// Whether a line carries an async message.
pub open spec fn is_async_raw(raw: Seq<u8>) -> bool {
    line::is_async(line::candidate(raw))
}

/// The messages of a tally are the lines that carry one, and no other line changes
/// it in any way. The sample is the first of them.
pub proof fn law_only_async_lines_count(t: AsciiTallyView, lines: Seq<Seq<u8>>)
    ensures
        ({
            let r = with_lines(t, lines);
            let found = lines.filter(|raw: Seq<u8>| is_async_raw(raw));
            &&& r.msgs == t.msgs + found.len()
            &&& found.len() == 0 ==> r == t
            &&& t.sample is Some ==> r.sample == t.sample
            &&& t.sample is None && found.len() > 0 ==> r.sample == Some(line::candidate(found[0]))
        }),
    decreases lines.len(),
{
    reveal(Seq::filter);
    if lines.len() > 0 {
        let keep = |raw: Seq<u8>| is_async_raw(raw);
        law_only_async_lines_count(t, lines.drop_last());
        let most = lines.drop_last().filter(keep);
        if is_async_raw(lines.last()) {
            assert(lines.filter(keep) == most.push(lines.last()));
            if most.len() > 0 {
                assert(lines.filter(keep)[0] == most[0]);
            }
        } else {
            assert(lines.filter(keep) == most);
        }
    }
}

/// An async line adds one message and its bytes with the line end that came with
/// it, as far as 64 bits hold them.
pub proof fn law_message_adds_its_bytes(t: AsciiTallyView, c: Seq<char>)
    requires
        line::is_async(c),
    ensures
        ({
            let r = with_message(t, c);
            let sum = t.bytes + utf8::encode_utf8(c).len() + 2;
            &&& r.msgs == t.msgs + 1
            &&& sum <= u64::MAX ==> r.bytes == sum
            &&& sum > u64::MAX ==> r.bytes == u64::MAX
        }),
{
}

/// New frames are counted with all their bytes, and the first one stays the first
/// with its mask.
pub proof fn law_frames_add_up(t: BinaryTallyView, frames: Seq<Seq<u8>>, f: Seq<u8>)
    requires
        t.mask is Some <==> t.first is Some,
    ensures
        with_frames(t, Seq::empty()) == t,
        ({
            let r = with_frames(t, frames.push(f));
            let before = with_frames(t, frames);
            &&& r.frames == before.frames + 1
            &&& r.bytes == before.bytes + f.len()
            &&& before.first is Some ==> r.first == before.first && r.mask == before.mask
            &&& before.first is None ==> r.first == Some(f) && r.mask == Some(
                (f[2] + 0x100 * f[3]) as u16,
            )
        }),
{
    assert(frames.push(f).drop_last() =~= frames);
    if frames.len() > 0 {
        assert(frames.push(f)[0] == frames[0]);
    }
}

/// A passive bench sees the messages and the frames of one stream, and counts every
/// byte of it.
pub proof fn law_passive_bench_sees_both(
    junks: Seq<Seq<u8>>,
    payloads: Seq<Seq<char>>,
    gaps: Seq<Seq<u8>>,
    frames: Seq<Seq<u8>>,
    s: ScanView,
    bytes: Seq<u8>,
)
    requires
        junks.len() == payloads.len(),
        forall|i: int|
            0 <= i < payloads.len() ==> line::fits_a_line(junks[i], #[trigger] payloads[i])
                && line::is_async(proto::framed(payloads[i])),
        gaps.len() == frames.len() + 1,
        forall|i: int| 0 <= i < gaps.len() ==> frame::no_sync(#[trigger] gaps[i]),
        forall|i: int| 0 <= i < frames.len() ==> frame::is_frame(#[trigger] frames[i]),
    ensures
        scan_fed(scan_start(), ascii_stream(junks, payloads)).ascii.tally.msgs == payloads.len(),
        scan_fed(scan_start(), frame::interleaved(gaps, frames)).binary.tally.frames
            == frames.len(),
        scan_fed(s, bytes).total_bytes == s.total_bytes + bytes.len(),
        scan_start().total_bytes == 0,
{
    law_every_message_is_counted(junks, payloads);
    law_every_frame_is_counted(gaps, frames);
}

/// Frames of one length laid end to end are all counted, with all their bytes, and
/// the first is kept.
pub proof fn law_every_sized_frame_is_counted(frames: Seq<Seq<u8>>, n: nat)
    requires
        n >= 2,
        forall|i: int|
            0 <= i < frames.len() ==> (#[trigger] frames[i]).len() == n && frame::is_sized_frame(
                frames[i],
            ),
    ensures
        ({
            let s = sized_fed(sized_start(n), frame::laid_out(frames));
            &&& s.frame_len == n
            &&& s.frames == frames.len()
            &&& sized_bytes(s) == frame::laid_out(frames).len()
            &&& s.tail.len() == 0
            &&& frames.len() > 0 ==> s.first == Some(frames[0])
            &&& frames.len() == 0 ==> s.first is None
        }),
{
    frame::law_every_sized_frame_is_found(frames, n as int);
    frame::lemma_laid_out_len(frames, n as int);
    assert(sized_start(n).tail + frame::laid_out(frames) =~= frame::laid_out(frames));
}

/// The first sized frame stays the first, and the count only grows.
pub proof fn law_first_sized_frame_is_kept(s: SizedScanView, bytes: Seq<u8>)
    ensures
        s.first is Some ==> sized_fed(s, bytes).first == s.first,
        s.first is None ==> (sized_fed(s, bytes).first is None <==> sized_fed(s, bytes).frames
            == s.frames),
        sized_fed(s, bytes).frames >= s.frames,
        sized_fed(s, bytes).frame_len == s.frame_len,
{
}

/// Only the deadline finishes a measurement, and only a failed read fails it.
pub proof fn law_only_the_deadline_finishes(event: ReadEvent)
    ensures
        measure_step(event) is Finish <==> event is Deadline,
        measure_step(event) is Fail <==> event is Failed,
{
}

} // verus!
