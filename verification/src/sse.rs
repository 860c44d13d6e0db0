//! Server-sent-event stream decoder. The transport delivers the response
//! body as chunks of bytes whose boundaries need not respect the wire
//! format; the decoder buffers unconsumed bytes, cuts the accumulated input
//! at each blank-line delimiter into frames, strips the fixed `data: `
//! prefix, drops keep-alive frames, stops cleanly at the `[DONE]` sentinel,
//! and hands every other payload out in arrival order. A payload that is not
//! one well-formed JSON document is fatal for the whole stream.

use vstd::prelude::*;
use vstd::slice::{slice_subrange, slice_to_vec};

verus! {

/// The newline byte; two in a row end a frame.
pub const NL: u8 = 10;

/// The bytes of the fixed frame prefix `data: `.
pub open spec fn data_prefix() -> Seq<u8> {
    seq![100u8, 97u8, 116u8, 97u8, 58u8, 32u8]
}

/// The bytes of the terminating sentinel payload `[DONE]`.
pub open spec fn done_marker() -> Seq<u8> {
    seq![91u8, 68u8, 79u8, 78u8, 69u8, 93u8]
}

/// Whether a frame delimiter (two newline bytes) starts at position `i`.
pub open spec fn is_delim_at(s: Seq<u8>, i: int) -> bool {
    0 <= i && i + 1 < s.len() && s[i] == NL && s[i + 1] == NL
}

/// Position of the first frame delimiter in `s`, if any.
pub open spec fn find_delim(s: Seq<u8>) -> Option<int>
    decreases s.len(),
{
    if s.len() < 2 {
        None
    } else if s[0] == NL && s[1] == NL {
        Some(0int)
    } else {
        match find_delim(s.drop_first()) {
            None => None,
            Some(i) => Some(i + 1),
        }
    }
}

/// `find_delim` returns the first delimiter position, and `None` exactly
/// when there is none.
pub proof fn lemma_find_delim_spec(s: Seq<u8>)
    ensures
        match find_delim(s) {
            None => forall|i: int| !is_delim_at(s, i),
            Some(i) => is_delim_at(s, i) && (forall|j: int| 0 <= j < i ==> !is_delim_at(s, j)),
        },
    decreases s.len(),
{
    if s.len() < 2 {
        assert forall|i: int| !is_delim_at(s, i) by {}
    } else if s[0] == NL && s[1] == NL {
    } else {
        let t = s.drop_first();
        lemma_find_delim_spec(t);
        assert forall|i: int| 1 <= i < s.len() implies (is_delim_at(s, i) == is_delim_at(
            t,
            i - 1,
        )) by {
            if i + 1 < s.len() {
                assert(t[i - 1] == s[i]);
                assert(t[i] == s[i + 1]);
            }
        }
        match find_delim(t) {
            None => {
                assert forall|i: int| !is_delim_at(s, i) by {
                    if 1 <= i < s.len() {
                        assert(!is_delim_at(t, i - 1));
                    }
                }
            },
            Some(i0) => {
                assert(is_delim_at(s, i0 + 1));
                assert forall|j: int| 0 <= j < i0 + 1 implies !is_delim_at(s, j) by {
                    if 1 <= j {
                        assert(!is_delim_at(t, j - 1));
                    }
                }
            },
        }
    }
}

/// A first delimiter inside `a` is also the first delimiter of `a + b`.
proof fn lemma_find_delim_concat(a: Seq<u8>, b: Seq<u8>)
    requires
        find_delim(a) is Some,
    ensures
        find_delim(a + b) == find_delim(a),
    decreases a.len(),
{
    let s = a + b;
    if a[0] == NL && a[1] == NL {
        assert(s[0] == NL && s[1] == NL);
    } else {
        lemma_find_delim_concat(a.drop_first(), b);
        assert(a.drop_first() + b =~= s.drop_first());
        assert(s[0] == a[0] && s[1] == a[1]);
    }
}

/// The complete frames of `s`: every segment that is closed off by a
/// delimiter, in order.
pub open spec fn frames_of(s: Seq<u8>) -> Seq<Seq<u8>>
    decreases s.len(),
{
    match find_delim(s) {
        None => Seq::empty(),
        Some(i) => if 0 <= i && i + 2 <= s.len() {
            seq![s.take(i)] + frames_of(s.skip(i + 2))
        } else {
            Seq::empty()
        },
    }
}

/// The unconsumed tail of `s`: what follows its last delimiter.
pub open spec fn rest_of(s: Seq<u8>) -> Seq<u8>
    decreases s.len(),
{
    match find_delim(s) {
        None => s,
        Some(i) => if 0 <= i && i + 2 <= s.len() {
            rest_of(s.skip(i + 2))
        } else {
            s
        },
    }
}

/// Splitting is compositional: the frames of `a + b` are the frames of `a`
/// followed by the frames of `a`'s unconsumed tail put before `b`, and the
/// tails agree likewise.
pub proof fn lemma_split_concat(a: Seq<u8>, b: Seq<u8>)
    ensures
        frames_of(a + b) == frames_of(a) + frames_of(rest_of(a) + b),
        rest_of(a + b) == rest_of(rest_of(a) + b),
    decreases a.len(),
{
    match find_delim(a) {
        None => {
            assert(frames_of(a) + frames_of(rest_of(a) + b) =~= frames_of(a + b)) by {
                assert(rest_of(a) == a);
                assert(frames_of(a) =~= Seq::<Seq<u8>>::empty());
            }
            assert(rest_of(a) + b =~= a + b);
        },
        Some(i) => {
            lemma_find_delim_spec(a);
            lemma_find_delim_concat(a, b);
            let s = a + b;
            assert(s.take(i) =~= a.take(i));
            assert(s.skip(i + 2) =~= a.skip(i + 2) + b);
            lemma_split_concat(a.skip(i + 2), b);
            assert(frames_of(s) =~= frames_of(a) + frames_of(rest_of(a) + b)) by {
                assert(frames_of(s) == seq![a.take(i)] + frames_of(a.skip(i + 2) + b));
                assert(frames_of(a) == seq![a.take(i)] + frames_of(a.skip(i + 2)));
                assert(rest_of(a) == rest_of(a.skip(i + 2)));
            }
            assert(rest_of(s) == rest_of(rest_of(a) + b)) by {
                assert(rest_of(a) == rest_of(a.skip(i + 2)));
            }
        },
    }
}

/// Decoder progress: still delivering events, terminated by the sentinel,
/// or aborted by a malformed payload.
#[derive(Clone, Copy, Debug, PartialEq, Eq, Structural)]
pub enum DecodeMode {
    Open,
    Done,
    Failed,
}

/// What one complete frame means on the wire.
pub enum FrameClass {
    /// No `data: ` prefix, or nothing after it: a keep-alive or comment
    /// frame, dropped without effect.
    Ignored,
    /// The `[DONE]` sentinel: the stream ends cleanly.
    Done,
    /// An event payload, to be parsed as one JSON document.
    Payload(Seq<u8>),
}

/// Classifies one complete frame.
pub open spec fn classify_frame(f: Seq<u8>) -> FrameClass {
    if f.len() < 6 || f.take(6) != data_prefix() {
        FrameClass::Ignored
    } else {
        let p = f.skip(6);
        if p.len() == 0 {
            FrameClass::Ignored
        } else if p == done_marker() {
            FrameClass::Done
        } else {
            FrameClass::Payload(p)
        }
    }
}

/// Whether a byte sequence is one well-formed JSON document, as
/// `serde_json::from_slice` decides it; the verdict depends on the bytes
/// alone.
pub uninterp spec fn json_wf(s: Seq<u8>) -> bool;

/// Relies on `serde_json::from_slice::<serde_json::Value>`: whether the
/// bytes parse as one JSON document is a function of the bytes alone, and
/// the parse never panics.
#[verifier::external_body]
fn json_payload_valid(s: &[u8]) -> (r: bool)
    ensures
        r == json_wf(s@),
{
    serde_json::from_slice::<serde_json::Value>(s).is_ok()
}

/// The outcome of processing a run of frames: the payloads delivered, and
/// the mode the decoder is left in.
pub struct ProcessResult {
    pub events: Seq<Seq<u8>>,
    pub mode: DecodeMode,
}

/// Processes complete frames in order, starting in mode `m`. Nothing is
/// delivered once the mode leaves `Open`: the sentinel closes the stream,
/// and a payload that is not well-formed JSON poisons it.
pub open spec fn process_frames(fs: Seq<Seq<u8>>, m: DecodeMode) -> ProcessResult
    decreases fs.len(),
{
    if fs.len() == 0 {
        ProcessResult { events: Seq::empty(), mode: m }
    } else {
        let f = fs[0];
        let rest = fs.drop_first();
        match m {
            DecodeMode::Open => match classify_frame(f) {
                FrameClass::Ignored => process_frames(rest, DecodeMode::Open),
                FrameClass::Done => process_frames(rest, DecodeMode::Done),
                FrameClass::Payload(p) => if json_wf(p) {
                    let r = process_frames(rest, DecodeMode::Open);
                    ProcessResult { events: seq![p] + r.events, mode: r.mode }
                } else {
                    process_frames(rest, DecodeMode::Failed)
                },
            },
            _ => process_frames(rest, m),
        }
    }
}

/// Once the mode has left `Open`, processing delivers nothing and keeps the
/// mode.
pub proof fn lemma_process_closed(fs: Seq<Seq<u8>>, m: DecodeMode)
    requires
        m != DecodeMode::Open,
    ensures
        process_frames(fs, m) == (ProcessResult { events: Seq::<Seq<u8>>::empty(), mode: m }),
    decreases fs.len(),
{
    if fs.len() > 0 {
        lemma_process_closed(fs.drop_first(), m);
    }
}

/// Processing is compositional: a run of frames may be processed in two
/// parts, carrying the mode across.
pub proof fn lemma_process_append(fs1: Seq<Seq<u8>>, fs2: Seq<Seq<u8>>, m: DecodeMode)
    ensures
        ({
            let r1 = process_frames(fs1, m);
            let r2 = process_frames(fs2, r1.mode);
            process_frames(fs1 + fs2, m) == (ProcessResult {
                events: r1.events + r2.events,
                mode: r2.mode,
            })
        }),
    decreases fs1.len(),
{
    if fs1.len() == 0 {
        assert(fs1 + fs2 =~= fs2);
        let r2 = process_frames(fs2, m);
        assert(process_frames(fs1, m).events + r2.events =~= r2.events);
    } else {
        let f = fs1[0];
        let both = fs1 + fs2;
        assert(both[0] == f);
        assert(both.drop_first() =~= fs1.drop_first() + fs2);
        match m {
            DecodeMode::Open => match classify_frame(f) {
                FrameClass::Ignored => {
                    lemma_process_append(fs1.drop_first(), fs2, DecodeMode::Open);
                },
                FrameClass::Done => {
                    lemma_process_append(fs1.drop_first(), fs2, DecodeMode::Done);
                },
                FrameClass::Payload(p) => {
                    if json_wf(p) {
                        lemma_process_append(fs1.drop_first(), fs2, DecodeMode::Open);
                        let r1 = process_frames(fs1, m);
                        let r2 = process_frames(fs2, r1.mode);
                        let rr = process_frames(fs1.drop_first() + fs2, DecodeMode::Open);
                        assert(seq![p] + rr.events =~= r1.events + r2.events);
                    } else {
                        lemma_process_append(fs1.drop_first(), fs2, DecodeMode::Failed);
                    }
                },
            },
            _ => {
                lemma_process_append(fs1.drop_first(), fs2, m);
            },
        }
    }
}

/// The total effect of handing the decoder some bytes: the payloads
/// delivered, the bytes retained, and the mode reached.
pub struct FeedEffect {
    pub events: Seq<Seq<u8>>,
    pub rest: Seq<u8>,
    pub mode: DecodeMode,
}

/// The effect of processing all complete frames of `s`, starting in mode
/// `m`, and retaining the unconsumed tail.
pub open spec fn drain_spec(s: Seq<u8>, m: DecodeMode) -> FeedEffect {
    let r = process_frames(frames_of(s), m);
    FeedEffect { events: r.events, rest: rest_of(s), mode: r.mode }
}

/// The effect of feeding `chunk` to a decoder holding `buf` in mode `m`.
pub open spec fn feed_spec(buf: Seq<u8>, m: DecodeMode, chunk: Seq<u8>) -> FeedEffect {
    drain_spec(buf + chunk, m)
}

/// Law: chunk boundaries do not matter. Feeding two chunks one after the
/// other delivers the same payloads and leaves the decoder in the same
/// state as feeding their concatenation at once, wherever the boundary
/// falls — in particular in the middle of a frame.
pub proof fn lemma_chunk_boundary_independence(
    buf: Seq<u8>,
    m: DecodeMode,
    c1: Seq<u8>,
    c2: Seq<u8>,
)
    ensures
        ({
            let once = feed_spec(buf, m, c1 + c2);
            let first = feed_spec(buf, m, c1);
            let second = feed_spec(first.rest, first.mode, c2);
            once.events == first.events + second.events && once.rest == second.rest && once.mode
                == second.mode
        }),
{
    let a = buf + c1;
    assert(buf + (c1 + c2) =~= a + c2);
    lemma_split_concat(a, c2);
    lemma_process_append(frames_of(a), frames_of(rest_of(a) + c2), m);
}

/// Law: a stream whose frames end with the `[DONE]` sentinel delivers no
/// payload for that final frame, and the decoder terminates cleanly in the
/// `Done` mode rather than failing.
pub proof fn lemma_done_frame_terminates(fs: Seq<Seq<u8>>, f: Seq<u8>)
    requires
        classify_frame(f) == FrameClass::Done,
        process_frames(fs, DecodeMode::Open).mode == DecodeMode::Open,
    ensures
        ({
            let r = process_frames(fs + seq![f], DecodeMode::Open);
            r.events == process_frames(fs, DecodeMode::Open).events && r.mode == DecodeMode::Done
        }),
{
    lemma_process_append(fs, seq![f], DecodeMode::Open);
    let last = process_frames(seq![f], DecodeMode::Open);
    let e: Seq<Seq<u8>> = Seq::empty();
    assert(seq![f].len() == 1);
    assert(seq![f][0] == f);
    assert(seq![f].drop_first() =~= e);
    assert(last == process_frames(e, DecodeMode::Done));
    assert(last.events =~= e);
    let r1 = process_frames(fs, DecodeMode::Open);
    assert(r1.events + last.events =~= r1.events);
}

/// What one complete frame asks the decoder to do, in executable form.
enum FrameEval {
    Ignored,
    Done,
    Payload(Vec<u8>),
}

/// Classifies one complete frame, executably.
fn classify_frame_exec(f: &Vec<u8>) -> (c: FrameEval)
    ensures
        match c {
            FrameEval::Ignored => classify_frame(f@) == FrameClass::Ignored,
            FrameEval::Done => classify_frame(f@) == FrameClass::Done,
            FrameEval::Payload(p) => classify_frame(f@) == FrameClass::Payload(p@),
        },
{
    if f.len() < 6 {
        return FrameEval::Ignored;
    }
    if !(f[0] == 100 && f[1] == 97 && f[2] == 116 && f[3] == 97 && f[4] == 58 && f[5] == 32) {
        proof {
            assert(f@.take(6).len() == 6);
            assert(f@.take(6) != data_prefix()) by {
                if f@.take(6) == data_prefix() {
                    assert(f@[0] == data_prefix()[0] && f@[1] == data_prefix()[1] && f@[2]
                        == data_prefix()[2] && f@[3] == data_prefix()[3] && f@[4]
                        == data_prefix()[4] && f@[5] == data_prefix()[5]) by {
                        assert(forall|k: int| 0 <= k < 6 ==> f@.take(6)[k] == f@[k]);
                    }
                }
            }
        }
        return FrameEval::Ignored;
    }
    proof {
        assert(f@.take(6) =~= data_prefix());
    }
    let payload_slice = slice_subrange(f.as_slice(), 6, f.len());
    let payload = slice_to_vec(payload_slice);
    proof {
        assert(payload@ =~= f@.skip(6));
    }
    if payload.len() == 0 {
        return FrameEval::Ignored;
    }
    if payload.len() == 6 && payload[0] == 91 && payload[1] == 68 && payload[2] == 79
        && payload[3] == 78 && payload[4] == 69 && payload[5] == 93 {
        proof {
            assert(payload@ =~= done_marker());
        }
        return FrameEval::Done;
    }
    proof {
        assert(payload@ != done_marker()) by {
            if payload@ == done_marker() {
                assert(payload@.len() == 6);
                assert(payload@[0] == done_marker()[0] && payload@[1] == done_marker()[1]
                    && payload@[2] == done_marker()[2] && payload@[3] == done_marker()[3]
                    && payload@[4] == done_marker()[4] && payload@[5] == done_marker()[5]);
            }
        }
    }
    FrameEval::Payload(payload)
}

/// Finds the first frame delimiter in `v`, executably.
fn find_delim_exec(v: &Vec<u8>) -> (r: Option<usize>)
    ensures
        match r {
            Some(i) => find_delim(v@) == Some(i as int),
            None => find_delim(v@) is None,
        },
{
    proof {
        lemma_find_delim_spec(v@);
    }
    let n = v.len();
    if n < 2 {
        return None;
    }
    let mut j: usize = 0;
    while j < n - 1
        invariant
            n == v.len(),
            2 <= n,
            j <= n,
            forall|t: int| 0 <= t < j ==> !is_delim_at(v@, t),
        decreases n - j,
    {
        if v[j] == NL && v[j + 1] == NL {
            proof {
                lemma_find_delim_spec(v@);
                assert(is_delim_at(v@, j as int));
                match find_delim(v@) {
                    None => {
                        assert(false);
                    },
                    Some(i0) => {
                        if i0 < j {
                            assert(is_delim_at(v@, i0));
                            assert(false);
                        }
                        if i0 > j {
                            assert(!is_delim_at(v@, j as int));
                            assert(false);
                        }
                    },
                }
            }
            return Some(j);
        }
        j = j + 1;
    }
    proof {
        lemma_find_delim_spec(v@);
        match find_delim(v@) {
            Some(i0) => {
                assert(is_delim_at(v@, i0));
                assert(i0 < j);
                assert(false);
            },
            None => {},
        }
    }
    None
}

/// Incremental stream decoder: retains the bytes after the last complete
/// frame, and the mode the stream has reached.
pub struct SseDecoder {
    /// Bytes received but not yet closed off by a frame delimiter.
    pub buf: Vec<u8>,
    /// Whether the stream is still delivering, ended cleanly, or failed.
    pub mode: DecodeMode,
}

impl SseDecoder {
    /// A fresh decoder: nothing buffered, stream open.
    pub fn new() -> (d: SseDecoder)
        ensures
            d.buf@ == Seq::<u8>::empty(),
            d.mode == DecodeMode::Open,
    {
        SseDecoder { buf: Vec::new(), mode: DecodeMode::Open }
    }

    /// Whether the stream ended cleanly with the sentinel.
    pub fn is_done(&self) -> (r: bool)
        ensures
            r == (self.mode == DecodeMode::Done),
    {
        self.mode == DecodeMode::Done
    }

    /// Whether the stream was poisoned by a malformed payload.
    pub fn is_failed(&self) -> (r: bool)
        ensures
            r == (self.mode == DecodeMode::Failed),
    {
        self.mode == DecodeMode::Failed
    }

    /// Feeds one chunk of bytes and returns the event payloads it completes,
    /// in arrival order. The returned payloads, the retained bytes and the
    /// new mode are exactly what `feed_spec` states for the bytes seen.
    pub fn feed(&mut self, chunk: &[u8]) -> (events: Vec<Vec<u8>>)
        ensures
            ({
                let eff = feed_spec(old(self).buf@, old(self).mode, chunk@);
                final(self).buf@ == eff.rest && final(self).mode == eff.mode
                    && events.deep_view() == eff.events
            }),
    {
        let ghost s0 = self.buf@ + chunk@;
        let ghost m0 = self.mode;
        let ghost buf_in = self.buf@;
        let mut k: usize = 0;
        while k < chunk.len()
            invariant
                k <= chunk.len(),
                buf_in == old(self).buf@,
                s0 == buf_in + chunk@,
                m0 == old(self).mode,
                self.buf@ == buf_in + chunk@.take(k as int),
                self.mode == m0,
            decreases chunk.len() - k,
        {
            self.buf.push(chunk[k]);
            proof {
                assert(buf_in + chunk@.take(k as int) + seq![chunk@[k as int]] =~= buf_in
                    + chunk@.take(k + 1));
            }
            k = k + 1;
        }
        proof {
            assert(self.buf@ =~= s0);
        }
        let mut events: Vec<Vec<u8>> = Vec::new();
        proof {
            assert(events.deep_view() =~= Seq::<Seq<u8>>::empty());
            assert(events.deep_view() + drain_spec(self.buf@, self.mode).events =~= drain_spec(
                self.buf@,
                self.mode,
            ).events);
        }
        loop
            invariant
                s0 == old(self).buf@ + chunk@,
                m0 == old(self).mode,
                drain_spec(s0, m0).events == events.deep_view() + drain_spec(
                    self.buf@,
                    self.mode,
                ).events,
                drain_spec(s0, m0).rest == drain_spec(self.buf@, self.mode).rest,
                drain_spec(s0, m0).mode == drain_spec(self.buf@, self.mode).mode,
            decreases self.buf.len(),
        {
            let found = find_delim_exec(&self.buf);
            match found {
                None => {
                    proof {
                        assert(frames_of(self.buf@) =~= Seq::<Seq<u8>>::empty());
                        assert(drain_spec(self.buf@, self.mode).events =~= Seq::<Seq<u8>>::empty());
                        assert(events.deep_view() + drain_spec(self.buf@, self.mode).events
                            =~= events.deep_view());
                        assert(rest_of(self.buf@) == self.buf@);
                        assert(drain_spec(self.buf@, self.mode).mode == self.mode);
                    }
                    return events;
                },
                Some(i) => {
                    let ghost prev = self.buf@;
                    let ghost prev_mode = self.mode;
                    proof {
                        lemma_find_delim_spec(prev);
                    }
                    let frame_slice = slice_subrange(self.buf.as_slice(), 0, i);
                    let frame = slice_to_vec(frame_slice);
                    let tail_slice = slice_subrange(self.buf.as_slice(), i + 2, self.buf.len());
                    let tail = slice_to_vec(tail_slice);
                    self.buf = tail;
                    proof {
                        assert(frame@ =~= prev.take(i as int));
                        assert(self.buf@ =~= prev.skip(i + 2));
                        assert(frames_of(prev) == seq![frame@] + frames_of(self.buf@));
                        assert(rest_of(prev) == rest_of(self.buf@));
                    }
                    let ghost fs_rest = frames_of(self.buf@);
                    if self.mode == DecodeMode::Open {
                        let eval = classify_frame_exec(&frame);
                        proof {
                            assert(frames_of(prev)[0] == frame@);
                            assert(frames_of(prev).drop_first() =~= fs_rest);
                        }
                        match eval {
                            FrameEval::Ignored => {
                                proof {
                                    assert(process_frames(frames_of(prev), prev_mode)
                                        == process_frames(fs_rest, DecodeMode::Open));
                                }
                            },
                            FrameEval::Done => {
                                self.mode = DecodeMode::Done;
                                proof {
                                    assert(process_frames(frames_of(prev), prev_mode)
                                        == process_frames(fs_rest, DecodeMode::Done));
                                }
                            },
                            FrameEval::Payload(p) => {
                                let ok = json_payload_valid(p.as_slice());
                                if ok {
                                    let ghost evs_before = events.deep_view();
                                    let ghost evq = events@;
                                    let ghost pv = p@;
                                    let ghost pdv = p.deep_view();
                                    events.push(p);
                                    proof {
                                        let r = process_frames(fs_rest, DecodeMode::Open);
                                        assert(process_frames(frames_of(prev), prev_mode)
                                            == (ProcessResult {
                                            events: seq![pv] + r.events,
                                            mode: r.mode,
                                        }));
                                        assert(pdv =~= pv);
                                        assert forall|t: int|
                                            0 <= t < events@.len() implies #[trigger] events.deep_view()[t]
                                            == (evs_before + seq![pv])[t] by {
                                            if t < evq.len() {
                                                assert(events@[t] == evq[t]);
                                                assert(evs_before[t] == evq[t].deep_view());
                                            } else {
                                                assert(events.deep_view()[t] == pdv);
                                            }
                                        }
                                        assert(events.deep_view() =~= evs_before + seq![pv]);
                                        assert(evs_before + (seq![pv] + r.events) =~= (evs_before
                                            + seq![pv]) + r.events);
                                    }
                                } else {
                                    self.mode = DecodeMode::Failed;
                                    proof {
                                        assert(process_frames(frames_of(prev), prev_mode)
                                            == process_frames(fs_rest, DecodeMode::Failed));
                                    }
                                }
                            },
                        }
                    } else {
                        proof {
                            lemma_process_closed(frames_of(prev), prev_mode);
                            lemma_process_closed(fs_rest, prev_mode);
                        }
                    }
                },
            }
        }
    }
}

} // verus!
