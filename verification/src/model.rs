//! Mathematical model of the decoder.
//!
//! [`DecoderModel`] is the abstract state of a decoder; [`decode_step`] says
//! exactly what one `decode` call returns, consumes and leaves behind;
//! [`drain`] is the event sequence that repeated calls produce until the
//! first call that yields no event. The chunk-boundary-invariance lemmas at
//! the end state that this event sequence does not depend on how the input
//! is split into chunks.

use vstd::prelude::*;
use crate::event::{EspStream, EventModel, is_control_byte, stream_of_byte};

verus! {

/// The text that lossy UTF-8 decoding yields for a byte sequence: the name
/// of `String::from_utf8_lossy`'s result (invalid byte sequences become
/// replacement characters; the result depends on the bytes alone).
pub uninterp spec fn lossy_text_of(bytes: Seq<u8>) -> Seq<char>;

/// Abstract state of a decoder: the bound on the internal line buffer, the
/// bytes staged for the line being assembled, the current stream tag, and
/// the at-most-one queued event.
#[verifier::ext_equal]
pub struct DecoderModel {
    /// Upper bound on `buf`'s length: bytes beyond it are dropped.
    pub max: nat,
    /// Bytes accumulated for the line currently being assembled.
    pub buf: Seq<u8>,
    /// The tag most recently reported by a `Stream` event. The update is
    /// deferred: a queued `Stream` event changes it only when dequeued.
    pub tag: EspStream,
    /// At most one queued event, used to emit the `Stream` event detected
    /// while a non-empty line still needed flushing.
    pub pending: Option<EventModel>,
}

impl DecoderModel {
    /// The state of a freshly created decoder.
    pub open spec fn initial(max: nat) -> DecoderModel {
        DecoderModel { max, buf: Seq::empty(), tag: EspStream::Unknown, pending: Option::None }
    }

    /// Well-formedness: the staged line respects the bound, and only a
    /// `Stream` event is ever queued.
    pub open spec fn wf(self) -> bool {
        &&& self.buf.len() <= self.max
        &&& match self.pending {
            Option::Some(e) => e is Stream,
            Option::None => true,
        }
    }
}

/// Appends `b` to the staged line if there is room, and drops it otherwise
/// (the bounded-memory truncation policy).
pub open spec fn push_if_room(buf: Seq<u8>, b: u8, max: nat) -> Seq<u8> {
    if buf.len() < max {
        buf.push(b)
    } else {
        buf
    }
}

/// What one forward scan of the available bytes finds.
#[verifier::ext_equal]
pub enum ScanOutcome {
    /// The input was exhausted without completing an event; `staged` is the
    /// new internal buffer. All input bytes were consumed.
    More { staged: Seq<u8> },
    /// A newline completed the non-empty line `content`; `rest` is the input
    /// left unconsumed after the newline.
    Line { content: Seq<u8>, rest: Seq<u8> },
    /// A control byte arrived with nothing staged: the stream changes to
    /// `tag` at once.
    Tag { tag: EspStream, rest: Seq<u8> },
    /// A control byte arrived while `content` was staged: the line is
    /// flushed first and the stream change is queued.
    LineTag { content: Seq<u8>, tag: EspStream, rest: Seq<u8> },
}

/// Scans `input` from the front with `buf` already staged: ordinary bytes
/// are staged (up to `max`), an empty line is suppressed, a newline after
/// staged bytes completes a line, and a control byte switches streams.
pub open spec fn scan(buf: Seq<u8>, input: Seq<u8>, max: nat) -> ScanOutcome
    decreases input.len(),
{
    if input.len() == 0 {
        ScanOutcome::More { staged: buf }
    } else {
        let b = input[0];
        let rest = input.skip(1);
        if b == 0x0Au8 {
            if buf.len() > 0 {
                ScanOutcome::Line { content: buf, rest }
            } else {
                scan(buf, rest, max)
            }
        } else if is_control_byte(b) {
            if buf.len() > 0 {
                ScanOutcome::LineTag { content: buf, tag: stream_of_byte(b), rest }
            } else {
                ScanOutcome::Tag { tag: stream_of_byte(b), rest }
            }
        } else {
            scan(push_if_room(buf, b, max), rest, max)
        }
    }
}

/// What one `decode` call does: the state afterwards, the input bytes left
/// unconsumed, and the event returned (if any).
#[verifier::ext_equal]
pub struct DecodeStep {
    pub state: DecoderModel,
    pub rest: Seq<u8>,
    pub event: Option<EventModel>,
}

/// One `decode` call on state `m` with `input` available: a queued event is
/// returned first (consuming nothing, and updating the current tag — the
/// deferred-update design); otherwise the input is scanned. When no event
/// completes, all input is consumed into the staged line.
pub open spec fn decode_step(m: DecoderModel, input: Seq<u8>) -> DecodeStep {
    match m.pending {
        Option::Some(e) => DecodeStep {
            state: DecoderModel {
                max: m.max,
                buf: m.buf,
                tag: match e {
                    EventModel::Stream(t) => t,
                    EventModel::Line(_) => m.tag,
                },
                pending: Option::None,
            },
            rest: input,
            event: Option::Some(e),
        },
        Option::None => match scan(m.buf, input, m.max) {
            ScanOutcome::More { staged } => DecodeStep {
                state: DecoderModel { max: m.max, buf: staged, tag: m.tag, pending: Option::None },
                rest: Seq::empty(),
                event: Option::None,
            },
            ScanOutcome::Line { content, rest } => DecodeStep {
                state: DecoderModel {
                    max: m.max,
                    buf: Seq::empty(),
                    tag: m.tag,
                    pending: Option::None,
                },
                rest,
                event: Option::Some(EventModel::Line(lossy_text_of(content))),
            },
            ScanOutcome::Tag { tag, rest } => DecodeStep {
                state: DecoderModel {
                    max: m.max,
                    buf: Seq::empty(),
                    tag,
                    pending: Option::None,
                },
                rest,
                event: Option::Some(EventModel::Stream(tag)),
            },
            ScanOutcome::LineTag { content, tag, rest } => DecodeStep {
                state: DecoderModel {
                    max: m.max,
                    buf: Seq::empty(),
                    tag: m.tag,
                    pending: Option::Some(EventModel::Stream(tag)),
                },
                rest,
                event: Option::Some(EventModel::Line(lossy_text_of(content))),
            },
        },
    }
}

/// 1 if an event is queued, else 0; the second component of `drain`'s
/// termination measure.
pub open spec fn pending_count(m: DecoderModel) -> nat {
    if m.pending is Some {
        1nat
    } else {
        0nat
    }
}

/// The final state and the sequence of events that repeated `decode` calls
/// produce from state `m` with `input` newly available, stopping at the
/// first call that yields no event (at which point all input is consumed).
pub open spec fn drain(m: DecoderModel, input: Seq<u8>) -> (DecoderModel, Seq<EventModel>)
    decreases input.len(), pending_count(m),
    via drain_decreases
{
    let step = decode_step(m, input);
    match step.event {
        Option::None => (step.state, Seq::empty()),
        Option::Some(e) => {
            let r = drain(step.state, step.rest);
            (r.0, seq![e] + r.1)
        },
    }
}

#[via_fn]
proof fn drain_decreases(m: DecoderModel, input: Seq<u8>) {
    let step = decode_step(m, input);
    if step.event is Some {
        if m.pending is None {
            lemma_scan_progress(m.buf, input, m.max);
        }
    }
}

/// A scan that completes an event consumes at least one byte, and a scan
/// that completes no event keeps the staged line within the bound it
/// started within.
proof fn lemma_scan_progress(buf: Seq<u8>, input: Seq<u8>, max: nat)
    ensures
        match scan(buf, input, max) {
            ScanOutcome::More { staged } => buf.len() <= max ==> staged.len() <= max,
            ScanOutcome::Line { content, rest } => rest.len() < input.len(),
            ScanOutcome::Tag { tag, rest } => rest.len() < input.len(),
            ScanOutcome::LineTag { content, tag, rest } => rest.len() < input.len(),
        },
    decreases input.len(),
{
    if input.len() == 0 {
    } else {
        let b = input[0];
        let rest = input.skip(1);
        if b == 0x0Au8 {
            if buf.len() == 0 {
                lemma_scan_progress(buf, rest, max);
            }
        } else if !is_control_byte(b) {
            lemma_scan_progress(push_if_room(buf, b, max), rest, max);
        }
    }
}

/// One `decode` call on a well-formed state leaves a well-formed state.
pub proof fn lemma_decode_step_wf(m: DecoderModel, input: Seq<u8>)
    requires
        m.wf(),
    ensures
        decode_step(m, input).state.wf(),
{
    if m.pending is None {
        lemma_scan_progress(m.buf, input, m.max);
    }
}

/// With no queued event and no input, `decode` yields no event and leaves
/// the state unchanged. (With an event queued, `decode` returns it even on
/// empty input.)
pub proof fn lemma_decode_step_empty(m: DecoderModel)
    requires
        m.pending is None,
    ensures
        decode_step(m, Seq::empty()).event is None,
        decode_step(m, Seq::empty()).state == m,
{
    assert(decode_step(m, Seq::empty()).state =~= m);
}

/// Scanning `a + b` follows the scan of `a` exactly: if `a` is exhausted
/// without an event, the scan continues into `b` with what `a` staged; if
/// `a` completes an event, the same event completes with `b` appended to
/// the unconsumed rest.
proof fn lemma_scan_append(buf: Seq<u8>, a: Seq<u8>, b: Seq<u8>, max: nat)
    ensures
        match scan(buf, a, max) {
            ScanOutcome::More { staged } => scan(buf, a + b, max) == scan(staged, b, max),
            ScanOutcome::Line { content, rest } => scan(buf, a + b, max) == (ScanOutcome::Line {
                content,
                rest: rest + b,
            }),
            ScanOutcome::Tag { tag, rest } => scan(buf, a + b, max) == (ScanOutcome::Tag {
                tag,
                rest: rest + b,
            }),
            ScanOutcome::LineTag { content, tag, rest } => scan(buf, a + b, max)
                == (ScanOutcome::LineTag { content, tag, rest: rest + b }),
        },
    decreases a.len(),
{
    if a.len() == 0 {
        assert(a + b =~= b);
    } else {
        let x = a[0];
        let rest = a.skip(1);
        assert((a + b)[0] == x);
        assert((a + b).skip(1) =~= rest + b);
        if x == 0x0Au8 {
            if buf.len() == 0 {
                lemma_scan_append(buf, rest, b, max);
            }
        } else if !is_control_byte(x) {
            lemma_scan_append(push_if_room(buf, x, max), rest, b, max);
        }
    }
}

/// Chunk-boundary invariance, pairwise form: draining `a + b` at once
/// produces exactly the events of draining `a` and then draining `b` from
/// the state `a` left behind, and it leaves the same state.
pub proof fn lemma_chunk_boundary_invariance(m: DecoderModel, a: Seq<u8>, b: Seq<u8>)
    ensures
        drain(m, a + b).0 == drain(drain(m, a).0, b).0,
        drain(m, a + b).1 == drain(m, a).1 + drain(drain(m, a).0, b).1,
    decreases a.len(), pending_count(m),
{
    match m.pending {
        Option::Some(e) => {
            let s2 = decode_step(m, a).state;
            lemma_chunk_boundary_invariance(s2, a, b);
            assert(seq![e] + (drain(s2, a).1 + drain(drain(s2, a).0, b).1) =~= (seq![e] + drain(
                s2,
                a,
            ).1) + drain(drain(s2, a).0, b).1);
        },
        Option::None => {
            lemma_scan_append(m.buf, a, b, m.max);
            lemma_scan_progress(m.buf, a, m.max);
            match scan(m.buf, a, m.max) {
                ScanOutcome::More { staged } => {
                    let ma = drain(m, a).0;
                    assert(decode_step(m, a + b) =~= decode_step(ma, b));
                    assert(drain(m, a).1 + drain(ma, b).1 =~= drain(ma, b).1);
                },
                ScanOutcome::Line { content, rest } => {
                    let s2 = decode_step(m, a).state;
                    let e = EventModel::Line(lossy_text_of(content));
                    lemma_chunk_boundary_invariance(s2, rest, b);
                    assert(seq![e] + (drain(s2, rest).1 + drain(drain(s2, rest).0, b).1) =~= (seq![e]
                        + drain(s2, rest).1) + drain(drain(s2, rest).0, b).1);
                },
                ScanOutcome::Tag { tag, rest } => {
                    let s2 = decode_step(m, a).state;
                    let e = EventModel::Stream(tag);
                    lemma_chunk_boundary_invariance(s2, rest, b);
                    assert(seq![e] + (drain(s2, rest).1 + drain(drain(s2, rest).0, b).1) =~= (seq![e]
                        + drain(s2, rest).1) + drain(drain(s2, rest).0, b).1);
                },
                ScanOutcome::LineTag { content, tag, rest } => {
                    let s2 = decode_step(m, a).state;
                    let e = EventModel::Line(lossy_text_of(content));
                    lemma_chunk_boundary_invariance(s2, rest, b);
                    assert(seq![e] + (drain(s2, rest).1 + drain(drain(s2, rest).0, b).1) =~= (seq![e]
                        + drain(s2, rest).1) + drain(drain(s2, rest).0, b).1);
                },
            }
        },
    }
}

/// After a drain (a run of `decode` calls up to the first that yields no
/// event), no event is left queued.
proof fn lemma_drain_pending_none(m: DecoderModel, input: Seq<u8>)
    ensures
        drain(m, input).0.pending is None,
    decreases input.len(), pending_count(m),
{
    let step = decode_step(m, input);
    if step.event is Some {
        if m.pending is None {
            lemma_scan_progress(m.buf, input, m.max);
        }
        lemma_drain_pending_none(step.state, step.rest);
    }
}

/// The final state and events of feeding `chunks` one at a time, draining
/// the decoder after each chunk.
pub open spec fn drain_chunks(m: DecoderModel, chunks: Seq<Seq<u8>>) -> (
    DecoderModel,
    Seq<EventModel>,
)
    decreases chunks.len(),
{
    if chunks.len() == 0 {
        (m, Seq::<EventModel>::empty())
    } else {
        let first = drain(m, chunks[0]);
        let rest = drain_chunks(first.0, chunks.skip(1));
        (rest.0, first.1 + rest.1)
    }
}

/// Chunk-boundary invariance, for any set of boundaries: feeding a byte
/// sequence in one call produces exactly the event sequence of feeding it
/// split into any chunks across multiple calls, and leaves the same state.
/// (The decoder starts a chunk with no event queued: a drain never leaves
/// one behind.)
pub proof fn lemma_chunking_invariance(m: DecoderModel, chunks: Seq<Seq<u8>>)
    requires
        m.pending is None,
    ensures
        drain(m, chunks.flatten()).0 == drain_chunks(m, chunks).0,
        drain(m, chunks.flatten()).1 == drain_chunks(m, chunks).1,
    decreases chunks.len(),
{
    if chunks.len() == 0 {
        lemma_decode_step_empty(m);
    } else {
        let first = drain(m, chunks[0]);
        lemma_chunk_boundary_invariance(m, chunks[0], chunks.skip(1).flatten());
        lemma_drain_pending_none(m, chunks[0]);
        lemma_chunking_invariance(first.0, chunks.skip(1));
        assert(chunks.flatten() == chunks[0] + chunks.skip(1).flatten());
    }
}

} // verus!

