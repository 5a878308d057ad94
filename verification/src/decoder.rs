//! The incremental decoder: turns an arbitrarily fragmented inbound byte
//! stream into discrete events, one event per successful `decode` call.
//!
//! The exact behaviour of one call is the model function
//! [`crate::model::decode_step`]; the decoder's contract ties every call to
//! it.

use vstd::prelude::*;
use crate::error::EspError;
use crate::event::{EspEvent, EspStream, opt_event_view};
use crate::model::{DecoderModel, decode_step, lossy_text_of, scan, ScanOutcome};

verus! {

/// `bytes::BytesMut`, the caller-owned growable byte buffer that the
/// transport appends received bytes to and `decode` consumes from. Opaque to
/// the verifier; [`bytes_contents`] names the bytes it holds.
#[verifier::external_type_specification]
#[verifier::external_body]
pub struct ExBytesMut(bytes::BytesMut);

/// The sequence of bytes that a `BytesMut` buffer holds.
pub uninterp spec fn bytes_contents(b: bytes::BytesMut) -> Seq<u8>;

/// Relies on BytesMut::len: the number of bytes the buffer holds.
#[verifier::external_body]
fn bytes_len(b: &bytes::BytesMut) -> (n: usize)
    ensures
        n == bytes_contents(*b).len(),
{
    b.len()
}

/// Relies on BytesMut's `Deref` to `[u8]` and slice indexing: the byte at
/// index `i`.
#[verifier::external_body]
fn bytes_at(b: &bytes::BytesMut, i: usize) -> (x: u8)
    requires
        i < bytes_contents(*b).len(),
    ensures
        x == bytes_contents(*b)[i as int],
{
    b[i]
}

/// Relies on BytesMut::split_to: afterwards `b` holds exactly the bytes from
/// index `at` on; the split-off prefix is dropped here.
#[verifier::external_body]
fn bytes_consume(b: &mut bytes::BytesMut, at: usize)
    requires
        at <= bytes_contents(*old(b)).len(),
    ensures
        bytes_contents(*final(b)) == bytes_contents(*old(b)).skip(at as int),
{
    let _ = b.split_to(at);
}

/// Relies on String::from_utf8_lossy: the decoded text is a function of the
/// bytes alone, named [`lossy_text_of`]; per its documentation the
/// conversion is exact when the bytes are valid UTF-8 (invalid sequences are
/// replaced with the replacement character).
#[verifier::external_body]
fn utf8_lossy(bytes: &Vec<u8>) -> (r: String)
    ensures
        r@ == lossy_text_of(bytes@),
        vstd::utf8::valid_utf8(bytes@) ==> r@ == vstd::utf8::decode_utf8(bytes@),
{
    String::from_utf8_lossy(bytes.as_slice()).to_string()
}

/// The incremental ESP protocol decoder: one instance per connection,
/// mutated on every [`decode`](EspDecoder::decode) call. Its abstract state
/// is a [`DecoderModel`].
pub struct EspDecoder {
    max_buffer_length: usize,
    buffer: Vec<u8>,
    current_stream: EspStream,
    pending_event: Option<EspEvent>,
}

impl View for EspDecoder {
    type V = DecoderModel;

    closed spec fn view(&self) -> DecoderModel {
        DecoderModel {
            max: self.max_buffer_length as nat,
            buf: self.buffer@,
            tag: self.current_stream,
            pending: opt_event_view(self.pending_event),
        }
    }
}

impl EspDecoder {
    /// A new decoder: nothing staged, no queued event, and stream tag
    /// `Unknown` until the server announces one. At most
    /// `max_buffer_length` bytes are ever staged for one line; bytes beyond
    /// that are dropped.
    pub fn new(max_buffer_length: usize) -> (d: EspDecoder)
        ensures
            d@ == DecoderModel::initial(max_buffer_length as nat),
    {
        let d = EspDecoder {
            max_buffer_length,
            buffer: Vec::new(),
            current_stream: EspStream::Unknown,
            pending_event: Option::None,
        };
        proof {
            assert(d@ =~= DecoderModel::initial(max_buffer_length as nat));
        }
        d
    }

    /// The tag most recently reported by a `Stream` event. The update is
    /// deferred: while a `Stream` event is queued but not yet returned, this
    /// still reports the previous tag.
    pub fn get_current_stream(&mut self) -> (s: EspStream)
        ensures
            *final(self) == *old(self),
            s == old(self)@.tag,
    {
        self.current_stream
    }

    /// If any, returns the next event, composed from the internal state and
    /// the bytes in `src`; otherwise `Ok(None)` when the available bytes do
    /// not yet complete an event.
    ///
    /// Exactly one call of [`decode_step`] on the decoder's model and
    /// `src`'s bytes: at most one event per call, a prefix of `src` is
    /// consumed (all of it when no event completes), unconsumed bytes stay
    /// in `src` for the next call, and the call never fails. The `Err` side
    /// of the result exists only for the transport collaborators around the
    /// codec.
    pub fn decode(&mut self, src: &mut bytes::BytesMut) -> (r: Result<
        Option<EspEvent>,
        EspError,
    >)
        ensures
            ({
                let step = decode_step(old(self)@, bytes_contents(*old(src)));
                &&& final(self)@ == step.state
                &&& bytes_contents(*final(src)) == step.rest
                &&& r matches Ok(ev) && opt_event_view(ev) == step.event
            }),
    {
        let ghost m0 = self@;
        let ghost input = bytes_contents(*src);

        let pending = self.pending_event.take();
        match pending {
            Option::Some(event) => {
                if let EspEvent::Stream(s) = &event {
                    self.current_stream = *s;
                }
                proof {
                    assert(self@ =~= decode_step(m0, input).state);
                }
                return Result::Ok(Option::Some(event));
            },
            Option::None => {},
        }

        let n = bytes_len(src);
        proof {
            assert(input.skip(0) =~= input);
        }
        let mut k: usize = 0;
        while k < n
            invariant
                m0 == old(self)@,
                input == bytes_contents(*old(src)),
                k <= n,
                bytes_contents(*src) == input,
                n == input.len(),
                m0.pending is None,
                self.max_buffer_length as nat == m0.max,
                self.current_stream == m0.tag,
                self.pending_event is None,
                scan(m0.buf, input, m0.max) == scan(self.buffer@, input.skip(k as int), m0.max),
            decreases n - k,
        {
            let byte = bytes_at(src, k);
            let ghost prebuf = self.buffer@;
            proof {
                assert(input.skip(k as int)[0] == input[k as int]);
                assert(input.skip(k as int).skip(1) =~= input.skip(k as int + 1));
            }
            if byte == 0x0Au8 {
                if self.buffer.len() > 0 {
                    let line = utf8_lossy(&self.buffer);
                    self.buffer.clear();
                    bytes_consume(src, k + 1);
                    proof {
                        assert(scan(m0.buf, input, m0.max) == (ScanOutcome::Line {
                            content: prebuf,
                            rest: input.skip(k as int + 1),
                        }));
                        assert(self@ =~= decode_step(m0, input).state);
                    }
                    return Result::Ok(Option::Some(EspEvent::Line(line)));
                }
                // An empty line (nothing staged since the last event) is
                // suppressed: no event, the scan continues.
            } else if byte == 0x00u8 || (0x80u8 <= byte && byte <= 0x87u8) {
                let tag = EspStream::from(byte);
                if self.buffer.len() > 0 {
                    // Flush the staged line first and queue the stream
                    // change, preserving causal order under the
                    // one-event-per-call contract.
                    let line = utf8_lossy(&self.buffer);
                    self.buffer.clear();
                    self.pending_event = Option::Some(EspEvent::Stream(tag));
                    bytes_consume(src, k + 1);
                    proof {
                        assert(scan(m0.buf, input, m0.max) == (ScanOutcome::LineTag {
                            content: prebuf,
                            tag,
                            rest: input.skip(k as int + 1),
                        }));
                        assert(self@ =~= decode_step(m0, input).state);
                    }
                    return Result::Ok(Option::Some(EspEvent::Line(line)));
                } else {
                    self.current_stream = tag;
                    bytes_consume(src, k + 1);
                    proof {
                        assert(scan(m0.buf, input, m0.max) == (ScanOutcome::Tag {
                            tag,
                            rest: input.skip(k as int + 1),
                        }));
                        assert(self@ =~= decode_step(m0, input).state);
                    }
                    return Result::Ok(Option::Some(EspEvent::Stream(tag)));
                }
            } else {
                if self.buffer.len() < self.max_buffer_length {
                    self.buffer.push(byte);
                }
                // Otherwise the byte is dropped: the staged line is full,
                // and memory per in-flight line stays bounded.
            }
            k = k + 1;
        }

        // The scan exhausted `src` without completing an event: every byte
        // is now staged (or dropped), so consume them all.
        bytes_consume(src, n);
        proof {
            assert(input.skip(n as int) =~= Seq::<u8>::empty());
            assert(scan(m0.buf, input, m0.max) == (ScanOutcome::More { staged: self.buffer@ }));
            assert(self@ =~= decode_step(m0, input).state);
            assert(bytes_contents(*src) == decode_step(m0, input).rest);
        }
        Result::Ok(Option::None)
    }
}

} // verus!
