//! Events reported by the decoder, and the logical stream tags that the
//! server multiplexes onto one connection through in-band control bytes.

use vstd::prelude::*;

verus! {

/// Logical stream (channel) that subsequently received lines belong to.
///
/// The server announces a switch of stream by a single control byte
/// (`0x00` or `0x80..=0x87`) in the inbound byte stream; see
/// [`stream_of_byte`] for the exact mapping.
#[derive(Debug, PartialEq, Eq, Copy, Clone, Structural)]
pub enum EspStream {
    Unknown,
    Result,
    Output,
    Exception,
    Log,
    SetPrompt,
    StateVec,
    Status,
    Prompt,
}

/// Events from the ESP.
#[derive(Debug, PartialEq, Eq)]
pub enum EspEvent {
    /// A new line has been received.
    Line(String),
    /// A stream indicator has been received.
    Stream(EspStream),
}

/// Mathematical model of an [`EspEvent`]: the line's text as a sequence of
/// characters, or the stream tag itself.
pub enum EventModel {
    Line(Seq<char>),
    Stream(EspStream),
}

impl View for EspEvent {
    type V = EventModel;

    open spec fn view(&self) -> EventModel {
        match self {
            EspEvent::Line(s) => EventModel::Line(s@),
            EspEvent::Stream(t) => EventModel::Stream(*t),
        }
    }
}

/// The model of an optional event: `None`, or the model of the event.
pub open spec fn opt_event_view(o: Option<EspEvent>) -> Option<EventModel> {
    match o {
        Option::Some(e) => Option::Some(e@),
        Option::None => Option::None,
    }
}

/// True of exactly the in-band control bytes: `0x00` and `0x80..=0x87`.
/// Every other byte value is ordinary line payload.
pub open spec fn is_control_byte(b: u8) -> bool {
    b == 0x00 || (0x80 <= b && b <= 0x87)
}

/// The total control-byte-to-tag mapping. Bytes outside the control-byte
/// domain are mapped defensively to `Unknown`; the decoder never treats them
/// as control bytes in the first place.
pub open spec fn stream_of_byte(b: u8) -> EspStream {
    if b == 0x00 {
        EspStream::Unknown
    } else if b == 0x80 {
        EspStream::Prompt
    } else if b == 0x81 {
        EspStream::Result
    } else if b == 0x82 {
        EspStream::Output
    } else if b == 0x83 {
        EspStream::Exception
    } else if b == 0x84 {
        EspStream::Log
    } else if b == 0x85 {
        EspStream::SetPrompt
    } else if b == 0x86 {
        EspStream::StateVec
    } else if b == 0x87 {
        EspStream::Status
    } else {
        EspStream::Unknown
    }
}

impl From<u8> for EspStream {
    /// Maps a control byte to its stream tag, exactly as [`stream_of_byte`]
    /// states; any byte outside the control-byte domain yields `Unknown`.
    fn from(byte: u8) -> (s: EspStream) {
        match byte {
            0x00 => EspStream::Unknown,
            0x80 => EspStream::Prompt,
            0x81 => EspStream::Result,
            0x82 => EspStream::Output,
            0x83 => EspStream::Exception,
            0x84 => EspStream::Log,
            0x85 => EspStream::SetPrompt,
            0x86 => EspStream::StateVec,
            0x87 => EspStream::Status,
            _ => EspStream::Unknown,
        }
    }
}

impl vstd::std_specs::convert::FromSpecImpl<u8> for EspStream {
    open spec fn obeys_from_spec() -> bool {
        true
    }

    open spec fn from_spec(b: u8) -> EspStream {
        stream_of_byte(b)
    }
}

} // verus!
