//! Encoding of outgoing text lines into the server's wire framing.
//!
//! A text line becomes `payload-bytes ++ 0x00 ++ 0x0A`: the payload with any
//! single trailing newline stripped, then exactly one inserted NUL byte and
//! exactly one terminating newline byte. The payload itself must not contain
//! a NUL byte.

use vstd::prelude::*;
use vstd::string::StringSliceAdditionalSpecFns;

verus! {

/// The wire framing of one outgoing line, as a function of the line's UTF-8
/// bytes: the bytes with any single trailing `0x0A` stripped, followed by
/// `0x00` and `0x0A`.
pub open spec fn encoded_line(bytes: Seq<u8>) -> Seq<u8> {
    let payload = if bytes.len() > 0 && bytes[bytes.len() - 1] == 0x0Au8 {
        bytes.drop_last()
    } else {
        bytes
    };
    payload + seq![0x00u8, 0x0Au8]
}

/// Encodes a line so it can be sent to the ESP.
/// The given string may include or omit the trailing `'\n'`.
/// The encoding is simply the insertion of a `'\0'` character before the `'\n'`.
///
/// The line's byte representation must not contain a NUL byte; callers that
/// cannot guarantee this use [`try_encode_line`], which rejects such input.
pub fn encode_line(line: &str) -> (r: Vec<u8>)
    requires
        !line.spec_bytes().contains(0x00u8),
    ensures
        r@ == encoded_line(line.spec_bytes()),
{
    let bytes: &[u8] = line.as_bytes();
    let len: usize = bytes.len();

    // len excluding any trailing '\n'
    let mut len_no_ln: usize = len;
    if len > 0 && bytes[len - 1] == 10u8 {
        len_no_ln = len - 1;
    }

    let mut encoded: Vec<u8> = Vec::new();
    let mut i: usize = 0;
    while i < len_no_ln
        invariant
            i <= len_no_ln,
            len_no_ln <= bytes@.len(),
            encoded@ == bytes@.subrange(0, i as int),
        decreases len_no_ln - i,
    {
        encoded.push(bytes[i]);
        assert(encoded@ =~= bytes@.subrange(0, i + 1));
        i = i + 1;
    }
    encoded.push(0x00u8);
    encoded.push(0x0Au8);

    proof {
        if len > 0 && bytes@[len - 1] == 0x0Au8 {
            assert(bytes@.subrange(0, len_no_ln as int) =~= bytes@.drop_last());
        } else {
            assert(bytes@.subrange(0, len_no_ln as int) =~= bytes@);
        }
        assert(encoded@ =~= encoded_line(line.spec_bytes()));
    }
    encoded
}

/// Encodes a line as [`encode_line`] does, first checking the precondition:
/// returns `None` exactly when the line's byte representation contains a NUL
/// byte, and the framed bytes otherwise.
pub fn try_encode_line(line: &str) -> (r: Option<Vec<u8>>)
    ensures
        match r {
            Option::Some(v) => !line.spec_bytes().contains(0x00u8) && v@ == encoded_line(
                line.spec_bytes(),
            ),
            Option::None => line.spec_bytes().contains(0x00u8),
        },
{
    let bytes: &[u8] = line.as_bytes();
    let len: usize = bytes.len();
    let mut i: usize = 0;
    while i < len
        invariant
            i <= len,
            len == bytes@.len(),
            bytes@ == line.spec_bytes(),
            forall|j: int| 0 <= j < i ==> bytes@[j] != 0x00u8,
        decreases len - i,
    {
        if bytes[i] == 0x00u8 {
            return Option::None;
        }
        i = i + 1;
    }
    assert(!line.spec_bytes().contains(0x00u8));
    Option::Some(encode_line(line))
}

} // verus!
