//! What is read from a connection: at most one buffer of bytes, taken as
//! text. Bytes that are not valid UTF-8 are replaced, never refused.

use crate::request::{spec_parse_request_line, spec_resource_path};
use crate::text::spec_first_line;
use vstd::prelude::*;
use vstd::slice::slice_subrange;
use vstd::utf8::{decode_utf8, valid_utf8};

verus! {

/// The number of bytes of a request that are looked at. What a client sends
/// beyond them is never read.
pub const BUFFER_SIZE: usize = 512;

/// The text that `String::from_utf8_lossy` makes of `bytes`.
pub uninterp spec fn utf8_lossy(bytes: Seq<u8>) -> Seq<char>;

/// Calls `String::from_utf8_lossy`, which turns bytes into text and puts
/// U+FFFD in the place of each sequence that is not valid UTF-8. Trusted, not
/// proved: that the text depends on the bytes alone, and that bytes which are
/// valid UTF-8 give the characters they encode.
#[verifier::external_body]
fn decode_lossy(bytes: &[u8]) -> (text: String)
    ensures
        text@ == utf8_lossy(bytes@),
        valid_utf8(bytes@) ==> text@ == decode_utf8(bytes@),
{
    String::from_utf8_lossy(bytes).into_owned()
}

/// The part of `received` that fits the buffer.
pub open spec fn buffered(received: Seq<u8>) -> Seq<u8> {
    if received.len() > BUFFER_SIZE {
        received.take(BUFFER_SIZE as int)
    } else {
        received
    }
}

/// The text of a request: the bytes that fit the buffer, decoded. Valid UTF-8
/// gives the characters it encodes; of other bytes the text is what the lossy
/// decoding makes of them.
pub open spec fn spec_request_text(received: Seq<u8>) -> Seq<char> {
    let kept = buffered(received);
    if valid_utf8(kept) {
        decode_utf8(kept)
    } else {
        utf8_lossy(kept)
    }
}

/// Reads the bytes received on a connection as text. Only the first
/// `BUFFER_SIZE` bytes count.
pub fn request_text(received: &[u8]) -> (text: String)
    ensures
        text@ == spec_request_text(received@),
{
    if received.len() > BUFFER_SIZE {
        decode_lossy(slice_subrange(received, 0, BUFFER_SIZE))
    } else {
        decode_lossy(received)
    }
}

/// Where nothing was received there is no text, and so no request line.
pub proof fn lemma_nothing_received(received: Seq<u8>)
    requires
        received.len() == 0,
    ensures
        spec_request_text(received) == Seq::<char>::empty(),
        spec_first_line(spec_request_text(received)) is None,
{
}

/// A request is cut at the end of the buffer before anything is made of it:
/// two inputs with the same first `BUFFER_SIZE` bytes give the same text,
/// hence the same request line, the same path to look up and the same
/// outcome.
pub proof fn lemma_cut_at_buffer(a: Seq<u8>, b: Seq<u8>, root: Seq<char>, resource_exists: bool)
    requires
        buffered(a) == buffered(b),
    ensures
        spec_request_text(a) == spec_request_text(b),
        spec_first_line(spec_request_text(a)) == spec_first_line(spec_request_text(b)),
        spec_first_line(spec_request_text(a)) matches Some(line) ==> {
            let other = spec_first_line(spec_request_text(b))->Some_0;
            &&& spec_resource_path(line, root) == spec_resource_path(other, root)
            &&& spec_parse_request_line(line, resource_exists) == spec_parse_request_line(
                other,
                resource_exists,
            )
        },
{
}

/// Nothing beyond the buffer is read: an input longer than the buffer gives
/// the text of its first `BUFFER_SIZE` bytes.
pub proof fn lemma_long_input(received: Seq<u8>)
    requires
        received.len() > BUFFER_SIZE,
    ensures
        buffered(received).len() == BUFFER_SIZE,
        spec_request_text(received) == spec_request_text(received.take(BUFFER_SIZE as int)),
{
}

} // verus!
