//! The reply to an accepted request: a fixed status line, a blank line, and
//! the document. It is the same whatever resource the request named.

use vstd::prelude::*;

verus! {

/// The head of every reply: the status line and the blank line that ends the
/// head.
pub const STATUS_LINE: &'static str = "HTTP/1.1 200 OK \r\n\r\n";

/// The reply that carries `document`.
pub open spec fn spec_build_response(document: Seq<char>) -> Seq<char> {
    STATUS_LINE@ + document
}

/// Builds the reply that carries `document`.
pub fn build_response(document: &str) -> (response: String)
    ensures
        response@ == spec_build_response(document@),
{
    let mut response = STATUS_LINE.to_owned();
    response.append(document);
    response
}

/// A reply begins with the status line, and all that follows is the
/// document, whole and unchanged. So the same document gives the same reply
/// each time it is served.
pub proof fn lemma_response_holds_document(document: Seq<char>)
    ensures
        spec_build_response(document).len() == STATUS_LINE@.len() + document.len(),
        spec_build_response(document).take(STATUS_LINE@.len() as int) == STATUS_LINE@,
        spec_build_response(document).skip(STATUS_LINE@.len() as int) == document,
{
}

} // verus!
