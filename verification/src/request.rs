//! The request line: its three tokens, the checks made on them in order, and
//! the reason given when one fails.
//!
//! Whether the requested resource exists is not decided here. The caller
//! looks up the path that [`resource_path`] names and hands the answer to
//! [`parse_request_line`].

use crate::text::{
    is_token, lemma_tokens_are_tokens, lemma_tokens_of_joined, next_token, same_text, to_chars,
    tokens, tokens_from,
};
use vstd::prelude::*;

verus! {

/// The only method that is served.
pub const ACCEPTED_METHOD: &'static str = "GET";

/// The only protocol version that is served.
pub const ACCEPTED_VERSION: &'static str = "HTTP/1.1";

/// Why a request line was refused.
#[derive(Clone, Copy, Debug, PartialEq, Eq, Structural)]
pub enum ParseError {
    /// The line holds no token at all.
    MissingMethod,
    /// The first token is not the accepted method.
    UnsupportedMethod,
    /// The line ends after the method.
    MissingUri,
    /// The requested resource does not exist.
    ResourceNotFound,
    /// The line ends after the URI.
    MissingVersion,
    /// The third token is not the accepted protocol version.
    UnsupportedVersion,
}

impl ParseError {
    /// The description of the error, as text.
    pub open spec fn spec_message(self) -> Seq<char> {
        match self {
            ParseError::MissingMethod => "Method not specified"@,
            ParseError::UnsupportedMethod => "Unsupported method"@,
            ParseError::MissingUri => "URI not specified"@,
            ParseError::ResourceNotFound => "Requested resourse does not exist"@,
            ParseError::MissingVersion => "HTTP Version is not specified"@,
            ParseError::UnsupportedVersion => "Unsupported version of HTTP, use HTTP 1.1 instead"@,
        }
    }

    /// A description of the error for a human reader.
    pub fn message(&self) -> (text: &'static str)
        ensures
            text@ == self.spec_message(),
    {
        match self {
            ParseError::MissingMethod => "Method not specified",
            ParseError::UnsupportedMethod => "Unsupported method",
            ParseError::MissingUri => "URI not specified",
            ParseError::ResourceNotFound => "Requested resourse does not exist",
            ParseError::MissingVersion => "HTTP Version is not specified",
            ParseError::UnsupportedVersion => "Unsupported version of HTTP, use HTTP 1.1 instead",
        }
    }
}

/// What a request holds, as plain text.
pub struct RequestView {
    pub method: Seq<char>,
    pub uri: Seq<char>,
    pub http_version: Seq<char>,
}

impl RequestView {
    /// What holds of every accepted request: the method and the version are
    /// the accepted ones, and the URI is one token.
    pub open spec fn valid(self) -> bool {
        &&& self.method == ACCEPTED_METHOD@
        &&& is_token(self.uri)
        &&& self.http_version == ACCEPTED_VERSION@
    }

    /// The request written out as a line: the three tokens with one space
    /// between them, ended by a carriage return and a line feed.
    pub open spec fn line(self) -> Seq<char> {
        self.method + seq![' '] + self.uri + seq![' '] + self.http_version + seq!['\r', '\n']
    }
}

/// An accepted request. It comes only from a request line that passed every
/// check, and is not changed afterwards.
#[derive(Debug, PartialEq, Eq)]
pub struct Request {
    method: String,
    uri: String,
    http_version: String,
}

impl View for Request {
    type V = RequestView;

    closed spec fn view(&self) -> RequestView {
        RequestView { method: self.method@, uri: self.uri@, http_version: self.http_version@ }
    }
}

impl Clone for Request {
    fn clone(&self) -> (copy: Self)
        ensures
            copy@ == self@,
    {
        proof {
            use_type_invariant(self);
        }
        Request {
            method: self.method.clone(),
            uri: self.uri.clone(),
            http_version: self.http_version.clone(),
        }
    }
}

impl Request {
    #[verifier::type_invariant]
    spec fn well_formed(self) -> bool {
        self@.valid()
    }

    /// The method token.
    pub fn method(&self) -> (method: &str)
        ensures
            method@ == self@.method,
            self@.valid(),
    {
        proof {
            use_type_invariant(self);
        }
        self.method.as_str()
    }

    /// The URI token, as it stood in the request line.
    pub fn uri(&self) -> (uri: &str)
        ensures
            uri@ == self@.uri,
            self@.valid(),
    {
        proof {
            use_type_invariant(self);
        }
        self.uri.as_str()
    }

    /// The protocol version token.
    pub fn http_version(&self) -> (version: &str)
        ensures
            version@ == self@.http_version,
            self@.valid(),
    {
        proof {
            use_type_invariant(self);
        }
        self.http_version.as_str()
    }

    /// The request written out as a line.
    pub fn to_line(&self) -> (line: String)
        ensures
            line@ == self@.line(),
    {
        proof {
            reveal_strlit(" ");
            reveal_strlit("\r\n");
        }
        let mut line = self.method.clone();
        line.append(" ");
        line.append(self.uri.as_str());
        line.append(" ");
        line.append(self.http_version.as_str());
        line.append("\r\n");
        assert(" "@ == seq![' ']);
        assert("\r\n"@ == seq!['\r', '\n']);
        line
    }
}

/// What becomes of a request line, given the answer to the lookup of its
/// resource. The checks are made in this order, and the first that fails
/// decides: a method is there; it is the accepted one; a URI is there; the
/// resource exists; a version is there; it is the accepted one. Tokens after
/// the third play no part.
pub open spec fn spec_parse_request_line(line: Seq<char>, resource_exists: bool) -> Result<
    RequestView,
    ParseError,
> {
    let t = tokens(line);
    if t.len() < 1 {
        Err(ParseError::MissingMethod)
    } else if t[0] != ACCEPTED_METHOD@ {
        Err(ParseError::UnsupportedMethod)
    } else if t.len() < 2 {
        Err(ParseError::MissingUri)
    } else if !resource_exists {
        Err(ParseError::ResourceNotFound)
    } else if t.len() < 3 {
        Err(ParseError::MissingVersion)
    } else if t[2] != ACCEPTED_VERSION@ {
        Err(ParseError::UnsupportedVersion)
    } else {
        Ok(RequestView { method: t[0], uri: t[1], http_version: t[2] })
    }
}

/// The path whose existence decides whether a request line is accepted: the
/// URI, as it stands, behind `root`. A line that does not get as far as the
/// lookup has no such path, but the reason for which it is refused: no method,
/// a method that is not the accepted one, or no URI.
pub open spec fn spec_resource_path(line: Seq<char>, root: Seq<char>) -> Result<
    Seq<char>,
    ParseError,
> {
    let t = tokens(line);
    if t.len() < 1 {
        Err(ParseError::MissingMethod)
    } else if t[0] != ACCEPTED_METHOD@ {
        Err(ParseError::UnsupportedMethod)
    } else if t.len() < 2 {
        Err(ParseError::MissingUri)
    } else {
        Ok(root + t[1])
    }
}

/// The checks that come before the lookup: the bounds of the URI in `chars`,
/// or the reason why the line does not get that far.
fn locate_uri(request: &str, chars: &[char]) -> (found: Result<(usize, usize), ParseError>)
    requires
        chars@ == request@,
    ensures
        match found {
            Ok((start, end)) => {
                &&& start < end <= chars.len()
                &&& tokens(request@) == seq![
                    ACCEPTED_METHOD@,
                    request@.subrange(start as int, end as int),
                ] + tokens_from(request@, end as int)
            },
            Err(e) => forall|root: Seq<char>| #[trigger]
                spec_resource_path(request@, root) == Err::<Seq<char>, _>(e),
        },
{
    let (method_start, method_end) = match next_token(chars, 0) {
        Some(bounds) => bounds,
        None => {
            return Err(ParseError::MissingMethod);
        },
    };
    let method = request.substring_char(method_start, method_end);
    if !same_text(method, ACCEPTED_METHOD) {
        return Err(ParseError::UnsupportedMethod);
    }
    match next_token(chars, method_end) {
        Some((start, end)) => {
            assert(tokens(request@) =~= seq![
                ACCEPTED_METHOD@,
                request@.subrange(start as int, end as int),
            ] + tokens_from(request@, end as int));
            Ok((start, end))
        },
        None => Err(ParseError::MissingUri),
    }
}

/// Names the path to look up before `request` can be accepted: its URI behind
/// `root`. A line that is refused before any lookup gives the reason instead.
pub fn resource_path(request: &str, root: &str) -> (path: Result<String, ParseError>)
    ensures
        match path {
            Ok(p) => spec_resource_path(request@, root@) == Ok::<_, ParseError>(p@),
            Err(e) => spec_resource_path(request@, root@) == Err::<Seq<char>, _>(e),
        },
{
    let chars = to_chars(request);
    match locate_uri(request, chars.as_slice()) {
        Ok((start, end)) => {
            let mut path = root.to_owned();
            path.append(request.substring_char(start, end));
            Ok(path)
        },
        Err(e) => Err(e),
    }
}

/// Parses a request line. `resource_exists` is the answer to the lookup of
/// the path that [`resource_path`] names for this line; where it names none,
/// the answer plays no part.
pub fn parse_request_line(request: &str, resource_exists: bool) -> (result: Result<
    Request,
    ParseError,
>)
    ensures
        match result {
            Ok(r) => spec_parse_request_line(request@, resource_exists) == Ok::<_, ParseError>(r@),
            Err(e) => spec_parse_request_line(request@, resource_exists) == Err::<RequestView, _>(
                e,
            ),
        },
{
    let chars = to_chars(request);
    let (uri_start, uri_end) = match locate_uri(request, chars.as_slice()) {
        Ok(bounds) => bounds,
        Err(e) => {
            assert(spec_resource_path(request@, Seq::empty()) is Err);
            return Err(e);
        },
    };
    if !resource_exists {
        return Err(ParseError::ResourceNotFound);
    }
    let (version_start, version_end) = match next_token(chars.as_slice(), uri_end) {
        Some(bounds) => bounds,
        None => {
            return Err(ParseError::MissingVersion);
        },
    };
    let version = request.substring_char(version_start, version_end);
    if !same_text(version, ACCEPTED_VERSION) {
        return Err(ParseError::UnsupportedVersion);
    }
    proof {
        lemma_tokens_are_tokens(request@, 0);
    }
    Ok(
        Request {
            method: ACCEPTED_METHOD.to_owned(),
            uri: request.substring_char(uri_start, uri_end).to_owned(),
            http_version: ACCEPTED_VERSION.to_owned(),
        },
    )
}

/// A line is refused for its method exactly when it has a first token and
/// that token is not, character for character, the accepted method. Neither
/// what follows the method nor the lookup changes that.
pub proof fn lemma_unsupported_method(line: Seq<char>, resource_exists: bool)
    ensures
        spec_parse_request_line(line, resource_exists) == Err::<RequestView, _>(
            ParseError::UnsupportedMethod,
        ) <==> tokens(line).len() >= 1 && tokens(line)[0] != ACCEPTED_METHOD@,
{
}

/// A line with no token is refused for its missing method; a line that ends
/// after the accepted method, for its missing URI, whatever the lookup would
/// say; a line that ends after the URI of an existing resource, for its
/// missing version.
pub proof fn lemma_missing_token(line: Seq<char>, resource_exists: bool)
    ensures
        tokens(line).len() == 0 ==> spec_parse_request_line(line, resource_exists) == Err::<
            RequestView,
            _,
        >(ParseError::MissingMethod),
        tokens(line).len() == 1 && tokens(line)[0] == ACCEPTED_METHOD@ ==> spec_parse_request_line(
            line,
            resource_exists,
        ) == Err::<RequestView, _>(ParseError::MissingUri),
        tokens(line).len() == 2 && tokens(line)[0] == ACCEPTED_METHOD@ && resource_exists
            ==> spec_parse_request_line(line, resource_exists) == Err::<RequestView, _>(
            ParseError::MissingVersion,
        ),
{
}

/// The checks on the method and on the presence of a URI come before the
/// lookup: a line that is refused without a path to look up is refused for
/// that same reason whatever answer is handed in.
pub proof fn lemma_refused_before_lookup(line: Seq<char>, root: Seq<char>, resource_exists: bool)
    requires
        spec_resource_path(line, root) is Err,
    ensures
        spec_parse_request_line(line, resource_exists) == Err::<RequestView, _>(
            spec_resource_path(line, root)->Err_0,
        ),
{
}

/// A line is refused because its resource was not found exactly when it
/// names the accepted method and a URI, and the lookup says that the
/// resource does not exist. The version plays no part in that: it is looked
/// at only afterwards.
pub proof fn lemma_resource_not_found(line: Seq<char>, root: Seq<char>, resource_exists: bool)
    ensures
        spec_parse_request_line(line, resource_exists) == Err::<RequestView, _>(
            ParseError::ResourceNotFound,
        ) <==> spec_resource_path(line, root) is Ok && !resource_exists,
{
}

/// Only a line whose resource exists is accepted, and what is accepted is
/// the line's first three tokens: the accepted method, a URI, and the
/// accepted version.
pub proof fn lemma_accepted(line: Seq<char>, resource_exists: bool)
    requires
        spec_parse_request_line(line, resource_exists) is Ok,
    ensures
        resource_exists,
        tokens(line).len() >= 3,
        spec_parse_request_line(line, resource_exists)->Ok_0 == (RequestView {
            method: tokens(line)[0],
            uri: tokens(line)[1],
            http_version: tokens(line)[2],
        }),
        spec_parse_request_line(line, resource_exists)->Ok_0.valid(),
{
    lemma_tokens_are_tokens(line, 0);
}

/// Tokens after the third are ignored: two lines with the same first three
/// tokens fare alike.
pub proof fn lemma_trailing_tokens_ignored(a: Seq<char>, b: Seq<char>, resource_exists: bool)
    requires
        tokens(a).len() >= 3,
        tokens(b).len() >= 3,
        tokens(a).take(3) == tokens(b).take(3),
    ensures
        spec_parse_request_line(a, resource_exists) == spec_parse_request_line(b, resource_exists),
{
    assert forall|i: int| 0 <= i < 3 implies tokens(a)[i] == tokens(b)[i] by {
        assert(tokens(a)[i] == tokens(a).take(3)[i]);
        assert(tokens(b)[i] == tokens(b).take(3)[i]);
    }
}

/// An accepted request, written out as a line, parses back to itself.
pub proof fn lemma_written_line_parses_back(request: RequestView)
    requires
        request.valid(),
    ensures
        spec_parse_request_line(request.line(), true) == Ok::<_, ParseError>(request),
{
    let gap = seq![' '];
    let end = seq!['\r', '\n'];
    let after_uri = request.http_version + end + Seq::empty();
    let after_method = request.uri + gap + after_uri;
    assert(is_token(request.method) && is_token(request.http_version)) by {
        reveal_strlit("GET");
        reveal_strlit("HTTP/1.1");
    }
    assert(request.line() == request.method + gap + after_method);
    lemma_tokens_of_joined(request.method, gap, after_method);
    lemma_tokens_of_joined(request.uri, gap, after_uri);
    lemma_tokens_of_joined(request.http_version, end, Seq::empty());
    assert(tokens(request.line()) == seq![request.method, request.uri, request.http_version]);
}

} // verus!
