use simple_server::request::{
    parse_request_line, resource_path, ParseError, Request, ACCEPTED_METHOD, ACCEPTED_VERSION,
};

fn accepted(line: &str) -> Request {
    match parse_request_line(line, true) {
        Ok(request) => request,
        Err(e) => panic!("{:?} was refused: {:?}", line, e),
    }
}

#[test]
fn accepted_values() {
    assert_eq!(ACCEPTED_METHOD, "GET");
    assert_eq!(ACCEPTED_VERSION, "HTTP/1.1");
}

#[test]
fn valid_line_is_accepted() {
    let request = accepted("GET /index.html HTTP/1.1");
    assert_eq!(request.method(), "GET");
    assert_eq!(request.uri(), "/index.html");
    assert_eq!(request.http_version(), "HTTP/1.1");
}

#[test]
fn uri_is_kept_as_written() {
    assert_eq!(accepted("GET /a%20b/../c?d=e#f HTTP/1.1").uri(), "/a%20b/../c?d=e#f");
    assert_eq!(accepted("GET index.html HTTP/1.1").uri(), "index.html");
    assert_eq!(accepted("GET /é HTTP/1.1").uri(), "/é");
}

#[test]
fn any_whitespace_separates_tokens() {
    let request = accepted(" \tGET\u{A0}\u{A0}/x\u{3000}HTTP/1.1\r");
    assert_eq!(request.method(), "GET");
    assert_eq!(request.uri(), "/x");
    assert_eq!(request.http_version(), "HTTP/1.1");
}

#[test]
fn tokens_after_the_third_are_ignored() {
    let plain = accepted("GET / HTTP/1.1");
    assert_eq!(accepted("GET / HTTP/1.1 and more"), plain);
    assert_eq!(accepted("GET / HTTP/1.1 HTTP/1.0"), plain);
}

#[test]
fn empty_line_misses_its_method() {
    assert_eq!(parse_request_line("", true), Err(ParseError::MissingMethod));
    assert_eq!(parse_request_line("", false), Err(ParseError::MissingMethod));
    assert_eq!(parse_request_line(" \t ", true), Err(ParseError::MissingMethod));
}

#[test]
fn other_methods_are_unsupported() {
    for line in ["POST / HTTP/1.1", "HEAD / HTTP/1.1", "PUT", "GETS / HTTP/1.1", "GE / HTTP/1.1"] {
        assert_eq!(parse_request_line(line, true), Err(ParseError::UnsupportedMethod));
        assert_eq!(parse_request_line(line, false), Err(ParseError::UnsupportedMethod));
    }
}

#[test]
fn method_is_case_sensitive() {
    for line in ["get / HTTP/1.1", "Get / HTTP/1.1", "gET / HTTP/1.1"] {
        assert_eq!(parse_request_line(line, true), Err(ParseError::UnsupportedMethod));
    }
}

#[test]
fn method_alone_misses_its_uri() {
    assert_eq!(parse_request_line("GET", true), Err(ParseError::MissingUri));
    assert_eq!(parse_request_line("GET", false), Err(ParseError::MissingUri));
    assert_eq!(parse_request_line("  GET  ", false), Err(ParseError::MissingUri));
}

#[test]
fn missing_resource_is_not_found() {
    assert_eq!(
        parse_request_line("GET /missing.txt HTTP/1.1", false),
        Err(ParseError::ResourceNotFound)
    );
}

#[test]
fn missing_resource_comes_before_the_version() {
    assert_eq!(parse_request_line("GET /missing.txt", false), Err(ParseError::ResourceNotFound));
    assert_eq!(
        parse_request_line("GET /missing.txt HTTP/1.0", false),
        Err(ParseError::ResourceNotFound)
    );
}

#[test]
fn unsupported_method_comes_before_the_lookup() {
    assert_eq!(
        parse_request_line("POST /missing.txt HTTP/1.1", false),
        Err(ParseError::UnsupportedMethod)
    );
}

#[test]
fn line_without_version_misses_it() {
    assert_eq!(parse_request_line("GET /index.html", true), Err(ParseError::MissingVersion));
    assert_eq!(parse_request_line("GET /index.html \r", true), Err(ParseError::MissingVersion));
}

#[test]
fn other_versions_are_unsupported() {
    for line in ["GET / HTTP/1.0", "GET / HTTP/2", "GET / http/1.1", "GET / HTTP/1.1x", "GET / x"] {
        assert_eq!(parse_request_line(line, true), Err(ParseError::UnsupportedVersion));
    }
}

#[test]
fn version_followed_by_nul_is_unsupported() {
    assert_eq!(
        parse_request_line("GET / HTTP/1.1\0\0", true),
        Err(ParseError::UnsupportedVersion)
    );
}

#[test]
fn same_line_parses_the_same_each_time() {
    let first = parse_request_line("GET /index.html HTTP/1.1", true);
    let second = parse_request_line("GET /index.html HTTP/1.1", true);
    assert!(first.is_ok());
    assert_eq!(first, second);
}

#[test]
fn resource_path_is_the_uri_behind_the_root() {
    assert_eq!(
        resource_path("GET /index.html HTTP/1.1", "/srv/static"),
        Ok(String::from("/srv/static/index.html"))
    );
    assert_eq!(resource_path("GET x", "/srv/static"), Ok(String::from("/srv/staticx")));
    assert_eq!(resource_path("GET /a/../b HTTP/1.0", ""), Ok(String::from("/a/../b")));
}

#[test]
fn resource_path_does_not_wait_for_the_version() {
    assert_eq!(resource_path("GET /index.html", "/srv"), Ok(String::from("/srv/index.html")));
    assert_eq!(resource_path("GET / HTTP/1.0", "/srv"), Ok(String::from("/srv/")));
}

#[test]
fn no_resource_path_for_a_line_refused_earlier() {
    assert_eq!(resource_path("", "/srv"), Err(ParseError::MissingMethod));
    assert_eq!(resource_path(" \r\n", "/srv"), Err(ParseError::MissingMethod));
    assert_eq!(resource_path("GET", "/srv"), Err(ParseError::MissingUri));
    assert_eq!(resource_path("POST / HTTP/1.1", "/srv"), Err(ParseError::UnsupportedMethod));
    assert_eq!(resource_path("get / HTTP/1.1", "/srv"), Err(ParseError::UnsupportedMethod));
}

#[test]
fn lookup_plays_no_part_where_no_path_is_named() {
    for line in ["", "  ", "GET", "POST", "POST /", "get / HTTP/1.1", "DELETE / HTTP/1.1"] {
        let refusal = resource_path(line, "/srv").expect_err("no path");
        assert_eq!(parse_request_line(line, true), Err(refusal));
        assert_eq!(parse_request_line(line, false), Err(refusal));
    }
}

#[test]
fn not_found_exactly_where_a_path_is_named_and_missing() {
    let lines = ["", "GET", "POST /x", "GET /x", "GET /x HTTP/1.1", "GET /x HTTP/1.0", "GET /x y z"];
    for line in lines {
        let named = resource_path(line, "/srv").is_ok();
        assert_eq!(parse_request_line(line, false) == Err(ParseError::ResourceNotFound), named);
        assert_ne!(parse_request_line(line, true), Err(ParseError::ResourceNotFound));
    }
}

#[test]
fn request_is_written_out_as_a_line() {
    assert_eq!(accepted("GET /index.html HTTP/1.1").to_line(), "GET /index.html HTTP/1.1\r\n");
    assert_eq!(accepted("\tGET   /  HTTP/1.1   tail").to_line(), "GET / HTTP/1.1\r\n");
}

#[test]
fn written_line_parses_to_the_same_request() {
    let request = accepted("  GET\t/a/b.txt \u{A0} HTTP/1.1 ignored");
    assert_eq!(parse_request_line(&request.to_line(), true), Ok(request));
}

#[test]
fn clone_is_equal() {
    let request = accepted("GET /index.html HTTP/1.1");
    let copy = request.clone();
    assert_eq!(copy, request);
    assert_eq!(copy.uri(), "/index.html");
}

#[test]
fn messages() {
    assert_eq!(ParseError::MissingMethod.message(), "Method not specified");
    assert_eq!(ParseError::UnsupportedMethod.message(), "Unsupported method");
    assert_eq!(ParseError::MissingUri.message(), "URI not specified");
    assert_eq!(ParseError::ResourceNotFound.message(), "Requested resourse does not exist");
    assert_eq!(ParseError::MissingVersion.message(), "HTTP Version is not specified");
    assert_eq!(
        ParseError::UnsupportedVersion.message(),
        "Unsupported version of HTTP, use HTTP 1.1 instead"
    );
}
