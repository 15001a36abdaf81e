use httpbis::solicit::header::{
    parse_decimal, Header, HeaderError, Headers, HeadersPlace, RequestOrResponse,
};

fn headers(list: &[(&str, &str)]) -> Headers {
    let mut h = Headers::new();
    for (name, value) in list {
        h.add(name, value);
    }
    h
}

#[test]
fn response_headers_need_status() {
    let ok = headers(&[(":status", "200"), ("content-length", "5")]);
    assert_eq!(Ok(()), ok.validate(RequestOrResponse::Response, HeadersPlace::Initial));
    let none = headers(&[("content-length", "5")]);
    assert_eq!(
        Err(HeaderError::MissingPseudoHeader),
        none.validate(RequestOrResponse::Response, HeadersPlace::Initial)
    );
    let request = headers(&[(":method", "GET")]);
    assert_eq!(
        Err(HeaderError::UnexpectedPseudoHeader),
        request.validate(RequestOrResponse::Response, HeadersPlace::Initial)
    );
    let twice = headers(&[(":status", "200"), (":status", "200")]);
    assert_eq!(
        Err(HeaderError::DuplicatePseudoHeader),
        twice.validate(RequestOrResponse::Response, HeadersPlace::Initial)
    );
}

#[test]
fn request_headers_need_method_scheme_path() {
    let ok = headers(&[
        (":method", "GET"),
        (":scheme", "http"),
        (":path", "/"),
        (":authority", "localhost"),
        ("accept", "*/*"),
    ]);
    assert_eq!(Ok(()), ok.validate(RequestOrResponse::Request, HeadersPlace::Initial));
    let no_path = headers(&[(":method", "GET"), (":scheme", "http")]);
    assert_eq!(
        Err(HeaderError::MissingPseudoHeader),
        no_path.validate(RequestOrResponse::Request, HeadersPlace::Initial)
    );
    let status = headers(&[(":status", "200")]);
    assert_eq!(
        Err(HeaderError::UnexpectedPseudoHeader),
        status.validate(RequestOrResponse::Request, HeadersPlace::Initial)
    );
    let late = headers(&[(":method", "GET"), ("accept", "*/*"), (":path", "/")]);
    assert_eq!(
        Err(HeaderError::PseudoHeaderAfterRegular),
        late.validate(RequestOrResponse::Request, HeadersPlace::Initial)
    );
}

#[test]
fn trailers_and_names() {
    let trailers = headers(&[("x-checksum", "abc")]);
    assert_eq!(Ok(()), trailers.validate(RequestOrResponse::Response, HeadersPlace::Trailing));
    let pseudo = headers(&[(":status", "200")]);
    assert_eq!(
        Err(HeaderError::PseudoHeaderInTrailers),
        pseudo.validate(RequestOrResponse::Response, HeadersPlace::Trailing)
    );
    let upper = headers(&[(":status", "200"), ("Content-Length", "5")]);
    assert_eq!(
        Err(HeaderError::UpperCaseInName),
        upper.validate(RequestOrResponse::Response, HeadersPlace::Initial)
    );
    let mut empty_name = Headers::ok_200();
    empty_name.add_header(Header::new(vec![], b"x".to_vec()));
    assert_eq!(
        Err(HeaderError::EmptyName),
        empty_name.validate(RequestOrResponse::Response, HeadersPlace::Initial)
    );
    assert_eq!(Ok(()), Headers::new().validate(RequestOrResponse::Request, HeadersPlace::Trailing));
}

#[test]
fn status_and_content_length_are_numbers() {
    let h = headers(&[(":status", "204"), ("content-length", "12345678901")]);
    assert_eq!(Some(204), h.status());
    assert_eq!(Some(12345678901), h.content_length());
    assert_eq!(Some(&b"204"[..]), h.get_opt(b":status"));
    assert_eq!(None, h.get_opt(b"missing"));
    assert_eq!(None, Headers::new().status());
    assert_eq!(None, headers(&[(":status", "2x0")]).status());
    assert_eq!(None, headers(&[(":status", "4294967296")]).status());
    assert_eq!(None, headers(&[("content-length", "")]).content_length());
    assert_eq!(Some(200), Headers::ok_200().status());
    assert_eq!(1, Headers::ok_200().len());
    let copy = h.clone();
    assert_eq!(2, copy.len());
    assert_eq!(b"content-length", copy.headers[1].name());
}

#[test]
fn parse_decimal_limits() {
    assert_eq!(Some(0), parse_decimal(b"0"));
    assert_eq!(Some(7), parse_decimal(b"007"));
    assert_eq!(Some(u64::MAX), parse_decimal(b"18446744073709551615"));
    assert_eq!(None, parse_decimal(b"18446744073709551616"));
    assert_eq!(None, parse_decimal(b"184467440737095516150"));
    assert_eq!(None, parse_decimal(b""));
    assert_eq!(None, parse_decimal(b"12a"));
    assert_eq!(None, parse_decimal(b"-1"));
}
