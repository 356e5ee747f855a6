use static_rock::request::{Request, CHUNK_SIZE};

fn parsed(text: &str) -> Request {
    match Request::parse(text.as_bytes()) {
        Some(req) => req,
        None => panic!("no request in {:?}", text),
    }
}

#[test]
fn request_line_gives_method_path_and_version() {
    let req = parsed("GET /index.html HTTP/1.1\r\nHost: example.com\r\n\r\n");
    assert_eq!(req.method, "GET");
    assert_eq!(req.path, "/index.html");
    assert_eq!(req.version, "HTTP/1.1");
    assert!(req.query.is_none());
}

#[test]
fn request_line_alone_is_a_request() {
    let req = parsed("POST /submit HTTP/1.0");
    assert_eq!(req.method, "POST");
    assert_eq!(req.path, "/submit");
    assert_eq!(req.version, "HTTP/1.0");
    assert_eq!(req.headers.len(), 0);
}

#[test]
fn method_and_version_are_kept_as_received() {
    let req = parsed("get /x nonsense/9\r\n");
    assert_eq!(req.method, "get");
    assert_eq!(req.version, "nonsense/9");
}

#[test]
fn two_parts_are_no_request() {
    assert!(Request::parse(b"GET /index.html\r\n\r\n").is_none());
}

#[test]
fn four_parts_are_no_request() {
    assert!(Request::parse(b"GET /a b HTTP/1.1\r\n\r\n").is_none());
}

#[test]
fn doubled_space_is_no_request() {
    assert!(Request::parse(b"GET  / HTTP/1.1\r\n\r\n").is_none());
}

#[test]
fn no_bytes_are_no_request() {
    assert!(Request::parse(b"").is_none());
}

#[test]
fn bytes_that_are_not_utf8_are_no_request() {
    assert!(Request::parse(b"GET /\xff HTTP/1.1\r\n\r\n").is_none());
    assert!(Request::parse(&[0xC3]).is_none());
}

#[test]
fn lines_split_on_cr_lf_only() {
    let req = parsed("GET / HTTP/1.1\nHost:a\r\nAccept: b\r\n");
    assert_eq!(req.version, "HTTP/1.1\nHost:a");
    assert_eq!(req.headers.len(), 1);
    assert_eq!(req.headers.get("Accept").map(|v| v.as_str()), Some("b"));
}

#[test]
fn headers_are_found_by_name() {
    let req = parsed("GET / HTTP/1.1\r\nHost: example.com\r\nAccept: text/html\r\n\r\n");
    assert_eq!(req.headers.len(), 2);
    assert_eq!(req.headers.get("Host").map(|v| v.as_str()), Some("example.com"));
    assert_eq!(req.headers.get("Accept").map(|v| v.as_str()), Some("text/html"));
    assert!(req.headers.get("host").is_none());
}

#[test]
fn last_of_two_headers_with_one_name_stays() {
    let req = parsed("GET / HTTP/1.1\r\nX-A: first\r\nX-B: other\r\nX-A: second\r\n\r\n");
    assert_eq!(req.headers.len(), 2);
    assert_eq!(req.headers.get("X-A").map(|v| v.as_str()), Some("second"));
    assert_eq!(req.headers.get("X-B").map(|v| v.as_str()), Some("other"));
}

#[test]
fn line_without_colon_space_is_dropped() {
    let req = parsed("GET / HTTP/1.1\r\nHost:example.com\r\nnonsense\r\nA: b\r\n");
    assert_eq!(req.headers.len(), 1);
    assert_eq!(req.headers.get("A").map(|v| v.as_str()), Some("b"));
}

#[test]
fn lines_after_the_blank_line_are_read_as_headers_too() {
    let req = parsed("POST / HTTP/1.1\r\nA: b\r\n\r\nbody: text\r\n");
    assert_eq!(req.headers.get("body").map(|v| v.as_str()), Some("text"));
}

#[test]
fn header_value_keeps_later_colons() {
    let req = parsed("GET / HTTP/1.1\r\nHost: localhost: 8080\r\n\r\n");
    assert_eq!(req.headers.get("Host").map(|v| v.as_str()), Some("localhost: 8080"));
}

#[test]
fn text_beyond_ascii_is_decoded() {
    let req = parsed("GET /caf\u{e9} HTTP/1.1\r\nX-Name: \u{65e5}\u{672c}\r\n\r\n");
    assert_eq!(req.path, "/caf\u{e9}");
    assert_eq!(req.path.chars().count(), 5);
    assert_eq!(req.headers.get("X-Name").map(|v| v.as_str()), Some("\u{65e5}\u{672c}"));
}

#[test]
fn parse_header_cuts_at_first_colon_space() {
    assert_eq!(
        Request::parse_header("Host: example.com"),
        Some(("Host".to_string(), "example.com".to_string()))
    );
    assert_eq!(Request::parse_header("a: b: c"), Some(("a".to_string(), "b: c".to_string())));
    assert_eq!(Request::parse_header(": "), Some((String::new(), String::new())));
    assert_eq!(Request::parse_header("Host:example.com"), None);
    assert_eq!(Request::parse_header(""), None);
}

#[test]
fn query_of_two_pairs() {
    let q = Request::parse_query("a=1&b=2").unwrap();
    assert_eq!(q.len(), 2);
    assert_eq!(q.get("a").map(|v| v.as_str()), Some("1"));
    assert_eq!(q.get("b").map(|v| v.as_str()), Some("2"));
}

#[test]
fn pair_without_equals_sign_is_dropped() {
    let q = Request::parse_query("a=1&bad&b=2").unwrap();
    assert_eq!(q.len(), 2);
    assert_eq!(q.get("a").map(|v| v.as_str()), Some("1"));
    assert_eq!(q.get("b").map(|v| v.as_str()), Some("2"));
    assert!(q.get("bad").is_none());
}

#[test]
fn query_without_pairs_is_absent() {
    assert!(Request::parse_query("").is_none());
    assert!(Request::parse_query("bad").is_none());
    assert!(Request::parse_query("&&").is_none());
}

#[test]
fn later_parameter_replaces_earlier_one() {
    let q = Request::parse_query("a=1&a=2").unwrap();
    assert_eq!(q.len(), 1);
    assert_eq!(q.get("a").map(|v| v.as_str()), Some("2"));
}

#[test]
fn parameter_is_cut_at_first_equals_sign() {
    let q = Request::parse_query("a=b=c&=x&y=").unwrap();
    assert_eq!(q.len(), 3);
    assert_eq!(q.get("a").map(|v| v.as_str()), Some("b=c"));
    assert_eq!(q.get("").map(|v| v.as_str()), Some("x"));
    assert_eq!(q.get("y").map(|v| v.as_str()), Some(""));
}

#[test]
fn resource_without_query() {
    let (path, query) = Request::parse_resource("/a/b.html");
    assert_eq!(path, "/a/b.html");
    assert!(query.is_none());
}

#[test]
fn resource_with_query() {
    let (path, query) = Request::parse_resource("/search?a=1&b=2");
    assert_eq!(path, "/search");
    let q = query.unwrap();
    assert_eq!(q.len(), 2);
    assert_eq!(q.get("a").map(|v| v.as_str()), Some("1"));
    assert_eq!(q.get("b").map(|v| v.as_str()), Some("2"));
}

#[test]
fn resource_is_cut_at_first_question_mark() {
    let (path, query) = Request::parse_resource("/p?a=1?2");
    assert_eq!(path, "/p");
    assert_eq!(query.unwrap().get("a").map(|v| v.as_str()), Some("1?2"));
}

#[test]
fn empty_query_is_absent() {
    let (path, query) = Request::parse_resource("/p?");
    assert_eq!(path, "/p");
    assert!(query.is_none());
}

#[test]
fn query_of_white_space_is_absent() {
    for q in ["/p? ", "/p?   ", "/p?\t", "/p?\u{a0}\u{2003}\u{3000}", "/p?\r\n"] {
        let (path, query) = Request::parse_resource(q);
        assert_eq!(path, "/p");
        assert!(query.is_none());
    }
}

#[test]
fn query_with_white_space_and_a_pair_is_present() {
    let (_, query) = Request::parse_resource("/p? a=1");
    assert_eq!(query.unwrap().get(" a").map(|v| v.as_str()), Some("1"));
    let (_, none) = Request::parse_resource("/p?\u{200b}");
    assert!(none.is_none());
}

#[test]
fn request_with_query() {
    let req = parsed("GET /find?name=rock&kind=server HTTP/1.1\r\n\r\n");
    assert_eq!(req.path, "/find");
    let q = req.query.unwrap();
    assert_eq!(q.get("name").map(|v| v.as_str()), Some("rock"));
    assert_eq!(q.get("kind").map(|v| v.as_str()), Some("server"));
}

#[test]
fn full_chunk_asks_for_more() {
    let mut buf = vec![1u8, 2];
    let chunk = vec![7u8; CHUNK_SIZE];
    assert!(Request::get_request(&mut buf, Some(&chunk)));
    assert_eq!(buf.len(), CHUNK_SIZE + 2);
    assert_eq!(&buf[..3], &[1, 2, 7]);
}

#[test]
fn short_chunk_ends_the_request() {
    let mut buf = Vec::new();
    assert!(!Request::get_request(&mut buf, Some(b"GET / HTTP/1.1\r\n\r\n")));
    assert_eq!(buf, b"GET / HTTP/1.1\r\n\r\n");
    assert!(!Request::get_request(&mut buf, Some(b"")));
    assert_eq!(buf, b"GET / HTTP/1.1\r\n\r\n");
}

#[test]
fn failed_read_ends_the_request() {
    let mut buf = vec![9u8];
    assert!(!Request::get_request(&mut buf, None));
    assert_eq!(buf, vec![9u8]);
}

#[test]
fn chunk_size_is_4096() {
    assert_eq!(CHUNK_SIZE, 4096);
}
