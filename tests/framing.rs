use routs::net::buffer::DynamicBuffer as ReadBuffer;
use routs::routs::buffer::DynamicBuffer;
use routs::routs::http::{HttpRequest, ParseError};

fn frame_chunks(chunks: &Vec<Vec<u8>>) -> DynamicBuffer {
    let mut b = DynamicBuffer::new();
    b.read_headers_and_body(chunks);
    b
}

fn frame(bytes: &[u8]) -> DynamicBuffer {
    frame_chunks(&vec![bytes.to_vec()])
}

#[test]
fn one_byte_reads_frame_like_one_read() {
    let msg = b"POST /p HTTP/1.1\r\nContent-Length: 5\r\n\r\nhello";
    let whole = frame(msg);
    let bytes: Vec<Vec<u8>> = msg.iter().map(|b| vec![*b]).collect();
    let split = frame_chunks(&bytes);
    assert_eq!(split.bytes(), whole.bytes());
    assert_eq!(split.head_len(), whole.head_len());
    assert_eq!(split.body(), whole.body());
    assert_eq!(split.body(), b"hello");
    assert_eq!(&split.bytes()[..split.head_len()], b"POST /p HTTP/1.1\r\nContent-Length: 5");
}

#[test]
fn bytes_after_body_keep_the_split() {
    let msg = b"POST /p HTTP/1.1\r\nContent-Length: 5\r\n\r\nhelloEXTRA";
    let whole = frame(msg);
    let bytes: Vec<Vec<u8>> = msg.iter().map(|b| vec![*b]).collect();
    let split = frame_chunks(&bytes);
    assert_eq!(split.head_len(), whole.head_len());
    assert_eq!(&split.body()[..5], b"hello");
    assert_eq!(&whole.body()[..5], b"hello");
    assert_eq!(split.body(), b"hello");
}

#[test]
fn uneven_chunks_frame_like_one_read() {
    let msg = b"PUT / HTTP/1.1\r\ncontent-LENGTH:  3 \r\nX: y\r\n\r\nabc";
    let whole = frame(msg);
    let chunks = vec![msg[..10].to_vec(), msg[10..17].to_vec(), msg[17..].to_vec()];
    let split = frame_chunks(&chunks);
    assert_eq!(split.bytes(), whole.bytes());
    assert_eq!(split.body(), b"abc");
    assert_eq!(split.content_length(), 3);
}

#[test]
fn read_stops_after_completing_chunk() {
    let mut b = DynamicBuffer::new();
    let chunks = vec![
        b"GET / HTTP/1.1\r\n\r\n".to_vec(),
        b"NEXT".to_vec(),
    ];
    assert!(b.read_headers_and_body(&chunks));
    assert_eq!(b.bytes(), b"GET / HTTP/1.1\r\n\r\n");
    let mut c = DynamicBuffer::new();
    assert!(!c.read_headers_and_body(&vec![b"GET / HTTP/1.1\r\n".to_vec()]));
}

#[test]
fn empty_read_ends_reading() {
    let mut b = DynamicBuffer::new();
    let chunks = vec![
        b"POST / HTTP/1.1\r\nContent-Length: 4\r\n\r\nab".to_vec(),
        Vec::new(),
        b"cd".to_vec(),
    ];
    assert!(!b.read_headers_and_body(&chunks));
    assert_eq!(b.body(), b"ab");
}

#[test]
fn feed_stops_when_body_is_complete() {
    let mut b = DynamicBuffer::new();
    assert!(!b.feed(b"GET / HTTP/1.1\r\nContent-Length: 4\r\n"));
    assert!(!b.feed(b"\r\nab"));
    assert_eq!(b.content_length(), 4);
    assert!(b.feed(b"cd"));
    assert_eq!(b.body(), b"abcd");
}

#[test]
fn no_content_length_completes_at_delimiter() {
    let mut b = DynamicBuffer::new();
    assert!(!b.feed(b"GET / HTTP/1.1\r\nHost: x\r\n"));
    assert!(b.feed(b"\r\n"));
    assert_eq!(b.content_length(), 0);
    assert_eq!(b.body(), b"");
}

#[test]
fn unparsable_content_length_counts_as_zero() {
    let mut b = DynamicBuffer::new();
    assert!(b.feed(b"GET / HTTP/1.1\r\nContent-Length: five\r\n\r\n"));
    assert_eq!(b.content_length(), 0);
    let mut c = DynamicBuffer::new();
    assert!(c.feed(b"GET / HTTP/1.1\r\nContent-Length: 99999999999999999999999\r\n\r\n"));
    assert_eq!(c.content_length(), 0);
    let mut d = DynamicBuffer::new();
    assert!(!d.feed(b"GET / HTTP/1.1\r\nContent-Length: +2\r\n\r\n"));
    assert_eq!(d.content_length(), 2);
}

#[test]
fn content_length_is_trimmed_of_unicode_space() {
    let b = frame("POST / HTTP/1.1\r\n\u{3000}CONTENT-length :\u{a0}3\u{a0}\r\n\r\nabc".as_bytes());
    assert_eq!(b.content_length(), 3);
    assert_eq!(b.body(), b"abc");
}

#[test]
fn last_content_length_line_wins() {
    let b = frame(b"POST / HTTP/1.1\r\nContent-Length: 9\r\nContent-Length: 2\r\n\r\nhi");
    assert_eq!(b.content_length(), 2);
}

#[test]
fn early_close_hands_over_what_was_read() {
    let b = frame(b"POST / HTTP/1.1\r\nContent-Length: 10\r\n\r\nabc");
    assert_eq!(b.body(), b"abc");
    let req = HttpRequest::parser(b, "peer".to_string()).ok().unwrap();
    assert_eq!(req.body, b"abc".to_vec());
}

#[test]
fn parse_simple_get() {
    let b = frame(b"GET / HTTP/1.1\r\nHost: x\r\n\r\n");
    let req = HttpRequest::parser(b, "10.0.0.1:5000".to_string()).ok().unwrap();
    assert_eq!(req.method, "GET");
    assert_eq!(req.path, "/");
    assert_eq!(req.headers.get("Host"), Some("x".to_string()));
    assert!(req.body.is_empty());
    assert_eq!(req.socket, "10.0.0.1:5000");
}

#[test]
fn repeated_header_keeps_last_value() {
    let b = frame(b"GET / HTTP/1.1\r\nA:1\r\nA:2\r\n\r\n");
    let req = HttpRequest::parser(b, String::new()).ok().unwrap();
    assert_eq!(req.headers.get("A"), Some("2".to_string()));
}

#[test]
fn header_names_and_values_are_trimmed() {
    let b = frame(b"GET /q?x=1 HTTP/1.1\r\n  Key \t:  some value \r\nno colon line\r\nE:\r\n\r\n");
    let req = HttpRequest::parser(b, String::new()).ok().unwrap();
    assert_eq!(req.path, "/q?x=1");
    assert_eq!(req.headers.get("Key"), Some("some value".to_string()));
    assert_eq!(req.headers.get("E"), Some(String::new()));
    assert_eq!(req.headers.get("no colon line"), None);
}

#[test]
fn unicode_white_space_separates_and_trims() {
    let b = frame("GET\u{a0}/x\u{3000}HTTP/1.1\r\nName\u{2003}: v\u{a0}\r\n\r\n".as_bytes());
    let req = HttpRequest::parser(b, String::new()).ok().unwrap();
    assert_eq!(req.method, "GET");
    assert_eq!(req.path, "/x");
    assert_eq!(req.headers.get("Name"), Some("v".to_string()));
}

#[test]
fn lines_after_blank_line_are_not_headers() {
    let mut b = DynamicBuffer::new();
    b.feed(b"GET / HTTP/1.1\r\nA: 1\r\n");
    let req = HttpRequest::parser(b, String::new()).ok().unwrap();
    assert_eq!(req.headers.get("A"), Some("1".to_string()));
    let c = frame(b"GET / HTTP/1.1\nA: 1\n\r\nB: 2\r\n\r\n");
    let req = HttpRequest::parser(c, String::new()).ok().unwrap();
    assert_eq!(req.headers.get("A"), Some("1".to_string()));
    assert_eq!(req.headers.get("B"), None);
}

#[test]
fn body_is_cut_to_declared_length() {
    let b = frame(b"POST / HTTP/1.1\r\nContent-Length: 5\r\n\r\nhelloEXTRA");
    let req = HttpRequest::parser(b, String::new()).ok().unwrap();
    assert_eq!(req.body, b"hello".to_vec());
}

#[test]
fn parse_errors() {
    let empty = frame(b"");
    assert_eq!(HttpRequest::parser(empty, String::new()).err(), Some(ParseError::MissingRequestLine));
    let blank = frame(b"   \r\n\r\n");
    assert_eq!(HttpRequest::parser(blank, String::new()).err(), Some(ParseError::NoMethod));
    let no_line = frame(b"\r\n\r\n");
    assert_eq!(HttpRequest::parser(no_line, String::new()).err(), Some(ParseError::NoMethod));
    let one = frame(b"GET\r\n\r\n");
    assert_eq!(HttpRequest::parser(one, String::new()).err(), Some(ParseError::NoPath));
    assert_eq!(ParseError::NoPath.message(), "No path");
}

#[test]
fn invalid_utf8_in_path_is_replaced() {
    let b = frame(b"GET /\xff HTTP/1.1\r\n\r\n");
    let req = HttpRequest::parser(b, String::new()).ok().unwrap();
    assert_eq!(req.path, "/\u{FFFD}");
}

#[test]
fn read_buffer_collects_chunks() {
    let mut r = ReadBuffer::new();
    assert_eq!(r.read_from_stream(b"ab"), 2);
    assert_eq!(r.read_from_stream(b""), 0);
    assert_eq!(r.read_from_stream(b"c"), 1);
    assert_eq!(r.as_bytes(), b"abc");
}
