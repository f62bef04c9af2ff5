use routs::routs::connection::{Connection, Phase};
use routs::routs::http::{HttpRequest, Router, Writer};
use routs::routs::status::HttpStatus;

type Handler = fn(&mut Writer, HttpRequest);

fn hello(w: &mut Writer, _r: HttpRequest) {
    w.write_header(HttpStatus::OK);
    w.write(b"{\"message\":\"Hello World!\"}");
}

fn post_only(w: &mut Writer, r: HttpRequest) {
    w.header().set("Access-Control-Allow-Methods", "POST");
    if r.method != "POST" {
        w.write_header(HttpStatus::MethodNotAllowed);
        return;
    }
    w.write(&r.body);
}

/// Runs one connection over `input`, read in chunks of `step` bytes, and returns what went out.
fn serve(router: &Router<Handler>, input: &[u8], step: usize) -> Option<Vec<u8>> {
    let mut c = Connection::new(false);
    let mut pos = 0;
    loop {
        let end = usize::min(pos + step, input.len());
        let more = c.on_read(&input[pos..end]);
        pos = end;
        if !more {
            break;
        }
    }
    assert_eq!(c.state(), Phase::Parsing);
    let req = match c.take_request("127.0.0.1:1".to_string()) {
        Ok(r) => r,
        Err(_) => return None,
    };
    let w = match router.get_handler(&req.path) {
        Some(h) => {
            let mut w = Writer::new();
            h(&mut w, req);
            w
        }
        None => Writer::not_found(),
    };
    let out = c.respond(w);
    assert_eq!(c.state(), Phase::Closed);
    assert!(c.respond(Writer::new()).is_none());
    out
}

fn router() -> Router<Handler> {
    let mut r: Router<Handler> = Router::new();
    r.handle_func("/", hello);
    r.handle_func("/echo", post_only);
    r
}

#[test]
fn get_root_returns_hello() {
    let out = serve(&router(), b"GET / HTTP/1.1\r\nHost: x\r\n\r\n", 1024).unwrap();
    assert!(out.starts_with(b"HTTP/1.1 200 OK\r\n"));
    assert!(out.ends_with(b"{\"message\":\"Hello World!\"}"));
    assert_eq!(out, b"HTTP/1.1 200 OK\r\n\r\n{\"message\":\"Hello World!\"}".to_vec());
}

fn post_router() -> Router<Handler> {
    let mut r: Router<Handler> = Router::new();
    r.handle_func("/", post_only);
    r
}

#[test]
fn post_body_reaches_handler() {
    let out = serve(&post_router(), b"POST / HTTP/1.1\r\nContent-Length: 5\r\n\r\nhello", 3).unwrap();
    assert_eq!(
        out,
        b"HTTP/1.1 200 OK\r\nAccess-Control-Allow-Methods: POST\r\n\r\nhello".to_vec()
    );
}

#[test]
fn unregistered_path_gets_not_found() {
    let out = serve(&router(), b"GET /missing HTTP/1.1\r\n\r\n", 7).unwrap();
    assert_eq!(out, b"HTTP/1.1 404 Not Found\r\n\r\nNot Found".to_vec());
}

#[test]
fn wrong_method_gets_405_and_empty_body() {
    let out = serve(&post_router(), b"GET / HTTP/1.1\r\n\r\n", 1).unwrap();
    assert!(out.starts_with(b"HTTP/1.1 405 Method Not Allowed\r\n"));
    assert!(out.ends_with(b"\r\n\r\n"));
    assert_eq!(
        out,
        b"HTTP/1.1 405 Method Not Allowed\r\nAccess-Control-Allow-Methods: POST\r\n\r\n".to_vec()
    );
}

#[test]
fn malformed_request_gets_no_response() {
    assert!(serve(&router(), b"GET\r\n\r\n", 1024).is_none());
}

#[test]
fn second_response_is_not_sent() {
    let mut c = Connection::new(false);
    assert!(!c.on_read(b"GET / HTTP/1.1\r\n\r\n"));
    assert!(c.take_request(String::new()).is_ok());
    assert_eq!(c.state(), Phase::Dispatching);
    let first = c.respond(Writer::new());
    assert_eq!(first, Some(b"HTTP/1.1 200 OK\r\n\r\n".to_vec()));
    let mut w = Writer::new();
    w.write(b"again");
    assert_eq!(c.respond(w), None);
    assert_eq!(c.state(), Phase::Closed);
}

#[test]
fn tls_connection_starts_with_handshake() {
    let mut c = Connection::new(true);
    assert_eq!(c.state(), Phase::Handshaking);
    assert!(!c.on_read(b"GET / HTTP/1.1\r\n\r\n"));
    assert_eq!(c.state(), Phase::Handshaking);
    c.handshake(true);
    assert_eq!(c.state(), Phase::Framing);
    let mut d = Connection::new(true);
    d.handshake(false);
    assert_eq!(d.state(), Phase::Closed);
}

#[test]
fn failure_closes_connection() {
    let mut c = Connection::new(false);
    assert!(c.on_read(b"GET / HT"));
    c.on_failure();
    assert_eq!(c.state(), Phase::Closed);
    assert!(!c.on_read(b"TP/1.1\r\n\r\n"));
    assert_eq!(c.state(), Phase::Closed);
}

#[test]
fn peer_close_ends_framing() {
    let mut c = Connection::new(false);
    assert!(c.on_read(b"GET / HTTP/1.1\r\n"));
    assert!(!c.on_read(b""));
    assert_eq!(c.state(), Phase::Parsing);
    let req = c.take_request(String::new()).ok().unwrap();
    assert_eq!(req.method, "GET");
}

#[test]
fn binary_body_is_sent_byte_for_byte() {
    let mut w = Writer::new();
    w.write_header(HttpStatus::Created);
    w.header().set("Content-Type", "image/png");
    w.header().set("Content-Length", "3");
    w.write(&[0xff, 0x00, 0x89]);
    let bytes = w.into_response().to_bytes();
    assert_eq!(
        bytes,
        [
            b"HTTP/1.1 201 Created\r\nContent-Type: image/png\r\nContent-Length: 3\r\n\r\n".as_slice(),
            &[0xff, 0x00, 0x89]
        ]
        .concat()
    );
}

#[test]
fn deleted_header_is_not_written() {
    let mut w = Writer::new();
    w.header().set("A", "1");
    w.header().set("B", "2");
    w.header().del("A");
    w.write(b"x");
    w.write(b"yz");
    let bytes = w.into_response().to_bytes();
    assert_eq!(bytes, b"HTTP/1.1 200 OK\r\nB: 2\r\n\r\nyz".to_vec());
}
