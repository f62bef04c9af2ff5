use vstd::prelude::*;
use vstd::utf8::encode_utf8;
use crate::routs::status::{HttpStatus, status_text};
use crate::routs::buffer::{DynamicBuffer, head_of, body_of, declared_length};
use crate::routs::text::{find_byte, lossy_text, text_of, find_byte_in, lemma_find_byte,
    find_space, find_char, trim_start_chars, trim_chars, find_space_in, find_char_in,
    trim_start_str, trim_str, sub_text, lemma_find_space};
use vstd::utf8::{valid_utf8, decode_utf8};
use vstd::string::StrSliceExecFns;
use crate::routs::table::{assoc_map, unique_keys, has_key, lemma_assoc_absent, lemma_assoc_lookup,
    lemma_assoc_finite,
    lemma_assoc_update, lemma_assoc_remove, lemma_assoc_push};

verus! {

/// The keys of a list of entries as character sequences.
pub open spec fn keyed<V>(s: Seq<(String, V)>) -> Seq<(Seq<char>, V)> {
    s.map_values(|e: (String, V)| (e.0@, e.1))
}

/// The index of the entry whose key is `key`, if one has it.
fn find_key<V>(v: &Vec<(String, V)>, key: &String) -> (r: Option<usize>)
    ensures
        match r {
            Some(i) => i < v@.len() && v@[i as int].0@ == key@,
            None => !has_key(keyed(v@), key@),
        },
{
    let mut i: usize = 0;
    while i < v.len()
        invariant
            i <= v@.len(),
            forall|j: int| 0 <= j < i ==> v@[j].0@ != key@,
        decreases v@.len() - i,
    {
        if v[i].0 == *key {
            return Some(i);
        }
        i = i + 1;
    }
    assert forall|j: int| 0 <= j < keyed(v@).len() implies keyed(v@)[j].0 != key@ by {
        assert(v@[j].0@ != key@);
    }
    None
}

/// A collection of header fields: at most one value per (case-sensitive) name.
pub struct Header {
    headers: Vec<(String, String)>,
}

impl View for Header {
    type V = Map<Seq<char>, Seq<char>>;

    /// Each header name with its value.
    closed spec fn view(&self) -> Map<Seq<char>, Seq<char>> {
        assoc_map(self.fields())
    }
}

impl Header {
    /// The fields in the order they are kept, which is the order they are written out in.
    pub closed spec fn fields(&self) -> Seq<(Seq<char>, Seq<char>)> {
        self.headers@.map_values(|e: (String, String)| (e.0@, e.1@))
    }

    /// No name occurs twice, and there are finitely many names.
    pub closed spec fn wf(&self) -> bool {
        &&& unique_keys(self.fields())
        &&& self@.dom().finite()
    }

    /// The fields written out are exactly the entries of the map: no name twice, each with its
    /// value, and every name of the map among them.
    pub proof fn lemma_fields_agree(&self)
        requires
            self.wf(),
        ensures
            unique_keys(self.fields()),
            self@.dom().finite(),
            forall|i: int|
                0 <= i < self.fields().len() ==> self@.contains_key(#[trigger] self.fields()[i].0)
                    && self@[self.fields()[i].0] == self.fields()[i].1,
            forall|k: Seq<char>| #[trigger]
                self@.contains_key(k) ==> exists|i: int|
                    0 <= i < self.fields().len() && self.fields()[i].0 == k,
    {
        assert forall|i: int| 0 <= i < self.fields().len() implies self@.contains_key(
            #[trigger] self.fields()[i].0,
        ) && self@[self.fields()[i].0] == self.fields()[i].1 by {
            lemma_assoc_lookup(self.fields(), i);
        }
        assert forall|k: Seq<char>| #[trigger] self@.contains_key(k) implies exists|i: int|
            0 <= i < self.fields().len() && self.fields()[i].0 == k by {
            if !has_key(self.fields(), k) {
                lemma_assoc_absent(self.fields(), k);
            }
        }
    }

    /// An empty collection.
    pub fn new() -> (r: Self)
        ensures
            r.wf(),
            r@ == Map::<Seq<char>, Seq<char>>::empty(),
            r.fields().len() == 0,
    {
        let r = Header { headers: Vec::new() };
        assert(r.fields() =~= Seq::<(Seq<char>, Seq<char>)>::empty());
        proof {
            lemma_assoc_finite(r.fields());
        }
        r
    }

    /// The value stored under `key`, if any.
    pub fn get(&self, key: &str) -> (r: Option<String>)
        requires
            self.wf(),
        ensures
            match r {
                Some(v) => self@.contains_key(key@) && v@ == self@[key@],
                None => !self@.contains_key(key@),
            },
    {
        let k = key.to_owned();
        match find_key(&self.headers, &k) {
            Some(i) => {
                proof {
                    lemma_assoc_lookup(self.fields(), i as int);
                }
                Some(self.headers[i].1.clone())
            },
            None => {
                proof {
                    assert(!has_key(self.fields(), key@)) by {
                        if has_key(self.fields(), key@) {
                            let j = choose|j: int| 0 <= j < self.fields().len()
                                && self.fields()[j].0 == key@;
                            assert(keyed(self.headers@)[j].0 == key@);
                        }
                    }
                    lemma_assoc_absent(self.fields(), key@);
                }
                None
            },
        }
    }

    /// Stores `value` under `key`, replacing any value stored there before.
    pub fn set(&mut self, key: &str, value: &str)
        requires
            old(self).wf(),
        ensures
            final(self).wf(),
            final(self)@ == old(self)@.insert(key@, value@),
    {
        self.add(key, value);
    }

    /// Removes the value stored under `key`, if any.
    pub fn del(&mut self, key: &str)
        requires
            old(self).wf(),
        ensures
            final(self).wf(),
            final(self)@ == old(self)@.remove(key@),
    {
        let k = key.to_owned();
        match find_key(&self.headers, &k) {
            Some(i) => {
                proof {
                    lemma_assoc_remove(self.fields(), i as int);
                }
                self.headers.remove(i);
                assert(self.fields() =~= old(self).fields().remove(i as int));
                proof {
                    lemma_assoc_finite(self.fields());
                }
            },
            None => {
                proof {
                    assert(!has_key(self.fields(), key@)) by {
                        if has_key(self.fields(), key@) {
                            let j = choose|j: int| 0 <= j < self.fields().len()
                                && self.fields()[j].0 == key@;
                            assert(keyed(self.headers@)[j].0 == key@);
                        }
                    }
                    lemma_assoc_absent(self.fields(), key@);
                    assert(self@ =~= self@.remove(key@));
                }
            },
        }
    }

    fn add(&mut self, key: &str, value: &str)
        requires
            old(self).wf(),
        ensures
            final(self).wf(),
            final(self)@ == old(self)@.insert(key@, value@),
    {
        let k = key.to_owned();
        let v = value.to_owned();
        match find_key(&self.headers, &k) {
            Some(i) => {
                proof {
                    lemma_assoc_update(self.fields(), i as int, v@);
                }
                self.headers.set(i, (k, v));
                assert(self.fields() =~= old(self).fields().update(i as int, (key@, value@)));
                proof {
                    lemma_assoc_finite(self.fields());
                }
            },
            None => {
                proof {
                    assert(!has_key(self.fields(), key@)) by {
                        if has_key(self.fields(), key@) {
                            let j = choose|j: int| 0 <= j < self.fields().len()
                                && self.fields()[j].0 == key@;
                            assert(keyed(self.headers@)[j].0 == key@);
                        }
                    }
                    lemma_assoc_push(self.fields(), key@, value@);
                }
                self.headers.push((k, v));
                assert(self.fields() =~= old(self).fields().push((key@, value@)));
                proof {
                    lemma_assoc_finite(self.fields());
                }
            },
        }
    }
}

/// The wire form of one header field: `name: value` and a line break.
pub open spec fn field_line(f: (Seq<char>, Seq<char>)) -> Seq<u8> {
    encode_utf8(f.0) + encode_utf8(": "@) + encode_utf8(f.1) + encode_utf8("\r\n"@)
}

/// The wire form of a list of header fields, in order.
pub open spec fn field_lines(s: Seq<(Seq<char>, Seq<char>)>) -> Seq<u8>
    decreases s.len(),
{
    if s.len() == 0 {
        Seq::empty()
    } else {
        field_lines(s.drop_last()) + field_line(s.last())
    }
}

/// Appends `b` to `out`.
fn append_bytes(out: &mut Vec<u8>, b: &[u8])
    ensures
        final(out)@ == old(out)@ + b@,
{
    let mut i: usize = 0;
    while i < b.len()
        invariant
            i <= b@.len(),
            out@ == old(out)@ + b@.subrange(0, i as int),
        decreases b@.len() - i,
    {
        out.push(b[i]);
        i = i + 1;
        assert(b@.subrange(0, i as int) =~= b@.subrange(0, i - 1) + seq![b@[i - 1]]);
    }
    assert(b@.subrange(0, b@.len() as int) =~= b@);
}

impl Header {
    /// Appends the wire form of every field, in order.
    fn write_fields(&self, out: &mut Vec<u8>)
        ensures
            final(out)@ == old(out)@ + field_lines(self.fields()),
    {
        let mut i: usize = 0;
        while i < self.headers.len()
            invariant
                i <= self.headers@.len(),
                out@ == old(out)@ + field_lines(self.fields().take(i as int)),
            decreases self.headers@.len() - i,
        {
            let name = self.headers[i].0.as_str();
            let value = self.headers[i].1.as_str();
            append_bytes(out, name.as_bytes());
            append_bytes(out, ": ".as_bytes());
            append_bytes(out, value.as_bytes());
            append_bytes(out, "\r\n".as_bytes());
            proof {
                let f = self.fields();
                assert(f.take(i + 1).drop_last() =~= f.take(i as int));
                assert(f.take(i + 1).last() == f[i as int]);
            }
            i = i + 1;
        }
        assert(self.fields().take(i as int) =~= self.fields());
    }
}

/// The routing table: at most one handler per literal path.
#[derive(Clone)]
pub struct Router<H> {
    routes: Vec<(String, H)>,
}

impl<H> View for Router<H> {
    type V = Map<Seq<char>, H>;

    /// Each registered path with its handler.
    closed spec fn view(&self) -> Map<Seq<char>, H> {
        assoc_map(keyed(self.routes@))
    }
}

impl<H> Router<H> {
    /// No path is registered twice.
    pub closed spec fn wf(&self) -> bool {
        unique_keys(keyed(self.routes@))
    }

    /// A table with no routes.
    pub fn new() -> (r: Self)
        ensures
            r.wf(),
            r@ == Map::<Seq<char>, H>::empty(),
    {
        let r = Router { routes: Vec::new() };
        assert(keyed(r.routes@) =~= Seq::<(Seq<char>, H)>::empty());
        r
    }

    /// Registers `handler` for exactly `path`, replacing any handler registered there before.
    pub fn handle_func(&mut self, path: &str, handler: H)
        requires
            old(self).wf(),
        ensures
            final(self).wf(),
            final(self)@ == old(self)@.insert(path@, handler),
    {
        let k = path.to_owned();
        match find_key(&self.routes, &k) {
            Some(i) => {
                proof {
                    lemma_assoc_update(keyed(self.routes@), i as int, handler);
                }
                self.routes.set(i, (k, handler));
                assert(keyed(self.routes@) =~= keyed(old(self).routes@).update(
                    i as int,
                    (path@, handler),
                ));
            },
            None => {
                proof {
                    lemma_assoc_push(keyed(self.routes@), path@, handler);
                }
                self.routes.push((k, handler));
                assert(keyed(self.routes@) =~= keyed(old(self).routes@).push((path@, handler)));
            },
        }
    }

    /// The handler registered for exactly `path`, if any.
    pub fn get_handler(&self, path: &str) -> (r: Option<&H>)
        requires
            self.wf(),
        ensures
            match r {
                Some(h) => self@.contains_key(path@) && *h == self@[path@],
                None => !self@.contains_key(path@),
            },
    {
        let k = path.to_owned();
        match find_key(&self.routes, &k) {
            Some(i) => {
                proof {
                    lemma_assoc_lookup(keyed(self.routes@), i as int);
                }
                Some(&self.routes[i].1)
            },
            None => {
                proof {
                    lemma_assoc_absent(keyed(self.routes@), path@);
                }
                None
            },
        }
    }
}

/// A response as it leaves a handler: status, header fields and body.
pub struct HttpResponse {
    pub status_code: HttpStatus,
    pub headers: Header,
    pub body: Vec<u8>,
}

/// The wire form of a response: status line, header fields, blank line, body bytes.
pub open spec fn response_bytes(
    status: HttpStatus,
    fields: Seq<(Seq<char>, Seq<char>)>,
    body: Seq<u8>,
) -> Seq<u8> {
    encode_utf8("HTTP/1.1 "@) + encode_utf8(status_text(status)) + encode_utf8("\r\n"@)
        + field_lines(fields) + encode_utf8("\r\n"@) + body
}

impl HttpResponse {
    /// The bytes that go on the wire for this response. The body is copied byte for byte.
    pub fn to_bytes(&self) -> (r: Vec<u8>)
        ensures
            r@ == response_bytes(self.status_code, self.headers.fields(), self.body@),
    {
        let mut out: Vec<u8> = Vec::new();
        append_bytes(&mut out, "HTTP/1.1 ".as_bytes());
        append_bytes(&mut out, self.status_code.to_string().as_bytes());
        append_bytes(&mut out, "\r\n".as_bytes());
        self.headers.write_fields(&mut out);
        append_bytes(&mut out, "\r\n".as_bytes());
        append_bytes(&mut out, self.body.as_slice());
        out
    }
}

/// What a handler fills in: a status (200 until set), header fields and a body.
pub struct Writer {
    header: Header,
    status_code: HttpStatus,
    body: Vec<u8>,
}

impl Writer {
    /// The status set so far.
    pub closed spec fn status(&self) -> HttpStatus {
        self.status_code
    }

    /// The header fields set so far.
    pub closed spec fn fields(&self) -> Header {
        self.header
    }

    /// The body set so far.
    pub closed spec fn content(&self) -> Seq<u8> {
        self.body@
    }

    /// A fresh writer: status 200, no header fields, empty body.
    pub fn new() -> (r: Self)
        ensures
            r.status() == HttpStatus::OK,
            r.fields().wf(),
            r.fields()@ == Map::<Seq<char>, Seq<char>>::empty(),
            r.fields().fields().len() == 0,
            r.content().len() == 0,
    {
        Writer { header: Header::new(), status_code: HttpStatus::OK, body: Vec::new() }
    }

    /// The header fields, to read or change.
    pub fn header(&mut self) -> (r: &mut Header)
        ensures
            *r == old(self).fields(),
            final(self).fields() == *final(r),
            final(self).status() == old(self).status(),
            final(self).content() == old(self).content(),
    {
        &mut self.header
    }

    /// Replaces the body with `data`.
    pub fn write(&mut self, data: &[u8])
        ensures
            final(self).content() == data@,
            final(self).status() == old(self).status(),
            final(self).fields() == old(self).fields(),
    {
        self.body = vstd::slice::slice_to_vec(data);
    }

    /// Sets the status.
    pub fn write_header(&mut self, status_code: HttpStatus)
        ensures
            final(self).status() == status_code,
            final(self).content() == old(self).content(),
            final(self).fields() == old(self).fields(),
    {
        self.status_code = status_code;
    }
}

/// Why a request could not be parsed.
#[derive(Clone, Copy, Debug, PartialEq, Eq, Structural)]
pub enum ParseError {
    /// The header block is empty.
    MissingRequestLine,
    /// The request line holds no token.
    NoMethod,
    /// The request line holds a single token.
    NoPath,
}

/// The description of each parse error.
pub open spec fn parse_error_text(e: ParseError) -> Seq<char> {
    match e {
        ParseError::MissingRequestLine => "Invalid HTTP request: Missing request line"@,
        ParseError::NoMethod => "No method"@,
        ParseError::NoPath => "No path"@,
    }
}

impl ParseError {
    /// A description for logs.
    pub fn message(&self) -> (r: &'static str)
        ensures
            r@ == parse_error_text(*self),
    {
        match self {
            ParseError::MissingRequestLine => "Invalid HTTP request: Missing request line",
            ParseError::NoMethod => "No method",
            ParseError::NoPath => "No path",
        }
    }
}

/// A parsed request.
pub struct HttpRequest {
    pub method: String,
    pub path: String,
    pub headers: Header,
    pub body: Vec<u8>,
    /// The peer's transport address, as text.
    pub socket: String,
}

/// The lines of `s`, split at each line feed.
pub open spec fn split_lines(s: Seq<u8>) -> Seq<Seq<u8>>
    decreases s.len(),
{
    let e = find_byte(s, 10);
    if 0 <= e < s.len() {
        seq![s.take(e)] + split_lines(s.skip(e + 1))
    } else {
        seq![s]
    }
}

/// The request line: the first line of the header block received.
pub open spec fn request_line(s: Seq<u8>) -> Seq<u8> {
    split_lines(head_of(s))[0]
}

/// The lines of the header block after the request line.
pub open spec fn header_lines(s: Seq<u8>) -> Seq<Seq<u8>> {
    split_lines(head_of(s)).drop_first()
}

/// The method and path: the first two white-space separated tokens of the decoded request
/// line. Nothing received means no request line; a request line without tokens has no method.
pub open spec fn request_parts(s: Seq<u8>) -> Result<(Seq<char>, Seq<char>), ParseError> {
    if s.len() == 0 {
        Err(ParseError::MissingRequestLine)
    } else {
        let t = trim_start_chars(lossy_text(request_line(s)));
        if t.len() == 0 {
            Err(ParseError::NoMethod)
        } else {
            let t2 = trim_start_chars(t.skip(find_space(t)));
            if t2.len() == 0 {
                Err(ParseError::NoPath)
            } else {
                Ok((t.take(find_space(t)), t2.take(find_space(t2))))
            }
        }
    }
}

/// An empty line, or one holding only a carriage return.
pub open spec fn is_blank(line: Seq<u8>) -> bool {
    line.len() == 0 || (line.len() == 1 && line[0] == 13)
}

/// The index of the first blank line, or the number of lines.
pub open spec fn first_blank(lines: Seq<Seq<u8>>) -> int
    decreases lines.len(),
{
    if lines.len() == 0 {
        0
    } else if is_blank(lines[0]) {
        0
    } else {
        1 + first_blank(lines.drop_first())
    }
}

/// The field a header line gives: the decoded line split at its first `:`, both sides trimmed;
/// none for a line without `:`.
pub open spec fn field_entry(line: Seq<u8>) -> Option<(Seq<char>, Seq<char>)> {
    let t = lossy_text(line);
    let c = find_char(t, ':');
    if 0 <= c < t.len() {
        Some((trim_chars(t.take(c)), trim_chars(t.skip(c + 1))))
    } else {
        None
    }
}

/// The header fields that `lines` give, read in order: a later line for a name replaces an
/// earlier one.
pub open spec fn fields_of(lines: Seq<Seq<u8>>) -> Map<Seq<char>, Seq<char>>
    decreases lines.len(),
{
    if lines.len() == 0 {
        Map::empty()
    } else {
        match field_entry(lines.last()) {
            Some(e) => fields_of(lines.drop_last()).insert(e.0, e.1),
            None => fields_of(lines.drop_last()),
        }
    }
}

/// The header fields of a request: those of its header lines up to the first blank one.
pub open spec fn request_fields(s: Seq<u8>) -> Map<Seq<char>, Seq<char>> {
    fields_of(header_lines(s).take(first_blank(header_lines(s))))
}

/// The body of a request: the body bytes received, cut to the declared length.
pub open spec fn request_body(s: Seq<u8>) -> Seq<u8> {
    let b = body_of(s);
    let n = declared_length(head_of(s));
    if b.len() <= n {
        b
    } else {
        b.take(n as int)
    }
}

/// `r` is the outcome of parsing the request in the bytes `s`, received from `socket`. Where
/// a decoded line is valid UTF-8, its text is its UTF-8 decoding.
pub open spec fn parsed_as(r: Result<HttpRequest, ParseError>, s: Seq<u8>, socket: String) -> bool {
    match (r, request_parts(s)) {
        (Ok(req), Ok((m, p))) => {
            &&& req.method@ == m
            &&& req.path@ == p
            &&& req.headers.wf()
            &&& req.headers@ == request_fields(s)
            &&& req.body@ == request_body(s)
            &&& req.socket == socket
            &&& valid_utf8(request_line(s)) ==> lossy_text(request_line(s)) == decode_utf8(
                request_line(s),
            )
            &&& forall|j: int|
                0 <= j < first_blank(header_lines(s)) && valid_utf8(#[trigger] header_lines(s)[j])
                    ==> lossy_text(header_lines(s)[j]) == decode_utf8(header_lines(s)[j])
        },
        (Err(e), Err(f)) => e == f,
        _ => false,
    }
}

/// `first_blank` is the index of the first blank line, or the number of lines.
pub proof fn lemma_first_blank(lines: Seq<Seq<u8>>)
    ensures
        0 <= first_blank(lines) <= lines.len(),
        forall|j: int| 0 <= j < first_blank(lines) ==> !is_blank(#[trigger] lines[j]),
        first_blank(lines) < lines.len() ==> is_blank(lines[first_blank(lines)]),
    decreases lines.len(),
{
    if lines.len() > 0 && !is_blank(lines[0]) {
        lemma_first_blank(lines.drop_first());
        assert forall|j: int| 0 <= j < first_blank(lines) implies !is_blank(#[trigger] lines[j]) by {
            if j > 0 {
                assert(lines[j] == lines.drop_first()[j - 1]);
            }
        }
    }
}

/// Reads the header lines of `s[from..to]` into `headers`, up to the first blank line.
fn read_fields(s: &[u8], from: usize, to: usize, headers: &mut Header)
    requires
        from <= to <= s@.len(),
        old(headers).wf(),
        old(headers)@ == Map::<Seq<char>, Seq<char>>::empty(),
    ensures
        final(headers).wf(),
        ({
            let lines = split_lines(s@.subrange(from as int, to as int));
            &&& final(headers)@ == fields_of(lines.take(first_blank(lines)))
            &&& forall|j: int|
                0 <= j < first_blank(lines) && valid_utf8(#[trigger] lines[j]) ==> lossy_text(
                    lines[j],
                ) == decode_utf8(lines[j])
        }),
{
    let ghost lines = split_lines(s@.subrange(from as int, to as int));
    let mut p: usize = from;
    let mut k: usize = 0;
    proof {
        assert(s@.subrange(from as int, to as int) =~= s@.subrange(p as int, to as int));
        assert(lines.skip(0) =~= lines);
        assert(lines.take(0) =~= Seq::<Seq<u8>>::empty());
    }
    loop
        invariant
            from <= p <= to,
            to <= s@.len(),
            lines == split_lines(s@.subrange(from as int, to as int)),
            split_lines(s@.subrange(p as int, to as int)) == lines.skip(k as int),
            k < lines.len(),
            k <= p - from,
            forall|j: int| 0 <= j < k ==> !is_blank(#[trigger] lines[j]),
            forall|j: int|
                0 <= j < k && valid_utf8(#[trigger] lines[j]) ==> lossy_text(lines[j])
                    == decode_utf8(lines[j]),
            headers.wf(),
            headers@ == fields_of(lines.take(k as int)),
        decreases to - p,
    {
        let ghost rest = s@.subrange(p as int, to as int);
        let e = find_byte_in(s, p, to, 10);
        proof {
            lemma_find_byte(rest, 10);
            assert(rest.take(e - p) =~= s@.subrange(p as int, e as int));
            assert(split_lines(rest)[0] == rest.take(e - p));
            assert(lines.skip(k as int)[0] == lines[k as int]);
            lemma_first_blank(lines);
        }
        let ghost line = s@.subrange(p as int, e as int);
        if e == p || (e == p + 1 && s[p] == 13) {
            proof {
                assert(is_blank(lines[k as int]));
            }
            return;
        }
        let text = text_of(vstd::slice::slice_subrange(s, p, e));
        let tt = text.as_str();
        let n = tt.unicode_len();
        assert(tt@.subrange(0, n as int) =~= tt@);
        let c = find_char_in(tt, 0, n, ':');
        if c < n {
            assert(tt@.take(c as int) =~= tt@.subrange(0, c as int));
            assert(tt@.skip(c + 1) =~= tt@.subrange(c + 1, n as int));
            let (ka, kb) = trim_str(tt, 0, c);
            let (va, vb) = trim_str(tt, c + 1, n);
            let key = sub_text(tt, ka, kb);
            let value = sub_text(tt, va, vb);
            headers.set(key.as_str(), value.as_str());
        }
        proof {
            let t1 = lines.take(k + 1);
            assert(t1.drop_last() =~= lines.take(k as int));
            assert(t1.last() == line);
            assert(headers@ == fields_of(t1));
        }
        if e == to {
            proof {
                assert(split_lines(rest) =~= seq![rest]);
                assert(lines.len() == k + 1);
            }
            proof {
                assert(lines.take(k + 1) =~= lines);
            }
            return;
        }
        proof {
            assert(rest.skip(e - p + 1) =~= s@.subrange(e + 1, to as int));
            assert(lines.skip(k + 1) =~= lines.skip(k as int).drop_first());
            assert(split_lines(rest).drop_first() =~= split_lines(s@.subrange(e + 1, to as int)));
        }
        p = e + 1;
        k = k + 1;
    }
}

impl HttpRequest {
    /// Parses the request that `buffer` holds, from the peer at `socket`.
    pub fn parser(buffer: DynamicBuffer, socket: String) -> (r: Result<HttpRequest, ParseError>)
        requires
            buffer.wf(),
        ensures
            parsed_as(r, buffer.received(), socket),
    {
        let s = buffer.bytes();
        let h_len = buffer.head_len();
        let ghost h = s@.take(h_len as int);
        if s.len() == 0 {
            return Err(ParseError::MissingRequestLine);
        }
        let e0 = find_byte_in(s, 0, h_len, 10);
        proof {
            assert(h =~= s@.subrange(0, h_len as int));
            lemma_find_byte(h, 10);
            assert(h.take(e0 as int) =~= s@.subrange(0, e0 as int));
            assert(split_lines(h)[0] == h.take(e0 as int));
        }
        let line = text_of(vstd::slice::slice_subrange(s, 0, e0));
        let lt = line.as_str();
        let n = lt.unicode_len();
        assert(lt@.subrange(0, n as int) =~= lt@);
        let a = trim_start_str(lt, 0, n);
        if a == n {
            return Err(ParseError::NoMethod);
        }
        let m_end = find_space_in(lt, a, n);
        let ghost t = lt@.subrange(a as int, n as int);
        proof {
            lemma_find_space(t);
            assert(t.take(m_end - a) =~= lt@.subrange(a as int, m_end as int));
            assert(t.skip(m_end - a) =~= lt@.subrange(m_end as int, n as int));
        }
        let b = trim_start_str(lt, m_end, n);
        if b == n {
            return Err(ParseError::NoPath);
        }
        let p_end = find_space_in(lt, b, n);
        proof {
            let t2 = lt@.subrange(b as int, n as int);
            lemma_find_space(t2);
            assert(t2.take(p_end - b) =~= lt@.subrange(b as int, p_end as int));
        }
        let method = sub_text(lt, a, m_end);
        let path = sub_text(lt, b, p_end);
        let mut headers = Header::new();
        if e0 < h_len {
            proof {
                assert(h.skip(e0 + 1) =~= s@.subrange(e0 + 1, h_len as int));
                assert(split_lines(h).drop_first() =~= split_lines(h.skip(e0 + 1)));
            }
            read_fields(s, e0 + 1, h_len, &mut headers);
        } else {
            proof {
                assert(split_lines(h) =~= seq![h]);
                let hl = split_lines(h).drop_first();
                assert(hl =~= Seq::<Seq<u8>>::empty());
                assert(hl.take(first_blank(hl)) =~= Seq::<Seq<u8>>::empty());
            }
        }
        let body_bytes = buffer.body();
        let cl = buffer.content_length();
        let body = if body_bytes.len() <= cl {
            vstd::slice::slice_to_vec(body_bytes)
        } else {
            vstd::slice::slice_to_vec(vstd::slice::slice_subrange(body_bytes, 0, cl))
        };
        proof {
            if body_bytes@.len() > cl {
                assert(body_bytes@.subrange(0, cl as int) =~= body_bytes@.take(cl as int));
            }
        }
        Ok(HttpRequest { method, path, headers, body, socket })
    }
}

/// The header line `line` gives a field named `k`.
pub open spec fn gives_field(line: Seq<u8>, k: Seq<char>) -> bool {
    match field_entry(line) {
        Some(e) => e.0 == k,
        None => false,
    }
}

/// The value of the field a header line gives (empty for a line that gives none).
pub open spec fn field_value(line: Seq<u8>) -> Seq<char> {
    match field_entry(line) {
        Some(e) => e.1,
        None => Seq::empty(),
    }
}

/// Header fields are read in order and a repeated name keeps its last value: a name is among
/// the fields of `lines` exactly when some line gives it, and its value is the one the last
/// such line (`i`) gives.
pub proof fn lemma_fields_last_wins(lines: Seq<Seq<u8>>, k: Seq<char>, i: int)
    ensures
        fields_of(lines).contains_key(k) <==> exists|j: int|
            0 <= j < lines.len() && #[trigger] gives_field(lines[j], k),
        0 <= i < lines.len() && gives_field(lines[i], k) && (forall|j: int|
            i < j < lines.len() ==> !#[trigger] gives_field(lines[j], k)) ==> fields_of(lines).contains_key(k)
            && fields_of(lines)[k] == field_value(lines[i]),
    decreases lines.len(),
{
    if lines.len() > 0 {
        let d = lines.drop_last();
        let last = lines.len() - 1;
        let ii = if i < last { i } else { 0 };
        lemma_fields_last_wins(d, k, ii);
        assert forall|j: int| 0 <= j < d.len() implies d[j] == lines[j] by {}
        if fields_of(lines).contains_key(k) && !gives_field(lines[last], k) {
            let j = choose|j: int| 0 <= j < d.len() && #[trigger] gives_field(d[j], k);
            assert(gives_field(lines[j], k));
        }
        if exists|j: int| 0 <= j < lines.len() && #[trigger] gives_field(lines[j], k) {
            let j = choose|j: int| 0 <= j < lines.len() && #[trigger] gives_field(lines[j], k);
            if j < last {
                assert(gives_field(d[j], k));
            }
        }
        if 0 <= i < last && gives_field(lines[i], k) && (forall|j: int|
            i < j < lines.len() ==> !#[trigger] gives_field(lines[j], k)) {
            assert(gives_field(d[i], k));
            assert forall|j: int| i < j < d.len() implies !#[trigger] gives_field(d[j], k) by {
                assert(!gives_field(lines[j], k));
            }
            assert(!gives_field(lines[last], k));
        }
    }
}

/// The parsed header fields of a request are those of its header lines before the first blank
/// line, the last line for a name (`i`) giving its value.
pub proof fn lemma_request_fields(s: Seq<u8>, k: Seq<char>, i: int)
    ensures
        ({
            let lines = header_lines(s).take(first_blank(header_lines(s)));
            &&& request_fields(s).contains_key(k) <==> exists|j: int|
                0 <= j < lines.len() && #[trigger] gives_field(lines[j], k)
            &&& 0 <= i < lines.len() && gives_field(lines[i], k) && (forall|j: int|
                i < j < lines.len() ==> !#[trigger] gives_field(lines[j], k))
                ==> request_fields(s)[k] == field_value(lines[i])
        }),
{
    let lines = header_lines(s).take(first_blank(header_lines(s)));
    lemma_fields_last_wins(lines, k, i);
}

/// The routing table resolves by exact path, and the latest registration wins: after
/// registering `first` and then `second` for `path`, `path` resolves to `second`; a path that
/// was never registered in a table that started empty resolves to nothing.
pub proof fn lemma_router_exact_match<H>(
    r0: Router<H>,
    r1: Router<H>,
    r2: Router<H>,
    path: Seq<char>,
    first: H,
    second: H,
    other: Seq<char>,
)
    requires
        r1@ == r0@.insert(path, first),
        r2@ == r1@.insert(path, second),
    ensures
        r2@.contains_key(path),
        r2@[path] == second,
        r0@ == Map::<Seq<char>, H>::empty() && other != path ==> !r2@.contains_key(other),
{
}

impl Writer {
    /// The response sent for a path with no handler: status 404 and the body `Not Found`.
    pub fn not_found() -> (r: Self)
        ensures
            r.status() == HttpStatus::NotFound,
            r.fields().wf(),
            r.fields()@ == Map::<Seq<char>, Seq<char>>::empty(),
            r.fields().fields().len() == 0,
            r.content() == not_found_body(),
    {
        let mut w = Writer::new();
        w.status_code = HttpStatus::NotFound;
        let text: [u8; 9] = [78, 111, 116, 32, 70, 111, 117, 110, 100];
        w.body = vstd::slice::slice_to_vec(text.as_slice());
        assert(w.body@ =~= not_found_body());
        w
    }

    /// The response this writer holds.
    pub fn into_response(self) -> (r: HttpResponse)
        ensures
            r.status_code == self.status(),
            r.headers == self.fields(),
            r.body@ == self.content(),
    {
        HttpResponse { status_code: self.status_code, headers: self.header, body: self.body }
    }
}

/// The ASCII bytes of `Not Found`.
pub open spec fn not_found_body() -> Seq<u8> {
    seq![78u8, 111, 116, 32, 70, 111, 117, 110, 100]
}

} // verus!
