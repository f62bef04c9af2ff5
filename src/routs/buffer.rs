use vstd::prelude::*;
use crate::routs::text::{find_byte, parse_usize, find_byte_in, parse_usize_in, lemma_find_byte,
    lossy_text, text_of, find_char, trim_chars, find_char_in, trim_str};
use vstd::string::StrSliceExecFns;

verus! {

/// The header/body delimiter `\r\n\r\n` starts at index `i` of `s`.
pub open spec fn delim_at(s: Seq<u8>, i: int) -> bool {
    0 <= i && i + 4 <= s.len() && s[i] == 13 && s[i + 1] == 10 && s[i + 2] == 13 && s[i + 3] == 10
}

/// The first index at or after `i` where the delimiter starts.
pub open spec fn delim_from(s: Seq<u8>, i: int) -> Option<int>
    decreases s.len() - i,
{
    if i < 0 || i + 4 > s.len() {
        None
    } else if delim_at(s, i) {
        Some(i)
    } else {
        delim_from(s, i + 1)
    }
}

/// Where the header block ends: the first index where the delimiter starts.
pub open spec fn first_delim(s: Seq<u8>) -> Option<int> {
    delim_from(s, 0)
}

/// The lower-case header name `content-length`.
pub open spec fn content_length_name() -> Seq<char> {
    seq!['c', 'o', 'n', 't', 'e', 'n', 't', '-', 'l', 'e', 'n', 'g', 't', 'h']
}

/// ASCII lower case of a character.
pub open spec fn ascii_lower(c: char) -> char {
    if 'A' <= c && c <= 'Z' {
        (((c as u32) + 32) as u8) as char
    } else {
        c
    }
}

/// `k` is `Content-Length` in any mix of ASCII case.
pub open spec fn is_content_length(k: Seq<char>) -> bool {
    k.len() == 14 && forall|i: int| 0 <= i < 14 ==> ascii_lower(#[trigger] k[i])
        == content_length_name()[i]
}

/// The body length after reading one header line, given the length declared before it: a
/// decoded line whose name (before the first `:`, trimmed) is `Content-Length` sets it to its
/// trimmed value, or to 0 when the value is not a number.
pub open spec fn line_length(line: Seq<u8>, acc: usize) -> usize {
    let t = lossy_text(line);
    let c = find_char(t, ':');
    if 0 <= c < t.len() && is_content_length(trim_chars(t.take(c))) {
        match parse_usize(trim_chars(t.skip(c + 1))) {
            Some(n) => n,
            None => 0,
        }
    } else {
        acc
    }
}

/// The body length that the lines of `s` declare, starting from `acc`; the last
/// `Content-Length` line wins.
pub open spec fn scan_length(s: Seq<u8>, acc: usize) -> usize
    decreases s.len(),
{
    let e = find_byte(s, 10);
    let next = line_length(s.take(e), acc);
    if 0 <= e < s.len() {
        scan_length(s.skip(e + 1), next)
    } else {
        next
    }
}

/// The body length that a header block declares (0 when it declares none).
pub open spec fn declared_length(head: Seq<u8>) -> usize {
    scan_length(head, 0)
}

/// The header block of the bytes received: all of them while no delimiter has come.
pub open spec fn head_of(s: Seq<u8>) -> Seq<u8> {
    match first_delim(s) {
        Some(p) => s.take(p),
        None => s,
    }
}

/// The body bytes received: everything after the delimiter.
pub open spec fn body_of(s: Seq<u8>) -> Seq<u8> {
    match first_delim(s) {
        Some(p) => s.skip(p + 4),
        None => Seq::empty(),
    }
}

/// A message is complete once its header block has ended and at least the declared number of
/// body bytes has come.
pub open spec fn frame_done(s: Seq<u8>) -> bool {
    match first_delim(s) {
        Some(p) => s.len() - (p + 4) >= declared_length(s.take(p)),
        None => false,
    }
}

/// The bytes received when `chunks` are read in order after `acc`, stopping at the first chunk
/// after which the message is complete, or at an empty read (the peer closed).
pub open spec fn feed_all(acc: Seq<u8>, chunks: Seq<Seq<u8>>) -> Seq<u8>
    decreases chunks.len(),
{
    if chunks.len() == 0 || chunks[0].len() == 0 {
        acc
    } else if frame_done(acc + chunks[0]) {
        acc + chunks[0]
    } else {
        feed_all(acc + chunks[0], chunks.drop_first())
    }
}

/// A message made of a header block, the delimiter and a body.
pub open spec fn message(head: Seq<u8>, body: Seq<u8>) -> Seq<u8> {
    head + seq![13u8, 10, 13, 10] + body
}

/// `delim_from` finds the first delimiter at or after `i`.
pub proof fn lemma_delim_from(s: Seq<u8>, i: int)
    requires
        0 <= i,
    ensures
        match delim_from(s, i) {
            Some(p) => i <= p && delim_at(s, p) && forall|j: int| i <= j < p ==> !delim_at(s, j),
            None => forall|j: int| i <= j ==> !delim_at(s, j),
        },
    decreases s.len() - i,
{
    if i + 4 <= s.len() && !delim_at(s, i) {
        lemma_delim_from(s, i + 1);
    }
}

/// `first_delim` finds the first delimiter, and none exists when it finds none.
pub proof fn lemma_first_delim(s: Seq<u8>)
    ensures
        match first_delim(s) {
            Some(p) => 0 <= p && delim_at(s, p) && forall|j: int| 0 <= j < p ==> !delim_at(s, j),
            None => forall|j: int| 0 <= j ==> !delim_at(s, j),
        },
{
    lemma_delim_from(s, 0);
}

/// Whether `t[from..to]` is `Content-Length` in any mix of ASCII case.
fn is_content_length_in(t: &str, from: usize, to: usize) -> (r: bool)
    requires
        from <= to <= t@.len(),
    ensures
        r == is_content_length(t@.subrange(from as int, to as int)),
{
    if to - from != 14 {
        return false;
    }
    let name: [char; 14] = ['c', 'o', 'n', 't', 'e', 'n', 't', '-', 'l', 'e', 'n', 'g', 't', 'h'];
    assert(name@ =~= content_length_name());
    let ghost k = t@.subrange(from as int, to as int);
    let mut i: usize = 0;
    while i < 14
        invariant
            i <= 14,
            to - from == 14,
            to <= t@.len(),
            k == t@.subrange(from as int, to as int),
            name@ == content_length_name(),
            forall|j: int| 0 <= j < i ==> ascii_lower(#[trigger] k[j]) == content_length_name()[j],
        decreases 14 - i,
    {
        let c = t.get_char(from + i);
        assert(k[i as int] == c);
        let l = if 'A' <= c && c <= 'Z' { (((c as u32) + 32) as u8) as char } else { c };
        if l != name[i] {
            return false;
        }
        i = i + 1;
    }
    true
}

/// The body length after the header line `s[from..to]`, given the length `acc` declared before.
fn line_length_in(s: &[u8], from: usize, to: usize, acc: usize) -> (r: usize)
    requires
        from <= to <= s@.len(),
    ensures
        r == line_length(s@.subrange(from as int, to as int), acc),
{
    let text = text_of(vstd::slice::slice_subrange(s, from, to));
    let t = text.as_str();
    let n = t.unicode_len();
    assert(t@.subrange(0, n as int) =~= t@);
    let c = find_char_in(t, 0, n, ':');
    if c == n {
        return acc;
    }
    assert(t@.take(c as int) =~= t@.subrange(0, c as int));
    assert(t@.skip(c + 1) =~= t@.subrange(c + 1, n as int));
    let (ka, kb) = trim_str(t, 0, c);
    if !is_content_length_in(t, ka, kb) {
        return acc;
    }
    let (va, vb) = trim_str(t, c + 1, n);
    match parse_usize_in(t, va, vb) {
        Some(v) => v,
        None => 0,
    }
}

/// The body length that the header block `s[from..to]` declares.
fn declared_length_in(s: &[u8], from: usize, to: usize) -> (r: usize)
    requires
        from <= to <= s@.len(),
    ensures
        r == declared_length(s@.subrange(from as int, to as int)),
{
    let mut p: usize = from;
    let mut acc: usize = 0;
    loop
        invariant
            from <= p <= to,
            to <= s@.len(),
            scan_length(s@.subrange(p as int, to as int), acc) == declared_length(
                s@.subrange(from as int, to as int),
            ),
        decreases to - p,
    {
        let ghost rest = s@.subrange(p as int, to as int);
        let e = find_byte_in(s, p, to, 10);
        proof {
            lemma_find_byte(rest, 10);
            assert(rest.take(e - p) =~= s@.subrange(p as int, e as int));
        }
        acc = line_length_in(s, p, e, acc);
        if e == to {
            return acc;
        }
        assert(rest.skip(e - p + 1) =~= s@.subrange(e + 1, to as int));
        p = e + 1;
    }
}

/// Collects the bytes of one request as they are read: the header block, and then a body of
/// the length the header block declares.
pub struct DynamicBuffer {
    headers: Vec<u8>,
    body: Vec<u8>,
    header_end: Option<usize>,
    content_length: usize,
}

impl DynamicBuffer {
    /// Every byte received so far.
    pub closed spec fn received(&self) -> Seq<u8> {
        self.headers@
    }

    /// The fields agree with the bytes received.
    pub closed spec fn wf(&self) -> bool {
        &&& (self.header_end is Some <==> first_delim(self.headers@) is Some)
        &&& (self.header_end is Some ==> first_delim(self.headers@) == Some(
            self.header_end->0 as int,
        ))
        &&& self.body@ == body_of(self.headers@)
        &&& self.content_length == match first_delim(self.headers@) {
            Some(_) => declared_length(head_of(self.headers@)),
            None => 0usize,
        }
    }

    /// A buffer that has received nothing.
    pub fn new() -> (r: Self)
        ensures
            r.wf(),
            r.received().len() == 0,
    {
        let r = DynamicBuffer { headers: Vec::new(), body: Vec::new(), header_end: None, content_length: 0 };
        proof {
            lemma_first_delim(r.headers@);
        }
        r
    }

    /// Takes the bytes of one read, and tells whether the message is now complete.
    pub fn feed(&mut self, chunk: &[u8]) -> (done: bool)
        requires
            old(self).wf(),
        ensures
            final(self).wf(),
            final(self).received() == old(self).received() + chunk@,
            done == frame_done(final(self).received()),
    {
        let ghost before = self.headers@;
        proof {
            lemma_first_delim(before);
        }
        let old_len = self.headers.len();
        let mut i: usize = 0;
        while i < chunk.len()
            invariant
                i <= chunk@.len(),
                self.headers@ == before + chunk@.subrange(0, i as int),
                self.body@ == body_of(before) + (if self.header_end is Some {
                    chunk@.subrange(0, i as int)
                } else {
                    Seq::empty()
                }),
                self.header_end == old(self).header_end,
                self.content_length == old(self).content_length,
                old(self).wf(),
                before == old(self).headers@,
            decreases chunk@.len() - i,
        {
            self.headers.push(chunk[i]);
            if self.header_end.is_some() {
                self.body.push(chunk[i]);
            }
            i = i + 1;
            assert(chunk@.subrange(0, i as int) =~= chunk@.subrange(0, i - 1) + seq![chunk@[i - 1]]);
        }
        assert(chunk@.subrange(0, chunk@.len() as int) =~= chunk@);
        let ghost after = self.headers@;
        proof {
            lemma_first_delim(after);
        }
        match self.header_end {
            Some(p) => {
                proof {
                    assert forall|j: int| 0 <= j < p implies !delim_at(after, j) by {
                        assert(delim_at(after, j) == delim_at(before, j));
                    }
                    assert(delim_at(after, p as int) == delim_at(before, p as int));
                    assert(after.take(p as int) =~= before.take(p as int));
                    assert(after.skip(p + 4) =~= before.skip(p + 4) + chunk@);
                }
            },
            None => {
                let start: usize = if old_len >= 3 { old_len - 3 } else { 0 };
                let mut j: usize = start;
                proof {
                    assert forall|k: int| 0 <= k && k + 4 <= before.len() implies delim_at(after, k)
                        == delim_at(before, k) by {
                        assert(after[k] == before[k] && after[k + 1] == before[k + 1]);
                        assert(after[k + 2] == before[k + 2] && after[k + 3] == before[k + 3]);
                    }
                    assert forall|k: int| 0 <= k < j implies !delim_at(after, k) by {
                        assert(!delim_at(before, k));
                    }
                }
                while 4 <= self.headers.len() - j && !(self.headers[j] == 13 && self.headers[j + 1]
                    == 10 && self.headers[j + 2] == 13 && self.headers[j + 3] == 10)
                    invariant
                        start <= j,
                        j <= self.headers@.len(),
                        self.headers@ == after,
                        forall|k: int| 0 <= k < j ==> !delim_at(after, k),
                        forall|k: int| 0 <= k && k + 4 <= before.len() ==> delim_at(after, k)
                            == delim_at(before, k),
                    decreases self.headers@.len() - j,
                {
                    j = j + 1;
                }
                if 4 <= self.headers.len() - j {
                    let body_bytes = vstd::slice::slice_subrange(
                        self.headers.as_slice(),
                        j + 4,
                        self.headers.len(),
                    );
                    self.body = vstd::slice::slice_to_vec(body_bytes);
                    self.header_end = Some(j);
                    let n = declared_length_in(self.headers.as_slice(), 0, j);
                    self.content_length = n;
                    proof {
                        assert(delim_at(after, j as int));
                        assert(after.subrange(0, j as int) =~= after.take(j as int));
                    }
                } else {
                    proof {
                        assert forall|k: int| 0 <= k implies !delim_at(after, k) by {
                            if k < j {
                            } else {
                                assert(!(k + 4 <= after.len()));
                            }
                        }
                    }
                }
            },
        }
        match self.header_end {
            Some(_) => self.body.len() >= self.content_length,
            None => false,
        }
    }
}

/// The contents of a list of chunks.
pub open spec fn chunk_views(chunks: Seq<Vec<u8>>) -> Seq<Seq<u8>> {
    chunks.map_values(|c: Vec<u8>| c@)
}

impl DynamicBuffer {
    /// Every byte received so far.
    pub fn bytes(&self) -> (r: &[u8])
        ensures
            r@ == self.received(),
    {
        self.headers.as_slice()
    }

    /// The length of the header block received so far.
    pub fn head_len(&self) -> (r: usize)
        requires
            self.wf(),
        ensures
            r <= self.received().len(),
            self.received().take(r as int) == head_of(self.received()),
    {
        proof {
            lemma_first_delim(self.headers@);
        }
        match self.header_end {
            Some(p) => p,
            None => {
                assert(self.headers@.take(self.headers@.len() as int) =~= self.headers@);
                self.headers.len()
            },
        }
    }

    /// The body bytes received so far.
    pub fn body(&self) -> (r: &[u8])
        requires
            self.wf(),
        ensures
            r@ == body_of(self.received()),
    {
        self.body.as_slice()
    }

    /// The body length that the header block declares (0 while the header block is incomplete).
    pub fn content_length(&self) -> (r: usize)
        requires
            self.wf(),
        ensures
            r == match first_delim(self.received()) {
                Some(_) => declared_length(head_of(self.received())),
                None => 0usize,
            },
    {
        self.content_length
    }
}

impl DynamicBuffer {
    /// Takes the reads `chunks` in order, stopping after the first one that completes the
    /// message or at an empty one (the peer closed); tells whether the message is complete.
    pub fn read_headers_and_body(&mut self, chunks: &Vec<Vec<u8>>) -> (done: bool)
        requires
            old(self).wf(),
        ensures
            final(self).wf(),
            final(self).received() == feed_all(old(self).received(), chunk_views(chunks@)),
            done == (final(self).received().len() > old(self).received().len() && frame_done(
                final(self).received(),
            )),
    {
        let ghost views = chunk_views(chunks@);
        assert(views.skip(0) =~= views);
        let mut i: usize = 0;
        while i < chunks.len()
            invariant
                i <= chunks@.len(),
                views == chunk_views(chunks@),
                self.wf(),
                feed_all(self.received(), views.skip(i as int)) == feed_all(
                    old(self).received(),
                    views,
                ),
                i > 0 ==> !frame_done(self.received()),
                i > 0 ==> self.received().len() > old(self).received().len(),
                i == 0 ==> self.received() == old(self).received(),
            decreases chunks@.len() - i,
        {
            if chunks[i].len() == 0 {
                return false;
            }
            let done = self.feed(chunks[i].as_slice());
            assert(views.skip(i as int)[0] == chunks@[i as int]@);
            assert(views.skip(i as int).drop_first() =~= views.skip(i + 1));
            i = i + 1;
            if done {
                return true;
            }
        }
        assert(views.skip(i as int) =~= Seq::<Seq<u8>>::empty());
        false
    }
}

proof fn lemma_prefix_delim(head: Seq<u8>, body: Seq<u8>, rest: Seq<u8>, n: int)
    requires
        first_delim(message(head, body)) == Some(head.len() as int),
        0 <= n <= message(head, body).len() + rest.len(),
    ensures
        first_delim((message(head, body) + rest).take(n)) == if n >= head.len() + 4 {
            Some(head.len() as int)
        } else {
            None
        },
{
    let m = message(head, body);
    let st = m + rest;
    let q = st.take(n);
    let h = head.len() as int;
    lemma_first_delim(m);
    lemma_first_delim(q);
    assert forall|j: int| 0 <= j < h implies !delim_at(q, j) by {
        if delim_at(q, j) {
            assert(q[j] == m[j] && q[j + 1] == m[j + 1] && q[j + 2] == m[j + 2] && q[j + 3] == m[j
                + 3]);
            assert(delim_at(m, j));
        }
    }
    if n >= h + 4 {
        assert(q[h] == m[h] && q[h + 1] == m[h + 1] && q[h + 2] == m[h + 2] && q[h + 3] == m[h + 3]);
        assert(delim_at(q, h));
    } else {
        assert forall|j: int| 0 <= j implies !delim_at(q, j) by {}
    }
}

proof fn lemma_done_prefix(head: Seq<u8>, body: Seq<u8>, rest: Seq<u8>, n: int)
    requires
        first_delim(message(head, body)) == Some(head.len() as int),
        declared_length(head) == body.len(),
        0 <= n <= message(head, body).len() + rest.len(),
    ensures
        frame_done((message(head, body) + rest).take(n)) == (n >= message(head, body).len()),
{
    lemma_prefix_delim(head, body, rest, n);
    if n >= head.len() + 4 {
        assert((message(head, body) + rest).take(n).take(head.len() as int) =~= head);
    }
}

proof fn lemma_feed_all(
    head: Seq<u8>,
    body: Seq<u8>,
    rest: Seq<u8>,
    acc: Seq<u8>,
    chunks: Seq<Seq<u8>>,
)
    requires
        first_delim(message(head, body)) == Some(head.len() as int),
        declared_length(head) == body.len(),
        forall|i: int| 0 <= i < chunks.len() ==> #[trigger] chunks[i].len() > 0,
        acc + chunks.flatten() == message(head, body) + rest,
        acc.len() < message(head, body).len(),
    ensures
        message(head, body).len() <= feed_all(acc, chunks).len() <= message(head, body).len()
            + rest.len(),
        feed_all(acc, chunks) == (message(head, body) + rest).take(feed_all(acc, chunks).len() as int),
    decreases chunks.len(),
{
    let st = message(head, body) + rest;
    if chunks.len() == 0 {
        assert(acc =~= acc + chunks.flatten());
    } else {
        let a = acc + chunks[0];
        let tail = chunks.drop_first();
        assert forall|i: int| 0 <= i < tail.len() implies #[trigger] tail[i].len() > 0 by {
            assert(tail[i] == chunks[i + 1]);
        }
        assert(chunks.flatten() == chunks[0] + tail.flatten());
        assert(a + tail.flatten() =~= st);
        assert(a =~= st.take(a.len() as int));
        lemma_done_prefix(head, body, rest, a.len() as int);
        if !frame_done(a) {
            lemma_feed_all(head, body, rest, a, tail);
        }
    }
}

/// Framing does not depend on how the bytes of a stream are cut into reads: when the stream
/// starts with a header block, the delimiter and a body of the declared length, followed by
/// any further bytes, reading it in any non-empty chunks (one byte at a time included) stops
/// with that header block and body at the front of what was received, just as reading it in
/// one piece does; with nothing after the body, exactly the message is received.
pub proof fn lemma_framing_chunking(
    head: Seq<u8>,
    body: Seq<u8>,
    rest: Seq<u8>,
    chunks: Seq<Seq<u8>>,
)
    requires
        first_delim(message(head, body)) == Some(head.len() as int),
        declared_length(head) == body.len(),
        forall|i: int| 0 <= i < chunks.len() ==> #[trigger] chunks[i].len() > 0,
        chunks.flatten() == message(head, body) + rest,
    ensures
        head_of(feed_all(Seq::empty(), chunks)) == head,
        body_of(feed_all(Seq::empty(), chunks)).take(body.len() as int) == body,
        head_of(feed_all(Seq::empty(), seq![message(head, body) + rest])) == head,
        body_of(feed_all(Seq::empty(), seq![message(head, body) + rest])).take(body.len() as int)
            == body,
        rest.len() == 0 ==> feed_all(Seq::empty(), chunks) == message(head, body),
{
    let m = message(head, body);
    let st = m + rest;
    let h = head.len() as int;
    assert(Seq::<u8>::empty() + chunks.flatten() =~= st);
    lemma_feed_all(head, body, rest, Seq::empty(), chunks);
    let one = seq![st];
    assert(one[0].len() > 0);
    assert(one.drop_first() =~= Seq::<Seq<u8>>::empty());
    assert(one.flatten() == one[0] + one.drop_first().flatten());
    assert(Seq::<u8>::empty() + one.flatten() =~= st);
    lemma_feed_all(head, body, rest, Seq::empty(), one);
    let r1 = feed_all(Seq::empty(), chunks);
    let r2 = feed_all(Seq::empty(), one);
    lemma_prefix_delim(head, body, rest, r1.len() as int);
    lemma_prefix_delim(head, body, rest, r2.len() as int);
    assert(r1.take(h) =~= head);
    assert(r2.take(h) =~= head);
    assert(r1.skip(h + 4).take(body.len() as int) =~= body);
    assert(r2.skip(h + 4).take(body.len() as int) =~= body);
    if rest.len() == 0 {
        assert(st =~= m);
        assert(r1 =~= m);
    }
}

} // verus!
