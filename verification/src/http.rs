//! The HTTP request/response logic.
//!
//! The wire protocol consumed is a minimal HTTP/1.1-like request line
//! `METHOD SP TARGET SP VERSION`; only `GET` is accepted, and any other
//! method or a malformed request line yields a 400 response. The target `/`
//! maps to `index.html`; any other target must begin with `/` and is
//! interpreted relative to a configured document root. The response wire
//! format is the status line, one `Connection: close` header, and the body
//! verbatim.
//!
//! Reading the requested file is the caller's concern: [`HTTPHandler`]
//! decides which file to fetch, and builds the response from what the
//! caller fetched.

use vstd::prelude::*;
use vstd::slice::{slice_subrange, slice_to_vec};
use vstd::utf8::encode_utf8;

verus! {

/// Line feed, the request-line terminator.
pub const LF: u8 = 10;

/// The space separating the request-line tokens.
pub const SP: u8 = 32;

/// The leading byte of every acceptable request target.
pub const SLASH: u8 = 47;

/// The prefix of `b` up to (not including) the first `sep`, or all of `b`
/// when `sep` does not occur: the first token of a separator split.
pub open spec fn prefix_to(b: Seq<u8>, sep: u8) -> Seq<u8>
    decreases b.len(),
{
    if b.len() == 0 {
        b
    } else if b[0] == sep {
        Seq::empty()
    } else {
        seq![b[0]] + prefix_to(b.drop_first(), sep)
    }
}

/// What follows the first `sep` in `b`; empty when `sep` does not occur.
pub open spec fn suffix_from(b: Seq<u8>, sep: u8) -> Seq<u8>
    decreases b.len(),
{
    if b.len() == 0 {
        Seq::empty()
    } else if b[0] == sep {
        b.drop_first()
    } else {
        suffix_from(b.drop_first(), sep)
    }
}

/// How often `sep` occurs in `b`; a separator split yields one more token
/// than this.
pub open spec fn count_byte(b: Seq<u8>, sep: u8) -> nat
    decreases b.len(),
{
    if b.len() == 0 {
        0
    } else if b[0] == sep {
        1 + count_byte(b.drop_first(), sep)
    } else {
        count_byte(b.drop_first(), sep)
    }
}

/// The only accepted method, as request bytes: `GET`.
pub open spec fn method_get() -> Seq<u8> {
    seq![71u8, 69u8, 84u8]
}

/// The file served for the root target `/`.
pub open spec fn index_html() -> Seq<u8> {
    encode_utf8("index.html"@)
}

/// What a request asks to fetch, relative to the document root: `None` for
/// any malformed or non-`GET` request (answered with a 400 response). The
/// request line is everything before the first line feed; it must hold at
/// least three space-separated tokens, the first being `GET`; the target
/// `/` maps to `index.html`, and any other target must begin with `/`,
/// which is stripped.
pub open spec fn request_target(b: Seq<u8>) -> Option<Seq<u8>> {
    let line = prefix_to(b, LF);
    let method = prefix_to(line, SP);
    let target = prefix_to(suffix_from(line, SP), SP);
    if count_byte(line, SP) < 2 {
        None
    } else if method != method_get() {
        None
    } else if target == seq![SLASH] {
        Some(index_html())
    } else if target.len() > 0 && target[0] == SLASH {
        Some(target.drop_first())
    } else {
        None
    }
}

/// The decimal digits of `n`, most significant first.
pub open spec fn dec_digits(n: nat) -> Seq<u8>
    decreases n,
{
    if n < 10 {
        seq![(n + 48) as u8]
    } else {
        dec_digits(n / 10).push(((n % 10) + 48) as u8)
    }
}

/// The reason phrase for a status code.
pub open spec fn status_text_chars(status: u16) -> Seq<char> {
    if status == 200 {
        "OK"@
    } else if status == 301 {
        "Redirect"@
    } else if status == 400 {
        "User Error"@
    } else if status == 403 {
        "Forbidden"@
    } else if status == 404 {
        "Not Found"@
    } else if status == 500 {
        "Server Error"@
    } else {
        "Error"@
    }
}

/// The full response on the wire: status line, one `Connection: close`
/// header, a blank line, then the body verbatim.
pub open spec fn response_bytes(status: u16, body: Seq<u8>) -> Seq<u8> {
    encode_utf8("HTTP/1.1 "@) + dec_digits(status as nat) + encode_utf8(" "@) + encode_utf8(
        status_text_chars(status),
    ) + encode_utf8("\r\nConnection: close\r\n\r\n"@) + body
}

/// The body of the 404 response.
pub open spec fn not_found_body() -> Seq<u8> {
    encode_utf8("404 - Not found!"@)
}

/// A response under construction: a status code and a body.
pub struct Response {
    /// The status code of the status line.
    pub status: u16,
    /// The body, sent verbatim after the headers.
    pub body: String,
}

impl Response {
    /// A response with the given status code and body.
    pub fn new(status: u16, body: String) -> (r: Response)
        ensures
            r.status == status,
            r.body@ == body@,
    {
        Response { status, body }
    }

    /// The reason phrase belonging to this response's status code.
    pub fn status_text(&self) -> (t: &str)
        ensures
            t@ == status_text_chars(self.status),
    {
        status_text_of(self.status)
    }

    /// This response on the wire.
    pub fn get_bytes(&self) -> (r: Vec<u8>)
        ensures
            r@ == response_bytes(self.status, encode_utf8(self.body@)),
    {
        build_response(self.status, self.body.as_str().as_bytes())
    }
}

/// The reason phrase for a status code.
fn status_text_of(status: u16) -> (t: &'static str)
    ensures
        t@ == status_text_chars(status),
{
    if status == 200 {
        "OK"
    } else if status == 301 {
        "Redirect"
    } else if status == 400 {
        "User Error"
    } else if status == 403 {
        "Forbidden"
    } else if status == 404 {
        "Not Found"
    } else if status == 500 {
        "Server Error"
    } else {
        "Error"
    }
}

/// Append the decimal digits of `n`, most significant first.
fn push_dec_digits(n: u16, out: &mut Vec<u8>)
    ensures
        final(out)@ == old(out)@ + dec_digits(n as nat),
    decreases n,
{
    if n < 10 {
        out.push((n + 48) as u8);
        proof {
            assert(out@ =~= old(out)@ + dec_digits(n as nat));
        }
    } else {
        push_dec_digits(n / 10, out);
        out.push(((n % 10) + 48) as u8);
        proof {
            assert(out@ =~= old(out)@ + dec_digits(n as nat));
        }
    }
}

/// The response bytes for a status code and a body.
fn build_response(status: u16, body: &[u8]) -> (r: Vec<u8>)
    ensures
        r@ == response_bytes(status, body@),
{
    let mut out = slice_to_vec("HTTP/1.1 ".as_bytes());
    push_dec_digits(status, &mut out);
    let mut sp = slice_to_vec(" ".as_bytes());
    out.append(&mut sp);
    let mut st = slice_to_vec(status_text_of(status).as_bytes());
    out.append(&mut st);
    let mut hdr = slice_to_vec("\r\nConnection: close\r\n\r\n".as_bytes());
    out.append(&mut hdr);
    let mut bb = slice_to_vec(body);
    out.append(&mut bb);
    proof {
        assert(out@ =~= response_bytes(status, body@));
    }
    out
}

/// What a request asks the server to do: answer 400, or fetch a file
/// relative to the document root and answer with it.
#[derive(Debug)]
pub enum RequestDecision {
    /// The request is malformed or not a `GET`: answer 400.
    Bad,
    /// Fetch this path, relative to the document root.
    Fetch(Vec<u8>),
}

/// Serves files under a configured document root.
pub struct HTTPHandler {
    /// The document root all request targets are resolved under.
    pub root_path: String,
}

impl HTTPHandler {
    /// A handler serving files under the given document root.
    pub fn new(path: &str) -> (h: HTTPHandler)
        ensures
            h.root_path@ == path@,
    {
        HTTPHandler { root_path: path.to_owned() }
    }

    /// The document root this handler was configured with.
    pub fn root(&self) -> (p: &str)
        ensures
            p@ == self.root_path@,
    {
        self.root_path.as_str()
    }

    /// Decide what a request asks for: the file to fetch under the document
    /// root, or a 400 answer.
    pub fn parse_request(&self, buf: &[u8]) -> (r: RequestDecision)
        ensures
            match r {
                RequestDecision::Bad => request_target(buf@) is None,
                RequestDecision::Fetch(p) => request_target(buf@) == Some(p@),
            },
    {
        let ghost l = buf@;
        let n: usize = match find_byte_in(buf, LF, 0, buf.len()) {
            Some(i) => i,
            None => buf.len(),
        };
        let ghost line = prefix_to(l, LF);
        proof {
            lemma_prefix_to_is_subrange(l, LF, n as int);
            assert(line =~= l.subrange(0, n as int));
        }
        let s1: usize = match find_byte_in(buf, SP, 0, n) {
            Some(i) => i,
            None => {
                proof {
                    assert forall|j: int| 0 <= j < line.len() implies line[j] != SP by {
                        assert(line[j] == l[j]);
                    }
                    lemma_no_sep_count_zero(line, SP);
                }
                return RequestDecision::Bad;
            },
        };
        let ghost method = prefix_to(line, SP);
        let ghost rest = suffix_from(line, SP);
        proof {
            assert(line[s1 as int] == l[s1 as int]);
            assert forall|j: int| 0 <= j < s1 implies line[j] != SP by {
                assert(line[j] == l[j]);
            }
            lemma_prefix_to_is_subrange(line, SP, s1 as int);
            lemma_suffix_from_is_subrange(line, SP, s1 as int);
            lemma_count_split_at_first(line, SP, s1 as int);
            assert(method =~= l.subrange(0, s1 as int));
            assert(rest =~= l.subrange(s1 + 1, n as int));
        }
        let s2: usize = match find_byte_in(buf, SP, s1 + 1, n) {
            Some(i) => i,
            None => {
                proof {
                    assert forall|j: int| 0 <= j < rest.len() implies rest[j] != SP by {
                        assert(rest[j] == l[s1 + 1 + j]);
                    }
                    lemma_no_sep_count_zero(rest, SP);
                }
                return RequestDecision::Bad;
            },
        };
        let ghost target = prefix_to(rest, SP);
        proof {
            assert(rest[s2 - s1 - 1] == l[s2 as int]);
            assert forall|j: int| 0 <= j < s2 - s1 - 1 implies rest[j] != SP by {
                assert(rest[j] == l[s1 + 1 + j]);
            }
            lemma_count_split_at_first(rest, SP, s2 - s1 - 1);
            lemma_prefix_to_is_subrange(rest, SP, s2 - s1 - 1);
            assert(count_byte(line, SP) >= 2);
            assert(target =~= l.subrange(s1 + 1, s2 as int));
        }
        let is_get = s1 == 3 && buf[0] == 71 && buf[1] == 69 && buf[2] == 84;
        if !is_get {
            proof {
                if s1 == 3 {
                    if l[0] != 71 {
                        assert(method[0] != method_get()[0]);
                    } else if l[1] != 69 {
                        assert(method[1] != method_get()[1]);
                    } else {
                        assert(method[2] != method_get()[2]);
                    }
                } else {
                    assert(method.len() != method_get().len());
                }
                assert(method != method_get());
            }
            return RequestDecision::Bad;
        }
        proof {
            assert(method =~= method_get());
        }
        if s2 == s1 + 2 && buf[s1 + 1] == SLASH {
            proof {
                assert(target =~= seq![SLASH]);
            }
            let p = slice_to_vec("index.html".as_bytes());
            return RequestDecision::Fetch(p);
        }
        if s2 > s1 + 2 && buf[s1 + 1] == SLASH {
            let p = slice_to_vec(slice_subrange(buf, s1 + 2, s2));
            proof {
                assert(target.len() > 1);
                assert(target != seq![SLASH]);
                assert(target[0] == SLASH);
                assert(p@ =~= target.drop_first());
            }
            return RequestDecision::Fetch(p);
        }
        proof {
            if s2 == s1 + 1 {
                assert(target.len() == 0);
                assert(target != seq![SLASH]);
            } else {
                assert(target[0] == l[s1 + 1] && l[s1 + 1] != SLASH);
                assert(target != seq![SLASH]);
            }
        }
        RequestDecision::Bad
    }

    /// The response for a request, given what the caller fetched for it:
    /// 400 with an empty body for a request that asks for nothing, else 200
    /// with the fetched file as body, or 404 when there was none to fetch.
    pub fn get_response(&self, buf: &[u8], file: Option<String>) -> (r: Vec<u8>)
        ensures
            r@ == match request_target(buf@) {
                None => response_bytes(400, Seq::<u8>::empty()),
                Some(_) => match file {
                    Some(body) => response_bytes(200, encode_utf8(body@)),
                    None => response_bytes(404, not_found_body()),
                },
            },
    {
        match self.parse_request(buf) {
            RequestDecision::Bad => {
                let empty: Vec<u8> = Vec::new();
                build_response(400, empty.as_slice())
            },
            RequestDecision::Fetch(_) => match file {
                Some(body) => build_response(200, body.as_str().as_bytes()),
                None => build_response(404, "404 - Not found!".as_bytes()),
            },
        }
    }
}

/// The position of the first `sep` at or after `from` and before `to`.
fn find_byte_in(b: &[u8], sep: u8, from: usize, to: usize) -> (r: Option<usize>)
    requires
        from <= to <= b@.len(),
    ensures
        match r {
            Some(i) => from <= i < to && b@[i as int] == sep && (forall|j: int|
                from <= j < i ==> b@[j] != sep),
            None => forall|j: int| from <= j < to ==> b@[j] != sep,
        },
{
    let mut i: usize = from;
    while i < to
        invariant
            from <= i <= to <= b@.len(),
            forall|j: int| from <= j < i ==> b@[j] != sep,
        decreases to - i,
    {
        if b[i] == sep {
            return Some(i);
        }
        i = i + 1;
    }
    None
}

/// Where the first `sep` sits at position `n` (or `b` is `sep`-free of
/// length `n`), the first token is exactly the first `n` bytes.
proof fn lemma_prefix_to_is_subrange(b: Seq<u8>, sep: u8, n: int)
    requires
        0 <= n <= b.len(),
        forall|j: int| 0 <= j < n ==> b[j] != sep,
        n == b.len() || b[n] == sep,
    ensures
        prefix_to(b, sep) == b.subrange(0, n),
    decreases b.len(),
{
    if b.len() == 0 {
        assert(prefix_to(b, sep) =~= b.subrange(0, 0));
    } else if b[0] == sep {
        assert(n == 0);
        assert(prefix_to(b, sep) =~= b.subrange(0, 0));
    } else {
        assert(n >= 1);
        let b2 = b.drop_first();
        assert forall|j: int| 0 <= j < n - 1 implies b2[j] != sep by {
            assert(b2[j] == b[j + 1]);
        }
        assert(n - 1 == b2.len() || b2[n - 1] == sep);
        lemma_prefix_to_is_subrange(b2, sep, n - 1);
        assert(prefix_to(b, sep) =~= b.subrange(0, n));
    }
}

/// Where the first `sep` sits at position `n`, what follows it is exactly
/// the bytes after position `n`.
proof fn lemma_suffix_from_is_subrange(b: Seq<u8>, sep: u8, n: int)
    requires
        0 <= n < b.len(),
        forall|j: int| 0 <= j < n ==> b[j] != sep,
        b[n] == sep,
    ensures
        suffix_from(b, sep) == b.subrange(n + 1, b.len() as int),
    decreases b.len(),
{
    if b[0] == sep {
        assert(n == 0);
        assert(suffix_from(b, sep) =~= b.subrange(1, b.len() as int));
    } else {
        assert(n >= 1);
        let b2 = b.drop_first();
        assert forall|j: int| 0 <= j < n - 1 implies b2[j] != sep by {
            assert(b2[j] == b[j + 1]);
        }
        assert(b2[n - 1] == sep);
        lemma_suffix_from_is_subrange(b2, sep, n - 1);
        assert(suffix_from(b, sep) =~= b.subrange(n + 1, b.len() as int));
    }
}

/// A `sep`-free byte sequence has no occurrence to count.
proof fn lemma_no_sep_count_zero(b: Seq<u8>, sep: u8)
    requires
        forall|j: int| 0 <= j < b.len() ==> b[j] != sep,
    ensures
        count_byte(b, sep) == 0,
    decreases b.len(),
{
    if b.len() > 0 {
        let b2 = b.drop_first();
        assert forall|j: int| 0 <= j < b2.len() implies b2[j] != sep by {
            assert(b2[j] == b[j + 1]);
        }
        lemma_no_sep_count_zero(b2, sep);
    }
}

/// Counting past the first `sep` at position `n`: one occurrence, plus
/// those in what follows it.
proof fn lemma_count_split_at_first(b: Seq<u8>, sep: u8, n: int)
    requires
        0 <= n < b.len(),
        forall|j: int| 0 <= j < n ==> b[j] != sep,
        b[n] == sep,
    ensures
        count_byte(b, sep) == 1 + count_byte(b.subrange(n + 1, b.len() as int), sep),
    decreases b.len(),
{
    if b[0] == sep {
        assert(n == 0);
        assert(b.drop_first() =~= b.subrange(1, b.len() as int));
    } else {
        assert(n >= 1);
        let b2 = b.drop_first();
        assert forall|j: int| 0 <= j < n - 1 implies b2[j] != sep by {
            assert(b2[j] == b[j + 1]);
        }
        assert(b2[n - 1] == sep);
        lemma_count_split_at_first(b2, sep, n - 1);
        assert(b2.subrange(n, b2.len() as int) =~= b.subrange(n + 1, b.len() as int));
    }
}

} // verus!
