//! Parsing of the request line into a method and a normalised path.
use vstd::prelude::*;
use vstd::string::*;
use vstd::utf8::{decode_utf8, valid_utf8};
use crate::text::{
    count_from, find_char, find_from, lemma_count_at_find, lemma_find_from_bounds, same_text,
};

verus! {

/// The method and path of one request.
pub struct HttpRequest {
    pub method: String,
    pub path: String,
}

/// Why a request gets no response: the connection is closed without a byte written.
#[derive(Clone, Copy, Debug, PartialEq, Eq, Structural)]
pub enum RequestError {
    /// The bytes read are not valid UTF-8.
    InvalidText,
    /// The first line holds fewer than three space-separated tokens.
    Malformed,
    /// The request uses the method that is refused.
    DisallowedMethod,
}

/// The first line of `t`: everything before the first `\n`, without a `\r`
/// right before it; all of `t` when there is no `\n`.
pub open spec fn first_line(t: Seq<char>) -> Seq<char> {
    let k = find_from(t, '\n', 0);
    if k < t.len() && k > 0 && t[k - 1] == '\r' {
        t.subrange(0, k - 1)
    } else {
        t.subrange(0, k)
    }
}

/// Index of the first space of a line (its length if it has none).
pub open spec fn first_space(l: Seq<char>) -> int {
    find_from(l, ' ', 0)
}

/// Index of the second space of a line (its length if it has fewer than two).
pub open spec fn second_space(l: Seq<char>) -> int {
    find_from(l, ' ', first_space(l) + 1)
}

/// Whether splitting the line at every single space gives at least three tokens.
pub open spec fn has_three_tokens(l: Seq<char>) -> bool {
    second_space(l) < l.len()
}

/// The number of tokens a line splits into at every single space.
pub open spec fn token_count(l: Seq<char>) -> nat {
    count_from(l, ' ', 0) + 1
}

/// A line has a second space exactly when it splits into three tokens or more.
pub proof fn lemma_three_tokens(l: Seq<char>)
    ensures
        has_three_tokens(l) <==> token_count(l) >= 3,
{
    lemma_find_from_bounds(l, ' ', 0);
    lemma_count_at_find(l, ' ', 0);
    let a = first_space(l);
    if a < l.len() {
        lemma_find_from_bounds(l, ' ', a + 1);
        lemma_count_at_find(l, ' ', a + 1);
    }
}

/// The first token of a line.
pub open spec fn method_token(l: Seq<char>) -> Seq<char> {
    l.subrange(0, first_space(l))
}

/// The second token of a line.
pub open spec fn path_token(l: Seq<char>) -> Seq<char> {
    l.subrange(first_space(l) + 1, second_space(l))
}

/// The method for which no response is ever sent.
pub open spec fn is_disallowed_method(m: Seq<char>) -> bool {
    m == "POST"@
}

/// A path longer than one character that starts with `/` loses that `/`;
/// any other path, `/` itself among them, is kept as it is.
pub open spec fn normalized(p: Seq<char>) -> Seq<char> {
    if p.len() > 1 && p[0] == '/' {
        p.subrange(1, p.len() as int)
    } else {
        p
    }
}

/// What a request text asks for: its method and its normalised path, or why
/// it gets no response.
pub open spec fn parse_text(t: Seq<char>) -> Result<(Seq<char>, Seq<char>), RequestError> {
    let l = first_line(t);
    if !has_three_tokens(l) {
        Err(RequestError::Malformed)
    } else if is_disallowed_method(method_token(l)) {
        Err(RequestError::DisallowedMethod)
    } else {
        Ok((method_token(l), normalized(path_token(l))))
    }
}

/// What the bytes read from a connection ask for.
pub open spec fn parse_bytes(buf: Seq<u8>) -> Result<(Seq<char>, Seq<char>), RequestError> {
    if !valid_utf8(buf) {
        Err(RequestError::InvalidText)
    } else {
        parse_text(decode_utf8(buf))
    }
}

impl HttpRequest {
    pub fn new(method: String, path: String) -> (r: Self)
        ensures
            r.method@ == method@,
            r.path@ == path@,
    {
        Self { method, path }
    }

    /// Strips the leading `/` of a path longer than one character.
    pub fn normalize_path(&mut self)
        ensures
            final(self).method@ == old(self).method@,
            final(self).path@ == normalized(old(self).path@),
    {
        let n = self.path.as_str().unicode_len();
        if n > 1 && self.path.as_str().get_char(0) == '/' {
            let rest = self.path.as_str().substring_char(1, n).to_owned();
            self.path = rest;
        }
    }
}

/// Relies on std::str::from_utf8: it accepts exactly the valid UTF-8 byte
/// sequences, and the text it returns is the one they encode.
#[verifier::external_body]
fn decode_text(buf: &[u8]) -> (r: Option<&str>)
    ensures
        r is Some <==> valid_utf8(buf@),
        r is Some ==> r->0@ == decode_utf8(buf@),
{
    std::str::from_utf8(buf).ok()
}

/// Parses the text of a request: its first line is split at single spaces,
/// the first token is the method and the second the path, which is normalised.
pub fn parse_request_text(text: &str) -> (r: Result<HttpRequest, RequestError>)
    ensures
        r is Ok <==> parse_text(text@) is Ok,
        r is Ok ==> (r->Ok_0.method@, r->Ok_0.path@) == parse_text(text@)->Ok_0,
        r is Err ==> r->Err_0 == parse_text(text@)->Err_0,
{
    let n = text.unicode_len();
    let k = find_char(text, '\n', 0);
    proof {
        lemma_find_from_bounds(text@, '\n', 0);
    }
    let mut end = k;
    if k < n && k > 0 && text.get_char(k - 1) == '\r' {
        end = k - 1;
    }
    let line = text.substring_char(0, end);
    assert(line@ == first_line(text@));
    let len = line.unicode_len();
    let a = find_char(line, ' ', 0);
    proof {
        lemma_find_from_bounds(line@, ' ', 0);
    }
    if a >= len {
        return Err(RequestError::Malformed);
    }
    let b = find_char(line, ' ', a + 1);
    proof {
        lemma_find_from_bounds(line@, ' ', a + 1);
    }
    if b >= len {
        return Err(RequestError::Malformed);
    }
    let method = line.substring_char(0, a);
    let path = line.substring_char(a + 1, b);
    if same_text(method, "POST") {
        return Err(RequestError::DisallowedMethod);
    }
    let mut request = HttpRequest::new(method.to_owned(), path.to_owned());
    request.normalize_path();
    Ok(request)
}

/// Parses the bytes read from a connection. Bytes that are not valid UTF-8
/// give `InvalidText`; otherwise the result is that of the text they encode.
pub fn parse_request(buf: &[u8]) -> (r: Result<HttpRequest, RequestError>)
    ensures
        r is Ok <==> parse_bytes(buf@) is Ok,
        r is Ok ==> (r->Ok_0.method@, r->Ok_0.path@) == parse_bytes(buf@)->Ok_0,
        r is Err ==> r->Err_0 == parse_bytes(buf@)->Err_0,
{
    match decode_text(buf) {
        Some(text) => parse_request_text(text),
        None => Err(RequestError::InvalidText),
    }
}

} // verus!
