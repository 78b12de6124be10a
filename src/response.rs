//! Serialisation of the two responses the server sends: a file, or not found.
use vstd::prelude::*;
use vstd::string::*;
use vstd::utf8::encode_utf8;
use crate::mime::{extension_of, mime_for_name, mime_of};
use crate::server::HttpServer;

verus! {

/// The body sent with every not-found response.
pub const NOT_FOUND_BODY: &'static str = "
<html>
  <head><title>404 Not Found</title></head>
  <body><h1>404 - File Not Found</h1></body>
</html>";

/// The decimal digit for `d < 10`.
pub open spec fn digit_char(d: nat) -> char {
    if d == 0 { '0' }
    else if d == 1 { '1' }
    else if d == 2 { '2' }
    else if d == 3 { '3' }
    else if d == 4 { '4' }
    else if d == 5 { '5' }
    else if d == 6 { '6' }
    else if d == 7 { '7' }
    else if d == 8 { '8' }
    else { '9' }
}

/// The decimal notation of `n`, without leading zeros.
pub open spec fn decimal_of(n: nat) -> Seq<char>
    decreases n,
{
    if n < 10 {
        seq![digit_char(n)]
    } else {
        decimal_of(n / 10).push(digit_char(n % 10))
    }
}

/// The number of bytes in the UTF-8 encoding of a text.
pub open spec fn byte_len(t: Seq<char>) -> nat {
    encode_utf8(t).len()
}

/// The response that serves `body` with content type `mime`.
pub open spec fn ok_response(mime: Seq<char>, body: Seq<char>) -> Seq<char> {
    "HTTP/1.1 200 Ok\r\nContent-Type: "@ + mime + "\r\nContent-Length: "@ + decimal_of(byte_len(body))
        + "\r\n\r\n"@ + body
}

/// The response sent when no file can be served.
pub open spec fn not_found_response() -> Seq<char> {
    "HTTP/1.1 404 Not Found\r\nContent-Type: text/html\r\nContent-Length: "@ + decimal_of(
        byte_len(NOT_FOUND_BODY@),
    ) + "\r\n\r\n"@ + NOT_FOUND_BODY@
}

/// The contents of a found file and the content type it is served with.
pub struct ResolvedFile {
    pub contents: String,
    pub mime: String,
}

impl ResolvedFile {
    /// The file named `name` with text `contents`; its content type follows
    /// from the extension of the name.
    pub fn new(name: &str, contents: String) -> (r: Self)
        ensures
            r.contents@ == contents@,
            r.mime@ == mime_of(extension_of(name@)),
    {
        ResolvedFile { contents, mime: mime_for_name(name).to_owned() }
    }
}

fn digit_str(d: usize) -> (r: &'static str)
    requires
        d < 10,
    ensures
        r@ == seq![digit_char(d as nat)],
{
    proof {
        reveal_strlit("0");
        reveal_strlit("1");
        reveal_strlit("2");
        reveal_strlit("3");
        reveal_strlit("4");
        reveal_strlit("5");
        reveal_strlit("6");
        reveal_strlit("7");
        reveal_strlit("8");
        reveal_strlit("9");
    }
    if d == 0 { "0" }
    else if d == 1 { "1" }
    else if d == 2 { "2" }
    else if d == 3 { "3" }
    else if d == 4 { "4" }
    else if d == 5 { "5" }
    else if d == 6 { "6" }
    else if d == 7 { "7" }
    else if d == 8 { "8" }
    else { "9" }
}

/// The decimal notation of `n`.
pub fn decimal(n: usize) -> (r: String)
    ensures
        r@ == decimal_of(n as nat),
    decreases n,
{
    let mut s = if n < 10 {
        String::new()
    } else {
        decimal(n / 10)
    };
    s.append(digit_str(n % 10));
    if n < 10 {
        assert(s@ =~= decimal_of(n as nat));
    } else {
        assert(s@ =~= decimal_of(n as nat));
    }
    s
}

impl HttpServer {
/// The response for the outcome of a lookup: the file with status 200, or
/// the fixed not-found page with status 404.
pub fn prepare_response(file: &Option<ResolvedFile>) -> (r: String)
    ensures
        file is Some ==> r@ == ok_response(file->0.mime@, file->0.contents@),
        file is None ==> r@ == not_found_response(),
{
    match file {
        Some(f) => {
            let body = f.contents.as_str();
            let mut r = String::from_str("HTTP/1.1 200 Ok\r\nContent-Type: ");
            r.append(f.mime.as_str());
            r.append("\r\nContent-Length: ");
            r.append(decimal(body.as_bytes().len()).as_str());
            r.append("\r\n\r\n");
            r.append(body);
            r
        },
        None => {
            let body = NOT_FOUND_BODY;
            let mut r = String::from_str(
                "HTTP/1.1 404 Not Found\r\nContent-Type: text/html\r\nContent-Length: ",
            );
            r.append(decimal(body.as_bytes().len()).as_str());
            r.append("\r\n\r\n");
            r.append(body);
            r
        },
    }
}
}

} // verus!
