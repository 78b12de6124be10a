use static_http::mime::{extension, mime_for_name, mime_type};
use static_http::request::{parse_request, parse_request_text, HttpRequest, RequestError};
use static_http::response::{decimal, ResolvedFile, NOT_FOUND_BODY};
use static_http::server::HttpServer;
use static_http::text::{find_char, same_text};

const NOT_FOUND: &str = "HTTP/1.1 404 Not Found\r\nContent-Type: text/html\r\nContent-Length: 104\r\n\r\n\n<html>\n  <head><title>404 Not Found</title></head>\n  <body><h1>404 - File Not Found</h1></body>\n</html>";

/// A 1024-byte read buffer holding `text`, padded with zero bytes.
fn buffer(text: &str) -> Vec<u8> {
    let mut buf = vec![0u8; 1024];
    buf[..text.len()].copy_from_slice(text.as_bytes());
    buf
}

/// Runs one request against a document root given as (name, contents) pairs.
fn serve(root: &[(&str, &str)], request: &[u8]) -> Option<String> {
    let req = parse_request(request).ok()?;
    let names: Vec<String> = root.iter().map(|e| e.0.to_string()).collect();
    let file = HttpServer::find_entry(&names, &req.path)
        .map(|i| ResolvedFile::new(root[i].0, root[i].1.to_string()));
    Some(HttpServer::prepare_response(&file))
}

fn site() -> Vec<(&'static str, &'static str)> {
    vec![("index.html", "<h1>Hi</h1>"), ("app.js", "console.log(1)")]
}

#[test]
fn root_serves_index() {
    let r = serve(&site(), &buffer("GET / HTTP/1.1\r\nHost: x\r\n\r\n")).unwrap();
    assert_eq!(r, "HTTP/1.1 200 Ok\r\nContent-Type: text/html\r\nContent-Length: 11\r\n\r\n<h1>Hi</h1>");
}

#[test]
fn script_is_served_as_javascript() {
    let r = serve(&site(), &buffer("GET /app.js HTTP/1.1\r\n\r\n")).unwrap();
    assert_eq!(r, "HTTP/1.1 200 Ok\r\nContent-Type: text/javascript\r\nContent-Length: 14\r\n\r\nconsole.log(1)");
}

#[test]
fn missing_file_is_not_found() {
    let r = serve(&site(), &buffer("GET /missing.txt HTTP/1.1\r\n\r\n")).unwrap();
    assert_eq!(r, NOT_FOUND);
}

#[test]
fn not_found_length_matches_body() {
    assert_eq!(NOT_FOUND_BODY.len(), 104);
    assert_eq!(HttpServer::prepare_response(&None), NOT_FOUND);
}

#[test]
fn root_and_index_agree() {
    let a = serve(&site(), &buffer("GET / HTTP/1.1\r\n\r\n"));
    let b = serve(&site(), &buffer("GET /index.html HTTP/1.1\r\n\r\n"));
    assert_eq!(a, b);
    let bare = vec![("app.js", "console.log(1)")];
    let a = serve(&bare, &buffer("GET / HTTP/1.1\r\n\r\n")).unwrap();
    let b = serve(&bare, &buffer("GET /index.html HTTP/1.1\r\n\r\n")).unwrap();
    assert_eq!(a, NOT_FOUND);
    assert_eq!(b, NOT_FOUND);
}

#[test]
fn every_listed_file_is_served_verbatim() {
    let root = vec![("a.css", "body { color: red; }"), ("b.html", "<p>é</p>"), ("c.js", "")];
    for (name, contents) in &root {
        let r = serve(&root, &buffer(&format!("GET /{} HTTP/1.1\r\n\r\n", name))).unwrap();
        let mime = mime_for_name(name);
        let expected = format!(
            "HTTP/1.1 200 Ok\r\nContent-Type: {}\r\nContent-Length: {}\r\n\r\n{}",
            mime,
            contents.len(),
            contents
        );
        assert_eq!(r, expected);
    }
    let r = serve(&root, &buffer("GET /b.html HTTP/1.1\r\n\r\n")).unwrap();
    assert!(r.contains("Content-Length: 9\r\n"));
}

#[test]
fn post_gets_no_response() {
    assert_eq!(serve(&site(), &buffer("POST / HTTP/1.1\r\n\r\n")), None);
    assert_eq!(parse_request(&buffer("POST /app.js HTTP/1.1\r\n")).err(), Some(RequestError::DisallowedMethod));
}

#[test]
fn short_request_line_gets_no_response() {
    assert_eq!(parse_request(&buffer("GET /\r\n\r\n")).err(), Some(RequestError::Malformed));
    assert_eq!(parse_request(b"").err(), Some(RequestError::Malformed));
    assert_eq!(parse_request(b"GET /x\r").err(), Some(RequestError::Malformed));
    assert_eq!(serve(&site(), b"GET"), None);
}

#[test]
fn invalid_utf8_gets_no_response() {
    assert_eq!(parse_request(&[b'G', b'E', b'T', b' ', 0xff, b' ', b'H']).err(), Some(RequestError::InvalidText));
}

#[test]
fn request_line_tokens() {
    let r = parse_request(b"GET /a.txt HTTP/1.1\r\nHost: h\r\n").unwrap();
    assert_eq!(r.method, "GET");
    assert_eq!(r.path, "a.txt");
    let r = parse_request_text("HEAD / HTTP/1.0 extra\n").unwrap();
    assert_eq!(r.method, "HEAD");
    assert_eq!(r.path, "/");
    let r = parse_request_text("GET  HTTP/1.1").unwrap();
    assert_eq!(r.path, "");
    let r = parse_request_text("GET a/b HTTP/1.1").unwrap();
    assert_eq!(r.path, "a/b");
}

#[test]
fn path_normalisation() {
    let mut r = HttpRequest::new("GET".to_string(), "/x/y".to_string());
    r.normalize_path();
    assert_eq!(r.path, "x/y");
    let mut r = HttpRequest::new("GET".to_string(), "/".to_string());
    r.normalize_path();
    assert_eq!(r.path, "/");
    let mut r = HttpRequest::new("GET".to_string(), "plain".to_string());
    r.normalize_path();
    assert_eq!(r.path, "plain");
    assert_eq!(r.method, "GET");
}

#[test]
fn mime_table() {
    assert_eq!(mime_type("html"), "text/html");
    assert_eq!(mime_type("css"), "text/css");
    assert_eq!(mime_type("js"), "text/javascript");
    assert_eq!(mime_type(""), "text/plain");
    assert_eq!(mime_type("HTML"), "text/plain");
    assert_eq!(mime_type("txt"), "text/plain");
}

#[test]
fn extensions() {
    assert_eq!(extension("a.b.css"), "css");
    assert_eq!(extension("Makefile"), "");
    assert_eq!(extension("trailing."), "");
    assert_eq!(extension(".js"), "js");
    assert_eq!(mime_for_name("html"), "text/plain");
    assert_eq!(mime_for_name("page.html"), "text/html");
}

#[test]
fn first_matching_entry_wins() {
    let names = vec!["b".to_string(), "a".to_string(), "a".to_string()];
    assert_eq!(HttpServer::find_entry(&names, "a"), Some(1));
    assert_eq!(HttpServer::find_entry(&names, "c"), None);
    assert_eq!(HttpServer::find_entry(&Vec::new(), "/"), None);
    let names = vec!["x".to_string(), "index.html".to_string()];
    assert_eq!(HttpServer::find_entry(&names, "/"), Some(1));
    assert_eq!(HttpServer::find_entry(&names, "Index.html"), None);
}

#[test]
fn resolved_file_type() {
    let f = ResolvedFile::new("style.css", "p{}".to_string());
    assert_eq!(f.mime, "text/css");
    assert_eq!(f.contents, "p{}");
}

#[test]
fn decimal_numbers() {
    assert_eq!(decimal(0), "0");
    assert_eq!(decimal(7), "7");
    assert_eq!(decimal(10), "10");
    assert_eq!(decimal(1234567), "1234567");
}

#[test]
fn server_configuration() {
    let s = HttpServer::new("127.0.0.1".to_string(), 8080, "./www".to_string());
    assert_eq!(s.ip(), "127.0.0.1");
    assert_eq!(s.port(), 8080);
    assert_eq!(s.doc_root(), "./www");
    assert_eq!(s.address(), "127.0.0.1:8080");
    let s = HttpServer::new("::1".to_string(), 0, ".".to_string());
    assert_eq!(s.address(), "::1:0");
}

#[test]
fn text_helpers() {
    assert!(same_text("abc", "abc"));
    assert!(!same_text("abc", "abd"));
    assert!(!same_text("ab", "abc"));
    assert_eq!(find_char("a b c", ' ', 0), 1);
    assert_eq!(find_char("a b c", ' ', 2), 3);
    assert_eq!(find_char("abc", ' ', 0), 3);
}
