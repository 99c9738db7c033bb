use replication_game::gzip::{Gzip, GzipError, GzipFairing, RequestHead, Transformed};
use std::io::{Read, Write};

fn head(is_get: bool, path: &str, accept: &[&str]) -> RequestHead {
    RequestHead {
        is_get,
        path: path.to_string(),
        accept_encoding: accept.iter().map(|v| v.to_string()).collect(),
    }
}

fn header<'a>(out: &'a replication_game::gzip::Outcome, name: &str) -> Option<&'a str> {
    out.headers
        .iter()
        .find(|h| h.name == name)
        .map(|h| h.value.as_str())
}

#[test]
fn test_cache_headers() {
    let request = head(true, "/index.html", &[]);
    let body = b"<html></html>".to_vec();
    let response = GzipFairing.on_response(&request, Some(body.clone()));
    assert_eq!(response.body, Some(body));

    assert!(
        response.headers.iter().any(|h| h.name == "Cache-Control"),
        "missing cache-control header"
    );
}

#[test]
fn static_assets_are_cached_for_a_year() {
    let out = GzipFairing.on_response(&head(true, "/index.html", &[]), None);
    assert_eq!(header(&out, "Cache-Control"), Some("public, max-age=31536000"));
    assert_eq!(out.headers.len(), 1);
}

#[test]
fn api_root_and_writes_are_not_cached() {
    let none = Some("no-cache, no-store, must-revalidate");
    let api = GzipFairing.on_response(&head(true, "/api/leaderboard", &[]), None);
    assert_eq!(header(&api, "Cache-Control"), none);
    let root = GzipFairing.on_response(&head(true, "/", &[]), None);
    assert_eq!(header(&root, "Cache-Control"), none);
    let post = GzipFairing.on_response(&head(false, "/index.html", &[]), None);
    assert_eq!(header(&post, "Cache-Control"), none);
    assert_eq!(
        GzipFairing::cache_control(true, "/apiary"),
        "no-cache, no-store, must-revalidate"
    );
    assert_eq!(GzipFairing::cache_control(true, "/ap"), "public, max-age=31536000");
}

#[test]
fn body_is_compressed_for_those_who_accept_gzip() {
    let body = b"hello hello hello hello hello hello".to_vec();
    let out = GzipFairing.on_response(&head(true, "/api/leaderboard", &["deflate, GZip"]), Some(body.clone()));
    assert_eq!(header(&out, "Content-Encoding"), Some("gzip"));
    assert_eq!(out.headers.len(), 2);
    let packed = out.body.unwrap();
    assert_ne!(packed, body);
    assert_eq!(&packed[..2], &[0x1f, 0x8b]);
    let mut text = String::new();
    flate2::read::GzDecoder::new(&packed[..])
        .read_to_string(&mut text)
        .unwrap();
    assert_eq!(text.as_bytes(), &body[..]);
}

#[test]
fn body_is_left_alone_for_the_others() {
    let body = b"hello".to_vec();
    let out = GzipFairing.on_response(&head(true, "/x", &["identity", "br"]), Some(body.clone()));
    assert_eq!(header(&out, "Content-Encoding"), None);
    assert_eq!(out.body, Some(body));
    let empty = GzipFairing.on_response(&head(true, "/x", &["gzip"]), None);
    assert_eq!(header(&empty, "Content-Encoding"), None);
    assert_eq!(empty.body, None);
}

fn gz(text: &str) -> Vec<u8> {
    let mut e = flate2::write::GzEncoder::new(Vec::new(), flate2::Compression::default());
    e.write_all(text.as_bytes()).unwrap();
    e.finish().unwrap()
}

#[test]
fn uncompressed_body_is_forwarded() {
    let t = Gzip::<String>::transform(&vec!["identity".to_string()], None, b"{}");
    assert!(matches!(t, Transformed::Forward));
    let t = Gzip::<String>::transform(&vec![], None, &gz("{}"));
    assert!(matches!(t, Transformed::Forward));
}

#[test]
fn compressed_body_is_read_as_text() {
    let t = Gzip::<String>::transform(&vec!["GZIP".to_string()], None, &gz("{\"a\": 1}"));
    match t {
        Transformed::Success(s) => assert_eq!(s, "{\"a\": 1}"),
        other => panic!("unexpected {:?}", other),
    }
}

#[test]
fn broken_body_is_a_bad_request() {
    let t = Gzip::<String>::transform(&vec!["gzip".to_string()], None, b"not gzip at all");
    assert!(matches!(t, Transformed::Failure(400, GzipError::Io)));
}

#[test]
fn body_over_the_limit_is_cut_and_fails() {
    let packed = gz("a text that is long enough to need more than ten bytes");
    assert!(packed.len() > 10);
    let t = Gzip::<String>::transform(&vec!["gzip".to_string()], Some(10), &packed);
    assert!(matches!(t, Transformed::Failure(400, GzipError::Io)));
    let whole = Gzip::<String>::transform(&vec!["gzip".to_string()], Some(packed.len() as u64), &packed);
    assert!(matches!(whole, Transformed::Success(_)));
}

#[test]
fn parse_failures_by_kind() {
    assert_eq!(Gzip::<String>::from_data_failure(true), (422, GzipError::JsonError));
    assert_eq!(Gzip::<String>::from_data_failure(false), (400, GzipError::JsonError));
}

#[test]
fn into_inner_gives_the_value() {
    assert_eq!(Gzip(7u8).into_inner(), 7);
    assert_eq!(Gzip("x".to_string()).into_inner(), "x");
}
