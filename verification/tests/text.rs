use bs3_core::browser_sync::BrowserSync;
use bs3_core::config::CliError;
use bs3_core::pipeline::{RespModMiddleware, RewriteOutcome};
use bs3_core::rules::{Css, RespModData, RewriteRule};
use bs3_core::http::{RequestHead, ResponseHead};
use bs3_core::static_files::{file_path, mime_of};
use bs3_core::urlparts::parse_url;

#[test]
fn port_bounds() {
    let args: Vec<&str> = "--port 65535".split(' ').collect();
    let bs = BrowserSync::try_from_args(&args).expect("parse");
    assert_eq!(bs.config.port, Some(65535));

    let args: Vec<&str> = "--port 0".split(' ').collect();
    let bs = BrowserSync::try_from_args(&args).expect("parse");
    assert_eq!(bs.config.port, Some(0));

    let args: Vec<&str> = "--port 65536".split(' ').collect();
    assert_eq!(
        BrowserSync::try_from_args(&args).unwrap_err(),
        CliError::InvalidPort
    );
}

#[test]
fn replacement_is_not_rescanned() {
    // the replacement for `Chunked` itself contains `Chunked`; a rewrite
    // wraps each occurrence exactly once
    let mw = RespModMiddleware {
        transforms: RespModData { items: vec![RewriteRule::Css(Css)] },
    };
    let req = RequestHead::new("GET", "/chunked");
    let mut head = ResponseHead::new(200);
    let (out, outcome) =
        mw.apply_response(&req, &mut head, b"ChunkedChunked and Chunked".to_vec());
    assert_eq!(outcome, RewriteOutcome::Rewritten);
    assert_eq!(
        String::from_utf8(out).unwrap(),
        "[Chunked][Chunked] and [Chunked]"
    );
}

#[test]
fn utf8_validation_matches_std() {
    let cases: Vec<Vec<u8>> = vec![
        b"".to_vec(),
        b"plain ascii".to_vec(),
        "héllo wörld".as_bytes().to_vec(),
        "\u{1F600} and \u{FFFD}".as_bytes().to_vec(),
        vec![0xC0, 0xAF],             // overlong two-byte form
        vec![0xE0, 0x80, 0x80],       // overlong three-byte form
        vec![0xED, 0xA0, 0x80],       // a surrogate
        vec![0xF4, 0x90, 0x80, 0x80], // beyond the last scalar
        vec![0x80],                   // stray continuation byte
        vec![0xC3],                   // truncated sequence
        vec![0xF0, 0x9F, 0x98],       // truncated emoji
        vec![0xFF, 0xFE],
    ];
    for case in cases {
        assert_eq!(
            bs3_core::codec::is_utf8(&case),
            std::str::from_utf8(&case).is_ok(),
            "disagreement on {:?}",
            case
        );
    }
}

#[test]
fn gzip_round_trips_an_empty_body() {
    let encoded = bs3_core::codec::gzip_encode(b"");
    assert_eq!(bs3_core::codec::gzip_decode(&encoded), Some(vec![]));
}

#[test]
fn mime_types_by_extension() {
    assert_eq!(mime_of(b"/a/app.js"), b"application/javascript".to_vec());
    assert_eq!(mime_of(b"/a/data.json"), b"application/json".to_vec());
    assert_eq!(mime_of(b"/a/page.html"), b"text/html".to_vec());
    assert_eq!(mime_of(b"/a/style.css"), b"text/css".to_vec());
    assert_eq!(mime_of(b"/a/logo.svg"), b"image/svg+xml".to_vec());
    assert_eq!(mime_of(b"/a/photo.jpeg"), b"image/jpeg".to_vec());
    assert_eq!(mime_of(b"/a/photo.jpg"), b"image/jpeg".to_vec());
    assert_eq!(mime_of(b"/a/icon.ico"), b"image/x-icon".to_vec());
    assert_eq!(mime_of(b"/a/font.woff2"), b"font/woff2".to_vec());
    assert_eq!(mime_of(b"/a/readme.txt"), b"text/plain".to_vec());
    assert_eq!(mime_of(b"/a/blob"), b"application/octet-stream".to_vec());
}

#[test]
fn hidden_segments_are_rejected() {
    assert_eq!(file_path(b"/.git/config", b"/site"), None);
    assert_eq!(file_path(b"/a/./b", b"/site"), None);
    assert_eq!(file_path(b"//double//slash", b"/site"), Some(b"/site/double/slash".to_vec()));
}

#[test]
fn url_pieces_round_trip() {
    let u = parse_url(b"http://h.example:81/p?q=1").expect("url");
    assert_eq!(u.scheme, b"http".to_vec());
    assert_eq!(u.host, Some(b"h.example".to_vec()));
    assert_eq!(u.port, Some(81));
    assert_eq!(u.path, b"/p".to_vec());
    assert_eq!(u.query, Some(b"q=1".to_vec()));
    assert_eq!(
        String::from_utf8(u.url_string()).unwrap(),
        "http://h.example:81/p?q=1"
    );
    assert!(parse_url(b"not a url").is_none());
}
