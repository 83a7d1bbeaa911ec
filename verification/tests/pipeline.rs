use bs3_core::codec::{gzip_decode, gzip_encode};
use bs3_core::http::{BodySize, RequestHead, ResponseHead};
use bs3_core::not_found::NotFound;
use bs3_core::pipeline::{RespModMiddleware, RewriteOutcome};
use bs3_core::router::{Action, Handler, MultiService};
use bs3_core::rules::{Css, ProxyResp, RespModData, RewriteRule, Script};
use bs3_core::static_files::FilesService;
use bs3_core::urlparts::parse_url;
use bs3_core::vfs::Vfs;

const SNIPPET: &str = "<script src=\"/__bs3/client/index.js\"></script>";

fn script_middleware() -> RespModMiddleware {
    RespModMiddleware {
        transforms: RespModData { items: vec![RewriteRule::Script(Script)] },
    }
}

fn html_request(path: &str) -> RequestHead {
    let mut req = RequestHead::new("GET", path);
    req.headers.push("accept", "text/html");
    req
}

fn html_response() -> ResponseHead {
    let mut res = ResponseHead::new(200);
    res.headers.push("content-type", "text/html");
    res
}

#[test]
fn passthrough_forwards_each_chunk_at_once() {
    let mw = script_middleware();
    // no rule matches: the request does not ask for HTML
    let req = RequestHead::new("GET", "/app.js");
    let res = ResponseHead::new(200);
    let mut ctx = mw.begin(&req, &res);
    // each chunk is handed back immediately and unchanged, before the
    // body is anywhere near complete
    let out = ctx.push_chunk(b"first ".to_vec());
    assert_eq!(out, Some(b"first ".to_vec()));
    let out = ctx.push_chunk(b"second".to_vec());
    assert_eq!(out, Some(b"second".to_vec()));
    let mut head = ResponseHead::new(200);
    assert!(mw.finish(ctx, &mut head).is_none());
}

#[test]
fn passthrough_is_byte_identical() {
    let mw = script_middleware();
    let req = RequestHead::new("GET", "/data.bin");
    let mut head = ResponseHead::new(200);
    let expected_head = ResponseHead::new(200);
    let body: Vec<u8> = vec![0, 159, 146, 150, 255];
    let (out, outcome) = mw.apply_response(&req, &mut head, body.clone());
    assert_eq!(outcome, RewriteOutcome::Forwarded);
    assert_eq!(out, body);
    assert_eq!(head, expected_head);
}

#[test]
fn rewrite_round_trip_under_gzip() {
    let mw = script_middleware();
    let req = html_request("/");
    let mut head = html_response();
    head.headers.push("content-encoding", "gzip");

    let text = "<html><body>hello</body></html>";
    let body = gzip_encode(text.as_bytes());
    let (out, outcome) = mw.apply_response(&req, &mut head, body);
    assert_eq!(outcome, RewriteOutcome::Rewritten);

    let decoded = gzip_decode(out.as_slice()).expect("output stays valid gzip");
    let expected = format!("<html><body>hello{}</body></html>", SNIPPET);
    assert_eq!(String::from_utf8(decoded).unwrap(), expected);

    // the wire-level headers stay truthful
    assert_eq!(
        head.headers.get("content-encoding"),
        Some(&b"gzip".to_vec())
    );
    assert_eq!(head.body_size, BodySize::Sized(out.len()));
}

#[test]
fn rules_compose_in_registration_order() {
    let r1 = RewriteRule::Proxy(ProxyResp {
        target_url: parse_url(b"http://one.example").expect("url"),
        local_url: parse_url(b"http://two.example").expect("url"),
    });
    let r2 = RewriteRule::Proxy(ProxyResp {
        target_url: parse_url(b"http://two.example").expect("url"),
        local_url: parse_url(b"http://three.example").expect("url"),
    });
    let req = html_request("/");

    let forward = RespModMiddleware { transforms: RespModData { items: vec![r1, r2] } };
    let mut head = html_response();
    let (out, outcome) =
        forward.apply_response(&req, &mut head, b"see http://one.example now".to_vec());
    assert_eq!(outcome, RewriteOutcome::Rewritten);
    // first rule's output feeds the second rule
    assert_eq!(
        String::from_utf8(out).unwrap(),
        "see http://three.example now"
    );

    let r1 = RewriteRule::Proxy(ProxyResp {
        target_url: parse_url(b"http://one.example").expect("url"),
        local_url: parse_url(b"http://two.example").expect("url"),
    });
    let r2 = RewriteRule::Proxy(ProxyResp {
        target_url: parse_url(b"http://two.example").expect("url"),
        local_url: parse_url(b"http://three.example").expect("url"),
    });
    let reversed = RespModMiddleware { transforms: RespModData { items: vec![r2, r1] } };
    let mut head = html_response();
    let (out, _) =
        reversed.apply_response(&req, &mut head, b"see http://one.example now".to_vec());
    assert_eq!(
        String::from_utf8(out).unwrap(),
        "see http://two.example now"
    );
}

#[test]
fn invalid_gzip_degrades_to_the_original_bytes() {
    let mw = script_middleware();
    let req = html_request("/");
    let mut head = html_response();
    head.headers.push("content-encoding", "gzip");
    let body = b"this is not a gzip stream".to_vec();
    let (out, outcome) = mw.apply_response(&req, &mut head, body.clone());
    assert_eq!(outcome, RewriteOutcome::DecodeFailed);
    assert_eq!(out, body);
}

#[test]
fn binary_bodies_are_never_corrupted() {
    let mw = script_middleware();
    let req = html_request("/");
    let mut head = html_response();
    let body: Vec<u8> = vec![0xff, 0xfe, 0x00, 0x01];
    let (out, outcome) = mw.apply_response(&req, &mut head, body.clone());
    assert_eq!(outcome, RewriteOutcome::NotText);
    assert_eq!(out, body);
}

#[test]
fn encoding_name_is_read_case_insensitively() {
    let mw = script_middleware();
    let req = html_request("/");
    let mut head = html_response();
    head.headers.push("Content-Encoding", "GZIP");
    let body = gzip_encode(b"<body></body>");
    let (out, outcome) = mw.apply_response(&req, &mut head, body);
    assert_eq!(outcome, RewriteOutcome::Rewritten);
    let decoded = gzip_decode(out.as_slice()).expect("gzip");
    assert_eq!(
        String::from_utf8(decoded).unwrap(),
        format!("<body>{}</body>", SNIPPET)
    );
}

#[test]
fn websocket_paths_are_never_buffered() {
    let mw = script_middleware();
    let req = html_request("/__bs3/ws/session");
    let mut head = html_response();
    let body = b"<body></body>".to_vec();
    let (out, outcome) = mw.apply_response(&req, &mut head, body.clone());
    assert_eq!(outcome, RewriteOutcome::Forwarded);
    assert_eq!(out, body);
}

#[test]
fn chunked_pages_get_their_marker() {
    let mw = RespModMiddleware {
        transforms: RespModData { items: vec![RewriteRule::Css(Css)] },
    };
    let req = RequestHead::new("GET", "/chunked");
    let mut head = ResponseHead::new(200);
    let (out, outcome) =
        mw.apply_response(&req, &mut head, b"<h1>Chunked</h1>".to_vec());
    assert_eq!(outcome, RewriteOutcome::Rewritten);
    assert_eq!(String::from_utf8(out).unwrap(), "<h1>[Chunked]</h1>");
}

#[test]
fn serves_index_with_injected_script() {
    // the whole path: router picks the static mount, the pipeline
    // injects the client script before </body>
    let mut vfs = Vfs::new();
    vfs.add("/site/index.html", "<body></body>");
    let svc = FilesService::new("/", "/site", Some("index.html"), true);
    let router = MultiService {
        items: vec![Handler::Static(svc), Handler::NotFound(NotFound { routes: vec![] })],
    };
    let req = html_request("/");
    let action = router.call(&req, &vfs);
    match action {
        Action::Respond(resp, served) => {
            assert_eq!(resp.head.status, 200);
            let served = served.expect("a file was served");
            assert_eq!(served.path, b"/site/index.html".to_vec());
            assert_eq!(served.web_path, b"/".to_vec());

            let mw = script_middleware();
            let mut head = resp.head;
            let (out, outcome) = mw.apply_response(&req, &mut head, resp.body);
            assert_eq!(outcome, RewriteOutcome::Rewritten);
            assert_eq!(
                String::from_utf8(out).unwrap(),
                format!("<body>{}</body>", SNIPPET)
            );
            assert_eq!(head.status, 200);
        }
        _ => panic!("expected a response"),
    }
}
