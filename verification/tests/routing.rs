use bs3_core::http::{BodySize, HeaderMap, RequestHead};
use bs3_core::not_found::NotFound;
use bs3_core::proxy::{ProxyService, ProxyTarget};
use bs3_core::router::{Action, Handler, MultiService};
use bs3_core::static_files::{file_path, Files, FilesService};
use bs3_core::urlparts::parse_url;
use bs3_core::vfs::Vfs;

fn not_found() -> Handler {
    Handler::NotFound(NotFound { routes: vec![] })
}

#[test]
fn router_order_decides() {
    // both handlers take every path beginning their configured route
    let a = Files::new("/x", "a");
    let b = Files::new("/x", "b");
    let req = RequestHead::new("GET", "/");
    let vfs = Vfs::new();

    let first = MultiService { items: vec![Handler::Files(a), Handler::Files(b)] };
    match first.call(&req, &vfs) {
        Action::Respond(resp, _) => assert_eq!(resp.body, b"/x:a".to_vec()),
        _ => panic!("expected a response"),
    }

    let a = Files::new("/x", "a");
    let b = Files::new("/x", "b");
    let swapped = MultiService { items: vec![Handler::Files(b), Handler::Files(a)] };
    match swapped.call(&req, &vfs) {
        Action::Respond(resp, _) => assert_eq!(resp.body, b"/x:b".to_vec()),
        _ => panic!("expected a response"),
    }
}

#[test]
fn not_found_makes_dispatch_total() {
    let svc = FilesService::new("/assets", "/www", None, false);
    let router = MultiService { items: vec![Handler::Static(svc), not_found()] };
    let vfs = Vfs::new();
    for path in ["/", "/anything", "/assets/missing", "/../escape"] {
        let req = RequestHead::new("GET", path);
        assert!(router.dispatch(&req, &vfs).is_some());
    }
}

#[test]
fn traversal_is_rejected() {
    let mut vfs = Vfs::new();
    vfs.add("/site/index.html", "x");
    vfs.add("/secret", "top");
    let svc = FilesService::new("/", "/site", None, false);

    let req = RequestHead::new("GET", "/../secret");
    assert!(!svc.check_multi(&req, &vfs));

    let req = RequestHead::new("GET", "/a/../../secret");
    assert!(!svc.check_multi(&req, &vfs));

    // lexical resolution itself refuses to climb out
    assert_eq!(file_path(b"/../secret", b"/site"), None);
    assert_eq!(
        file_path(b"/a/../index.html", b"/site"),
        Some(b"/site/index.html".to_vec())
    );
}

#[test]
fn catch_all_proxy_takes_unclaimed_paths() {
    let target = ProxyTarget {
        target: parse_url(b"http://upstream.example").expect("url"),
        paths: vec![],
    };
    let proxy = ProxyService { targets: vec![target] };
    for path in ["/", "/api", "/deep/nested?not-even-a-path"] {
        let req = RequestHead::new("GET", path);
        assert!(proxy.check_multi(&req));
    }

    // an earlier, more specific handler still wins
    let mut vfs = Vfs::new();
    vfs.add("/www/app.js", "js");
    let svc = FilesService::new("/", "/www", None, false);
    let target = ProxyTarget {
        target: parse_url(b"http://upstream.example").expect("url"),
        paths: vec![],
    };
    let router = MultiService {
        items: vec![
            Handler::Static(svc),
            Handler::Proxy(ProxyService { targets: vec![target] }),
        ],
    };
    let req = RequestHead::new("GET", "/app.js");
    match router.call(&req, &vfs) {
        Action::Respond(resp, _) => assert_eq!(resp.body, b"js".to_vec()),
        _ => panic!("the static mount should shadow the proxy"),
    }
    let req = RequestHead::new("GET", "/other");
    match router.call(&req, &vfs) {
        Action::Forward(up) => {
            assert_eq!(up.host, b"upstream.example".to_vec());
        }
        _ => panic!("the catch-all proxy should take the rest"),
    }
}

#[test]
fn not_found_answers_200_with_the_route_list() {
    let router = MultiService { items: vec![not_found()] };
    let vfs = Vfs::new();
    let req = RequestHead::new("GET", "/anything");
    match router.call(&req, &vfs) {
        Action::Respond(resp, served) => {
            assert_eq!(resp.head.status, 200);
            assert!(served.is_none());
            let body = String::from_utf8(resp.body).unwrap();
            assert!(body.contains("[]"));
        }
        _ => panic!("expected a response"),
    }
}

#[test]
fn upstream_request_is_planned() {
    // a target with its own path is a fixed rewrite; the query and the
    // method travel, the host header moves to the upstream's host
    let target = ProxyTarget {
        target: parse_url(b"http://example.com/api").expect("url"),
        paths: vec![b"/api".to_vec()],
    };
    let svc = ProxyService { targets: vec![target] };
    let mut req = RequestHead::new("GET", "/api/widgets");
    req.query = Some(b"x=1".to_vec());
    req.headers.push("host", "localhost:8090");
    req.headers.push("referer", "http://localhost:8090/");
    req.headers.push("accept", "text/html");
    assert!(svc.check_multi(&req));
    let up = svc.call(&req);
    assert_eq!(up.method, b"GET".to_vec());
    assert_eq!(up.host, b"example.com".to_vec());
    assert_eq!(up.url.query, Some(b"x=1".to_vec()));
    assert_eq!(up.url.path, b"/api".to_vec());
    assert!(up.headers.get("host").is_none());
    assert!(up.headers.get("referer").is_none());
    assert!(up.headers.get("accept").is_some());
    assert_eq!(
        String::from_utf8(up.url.url_string()).unwrap(),
        "http://example.com/api?x=1"
    );
}

#[test]
fn upstream_keeps_client_path_for_root_targets() {
    let target = ProxyTarget {
        target: parse_url(b"http://example.com").expect("url"),
        paths: vec![b"/api".to_vec()],
    };
    let svc = ProxyService { targets: vec![target] };
    let mut req = RequestHead::new("GET", "/api/widgets");
    req.query = Some(b"x=1".to_vec());
    let up = svc.call(&req);
    assert_eq!(up.url.path, b"/api/widgets".to_vec());
    assert_eq!(
        String::from_utf8(up.url.url_string()).unwrap(),
        "http://example.com/api/widgets?x=1"
    );
}

#[test]
fn proxy_response_drops_conflicting_headers() {
    let mut upstream = HeaderMap::new();
    upstream.push("Content-Security-Policy", "default-src 'none'");
    upstream.push("Connection", "keep-alive");
    upstream.push("content-type", "text/html");
    let resp = bs3_core::proxy::proxy_response(200, &upstream, b"hi".to_vec());
    assert_eq!(resp.head.status, 200);
    assert!(resp.head.headers.get("content-security-policy").is_none());
    assert!(resp.head.headers.get("connection").is_none());
    assert_eq!(
        resp.head.headers.get("content-type"),
        Some(&b"text/html".to_vec())
    );
    assert_eq!(resp.head.body_size, BodySize::Sized(2));
}

#[test]
fn static_serving_details() {
    let mut vfs = Vfs::new();
    vfs.add("/site/index.html", "<body></body>");
    vfs.add("/site/style.css", "body{}");
    let svc = FilesService::new("/", "/site", Some("index.html"), true);

    // wrong method
    let req = RequestHead::new("POST", "/style.css");
    let (resp, served) = svc.call(&req, &vfs);
    assert_eq!(resp.head.status, 405);
    assert!(served.is_none());

    // a plain file, with its type and a served notification
    let mut req = RequestHead::new("GET", "/style.css");
    req.headers.push("referer", "http://localhost/");
    let (resp, served) = svc.call(&req, &vfs);
    assert_eq!(resp.head.status, 200);
    assert_eq!(resp.body, b"body{}".to_vec());
    assert_eq!(
        resp.head.headers.get("content-type"),
        Some(&b"text/css".to_vec())
    );
    let served = served.expect("a file went out");
    assert_eq!(served.path, b"/site/style.css".to_vec());
    assert_eq!(served.web_path, b"/style.css".to_vec());
    assert_eq!(served.referer, Some(b"http://localhost/".to_vec()));

    // a directory without a trailing slash redirects first
    let req = RequestHead::new("GET", "");
    let (resp, _) = svc.call(&req, &vfs);
    assert_eq!(resp.head.status, 302);
    assert_eq!(resp.head.headers.get("location"), Some(&b"/".to_vec()));

    // with the slash, the index file is served
    let req = RequestHead::new("GET", "/");
    let (resp, served) = svc.call(&req, &vfs);
    assert_eq!(resp.head.status, 200);
    assert_eq!(resp.body, b"<body></body>".to_vec());
    assert_eq!(served.expect("index served").path, b"/site/index.html".to_vec());

    // something that exists nowhere
    let req = RequestHead::new("GET", "/nope.txt");
    assert!(!svc.check_multi(&req, &vfs));
    let (resp, _) = svc.call(&req, &vfs);
    assert_eq!(resp.head.status, 404);
}

#[test]
fn header_lookup_ignores_case() {
    let mut h = HeaderMap::new();
    h.push("Accept", "text/html");
    assert_eq!(h.get("accept"), Some(&b"text/html".to_vec()));
    assert_eq!(h.get("ACCEPT"), Some(&b"text/html".to_vec()));
    assert!(h.contains_key("aCCept"));
    assert!(h.get("acceptx").is_none());
}
