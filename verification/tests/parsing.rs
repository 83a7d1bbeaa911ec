use bs3_core::config::{DirOnly, ServeStaticConfig, ServeStaticError};
use bs3_core::control::{parse_incoming_msg, IncomingHttpMsg, MutationError, MutationResult, MutationRoot};
use bs3_core::proxy::ProxyTarget;
use bs3_core::output::{BrowserSyncOutputMsg, StdOut, StdOutFormat};
use bs3_core::browser_sync::{remove_instance, BrowserSync, RemoveInstance};

#[test]
fn ss_from_str() {
    let ss = ServeStaticConfig::from_str("node_modules").expect("parse");
    assert_eq!(
        ss,
        ServeStaticConfig::DirOnly(DirOnly { dir: b"node_modules".to_vec() })
    );

    let ss = ServeStaticConfig::from_str("");
    assert!(ss.is_err());

    let ss = ServeStaticConfig::from_str("router:");
    assert!(ss.is_err());
}

#[test]
fn try_path_buf_rejects_route_lists() {
    assert_eq!(
        ServeStaticConfig::try_path_buf(b"a:b").unwrap_err(),
        ServeStaticError::Invalid
    );
    assert_eq!(
        ServeStaticConfig::try_path_buf(b"").unwrap_err(),
        ServeStaticError::Empty
    );
    assert_eq!(ServeStaticConfig::try_path_buf(b"dir").unwrap(), b"dir".to_vec());
}

#[test]
fn test_from_str_err() {
    let p = ProxyTarget::from_str("///");
    println!("|{}|", p.unwrap_err().message());
}

#[test]
fn test_with_local_paths() {
    let input = "/gql,/~https://countries.trevorblades.com";
    let target = ProxyTarget::from_str(input).expect("test");
    assert_eq!(target.paths, vec![b"/gql".to_vec(), b"/".to_vec()]);
    assert_eq!(
        String::from_utf8(target.target.url_string()).unwrap(),
        "https://countries.trevorblades.com/"
    );
}

#[test]
fn test_with_local_and_remote_paths() {
    let input = "/gql~https://countries.trevorblades.com/gql";
    let target = ProxyTarget::from_str(input).expect("test");
    assert_eq!(target.paths, vec![b"/gql".to_vec()]);
    assert_eq!(
        String::from_utf8(target.target.url_string()).unwrap(),
        "https://countries.trevorblades.com/gql"
    );
}

#[test]
fn proxy_target_rejects_extra_separators() {
    assert!(ProxyTarget::from_str("/a~http://x.com~extra").is_err());
}

#[test]
fn test_http_stop_msg() {
    let json = r#"  {"kind": "Stop"} "#;
    let expected = IncomingHttpMsg::Stop;
    assert_eq!(parse_incoming_msg(json.as_bytes()).expect("test"), expected);
}

#[test]
fn other_messages_are_no_stop() {
    assert_eq!(parse_incoming_msg(b"{\"kind\": \"Go\"}"), None);
    assert_eq!(parse_incoming_msg(b""), None);
    // whitespace inside the quoted strings is significant
    assert_eq!(parse_incoming_msg(b"{\"ki nd\": \"Stop\"}"), None);
    assert_eq!(parse_incoming_msg(b"{\"kind\": \"St op\"}"), None);
    // whitespace between the tokens is not
    assert_eq!(
        parse_incoming_msg(b" { \"kind\" : \"Stop\" } "),
        Some(IncomingHttpMsg::Stop)
    );
}

#[test]
fn stop_outcome_follows_delivery() {
    let root = MutationRoot;
    assert_eq!(root.stop(true), Ok(MutationResult::Stopped));
    assert_eq!(root.stop(false), Err(MutationError::CouldNotStop));
    assert_eq!(
        MutationError::CouldNotStop.message(),
        "Could not stop the server"
    );
}

#[test]
fn stdout_lines_per_format() {
    let msg = BrowserSyncOutputMsg::Listening { bind_address: b"0.0.0.0:8090".to_vec() };
    let human = StdOut { format: StdOutFormat::Human };
    assert_eq!(
        String::from_utf8(human.handle(&msg)).unwrap(),
        "Server ready at 0.0.0.0:8090"
    );
    let json = StdOut { format: StdOutFormat::Json };
    assert_eq!(
        String::from_utf8(json.handle(&msg)).unwrap(),
        "{\"kind\":\"Listening\",\"payload\":{\"bind_address\":\"0.0.0.0:8090\"}}"
    );
    let pretty = StdOut::default();
    assert_eq!(
        String::from_utf8(pretty.handle(&msg)).unwrap(),
        "{\n  \"kind\": \"Listening\",\n  \"payload\": {\n    \"bind_address\": \"0.0.0.0:8090\"\n  }\n}"
    );
}

#[test]
fn remove_instance_drops_the_bound_one() {
    let a = BrowserSync::try_from_args(&[".", "--port", "4000"]).expect("parse");
    let b = BrowserSync::try_from_args(&[".", "--port", "5000"]).expect("parse");
    let c = BrowserSync::try_from_args(&[".", "--port", "4000"]).expect("parse");
    let mut instances = vec![a, b, c];
    remove_instance(&mut instances, &RemoveInstance { bind_address: b"0.0.0.0:4000".to_vec() });
    assert_eq!(instances.len(), 2);
    assert_eq!(instances[0].config.port, Some(5000));
    assert_eq!(instances[1].config.port, Some(4000));
    remove_instance(&mut instances, &RemoveInstance { bind_address: b"0.0.0.0:9999".to_vec() });
    assert_eq!(instances.len(), 2);
}

#[test]
fn bs_error_keeps_the_message() {
    let e = bs3_core::browser_sync::BsError::unknown("boom");
    match e {
        bs3_core::browser_sync::BsError::Unknown { msg } => {
            assert_eq!(msg, b"boom".to_vec())
        }
        _ => panic!("wrong variant"),
    }
}
