use bs3_core::browser_sync::BrowserSync;
use bs3_core::config::{Args, CliError, DirOnly, Multi, ServeStaticConfig};

#[test]
fn test_parse_args_with_index() {
    let args = Args::from_iter(&["prog", "--index", "index.htm", "."]).expect("parse");
    let expected = Args {
        index: Some(b"index.htm".to_vec()),
        paths: vec![b".".to_vec()],
    };
    assert_eq!(expected, args);
}

#[test]
fn test_parse_with_paths() {
    let cmd: Vec<&str> = "prog . fixtures".split(' ').collect();
    let args = Args::from_iter(&cmd).expect("parse");
    let expected = Args {
        index: None,
        paths: vec![b".".to_vec(), b"fixtures".to_vec()],
    };
    assert_eq!(expected, args);
}

#[test]
fn test_from_args() {
    let args: Vec<&str> = ". --serve-static static".split(' ').collect();
    let bs = BrowserSync::try_from_args(&args).expect("parse");
    let ss = bs.config.serve_static_list();
    assert_eq!(
        vec![
            ServeStaticConfig::DirOnly(DirOnly { dir: b".".to_vec() }),
            ServeStaticConfig::DirOnly(DirOnly { dir: b"static".to_vec() }),
        ],
        ss
    );
}

#[test]
fn test_from_args_with_shorthard() {
    let args: Vec<&str> = ". --serve-static node_modules:fixtures/node_modules".split(' ').collect();
    let bs = BrowserSync::try_from_args(&args).expect("parse");
    let ss = bs.config.serve_static_list();
    assert_eq!(
        vec![
            ServeStaticConfig::DirOnly(DirOnly { dir: b".".to_vec() }),
            ServeStaticConfig::Multi(Multi {
                routes: vec![b"node_modules".to_vec()],
                dir: b"fixtures/node_modules".to_vec(),
            }),
        ],
        ss
    );
}

#[test]
fn test_proxy_from_args() {
    let args: Vec<&str> = "--proxy http://www.example.com".split(' ').collect();
    let bs = BrowserSync::try_from_args(&args).expect("parse");
    let proxies = bs.config.proxies();
    let expected_url =
        bs3_core::urlparts::parse_url(b"http://www.example.com").expect("valid url");
    assert_eq!(
        vec![bs3_core::proxy::ProxyTarget {
            target: expected_url,
            paths: vec![],
        }],
        proxies
    );
}

#[test]
fn default_port_is_8090() {
    assert_eq!(bs3_core::config::default_port(), Some(8090));
    let bs = BrowserSync::try_from_args(&["."]).expect("parse");
    assert_eq!(bs.local_url.inner.port, Some(8090));
    assert_eq!(String::from_utf8(bs.bind_address()).unwrap(), "0.0.0.0:8090");
}

#[test]
fn explicit_port_wins() {
    let args: Vec<&str> = ". --port 1025".split(' ').collect();
    let bs = BrowserSync::try_from_args(&args).expect("parse");
    assert_eq!(bs.config.port, Some(1025));
    assert_eq!(String::from_utf8(bs.bind_address()).unwrap(), "0.0.0.0:1025");
}

#[test]
fn set_port_moves_both() {
    let mut bs = BrowserSync::try_from_args(&["."]).expect("parse");
    bs.set_port(4000);
    assert_eq!(bs.config.port, Some(4000));
    assert_eq!(String::from_utf8(bs.bind_address()).unwrap(), "0.0.0.0:4000");
}

#[test]
fn set_port_rebuilds_the_local_url() {
    // a customized host does not survive a port change: the local URL is
    // rebuilt from the default
    let mut bs = BrowserSync::try_from_args(&["."]).expect("parse");
    bs.local_url.inner.host = Some(b"127.0.0.1".to_vec());
    bs.set_port(4000);
    assert_eq!(bs.local_url.inner.host, Some(b"0.0.0.0".to_vec()));
    assert_eq!(String::from_utf8(bs.bind_address()).unwrap(), "0.0.0.0:4000");
}

#[test]
fn unknown_flag_is_rejected() {
    assert_eq!(
        BrowserSync::try_from_args(&["--frobnicate"]).unwrap_err(),
        CliError::UnknownFlag
    );
}

#[test]
fn missing_value_is_rejected() {
    assert_eq!(
        BrowserSync::try_from_args(&["--proxy"]).unwrap_err(),
        CliError::MissingValue
    );
}

#[test]
fn bad_port_is_rejected() {
    let args: Vec<&str> = "--port 99999".split(' ').collect();
    assert_eq!(
        BrowserSync::try_from_args(&args).unwrap_err(),
        CliError::InvalidPort
    );
    let args: Vec<&str> = "--port 80a".split(' ').collect();
    assert_eq!(
        BrowserSync::try_from_args(&args).unwrap_err(),
        CliError::InvalidPort
    );
}
