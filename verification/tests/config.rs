use weathervane::config::{parse_u16, version, CertificateBundles, Config, EnvValues, HttpPort};

fn base_env() -> EnvValues {
    EnvValues {
        http_port: None,
        external_base: Some("https://wv.example".to_string()),
        certificate_bundles: None,
        user_agent: None,
        plc_hostname: None,
        git_hash: Some("deadbeef".to_string()),
        cargo_pkg_version: Some("1.2.3".to_string()),
    }
}

#[test]
fn defaults_fill_the_gaps() {
    let config = Config::new(&base_env()).unwrap();
    assert_eq!(*config.http_port.as_ref(), 4060);
    assert_eq!(config.external_base, "https://wv.example");
    assert!(config.certificate_bundles.as_ref().is_empty());
    assert_eq!(config.version, "deadbeef");
    assert_eq!(
        config.user_agent,
        "weathervane (deadbeef; +https://github.com/astrenoxcoop/weathervane)"
    );
    assert_eq!(config.plc_hostname, "plc.directory");
}

#[test]
fn explicit_values_win_over_defaults() {
    let mut env = base_env();
    env.http_port = Some("8080".to_string());
    env.user_agent = Some("custom/1".to_string());
    env.plc_hostname = Some("plc.example".to_string());
    env.certificate_bundles = Some("/a.pem;;/b.pem;".to_string());
    let config = Config::new(&env).unwrap();
    assert_eq!(*config.http_port.as_ref(), 8080);
    assert_eq!(config.user_agent, "custom/1");
    assert_eq!(config.plc_hostname, "plc.example");
    assert_eq!(
        config.certificate_bundles.as_ref(),
        &vec!["/a.pem".to_string(), "/b.pem".to_string()]
    );
}

#[test]
fn external_base_is_required() {
    let mut env = base_env();
    env.external_base = None;
    assert_eq!(Config::new(&env).unwrap_err().0, "EXTERNAL_BASE must be set");
}

#[test]
fn bad_port_is_rejected() {
    let mut env = base_env();
    env.http_port = Some("not-a-port".to_string());
    assert_eq!(Config::new(&env).unwrap_err().0, "parsing PORT into u16 failed");
    env.http_port = Some("70000".to_string());
    assert_eq!(Config::new(&env).unwrap_err().0, "parsing PORT into u16 failed");
}

#[test]
fn version_prefers_the_build_hash() {
    let mut env = base_env();
    env.git_hash = None;
    let config = Config::new(&env).unwrap();
    assert_eq!(config.version, "1.2.3");
    env.cargo_pkg_version = None;
    assert_eq!(
        Config::new(&env).unwrap_err().0,
        "one of GIT_HASH or CARGO_PKG_VERSION must be set"
    );
    assert_eq!(
        version(&None, &None).unwrap_err().0,
        "one of GIT_HASH or CARGO_PKG_VERSION must be set"
    );
    assert_eq!(version(&Some("g".to_string()), &Some("p".to_string())).unwrap(), "g");
}

#[test]
fn empty_port_value_falls_back_to_eighty() {
    let port = HttpPort::try_from("".to_string()).unwrap();
    assert_eq!(*port.as_ref(), 80);
}

#[test]
fn port_parsing_matches_the_standard_parser() {
    for s in ["0", "80", "8080", "65535", "+123", "65536", "99999", "", " 80", "8_0", "-1", "+"] {
        let expected = s.parse::<u16>().ok();
        assert_eq!(parse_u16(s), expected, "parsing {:?}", s);
    }
}

#[test]
fn certificate_bundles_drop_empty_pieces() {
    let bundles = CertificateBundles::try_from(";;".to_string()).unwrap();
    assert!(bundles.as_ref().is_empty());
    let bundles = CertificateBundles::try_from("one".to_string()).unwrap();
    assert_eq!(bundles.as_ref(), &vec!["one".to_string()]);
}
