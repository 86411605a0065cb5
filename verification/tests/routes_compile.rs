//! Compilation, matchers, headers and the decoder.
use siphon_ai::routes::compile::NOT_LOADED;
use siphon_ai::routes::compiled::Matcher;
use siphon_ai::routes::{
    compile, compile_with_tls, load_from_toml, load_with_tls, parse_routes, BridgeOverride,
    BridgeTlsConfig, BridgeTlsOverride, Headers, LoadError, MediaOverride, RawRoute, RawRouteFile,
    RawRouteMatch, RecordingOverride, RouteError, SecurityOverride, TlsLoad, TomlError,
};

fn raw_with_match(name: &str, m: RawRouteMatch) -> RawRoute {
    RawRoute {
        name: name.into(),
        match_: m,
        bridge: BridgeOverride::default(),
        media: MediaOverride::default(),
        security: SecurityOverride::default(),
        recording: RecordingOverride::default(),
    }
}

#[test]
fn empty_match_is_rejected() {
    let f = RawRouteFile {
        routes: vec![raw_with_match("r", RawRouteMatch::default())],
    };
    assert!(matches!(compile(f), Err(RouteError::EmptyMatch { .. })));
}

#[test]
fn any_with_other_keys_is_rejected() {
    let f = RawRouteFile {
        routes: vec![raw_with_match(
            "r",
            RawRouteMatch {
                any: true,
                request_uri_user: Some("5000".into()),
                ..Default::default()
            },
        )],
    };
    assert!(matches!(
        compile(f),
        Err(RouteError::AnyWithOtherKeys { .. })
    ));
}

#[test]
fn duplicate_route_name_is_rejected() {
    let f = RawRouteFile {
        routes: vec![
            raw_with_match(
                "r",
                RawRouteMatch {
                    request_uri_user: Some("a".into()),
                    ..Default::default()
                },
            ),
            raw_with_match(
                "r",
                RawRouteMatch {
                    request_uri_user: Some("b".into()),
                    ..Default::default()
                },
            ),
        ],
    };
    assert!(matches!(compile(f), Err(RouteError::DuplicateName { .. })));
}

#[test]
fn empty_name_is_rejected() {
    let f = RawRouteFile {
        routes: vec![raw_with_match(
            "  ",
            RawRouteMatch {
                request_uri_user: Some("a".into()),
                ..Default::default()
            },
        )],
    };
    assert!(matches!(compile(f), Err(RouteError::EmptyName { .. })));
}

#[test]
fn bad_regex_is_rejected() {
    let f = RawRouteFile {
        routes: vec![raw_with_match(
            "r",
            RawRouteMatch {
                regex: true,
                request_uri_user: Some("[bad".into()),
                ..Default::default()
            },
        )],
    };
    let err = compile(f).unwrap_err();
    match err {
        RouteError::BadRegex { key, .. } => assert_eq!(key, "request_uri_user"),
        other => panic!("expected BadRegex, got {other:?}"),
    }
}

fn raw_with_bridge(name: &str, bridge: BridgeOverride) -> RawRoute {
    RawRoute {
        name: name.into(),
        match_: RawRouteMatch {
            any: true,
            ..Default::default()
        },
        bridge,
        media: MediaOverride::default(),
        security: SecurityOverride::default(),
        recording: RecordingOverride::default(),
    }
}

#[test]
fn route_without_tls_compiles_to_none() {
    let set = compile(RawRouteFile {
        routes: vec![raw_with_bridge("r", BridgeOverride::default())],
    })
    .expect("compiles");
    assert!(set.iter().next().unwrap().bridge_tls.is_none());
}

/// What the two files hold.
fn loaded(tls: &BridgeTlsOverride, outcome: Result<BridgeTlsConfig, String>) -> Vec<TlsLoad> {
    vec![TlsLoad {
        files: tls.clone(),
        outcome,
    }]
}

#[test]
fn route_with_valid_tls_compiles_to_some() {
    let tls = BridgeTlsOverride {
        client_cert: "client_cert.pem".into(),
        client_key: "client_key.pem".into(),
        pinned_sha256: None,
    };
    let loads = loaded(
        &tls,
        Ok(BridgeTlsConfig {
            client_cert: vec![1, 2],
            client_key: vec![3],
            pinned_sha256: None,
        }),
    );
    let bridge = BridgeOverride {
        tls: Some(tls),
        ..Default::default()
    };
    let set = compile_with_tls(
        RawRouteFile {
            routes: vec![raw_with_bridge("secure", bridge)],
        },
        &loads,
    )
    .expect("compiles with valid cert/key");
    let got = set.iter().next().unwrap().bridge_tls.as_ref();
    assert!(
        got.is_some(),
        "valid [route.bridge.tls] should compile to Some"
    );
    assert_eq!(got.unwrap().client_cert, vec![1, 2]);
    assert_eq!(got.unwrap().client_key, vec![3]);
}

#[test]
fn route_with_bad_tls_path_is_rejected() {
    let tls = BridgeTlsOverride {
        client_cert: "/nonexistent/cert.pem".into(),
        client_key: "/nonexistent/key.pem".into(),
        pinned_sha256: None,
    };
    let loads = loaded(&tls, Err("No such file or directory".to_string()));
    let bridge = BridgeOverride {
        tls: Some(tls),
        ..Default::default()
    };
    let err = compile_with_tls(
        RawRouteFile {
            routes: vec![raw_with_bridge("secure", bridge)],
        },
        &loads,
    )
    .unwrap_err();
    assert!(
        matches!(err, RouteError::BadBridgeTls { ref name, .. } if name == "secure"),
        "expected BadBridgeTls, got {err:?}"
    );
    assert_eq!(
        err.message(),
        "route #0 (\"secure\") [route.bridge.tls] is invalid: No such file or directory"
    );
}

#[test]
fn a_tls_block_that_nobody_read_is_rejected() {
    let bridge = BridgeOverride {
        tls: Some(BridgeTlsOverride {
            client_cert: "a".into(),
            client_key: "b".into(),
            pinned_sha256: Some("ff".into()),
        }),
        ..Default::default()
    };
    let other = BridgeTlsOverride {
        client_cert: "a".into(),
        client_key: "b".into(),
        pinned_sha256: None,
    };
    let loads = loaded(&other, Err("unused".to_string()));
    let err = compile_with_tls(
        RawRouteFile {
            routes: vec![raw_with_bridge("secure", bridge)],
        },
        &loads,
    )
    .unwrap_err();
    assert!(matches!(err, RouteError::BadBridgeTls { ref source, .. } if source == NOT_LOADED));
}

#[test]
fn duplicate_header_is_rejected_case_insensitively() {
    let f = RawRouteFile {
        routes: vec![raw_with_match(
            "r",
            RawRouteMatch {
                header: [
                    ("X-Customer-Id".to_string(), "a".to_string()),
                    ("x-customer-id".to_string(), "b".to_string()),
                ]
                .into_iter()
                .collect(),
                ..Default::default()
            },
        )],
    };
    assert!(matches!(
        compile(f),
        Err(RouteError::DuplicateHeader { .. })
    ));
}

#[test]
fn messages_name_the_route() {
    let f = RawRouteFile {
        routes: vec![
            raw_with_match(
                "a",
                RawRouteMatch {
                    any: true,
                    ..Default::default()
                },
            ),
            raw_with_match(
                "b",
                RawRouteMatch {
                    regex: true,
                    to_host: Some("ok".into()),
                    header: vec![("X-A".to_string(), "(".to_string())],
                    ..Default::default()
                },
            ),
        ],
    };
    match compile(f).unwrap_err() {
        RouteError::BadRegex { index, name, key, err } => {
            assert_eq!((index, name.as_str(), key.as_str()), (1, "b", "header.X-A"));
            assert!(!err.is_empty());
        }
        other => panic!("expected BadRegex, got {other:?}"),
    }
    let e: RouteError<String> = RouteError::DuplicateName {
        name: "m\"x".to_string(),
        first: 0,
        second: 12,
    };
    assert_eq!(
        e.message(),
        "two routes share name \"m\\\"x\" (#0 and #12); names must be unique"
    );
    let e: RouteError<String> = RouteError::EmptyMatch {
        index: 3,
        name: "q".to_string(),
    };
    assert_eq!(
        e.message(),
        "route #3 (\"q\") has an empty match block — set `any = true` for an unconditional match"
    );
}

#[test]
fn headers_lookup_is_case_insensitive() {
    let mut h = Headers::new();
    h.insert("X-Customer-Id", "cust-42");
    assert_eq!(h.get("x-customer-id"), Some("cust-42"));
    assert_eq!(h.get("X-CUSTOMER-ID"), Some("cust-42"));
    assert_eq!(h.get("X-Customer-Id"), Some("cust-42"));
    assert_eq!(h.get("x-other"), None);
}

#[test]
fn last_write_wins() {
    let mut h = Headers::new();
    h.insert("X-K", "v1");
    h.insert("x-k", "v2");
    assert_eq!(h.get("X-K"), Some("v2"));
    assert_eq!(h.len(), 1);
}

#[test]
fn literal_matcher_is_case_insensitive() {
    let m = Matcher::Literal("alice".to_string());
    assert!(m.matches("ALICE"));
    assert!(m.matches("Alice"));
    assert!(m.matches("alice"));
    assert!(!m.matches("alic"));
    assert!(!m.matches("alicee"));
    assert!(!m.matches(""));
}

#[test]
fn regex_matcher_unanchored_is_substring() {
    let m = Matcher::Regex(regex::Regex::new("sales").unwrap());
    assert!(m.matches("sales-42"));
    assert!(m.matches("global-sales"));
    assert!(!m.matches("billing"));
    assert!(m.clone().matches("sales"));
    assert!(!m.clone().matches("billing"));
}

#[test]
fn the_decoder_reads_every_key_and_refuses_wrong_types() {
    let set = load_from_toml(
        r#"
        [[route]]
        name = "all"
        [route.match]
        regex = false
        request_uri_host = "H"
        [route.bridge]
        ws_auth_header = "Bearer x"
        audio_direction = "both"
        on_ws_failure = "hangup"
        ws_connect_timeout_ms = 5000
        silence_threshold_ms = 1
        dead_air_threshold_ms = 2
        rtp_stats_interval_ms = 3
        [route.bridge.barge_in]
        mode = "pause"
        [route.media]
        codecs = ["pcmu", "opus"]
        dtmf = "rfc2833"
        inactivity_timeout_secs = 30
        rtp_port_range = [10000, 20000]
        srtp = "required"
        [route.security]
        min_attestation = "B"
        [route.recording]
        mode = "always"
    "#,
    )
    .unwrap();
    let r = set.iter().next().unwrap();
    assert_eq!(r.bridge.ws_auth_header.as_deref(), Some("Bearer x"));
    assert_eq!(r.bridge.audio_direction.as_deref(), Some("both"));
    assert_eq!(r.bridge.on_ws_failure.as_deref(), Some("hangup"));
    assert_eq!(r.bridge.ws_connect_timeout_ms, Some(5000));
    assert_eq!(r.bridge.silence_threshold_ms, Some(1));
    assert_eq!(r.bridge.dead_air_threshold_ms, Some(2));
    assert_eq!(r.bridge.rtp_stats_interval_ms, Some(3));
    assert_eq!(r.bridge.barge_in.mode.as_deref(), Some("pause"));
    assert_eq!(r.bridge.ws_url, None);
    assert_eq!(
        r.media.codecs,
        Some(vec!["pcmu".to_string(), "opus".to_string()])
    );
    assert_eq!(r.media.dtmf.as_deref(), Some("rfc2833"));
    assert_eq!(r.media.inactivity_timeout_secs, Some(30));
    assert_eq!(r.media.rtp_port_range, Some((10000, 20000)));
    assert_eq!(r.media.srtp.as_deref(), Some("required"));
    assert_eq!(r.security.min_attestation.as_deref(), Some("B"));
    assert_eq!(r.recording.mode.as_deref(), Some("always"));

    for (block, line) in [
        ("route.match", "any = 1"),
        ("route.match", "to_user = 5000"),
        ("route.match.header", "X-A = true"),
        ("route.bridge", "ws_connect_timeout_ms = -1"),
        ("route.bridge", "barge_in = 3"),
        ("route.media", "codecs = [1]"),
        ("route.media", "rtp_port_range = [1]"),
        ("route.media", "rtp_port_range = [1, 70000]"),
        ("route.media", "dtmf = 1.5"),
    ] {
        let text = format!("[[route]]\nname = \"r\"\n[route.match]\nregex = false\n[{block}]\n{line}\n");
        let text = if block == "route.match" {
            format!("[[route]]\nname = \"r\"\n[route.match]\n{line}\n")
        } else {
            text
        };
        match load_from_toml(&text) {
            Err(LoadError::Toml(TomlError::WrongType { key, .. })) => {
                assert!(line.starts_with(&key), "{line}: {key}")
            }
            other => panic!("{line}: {other:?}"),
        }
    }
    match load_from_toml("[[route]]\n[route.match]\nany = true\n") {
        Err(LoadError::Toml(e)) => assert_eq!(e.to_string(), "missing field `name` in [[route]]"),
        other => panic!("{other:?}"),
    }
    match load_from_toml("[[route]]\nname = \"r\"\n") {
        Err(LoadError::Toml(e)) => assert_eq!(e.to_string(), "missing field `match` in [[route]]"),
        other => panic!("{other:?}"),
    }
    assert!(matches!(
        load_from_toml("route = 3"),
        Err(LoadError::Toml(TomlError::WrongType { .. }))
    ));
    assert!(matches!(
        load_from_toml("[[["),
        Err(LoadError::Toml(TomlError::Syntax(_)))
    ));
}

#[test]
fn load_with_tls_uses_what_was_read() {
    let text = r#"
        [[route]]
        name = "secure"
        [route.match]
        any = true
        [route.bridge.tls]
        client_cert = "c.pem"
        client_key = "k.pem"
    "#;
    let raw = parse_routes(text).unwrap();
    let tls = raw.routes[0].bridge.tls.clone().unwrap();
    assert_eq!(tls.client_cert, "c.pem");
    assert!(matches!(
        load_from_toml(text),
        Err(LoadError::Compile(RouteError::BadBridgeTls { .. }))
    ));
    let loads = loaded(
        &tls,
        Ok(BridgeTlsConfig {
            client_cert: vec![9],
            client_key: vec![8],
            pinned_sha256: None,
        }),
    );
    let set = load_with_tls(text, &loads).unwrap();
    assert!(set.iter().next().unwrap().bridge_tls.is_some());
}

#[test]
fn a_header_counts_once_in_any_case() {
    let mut h = Headers::new();
    h.insert("X-K", "v1");
    assert_eq!(h.len(), 1);
    h.insert("x-K", "V1");
    assert_eq!(h.len(), 1);
    assert_eq!(h.get("X-k"), Some("V1"));
    h.insert("X-Other", "");
    assert_eq!(h.len(), 2);
    assert_eq!(h.get("x-k"), Some("V1"));
}
