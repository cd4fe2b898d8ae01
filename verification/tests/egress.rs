//! How lanes reach their providers: direct, or masked behind a proxy.

use relay_core::workflow::egress::{LaneEgress, ProxyKind, to_ascii_lower};

#[test]
fn direct_client_builds_successfully() {
    let client = LaneEgress::direct();
    assert_eq!(client.egress(), "direct");
    assert!(client.available());
}

#[test]
fn http_proxy_builds_successfully() {
    let client = LaneEgress::http_proxy("http://proxy.example.com:8080");
    assert!(client.is_ok());
    let client = match client {
        Ok(c) => c,
        Err(e) => panic!("valid proxy should build: {e}"),
    };
    assert_eq!(client.egress(), "masked");
    assert!(client.available());
}

#[test]
fn socks5_builds_successfully() {
    let client = LaneEgress::socks5("socks5://proxy.example.com:1080");
    assert!(client.is_ok());
    let client = match client {
        Ok(c) => c,
        Err(e) => panic!("valid socks5 should build: {e}"),
    };
    assert_eq!(client.egress(), "masked");
    assert!(client.available());
}

#[test]
fn from_lane_routes_masked_http() {
    let client = LaneEgress::from_lane("masked", Some("http://proxy.example.com:8080"));
    assert!(client.is_ok());
    let client = match client {
        Ok(c) => c,
        Err(e) => panic!("masked http should build: {e}"),
    };
    assert_eq!(client.egress(), "masked");
    assert!(client.available());
    assert!(matches!(client, LaneEgress::Masked { kind: ProxyKind::HttpConnect, .. }));
}

#[test]
fn from_lane_routes_masked_socks5() {
    let client = LaneEgress::from_lane("masked", Some("socks5://proxy.example.com:1080"));
    assert!(client.is_ok());
    let client = match client {
        Ok(c) => c,
        Err(e) => panic!("masked socks5 should build: {e}"),
    };
    assert_eq!(client.egress(), "masked");
    assert!(client.available());
    assert!(matches!(client, LaneEgress::Masked { kind: ProxyKind::Socks5, .. }));
}

#[test]
fn from_lane_masked_without_proxy_returns_error() {
    let client = LaneEgress::from_lane("masked", None);
    assert!(
        client.is_err(),
        "masked egress requires a proxy_url — a direct fallback would leak the gateway IP"
    );
    let err = match client {
        Err(e) => e,
        Ok(_) => panic!("masked without proxy must fail closed"),
    };
    assert!(err.contains("requires a proxy_url"), "error should name the missing proxy, got: {err}");
}

#[test]
fn from_lane_unknown_egress_returns_error() {
    let client = LaneEgress::from_lane("some_future_value", None);
    assert!(client.is_err(), "unknown egress must not silently become a direct client");
    let err = match client {
        Err(e) => e,
        Ok(_) => panic!("unknown egress must fail closed"),
    };
    assert!(err.contains("unknown egress"), "got: {err}");
}

#[test]
fn http_proxy_invalid_url_returns_error() {
    let client = LaneEgress::http_proxy("http://exa mple.com:8080");
    assert!(client.is_err());
    let err = match client {
        Err(e) => e,
        Ok(_) => panic!("invalid URL must fail closed"),
    };
    assert!(err.contains("invalid"), "got: {err}");
}

#[test]
fn http_proxy_rejects_non_http_scheme() {
    let client = LaneEgress::http_proxy("socks5://proxy.example.com:1080");
    assert!(client.is_err());
    let err = match client {
        Err(e) => e,
        Ok(_) => panic!("socks5 URL must be rejected by http_proxy"),
    };
    assert!(err.contains("scheme"), "got: {err}");
}

#[test]
fn socks5_rejects_non_socks5_scheme() {
    let client = LaneEgress::socks5("http://proxy.example.com:8080");
    assert!(client.is_err());
    let err = match client {
        Err(e) => e,
        Ok(_) => panic!("http URL must be rejected by socks5"),
    };
    assert!(err.contains("scheme"), "got: {err}");
}

#[test]
fn socks5h_scheme_is_rejected() {
    let client = LaneEgress::socks5("socks5h://proxy.example.com:1080");
    assert!(client.is_err());
    let err = match client {
        Err(e) => e,
        Ok(_) => panic!("socks5h must be rejected"),
    };
    assert!(err.contains("scheme"), "got: {err}");
}

#[test]
fn from_lane_uppercase_socks5_scheme_routes_to_socks5() {
    let client = LaneEgress::from_lane("masked", Some("SOCKS5://proxy.example.com:1080"));
    assert!(client.is_ok());
    let client = match client {
        Ok(c) => c,
        Err(e) => panic!("uppercase SOCKS5 should build: {e}"),
    };
    assert_eq!(client.egress(), "masked");
}

#[test]
fn masked_without_tunnel_is_unrepresentable() {
    let client = LaneEgress::direct();
    assert_eq!(client.egress(), "direct");
    assert!(client.available());
}

#[test]
fn direct_and_masked_clients_are_available() {
    let direct = LaneEgress::direct();
    assert!(direct.available());
    let masked = match LaneEgress::http_proxy("http://proxy.example.com:8080") {
        Ok(c) => c,
        Err(e) => panic!("valid proxy should build a masked client: {e}"),
    };
    assert!(masked.available());
}

#[test]
fn socks5_invalid_url_returns_error() {
    let client = LaneEgress::socks5("http://exa mple.com:8080");
    assert!(client.is_err());
    let err = match client {
        Err(e) => e,
        Ok(_) => panic!("invalid URL must fail closed"),
    };
    assert!(err.contains("invalid"), "got: {err}");
}

#[test]
fn egress_error_messages_are_exact() {
    assert_eq!(
        LaneEgress::from_lane("masked", Some("ftp://p:1")).unwrap_err(),
        "lane egress=masked: unsupported proxy scheme 'ftp' in 'ftp://p:1' (expected socks5://, http://, or https://)"
    );
    assert_eq!(
        LaneEgress::from_lane("other", None).unwrap_err(),
        "unknown egress 'other' (expected 'direct' or 'masked')"
    );
    assert_eq!(
        LaneEgress::socks5("HTTP://p:1").unwrap_err(),
        "invalid proxy_url: scheme 'http' is not SOCKS5 (use socks5://)"
    );
    assert!(matches!(LaneEgress::from_lane("masked", Some("no-scheme")), Err(m) if m.contains("scheme ''")));
    match LaneEgress::from_lane("masked", Some("HTTPS://p:1")) {
        Ok(LaneEgress::Masked { kind, proxy_url }) => {
            assert_eq!(kind, ProxyKind::HttpConnect);
            assert_eq!(proxy_url, "HTTPS://p:1");
        }
        other => panic!("unexpected {:?}", other),
    }
    assert_eq!(to_ascii_lower("AbC-Ü"), "abc-Ü");
}
