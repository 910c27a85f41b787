use base64::Engine;
use snapfilething::config::AuthConfig;
use snapfilething::handlers::auth::JwtService;
use snapfilething::middleware::auth::{AuthMiddleware, covers, static_asset};

const NOW: i64 = 1_900_000_000;

fn config(mode: &str) -> AuthConfig {
    AuthConfig {
        mode: mode.to_string(),
        admin_username: "admin".to_string(),
        admin_password: "s3cret".to_string(),
        jwt_secret: "key".to_string(),
        disabled_routes: vec![
            "/".to_string(),
            "/web".to_string(),
            "/web/*".to_string(),
            "/api/health".to_string(),
        ],
    }
}

fn basic(user_pass: &str) -> String {
    format!("Basic {}", base64::engine::general_purpose::STANDARD.encode(user_pass))
}

#[test]
fn route_patterns() {
    assert!(covers("/api/health", "/api/health"));
    assert!(!covers("/api/health", "/api/health/"));
    assert!(!covers("/api/health", "/api"));
    assert!(covers("/web/*", "/web/index.html"));
    assert!(covers("/web/*", "/web"));
    assert!(covers("/web/*", "/website"));
    assert!(!covers("/web/*", "/we"));
    assert!(covers("/*", "anything"));
    assert!(covers("/*", ""));
    assert!(covers("*", "*"));
    assert!(!covers("*", "x"));
    assert!(covers("", ""));
}

#[test]
fn static_assets_pass() {
    for path in [
        "/favicon.ico", "/a.png", "/a.jpg", "/a.jpeg", "/a.gif", "/a.svg", "/a.webp", "/a.css",
        "/a.js", "/a.woff", "/a.woff2", "/a.ttf", "/a.eot", "/a.txt", "/a.json",
        "/site.webmanifest", "/assets/x", "/web/assets/x", "/uploads/x", ".js",
    ] {
        assert!(static_asset(path));
    }
    for path in ["/api/files", "/a.PNG", "/a.pngx", "/assets", "/uploads", "/x/assets/y", ""] {
        assert!(!static_asset(path));
    }
}

#[test]
fn disabled_mode_lets_everything_pass() {
    for mode in ["disabled", "public"] {
        let guard = AuthMiddleware::new(config(mode)).new_transform();
        assert!(guard.call("/api/files", None, None));
        assert!(guard.is_exempt("/api/files"));
    }
}

#[test]
fn protected_modes_ask_for_credentials() {
    for mode in ["protected", "local", "something"] {
        let guard = AuthMiddleware::new(config(mode)).new_transform();
        assert!(!guard.call("/api/files", None, None));
        assert!(!guard.is_exempt("/api/files"));
        assert!(guard.call("/api/health", None, None));
        assert!(guard.call("/", None, None));
        assert!(guard.call("/web/app", None, None));
        assert!(guard.call("/logo.png", None, None));
        assert!(!guard.call("/api/healthz", None, None));
    }
}

#[test]
fn bearer_access_token_passes() {
    let guard = AuthMiddleware::new(config("protected")).new_transform();
    let mut service = JwtService::new("key");
    let access = service.create_access_token("alice").unwrap();
    let refresh = service.create_refresh_token("alice").unwrap();
    let header = format!("Bearer {}", access);
    assert!(guard.call("/api/files", Some(&header), Some(&service)));
    assert!(!guard.call("/api/files", Some(&header), None));
    assert!(!guard.call("/api/files", Some(&format!("Bearer {}", refresh)), Some(&service)));
    assert!(!guard.call("/api/files", Some("Bearer junk"), Some(&service)));
    assert!(!guard.call("/api/files", Some(&access), Some(&service)));
    service.blacklist_token(&access).unwrap();
    assert!(!guard.call("/api/files", Some(&header), Some(&service)));
}

#[test]
fn bearer_token_is_checked_at_the_given_time() {
    let guard = AuthMiddleware::new(config("protected")).new_transform();
    let service = JwtService::new("key");
    let access = service.create_access_token_at("alice", NOW, "a".to_string()).unwrap();
    let header = format!("Bearer {}", access);
    assert!(guard.call_at("/api/files", Some(&header), Some(&service), NOW + 3600));
    assert!(!guard.call_at("/api/files", Some(&header), Some(&service), NOW + 3601));
    assert!(guard.call_at("/a.css", Some(&header), Some(&service), NOW + 3601));
}

#[test]
fn basic_credentials_pass() {
    let guard = AuthMiddleware::new(config("protected")).new_transform();
    assert_eq!(basic("admin:s3cret"), "Basic YWRtaW46czNjcmV0");
    assert!(guard.call("/api/files", Some("Basic YWRtaW46czNjcmV0"), None));
    for bad in ["admin:wrong", "root:s3cret", "admin", "admin:", ":s3cret", "admin:s3cret:", ""] {
        assert!(!guard.call("/api/files", Some(&basic(bad)), None));
    }
    assert!(!guard.call("/api/files", Some("Basic !!!"), None));
    assert!(!guard.call("/api/files", Some("Basic YWRtaW46czNjcmV0="), None));
    assert!(!guard.call("/api/files", Some("basic YWRtaW46czNjcmV0"), None));
    assert!(!guard.call("/api/files", Some("Basic  YWRtaW46czNjcmV0"), None));
    assert!(!guard.call("/api/files", Some("YWRtaW46czNjcmV0"), None));
    assert!(!guard.call("/api/files", Some("Basic /w=="), None));
}

#[test]
fn password_may_hold_colons_but_username_may_not() {
    let mut with_colon = config("protected");
    with_colon.admin_password = "a:b:c".to_string();
    let guard = AuthMiddleware::new(with_colon).new_transform();
    assert!(guard.call("/api/files", Some(&basic("admin:a:b:c")), None));
    assert!(!guard.call("/api/files", Some(&basic("admin:a")), None));
    let mut odd = config("protected");
    odd.admin_username = "ad:min".to_string();
    let guard = AuthMiddleware::new(odd).new_transform();
    assert!(!guard.call("/api/files", Some(&basic("ad:min:s3cret")), None));
}

#[test]
fn non_ascii_credentials() {
    let mut cfg = config("protected");
    cfg.admin_username = "ädmin".to_string();
    cfg.admin_password = "pä55".to_string();
    let guard = AuthMiddleware::new(cfg).new_transform();
    assert!(guard.call("/api/files", Some(&basic("ädmin:pä55")), None));
    assert!(!guard.call("/api/files", Some(&basic("admin:pä55")), None));
}

#[test]
fn clock_decides_only_for_a_bearer_token_that_can_expire() {
    let guard = AuthMiddleware::new(config("protected")).new_transform();
    let mut service = JwtService::new("key");
    let issued = i64::MAX - 3600;
    let access = service.create_access_token_at("alice", issued, "a".to_string()).unwrap();
    let refresh =
        service.create_refresh_token_at("alice", i64::MAX - 604800, "r".to_string()).unwrap();
    let header = format!("Bearer {}", access);
    assert!(guard.call("/api/files", Some(&header), Some(&service)));
    assert!(!guard.call("/api/files", Some(&header), None));
    assert!(!guard.call("/api/files", Some(&format!("Bearer {}", refresh)), Some(&service)));
    assert!(!guard.call("/api/files", Some(&format!("Token {}", access)), Some(&service)));
    assert!(!guard.call("/api/files", Some(&format!("bearer {}", access)), Some(&service)));
    assert!(guard.call("/api/health", Some("Token x"), Some(&service)));
    assert!(guard.call("/api/files", Some(&basic("admin:s3cret")), Some(&service)));
    service.blacklist_token(&access).unwrap();
    assert!(!guard.call("/api/files", Some(&header), Some(&service)));
    assert!(guard.call("/a.css", Some(&header), Some(&service)));
}
