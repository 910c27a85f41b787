use snapfilething::config::{RateLimitConfig, RateLimitRule};
use snapfilething::middleware::rate_limit::{
    admission, client_identity, ClientIp, forwarded_candidate, matches_any_prefix, peer_candidate,
    positive_or, quota_fits, RateLimitMiddleware, RouteClass,
};

fn rule(enabled: bool, requests_per_minute: u32, burst_size: u32) -> RateLimitRule {
    RateLimitRule { enabled, requests_per_minute, burst_size }
}

fn config() -> RateLimitConfig {
    RateLimitConfig {
        auth_routes: rule(true, 10, 3),
        upload_routes: rule(true, 60, 10),
        static_routes: rule(true, 1000, 100),
        disabled_routes: vec!["/health".to_string(), "/docs".to_string()],
    }
}

fn v4(a: u8, b: u8, c: u8, d: u8) -> ClientIp {
    ClientIp { v6: false, bits: u32::from_be_bytes([a, b, c, d]) as u128 }
}

fn admitted(service: &snapfilething::middleware::rate_limit::RateLimitService, path: &str, ip: ClientIp, tries: usize) -> usize {
    (0..tries).filter(|_| service.check(path, ip)).count()
}

#[test]
fn routes_are_classified_by_prefix_and_content() {
    let service = RateLimitMiddleware::try_new(&config()).unwrap().new_transform();
    assert_eq!(service.determine_route_type("/uploads/a.png"), Some(RouteClass::Static));
    assert_eq!(service.determine_route_type("/uploads"), Some(RouteClass::Static));
    assert_eq!(service.determine_route_type("/upload"), Some(RouteClass::Upload));
    assert_eq!(service.determine_route_type("/upload/x"), Some(RouteClass::Upload));
    assert_eq!(service.determine_route_type("/uploadsauth"), Some(RouteClass::Static));
    assert_eq!(service.determine_route_type("/upload/login"), Some(RouteClass::Upload));
    assert_eq!(service.determine_route_type("/api/auth/login"), Some(RouteClass::Auth));
    assert_eq!(service.determine_route_type("/api/login"), Some(RouteClass::Auth));
    assert_eq!(service.determine_route_type("/api/authors"), Some(RouteClass::Auth));
    assert_eq!(service.determine_route_type("/api/files"), Some(RouteClass::Upload));
    assert_eq!(service.determine_route_type("/api/upload"), Some(RouteClass::Upload));
    assert_eq!(service.determine_route_type(""), Some(RouteClass::Upload));
    assert_eq!(service.determine_route_type("/Login"), Some(RouteClass::Upload));
}

#[test]
fn disabled_prefixes_are_not_limited() {
    let service = RateLimitMiddleware::try_new(&config()).unwrap().new_transform();
    assert_eq!(service.determine_route_type("/health"), None);
    assert_eq!(service.determine_route_type("/healthz/auth"), None);
    assert_eq!(service.determine_route_type("/docs/login"), None);
    assert_eq!(service.determine_route_type("/api/health"), Some(RouteClass::Upload));
    assert_eq!(admitted(&service, "/health", v4(1, 1, 1, 1), 500), 500);
}

#[test]
fn empty_prefix_disables_everything() {
    let mut config = config();
    config.disabled_routes = vec!["".to_string()];
    let service = RateLimitMiddleware::try_new(&config).unwrap().new_transform();
    assert_eq!(service.determine_route_type("/api/auth/login"), None);
    assert_eq!(admitted(&service, "/api/auth/login", v4(1, 1, 1, 1), 50), 50);
}

#[test]
fn prefix_matching() {
    let prefixes = vec!["/a".to_string(), "/bc".to_string()];
    assert!(matches_any_prefix(&prefixes, "/a"));
    assert!(matches_any_prefix(&prefixes, "/abc"));
    assert!(matches_any_prefix(&prefixes, "/bcd"));
    assert!(!matches_any_prefix(&prefixes, "/b"));
    assert!(!matches_any_prefix(&prefixes, "a"));
    assert!(!matches_any_prefix(&Vec::new(), "/a"));
}

#[test]
fn fresh_key_gets_exactly_the_burst() {
    let service = RateLimitMiddleware::try_new(&config()).unwrap().new_transform();
    assert_eq!(admitted(&service, "/api/auth/login", v4(10, 0, 0, 1), 20), 3);
    assert_eq!(admitted(&service, "/api/auth/login", v4(10, 0, 0, 1), 20), 0);
}

#[test]
fn each_class_has_its_own_burst() {
    let service = RateLimitMiddleware::try_new(&config()).unwrap().new_transform();
    let ip = v4(10, 0, 0, 2);
    assert_eq!(admitted(&service, "/api/files", ip, 40), 10);
    assert_eq!(admitted(&service, "/uploads/a.png", ip, 130), 100);
    assert_eq!(admitted(&service, "/api/auth/login", ip, 40), 3);
}

#[test]
fn each_client_has_its_own_bucket() {
    let service = RateLimitMiddleware::try_new(&config()).unwrap().new_transform();
    assert_eq!(admitted(&service, "/api/auth/login", v4(10, 0, 0, 3), 10), 3);
    assert_eq!(admitted(&service, "/api/auth/login", v4(10, 0, 0, 4), 10), 3);
    let six = ClientIp { v6: true, bits: u32::from_be_bytes([10, 0, 0, 3]) as u128 };
    assert_eq!(admitted(&service, "/api/auth/login", six, 10), 3);
}

#[test]
fn tokens_refill_at_the_configured_rate() {
    let mut config = config();
    config.auth_routes = rule(true, 600, 2);
    let service = RateLimitMiddleware::try_new(&config).unwrap().new_transform();
    let ip = v4(10, 0, 0, 5);
    let start = std::time::Instant::now();
    let mut count: u128 = 0;
    while start.elapsed() < std::time::Duration::from_millis(450) {
        if service.check("/api/auth/login", ip) {
            count += 1;
        }
    }
    let elapsed = start.elapsed().as_millis();
    assert!(count >= 4);
    assert!(count <= 2 + elapsed / 100 + 1);
}

#[test]
fn switched_off_class_is_not_limited() {
    let mut config = config();
    config.auth_routes = rule(false, 10, 3);
    let service = RateLimitMiddleware::try_new(&config).unwrap().new_transform();
    assert_eq!(admitted(&service, "/api/auth/login", v4(10, 0, 0, 6), 50), 50);
    assert_eq!(admitted(&service, "/api/files", v4(10, 0, 0, 6), 50), 10);
}

#[test]
fn zero_in_a_rule_means_the_fallback() {
    let mut config = config();
    config.auth_routes = rule(true, 0, 0);
    config.upload_routes = rule(true, 0, 4);
    let service = RateLimitMiddleware::try_new(&config).unwrap().new_transform();
    assert_eq!(admitted(&service, "/api/auth/login", v4(10, 0, 0, 7), 20), 3);
    assert_eq!(admitted(&service, "/api/files", v4(10, 0, 0, 7), 20), 4);
    assert_eq!(positive_or(0, 10), 10);
    assert_eq!(positive_or(7, 10), 7);
}

#[test]
fn workers_share_the_buckets() {
    let middleware = RateLimitMiddleware::try_new(&config()).unwrap();
    let one = middleware.new_transform();
    let two = middleware.new_transform();
    let ip = v4(10, 0, 0, 8);
    assert_eq!(admitted(&one, "/api/auth/login", ip, 2), 2);
    assert_eq!(admitted(&two, "/api/auth/login", ip, 10), 1);
    assert_eq!(admitted(&one, "/api/auth/login", ip, 10), 0);
}

#[test]
fn admission_follows_the_limiter_only_where_one_decides() {
    assert!(admission(None, true, false));
    assert!(admission(None, false, false));
    assert!(admission(Some(RouteClass::Auth), false, false));
    assert!(admission(Some(RouteClass::Auth), true, true));
    assert!(!admission(Some(RouteClass::Auth), true, false));
    assert!(!admission(Some(RouteClass::Static), true, false));
}

#[test]
fn client_identity_goes_by_priority() {
    let a = v4(1, 1, 1, 1);
    let b = v4(2, 2, 2, 2);
    let c = v4(3, 3, 3, 3);
    assert_eq!(client_identity(Some(a), Some(b), Some(c)), a);
    assert_eq!(client_identity(None, Some(b), Some(c)), b);
    assert_eq!(client_identity(None, None, Some(c)), c);
    assert_eq!(client_identity(None, None, None), v4(127, 0, 0, 1));
    assert_eq!(client_identity(Some(a), None, None), a);
}

#[test]
fn forwarded_header_names_its_first_address() {
    assert_eq!(forwarded_candidate("1.2.3.4"), "1.2.3.4");
    assert_eq!(forwarded_candidate(" 1.2.3.4 , 5.6.7.8"), "1.2.3.4");
    assert_eq!(forwarded_candidate("1.2.3.4,5.6.7.8,9.9.9.9"), "1.2.3.4");
    assert_eq!(forwarded_candidate("\t::1\u{a0},x"), "::1");
    assert_eq!(forwarded_candidate(",1.2.3.4"), "");
    assert_eq!(forwarded_candidate(""), "");
    assert_eq!(forwarded_candidate("  "), "");
    for header in [" a b , c", "x", "\n1.1.1.1\r\n,", "\u{2003}h\u{3000}"] {
        let expected = header.split(',').next().unwrap().trim();
        assert_eq!(forwarded_candidate(header), expected);
    }
}

#[test]
fn peer_address_names_its_host() {
    assert_eq!(peer_candidate("10.0.0.1:5000"), "10.0.0.1");
    assert_eq!(peer_candidate("10.0.0.1"), "10.0.0.1");
    assert_eq!(peer_candidate(":80"), "");
    assert_eq!(peer_candidate("::1"), "");
    assert_eq!(peer_candidate(""), "");
}

#[test]
fn quotas_that_cannot_be_counted_are_refused() {
    assert!(quota_fits(10, 3));
    assert!(quota_fits(1, 1));
    assert!(quota_fits(u32::MAX, u32::MAX));
    assert!(quota_fits(1, 307_445_734));
    assert!(!quota_fits(1, 307_445_735));
    assert!(!quota_fits(1, u32::MAX));
    assert!(quota_fits(14, u32::MAX));
    assert!(!quota_fits(13, u32::MAX));
    assert!(!quota_fits(0, 3));
    assert!(!quota_fits(10, 0));
    let mut config = config();
    config.auth_routes = rule(true, 1, 400_000_000);
    assert!(RateLimitMiddleware::try_new(&config).is_none());
    config.auth_routes = rule(false, 1, 400_000_000);
    assert!(RateLimitMiddleware::try_new(&config).is_some());
    config.auth_routes = rule(true, 1, 307_445_734);
    assert!(RateLimitMiddleware::try_new(&config).is_some());
    config.static_routes = rule(true, 2, u32::MAX);
    assert!(RateLimitMiddleware::try_new(&config).is_none());
}

#[test]
fn exhausted_allowance_is_rate_limited() {
    let service = RateLimitMiddleware::try_new(&config()).unwrap().new_transform();
    let ip = v4(10, 0, 0, 9);
    for _ in 0..3 {
        assert!(service.enforce("/api/auth/login", ip).is_ok());
    }
    let res = service.enforce("/api/auth/login", ip);
    assert!(matches!(res, Err(snapfilething::error::AppError::RateLimited)));
    assert!(service.enforce("/health", ip).is_ok());
}

#[test]
fn classes_can_be_checked_directly() {
    let service = RateLimitMiddleware::try_new(&config()).unwrap().new_transform();
    let ip = v4(10, 0, 0, 10);
    let tries = (0..10).filter(|_| service.check_class(RouteClass::Auth, ip)).count();
    assert_eq!(tries, 3);
    assert!(!service.check("/api/auth/login", ip));
    assert!(service.check_class(RouteClass::Upload, ip));
}

#[test]
fn a_limiter_is_found_exactly_for_the_classes_that_are_switched_on() {
    let mut config = config();
    config.upload_routes = rule(false, 60, 10);
    let service = RateLimitMiddleware::try_new(&config).unwrap().new_transform();
    assert!(service.limiter_of(RouteClass::Auth).is_some());
    assert!(service.limiter_of(RouteClass::Upload).is_none());
    assert!(service.limiter_of(RouteClass::Static).is_some());
    let ip = v4(10, 0, 0, 11);
    let through = (0..50).filter(|_| service.check_class(RouteClass::Upload, ip)).count();
    assert_eq!(through, 50);
    let through = (0..50).filter(|_| service.check_class(RouteClass::Auth, ip)).count();
    assert_eq!(through, 3);
}

#[test]
fn a_request_is_counted_against_the_client_it_comes_from() {
    let service = RateLimitMiddleware::try_new(&config()).unwrap().new_transform();
    let a = v4(10, 1, 0, 1);
    let b = v4(10, 1, 0, 2);
    let peer = v4(10, 1, 0, 3);
    let path = "/api/auth/login";
    let through = (0..10).filter(|_| service.call(path, Some(a), Some(b), Some(peer)).is_ok());
    assert_eq!(through.count(), 3);
    let res = service.call(path, Some(a), None, None);
    assert!(matches!(res, Err(snapfilething::error::AppError::RateLimited)));
    assert!(!service.check(path, a));
    let through = (0..10).filter(|_| service.call(path, None, Some(b), Some(peer)).is_ok());
    assert_eq!(through.count(), 3);
    let through = (0..10).filter(|_| service.call(path, None, None, Some(peer)).is_ok());
    assert_eq!(through.count(), 3);
    let through = (0..10).filter(|_| service.call(path, None, None, None).is_ok());
    assert_eq!(through.count(), 3);
    assert!(!service.check(path, v4(127, 0, 0, 1)));
    assert!(!service.check(path, b));
    assert!(!service.check(path, peer));
    assert!(service.call("/health", Some(a), None, None).is_ok());
    assert!(service.call("/upload", Some(a), None, None).is_ok());
}
