use snapfilething::config::{AppConfig, ConfigError, lookup, nth_setting, Setting};

fn vars(pairs: &[(&str, &str)]) -> Vec<(String, String)> {
    pairs.iter().map(|(k, v)| (k.to_string(), v.to_string())).collect()
}

const GOOD: [(&str, &str); 2] = [("ADMIN_PASSWORD", "pw"), ("JWT_SECRET", "secret")];

#[test]
fn default_configuration() {
    let config = AppConfig::default();
    assert_eq!(config.server.web_port, 8080);
    assert_eq!(config.server.static_port, 8081);
    assert_eq!(config.server.upload_dir, "./uploads");
    assert_eq!(config.server.max_file_size, 104857600);
    assert_eq!(config.server.base_url, None);
    assert_eq!(config.auth.mode, "protected");
    assert_eq!(config.auth.admin_username, "admin");
    assert_eq!(config.auth.admin_password, "changeme");
    assert_eq!(config.auth.jwt_secret, "your-super-secret-jwt-key-change-this-in-production");
    assert_eq!(
        config.auth.disabled_routes,
        vec![
            "/", "/web", "/web/", "/web/*", "/favicon.ico", "/api/health", "/docs", "/api-docs",
            "/api/auth/login", "/api/auth/refresh",
        ]
    );
    assert_eq!(config.image.thumbnail_size, 200);
    assert_eq!(config.image.jpeg_quality, 85);
    assert!(config.image.qoi_enabled);
    assert_eq!(config.cors.allowed_origins, vec!["http://localhost:3000", "http://127.0.0.1:3000"]);
    assert_eq!(config.cors.allowed_methods, vec!["GET", "POST", "DELETE"]);
    assert_eq!(config.cors.allowed_headers, vec!["Content-Type", "Authorization"]);
    let rl = &config.rate_limit;
    assert!(rl.auth_routes.enabled && rl.upload_routes.enabled && rl.static_routes.enabled);
    assert_eq!((rl.auth_routes.requests_per_minute, rl.auth_routes.burst_size), (10, 3));
    assert_eq!((rl.upload_routes.requests_per_minute, rl.upload_routes.burst_size), (60, 10));
    assert_eq!((rl.static_routes.requests_per_minute, rl.static_routes.burst_size), (1000, 100));
    assert_eq!(rl.disabled_routes, vec!["/health", "/docs", "/api-docs"]);
}

#[test]
fn static_base_url() {
    let mut config = AppConfig::default();
    assert_eq!(config.get_static_base_url(), "http://localhost:8081");
    config.server.static_port = 65535;
    assert_eq!(config.get_static_base_url(), "http://localhost:65535");
    config.server.static_port = 0;
    assert_eq!(config.get_static_base_url(), "http://localhost:0");
    config.server.base_url = Some("https://files.example".to_string());
    assert_eq!(config.get_static_base_url(), "https://files.example");
}

#[test]
fn validation_names_the_first_fault() {
    let mut config = AppConfig::default();
    assert!(matches!(config.validate(), Err(ConfigError::AdminPassword)));
    config.auth.admin_password = "pw".to_string();
    assert!(matches!(config.validate(), Err(ConfigError::JwtSecret)));
    config.auth.jwt_secret = "secret".to_string();
    assert!(config.validate().is_ok());
    config.server.max_file_size = 0;
    config.image.thumbnail_size = 0;
    assert!(matches!(config.validate(), Err(ConfigError::MaxFileSize)));
    config.server.max_file_size = 1;
    assert!(matches!(config.validate(), Err(ConfigError::ThumbnailSize)));
    config.auth.mode = "public".to_string();
    assert!(matches!(config.validate(), Err(ConfigError::AuthMode)));
    config.auth.mode = "Protected".to_string();
    assert!(matches!(config.validate(), Err(ConfigError::AuthMode)));
}

#[test]
fn local_mode_keeps_the_defaults() {
    let mut config = AppConfig::default();
    config.auth.mode = "local".to_string();
    assert!(config.validate().is_ok());
}

#[test]
fn error_messages() {
    assert_eq!(
        ConfigError::Invalid("WEB_PORT".to_string()).message(),
        "Invalid WEB_PORT environment variable"
    );
    assert_eq!(ConfigError::AuthMode.message(), "Auth mode must be either 'protected' or 'local'");
    assert_eq!(
        ConfigError::AdminPassword.message(),
        "Admin password must be changed for protected mode"
    );
    assert_eq!(ConfigError::JwtSecret.message(), "JWT secret must be changed for protected mode");
    assert_eq!(ConfigError::MaxFileSize.message(), "Max file size must be greater than 0");
    assert_eq!(ConfigError::ThumbnailSize.message(), "Thumbnail size must be greater than 0");
}

#[test]
fn settings_have_their_names_in_order() {
    let names = [
        "WEB_PORT", "STATIC_PORT", "UPLOAD_DIR", "MAX_FILE_SIZE", "BASE_URL", "AUTH_MODE",
        "ADMIN_USERNAME", "ADMIN_PASSWORD", "JWT_SECRET", "AUTH_DISABLED_ROUTES",
        "THUMBNAIL_SIZE", "JPEG_QUALITY", "QOI_ENABLED", "ALLOWED_ORIGINS", "ALLOWED_METHODS",
        "ALLOWED_HEADERS", "RATE_LIMIT_DISABLED_ROUTES", "RATE_LIMIT_AUTH_ENABLED",
        "RATE_LIMIT_AUTH_RPM", "RATE_LIMIT_AUTH_BURST", "RATE_LIMIT_UPLOAD_ENABLED",
        "RATE_LIMIT_UPLOAD_RPM", "RATE_LIMIT_UPLOAD_BURST", "RATE_LIMIT_STATIC_ENABLED",
        "RATE_LIMIT_STATIC_RPM", "RATE_LIMIT_STATIC_BURST",
    ];
    assert_eq!(names.len(), snapfilething::config::SETTINGS);
    for (k, name) in names.iter().enumerate() {
        assert_eq!(nth_setting(k).name(), *name);
    }
}

#[test]
fn applying_settings() {
    let mut config = AppConfig::default();
    config.apply(Setting::WebPort, "9000").unwrap();
    config.apply(Setting::StaticPort, "+9001").unwrap();
    config.apply(Setting::UploadDir, "/data").unwrap();
    config.apply(Setting::MaxFileSize, "12").unwrap();
    config.apply(Setting::BaseUrl, "https://x").unwrap();
    config.apply(Setting::AuthMode, "local").unwrap();
    config.apply(Setting::AdminUsername, "root").unwrap();
    config.apply(Setting::AdminPassword, "pw").unwrap();
    config.apply(Setting::JwtSecret, "k").unwrap();
    config.apply(Setting::AuthDisabledRoutes, "/a, /b ,/c").unwrap();
    config.apply(Setting::ThumbnailSize, "64").unwrap();
    config.apply(Setting::JpegQuality, "255").unwrap();
    config.apply(Setting::QoiEnabled, "false").unwrap();
    config.apply(Setting::AllowedOrigins, "http://a").unwrap();
    config.apply(Setting::AllowedMethods, "GET,PUT").unwrap();
    config.apply(Setting::AllowedHeaders, "").unwrap();
    config.apply(Setting::RateLimitDisabledRoutes, "/x").unwrap();
    config.apply(Setting::RateLimitAuthEnabled, "false").unwrap();
    config.apply(Setting::RateLimitAuthRpm, "1").unwrap();
    config.apply(Setting::RateLimitAuthBurst, "2").unwrap();
    config.apply(Setting::RateLimitUploadEnabled, "true").unwrap();
    config.apply(Setting::RateLimitUploadRpm, "3").unwrap();
    config.apply(Setting::RateLimitUploadBurst, "4").unwrap();
    config.apply(Setting::RateLimitStaticEnabled, "false").unwrap();
    config.apply(Setting::RateLimitStaticRpm, "5").unwrap();
    config.apply(Setting::RateLimitStaticBurst, "4294967295").unwrap();
    assert_eq!(config.server.web_port, 9000);
    assert_eq!(config.server.static_port, 9001);
    assert_eq!(config.server.upload_dir, "/data");
    assert_eq!(config.server.max_file_size, 12);
    assert_eq!(config.server.base_url, Some("https://x".to_string()));
    assert_eq!(config.auth.mode, "local");
    assert_eq!(config.auth.admin_username, "root");
    assert_eq!(config.auth.admin_password, "pw");
    assert_eq!(config.auth.jwt_secret, "k");
    assert_eq!(config.auth.disabled_routes, vec!["/a", "/b", "/c"]);
    assert_eq!(config.image.thumbnail_size, 64);
    assert_eq!(config.image.jpeg_quality, 255);
    assert!(!config.image.qoi_enabled);
    assert_eq!(config.cors.allowed_origins, vec!["http://a"]);
    assert_eq!(config.cors.allowed_methods, vec!["GET", "PUT"]);
    assert_eq!(config.cors.allowed_headers, vec![""]);
    assert_eq!(config.rate_limit.disabled_routes, vec!["/x"]);
    let rl = &config.rate_limit;
    assert_eq!(
        (rl.auth_routes.enabled, rl.auth_routes.requests_per_minute, rl.auth_routes.burst_size),
        (false, 1, 2)
    );
    assert_eq!(
        (
            rl.upload_routes.enabled,
            rl.upload_routes.requests_per_minute,
            rl.upload_routes.burst_size
        ),
        (true, 3, 4)
    );
    assert_eq!(
        (
            rl.static_routes.enabled,
            rl.static_routes.requests_per_minute,
            rl.static_routes.burst_size
        ),
        (false, 5, u32::MAX)
    );
}

#[test]
fn unreadable_settings_change_nothing() {
    let cases = [
        (Setting::WebPort, "65536"),
        (Setting::WebPort, "http"),
        (Setting::StaticPort, "-1"),
        (Setting::MaxFileSize, "1e6"),
        (Setting::ThumbnailSize, "4294967296"),
        (Setting::JpegQuality, "256"),
        (Setting::QoiEnabled, "yes"),
        (Setting::QoiEnabled, "TRUE"),
        (Setting::QoiEnabled, "1"),
        (Setting::RateLimitAuthEnabled, ""),
        (Setting::RateLimitUploadRpm, " 5"),
        (Setting::RateLimitStaticBurst, "ten"),
    ];
    for (setting, value) in cases {
        let mut config = AppConfig::default();
        let res = config.apply(setting, value);
        match res {
            Err(ConfigError::Invalid(name)) => assert_eq!(name, setting.name()),
            _ => panic!("{} should not be read for {}", value, setting.name()),
        }
        assert_eq!(config.server.web_port, 8080);
        assert_eq!(config.server.static_port, 8081);
        assert_eq!(config.image.jpeg_quality, 85);
        assert!(config.image.qoi_enabled);
        assert_eq!(config.rate_limit.static_routes.burst_size, 100);
    }
}

#[test]
fn variables_are_looked_up_by_name() {
    let vars = vars(&[("A", "1"), ("B", "2"), ("A", "3"), ("", "4")]);
    assert_eq!(lookup(&vars, "A"), Some("1"));
    assert_eq!(lookup(&vars, "B"), Some("2"));
    assert_eq!(lookup(&vars, ""), Some("4"));
    assert_eq!(lookup(&vars, "C"), None);
    assert_eq!(lookup(&vars, "a"), None);
}

#[test]
fn configuration_from_variables() {
    let mut all = GOOD.to_vec();
    all.push(("WEB_PORT", "3000"));
    all.push(("AUTH_DISABLED_ROUTES", "/a,/b"));
    all.push(("RATE_LIMIT_UPLOAD_BURST", "7"));
    all.push(("UNKNOWN", "ignored"));
    let config = AppConfig::from_vars(&vars(&all)).unwrap();
    assert_eq!(config.server.web_port, 3000);
    assert_eq!(config.server.static_port, 8081);
    assert_eq!(config.auth.admin_password, "pw");
    assert_eq!(config.auth.disabled_routes, vec!["/a", "/b"]);
    assert_eq!(config.rate_limit.upload_routes.burst_size, 7);
    assert_eq!(config.rate_limit.upload_routes.requests_per_minute, 60);
}

#[test]
fn configuration_without_variables_fails_validation() {
    assert!(matches!(AppConfig::from_vars(&Vec::new()), Err(ConfigError::AdminPassword)));
    let only_password = vars(&[("ADMIN_PASSWORD", "pw")]);
    assert!(matches!(AppConfig::from_vars(&only_password), Err(ConfigError::JwtSecret)));
    let local = vars(&[("AUTH_MODE", "local")]);
    assert!(AppConfig::from_vars(&local).is_ok());
    let odd = vars(&[("AUTH_MODE", "open")]);
    assert!(matches!(AppConfig::from_vars(&odd), Err(ConfigError::AuthMode)));
}

#[test]
fn first_unreadable_variable_is_named() {
    let mut all = GOOD.to_vec();
    all.push(("JPEG_QUALITY", "300"));
    all.push(("STATIC_PORT", "x"));
    all.push(("RATE_LIMIT_AUTH_RPM", "y"));
    match AppConfig::from_vars(&vars(&all)) {
        Err(ConfigError::Invalid(name)) => assert_eq!(name, "STATIC_PORT"),
        _ => panic!("STATIC_PORT should be named"),
    }
    let zero = vars(&[("ADMIN_PASSWORD", "pw"), ("JWT_SECRET", "s"), ("MAX_FILE_SIZE", "0")]);
    assert!(matches!(AppConfig::from_vars(&zero), Err(ConfigError::MaxFileSize)));
    let zero = vars(&[("ADMIN_PASSWORD", "pw"), ("JWT_SECRET", "s"), ("THUMBNAIL_SIZE", "0")]);
    assert!(matches!(AppConfig::from_vars(&zero), Err(ConfigError::ThumbnailSize)));
}
