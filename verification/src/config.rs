//! The service's settings.

use crate::utils::text::{
    concat, concat3, decimal, decimal_digits, is_trimmed_of, opt_view, owned, parse_number,
    parsed_number, pieces_of, split_trimmed, str_eq,
};
use vstd::prelude::*;

verus! {

/// Everything the service is configured with.
#[derive(Debug, Clone)]
pub struct AppConfig {
    pub server: ServerConfig,
    pub auth: AuthConfig,
    pub image: ImageConfig,
    pub cors: CorsConfig,
    pub rate_limit: RateLimitConfig,
}

/// Ports, directories and size limits.
#[derive(Debug, Clone)]
pub struct ServerConfig {
    pub web_port: u16,
    pub static_port: u16,
    pub upload_dir: String,
    pub max_file_size: usize,
    pub base_url: Option<String>,
}

/// Who may do what without a token.
#[derive(Debug, Clone)]
pub struct AuthConfig {
    /// `"protected"` or `"local"`.
    pub mode: String,
    pub admin_username: String,
    pub admin_password: String,
    pub jwt_secret: String,
    /// Routes that need no authentication.
    pub disabled_routes: Vec<String>,
}

/// How images are derived. The quality of WebP output is a fraction and is
/// kept by the program that encodes the images.
#[derive(Debug, Clone)]
pub struct ImageConfig {
    pub thumbnail_size: u32,
    pub jpeg_quality: u8,
    pub qoi_enabled: bool,
}

/// What other origins may do.
#[derive(Debug, Clone)]
pub struct CorsConfig {
    pub allowed_origins: Vec<String>,
    pub allowed_methods: Vec<String>,
    pub allowed_headers: Vec<String>,
}

/// The allowance of each route class, and the routes that have none.
#[derive(Debug, Clone)]
pub struct RateLimitConfig {
    pub auth_routes: RateLimitRule,
    pub upload_routes: RateLimitRule,
    pub static_routes: RateLimitRule,
    /// Routes without rate limiting.
    pub disabled_routes: Vec<String>,
}

/// The allowance of one route class.
#[derive(Debug, Clone, Copy)]
pub struct RateLimitRule {
    pub enabled: bool,
    pub requests_per_minute: u32,
    pub burst_size: u32,
}

/// The texts that a vector of strings stands for.
pub open spec fn list_texts(v: Seq<String>) -> Seq<Seq<char>> {
    v.map_values(|s: String| s@)
}

/// The JWT secret that a fresh configuration carries and that must not stay
/// in protected mode.
pub open spec fn default_secret() -> Seq<char> {
    "your-super-secret-jwt-key-change-this-in-production"@
}

/// What is wrong with a configuration.
#[derive(Debug)]
pub enum ConfigError {
    /// The named variable holds a value that cannot be read.
    Invalid(String),
    /// The auth mode is neither `protected` nor `local`.
    AuthMode,
    /// The admin password was left at its default in protected mode.
    AdminPassword,
    /// The JWT secret was left at its default in protected mode.
    JwtSecret,
    /// The largest file size is zero.
    MaxFileSize,
    /// The thumbnail size is zero.
    ThumbnailSize,
}

impl ConfigError {
    /// The text of this error.
    pub open spec fn message_text(self) -> Seq<char> {
        match self {
            ConfigError::Invalid(name) => "Invalid "@ + name@ + " environment variable"@,
            ConfigError::AuthMode => "Auth mode must be either 'protected' or 'local'"@,
            ConfigError::AdminPassword => "Admin password must be changed for protected mode"@,
            ConfigError::JwtSecret => "JWT secret must be changed for protected mode"@,
            ConfigError::MaxFileSize => "Max file size must be greater than 0"@,
            ConfigError::ThumbnailSize => "Thumbnail size must be greater than 0"@,
        }
    }

    /// The text of this error.
    pub fn message(&self) -> (out: String)
        ensures
            out@ == self.message_text(),
    {
        match self {
            ConfigError::Invalid(name) => concat3(
                "Invalid ",
                name.as_str(),
                " environment variable",
            ),
            ConfigError::AuthMode => owned("Auth mode must be either 'protected' or 'local'"),
            ConfigError::AdminPassword => owned(
                "Admin password must be changed for protected mode",
            ),
            ConfigError::JwtSecret => owned("JWT secret must be changed for protected mode"),
            ConfigError::MaxFileSize => owned("Max file size must be greater than 0"),
            ConfigError::ThumbnailSize => owned("Thumbnail size must be greater than 0"),
        }
    }
}

/// What a configuration fails on first, if on anything.
pub open spec fn first_fault(config: AppConfig) -> Option<ConfigError> {
    if config.auth.mode@ != "protected"@ && config.auth.mode@ != "local"@ {
        Some(ConfigError::AuthMode)
    } else if config.auth.mode@ == "protected"@ && config.auth.admin_password@ == "changeme"@ {
        Some(ConfigError::AdminPassword)
    } else if config.auth.jwt_secret@ == default_secret() && config.auth.mode@
        == "protected"@ {
        Some(ConfigError::JwtSecret)
    } else if config.server.max_file_size == 0 {
        Some(ConfigError::MaxFileSize)
    } else if config.image.thumbnail_size == 0 {
        Some(ConfigError::ThumbnailSize)
    } else {
        None
    }
}

/// Three texts as owned strings.
fn strings_of(items: [&str; 3]) -> (out: Vec<String>)
    ensures
        list_texts(out@) == seq![items[0]@, items[1]@, items[2]@],
{
    let mut out: Vec<String> = Vec::new();
    out.push(owned(items[0]));
    out.push(owned(items[1]));
    out.push(owned(items[2]));
    assert(list_texts(out@) =~= seq![items[0]@, items[1]@, items[2]@]);
    out
}

/// The configuration `config` is the one that holds where nothing is set.
pub open spec fn is_default(config: AppConfig) -> bool {
    &&& config.server.web_port == 8080
    &&& config.server.static_port == 8081
    &&& config.server.upload_dir@ == "./uploads"@
    &&& config.server.max_file_size == 104857600
    &&& config.server.base_url is None
    &&& config.auth.mode@ == "protected"@
    &&& config.auth.admin_username@ == "admin"@
    &&& config.auth.admin_password@ == "changeme"@
    &&& config.auth.jwt_secret@ == default_secret()
    &&& list_texts(config.auth.disabled_routes@) == seq![
                "/"@,
                "/web"@,
                "/web/"@,
                "/web/*"@,
                "/favicon.ico"@,
                "/api/health"@,
                "/docs"@,
                "/api-docs"@,
                "/api/auth/login"@,
                "/api/auth/refresh"@,
            ]
    &&& config.image.thumbnail_size == 200
    &&& config.image.jpeg_quality == 85
    &&& config.image.qoi_enabled
    &&& list_texts(config.cors.allowed_origins@) == seq![
                "http://localhost:3000"@,
                "http://127.0.0.1:3000"@,
            ]
    &&& list_texts(config.cors.allowed_methods@) == seq!["GET"@, "POST"@, "DELETE"@]
    &&& list_texts(config.cors.allowed_headers@) == seq!["Content-Type"@, "Authorization"@]
    &&& config.rate_limit.auth_routes == (RateLimitRule {
                enabled: true,
                requests_per_minute: 10,
                burst_size: 3,
            })
    &&& config.rate_limit.upload_routes == (RateLimitRule {
                enabled: true,
                requests_per_minute: 60,
                burst_size: 10,
            })
    &&& config.rate_limit.static_routes == (RateLimitRule {
                enabled: true,
                requests_per_minute: 1000,
                burst_size: 100,
            })
    &&& list_texts(config.rate_limit.disabled_routes@) == seq!["/health"@, "/docs"@, "/api-docs"@]
}

impl Default for AppConfig {
    /// The configuration that holds where nothing is set.
    fn default() -> (out: Self)
        ensures
            is_default(out),
    {
        let mut auth_routes: Vec<String> = Vec::new();
        auth_routes.push(owned("/"));
        auth_routes.push(owned("/web"));
        auth_routes.push(owned("/web/"));
        auth_routes.push(owned("/web/*"));
        auth_routes.push(owned("/favicon.ico"));
        auth_routes.push(owned("/api/health"));
        auth_routes.push(owned("/docs"));
        auth_routes.push(owned("/api-docs"));
        auth_routes.push(owned("/api/auth/login"));
        auth_routes.push(owned("/api/auth/refresh"));
        assert(list_texts(auth_routes@) =~= seq![
            "/"@,
            "/web"@,
            "/web/"@,
            "/web/*"@,
            "/favicon.ico"@,
            "/api/health"@,
            "/docs"@,
            "/api-docs"@,
            "/api/auth/login"@,
            "/api/auth/refresh"@,
        ]);
        let mut origins: Vec<String> = Vec::new();
        origins.push(owned("http://localhost:3000"));
        origins.push(owned("http://127.0.0.1:3000"));
        assert(list_texts(origins@) =~= seq!["http://localhost:3000"@, "http://127.0.0.1:3000"@]);
        let mut headers: Vec<String> = Vec::new();
        headers.push(owned("Content-Type"));
        headers.push(owned("Authorization"));
        assert(list_texts(headers@) =~= seq!["Content-Type"@, "Authorization"@]);
        AppConfig {
            server: ServerConfig {
                web_port: 8080,
                static_port: 8081,
                upload_dir: owned("./uploads"),
                max_file_size: 104857600,
                base_url: None,
            },
            auth: AuthConfig {
                mode: owned("protected"),
                admin_username: owned("admin"),
                admin_password: owned("changeme"),
                jwt_secret: owned("your-super-secret-jwt-key-change-this-in-production"),
                disabled_routes: auth_routes,
            },
            image: ImageConfig { thumbnail_size: 200, jpeg_quality: 85, qoi_enabled: true },
            cors: CorsConfig {
                allowed_origins: origins,
                allowed_methods: strings_of(["GET", "POST", "DELETE"]),
                allowed_headers: headers,
            },
            rate_limit: RateLimitConfig {
                auth_routes: RateLimitRule {
                    enabled: true,
                    requests_per_minute: 10,
                    burst_size: 3,
                },
                upload_routes: RateLimitRule {
                    enabled: true,
                    requests_per_minute: 60,
                    burst_size: 10,
                },
                static_routes: RateLimitRule {
                    enabled: true,
                    requests_per_minute: 1000,
                    burst_size: 100,
                },
                disabled_routes: strings_of(["/health", "/docs", "/api-docs"]),
            },
        }
    }
}

impl AppConfig {
    /// The base URL under which stored files are served: the configured
    /// one, or the static port on localhost.
    pub fn get_static_base_url(&self) -> (url: String)
        ensures
            url@ == match self.server.base_url {
                Some(base) => base@,
                None => "http://localhost:"@ + decimal_digits(self.server.static_port as nat),
            },
    {
        match &self.server.base_url {
            Some(base) => base.clone(),
            None => {
                let port = decimal(self.server.static_port as usize);
                concat("http://localhost:", port.as_str())
            },
        }
    }

    /// Checks this configuration, and names what it fails on first.
    pub fn validate(&self) -> (res: Result<(), ConfigError>)
        ensures
            match res {
                Ok(()) => first_fault(*self) is None,
                Err(e) => first_fault(*self) == Some(e),
            },
    {
        let protected = str_eq(self.auth.mode.as_str(), "protected");
        let local = str_eq(self.auth.mode.as_str(), "local");
        if !protected && !local {
            return Err(ConfigError::AuthMode);
        }
        if protected && str_eq(self.auth.admin_password.as_str(), "changeme") {
            return Err(ConfigError::AdminPassword);
        }
        if str_eq(
            self.auth.jwt_secret.as_str(),
            "your-super-secret-jwt-key-change-this-in-production",
        ) && protected {
            return Err(ConfigError::JwtSecret);
        }
        if self.server.max_file_size == 0 {
            return Err(ConfigError::MaxFileSize);
        }
        if self.image.thumbnail_size == 0 {
            return Err(ConfigError::ThumbnailSize);
        }
        Ok(())
    }
}

/// The settings that the environment can override, in the order in which
/// they are read.
#[derive(Debug, Clone, Copy, PartialEq, Eq, Structural)]
pub enum Setting {
    WebPort,
    StaticPort,
    UploadDir,
    MaxFileSize,
    BaseUrl,
    AuthMode,
    AdminUsername,
    AdminPassword,
    JwtSecret,
    AuthDisabledRoutes,
    ThumbnailSize,
    JpegQuality,
    QoiEnabled,
    AllowedOrigins,
    AllowedMethods,
    AllowedHeaders,
    RateLimitDisabledRoutes,
    RateLimitAuthEnabled,
    RateLimitAuthRpm,
    RateLimitAuthBurst,
    RateLimitUploadEnabled,
    RateLimitUploadRpm,
    RateLimitUploadBurst,
    RateLimitStaticEnabled,
    RateLimitStaticRpm,
    RateLimitStaticBurst,
}

impl Setting {
    /// The name of the environment variable of this setting.
    pub open spec fn name_text(self) -> Seq<char> {
        match self {
            Setting::WebPort => "WEB_PORT"@,
            Setting::StaticPort => "STATIC_PORT"@,
            Setting::UploadDir => "UPLOAD_DIR"@,
            Setting::MaxFileSize => "MAX_FILE_SIZE"@,
            Setting::BaseUrl => "BASE_URL"@,
            Setting::AuthMode => "AUTH_MODE"@,
            Setting::AdminUsername => "ADMIN_USERNAME"@,
            Setting::AdminPassword => "ADMIN_PASSWORD"@,
            Setting::JwtSecret => "JWT_SECRET"@,
            Setting::AuthDisabledRoutes => "AUTH_DISABLED_ROUTES"@,
            Setting::ThumbnailSize => "THUMBNAIL_SIZE"@,
            Setting::JpegQuality => "JPEG_QUALITY"@,
            Setting::QoiEnabled => "QOI_ENABLED"@,
            Setting::AllowedOrigins => "ALLOWED_ORIGINS"@,
            Setting::AllowedMethods => "ALLOWED_METHODS"@,
            Setting::AllowedHeaders => "ALLOWED_HEADERS"@,
            Setting::RateLimitDisabledRoutes => "RATE_LIMIT_DISABLED_ROUTES"@,
            Setting::RateLimitAuthEnabled => "RATE_LIMIT_AUTH_ENABLED"@,
            Setting::RateLimitAuthRpm => "RATE_LIMIT_AUTH_RPM"@,
            Setting::RateLimitAuthBurst => "RATE_LIMIT_AUTH_BURST"@,
            Setting::RateLimitUploadEnabled => "RATE_LIMIT_UPLOAD_ENABLED"@,
            Setting::RateLimitUploadRpm => "RATE_LIMIT_UPLOAD_RPM"@,
            Setting::RateLimitUploadBurst => "RATE_LIMIT_UPLOAD_BURST"@,
            Setting::RateLimitStaticEnabled => "RATE_LIMIT_STATIC_ENABLED"@,
            Setting::RateLimitStaticRpm => "RATE_LIMIT_STATIC_RPM"@,
            Setting::RateLimitStaticBurst => "RATE_LIMIT_STATIC_BURST"@,
        }
    }

    /// The name of the environment variable of this setting.
    pub fn name(&self) -> (out: &'static str)
        ensures
            out@ == self.name_text(),
    {
        match self {
            Setting::WebPort => "WEB_PORT",
            Setting::StaticPort => "STATIC_PORT",
            Setting::UploadDir => "UPLOAD_DIR",
            Setting::MaxFileSize => "MAX_FILE_SIZE",
            Setting::BaseUrl => "BASE_URL",
            Setting::AuthMode => "AUTH_MODE",
            Setting::AdminUsername => "ADMIN_USERNAME",
            Setting::AdminPassword => "ADMIN_PASSWORD",
            Setting::JwtSecret => "JWT_SECRET",
            Setting::AuthDisabledRoutes => "AUTH_DISABLED_ROUTES",
            Setting::ThumbnailSize => "THUMBNAIL_SIZE",
            Setting::JpegQuality => "JPEG_QUALITY",
            Setting::QoiEnabled => "QOI_ENABLED",
            Setting::AllowedOrigins => "ALLOWED_ORIGINS",
            Setting::AllowedMethods => "ALLOWED_METHODS",
            Setting::AllowedHeaders => "ALLOWED_HEADERS",
            Setting::RateLimitDisabledRoutes => "RATE_LIMIT_DISABLED_ROUTES",
            Setting::RateLimitAuthEnabled => "RATE_LIMIT_AUTH_ENABLED",
            Setting::RateLimitAuthRpm => "RATE_LIMIT_AUTH_RPM",
            Setting::RateLimitAuthBurst => "RATE_LIMIT_AUTH_BURST",
            Setting::RateLimitUploadEnabled => "RATE_LIMIT_UPLOAD_ENABLED",
            Setting::RateLimitUploadRpm => "RATE_LIMIT_UPLOAD_RPM",
            Setting::RateLimitUploadBurst => "RATE_LIMIT_UPLOAD_BURST",
            Setting::RateLimitStaticEnabled => "RATE_LIMIT_STATIC_ENABLED",
            Setting::RateLimitStaticRpm => "RATE_LIMIT_STATIC_RPM",
            Setting::RateLimitStaticBurst => "RATE_LIMIT_STATIC_BURST",
        }
    }
}

/// The truth value that `value` writes: `true` or `false`, nothing else.
pub open spec fn parsed_flag(value: Seq<char>) -> Option<bool> {
    if value == "true"@ {
        Some(true)
    } else if value == "false"@ {
        Some(false)
    } else {
        None
    }
}

/// `list` is `value` split at its commas, each piece without the white
/// space at its ends.
pub open spec fn is_list_of(list: Seq<Seq<char>>, value: Seq<char>) -> bool {
    &&& list.len() == pieces_of(value, ',').len()
    &&& forall|i: int|
        0 <= i < list.len() ==> is_trimmed_of(#[trigger] list[i], pieces_of(value, ',')[i])
}

/// Whether `value` can be read for the setting `setting`.
pub open spec fn readable(setting: Setting, value: Seq<char>) -> bool {
    match setting {
        Setting::WebPort | Setting::StaticPort => parsed_number(value, u16::MAX as nat) is Some,
        Setting::MaxFileSize => parsed_number(value, usize::MAX as nat) is Some,
        Setting::ThumbnailSize | Setting::RateLimitAuthRpm | Setting::RateLimitAuthBurst
        | Setting::RateLimitUploadRpm | Setting::RateLimitUploadBurst
        | Setting::RateLimitStaticRpm | Setting::RateLimitStaticBurst => parsed_number(
            value,
            u32::MAX as nat,
        ) is Some,
        Setting::JpegQuality => parsed_number(value, u8::MAX as nat) is Some,
        Setting::QoiEnabled | Setting::RateLimitAuthEnabled | Setting::RateLimitUploadEnabled
        | Setting::RateLimitStaticEnabled => parsed_flag(value) is Some,
        _ => true,
    }
}

/// The rule `after` is `before` with what `value` says for the part
/// `part`: 0 for the switch, 1 for the rate, 2 for the burst.
pub open spec fn rule_set(
    before: RateLimitRule,
    part: int,
    value: Seq<char>,
    after: RateLimitRule,
) -> bool {
    if part == 0 {
        after == (RateLimitRule { enabled: parsed_flag(value)->0, ..before })
    } else if part == 1 {
        after == (RateLimitRule {
            requests_per_minute: parsed_number(value, u32::MAX as nat)->0 as u32,
            ..before
        })
    } else {
        after == (RateLimitRule {
            burst_size: parsed_number(value, u32::MAX as nat)->0 as u32,
            ..before
        })
    }
}

/// The configuration `after` is `before` with the setting `setting` taken
/// from the readable text `value`, and nothing else changed.
pub open spec fn applied(
    before: AppConfig,
    setting: Setting,
    value: Seq<char>,
    after: AppConfig,
) -> bool {
    match setting {
        Setting::WebPort => after == (AppConfig {
            server: ServerConfig {
                web_port: parsed_number(value, u16::MAX as nat)->0 as u16,
                ..before.server
            },
            ..before
        }),
        Setting::StaticPort => after == (AppConfig {
            server: ServerConfig {
                static_port: parsed_number(value, u16::MAX as nat)->0 as u16,
                ..before.server
            },
            ..before
        }),
        Setting::UploadDir => after.server.upload_dir@ == value && after == (AppConfig {
            server: ServerConfig { upload_dir: after.server.upload_dir, ..before.server },
            ..before
        }),
        Setting::MaxFileSize => after == (AppConfig {
            server: ServerConfig {
                max_file_size: parsed_number(value, usize::MAX as nat)->0 as usize,
                ..before.server
            },
            ..before
        }),
        Setting::BaseUrl => opt_view(after.server.base_url) == Some(value) && after == (AppConfig {
            server: ServerConfig { base_url: after.server.base_url, ..before.server },
            ..before
        }),
        Setting::AuthMode => after.auth.mode@ == value && after == (AppConfig {
            auth: AuthConfig { mode: after.auth.mode, ..before.auth },
            ..before
        }),
        Setting::AdminUsername => after.auth.admin_username@ == value && after == (AppConfig {
            auth: AuthConfig { admin_username: after.auth.admin_username, ..before.auth },
            ..before
        }),
        Setting::AdminPassword => after.auth.admin_password@ == value && after == (AppConfig {
            auth: AuthConfig { admin_password: after.auth.admin_password, ..before.auth },
            ..before
        }),
        Setting::JwtSecret => after.auth.jwt_secret@ == value && after == (AppConfig {
            auth: AuthConfig { jwt_secret: after.auth.jwt_secret, ..before.auth },
            ..before
        }),
        Setting::AuthDisabledRoutes => is_list_of(list_texts(after.auth.disabled_routes@), value)
            && after == (AppConfig {
            auth: AuthConfig { disabled_routes: after.auth.disabled_routes, ..before.auth },
            ..before
        }),
        Setting::ThumbnailSize => after == (AppConfig {
            image: ImageConfig {
                thumbnail_size: parsed_number(value, u32::MAX as nat)->0 as u32,
                ..before.image
            },
            ..before
        }),
        Setting::JpegQuality => after == (AppConfig {
            image: ImageConfig {
                jpeg_quality: parsed_number(value, u8::MAX as nat)->0 as u8,
                ..before.image
            },
            ..before
        }),
        Setting::QoiEnabled => after == (AppConfig {
            image: ImageConfig { qoi_enabled: parsed_flag(value)->0, ..before.image },
            ..before
        }),
        Setting::AllowedOrigins => is_list_of(list_texts(after.cors.allowed_origins@), value)
            && after == (AppConfig {
            cors: CorsConfig { allowed_origins: after.cors.allowed_origins, ..before.cors },
            ..before
        }),
        Setting::AllowedMethods => is_list_of(list_texts(after.cors.allowed_methods@), value)
            && after == (AppConfig {
            cors: CorsConfig { allowed_methods: after.cors.allowed_methods, ..before.cors },
            ..before
        }),
        Setting::AllowedHeaders => is_list_of(list_texts(after.cors.allowed_headers@), value)
            && after == (AppConfig {
            cors: CorsConfig { allowed_headers: after.cors.allowed_headers, ..before.cors },
            ..before
        }),
        Setting::RateLimitDisabledRoutes => is_list_of(
            list_texts(after.rate_limit.disabled_routes@),
            value,
        ) && after == (AppConfig {
            rate_limit: RateLimitConfig {
                disabled_routes: after.rate_limit.disabled_routes,
                ..before.rate_limit
            },
            ..before
        }),
        Setting::RateLimitAuthEnabled | Setting::RateLimitAuthRpm
        | Setting::RateLimitAuthBurst => rule_set(
            before.rate_limit.auth_routes,
            rule_part(setting),
            value,
            after.rate_limit.auth_routes,
        ) && after == (AppConfig {
            rate_limit: RateLimitConfig {
                auth_routes: after.rate_limit.auth_routes,
                ..before.rate_limit
            },
            ..before
        }),
        Setting::RateLimitUploadEnabled | Setting::RateLimitUploadRpm
        | Setting::RateLimitUploadBurst => rule_set(
            before.rate_limit.upload_routes,
            rule_part(setting),
            value,
            after.rate_limit.upload_routes,
        ) && after == (AppConfig {
            rate_limit: RateLimitConfig {
                upload_routes: after.rate_limit.upload_routes,
                ..before.rate_limit
            },
            ..before
        }),
        Setting::RateLimitStaticEnabled | Setting::RateLimitStaticRpm
        | Setting::RateLimitStaticBurst => rule_set(
            before.rate_limit.static_routes,
            rule_part(setting),
            value,
            after.rate_limit.static_routes,
        ) && after == (AppConfig {
            rate_limit: RateLimitConfig {
                static_routes: after.rate_limit.static_routes,
                ..before.rate_limit
            },
            ..before
        }),
    }
}

/// The part of a rule that the setting `setting` says: 0 for the switch, 1
/// for the rate, 2 for the burst.
pub open spec fn rule_part(setting: Setting) -> int {
    match setting {
        Setting::RateLimitAuthEnabled | Setting::RateLimitUploadEnabled
        | Setting::RateLimitStaticEnabled => 0,
        Setting::RateLimitAuthRpm | Setting::RateLimitUploadRpm | Setting::RateLimitStaticRpm => 1,
        _ => 2,
    }
}

/// Reads `value` as a truth value.
fn read_flag(value: &str) -> (out: Option<bool>)
    ensures
        out == parsed_flag(value@),
{
    if str_eq(value, "true") {
        Some(true)
    } else if str_eq(value, "false") {
        Some(false)
    } else {
        None
    }
}

/// Takes the part `part` of the rule `rule` from `value`, if it can be
/// read: 0 for the switch, 1 for the rate, 2 for the burst.
fn set_rule(rule: &mut RateLimitRule, part: u8, value: &str) -> (ok: bool)
    requires
        part <= 2,
    ensures
        ok == if part == 0 {
            parsed_flag(value@) is Some
        } else {
            parsed_number(value@, u32::MAX as nat) is Some
        },
        ok ==> rule_set(*old(rule), part as int, value@, *final(rule)),
        !ok ==> *final(rule) == *old(rule),
{
    if part == 0 {
        match read_flag(value) {
            Some(flag) => {
                rule.enabled = flag;
                true
            },
            None => false,
        }
    } else {
        match parse_number(value, u32::MAX as u64) {
            Some(n) => {
                if part == 1 {
                    rule.requests_per_minute = n as u32;
                } else {
                    rule.burst_size = n as u32;
                }
                true
            },
            None => false,
        }
    }
}

impl AppConfig {
    /// Takes the setting `setting` from the text `value`.
    ///
    /// Fails with `Invalid`, naming the variable and changing nothing,
    /// exactly if the text cannot be read for that setting.
    pub fn apply(&mut self, setting: Setting, value: &str) -> (res: Result<(), ConfigError>)
        ensures
            res is Ok <==> readable(setting, value@),
            match res {
                Ok(()) => applied(*old(self), setting, value@, *final(self)),
                Err(e) => *final(self) == *old(self) && (e matches ConfigError::Invalid(name)
                    && name@ == setting.name_text()),
            },
    {
        let ok = match setting {
            Setting::WebPort => match parse_number(value, u16::MAX as u64) {
                Some(n) => {
                    self.server.web_port = n as u16;
                    true
                },
                None => false,
            },
            Setting::StaticPort => match parse_number(value, u16::MAX as u64) {
                Some(n) => {
                    self.server.static_port = n as u16;
                    true
                },
                None => false,
            },
            Setting::UploadDir => {
                self.server.upload_dir = owned(value);
                true
            },
            Setting::MaxFileSize => match parse_number(value, usize::MAX as u64) {
                Some(n) => {
                    self.server.max_file_size = n as usize;
                    true
                },
                None => false,
            },
            Setting::BaseUrl => {
                self.server.base_url = Some(owned(value));
                true
            },
            Setting::AuthMode => {
                self.auth.mode = owned(value);
                true
            },
            Setting::AdminUsername => {
                self.auth.admin_username = owned(value);
                true
            },
            Setting::AdminPassword => {
                self.auth.admin_password = owned(value);
                true
            },
            Setting::JwtSecret => {
                self.auth.jwt_secret = owned(value);
                true
            },
            Setting::AuthDisabledRoutes => {
                self.auth.disabled_routes = split_trimmed(value, ',');
                true
            },
            Setting::ThumbnailSize => match parse_number(value, u32::MAX as u64) {
                Some(n) => {
                    self.image.thumbnail_size = n as u32;
                    true
                },
                None => false,
            },
            Setting::JpegQuality => match parse_number(value, u8::MAX as u64) {
                Some(n) => {
                    self.image.jpeg_quality = n as u8;
                    true
                },
                None => false,
            },
            Setting::QoiEnabled => match read_flag(value) {
                Some(flag) => {
                    self.image.qoi_enabled = flag;
                    true
                },
                None => false,
            },
            Setting::AllowedOrigins => {
                self.cors.allowed_origins = split_trimmed(value, ',');
                true
            },
            Setting::AllowedMethods => {
                self.cors.allowed_methods = split_trimmed(value, ',');
                true
            },
            Setting::AllowedHeaders => {
                self.cors.allowed_headers = split_trimmed(value, ',');
                true
            },
            Setting::RateLimitDisabledRoutes => {
                self.rate_limit.disabled_routes = split_trimmed(value, ',');
                true
            },
            Setting::RateLimitAuthEnabled => set_rule(&mut self.rate_limit.auth_routes, 0, value),
            Setting::RateLimitAuthRpm => set_rule(&mut self.rate_limit.auth_routes, 1, value),
            Setting::RateLimitAuthBurst => set_rule(&mut self.rate_limit.auth_routes, 2, value),
            Setting::RateLimitUploadEnabled => set_rule(
                &mut self.rate_limit.upload_routes,
                0,
                value,
            ),
            Setting::RateLimitUploadRpm => set_rule(&mut self.rate_limit.upload_routes, 1, value),
            Setting::RateLimitUploadBurst => set_rule(&mut self.rate_limit.upload_routes, 2, value),
            Setting::RateLimitStaticEnabled => set_rule(
                &mut self.rate_limit.static_routes,
                0,
                value,
            ),
            Setting::RateLimitStaticRpm => set_rule(&mut self.rate_limit.static_routes, 1, value),
            Setting::RateLimitStaticBurst => set_rule(&mut self.rate_limit.static_routes, 2, value),
        };
        if ok {
            Ok(())
        } else {
            Err(ConfigError::Invalid(owned(setting.name())))
        }
    }
}

/// The number of settings.
pub const SETTINGS: usize = 26;

/// The `k`th setting, in the order in which the settings are read.
pub open spec fn setting_at(k: int) -> Setting {
    if k == 0 {
        Setting::WebPort
    } else if k == 1 {
        Setting::StaticPort
    } else if k == 2 {
        Setting::UploadDir
    } else if k == 3 {
        Setting::MaxFileSize
    } else if k == 4 {
        Setting::BaseUrl
    } else if k == 5 {
        Setting::AuthMode
    } else if k == 6 {
        Setting::AdminUsername
    } else if k == 7 {
        Setting::AdminPassword
    } else if k == 8 {
        Setting::JwtSecret
    } else if k == 9 {
        Setting::AuthDisabledRoutes
    } else if k == 10 {
        Setting::ThumbnailSize
    } else if k == 11 {
        Setting::JpegQuality
    } else if k == 12 {
        Setting::QoiEnabled
    } else if k == 13 {
        Setting::AllowedOrigins
    } else if k == 14 {
        Setting::AllowedMethods
    } else if k == 15 {
        Setting::AllowedHeaders
    } else if k == 16 {
        Setting::RateLimitDisabledRoutes
    } else if k == 17 {
        Setting::RateLimitAuthEnabled
    } else if k == 18 {
        Setting::RateLimitAuthRpm
    } else if k == 19 {
        Setting::RateLimitAuthBurst
    } else if k == 20 {
        Setting::RateLimitUploadEnabled
    } else if k == 21 {
        Setting::RateLimitUploadRpm
    } else if k == 22 {
        Setting::RateLimitUploadBurst
    } else if k == 23 {
        Setting::RateLimitStaticEnabled
    } else if k == 24 {
        Setting::RateLimitStaticRpm
    } else {
        Setting::RateLimitStaticBurst
    }
}

/// The `k`th setting.
pub fn nth_setting(k: usize) -> (setting: Setting)
    ensures
        setting == setting_at(k as int),
{
    if k == 0 {
        Setting::WebPort
    } else if k == 1 {
        Setting::StaticPort
    } else if k == 2 {
        Setting::UploadDir
    } else if k == 3 {
        Setting::MaxFileSize
    } else if k == 4 {
        Setting::BaseUrl
    } else if k == 5 {
        Setting::AuthMode
    } else if k == 6 {
        Setting::AdminUsername
    } else if k == 7 {
        Setting::AdminPassword
    } else if k == 8 {
        Setting::JwtSecret
    } else if k == 9 {
        Setting::AuthDisabledRoutes
    } else if k == 10 {
        Setting::ThumbnailSize
    } else if k == 11 {
        Setting::JpegQuality
    } else if k == 12 {
        Setting::QoiEnabled
    } else if k == 13 {
        Setting::AllowedOrigins
    } else if k == 14 {
        Setting::AllowedMethods
    } else if k == 15 {
        Setting::AllowedHeaders
    } else if k == 16 {
        Setting::RateLimitDisabledRoutes
    } else if k == 17 {
        Setting::RateLimitAuthEnabled
    } else if k == 18 {
        Setting::RateLimitAuthRpm
    } else if k == 19 {
        Setting::RateLimitAuthBurst
    } else if k == 20 {
        Setting::RateLimitUploadEnabled
    } else if k == 21 {
        Setting::RateLimitUploadRpm
    } else if k == 22 {
        Setting::RateLimitUploadBurst
    } else if k == 23 {
        Setting::RateLimitStaticEnabled
    } else if k == 24 {
        Setting::RateLimitStaticRpm
    } else {
        Setting::RateLimitStaticBurst
    }
}

/// The value of the variable `name` among `vars`: that of the first pair
/// with this name.
pub open spec fn var_of(vars: Seq<(String, String)>, name: Seq<char>) -> Option<Seq<char>>
    decreases vars.len(),
{
    if vars.len() == 0 {
        None
    } else if vars[0].0@ == name {
        Some(vars[0].1@)
    } else {
        var_of(vars.drop_first(), name)
    }
}

/// The value of the variable `name` among `vars`.
pub fn lookup<'a>(vars: &'a Vec<(String, String)>, name: &str) -> (value: Option<&'a str>)
    ensures
        match value {
            Some(v) => Some(v@),
            None => None,
        } == var_of(vars@, name@),
{
    let mut i: usize = 0;
    assert(vars@.skip(0) =~= vars@);
    while i < vars.len()
        invariant
            i <= vars.len(),
            var_of(vars@, name@) == var_of(vars@.skip(i as int), name@),
        decreases vars.len() - i,
    {
        let ghost rest = vars@.skip(i as int);
        assert(rest[0] == vars@[i as int]);
        assert(rest.drop_first() =~= vars@.skip(i + 1));
        if str_eq(vars[i].0.as_str(), name) {
            return Some(vars[i].1.as_str());
        }
        i += 1;
    }
    None
}

/// The configuration `after` is `before` with the `k`th setting taken from
/// `vars`, where they set it.
pub open spec fn stepped(
    before: AppConfig,
    k: int,
    vars: Seq<(String, String)>,
    after: AppConfig,
) -> bool {
    match var_of(vars, setting_at(k).name_text()) {
        Some(value) => readable(setting_at(k), value) && applied(
            before,
            setting_at(k),
            value,
            after,
        ),
        None => after == before,
    }
}

/// `trace` is the way from the default configuration through the first
/// `upto` settings of `vars`, one step per setting.
pub open spec fn is_trace(trace: Seq<AppConfig>, vars: Seq<(String, String)>, upto: int) -> bool {
    &&& trace.len() == upto + 1
    &&& is_default(trace[0])
    &&& forall|k: int| 0 <= k < upto ==> stepped(trace[k], k, vars, #[trigger] trace[k + 1])
}

/// The `k`th setting is set in `vars` to a text that cannot be read, and no
/// earlier setting is.
pub open spec fn first_unreadable(vars: Seq<(String, String)>, k: int) -> bool {
    &&& 0 <= k < SETTINGS
    &&& var_of(vars, setting_at(k).name_text()) matches Some(value)
    &&& !readable(setting_at(k), value)
    &&& forall|j: int|
        0 <= j < k ==> (#[trigger] var_of(vars, setting_at(j).name_text()) matches Some(v)
            ==> readable(setting_at(j), v))
}

impl AppConfig {
    /// The configuration that the variables `vars` ask for: the default
    /// one, overridden setting by setting, then checked.
    ///
    /// Fails with `Invalid` for the first variable that cannot be read, else
    /// with what the configuration fails on.
    pub fn from_vars(vars: &Vec<(String, String)>) -> (res: Result<AppConfig, ConfigError>)
        ensures
            match res {
                Ok(config) => first_fault(config) is None && exists|trace: Seq<AppConfig>|
                    #[trigger] is_trace(trace, vars@, SETTINGS as int) && trace.last() == config,
                Err(ConfigError::Invalid(name)) => exists|k: int|
                    #[trigger] first_unreadable(vars@, k) && name@ == setting_at(k).name_text(),
                Err(e) => exists|trace: Seq<AppConfig>|
                    #[trigger] is_trace(trace, vars@, SETTINGS as int) && first_fault(trace.last())
                        == Some(e),
            },
    {
        let mut config = AppConfig::default();
        let ghost mut trace: Seq<AppConfig> = seq![config];
        let mut k: usize = 0;
        while k < SETTINGS
            invariant
                k <= SETTINGS,
                is_trace(trace, vars@, k as int),
                trace.last() == config,
                forall|j: int|
                    0 <= j < k ==> (#[trigger] var_of(vars@, setting_at(j).name_text()) matches Some(
                        v,
                    ) ==> readable(setting_at(j), v)),
            decreases SETTINGS - k,
        {
            let setting = nth_setting(k);
            let ghost before = config;
            if let Some(value) = lookup(vars, setting.name()) {
                match config.apply(setting, value) {
                    Ok(()) => {},
                    Err(e) => {
                        assert(first_unreadable(vars@, k as int));
                        return Err(e);
                    },
                }
            }
            proof {
                let grown = trace.push(config);
                assert(stepped(before, k as int, vars@, config));
                assert forall|j: int| 0 <= j < k + 1 implies stepped(
                    grown[j],
                    j,
                    vars@,
                    #[trigger] grown[j + 1],
                ) by {
                    if j < k {
                        assert(grown[j] == trace[j]);
                        assert(grown[j + 1] == trace[j + 1]);
                    }
                }
                trace = grown;
            }
            k += 1;
        }
        match config.validate() {
            Ok(()) => Ok(config),
            Err(e) => {
                proof {
                    assert(is_trace(trace, vars@, SETTINGS as int));
                    assert(!(e is Invalid));
                }
                Err(e)
            },
        }
    }
}

} // verus!
