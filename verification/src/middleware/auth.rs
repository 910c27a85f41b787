//! The guard in front of the handlers: which requests pass without
//! credentials, and which credentials are good.

use crate::config::AuthConfig;
use crate::handlers::auth::{
    accepted_as, cannot_expire, claims_of, header_text, secure_eq, JwtService,
};
use crate::middleware::rate_limit::route_texts;
use crate::utils::clock::now;
use crate::utils::text::{
    chars_of, ends_with, slice_of, split_once, starts_with, str_eq, string_of, strip_prefix,
    utf8_text,
};
use vstd::prelude::*;
use vstd::utf8::{decode_utf8, valid_utf8};

verus! {

/// The bytes that `text` stands for in standard, padded base64, as
/// `base64`'s `STANDARD` engine decodes them; `None` where it rejects the
/// text.
pub uninterp spec fn base64_standard(text: Seq<char>) -> Option<Seq<u8>>;

/// Decodes `text` with `base64::engine::general_purpose::STANDARD.decode`.
/// The result is a function of the text alone.
#[verifier::external_body]
fn base64_decode(text: &str) -> (bytes: Option<Vec<u8>>)
    ensures
        match bytes {
            Some(b) => Some(b@),
            None => None,
        } == base64_standard(text@),
{
    base64::Engine::decode(&base64::engine::general_purpose::STANDARD, text).ok()
}

/// The mode that `mode` stands for: the earlier names `public` and `local`
/// mean `disabled` and `protected`.
pub open spec fn effective_mode(mode: Seq<char>) -> Seq<char> {
    if mode == "public"@ {
        "disabled"@
    } else if mode == "local"@ {
        "protected"@
    } else {
        mode
    }
}

/// The route pattern `route` covers `path`: it is the path itself, or it
/// ends in `/*` and what stands before that is a prefix of the path.
pub open spec fn route_covers(route: Seq<char>, path: Seq<char>) -> bool {
    route == path || ("/*"@.is_suffix_of(route) && route.subrange(
        0,
        route.len() - "/*"@.len(),
    ).is_prefix_of(path))
}

/// Some pattern of `routes` covers `path`.
pub open spec fn any_route_covers(routes: Seq<Seq<char>>, path: Seq<char>) -> bool {
    exists|i: int| 0 <= i < routes.len() && route_covers(#[trigger] routes[i], path)
}

/// `path` names a static asset, which is served to anyone.
pub open spec fn is_static_asset(path: Seq<char>) -> bool {
    ||| ".ico"@.is_suffix_of(path)
    ||| ".png"@.is_suffix_of(path)
    ||| ".jpg"@.is_suffix_of(path)
    ||| ".jpeg"@.is_suffix_of(path)
    ||| ".gif"@.is_suffix_of(path)
    ||| ".svg"@.is_suffix_of(path)
    ||| ".webp"@.is_suffix_of(path)
    ||| ".css"@.is_suffix_of(path)
    ||| ".js"@.is_suffix_of(path)
    ||| ".woff"@.is_suffix_of(path)
    ||| ".woff2"@.is_suffix_of(path)
    ||| ".ttf"@.is_suffix_of(path)
    ||| ".eot"@.is_suffix_of(path)
    ||| ".txt"@.is_suffix_of(path)
    ||| ".json"@.is_suffix_of(path)
    ||| ".webmanifest"@.is_suffix_of(path)
    ||| "/assets/"@.is_prefix_of(path)
    ||| "/web/assets/"@.is_prefix_of(path)
    ||| "/uploads/"@.is_prefix_of(path)
}

/// The request for `path` passes without credentials.
pub open spec fn passes_freely(config: AuthConfig, path: Seq<char>) -> bool {
    ||| effective_mode(config.mode@) == "disabled"@
    ||| any_route_covers(route_texts(config.disabled_routes@), path)
    ||| is_static_asset(path)
}

/// The text `encoded` is the base64 of `username:password` for the
/// administrator's username and password.
pub open spec fn basic_matches(config: AuthConfig, encoded: Seq<char>) -> bool {
    match base64_standard(encoded) {
        Some(bytes) => {
            &&& valid_utf8(bytes)
            &&& decode_utf8(bytes) == config.admin_username@ + seq![':'] + config.admin_password@
            &&& !config.admin_username@.contains(':')
        },
        None => false,
    }
}

/// The `Authorization` header `header` holds good credentials at the time
/// `now`: a bearer token that `jwt` accepts as an access token, or else the
/// administrator's username and password in the Basic scheme.
pub open spec fn credentials_good(
    config: AuthConfig,
    header: Option<Seq<char>>,
    jwt: Option<JwtService>,
    now: i64,
) -> bool {
    match header {
        Some(h) => if "Bearer "@.is_prefix_of(h) {
            match jwt {
                Some(service) => accepted_as(
                    service.revoked(),
                    h.skip("Bearer "@.len() as int),
                    service.secret(),
                    now,
                    "access"@,
                ),
                None => false,
            }
        } else if "Basic "@.is_prefix_of(h) {
            basic_matches(config, h.skip("Basic "@.len() as int))
        } else {
            false
        },
        None => false,
    }
}

/// A request for `path` with the `Authorization` header `header` passes the
/// guard at the time `now`: it passes freely, or it carries good
/// credentials.
pub open spec fn guard_passes(
    config: AuthConfig,
    path: Seq<char>,
    header: Option<Seq<char>>,
    jwt: Option<JwtService>,
    now: i64,
) -> bool {
    passes_freely(config, path) || credentials_good(config, header, jwt, now)
}

/// The token service that a guard was handed, if any.
pub open spec fn service_of(jwt_service: Option<&JwtService>) -> Option<JwtService> {
    match jwt_service {
        Some(s) => Some(*s),
        None => None,
    }
}

/// What two texts joined by their first colon are made of is determined by
/// the joined text.
proof fn lemma_first_colon(a: Seq<char>, b: Seq<char>, c: Seq<char>, d: Seq<char>)
    requires
        a + seq![':'] + b == c + seq![':'] + d,
        !a.contains(':'),
        !c.contains(':'),
    ensures
        a == c,
        b == d,
{
    let left = a + seq![':'] + b;
    let right = c + seq![':'] + d;
    assert(left[a.len() as int] == ':');
    assert(right[c.len() as int] == ':');
    if a.len() < c.len() {
        assert(right[a.len() as int] == c[a.len() as int]);
        assert(c.contains(c[a.len() as int]));
    } else if c.len() < a.len() {
        assert(left[c.len() as int] == a[c.len() as int]);
        assert(a.contains(a[c.len() as int]));
    }
    assert(a =~= left.subrange(0, a.len() as int));
    assert(c =~= right.subrange(0, c.len() as int));
    assert(b =~= left.subrange(a.len() as int + 1, left.len() as int));
    assert(d =~= right.subrange(c.len() as int + 1, right.len() as int));
}

/// Whether the pattern `route` covers `path`.
pub fn covers(route: &str, path: &str) -> (yes: bool)
    ensures
        yes == route_covers(route@, path@),
{
    if str_eq(route, path) {
        return true;
    }
    if ends_with(route, "/*") {
        let chars = chars_of(route);
        proof {
            reveal_strlit("/*");
        }
        let prefix = slice_of(&chars, 0, chars.len() - 2);
        let text = string_of(&prefix);
        return starts_with(path, text.as_str());
    }
    false
}

/// Whether `path` names a static asset.
pub fn static_asset(path: &str) -> (yes: bool)
    ensures
        yes == is_static_asset(path@),
{
    ends_with(path, ".ico") || ends_with(path, ".png") || ends_with(path, ".jpg") || ends_with(
        path,
        ".jpeg",
    ) || ends_with(path, ".gif") || ends_with(path, ".svg") || ends_with(path, ".webp")
        || ends_with(path, ".css") || ends_with(path, ".js") || ends_with(path, ".woff")
        || ends_with(path, ".woff2") || ends_with(path, ".ttf") || ends_with(path, ".eot")
        || ends_with(path, ".txt") || ends_with(path, ".json") || ends_with(path, ".webmanifest")
        || starts_with(path, "/assets/") || starts_with(path, "/web/assets/") || starts_with(
        path,
        "/uploads/",
    )
}

/// A copy of the configuration `config`.
fn copy_config(config: &AuthConfig) -> (out: AuthConfig)
    ensures
        out.mode@ == config.mode@,
        out.admin_username@ == config.admin_username@,
        out.admin_password@ == config.admin_password@,
        out.jwt_secret@ == config.jwt_secret@,
        route_texts(out.disabled_routes@) == route_texts(config.disabled_routes@),
{
    let mut routes: Vec<String> = Vec::new();
    let mut i: usize = 0;
    while i < config.disabled_routes.len()
        invariant
            i <= config.disabled_routes.len(),
            route_texts(routes@) == route_texts(config.disabled_routes@).take(i as int),
        decreases config.disabled_routes.len() - i,
    {
        let ghost before = route_texts(routes@);
        let route = config.disabled_routes[i].clone();
        routes.push(route);
        assert(route_texts(routes@) =~= before.push(route@));
        assert(route_texts(config.disabled_routes@).take(i + 1) =~= route_texts(
            config.disabled_routes@,
        ).take(i as int).push(config.disabled_routes@[i as int]@));
        i += 1;
    }
    assert(route_texts(config.disabled_routes@).take(config.disabled_routes.len() as int)
        == route_texts(config.disabled_routes@));
    AuthConfig {
        mode: config.mode.clone(),
        admin_username: config.admin_username.clone(),
        admin_password: config.admin_password.clone(),
        jwt_secret: config.jwt_secret.clone(),
        disabled_routes: routes,
    }
}

/// Two configurations say the same.
pub open spec fn same_config(a: AuthConfig, b: AuthConfig) -> bool {
    &&& a.mode@ == b.mode@
    &&& a.admin_username@ == b.admin_username@
    &&& a.admin_password@ == b.admin_password@
    &&& a.jwt_secret@ == b.jwt_secret@
    &&& route_texts(a.disabled_routes@) == route_texts(b.disabled_routes@)
}

/// The guard, as it is configured.
pub struct AuthMiddleware {
    auth_config: AuthConfig,
}

/// One worker's copy of the guard.
pub struct AuthMiddlewareService {
    auth_config: AuthConfig,
}

impl AuthMiddleware {
    /// The configuration of this guard.
    pub closed spec fn config(&self) -> AuthConfig {
        self.auth_config
    }

    /// A guard with the configuration `auth_config`.
    pub fn new(auth_config: AuthConfig) -> (out: Self)
        ensures
            out.config() == auth_config,
    {
        AuthMiddleware { auth_config }
    }

    /// A copy of the guard for one worker.
    pub fn new_transform(&self) -> (service: AuthMiddlewareService)
        ensures
            same_config(service.config(), self.config()),
    {
        AuthMiddlewareService { auth_config: copy_config(&self.auth_config) }
    }
}

impl AuthMiddlewareService {
    /// The configuration of this guard.
    pub closed spec fn config(&self) -> AuthConfig {
        self.auth_config
    }

    /// Whether the request for `path` passes without credentials.
    pub fn is_exempt(&self, path: &str) -> (yes: bool)
        ensures
            yes == passes_freely(self.config(), path@),
    {
        let disabled = if str_eq(self.auth_config.mode.as_str(), "public") {
            true
        } else if str_eq(self.auth_config.mode.as_str(), "local") {
            false
        } else {
            str_eq(self.auth_config.mode.as_str(), "disabled")
        };
        proof {
            reveal_strlit("public");
            reveal_strlit("local");
            reveal_strlit("disabled");
            reveal_strlit("protected");
            assert("protected"@.len() == 9);
            assert("disabled"@.len() == 8);
            assert(disabled == (effective_mode(self.config().mode@) == "disabled"@));
        }
        if disabled {
            return true;
        }
        let routes = &self.auth_config.disabled_routes;
        let mut i: usize = 0;
        while i < routes.len()
            invariant
                i <= routes.len(),
                *routes == self.config().disabled_routes,
                effective_mode(self.config().mode@) != "disabled"@,
                forall|j: int|
                    0 <= j < i ==> !route_covers(#[trigger] route_texts(routes@)[j], path@),
            decreases routes.len() - i,
        {
            if covers(routes[i].as_str(), path) {
                assert(route_covers(route_texts(routes@)[i as int], path@));
                return true;
            }
            i += 1;
        }
        static_asset(path)
    }

    /// Whether `encoded` is the base64 of the administrator's
    /// `username:password`.
    fn basic_good(&self, encoded: &str) -> (yes: bool)
        ensures
            yes == basic_matches(self.config(), encoded@),
    {
        let bytes = match base64_decode(encoded) {
            Some(bytes) => bytes,
            None => {
                return false;
            },
        };
        let text = match utf8_text(bytes) {
            Some(text) => text,
            None => {
                return false;
            },
        };
        let admin = self.auth_config.admin_username.as_str();
        let secret = self.auth_config.admin_password.as_str();
        match split_once(text.as_str(), ':') {
            Some((username, password)) => {
                let username_valid = secure_eq(admin, username.as_str());
                let password_valid = secure_eq(secret, password.as_str());
                proof {
                    if text@ == admin@ + seq![':'] + secret@ && !admin@.contains(':') {
                        lemma_first_colon(username@, password@, admin@, secret@);
                    }
                }
                username_valid && password_valid
            },
            None => {
                proof {
                    if text@ == admin@ + seq![':'] + secret@ {
                        assert(text@[admin@.len() as int] == ':');
                    }
                }
                false
            },
        }
    }

    /// Whether the request for `path` with the `Authorization` header
    /// `auth_header` passes the guard at the time `now`: it passes freely, or
    /// it carries good credentials.
    pub fn call_at(
        &self,
        path: &str,
        auth_header: Option<&str>,
        jwt_service: Option<&JwtService>,
        now: i64,
    ) -> (pass: bool)
        ensures
            pass == guard_passes(
                self.config(),
                path@,
                header_text(auth_header),
                service_of(jwt_service),
                now,
            ),
    {
        if self.is_exempt(path) {
            return true;
        }
        let header = match auth_header {
            Some(h) => h,
            None => {
                return false;
            },
        };
        if let Some(token) = strip_prefix(header, "Bearer ") {
            if let Some(service) = jwt_service {
                if let Ok(claims) = service.validate_token_at(token.as_str(), now) {
                    return str_eq(claims.token_type.as_str(), "access");
                }
            }
            return false;
        }
        if let Some(encoded) = strip_prefix(header, "Basic ") {
            return self.basic_good(encoded.as_str());
        }
        false
    }

    /// Whether the request for `path` with the `Authorization` header
    /// `auth_header` passes the guard now: the answer of
    /// [`AuthMiddlewareService::call_at`] at the time the clock shows.
    ///
    /// The clock decides only for a bearer token that can expire. A request
    /// that passes freely always passes. One without a header, with a header
    /// of neither scheme, with a bearer token and no token service, or with
    /// a bearer token that is not signed so or is revoked, passes only so.
    /// One in the Basic scheme passes also with the administrator's
    /// credentials, and one with a bearer token that is not revoked and
    /// cannot expire also if that is an access token.
    pub fn call(
        &self,
        path: &str,
        auth_header: Option<&str>,
        jwt_service: Option<&JwtService>,
    ) -> (pass: bool)
        ensures
            exists|at: i64|
                pass == #[trigger] guard_passes(
                    self.config(),
                    path@,
                    header_text(auth_header),
                    service_of(jwt_service),
                    at,
                ),
            passes_freely(self.config(), path@) ==> pass,
            auth_header is None ==> pass == passes_freely(self.config(), path@),
            auth_header matches Some(h) ==> ("Basic "@.is_prefix_of(h@) ==> pass == (passes_freely(
                self.config(),
                path@,
            ) || basic_matches(self.config(), h@.skip("Basic "@.len() as int)))),
            auth_header matches Some(h) ==> (!"Basic "@.is_prefix_of(h@) && !"Bearer "@.is_prefix_of(
                h@,
            ) ==> pass == passes_freely(self.config(), path@)),
            auth_header matches Some(h) ==> ("Bearer "@.is_prefix_of(h@) && jwt_service is None
                ==> pass == passes_freely(self.config(), path@)),
            auth_header matches Some(h) ==> (jwt_service matches Some(s) ==> ("Bearer "@.is_prefix_of(
                h@,
            ) ==> (match claims_of(h@.skip("Bearer "@.len() as int), s.secret()) {
                Some(c) => {
                    &&& s.revoked().contains(c.jti) ==> pass == passes_freely(
                        self.config(),
                        path@,
                    )
                    &&& !s.revoked().contains(c.jti) && cannot_expire(c.exp) ==> pass == (
                    passes_freely(self.config(), path@) || c.token_type == "access"@)
                },
                None => pass == passes_freely(self.config(), path@),
            }))),
    {
        let at = now();
        let pass = self.call_at(path, auth_header, jwt_service, at.secs);
        proof {
            reveal_strlit("Basic ");
            reveal_strlit("Bearer ");
            assert(pass == guard_passes(
                self.config(),
                path@,
                header_text(auth_header),
                service_of(jwt_service),
                at.secs,
            ));
            if let Some(h) = auth_header {
                if "Basic "@.is_prefix_of(h@) {
                    assert(h@.subrange(0, 6)[1] == 'a');
                    assert(!"Bearer "@.is_prefix_of(h@)) by {
                        if "Bearer "@.is_prefix_of(h@) {
                            assert(h@.subrange(0, 7)[1] == 'e');
                        }
                    }
                }
            }
        }
        pass
    }
}

} // verus!
