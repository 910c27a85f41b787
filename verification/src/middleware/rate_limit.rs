//! Admission control: a request allowance per route class and client.
//!
//! The allowances themselves are kept by `governor`: one keyed limiter per
//! route class, one bucket per client in it. Which class a path falls in,
//! which client a request comes from and what follows from a limiter's
//! answer is decided here.

use crate::config::{RateLimitConfig, RateLimitRule};
use crate::error::AppError;
use crate::utils::text::{before_first, contains, is_trimmed_of, occurs_in, starts_with, trim};
use std::sync::Arc;
use vstd::prelude::*;

verus! {

/// The classes of routes, each with an allowance of its own.
#[derive(Debug, Clone, Copy, PartialEq, Eq, Structural)]
pub enum RouteClass {
    /// Login and token routes.
    Auth,
    /// Uploads, and everything that is in no other class.
    Upload,
    /// Reads of stored files.
    Static,
}

/// A client's address: the family and the address bits.
#[derive(Debug, Clone, Copy, PartialEq, Eq, Structural)]
pub struct ClientIp {
    pub v6: bool,
    pub bits: u128,
}

/// The address that stands for a client of which nothing else is known:
/// 127.0.0.1.
pub open spec fn loopback() -> ClientIp {
    ClientIp { v6: false, bits: 0x7F00_0001 }
}

/// A keyed limiter of `governor`, shared by everything that was cloned
/// from it.
#[verifier::external_body]
pub struct KeyedLimiter {
    inner: Arc<governor::DefaultKeyedRateLimiter<(bool, u128)>>,
}

/// The quota that a limiter was made with: cells per minute, and the
/// largest burst.
pub uninterp spec fn limiter_quota(limiter: KeyedLimiter) -> (u32, u32);

/// The nanoseconds in a minute.
pub const MINUTE_NANOS: u64 = 60_000_000_000;

/// A limiter can be made for the quota: both numbers are positive, and the
/// time in which a whole burst is replenished, in nanoseconds, fits 64 bits.
pub open spec fn quota_in_range(requests_per_minute: u32, burst_size: u32) -> bool {
    &&& requests_per_minute > 0
    &&& burst_size > 0
    &&& (if MINUTE_NANOS / requests_per_minute as u64 == 0 {
        1
    } else {
        (MINUTE_NANOS / requests_per_minute as u64) as int
    }) * burst_size <= u64::MAX
}

/// Whether a limiter can be made for the quota.
pub fn quota_fits(requests_per_minute: u32, burst_size: u32) -> (fits: bool)
    ensures
        fits == quota_in_range(requests_per_minute, burst_size),
{
    if requests_per_minute == 0 || burst_size == 0 {
        return false;
    }
    let interval = MINUTE_NANOS / (requests_per_minute as u64);
    let step: u128 = if interval == 0 {
        1
    } else {
        interval as u128
    };
    assert(step * (burst_size as u128) <= 0xFFFF_FFFF_FFFF_FFFF * 0xFFFF_FFFF) by (nonlinear_arith)
        requires
            step <= 0xFFFF_FFFF_FFFF_FFFF,
            burst_size <= 0xFFFF_FFFF,
    ;
    step * (burst_size as u128) <= u64::MAX as u128
}

/// Makes a keyed limiter with `governor::RateLimiter::keyed`, for the quota
/// `Quota::per_minute(requests_per_minute).allow_burst(burst_size)`. Both
/// numbers must be positive, and the burst must be replenished within the
/// 584 years that `governor` can count in nanoseconds.
#[verifier::external_body]
fn limiter_new(requests_per_minute: u32, burst_size: u32) -> (limiter: KeyedLimiter)
    requires
        quota_in_range(requests_per_minute, burst_size),
    ensures
        limiter_quota(limiter) == (requests_per_minute, burst_size),
{
    let per_minute = std::num::NonZeroU32::new(requests_per_minute).unwrap();
    let burst = std::num::NonZeroU32::new(burst_size).unwrap();
    let quota = governor::Quota::per_minute(per_minute).allow_burst(burst);
    KeyedLimiter { inner: Arc::new(governor::RateLimiter::keyed(quota)) }
}

/// Another handle on the same limiter, by `Arc::clone`.
#[verifier::external_body]
fn limiter_share(limiter: &KeyedLimiter) -> (shared: KeyedLimiter)
    ensures
        limiter_quota(shared) == limiter_quota(*limiter),
{
    KeyedLimiter { inner: Arc::clone(&limiter.inner) }
}

/// Asks the limiter, with `RateLimiter::check_key`, whether one more
/// request of the client `ip` conforms now. The answer depends on the clock
/// and on the requests made so far, so nothing is claimed of it.
#[verifier::external_body]
fn limiter_check(limiter: &KeyedLimiter, ip: ClientIp) -> (conforms: bool) {
    limiter.inner.check_key(&(ip.v6, ip.bits)).is_ok()
}

/// Some text of `prefixes` is a prefix of `path`.
pub open spec fn any_prefix(prefixes: Seq<Seq<char>>, path: Seq<char>) -> bool {
    exists|i: int| 0 <= i < prefixes.len() && (#[trigger] prefixes[i]).is_prefix_of(path)
}

/// The class of the route `path`, or `None` where the path begins with one
/// of the `disabled` prefixes and is not limited at all.
pub open spec fn route_class(disabled: Seq<Seq<char>>, path: Seq<char>) -> Option<RouteClass> {
    if any_prefix(disabled, path) {
        None
    } else if "/uploads"@.is_prefix_of(path) {
        Some(RouteClass::Static)
    } else if "/upload"@.is_prefix_of(path) {
        Some(RouteClass::Upload)
    } else if occurs_in("login"@, path) || occurs_in("auth"@, path) {
        Some(RouteClass::Auth)
    } else {
        Some(RouteClass::Upload)
    }
}

/// The texts that a vector of strings stands for.
pub open spec fn route_texts(v: Seq<String>) -> Seq<Seq<char>> {
    v.map_values(|s: String| s@)
}

/// Whether `path` begins with one of `prefixes`.
pub fn matches_any_prefix(prefixes: &Vec<String>, path: &str) -> (found: bool)
    ensures
        found == any_prefix(route_texts(prefixes@), path@),
{
    let mut i: usize = 0;
    while i < prefixes.len()
        invariant
            i <= prefixes.len(),
            forall|j: int|
                0 <= j < i ==> !(#[trigger] route_texts(prefixes@)[j]).is_prefix_of(path@),
        decreases prefixes.len() - i,
    {
        if starts_with(path, prefixes[i].as_str()) {
            assert(route_texts(prefixes@)[i as int].is_prefix_of(path@));
            return true;
        }
        i += 1;
    }
    false
}

/// A number of requests, or `fallback` where the configured number is zero.
pub fn positive_or(configured: u32, fallback: u32) -> (out: u32)
    ensures
        out == if configured == 0 {
            fallback
        } else {
            configured
        },
{
    if configured == 0 {
        fallback
    } else {
        configured
    }
}

/// The quota that the rule `rule` asks for, with `fallback` in place of a
/// zero; `None` where the rule is switched off.
pub open spec fn rule_quota(rule: RateLimitRule, fallback: (u32, u32)) -> Option<(u32, u32)> {
    if rule.enabled {
        Some(
            (
                if rule.requests_per_minute == 0 {
                    fallback.0
                } else {
                    rule.requests_per_minute
                },
                if rule.burst_size == 0 {
                    fallback.1
                } else {
                    rule.burst_size
                },
            ),
        )
    } else {
        None
    }
}

/// The quota of an optional limiter.
pub open spec fn opt_quota(limiter: Option<KeyedLimiter>) -> Option<(u32, u32)> {
    match limiter {
        Some(l) => Some(limiter_quota(l)),
        None => None,
    }
}

/// A limiter can be made for the rule `rule`, with `fallback` in place of
/// a zero, or the rule is switched off.
pub open spec fn rule_in_range(rule: RateLimitRule, fallback: (u32, u32)) -> bool {
    match rule_quota(rule, fallback) {
        Some((rate, burst)) => quota_in_range(rate, burst),
        None => true,
    }
}

/// Whether a limiter can be made for the rule `rule`.
fn rule_fits(rule: &RateLimitRule, fallback_rate: u32, fallback_burst: u32) -> (fits: bool)
    requires
        fallback_rate > 0,
        fallback_burst > 0,
    ensures
        fits == rule_in_range(*rule, (fallback_rate, fallback_burst)),
{
    if rule.enabled {
        let rate = positive_or(rule.requests_per_minute, fallback_rate);
        let burst = positive_or(rule.burst_size, fallback_burst);
        quota_fits(rate, burst)
    } else {
        true
    }
}

/// A limiter for the rule `rule`, if it is switched on.
fn limiter_for(rule: &RateLimitRule, fallback_rate: u32, fallback_burst: u32) -> (limiter: Option<
    KeyedLimiter,
>)
    requires
        fallback_rate > 0,
        fallback_burst > 0,
        rule_in_range(*rule, (fallback_rate, fallback_burst)),
    ensures
        opt_quota(limiter) == rule_quota(*rule, (fallback_rate, fallback_burst)),
{
    if rule.enabled {
        let rate = positive_or(rule.requests_per_minute, fallback_rate);
        let burst = positive_or(rule.burst_size, fallback_burst);
        Some(limiter_new(rate, burst))
    } else {
        None
    }
}

/// Another handle on the same limiter, if there is one.
fn share(limiter: &Option<KeyedLimiter>) -> (shared: Option<KeyedLimiter>)
    ensures
        opt_quota(shared) == opt_quota(*limiter),
{
    match limiter {
        Some(l) => Some(limiter_share(l)),
        None => None,
    }
}

/// A copy of the routes `routes`.
fn copy_routes(routes: &Vec<String>) -> (out: Vec<String>)
    ensures
        route_texts(out@) == route_texts(routes@),
{
    let mut out: Vec<String> = Vec::new();
    let mut i: usize = 0;
    while i < routes.len()
        invariant
            i <= routes.len(),
            route_texts(out@) == route_texts(routes@).take(i as int),
        decreases routes.len() - i,
    {
        let ghost before = route_texts(out@);
        let route = routes[i].clone();
        out.push(route);
        assert(route_texts(out@) =~= before.push(route@));
        assert(route_texts(routes@).take(i + 1) =~= route_texts(routes@).take(i as int).push(
            routes@[i as int]@,
        ));
        i += 1;
    }
    assert(route_texts(routes@).take(routes.len() as int) == route_texts(routes@));
    out
}

/// The quota that stands in for a zero in the rule of the login routes.
pub const AUTH_FALLBACK: (u32, u32) = (10, 3);

/// The quota that stands in for a zero in the rule of the upload routes.
pub const UPLOAD_FALLBACK: (u32, u32) = (60, 10);

/// The quota that stands in for a zero in the rule of the static routes.
pub const STATIC_FALLBACK: (u32, u32) = (1000, 100);

/// A limiter can be made for every rule of `config` that is switched on.
pub open spec fn config_in_range(config: RateLimitConfig) -> bool {
    &&& rule_in_range(config.auth_routes, AUTH_FALLBACK)
    &&& rule_in_range(config.upload_routes, UPLOAD_FALLBACK)
    &&& rule_in_range(config.static_routes, STATIC_FALLBACK)
}

/// The limiters of the three route classes, and the routes that are not
/// limited.
pub struct RateLimitMiddleware {
    auth: Option<KeyedLimiter>,
    upload: Option<KeyedLimiter>,
    static_files: Option<KeyedLimiter>,
    disabled_routes: Vec<String>,
}

/// One worker's handle on the limiters of a `RateLimitMiddleware`.
pub struct RateLimitService {
    auth: Option<KeyedLimiter>,
    upload: Option<KeyedLimiter>,
    static_files: Option<KeyedLimiter>,
    disabled_routes: Vec<String>,
}

impl RateLimitMiddleware {
    /// The quota of the class `class`, `None` where the class is not
    /// limited.
    pub closed spec fn quota(&self, class: RouteClass) -> Option<(u32, u32)> {
        match class {
            RouteClass::Auth => opt_quota(self.auth),
            RouteClass::Upload => opt_quota(self.upload),
            RouteClass::Static => opt_quota(self.static_files),
        }
    }

    /// The prefixes of the routes that are not limited.
    pub closed spec fn disabled(&self) -> Seq<Seq<char>> {
        route_texts(self.disabled_routes@)
    }

    /// One limiter for each class that `config` switches on, with the quota
    /// that its rule asks for; `None` where a limiter cannot be made for one
    /// of the rules.
    pub fn try_new(config: &RateLimitConfig) -> (out: Option<Self>)
        ensures
            out is Some <==> config_in_range(*config),
            match out {
                Some(made) => {
                    &&& made.quota(RouteClass::Auth) == rule_quota(
                        config.auth_routes,
                        AUTH_FALLBACK,
                    )
                    &&& made.quota(RouteClass::Upload) == rule_quota(
                        config.upload_routes,
                        UPLOAD_FALLBACK,
                    )
                    &&& made.quota(RouteClass::Static) == rule_quota(
                        config.static_routes,
                        STATIC_FALLBACK,
                    )
                    &&& made.disabled() == route_texts(config.disabled_routes@)
                },
                None => true,
            },
    {
        if rule_fits(&config.auth_routes, 10, 3) && rule_fits(&config.upload_routes, 60, 10)
            && rule_fits(&config.static_routes, 1000, 100) {
            Some(RateLimitMiddleware::new(config))
        } else {
            None
        }
    }

    /// One limiter for each class that `config` switches on, with the quota
    /// that its rule asks for. A limiter must be possible for each of them.
    pub fn new(config: &RateLimitConfig) -> (out: Self)
        requires
            config_in_range(*config),
        ensures
            out.quota(RouteClass::Auth) == rule_quota(config.auth_routes, AUTH_FALLBACK),
            out.quota(RouteClass::Upload) == rule_quota(config.upload_routes, UPLOAD_FALLBACK),
            out.quota(RouteClass::Static) == rule_quota(config.static_routes, STATIC_FALLBACK),
            out.disabled() == route_texts(config.disabled_routes@),
    {
        RateLimitMiddleware {
            auth: limiter_for(&config.auth_routes, 10, 3),
            upload: limiter_for(&config.upload_routes, 60, 10),
            static_files: limiter_for(&config.static_routes, 1000, 100),
            disabled_routes: copy_routes(&config.disabled_routes),
        }
    }

    /// A handle for one worker, on the same limiters.
    pub fn new_transform(&self) -> (service: RateLimitService)
        ensures
            forall|class: RouteClass| service.quota(class) == self.quota(class),
            service.disabled() == self.disabled(),
    {
        let service = RateLimitService {
            auth: share(&self.auth),
            upload: share(&self.upload),
            static_files: share(&self.static_files),
            disabled_routes: copy_routes(&self.disabled_routes),
        };
        assert forall|class: RouteClass| service.quota(class) == self.quota(class) by {
            match class {
                RouteClass::Auth => {},
                RouteClass::Upload => {},
                RouteClass::Static => {},
            }
        }
        service
    }
}

/// What becomes of a request: the class of its route, whether that class
/// has a limiter, and whether the limiter found the request to conform.
pub open spec fn admits(route: Option<RouteClass>, limited: bool, conforms: bool) -> bool {
    route is None || !limited || conforms
}

/// Whether a request is admitted, given the class of its route, whether
/// that class has a limiter, and the limiter's answer.
pub fn admission(route: Option<RouteClass>, limited: bool, conforms: bool) -> (allowed: bool)
    ensures
        allowed == admits(route, limited, conforms),
{
    match route {
        None => true,
        Some(_) => !limited || conforms,
    }
}

/// The client that a request comes from: the first address of the
/// `X-Forwarded-For` header if it holds one, else that of the `X-Real-IP`
/// header, else the peer's, else the loopback address.
pub fn client_identity(
    forwarded_for: Option<ClientIp>,
    real_ip: Option<ClientIp>,
    peer: Option<ClientIp>,
) -> (ip: ClientIp)
    ensures
        ip == match forwarded_for {
            Some(a) => a,
            None => match real_ip {
                Some(b) => b,
                None => match peer {
                    Some(c) => c,
                    None => loopback(),
                },
            },
        },
{
    if let Some(a) = forwarded_for {
        a
    } else if let Some(b) = real_ip {
        b
    } else if let Some(c) = peer {
        c
    } else {
        ClientIp { v6: false, bits: 0x7F00_0001 }
    }
}

impl RateLimitService {
    /// The limiter of the class `class`, `None` where the class is not
    /// limited.
    pub closed spec fn limiter(&self, class: RouteClass) -> Option<KeyedLimiter> {
        match class {
            RouteClass::Auth => self.auth,
            RouteClass::Upload => self.upload,
            RouteClass::Static => self.static_files,
        }
    }

    /// The quota of the class `class`, `None` where the class is not
    /// limited: the quota that the class's limiter was made with.
    pub closed spec fn quota(&self, class: RouteClass) -> Option<(u32, u32)> {
        opt_quota(self.limiter(class))
    }

    /// The limiter of the class `class`, if the class is limited.
    pub fn limiter_of(&self, class: RouteClass) -> (found: Option<&KeyedLimiter>)
        ensures
            match found {
                Some(l) => Some(*l) == self.limiter(class),
                None => self.limiter(class) is None,
            },
            opt_quota(self.limiter(class)) == self.quota(class),
    {
        match class {
            RouteClass::Auth => self.auth.as_ref(),
            RouteClass::Upload => self.upload.as_ref(),
            RouteClass::Static => self.static_files.as_ref(),
        }
    }

    /// The prefixes of the routes that are not limited.
    pub closed spec fn disabled(&self) -> Seq<Seq<char>> {
        route_texts(self.disabled_routes@)
    }

    /// The class of the route `path`; `None` where the path is not limited.
    pub fn determine_route_type(&self, path: &str) -> (class: Option<RouteClass>)
        ensures
            class == route_class(self.disabled(), path@),
    {
        if matches_any_prefix(&self.disabled_routes, path) {
            None
        } else if starts_with(path, "/uploads") {
            Some(RouteClass::Static)
        } else if starts_with(path, "/upload") {
            Some(RouteClass::Upload)
        } else if contains(path, "login") || contains(path, "auth") {
            Some(RouteClass::Auth)
        } else {
            Some(RouteClass::Upload)
        }
    }

    /// Lets the request for `path` by the client `ip` through, or fails with
    /// `RateLimited`. A path that is not limited, and a class without a
    /// limiter, is always let through.
    pub fn enforce(&self, path: &str, ip: ClientIp) -> (res: Result<(), AppError>)
        ensures
            match route_class(self.disabled(), path@) {
                Some(class) => self.quota(class) is None ==> res is Ok,
                None => res is Ok,
            },
            res matches Err(e) ==> e is RateLimited,
    {
        if self.check(path, ip) {
            Ok(())
        } else {
            Err(AppError::RateLimited)
        }
    }

    /// Whether one more request of the class `class` by the client `ip` is
    /// admitted. A class without a limiter admits every request; otherwise
    /// the limiter that [`RateLimitService::limiter_of`] finds for the class
    /// is asked about the key `ip`, and counts the request against the
    /// client's allowance.
    pub fn check_class(&self, class: RouteClass, ip: ClientIp) -> (allowed: bool)
        ensures
            self.limiter(class) is None ==> allowed,
            self.quota(class) is None ==> allowed,
    {
        match self.limiter_of(class) {
            Some(l) => {
                let conforms = limiter_check(l, ip);
                admission(Some(class), true, conforms)
            },
            None => admission(Some(class), false, false),
        }
    }

    /// Whether the request for `path` by the client `ip` is admitted.
    ///
    /// A path that is not limited, and a class without a limiter, is always
    /// admitted. Otherwise the request is one of the class that
    /// [`RateLimitService::determine_route_type`] finds for the path, and
    /// [`RateLimitService::check_class`] asks that class's limiter about
    /// the key `ip`.
    pub fn check(&self, path: &str, ip: ClientIp) -> (allowed: bool)
        ensures
            match route_class(self.disabled(), path@) {
                Some(class) => self.quota(class) is None ==> allowed,
                None => allowed,
            },
    {
        match self.determine_route_type(path) {
            Some(class) => self.check_class(class, ip),
            None => admission(None, false, false),
        }
    }

    /// Lets a request for `path` through, or fails with `RateLimited`. The
    /// client is the one that [`client_identity`] makes of the addresses
    /// that came with the request, and [`RateLimitService::enforce`]
    /// decides on it.
    pub fn call(
        &self,
        path: &str,
        forwarded_for: Option<ClientIp>,
        real_ip: Option<ClientIp>,
        peer: Option<ClientIp>,
    ) -> (res: Result<(), AppError>)
        ensures
            match route_class(self.disabled(), path@) {
                Some(class) => self.quota(class) is None ==> res is Ok,
                None => res is Ok,
            },
            res matches Err(e) ==> e is RateLimited,
    {
        let ip = client_identity(forwarded_for, real_ip, peer);
        self.enforce(path, ip)
    }
}

/// The text of an `X-Forwarded-For` header that names the client: what
/// stands before the first comma, without the white space around it.
pub fn forwarded_candidate(header: &str) -> (out: String)
    ensures
        exists|first: Seq<char>|
            {
                &&& #[trigger] is_trimmed_of(out@, first)
                &&& first.is_prefix_of(header@)
                &&& !first.contains(',')
                &&& first.len() < header@.len() ==> header@[first.len() as int] == ','
            },
{
    let first = before_first(header, ',');
    let out = trim(first.as_str());
    assert(is_trimmed_of(out@, first@));
    out
}

/// The text of a peer address that names the host: what stands before the
/// first colon.
pub fn peer_candidate(addr: &str) -> (out: String)
    ensures
        out@.is_prefix_of(addr@),
        !out@.contains(':'),
        out@.len() < addr@.len() ==> addr@[out@.len() as int] == ':',
{
    before_first(addr, ':')
}

} // verus!
