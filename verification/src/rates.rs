//! Token-bucket admission control, keyed by subject.
//!
//! Each operation type has its own `(max_requests, window_seconds)` quota.
//! A bucket admits up to its capacity inside one window; when a window has
//! fully elapsed the bucket refills. Buckets are created lazily on first
//! use. The clock is passed in by the caller, so admission is a pure
//! function of the bucket state and the time; the surrounding application
//! owns whatever synchronization shares a limiter between threads.

use vstd::prelude::*;

use std::collections::HashMap;

use crate::errors::AppError;
use crate::store::Id;
use crate::text::{dec_chars, str_eq, u64_to_string};

verus! {

broadcast use vstd::std_specs::hash::group_hash_axioms;

/// Rate limiter types for the different operations.
#[derive(Debug, Clone, Copy, PartialEq, Eq, Hash, Structural)]
pub enum RateLimitType {
    Bet,
    Login,
    Register,
    Deposit,
    Withdraw,
    ApiGeneral,
}

/// One token bucket: a fixed window of `window_seconds` starting at
/// `window_started_at`, with `available` admissions left of `max_tokens`.
#[derive(Debug, Clone, Copy, PartialEq, Eq, Structural)]
pub struct TokenBucket {
    pub max_tokens: u32,
    pub window_seconds: u64,
    pub available: u32,
    pub window_started_at: u64,
}

/// A bucket as first created: a full window starting now.
pub open spec fn fresh_bucket(max_tokens: u32, window_seconds: u64, now: u64) -> TokenBucket {
    TokenBucket { max_tokens, window_seconds, available: max_tokens, window_started_at: now }
}

/// The bucket after its clock has advanced to `now`: refilled when the
/// window has fully elapsed, untouched otherwise.
pub open spec fn refilled(b: TokenBucket, now: u64) -> TokenBucket {
    if now >= b.window_started_at + b.window_seconds {
        TokenBucket {
            max_tokens: b.max_tokens,
            window_seconds: b.window_seconds,
            available: b.max_tokens,
            window_started_at: now,
        }
    } else {
        b
    }
}

/// The bucket after one admission.
pub open spec fn consumed(b: TokenBucket) -> TokenBucket {
    TokenBucket {
        max_tokens: b.max_tokens,
        window_seconds: b.window_seconds,
        available: (b.available - 1) as u32,
        window_started_at: b.window_started_at,
    }
}

impl TokenBucket {
    pub fn new(max_tokens: u32, window_seconds: u64, now: u64) -> (r: TokenBucket)
        ensures
            r == fresh_bucket(max_tokens, window_seconds, now),
    {
        TokenBucket { max_tokens, window_seconds, available: max_tokens, window_started_at: now }
    }

    /// One admission attempt at time `now`: refill if the window has
    /// elapsed, then admit exactly when a token is left.
    pub fn take_token(&mut self, now: u64) -> (r: bool)
        ensures
            ({
                let rb = refilled(*old(self), now);
                if rb.available > 0 {
                    r && *final(self) == consumed(rb)
                } else {
                    !r && *final(self) == rb
                }
            }),
    {
        if (now as u128) >= (self.window_started_at as u128) + (self.window_seconds as u128) {
            self.available = self.max_tokens;
            self.window_started_at = now;
        }
        if self.available > 0 {
            self.available = self.available - 1;
            true
        } else {
            false
        }
    }
}

/// The denial message, carrying the configured quota for client messaging.
pub open spec fn quota_message(max_requests: u32, window_seconds: u64) -> Seq<char> {
    "Rate limit exceeded: "@ + dec_chars(max_requests as nat) + " requests per "@ + dec_chars(
        window_seconds as nat,
    ) + " seconds allowed"@
}

fn build_quota_message(max_requests: u32, window_seconds: u64) -> (r: String)
    ensures
        r@ == quota_message(max_requests, window_seconds),
{
    let head = String::from_str("Rate limit exceeded: ");
    let mid = u64_to_string(max_requests as u64);
    let mid2 = String::from_str(" requests per ");
    let tail = u64_to_string(window_seconds);
    let tail2 = String::from_str(" seconds allowed");
    head.concat(mid.as_str()).concat(mid2.as_str()).concat(tail.as_str()).concat(tail2.as_str())
}

/// A single-bucket rate limiter for one operation type.
pub struct RateLimiter {
    limit_type: RateLimitType,
    max_requests: u32,
    window_seconds: u64,
    bucket: TokenBucket,
}

impl RateLimiter {
    pub closed spec fn spec_max(self) -> u32 {
        self.max_requests
    }

    pub closed spec fn spec_window(self) -> u64 {
        self.window_seconds
    }

    pub closed spec fn spec_bucket(self) -> TokenBucket {
        self.bucket
    }

    pub closed spec fn spec_type(self) -> RateLimitType {
        self.limit_type
    }

    /// A limiter whose quota is `max_requests` admissions per
    /// `window_seconds`; its first window starts at time zero.
    pub fn new(limit_type: RateLimitType, max_requests: u32, window_seconds: u64) -> (r:
        RateLimiter)
        requires
            max_requests >= 1,
            window_seconds >= 1,
        ensures
            r.spec_type() == limit_type,
            r.spec_max() == max_requests,
            r.spec_window() == window_seconds,
            r.spec_bucket() == fresh_bucket(max_requests, window_seconds, 0),
    {
        RateLimiter {
            limit_type,
            max_requests,
            window_seconds,
            bucket: TokenBucket::new(max_requests, window_seconds, 0),
        }
    }

    /// Admission at time `now`: allowed exactly when the bucket, refilled
    /// if its window has elapsed, still holds a token. A denial carries
    /// the configured quota.
    pub fn check(&mut self, now: u64) -> (r: Result<(), AppError>)
        ensures
            final(self).spec_max() == old(self).spec_max(),
            final(self).spec_window() == old(self).spec_window(),
            final(self).spec_type() == old(self).spec_type(),
            ({
                let rb = refilled(old(self).spec_bucket(), now);
                if rb.available > 0 {
                    r is Ok && final(self).spec_bucket() == consumed(rb)
                } else {
                    final(self).spec_bucket() == rb && (r matches Err(e) && (e matches
                        AppError::RateLimitExceeded(m) && m@ == quota_message(
                        old(self).spec_max(),
                        old(self).spec_window(),
                    )))
                }
            }),
    {
        if self.bucket.take_token(now) {
            Ok(())
        } else {
            let msg = build_quota_message(self.max_requests, self.window_seconds);
            Err(AppError::RateLimitExceeded(msg))
        }
    }

    /// The configured `(max_requests, window_seconds)` pair.
    pub fn get_quota_info(&self) -> (r: (u32, u64))
        ensures
            r.0 == self.spec_max(),
            r.1 == self.spec_window(),
    {
        (self.max_requests, self.window_seconds)
    }
}

/// Per-user rate limiting: one lazily created bucket per subject id.
pub struct UserRateLimiter {
    user_limiters: HashMap<Id, TokenBucket>,
    max_requests: u32,
    window_seconds: u64,
    limit_type: RateLimitType,
}

impl UserRateLimiter {
    pub closed spec fn spec_max(self) -> u32 {
        self.max_requests
    }

    pub closed spec fn spec_window(self) -> u64 {
        self.window_seconds
    }

    pub closed spec fn spec_type(self) -> RateLimitType {
        self.limit_type
    }

    pub closed spec fn spec_buckets(self) -> Map<Id, TokenBucket> {
        self.user_limiters@
    }

    /// The subject's bucket, or the fresh bucket a first use would create.
    pub open spec fn bucket_of(self, user_id: Id, now: u64) -> TokenBucket {
        if self.spec_buckets().contains_key(user_id) {
            self.spec_buckets()[user_id]
        } else {
            fresh_bucket(self.spec_max(), self.spec_window(), now)
        }
    }

    pub fn new(limit_type: RateLimitType, max_requests: u32, window_seconds: u64) -> (r:
        UserRateLimiter)
        requires
            max_requests >= 1,
            window_seconds >= 1,
        ensures
            r.spec_type() == limit_type,
            r.spec_max() == max_requests,
            r.spec_window() == window_seconds,
            r.spec_buckets() == Map::<Id, TokenBucket>::empty(),
    {
        let m: HashMap<Id, TokenBucket> = HashMap::new();
        UserRateLimiter {
            user_limiters: m,
            max_requests,
            window_seconds,
            limit_type,
        }
    }

    /// Admission for one subject at time `now`, against that subject's
    /// bucket alone; other subjects' quotas are independent.
    pub fn check(&mut self, user_id: Id, now: u64) -> (r: Result<(), AppError>)
        ensures
            final(self).spec_max() == old(self).spec_max(),
            final(self).spec_window() == old(self).spec_window(),
            final(self).spec_type() == old(self).spec_type(),
            ({
                let rb = refilled(old(self).bucket_of(user_id, now), now);
                if rb.available > 0 {
                    r is Ok && final(self).spec_buckets() == old(self).spec_buckets().insert(
                        user_id,
                        consumed(rb),
                    )
                } else {
                    final(self).spec_buckets() == old(self).spec_buckets().insert(user_id, rb)
                        && (r matches Err(e) && (e matches AppError::RateLimitExceeded(m) && m@
                        == quota_message(old(self).spec_max(), old(self).spec_window())))
                }
            }),
    {
        let mut bucket = match self.user_limiters.get(&user_id) {
            Some(b) => *b,
            None => TokenBucket::new(self.max_requests, self.window_seconds, now),
        };
        let admitted = bucket.take_token(now);
        self.user_limiters.insert(user_id, bucket);
        if admitted {
            Ok(())
        } else {
            let msg = build_quota_message(self.max_requests, self.window_seconds);
            Err(AppError::RateLimitExceeded(msg))
        }
    }

    /// Retains every bucket; a fuller implementation would drop buckets
    /// that have been idle for several windows.
    pub fn cleanup_inactive(&self)
    {
    }

    /// How many subjects currently hold a bucket.
    pub fn tracked_users_count(&self) -> (r: usize)
        ensures
            r == self.spec_buckets().len(),
    {
        self.user_limiters.len()
    }
}

/// Per-address rate limiting: one lazily created bucket per client IP.
pub struct IpRateLimiter {
    ip_limiters: Vec<(String, TokenBucket)>,
    max_requests: u32,
    window_seconds: u64,
    limit_type: RateLimitType,
}

/// The index of the first bucket entry for this address, or `-1`.
pub open spec fn ip_index(entries: Seq<(String, TokenBucket)>, ip: Seq<char>) -> int
    decreases entries.len(),
{
    if entries.len() == 0 {
        -1
    } else if entries[0].0@ == ip {
        0
    } else {
        let t = ip_index(entries.drop_first(), ip);
        if t == -1 {
            -1
        } else {
            t + 1
        }
    }
}

proof fn lemma_ip_index_at(entries: Seq<(String, TokenBucket)>, ip: Seq<char>, i: int)
    requires
        0 <= i < entries.len(),
        entries[i].0@ == ip,
        forall|j: int| 0 <= j < i ==> entries[j].0@ != ip,
    ensures
        ip_index(entries, ip) == i,
    decreases entries.len(),
{
    if i > 0 {
        let t = entries.drop_first();
        assert(forall|j: int| 0 <= j < t.len() ==> t[j] == entries[j + 1]);
        lemma_ip_index_at(t, ip, i - 1);
    }
}

proof fn lemma_ip_index_none(entries: Seq<(String, TokenBucket)>, ip: Seq<char>)
    requires
        forall|j: int| 0 <= j < entries.len() ==> entries[j].0@ != ip,
    ensures
        ip_index(entries, ip) == -1,
    decreases entries.len(),
{
    if entries.len() > 0 {
        let t = entries.drop_first();
        assert(forall|j: int| 0 <= j < t.len() ==> t[j] == entries[j + 1]);
        lemma_ip_index_none(t, ip);
    }
}

impl IpRateLimiter {
    pub closed spec fn spec_max(self) -> u32 {
        self.max_requests
    }

    pub closed spec fn spec_window(self) -> u64 {
        self.window_seconds
    }

    pub closed spec fn spec_type(self) -> RateLimitType {
        self.limit_type
    }

    pub closed spec fn spec_entries(self) -> Seq<(String, TokenBucket)> {
        self.ip_limiters@
    }

    /// The address's bucket, or the fresh bucket a first use would create.
    pub open spec fn bucket_of(self, ip: Seq<char>, now: u64) -> TokenBucket {
        if ip_index(self.spec_entries(), ip) >= 0 {
            self.spec_entries()[ip_index(self.spec_entries(), ip)].1
        } else {
            fresh_bucket(self.spec_max(), self.spec_window(), now)
        }
    }

    pub fn new(limit_type: RateLimitType, max_requests: u32, window_seconds: u64) -> (r:
        IpRateLimiter)
        requires
            max_requests >= 1,
            window_seconds >= 1,
        ensures
            r.spec_type() == limit_type,
            r.spec_max() == max_requests,
            r.spec_window() == window_seconds,
            r.spec_entries() == Seq::<(String, TokenBucket)>::empty(),
    {
        let v: Vec<(String, TokenBucket)> = Vec::new();
        proof {
            assert(v@ =~= Seq::<(String, TokenBucket)>::empty());
        }
        IpRateLimiter {
            ip_limiters: v,
            max_requests,
            window_seconds,
            limit_type,
        }
    }

    /// Admission for one client address at time `now`; a new address gets
    /// a fresh bucket, and each address's quota is independent.
    pub fn check(&mut self, ip_address: &str, now: u64) -> (r: Result<(), AppError>)
        ensures
            final(self).spec_max() == old(self).spec_max(),
            final(self).spec_window() == old(self).spec_window(),
            final(self).spec_type() == old(self).spec_type(),
            ({
                let rb = refilled(old(self).bucket_of(ip_address@, now), now);
                let admitted = rb.available > 0;
                let nb = if admitted {
                    consumed(rb)
                } else {
                    rb
                };
                let i = ip_index(old(self).spec_entries(), ip_address@);
                &&& (admitted ==> r is Ok)
                &&& (!admitted ==> (r matches Err(e) && (e matches AppError::RateLimitExceeded(
                    m,
                ) && m@ == quota_message(old(self).spec_max(), old(self).spec_window()))))
                &&& (if i >= 0 {
                    &&& final(self).spec_entries().len() == old(self).spec_entries().len()
                    &&& (forall|j: int|
                        0 <= j < old(self).spec_entries().len() && j != i
                            ==> final(self).spec_entries()[j] == old(self).spec_entries()[j])
                    &&& final(self).spec_entries()[i].0@ == ip_address@
                    &&& final(self).spec_entries()[i].1 == nb
                } else {
                    final(self).spec_entries().len() == old(self).spec_entries().len() + 1
                        && final(self).spec_entries().subrange(
                        0,
                        old(self).spec_entries().len() as int,
                    ) == old(self).spec_entries() && final(self).spec_entries().last().0@
                        == ip_address@ && final(self).spec_entries().last().1 == nb
                })
            }),
    {
        let n = self.ip_limiters.len();
        let mut found: Option<usize> = None;
        let mut i: usize = 0;
        while i < n
            invariant
                n == self.ip_limiters@.len(),
                i <= n,
                found matches Some(k) ==> k < i && self.ip_limiters@[k as int].0@ == ip_address@
                    && forall|j: int| 0 <= j < k ==> self.ip_limiters@[j].0@ != ip_address@,
                found is None ==> forall|j: int| 0 <= j < i ==> self.ip_limiters@[j].0@
                    != ip_address@,
            decreases n - i,
        {
            if found.is_none() && str_eq(self.ip_limiters[i].0.as_str(), ip_address) {
                found = Some(i);
            }
            i += 1;
        }
        match found {
            Some(k) => {
                proof {
                    lemma_ip_index_at(self.ip_limiters@, ip_address@, k as int);
                }
                let mut bucket = self.ip_limiters[k].1;
                let admitted = bucket.take_token(now);
                let key = self.ip_limiters[k].0.clone();
                self.ip_limiters[k] = (key, bucket);
                if admitted {
                    Ok(())
                } else {
                    let msg = build_quota_message(self.max_requests, self.window_seconds);
                    Err(AppError::RateLimitExceeded(msg))
                }
            },
            None => {
                proof {
                    lemma_ip_index_none(self.ip_limiters@, ip_address@);
                }
                let mut bucket = TokenBucket::new(self.max_requests, self.window_seconds, now);
                let admitted = bucket.take_token(now);
                let key = String::from_str(ip_address);
                self.ip_limiters.push((key, bucket));
                proof {
                    assert(self.ip_limiters@.subrange(0, old(self).ip_limiters@.len() as int)
                        =~= old(self).ip_limiters@);
                }
                if admitted {
                    Ok(())
                } else {
                    let msg = build_quota_message(self.max_requests, self.window_seconds);
                    Err(AppError::RateLimitExceeded(msg))
                }
            },
        }
    }

    /// Retains every bucket; a fuller implementation would drop buckets
    /// that have been idle for several windows.
    pub fn cleanup_inactive(&self)
    {
    }

    /// How many addresses currently hold a bucket.
    pub fn tracked_ips_count(&self) -> (r: usize)
        ensures
            r == self.spec_entries().len(),
    {
        self.ip_limiters.len()
    }
}

/// The quotas the limiters are built from.
pub struct RateLimitConfig {
    pub bet_rate_limit_per_minute: u32,
    pub login_rate_limit_per_minute: u32,
    pub register_rate_limit_per_hour: u32,
}

/// The per-operation limiters of one process instance.
pub struct RateLimiters {
    pub bet_limiter: UserRateLimiter,
    pub login_limiter: IpRateLimiter,
    pub register_limiter: IpRateLimiter,
    pub deposit_limiter: UserRateLimiter,
    pub withdraw_limiter: UserRateLimiter,
    pub api_general_limiter: IpRateLimiter,
}

/// Counts of tracked subjects and addresses per limiter.
#[derive(Debug, Clone, Copy, PartialEq, Eq, Structural)]
pub struct RateLimiterStats {
    pub tracked_bet_users: usize,
    pub tracked_deposit_users: usize,
    pub tracked_withdraw_users: usize,
    pub tracked_login_ips: usize,
    pub tracked_register_ips: usize,
    pub tracked_api_ips: usize,
}

impl RateLimiters {
    /// Builds the limiters from configuration: bets and logins per minute,
    /// registrations per hour, and fixed quotas for deposits, withdrawals
    /// and general traffic.
    pub fn new(config: &RateLimitConfig) -> (r: RateLimiters)
        requires
            config.bet_rate_limit_per_minute >= 1,
            config.login_rate_limit_per_minute >= 1,
            config.register_rate_limit_per_hour >= 1,
        ensures
            r.bet_limiter.spec_max() == config.bet_rate_limit_per_minute,
            r.bet_limiter.spec_window() == 60,
            r.login_limiter.spec_max() == config.login_rate_limit_per_minute,
            r.login_limiter.spec_window() == 60,
            r.register_limiter.spec_max() == config.register_rate_limit_per_hour,
            r.register_limiter.spec_window() == 3600,
            r.deposit_limiter.spec_max() == 10 && r.deposit_limiter.spec_window() == 3600,
            r.withdraw_limiter.spec_max() == 5 && r.withdraw_limiter.spec_window() == 3600,
            r.api_general_limiter.spec_max() == 100 && r.api_general_limiter.spec_window() == 60,
    {
        RateLimiters {
            bet_limiter: UserRateLimiter::new(
                RateLimitType::Bet,
                config.bet_rate_limit_per_minute,
                60,
            ),
            login_limiter: IpRateLimiter::new(
                RateLimitType::Login,
                config.login_rate_limit_per_minute,
                60,
            ),
            register_limiter: IpRateLimiter::new(
                RateLimitType::Register,
                config.register_rate_limit_per_hour,
                3600,
            ),
            deposit_limiter: UserRateLimiter::new(RateLimitType::Deposit, 10, 3600),
            withdraw_limiter: UserRateLimiter::new(RateLimitType::Withdraw, 5, 3600),
            api_general_limiter: IpRateLimiter::new(RateLimitType::ApiGeneral, 100, 60),
        }
    }

    pub fn check_bet_limit(&mut self, user_id: Id, now: u64) -> (r: Result<(), AppError>)
        ensures
            r is Ok <==> refilled(old(self).bet_limiter.bucket_of(user_id, now), now).available
                > 0,
            r matches Err(e) ==> e is RateLimitExceeded,
    {
        self.bet_limiter.check(user_id, now)
    }

    pub fn check_login_limit(&mut self, ip_address: &str, now: u64) -> (r: Result<(), AppError>)
        ensures
            r is Ok <==> refilled(
                old(self).login_limiter.bucket_of(ip_address@, now),
                now,
            ).available > 0,
            r matches Err(e) ==> e is RateLimitExceeded,
    {
        self.login_limiter.check(ip_address, now)
    }

    pub fn check_register_limit(&mut self, ip_address: &str, now: u64) -> (r: Result<
        (),
        AppError,
    >)
        ensures
            r is Ok <==> refilled(
                old(self).register_limiter.bucket_of(ip_address@, now),
                now,
            ).available > 0,
            r matches Err(e) ==> e is RateLimitExceeded,
    {
        self.register_limiter.check(ip_address, now)
    }

    pub fn check_deposit_limit(&mut self, user_id: Id, now: u64) -> (r: Result<(), AppError>)
        ensures
            r is Ok <==> refilled(
                old(self).deposit_limiter.bucket_of(user_id, now),
                now,
            ).available > 0,
            r matches Err(e) ==> e is RateLimitExceeded,
    {
        self.deposit_limiter.check(user_id, now)
    }

    pub fn check_withdraw_limit(&mut self, user_id: Id, now: u64) -> (r: Result<(), AppError>)
        ensures
            r is Ok <==> refilled(
                old(self).withdraw_limiter.bucket_of(user_id, now),
                now,
            ).available > 0,
            r matches Err(e) ==> e is RateLimitExceeded,
    {
        self.withdraw_limiter.check(user_id, now)
    }

    pub fn check_api_limit(&mut self, ip_address: &str, now: u64) -> (r: Result<(), AppError>)
        ensures
            r is Ok <==> refilled(
                old(self).api_general_limiter.bucket_of(ip_address@, now),
                now,
            ).available > 0,
            r matches Err(e) ==> e is RateLimitExceeded,
    {
        self.api_general_limiter.check(ip_address, now)
    }

    /// Runs every limiter's cleanup pass.
    pub fn cleanup_all(&self)
    {
        self.bet_limiter.cleanup_inactive();
        self.deposit_limiter.cleanup_inactive();
        self.withdraw_limiter.cleanup_inactive();
        self.login_limiter.cleanup_inactive();
        self.register_limiter.cleanup_inactive();
        self.api_general_limiter.cleanup_inactive();
    }

    /// Counts of tracked subjects and addresses.
    pub fn get_stats(&self) -> (r: RateLimiterStats)
        ensures
            r.tracked_bet_users == self.bet_limiter.spec_buckets().len(),
            r.tracked_deposit_users == self.deposit_limiter.spec_buckets().len(),
            r.tracked_withdraw_users == self.withdraw_limiter.spec_buckets().len(),
            r.tracked_login_ips == self.login_limiter.spec_entries().len(),
            r.tracked_register_ips == self.register_limiter.spec_entries().len(),
            r.tracked_api_ips == self.api_general_limiter.spec_entries().len(),
    {
        RateLimiterStats {
            tracked_bet_users: self.bet_limiter.tracked_users_count(),
            tracked_deposit_users: self.deposit_limiter.tracked_users_count(),
            tracked_withdraw_users: self.withdraw_limiter.tracked_users_count(),
            tracked_login_ips: self.login_limiter.tracked_ips_count(),
            tracked_register_ips: self.register_limiter.tracked_ips_count(),
            tracked_api_ips: self.api_general_limiter.tracked_ips_count(),
        }
    }
}

} // verus!
