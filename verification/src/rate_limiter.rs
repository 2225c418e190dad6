//! Rate limiting with automatic temporary blocking.
//!
//! Each client identifier (typically the resolved remote IP) owns a counting
//! window and, after exceeding the threshold, a block record. Per request,
//! executed as one atomic unit for a given identifier:
//!
//! 1. an unexpired block rejects the request outright; an expired one is
//!    lazily evicted;
//! 2. a window older than the configured duration is hard-reset (not slid);
//! 3. the count is incremented; past the threshold the client is blocked for
//!    the configured duration and its window restarts at zero, so that a
//!    client starts clean once the block expires.
//!
//! Timestamps are whole seconds handed in by the caller, which keeps the
//! store deterministic and lets tests inject a clock.

use vstd::prelude::*;

use crate::alist::{
    alist_find, alist_map, keys_unique, lemma_alist_map_domain, lemma_alist_map_index,
    lemma_alist_map_push, lemma_alist_map_remove, lemma_alist_map_update,
};
use crate::numbers::{parse_i64, parse_i64_spec, parse_u32, parse_u32_spec};

verus! {

/// Entry tracking request count and window start time for one client.
#[derive(Clone, Copy, Debug, PartialEq, Eq, Structural)]
pub struct RateLimitEntry {
    /// Requests observed in the current window.
    pub count: u32,
    /// When the current counting window began, in seconds.
    pub window_start: i64,
}

/// Entry tracking blocked status for one client.
#[derive(Clone, Copy, Debug, PartialEq, Eq, Structural)]
pub struct BlockedEntry {
    /// The instant, in seconds, at which the block lapses.
    pub blocked_until: i64,
}

/// Rate limiting configuration, immutable after construction.
///
/// The surrounding server builds one value at startup — typically from the
/// environment through [`RateLimiterMiddleware::from_env_strings`] — and
/// hands it to the store; it is never re-read per request.
#[derive(Clone, Copy, Debug, PartialEq, Eq, Structural)]
pub struct RateLimiterMiddleware {
    /// Threshold of requests per window.
    pub max_requests: u32,
    /// Window length in seconds.
    pub window_secs: i64,
    /// Block length in seconds, applied once the threshold is exceeded.
    pub block_duration_secs: i64,
}

impl RateLimiterMiddleware {
    /// A usable configuration: positive threshold and durations.
    pub open spec fn wf(self) -> bool {
        self.max_requests >= 1 && self.window_secs >= 1 && self.block_duration_secs >= 1
    }

    /// Builds a configuration from explicit values.
    pub fn configured(max_requests: u32, window_secs: i64, block_duration_secs: i64) -> (r: Self)
        ensures
            r == (RateLimiterMiddleware { max_requests, window_secs, block_duration_secs }),
    {
        RateLimiterMiddleware { max_requests, window_secs, block_duration_secs }
    }

    /// Builds a configuration from raw environment-variable values, falling
    /// back to the documented default for each value that is unset or
    /// unparsable — availability over strictness.
    pub fn from_env_strings(
        max_requests: Option<&str>,
        window_secs: Option<&str>,
        block_duration_secs: Option<&str>,
    ) -> (r: Self)
        ensures
            r.max_requests == match max_requests {
                Option::Some(t) => match parse_u32_spec(t@) {
                    Option::Some(v) => v,
                    Option::None => 5u32,
                },
                Option::None => 5u32,
            },
            r.window_secs == match window_secs {
                Option::Some(t) => match parse_i64_spec(t@) {
                    Option::Some(v) => v,
                    Option::None => 900i64,
                },
                Option::None => 900i64,
            },
            r.block_duration_secs == match block_duration_secs {
                Option::Some(t) => match parse_i64_spec(t@) {
                    Option::Some(v) => v,
                    Option::None => 1800i64,
                },
                Option::None => 1800i64,
            },
    {
        let max = match max_requests {
            Option::Some(t) => match parse_u32(t) {
                Option::Some(v) => v,
                Option::None => 5,
            },
            Option::None => 5,
        };
        let window = match window_secs {
            Option::Some(t) => match parse_i64(t) {
                Option::Some(v) => v,
                Option::None => 900,
            },
            Option::None => 900,
        };
        let block = match block_duration_secs {
            Option::Some(t) => match parse_i64(t) {
                Option::Some(v) => v,
                Option::None => 1800,
            },
            Option::None => 1800,
        };
        RateLimiterMiddleware {
            max_requests: max,
            window_secs: window,
            block_duration_secs: block,
        }
    }
}

impl Default for RateLimiterMiddleware {
    /// The documented defaults: 5 requests per 900-second window, 1800
    /// seconds of blocking.
    fn default() -> (r: Self)
        ensures
            r == (RateLimiterMiddleware {
                max_requests: 5u32,
                window_secs: 900i64,
                block_duration_secs: 1800i64,
            }),
    {
        RateLimiterMiddleware { max_requests: 5, window_secs: 900, block_duration_secs: 1800 }
    }
}

/// Best-effort client identifier: the resolved remote address, or the
/// shared `"unknown"` sentinel when the transport layer could not resolve
/// one — all unresolvable clients then share one bucket, a deliberate
/// coarse-grained degradation.
pub fn client_identifier(remote_addr: Option<&str>) -> (r: &str)
    ensures
        match remote_addr {
            Option::Some(a) => r@ == a@,
            Option::None => r@ == "unknown"@,
        },
{
    match remote_addr {
        Option::Some(a) => a,
        Option::None => "unknown",
    }
}

/// The limiter's verdict on one request.
#[derive(Clone, Copy, Debug, PartialEq, Eq, Structural)]
pub enum GateDecision {
    /// The request may proceed; `count` is its position in the current
    /// window.
    Allowed { count: u32 },
    /// The client is inside a block period; reject (HTTP 403) telling it to
    /// try again in `remaining_secs`.
    Blocked { remaining_secs: i64 },
    /// This request pushed the client past the threshold; reject (HTTP 429)
    /// with `Retry-After: retry_after_secs` and start a block.
    RateLimitExceeded { retry_after_secs: i64 },
}

/// The store's mathematical state: both per-client maps, keyed by the
/// identifier's characters.
#[verifier::ext_equal]
pub struct GateModel {
    /// Counting windows.
    pub windows: Map<Seq<char>, RateLimitEntry>,
    /// Active and not-yet-evicted block records.
    pub blocks: Map<Seq<char>, BlockedEntry>,
}

/// The client is inside an unexpired block period.
pub open spec fn blocked_at(m: GateModel, k: Seq<char>, now: i64) -> bool {
    m.blocks.contains_key(k) && now < m.blocks[k].blocked_until
}

/// The state once an expired block record, if any, has been evicted.
pub open spec fn after_block(m: GateModel, k: Seq<char>) -> GateModel {
    GateModel {
        windows: m.windows,
        blocks: if m.blocks.contains_key(k) {
            m.blocks.remove(k)
        } else {
            m.blocks
        },
    }
}

/// The client's window after bookkeeping: kept when it exists and is at most
/// `window_secs` old, and otherwise started fresh at `now` with a zero count.
pub open spec fn effective_window(
    cfg: RateLimiterMiddleware,
    m: GateModel,
    k: Seq<char>,
    now: i64,
) -> RateLimitEntry {
    if m.windows.contains_key(k) && now - m.windows[k].window_start <= cfg.window_secs {
        m.windows[k]
    } else {
        RateLimitEntry { count: 0, window_start: now }
    }
}

/// The verdict of the counting stage (steps 2 and 3), for a client that is
/// not blocked.
pub open spec fn count_decision(
    cfg: RateLimiterMiddleware,
    m: GateModel,
    k: Seq<char>,
    now: i64,
) -> GateDecision {
    let e = effective_window(cfg, m, k, now);
    if e.count >= cfg.max_requests {
        GateDecision::RateLimitExceeded { retry_after_secs: cfg.block_duration_secs }
    } else {
        GateDecision::Allowed { count: (e.count + 1) as u32 }
    }
}

/// The state after the counting stage: the incremented window, or — past the
/// threshold — a zeroed window and a fresh block record.
pub open spec fn count_model(
    cfg: RateLimiterMiddleware,
    m: GateModel,
    k: Seq<char>,
    now: i64,
) -> GateModel {
    let e = effective_window(cfg, m, k, now);
    if e.count >= cfg.max_requests {
        GateModel {
            windows: m.windows.insert(k, RateLimitEntry { count: 0, window_start: now }),
            blocks: m.blocks.insert(
                k,
                BlockedEntry { blocked_until: (now + cfg.block_duration_secs) as i64 },
            ),
        }
    } else {
        GateModel {
            windows: m.windows.insert(
                k,
                RateLimitEntry { count: (e.count + 1) as u32, window_start: e.window_start },
            ),
            blocks: m.blocks,
        }
    }
}

/// The limiter's verdict on one request from `k` at `now`.
pub open spec fn gate_step_decision(
    cfg: RateLimiterMiddleware,
    m: GateModel,
    k: Seq<char>,
    now: i64,
) -> GateDecision {
    if blocked_at(m, k, now) {
        GateDecision::Blocked { remaining_secs: (m.blocks[k].blocked_until - now) as i64 }
    } else {
        count_decision(cfg, after_block(m, k), k, now)
    }
}

/// The store's state after one request from `k` at `now`.
pub open spec fn gate_step_model(
    cfg: RateLimiterMiddleware,
    m: GateModel,
    k: Seq<char>,
    now: i64,
) -> GateModel {
    if blocked_at(m, k, now) {
        m
    } else {
        count_model(cfg, after_block(m, k), k, now)
    }
}

/// In-memory rate-limit store: one counting window and at most one block
/// record per client identifier. The surrounding server owns one store per
/// middleware instance and serializes access to it; the store itself is
/// deterministic in the injected timestamps.
pub struct RateLimitStore {
    config: RateLimiterMiddleware,
    rate_limits: Vec<(String, RateLimitEntry)>,
    blocked_ips: Vec<(String, BlockedEntry)>,
}

impl RateLimitStore {
    /// The configuration the store was built with.
    pub closed spec fn config(self) -> RateLimiterMiddleware {
        self.config
    }

    /// The counting windows, as a map.
    pub closed spec fn windows(self) -> Map<Seq<char>, RateLimitEntry> {
        alist_map(self.rate_limits@)
    }

    /// The block records, as a map.
    pub closed spec fn blocks(self) -> Map<Seq<char>, BlockedEntry> {
        alist_map(self.blocked_ips@)
    }

    /// Both maps together.
    pub open spec fn model(self) -> GateModel {
        GateModel { windows: self.windows(), blocks: self.blocks() }
    }

    /// Internal consistency: a usable configuration, pairwise-distinct keys,
    /// counts at most the threshold, and non-negative stored instants.
    pub closed spec fn wf(self) -> bool {
        &&& self.config.wf()
        &&& keys_unique(self.rate_limits@)
        &&& keys_unique(self.blocked_ips@)
        &&& forall|i: int|
            0 <= i < self.rate_limits@.len() ==> (#[trigger] self.rate_limits@[i].1.count
                <= self.config.max_requests && self.rate_limits@[i].1.window_start >= 0)
        &&& forall|i: int|
            0 <= i < self.blocked_ips@.len() ==> #[trigger] self.blocked_ips@[i].1.blocked_until
                >= 0
    }

    /// An empty store for the given configuration.
    pub fn new(config: RateLimiterMiddleware) -> (r: Self)
        requires
            config.wf(),
        ensures
            r.wf(),
            r.config() == config,
            r.windows() == Map::<Seq<char>, RateLimitEntry>::empty(),
            r.blocks() == Map::<Seq<char>, BlockedEntry>::empty(),
    {
        RateLimitStore { config, rate_limits: Vec::new(), blocked_ips: Vec::new() }
    }

    /// Step 1 of the limiter: rejects a client inside an unexpired block period,
    /// returning the seconds left, and lazily evicts an expired block record.
    /// The counting windows are never touched.
    pub fn check_and_record_block(&mut self, client_ip: &str, now: i64) -> (r: Option<i64>)
        requires
            old(self).wf(),
            0 <= now,
        ensures
            final(self).wf(),
            final(self).config() == old(self).config(),
            final(self).windows() == old(self).windows(),
            blocked_at(old(self).model(), client_ip@, now) ==> r == Some(
                (old(self).model().blocks[client_ip@].blocked_until - now) as i64,
            ) && final(self).blocks() == old(self).blocks(),
            !blocked_at(old(self).model(), client_ip@, now) ==> r == Option::<i64>::None
                && final(self).blocks() == after_block(old(self).model(), client_ip@).blocks,
    {
        let idx = alist_find(&self.blocked_ips, client_ip);
        match idx {
            Option::Some(i) => {
                proof {
                    lemma_alist_map_index(self.blocked_ips@, i as int);
                }
                let bu = self.blocked_ips[i].1.blocked_until;
                if now < bu {
                    Option::Some(bu - now)
                } else {
                    proof {
                        lemma_alist_map_remove(self.blocked_ips@, i as int);
                        assert(forall|j: int|
                            0 <= j < self.blocked_ips@.remove(i as int).len()
                                ==> #[trigger] self.blocked_ips@.remove(i as int)[j]
                                == (if j < i as int {
                                self.blocked_ips@[j]
                            } else {
                                self.blocked_ips@[j + 1]
                            }));
                    }
                    self.blocked_ips.remove(i);
                    Option::None
                }
            },
            Option::None => {
                proof {
                    lemma_alist_map_domain(self.blocked_ips@, client_ip@);
                }
                Option::None
            },
        }
    }

    /// Steps 2 and 3 of the limiter: window bookkeeping, count and threshold.
    /// Past the threshold the client is blocked for the configured duration
    /// and its window restarts at zero; otherwise the request is allowed and
    /// counted. Never returns [`GateDecision::Blocked`].
    pub fn check_and_increment(&mut self, client_ip: &str, now: i64) -> (r: GateDecision)
        requires
            old(self).wf(),
            0 <= now,
            now <= i64::MAX - old(self).config().block_duration_secs,
        ensures
            final(self).wf(),
            final(self).config() == old(self).config(),
            r == count_decision(old(self).config(), old(self).model(), client_ip@, now),
            final(self).windows() == count_model(
                old(self).config(),
                old(self).model(),
                client_ip@,
                now,
            ).windows,
            final(self).blocks() == count_model(
                old(self).config(),
                old(self).model(),
                client_ip@,
                now,
            ).blocks,
    {
        let max_requests = self.config.max_requests;
        let idx = alist_find(&self.rate_limits, client_ip);
        let (count0, window_start0) = match idx {
            Option::Some(i) => {
                proof {
                    lemma_alist_map_index(self.rate_limits@, i as int);
                    assert(self.rate_limits@[i as int].1.count <= self.config.max_requests
                        && self.rate_limits@[i as int].1.window_start >= 0);
                }
                let e = self.rate_limits[i].1;
                if now - e.window_start > self.config.window_secs {
                    (0u32, now)
                } else {
                    (e.count, e.window_start)
                }
            },
            Option::None => {
                proof {
                    lemma_alist_map_domain(self.rate_limits@, client_ip@);
                }
                (0u32, now)
            },
        };
        proof {
            assert(effective_window(self.config, self.model(), client_ip@, now)
                == (RateLimitEntry { count: count0, window_start: window_start0 }));
        }
        if count0 >= max_requests {
            self.set_window(client_ip, RateLimitEntry { count: 0, window_start: now });
            self.set_block(
                client_ip,
                BlockedEntry { blocked_until: now + self.config.block_duration_secs },
            );
            GateDecision::RateLimitExceeded { retry_after_secs: self.config.block_duration_secs }
        } else {
            self.set_window(
                client_ip,
                RateLimitEntry { count: count0 + 1, window_start: window_start0 },
            );
            GateDecision::Allowed { count: count0 + 1 }
        }
    }

    /// Inserts or overwrites the client's counting window.
    fn set_window(&mut self, client_ip: &str, entry: RateLimitEntry)
        requires
            old(self).wf(),
            entry.count <= old(self).config().max_requests,
            entry.window_start >= 0,
        ensures
            final(self).wf(),
            final(self).config() == old(self).config(),
            final(self).blocks() == old(self).blocks(),
            final(self).windows() == old(self).windows().insert(client_ip@, entry),
    {
        let idx = alist_find(&self.rate_limits, client_ip);
        match idx {
            Option::Some(i) => {
                let key = self.rate_limits[i].0.clone();
                proof {
                    lemma_alist_map_index(self.rate_limits@, i as int);
                    lemma_alist_map_update(self.rate_limits@, i as int, key, entry);
                    assert(forall|j: int|
                        0 <= j < self.rate_limits@.len() && j != i as int
                            ==> #[trigger] self.rate_limits@.update(i as int, (key, entry))[j]
                            == self.rate_limits@[j]);
                }
                self.rate_limits[i] = (key, entry);
            },
            Option::None => {
                let key = client_ip.to_owned();
                proof {
                    lemma_alist_map_push(self.rate_limits@, key, entry);
                    assert(forall|j: int|
                        0 <= j < self.rate_limits@.len()
                            ==> #[trigger] self.rate_limits@.push((key, entry))[j]
                            == self.rate_limits@[j]);
                }
                self.rate_limits.push((key, entry));
            },
        }
    }

    /// Inserts or overwrites the client's block record.
    fn set_block(&mut self, client_ip: &str, entry: BlockedEntry)
        requires
            old(self).wf(),
            entry.blocked_until >= 0,
        ensures
            final(self).wf(),
            final(self).config() == old(self).config(),
            final(self).windows() == old(self).windows(),
            final(self).blocks() == old(self).blocks().insert(client_ip@, entry),
    {
        let idx = alist_find(&self.blocked_ips, client_ip);
        match idx {
            Option::Some(i) => {
                let key = self.blocked_ips[i].0.clone();
                proof {
                    lemma_alist_map_index(self.blocked_ips@, i as int);
                    lemma_alist_map_update(self.blocked_ips@, i as int, key, entry);
                    assert(forall|j: int|
                        0 <= j < self.blocked_ips@.len() && j != i as int
                            ==> #[trigger] self.blocked_ips@.update(i as int, (key, entry))[j]
                            == self.blocked_ips@[j]);
                }
                self.blocked_ips[i] = (key, entry);
            },
            Option::None => {
                let key = client_ip.to_owned();
                proof {
                    lemma_alist_map_push(self.blocked_ips@, key, entry);
                    assert(forall|j: int|
                        0 <= j < self.blocked_ips@.len()
                            ==> #[trigger] self.blocked_ips@.push((key, entry))[j]
                            == self.blocked_ips@[j]);
                }
                self.blocked_ips.push((key, entry));
            },
        }
    }

    /// The whole gate for one request: block check, window bookkeeping,
    /// count and threshold, atomically for this client identifier.
    pub fn handle_request(&mut self, client_ip: &str, now: i64) -> (r: GateDecision)
        requires
            old(self).wf(),
            0 <= now,
            now <= i64::MAX - old(self).config().block_duration_secs,
        ensures
            final(self).wf(),
            final(self).config() == old(self).config(),
            r == gate_step_decision(old(self).config(), old(self).model(), client_ip@, now),
            final(self).model() == gate_step_model(
                old(self).config(),
                old(self).model(),
                client_ip@,
                now,
            ),
    {
        match self.check_and_record_block(client_ip, now) {
            Option::Some(remaining) => GateDecision::Blocked { remaining_secs: remaining },
            Option::None => {
                let r = self.check_and_increment(client_ip, now);
                proof {
                    assert(final(self).model() =~= gate_step_model(
                        old(self).config(),
                        old(self).model(),
                        client_ip@,
                        now,
                    ));
                }
                r
            },
        }
    }
}

} // verus!
