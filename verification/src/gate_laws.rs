//! Laws of the rate-limiting gate, stated over [`GateModel`] and the
//! per-request transition [`gate_step_model`] / [`gate_step_decision`], which
//! [`crate::rate_limiter::RateLimitStore::handle_request`] is proved to
//! implement.

use vstd::prelude::*;

use crate::rate_limiter::{
    after_block, blocked_at, effective_window, gate_step_decision, gate_step_model, BlockedEntry,
    GateDecision, GateModel, RateLimitEntry, RateLimiterMiddleware,
};

verus! {

/// The model after a sequence of requests from `k`, one per timestamp.
pub open spec fn gate_run(
    cfg: RateLimiterMiddleware,
    m: GateModel,
    k: Seq<char>,
    ts: Seq<i64>,
) -> GateModel
    decreases ts.len(),
{
    if ts.len() == 0 {
        m
    } else {
        gate_step_model(cfg, gate_run(cfg, m, k, ts.drop_last()), k, ts.last())
    }
}

/// The verdict on the `i`-th request of the sequence.
pub open spec fn gate_run_decision(
    cfg: RateLimiterMiddleware,
    m: GateModel,
    k: Seq<char>,
    ts: Seq<i64>,
    i: int,
) -> GateDecision {
    gate_step_decision(cfg, gate_run(cfg, m, k, ts.take(i)), k, ts[i])
}

proof fn lemma_counting_prefix(
    cfg: RateLimiterMiddleware,
    m: GateModel,
    k: Seq<char>,
    ts: Seq<i64>,
    j: int,
)
    requires
        cfg.wf(),
        !m.blocks.contains_key(k),
        !m.windows.contains_key(k),
        ts.len() > 0,
        0 <= j <= ts.len(),
        j <= cfg.max_requests,
        ts[0] >= 0,
        forall|i: int| 0 <= i < ts.len() ==> ts[0] <= #[trigger] ts[i] <= ts[0] + cfg.window_secs,
    ensures
        gate_run(cfg, m, k, ts.take(j)).blocks == m.blocks,
        j == 0 ==> gate_run(cfg, m, k, ts.take(j)).windows == m.windows,
        j > 0 ==> gate_run(cfg, m, k, ts.take(j)).windows == m.windows.insert(
            k,
            RateLimitEntry { count: j as u32, window_start: ts[0] },
        ),
        forall|i: int|
            0 <= i < j ==> gate_run_decision(cfg, m, k, ts, i) == (GateDecision::Allowed {
                count: (i + 1) as u32,
            }),
    decreases j,
{
    if j == 0 {
        assert(ts.take(0) =~= Seq::<i64>::empty());
    } else {
        lemma_counting_prefix(cfg, m, k, ts, j - 1);
        let prev = gate_run(cfg, m, k, ts.take(j - 1));
        assert(ts.take(j).drop_last() =~= ts.take(j - 1));
        assert(ts.take(j).last() == ts[j - 1]);
        let now = ts[j - 1];
        assert(!blocked_at(prev, k, now));
        assert(after_block(prev, k) == prev);
        if j - 1 == 0 {
            assert(!prev.windows.contains_key(k));
            assert(effective_window(cfg, prev, k, now) == (RateLimitEntry {
                count: 0u32,
                window_start: now,
            }));
        } else {
            assert(prev.windows[k] == (RateLimitEntry {
                count: (j - 1) as u32,
                window_start: ts[0],
            }));
            assert(now - ts[0] <= cfg.window_secs);
            assert(effective_window(cfg, prev, k, now) == (RateLimitEntry {
                count: (j - 1) as u32,
                window_start: ts[0],
            }));
            assert(m.windows.insert(
                k,
                RateLimitEntry { count: (j - 1) as u32, window_start: ts[0] },
            ).insert(k, RateLimitEntry { count: j as u32, window_start: ts[0] }) =~= m.windows.insert(
                k,
                RateLimitEntry { count: j as u32, window_start: ts[0] },
            ));
        }
        assert(gate_run_decision(cfg, m, k, ts, j - 1) == (GateDecision::Allowed {
            count: j as u32,
        }));
    }
}

/// LAW: within one window, the threshold is exact. Starting from a client
/// the store has never seen (no window, no block), with all `max_requests + 1`
/// request instants lying inside one window duration of the first, the first
/// `max_requests` requests are allowed — the `i`-th with count `i + 1` — and
/// the next request is rejected with `RateLimitExceeded` carrying the block
/// duration as its retry-after value.
pub proof fn lemma_window_threshold(
    cfg: RateLimiterMiddleware,
    m: GateModel,
    k: Seq<char>,
    ts: Seq<i64>,
)
    requires
        cfg.wf(),
        !m.blocks.contains_key(k),
        !m.windows.contains_key(k),
        ts.len() == cfg.max_requests + 1,
        ts[0] >= 0,
        forall|i: int| 0 <= i < ts.len() ==> ts[0] <= #[trigger] ts[i] <= ts[0] + cfg.window_secs,
    ensures
        forall|i: int|
            0 <= i < cfg.max_requests ==> gate_run_decision(cfg, m, k, ts, i)
                == (GateDecision::Allowed { count: (i + 1) as u32 }),
        gate_run_decision(cfg, m, k, ts, cfg.max_requests as int) == (
        GateDecision::RateLimitExceeded { retry_after_secs: cfg.block_duration_secs }),
{
    let j = cfg.max_requests as int;
    lemma_counting_prefix(cfg, m, k, ts, j);
    let prev = gate_run(cfg, m, k, ts.take(j));
    let now = ts[j];
    assert(!blocked_at(prev, k, now));
    assert(after_block(prev, k) == prev);
    assert(prev.windows[k] == (RateLimitEntry { count: cfg.max_requests, window_start: ts[0] }));
    assert(effective_window(cfg, prev, k, now).count == cfg.max_requests);
}

/// LAW: a blocked client stays rejected, then starts clean. In a state where
/// the client holds a block record and a zeroed window — exactly the state a
/// `RateLimitExceeded` rejection leaves behind — any request strictly before
/// `blocked_until` is rejected with `Blocked` carrying the seconds left and
/// changes nothing, and the first request at or after `blocked_until` is
/// treated as request number one of a fresh window.
pub proof fn lemma_block_then_fresh_window(
    cfg: RateLimiterMiddleware,
    m: GateModel,
    k: Seq<char>,
    t_blocked: i64,
    t_after: i64,
)
    requires
        cfg.wf(),
        m.blocks.contains_key(k),
        m.windows.contains_key(k),
        m.windows[k].count == 0,
        0 <= t_blocked < m.blocks[k].blocked_until,
        t_after >= m.blocks[k].blocked_until,
    ensures
        gate_step_decision(cfg, m, k, t_blocked) == (GateDecision::Blocked {
            remaining_secs: (m.blocks[k].blocked_until - t_blocked) as i64,
        }),
        gate_step_model(cfg, m, k, t_blocked) == m,
        gate_step_decision(cfg, m, k, t_after) == (GateDecision::Allowed { count: 1u32 }),
        gate_step_model(cfg, m, k, t_after).blocks == m.blocks.remove(k),
{
    assert(blocked_at(m, k, t_blocked));
    assert(!blocked_at(m, k, t_after));
    let e = effective_window(cfg, after_block(m, k), k, t_after);
    assert(e.count == 0);
}

/// LAW: an idle spell longer than the window starts a fresh window. For an
/// unblocked client, a request arriving more than `window_secs` after its
/// window began — in particular, after any idle spell longer than the window
/// — is allowed with count 1, whatever the stored count was, even
/// `max_requests`.
pub proof fn lemma_idle_longer_than_window_resets(
    cfg: RateLimiterMiddleware,
    m: GateModel,
    k: Seq<char>,
    now: i64,
)
    requires
        cfg.wf(),
        !m.blocks.contains_key(k),
        m.windows.contains_key(k),
        now - m.windows[k].window_start > cfg.window_secs,
        now >= 0,
    ensures
        gate_step_decision(cfg, m, k, now) == (GateDecision::Allowed { count: 1u32 }),
        gate_step_model(cfg, m, k, now).windows == m.windows.insert(
            k,
            RateLimitEntry { count: 1u32, window_start: now },
        ),
        gate_step_model(cfg, m, k, now).blocks == m.blocks,
{
    assert(!blocked_at(m, k, now));
    assert(after_block(m, k) == m);
    assert(effective_window(cfg, m, k, now) == (RateLimitEntry {
        count: 0u32,
        window_start: now,
    }));
}

/// LAW: distinct identifiers are independent. A request from `k1` neither
/// reads nor writes any state of a distinct `k2`: `k2`'s window and block entries
/// are untouched, and `k2`'s next verdict is the same before and after.
pub proof fn lemma_identifier_independence(
    cfg: RateLimiterMiddleware,
    m: GateModel,
    k1: Seq<char>,
    k2: Seq<char>,
    now: i64,
    t: i64,
)
    requires
        k1 != k2,
    ensures
        gate_step_model(cfg, m, k1, now).windows.contains_key(k2) == m.windows.contains_key(k2),
        m.windows.contains_key(k2) ==> gate_step_model(cfg, m, k1, now).windows[k2]
            == m.windows[k2],
        gate_step_model(cfg, m, k1, now).blocks.contains_key(k2) == m.blocks.contains_key(k2),
        m.blocks.contains_key(k2) ==> gate_step_model(cfg, m, k1, now).blocks[k2] == m.blocks[k2],
        gate_step_decision(cfg, gate_step_model(cfg, m, k1, now), k2, t) == gate_step_decision(
            cfg,
            m,
            k2,
            t,
        ),
{
    let m1 = gate_step_model(cfg, m, k1, now);
    assert(blocked_at(m1, k2, t) == blocked_at(m, k2, t));
    assert(effective_window(cfg, after_block(m1, k2), k2, t) == effective_window(
        cfg,
        after_block(m, k2),
        k2,
        t,
    ));
}

proof fn lemma_blocked_run_fixed(
    cfg: RateLimiterMiddleware,
    m: GateModel,
    k: Seq<char>,
    ts: Seq<i64>,
    lo: int,
    hi: int,
)
    requires
        0 <= lo <= hi <= ts.len(),
        gate_run(cfg, m, k, ts.take(lo)).blocks.contains_key(k),
        forall|i: int|
            lo <= i < hi ==> #[trigger] ts[i] < gate_run(cfg, m, k, ts.take(lo)).blocks[k].blocked_until,
    ensures
        gate_run(cfg, m, k, ts.take(hi)) == gate_run(cfg, m, k, ts.take(lo)),
        forall|i: int|
            lo <= i < hi ==> gate_run_decision(cfg, m, k, ts, i) == (GateDecision::Blocked {
                remaining_secs: (gate_run(cfg, m, k, ts.take(lo)).blocks[k].blocked_until
                    - ts[i]) as i64,
            }),
    decreases hi - lo,
{
    if hi > lo {
        lemma_blocked_run_fixed(cfg, m, k, ts, lo, hi - 1);
        let prev = gate_run(cfg, m, k, ts.take(hi - 1));
        assert(ts.take(hi).drop_last() =~= ts.take(hi - 1));
        assert(ts.take(hi).last() == ts[hi - 1]);
        assert(blocked_at(prev, k, ts[hi - 1]));
    }
}

/// LAW: a simultaneous burst causes exactly one `RateLimitExceeded`. For a
/// client the store has never seen, any number of requests beyond the
/// threshold all carrying one and the same timestamp yield exactly
/// `max_requests` acceptances (counts 1 through `max_requests`), then one
/// `RateLimitExceeded`, and `Blocked` for every request after it — no lost
/// update and no double blocking.
pub proof fn lemma_burst_single_transition(
    cfg: RateLimiterMiddleware,
    m: GateModel,
    k: Seq<char>,
    ts: Seq<i64>,
    t: i64,
)
    requires
        cfg.wf(),
        !m.blocks.contains_key(k),
        !m.windows.contains_key(k),
        ts.len() > cfg.max_requests,
        forall|i: int| 0 <= i < ts.len() ==> #[trigger] ts[i] == t,
        0 <= t <= i64::MAX - cfg.block_duration_secs,
    ensures
        forall|i: int|
            0 <= i < cfg.max_requests ==> gate_run_decision(cfg, m, k, ts, i)
                == (GateDecision::Allowed { count: (i + 1) as u32 }),
        gate_run_decision(cfg, m, k, ts, cfg.max_requests as int) == (
        GateDecision::RateLimitExceeded { retry_after_secs: cfg.block_duration_secs }),
        forall|i: int|
            cfg.max_requests < i < ts.len() ==> gate_run_decision(cfg, m, k, ts, i)
                == (GateDecision::Blocked { remaining_secs: cfg.block_duration_secs }),
        gate_run(cfg, m, k, ts).windows[k] == (RateLimitEntry { count: 0u32, window_start: t }),
        gate_run(cfg, m, k, ts).blocks[k] == (BlockedEntry {
            blocked_until: (t + cfg.block_duration_secs) as i64,
        }),
{
    let j = cfg.max_requests as int;
    lemma_counting_prefix(cfg, m, k, ts, j);
    let prev = gate_run(cfg, m, k, ts.take(j));
    assert(!blocked_at(prev, k, t));
    assert(after_block(prev, k) == prev);
    assert(effective_window(cfg, prev, k, t).count == cfg.max_requests);
    assert(gate_run_decision(cfg, m, k, ts, j) == (GateDecision::RateLimitExceeded {
        retry_after_secs: cfg.block_duration_secs,
    }));
    assert(ts.take(j + 1).drop_last() =~= ts.take(j));
    assert(ts.take(j + 1).last() == ts[j]);
    let m1 = gate_run(cfg, m, k, ts.take(j + 1));
    assert(m1.blocks == prev.blocks.insert(
        k,
        BlockedEntry { blocked_until: (t + cfg.block_duration_secs) as i64 },
    ));
    assert(m1.blocks[k].blocked_until == t + cfg.block_duration_secs);
    lemma_blocked_run_fixed(cfg, m, k, ts, j + 1, ts.len() as int);
    assert(forall|i: int|
        j < i < ts.len() ==> gate_run_decision(cfg, m, k, ts, i) == (GateDecision::Blocked {
            remaining_secs: cfg.block_duration_secs,
        }));
    assert(ts.take(ts.len() as int) =~= ts);
    assert(m1.windows[k] == (RateLimitEntry { count: 0u32, window_start: t }));
}

} // verus!
