use vstd::prelude::*;

verus! {

/// Whether a request made at `t` still counts at time `now`: the time since
/// it (zero if `t` lies ahead) is below `window`.
pub open spec fn in_window(t: u64, now: u64, window: u64) -> bool {
    (if now >= t { now - t } else { 0 }) < window
}

/// The requests of `log` that still count at `now`, in their order.
pub open spec fn recent(log: Seq<u64>, now: u64, window: u64) -> Seq<u64>
    decreases log.len(),
{
    if log.len() == 0 {
        log
    } else {
        let rest = recent(log.drop_last(), now, window);
        if in_window(log.last(), now, window) { rest.push(log.last()) } else { rest }
    }
}

/// Drops from `log` the requests that no longer count at `now`.
pub fn prune(log: &mut Vec<u64>, now: u64, window: u64)
    ensures
        final(log)@ == recent(old(log)@, now, window),
{
    let mut kept: Vec<u64> = Vec::new();
    let mut i: usize = 0;
    while i < log.len()
        invariant
            0 <= i <= log@.len(),
            log@ == old(log)@,
            kept@ == recent(log@.subrange(0, i as int), now, window),
        decreases log@.len() - i,
    {
        let t = log[i];
        assert(log@.subrange(0, i + 1).drop_last() =~= log@.subrange(0, i as int));
        if (if now >= t { now - t } else { 0 }) < window {
            kept.push(t);
        }
        i = i + 1;
    }
    assert(log@.subrange(0, log@.len() as int) =~= log@);
    *log = kept;
}

/// Sliding-window rate limiting for one client: forgets requests older than
/// `window`, then allows the request made at `now` when fewer than
/// `max_requests` remain, recording it.
pub fn allow_request(log: &mut Vec<u64>, now: u64, max_requests: usize, window: u64) -> (allowed: bool)
    ensures
        allowed == (recent(old(log)@, now, window).len() < max_requests),
        allowed ==> final(log)@ == recent(old(log)@, now, window).push(now),
        !allowed ==> final(log)@ == recent(old(log)@, now, window),
{
    prune(log, now, window);
    if log.len() >= max_requests {
        return false;
    }
    log.push(now);
    true
}

/// Cleanup of one client's log: forgets requests older than `keep`, and
/// tells whether any remain.
pub fn retain_recent(log: &mut Vec<u64>, now: u64, keep: u64) -> (nonempty: bool)
    ensures
        final(log)@ == recent(old(log)@, now, keep),
        nonempty == (final(log)@.len() > 0),
{
    prune(log, now, keep);
    log.len() > 0
}

/// A client is never allowed more than `max_requests` times within one
/// window: after a request is allowed, the requests that count (the new one
/// included) are at most `max_requests`.
pub proof fn lemma_allowed_requests_bounded(log: Seq<u64>, now: u64, max_requests: usize, window: u64)
    requires
        recent(log, now, window).len() < max_requests,
    ensures
        recent(log, now, window).push(now).len() <= max_requests,
{
}

/// Cleaning up a client's log, with a keep period no shorter than the
/// window, changes no later check: at any later time the requests that
/// count are the same with or without the cleanup.
pub proof fn lemma_cleanup_keeps_answers(log: Seq<u64>, now: u64, keep: u64, later: u64, window: u64)
    requires
        window <= keep,
        now <= later,
    ensures
        recent(recent(log, now, keep), later, window) == recent(log, later, window),
    decreases log.len(),
{
    if log.len() > 0 {
        let rest = log.drop_last();
        let t = log.last();
        lemma_cleanup_keeps_answers(rest, now, keep, later, window);
        let kept = recent(rest, now, keep);
        if in_window(t, now, keep) {
            assert(kept.push(t).drop_last() =~= kept);
            assert(kept.push(t).last() == t);
        }
    }
}

} // verus!
