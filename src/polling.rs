//! The refresh policy of a cached collector, and the merging of the outputs
//! of several collectors.
//!
//! A cached collector serves its last good collections until a fixed
//! validity window has passed since its last refresh attempt. The first
//! caller to find the cache stale runs the refresh; a failed refresh keeps
//! the old collections but still restarts the window. Times are counted in
//! nanoseconds from any fixed origin.

use vstd::prelude::*;
use crate::metrics::{CollectionModel, MetricCollection};

verus! {

/// The collections that a list of snapshots holds.
pub open spec fn collection_views(v: Seq<MetricCollection>) -> Seq<CollectionModel> {
    v.map_values(|c: MetricCollection| c@)
}

/// The state of a cached collector: what it serves, when it last tried to
/// refresh (never, at first), and how long a refresh stays valid.
pub struct PollingModel {
    pub cached: Seq<CollectionModel>,
    pub last_attempt: Option<u64>,
    pub valid_for: u64,
}

/// The time from `since` to `now`, or zero if `now` is earlier.
pub open spec fn elapsed(since: u64, now: u64) -> int {
    if now >= since {
        now - since
    } else {
        0
    }
}

/// Whether a call at `now` must refresh: never tried yet, or the window has passed.
pub open spec fn is_stale(s: PollingModel, now: u64) -> bool {
    match s.last_attempt {
        None => true,
        Some(t) => elapsed(t, now) >= s.valid_for,
    }
}

/// The state after a refresh attempt at `now`: a result replaces the cache,
/// a failure (`None`) keeps it; either way the window restarts at `now`.
pub open spec fn attempted(
    s: PollingModel,
    now: u64,
    outcome: Option<Seq<CollectionModel>>,
) -> PollingModel {
    PollingModel {
        cached: match outcome {
            Some(fresh) => fresh,
            None => s.cached,
        },
        last_attempt: Some(now),
        ..s
    }
}

/// The cache of a collector whose refresh is slow or may fail.
pub struct PollingState {
    cached: Vec<MetricCollection>,
    last_attempt: Option<u64>,
    valid_for: u64,
}

impl View for PollingState {
    type V = PollingModel;

    closed spec fn view(&self) -> PollingModel {
        PollingModel {
            cached: collection_views(self.cached@),
            last_attempt: self.last_attempt,
            valid_for: self.valid_for,
        }
    }
}

/// Handles on the same snapshots as `v`.
fn share_all(v: &Vec<MetricCollection>) -> (r: Vec<MetricCollection>)
    ensures
        collection_views(r@) == collection_views(v@),
{
    let mut r: Vec<MetricCollection> = Vec::new();
    for i in 0..v.len()
        invariant
            r@.len() == i,
            collection_views(r@) == collection_views(v@).take(i as int),
    {
        let ghost before = r@;
        r.push(v[i].share());
        assert(r@ == before.push(r@.last()));
        assert(collection_views(r@).last() == collection_views(v@)[i as int]);
        assert(collection_views(r@) =~= collection_views(v@).take(i + 1));
    }
    assert(collection_views(v@).take(v@.len() as int) =~= collection_views(v@));
    r
}

impl PollingState {
    /// An empty cache that is stale from the start.
    pub fn new(cache_valid_duration: u64) -> (r: PollingState)
        ensures
            r@ == (PollingModel {
                cached: Seq::empty(),
                last_attempt: None,
                valid_for: cache_valid_duration,
            }),
    {
        let r = PollingState { cached: Vec::new(), last_attempt: None, valid_for: cache_valid_duration };
        assert(r@.cached =~= Seq::empty());
        r
    }

    /// Whether a call at `now` must try to refresh.
    pub fn requires_update(&self, now: u64) -> (r: bool)
        ensures
            r == is_stale(self@, now),
    {
        match self.last_attempt {
            None => true,
            Some(t) => {
                let since = if now >= t {
                    now - t
                } else {
                    0
                };
                since >= self.valid_for
            },
        }
    }

    /// Records a refresh attempt made at `now` and its outcome.
    pub fn record_attempt(&mut self, now: u64, outcome: Option<Vec<MetricCollection>>)
        ensures
            final(self)@ == attempted(
                old(self)@,
                now,
                match outcome {
                    Some(v) => Some(collection_views(v@)),
                    None => None,
                },
            ),
    {
        match outcome {
            Some(fresh) => {
                self.cached = fresh;
            },
            None => {},
        }
        self.last_attempt = Some(now);
    }

    /// Handles on the cached collections.
    pub fn cached(&self) -> (r: Vec<MetricCollection>)
        ensures
            collection_views(r@) == self@.cached,
    {
        share_all(&self.cached)
    }
}

/// Once an attempt is recorded at `t`, whatever its outcome, a call at a
/// later `now` refreshes exactly when a whole window has passed since `t`.
pub proof fn lemma_refresh_once_per_window(
    s: PollingModel,
    t: u64,
    outcome: Option<Seq<CollectionModel>>,
    now: u64,
)
    requires
        t <= now,
    ensures
        is_stale(attempted(s, t, outcome), now) <==> now - t >= s.valid_for,
{
}

/// After a refresh at `t`, every caller within the window is served the
/// fresh collections without refreshing again.
pub proof fn lemma_callers_share_refresh(
    s: PollingModel,
    t: u64,
    fresh: Seq<CollectionModel>,
    nows: Seq<u64>,
)
    requires
        forall|i: int| 0 <= i < nows.len() ==> t <= #[trigger] nows[i] && nows[i] - t < s.valid_for,
    ensures
        forall|i: int|
            0 <= i < nows.len() ==> !is_stale(attempted(s, t, Some(fresh)), #[trigger] nows[i]),
        attempted(s, t, Some(fresh)).cached == fresh,
{
}

/// A failed refresh keeps the cached collections, and no call within the
/// window that follows tries again.
pub proof fn lemma_failure_keeps_cache(s: PollingModel, t: u64, now: u64)
    requires
        t <= now,
        now - t < s.valid_for,
    ensures
        attempted(s, t, None).cached == s.cached,
        !is_stale(attempted(s, t, None), now),
{
}

/// The collections of several collectors, one after the other in the order
/// given, each collector's own order kept.
pub fn concat_collections(parts: &Vec<Vec<MetricCollection>>) -> (r: Vec<MetricCollection>)
    ensures
        collection_views(r@) == parts@.map_values(|p: Vec<MetricCollection>| collection_views(p@)).flatten(),
{
    let ghost all = parts@.map_values(|p: Vec<MetricCollection>| collection_views(p@));
    let mut r: Vec<MetricCollection> = Vec::new();
    for i in 0..parts.len()
        invariant
            all == parts@.map_values(|p: Vec<MetricCollection>| collection_views(p@)),
            collection_views(r@) == all.take(i as int).flatten(),
    {
        let mut part = share_all(&parts[i]);
        let ghost before = r@;
        r.append(&mut part);
        proof {
            assert(all.take(i + 1).drop_last() =~= all.take(i as int));
            all.take(i as int).lemma_flatten_push(all[i as int]);
            assert(all.take(i as int).push(all[i as int]) =~= all.take(i + 1));
            assert(collection_views(r@) =~= collection_views(before) + all[i as int]);
        }
    }
    assert(all.take(parts@.len() as int) =~= all);
    r
}

} // verus!
