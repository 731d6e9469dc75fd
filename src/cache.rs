//! The repository snapshot cache and its single-flight refresh protocol.
//!
//! Every dashboard read signals the cache. A signal starts a load only when no
//! load is in flight and the snapshot is stale; a signal that arrives while a
//! load is in flight is remembered once, and looked at again when that load
//! finishes. So any number of signals during a load start at most one more load.
use vstd::prelude::*;
use crate::clock::{millis_since, monotonic_now};
use crate::repositories::RepositoriesData;

verus! {

/// How old a snapshot may get before a read triggers a reload, in milliseconds.
pub const RELOAD_THRESHOLD_MILLIS: u64 = 30000;

/// Whether a snapshot last loaded at `last_load` is stale at `now`. Times are
/// milliseconds on the cache's monotonic clock; a snapshot never loaded is stale.
pub open spec fn is_stale(last_load: Option<u64>, now: u64) -> bool {
    match last_load {
        Some(t) => now > t && now - t > RELOAD_THRESHOLD_MILLIS,
        None => true,
    }
}

/// The refresh bookkeeping of a cache: whether a load is in flight, whether a
/// signal arrived during it, and when the snapshot was last loaded.
pub struct RefreshState {
    pub refreshing: bool,
    pub pending: bool,
    pub last_load: Option<u64>,
}

/// The state after a reload signal at `now`, and whether it starts a load.
pub open spec fn after_signal(st: RefreshState, now: u64) -> (RefreshState, bool) {
    if st.refreshing {
        (RefreshState { refreshing: true, pending: true, last_load: st.last_load }, false)
    } else if is_stale(st.last_load, now) {
        (RefreshState { refreshing: true, pending: false, last_load: st.last_load }, true)
    } else {
        (RefreshState { refreshing: false, pending: false, last_load: st.last_load }, false)
    }
}

/// The state after the load in flight finished at `now` (`loaded` when it
/// succeeded), and whether another load starts at once.
pub open spec fn after_finish(st: RefreshState, loaded: bool, now: u64) -> (RefreshState, bool) {
    let last_load = if loaded {
        Some(now)
    } else {
        st.last_load
    };
    if st.pending && is_stale(last_load, now) {
        (RefreshState { refreshing: true, pending: false, last_load }, true)
    } else {
        (RefreshState { refreshing: false, pending: false, last_load }, false)
    }
}

/// The state after reload signals at the times `times`, in order, and how many
/// of them started a load.
pub open spec fn after_signals(st: RefreshState, times: Seq<u64>) -> (RefreshState, nat)
    decreases times.len(),
{
    if times.len() == 0 {
        (st, 0)
    } else {
        let (mid, n) = after_signals(st, times.drop_last());
        let (next, started) = after_signal(mid, times.last());
        (next, n + if started {
            1nat
        } else {
            0nat
        })
    }
}

/// The cache of the latest repository snapshot.
pub struct RepositoriesDataCache {
    repositories_data: RepositoriesData,
    last_load_instant: Option<u64>,
    reload_pending: bool,
    clock_origin: tokio::time::Instant,
}

impl RepositoriesDataCache {
    /// The snapshot that readers get.
    pub closed spec fn snapshot(self) -> RepositoriesData {
        self.repositories_data
    }

    /// The refresh bookkeeping.
    pub closed spec fn refresh_state(self) -> RefreshState {
        RefreshState {
            refreshing: self.repositories_data.currently_refreshing,
            pending: self.reload_pending,
            last_load: self.last_load_instant,
        }
    }

    /// The repositories and update date of the snapshot are those of `o`.
    pub open spec fn same_content(self, o: Self) -> bool {
        &&& self.snapshot().last_updated_date == o.snapshot().last_updated_date
        &&& self.snapshot().repositories == o.snapshot().repositories
    }

    /// A cache that was never loaded, with an empty snapshot.
    pub fn new() -> (r: RepositoriesDataCache)
        ensures
            r.snapshot().is_empty_snapshot(),
            r.snapshot().currently_refreshing == r.refresh_state().refreshing,
            r.refresh_state() == (RefreshState {
                refreshing: false,
                pending: false,
                last_load: None,
            }),
    {
        RepositoriesDataCache {
            repositories_data: RepositoriesData::empty(),
            last_load_instant: None,
            reload_pending: false,
            clock_origin: monotonic_now(),
        }
    }

    /// The current time on the cache's monotonic clock, in milliseconds.
    pub fn now_millis(&self) -> u64 {
        millis_since(&self.clock_origin)
    }

    /// Replaces the snapshot with `data`, loaded at `now`.
    pub fn cache_data_at(&mut self, data: RepositoriesData, now: u64)
        ensures
            final(self).snapshot().currently_refreshing == final(self).refresh_state().refreshing,
            final(self).snapshot() == data,
            final(self).refresh_state().last_load == Some(now),
            final(self).refresh_state().pending == old(self).refresh_state().pending,
    {
        self.repositories_data = data;
        self.last_load_instant = Some(now);
    }

    /// Replaces the snapshot with `data`, loaded now.
    pub fn cache_data(&mut self, data: RepositoriesData)
        ensures
            final(self).snapshot().currently_refreshing == final(self).refresh_state().refreshing,
            final(self).snapshot() == data,
            final(self).refresh_state().last_load is Some,
            final(self).refresh_state().pending == old(self).refresh_state().pending,
    {
        let now = self.now_millis();
        self.cache_data_at(data, now);
    }

    /// Whether a load is in flight, as readers see it.
    pub fn is_refreshing(&self) -> (r: bool)
        ensures
            r == self.refresh_state().refreshing,
            r == self.snapshot().currently_refreshing,
    {
        self.repositories_data.currently_refreshing
    }

    /// A copy of the snapshot.
    pub fn get_cached_data(&self) -> (r: RepositoriesData)
        ensures
            r.same_as(self.snapshot()),
    {
        self.repositories_data.duplicate()
    }

    /// Sets whether a refresh is in progress, as readers see it.
    pub fn set_refreshing(&mut self, refreshing: bool)
        ensures
            final(self).snapshot().currently_refreshing == refreshing,
            final(self).snapshot().currently_refreshing == final(self).refresh_state().refreshing,
            final(self).same_content(*old(self)),
            final(self).refresh_state() == (RefreshState {
                refreshing,
                ..old(self).refresh_state()
            }),
    {
        self.repositories_data.currently_refreshing = refreshing;
    }

    /// Whether the snapshot is stale at `now`: never loaded, or loaded more than
    /// the threshold before `now`.
    pub fn should_reload_at(&self, now: u64) -> (r: bool)
        ensures
            r == is_stale(self.refresh_state().last_load, now),
    {
        match self.last_load_instant {
            Some(t) => now > t && now - t > RELOAD_THRESHOLD_MILLIS,
            None => true,
        }
    }

    /// Whether the snapshot is stale now. A cache never loaded always is.
    pub fn should_reload(&self) -> (r: bool)
        ensures
            self.refresh_state().last_load is None ==> r,
            exists|now: u64| r == #[trigger] is_stale(self.refresh_state().last_load, now),
    {
        let now = self.now_millis();
        self.should_reload_at(now)
    }

    /// Handles a reload signal at `now`: starts a load (returns true) only when
    /// none is in flight and the snapshot is stale; during a load, remembers
    /// that a signal came.
    pub fn on_reload_signal_at(&mut self, now: u64) -> (start: bool)
        ensures
            final(self).snapshot().currently_refreshing == final(self).refresh_state().refreshing,
            (final(self).refresh_state(), start) == after_signal(old(self).refresh_state(), now),
            final(self).same_content(*old(self)),
    {
        if self.repositories_data.currently_refreshing {
            self.reload_pending = true;
            false
        } else if self.should_reload_at(now) {
            self.repositories_data.currently_refreshing = true;
            self.reload_pending = false;
            true
        } else {
            self.reload_pending = false;
            false
        }
    }

    /// Handles a reload signal now.
    pub fn on_reload_signal(&mut self) -> (start: bool)
        ensures
            final(self).snapshot().currently_refreshing == final(self).refresh_state().refreshing,
            exists|now: u64|
                (final(self).refresh_state(), start) == #[trigger] after_signal(
                    old(self).refresh_state(),
                    now,
                ),
            final(self).same_content(*old(self)),
    {
        let now = self.now_millis();
        self.on_reload_signal_at(now)
    }

    /// Ends the load in flight at `now`. A loaded snapshot replaces the cached
    /// one; after a failure the cached one stays. Returns whether another load
    /// starts at once: only when a signal came during the load and the
    /// snapshot is still stale.
    pub fn finish_refresh_at(&mut self, loaded: Option<RepositoriesData>, now: u64) -> (again: bool)
        requires
            old(self).refresh_state().refreshing,
        ensures
            final(self).snapshot().currently_refreshing == final(self).refresh_state().refreshing,
            final(self).snapshot().currently_refreshing == again,
            (final(self).refresh_state(), again) == after_finish(
                old(self).refresh_state(),
                loaded is Some,
                now,
            ),
            loaded is Some ==> final(self).snapshot().last_updated_date
                == loaded->Some_0.last_updated_date && final(self).snapshot().repositories
                == loaded->Some_0.repositories,
            loaded is None ==> final(self).same_content(*old(self)),
    {
        match loaded {
            Some(data) => self.cache_data_at(data, now),
            None => {},
        }
        let again = self.reload_pending && self.should_reload_at(now);
        self.repositories_data.currently_refreshing = again;
        self.reload_pending = false;
        again
    }

    /// Ends the load in flight now.
    pub fn finish_refresh(&mut self, loaded: Option<RepositoriesData>) -> (again: bool)
        requires
            old(self).refresh_state().refreshing,
        ensures
            final(self).snapshot().currently_refreshing == final(self).refresh_state().refreshing,
            final(self).snapshot().currently_refreshing == again,
            exists|now: u64|
                (final(self).refresh_state(), again) == #[trigger] after_finish(
                    old(self).refresh_state(),
                    loaded is Some,
                    now,
                ),
            loaded is Some ==> final(self).snapshot().last_updated_date
                == loaded->Some_0.last_updated_date && final(self).snapshot().repositories
                == loaded->Some_0.repositories,
            loaded is None ==> final(self).same_content(*old(self)),
    {
        let now = self.now_millis();
        self.finish_refresh_at(loaded, now)
    }
}

/// Readers see the refresh bookkeeping: the `currently_refreshing` flag of
/// the snapshot is true exactly while a load is in flight.
pub proof fn lemma_readers_see_refreshing(c: RepositoriesDataCache)
    ensures
        c.snapshot().currently_refreshing == c.refresh_state().refreshing,
{
}

/// At most one load is in flight: a signal starts a load only when none is in
/// flight, a started load is in flight until it finishes, and a signal during
/// a load neither starts another nor ends it.
pub proof fn lemma_one_load_in_flight(st: RefreshState, now: u64)
    ensures
        after_signal(st, now).1 ==> !st.refreshing && after_signal(st, now).0.refreshing,
        st.refreshing ==> !after_signal(st, now).1 && after_signal(st, now).0.refreshing,
{
}

/// A cache that was never loaded reloads, at any time.
pub proof fn lemma_never_loaded_reloads(c: RepositoriesDataCache, now: u64)
    requires
        c.refresh_state().last_load is None,
    ensures
        is_stale(c.refresh_state().last_load, now),
{
}

/// A snapshot loaded at `t` is fresh until the threshold has passed and stale
/// after: in particular fresh ten seconds later and stale thirty-one seconds later.
pub proof fn lemma_staleness_threshold(t: u64, d: u64)
    requires
        t + d <= u64::MAX,
    ensures
        is_stale(Some(t), (t + d) as u64) <==> d > RELOAD_THRESHOLD_MILLIS,
        t + 31000 <= u64::MAX ==> is_stale(Some(t), (t + 31000) as u64),
        t + 10000 <= u64::MAX ==> !is_stale(Some(t), (t + 10000) as u64),
{
}

/// Signals that arrive while a load is in flight start no load, and leave the
/// load in flight.
pub proof fn lemma_signals_during_load(st: RefreshState, times: Seq<u64>)
    requires
        st.refreshing,
    ensures
        after_signals(st, times).1 == 0,
        after_signals(st, times).0.refreshing,
        after_signals(st, times).0.last_load == st.last_load,
    decreases times.len(),
{
    if times.len() > 0 {
        lemma_signals_during_load(st, times.drop_last());
    }
}

/// Single flight: any number of signals that arrive while a load is in flight
/// start no load during it, and at most one load once it finishes.
pub proof fn lemma_single_flight(st: RefreshState, times: Seq<u64>, loaded: bool, now: u64)
    requires
        st.refreshing,
    ensures
        after_signals(st, times).1 + (if after_finish(after_signals(st, times).0, loaded, now).1 {
            1nat
        } else {
            0nat
        }) <= 1,
{
    lemma_signals_during_load(st, times);
}

} // verus!
