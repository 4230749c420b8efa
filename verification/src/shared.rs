//! The registry as the one shared-mutable component: behind a
//! reader-writer lock whose invariant is the registry's
//! well-formedness. The poller writes through it, any number of
//! scrapers read through it, and the lock is held only for the
//! duration of one in-memory update or one rendering — never across
//! network work. A reader therefore always sees one complete,
//! well-formed snapshot, never a partially-written value.

use vstd::prelude::*;
use vstd::rwlock::RwLock;
use crate::fetch::FetchError;
use crate::metrics::{render_spec, Metrics, RateLimitStatus, RepoStat};
use crate::poller::{Action, Poller};

verus! {

/// The metrics registry behind a multi-reader / single-writer lock.
pub struct SharedRegistry {
    lock: RwLock<Metrics, spec_fn(Metrics) -> bool>,
}

impl SharedRegistry {
    /// The lock stores exactly the well-formed registries.
    pub closed spec fn inv(self) -> bool {
        forall|m: Metrics| #[trigger] self.lock.inv(m) <==> m.wf()
    }

    /// A fresh shared registry holding an empty snapshot.
    pub fn new() -> (res: SharedRegistry)
        ensures
            res.inv(),
    {
        let m = Metrics::new();
        let lock = RwLock::new(m, Ghost(|m: Metrics| m.wf()));
        SharedRegistry { lock }
    }

    /// Overwrites one repository's gauges wholesale under the write
    /// lock; see `Metrics::set_repo_stat`. The lock is held only for
    /// the one in-memory update.
    pub fn set_repo_stat(&self, stat: RepoStat)
        requires
            self.inv(),
    {
        let (mut m, handle) = self.lock.acquire_write();
        m.set_repo_stat(stat);
        handle.release_write(m);
    }

    /// Overwrites the rate-limit gauges under the write lock; see
    /// `Metrics::set_rate_limit`.
    pub fn set_rate_limit(&self, rl: RateLimitStatus)
        requires
            self.inv(),
    {
        let (mut m, handle) = self.lock.acquire_write();
        m.set_rate_limit(rl);
        handle.release_write(m);
    }

    /// Applies one entity-fetch result: the poller transition of
    /// `Poller::on_fetch_result`, with the registry write done under
    /// the write lock.
    pub fn on_fetch_result(
        &self,
        poller: &mut Poller,
        result: Result<RepoStat, FetchError>,
    ) -> (a: Action)
        requires
            self.inv(),
            old(poller).wf(),
            old(poller).phase is Fetching,
        ensures
            Poller::fetch_step(*old(poller), *final(poller), result, a),
    {
        let (mut m, handle) = self.lock.acquire_write();
        let a = poller.on_fetch_result(&mut m, result);
        handle.release_write(m);
        a
    }

    /// Applies the cycle-ending rate-limit result: the poller
    /// transition of `Poller::on_rate_limit_result`, with the
    /// registry write done under the write lock.
    pub fn on_rate_limit_result(
        &self,
        poller: &mut Poller,
        result: Result<RateLimitStatus, FetchError>,
    ) -> (a: Action)
        requires
            self.inv(),
            old(poller).wf(),
            old(poller).phase is FetchingRateLimit,
        ensures
            Poller::cycle_end_step(*old(poller), *final(poller), a),
    {
        let (mut m, handle) = self.lock.acquire_write();
        let a = poller.on_rate_limit_result(&mut m, result);
        handle.release_write(m);
        a
    }

    /// Renders the current snapshot under a read lock. Whatever the
    /// concurrent writer is doing, the text always equals the
    /// rendering of one complete, well-formed registry state.
    pub fn render_text(&self) -> (res: String)
        requires
            self.inv(),
        ensures
            exists|m: Metrics| m.wf() && res@ == render_spec(m.rows@, m.rate_limit),
    {
        let handle = self.lock.acquire_read();
        let text = handle.borrow().render_text();
        handle.release_read();
        text
    }
}

} // verus!
