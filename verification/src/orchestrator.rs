use vstd::prelude::*;
use crate::Chain;
use crate::cache::{
    CacheEntryModel, CacheKeyModel, CacheService, CacheValueModel, balance_key, spec_fresh,
};
use crate::errors::AppError;
use crate::portfolio::{PortfolioModel, PortfolioResponse};

verus! {

/// The cache-aside control flow tying the cache store and the chain
/// backends together, stateless across requests:
/// start → cache lookup → on a hit, return the stored snapshot as is;
/// on a miss the caller drives the backend fetch and hands the result
/// to [`PortfolioOrchestrator::store_fetched`], which performs the
/// single cache write and returns the value written.  There is no
/// retry and no fallback to an expired entry.  The TTL is fixed at
/// construction and governs how long a freshly stored result stays
/// visible to later lookups; it does not affect the result just
/// fetched.
pub struct PortfolioOrchestrator {
    pub cache: CacheService,
    pub ttl_seconds: u64,
}

impl PortfolioOrchestrator {
    pub open spec fn wf(self) -> bool {
        self.cache.wf()
    }

    pub fn new(cache: CacheService, ttl_seconds: u64) -> (orchestrator: PortfolioOrchestrator)
        requires
            cache.wf(),
        ensures
            orchestrator.wf(),
            orchestrator.cache@ == cache@,
            orchestrator.ttl_seconds == ttl_seconds,
    {
        PortfolioOrchestrator { cache, ttl_seconds }
    }

    /// The cache-lookup step: returns the stored snapshot exactly when
    /// the balance entry for `(address, chain)` is present and fresh
    /// at `now`; the snapshot is not re-validated against chain state.
    pub fn lookup(&self, address: &str, chain: Chain, now: u64) -> (r: Option<PortfolioResponse>)
        requires
            self.wf(),
        ensures
            match spec_fresh(self.cache@, balance_key(address@, chain), now) {
                Some(CacheValueModel::Balance(m)) => {
                    &&& r matches Some(p)
                    &&& p@ == m
                    &&& p.wf()
                },
                _ => r is None,
            },
    {
        self.cache.get_balance(address, chain, now)
    }

    /// The tail of a miss: stores the freshly fetched snapshot under
    /// `(address, chain)` with expiry `now + ttl_seconds` — exactly
    /// one cache write — and returns to the caller the very value
    /// written.
    pub fn store_fetched(
        &mut self,
        address: &str,
        chain: Chain,
        fetched: PortfolioResponse,
        now: u64,
    ) -> (r: Result<PortfolioResponse, AppError>)
        requires
            old(self).wf(),
            fetched.wf(),
            now + old(self).ttl_seconds <= u64::MAX,
        ensures
            final(self).wf(),
            final(self).ttl_seconds == old(self).ttl_seconds,
            r matches Ok(p) && p@ == fetched@,
            final(self).cache@ == old(self).cache@.insert(
                balance_key(address@, chain),
                CacheEntryModel {
                    value: CacheValueModel::Balance(fetched@),
                    expires_at: (now + old(self).ttl_seconds) as u64,
                },
            ),
    {
        let ttl = self.ttl_seconds;
        match self.cache.set_balance(address, chain, &fetched, ttl, now) {
            Ok(_) => Ok(fetched),
            Err(e) => Err(e),
        }
    }
}

/// Cache-aside correctness: a miss at time `t` followed by a
/// successful backend fetch of snapshot `v` results in exactly one
/// cache write — the missed key now holds `v`, its domain grows by
/// that key alone, and every other key's entry is untouched — and the
/// value returned to the caller equals the value written, which reads
/// before `t + ttl` then see.
pub proof fn lemma_cache_aside(
    m: Map<CacheKeyModel, CacheEntryModel>,
    k: CacheKeyModel,
    v: PortfolioModel,
    t: u64,
    ttl: u64,
    t2: u64,
)
    requires
        spec_fresh(m, k, t) is None,
        t + ttl <= u64::MAX,
    ensures
        ({
            let m2 = m.insert(
                k,
                CacheEntryModel {
                    value: CacheValueModel::Balance(v),
                    expires_at: (t + ttl) as u64,
                },
            );
            &&& m2.dom() =~= m.dom().insert(k)
            &&& forall|k2: CacheKeyModel|
                k2 != k && #[trigger] m.contains_key(k2) ==> m2.contains_key(k2) && m2[k2] == m[k2]
            &&& m2[k].value == CacheValueModel::Balance(v)
            &&& (t2 < t + ttl ==> spec_fresh(m2, k, t2) == Some(CacheValueModel::Balance(v)))
            &&& (t2 >= t + ttl ==> spec_fresh(m2, k, t2) is None)
        }),
{
}

} // verus!
