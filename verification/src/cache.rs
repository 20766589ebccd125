use vstd::prelude::*;
use crate::Chain;
use crate::errors::AppError;
use crate::portfolio::{PortfolioModel, PortfolioResponse};
use crate::token::{TokenMetadata, TokenMetadataModel};

verus! {

/// The three independent cache namespaces.  Entries in different
/// namespaces never shadow each other even when their identifiers
/// collide.
#[derive(Clone, Copy, Debug, PartialEq, Eq, Structural)]
pub enum CacheNamespace {
    Balance,
    Price,
    Metadata,
}

/// The composite key of a cache entry: a namespace, a subject
/// identifier (an address for balances, a token identifier for prices
/// and metadata) and a chain.
pub struct CacheKeyModel {
    pub ns: CacheNamespace,
    pub id: Seq<char>,
    pub chain: Chain,
}

pub open spec fn balance_key(id: Seq<char>, chain: Chain) -> CacheKeyModel {
    CacheKeyModel { ns: CacheNamespace::Balance, id, chain }
}

pub open spec fn price_key(id: Seq<char>, chain: Chain) -> CacheKeyModel {
    CacheKeyModel { ns: CacheNamespace::Price, id, chain }
}

pub open spec fn metadata_key(id: Seq<char>, chain: Chain) -> CacheKeyModel {
    CacheKeyModel { ns: CacheNamespace::Metadata, id, chain }
}

/// A cached value: a balance snapshot, a price with its optional 24h
/// change, or a metadata record.
pub enum CacheValue {
    Balance(PortfolioResponse),
    Price(u64, Option<i64>),
    Metadata(TokenMetadata),
}

/// Mathematical image of a [`CacheValue`].
pub enum CacheValueModel {
    Balance(PortfolioModel),
    Price(u64, Option<i64>),
    Metadata(TokenMetadataModel),
}

impl View for CacheValue {
    type V = CacheValueModel;

    open spec fn view(&self) -> CacheValueModel {
        match self {
            CacheValue::Balance(p) => CacheValueModel::Balance(p@),
            CacheValue::Price(p, c) => CacheValueModel::Price(*p, *c),
            CacheValue::Metadata(m) => CacheValueModel::Metadata(m@),
        }
    }
}

impl Clone for CacheValue {
    fn clone(&self) -> (r: Self)
        ensures
            r@ == self@,
    {
        match self {
            CacheValue::Balance(p) => CacheValue::Balance(p.clone()),
            CacheValue::Price(p, c) => CacheValue::Price(*p, *c),
            CacheValue::Metadata(m) => CacheValue::Metadata(m.clone()),
        }
    }
}

/// What the cache remembers under one key: the value and the absolute
/// instant (Unix seconds) at which it stops being fresh.
pub struct CacheEntryModel {
    pub value: CacheValueModel,
    pub expires_at: u64,
}

/// The lazy-expiry read rule: a value is visible exactly when its key
/// is present and its expiry lies strictly after `now`.  An expired
/// entry is indistinguishable from a missing one.
pub open spec fn spec_fresh(
    m: Map<CacheKeyModel, CacheEntryModel>,
    k: CacheKeyModel,
    now: u64,
) -> Option<CacheValueModel> {
    if m.contains_key(k) && m[k].expires_at > now {
        Some(m[k].value)
    } else {
        None
    }
}

struct CacheEntry {
    ns: CacheNamespace,
    id: String,
    chain: Chain,
    value: CacheValue,
    expires_at: u64,
}

spec fn k_of(e: CacheEntry) -> CacheKeyModel {
    CacheKeyModel { ns: e.ns, id: e.id@, chain: e.chain }
}

spec fn e_of(e: CacheEntry) -> CacheEntryModel {
    CacheEntryModel { value: e.value@, expires_at: e.expires_at }
}

spec fn cache_map_of(s: Seq<CacheEntry>) -> Map<CacheKeyModel, CacheEntryModel>
    decreases s.len(),
{
    if s.len() == 0 {
        Map::empty()
    } else {
        cache_map_of(s.drop_last()).insert(k_of(s.last()), e_of(s.last()))
    }
}

spec fn unique_keys(s: Seq<CacheEntry>) -> bool {
    forall|i: int, j: int| 0 <= i < j < s.len() ==> k_of(s[i]) != k_of(s[j])
}

/// An entry's stored variant agrees with its namespace, and every
/// cached snapshot satisfies the snapshot invariants.
spec fn entry_ok(e: CacheEntry) -> bool {
    match e.value {
        CacheValue::Balance(p) => e.ns == CacheNamespace::Balance && p@.wf(),
        CacheValue::Price(_, _) => e.ns == CacheNamespace::Price,
        CacheValue::Metadata(_) => e.ns == CacheNamespace::Metadata,
    }
}

proof fn lemma_map_domain(s: Seq<CacheEntry>)
    ensures
        forall|k: CacheKeyModel| #[trigger]
            cache_map_of(s).contains_key(k) <==> exists|i: int|
                0 <= i < s.len() && k_of(#[trigger] s[i]) == k,
    decreases s.len(),
{
    if s.len() > 0 {
        lemma_map_domain(s.drop_last());
        assert forall|k: CacheKeyModel| #[trigger]
            cache_map_of(s).contains_key(k) implies exists|i: int|
            0 <= i < s.len() && k_of(#[trigger] s[i]) == k by {
            if k_of(s.last()) == k {
                assert(k_of(s[s.len() - 1]) == k);
            } else {
                assert(cache_map_of(s.drop_last()).contains_key(k));
                let i = choose|i: int|
                    0 <= i < s.drop_last().len() && k_of(#[trigger] s.drop_last()[i]) == k;
                assert(k_of(s[i]) == k);
            }
        }
        assert forall|k: CacheKeyModel|
            exists|i: int|
                0 <= i < s.len() && k_of(#[trigger] s[i]) == k implies #[trigger]
            cache_map_of(s).contains_key(k) by {
            let i = choose|i: int| 0 <= i < s.len() && k_of(#[trigger] s[i]) == k;
            if i == s.len() - 1 {
                assert(k_of(s.last()) == k);
                assert(cache_map_of(s) == cache_map_of(s.drop_last()).insert(
                    k_of(s.last()),
                    e_of(s.last()),
                ));
            } else {
                assert(k_of(s.drop_last()[i]) == k);
                assert(cache_map_of(s.drop_last()).contains_key(k));
            }
        }
    }
}

proof fn lemma_map_index(s: Seq<CacheEntry>, i: int)
    requires
        unique_keys(s),
        0 <= i < s.len(),
    ensures
        cache_map_of(s).contains_key(k_of(s[i])),
        cache_map_of(s)[k_of(s[i])] == e_of(s[i]),
    decreases s.len(),
{
    if i < s.len() - 1 {
        assert(unique_keys(s.drop_last()));
        lemma_map_index(s.drop_last(), i);
        assert(k_of(s[i]) != k_of(s.last()));
        assert(s.drop_last()[i] == s[i]);
    }
}

proof fn lemma_map_update(s: Seq<CacheEntry>, i: int, e: CacheEntry)
    requires
        unique_keys(s),
        0 <= i < s.len(),
        k_of(e) == k_of(s[i]),
    ensures
        cache_map_of(s.update(i, e)) =~= cache_map_of(s).insert(k_of(e), e_of(e)),
        unique_keys(s.update(i, e)),
    decreases s.len(),
{
    let s2 = s.update(i, e);
    assert forall|a: int, b: int| 0 <= a < b < s2.len() implies k_of(s2[a]) != k_of(s2[b]) by {
        assert(k_of(s2[a]) == k_of(s[a]));
        assert(k_of(s2[b]) == k_of(s[b]));
    }
    if i == s.len() - 1 {
        assert(s2.drop_last() =~= s.drop_last());
        assert(s2.last() == e);
    } else {
        assert(s2.drop_last() =~= s.drop_last().update(i, e));
        assert(unique_keys(s.drop_last()));
        assert(s.drop_last()[i] == s[i]);
        lemma_map_update(s.drop_last(), i, e);
        assert(s2.last() == s.last());
        assert(k_of(e) != k_of(s.last()));
    }
}

proof fn lemma_map_push(s: Seq<CacheEntry>, e: CacheEntry)
    requires
        unique_keys(s),
        !cache_map_of(s).contains_key(k_of(e)),
    ensures
        cache_map_of(s.push(e)) =~= cache_map_of(s).insert(k_of(e), e_of(e)),
        unique_keys(s.push(e)),
{
    assert(s.push(e).drop_last() =~= s);
    assert(s.push(e).last() == e);
    lemma_map_domain(s);
    assert forall|a: int, b: int|
        0 <= a < b < s.push(e).len() implies k_of(s.push(e)[a]) != k_of(s.push(e)[b]) by {
        if b == s.len() {
            assert(k_of(s[a]) != k_of(e));
        }
    }
}

/// The TTL key-value store backing the cache-aside flow: three
/// namespaces of keyed, time-bounded entries with lazy expiry.  The
/// store exclusively owns entry storage; callers only go through the
/// get/set pairs below.
pub struct CacheService {
    entries: Vec<CacheEntry>,
}

impl View for CacheService {
    type V = Map<CacheKeyModel, CacheEntryModel>;

    closed spec fn view(&self) -> Map<CacheKeyModel, CacheEntryModel> {
        cache_map_of(self.entries@)
    }
}

impl CacheService {
    /// Every key is stored at most once, variants agree with their
    /// namespace, and cached snapshots satisfy the snapshot
    /// invariants.
    pub closed spec fn wf(self) -> bool {
        &&& unique_keys(self.entries@)
        &&& forall|i: int| 0 <= i < self.entries@.len() ==> entry_ok(#[trigger] self.entries@[i])
    }

    pub fn new() -> (cache: CacheService)
        ensures
            cache.wf(),
            cache@ == Map::<CacheKeyModel, CacheEntryModel>::empty(),
    {
        CacheService { entries: Vec::new() }
    }

    fn find_index(&self, ns: CacheNamespace, id: &String, chain: Chain) -> (r: Option<usize>)
        requires
            self.wf(),
        ensures
            match r {
                Some(i) => {
                    &&& i < self.entries@.len()
                    &&& k_of(self.entries@[i as int]) == (CacheKeyModel { ns, id: id@, chain })
                    &&& self@.contains_key(CacheKeyModel { ns, id: id@, chain })
                    &&& self@[CacheKeyModel { ns, id: id@, chain }] == e_of(self.entries@[i as int])
                },
                None => !self@.contains_key(CacheKeyModel { ns, id: id@, chain }),
            },
    {
        let ghost k = CacheKeyModel { ns, id: id@, chain };
        let mut i: usize = 0;
        while i < self.entries.len()
            invariant
                self.wf(),
                k == (CacheKeyModel { ns, id: id@, chain }),
                i <= self.entries@.len(),
                forall|j: int| 0 <= j < i ==> k_of(#[trigger] self.entries@[j]) != k,
            decreases self.entries@.len() - i,
        {
            let e = &self.entries[i];
            let ns_eq = e.ns == ns;
            let chain_eq = e.chain == chain;
            let id_eq = e.id == *id;
            if ns_eq && chain_eq && id_eq {
                proof {
                    lemma_map_index(self.entries@, i as int);
                }
                return Some(i);
            }
            proof {
                let ke = k_of(self.entries@[i as int]);
                if ke == k {
                    assert(ke.ns == k.ns && ke.chain == k.chain && ke.id == k.id);
                    assert(false);
                }
            }
            i += 1;
        }
        proof {
            lemma_map_domain(self.entries@);
        }
        None
    }

    /// Creates or atomically replaces the entry under the given key:
    /// a single logical write, last writer wins.
    fn upsert(&mut self, ns: CacheNamespace, id: &String, chain: Chain, value: CacheValue, expires_at: u64)
        requires
            old(self).wf(),
            match value {
                CacheValue::Balance(p) => ns == CacheNamespace::Balance && p@.wf(),
                CacheValue::Price(_, _) => ns == CacheNamespace::Price,
                CacheValue::Metadata(_) => ns == CacheNamespace::Metadata,
            },
        ensures
            final(self).wf(),
            final(self)@ == old(self)@.insert(
                CacheKeyModel { ns, id: id@, chain },
                CacheEntryModel { value: value@, expires_at },
            ),
    {
        let entry = CacheEntry { ns, id: id.clone(), chain, value, expires_at };
        let found = self.find_index(ns, id, chain);
        match found {
            Some(i) => {
                proof {
                    lemma_map_update(self.entries@, i as int, entry);
                }
                self.entries.set(i, entry);
            },
            None => {
                proof {
                    lemma_map_push(self.entries@, entry);
                }
                self.entries.push(entry);
            },
        }
    }

    fn fetch<'a>(&'a self, ns: CacheNamespace, id: &String, chain: Chain, now: u64) -> (r: Option<
        &'a CacheValue,
    >)
        requires
            self.wf(),
        ensures
            match r {
                Some(v) => {
                    &&& spec_fresh(self@, CacheKeyModel { ns, id: id@, chain }, now) == Some(v@)
                    &&& match v@ {
                        CacheValueModel::Balance(p) => ns == CacheNamespace::Balance && p.wf(),
                        CacheValueModel::Price(_, _) => ns == CacheNamespace::Price,
                        CacheValueModel::Metadata(_) => ns == CacheNamespace::Metadata,
                    }
                },
                None => spec_fresh(self@, CacheKeyModel { ns, id: id@, chain }, now) is None,
            },
    {
        let found = self.find_index(ns, id, chain);
        match found {
            Some(i) => {
                let e = &self.entries[i];
                if e.expires_at > now {
                    Some(&e.value)
                } else {
                    None
                }
            },
            None => None,
        }
    }

    /// Returns the cached snapshot for `(address, chain)` only if its
    /// entry has not expired; a miss is a normal outcome, not a
    /// failure.
    pub fn get_balance(&self, address: &str, chain: Chain, now: u64) -> (r: Option<
        PortfolioResponse,
    >)
        requires
            self.wf(),
        ensures
            match spec_fresh(self@, balance_key(address@, chain), now) {
                Some(CacheValueModel::Balance(m)) => {
                    &&& r matches Some(p)
                    &&& p@ == m
                    &&& p.wf()
                },
                _ => r is None,
            },
    {
        let id = address.to_owned();
        match self.fetch(CacheNamespace::Balance, &id, chain, now) {
            Some(CacheValue::Balance(p)) => Some(p.clone()),
            _ => None,
        }
    }

    /// Upserts the snapshot under `(address, chain)` with expiry
    /// `now + ttl_seconds`.
    pub fn set_balance(
        &mut self,
        address: &str,
        chain: Chain,
        snapshot: &PortfolioResponse,
        ttl_seconds: u64,
        now: u64,
    ) -> (r: Result<(), AppError>)
        requires
            old(self).wf(),
            snapshot.wf(),
            now + ttl_seconds <= u64::MAX,
        ensures
            r is Ok,
            final(self).wf(),
            final(self)@ == old(self)@.insert(
                balance_key(address@, chain),
                CacheEntryModel {
                    value: CacheValueModel::Balance(snapshot@),
                    expires_at: (now + ttl_seconds) as u64,
                },
            ),
    {
        let id = address.to_owned();
        self.upsert(
            CacheNamespace::Balance,
            &id,
            chain,
            CacheValue::Balance(snapshot.clone()),
            now + ttl_seconds,
        );
        Ok(())
    }

    /// Returns the cached price for `(token_id, chain)` if fresh.
    pub fn get_price(&self, token_id: &str, chain: Chain, now: u64) -> (r: Option<u64>)
        requires
            self.wf(),
        ensures
            match spec_fresh(self@, price_key(token_id@, chain), now) {
                Some(CacheValueModel::Price(p, _)) => r == Some(p),
                _ => r is None,
            },
    {
        let id = token_id.to_owned();
        match self.fetch(CacheNamespace::Price, &id, chain, now) {
            Some(CacheValue::Price(p, _)) => Some(*p),
            _ => None,
        }
    }

    /// Returns the cached price and its optional 24h change if fresh.
    pub fn get_price_with_change(&self, token_id: &str, chain: Chain, now: u64) -> (r: Option<
        (u64, Option<i64>),
    >)
        requires
            self.wf(),
        ensures
            match spec_fresh(self@, price_key(token_id@, chain), now) {
                Some(CacheValueModel::Price(p, c)) => r == Some((p, c)),
                _ => r is None,
            },
    {
        let id = token_id.to_owned();
        match self.fetch(CacheNamespace::Price, &id, chain, now) {
            Some(CacheValue::Price(p, c)) => Some((*p, *c)),
            _ => None,
        }
    }

    /// Upserts a price without a change figure.
    pub fn set_price(
        &mut self,
        token_id: &str,
        chain: Chain,
        price: u64,
        ttl_seconds: u64,
        now: u64,
    ) -> (r: Result<(), AppError>)
        requires
            old(self).wf(),
            now + ttl_seconds <= u64::MAX,
        ensures
            r is Ok,
            final(self).wf(),
            final(self)@ == old(self)@.insert(
                price_key(token_id@, chain),
                CacheEntryModel {
                    value: CacheValueModel::Price(price, None),
                    expires_at: (now + ttl_seconds) as u64,
                },
            ),
    {
        let id = token_id.to_owned();
        self.upsert(CacheNamespace::Price, &id, chain, CacheValue::Price(price, None), now + ttl_seconds);
        Ok(())
    }

    /// Upserts a price together with its 24h change.
    pub fn set_price_with_change(
        &mut self,
        token_id: &str,
        chain: Chain,
        price: u64,
        price_change_24h: Option<i64>,
        ttl_seconds: u64,
        now: u64,
    ) -> (r: Result<(), AppError>)
        requires
            old(self).wf(),
            now + ttl_seconds <= u64::MAX,
        ensures
            r is Ok,
            final(self).wf(),
            final(self)@ == old(self)@.insert(
                price_key(token_id@, chain),
                CacheEntryModel {
                    value: CacheValueModel::Price(price, price_change_24h),
                    expires_at: (now + ttl_seconds) as u64,
                },
            ),
    {
        let id = token_id.to_owned();
        self.upsert(
            CacheNamespace::Price,
            &id,
            chain,
            CacheValue::Price(price, price_change_24h),
            now + ttl_seconds,
        );
        Ok(())
    }

    /// Returns the cached metadata record for `(token_id, chain)` if
    /// fresh.
    pub fn get_metadata(&self, token_id: &str, chain: Chain, now: u64) -> (r: Option<TokenMetadata>)
        requires
            self.wf(),
        ensures
            match spec_fresh(self@, metadata_key(token_id@, chain), now) {
                Some(CacheValueModel::Metadata(m)) => r matches Some(v) && v@ == m,
                _ => r is None,
            },
    {
        let id = token_id.to_owned();
        match self.fetch(CacheNamespace::Metadata, &id, chain, now) {
            Some(CacheValue::Metadata(m)) => Some(m.clone()),
            _ => None,
        }
    }

    /// Upserts a metadata record.
    pub fn set_metadata(
        &mut self,
        token_id: &str,
        chain: Chain,
        metadata: &TokenMetadata,
        ttl_seconds: u64,
        now: u64,
    ) -> (r: Result<(), AppError>)
        requires
            old(self).wf(),
            now + ttl_seconds <= u64::MAX,
        ensures
            r is Ok,
            final(self).wf(),
            final(self)@ == old(self)@.insert(
                metadata_key(token_id@, chain),
                CacheEntryModel {
                    value: CacheValueModel::Metadata(metadata@),
                    expires_at: (now + ttl_seconds) as u64,
                },
            ),
    {
        let id = token_id.to_owned();
        self.upsert(
            CacheNamespace::Metadata,
            &id,
            chain,
            CacheValue::Metadata(metadata.clone()),
            now + ttl_seconds,
        );
        Ok(())
    }
}

/// Cache freshness: after a write of value `v` under key `k` at time
/// `t` with time-to-live `ttl`, a read of `k` at any time strictly
/// before `t + ttl` sees exactly `v`, and a read at or after `t + ttl`
/// sees nothing — lazy expiry, no early eviction.
pub proof fn lemma_cache_freshness(
    m: Map<CacheKeyModel, CacheEntryModel>,
    k: CacheKeyModel,
    v: CacheValueModel,
    t: u64,
    ttl: u64,
    t2: u64,
)
    requires
        t + ttl <= u64::MAX,
    ensures
        t2 < t + ttl ==> spec_fresh(
            m.insert(k, CacheEntryModel { value: v, expires_at: (t + ttl) as u64 }),
            k,
            t2,
        ) == Some(v),
        t2 >= t + ttl ==> spec_fresh(
            m.insert(k, CacheEntryModel { value: v, expires_at: (t + ttl) as u64 }),
            k,
            t2,
        ) is None,
{
}

} // verus!
