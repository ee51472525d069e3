use vstd::prelude::*;

use crate::cache::{
    copy_version, record_in, saturating_add, state_of, version_model,
    CacheState, CachedVersion, CrateCache, Fetch, FetchModel, Timestamp, DAY,
};
use crate::registry::CrateError;
use crate::table::{distinct_keys, map_of, Model, Table};
use crate::version::{CrateVersion, VersionModel};

verus! {

/// Where a batch of lookups stands: the versions settled so far, how many
/// fetches were sent out and how many have come back.
pub struct BatchModel {
    pub versions: Map<Seq<char>, Option<VersionModel>>,
    pub dispatched: nat,
    pub received: nat,
}

/// A name was looked up in the cache: a cached answer settles it, an unknown
/// one sends out a fetch.
pub open spec fn after_lookup(b: BatchModel, name: Seq<char>, cached: CacheState) -> BatchModel {
    match cached {
        CacheState::Known(v) => BatchModel { versions: b.versions.insert(name, Some(v)), ..b },
        CacheState::DoesNotExist => BatchModel { versions: b.versions.insert(name, None), ..b },
        CacheState::Unknown => BatchModel { dispatched: b.dispatched + 1, ..b },
    }
}

/// A fetch came back with `outcome`.
pub open spec fn after_fetch(b: BatchModel, name: Seq<char>, outcome: Option<VersionModel>) -> BatchModel {
    BatchModel { versions: b.versions.insert(name, outcome), received: b.received + 1, ..b }
}

/// What the cache holds once a fetch result at `now` has been recorded, kept
/// for `time_to_live`'s day.
pub open spec fn cache_after_fetch(
    c: Map<Seq<char>, FetchModel>,
    name: Seq<char>,
    outcome: Option<VersionModel>,
    now: Timestamp,
) -> Map<Seq<char>, FetchModel> {
    c.insert(name, FetchModel { version: outcome, expires_at: saturating_add(now, DAY) })
}

/// Any failure to fetch counts as "no version".
pub fn outcome_of(result: Result<CrateVersion, CrateError>) -> (r: Option<CrateVersion>)
    ensures
        match result {
            Ok(v) => r matches Some(x) && x@ == v@,
            Err(_) => r is None,
        },
{
    match result {
        Ok(v) => Some(v),
        Err(_) => None,
    }
}

/// The decisions of one batch of version lookups. The caller asks the cache
/// about each name and hands the answer to `lookup`, which says whether a
/// fetch is needed; it hands each fetch result to `complete`, which records
/// it in the cache; `pending` says how many results are still to come.
pub struct VersionBatch {
    versions: Table<Option<CrateVersion>>,
    dispatched: usize,
    received: usize,
}

impl VersionBatch {
    pub closed spec fn view(&self) -> BatchModel {
        BatchModel {
            versions: self.versions.view(),
            dispatched: self.dispatched as nat,
            received: self.received as nat,
        }
    }

    pub closed spec fn wf(&self) -> bool {
        self.versions.wf() && self.received <= self.dispatched
    }

    pub fn new() -> (r: VersionBatch)
        ensures
            r.wf(),
            r.view() == (BatchModel {
                versions: Map::empty(),
                dispatched: 0,
                received: 0,
            }),
    {
        VersionBatch { versions: Table::new(), dispatched: 0, received: 0 }
    }

    /// Takes what the cache said of `name`; returns whether a fetch must be
    /// sent out for it.
    pub fn lookup(&mut self, name: &str, cached: CachedVersion) -> (fetch: bool)
        requires
            old(self).wf(),
            old(self).view().dispatched < usize::MAX,
        ensures
            final(self).wf(),
            final(self).view() == after_lookup(old(self).view(), name@, cached@),
            fetch == (cached@ is Unknown),
    {
        match cached {
            CachedVersion::Known(v) => {
                self.versions.insert(name, Some(v));
                false
            },
            CachedVersion::DoesNotExist => {
                self.versions.insert(name, None);
                false
            },
            CachedVersion::Unknown => {
                self.dispatched = self.dispatched + 1;
                true
            },
        }
    }

    /// How many fetches have not come back yet.
    pub fn pending(&self) -> (r: usize)
        requires
            self.wf(),
        ensures
            r == self.view().dispatched - self.view().received,
    {
        self.dispatched - self.received
    }

    pub fn dispatched(&self) -> (r: usize)
        ensures
            r == self.view().dispatched,
    {
        self.dispatched
    }

    /// Takes the record of the fetch for `name` (see `fetch_record`): its
    /// version is kept for the batch, and the record is put in the cache.
    pub fn complete(&mut self, cache: &mut CrateCache, name: &str, record: Fetch)
        requires
            old(self).wf(),
            old(cache).wf(),
            old(self).view().received < old(self).view().dispatched,
        ensures
            final(self).wf(),
            final(cache).wf(),
            final(self).view() == after_fetch(old(self).view(), name@, record.model().version),
            final(cache).view() == old(cache).view().insert(name@, record.model()),
    {
        let kept = copy_version(&record.version);
        cache.put(name, record.version, record.expires_at);
        self.versions.insert(name, kept);
        self.received = self.received + 1;
    }

    /// The version settled for each name, each name once.
    pub fn into_versions(self) -> (r: Vec<(String, Option<CrateVersion>)>)
        requires
            self.wf(),
        ensures
            distinct_keys(r@),
            map_of(r@) == self.view().versions,
    {
        self.versions.into_entries()
    }
}

/// The batch after looking up each name in turn, the cache answering with the
/// state at the same index.
pub open spec fn after_lookups(b: BatchModel, names: Seq<Seq<char>>, states: Seq<CacheState>) -> BatchModel
    decreases names.len(),
{
    if names.len() == 0 || states.len() == 0 {
        b
    } else {
        after_lookup(
            after_lookups(b, names.drop_last(), states.drop_last()),
            names.last(),
            states.last(),
        )
    }
}

/// The batch after fetch results came back for each name in turn.
pub open spec fn after_fetches(
    b: BatchModel,
    names: Seq<Seq<char>>,
    outcomes: Seq<Option<VersionModel>>,
) -> BatchModel
    decreases names.len(),
{
    if names.len() == 0 || outcomes.len() == 0 {
        b
    } else {
        after_fetch(
            after_fetches(b, names.drop_last(), outcomes.drop_last()),
            names.last(),
            outcomes.last(),
        )
    }
}

/// A version put in the cache is reported as known until it expires, and
/// looking the name up then sends out no fetch.
pub proof fn law_put_then_get(
    cache: Map<Seq<char>, FetchModel>,
    b: BatchModel,
    name: Seq<char>,
    v: VersionModel,
    expires_at: Timestamp,
    now: Timestamp,
)
    requires
        now < expires_at,
    ensures
        state_of(
            record_in(cache.insert(name, FetchModel { version: Some(v), expires_at }), name),
            now,
        ) == CacheState::Known(v),
        after_lookup(b, name, CacheState::Known(v)).dispatched == b.dispatched,
        after_lookup(b, name, CacheState::Known(v)).versions[name] == Some(v),
{
}

/// When no name of a batch is cached, one fetch goes out per name. Once the
/// result for each name has come back (each name once, in whatever order),
/// the batch holds exactly the requested names, each with the result of its
/// own fetch: `None` where nothing was found.
pub proof fn law_misses_all_fetched(
    names: Seq<Seq<char>>,
    states: Seq<CacheState>,
    done: Seq<Seq<char>>,
    outcomes: Seq<Option<VersionModel>>,
)
    requires
        states.len() == names.len(),
        forall|i: int| 0 <= i < states.len() ==> states[i] is Unknown,
        outcomes.len() == done.len(),
        forall|i: int, j: int| 0 <= i < j < done.len() ==> done[i] != done[j],
        forall|i: int| 0 <= i < names.len() ==> done.contains(#[trigger] names[i]),
        forall|j: int| 0 <= j < done.len() ==> names.contains(#[trigger] done[j]),
    ensures
        ({
            let looked_up = after_lookups(
                BatchModel { versions: Map::empty(), dispatched: 0, received: 0 },
                names,
                states,
            );
            let fetched = after_fetches(looked_up, done, outcomes);
            &&& looked_up.dispatched == names.len()
            &&& looked_up.versions == Map::<Seq<char>, Option<VersionModel>>::empty()
            &&& fetched.received == done.len()
            &&& fetched.versions.dom() == names.to_set()
            &&& forall|j: int| 0 <= j < done.len() ==> fetched.versions[#[trigger] done[j]]
                == outcomes[j]
        }),
{
    let b0 = BatchModel { versions: Map::empty(), dispatched: 0, received: 0 };
    lemma_unknown_lookups(b0, names, states);
    let b = after_lookups(b0, names, states);
    lemma_fetch_dom(b, done, outcomes);
    assert forall|x: Seq<char>| done.to_set().contains(x) <==> names.to_set().contains(x) by {
        if done.contains(x) {
            let j = choose|j: int| 0 <= j < done.len() && done[j] == x;
            assert(names.contains(done[j]));
        }
        if names.contains(x) {
            let i = choose|i: int| 0 <= i < names.len() && names[i] == x;
            assert(done.contains(names[i]));
        }
    }
    assert(b.versions.dom().union(done.to_set()) =~= names.to_set());
    assert forall|j: int| 0 <= j < done.len() implies after_fetches(b, done, outcomes).versions[
        #[trigger] done[j]] == outcomes[j] by {
        lemma_fetch_value(b, done, outcomes, j);
    }
}

proof fn lemma_fetch_dom(b: BatchModel, done: Seq<Seq<char>>, outcomes: Seq<Option<VersionModel>>)
    requires
        outcomes.len() == done.len(),
    ensures
        after_fetches(b, done, outcomes).versions.dom() == b.versions.dom().union(done.to_set()),
        after_fetches(b, done, outcomes).received == b.received + done.len(),
    decreases done.len(),
{
    if done.len() > 0 {
        lemma_fetch_dom(b, done.drop_last(), outcomes.drop_last());
        assert(done =~= done.drop_last().push(done.last()));
        done.drop_last().lemma_push_to_set_commute(done.last());
        assert(after_fetches(b, done, outcomes).versions.dom() =~= b.versions.dom().union(
            done.to_set(),
        ));
    } else {
        assert(done.to_set() =~= Set::<Seq<char>>::empty());
        assert(b.versions.dom().union(done.to_set()) =~= b.versions.dom());
    }
}

proof fn lemma_fetch_value(
    b: BatchModel,
    done: Seq<Seq<char>>,
    outcomes: Seq<Option<VersionModel>>,
    j: int,
)
    requires
        outcomes.len() == done.len(),
        0 <= j < done.len(),
        forall|i: int, k: int| 0 <= i < k < done.len() ==> done[i] != done[k],
    ensures
        after_fetches(b, done, outcomes).versions[done[j]] == outcomes[j],
    decreases done.len(),
{
    if j < done.len() - 1 {
        lemma_fetch_value(b, done.drop_last(), outcomes.drop_last(), j);
        assert(done.drop_last()[j] == done[j]);
        assert(outcomes.drop_last()[j] == outcomes[j]);
        assert(done[j] != done.last());
    }
}

proof fn lemma_unknown_lookups(b: BatchModel, names: Seq<Seq<char>>, states: Seq<CacheState>)
    requires
        states.len() == names.len(),
        forall|i: int| 0 <= i < states.len() ==> states[i] is Unknown,
    ensures
        after_lookups(b, names, states).dispatched == b.dispatched + names.len(),
        after_lookups(b, names, states).versions == b.versions,
        after_lookups(b, names, states).received == b.received,
    decreases names.len(),
{
    if names.len() > 0 {
        lemma_unknown_lookups(b, names.drop_last(), states.drop_last());
        assert(states.last() is Unknown);
    }
}

/// A fetch that found nothing is cached as such: until a day has passed,
/// looking the name up again gives `None` and sends out no fetch.
pub proof fn law_negative_result_cached(
    cache: Map<Seq<char>, FetchModel>,
    b: BatchModel,
    name: Seq<char>,
    now: Timestamp,
    later: Timestamp,
)
    requires
        later < saturating_add(now, DAY),
    ensures
        state_of(record_in(cache_after_fetch(cache, name, None, now), name), later)
            == CacheState::DoesNotExist,
        after_lookup(b, name, CacheState::DoesNotExist).dispatched == b.dispatched,
        after_lookup(b, name, CacheState::DoesNotExist).versions[name] == None::<VersionModel>,
{
}

} // verus!
