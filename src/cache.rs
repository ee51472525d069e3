use vstd::prelude::*;

use crate::table::{Model, Table};
use crate::version::{CrateVersion, VersionModel};

verus! {

/// A moment, in nanoseconds since the Unix epoch.
pub type Timestamp = i128;

/// One day, in nanoseconds.
pub const DAY: i128 = 86_400_000_000_000;

pub open spec fn version_model(v: Option<CrateVersion>) -> Option<VersionModel> {
    match v {
        Some(x) => Some(x@),
        None => None,
    }
}

pub fn copy_version(v: &Option<CrateVersion>) -> (r: Option<CrateVersion>)
    ensures
        version_model(r) == version_model(*v),
{
    match v {
        Some(x) => Some(x.duplicate()),
        None => None,
    }
}

/// What a lookup of a crate found: its latest version, or that it has none.
/// The record stops counting at `expires_at`.
pub struct Fetch {
    pub version: Option<CrateVersion>,
    pub expires_at: Timestamp,
}

pub struct FetchModel {
    pub version: Option<VersionModel>,
    pub expires_at: Timestamp,
}

impl Model for Fetch {
    type M = FetchModel;

    open spec fn model(&self) -> FetchModel {
        FetchModel { version: version_model(self.version), expires_at: self.expires_at }
    }

    fn copy_of(&self) -> (r: Fetch) {
        Fetch { version: copy_version(&self.version), expires_at: self.expires_at }
    }
}

impl Model for Option<CrateVersion> {
    type M = Option<VersionModel>;

    open spec fn model(&self) -> Option<VersionModel> {
        version_model(*self)
    }

    fn copy_of(&self) -> (r: Option<CrateVersion>) {
        copy_version(self)
    }
}

/// What the cache knows of a crate.
pub enum CachedVersion {
    /// Found, with this latest version.
    Known(CrateVersion),
    /// Nothing usable is cached: the registry has to be asked.
    Unknown,
    /// Looked up, and found to have no version.
    DoesNotExist,
}

pub enum CacheState {
    Known(VersionModel),
    Unknown,
    DoesNotExist,
}

impl View for CachedVersion {
    type V = CacheState;

    open spec fn view(&self) -> CacheState {
        match self {
            CachedVersion::Known(v) => CacheState::Known(v@),
            CachedVersion::Unknown => CacheState::Unknown,
            CachedVersion::DoesNotExist => CacheState::DoesNotExist,
        }
    }
}

/// What a record says at `now`: nothing once it has expired.
pub open spec fn state_of(record: Option<FetchModel>, now: Timestamp) -> CacheState {
    match record {
        Some(f) => if now < f.expires_at {
            match f.version {
                Some(v) => CacheState::Known(v),
                None => CacheState::DoesNotExist,
            }
        } else {
            CacheState::Unknown
        },
        None => CacheState::Unknown,
    }
}

/// The record a map holds under a name, if any.
pub open spec fn record_in(m: Map<Seq<char>, FetchModel>, name: Seq<char>) -> Option<FetchModel> {
    if m.contains_key(name) {
        Some(m[name])
    } else {
        None
    }
}

impl CachedVersion {
    /// What a record says at `now`.
    pub fn from_record(f: &Fetch, now: Timestamp) -> (r: CachedVersion)
        ensures
            r@ == state_of(Some(f.model()), now),
    {
        if now < f.expires_at {
            match &f.version {
                Some(v) => CachedVersion::Known(v.duplicate()),
                None => CachedVersion::DoesNotExist,
            }
        } else {
            CachedVersion::Unknown
        }
    }
}

/// How long a result is cached for: a day, whether a version was found or
/// not.
pub fn time_to_live(version: &Option<CrateVersion>) -> (r: i128)
    ensures
        r == DAY,
{
    DAY
}

pub open spec fn saturating_add(a: i128, b: i128) -> i128 {
    if a + b > i128::MAX {
        i128::MAX
    } else if a + b < i128::MIN {
        i128::MIN
    } else {
        (a + b) as i128
    }
}

/// `now` moved on by `ttl`, held at the ends of the range.
pub fn expiry(now: Timestamp, ttl: i128) -> (r: Timestamp)
    ensures
        r == saturating_add(now, ttl),
{
    if ttl >= 0 {
        if now > i128::MAX - ttl {
            i128::MAX
        } else {
            now + ttl
        }
    } else {
        if now < i128::MIN - ttl {
            i128::MIN
        } else {
            now + ttl
        }
    }
}

/// The record of a fetch result made at `now`, which counts for `ttl`.
pub fn fetch_record(version: Option<CrateVersion>, now: Timestamp, ttl: i128) -> (r: Fetch)
    ensures
        r.model() == (FetchModel {
            version: version_model(version),
            expires_at: saturating_add(now, ttl),
        }),
{
    Fetch { version, expires_at: expiry(now, ttl) }
}

/// The in-memory index of looked-up crates. Each record is also kept on
/// disk by the caller; `promote` brings one read from there back in.
pub struct CrateCache {
    crates: Table<Fetch>,
}

impl CrateCache {
    pub closed spec fn view(&self) -> Map<Seq<char>, FetchModel> {
        self.crates.view()
    }

    pub closed spec fn wf(&self) -> bool {
        self.crates.wf()
    }

    pub fn new() -> (r: CrateCache)
        ensures
            r.wf(),
            r.view() == Map::<Seq<char>, FetchModel>::empty(),
    {
        CrateCache { crates: Table::new() }
    }

    /// What the index says of a crate at `now`; a record counts until its
    /// expiry.
    pub fn get(&self, crate_name: &str, now: Timestamp) -> (r: CachedVersion)
        ensures
            r@ == state_of(record_in(self.view(), crate_name@), now),
    {
        match self.crates.get(crate_name) {
            Some(f) => CachedVersion::from_record(&f, now),
            None => CachedVersion::Unknown,
        }
    }

    /// Records a result; it replaces whatever was recorded for the name.
    pub fn put(&mut self, crate_name: &str, version: Option<CrateVersion>, expires_at: Timestamp)
        requires
            old(self).wf(),
        ensures
            final(self).wf(),
            final(self).view() == old(self).view().insert(
                crate_name@,
                FetchModel { version: version_model(version), expires_at },
            ),
    {
        self.crates.insert(crate_name, Fetch { version, expires_at });
    }

    /// Takes a record read from disk: one still valid at `now` is put in the
    /// index and its state returned; otherwise the crate stays unknown.
    pub fn promote(&mut self, crate_name: &str, record: Option<Fetch>, now: Timestamp) -> (r:
        CachedVersion)
        requires
            old(self).wf(),
        ensures
            final(self).wf(),
            r@ == state_of(
                match record {
                    Some(f) => Some(f.model()),
                    None => None,
                },
                now,
            ),
            match record {
                Some(f) => if now < f.expires_at {
                    final(self).view() == old(self).view().insert(crate_name@, f.model())
                } else {
                    final(self).view() == old(self).view()
                },
                None => final(self).view() == old(self).view(),
            },
    {
        match record {
            Some(f) => {
                if now < f.expires_at {
                    let r = CachedVersion::from_record(&f, now);
                    self.crates.insert(crate_name, f);
                    r
                } else {
                    CachedVersion::Unknown
                }
            },
            None => CachedVersion::Unknown,
        }
    }
}

impl Default for CrateCache {
    fn default() -> (r: CrateCache)
        ensures
            r.wf(),
            r.view() == Map::<Seq<char>, FetchModel>::empty(),
    {
        CrateCache::new()
    }
}

} // verus!
