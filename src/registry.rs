use vstd::prelude::*;

use crate::version::{parsed_version, precedes, CrateVersion, VersionModel};

verus! {

/// Why a registry could not give a crate's latest version.
#[derive(Debug, Clone, PartialEq, Eq)]
pub enum CrateError {
    /// Every release was yanked, or there were none.
    NoVersionsFound,
    /// The name cannot be looked up (it is empty).
    InvalidCrateName(String),
    /// The registry could not be reached.
    Transport(String),
    /// The registry's answer could not be read.
    Deserialization(String),
}

/// Where the sparse index keeps the file of a crate, bucketed by its name:
/// `1/a`, `2/ab`, `3/a/abc`, `ab/cd/abcd`.
pub open spec fn index_path_of(name: Seq<char>) -> Option<Seq<char>> {
    if name.len() == 0 {
        None
    } else if name.len() == 1 {
        Some("1/"@ + name)
    } else if name.len() == 2 {
        Some("2/"@ + name)
    } else if name.len() == 3 {
        Some("3/"@ + name.subrange(0, 1) + "/"@ + name)
    } else {
        Some(name.subrange(0, 2) + "/"@ + name.subrange(2, 4) + "/"@ + name)
    }
}

/// The path of a crate's file in the sparse index; an empty name is refused
/// before anything is fetched.
pub fn index_path(name: &str) -> (r: Result<String, CrateError>)
    ensures
        match r {
            Ok(p) => index_path_of(name@) == Some(p@),
            Err(e) => index_path_of(name@) is None && (e matches CrateError::InvalidCrateName(n)
                && n@ == name@),
        },
{
    let n: usize = name.unicode_len();
    if n == 0 {
        return Err(CrateError::InvalidCrateName(name.to_string()));
    }
    let mut p: String;
    if n == 1 {
        p = String::from_str("1/");
    } else if n == 2 {
        p = String::from_str("2/");
    } else if n == 3 {
        p = String::from_str("3/");
        p.append(name.substring_char(0, 1));
        p.append("/");
    } else {
        p = name.substring_char(0, 2).to_string();
        p.append("/");
        p.append(name.substring_char(2, 4));
        p.append("/");
    }
    p.append(name);
    Ok(p)
}

/// One release listed in a crate's index file.
pub struct Release {
    pub version: CrateVersion,
    pub yanked: bool,
}

/// One line of a crate's index file, as text: the version and whether it was
/// yanked.
pub struct IndexEntry {
    pub vers: String,
    pub yanked: bool,
}

/// The versions of the releases that were not yanked, in order.
pub open spec fn unyanked(rs: Seq<(VersionModel, bool)>) -> Seq<VersionModel>
    decreases rs.len(),
{
    if rs.len() == 0 {
        seq![]
    } else if rs.last().1 {
        unyanked(rs.drop_last())
    } else {
        unyanked(rs.drop_last()).push(rs.last().0)
    }
}

/// The versions that carry no pre-release tag, in order.
pub open spec fn stable(vs: Seq<VersionModel>) -> Seq<VersionModel>
    decreases vs.len(),
{
    if vs.len() == 0 {
        seq![]
    } else if vs.last().pre.len() == 0 {
        stable(vs.drop_last()).push(vs.last())
    } else {
        stable(vs.drop_last())
    }
}

/// The greatest of some versions in semver's order; of equal ones, the last.
pub open spec fn greatest(vs: Seq<VersionModel>) -> VersionModel
    recommends
        vs.len() > 0,
    decreases vs.len(),
{
    if vs.len() <= 1 {
        vs[0]
    } else {
        let m = greatest(vs.drop_last());
        if precedes(vs.last(), m) {
            m
        } else {
            vs.last()
        }
    }
}

/// The release to report as a crate's latest: the greatest stable one that was
/// not yanked, else the greatest one that was not yanked.
pub open spec fn latest_of(rs: Seq<(VersionModel, bool)>) -> Option<VersionModel> {
    let live = unyanked(rs);
    if stable(live).len() > 0 {
        Some(greatest(stable(live)))
    } else if live.len() > 0 {
        Some(greatest(live))
    } else {
        None
    }
}

pub open spec fn releases_of(rs: Seq<Release>) -> Seq<(VersionModel, bool)> {
    rs.map_values(|r: Release| (r.version@, r.yanked))
}

/// Takes the greatest version out of a non-empty list.
fn take_greatest(vs: Vec<CrateVersion>) -> (r: CrateVersion)
    requires
        vs@.len() > 0,
    ensures
        r@ == greatest(vs@.map_values(|v: CrateVersion| v@)),
{
    let ghost models = vs@.map_values(|v: CrateVersion| v@);
    let mut vs = vs;
    let n = vs.len();
    let mut best = vs.remove(0);
    let mut i: usize = 1;
    while i < n
        invariant
            1 <= i <= n,
            n == models.len(),
            vs@.len() == n - 1,
            forall|j: int| 0 <= j < n - 1 ==> (#[trigger] vs@[j])@ == models[j + 1],
            best@ == greatest(models.take(i as int)),
        decreases n - i,
    {
        let v = vs[i - 1].duplicate();
        proof {
            let t = models.take(i + 1);
            assert(t.drop_last() =~= models.take(i as int));
            assert(t.last() == models[i as int]);
        }
        if !v.lt(&best) {
            best = v;
        }
        i = i + 1;
    }
    assert(models.take(n as int) =~= models);
    best
}

/// The latest version among a crate's releases: yanked releases are left
/// out, a stable release is preferred over a pre-release, and of those left
/// the greatest in semver's order is taken.
pub fn latest_release(releases: Vec<Release>) -> (r: Result<CrateVersion, CrateError>)
    ensures
        match r {
            Ok(v) => latest_of(releases_of(releases@)) == Some(v@),
            Err(e) => latest_of(releases_of(releases@)) is None && e is NoVersionsFound,
        },
{
    let ghost rs = releases_of(releases@);
    let mut live: Vec<CrateVersion> = Vec::new();
    let mut stable_ones: Vec<CrateVersion> = Vec::new();
    let mut releases = releases;
    let ghost all = releases@;
    let n = releases.len();
    let mut i: usize = 0;
    while i < n
        invariant
            n == all.len() == rs.len(),
            rs == releases_of(all),
            i <= n,
            releases@ == all.subrange(i as int, n as int),
            live@.map_values(|v: CrateVersion| v@) == unyanked(rs.take(i as int)),
            stable_ones@.map_values(|v: CrateVersion| v@) == stable(unyanked(rs.take(i as int))),
        decreases n - i,
    {
        let rel = releases.remove(0);
        proof {
            assert(rel == all[i as int]);
            assert(rs.take(i + 1).drop_last() =~= rs.take(i as int));
            assert(rs.take(i + 1).last() == (rel.version@, rel.yanked));
        }
        if !rel.yanked {
            let ghost before_live = live@;
            let ghost before_stable = stable_ones@;
            if rel.version.is_stable() {
                stable_ones.push(rel.version.duplicate());
                assert(stable_ones@.map_values(|v: CrateVersion| v@) =~= before_stable.map_values(
                    |v: CrateVersion| v@,
                ).push(rel.version@));
            }
            live.push(rel.version);
            assert(live@.map_values(|v: CrateVersion| v@) =~= before_live.map_values(
                |v: CrateVersion| v@,
            ).push(rel.version@));
            proof {
                let u = unyanked(rs.take(i + 1));
                assert(u.drop_last() =~= unyanked(rs.take(i as int)));
            }
        }
        i = i + 1;
        assert(releases@ =~= all.subrange(i as int, n as int));
    }
    assert(rs.take(n as int) =~= rs);
    if stable_ones.len() > 0 {
        Ok(take_greatest(stable_ones))
    } else if live.len() > 0 {
        Ok(take_greatest(live))
    } else {
        Err(CrateError::NoVersionsFound)
    }
}

/// Reads the lines of a crate's index file and picks its latest release. A
/// version that semver does not accept makes the whole file unreadable.
pub fn latest_from_index(entries: &Vec<IndexEntry>) -> (r: Result<CrateVersion, CrateError>)
    ensures
        (exists|j: int| 0 <= j < entries@.len() && parsed_version(entries@[j].vers@) is None)
            <==> r matches Err(CrateError::Deserialization(_)),
        (forall|j: int| 0 <= j < entries@.len() ==> parsed_version(entries@[j].vers@) is Some)
            ==> match r {
            Ok(v) => latest_of(index_releases(entries@)) == Some(v@),
            Err(e) => latest_of(index_releases(entries@)) is None && e is NoVersionsFound,
        },
{
    let mut releases: Vec<Release> = Vec::new();
    let mut i: usize = 0;
    while i < entries.len()
        invariant
            i <= entries@.len(),
            releases@.len() == i,
            forall|j: int| 0 <= j < i ==> parsed_version(entries@[j].vers@) == Some(
                (#[trigger] releases@[j]).version@,
            ) && releases@[j].yanked == entries@[j].yanked,
        decreases entries@.len() - i,
    {
        match CrateVersion::parse(entries[i].vers.as_str()) {
            Some(v) => releases.push(Release { version: v, yanked: entries[i].yanked }),
            None => {
                return Err(CrateError::Deserialization(entries[i].vers.clone()));
            },
        }
        i = i + 1;
    }
    assert forall|j: int| 0 <= j < entries@.len() implies parsed_version(
        entries@[j].vers@,
    ) is Some by {
        assert(parsed_version(entries@[j].vers@) == Some(releases@[j].version@));
    }
    assert(releases_of(releases@) =~= index_releases(entries@));
    latest_release(releases)
}

/// The releases that index lines describe, where every version parses.
pub open spec fn index_releases(es: Seq<IndexEntry>) -> Seq<(VersionModel, bool)> {
    es.map_values(|e: IndexEntry| (parsed_version(e.vers@)->0, e.yanked))
}

} // verus!
