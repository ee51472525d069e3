use vstd::prelude::*;

use crate::cache::version_model;
use crate::parse::{Dependency, DependencyVersion, Fact, VersionFact};
use crate::text::{chars_of, has_at};
use crate::version::{requirement_matches, CrateVersion, VersionModel};

verus! {

/// How a declared version compares with the latest one.
#[derive(Debug, Clone, Copy, PartialEq, Eq, Structural)]
pub enum UpdateStatus {
    /// The requirement admits the latest version.
    UpToDate,
    /// The requirement does not admit it, or is not complete yet.
    NeedsUpdate,
    /// No latest version is known.
    Unknown,
}

pub open spec fn status_of(version: VersionFact, newest: Option<VersionModel>) -> UpdateStatus {
    match newest {
        None => UpdateStatus::Unknown,
        Some(n) => match version {
            VersionFact::Complete { text, .. } => if requirement_matches(text, n) {
                UpdateStatus::UpToDate
            } else {
                UpdateStatus::NeedsUpdate
            },
            VersionFact::Partial { .. } => UpdateStatus::NeedsUpdate,
        },
    }
}

/// Compares a declared version with the latest one, if that is known.
pub fn update_status(version: &DependencyVersion, newest: &Option<CrateVersion>) -> (r:
    UpdateStatus)
    ensures
        r == status_of(version@, version_model(*newest)),
{
    match newest {
        None => UpdateStatus::Unknown,
        Some(n) => match version {
            DependencyVersion::Complete { version, .. } => if version.matches(n) {
                UpdateStatus::UpToDate
            } else {
                UpdateStatus::NeedsUpdate
            },
            DependencyVersion::Partial { .. } => UpdateStatus::NeedsUpdate,
        },
    }
}

/// Whether a fact is what the cursor at `line`, `character` is on: a key
/// being typed on that line, or a version whose range holds the cursor.
pub open spec fn under_cursor(f: Fact, line: u32, character: u32) -> bool {
    match f {
        Fact::Partial { line: l, .. } => l == line,
        Fact::WithVersion { version, .. } => version.range().start.line == line
            && version.range().start.character <= character && version.range().end.character
            >= character,
        Fact::Other { .. } => false,
    }
}

/// The first dependency that the cursor is on.
pub fn dependency_at(deps: &Vec<Dependency>, line: u32, character: u32) -> (r: Option<usize>)
    ensures
        match r {
            Some(i) => i < deps@.len() && under_cursor(deps@[i as int]@, line, character) && forall|
                j: int,
            | 0 <= j < i ==> !under_cursor(#[trigger] deps@[j]@, line, character),
            None => forall|j: int|
                0 <= j < deps@.len() ==> !under_cursor(#[trigger] deps@[j]@, line, character),
        },
{
    let mut i: usize = 0;
    while i < deps.len()
        invariant
            i <= deps@.len(),
            forall|j: int| 0 <= j < i ==> !under_cursor(#[trigger] deps@[j]@, line, character),
        decreases deps@.len() - i,
    {
        let hit = match &deps[i] {
            Dependency::Partial { line: l, .. } => *l == line,
            Dependency::WithVersion(d) => {
                let range = d.version.range();
                range.start.line == line && range.start.character <= character
                    && range.end.character >= character
            },
            Dependency::Other { .. } => false,
        };
        if hit {
            return Some(i);
        }
        i = i + 1;
    }
    None
}

pub open spec fn is_operator(c: char) -> bool {
    c == '<' || c == '>' || c == '=' || c == '^' || c == '~'
}

/// Where the text after a run of leading comparison operators starts.
pub open spec fn operators_end(s: Seq<char>, i: int) -> int
    decreases s.len() - i,
{
    if 0 <= i < s.len() && is_operator(s[i]) {
        operators_end(s, i + 1)
    } else {
        i
    }
}

/// What completing a version inserts: the part of the latest version that
/// follows what was already typed (comparison operators aside), or the whole
/// latest version when what was typed does not begin it.
pub open spec fn completion_of(typed: Seq<char>, newest: Seq<char>) -> Seq<char> {
    let p = typed.subrange(operators_end(typed, 0), typed.len() as int);
    if has_at(newest, 0, p) {
        newest.subrange(p.len() as int, newest.len() as int)
    } else {
        newest
    }
}

/// The text to insert when completing the version `typed` to `newest`.
pub fn completion_text(typed: &str, newest: &str) -> (r: String)
    ensures
        r@ == completion_of(typed@, newest@),
{
    let t = chars_of(typed);
    let n = chars_of(newest);
    let mut a: usize = 0;
    while a < t.len() && (t[a] == '<' || t[a] == '>' || t[a] == '=' || t[a] == '^' || t[a] == '~')
        invariant
            a <= t@.len(),
            operators_end(t@, a as int) == operators_end(t@, 0),
        decreases t@.len() - a,
    {
        a = a + 1;
    }
    assert(operators_end(t@, a as int) == a);
    let k = t.len() - a;
    let ghost p = typed@.subrange(a as int, typed@.len() as int);
    if k > n.len() {
        assert(!has_at(newest@, 0, p));
        return newest.to_string();
    }
    let mut j: usize = 0;
    while j < k
        invariant
            j <= k <= n@.len(),
            a + k == t.len(),
            p == typed@.subrange(a as int, typed@.len() as int),
            operators_end(typed@, 0) == a,
            t@ == typed@,
            n@ == newest@,
            forall|q: int| 0 <= q < j ==> n@[q] == t@[a + q],
        decreases k - j,
    {
        if n[j] != t[a + j] {
            assert(newest@.subrange(0, k as int)[j as int] != p[j as int]);
            assert(newest@.subrange(0, k as int) != p);
            assert(p.len() == k);
            return newest.to_string();
        }
        j = j + 1;
    }
    assert(newest@.subrange(0, k as int) =~= p);
    newest.substring_char(k, n.len()).to_string()
}

} // verus!
