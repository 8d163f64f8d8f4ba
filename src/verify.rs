//! Integrity checks of `INPUT` against the manifest, over the whole lockfile tree.

use vstd::prelude::*;
use vstd::string::*;

use crate::errors::{CliError, LalResult};
use crate::lockfile::{closure, find_all_dependencies, usage_set, DependencyUsage, Lockfile};
use crate::manifest::{lemma_lookup_none, lookup, Manifest};
use crate::numbers::{is_integer_version, parse_u32, parse_u32_spec};
use crate::text::same_text;

verus! {

/// `INPUT` (recorded by the children of `lock`) holds a component named `n`.
pub open spec fn has_child(lock: Lockfile, n: Seq<char>) -> bool {
    exists|i: int| 0 <= i < lock.dependencies.len() && #[trigger] lock.dependencies@[i].name@ == n
}

/// Every dependency of the manifest is in `INPUT`.
pub open spec fn none_missing(m: Manifest, lock: Lockfile) -> bool {
    forall|n: Seq<char>| #[trigger] m.version_of(n) is Some ==> has_child(lock, n)
}

/// The `i`-th component of `INPUT` is not a dependency of the manifest.
pub open spec fn extraneous_at(m: Manifest, lock: Lockfile, i: int) -> bool {
    m.version_of(lock.dependencies@[i].name@) is None
}

/// The `i`-th component of `INPUT` is not at the integer version the manifest names.
pub open spec fn wrong_version_at(m: Manifest, lock: Lockfile, i: int) -> bool {
    parse_u32_spec(lock.dependencies@[i].version@) != m.version_of(lock.dependencies@[i].name@)
}

/// Two nodes named `n` in the closure differ in version (or, with `by_env`, in
/// environment).
pub open spec fn conflict(lock: Lockfile, n: Seq<char>, by_env: bool) -> bool {
    exists|a: (Seq<char>, Seq<char>, Seq<char>), b: (Seq<char>, Seq<char>, Seq<char>)|
        #[trigger] closure(lock).contains(a) && #[trigger] closure(lock).contains(b) && a.0 == n && b.0 == n
            && (if by_env { a.2 != b.2 } else { a.1 != b.1 })
}

/// A node named `n` in the closure has a version that is not an integer.
pub open spec fn stashed(lock: Lockfile, n: Seq<char>) -> bool {
    exists|a: (Seq<char>, Seq<char>, Seq<char>)| #[trigger] closure(lock).contains(a) && a.0 == n && !is_integer_version(a.1)
}

/// The `i`-th component of `INPUT` was built in another environment than `env`.
pub open spec fn env_mismatch_at(lock: Lockfile, env: Seq<char>, i: int) -> bool {
    lock.dependencies@[i].environment@ != env
}

pub open spec fn check_extraneous(m: Manifest, lock: Lockfile) -> bool {
    forall|i: int| 0 <= i < lock.dependencies.len() ==> !#[trigger] extraneous_at(m, lock, i)
}

pub open spec fn check_versions(m: Manifest, lock: Lockfile) -> bool {
    forall|i: int| 0 <= i < lock.dependencies.len() ==> !#[trigger] wrong_version_at(m, lock, i)
}

pub open spec fn check_single(lock: Lockfile, by_env: bool) -> bool {
    forall|n: Seq<char>| !#[trigger] conflict(lock, n, by_env)
}

pub open spec fn check_env(lock: Lockfile, env: Seq<char>) -> bool {
    forall|i: int| 0 <= i < lock.dependencies.len() ==> !#[trigger] env_mismatch_at(lock, env, i)
}

pub open spec fn check_no_stash(lock: Lockfile) -> bool {
    forall|n: Seq<char>| !#[trigger] stashed(lock, n)
}

fn find_child(lock: &Lockfile, name: &str) -> (r: bool)
    ensures
        r == has_child(*lock, name@),
{
    let mut i: usize = 0;
    while i < lock.dependencies.len()
        invariant
            0 <= i <= lock.dependencies@.len(),
            forall|k: int| 0 <= k < i ==> #[trigger] lock.dependencies@[k].name@ != name@,
        decreases lock.dependencies@.len() - i,
    {
        if same_text(lock.dependencies[i].name.as_str(), name) {
            return true;
        }
        i = i + 1;
    }
    false
}

fn first_conflict(u: &DependencyUsage, by_env: bool) -> (r: Option<usize>)
    ensures
        r matches Some(k) ==> k < u@.len() && exists|j: int| 0 <= j < u@.len() && u@[j].0@ == u@[k as int].0@
            && (if by_env { u@[j].2@ != u@[k as int].2@ } else { u@[j].1@ != u@[k as int].1@ }),
        r is None ==> forall|a: int, b: int| 0 <= a < u@.len() && 0 <= b < u@.len() && #[trigger] u@[a].0@ == #[trigger] u@[b].0@
            ==> (if by_env { u@[a].2@ == u@[b].2@ } else { u@[a].1@ == u@[b].1@ }),
{
    let mut a: usize = 0;
    while a < u.len()
        invariant
            0 <= a <= u@.len(),
            forall|x: int, y: int| 0 <= x < a && 0 <= y < u@.len() && #[trigger] u@[x].0@ == #[trigger] u@[y].0@
                ==> (if by_env { u@[x].2@ == u@[y].2@ } else { u@[x].1@ == u@[y].1@ }),
        decreases u@.len() - a,
    {
        let mut b: usize = 0;
        while b < u.len()
            invariant
                0 <= a < u@.len(),
                0 <= b <= u@.len(),
                forall|x: int, y: int| 0 <= x < a && 0 <= y < u@.len() && #[trigger] u@[x].0@ == #[trigger] u@[y].0@
                    ==> (if by_env { u@[x].2@ == u@[y].2@ } else { u@[x].1@ == u@[y].1@ }),
                forall|y: int| 0 <= y < b && #[trigger] u@[y].0@ == u@[a as int].0@
                    ==> (if by_env { u@[a as int].2@ == u@[y].2@ } else { u@[a as int].1@ == u@[y].1@ }),
            decreases u@.len() - b,
        {
            if same_text(u[a].0.as_str(), u[b].0.as_str()) {
                let differ = if by_env {
                    !same_text(u[a].2.as_str(), u[b].2.as_str())
                } else {
                    !same_text(u[a].1.as_str(), u[b].1.as_str())
                };
                if differ {
                    return Some(a);
                }
            }
            b = b + 1;
        }
        a = a + 1;
    }
    None
}

fn first_stashed(u: &DependencyUsage) -> (r: Option<usize>)
    ensures
        r matches Some(k) ==> k < u@.len() && !is_integer_version(u@[k as int].1@),
        r is None ==> forall|a: int| 0 <= a < u@.len() ==> is_integer_version(#[trigger] u@[a].1@),
{
    let mut a: usize = 0;
    while a < u.len()
        invariant
            0 <= a <= u@.len(),
            forall|x: int| 0 <= x < a ==> is_integer_version(#[trigger] u@[x].1@),
        decreases u@.len() - a,
    {
        if parse_u32(u[a].1.as_str()).is_none() {
            return Some(a);
        }
        a = a + 1;
    }
    None
}

/// Checks `INPUT`, recorded by the children of `lock`, against the manifest and the
/// requested environment, and reports the first violation in this order: a
/// dependency missing, a component not in the manifest, a wrong version, several
/// versions or several environments of one component in the tree, a component
/// built in another environment, a stashed version in the tree.
pub fn verify(m: &Manifest, lock: &Lockfile, env: &str) -> (r: LalResult<()>)
    requires
        m.wf(),
    ensures
        !none_missing(*m, *lock) ==> r == Err::<(), CliError>(CliError::MissingDependencies),
        none_missing(*m, *lock) && !check_extraneous(*m, *lock) ==> (r matches Err(CliError::ExtraneousDependencies(n))
            && exists|i: int| 0 <= i < lock.dependencies.len() && extraneous_at(*m, *lock, i) && lock.dependencies@[i].name@ == n@),
        none_missing(*m, *lock) && check_extraneous(*m, *lock) && !check_versions(*m, *lock) ==> (r matches Err(CliError::InvalidVersion(n))
            && exists|i: int| 0 <= i < lock.dependencies.len() && wrong_version_at(*m, *lock, i) && lock.dependencies@[i].name@ == n@),
        none_missing(*m, *lock) && check_extraneous(*m, *lock) && check_versions(*m, *lock) && !check_single(*lock, false)
            ==> (r matches Err(CliError::MultipleVersions(n)) && conflict(*lock, n@, false)),
        none_missing(*m, *lock) && check_extraneous(*m, *lock) && check_versions(*m, *lock) && check_single(*lock, false)
            && !check_single(*lock, true) ==> (r matches Err(CliError::MultipleEnvironments(n)) && conflict(*lock, n@, true)),
        none_missing(*m, *lock) && check_extraneous(*m, *lock) && check_versions(*m, *lock) && check_single(*lock, false)
            && check_single(*lock, true) && !check_env(*lock, env@) ==> (r matches Err(CliError::EnvironmentMismatch(n, e))
            && exists|i: int| 0 <= i < lock.dependencies.len() && env_mismatch_at(*lock, env@, i) && lock.dependencies@[i].name@ == n@
                && lock.dependencies@[i].environment@ == e@),
        none_missing(*m, *lock) && check_extraneous(*m, *lock) && check_versions(*m, *lock) && check_single(*lock, false)
            && check_single(*lock, true) && check_env(*lock, env@) && !check_no_stash(*lock)
            ==> (r matches Err(CliError::NonGlobalDependencies(n)) && stashed(*lock, n@)),
        r is Ok <==> none_missing(*m, *lock) && check_extraneous(*m, *lock) && check_versions(*m, *lock) && check_single(*lock, false)
            && check_single(*lock, true) && check_env(*lock, env@) && check_no_stash(*lock),
{
    // 1. every dependency of the manifest is in INPUT
    let mut k: usize = 0;
    while k < m.dependencies.len()
        invariant
            0 <= k <= m.dependencies@.len(),
            forall|j: int| 0 <= j < k ==> has_child(*lock, #[trigger] m.dependencies@[j].0@),
        decreases m.dependencies@.len() - k,
    {
        if !find_child(lock, m.dependencies[k].0.as_str()) {
            proof {
                lemma_lookup_none(m.dependencies@, m.dependencies@[k as int].0@);
                assert(m.version_of(m.dependencies@[k as int].0@) is Some);
            }
            return Err(CliError::MissingDependencies);
        }
        k = k + 1;
    }
    let mut k: usize = 0;
    while k < m.dev_dependencies.len()
        invariant
            0 <= k <= m.dev_dependencies@.len(),
            m.wf(),
            forall|j: int| 0 <= j < k ==> has_child(*lock, #[trigger] m.dev_dependencies@[j].0@),
        decreases m.dev_dependencies@.len() - k,
    {
        if !find_child(lock, m.dev_dependencies[k].0.as_str()) {
            proof {
                let n = m.dev_dependencies@[k as int].0@;
                lemma_lookup_none(m.dev_dependencies@, n);
                lemma_lookup_none(m.dependencies@, n);
                assert(m.version_of(n) is Some);
            }
            return Err(CliError::MissingDependencies);
        }
        k = k + 1;
    }
    assert forall|n: Seq<char>| #[trigger] m.version_of(n) is Some implies has_child(*lock, n) by {
        lemma_lookup_none(m.dependencies@, n);
        lemma_lookup_none(m.dev_dependencies@, n);
        if lookup(m.dependencies@, n) is Some {
            let j = choose|j: int| 0 <= j < m.dependencies@.len() && #[trigger] m.dependencies@[j].0@ == n;
        } else {
            let j = choose|j: int| 0 <= j < m.dev_dependencies@.len() && #[trigger] m.dev_dependencies@[j].0@ == n;
        }
    }
    // 2. every component of INPUT is in the manifest
    let mut i: usize = 0;
    while i < lock.dependencies.len()
        invariant
            0 <= i <= lock.dependencies@.len(),
            m.wf(),
            none_missing(*m, *lock),
            forall|j: int| 0 <= j < i ==> !#[trigger] extraneous_at(*m, *lock, j),
        decreases lock.dependencies@.len() - i,
    {
        if m.version(lock.dependencies[i].name.as_str()).is_none() {
            assert(extraneous_at(*m, *lock, i as int));
            return Err(CliError::ExtraneousDependencies(lock.dependencies[i].name.clone()));
        }
        i = i + 1;
    }
    // 3. at the version the manifest names
    let mut i: usize = 0;
    while i < lock.dependencies.len()
        invariant
            0 <= i <= lock.dependencies@.len(),
            m.wf(),
            none_missing(*m, *lock),
            check_extraneous(*m, *lock),
            forall|j: int| 0 <= j < i ==> !#[trigger] wrong_version_at(*m, *lock, j),
        decreases lock.dependencies@.len() - i,
    {
        let c = &lock.dependencies[i];
        let want = m.version(c.name.as_str());
        let have = parse_u32(c.version.as_str());
        if have != want {
            assert(wrong_version_at(*m, *lock, i as int));
            return Err(CliError::InvalidVersion(c.name.clone()));
        }
        i = i + 1;
    }
    // 4. and 5. one version and one environment of each component in the tree
    let usage = find_all_dependencies(lock);
    match first_conflict(&usage, false) {
        Some(a) => {
            proof {
                let j = choose|j: int| 0 <= j < usage@.len() && usage@[j].0@ == usage@[a as int].0@ && usage@[j].1@ != usage@[a as int].1@;
                let ta = (usage@[a as int].0@, usage@[a as int].1@, usage@[a as int].2@);
                let tj = (usage@[j].0@, usage@[j].1@, usage@[j].2@);
                assert(usage_set(usage@).contains(ta));
                assert(usage_set(usage@).contains(tj));
                assert(conflict(*lock, ta.0, false));
            }
            return Err(CliError::MultipleVersions(usage[a].0.clone()));
        },
        None => {},
    }
    proof {
        lemma_no_conflict(*lock, usage@, false);
    }
    match first_conflict(&usage, true) {
        Some(a) => {
            proof {
                let j = choose|j: int| 0 <= j < usage@.len() && usage@[j].0@ == usage@[a as int].0@ && usage@[j].2@ != usage@[a as int].2@;
                let ta = (usage@[a as int].0@, usage@[a as int].1@, usage@[a as int].2@);
                let tj = (usage@[j].0@, usage@[j].1@, usage@[j].2@);
                assert(usage_set(usage@).contains(ta));
                assert(usage_set(usage@).contains(tj));
                assert(conflict(*lock, ta.0, true));
            }
            return Err(CliError::MultipleEnvironments(usage[a].0.clone()));
        },
        None => {},
    }
    proof {
        lemma_no_conflict(*lock, usage@, true);
    }
    // 6. every component of INPUT was built in the requested environment
    let mut i: usize = 0;
    while i < lock.dependencies.len()
        invariant
            0 <= i <= lock.dependencies@.len(),
            none_missing(*m, *lock),
            check_extraneous(*m, *lock),
            check_versions(*m, *lock),
            check_single(*lock, false),
            check_single(*lock, true),
            forall|j: int| 0 <= j < i ==> !#[trigger] env_mismatch_at(*lock, env@, j),
        decreases lock.dependencies@.len() - i,
    {
        let c = &lock.dependencies[i];
        if !same_text(c.environment.as_str(), env) {
            assert(env_mismatch_at(*lock, env@, i as int));
            return Err(CliError::EnvironmentMismatch(c.name.clone(), c.environment.clone()));
        }
        i = i + 1;
    }
    // 7. no stashed version anywhere in the tree
    match first_stashed(&usage) {
        Some(a) => {
            proof {
                let ta = (usage@[a as int].0@, usage@[a as int].1@, usage@[a as int].2@);
                assert(usage_set(usage@).contains(ta));
                assert(stashed(*lock, ta.0));
            }
            return Err(CliError::NonGlobalDependencies(usage[a].0.clone()));
        },
        None => {},
    }
    assert forall|n: Seq<char>| !#[trigger] stashed(*lock, n) by {
        if stashed(*lock, n) {
            let t = choose|t: (Seq<char>, Seq<char>, Seq<char>)| #[trigger] closure(*lock).contains(t) && t.0 == n && !is_integer_version(t.1);
            let x = choose|x: int| 0 <= x < usage@.len() && t == (#[trigger] usage@[x].0@, usage@[x].1@, usage@[x].2@);
        }
    }
    Ok(())
}

proof fn lemma_no_conflict(lock: Lockfile, u: Seq<(String, String, String)>, by_env: bool)
    requires
        usage_set(u) == closure(lock),
        forall|a: int, b: int| 0 <= a < u.len() && 0 <= b < u.len() && #[trigger] u[a].0@ == #[trigger] u[b].0@
            ==> (if by_env { u[a].2@ == u[b].2@ } else { u[a].1@ == u[b].1@ }),
    ensures
        check_single(lock, by_env),
{
    assert forall|n: Seq<char>| !#[trigger] conflict(lock, n, by_env) by {
        if conflict(lock, n, by_env) {
            let (ta, tb) = choose|a: (Seq<char>, Seq<char>, Seq<char>), b: (Seq<char>, Seq<char>, Seq<char>)|
                #[trigger] closure(lock).contains(a) && #[trigger] closure(lock).contains(b) && a.0 == n && b.0 == n
                    && (if by_env { a.2 != b.2 } else { a.1 != b.1 });
            assert(usage_set(u).contains(ta));
            assert(usage_set(u).contains(tb));
            let x = choose|x: int| 0 <= x < u.len() && ta == (#[trigger] u[x].0@, u[x].1@, u[x].2@);
            let y = choose|y: int| 0 <= y < u.len() && tb == (#[trigger] u[y].0@, u[y].1@, u[y].2@);
            assert(u[x].0@ == u[y].0@);
        }
    }
}

} // verus!
