//! Decisions of the installer: what a specifier asks for, which dependencies a
//! bulk fetch still has to fetch, and how a bulk fetch ends.

use vstd::prelude::*;
use vstd::string::*;

use crate::errors::{CliError, LalResult};
use crate::lockfile::Lockfile;
use crate::manifest::{
    keys_unique, lemma_lookup_none, lemma_lookup_push, lemma_unique_push, lookup, Manifest, VersionMap,
};
use crate::numbers::{decimal_of, parse_u32, parse_u32_spec};
use crate::text::same_text;

verus! {

/// What one item of an update asks for.
#[derive(Debug, Clone, PartialEq, Eq)]
pub enum Specifier {
    /// `name`: the latest published version
    Latest(String),
    /// `name=<integer>`: a published version
    Version(String, u32),
    /// `name=<label>`: a stashed build
    Stash(String, String),
}

/// Index of the first `=` of `s` at or after `from`, or the length of `s`.
pub open spec fn next_eq(s: Seq<char>, from: int) -> int
    decreases s.len() - from,
{
    if from >= s.len() || from < 0 {
        s.len() as int
    } else if s[from] == '=' {
        from
    } else {
        next_eq(s, from + 1)
    }
}

proof fn lemma_next_eq_bounds(s: Seq<char>, from: int)
    requires
        0 <= from <= s.len(),
    ensures
        from <= next_eq(s, from) <= s.len(),
    decreases s.len() - from,
{
    if from < s.len() && s[from] != '=' {
        lemma_next_eq_bounds(s, from + 1);
    }
}

fn find_eq(s: &str, from: usize) -> (r: usize)
    requires
        from <= s@.len(),
    ensures
        r == next_eq(s@, from as int),
        from <= r <= s@.len(),
{
    let n = s.unicode_len();
    let mut i = from;
    while i < n
        invariant
            n == s@.len(),
            from <= i <= n,
            next_eq(s@, from as int) == next_eq(s@, i as int),
        decreases n - i,
    {
        if s.get_char(i) == '=' {
            return i;
        }
        i = i + 1;
    }
    i
}

/// What `name`, `name=<integer>` or `name=<label>` asks for. The name ends at the
/// first `=`, the version or label at the next one.
pub open spec fn specifier_of(s: Seq<char>) -> (Seq<char>, Option<Seq<char>>) {
    let i = next_eq(s, 0);
    if i >= s.len() {
        (s, None)
    } else {
        (s.subrange(0, i), Some(s.subrange(i + 1, next_eq(s, i + 1))))
    }
}

/// Reads one item of an update.
pub fn parse_specifier(comp: &str) -> (r: Specifier)
    ensures
        specifier_of(comp@).1 is None ==> (r matches Specifier::Latest(n) && n@ == comp@),
        specifier_of(comp@).1 matches Some(rest) ==> match parse_u32_spec(rest) {
            Some(v) => (r matches Specifier::Version(n, w) && n@ == specifier_of(comp@).0 && w == v),
            None => (r matches Specifier::Stash(n, l) && n@ == specifier_of(comp@).0 && l@ == rest),
        },
{
    let n = comp.unicode_len();
    let i = find_eq(comp, 0);
    if i >= n {
        return Specifier::Latest(String::from_str(comp));
    }
    let j = find_eq(comp, i + 1);
    let name = String::from_str(comp.substring_char(0, i));
    let rest = comp.substring_char(i + 1, j);
    match parse_u32(rest) {
        Some(v) => Specifier::Version(name, v),
        None => Specifier::Stash(name, String::from_str(rest)),
    }
}

/// `INPUT` already holds `n` at integer version `v`, built in `env`: a child of
/// `installed` (the lockfile populated from `INPUT`) records exactly that.
pub open spec fn reusable(installed: Lockfile, n: Seq<char>, v: u32, env: Seq<char>) -> bool {
    exists|i: int|
        0 <= i < installed.dependencies.len() && #[trigger] installed.dependencies@[i].name@ == n
            && parse_u32_spec(installed.dependencies@[i].version@) == Some(v)
            && installed.dependencies@[i].environment@ == env
}

/// The version at which `n` still has to be fetched: its target version, unless
/// `INPUT` can be reused for it.
pub open spec fn pending(t: Seq<(String, u32)>, installed: Lockfile, env: Seq<char>, n: Seq<char>) -> Option<u32> {
    pending_at(lookup(t, n), installed, env, n)
}

/// The version at which `n`, targeted at `target`, still has to be fetched.
pub open spec fn pending_at(target: Option<u32>, installed: Lockfile, env: Seq<char>, n: Seq<char>) -> Option<u32> {
    match target {
        Some(v) => if reusable(installed, n, v, env) { None } else { Some(v) },
        None => None,
    }
}

fn is_reusable(installed: &Lockfile, name: &str, v: u32, env: &str) -> (r: bool)
    ensures
        r == reusable(*installed, name@, v, env@),
{
    let mut i: usize = 0;
    while i < installed.dependencies.len()
        invariant
            0 <= i <= installed.dependencies@.len(),
            forall|k: int| 0 <= k < i ==> !(#[trigger] installed.dependencies@[k].name@ == name@
                && parse_u32_spec(installed.dependencies@[k].version@) == Some(v)
                && installed.dependencies@[k].environment@ == env@),
        decreases installed.dependencies@.len() - i,
    {
        let c = &installed.dependencies[i];
        if same_text(c.name.as_str(), name) && same_text(c.environment.as_str(), env) {
            match parse_u32(c.version.as_str()) {
                Some(w) => {
                    if w == v {
                        return true;
                    }
                },
                None => {},
            }
        }
        i = i + 1;
    }
    false
}

/// The reuse rule: drops from the targets each dependency that `INPUT` already
/// holds at its integer target version, built in `env`. Stashed versions are never
/// integers, so they are never reused.
pub fn reuse_filter(targets: &VersionMap, installed: &Lockfile, env: &str) -> (r: VersionMap)
    requires
        keys_unique(targets@),
    ensures
        keys_unique(r@),
        forall|n: Seq<char>| #[trigger] lookup(r@, n) == pending(targets@, *installed, env@, n),
{
    let mut out: VersionMap = Vec::new();
    let mut i: usize = 0;
    while i < targets.len()
        invariant
            0 <= i <= targets@.len(),
            keys_unique(targets@),
            keys_unique(out@),
            forall|n: Seq<char>| #[trigger] lookup(out@, n) == pending(targets@.subrange(0, i as int), *installed, env@, n),
        decreases targets@.len() - i,
    {
        let ghost pre = targets@.subrange(0, i as int);
        let e = (targets[i].0.clone(), targets[i].1);
        assert(targets@.subrange(0, i + 1) =~= pre.push(e));
        proof {
            assert forall|k: int| 0 <= k < pre.len() implies #[trigger] pre[k].0@ != e.0@ by {
                assert(pre[k] == targets@[k]);
            }
            lemma_lookup_none(pre, e.0@);
            assert forall|n: Seq<char>| #[trigger] lookup(pre.push(e), n) == if e.0@ == n { Some(e.1) } else { lookup(pre, n) } by {
                lemma_lookup_push(pre, e, n);
            }
        }
        if !is_reusable(installed, e.0.as_str(), e.1, env) {
            proof {
                assert forall|n: Seq<char>| #[trigger] lookup(out@.push(e), n) == if e.0@ == n { Some(e.1) } else { lookup(out@, n) } by {
                    lemma_lookup_push(out@, e, n);
                }
                lemma_unique_push(out@, e);
            }
            out.push(e);
        }
        i = i + 1;
    }
    assert(targets@.subrange(0, targets@.len() as int) =~= targets@);
    out
}

/// Once every dependency that a bulk fetch targets is in `INPUT` as fetched, at
/// its decimal version and in the requested environment, a second bulk fetch with
/// the same targets and environment has nothing left to fetch.
pub proof fn law_refetch_is_noop(t: Seq<(String, u32)>, installed: Lockfile, env: Seq<char>)
    requires
        forall|n: Seq<char>|
            #[trigger] lookup(t, n) is Some ==> exists|i: int|
                0 <= i < installed.dependencies.len() && #[trigger] installed.dependencies@[i].name@ == n
                    && installed.dependencies@[i].version@ == decimal_of(lookup(t, n)->Some_0 as nat)
                    && installed.dependencies@[i].environment@ == env,
    ensures
        forall|n: Seq<char>| #[trigger] pending(t, installed, env, n) is None,
{
    assert forall|n: Seq<char>| #[trigger] pending(t, installed, env, n) is None by {
        if lookup(t, n) is Some {
            let v = lookup(t, n)->Some_0;
            let i = choose|i: int|
                0 <= i < installed.dependencies.len() && #[trigger] installed.dependencies@[i].name@ == n
                    && installed.dependencies@[i].version@ == decimal_of(v as nat)
                    && installed.dependencies@[i].environment@ == env;
            crate::numbers::lemma_decimal_round_trip(v as nat);
            assert(reusable(installed, n, v, env));
        }
    }
}

/// Every dependency that the reuse rule drops is already in `INPUT` at its target
/// version, as an integer, and built in the requested environment.
pub proof fn law_reused_inputs_are_consistent(t: Seq<(String, u32)>, installed: Lockfile, env: Seq<char>, n: Seq<char>)
    requires
        lookup(t, n) is Some,
        pending(t, installed, env, n) is None,
    ensures
        exists|i: int|
            0 <= i < installed.dependencies.len() && #[trigger] installed.dependencies@[i].name@ == n
                && parse_u32_spec(installed.dependencies@[i].version@) == lookup(t, n)
                && installed.dependencies@[i].environment@ == env,
{
}

/// With no runtime dependencies, a bulk fetch of the runtime ones has nothing to
/// fetch, whatever `INPUT` holds.
pub proof fn law_empty_core_fetch_is_noop(m: Manifest, installed: Lockfile, env: Seq<char>)
    requires
        m.dependencies@.len() == 0,
    ensures
        forall|n: Seq<char>| #[trigger] pending_at(m.target_of(true, n), installed, env, n) is None,
{
    assert forall|n: Seq<char>| #[trigger] pending_at(m.target_of(true, n), installed, env, n) is None by {
        assert(lookup(m.dependencies@, n) is None);
    }
}

/// A list of targets with nothing pending is empty.
pub proof fn lemma_nothing_pending_is_empty(r: Seq<(String, u32)>)
    requires
        forall|n: Seq<char>| #[trigger] lookup(r, n) is None,
    ensures
        r.len() == 0,
{
    if r.len() > 0 {
        lemma_lookup_none(r, r[0].0@);
    }
}

/// What the driver of a bulk fetch does next.
#[derive(Debug, PartialEq, Eq)]
pub enum FetchStep {
    /// Clear `INPUT/<name>`, then fetch and extract `name` at the version
    Fetch(String, u32),
    /// Remove the whole `INPUT` tree
    WipeInput,
    /// The bulk fetch is over, with this result
    Finished(LalResult<()>),
}

/// The decisions of a bulk fetch: the targets left after the reuse rule, taken one
/// by one; when all have been tried, `INPUT` is wiped if any of them failed.
pub struct FetchAll {
    targets: VersionMap,
    next: usize,
    failed: bool,
    wiped: bool,
}

impl FetchAll {
    pub closed spec fn targets(&self) -> Seq<(String, u32)> {
        self.targets@
    }

    pub closed spec fn next(&self) -> int {
        self.next as int
    }

    pub closed spec fn failed(&self) -> bool {
        self.failed
    }

    pub closed spec fn wiped(&self) -> bool {
        self.wiped
    }

    pub open spec fn wf(&self) -> bool {
        0 <= self.next() <= self.targets().len()
    }

    /// Starts a bulk fetch of `manifest`'s dependencies (runtime ones only when
    /// `core_only`) into `INPUT`, whose present contents `installed` records.
    pub fn new(manifest: &Manifest, installed: &Lockfile, core_only: bool, env: &str) -> (r: FetchAll)
        requires
            manifest.wf(),
        ensures
            r.wf(),
            r.next() == 0,
            !r.failed(),
            !r.wiped(),
            keys_unique(r.targets()),
            forall|n: Seq<char>| #[trigger] lookup(r.targets(), n) == pending_at(manifest.target_of(core_only, n), *installed, env@, n),
    {
        let all = manifest.fetch_targets(core_only);
        let targets = reuse_filter(&all, installed, env);
        FetchAll { targets, next: 0, failed: false, wiped: false }
    }

    /// The next action: fetch the next target; once all have been tried, wipe
    /// `INPUT` if one failed; then finish, with `InstallFailure` if one failed.
    pub fn step(&mut self) -> (r: FetchStep)
        requires
            old(self).wf(),
        ensures
            final(self).wf(),
            final(self).targets() == old(self).targets(),
            final(self).failed() == old(self).failed(),
            old(self).next() < old(self).targets().len() ==> final(self).next() == old(self).next() + 1
                && final(self).wiped() == old(self).wiped() && (r matches FetchStep::Fetch(n, v)
                && n@ == old(self).targets()[old(self).next()].0@ && v == old(self).targets()[old(self).next()].1),
            old(self).next() == old(self).targets().len() && old(self).failed() && !old(self).wiped() ==> r
                == FetchStep::WipeInput && final(self).wiped() && final(self).next() == old(self).next(),
            old(self).next() == old(self).targets().len() && (!old(self).failed() || old(self).wiped()) ==> (r
                matches FetchStep::Finished(res) && (res is Ok <==> !old(self).failed()) && (res matches Err(e)
                ==> e == CliError::InstallFailure)) && *final(self) == *old(self),
            r matches FetchStep::Finished(Err(_)) ==> old(self).wiped(),
    {
        if self.next < self.targets.len() {
            let i = self.next;
            self.next = i + 1;
            FetchStep::Fetch(self.targets[i].0.clone(), self.targets[i].1)
        } else if self.failed && !self.wiped {
            self.wiped = true;
            FetchStep::WipeInput
        } else if self.failed {
            FetchStep::Finished(Err(CliError::InstallFailure))
        } else {
            FetchStep::Finished(Ok(()))
        }
    }

    /// Records the outcome of the last fetch.
    pub fn report(&mut self, ok: bool)
        requires
            old(self).wf(),
        ensures
            final(self).wf(),
            final(self).targets() == old(self).targets(),
            final(self).next() == old(self).next(),
            final(self).wiped() == old(self).wiped(),
            final(self).failed() == (old(self).failed() || !ok),
    {
        if !ok {
            self.failed = true;
        }
    }
}

/// The record of an update: the published versions fetched so far, and the first
/// failure, which is held once set. A failure does not stop the other items.
pub struct UpdateRun {
    updated: VersionMap,
    error: Option<CliError>,
}

impl UpdateRun {
    pub closed spec fn updated(&self) -> Seq<(String, u32)> {
        self.updated@
    }

    pub closed spec fn error(&self) -> Option<CliError> {
        self.error
    }

    /// An update with nothing fetched and nothing failed.
    pub fn new() -> (r: UpdateRun)
        ensures
            r.updated().len() == 0,
            r.error() is None,
    {
        UpdateRun { updated: Vec::new(), error: None }
    }

    /// Records that `name` was fetched at the published `version`. Stashed builds are
    /// not recorded: they never go into the manifest.
    pub fn fetched(&mut self, name: &str, version: u32)
        ensures
            final(self).updated().len() == old(self).updated().len() + 1,
            forall|i: int| 0 <= i < old(self).updated().len() ==> #[trigger] final(self).updated()[i] == old(self).updated()[i],
            final(self).updated().last().0@ == name@,
            final(self).updated().last().1 == version,
            final(self).error() == old(self).error(),
    {
        self.updated.push((String::from_str(name), version));
    }

    /// Records a failure; only the first one is kept.
    pub fn failed(&mut self, e: CliError)
        ensures
            final(self).updated() == old(self).updated(),
            final(self).error() == if old(self).error() is Some { old(self).error() } else { Some(e) },
    {
        if self.error.is_none() {
            self.error = Some(e);
        }
    }

    /// The outcome once every item has been tried: the first failure if there was
    /// one, else the published versions fetched, for the manifest.
    pub fn finish(self) -> (r: LalResult<VersionMap>)
        ensures
            self.error() matches Some(e) ==> r == Err::<VersionMap, CliError>(e),
            self.error() is None ==> (r matches Ok(v) && v@ == self.updated()),
    {
        match self.error {
            Some(e) => Err(e),
            None => Ok(self.updated),
        }
    }
}

} // verus!
