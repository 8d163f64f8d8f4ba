//! The manifest: the component's own name and its two dependency maps.

use vstd::prelude::*;
use vstd::string::*;

use crate::errors::CliError;
use crate::text::same_text;

verus! {

/// A map from component name to integer version, kept as a list of entries
/// whose names are unique.
pub type VersionMap = Vec<(String, u32)>;

/// The version that the last entry named `n` gives, if any.
pub open spec fn lookup(v: Seq<(String, u32)>, n: Seq<char>) -> Option<u32>
    decreases v.len(),
{
    if v.len() == 0 {
        None
    } else if v.last().0@ == n {
        Some(v.last().1)
    } else {
        lookup(v.drop_last(), n)
    }
}

/// No name occurs twice.
pub open spec fn keys_unique(v: Seq<(String, u32)>) -> bool {
    forall|i: int, j: int| 0 <= i < j < v.len() ==> #[trigger] v[i].0@ != #[trigger] v[j].0@
}

/// A name is missing exactly when no entry carries it.
pub proof fn lemma_lookup_none(v: Seq<(String, u32)>, n: Seq<char>)
    ensures
        lookup(v, n) is None <==> forall|k: int| 0 <= k < v.len() ==> #[trigger] v[k].0@ != n,
    decreases v.len(),
{
    if v.len() > 0 {
        let d = v.drop_last();
        lemma_lookup_none(d, n);
        assert forall|k: int| 0 <= k < v.len() - 1 implies #[trigger] d[k] == v[k] by {}
        if lookup(v, n) is None {
            assert forall|k: int| 0 <= k < v.len() implies #[trigger] v[k].0@ != n by {
                if k < v.len() - 1 {
                    assert(d[k] == v[k]);
                }
            }
        } else {
            if v.last().0@ != n {
                let k = choose|k: int| 0 <= k < d.len() && #[trigger] d[k].0@ == n;
                assert(v[k] == d[k]);
            }
        }
    }
}

/// With unique names, an entry's name finds that entry's version.
pub proof fn lemma_lookup_at(v: Seq<(String, u32)>, k: int)
    requires
        keys_unique(v),
        0 <= k < v.len(),
    ensures
        lookup(v, v[k].0@) == Some(v[k].1),
    decreases v.len(),
{
    if k < v.len() - 1 {
        assert(v.drop_last()[k] == v[k]);
        lemma_lookup_at(v.drop_last(), k);
    }
}

/// Looking up in a list with one more entry at its end.
pub proof fn lemma_lookup_push(v: Seq<(String, u32)>, x: (String, u32), n: Seq<char>)
    ensures
        lookup(v.push(x), n) == if x.0@ == n { Some(x.1) } else { lookup(v, n) },
{
    assert(v.push(x).drop_last() =~= v);
}

/// A new name keeps the names of a list unique.
pub proof fn lemma_unique_push(v: Seq<(String, u32)>, x: (String, u32))
    requires
        keys_unique(v),
        lookup(v, x.0@) is None,
    ensures
        keys_unique(v.push(x)),
{
    lemma_lookup_none(v, x.0@);
    let w = v.push(x);
    assert forall|i: int, j: int| 0 <= i < j < w.len() implies #[trigger] w[i].0@ != #[trigger] w[j].0@ by {
        if j == v.len() {
            assert(w[i] == v[i]);
        } else {
            assert(w[i] == v[i] && w[j] == v[j]);
        }
    }
}

/// Position of the entry named `name`, if there is one.
pub fn find_entry(v: &VersionMap, name: &str) -> (r: Option<usize>)
    ensures
        r matches Some(i) ==> i < v@.len() && v@[i as int].0@ == name@,
        r is None ==> lookup(v@, name@) is None,
{
    let mut i: usize = 0;
    while i < v.len()
        invariant
            0 <= i <= v@.len(),
            forall|k: int| 0 <= k < i ==> #[trigger] v@[k].0@ != name@,
        decreases v@.len() - i,
    {
        if same_text(v[i].0.as_str(), name) {
            return Some(i);
        }
        i = i + 1;
    }
    proof {
        lemma_lookup_none(v@, name@);
    }
    None
}

/// The version recorded for `name`, if any.
pub fn get_version(v: &VersionMap, name: &str) -> (r: Option<u32>)
    requires
        keys_unique(v@),
    ensures
        r == lookup(v@, name@),
{
    match find_entry(v, name) {
        Some(i) => {
            proof {
                lemma_lookup_at(v@, i as int);
            }
            Some(v[i].1)
        },
        None => None,
    }
}

/// The entries of `v` but the one named `name`.
pub fn without_key(v: &VersionMap, name: &str) -> (r: VersionMap)
    requires
        keys_unique(v@),
    ensures
        keys_unique(r@),
        forall|n: Seq<char>| #[trigger] lookup(r@, n) == if n == name@ { None } else { lookup(v@, n) },
{
    let mut out: VersionMap = Vec::new();
    let mut i: usize = 0;
    while i < v.len()
        invariant
            0 <= i <= v@.len(),
            keys_unique(v@),
            keys_unique(out@),
            forall|n: Seq<char>| #[trigger] lookup(out@, n) == if n == name@ { None } else { lookup(v@.subrange(0, i as int), n) },
        decreases v@.len() - i,
    {
        let ghost pre = v@.subrange(0, i as int);
        assert(v@.subrange(0, i + 1) =~= pre.push(v@[i as int]));
        if !same_text(v[i].0.as_str(), name) {
            let e = (v[i].0.clone(), v[i].1);
            proof {
                assert forall|k: int| 0 <= k < pre.len() implies #[trigger] pre[k].0@ != e.0@ by {
                    assert(pre[k] == v@[k]);
                }
                lemma_lookup_none(pre, e.0@);
                lemma_unique_push(out@, e);
                assert forall|n: Seq<char>| #[trigger] lookup(out@.push(e), n) == if n == name@ { None } else { lookup(v@.subrange(0, i + 1), n) } by {
                    lemma_lookup_push(out@, e, n);
                    lemma_lookup_push(pre, v@[i as int], n);
                }
            }
            out.push(e);
        } else {
            proof {
                assert forall|n: Seq<char>| #[trigger] lookup(out@, n) == if n == name@ { None } else { lookup(v@.subrange(0, i + 1), n) } by {
                    lemma_lookup_push(pre, v@[i as int], n);
                }
            }
        }
        i = i + 1;
    }
    assert(v@.subrange(0, v@.len() as int) =~= v@);
    out
}

/// Representation of the manifest file.
pub struct Manifest {
    /// Name of the component under construction
    pub name: String,
    /// Runtime dependencies
    pub dependencies: VersionMap,
    /// Development dependencies
    pub dev_dependencies: VersionMap,
}

impl Manifest {
    /// Each map has unique names, no name is in both, and the component's own name
    /// is in neither.
    pub open spec fn wf(&self) -> bool {
        &&& keys_unique(self.dependencies@)
        &&& keys_unique(self.dev_dependencies@)
        &&& forall|n: Seq<char>|
            !(#[trigger] lookup(self.dependencies@, n) is Some && lookup(self.dev_dependencies@, n) is Some)
        &&& lookup(self.dependencies@, self.name@) is None
        &&& lookup(self.dev_dependencies@, self.name@) is None
    }

    /// The version under which `n` is a dependency of either kind.
    pub open spec fn version_of(&self, n: Seq<char>) -> Option<u32> {
        if lookup(self.dependencies@, n) is Some {
            lookup(self.dependencies@, n)
        } else {
            lookup(self.dev_dependencies@, n)
        }
    }

    /// Records `name` at `version` as a dependency (a development one when `dev`),
    /// taking it out of the other map.
    pub fn update_entry(&mut self, name: &str, version: u32, dev: bool)
        requires
            old(self).wf(),
            name@ != old(self).name@,
        ensures
            final(self).wf(),
            final(self).name@ == old(self).name@,
            forall|n: Seq<char>| n != name@ ==> #[trigger] lookup(final(self).dependencies@, n) == lookup(old(self).dependencies@, n),
            forall|n: Seq<char>| n != name@ ==> #[trigger] lookup(final(self).dev_dependencies@, n) == lookup(old(self).dev_dependencies@, n),
            lookup(final(self).dependencies@, name@) == if dev { None } else { Some(version) },
            lookup(final(self).dev_dependencies@, name@) == if dev { Some(version) } else { None },
            forall|n: Seq<char>| #[trigger] lookup(final(self).chosen(dev), n) == if n == name@ { Some(version) } else { lookup(old(self).chosen(dev), n) },
            forall|n: Seq<char>| #[trigger] lookup(final(self).other(dev), n) == if n == name@ { None } else { lookup(old(self).other(dev), n) },
    {
        let mut deps = without_key(&self.dependencies, name);
        let mut devs = without_key(&self.dev_dependencies, name);
        let e = (String::from_str(name), version);
        if dev {
            proof {
                lemma_unique_push(devs@, e);
                assert forall|n: Seq<char>| #[trigger] lookup(devs@.push(e), n) == if n == name@ { Some(version) } else { lookup(devs@, n) } by {
                    lemma_lookup_push(devs@, e, n);
                }
            }
            devs.push(e);
        } else {
            proof {
                lemma_unique_push(deps@, e);
                assert forall|n: Seq<char>| #[trigger] lookup(deps@.push(e), n) == if n == name@ { Some(version) } else { lookup(deps@, n) } by {
                    lemma_lookup_push(deps@, e, n);
                }
            }
            deps.push(e);
        }
        self.dependencies = deps;
        self.dev_dependencies = devs;
    }

    /// The version at which a bulk fetch targets `n`.
    pub open spec fn target_of(&self, core_only: bool, n: Seq<char>) -> Option<u32> {
        if core_only {
            lookup(self.dependencies@, n)
        } else {
            self.version_of(n)
        }
    }

    /// A copy of the manifest.
    pub fn copy(&self) -> (r: Manifest)
        ensures
            r.name@ == self.name@,
            r.dependencies@ == self.dependencies@,
            r.dev_dependencies@ == self.dev_dependencies@,
    {
        Manifest {
            name: String::from_str(self.name.as_str()),
            dependencies: copy_map(&self.dependencies),
            dev_dependencies: copy_map(&self.dev_dependencies),
        }
    }

    /// The manifest to write after an update that fetched the published versions
    /// `updated`: none unless `save` or `savedev`; else this one with them recorded
    /// in `other(save)`, which is the runtime map when `save` and the development
    /// one otherwise.
    pub fn after_update(&self, updated: &VersionMap, save: bool, savedev: bool) -> (r: Option<Manifest>)
        requires
            self.wf(),
        ensures
            !save && !savedev ==> r is None,
            save || savedev ==> (r matches Some(m) && {
                &&& m.wf()
                &&& m.name@ == self.name@
                &&& forall|n: Seq<char>| #[trigger] lookup(m.other(save), n) == if lookup(updated@, n) is Some && n != self.name@ { lookup(updated@, n) } else { lookup(self.other(save), n) }
                &&& forall|n: Seq<char>| #[trigger] lookup(m.chosen(save), n) == if lookup(updated@, n) is Some && n != self.name@ { None } else { lookup(self.chosen(save), n) }
            }),
    {
        if save || savedev {
            let mut m = self.copy();
            m.record_updates(updated, !save);
            assert(m.other(save) == m.chosen(!save) && m.chosen(save) == m.other(!save));
            assert(self.other(save) == self.chosen(!save) && self.chosen(save) == self.other(!save));
            Some(m)
        } else {
            None
        }
    }

    /// Whether the manifest keeps its invariant (see `wf`).
    pub fn is_valid(&self) -> (r: bool)
        ensures
            r == self.wf(),
    {
        if !unique_names(&self.dependencies) || !unique_names(&self.dev_dependencies) {
            return false;
        }
        let mut k: usize = 0;
        while k < self.dependencies.len()
            invariant
                0 <= k <= self.dependencies@.len(),
                keys_unique(self.dependencies@),
                keys_unique(self.dev_dependencies@),
                forall|j: int| 0 <= j < k ==> #[trigger] lookup(self.dev_dependencies@, self.dependencies@[j].0@) is None,
            decreases self.dependencies@.len() - k,
        {
            let name = self.dependencies[k].0.as_str();
            if find_entry(&self.dev_dependencies, name).is_some() {
                proof {
                    lemma_lookup_none(self.dependencies@, name@);
                    lemma_lookup_none(self.dev_dependencies@, name@);
                }
                return false;
            }
            k = k + 1;
        }
        assert forall|n: Seq<char>| !(#[trigger] lookup(self.dependencies@, n) is Some && lookup(self.dev_dependencies@, n) is Some) by {
            lemma_lookup_none(self.dependencies@, n);
            if lookup(self.dependencies@, n) is Some {
                let j = choose|j: int| 0 <= j < self.dependencies@.len() && #[trigger] self.dependencies@[j].0@ == n;
                assert(lookup(self.dev_dependencies@, self.dependencies@[j].0@) is None);
            }
        }
        let own = self.name.as_str();
        let in_deps = find_entry(&self.dependencies, own).is_some();
        let in_devs = find_entry(&self.dev_dependencies, own).is_some();
        proof {
            lemma_lookup_none(self.dependencies@, own@);
            lemma_lookup_none(self.dev_dependencies@, own@);
        }
        !in_deps && !in_devs
    }

    /// The version under which `name` is a dependency of either kind.
    pub fn version(&self, name: &str) -> (r: Option<u32>)
        requires
            self.wf(),
        ensures
            r == self.version_of(name@),
    {
        match get_version(&self.dependencies, name) {
            Some(v) => Some(v),
            None => get_version(&self.dev_dependencies, name),
        }
    }

    /// The map that `dev` selects.
    pub open spec fn chosen(&self, dev: bool) -> Seq<(String, u32)> {
        if dev {
            self.dev_dependencies@
        } else {
            self.dependencies@
        }
    }

    /// The map that `dev` does not select.
    pub open spec fn other(&self, dev: bool) -> Seq<(String, u32)> {
        if dev {
            self.dependencies@
        } else {
            self.dev_dependencies@
        }
    }

    /// Takes the names in `xs` out of one map (the development one when `dev`).
    ///
    /// Fails with `MissingComponent` on the first name that is not, or no longer, in
    /// that map; the manifest is then left as it was.
    pub fn remove_entries(&self, xs: &Vec<String>, dev: bool) -> (r: Result<Manifest, CliError>)
        requires
            self.wf(),
        ensures
            r is Ok <==> forall|k: int| 0 <= k < xs@.len() ==> !removal_fails_at(self.chosen(dev), names(xs@), k),
            r matches Err(e) ==> exists|k: int| 0 <= k < xs@.len() && removal_fails_at(self.chosen(dev), names(xs@), k)
                && (forall|j: int| 0 <= j < k ==> !removal_fails_at(self.chosen(dev), names(xs@), j))
                && e == CliError::MissingComponent(xs@[k]),
            r matches Ok(m) ==> {
                &&& m.wf()
                &&& m.name@ == self.name@
                &&& forall|n: Seq<char>| #[trigger] lookup(m.chosen(dev), n) == if names(xs@).contains(n) { None } else { lookup(self.chosen(dev), n) }
                &&& m.other(dev) == self.other(dev)
            },
    {
        let mut cur = if dev { copy_map(&self.dev_dependencies) } else { copy_map(&self.dependencies) };
        let ghost t = self.chosen(dev);
        let ghost ns = names(xs@);
        let mut k: usize = 0;
        while k < xs.len()
            invariant
                0 <= k <= xs@.len(),
                ns == names(xs@),
                t == self.chosen(dev),
                self.wf(),
                keys_unique(cur@),
                forall|n: Seq<char>| #[trigger] lookup(cur@, n) == if ns.subrange(0, k as int).contains(n) { None } else { lookup(t, n) },
                forall|j: int| 0 <= j < k ==> !removal_fails_at(t, ns, j),
            decreases xs@.len() - k,
        {
            let x = xs[k].as_str();
            assert(ns[k as int] == xs@[k as int]@);
            assert(ns.subrange(0, k + 1) =~= ns.subrange(0, k as int).push(x@));
            proof {
                lemma_lookup_none(cur@, x@);
                assert forall|n: Seq<char>| #[trigger] ns.subrange(0, k + 1).contains(n) == (ns.subrange(0, k as int).contains(n) || n == x@) by {
                    if n == x@ {
                        assert(ns.subrange(0, k + 1)[k as int] == n);
                    }
                    if ns.subrange(0, k as int).contains(n) {
                        let j = choose|j: int| 0 <= j < k && #[trigger] ns.subrange(0, k as int)[j] == n;
                        assert(ns.subrange(0, k + 1)[j] == n);
                    }
                    if ns.subrange(0, k + 1).contains(n) && n != x@ {
                        let j = choose|j: int| 0 <= j < k + 1 && #[trigger] ns.subrange(0, k + 1)[j] == n;
                        assert(ns.subrange(0, k as int)[j] == n);
                    }
                }
            }
            match find_entry(&cur, x) {
                None => {
                    assert(removal_fails_at(t, ns, k as int));
                    return Err(CliError::MissingComponent(xs[k].clone()));
                },
                Some(_) => {
                    assert(!removal_fails_at(t, ns, k as int));
                    cur = without_key(&cur, x);
                },
            }
            k = k + 1;
        }
        assert(ns.subrange(0, xs@.len() as int) =~= ns);
        let name = String::from_str(self.name.as_str());
        let m = if dev {
            Manifest { name, dependencies: copy_map(&self.dependencies), dev_dependencies: cur }
        } else {
            Manifest { name, dependencies: cur, dev_dependencies: copy_map(&self.dev_dependencies) }
        };
        assert(m.dependencies@ == self.dependencies@ || m.dev_dependencies@ == self.dev_dependencies@);
        Ok(m)
    }

    /// Records each entry of `updated` in one map (the development one when `dev`),
    /// taking it out of the other; a later entry for a name wins over an earlier one.
    /// An entry under the component's own name is passed over.
    pub fn record_updates(&mut self, updated: &VersionMap, dev: bool)
        requires
            old(self).wf(),
        ensures
            final(self).wf(),
            final(self).name@ == old(self).name@,
            forall|n: Seq<char>| #[trigger] lookup(final(self).chosen(dev), n) == if lookup(updated@, n) is Some && n != old(self).name@ { lookup(updated@, n) } else { lookup(old(self).chosen(dev), n) },
            forall|n: Seq<char>| #[trigger] lookup(final(self).other(dev), n) == if lookup(updated@, n) is Some && n != old(self).name@ { None } else { lookup(old(self).other(dev), n) },
    {
        let ghost start = *old(self);
        let mut i: usize = 0;
        while i < updated.len()
            invariant
                0 <= i <= updated@.len(),
                self.wf(),
                self.name@ == start.name@,
                start.wf(),
                forall|n: Seq<char>| #[trigger] lookup(self.chosen(dev), n) == if lookup(updated@.subrange(0, i as int), n) is Some && n != start.name@ { lookup(updated@.subrange(0, i as int), n) } else { lookup(start.chosen(dev), n) },
                forall|n: Seq<char>| #[trigger] lookup(self.other(dev), n) == if lookup(updated@.subrange(0, i as int), n) is Some && n != start.name@ { None } else { lookup(start.other(dev), n) },
            decreases updated@.len() - i,
        {
            let ghost pre = updated@.subrange(0, i as int);
            assert(updated@.subrange(0, i + 1) =~= pre.push(updated@[i as int]));
            proof {
                assert forall|n: Seq<char>| #[trigger] lookup(updated@.subrange(0, i + 1), n) == if updated@[i as int].0@ == n { Some(updated@[i as int].1) } else { lookup(pre, n) } by {
                    lemma_lookup_push(pre, updated@[i as int], n);
                }
            }
            if !same_text(updated[i].0.as_str(), self.name.as_str()) {
                self.update_entry(updated[i].0.as_str(), updated[i].1, dev);
            }
            i = i + 1;
        }
        assert(updated@.subrange(0, updated@.len() as int) =~= updated@);
    }

    /// The dependencies to fetch: the runtime ones, and the development ones too
    /// unless `core_only`.
    pub fn fetch_targets(&self, core_only: bool) -> (r: VersionMap)
        requires
            self.wf(),
        ensures
            keys_unique(r@),
            forall|n: Seq<char>| #[trigger] lookup(r@, n) == self.target_of(core_only, n),
    {
        let mut out = copy_map(&self.dependencies);
        if !core_only {
            let mut i: usize = 0;
            while i < self.dev_dependencies.len()
                invariant
                    0 <= i <= self.dev_dependencies@.len(),
                    self.wf(),
                    keys_unique(out@),
                    forall|n: Seq<char>| #[trigger] lookup(out@, n) == if lookup(self.dependencies@, n) is Some { lookup(self.dependencies@, n) } else { lookup(self.dev_dependencies@.subrange(0, i as int), n) },
                decreases self.dev_dependencies@.len() - i,
            {
                let ghost pre = self.dev_dependencies@.subrange(0, i as int);
                let e = (self.dev_dependencies[i].0.clone(), self.dev_dependencies[i].1);
                assert(self.dev_dependencies@.subrange(0, i + 1) =~= pre.push(e));
                proof {
                    lemma_lookup_at(self.dev_dependencies@, i as int);
                    assert forall|k: int| 0 <= k < pre.len() implies #[trigger] pre[k].0@ != e.0@ by {
                        assert(pre[k] == self.dev_dependencies@[k]);
                    }
                    lemma_lookup_none(pre, e.0@);
                    lemma_unique_push(out@, e);
                    assert forall|n: Seq<char>| #[trigger] lookup(out@.push(e), n) == if lookup(self.dependencies@, n) is Some { lookup(self.dependencies@, n) } else { lookup(self.dev_dependencies@.subrange(0, i + 1), n) } by {
                        lemma_lookup_push(out@, e, n);
                        lemma_lookup_push(pre, e, n);
                    }
                }
                out.push(e);
                i = i + 1;
            }
            assert(self.dev_dependencies@.subrange(0, self.dev_dependencies@.len() as int) =~= self.dev_dependencies@);
        }
        out
    }
}

/// The names of a list of texts, as character sequences.
pub open spec fn names(xs: Seq<String>) -> Seq<Seq<char>> {
    xs.map_values(|x: String| x@)
}

/// Removing the `k`-th name of `xs` from `t` fails: it is not in `t`, or an
/// earlier position of `xs` has already removed it.
pub open spec fn removal_fails_at(t: Seq<(String, u32)>, xs: Seq<Seq<char>>, k: int) -> bool {
    lookup(t, xs[k]) is None || xs.subrange(0, k).contains(xs[k])
}

fn copy_map(v: &VersionMap) -> (r: VersionMap)
    ensures
        r@ == v@,
{
    let mut out: VersionMap = Vec::new();
    let mut i: usize = 0;
    while i < v.len()
        invariant
            0 <= i <= v@.len(),
            out@ == v@.subrange(0, i as int),
        decreases v@.len() - i,
    {
        out.push((v[i].0.clone(), v[i].1));
        assert(out@ =~= v@.subrange(0, i + 1));
        i = i + 1;
    }
    assert(out@ =~= v@);
    out
}

/// The names of a map's entries, in order.
pub fn names_of(v: &VersionMap) -> (r: Vec<String>)
    ensures
        r@.len() == v@.len(),
        forall|i: int| 0 <= i < v@.len() ==> #[trigger] r@[i]@ == v@[i].0@,
{
    let mut out: Vec<String> = Vec::new();
    let mut i: usize = 0;
    while i < v.len()
        invariant
            0 <= i <= v@.len(),
            out@.len() == i,
            forall|k: int| 0 <= k < i ==> #[trigger] out@[k]@ == v@[k].0@,
        decreases v@.len() - i,
    {
        out.push(v[i].0.clone());
        i = i + 1;
    }
    out
}

/// Whether no name occurs twice in a map.
pub fn unique_names(v: &VersionMap) -> (r: bool)
    ensures
        r == keys_unique(v@),
{
    let n = v.len();
    let mut i: usize = 0;
    while i < n
        invariant
            n == v@.len(),
            0 <= i <= n,
            forall|a: int, b: int| 0 <= a < i && a < b < n ==> #[trigger] v@[a].0@ != #[trigger] v@[b].0@,
        decreases n - i,
    {
        let mut j: usize = i + 1;
        while j < n
            invariant
                n == v@.len(),
                0 <= i < n,
                i + 1 <= j <= n,
                forall|a: int, b: int| 0 <= a < i && a < b < n ==> #[trigger] v@[a].0@ != #[trigger] v@[b].0@,
                forall|b: int| i < b < j ==> v@[i as int].0@ != #[trigger] v@[b].0@,
            decreases n - j,
        {
            if same_text(v[i].0.as_str(), v[j].0.as_str()) {
                return false;
            }
            j = j + 1;
        }
        i = i + 1;
    }
    true
}

} // verus!
