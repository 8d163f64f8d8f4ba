//! The lockfile: a recursive record of what was installed and how it was built.

use vstd::prelude::*;
use vstd::string::*;

use crate::numbers::{hex_of, hex_string, is_digit, is_integer_version};
use crate::text::same_text;

verus! {

broadcast use vstd::std_specs::vec::group_vec_axioms;

/// Version of this tool, stamped into every node it writes.
pub const TOOL_VERSION: &'static str = "0.1.0";

/// A docker container image and the tag to use.
#[derive(Debug, Clone)]
pub struct Container {
    /// The fully qualified image name
    pub name: String,
    /// The tag to use
    pub tag: String,
}

/// `s` holds exactly one `:`, at index `i`.
pub open spec fn single_colon_at(s: Seq<char>, i: int) -> bool {
    0 <= i < s.len() && s[i] == ':' && forall|j: int|
        0 <= j < s.len() && j != i ==> #[trigger] s[j] != ':'
}

/// Image and tag named by `image:tag`; without exactly one `:` the whole text is
/// the image and the tag is `latest`.
pub open spec fn container_parts(s: Seq<char>) -> (Seq<char>, Seq<char>) {
    if exists|i: int| single_colon_at(s, i) {
        let i = choose|i: int| single_colon_at(s, i);
        (s.subrange(0, i), s.subrange(i + 1, s.len() as int))
    } else {
        (s, "latest"@)
    }
}

impl Container {
    /// Splits `image:tag`; without exactly one `:` the whole text is the image and
    /// the tag is `latest`.
    pub fn new(container: &str) -> (r: Container)
        ensures
            (r.name@, r.tag@) == container_parts(container@),
    {
        let n = container.unicode_len();
        let mut count: usize = 0;
        let mut pos: usize = 0;
        let mut i: usize = 0;
        while i < n
            invariant
                n == container@.len(),
                0 <= i <= n,
                count <= i,
                count == 0 ==> forall|j: int| 0 <= j < i ==> container@[j] != ':',
                count == 1 ==> pos < i && container@[pos as int] == ':' && forall|j: int|
                    0 <= j < i && j != pos ==> container@[j] != ':',
                count >= 2 ==> exists|a: int, b: int|
                    0 <= a < b < i && container@[a] == ':' && container@[b] == ':',
            decreases n - i,
        {
            if container.get_char(i) == ':' {
                if count == 0 {
                    pos = i;
                } else if count == 1 {
                    assert(container@[pos as int] == ':' && container@[i as int] == ':');
                }
                if count < 2 {
                    count = count + 1;
                }
            }
            i = i + 1;
        }
        proof {
            reveal_strlit("latest");
        }
        if count == 1 {
            let name = String::from_str(container.substring_char(0, pos));
            let tag = String::from_str(container.substring_char(pos + 1, n));
            let r = Container { name, tag };
            assert(single_colon_at(container@, pos as int));
            let ghost i = choose|i: int| single_colon_at(container@, i);
            assert(i == pos as int);
            r
        } else {
            proof {
                if count >= 2 {
                    assert forall|i: int| !single_colon_at(container@, i) by {
                        let (a, b) = choose|a: int, b: int|
                            0 <= a < b < n && container@[a] == ':' && container@[b] == ':';
                        if single_colon_at(container@, i) {
                            assert(a == i);
                            assert(b == i);
                        }
                    }
                }
            }
            Container { name: String::from_str(container), tag: String::from_str("latest") }
        }
    }
}

/// One node of the lockfile tree.
///
/// The children are kept in a list; a child's `name` is its key, so no two children
/// share a name (see `children_unique`).
#[derive(Debug)]
pub struct Lockfile {
    /// Name of the component built
    pub name: String,
    /// Build configuration used
    pub config: String,
    /// Container and tag used to build
    pub container: Container,
    /// Version of the component built: an integer, or a symbolic label
    pub version: String,
    /// Environment the component was built in
    pub environment: String,
    /// Version of the tool that wrote the node
    pub tool: String,
    /// Dependencies used, each a node of the same kind
    pub dependencies: Vec<Lockfile>,
}

/// No two children of `l` have the same name.
pub open spec fn children_unique(l: Lockfile) -> bool {
    forall|i: int, j: int|
        0 <= i < j < l.dependencies.len() ==> #[trigger] l.dependencies@[i].name@
            != #[trigger] l.dependencies@[j].name@
}

/// Identity of a node as recorded in a closure: name, version and environment.
pub open spec fn ident(l: Lockfile) -> (Seq<char>, Seq<char>, Seq<char>) {
    (l.name@, l.version@, l.environment@)
}

/// Identities of the nodes below the children of `l` from index `i` on, those
/// children included.
pub open spec fn below(l: Lockfile, i: int) -> Set<(Seq<char>, Seq<char>, Seq<char>)>
    decreases l, l.dependencies.len() - i,
{
    if 0 <= i < l.dependencies.len() {
        let c = l.dependencies@[i];
        below(l, i + 1).insert(ident(c)).union(below(c, 0))
    } else {
        Set::empty()
    }
}

/// Identities of every node strictly below the root `l`: its transitive closure.
pub open spec fn closure(l: Lockfile) -> Set<(Seq<char>, Seq<char>, Seq<char>)> {
    below(l, 0)
}

/// The identities listed in a usage table.
pub open spec fn usage_set(v: Seq<(String, String, String)>) -> Set<
    (Seq<char>, Seq<char>, Seq<char>),
> {
    Set::new(|t: (Seq<char>, Seq<char>, Seq<char>)| exists|k: int| 0 <= k < v.len() && t == (#[trigger] v[k].0@, v[k].1@, v[k].2@))
}

/// Every (name, version, environment) that occurs below a root, one entry per node.
pub type DependencyUsage = Vec<(String, String, String)>;

proof fn lemma_usage_push(v: Seq<(String, String, String)>, x: (String, String, String))
    ensures
        usage_set(v.push(x)) == usage_set(v).insert((x.0@, x.1@, x.2@)),
{
    let w = v.push(x);
    assert forall|t| usage_set(w).contains(t) implies usage_set(v).insert((x.0@, x.1@, x.2@)).contains(t) by {
        let k = choose|k: int| 0 <= k < w.len() && t == (#[trigger] w[k].0@, w[k].1@, w[k].2@);
        if k < v.len() {
            assert(v[k] == w[k]);
        }
    }
    assert forall|t| usage_set(v).insert((x.0@, x.1@, x.2@)).contains(t) implies usage_set(w).contains(t) by {
        if t == (x.0@, x.1@, x.2@) {
            assert(w[v.len() as int] == x);
        } else {
            let k = choose|k: int| 0 <= k < v.len() && t == (#[trigger] v[k].0@, v[k].1@, v[k].2@);
            assert(w[k] == v[k]);
        }
    }
    assert(usage_set(w) =~= usage_set(v).insert((x.0@, x.1@, x.2@)));
}

fn collect_usage(l: &Lockfile, out: &mut DependencyUsage)
    ensures
        usage_set(final(out)@) == usage_set(old(out)@).union(closure(*l)),
    decreases l,
{
    let n = l.dependencies.len();
    let mut i: usize = 0;
    while i < n
        invariant
            n == l.dependencies.len(),
            0 <= i <= n,
            usage_set(out@).union(below(*l, i as int)) == usage_set(old(out)@).union(
                closure(*l),
            ),
        decreases n - i,
    {
        let c = &l.dependencies[i];
        let ghost before = usage_set(out@);
        let entry = (c.name.clone(), c.version.clone(), c.environment.clone());
        proof {
            lemma_usage_push(out@, entry);
        }
        out.push(entry);
        collect_usage(c, out);
        assert(usage_set(out@).union(below(*l, i + 1)) =~= before.union(below(*l, i as int)));
        i = i + 1;
    }
    assert(below(*l, n as int) =~= Set::empty());
    assert(usage_set(out@) =~= usage_set(out@).union(below(*l, n as int)));
}

/// Lists every node of the tree below `lock` by name, version and environment.
pub fn find_all_dependencies(lock: &Lockfile) -> (r: DependencyUsage)
    ensures
        usage_set(r@) == closure(*lock),
{
    let mut out: DependencyUsage = Vec::new();
    collect_usage(lock, &mut out);
    assert(usage_set(Seq::empty()) =~= Set::empty());
    assert(usage_set(out@) =~= closure(*lock));
    out
}

/// Position of the node named `name` in `deps`, if there is one.
fn child_index(deps: &Vec<Lockfile>, name: &str) -> (r: Option<usize>)
    ensures
        r matches Some(i) ==> i < deps@.len() && deps@[i as int].name@ == name@,
        r is None ==> forall|k: int| 0 <= k < deps@.len() ==> #[trigger] deps@[k].name@ != name@,
{
    let mut i: usize = 0;
    while i < deps.len()
        invariant
            0 <= i <= deps@.len(),
            forall|k: int| 0 <= k < i ==> #[trigger] deps@[k].name@ != name@,
        decreases deps@.len() - i,
    {
        if same_text(deps[i].name.as_str(), name) {
            return Some(i);
        }
        i = i + 1;
    }
    None
}

/// Relies on rand::random::<u64>: some 64-bit value, of which nothing is known.
#[verifier::external_body]
fn random_u64() -> u64 {
    rand::random::<u64>()
}

/// The version given to a node built without one: `EXPERIMENTAL+` and hex digits.
pub open spec fn is_experimental_marker(s: Seq<char>) -> bool {
    exists|x: nat| s == "EXPERIMENTAL+"@ + #[trigger] hex_of(x)
}

impl Lockfile {
    /// A fresh node with no dependencies, stamped by this tool, in the `global`
    /// environment.
    ///
    /// Without a version it gets an experimental marker, which is never an integer
    /// version; without a build configuration it gets `release`.
    pub fn new(name: &str, container: &str, v: Option<&str>, build_cfg: Option<&str>) -> (r:
        Lockfile)
        ensures
            r.name@ == name@,
            v matches Some(s) ==> r.version@ == s@,
            v is None ==> is_experimental_marker(r.version@) && !is_integer_version(r.version@),
            build_cfg matches Some(c) ==> r.config@ == c@,
            build_cfg is None ==> r.config@ == "release"@,
            (r.container.name@, r.container.tag@) == container_parts(container@),
            r.environment@ == "global"@,
            r.tool@ == TOOL_VERSION@,
            r.dependencies@.len() == 0,
    {
        proof {
            reveal_strlit("EXPERIMENTAL+");
        }
        let version = match v {
            Some(s) => String::from_str(s),
            None => {
                let x = random_u64();
                let hex = hex_string(x);
                let s = String::from_str("EXPERIMENTAL+").concat(hex.as_str());
                assert(s@ == "EXPERIMENTAL+"@ + hex_of(x as nat));
                assert(s@[0] == 'E');
                assert(!is_digit(s@[0]));
                s
            },
        };
        let config = match build_cfg {
            Some(c) => String::from_str(c),
            None => String::from_str("release"),
        };
        Lockfile {
            name: String::from_str(name),
            config,
            container: Container::new(container),
            version,
            environment: String::from_str("global"),
            tool: String::from_str(TOOL_VERSION),
            dependencies: Vec::new(),
        }
    }

    /// Installs `dep` as a dependency, in place of any child of the same name.
    pub fn insert_dependency(&mut self, dep: Lockfile)
        requires
            children_unique(*old(self)),
        ensures
            children_unique(*final(self)),
            final(self).name == old(self).name,
            final(self).version == old(self).version,
            final(self).environment == old(self).environment,
            exists|i: int| 0 <= i < final(self).dependencies.len() && #[trigger] final(self).dependencies@[i] == dep,
            forall|c: Lockfile| c.name@ != dep.name@ ==> (old(self).dependencies@.contains(c) <==> #[trigger] final(self).dependencies@.contains(c)),
            forall|c: Lockfile| #[trigger] final(self).dependencies@.contains(c) && c.name@ == dep.name@ ==> c == dep,
    {
        let n = self.dependencies.len();
        let i = match child_index(&self.dependencies, dep.name.as_str()) {
            Some(i) => i,
            None => n,
        };
        let ghost before = self.dependencies@;
        if i < n {
            self.dependencies.remove(i);
            proof {
                assert forall|k: int| 0 <= k < before.len() && k != i implies #[trigger] before[k].name@ != dep.name@ by {
                    assert(before[k].name@ != before[i as int].name@);
                }
            }
        }
        let ghost mid = self.dependencies@;
        assert(forall|c: Lockfile| #[trigger] mid.contains(c) ==> c.name@ != dep.name@);
        assert forall|c: Lockfile| c.name@ != dep.name@ implies (before.contains(c) <==> #[trigger] mid.contains(c)) by {
            if before.contains(c) {
                let k = choose|k: int| 0 <= k < before.len() && before[k] == c;
                if i < n {
                    assert(k != i);
                    if k < i {
                        assert(mid[k] == c);
                    } else {
                        assert(mid[k - 1] == c);
                    }
                }
            }
        }
        self.dependencies.push(dep);
        proof {
            let fin = self.dependencies@;
            assert(fin[fin.len() - 1] == dep);
            assert forall|a: int, b: int| 0 <= a < b < fin.len() implies #[trigger] fin[a].name@ != #[trigger] fin[b].name@ by {
                if b == fin.len() - 1 {
                    assert(mid.contains(fin[a]));
                } else {
                    if i < n {
                        let a0 = if a < i { a } else { a + 1 };
                        let b0 = if b < i { b } else { b + 1 };
                        assert(fin[a] == before[a0]);
                        assert(fin[b] == before[b0]);
                    } else {
                        assert(fin[a] == before[a]);
                        assert(fin[b] == before[b]);
                    }
                }
            }
            assert forall|c: Lockfile| c.name@ != dep.name@ implies (mid.contains(c) <==> #[trigger] fin.contains(c)) by {
                if mid.contains(c) {
                    let k = choose|k: int| 0 <= k < mid.len() && mid[k] == c;
                    assert(fin[k] == c);
                }
                if fin.contains(c) {
                    let k = choose|k: int| 0 <= k < fin.len() && fin[k] == c;
                    assert(mid[k] == c);
                }
            }
            assert forall|c: Lockfile| #[trigger] fin.contains(c) && c.name@ == dep.name@ implies c == dep by {
                let k = choose|k: int| 0 <= k < fin.len() && fin[k] == c;
                if k < fin.len() - 1 {
                    assert(mid[k] == c);
                    assert(mid.contains(c));
                }
            }
        }
    }
}

} // verus!
