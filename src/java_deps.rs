use vstd::prelude::*;
use vstd::string::*;

use crate::order::{
    chars_lt, compare_str, lemma_chars_lt_irreflexive,
    lemma_chars_lt_total, lemma_chars_lt_transitive,
};

verus! {

/// A Java library that generated code refers to: the package to import and
/// its Maven coordinates.
#[derive(Debug, Clone, Copy)]
pub struct JavaDep {
    base_import: &'static str,
    group_id: &'static str,
    artifact_id: &'static str,
    version: &'static str,
}

/// A dependency as four character sequences: base import, group id,
/// artifact id and version.
pub type DepKey = (Seq<char>, Seq<char>, Seq<char>, Seq<char>);

impl View for JavaDep {
    type V = DepKey;

    closed spec fn view(&self) -> DepKey {
        (self.base_import@, self.group_id@, self.artifact_id@, self.version@)
    }
}

/// Lexicographic order over the four fields of a dependency.
pub open spec fn dep_lt(x: DepKey, y: DepKey) -> bool {
    chars_lt(x.0, y.0) || (x.0 == y.0 && (chars_lt(x.1, y.1) || (x.1 == y.1 && (chars_lt(x.2, y.2)
        || (x.2 == y.2 && chars_lt(x.3, y.3))))))
}

pub proof fn lemma_dep_lt_irreflexive(x: DepKey)
    ensures
        !dep_lt(x, x),
{
    lemma_chars_lt_irreflexive(x.0);
    lemma_chars_lt_irreflexive(x.1);
    lemma_chars_lt_irreflexive(x.2);
    lemma_chars_lt_irreflexive(x.3);
}

pub proof fn lemma_dep_lt_transitive(x: DepKey, y: DepKey, z: DepKey)
    requires
        dep_lt(x, y),
        dep_lt(y, z),
    ensures
        dep_lt(x, z),
{
    if chars_lt(x.0, y.0) && chars_lt(y.0, z.0) {
        lemma_chars_lt_transitive(x.0, y.0, z.0);
    }
    if chars_lt(x.1, y.1) && chars_lt(y.1, z.1) {
        lemma_chars_lt_transitive(x.1, y.1, z.1);
    }
    if chars_lt(x.2, y.2) && chars_lt(y.2, z.2) {
        lemma_chars_lt_transitive(x.2, y.2, z.2);
    }
    if chars_lt(x.3, y.3) && chars_lt(y.3, z.3) {
        lemma_chars_lt_transitive(x.3, y.3, z.3);
    }
}

pub proof fn lemma_dep_lt_total(x: DepKey, y: DepKey)
    ensures
        x == y || dep_lt(x, y) || dep_lt(y, x),
{
    lemma_chars_lt_total(x.0, y.0);
    lemma_chars_lt_total(x.1, y.1);
    lemma_chars_lt_total(x.2, y.2);
    lemma_chars_lt_total(x.3, y.3);
}

pub proof fn lemma_dep_lt_asymmetric(x: DepKey, y: DepKey)
    requires
        dep_lt(x, y),
    ensures
        !dep_lt(y, x),
{
    if dep_lt(y, x) {
        lemma_dep_lt_transitive(x, y, x);
        lemma_dep_lt_irreflexive(x);
    }
}

/// The javatuples library, which provides `Pair`, `Triplet` and the other tuple classes.
pub fn javatuples() -> (r: JavaDep)
    ensures
        r@ == ("org.javatuples.*"@, "org.javatuples"@, "javatuples"@, "1.2"@),
{
    JavaDep::def("org.javatuples.*", "org.javatuples", "javatuples", "1.2")
}

/// The wasmtime-java library, which embeds the wasmtime runtime.
pub fn wasmtime() -> (r: JavaDep)
    ensures
        r@ == ("net.bluejekyll.wasmtime.*"@, "net.bluejekyll"@, "wasmtime-java"@, "1.0-SNAPSHOT"@),
{
    JavaDep::def("net.bluejekyll.wasmtime.*", "net.bluejekyll", "wasmtime-java", "1.0-SNAPSHOT")
}

/// The wasmtime-java class of an engine.
pub fn wt_engine() -> (r: &'static str)
    ensures
        r@ == "WasmEngine"@,
{
    "WasmEngine"
}

/// The wasmtime-java class of a store.
pub fn wt_store() -> (r: &'static str)
    ensures
        r@ == "WasmStore"@,
{
    "WasmStore"
}

/// The wasmtime-java class of a module instance.
pub fn wt_instance() -> (r: &'static str)
    ensures
        r@ == "WasmInstance"@,
{
    "WasmInstance"
}

/// The wasmtime-java class of an exported function.
pub fn wt_function() -> (r: &'static str)
    ensures
        r@ == "WasmFunction"@,
{
    "WasmFunction"
}

/// The wasmtime-java class of a compiled module.
pub fn wt_module() -> (r: &'static str)
    ensures
        r@ == "WasmModule"@,
{
    "WasmModule"
}

/// The Maven stanza of a dependency.
pub open spec fn pom_text(group_id: Seq<char>, artifact_id: Seq<char>, version: Seq<char>) -> Seq<
    char,
> {
    "\n        <dependency>\n            <groupId>"@ + group_id
        + "</groupId>\n            <artifactId>"@ + artifact_id
        + "</artifactId>\n            <version>"@ + version
        + "</version>\n        </dependency>\n        "@
}

impl JavaDep {
    pub fn def(
        base_import: &'static str,
        group_id: &'static str,
        artifact_id: &'static str,
        version: &'static str,
    ) -> (r: Self)
        ensures
            r@ == (base_import@, group_id@, artifact_id@, version@),
    {
        JavaDep { base_import, group_id, artifact_id, version }
    }

    /// The package to import, with a wildcard, e.g. `org.javatuples.*`.
    pub fn base_import(&self) -> (r: &str)
        ensures
            r@ == self@.0,
    {
        self.base_import
    }

    /// The Maven group id.
    pub fn group_id(&self) -> (r: &str)
        ensures
            r@ == self@.1,
    {
        self.group_id
    }

    /// The Maven artifact id.
    pub fn artifact_id(&self) -> (r: &str)
        ensures
            r@ == self@.2,
    {
        self.artifact_id
    }

    /// The library version.
    pub fn version(&self) -> (r: &str)
        ensures
            r@ == self@.3,
    {
        self.version
    }

    /// The `<dependency>` stanza of a Maven pom for this library.
    pub fn pom_dep(&self) -> (r: String)
        ensures
            r@ == pom_text(self@.1, self@.2, self@.3),
    {
        let mut out = String::from_str("\n        <dependency>\n            <groupId>");
        out.append(self.group_id);
        out.append("</groupId>\n            <artifactId>");
        out.append(self.artifact_id);
        out.append("</artifactId>\n            <version>");
        out.append(self.version);
        out.append("</version>\n        </dependency>\n        ");
        out
    }

    /// Compares two dependencies in `dep_lt` order: negative, zero or positive.
    pub fn compare(&self, other: &JavaDep) -> (r: i8)
        ensures
            r < 0 <==> dep_lt(self@, other@),
            r == 0 <==> self@ == other@,
            r > 0 <==> dep_lt(other@, self@),
    {
        proof {
            lemma_dep_lt_irreflexive(self@);
            lemma_dep_lt_total(self@, other@);
            if dep_lt(self@, other@) {
                lemma_dep_lt_asymmetric(self@, other@);
            }
        }
        let c = compare_str(self.base_import, other.base_import);
        if c != 0 {
            return c;
        }
        let c = compare_str(self.group_id, other.group_id);
        if c != 0 {
            return c;
        }
        let c = compare_str(self.artifact_id, other.artifact_id);
        if c != 0 {
            return c;
        }
        compare_str(self.version, other.version)
    }
}


/// Strictly ascending in `dep_lt`, and so free of repeats.
pub open spec fn deps_sorted(s: Seq<DepKey>) -> bool {
    forall|i: int, j: int| 0 <= i < j < s.len() ==> dep_lt(#[trigger] s[i], #[trigger] s[j])
}

/// The set of libraries that generated code refers to, each once, listed in
/// `dep_lt` order whatever the order in which they were added.
pub struct DepRegistry {
    deps: Vec<JavaDep>,
}

impl View for DepRegistry {
    type V = Seq<DepKey>;

    closed spec fn view(&self) -> Seq<DepKey> {
        self.deps@.map_values(|d: JavaDep| d@)
    }
}

impl DepRegistry {
    pub open spec fn wf(&self) -> bool {
        deps_sorted(self@)
    }

    pub fn new() -> (r: Self)
        ensures
            r.wf(),
            r@ == Seq::<DepKey>::empty(),
    {
        let r = DepRegistry { deps: Vec::new() };
        proof {
            assert(r@ =~= Seq::<DepKey>::empty());
        }
        r
    }

    /// The number of libraries.
    pub fn len(&self) -> (r: usize)
        ensures
            r == self@.len(),
    {
        self.deps.len()
    }

    pub fn is_empty(&self) -> (r: bool)
        ensures
            r == (self@.len() == 0),
    {
        self.deps.len() == 0
    }

    /// The library at position `i` of the order.
    pub fn get(&self, i: usize) -> (r: JavaDep)
        requires
            i < self@.len(),
        ensures
            r@ == self@[i as int],
    {
        self.deps[i]
    }

    /// Adds a library; one that is already there is not added again.
    pub fn insert(&mut self, d: JavaDep)
        requires
            old(self).wf(),
        ensures
            final(self).wf(),
            final(self)@.to_set() == old(self)@.to_set().insert(d@),
    {
        let ghost old_v = self@;
        let mut p: usize = 0;
        while p < self.deps.len() && self.deps[p].compare(&d) < 0
            invariant
                self@ == old_v,
                p <= old_v.len(),
                forall|j: int| 0 <= j < p ==> dep_lt(#[trigger] old_v[j], d@),
            decreases old_v.len() - p,
        {
            p = p + 1;
        }
        if p < self.deps.len() && self.deps[p].compare(&d) == 0 {
            proof {
                assert(old_v[p as int] == self.deps@[p as int]@);
                assert(old_v[p as int] == d@);
                assert(old_v.contains(d@));
                assert(old_v.to_set().insert(d@) =~= old_v.to_set());
            }
            return;
        }
        proof {
            if p < old_v.len() {
                lemma_dep_lt_total(old_v[p as int], d@);
            }
        }
        self.deps.insert(p, d);
        proof {
            let nv = old_v.insert(p as int, d@);
            assert(self@ =~= nv);
            assert forall|i: int, j: int| 0 <= i < j < nv.len() implies dep_lt(
                #[trigger] nv[i],
                #[trigger] nv[j],
            ) by {
                if j == p {
                } else if i == p {
                    if j - 1 > p {
                        lemma_dep_lt_transitive(d@, old_v[p as int], old_v[j - 1]);
                    }
                } else if i > p {
                    assert(nv[i] == old_v[i - 1] && nv[j] == old_v[j - 1]);
                } else if j > p {
                    assert(nv[j] == old_v[j - 1]);
                }
            }
            assert forall|y: DepKey| #[trigger] nv.contains(y) <==> (old_v.contains(y) || y
                == d@) by {
                if old_v.contains(y) {
                    let k = choose|k: int| 0 <= k < old_v.len() && old_v[k] == y;
                    if k < p {
                        assert(nv[k] == y);
                    } else {
                        assert(nv[k + 1] == y);
                    }
                }
                if y == d@ {
                    assert(nv[p as int] == y);
                }
                if nv.contains(y) {
                    let k = choose|k: int| 0 <= k < nv.len() && nv[k] == y;
                    if k < p {
                        assert(old_v[k] == y);
                    } else if k > p {
                        assert(old_v[k - 1] == y);
                    }
                }
            }
            assert(nv.to_set() =~= old_v.to_set().insert(d@));
        }
    }
}

/// A registry's order is fixed by its members: two registries that hold the
/// same libraries list them identically, whatever order they came in.
pub proof fn lemma_members_fix_order(x: Seq<DepKey>, y: Seq<DepKey>)
    requires
        deps_sorted(x),
        deps_sorted(y),
        x.to_set() == y.to_set(),
    ensures
        x == y,
    decreases x.len(),
{
    if x.len() == 0 {
        if y.len() > 0 {
            assert(y.to_set().contains(y[0]));
        }
        assert(x =~= y);
    } else {
        assert(x.to_set().contains(x[0]));
        if y.len() == 0 {
            assert(!y.to_set().contains(x[0]));
        }
        let m = choose|m: int| 0 <= m < y.len() && y[m] == x[0];
        assert(y.to_set().contains(y[0]));
        let k = choose|k: int| 0 <= k < x.len() && x[k] == y[0];
        if k > 0 && m > 0 {
            assert(dep_lt(x[0], x[k]));
            assert(dep_lt(y[0], y[m]));
            lemma_dep_lt_asymmetric(x[0], y[0]);
        }
        assert(x[0] == y[0]);
        let h = x[0];
        let xt = x.drop_first();
        let yt = y.drop_first();
        assert(deps_sorted(xt)) by {
            assert forall|i: int, j: int| 0 <= i < j < xt.len() implies dep_lt(
                #[trigger] xt[i],
                #[trigger] xt[j],
            ) by {
                assert(xt[i] == x[i + 1] && xt[j] == x[j + 1]);
            }
        }
        assert(deps_sorted(yt)) by {
            assert forall|i: int, j: int| 0 <= i < j < yt.len() implies dep_lt(
                #[trigger] yt[i],
                #[trigger] yt[j],
            ) by {
                assert(yt[i] == y[i + 1] && yt[j] == y[j + 1]);
            }
        }
        lemma_dep_lt_irreflexive(h);
        assert forall|z: DepKey| #[trigger] xt.contains(z) <==> (x.contains(z) && z != h) by {
            if xt.contains(z) {
                let i = choose|i: int| 0 <= i < xt.len() && xt[i] == z;
                assert(x[i + 1] == z);
                assert(dep_lt(x[0], x[i + 1]));
            }
            if x.contains(z) && z != h {
                let i = choose|i: int| 0 <= i < x.len() && x[i] == z;
                assert(xt[i - 1] == z);
            }
        }
        assert forall|z: DepKey| #[trigger] yt.contains(z) <==> (y.contains(z) && z != h) by {
            if yt.contains(z) {
                let i = choose|i: int| 0 <= i < yt.len() && yt[i] == z;
                assert(y[i + 1] == z);
                assert(dep_lt(y[0], y[i + 1]));
            }
            if y.contains(z) && z != h {
                let i = choose|i: int| 0 <= i < y.len() && y[i] == z;
                assert(yt[i - 1] == z);
            }
        }
        assert forall|z: DepKey| x.contains(z) <==> y.contains(z) by {
            assert(x.to_set().contains(z) == x.contains(z));
            assert(y.to_set().contains(z) == y.contains(z));
            assert(x.to_set().contains(z) == y.to_set().contains(z));
        }
        assert(xt.to_set() =~= yt.to_set());
        lemma_members_fix_order(xt, yt);
        assert(x =~= seq![h] + xt);
        assert(y =~= seq![h] + yt);
    }
}

/// A registry lists each of its libraries exactly once.
pub proof fn lemma_members_counted_once(x: Seq<DepKey>)
    requires
        deps_sorted(x),
    ensures
        x.len() == x.to_set().len(),
{
    assert(x.no_duplicates()) by {
        assert forall|i: int, j: int| 0 <= i < x.len() && 0 <= j < x.len() && i != j implies x[i]
            != x[j] by {
            if i < j {
                assert(dep_lt(x[i], x[j]));
            } else {
                assert(dep_lt(x[j], x[i]));
            }
            lemma_dep_lt_irreflexive(x[i]);
        }
    }
    x.unique_seq_to_set();
}

/// Adding two libraries in either order gives the same listing; adding one
/// library twice to an empty registry leaves a single entry.
pub proof fn lemma_insert_order_irrelevant(
    start: Set<DepKey>,
    a: DepKey,
    b: DepKey,
    x: Seq<DepKey>,
    y: Seq<DepKey>,
)
    requires
        deps_sorted(x),
        deps_sorted(y),
        x.to_set() == start.insert(a).insert(b),
        y.to_set() == start.insert(b).insert(a),
    ensures
        x == y,
        start.is_empty() && a == b ==> x.len() == 1,
{
    assert(start.insert(a).insert(b) =~= start.insert(b).insert(a));
    lemma_members_fix_order(x, y);
    lemma_members_counted_once(x);
    if start.is_empty() && a == b {
        assert(x.to_set() =~= set![a]);
    }
}

} // verus!
