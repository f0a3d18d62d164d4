use vstd::prelude::*;
use vstd::string::*;

use crate::order::{
    chars_lt, compare_str, lemma_chars_lt_asymmetric, lemma_chars_lt_irreflexive,
    lemma_chars_lt_total, lemma_chars_lt_transitive,
};
use crate::source::Source;

verus! {

/// Where the value of a generated field comes from.
#[derive(Debug)]
pub enum HostFieldFrom {
    /// Handed to the class's constructor.
    Constructor,
    /// Computed by calling the named function.
    Function(String),
}

/// A field of a generated class.
#[derive(Debug)]
pub struct HostField {
    pub name: String,
    pub java_ty: String,
    pub from: HostFieldFrom,
}

/// A field as its name, its Java type, and the function that computes it
/// (`None` for one handed to the constructor).
pub type FieldView = (Seq<char>, Seq<char>, Option<Seq<char>>);

/// The function that computes a field, or `None` for a constructor argument.
pub open spec fn origin_of(from: HostFieldFrom) -> Option<Seq<char>> {
    match from {
        HostFieldFrom::Constructor => None,
        HostFieldFrom::Function(f) => Some(f@),
    }
}

impl View for HostField {
    type V = FieldView;

    open spec fn view(&self) -> FieldView {
        (
            self.name@,
            self.java_ty@,
            origin_of(self.from),
        )
    }
}

impl HostField {
    pub fn from(name: String, java_ty: String, from: HostFieldFrom) -> (r: Self)
        ensures
            r.name == name,
            r.java_ty == java_ty,
            r.from == from,
    {
        HostField { name, java_ty, from }
    }

    pub fn is_from_constructor(&self) -> (r: bool)
        ensures
            r == (self@.2 is None),
    {
        match self.from {
            HostFieldFrom::Constructor => true,
            HostFieldFrom::Function(_) => false,
        }
    }
}

/// Fields strictly ascending by name, so no two share a name.
pub open spec fn fields_sorted(s: Seq<FieldView>) -> bool {
    forall|i: int, j: int| 0 <= i < j < s.len() ==> chars_lt(#[trigger] s[i].0, #[trigger] s[j].0)
}

/// The field table after registering `f`: a field of the same name is
/// replaced in place, otherwise `f` goes in by name order.
pub open spec fn field_insert(s: Seq<FieldView>, f: FieldView) -> Seq<FieldView>
    decreases s.len(),
{
    if s.len() == 0 {
        seq![f]
    } else if s[0].0 == f.0 {
        seq![f] + s.drop_first()
    } else if chars_lt(f.0, s[0].0) {
        seq![f] + s
    } else {
        seq![s[0]] + field_insert(s.drop_first(), f)
    }
}

/// The fields that the constructor takes, in table order.
pub open spec fn constructor_fields(s: Seq<FieldView>) -> Seq<FieldView> {
    s.filter(|f: FieldView| f.2 is None)
}

/// One more field adds itself to the constructor fields exactly when it is
/// handed to the constructor.
pub proof fn lemma_constructor_fields_push(s: Seq<FieldView>, f: FieldView)
    ensures
        constructor_fields(s.push(f)) == if f.2 is None {
            constructor_fields(s).push(f)
        } else {
            constructor_fields(s)
        },
{
    reveal(Seq::filter);
    assert(s.push(f).drop_last() =~= s);
    assert(s.push(f).last() == f);
}

proof fn lemma_field_insert_skip(s: Seq<FieldView>, f: FieldView, p: int)
    requires
        0 <= p <= s.len(),
        forall|j: int| 0 <= j < p ==> chars_lt(#[trigger] s[j].0, f.0),
    ensures
        field_insert(s, f) == s.take(p) + field_insert(s.skip(p), f),
    decreases p,
{
    if p == 0 {
        assert(s.skip(0) =~= s);
        assert(s.take(0) + field_insert(s, f) =~= field_insert(s, f));
    } else {
        lemma_chars_lt_asymmetric(s[0].0, f.0);
        lemma_chars_lt_irreflexive(f.0);
        let t = s.drop_first();
        assert forall|j: int| 0 <= j < p - 1 implies chars_lt(#[trigger] t[j].0, f.0) by {
            assert(t[j] == s[j + 1]);
        }
        lemma_field_insert_skip(t, f, p - 1);
        assert(t.skip(p - 1) =~= s.skip(p));
        assert(s.take(p) =~= seq![s[0]] + t.take(p - 1));
        assert(seq![s[0]] + (t.take(p - 1) + field_insert(s.skip(p), f)) =~= s.take(p)
            + field_insert(s.skip(p), f));
    }
}

/// Registering a field keeps the table sorted; afterwards it holds `f` and
/// every earlier field of another name, and nothing else.
pub proof fn lemma_field_insert(s: Seq<FieldView>, f: FieldView)
    requires
        fields_sorted(s),
    ensures
        fields_sorted(field_insert(s, f)),
        forall|g: FieldView| #[trigger]
            field_insert(s, f).contains(g) <==> (g == f || (s.contains(g) && g.0 != f.0)),
    decreases s.len(),
{
    let r = field_insert(s, f);
    if s.len() == 0 {
        assert forall|g: FieldView| #[trigger] r.contains(g) <==> (g == f || (s.contains(g) && g.0
            != f.0)) by {
            if r.contains(g) {
                assert(r[0] == g);
            }
            if g == f {
                assert(r[0] == g);
            }
        }
    } else {
        let t = s.drop_first();
        assert(fields_sorted(t)) by {
            assert forall|i: int, j: int| 0 <= i < j < t.len() implies chars_lt(
                #[trigger] t[i].0,
                #[trigger] t[j].0,
            ) by {
                assert(t[i] == s[i + 1] && t[j] == s[j + 1]);
            }
        }
        assert forall|g: FieldView| #[trigger] s.contains(g) <==> (g == s[0] || t.contains(g)) by {
            if s.contains(g) {
                let k = choose|k: int| 0 <= k < s.len() && s[k] == g;
                if k > 0 {
                    assert(t[k - 1] == g);
                }
            }
            if t.contains(g) {
                let k = choose|k: int| 0 <= k < t.len() && t[k] == g;
                assert(s[k + 1] == g);
            }
        }
        assert forall|g: FieldView| #[trigger] t.contains(g) implies chars_lt(s[0].0, g.0) by {
            let k = choose|k: int| 0 <= k < t.len() && t[k] == g;
            assert(s[k + 1] == g);
        }
        if s[0].0 == f.0 {
            assert forall|i: int, j: int| 0 <= i < j < r.len() implies chars_lt(
                #[trigger] r[i].0,
                #[trigger] r[j].0,
            ) by {
                if i == 0 {
                    assert(r[j] == s[j]);
                    assert(chars_lt(s[0].0, s[j].0));
                } else {
                    assert(r[i] == s[i] && r[j] == s[j]);
                }
            }
            assert forall|g: FieldView| #[trigger] r.contains(g) <==> (g == f || (s.contains(g)
                && g.0 != f.0)) by {
                lemma_chars_lt_irreflexive(f.0);
                if t.contains(g) {
                    let k = choose|k: int| 0 <= k < t.len() && t[k] == g;
                    assert(r[k + 1] == g);
                }
                if r.contains(g) {
                    let k = choose|k: int| 0 <= k < r.len() && r[k] == g;
                    if k > 0 {
                        assert(t[k - 1] == g);
                    }
                }
                if g == f {
                    assert(r[0] == g);
                }
            }
        } else if chars_lt(f.0, s[0].0) {
            assert forall|i: int, j: int| 0 <= i < j < r.len() implies chars_lt(
                #[trigger] r[i].0,
                #[trigger] r[j].0,
            ) by {
                if i == 0 {
                    assert(r[j] == s[j - 1]);
                    if j > 1 {
                        assert(chars_lt(s[0].0, s[j - 1].0));
                        lemma_chars_lt_transitive(f.0, s[0].0, s[j - 1].0);
                    }
                } else {
                    assert(r[i] == s[i - 1] && r[j] == s[j - 1]);
                }
            }
            assert forall|g: FieldView| #[trigger] r.contains(g) <==> (g == f || (s.contains(g)
                && g.0 != f.0)) by {
                if s.contains(g) {
                    let k = choose|k: int| 0 <= k < s.len() && s[k] == g;
                    assert(r[k + 1] == g);
                    if k > 0 {
                        assert(chars_lt(s[0].0, s[k].0));
                        lemma_chars_lt_transitive(f.0, s[0].0, s[k].0);
                        lemma_chars_lt_irreflexive(f.0);
                    } else {
                        lemma_chars_lt_irreflexive(f.0);
                    }
                }
                if r.contains(g) {
                    let k = choose|k: int| 0 <= k < r.len() && r[k] == g;
                    if k > 0 {
                        assert(s[k - 1] == g);
                    }
                }
                if g == f {
                    assert(r[0] == g);
                }
            }
        } else {
            lemma_chars_lt_total(f.0, s[0].0);
            lemma_field_insert(t, f);
            let rt = field_insert(t, f);
            assert(r == seq![s[0]] + rt);
            assert forall|i: int, j: int| 0 <= i < j < r.len() implies chars_lt(
                #[trigger] r[i].0,
                #[trigger] r[j].0,
            ) by {
                if i == 0 {
                    assert(r[j] == rt[j - 1]);
                    assert(rt.contains(rt[j - 1]));
                } else {
                    assert(r[i] == rt[i - 1] && r[j] == rt[j - 1]);
                }
            }
            assert forall|g: FieldView| #[trigger] r.contains(g) <==> (g == f || (s.contains(g)
                && g.0 != f.0)) by {
                if rt.contains(g) {
                    let k = choose|k: int| 0 <= k < rt.len() && rt[k] == g;
                    assert(r[k + 1] == g);
                }
                if r.contains(g) {
                    let k = choose|k: int| 0 <= k < r.len() && r[k] == g;
                    if k > 0 {
                        assert(rt[k - 1] == g);
                    }
                }
                if g == s[0] {
                    assert(r[0] == g);
                }
            }
        }
    }
}

/// Registering a field under a name that is already taken leaves exactly
/// one field of that name, the one registered last.
pub proof fn lemma_field_registered_twice(s: Seq<FieldView>, f1: FieldView, f2: FieldView)
    requires
        fields_sorted(s),
        f1.0 == f2.0,
    ensures
        ({
            let r = field_insert(field_insert(s, f1), f2);
            &&& fields_sorted(r)
            &&& exists|k: int|
                0 <= k < r.len() && r[k] == f2 && forall|j: int|
                    0 <= j < r.len() && #[trigger] r[j].0 == f2.0 ==> j == k
        }),
{
    lemma_field_insert(s, f1);
    let m = field_insert(s, f1);
    lemma_field_insert(m, f2);
    let r = field_insert(m, f2);
    assert(r.contains(f2));
    let k = choose|k: int| 0 <= k < r.len() && r[k] == f2;
    assert forall|j: int| 0 <= j < r.len() && #[trigger] r[j].0 == f2.0 implies j == k by {
        if j < k {
            assert(chars_lt(r[j].0, r[k].0));
            lemma_chars_lt_irreflexive(f2.0);
        } else if j > k {
            assert(chars_lt(r[k].0, r[j].0));
            lemma_chars_lt_irreflexive(f2.0);
        }
    }
}


/// How a function is bound: freestanding, or to a resource by its index.
#[derive(Debug, Clone, Copy, PartialEq, Eq, Structural)]
pub enum FunctionKind {
    Freestanding,
    Static(u64),
    Method(u64),
}

/// The texts written into each buffer.
pub open spec fn texts(v: Seq<Source>) -> Seq<Seq<char>> {
    v.map_values(|s: Source| s@.0)
}

/// The resource buckets after recording `body` for resource `r`: appended to
/// its bucket, or a new bucket in order of resource index.
pub open spec fn resource_record(rs: Seq<(u64, Seq<Seq<char>>)>, r: u64, body: Seq<char>) -> Seq<
    (u64, Seq<Seq<char>>),
>
    decreases rs.len(),
{
    if rs.len() == 0 {
        seq![(r, seq![body])]
    } else if rs[0].0 == r {
        seq![(r, rs[0].1.push(body))] + rs.drop_first()
    } else if r < rs[0].0 {
        seq![(r, seq![body])] + rs
    } else {
        seq![rs[0]] + resource_record(rs.drop_first(), r, body)
    }
}

proof fn lemma_resource_record_skip(
    rs: Seq<(u64, Seq<Seq<char>>)>,
    r: u64,
    body: Seq<char>,
    p: int,
)
    requires
        0 <= p <= rs.len(),
        forall|j: int| 0 <= j < p ==> #[trigger] rs[j].0 < r,
    ensures
        resource_record(rs, r, body) == rs.take(p) + resource_record(rs.skip(p), r, body),
    decreases p,
{
    if p == 0 {
        assert(rs.skip(0) =~= rs);
        assert(rs.take(0) + resource_record(rs, r, body) =~= resource_record(rs, r, body));
    } else {
        let t = rs.drop_first();
        assert forall|j: int| 0 <= j < p - 1 implies #[trigger] t[j].0 < r by {
            assert(t[j] == rs[j + 1]);
        }
        lemma_resource_record_skip(t, r, body, p - 1);
        assert(t.skip(p - 1) =~= rs.skip(p));
        assert(rs.take(p) =~= seq![rs[0]] + t.take(p - 1));
        assert(seq![rs[0]] + (t.take(p - 1) + resource_record(rs.skip(p), r, body)) =~= rs.take(p)
            + resource_record(rs.skip(p), r, body));
    }
}

/// What a generated class collects before it is printed: its fields, and
/// the bodies of its functions, freestanding ones and per resource.
pub struct HostImports {
    name: String,
    freestanding_funcs: Vec<Source>,
    resource_funcs: Vec<(u64, Vec<Source>)>,
    fields: Vec<HostField>,
}

/// A module's collected state.
pub struct ModuleView {
    pub name: Seq<char>,
    pub freestanding: Seq<Seq<char>>,
    pub resources: Seq<(u64, Seq<Seq<char>>)>,
    pub fields: Seq<FieldView>,
}

/// The module's state after recording a function body of the given kind.
pub open spec fn record_spec(m: ModuleView, body: Seq<char>, kind: FunctionKind) -> ModuleView {
    match kind {
        FunctionKind::Freestanding => ModuleView { freestanding: m.freestanding.push(body), ..m },
        FunctionKind::Static(r) => ModuleView {
            resources: resource_record(m.resources, r, body),
            ..m
        },
        FunctionKind::Method(r) => ModuleView {
            resources: resource_record(m.resources, r, body),
            ..m
        },
    }
}

impl View for HostImports {
    type V = ModuleView;

    closed spec fn view(&self) -> ModuleView {
        ModuleView {
            name: self.name@,
            freestanding: texts(self.freestanding_funcs@),
            resources: self.resource_funcs@.map_values(
                |e: (u64, Vec<Source>)| (e.0, texts(e.1@)),
            ),
            fields: self.fields@.map_values(|f: HostField| f@),
        }
    }
}

impl HostImports {
    pub open spec fn wf(&self) -> bool {
        fields_sorted(self@.fields)
    }

    /// An empty module of the given name.
    pub fn new(name: String) -> (r: Self)
        ensures
            r.wf(),
            r@ == (ModuleView {
                name: name@,
                freestanding: Seq::empty(),
                resources: Seq::empty(),
                fields: Seq::empty(),
            }),
    {
        let r = HostImports {
            name,
            freestanding_funcs: Vec::new(),
            resource_funcs: Vec::new(),
            fields: Vec::new(),
        };
        proof {
            assert(r@.freestanding =~= Seq::<Seq<char>>::empty());
            assert(r@.resources =~= Seq::<(u64, Seq<Seq<char>>)>::empty());
            assert(r@.fields =~= Seq::<FieldView>::empty());
        }
        r
    }

    pub fn name(&self) -> (r: &str)
        ensures
            r@ == self@.name,
    {
        self.name.as_str()
    }

    pub fn num_fields(&self) -> (r: usize)
        ensures
            r == self@.fields.len(),
    {
        self.fields.len()
    }

    pub fn field(&self, i: usize) -> (r: &HostField)
        requires
            i < self@.fields.len(),
        ensures
            r@ == self@.fields[i as int],
    {
        &self.fields[i]
    }

    pub fn num_freestanding(&self) -> (r: usize)
        ensures
            r == self@.freestanding.len(),
    {
        self.freestanding_funcs.len()
    }

    pub fn freestanding(&self, i: usize) -> (r: &Source)
        requires
            i < self@.freestanding.len(),
        ensures
            r@.0 == self@.freestanding[i as int],
    {
        &self.freestanding_funcs[i]
    }

    /// The number of resources with recorded functions.
    pub fn num_resources(&self) -> (r: usize)
        ensures
            r == self@.resources.len(),
    {
        self.resource_funcs.len()
    }

    /// The resource index of bucket `i`, and how many functions it holds.
    pub fn resource(&self, i: usize) -> (r: (u64, usize))
        requires
            i < self@.resources.len(),
        ensures
            r.0 == self@.resources[i as int].0,
            r.1 == self@.resources[i as int].1.len(),
    {
        (self.resource_funcs[i].0, self.resource_funcs[i].1.len())
    }

    /// Registers a field; one of the same name is replaced.
    pub fn insert_field(&mut self, name: String, java_ty: String, from: HostFieldFrom)
        requires
            old(self).wf(),
        ensures
            final(self).wf(),
            final(self)@ == (ModuleView {
                fields: field_insert(old(self)@.fields, (name@, java_ty@, origin_of(from))),
                ..old(self)@
            }),
    {
        let f = HostField::from(name, java_ty, from);
        let ghost fv = f@;
        let ghost s = self@.fields;
        let mut p: usize = 0;
        while p < self.fields.len() && compare_str(self.fields[p].name.as_str(), f.name.as_str())
            < 0
            invariant
                self@ == old(self)@,
                s == self@.fields,
                fv == f@,
                p <= s.len(),
                forall|j: int| 0 <= j < p ==> chars_lt(#[trigger] s[j].0, fv.0),
            decreases s.len() - p,
        {
            proof {
                assert(s[p as int] == self.fields@[p as int]@);
            }
            p = p + 1;
        }
        proof {
            lemma_field_insert_skip(s, fv, p as int);
            lemma_field_insert(s, fv);
        }
        if p < self.fields.len() && compare_str(self.fields[p].name.as_str(), f.name.as_str())
            == 0 {
            proof {
                assert(s[p as int] == self.fields@[p as int]@);
                assert(s.skip(p as int).drop_first() =~= s.skip(p + 1));
            }
            self.fields.set(p, f);
            proof {
                assert(self@.fields =~= s.take(p as int) + (seq![fv] + s.skip(p + 1)));
            }
        } else {
            proof {
                if p < s.len() {
                    assert(s[p as int] == self.fields@[p as int]@);
                    lemma_chars_lt_total(s[p as int].0, fv.0);
                }
            }
            self.fields.insert(p, f);
            proof {
                assert(self@.fields =~= s.take(p as int) + (seq![fv] + s.skip(p as int)));
            }
        }
    }

    /// Files a captured function body under the function's kind.
    pub fn record_function(&mut self, body: Source, kind: FunctionKind)
        ensures
            final(self).wf() == old(self).wf(),
            final(self)@ == record_spec(old(self)@, body@.0, kind),
    {
        let ghost b = body@.0;
        match kind {
            FunctionKind::Freestanding => {
                self.freestanding_funcs.push(body);
                proof {
                    assert(self@.freestanding =~= old(self)@.freestanding.push(b));
                }
            },
            FunctionKind::Static(r) | FunctionKind::Method(r) => {
                self.record_resource_function(body, r);
            },
        }
    }

    fn record_resource_function(&mut self, body: Source, r: u64)
        ensures
            final(self)@ == (ModuleView {
                resources: resource_record(old(self)@.resources, r, body@.0),
                ..old(self)@
            }),
    {
        let ghost b = body@.0;
        let ghost rs = self@.resources;
        let mut p: usize = 0;
        while p < self.resource_funcs.len() && self.resource_funcs[p].0 < r
            invariant
                self@ == old(self)@,
                rs == self@.resources,
                p <= rs.len(),
                forall|j: int| 0 <= j < p ==> #[trigger] rs[j].0 < r,
            decreases rs.len() - p,
        {
            p = p + 1;
        }
        proof {
            lemma_resource_record_skip(rs, r, b, p as int);
        }
        if p < self.resource_funcs.len() && self.resource_funcs[p].0 == r {
            let (id, mut bucket) = self.resource_funcs.remove(p);
            let ghost before = texts(bucket@);
            bucket.push(body);
            proof {
                assert(texts(bucket@) =~= before.push(b));
                assert(rs.skip(p as int).drop_first() =~= rs.skip(p + 1));
            }
            self.resource_funcs.insert(p, (id, bucket));
            proof {
                assert(self@.resources =~= rs.take(p as int) + (seq![(r, rs[p as int].1.push(b))]
                    + rs.skip(p + 1)));
            }
        } else {
            let mut bucket: Vec<Source> = Vec::new();
            bucket.push(body);
            proof {
                assert(texts(bucket@) =~= seq![b]);
            }
            self.resource_funcs.insert(p, (r, bucket));
            proof {
                assert(self@.resources =~= rs.take(p as int) + (seq![(r, seq![b])] + rs.skip(
                    p as int,
                )));
            }
        }
    }
}

} // verus!
