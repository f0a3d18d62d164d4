use vstd::prelude::*;
use vstd::string::*;

use crate::casing::{lower_camel_of, to_lower_camel, to_upper_camel, upper_camel_of};
use crate::error::GenError;
use crate::order::compare_str;
use crate::java_deps::{javatuples, wasmtime, wt_instance, wt_store, DepKey, DepRegistry};
use crate::module::{
    constructor_fields, FieldView, field_insert, record_spec, FunctionKind, HostFieldFrom,
    HostImports, ModuleView,
};
use crate::opts::Opts;
use crate::source::{Source, INDENT};
use crate::text::{
    join, join_spec, views_of, emitted, first_newline, lemma_first_newline, lines_of, render_lines,
    spaces, trim, trim_end, trim_start, is_ws,
};
use crate::ty::{
    boxed_all, boxed_of, tuple_word, java_of, keyword_of, tuple_text, AbstractType, JavaTupleType,
    JavaType,
};

verus! {

/// A function of an interface, as far as the generator reads it.
pub struct Function {
    pub name: String,
    pub kind: FunctionKind,
    pub is_async: bool,
    pub params: Vec<(String, AbstractType)>,
    pub results: Vec<AbstractType>,
}

/// Every result type has a Java rendering.
pub open spec fn all_supported(results: Seq<AbstractType>) -> bool {
    forall|i: int| 0 <= i < results.len() ==> (#[trigger] java_of(results[i])) is Some
}

/// The Java types of supported results.
pub open spec fn java_all(results: Seq<AbstractType>) -> Seq<JavaType> {
    results.map_values(|t: AbstractType| java_of(t)->Some_0)
}

/// The Java return type of a function with the given results: `void` for
/// none, the primitive keyword for one, a tuple class for more.
pub open spec fn return_text(results: Seq<AbstractType>) -> Seq<char> {
    if results.len() == 0 {
        "void"@
    } else if results.len() == 1 {
        keyword_of(java_of(results[0])->Some_0)
    } else {
        tuple_text(java_all(results))
    }
}

/// The signature line of a generated method.
pub open spec fn signature_text(ret: Seq<char>, name: Seq<char>) -> Seq<char> {
    "public final "@ + ret + " "@ + lower_camel_of(name) + "()"@
}

/// The text of a generated method: its signature and an empty body.
pub open spec fn method_text(results: Seq<AbstractType>, name: Seq<char>) -> Seq<char> {
    emitted(signature_text(return_text(results), name), 0) + "{\n"@ + "}\n"@
}

/// The field that holds the wasm instance.
pub open spec fn instance_field() -> (Seq<char>, Seq<char>, Option<Seq<char>>) {
    (lower_camel_of("WasmInstance"@), "WasmInstance"@, None)
}

/// The field that holds the wasm store.
pub open spec fn store_field() -> (Seq<char>, Seq<char>, Option<Seq<char>>) {
    (lower_camel_of("WasmStore"@), "WasmStore"@, None)
}

/// A module after one imported function: both runtime handle fields
/// registered and the method's text filed under its kind.
pub open spec fn module_after_import(
    m: ModuleView,
    body: Seq<char>,
    kind: FunctionKind,
) -> ModuleView {
    let fields = field_insert(field_insert(m.fields, instance_field()), store_field());
    record_spec(ModuleView { fields, ..m }, body, kind)
}

/// The index of the last module named `name`, or -1.
pub open spec fn find_module(ms: Seq<ModuleView>, name: Seq<char>) -> int
    decreases ms.len(),
{
    if ms.len() == 0 {
        -1
    } else if ms.last().name == name {
        ms.len() - 1
    } else {
        find_module(ms.drop_last(), name)
    }
}

/// The modules after an imported function of interface `iface`.
pub open spec fn modules_after_import(
    ms: Seq<ModuleView>,
    iface: Seq<char>,
    body: Seq<char>,
    kind: FunctionKind,
) -> Seq<ModuleView> {
    let k = find_module(ms, iface);
    if k >= 0 {
        ms.update(k, module_after_import(ms[k], body, kind))
    } else {
        ms.push(
            module_after_import(
                ModuleView {
                    name: iface,
                    freestanding: Seq::empty(),
                    resources: Seq::empty(),
                    fields: Seq::empty(),
                },
                body,
                kind,
            ),
        )
    }
}

pub open spec fn javatuples_key() -> DepKey {
    ("org.javatuples.*"@, "org.javatuples"@, "javatuples"@, "1.2"@)
}

pub open spec fn wasmtime_key() -> DepKey {
    ("net.bluejekyll.wasmtime.*"@, "net.bluejekyll"@, "wasmtime-java"@, "1.0-SNAPSHOT"@)
}

/// A function without results is emitted with return type `void`.
pub proof fn lemma_no_results_void(results: Seq<AbstractType>, name: Seq<char>)
    requires
        results.len() == 0,
    ensures
        return_text(results) == "void"@,
        method_text(results, name) == emitted(
            "public final "@ + "void"@ + " "@ + lower_camel_of(name) + "()"@,
            0,
        ) + "{\n"@ + "}\n"@,
{
}

/// A function with one result is emitted with that result's primitive keyword
/// as return type.
pub proof fn lemma_one_result_keyword(results: Seq<AbstractType>, name: Seq<char>)
    requires
        results.len() == 1,
        java_of(results[0]) is Some,
    ensures
        return_text(results) == keyword_of(java_of(results[0])->Some_0),
        method_text(results, name) == emitted(
            "public final "@ + keyword_of(java_of(results[0])->Some_0) + " "@ + lower_camel_of(name)
                + "()"@,
            0,
        ) + "{\n"@ + "}\n"@,
{
}

/// A function with two to ten results is emitted with a tuple return type:
/// the tuple class named by the count alone, over the boxed result types in
/// order.
pub proof fn lemma_many_results_tuple(results: Seq<AbstractType>, other: Seq<AbstractType>)
    requires
        2 <= results.len() <= 10,
        all_supported(results),
        other.len() == results.len(),
        all_supported(other),
    ensures
        return_text(results) == tuple_word(results.len()) + "<"@ + join_spec(
            boxed_all(java_all(results)),
            ", "@,
        ) + ">"@,
        boxed_all(java_all(results)).len() == results.len(),
        forall|i: int|
            0 <= i < results.len() ==> #[trigger] boxed_all(java_all(results))[i] == boxed_of(
                java_of(results[i])->Some_0,
            ),
        return_text(other).take(tuple_word(other.len()).len() as int) == return_text(results).take(
            tuple_word(results.len()).len() as int,
        ),
{
    let w = tuple_word(results.len());
    let a = return_text(results);
    let b = return_text(other);
    assert(a.take(w.len() as int) =~= w);
    assert(b.take(w.len() as int) =~= w);
}

/// The constructor lists as many parameters as it has assignments, one of
/// each for every field handed to the constructor.
pub proof fn lemma_constructor_counts(fs: Seq<FieldView>)
    ensures
        ctor_params(fs).len() == constructor_fields(fs).len(),
        ctor_assignments(fs).len() == constructor_fields(fs).len(),
        forall|i: int|
            0 <= i < constructor_fields(fs).len() ==> #[trigger] ctor_params(fs)[i] == ctor_param(
                constructor_fields(fs)[i],
            ) && ctor_assignments(fs)[i] == ctor_assignment(constructor_fields(fs)[i]),
{
}

/// One `import` line per library, in registry order.
pub open spec fn imports_text(deps: Seq<DepKey>) -> Seq<char>
    decreases deps.len(),
{
    if deps.len() == 0 {
        Seq::empty()
    } else {
        imports_text(deps.drop_last()) + emitted("import "@ + deps.last().0 + ";"@, 0)
    }
}

/// The declaration of a field.
pub open spec fn field_decl(f: FieldView) -> Seq<char> {
    "private final "@ + f.1 + " "@ + lower_camel_of(f.0) + ";"@
}

/// One declaration per field, in table order.
pub open spec fn fields_text(fs: Seq<FieldView>, ind: nat) -> Seq<char>
    decreases fs.len(),
{
    if fs.len() == 0 {
        Seq::empty()
    } else {
        fields_text(fs.drop_last(), ind) + emitted(field_decl(fs.last()), ind)
    }
}

/// The constructor parameter for a field.
pub open spec fn ctor_param(f: FieldView) -> Seq<char> {
    f.1 + " "@ + lower_camel_of(f.0)
}

/// The constructor statement that stores a field.
pub open spec fn ctor_assignment(f: FieldView) -> Seq<char> {
    "this."@ + lower_camel_of(f.0) + " = "@ + lower_camel_of(f.0) + ";"@
}

/// The constructor's parameters: one per constructor field.
pub open spec fn ctor_params(fs: Seq<FieldView>) -> Seq<Seq<char>> {
    constructor_fields(fs).map_values(|f: FieldView| ctor_param(f))
}

/// The constructor's assignments: one per constructor field.
pub open spec fn ctor_assignments(fs: Seq<FieldView>) -> Seq<Seq<char>> {
    constructor_fields(fs).map_values(|f: FieldView| ctor_assignment(f))
}

/// The constructor of class `name`, one level in.
pub open spec fn constructor_text(name: Seq<char>, fs: Seq<FieldView>) -> Seq<char> {
    emitted("public "@ + upper_camel_of(name) + "("@ + join_spec(ctor_params(fs), ", "@) + ")"@, 4)
        + spaces(4) + "{\n"@ + emitted(join_spec(ctor_assignments(fs), "\n"@), 8) + spaces(4)
        + "}\n"@ + spaces(4) + "\n"@
}

/// The method texts, each re-indented and followed by a blank line.
pub open spec fn bodies_text(bs: Seq<Seq<char>>, ind: nat) -> Seq<char>
    decreases bs.len(),
{
    if bs.len() == 0 {
        Seq::empty()
    } else {
        bodies_text(bs.drop_last(), ind) + emitted(bs.last(), ind) + spaces(ind) + "\n"@
    }
}

/// The Java file of one module: package, imports, class header, fields,
/// constructor and freestanding methods, in that order.
pub open spec fn class_text(package: Seq<char>, deps: Seq<DepKey>, m: ModuleView) -> Seq<char> {
    emitted("package "@ + package + ";"@, 0) + "\n"@ + imports_text(deps) + (if deps.len() > 0 {
        "\n"@
    } else {
        Seq::empty()
    }) + emitted("public class "@ + upper_camel_of(m.name), 0) + "{\n"@ + fields_text(m.fields, 4)
        + spaces(4) + "\n"@ + constructor_text(m.name, m.fields) + bodies_text(m.freestanding, 4)
        + "}\n"@
}

/// A package name with each `.` turned into a `/`.
pub open spec fn package_dir(package: Seq<char>) -> Seq<char> {
    package.map_values(|c: char| if c == '.' { '/' } else { c })
}

/// Where the class of interface `iface` is written.
pub open spec fn path_text(package: Seq<char>, iface: Seq<char>) -> Seq<char> {
    package_dir(package) + "/"@ + upper_camel_of(iface) + ".java"@
}

/// The kinds of type declaration that an interface can hold.
#[derive(Debug, Clone, Copy, PartialEq, Eq, Structural)]
pub enum TypeDeclaration {
    Record,
    Variant,
    Resource,
    Alias,
    List,
    Pointer,
    Builtin,
    PushBuffer,
    PullBuffer,
}

/// A generation pass: the options, the modules collected for the current
/// interface, and the libraries that the generated code needs.
pub struct GenView {
    pub package: Seq<char>,
    pub modules: Seq<ModuleView>,
    pub deps: Seq<DepKey>,
}

/// The generator of Java bindings for wasmtime-java.
pub struct WasmtimeJava {
    src: Source,
    opts: Opts,
    host_imports: Vec<HostImports>,
    java_imports: DepRegistry,
}

impl View for WasmtimeJava {
    type V = GenView;

    closed spec fn view(&self) -> GenView {
        GenView {
            package: self.opts.package@,
            modules: self.host_imports@.map_values(|m: HostImports| m@),
            deps: self.java_imports@,
        }
    }
}

/// A line of text that `push_lines` writes unchanged: no line feed, and no
/// white space at either end.
pub proof fn lemma_emitted_line(s: Seq<char>, ind: nat)
    requires
        s.len() > 0,
        !is_ws(s[0]),
        !is_ws(s.last()),
        forall|j: int| 0 <= j < s.len() ==> s[j] != '\n',
    ensures
        emitted(s, ind) == spaces(ind) + s + "\n"@,
{
    lemma_first_newline(s, s.len() as int);
    assert(lines_of(s) == seq![s]);
    assert(trim_start(s) == s);
    assert(trim_end(s) == s);
    assert(seq![s].drop_first() =~= Seq::<Seq<char>>::empty());
    assert(render_lines(seq![s], ind) == spaces(ind) + trim(s) + "\n"@ + render_lines(
        Seq::<Seq<char>>::empty(),
        ind,
    ));
    assert(spaces(ind) + s + "\n"@ + Seq::<char>::empty() =~= spaces(ind) + s + "\n"@);
}

/// A lone line feed writes one blank line at the current indentation.
pub proof fn lemma_emitted_blank(ind: nat)
    ensures
        emitted("\n"@, ind) == spaces(ind) + "\n"@,
{
    reveal_strlit("\n");
    let s = "\n"@;
    lemma_first_newline(s, 0);
    assert(s.take(0) =~= Seq::<char>::empty());
    assert(s.skip(1) =~= Seq::<char>::empty());
    assert(s.len() == 1);
    assert(first_newline(s) == 0);
    assert(lines_of(s) == seq![s.take(0)] + lines_of(s.skip(1)));
    assert(lines_of(Seq::<char>::empty()) == Seq::<Seq<char>>::empty());
    assert(seq![Seq::<char>::empty()] + Seq::<Seq<char>>::empty() =~= seq![Seq::<char>::empty()]);
    assert(lines_of(s) =~= seq![Seq::<char>::empty()]);
    let l = seq![Seq::<char>::empty()];
    assert(l[0] == Seq::<char>::empty());
    assert(l.drop_first() =~= Seq::<Seq<char>>::empty());
    assert(render_lines(seq![Seq::<char>::empty()], ind) == spaces(ind) + trim(Seq::<char>::empty())
        + "\n"@ + render_lines(Seq::<Seq<char>>::empty(), ind));
    assert(trim(Seq::<char>::empty()) == Seq::<char>::empty());
    assert(seq![Seq::<char>::empty()].drop_first() =~= Seq::<Seq<char>>::empty());
    assert(spaces(ind) + Seq::<char>::empty() + "\n"@ + Seq::<char>::empty() =~= spaces(ind)
        + "\n"@);
}

impl WasmtimeJava {
    pub open spec fn wf(&self) -> bool {
        &&& self.src_empty()
        &&& self.deps_wf()
        &&& forall|i: int| 0 <= i < self@.modules.len() ==> crate::module::fields_sorted(
            #[trigger] self@.modules[i].fields,
        )
    }

    pub closed spec fn src_empty(&self) -> bool {
        self.src@ == (Seq::<char>::empty(), 0nat)
    }

    pub closed spec fn deps_wf(&self) -> bool {
        self.java_imports.wf()
    }

    /// A generator with the default options.
    pub fn new() -> (r: WasmtimeJava)
        ensures
            r.wf(),
            r@ == (GenView { package: "bindings"@, modules: Seq::empty(), deps: Seq::empty() }),
    {
        WasmtimeJava::opts(Opts::default())
    }

    /// A generator with the given options.
    pub fn opts(opts: Opts) -> (r: WasmtimeJava)
        ensures
            r.wf(),
            r@ == (GenView { package: opts.package@, modules: Seq::empty(), deps: Seq::empty() }),
    {
        let r = WasmtimeJava {
            src: Source::new(),
            opts,
            host_imports: Vec::new(),
            java_imports: DepRegistry::new(),
        };
        proof {
            assert(r@.modules =~= Seq::<ModuleView>::empty());
        }
        r
    }

    /// The libraries that the generated code needs, in their fixed order.
    pub fn dependencies(&self) -> (r: &DepRegistry)
        ensures
            r@ == self@.deps,
            self.wf() ==> r.wf(),
    {
        &self.java_imports
    }

    /// The Java return type for the given results; a tuple type registers
    /// the javatuples library.
    fn return_type(&mut self, results: &Vec<AbstractType>) -> (r: Result<String, GenError>)
        requires
            old(self).wf(),
        ensures
            final(self).wf(),
            final(self)@.package == old(self)@.package,
            final(self)@.modules == old(self)@.modules,
            !all_supported(results@) ==> r == Err::<String, GenError>(GenError::UnsupportedType),
            all_supported(results@) && results@.len() > 10 ==> r == Err::<String, GenError>(
                GenError::TupleArity,
            ),
            r is Ok <==> all_supported(results@) && results@.len() <= 10,
            r is Ok ==> r->Ok_0@ == return_text(results@),
            r is Ok && results@.len() >= 2 ==> final(self)@.deps.to_set() == old(
                self,
            )@.deps.to_set().insert(javatuples_key()),
            !(r is Ok && results@.len() >= 2) ==> final(self)@ == old(self)@,
    {
        let mut types: Vec<JavaType> = Vec::new();
        let mut i: usize = 0;
        while i < results.len()
            invariant
                self.wf(),
                self@ == old(self)@,
                i <= results@.len(),
                types@.len() == i,
                forall|j: int| 0 <= j < i ==> (#[trigger] java_of(results@[j])) is Some,
                forall|j: int| 0 <= j < i ==> #[trigger] types@[j] == java_of(results@[j])->Some_0,
            decreases results@.len() - i,
        {
            match JavaType::from_type(results[i]) {
                Ok(t) => types.push(t),
                Err(e) => return Err(e),
            }
            i = i + 1;
        }
        if types.len() == 0 {
            Ok(String::from_str("void"))
        } else if types.len() == 1 {
            Ok(String::from_str(types[0].for_fn_return()))
        } else {
            let tuple = JavaTupleType::from(types);
            proof {
                assert(tuple@ =~= java_all(results@));
            }
            let text = tuple.for_ty();
            if text.is_ok() {
                let ghost before = self@;
                self.java_imports.insert(javatuples());
                assert(self.src_empty());
                assert(self.deps_wf());
                assert(self@.modules == before.modules);
            }
            text
        }
    }

    /// Writes the signature line of a method.
    fn print_func_signature(&mut self, ret: &str, name: &str)
        ensures
            final(self).src@ == (
                old(self).src@.0 + emitted(signature_text(ret@, name@), old(self).src@.1),
                old(self).src@.1,
            ),
            final(self).opts == old(self).opts,
            final(self).host_imports == old(self).host_imports,
            final(self).java_imports == old(self).java_imports,
    {
        let mut line = String::from_str("public final ");
        line.append(ret);
        line.append(" ");
        let func_name = to_lower_camel(name);
        line.append(func_name.as_str());
        line.append("()");
        self.src.push_lines(line.as_str());
    }

    /// Opens a block and indents what follows.
    fn print_block_start(&mut self)
        requires
            old(self).src@.1 + INDENT <= usize::MAX,
        ensures
            final(self).src@ == (
                old(self).src@.0 + spaces(old(self).src@.1) + "{\n"@,
                (old(self).src@.1 + INDENT) as nat,
            ),
            final(self).opts == old(self).opts,
            final(self).host_imports == old(self).host_imports,
            final(self).java_imports == old(self).java_imports,
    {
        proof {
            reveal_strlit("{");
            reveal_strlit("{\n");
            reveal_strlit("\n");
            assert("{"@ + "\n"@ =~= "{\n"@);
            lemma_emitted_line("{"@, self.src@.1);
            assert(spaces(self.src@.1) + "{"@ + "\n"@ =~= spaces(self.src@.1) + "{\n"@);
            assert(self.src@.0 + (spaces(self.src@.1) + "{\n"@) =~= self.src@.0 + spaces(self.src@.1)
                + "{\n"@);
        }
        self.src.push_lines("{");
        self.src.indent();
    }

    /// Closes a block, one level out.
    fn print_block_end(&mut self)
        requires
            old(self).src@.1 >= INDENT,
        ensures
            final(self).src@ == (
                old(self).src@.0 + spaces((old(self).src@.1 - INDENT) as nat) + "}\n"@,
                (old(self).src@.1 - INDENT) as nat,
            ),
            final(self).opts == old(self).opts,
            final(self).host_imports == old(self).host_imports,
            final(self).java_imports == old(self).java_imports,
    {
        self.src.outdent();
        proof {
            reveal_strlit("}");
            reveal_strlit("}\n");
            reveal_strlit("\n");
            assert("}"@ + "\n"@ =~= "}\n"@);
            lemma_emitted_line("}"@, self.src@.1);
            assert(spaces(self.src@.1) + "}"@ + "\n"@ =~= spaces(self.src@.1) + "}\n"@);
            assert(self.src@.0 + (spaces(self.src@.1) + "}\n"@) =~= self.src@.0 + spaces(self.src@.1)
                + "}\n"@);
        }
        self.src.push_lines("}");
    }

    /// The position of the last module named `name`.
    fn module_index(&self, name: &str) -> (r: Option<usize>)
        ensures
            r is Some ==> r->Some_0 == find_module(self@.modules, name@),
            r is Some ==> r->Some_0 < self@.modules.len(),
            r is None ==> find_module(self@.modules, name@) == -1,
    {
        let ghost ms = self@.modules;
        let mut i: usize = self.host_imports.len();
        proof {
            assert(ms.take(i as int) =~= ms);
        }
        while i > 0
            invariant
                i <= ms.len(),
                ms == self@.modules,
                find_module(ms, name@) == find_module(ms.take(i as int), name@),
            decreases i,
        {
            proof {
                assert(ms.take(i as int).drop_last() =~= ms.take(i - 1));
                assert(ms[i - 1] == self.host_imports@[i - 1]@);
            }
            if compare_str(self.host_imports[i - 1].name(), name) == 0 {
                return Some(i - 1);
            }
            i = i - 1;
        }
        None
    }

    /// Emits one imported function into the class of its interface `iface`:
    /// the method's text is captured and filed under the function's kind, and
    /// the class gains the instance and store fields that every method uses.
    /// Async functions, result types without a Java rendering and more than
    /// ten results are refused, and then nothing changes.
    pub fn import(&mut self, iface: &str, func: &Function) -> (r: Result<(), GenError>)
        requires
            old(self).wf(),
        ensures
            final(self).wf(),
            func.is_async ==> r == Err::<(), GenError>(GenError::AsyncFunction),
            !func.is_async && !all_supported(func.results@) ==> r == Err::<(), GenError>(
                GenError::UnsupportedType,
            ),
            !func.is_async && all_supported(func.results@) && func.results@.len() > 10 ==> r
                == Err::<(), GenError>(GenError::TupleArity),
            r is Ok <==> !func.is_async && all_supported(func.results@) && func.results@.len()
                <= 10,
            r is Err ==> final(self)@ == old(self)@,
            r is Ok ==> final(self)@.package == old(self)@.package,
            r is Ok ==> final(self)@.modules == modules_after_import(
                old(self)@.modules,
                iface@,
                method_text(func.results@, func.name@),
                func.kind,
            ),
            r is Ok ==> final(self)@.deps.to_set() == (if func.results@.len() >= 2 {
                old(self)@.deps.to_set().insert(javatuples_key())
            } else {
                old(self)@.deps.to_set()
            }).insert(wasmtime_key()),
    {
        if func.is_async {
            return Err(GenError::AsyncFunction);
        }
        let ret = match self.return_type(&func.results) {
            Ok(t) => t,
            Err(e) => return Err(e),
        };
        let ghost g1 = self@;
        let prev = self.src.capture();
        self.print_func_signature(ret.as_str(), func.name.as_str());
        self.print_block_start();
        self.print_block_end();
        let mut body = prev;
        core::mem::swap(&mut self.src, &mut body);
        let ghost text = method_text(func.results@, func.name@);
        proof {
            let sig = emitted(signature_text(ret@, func.name@), 0);
            assert(spaces(0) =~= Seq::<char>::empty());
            assert(body@.0 =~= Seq::<char>::empty() + sig + spaces(0) + "{\n"@ + spaces(0)
                + "}\n"@);
            assert(body@.0 =~= text);
        }
        self.java_imports.insert(wasmtime());
        let k = self.module_index(iface);
        let ghost ms = self@.modules;
        let mut m = match k {
            Some(k) => self.host_imports.remove(k),
            None => HostImports::new(String::from_str(iface)),
        };
        let ghost m0 = m@;
        proof {
            if k is Some {
                assert(m0 == ms[k->Some_0 as int]);
                assert(m.wf());
            }
        }
        let instance = to_lower_camel(wt_instance());
        m.insert_field(instance, String::from_str(wt_instance()), HostFieldFrom::Constructor);
        let store = to_lower_camel(wt_store());
        m.insert_field(store, String::from_str(wt_store()), HostFieldFrom::Constructor);
        m.record_function(body, func.kind);
        proof {
            assert(m@ == module_after_import(m0, text, func.kind));
        }
        let ghost hi = self.host_imports@;
        match k {
            Some(k) => {
                self.host_imports.insert(k, m);
                proof {
                    let updated = module_after_import(ms[k as int], text, func.kind);
                    assert(self@.modules =~= ms.update(k as int, updated));
                }
            },
            None => {
                self.host_imports.push(m);
                proof {
                    assert(self@.modules =~= ms.push(module_after_import(m0, text, func.kind)));
                }
            },
        }
        proof {
            assert forall|i: int| 0 <= i < self@.modules.len() implies crate::module::fields_sorted(
                #[trigger] self@.modules[i].fields,
            ) by {
                if k is Some && i != k->Some_0 {
                    assert(self@.modules[i] == ms[i]);
                } else if k is None && i < ms.len() {
                    assert(self@.modules[i] == ms[i]);
                }
            }
        }
        Ok(())
    }

    /// Writes the package declaration and a blank line.
    fn print_package(&mut self)
        ensures
            final(self).src@ == (
                old(self).src@.0 + emitted("package "@ + old(self).opts.package@ + ";"@, old(self).src@.1)
                    + emitted("\n"@, old(self).src@.1),
                old(self).src@.1,
            ),
            final(self).opts == old(self).opts,
            final(self).host_imports == old(self).host_imports,
            final(self).java_imports == old(self).java_imports,
    {
        let mut line = String::from_str("package ");
        line.append(self.opts.package.as_str());
        line.append(";");
        self.src.push_lines(line.as_str());
        self.src.push_lines("\n");
    }

    /// Writes one import per library, then a blank line if there was any.
    fn print_imports(&mut self)
        requires
            old(self).src@.1 == 0,
        ensures
            final(self).src@ == (
                old(self).src@.0 + imports_text(old(self).java_imports@) + (if old(self).java_imports@.len() > 0 {
                    emitted("\n"@, 0)
                } else {
                    Seq::empty()
                }),
                0nat,
            ),
            final(self).opts == old(self).opts,
            final(self).host_imports == old(self).host_imports,
            final(self).java_imports == old(self).java_imports,
    {
        let ghost start = self.src@.0;
        let ghost deps = self.java_imports@;
        let n = self.java_imports.len();
        let mut i: usize = 0;
        proof {
            assert(deps.take(0) =~= Seq::<DepKey>::empty());
            assert(start + Seq::<char>::empty() =~= start);
        }
        while i < n
            invariant
                self.opts == old(self).opts,
                self.host_imports == old(self).host_imports,
                self.java_imports == old(self).java_imports,
                n == deps.len(),
                deps == self.java_imports@,
                i <= n,
                self.src@.1 == 0,
                self.src@.0 == start + imports_text(deps.take(i as int)),
            decreases n - i,
        {
            let d = self.java_imports.get(i);
            let mut line = String::from_str("import ");
            line.append(d.base_import());
            line.append(";");
            self.src.push_lines(line.as_str());
            proof {
                assert(deps.take(i + 1).drop_last() =~= deps.take(i as int));
                assert(deps.take(i + 1).last() == deps[i as int]);
                assert(start + imports_text(deps.take(i as int)) + emitted(line@, 0) =~= start
                    + imports_text(deps.take(i + 1)));
            }
            i = i + 1;
        }
        proof {
            assert(deps.take(n as int) =~= deps);
        }
        if n > 0 {
            self.src.push_lines("\n");
        } else {
            proof {
                assert(self.src@.0 + Seq::<char>::empty() =~= self.src@.0);
            }
        }
    }

    /// Writes the class declaration line.
    fn print_class_header(&mut self, name: &str)
        ensures
            final(self).src@ == (
                old(self).src@.0 + emitted("public class "@ + upper_camel_of(name@), old(self).src@.1),
                old(self).src@.1,
            ),
            final(self).opts == old(self).opts,
            final(self).host_imports == old(self).host_imports,
            final(self).java_imports == old(self).java_imports,
    {
        let mut line = String::from_str("public class ");
        let class_name = to_upper_camel(name);
        line.append(class_name.as_str());
        self.src.push_lines(line.as_str());
    }

    /// Writes one declaration per field.
    fn print_fields(&mut self, m: &HostImports)
        ensures
            final(self).src@ == (old(self).src@.0 + fields_text(m@.fields, old(self).src@.1), old(self).src@.1),
            final(self).opts == old(self).opts,
            final(self).host_imports == old(self).host_imports,
            final(self).java_imports == old(self).java_imports,
    {
        let ghost start = self.src@.0;
        let ghost ind = self.src@.1;
        let ghost fs = m@.fields;
        let n = m.num_fields();
        let mut i: usize = 0;
        proof {
            assert(fs.take(0) =~= Seq::<FieldView>::empty());
            assert(start + Seq::<char>::empty() =~= start);
        }
        while i < n
            invariant
                self.opts == old(self).opts,
                self.host_imports == old(self).host_imports,
                self.java_imports == old(self).java_imports,
                n == fs.len(),
                fs == m@.fields,
                i <= n,
                self.src@.1 == ind,
                self.src@.0 == start + fields_text(fs.take(i as int), ind),
            decreases n - i,
        {
            let field = m.field(i);
            let mut line = String::from_str("private final ");
            line.append(field.java_ty.as_str());
            line.append(" ");
            let field_name = to_lower_camel(field.name.as_str());
            line.append(field_name.as_str());
            line.append(";");
            self.src.push_lines(line.as_str());
            proof {
                assert(fs.take(i + 1).drop_last() =~= fs.take(i as int));
                assert(fs.take(i + 1).last() == fs[i as int]);
                assert(line@ =~= field_decl(fs[i as int]));
                assert(start + fields_text(fs.take(i as int), ind) + emitted(line@, ind) =~= start
                    + fields_text(fs.take(i + 1), ind));
            }
            i = i + 1;
        }
        proof {
            assert(fs.take(n as int) =~= fs);
        }
    }

    /// Writes the constructor, which takes and stores every constructor field.
    fn print_constructor(&mut self, m: &HostImports)
        requires
            old(self).src@.1 == 4,
        ensures
            final(self).src@ == (old(self).src@.0 + constructor_text(m@.name, m@.fields), 4nat),
            final(self).opts == old(self).opts,
            final(self).host_imports == old(self).host_imports,
            final(self).java_imports == old(self).java_imports,
    {
        let ghost start = self.src@.0;
        let ghost fs = m@.fields;
        let n = m.num_fields();
        let mut params: Vec<String> = Vec::new();
        let mut assignments: Vec<String> = Vec::new();
        let mut i: usize = 0;
        proof {
            assert(fs.take(0) =~= Seq::<FieldView>::empty());
            assert(views_of(params@) =~= ctor_params(fs.take(0)));
            assert(views_of(assignments@) =~= ctor_assignments(fs.take(0)));
        }
        while i < n
            invariant
                n == fs.len(),
                fs == m@.fields,
                i <= n,
                views_of(params@) == ctor_params(fs.take(i as int)),
                views_of(assignments@) == ctor_assignments(fs.take(i as int)),
            decreases n - i,
        {
            let field = m.field(i);
            proof {
                assert(fs.take(i + 1).drop_last() =~= fs.take(i as int));
                assert(fs.take(i + 1).last() == fs[i as int]);
                assert(fs.take(i + 1) =~= fs.take(i as int).push(fs[i as int]));
                crate::module::lemma_constructor_fields_push(fs.take(i as int), fs[i as int]);
            }
            if field.is_from_constructor() {
                let field_name = to_lower_camel(field.name.as_str());
                let mut param = field.java_ty.clone();
                param.append(" ");
                param.append(field_name.as_str());
                let mut assignment = String::from_str("this.");
                assignment.append(field_name.as_str());
                assignment.append(" = ");
                assignment.append(field_name.as_str());
                assignment.append(";");
                let ghost pv = views_of(params@);
                let ghost av = views_of(assignments@);
                params.push(param);
                assignments.push(assignment);
                proof {
                    assert(views_of(params@) =~= pv.push(ctor_param(fs[i as int])));
                    assert(views_of(assignments@) =~= av.push(ctor_assignment(fs[i as int])));
                    let f = fs[i as int];
                    assert(ctor_params(fs.take(i + 1)) =~= ctor_params(fs.take(i as int)).push(
                        ctor_param(f),
                    ));
                    assert(ctor_assignments(fs.take(i + 1)) =~= ctor_assignments(
                        fs.take(i as int),
                    ).push(ctor_assignment(f)));
                }
            }
            i = i + 1;
        }
        proof {
            assert(fs.take(n as int) =~= fs);
        }
        let param_list = join(&params, ", ");
        let assignment_list = join(&assignments, "\n");
        let mut line = String::from_str("public ");
        let class_name = to_upper_camel(m.name());
        line.append(class_name.as_str());
        line.append("(");
        line.append(param_list.as_str());
        line.append(")");
        self.src.push_lines(line.as_str());
        self.print_block_start();
        self.src.push_lines(assignment_list.as_str());
        self.print_block_end();
        self.src.push_lines("\n");
        proof {
            lemma_emitted_blank(4);
            assert(self.src@.0 =~= start + constructor_text(m@.name, m@.fields));
        }
    }

    /// Writes each freestanding method, each followed by a blank line.
    fn print_functions(&mut self, m: &HostImports)
        ensures
            final(self).src@ == (old(self).src@.0 + bodies_text(m@.freestanding, old(self).src@.1), old(self).src@.1),
            final(self).opts == old(self).opts,
            final(self).host_imports == old(self).host_imports,
            final(self).java_imports == old(self).java_imports,
    {
        let ghost start = self.src@.0;
        let ghost ind = self.src@.1;
        let ghost bs = m@.freestanding;
        let n = m.num_freestanding();
        let mut i: usize = 0;
        proof {
            assert(bs.take(0) =~= Seq::<Seq<char>>::empty());
            assert(start + Seq::<char>::empty() =~= start);
        }
        while i < n
            invariant
                self.opts == old(self).opts,
                self.host_imports == old(self).host_imports,
                self.java_imports == old(self).java_imports,
                n == bs.len(),
                bs == m@.freestanding,
                i <= n,
                self.src@.1 == ind,
                self.src@.0 == start + bodies_text(bs.take(i as int), ind),
            decreases n - i,
        {
            let body = m.freestanding(i);
            self.src.push_lines(body.as_str());
            self.src.push_lines("\n");
            proof {
                lemma_emitted_blank(ind);
                assert(bs.take(i + 1).drop_last() =~= bs.take(i as int));
                assert(bs.take(i + 1).last() == bs[i as int]);
                assert(self.src@.0 =~= start + bodies_text(bs.take(i + 1), ind));
            }
            i = i + 1;
        }
        proof {
            assert(bs.take(n as int) =~= bs);
        }
    }

    /// Writes the whole class of module `m` into an empty buffer.
    fn print_class(&mut self, m: &HostImports)
        requires
            old(self).src@ == (Seq::<char>::empty(), 0nat),
        ensures
            final(self).src@ == (class_text(old(self).opts.package@, old(self).java_imports@, m@), 0nat),
            final(self).opts == old(self).opts,
            final(self).host_imports == old(self).host_imports,
            final(self).java_imports == old(self).java_imports,
    {
        let ghost pkg = self.opts.package@;
        let ghost deps = self.java_imports@;
        proof {
            lemma_emitted_blank(0);
            lemma_emitted_blank(4);
            assert(spaces(0) =~= Seq::<char>::empty());
        }
        self.print_package();
        let ghost after_package = emitted("package "@ + pkg + ";"@, 0) + "\n"@;
        proof {
            assert(self.src@.0 =~= after_package);
        }
        self.print_imports();
        let ghost after_imports = after_package + imports_text(deps) + (if deps.len() > 0 {
            "\n"@
        } else {
            Seq::empty()
        });
        proof {
            assert(self.src@.0 =~= after_imports);
        }
        self.print_class_header(m.name());
        self.print_block_start();
        let ghost after_header = after_imports + emitted("public class "@ + upper_camel_of(m@.name), 0) + "{\n"@;
        proof {
            assert(self.src@.0 =~= after_header);
        }
        self.print_fields(m);
        self.src.push_lines("\n");
        let ghost after_fields = after_header + fields_text(m@.fields, 4) + spaces(4) + "\n"@;
        proof {
            assert(self.src@.0 =~= after_fields);
        }
        self.print_constructor(m);
        self.print_functions(m);
        self.print_block_end();
        proof {
            assert(self.src@.0 =~= after_fields + constructor_text(m@.name, m@.fields) + bodies_text(
                m@.freestanding,
                4,
            ) + "}\n"@);
        }
    }

    /// The path of the class file of interface `iface`.
    fn class_path(&self, iface: &str) -> (r: String)
        ensures
            r@ == path_text(self@.package, iface@),
    {
        let pkg = self.opts.package.as_str();
        let ghost pv = pkg@;
        let n = pkg.unicode_len();
        let mut out = String::new();
        let mut i: usize = 0;
        while i < n
            invariant
                pv == pkg@,
                n == pv.len(),
                i <= n,
                out@ == package_dir(pv.take(i as int)),
            decreases n - i,
        {
            let c = pkg.get_char(i);
            if c == '.' {
                proof {
                    reveal_strlit("/");
                }
                out.append("/");
            } else {
                out.append(pkg.substring_char(i, i + 1));
            }
            proof {
                assert(pv.subrange(i as int, i + 1) =~= seq![c]);
                assert(package_dir(pv.take(i + 1)) =~= package_dir(pv.take(i as int)).push(
                    if c == '.' {
                        '/'
                    } else {
                        c
                    },
                ));
                assert(out@ =~= package_dir(pv.take(i + 1)));
            }
            i = i + 1;
        }
        proof {
            assert(pv.take(n as int) =~= pv);
        }
        out.append("/");
        let class_name = to_upper_camel(iface);
        out.append(class_name.as_str());
        out.append(".java");
        out
    }

    /// Ends an interface: renders one Java file per collected module, as
    /// (path, contents), and forgets the modules. The libraries stay
    /// registered for the rest of the pass.
    pub fn finish_one(&mut self, iface: &str) -> (r: Vec<(String, String)>)
        requires
            old(self).wf(),
        ensures
            final(self).wf(),
            final(self)@.package == old(self)@.package,
            final(self)@.deps == old(self)@.deps,
            final(self)@.modules.len() == 0,
            r@.len() == old(self)@.modules.len(),
            forall|i: int|
                0 <= i < r@.len() ==> (#[trigger] r@[i]).0@ == path_text(old(self)@.package, iface@)
                    && r@[i].1@ == class_text(
                    old(self)@.package,
                    old(self)@.deps,
                    old(self)@.modules[i],
                ),
    {
        let ghost ms = self@.modules;
        let mut modules: Vec<HostImports> = Vec::new();
        core::mem::swap(&mut modules, &mut self.host_imports);
        proof {
            assert(self@.modules =~= Seq::<ModuleView>::empty());
            assert(modules@.map_values(|m: HostImports| m@) == ms);
        }
        let path = self.class_path(iface);
        let mut files: Vec<(String, String)> = Vec::new();
        let mut i: usize = 0;
        while i < modules.len()
            invariant
                self.wf(),
                self@.package == old(self)@.package,
                self@.deps == old(self)@.deps,
                self@.modules.len() == 0,
                i <= modules@.len(),
                modules@.len() == ms.len(),
                forall|j: int| 0 <= j < ms.len() ==> #[trigger] modules@[j]@ == ms[j],
                path@ == path_text(old(self)@.package, iface@),
                files@.len() == i,
                forall|j: int|
                    0 <= j < i ==> (#[trigger] files@[j]).0@ == path_text(old(self)@.package, iface@)
                        && files@[j].1@ == class_text(old(self)@.package, old(self)@.deps, ms[j]),
            decreases modules@.len() - i,
        {
            self.print_class(&modules[i]);
            let class = self.src.capture();
            let text = class.into_string();
            files.push((path.clone(), text));
            i = i + 1;
        }
        files
    }

    /// Type declarations have no Java rendering yet and are refused.
    pub fn declare_type(&self, kind: TypeDeclaration) -> (r: Result<(), GenError>)
        ensures
            r == Err::<(), GenError>(GenError::TypeDeclaration),
    {
        Err(GenError::TypeDeclaration)
    }

    /// Functions that the host exports to the guest are refused.
    pub fn export(&self, iface: &str, func: &Function) -> (r: Result<(), GenError>)
        ensures
            r == Err::<(), GenError>(GenError::ExportFunction),
    {
        Err(GenError::ExportFunction)
    }

    /// The number of modules collected for the current interface.
    pub fn num_modules(&self) -> (r: usize)
        ensures
            r == self@.modules.len(),
    {
        self.host_imports.len()
    }

    /// The module at position `i`.
    pub fn module(&self, i: usize) -> (r: &HostImports)
        requires
            i < self@.modules.len(),
        ensures
            r@ == self@.modules[i as int],
    {
        &self.host_imports[i]
    }
}

} // verus!
