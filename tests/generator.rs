use gen_wasmtime_java::error::GenError;
use gen_wasmtime_java::generator::{Function, TypeDeclaration};
use gen_wasmtime_java::module::FunctionKind;
use gen_wasmtime_java::ty::AbstractType;
use gen_wasmtime_java::{Opts, WasmtimeJava};

fn func(name: &str, kind: FunctionKind, results: Vec<AbstractType>) -> Function {
    Function {
        name: name.to_string(),
        kind,
        is_async: false,
        params: Vec::new(),
        results,
    }
}

fn first_method_line(gen: &mut WasmtimeJava, results: Vec<AbstractType>) -> String {
    gen.import("demo", &func("get-value", FunctionKind::Freestanding, results))
        .unwrap();
    let files = gen.finish_one("demo");
    let text = &files[0].1;
    text.lines()
        .find(|l| l.trim_start().starts_with("public final"))
        .unwrap()
        .trim()
        .to_string()
}

#[test]
fn char_interface_renders_one_class() {
    let mut gen = WasmtimeJava::new();
    let take_char = Function {
        name: "take-char".to_string(),
        kind: FunctionKind::Freestanding,
        is_async: false,
        params: vec![("x".to_string(), AbstractType::Char)],
        results: Vec::new(),
    };
    let return_char = func("return-char", FunctionKind::Freestanding, vec![AbstractType::Char]);
    assert_eq!(gen.import("char", &take_char), Ok(()));
    assert_eq!(gen.import("char", &return_char), Ok(()));
    let files = gen.finish_one("char");
    assert_eq!(files.len(), 1);
    assert_eq!(files[0].0, "bindings/Char.java");
    let expected = "package bindings;\n\
\n\
import net.bluejekyll.wasmtime.*;\n\
\n\
public class Char\n\
{\n\
\x20   private final WasmInstance wasmInstance;\n\
\x20   private final WasmStore wasmStore;\n\
\x20   \n\
\x20   public Char(WasmInstance wasmInstance, WasmStore wasmStore)\n\
\x20   {\n\
\x20       this.wasmInstance = wasmInstance;\n\
\x20       this.wasmStore = wasmStore;\n\
\x20   }\n\
\x20   \n\
\x20   public final void takeChar()\n\
\x20   {\n\
\x20   }\n\
\x20   \n\
\x20   public final char returnChar()\n\
\x20   {\n\
\x20   }\n\
\x20   \n\
}\n";
    assert_eq!(files[0].1, expected);
    assert_eq!(gen.num_modules(), 0);
}

#[test]
fn three_results_render_a_triplet_and_need_javatuples() {
    let mut gen = WasmtimeJava::new();
    let line = first_method_line(
        &mut gen,
        vec![AbstractType::U8, AbstractType::U16, AbstractType::F32],
    );
    assert_eq!(line, "public final Triplet<Short, Integer, Float> getValue()");
    let deps = gen.dependencies();
    assert_eq!(deps.len(), 2);
    assert_eq!(deps.get(0).base_import(), "net.bluejekyll.wasmtime.*");
    assert_eq!(deps.get(1).base_import(), "org.javatuples.*");
}

#[test]
fn signed_byte_result_boxes_as_byte() {
    let mut gen = WasmtimeJava::new();
    let line = first_method_line(
        &mut gen,
        vec![AbstractType::S8, AbstractType::U16, AbstractType::F32],
    );
    assert_eq!(line, "public final Triplet<Byte, Integer, Float> getValue()");
}

#[test]
fn tuple_imports_are_printed_in_order() {
    let mut gen = WasmtimeJava::new();
    gen.import("demo", &func("pair", FunctionKind::Freestanding, vec![AbstractType::S32, AbstractType::S64]))
        .unwrap();
    let files = gen.finish_one("demo");
    assert!(files[0]
        .1
        .starts_with("package bindings;\n\nimport net.bluejekyll.wasmtime.*;\nimport org.javatuples.*;\n\npublic class Demo\n"));
    assert!(files[0].1.contains("    public final Pair<Integer, Long> pair()\n"));
}

#[test]
fn no_results_return_void() {
    let mut gen = WasmtimeJava::new();
    assert_eq!(first_method_line(&mut gen, Vec::new()), "public final void getValue()");
    assert_eq!(gen.dependencies().len(), 1);
}

#[test]
fn one_result_returns_its_keyword() {
    let cases = vec![
        (AbstractType::U8, "short"),
        (AbstractType::U16, "int"),
        (AbstractType::U32, "long"),
        (AbstractType::U64, "long"),
        (AbstractType::S8, "byte"),
        (AbstractType::S16, "short"),
        (AbstractType::S32, "int"),
        (AbstractType::S64, "long"),
        (AbstractType::F32, "float"),
        (AbstractType::F64, "double"),
        (AbstractType::Char, "char"),
        (AbstractType::CChar, "char"),
        (AbstractType::Usize, "long"),
    ];
    for (ty, keyword) in cases {
        let mut gen = WasmtimeJava::new();
        let line = first_method_line(&mut gen, vec![ty]);
        assert_eq!(line, format!("public final {} getValue()", keyword));
    }
}

#[test]
fn ten_results_render_a_decade() {
    let mut gen = WasmtimeJava::new();
    let line = first_method_line(&mut gen, vec![AbstractType::S16; 10]);
    assert_eq!(
        line,
        "public final Decade<Short, Short, Short, Short, Short, Short, Short, Short, Short, Short> getValue()"
    );
}

#[test]
fn eleven_results_are_refused_without_output() {
    let mut gen = WasmtimeJava::new();
    let r = gen.import("demo", &func("many", FunctionKind::Freestanding, vec![AbstractType::U8; 11]));
    assert_eq!(r, Err(GenError::TupleArity));
    assert_eq!(gen.num_modules(), 0);
    assert_eq!(gen.dependencies().len(), 0);
    assert!(gen.finish_one("demo").is_empty());
}

#[test]
fn async_functions_are_refused() {
    let mut gen = WasmtimeJava::new();
    let mut f = func("later", FunctionKind::Freestanding, Vec::new());
    f.is_async = true;
    assert_eq!(gen.import("demo", &f), Err(GenError::AsyncFunction));
    assert_eq!(gen.num_modules(), 0);
}

#[test]
fn handle_results_are_refused() {
    let mut gen = WasmtimeJava::new();
    let r = gen.import("demo", &func("h", FunctionKind::Freestanding, vec![AbstractType::Handle(0)]));
    assert_eq!(r, Err(GenError::UnsupportedType));
    let r = gen.import(
        "demo",
        &func("t", FunctionKind::Freestanding, vec![AbstractType::U8, AbstractType::Id(3)]),
    );
    assert_eq!(r, Err(GenError::UnsupportedType));
    assert_eq!(gen.num_modules(), 0);
    assert_eq!(gen.dependencies().len(), 0);
}

#[test]
fn unsupported_type_wins_over_arity() {
    let mut gen = WasmtimeJava::new();
    let mut results = vec![AbstractType::U8; 11];
    results[4] = AbstractType::Id(1);
    let r = gen.import("demo", &func("t", FunctionKind::Freestanding, results));
    assert_eq!(r, Err(GenError::UnsupportedType));
}

#[test]
fn exports_and_type_declarations_are_refused() {
    let gen = WasmtimeJava::new();
    let f = func("f", FunctionKind::Freestanding, Vec::new());
    assert_eq!(gen.export("demo", &f), Err(GenError::ExportFunction));
    assert_eq!(gen.declare_type(TypeDeclaration::Record), Err(GenError::TypeDeclaration));
    assert_eq!(gen.declare_type(TypeDeclaration::PullBuffer), Err(GenError::TypeDeclaration));
}

#[test]
fn handle_fields_are_registered_once_per_class() {
    let mut gen = WasmtimeJava::new();
    for name in ["a", "b", "c"] {
        gen.import("demo", &func(name, FunctionKind::Freestanding, Vec::new())).unwrap();
    }
    assert_eq!(gen.num_modules(), 1);
    let m = gen.module(0);
    assert_eq!(m.name(), "demo");
    assert_eq!(m.num_fields(), 2);
    assert_eq!(m.field(0).name, "wasmInstance");
    assert_eq!(m.field(0).java_ty, "WasmInstance");
    assert!(m.field(0).is_from_constructor());
    assert_eq!(m.field(1).name, "wasmStore");
    assert_eq!(m.num_freestanding(), 3);
    assert_eq!(m.freestanding(1).as_str(), "public final void b()\n{\n}\n");
}

#[test]
fn resource_functions_are_kept_apart() {
    let mut gen = WasmtimeJava::new();
    gen.import("demo", &func("free", FunctionKind::Freestanding, Vec::new())).unwrap();
    gen.import("demo", &func("m", FunctionKind::Method(7), Vec::new())).unwrap();
    gen.import("demo", &func("s", FunctionKind::Static(2), Vec::new())).unwrap();
    gen.import("demo", &func("n", FunctionKind::Method(7), Vec::new())).unwrap();
    let m = gen.module(0);
    assert_eq!(m.num_freestanding(), 1);
    assert_eq!(m.num_resources(), 2);
    assert_eq!(m.resource(0), (2, 1));
    assert_eq!(m.resource(1), (7, 2));
    let files = gen.finish_one("demo");
    assert!(files[0].1.contains("public final void free()"));
    assert!(!files[0].1.contains("public final void m()"));
}

#[test]
fn each_interface_gets_its_own_file() {
    let mut gen = WasmtimeJava::new();
    gen.import("first", &func("a", FunctionKind::Freestanding, Vec::new())).unwrap();
    let one = gen.finish_one("first");
    gen.import("second", &func("b", FunctionKind::Freestanding, Vec::new())).unwrap();
    let two = gen.finish_one("second");
    assert_eq!(one.len(), 1);
    assert_eq!(two.len(), 1);
    assert_eq!(two[0].0, "bindings/Second.java");
    assert!(!two[0].1.contains("First"));
    assert!(two[0].1.contains("public class Second\n"));
}

#[test]
fn dotted_package_becomes_directories() {
    let opts = Opts { package: "com.example.wasm".to_string() };
    let mut gen = opts.build();
    gen.import("my-api", &func("go", FunctionKind::Freestanding, Vec::new())).unwrap();
    let files = gen.finish_one("my-api");
    assert_eq!(files[0].0, "com/example/wasm/MyApi.java");
    assert!(files[0].1.starts_with("package com.example.wasm;\n\n"));
}

#[test]
fn default_package_is_bindings() {
    let opts = Opts::default();
    assert_eq!(opts.package, "bindings");
}

#[test]
fn constructor_takes_and_assigns_every_field() {
    let mut gen = WasmtimeJava::new();
    gen.import("demo", &func("a", FunctionKind::Freestanding, Vec::new())).unwrap();
    let files = gen.finish_one("demo");
    let text = &files[0].1;
    let ctor = text.lines().find(|l| l.trim_start().starts_with("public Demo(")).unwrap();
    let params = ctor.matches(", ").count() + 1;
    let assignments = text.lines().filter(|l| l.trim_start().starts_with("this.")).count();
    assert_eq!(params, 2);
    assert_eq!(assignments, 2);
}
