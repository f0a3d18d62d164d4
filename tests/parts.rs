use gen_wasmtime_java::error::GenError;
use gen_wasmtime_java::java_deps::{javatuples, wasmtime, wt_engine, wt_function, wt_instance, wt_module, wt_store, DepRegistry, JavaDep};
use gen_wasmtime_java::module::{HostFieldFrom, HostImports};
use gen_wasmtime_java::source::Source;
use gen_wasmtime_java::text::join;
use gen_wasmtime_java::ty::{AbstractType, JavaTuple, JavaTupleType, JavaType};

#[test]
fn type_table_widens_unsigned() {
    assert_eq!(JavaType::from_type(AbstractType::U8), Ok(JavaType::Short));
    assert_eq!(JavaType::from_type(AbstractType::U16), Ok(JavaType::Int));
    assert_eq!(JavaType::from_type(AbstractType::U32), Ok(JavaType::Long));
    assert_eq!(JavaType::from_type(AbstractType::U64), Ok(JavaType::Long));
    assert_eq!(JavaType::from_type(AbstractType::S8), Ok(JavaType::Byte));
    assert_eq!(JavaType::from_type(AbstractType::F64), Ok(JavaType::Double));
    assert_eq!(JavaType::from_type(AbstractType::Usize), Ok(JavaType::Long));
    assert_eq!(JavaType::from_type(AbstractType::Handle(1)), Err(GenError::UnsupportedType));
    assert_eq!(JavaType::from_type(AbstractType::Id(1)), Err(GenError::UnsupportedType));
}

#[test]
fn two_renderings() {
    assert_eq!(JavaType::Int.for_fn_param(), "int");
    assert_eq!(JavaType::Int.for_type_param(), "Integer");
    assert_eq!(JavaType::Char.for_fn_return(), "char");
    assert_eq!(JavaType::Char.for_type_param(), "Character");
    assert_eq!(JavaType::Boolean.for_fn_param(), "boolean");
    assert_eq!(JavaType::Boolean.for_type_param(), "Boolean");
}

#[test]
fn tuple_words_by_arity() {
    assert_eq!(JavaTuple::for_arity(0), None);
    assert_eq!(JavaTuple::for_arity(1), Some(JavaTuple::Unit));
    assert_eq!(JavaTuple::for_arity(9), Some(JavaTuple::Ennead));
    assert_eq!(JavaTuple::for_arity(11), None);
    assert_eq!(JavaTuple::Quintet.to_str(), "Quintet");
}

#[test]
fn tuple_type_rendering() {
    let t = JavaTupleType::from(vec![JavaType::Byte, JavaType::Int, JavaType::Float]);
    assert_eq!(t.for_ty(), Ok("Triplet<Byte, Integer, Float>".to_string()));
    let t = JavaTupleType::from(vec![JavaType::Double]);
    assert_eq!(t.for_ty(), Ok("Unit<Double>".to_string()));
}

#[test]
fn tuple_type_arity_limits() {
    assert_eq!(JavaTupleType::from(Vec::new()).for_ty(), Err(GenError::TupleArity));
    assert_eq!(JavaTupleType::from(vec![JavaType::Long; 11]).for_ty(), Err(GenError::TupleArity));
    assert!(JavaTupleType::from(vec![JavaType::Long; 10]).for_ty().is_ok());
}

#[test]
fn join_with_separator() {
    assert_eq!(join(&Vec::new(), ", "), "");
    assert_eq!(join(&vec!["a".to_string()], ", "), "a");
    assert_eq!(join(&vec!["a".to_string(), "b".to_string(), "c".to_string()], ", "), "a, b, c");
}

#[test]
fn dependency_accessors_and_pom() {
    let d = javatuples();
    assert_eq!(d.base_import(), "org.javatuples.*");
    assert_eq!(d.group_id(), "org.javatuples");
    assert_eq!(d.artifact_id(), "javatuples");
    assert_eq!(d.version(), "1.2");
    assert_eq!(
        d.pom_dep(),
        "\n        <dependency>\n            <groupId>org.javatuples</groupId>\n            <artifactId>javatuples</artifactId>\n            <version>1.2</version>\n        </dependency>\n        "
    );
    assert_eq!(wasmtime().artifact_id(), "wasmtime-java");
    assert_eq!(wasmtime().version(), "1.0-SNAPSHOT");
}

#[test]
fn runtime_class_names() {
    assert_eq!(wt_engine(), "WasmEngine");
    assert_eq!(wt_store(), "WasmStore");
    assert_eq!(wt_instance(), "WasmInstance");
    assert_eq!(wt_function(), "WasmFunction");
    assert_eq!(wt_module(), "WasmModule");
}

#[test]
fn registry_deduplicates() {
    let mut r = DepRegistry::new();
    r.insert(JavaDep::def("a.*", "a", "x", "1"));
    r.insert(JavaDep::def("a.*", "a", "x", "1"));
    assert_eq!(r.len(), 1);
}

#[test]
fn registry_order_ignores_insertion_order() {
    let a = JavaDep::def("a.*", "a", "x", "1");
    let b = JavaDep::def("a.*", "a", "x", "2");
    let c = JavaDep::def("b.*", "b", "y", "1");
    let mut r1 = DepRegistry::new();
    r1.insert(c);
    r1.insert(b);
    r1.insert(a);
    let mut r2 = DepRegistry::new();
    r2.insert(a);
    r2.insert(c);
    r2.insert(b);
    r2.insert(a);
    assert_eq!(r1.len(), 3);
    assert_eq!(r2.len(), 3);
    for i in 0..3 {
        assert_eq!(r1.get(i).version(), r2.get(i).version());
        assert_eq!(r1.get(i).base_import(), r2.get(i).base_import());
    }
    assert_eq!(r1.get(0).version(), "1");
    assert_eq!(r1.get(1).version(), "2");
    assert_eq!(r1.get(2).base_import(), "b.*");
    assert!(!r1.is_empty());
    assert!(DepRegistry::new().is_empty());
}

#[test]
fn dependency_compare() {
    let a = JavaDep::def("a", "g", "x", "1");
    let b = JavaDep::def("ab", "g", "x", "1");
    assert!(a.compare(&b) < 0);
    assert!(b.compare(&a) > 0);
    assert_eq!(a.compare(&a), 0);
}

#[test]
fn push_lines_trims_and_indents() {
    let mut s = Source::new();
    s.push_lines("  class X  \n\t{ \r\n");
    s.indent();
    s.push_lines("int a;\n\n  int b;");
    s.outdent();
    s.push_lines("}");
    assert_eq!(s.as_str(), "class X\n{\n    int a;\n    \n    int b;\n}\n");
}

#[test]
fn push_lines_of_empty_text_writes_nothing() {
    let mut s = Source::new();
    s.push_lines("");
    assert_eq!(s.as_str(), "");
    s.push_lines("\n");
    assert_eq!(s.as_str(), "\n");
}

#[test]
fn outdent_stops_at_zero() {
    let mut s = Source::default();
    s.outdent();
    s.outdent();
    s.push_lines("x");
    s.indent();
    s.indent();
    s.push_lines("y");
    assert_eq!(s.into_string(), "x\n        y\n");
}

#[test]
fn capture_starts_a_fresh_region() {
    let mut s = Source::new();
    s.indent();
    s.push_lines("first");
    let before = s.capture();
    assert_eq!(before.as_str(), "    first\n");
    assert_eq!(s.as_str(), "");
    s.push_lines("second");
    assert_eq!(s.as_str(), "second\n");
}

#[test]
fn field_registered_twice_keeps_the_last() {
    let mut m = HostImports::new("demo".to_string());
    m.insert_field("x".to_string(), "int".to_string(), HostFieldFrom::Constructor);
    m.insert_field("a".to_string(), "long".to_string(), HostFieldFrom::Constructor);
    m.insert_field("x".to_string(), "WasmStore".to_string(), HostFieldFrom::Function("get-x".to_string()));
    assert_eq!(m.num_fields(), 2);
    assert_eq!(m.field(0).name, "a");
    assert_eq!(m.field(1).name, "x");
    assert_eq!(m.field(1).java_ty, "WasmStore");
    assert!(!m.field(1).is_from_constructor());
}
