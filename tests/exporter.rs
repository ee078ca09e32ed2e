use cilly_c::exporter::{CExporter, ExportError};
use cilly_c::ir::{AssemblyExternRef, AssemblyInfo, BasicBlock, DotnetTypeRef, FnSig, Method, Type, TypeDef};

fn info() -> AssemblyInfo {
    AssemblyInfo { name: "unit".to_string() }
}

fn value_ref(name: &str) -> Type {
    Type::DotnetType(Box::new(DotnetTypeRef {
        name_path: name.to_string(),
        assembly: None,
        is_valuetype: true,
    }))
}

fn plain(name: &str, fields: Vec<(&str, Type)>) -> TypeDef {
    TypeDef {
        name: name.to_string(),
        fields: fields.into_iter().map(|(n, t)| (n.to_string(), t)).collect(),
        explicit_offsets: None,
        methods: vec![],
    }
}

fn point() -> TypeDef {
    plain("Point", vec![("x", Type::I32), ("y", Type::I32)])
}

fn boxed() -> TypeDef {
    plain("Box", vec![("p", value_ref("Point"))])
}

fn pos(hay: &str, needle: &str) -> usize {
    hay.find(needle).unwrap_or_else(|| panic!("{needle:?} not found in {hay:?}"))
}

const POINT_LAYOUT: &str = "struct Point{\n\tstruct {int32_t f;} x;\n\tstruct {int32_t f;} y;\n};\n";
const BOX_LAYOUT: &str = "struct Box{\n\tstruct {Point f;} p;\n};\n";

#[test]
fn new_exporter_has_preamble_and_pragmas_only() {
    let e = CExporter::init(&info());
    let src = e.as_source(true);
    assert!(src.starts_with("/*  This file was autogenerated by `rustc_codegen_clr` by FractalFir\n"));
    assert!(src.contains("#include  <stdint.h>\n#include <stdbool.h>\n"));
    assert!(src.contains("#include <sys/syscall.h>\n #include<math.h>\nstatic char* exec_fname;\n"));
    assert!(src.contains("#pragma GCC diagnostic ignored \"-Wpointer-sign\"\n"));
    assert!(!src.contains("int main("));
    assert!(e.pending_types().is_empty());
}

#[test]
fn executable_gets_entry_point_last() {
    let e = CExporter::init(&info());
    let src = e.as_source(false);
    assert!(src.ends_with(
        "int main(int argc,char** argv){_cctor();exec_fname = argv[0];entrypoint(argv + 1);}\n"
    ));
}

#[test]
fn registering_twice_adds_nothing() {
    let mut e = CExporter::init(&info());
    e.add_type(&point());
    let once = e.as_source(true);
    e.add_type(&point());
    let twice = e.as_source(true);
    assert_eq!(once, twice);
    assert_eq!(twice.matches("typedef struct Point Point;\n").count(), 1);
    assert_eq!(twice.matches(POINT_LAYOUT).count(), 1);
}

#[test]
fn dependency_is_laid_out_first_whatever_the_order() {
    let mut e = CExporter::init(&info());
    e.add_type(&boxed());
    assert_eq!(e.pending_types(), vec!["Box".to_string()]);
    assert!(!e.as_source(true).contains(BOX_LAYOUT));
    e.add_type(&point());
    assert!(e.pending_types().is_empty());
    let src = e.as_source(true);
    assert!(pos(&src, POINT_LAYOUT) < pos(&src, BOX_LAYOUT));

    let mut f = CExporter::init(&info());
    f.add_type(&point());
    f.add_type(&boxed());
    let src = f.as_source(true);
    assert!(pos(&src, POINT_LAYOUT) < pos(&src, BOX_LAYOUT));
}

#[test]
fn reversed_chain_is_fully_defined_by_its_last_link() {
    let mut e = CExporter::init(&info());
    e.add_type(&plain("A", vec![("b", value_ref("B"))]));
    e.add_type(&plain("B", vec![("c", value_ref("C"))]));
    e.add_type(&plain("C", vec![("d", value_ref("D"))]));
    assert_eq!(e.pending_types().len(), 3);
    e.add_type(&plain("D", vec![("v", Type::U8)]));
    assert!(e.pending_types().is_empty());
    let src = e.as_source(true);
    let d = pos(&src, "struct D{");
    let c = pos(&src, "struct C{");
    let b = pos(&src, "struct B{");
    let a = pos(&src, "struct A{");
    assert!(d < c && c < b && b < a);
}

#[test]
fn pointer_field_does_not_wait() {
    let mut e = CExporter::init(&info());
    let t = plain("Node", vec![("next", Type::Ptr(Box::new(value_ref("Other"))))]);
    e.add_type(&t);
    assert!(e.pending_types().is_empty());
    assert!(e.as_source(true).contains("struct Node{\n\tstruct {Other* f;} next;\n};\n"));
}

#[test]
fn cycle_is_reported_at_finalize() {
    let mut e = CExporter::init(&info());
    e.add_type(&plain("P", vec![("q", value_ref("Q"))]));
    e.add_type(&plain("Q", vec![("p", value_ref("P"))]));
    match e.finalize_source(true) {
        Err(ExportError::UnresolvedLayout(mut names)) => {
            names.sort();
            assert_eq!(names, vec!["P".to_string(), "Q".to_string()]);
        }
        other => panic!("unexpected {other:?}"),
    }
}

#[test]
fn finalize_without_pending_gives_the_source() {
    let mut e = CExporter::init(&info());
    e.add_type(&point());
    let src = e.finalize_source(true).unwrap();
    assert_eq!(src, e.as_source(true));
}

#[test]
fn explicit_offsets_give_a_union() {
    let mut e = CExporter::init(&info());
    let mut t = plain("U", vec![("a", Type::U32), ("gap", Type::Void), ("b", Type::U8)]);
    t.explicit_offsets = Some(vec![0, 2, 4]);
    e.add_type(&t);
    let src = e.as_source(true);
    assert!(src.contains("typedef union U U;\n"));
    assert!(src.contains(
        "union U{\n\tstruct {char pad[0];uint32_t f;} a;\n\n\tstruct {char pad[4];uint8_t f;} b;\n\n};\n"
    ));
    assert!(!src.contains("struct U{"));
}

#[test]
fn no_offsets_give_a_struct() {
    let mut e = CExporter::init(&info());
    e.add_type(&plain("S", vec![("a", Type::U32), ("gap", Type::Void)]));
    let src = e.as_source(true);
    assert!(src.contains("typedef struct S S;\n"));
    assert!(src.contains("struct S{\n\tstruct {uint32_t f;} a;\n};\n"));
    assert!(!src.contains("union S"));
}

#[test]
fn type_methods_are_named_under_the_type() {
    let mut e = CExporter::init(&info());
    let mut t = point();
    t.methods.push(Method {
        name: "norm".to_string(),
        sig: FnSig { inputs: vec![Type::Ptr(Box::new(value_ref("Point")))], output: Type::I32 },
        locals: vec![],
        blocks: vec![BasicBlock { id: 0, trees: vec!["\treturn 0;".to_string()] }],
    });
    e.add_type(&t);
    let src = e.as_source(true);
    assert!(src.contains("int32_t Pointnorm (Point* A0);\n"));
    assert!(src.contains("int32_t Pointnorm (Point* A0){\n\tBB_0:\n\treturn 0;\n}\n"));
}

#[test]
fn void_parameters_and_locals_are_elided() {
    let mut e = CExporter::init(&info());
    let m = Method {
        name: "f".to_string(),
        sig: FnSig { inputs: vec![Type::I32, Type::Void, Type::U8], output: Type::Void },
        locals: vec![(None, Type::Void), (Some("t".to_string()), Type::U64)],
        blocks: vec![
            BasicBlock { id: 0, trees: vec!["\tgoto BB_12;".to_string()] },
            BasicBlock { id: 12, trees: vec!["\tL1 = A2;".to_string(), "\treturn;".to_string()] },
        ],
    };
    e.add_method(&m);
    let src = e.as_source(true);
    assert!(src.contains("void f (int32_t A0,uint8_t A2 );\n"));
    assert!(src.contains(
        "void f (int32_t A0,uint8_t A2 ){\n\tuint64_t L1;\n\tBB_0:\n\tgoto BB_12;\n\tBB_12:\n\tL1 = A2;\n\treturn;\n}\n"
    ));
    assert!(!src.contains("L0"));
    assert!(!src.contains("A1"));
}

#[test]
fn host_primitives_are_not_redeclared() {
    let sig = FnSig { inputs: vec![Type::Ptr(Box::new(Type::U8))], output: Type::I32 };
    for name in ["puts", "malloc", "printf", "free", "syscall", "getenv", "rename"] {
        let mut e = CExporter::init(&info());
        let before = e.as_source(true);
        e.add_extern_method("libc.so", name, &sig, false);
        assert_eq!(e.as_source(true), before, "{name}");
        let generic = FnSig { inputs: vec![Type::GenericArg(0)], output: Type::Void };
        e.add_extern_method("libc.so", name, &generic, false);
        assert_eq!(e.as_source(true), before, "{name}");
    }
}

#[test]
fn other_externs_are_declared() {
    let mut e = CExporter::init(&info());
    let sig = FnSig {
        inputs: vec![Type::I32, Type::Void, Type::Ptr(Box::new(Type::U8))],
        output: Type::I64,
    };
    e.add_extern_method("libc.so", "write", &sig, true);
    e.add_extern_method("libc.so", "one", &FnSig { inputs: vec![Type::U8], output: Type::Void }, true);
    assert!(e.as_source(true).contains("extern void one (uint8_t A0);\n"));
    assert!(e.as_source(true).contains("extern int64_t write (int32_t A0,uint8_t* A2 );\n"));
}

#[test]
fn extern_refs_add_nothing() {
    let mut e = CExporter::init(&info());
    let before = e.as_source(false);
    e.add_extern_ref("core", &AssemblyExternRef { major: 1, minor: 0, build: 0, revision: 0 });
    assert_eq!(e.as_source(false), before);
}

#[test]
fn globals_are_static_and_thread_local_when_asked() {
    let mut e = CExporter::init(&info());
    e.add_global(&Type::U32, "counter", true);
    e.add_global(&Type::Ptr(Box::new(Type::DotnetChar)), "name", false);
    let src = e.as_source(true);
    assert!(src.contains("static _Thread_local uint32_t counter;\nstatic char* name;\n"));
}

#[test]
fn point_box_and_sum_unit() {
    let mut e = CExporter::init(&info());
    e.add_type(&boxed());
    e.add_type(&point());
    let sum = Method {
        name: "sum".to_string(),
        sig: FnSig { inputs: vec![value_ref("Point")], output: Type::I32 },
        locals: vec![],
        blocks: vec![BasicBlock { id: 0, trees: vec!["\treturn A0.x.f + A0.y.f;".to_string()] }],
    };
    e.add_method(&sum);
    let src = e.finalize_source(false).unwrap();
    let p = pos(&src, POINT_LAYOUT);
    let b = pos(&src, BOX_LAYOUT);
    let body = pos(&src, "int32_t sum (Point A0){\n\tBB_0:\n\treturn A0.x.f + A0.y.f;\n}\n");
    assert!(p < b && b < body);
    assert!(pos(&src, "int32_t sum (Point A0);\n") < body);
    assert!(src.ends_with("entrypoint(argv + 1);}\n"));
}

#[test]
fn a_waiting_type_is_replaced_by_a_later_registration() {
    let mut e = CExporter::init(&info());
    e.add_type(&plain("Box", vec![("p", value_ref("Point"))]));
    e.add_type(&plain("Box", vec![("p", value_ref("Point")), ("q", value_ref("Point"))]));
    assert_eq!(e.pending_types(), vec!["Box".to_string()]);
    e.add_type(&point());
    let src = e.as_source(true);
    assert!(src.contains("struct Box{\n\tstruct {Point f;} p;\n\tstruct {Point f;} q;\n};\n"));
    assert_eq!(src.matches("struct Box{").count(), 1);
}

#[test]
fn a_ready_registration_drops_the_waiting_one_of_its_name() {
    let mut e = CExporter::init(&info());
    e.add_type(&boxed());
    e.add_type(&plain("Box", vec![("v", Type::U8)]));
    assert!(e.pending_types().is_empty());
    e.add_type(&point());
    let src = e.as_source(true);
    assert_eq!(src.matches("struct Box{").count(), 1);
    assert!(src.contains("struct Box{\n\tstruct {uint8_t f;} v;\n};\n"));
    assert!(!src.contains(BOX_LAYOUT));
}
