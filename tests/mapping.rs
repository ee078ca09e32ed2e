use cilly_c::ctype::{c_tpe, type_supported};
use cilly_c::ir::{DotnetTypeRef, Type};
use cilly_c::text::escape_type_name;
use cilly_c::toolchain::{backend_path, check_compiler_output, compiler_args, contains_str, TargetOs};
use cilly_c::exporter::ExportError;

fn class(name: &str, assembly: Option<&str>, is_valuetype: bool) -> Type {
    Type::DotnetType(Box::new(DotnetTypeRef {
        name_path: name.to_string(),
        assembly: assembly.map(|a| a.to_string()),
        is_valuetype,
    }))
}

#[test]
fn primitives_map_to_fixed_width_names() {
    assert_eq!(c_tpe(&Type::Bool), "bool");
    assert_eq!(c_tpe(&Type::USize), "uintptr_t");
    assert_eq!(c_tpe(&Type::ISize), "intptr_t");
    assert_eq!(c_tpe(&Type::Void), "void");
    assert_eq!(c_tpe(&Type::DotnetChar), "char");
    assert_eq!(c_tpe(&Type::I128), "__int128");
    assert_eq!(c_tpe(&Type::U128), "unsigned __int128");
    assert_eq!(c_tpe(&Type::I64), "int64_t");
    assert_eq!(c_tpe(&Type::U64), "uint64_t");
    assert_eq!(c_tpe(&Type::I32), "int32_t");
    assert_eq!(c_tpe(&Type::U32), "uint32_t");
    assert_eq!(c_tpe(&Type::I16), "int16_t");
    assert_eq!(c_tpe(&Type::U16), "uint16_t");
    assert_eq!(c_tpe(&Type::I8), "int8_t");
    assert_eq!(c_tpe(&Type::U8), "uint8_t");
    assert_eq!(c_tpe(&Type::F32), "float");
    assert_eq!(c_tpe(&Type::F64), "double");
    assert_eq!(c_tpe(&Type::Foreign), "Foregin");
    assert_eq!(c_tpe(&Type::DelegatePtr), "void*");
}

#[test]
fn pointers_and_references_add_one_star() {
    assert_eq!(c_tpe(&Type::Ptr(Box::new(Type::U8))), "uint8_t*");
    assert_eq!(c_tpe(&Type::ManagedReference(Box::new(Type::Ptr(Box::new(Type::I32))))), "int32_t**");
}

#[test]
fn arrays_add_one_star_per_rank() {
    let t = Type::ManagedArray { element: Box::new(Type::U16), dims: 3 };
    assert_eq!(c_tpe(&t), "uint16_t***");
    let zero = Type::ManagedArray { element: Box::new(Type::U16), dims: 0 };
    assert!(!type_supported(&zero));
}

#[test]
fn aggregates_by_value_or_by_reference() {
    assert_eq!(c_tpe(&class("Core.Point", None, true)), "Core_Point");
    assert_eq!(c_tpe(&class("Core.List<int>", None, false)), "Core_List_int_*");
}

#[test]
fn runtime_int128_is_special_cased() {
    assert_eq!(c_tpe(&class("System.UInt128", Some("System.Runtime"), true)), "unsigned __int128");
    assert_eq!(c_tpe(&class("System.Int128", Some("System.Runtime"), false)), "__int128");
}

#[test]
fn unsupported_types_are_detected() {
    assert!(!type_supported(&Type::GenericArg(0)));
    assert!(!type_supported(&class("System.String", Some("System.Runtime"), false)));
    assert!(!type_supported(&Type::Ptr(Box::new(Type::GenericArg(1)))));
    assert!(type_supported(&class("System.Int128", Some("System.Runtime"), true)));
    assert!(type_supported(&Type::Ptr(Box::new(class("A", None, true)))));
}

#[test]
fn escaping_replaces_non_identifier_characters() {
    assert_eq!(escape_type_name("System.Collections.Generic.List`1"), "System_Collections_Generic_List_1");
    assert_eq!(escape_type_name("plain_Name9"), "plain_Name9");
    assert_eq!(escape_type_name(""), "");
}

#[test]
fn compiler_arguments_follow_the_mode() {
    assert_eq!(
        compiler_args("out/prog", "out/prog.c", false),
        vec!["-g", "-O", "-o", "out/prog", "out/prog.c", "-lm", "-fno-strict-aliasing"]
    );
    assert_eq!(compiler_args("a", "a.c", true)[1], "-fsanitize=undefined");
}

#[test]
fn error_diagnostics_fail_the_build() {
    let d = "prog.c:3:1: error: expected ';'";
    assert_eq!(check_compiler_output(d), Err(ExportError::CompilerError(d.to_string())));
    assert_eq!(check_compiler_output("prog.c:3:1: warning: unused"), Ok(()));
    assert_eq!(check_compiler_output(""), Ok(()));
}

#[test]
fn substring_search() {
    assert!(contains_str("an error here", "error"));
    assert!(contains_str("error", "error"));
    assert!(!contains_str("erro", "error"));
    assert!(contains_str("abc", ""));
}

#[test]
fn backend_library_by_system() {
    assert_eq!(backend_path(TargetOs::Linux), "codegen-backend=../../target/debug/librustc_codegen_clr.so");
    assert_eq!(backend_path(TargetOs::Windows), "codegen-backend=../../target/debug/rustc_codegen_clr.dll");
    assert_eq!(backend_path(TargetOs::MacOs), "codegen-backend=../../target/debug/librustc_codegen_clr.dylib");
}
