//! Spelling of IR types in C.
use vstd::prelude::*;
use crate::ir::{DotnetTypeRef, Type};
use crate::text::{escaped, escape_type_name, push_char, push_str};

verus! {

/// The one foreign assembly whose 128-bit integer types are mapped.
pub open spec fn runtime_assembly() -> Seq<char> {
    "System.Runtime"@
}

/// A reference to the runtime's 128-bit unsigned integer.
pub open spec fn is_runtime_u128(r: DotnetTypeRef) -> bool {
    r.assembly == Some(r.assembly->0) && r.assembly->0@ == runtime_assembly()
        && r.name_path@ == "System.UInt128"@
}

/// A reference to the runtime's 128-bit signed integer.
pub open spec fn is_runtime_i128(r: DotnetTypeRef) -> bool {
    r.assembly == Some(r.assembly->0) && r.assembly->0@ == runtime_assembly()
        && r.name_path@ == "System.Int128"@
}

/// Whether a type has a C spelling. A generic parameter has none, an array
/// has rank one or more, and the only aggregates of another assembly that
/// can be spelled are the runtime's two 128-bit integers.
pub open spec fn supported(t: Type) -> bool
    decreases t,
{
    match t {
        Type::Ptr(inner) => supported(*inner),
        Type::ManagedReference(inner) => supported(*inner),
        Type::ManagedArray { element, dims } => dims >= 1 && supported(*element),
        Type::DotnetType(r) => r.assembly is None || is_runtime_u128(*r) || is_runtime_i128(*r),
        Type::GenericArg(_) => false,
        _ => true,
    }
}

/// `n` pointer stars.
pub open spec fn stars(n: nat) -> Seq<char> {
    Seq::new(n, |i: int| '*')
}

/// The C spelling of a supported type.
pub open spec fn c_type(t: Type) -> Seq<char>
    decreases t,
{
    match t {
        Type::Bool => "bool"@,
        Type::USize => "uintptr_t"@,
        Type::ISize => "intptr_t"@,
        Type::Void => "void"@,
        Type::DotnetChar => "char"@,
        Type::I128 => "__int128"@,
        Type::U128 => "unsigned __int128"@,
        Type::I64 => "int64_t"@,
        Type::U64 => "uint64_t"@,
        Type::I32 => "int32_t"@,
        Type::U32 => "uint32_t"@,
        Type::F64 => "double"@,
        Type::F32 => "float"@,
        Type::I16 => "int16_t"@,
        Type::U16 => "uint16_t"@,
        Type::I8 => "int8_t"@,
        Type::U8 => "uint8_t"@,
        Type::Ptr(inner) => c_type(*inner) + "*"@,
        Type::ManagedReference(inner) => c_type(*inner) + "*"@,
        Type::DotnetType(r) => if is_runtime_u128(*r) {
            "unsigned __int128"@
        } else if is_runtime_i128(*r) {
            "__int128"@
        } else if r.is_valuetype {
            escaped(r.name_path@)
        } else {
            escaped(r.name_path@) + "*"@
        },
        Type::DelegatePtr => "void*"@,
        Type::ManagedArray { element, dims } => c_type(*element) + stars(dims as nat),
        Type::Foreign => "Foregin"@,
        Type::GenericArg(_) => Seq::empty(),
    }
}

fn str_eq(a: &str, b: &str) -> (r: bool)
    ensures
        r == (a@ == b@),
{
    let n = a.unicode_len();
    let m = b.unicode_len();
    if n != m {
        return false;
    }
    let mut i: usize = 0;
    while i < n
        invariant
            n == a@.len(),
            m == b@.len(),
            n == m,
            i <= n,
            a@.subrange(0, i as int) == b@.subrange(0, i as int),
        decreases n - i,
    {
        if a.get_char(i) != b.get_char(i) {
            return false;
        }
        proof {
            assert(a@.subrange(0, i + 1) =~= a@.subrange(0, i as int).push(a@[i as int]));
            assert(b@.subrange(0, i + 1) =~= b@.subrange(0, i as int).push(b@[i as int]));
        }
        i = i + 1;
    }
    proof {
        assert(a@ =~= a@.subrange(0, n as int));
        assert(b@ =~= b@.subrange(0, n as int));
    }
    true
}

/// Whether `s` equals the literal `lit`.
pub fn is_literal(s: &str, lit: &str) -> (r: bool)
    ensures
        r == (s@ == lit@),
{
    str_eq(s, lit)
}

fn runtime_int128(r: &DotnetTypeRef) -> (res: (bool, bool))
    ensures
        res.0 == is_runtime_u128(*r),
        res.1 == is_runtime_i128(*r),
{
    match &r.assembly {
        Some(a) => {
            if str_eq(a.as_str(), "System.Runtime") {
                (str_eq(r.name_path.as_str(), "System.UInt128"), str_eq(r.name_path.as_str(), "System.Int128"))
            } else {
                (false, false)
            }
        },
        None => (false, false),
    }
}

/// Whether `t` has a C spelling.
pub fn type_supported(t: &Type) -> (r: bool)
    ensures
        r == supported(*t),
    decreases t,
{
    match t {
        Type::Ptr(inner) => type_supported(inner),
        Type::ManagedReference(inner) => type_supported(inner),
        Type::ManagedArray { element, dims } => *dims >= 1 && type_supported(element),
        Type::DotnetType(r) => {
            let (u, i) = runtime_int128(r);
            r.assembly.is_none() || u || i
        },
        Type::GenericArg(_) => false,
        _ => true,
    }
}

/// Appends the C spelling of `t`.
pub fn push_c_type(out: &mut String, t: &Type)
    requires
        supported(*t),
    ensures
        final(out)@ == old(out)@ + c_type(*t),
    decreases t,
{
    match t {
        Type::Bool => push_str(out, "bool"),
        Type::USize => push_str(out, "uintptr_t"),
        Type::ISize => push_str(out, "intptr_t"),
        Type::Void => push_str(out, "void"),
        Type::DotnetChar => push_str(out, "char"),
        Type::I128 => push_str(out, "__int128"),
        Type::U128 => push_str(out, "unsigned __int128"),
        Type::I64 => push_str(out, "int64_t"),
        Type::U64 => push_str(out, "uint64_t"),
        Type::I32 => push_str(out, "int32_t"),
        Type::U32 => push_str(out, "uint32_t"),
        Type::F64 => push_str(out, "double"),
        Type::F32 => push_str(out, "float"),
        Type::I16 => push_str(out, "int16_t"),
        Type::U16 => push_str(out, "uint16_t"),
        Type::I8 => push_str(out, "int8_t"),
        Type::U8 => push_str(out, "uint8_t"),
        Type::Ptr(inner) | Type::ManagedReference(inner) => {
            push_c_type(out, inner);
            push_str(out, "*");
            proof {
                assert(final(out)@ =~= old(out)@ + c_type(*t));
            }
        },
        Type::DotnetType(r) => {
            let (u, i) = runtime_int128(r);
            if u {
                push_str(out, "unsigned __int128");
            } else if i {
                push_str(out, "__int128");
            } else {
                let name = escape_type_name(r.name_path.as_str());
                push_str(out, name.as_str());
                if !r.is_valuetype {
                    push_str(out, "*");
                }
                proof {
                    assert(final(out)@ =~= old(out)@ + c_type(*t));
                }
            }
        },
        Type::DelegatePtr => push_str(out, "void*"),
        Type::ManagedArray { element, dims } => {
            push_c_type(out, element);
            let ghost base = out@;
            let mut k: u8 = 0;
            while k < *dims
                invariant
                    k <= *dims,
                    out@ == base + stars(k as nat),
                decreases *dims - k,
            {
                push_char(out, '*');
                proof {
                    assert(out@ =~= base + stars((k + 1) as nat));
                }
                k = k + 1;
            }
            proof {
                assert(final(out)@ =~= old(out)@ + c_type(*t));
            }
        },
        Type::Foreign => push_str(out, "Foregin"),
        Type::GenericArg(_) => {
            assert(false);
        },
    }
}

/// The C spelling of `t`.
pub fn c_tpe(t: &Type) -> (r: String)
    requires
        supported(*t),
    ensures
        r@ == c_type(*t),
{
    let mut r = String::new();
    push_c_type(&mut r, t);
    proof {
        assert(r@ =~= c_type(*t));
    }
    r
}

} // verus!
