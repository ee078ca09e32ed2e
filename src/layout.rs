//! Rendering of one aggregate: its dependencies, forward declaration,
//! layout and attached methods.
use vstd::prelude::*;
use crate::ctype::{c_type, push_c_type, supported, type_supported};
use crate::ir::{Method, Type, TypeDef};
use crate::method::{export_method, method_body, method_decl, method_is_supported, method_supported};
use crate::text::{decimal, escaped, escape_type_name, push_decimal, push_str};

verus! {

/// An aggregate as C text, before or after it has been emitted.
pub struct TypeText {
    /// The escaped name.
    pub name: Seq<char>,
    /// The escaped names of the aggregates it embeds directly.
    pub deps: Seq<Seq<char>>,
    /// The forward `typedef`.
    pub decl: Seq<char>,
    /// The full struct or union definition.
    pub layout: Seq<char>,
    /// Declarations of its methods.
    pub method_decls: Seq<char>,
    /// Definitions of its methods.
    pub method_bodies: Seq<char>,
}

/// An aggregate rendered to C, kept until its dependencies are defined.
pub struct RenderedType {
    pub name: String,
    pub deps: Vec<String>,
    pub decl: String,
    pub layout: String,
    pub method_decls: String,
    pub method_bodies: String,
}

impl View for RenderedType {
    type V = TypeText;

    open spec fn view(&self) -> TypeText {
        TypeText {
            name: self.name@,
            deps: self.deps@.map_values(|d: String| d@),
            decl: self.decl@,
            layout: self.layout@,
            method_decls: self.method_decls@,
            method_bodies: self.method_bodies@,
        }
    }
}

/// Whether every field and method of `t` has C spellings for its types.
pub open spec fn typedef_supported(t: TypeDef) -> bool {
    &&& forall|i: int| 0 <= i < t.fields@.len() ==> supported(#[trigger] t.fields@[i].1)
    &&& forall|i: int| 0 <= i < t.methods@.len() ==> method_supported(#[trigger] t.methods@[i])
}

/// The aggregate that a field of type `ty` embeds by name: a reference to an
/// aggregate of this assembly, whether value or reference type.
pub open spec fn embeds(ty: Type) -> bool {
    ty matches Type::DotnetType(r) && r.assembly is None
}

/// The escaped name of the aggregate that `ty` names.
pub open spec fn embedded_name(ty: Type) -> Seq<char> {
    match ty {
        Type::DotnetType(r) => escaped(r.name_path@),
        _ => Seq::empty(),
    }
}

/// The direct dependencies among the first `n` fields, in field order.
pub open spec fn deps_upto(fs: Seq<(String, Type)>, n: nat) -> Seq<Seq<char>>
    decreases n,
{
    if n == 0 {
        Seq::empty()
    } else if embeds(fs[n - 1].1) {
        deps_upto(fs, (n - 1) as nat).push(embedded_name(fs[n - 1].1))
    } else {
        deps_upto(fs, (n - 1) as nat)
    }
}

/// A sequential field: a one-member struct holding it.
pub open spec fn struct_field(name: Seq<char>, ty: Type) -> Seq<char> {
    "\tstruct {"@ + c_type(ty) + " f;} "@ + name + ";\n"@
}

/// An overlapping field: `offset` bytes of padding, then the field.
pub open spec fn union_field(name: Seq<char>, ty: Type, offset: nat) -> Seq<char> {
    "\tstruct {char pad["@ + decimal(offset) + "];"@ + c_type(ty) + " f;} "@ + name + ";\n\n"@
}

/// The sequential fields among the first `n`; void fields are skipped.
pub open spec fn struct_fields_upto(fs: Seq<(String, Type)>, n: nat) -> Seq<char>
    decreases n,
{
    if n == 0 {
        Seq::empty()
    } else if fs[n - 1].1 is Void {
        struct_fields_upto(fs, (n - 1) as nat)
    } else {
        struct_fields_upto(fs, (n - 1) as nat) + struct_field(fs[n - 1].0@, fs[n - 1].1)
    }
}

/// The overlapping fields among the first `n`, each paired with the offset
/// of the same index; void fields are skipped.
pub open spec fn union_fields_upto(fs: Seq<(String, Type)>, offs: Seq<u32>, n: nat) -> Seq<char>
    decreases n,
{
    if n == 0 {
        Seq::empty()
    } else if fs[n - 1].1 is Void {
        union_fields_upto(fs, offs, (n - 1) as nat)
    } else {
        union_fields_upto(fs, offs, (n - 1) as nat) + union_field(
            fs[n - 1].0@,
            fs[n - 1].1,
            offs[n - 1] as nat,
        )
    }
}

/// The number of field and offset pairs.
pub open spec fn paired(a: nat, b: nat) -> nat {
    if a < b { a } else { b }
}

/// The forward declaration: a union with explicit offsets, else a struct.
pub open spec fn decl_text(t: TypeDef) -> Seq<char> {
    let n = escaped(t.name@);
    if t.explicit_offsets is Some {
        "typedef union "@ + n + " "@ + n + ";\n"@
    } else {
        "typedef struct "@ + n + " "@ + n + ";\n"@
    }
}

/// The layout: overlapping with explicit offsets, else sequential.
pub open spec fn layout_text(t: TypeDef) -> Seq<char> {
    let n = escaped(t.name@);
    match t.explicit_offsets {
        Some(offs) => "union "@ + n + "{\n"@ + union_fields_upto(
            t.fields@,
            offs@,
            paired(t.fields@.len(), offs@.len()),
        ) + "};\n"@,
        None => "struct "@ + n + "{\n"@ + struct_fields_upto(t.fields@, t.fields@.len()) + "};\n"@,
    }
}

/// Declarations of the first `n` methods, named under `class`.
pub open spec fn decls_upto(ms: Seq<Method>, class: Seq<char>, n: nat) -> Seq<char>
    decreases n,
{
    if n == 0 {
        Seq::empty()
    } else {
        decls_upto(ms, class, (n - 1) as nat) + method_decl(ms[n - 1], class)
    }
}

/// Definitions of the first `n` methods, named under `class`.
pub open spec fn bodies_upto(ms: Seq<Method>, class: Seq<char>, n: nat) -> Seq<char>
    decreases n,
{
    if n == 0 {
        Seq::empty()
    } else {
        bodies_upto(ms, class, (n - 1) as nat) + method_body(ms[n - 1], class)
    }
}

/// The C text of an aggregate.
pub open spec fn rendered(t: TypeDef) -> TypeText {
    let n = escaped(t.name@);
    TypeText {
        name: n,
        deps: deps_upto(t.fields@, t.fields@.len()),
        decl: decl_text(t),
        layout: layout_text(t),
        method_decls: decls_upto(t.methods@, n, t.methods@.len()),
        method_bodies: bodies_upto(t.methods@, n, t.methods@.len()),
    }
}

fn embedded(ty: &Type) -> (r: Option<String>)
    ensures
        embeds(*ty) <==> r is Some,
        r is Some ==> r->0@ == embedded_name(*ty),
{
    match ty {
        Type::DotnetType(r) => {
            if r.assembly.is_none() {
                Some(escape_type_name(r.name_path.as_str()))
            } else {
                None
            }
        },
        _ => None,
    }
}

fn render_deps(fs: &Vec<(String, Type)>) -> (r: Vec<String>)
    ensures
        r@.map_values(|d: String| d@) == deps_upto(fs@, fs@.len()),
{
    let mut r: Vec<String> = Vec::new();
    let mut i: usize = 0;
    while i < fs.len()
        invariant
            i <= fs@.len(),
            r@.map_values(|d: String| d@) == deps_upto(fs@, i as nat),
        decreases fs@.len() - i,
    {
        let ghost before = r@;
        match embedded(&fs[i].1) {
            Some(n) => {
                r.push(n);
                proof {
                    assert(r@.map_values(|d: String| d@) =~= before.map_values(|d: String| d@).push(
                        embedded_name(fs@[i as int].1),
                    ));
                }
            },
            None => {},
        }
        i = i + 1;
    }
    r
}

fn render_layout(t: &TypeDef, name: &String) -> (r: String)
    requires
        typedef_supported(*t),
        name@ == escaped(t.name@),
    ensures
        r@ == layout_text(*t),
{
    let mut r = String::new();
    let fs = &t.fields;
    match &t.explicit_offsets {
        Some(offs) => {
            push_str(&mut r, "union ");
            push_str(&mut r, name.as_str());
            push_str(&mut r, "{\n");
            let ghost base = r@;
            let n: usize = if fs.len() < offs.len() { fs.len() } else { offs.len() };
            let mut i: usize = 0;
            while i < n
                invariant
                    typedef_supported(*t),
                    fs@ == t.fields@,
                    n == paired(fs@.len(), offs@.len()),
                    i <= n,
                    r@ == base + union_fields_upto(fs@, offs@, i as nat),
                decreases n - i,
            {
                if !matches!(&fs[i].1, Type::Void) {
                    push_str(&mut r, "\tstruct {char pad[");
                    push_decimal(&mut r, offs[i] as u64);
                    push_str(&mut r, "];");
                    assert(supported(fs@[i as int].1));
                    push_c_type(&mut r, &fs[i].1);
                    push_str(&mut r, " f;} ");
                    push_str(&mut r, fs[i].0.as_str());
                    push_str(&mut r, ";\n\n");
                }
                proof {
                    assert(r@ =~= base + union_fields_upto(fs@, offs@, (i + 1) as nat));
                }
                i = i + 1;
            }
            push_str(&mut r, "};\n");
        },
        None => {
            push_str(&mut r, "struct ");
            push_str(&mut r, name.as_str());
            push_str(&mut r, "{\n");
            let ghost base = r@;
            let mut i: usize = 0;
            while i < fs.len()
                invariant
                    typedef_supported(*t),
                    fs@ == t.fields@,
                    i <= fs@.len(),
                    r@ == base + struct_fields_upto(fs@, i as nat),
                decreases fs@.len() - i,
            {
                if !matches!(&fs[i].1, Type::Void) {
                    push_str(&mut r, "\tstruct {");
                    assert(supported(fs@[i as int].1));
                    push_c_type(&mut r, &fs[i].1);
                    push_str(&mut r, " f;} ");
                    push_str(&mut r, fs[i].0.as_str());
                    push_str(&mut r, ";\n");
                }
                proof {
                    assert(r@ =~= base + struct_fields_upto(fs@, (i + 1) as nat));
                }
                i = i + 1;
            }
            push_str(&mut r, "};\n");
        },
    }
    proof {
        assert(r@ =~= layout_text(*t));
    }
    r
}

fn render_decl(t: &TypeDef, name: &String) -> (r: String)
    requires
        name@ == escaped(t.name@),
    ensures
        r@ == decl_text(*t),
{
    let mut r = String::new();
    if t.explicit_offsets.is_some() {
        push_str(&mut r, "typedef union ");
    } else {
        push_str(&mut r, "typedef struct ");
    }
    push_str(&mut r, name.as_str());
    push_str(&mut r, " ");
    push_str(&mut r, name.as_str());
    push_str(&mut r, ";\n");
    proof {
        assert(r@ =~= decl_text(*t));
    }
    r
}

/// Renders an aggregate: its dependencies, forward declaration, layout and
/// the declarations and definitions of its methods.
pub fn render_type(t: &TypeDef) -> (r: RenderedType)
    requires
        typedef_supported(*t),
    ensures
        r@ == rendered(*t),
{
    let name = escape_type_name(t.name.as_str());
    let deps = render_deps(&t.fields);
    let decl = render_decl(t, &name);
    let layout = render_layout(t, &name);
    let mut method_decls = String::new();
    let mut method_bodies = String::new();
    let ms = &t.methods;
    let mut i: usize = 0;
    while i < ms.len()
        invariant
            typedef_supported(*t),
            ms@ == t.methods@,
            name@ == escaped(t.name@),
            i <= ms@.len(),
            method_decls@ == decls_upto(ms@, name@, i as nat),
            method_bodies@ == bodies_upto(ms@, name@, i as nat),
        decreases ms@.len() - i,
    {
        assert(method_supported(ms@[i as int]));
        export_method(&mut method_decls, &mut method_bodies, &ms[i], name.as_str());
        i = i + 1;
    }
    let r = RenderedType { name, deps, decl, layout, method_decls, method_bodies };
    proof {
        assert(r@ =~= rendered(*t));
    }
    r
}

/// Whether every field and method of `t` has C spellings for its types.
pub fn typedef_is_supported(t: &TypeDef) -> (r: bool)
    ensures
        r == typedef_supported(*t),
{
    let mut i: usize = 0;
    while i < t.fields.len()
        invariant
            i <= t.fields@.len(),
            forall|k: int| 0 <= k < i ==> supported(#[trigger] t.fields@[k].1),
        decreases t.fields@.len() - i,
    {
        if !type_supported(&t.fields[i].1) {
            return false;
        }
        i = i + 1;
    }
    let mut j: usize = 0;
    while j < t.methods.len()
        invariant
            j <= t.methods@.len(),
            forall|k: int| 0 <= k < t.fields@.len() ==> supported(#[trigger] t.fields@[k].1),
            forall|k: int| 0 <= k < j ==> method_supported(#[trigger] t.methods@[k]),
        decreases t.methods@.len() - j,
    {
        if !method_is_supported(&t.methods[j]) {
            return false;
        }
        j = j + 1;
    }
    true
}

} // verus!
