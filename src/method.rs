//! Rendering of method declarations and definitions.
use vstd::prelude::*;
use crate::ctype::{c_type, push_c_type, supported, type_supported};
use crate::ir::{BasicBlock, FnSig, Method, Type};
use crate::text::{decimal, escaped, escape_type_name, push_decimal, push_str};

verus! {

/// Whether every type in `ts` has a C spelling.
pub open spec fn all_supported(ts: Seq<Type>) -> bool {
    forall|i: int| 0 <= i < ts.len() ==> supported(#[trigger] ts[i])
}

/// Whether every type of a signature has a C spelling.
pub open spec fn sig_supported(sig: FnSig) -> bool {
    supported(sig.output) && all_supported(sig.inputs@)
}

/// Whether every type of a method's signature and locals has a C spelling.
pub open spec fn method_supported(m: Method) -> bool {
    &&& sig_supported(m.sig)
    &&& forall|i: int| 0 <= i < m.locals@.len() ==> supported(#[trigger] m.locals@[i].1)
}

/// The declared parameter for input `i` of type `t`.
pub open spec fn param_entry(t: Type, i: nat) -> Seq<char> {
    c_type(t) + " A"@ + decimal(i)
}

/// The parameters declared for the first `n` inputs: the first as
/// `T A0`, each later one as `,T Ak ` with a trailing space. A void input
/// declares nothing, and the others keep their input index.
pub open spec fn params_upto(ins: Seq<Type>, n: nat) -> Seq<char>
    decreases n,
{
    if n == 0 {
        Seq::empty()
    } else {
        let prev = params_upto(ins, (n - 1) as nat);
        if ins[n - 1] is Void {
            prev
        } else if prev.len() == 0 {
            param_entry(ins[n - 1], (n - 1) as nat)
        } else {
            prev + ","@ + param_entry(ins[n - 1], (n - 1) as nat) + " "@
        }
    }
}

/// The parenthesised parameter list for `ins`.
pub open spec fn param_list(ins: Seq<Type>) -> Seq<char> {
    "("@ + params_upto(ins, ins.len()) + ")"@
}

/// The declaration of local `i` of type `t`.
pub open spec fn local_entry(t: Type, i: nat) -> Seq<char> {
    "\t"@ + c_type(t) + " L"@ + decimal(i) + ";\n"@
}

/// The declarations of the first `n` locals; a void local declares nothing.
pub open spec fn locals_upto(ls: Seq<(Option<String>, Type)>, n: nat) -> Seq<char>
    decreases n,
{
    if n == 0 {
        Seq::empty()
    } else if ls[n - 1].1 is Void {
        locals_upto(ls, (n - 1) as nat)
    } else {
        locals_upto(ls, (n - 1) as nat) + local_entry(ls[n - 1].1, (n - 1) as nat)
    }
}

/// The first `n` statements of a block, one per line.
pub open spec fn trees_upto(ts: Seq<String>, n: nat) -> Seq<char>
    decreases n,
{
    if n == 0 {
        Seq::empty()
    } else {
        trees_upto(ts, (n - 1) as nat) + ts[n - 1]@ + "\n"@
    }
}

/// A block: its label, then its statements.
pub open spec fn block_text(b: BasicBlock) -> Seq<char> {
    "\tBB_"@ + decimal(b.id as nat) + ":\n"@ + trees_upto(b.trees@, b.trees@.len())
}

/// The first `n` blocks of a method.
pub open spec fn blocks_upto(bs: Seq<BasicBlock>, n: nat) -> Seq<char>
    decreases n,
{
    if n == 0 {
        Seq::empty()
    } else {
        blocks_upto(bs, (n - 1) as nat) + block_text(bs[n - 1])
    }
}

/// The function header of `m`, its name prefixed by `class`.
pub open spec fn method_header(m: Method, class: Seq<char>) -> Seq<char> {
    c_type(m.sig.output) + " "@ + class + escaped(m.name@) + " "@ + param_list(m.sig.inputs@)
}

/// The forward declaration of `m`.
pub open spec fn method_decl(m: Method, class: Seq<char>) -> Seq<char> {
    method_header(m, class) + ";\n"@
}

/// The definition of `m`: header, locals, then blocks.
pub open spec fn method_body(m: Method, class: Seq<char>) -> Seq<char> {
    method_header(m, class) + "{\n"@ + locals_upto(m.locals@, m.locals@.len())
        + blocks_upto(m.blocks@, m.blocks@.len()) + "}\n"@
}

/// Appends the parameter list for `ins`.
pub fn push_params(out: &mut String, ins: &Vec<Type>)
    requires
        all_supported(ins@),
    ensures
        final(out)@ == old(out)@ + param_list(ins@),
{
    push_str(out, "(");
    let ghost base = out@;
    let mut i: usize = 0;
    let mut any = false;
    while i < ins.len()
        invariant
            i <= ins@.len(),
            all_supported(ins@),
            out@ == base + params_upto(ins@, i as nat),
            any == (params_upto(ins@, i as nat).len() > 0),
        decreases ins@.len() - i,
    {
        let t = &ins[i];
        if !matches!(t, Type::Void) {
            if any {
                push_str(out, ",");
            }
            assert(supported(ins@[i as int]));
            push_c_type(out, t);
            push_str(out, " A");
            push_decimal(out, i as u64);
            if any {
                push_str(out, " ");
            }
            any = true;
        }
        proof {
            assert(out@ =~= base + params_upto(ins@, (i + 1) as nat));
        }
        i = i + 1;
    }
    push_str(out, ")");
    proof {
        assert(final(out)@ =~= old(out)@ + param_list(ins@));
    }
}

fn push_locals(out: &mut String, ls: &Vec<(Option<String>, Type)>)
    requires
        forall|i: int| 0 <= i < ls@.len() ==> supported(#[trigger] ls@[i].1),
    ensures
        final(out)@ == old(out)@ + locals_upto(ls@, ls@.len()),
{
    let ghost base = out@;
    let mut i: usize = 0;
    while i < ls.len()
        invariant
            i <= ls@.len(),
            forall|j: int| 0 <= j < ls@.len() ==> supported(#[trigger] ls@[j].1),
            out@ == base + locals_upto(ls@, i as nat),
        decreases ls@.len() - i,
    {
        let t = &ls[i].1;
        if !matches!(t, Type::Void) {
            push_str(out, "\t");
            assert(supported(ls@[i as int].1));
            push_c_type(out, t);
            push_str(out, " L");
            push_decimal(out, i as u64);
            push_str(out, ";\n");
        }
        proof {
            assert(out@ =~= base + locals_upto(ls@, (i + 1) as nat));
        }
        i = i + 1;
    }
}

fn push_block(out: &mut String, b: &BasicBlock)
    ensures
        final(out)@ == old(out)@ + block_text(*b),
{
    push_str(out, "\tBB_");
    push_decimal(out, b.id as u64);
    push_str(out, ":\n");
    let ghost base = out@;
    let mut i: usize = 0;
    while i < b.trees.len()
        invariant
            i <= b.trees@.len(),
            out@ == base + trees_upto(b.trees@, i as nat),
        decreases b.trees@.len() - i,
    {
        push_str(out, b.trees[i].as_str());
        push_str(out, "\n");
        proof {
            assert(out@ =~= base + trees_upto(b.trees@, (i + 1) as nat));
        }
        i = i + 1;
    }
    proof {
        assert(final(out)@ =~= old(out)@ + block_text(*b));
    }
}

fn push_blocks(out: &mut String, bs: &Vec<BasicBlock>)
    ensures
        final(out)@ == old(out)@ + blocks_upto(bs@, bs@.len()),
{
    let ghost base = out@;
    let mut i: usize = 0;
    while i < bs.len()
        invariant
            i <= bs@.len(),
            out@ == base + blocks_upto(bs@, i as nat),
        decreases bs@.len() - i,
    {
        push_block(out, &bs[i]);
        proof {
            assert(out@ =~= base + blocks_upto(bs@, (i + 1) as nat));
        }
        i = i + 1;
    }
}

fn header(m: &Method, class: &str) -> (r: String)
    requires
        method_supported(*m),
    ensures
        r@ == method_header(*m, class@),
{
    let mut r = String::new();
    push_c_type(&mut r, &m.sig.output);
    push_str(&mut r, " ");
    push_str(&mut r, class);
    let name = escape_type_name(m.name.as_str());
    push_str(&mut r, name.as_str());
    push_str(&mut r, " ");
    push_params(&mut r, &m.sig.inputs);
    proof {
        assert(r@ =~= method_header(*m, class@));
    }
    r
}

/// Appends the declaration of `m` to `decls` and its definition to
/// `bodies`, its name prefixed by `class` (empty for a free function).
pub fn export_method(decls: &mut String, bodies: &mut String, m: &Method, class: &str)
    requires
        method_supported(*m),
    ensures
        final(decls)@ == old(decls)@ + method_decl(*m, class@),
        final(bodies)@ == old(bodies)@ + method_body(*m, class@),
{
    let h = header(m, class);
    push_str(decls, h.as_str());
    push_str(decls, ";\n");
    push_str(bodies, h.as_str());
    push_str(bodies, "{\n");
    push_locals(bodies, &m.locals);
    push_blocks(bodies, &m.blocks);
    push_str(bodies, "}\n");
    proof {
        assert(final(decls)@ =~= old(decls)@ + method_decl(*m, class@));
        assert(final(bodies)@ =~= old(bodies)@ + method_body(*m, class@));
    }
}

/// Whether every type in `ts` has a C spelling.
pub fn types_supported(ts: &Vec<Type>) -> (r: bool)
    ensures
        r == all_supported(ts@),
{
    let mut i: usize = 0;
    while i < ts.len()
        invariant
            i <= ts@.len(),
            forall|k: int| 0 <= k < i ==> supported(#[trigger] ts@[k]),
        decreases ts@.len() - i,
    {
        if !type_supported(&ts[i]) {
            return false;
        }
        i = i + 1;
    }
    true
}

/// Whether every type of `sig` has a C spelling.
pub fn sig_is_supported(sig: &FnSig) -> (r: bool)
    ensures
        r == sig_supported(*sig),
{
    type_supported(&sig.output) && types_supported(&sig.inputs)
}

/// Whether every type of `m`'s signature and locals has a C spelling.
pub fn method_is_supported(m: &Method) -> (r: bool)
    ensures
        r == method_supported(*m),
{
    if !sig_is_supported(&m.sig) {
        return false;
    }
    let mut i: usize = 0;
    while i < m.locals.len()
        invariant
            i <= m.locals@.len(),
            forall|k: int| 0 <= k < i ==> supported(#[trigger] m.locals@[k].1),
        decreases m.locals@.len() - i,
    {
        if !type_supported(&m.locals[i].1) {
            return false;
        }
        i = i + 1;
    }
    true
}

} // verus!
