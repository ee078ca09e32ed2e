//! The C exporter: type registry, dependency ordering and source assembly.
use vstd::prelude::*;
use fxhash::FxHashSet;
use crate::ctype::{c_type, is_literal, push_c_type, supported};
use crate::ir::{AssemblyExternRef, AssemblyInfo, FnSig, Method, Type, TypeDef};
use crate::layout::{render_type, rendered, typedef_supported, RenderedType, TypeText};
use crate::method::{export_method, method_body, method_decl, method_supported, param_list, push_params, sig_supported};
use crate::names::{
    fx_names, fx_waiting, names_contains, names_insert, names_new, waiting_get, waiting_insert,
    waiting_keys, waiting_new, waiting_remove, Waiting,
};
use crate::text::{escape_type_name, push_str};

verus! {

/// Why a unit could not be finished.
#[derive(Debug, PartialEq, Eq)]
pub enum ExportError {
    /// Aggregates whose layout never became ready: they embed each other in
    /// a cycle, or embed an aggregate that was never registered.
    UnresolvedLayout(Vec<String>),
    /// The C compiler reported an error; its diagnostics.
    CompilerError(String),
}

/// One of the texts that an emitted aggregate contributes.
pub enum Part {
    Decl,
    Layout,
    MethodDecls,
    MethodBodies,
}

/// The part `p` of `t`.
pub open spec fn part_of(t: TypeText, p: Part) -> Seq<char> {
    match p {
        Part::Decl => t.decl,
        Part::Layout => t.layout,
        Part::MethodDecls => t.method_decls,
        Part::MethodBodies => t.method_bodies,
    }
}

/// The parts `p` of the aggregates of `s`, in order.
pub open spec fn joined(s: Seq<TypeText>, p: Part) -> Seq<char>
    decreases s.len(),
{
    if s.len() == 0 {
        Seq::empty()
    } else {
        joined(s.drop_last(), p) + part_of(s.last(), p)
    }
}

/// The names of the aggregates of `s`.
pub open spec fn names_of(s: Seq<TypeText>) -> Set<Seq<char>> {
    Set::new(|n: Seq<char>| exists|i: int| 0 <= i < s.len() && s[i].name == n)
}

/// Whether every direct dependency of `t` is in `defined`.
pub open spec fn ready_in(defined: Set<Seq<char>>, t: TypeText) -> bool {
    forall|k: int| 0 <= k < t.deps.len() ==> defined.contains(#[trigger] t.deps[k])
}

/// No two aggregates of `s` share a name.
pub open spec fn distinct_names(s: Seq<TypeText>) -> bool {
    forall|i: int, j: int|
        0 <= i < s.len() && 0 <= j < s.len() && i != j ==> #[trigger] s[i].name != #[trigger] s[j].name
}

/// The state of an exporter, as text regions and the registry.
pub struct ExporterView {
    pub headers: Seq<char>,
    pub types: Seq<char>,
    pub type_defs: Seq<char>,
    pub method_defs: Seq<char>,
    pub static_defs: Seq<char>,
    pub encoded_asm: Seq<char>,
    /// Names that have a full definition.
    pub defined: Set<Seq<char>>,
    /// Aggregates waiting for a dependency, keyed by name.
    pub deferred: Map<Seq<char>, TypeText>,
    /// Every aggregate emitted so far, in emission order.
    pub emitted: Seq<TypeText>,
}

/// The registry agrees with the emission log, the log is in dependency
/// order, and waiting aggregates are neither defined nor duplicated.
pub open spec fn log_wf(v: ExporterView) -> bool {
    &&& distinct_names(v.emitted)
    &&& v.defined == names_of(v.emitted)
    &&& v.types == joined(v.emitted, Part::Decl)
    &&& v.type_defs == joined(v.emitted, Part::Layout)
    &&& forall|i: int|
        0 <= i < v.emitted.len() ==> ready_in(names_of(v.emitted.take(i)), #[trigger] v.emitted[i])
    &&& v.deferred.dom().finite()
    &&& forall|k: Seq<char>|
        #[trigger] v.deferred.contains_key(k) ==> v.deferred[k].name == k && !v.defined.contains(k)
}

/// No waiting aggregate could be emitted now.
pub open spec fn settled(v: ExporterView) -> bool {
    forall|k: Seq<char>| #[trigger] v.deferred.contains_key(k) ==> !ready_in(v.defined, v.deferred[k])
}

/// The invariant of an exporter between calls.
pub open spec fn view_wf(v: ExporterView) -> bool {
    log_wf(v) && settled(v)
}

/// What registering `t` does to an exporter in state `o`, giving `n`.
///
/// A defined name changes nothing. An aggregate with a dependency not yet
/// defined replaces any waiting one of its name. Otherwise it is emitted,
/// then every waiting aggregate that became ready, transitively.
pub open spec fn registered(o: ExporterView, n: ExporterView, t: TypeDef) -> bool {
    let r = rendered(t);
    let l = o.emitted.len();
    let added = n.emitted.skip(l as int);
    if o.defined.contains(r.name) {
        n == o
    } else if !ready_in(o.defined, r) {
        &&& n.headers == o.headers
        &&& n.types == o.types
        &&& n.type_defs == o.type_defs
        &&& n.method_defs == o.method_defs
        &&& n.static_defs == o.static_defs
        &&& n.encoded_asm == o.encoded_asm
        &&& n.defined == o.defined
        &&& n.emitted == o.emitted
        &&& n.deferred == o.deferred.insert(r.name, r)
    } else {
        &&& n.emitted.len() > l
        &&& n.emitted.take(l as int) == o.emitted
        &&& n.emitted[l as int] == r
        &&& forall|k: int|
            l < k < n.emitted.len() ==> o.deferred.contains_key((#[trigger] n.emitted[k]).name)
                && o.deferred[n.emitted[k].name] == n.emitted[k]
        &&& n.deferred == o.deferred.remove_keys(names_of(added))
        &&& n.headers == o.headers
        &&& n.static_defs == o.static_defs
        &&& n.method_defs == o.method_defs + joined(added, Part::MethodDecls)
        &&& n.encoded_asm == o.encoded_asm + joined(added, Part::MethodBodies)
    }
}

/// Extern names that the C environment already declares.
pub open spec fn host_primitive(name: Seq<char>) -> bool {
    name == "puts"@ || name == "malloc"@ || name == "printf"@ || name == "free"@
        || name == "syscall"@ || name == "getenv"@ || name == "rename"@
}

/// Whether the C environment already declares `name`.
pub fn is_host_primitive(name: &str) -> (r: bool)
    ensures
        r == host_primitive(name@),
{
    is_literal(name, "puts") || is_literal(name, "malloc") || is_literal(name, "printf")
        || is_literal(name, "free") || is_literal(name, "syscall") || is_literal(name, "getenv")
        || is_literal(name, "rename")
}

/// The declaration of an extern function.
pub open spec fn extern_decl(name: Seq<char>, sig: FnSig) -> Seq<char> {
    "extern "@ + c_type(sig.output) + " "@ + name + " "@ + param_list(sig.inputs@) + ";\n"@
}

/// The definition of a global.
pub open spec fn global_def(tpe: Type, name: Seq<char>, thread_local: bool) -> Seq<char> {
    (if thread_local { "static _Thread_local "@ } else { "static "@ }) + c_type(tpe) + " "@ + name
        + ";\n"@
}

/// The declarations that the support header provides to the emitted code.
/// The project's full support header is not part of this library; this
/// holds the one declaration that the entry point needs.
pub open spec fn support_header() -> Seq<char> {
    "\nstatic char* exec_fname;"@
}

/// The fixed preamble: the generated-file comment, the includes, the
/// support header, then a newline.
pub open spec fn preamble() -> Seq<char> {
    "/*  This file was autogenerated by `rustc_codegen_clr` by FractalFir\n It contains C code made from Rust.*/\n"@ + "#include  <stdint.h>\n#include <stdbool.h>\n#include <stddef.h>\n#include <stdio.h>\n#include <stdlib.h>\n#include <mm_malloc.h>\n#include <sys/syscall.h>\n #include<math.h>"@ + support_header() + "\n"@
}

/// Diagnostics silenced ahead of the emitted functions.
pub open spec fn pragmas() -> Seq<char> {
    "#pragma GCC diagnostic ignored \"-Wmaybe-uninitialized\"\n"@
        + "#pragma GCC diagnostic ignored \"-Wunused-label\"\n"@
        + "#pragma GCC diagnostic ignored \"-Wunused-but-set-variable\"\n"@
        + "#pragma GCC diagnostic ignored \"-Wunused-variable\"\n"@
        + "#pragma GCC diagnostic ignored \"-Wpointer-sign\"\n"@
}

/// The entry point of an executable: static initialisation, the image
/// path, then the program's entry with the remaining arguments.
pub open spec fn entry_point() -> Seq<char> {
    "int main(int argc,char** argv){_cctor();exec_fname = argv[0];entrypoint(argv + 1);}\n"@
}

/// The whole unit, regions in their fixed order.
pub open spec fn source_of(v: ExporterView, is_dll: bool) -> Seq<char> {
    v.headers + v.types + v.type_defs + v.method_defs + v.static_defs + v.encoded_asm + (if is_dll {
        Seq::empty()
    } else {
        entry_point()
    })
}

/// Emits C source for one unit.
pub struct CExporter {
    types: String,
    type_defs: String,
    method_defs: String,
    static_defs: String,
    encoded_asm: String,
    headers: String,
    defined: FxHashSet<String>,
    delayed_typedefs: Waiting,
    emitted: Ghost<Seq<TypeText>>,
}

impl View for CExporter {
    type V = ExporterView;

    closed spec fn view(&self) -> ExporterView {
        ExporterView {
            headers: self.headers@,
            types: self.types@,
            type_defs: self.type_defs@,
            method_defs: self.method_defs@,
            static_defs: self.static_defs@,
            encoded_asm: self.encoded_asm@,
            defined: fx_names(self.defined),
            deferred: fx_waiting(self.delayed_typedefs),
            emitted: self.emitted@,
        }
    }
}

proof fn lemma_names_push(s: Seq<TypeText>, t: TypeText)
    ensures
        names_of(s.push(t)) == names_of(s).insert(t.name),
{
    assert forall|n: Seq<char>| names_of(s.push(t)).contains(n) <==> names_of(s).insert(t.name).contains(n) by {
        if names_of(s.push(t)).contains(n) {
            let k = choose|k: int| 0 <= k < s.push(t).len() && s.push(t)[k].name == n;
            if k < s.len() {
                assert(s[k].name == n);
            }
        }
        if names_of(s).contains(n) {
            let k = choose|k: int| 0 <= k < s.len() && s[k].name == n;
            assert(s.push(t)[k].name == n);
        }
        if n == t.name {
            assert(s.push(t)[s.len() as int].name == n);
        }
    }
    assert(names_of(s.push(t)) =~= names_of(s).insert(t.name));
}

impl CExporter {
    /// The invariant that every method keeps.
    pub open spec fn wf(&self) -> bool {
        view_wf(self@)
    }

    /// A new exporter: preamble and pragmas, no type, method or global.
    pub fn init(_asm_info: &AssemblyInfo) -> (r: Self)
        ensures
            r.wf(),
            r@.headers == preamble(),
            r@.encoded_asm == pragmas(),
            r@.types.len() == 0,
            r@.type_defs.len() == 0,
            r@.method_defs.len() == 0,
            r@.static_defs.len() == 0,
            r@.defined.is_empty(),
            r@.deferred.dom().is_empty(),
            r@.emitted.len() == 0,
    {
        let mut headers = String::new();
        push_str(&mut headers, "/*  This file was autogenerated by `rustc_codegen_clr` by FractalFir\n It contains C code made from Rust.*/\n");
        push_str(&mut headers, "#include  <stdint.h>\n#include <stdbool.h>\n#include <stddef.h>\n#include <stdio.h>\n#include <stdlib.h>\n#include <mm_malloc.h>\n#include <sys/syscall.h>\n #include<math.h>");
        push_str(&mut headers, "\nstatic char* exec_fname;");
        push_str(&mut headers, "\n");
        let mut encoded_asm = String::new();
        push_str(&mut encoded_asm, "#pragma GCC diagnostic ignored \"-Wmaybe-uninitialized\"\n");
        push_str(&mut encoded_asm, "#pragma GCC diagnostic ignored \"-Wunused-label\"\n");
        push_str(&mut encoded_asm, "#pragma GCC diagnostic ignored \"-Wunused-but-set-variable\"\n");
        push_str(&mut encoded_asm, "#pragma GCC diagnostic ignored \"-Wunused-variable\"\n");
        push_str(&mut encoded_asm, "#pragma GCC diagnostic ignored \"-Wpointer-sign\"\n");
        let r = CExporter {
            types: String::new(),
            type_defs: String::new(),
            method_defs: String::new(),
            static_defs: String::new(),
            encoded_asm,
            headers,
            defined: names_new(),
            delayed_typedefs: waiting_new(),
            emitted: Ghost(Seq::empty()),
        };
        proof {
            assert(r@.headers =~= preamble());
            assert(r@.encoded_asm =~= pragmas());
            assert(r@.deferred.dom() =~= Set::<Seq<char>>::empty());
            assert(names_of(Seq::<TypeText>::empty()) =~= Set::<Seq<char>>::empty());
        }
        r
    }

    fn deps_defined(&self, deps: &Vec<String>) -> (r: bool)
        ensures
            r == (forall|k: int| 0 <= k < deps@.len() ==> fx_names(self.defined).contains(#[trigger] deps@[k]@)),
    {
        let mut i: usize = 0;
        while i < deps.len()
            invariant
                i <= deps@.len(),
                forall|k: int| 0 <= k < i ==> fx_names(self.defined).contains(#[trigger] deps@[k]@),
            decreases deps@.len() - i,
        {
            if !names_contains(&self.defined, &deps[i]) {
                return false;
            }
            i = i + 1;
        }
        true
    }

    fn is_ready(&self, p: &RenderedType) -> (r: bool)
        ensures
            r == ready_in(self@.defined, p@),
    {
        let r = self.deps_defined(&p.deps);
        proof {
            if r {
                assert forall|k: int| 0 <= k < p@.deps.len() implies self@.defined.contains(#[trigger] p@.deps[k]) by {
                    assert(p@.deps[k] == p.deps@[k]@);
                }
            } else {
                let k = choose|k: int| 0 <= k < p.deps@.len() && !fx_names(self.defined).contains(#[trigger] p.deps@[k]@);
                assert(p@.deps[k] == p.deps@[k]@);
            }
        }
        r
    }

    fn find_ready(&self) -> (r: Option<String>)
        ensures
            r matches Some(k) ==> self@.deferred.contains_key(k@) && ready_in(self@.defined, self@.deferred[k@]),
            r is None ==> settled(self@),
    {
        let keys = waiting_keys(&self.delayed_typedefs);
        let ghost ks = keys@.map_values(|s: String| s@);
        let mut i: usize = 0;
        while i < keys.len()
            invariant
                i <= keys@.len(),
                ks == keys@.map_values(|s: String| s@),
                ks.to_set() == self@.deferred.dom(),
                forall|j: int| 0 <= j < i ==> !ready_in(self@.defined, self@.deferred[#[trigger] ks[j]]),
            decreases keys@.len() - i,
        {
            proof {
                assert(ks.contains(ks[i as int]));
                assert(ks.to_set().contains(ks[i as int]));
            }
            match waiting_get(&self.delayed_typedefs, &keys[i]) {
                Some(p) => {
                    if self.is_ready(p) {
                        return Some(keys[i].clone());
                    }
                },
                None => {},
            }
            i = i + 1;
        }
        proof {
            assert forall|k: Seq<char>| #[trigger] self@.deferred.contains_key(k) implies !ready_in(
                self@.defined,
                self@.deferred[k],
            ) by {
                assert(ks.to_set().contains(k));
                let j = choose|j: int| 0 <= j < ks.len() && ks[j] == k;
            }
        }
        None
    }

    fn emit(&mut self, p: RenderedType)
        requires
            log_wf(old(self)@),
            ready_in(old(self)@.defined, p@),
            !old(self)@.defined.contains(p@.name),
            !old(self)@.deferred.contains_key(p@.name),
        ensures
            log_wf(final(self)@),
            final(self)@.emitted == old(self)@.emitted.push(p@),
            final(self)@.defined == old(self)@.defined.insert(p@.name),
            final(self)@.deferred == old(self)@.deferred,
            final(self)@.headers == old(self)@.headers,
            final(self)@.static_defs == old(self)@.static_defs,
            final(self)@.method_defs == old(self)@.method_defs + p@.method_decls,
            final(self)@.encoded_asm == old(self)@.encoded_asm + p@.method_bodies,
    {
        let ghost o = self@;
        push_str(&mut self.method_defs, p.method_decls.as_str());
        push_str(&mut self.encoded_asm, p.method_bodies.as_str());
        push_str(&mut self.types, p.decl.as_str());
        push_str(&mut self.type_defs, p.layout.as_str());
        let ghost t = p@;
        names_insert(&mut self.defined, p.name);
        self.emitted = Ghost(self.emitted@.push(t));
        proof {
            let e = self@.emitted;
            lemma_names_push(o.emitted, t);
            assert(e.drop_last() =~= o.emitted);
            assert(self@.types =~= joined(e, Part::Decl));
            assert(self@.type_defs =~= joined(e, Part::Layout));
            assert forall|i: int, j: int|
                0 <= i < e.len() && 0 <= j < e.len() && i != j implies #[trigger] e[i].name
                != #[trigger] e[j].name by {
                if i == o.emitted.len() {
                    assert(o.defined.contains(e[j].name));
                } else if j == o.emitted.len() {
                    assert(o.defined.contains(e[i].name));
                }
            }
            assert forall|i: int| 0 <= i < e.len() implies ready_in(names_of(e.take(i)), #[trigger] e[i]) by {
                if i == o.emitted.len() {
                    assert(e.take(i) =~= o.emitted);
                } else {
                    assert(e.take(i) =~= o.emitted.take(i));
                }
            }
        }
    }

    /// Registers an aggregate. It is emitted once every aggregate it embeds
    /// directly is defined, after its methods; until then it waits. Each
    /// emission retries the waiting aggregates until none is ready.
    pub fn add_type(&mut self, tpe: &TypeDef)
        requires
            old(self).wf(),
            typedef_supported(*tpe),
        ensures
            final(self).wf(),
            registered(old(self)@, final(self)@, *tpe),
    {
        let name = escape_type_name(tpe.name.as_str());
        if names_contains(&self.defined, &name) {
            return;
        }
        let p = render_type(tpe);
        let ready = self.is_ready(&p);
        let ghost o = self@;
        let ghost r = p@;
        if !ready {
            waiting_insert(&mut self.delayed_typedefs, name, p);
            proof {
                let d = self@.deferred;
                assert(d.dom() =~= o.deferred.dom().insert(r.name));
                assert forall|k: Seq<char>| #[trigger] d.contains_key(k) implies !ready_in(self@.defined, d[k]) by {
                    if k != r.name {
                        assert(o.deferred.contains_key(k));
                    }
                }
            }
            return;
        }
        let _ = waiting_remove(&mut self.delayed_typedefs, &name);
        self.emit(p);
        let l = Ghost(o.emitted.len());
        proof {
            assert(self@.emitted.skip(l@ as int) =~= seq![r]);
            assert(seq![r].drop_last() =~= Seq::<TypeText>::empty());
            assert(names_of(seq![r]) =~= set![r.name]) by {
                lemma_names_push(Seq::<TypeText>::empty(), r);
                assert(Seq::<TypeText>::empty().push(r) =~= seq![r]);
                assert(names_of(Seq::<TypeText>::empty()) =~= Set::<Seq<char>>::empty());
            }
            assert(self@.deferred =~= o.deferred.remove_keys(set![r.name]));
            assert(self@.emitted.take(l@ as int) =~= o.emitted);
            assert(seq![r].last() == r);
            assert(joined(Seq::<TypeText>::empty(), Part::MethodDecls) =~= Seq::<char>::empty());
            assert(joined(Seq::<TypeText>::empty(), Part::MethodBodies) =~= Seq::<char>::empty());
            assert(joined(seq![r], Part::MethodDecls) =~= r.method_decls);
            assert(joined(seq![r], Part::MethodBodies) =~= r.method_bodies);
        }
        loop
            invariant
                log_wf(self@),
                self@.emitted.len() > l@,
                l@ == o.emitted.len(),
                self@.emitted.take(l@ as int) == o.emitted,
                self@.emitted[l@ as int] == r,
                forall|k: int|
                    l@ < k < self@.emitted.len() ==> o.deferred.contains_key((#[trigger] self@.emitted[k]).name)
                        && o.deferred[self@.emitted[k].name] == self@.emitted[k],
                self@.deferred == o.deferred.remove_keys(names_of(self@.emitted.skip(l@ as int))),
                self@.headers == o.headers,
                self@.static_defs == o.static_defs,
                self@.method_defs == o.method_defs + joined(self@.emitted.skip(l@ as int), Part::MethodDecls),
                self@.encoded_asm == o.encoded_asm + joined(self@.emitted.skip(l@ as int), Part::MethodBodies),
            ensures
                settled(self@),
            decreases self@.deferred.dom().len(),
        {
            match self.find_ready() {
                None => {
                    break;
                },
                Some(k) => {
                    let ghost before = self@;
                    match waiting_remove(&mut self.delayed_typedefs, &k) {
                        Some(q) => {
                            let ghost t = q@;
                            proof {
                                assert(t.name == k@);
                                assert(before.deferred.dom().remove(k@).len() < before.deferred.dom().len());
                                assert(self@.deferred.dom() =~= before.deferred.dom().remove(k@));
                            }
                            self.emit(q);
                            proof {
                                let e = self@.emitted;
                                let sk = e.skip(l@ as int);
                                let sk0 = before.emitted.skip(l@ as int);
                                assert(sk =~= sk0.push(t));
                                assert(sk.drop_last() =~= sk0);
                                lemma_names_push(sk0, t);
                                assert(e.take(l@ as int) =~= before.emitted.take(l@ as int));
                                assert(e[l@ as int] == before.emitted[l@ as int]);
                                assert(self@.deferred =~= o.deferred.remove_keys(names_of(sk)));
                                assert forall|j: int|
                                    l@ < j < e.len() implies o.deferred.contains_key((#[trigger] e[j]).name)
                                    && o.deferred[e[j].name] == e[j] by {
                                    if j == e.len() - 1 {
                                        assert(e[j] == t);
                                    } else {
                                        assert(e[j] == before.emitted[j]);
                                    }
                                }
                            }
                        },
                        None => {
                            proof {
                                assert(false);
                            }
                        },
                    }
                },
            }
        }
        proof {
            let e = self@.emitted;
            assert(e =~= e.take(l@ as int) + e.skip(l@ as int));
        }
    }

    /// Emits a free function: its declaration and its definition.
    pub fn add_method(&mut self, method: &Method)
        requires
            old(self).wf(),
            method_supported(*method),
        ensures
            final(self).wf(),
            final(self)@ == (ExporterView {
                method_defs: old(self)@.method_defs + method_decl(*method, Seq::empty()),
                encoded_asm: old(self)@.encoded_asm + method_body(*method, Seq::empty()),
                ..old(self)@
            }),
    {
        export_method(&mut self.method_defs, &mut self.encoded_asm, method, "");
        proof {
            assert(""@ =~= Seq::<char>::empty()) by {
                reveal_strlit("");
            }
        }
    }

    /// Declares an extern function, unless the C environment already
    /// declares one of that name. The library path and the errno flag play
    /// no part in C.
    pub fn add_extern_method(&mut self, _lib_path: &str, name: &str, sig: &FnSig, _preserve_errno: bool)
        requires
            old(self).wf(),
            !host_primitive(name@) ==> sig_supported(*sig),
        ensures
            final(self).wf(),
            host_primitive(name@) ==> final(self)@ == old(self)@,
            !host_primitive(name@) ==> final(self)@ == (ExporterView {
                method_defs: old(self)@.method_defs + extern_decl(name@, *sig),
                ..old(self)@
            }),
    {
        if is_host_primitive(name) {
            return;
        }
        let ghost o = self@;
        push_str(&mut self.method_defs, "extern ");
        push_c_type(&mut self.method_defs, &sig.output);
        push_str(&mut self.method_defs, " ");
        push_str(&mut self.method_defs, name);
        push_str(&mut self.method_defs, " ");
        push_params(&mut self.method_defs, &sig.inputs);
        push_str(&mut self.method_defs, ";\n");
        proof {
            assert(self@.method_defs =~= o.method_defs + extern_decl(name@, *sig));
        }
    }

    /// A reference to another unit: C needs no linkage step, so nothing.
    pub fn add_extern_ref(&mut self, _asm_name: &str, _info: &AssemblyExternRef)
        ensures
            final(self)@ == old(self)@,
    {
    }

    /// Defines a global of the given type, thread-local where asked.
    pub fn add_global(&mut self, tpe: &Type, name: &str, thread_local: bool)
        requires
            old(self).wf(),
            supported(*tpe),
        ensures
            final(self).wf(),
            final(self)@ == (ExporterView {
                static_defs: old(self)@.static_defs + global_def(*tpe, name@, thread_local),
                ..old(self)@
            }),
    {
        let ghost o = self@;
        if thread_local {
            push_str(&mut self.static_defs, "static _Thread_local ");
        } else {
            push_str(&mut self.static_defs, "static ");
        }
        push_c_type(&mut self.static_defs, tpe);
        push_str(&mut self.static_defs, " ");
        push_str(&mut self.static_defs, name);
        push_str(&mut self.static_defs, ";\n");
        proof {
            assert(self@.static_defs =~= o.static_defs + global_def(*tpe, name@, thread_local));
        }
    }

    /// The whole unit: preamble, forward declarations, layouts, method
    /// declarations, globals, method bodies, and for an executable the
    /// entry point.
    pub fn as_source(&self, is_dll: bool) -> (r: String)
        ensures
            r@ == source_of(self@, is_dll),
    {
        let mut r = String::new();
        push_str(&mut r, self.headers.as_str());
        push_str(&mut r, self.types.as_str());
        push_str(&mut r, self.type_defs.as_str());
        push_str(&mut r, self.method_defs.as_str());
        push_str(&mut r, self.static_defs.as_str());
        push_str(&mut r, self.encoded_asm.as_str());
        if !is_dll {
            push_str(&mut r, "int main(int argc,char** argv){_cctor();exec_fname = argv[0];entrypoint(argv + 1);}\n");
        }
        proof {
            assert(r@ =~= source_of(self@, is_dll));
        }
        r
    }

    /// The names of the aggregates still waiting for a dependency.
    pub fn pending_types(&self) -> (r: Vec<String>)
        ensures
            r@.map_values(|s: String| s@).to_set() == self@.deferred.dom(),
    {
        waiting_keys(&self.delayed_typedefs)
    }

    /// The finished unit, or the aggregates whose layout never became
    /// ready (a cycle of embedded aggregates, or one never registered).
    pub fn finalize_source(&self, is_dll: bool) -> (r: Result<String, ExportError>)
        ensures
            self@.deferred.dom().is_empty() <==> r is Ok,
            r matches Ok(s) ==> s@ == source_of(self@, is_dll),
            r matches Err(e) ==> e matches ExportError::UnresolvedLayout(names)
                && names@.map_values(|s: String| s@).to_set() == self@.deferred.dom(),
    {
        let pending = self.pending_types();
        let ghost ks = pending@.map_values(|s: String| s@);
        if pending.len() > 0 {
            proof {
                assert(ks.contains(ks[0]));
                assert(ks.to_set().contains(ks[0]));
            }
            return Err(ExportError::UnresolvedLayout(pending));
        }
        proof {
            assert(ks.to_set() =~= Set::<Seq<char>>::empty());
        }
        Ok(self.as_source(is_dll))
    }
}

} // verus!
