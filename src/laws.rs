//! Properties of the exporter that hold across calls.
use vstd::prelude::*;
use crate::exporter::{
    distinct_names, joined, log_wf, names_of, ready_in, registered, settled, source_of, view_wf,
    ExporterView, Part,
};
use crate::ir::{Type, TypeDef};
use crate::layout::{decl_text, deps_upto, embedded_name, embeds, layout_text, rendered, TypeText};
use crate::method::{local_entry, locals_upto, param_entry, params_upto};

verus! {

/// Registering the same aggregate twice adds nothing the second time: no
/// declaration, layout, defined name or log entry.
pub proof fn lemma_register_twice(a: ExporterView, b: ExporterView, c: ExporterView, t: TypeDef)
    requires
        view_wf(a),
        registered(a, b, t),
        view_wf(b),
        registered(b, c, t),
    ensures
        c.types == b.types,
        c.type_defs == b.type_defs,
        c.defined == b.defined,
        c.emitted == b.emitted,
        distinct_names(c.emitted),
{
    let r = rendered(t);
    if a.defined.contains(r.name) {
    } else if !ready_in(a.defined, r) {
    } else {
        let l = a.emitted.len() as int;
        assert(b.emitted[l].name == r.name);
        assert(names_of(b.emitted).contains(r.name));
    }
}

/// Where the layout of the `k`-th emitted aggregate starts.
pub open spec fn layout_start(s: Seq<TypeText>, k: int) -> int {
    joined(s.take(k), Part::Layout).len() as int
}

/// The parts of a sequence are those of a prefix followed by those of the rest.
pub proof fn lemma_joined_split(s: Seq<TypeText>, k: int, p: Part)
    requires
        0 <= k <= s.len(),
    ensures
        joined(s, p) == joined(s.take(k), p) + joined(s.skip(k), p),
    decreases s.len(),
{
    if k == s.len() {
        assert(s.take(k) =~= s);
        assert(s.skip(k) =~= Seq::<TypeText>::empty());
        assert(joined(Seq::<TypeText>::empty(), p) =~= Seq::<char>::empty());
        assert(joined(s, p) =~= joined(s, p) + Seq::<char>::empty());
    } else {
        let d = s.drop_last();
        lemma_joined_split(d, k, p);
        assert(d.take(k) =~= s.take(k));
        assert(s.skip(k).drop_last() =~= d.skip(k));
        assert(s.skip(k).last() == s.last());
        assert(joined(s, p) =~= joined(s.take(k), p) + joined(s.skip(k), p));
    }
}

/// When an emitted aggregate embeds another, the other was emitted first,
/// and its whole layout text stands before the first one's in the unit's
/// layout region.
pub proof fn lemma_dependency_order(v: ExporterView, i: int, j: int)
    requires
        log_wf(v),
        0 <= i < v.emitted.len(),
        0 <= j < v.emitted.len(),
        v.emitted[i].deps.contains(v.emitted[j].name),
    ensures
        j < i,
        layout_start(v.emitted, j) + v.emitted[j].layout.len() <= layout_start(v.emitted, i),
        v.type_defs.subrange(
            layout_start(v.emitted, j),
            layout_start(v.emitted, j) + v.emitted[j].layout.len(),
        ) == v.emitted[j].layout,
        v.type_defs.subrange(
            layout_start(v.emitted, i),
            layout_start(v.emitted, i) + v.emitted[i].layout.len(),
        ) == v.emitted[i].layout,
{
    let s = v.emitted;
    let k = choose|k: int| 0 <= k < s[i].deps.len() && s[i].deps[k] == s[j].name;
    assert(ready_in(names_of(s.take(i)), s[i]));
    assert(names_of(s.take(i)).contains(s[i].deps[k]));
    let j2 = choose|j2: int| 0 <= j2 < s.take(i).len() && s.take(i)[j2].name == s[j].name;
    assert(s[j2].name == s[j].name);
    assert(j2 == j);
    lemma_layout_at(s, j);
    lemma_layout_at(s, i);
    lemma_joined_split(s.take(i), j + 1, Part::Layout);
    assert(s.take(i).take(j + 1) =~= s.take(j + 1));
}

proof fn lemma_layout_at(s: Seq<TypeText>, i: int)
    requires
        0 <= i < s.len(),
    ensures
        joined(s.take(i + 1), Part::Layout) == joined(s.take(i), Part::Layout) + s[i].layout,
        joined(s, Part::Layout).subrange(
            layout_start(s, i),
            layout_start(s, i) + s[i].layout.len(),
        ) == s[i].layout,
{
    assert(s.take(i + 1).drop_last() =~= s.take(i));
    assert(s.take(i + 1).last() == s[i]);
    lemma_joined_split(s, i + 1, Part::Layout);
    let a = joined(s.take(i), Part::Layout);
    let b = s[i].layout;
    let c = joined(s.skip(i + 1), Part::Layout);
    assert(joined(s, Part::Layout) =~= a + b + c);
    assert((a + b + c).subrange(a.len() as int, (a.len() + b.len()) as int) =~= b);
}

/// Whether `t` is waiting, under its name, in `v`.
pub open spec fn waits(v: ExporterView, t: TypeText) -> bool {
    v.deferred.contains_key(t.name) && v.deferred[t.name] == t
}

proof fn lemma_chain_prefix(states: Seq<ExporterView>, chain: Seq<TypeDef>, m: int)
    requires
        chain.len() >= 1,
        states.len() == chain.len() + 1,
        states[0].defined == Set::<Seq<char>>::empty(),
        forall|i: int| 0 <= i < chain.len() ==> registered(states[i], #[trigger] states[i + 1], chain[i]),
        forall|i: int|
            0 <= i < chain.len() - 1 ==> (#[trigger] rendered(chain[i])).deps == seq![rendered(chain[i + 1]).name],
        forall|i: int, j: int|
            0 <= i < chain.len() && 0 <= j < chain.len() && i != j ==> (#[trigger] rendered(chain[i])).name
                != (#[trigger] rendered(chain[j])).name,
        states[0].deferred.dom().is_empty(),
        0 <= m < chain.len(),
    ensures
        states[m].defined == Set::<Seq<char>>::empty(),
        forall|i: int| 0 <= i < m ==> waits(states[m], #[trigger] rendered(chain[i])),
        forall|k: Seq<char>|
            #[trigger] states[m].deferred.contains_key(k) ==> exists|i: int|
                0 <= i < m && (#[trigger] rendered(chain[i])).name == k,
    decreases m,
{
    if m == 0 {
        assert forall|k: Seq<char>| #[trigger] states[m].deferred.contains_key(k) implies false by {
            assert(states[0].deferred.dom().contains(k));
        }
    }
    if m > 0 {
        lemma_chain_prefix(states, chain, m - 1);
        let o = states[m - 1];
        let r = rendered(chain[m - 1]);
        assert(registered(o, states[m], chain[m - 1]));
        assert(r.deps == seq![rendered(chain[m]).name]);
        assert(!o.defined.contains(r.deps[0]));
        assert(!ready_in(o.defined, r));
        assert forall|i: int| 0 <= i < m implies waits(states[m], #[trigger] rendered(chain[i])) by {
            if i < m - 1 {
                assert(rendered(chain[i]).name != r.name);
            }
        }
        assert forall|k: Seq<char>| #[trigger] states[m].deferred.contains_key(k) implies exists|i: int|
            0 <= i < m && (#[trigger] rendered(chain[i])).name == k by {
            if k == r.name {
                assert(rendered(chain[m - 1]).name == k);
            } else {
                assert(o.deferred.contains_key(k));
                let i = choose|i: int| 0 <= i < m - 1 && (#[trigger] rendered(chain[i])).name == k;
                assert(rendered(chain[i]).name == k);
            }
        }
    }
}

proof fn lemma_chain_suffix(v: ExporterView, chain: Seq<TypeDef>, i: int)
    requires
        settled(v),
        0 <= i < chain.len(),
        v.defined.contains(rendered(chain[chain.len() - 1]).name),
        forall|k: int|
            0 <= k < chain.len() - 1 ==> (#[trigger] rendered(chain[k])).deps == seq![rendered(chain[k + 1]).name],
        forall|k: int|
            0 <= k < chain.len() - 1 ==> (v.defined.contains((#[trigger] rendered(chain[k])).name)
                || waits(v, rendered(chain[k]))),
    ensures
        v.defined.contains(rendered(chain[i]).name),
    decreases chain.len() - i,
{
    if i < chain.len() - 1 {
        lemma_chain_suffix(v, chain, i + 1);
        let r = rendered(chain[i]);
        if !v.defined.contains(r.name) {
            assert(waits(v, r));
            assert(!ready_in(v.defined, v.deferred[r.name]));
            assert(r.deps == seq![rendered(chain[i + 1]).name]);
            assert(ready_in(v.defined, r));
        }
    }
}

/// A chain of aggregates, each embedding the next and the last embedding
/// none, registered from the first to the last into a fresh exporter: after
/// the last registration every one of them is defined, none is left
/// waiting, and each one's layout stands after that of the next.
pub proof fn lemma_chain_completes(states: Seq<ExporterView>, chain: Seq<TypeDef>)
    requires
        chain.len() >= 1,
        states.len() == chain.len() + 1,
        states[0].defined == Set::<Seq<char>>::empty(),
        states[0].deferred.dom().is_empty(),
        forall|i: int|
            0 <= i < chain.len() ==> view_wf(#[trigger] states[i + 1]) && registered(
                states[i],
                states[i + 1],
                chain[i],
            ),
        forall|i: int|
            0 <= i < chain.len() - 1 ==> (#[trigger] rendered(chain[i])).deps == seq![rendered(chain[i + 1]).name],
        rendered(chain[chain.len() - 1]).deps.len() == 0,
        forall|i: int, j: int|
            0 <= i < chain.len() && 0 <= j < chain.len() && i != j ==> (#[trigger] rendered(chain[i])).name
                != (#[trigger] rendered(chain[j])).name,
    ensures
        forall|i: int| 0 <= i < chain.len() ==> states[chain.len() as int].defined.contains(
            #[trigger] rendered(chain[i]).name,
        ),
        states[chain.len() as int].deferred.dom().is_empty(),
        forall|i: int, a: int, b: int|
            #![trigger states[chain.len() as int].emitted[a], states[chain.len() as int].emitted[b], chain[i]]
            0 <= i < chain.len() - 1 && 0 <= a < states[chain.len() as int].emitted.len() && 0 <= b
                < states[chain.len() as int].emitted.len() && states[chain.len() as int].emitted[a]
                == rendered(chain[i]) && states[chain.len() as int].emitted[b] == rendered(
                chain[i + 1],
            ) ==> b < a && layout_start(states[chain.len() as int].emitted, b) + rendered(
                chain[i + 1],
            ).layout.len() <= layout_start(states[chain.len() as int].emitted, a),
{
    let n = chain.len() as int;
    assert forall|i: int| 0 <= i < n implies registered(states[i], #[trigger] states[i + 1], chain[i]) by {
        assert(view_wf(states[i + 1]) && registered(states[i], states[i + 1], chain[i]));
    }
    lemma_chain_prefix(states, chain, n - 1);
    let o = states[n - 1];
    let v = states[n];
    let r = rendered(chain[n - 1]);
    assert(view_wf(states[n - 1 + 1]) && registered(o, states[n - 1 + 1], chain[n - 1]));
    assert(ready_in(o.defined, r));
    let l = o.emitted.len() as int;
    let added = v.emitted.skip(l);
    assert(v.emitted[l] == r);
    assert(names_of(v.emitted).contains(r.name));
    assert forall|k: int| 0 <= k < n - 1 implies (v.defined.contains((#[trigger] rendered(chain[k])).name)
        || waits(v, rendered(chain[k]))) by {
        let q = rendered(chain[k]);
        assert(waits(o, q));
        assert(q.name != r.name);
        if names_of(added).contains(q.name) {
            let a = choose|a: int| 0 <= a < added.len() && added[a].name == q.name;
            assert(v.emitted[l + a].name == q.name);
        }
    }
    assert forall|i: int| 0 <= i < n implies v.defined.contains(#[trigger] rendered(chain[i]).name) by {
        lemma_chain_suffix(v, chain, i);
    }
    assert forall|k: Seq<char>| v.deferred.dom().contains(k) implies false by {
        assert(v.deferred.contains_key(k));
        assert(o.deferred.contains_key(k));
        let i = choose|i: int| 0 <= i < n - 1 && (#[trigger] rendered(chain[i])).name == k;
        assert(v.defined.contains(rendered(chain[i]).name));
    }
    assert(v.deferred.dom() =~= Set::<Seq<char>>::empty());
    assert forall|i: int, a: int, b: int|
        #![trigger v.emitted[a], v.emitted[b], chain[i]]
        0 <= i < n - 1 && 0 <= a < v.emitted.len() && 0 <= b < v.emitted.len() && v.emitted[a]
            == rendered(chain[i]) && v.emitted[b] == rendered(chain[i + 1]) implies b < a
        && layout_start(v.emitted, b) + rendered(chain[i + 1]).layout.len() <= layout_start(
        v.emitted,
        a,
    ) by {
        assert(rendered(chain[i]).deps == seq![rendered(chain[i + 1]).name]);
        assert(v.emitted[a].deps[0] == v.emitted[b].name);
        lemma_dependency_order(v, a, b);
    }
}

/// A void input declares no parameter; any other declares one that keeps
/// its input index.
pub proof fn lemma_void_param(ins: Seq<Type>, k: nat)
    requires
        k < ins.len(),
    ensures
        ins[k as int] is Void ==> params_upto(ins, k + 1) == params_upto(ins, k),
        !(ins[k as int] is Void) && params_upto(ins, k).len() == 0 ==> params_upto(ins, k + 1)
            == param_entry(ins[k as int], k),
        !(ins[k as int] is Void) && params_upto(ins, k).len() > 0 ==> params_upto(ins, k + 1)
            == params_upto(ins, k) + ","@ + param_entry(ins[k as int], k) + " "@,
{
}

/// A void local declares no variable; any other declares one that keeps
/// its local index.
pub proof fn lemma_void_local(ls: Seq<(Option<String>, Type)>, k: nat)
    requires
        k < ls.len(),
    ensures
        ls[k as int].1 is Void ==> locals_upto(ls, k + 1) == locals_upto(ls, k),
        !(ls[k as int].1 is Void) ==> locals_upto(ls, k + 1) == locals_upto(ls, k) + local_entry(ls[k as int].1, k),
{
}

/// Explicit offsets give a union declaration and layout; without them a
/// struct declaration and layout. Exactly one of the two is taken.
pub proof fn lemma_layout_mode(t: TypeDef)
    ensures
        (layout_text(t).take(6) == "union "@) <==> t.explicit_offsets is Some,
        (layout_text(t).take(7) == "struct "@) <==> t.explicit_offsets is None,
        (decl_text(t).take(14) == "typedef union "@) <==> t.explicit_offsets is Some,
        (decl_text(t).take(15) == "typedef struct "@) <==> t.explicit_offsets is None,
{
    reveal_strlit("union ");
    reveal_strlit("struct ");
    reveal_strlit("typedef union ");
    reveal_strlit("typedef struct ");
    reveal_strlit("{\n");
    reveal_strlit(" ");
    let l = layout_text(t);
    let d = decl_text(t);
    if t.explicit_offsets is Some {
        assert(l.take(6) =~= "union "@);
        assert(d.take(14) =~= "typedef union "@);
        assert(l.len() >= 7 && d.len() >= 15);
        assert(l[0] == l.take(6)[0] && l.take(7)[0] == l[0]);
        assert(d[8] == d.take(14)[8] && d.take(15)[8] == d[8]);
        assert(l.take(7) != "struct "@);
        assert(d.take(15) != "typedef struct "@);
    } else {
        assert(l.take(7) =~= "struct "@);
        assert(d.take(15) =~= "typedef struct "@);
        assert(l.len() >= 7 && d.len() >= 15);
        assert(l[0] == l.take(7)[0] && l.take(6)[0] == l[0]);
        assert(d[8] == d.take(15)[8] && d.take(14)[8] == d[8]);
        assert(l.take(6) != "union "@);
        assert(d.take(14) != "typedef union "@);
    }
}

proof fn lemma_field_dep(fs: Seq<(String, Type)>, n: nat, k: int)
    requires
        0 <= k < n <= fs.len(),
        embeds(fs[k].1),
    ensures
        deps_upto(fs, n).contains(embedded_name(fs[k].1)),
    decreases n,
{
    let d = deps_upto(fs, n);
    if k == n - 1 {
        assert(d[d.len() - 1] == embedded_name(fs[k].1));
    } else {
        lemma_field_dep(fs, (n - 1) as nat, k);
        let p = deps_upto(fs, (n - 1) as nat);
        let m = choose|m: int| 0 <= m < p.len() && p[m] == embedded_name(fs[k].1);
        if embeds(fs[n - 1].1) {
            assert(d[m] == p[m]);
        }
    }
}

/// Where the layout region starts in the unit.
pub open spec fn layouts_offset(v: ExporterView) -> int {
    (v.headers.len() + v.types.len()) as int
}

/// When aggregate `a` has a field that names aggregate `b` of this
/// assembly, and both have been emitted, `b` was emitted first and its whole
/// layout text stands before `a`'s in the assembled unit.
pub proof fn lemma_embedded_laid_out_first(
    v: ExporterView,
    a: TypeDef,
    b: TypeDef,
    i: int,
    j: int,
    k: int,
    is_dll: bool,
)
    requires
        log_wf(v),
        0 <= i < v.emitted.len(),
        0 <= j < v.emitted.len(),
        v.emitted[i] == rendered(a),
        v.emitted[j] == rendered(b),
        0 <= k < a.fields@.len(),
        embeds(a.fields@[k].1),
        embedded_name(a.fields@[k].1) == rendered(b).name,
    ensures
        j < i,
        ({
            let src = source_of(v, is_dll);
            let sj = layouts_offset(v) + layout_start(v.emitted, j);
            let si = layouts_offset(v) + layout_start(v.emitted, i);
            &&& sj + layout_text(b).len() <= si
            &&& src.subrange(sj, sj + layout_text(b).len()) == layout_text(b)
            &&& src.subrange(si, si + layout_text(a).len()) == layout_text(a)
        }),
{
    lemma_field_dep(a.fields@, a.fields@.len(), k);
    lemma_dependency_order(v, i, j);
    let src = source_of(v, is_dll);
    let off = layouts_offset(v);
    let pre = v.headers + v.types;
    let rest = v.method_defs + v.static_defs + v.encoded_asm + (if is_dll {
        Seq::<char>::empty()
    } else {
        crate::exporter::entry_point()
    });
    assert(src =~= pre + v.type_defs + rest);
    assert forall|x: int, y: int| 0 <= x <= y <= v.type_defs.len() implies src.subrange(off + x, off + y)
        == #[trigger] v.type_defs.subrange(x, y) by {
        assert(src.subrange(off + x, off + y) =~= v.type_defs.subrange(x, y));
    }
    lemma_joined_split(v.emitted, j + 1, Part::Layout);
    lemma_joined_split(v.emitted, i + 1, Part::Layout);
    lemma_layout_at(v.emitted, j);
    lemma_layout_at(v.emitted, i);
}

/// Registering an aggregate whose name is not yet defined and whose direct
/// dependencies all are emits its layout exactly once and defines its name:
/// a union layout when it has explicit offsets, else a struct layout, never
/// both.
pub proof fn lemma_ready_registration_layout(o: ExporterView, n: ExporterView, t: TypeDef)
    requires
        view_wf(o),
        view_wf(n),
        registered(o, n, t),
        !o.defined.contains(rendered(t).name),
        ready_in(o.defined, rendered(t)),
    ensures
        n.defined.contains(rendered(t).name),
        n.emitted[o.emitted.len() as int] == rendered(t),
        forall|k: int|
            0 <= k < n.emitted.len() && k != o.emitted.len() ==> (#[trigger] n.emitted[k]).name != rendered(
                t,
            ).name,
        n.type_defs.subrange(
            layout_start(n.emitted, o.emitted.len() as int),
            layout_start(n.emitted, o.emitted.len() as int) + layout_text(t).len(),
        ) == layout_text(t),
        (layout_text(t).take(6) == "union "@) <==> t.explicit_offsets is Some,
        (layout_text(t).take(7) == "struct "@) <==> t.explicit_offsets is None,
{
    let l = o.emitted.len() as int;
    assert(names_of(n.emitted).contains(n.emitted[l].name));
    lemma_layout_at(n.emitted, l);
    lemma_layout_mode(t);
}

/// The indices of the non-void inputs among the first `n`, in order.
pub open spec fn nonvoid_indices(ins: Seq<Type>, n: nat) -> Seq<nat>
    decreases n,
{
    if n == 0 {
        Seq::empty()
    } else if ins[n - 1] is Void {
        nonvoid_indices(ins, (n - 1) as nat)
    } else {
        nonvoid_indices(ins, (n - 1) as nat).push((n - 1) as nat)
    }
}

/// One declared parameter per index of `idx`, in order, each named by its
/// index: the first bare, each later one after a comma and before a space.
pub open spec fn declared_params(ins: Seq<Type>, idx: Seq<nat>) -> Seq<char>
    decreases idx.len(),
{
    if idx.len() == 0 {
        Seq::empty()
    } else if idx.len() == 1 {
        param_entry(ins[idx[0] as int], idx[0])
    } else {
        declared_params(ins, idx.drop_last()) + ","@ + param_entry(ins[idx.last() as int], idx.last()) + " "@
    }
}

/// The parameter list declares exactly the non-void inputs, in order, each
/// under its own input index; so it declares as many parameters as there
/// are non-void inputs.
pub proof fn lemma_params_are_nonvoid_inputs(ins: Seq<Type>, n: nat)
    requires
        n <= ins.len(),
    ensures
        params_upto(ins, n) == declared_params(ins, nonvoid_indices(ins, n)),
        params_upto(ins, n).len() == 0 <==> nonvoid_indices(ins, n).len() == 0,
        forall|j: int| 0 <= j < nonvoid_indices(ins, n).len() ==> !(ins[#[trigger] nonvoid_indices(ins, n)[j] as int] is Void),
    decreases n,
{
    reveal_strlit(" A");
    if n > 0 {
        lemma_params_are_nonvoid_inputs(ins, (n - 1) as nat);
        let prev = nonvoid_indices(ins, (n - 1) as nat);
        if !(ins[n - 1] is Void) {
            let cur = prev.push((n - 1) as nat);
            assert(cur.drop_last() =~= prev);
            if prev.len() == 0 {
                assert(declared_params(ins, cur) == param_entry(ins[n - 1], (n - 1) as nat));
            }
            assert forall|j: int| 0 <= j < cur.len() implies !(ins[#[trigger] cur[j] as int] is Void) by {
                if j < prev.len() {
                    assert(cur[j] == prev[j]);
                }
            }
        }
    }
}

} // verus!
