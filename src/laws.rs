use vstd::prelude::*;
use crate::emitter::{emit, emit_children};
use crate::lookup::{alias_count, is_primitive, lookup};
use crate::loop_nest::{lemma_sizes_len, nest, post_process, sizes_of, INDEX_PATTERN};
use crate::pattern::{regex_captures, regex_split};
use crate::resolver::{annotate, resolve, resolve_members, NodeView};
use crate::types::{DeclarationView, ErrorView, TypedefView};

verus! {

broadcast use vstd::seq::axiom_seq_index_decreases;

/// A type name followed by array dimensions of the given sizes.
pub open spec fn with_dims(t: Seq<char>, sizes: Seq<nat>) -> Seq<char>
    decreases sizes.len(),
{
    if sizes.len() == 0 {
        t
    } else {
        annotate(with_dims(t, sizes.drop_last()), sizes.last())
    }
}

/// A primitive type name, possibly followed by array dimensions.
pub open spec fn is_primitive_with_dims(t: Seq<char>) -> bool {
    exists|p: Seq<char>, sizes: Seq<nat>| is_primitive(p) && t == with_dims(p, sizes)
}

/// Every leaf of the tree has a primitive type, possibly with array dimensions.
pub open spec fn leaves_primitive(v: NodeView) -> bool
    decreases v, v.children.len() + 1,
{
    if v.children.len() == 0 {
        is_primitive_with_dims(v.data_type)
    } else {
        children_leaves_primitive(v, v.children.len())
    }
}

/// Every leaf under the first `k` children of `v` has a primitive type.
pub open spec fn children_leaves_primitive(v: NodeView, k: nat) -> bool
    decreases v, k,
{
    if k == 0 || k > v.children.len() {
        true
    } else {
        children_leaves_primitive(v, (k - 1) as nat) && leaves_primitive(v.children[k - 1])
    }
}

proof fn lemma_children_all(v: NodeView, k: nat)
    requires
        k <= v.children.len(),
        forall|i: int| 0 <= i < k ==> #[trigger] leaves_primitive(v.children[i]),
    ensures
        children_leaves_primitive(v, k),
    decreases k,
{
    if k > 0 {
        lemma_children_all(v, (k - 1) as nat);
        assert(leaves_primitive(v.children[k - 1]));
    }
}

proof fn lemma_children_same(v: NodeView, w: NodeView, k: nat)
    requires
        v.children == w.children,
    ensures
        children_leaves_primitive(v, k) == children_leaves_primitive(w, k),
    decreases k,
{
    if k > 0 {
        lemma_children_same(v, w, (k - 1) as nat);
    }
}

/// No struct of the database is without members.
pub open spec fn structs_nonempty(db: Seq<TypedefView>) -> bool {
    forall|i: int|
        0 <= i < db.len() ==> (#[trigger] db[i] matches TypedefView::Struct { elements, .. }
            ==> elements.len() > 0)
}

/// Every tree that resolution builds has primitive leaves, each possibly
/// carrying the dimensions of the array typedefs above it, where no struct of
/// the database is without members (a struct without members stays a node
/// without children, of the struct's type).
pub proof fn lemma_resolved_leaves_primitive(
    db: Seq<TypedefView>,
    alias: Seq<char>,
    name: Seq<char>,
    path: Seq<Seq<char>>,
)
    requires
        structs_nonempty(db),
    ensures
        resolve(db, alias, name, path) matches Ok(v) ==> leaves_primitive(v),
    decreases db.len() - path.len(), 0nat,
{
    if is_primitive(alias) {
        assert(alias == with_dims(alias, seq![]));
        assert(is_primitive_with_dims(alias));
    } else if path.contains(alias) || path.len() >= db.len() {
    } else if let Ok(t) = lookup(db, alias) {
        crate::lookup::lemma_first_index(db, alias);
        assert(t == db[crate::lookup::first_index(db, alias)->0]);
        match t {
            TypedefView::Struct { alias: a, elements, .. } => {
                lemma_members_leaves(db, elements, path.push(alias), elements.len());
                if let Ok(cs) = resolve_members(db, elements, path.push(alias), elements.len()) {
                    let r = NodeView { name, data_type: a, children: cs };
                    assert(resolve(db, alias, name, path) == Ok::<NodeView, ErrorView>(r));
                    assert(r.children.len() > 0);
                    lemma_children_all(r, cs.len());
                }
            },
            TypedefView::Array { data_type, size, .. } => {
                lemma_resolved_leaves_primitive(db, data_type, name, path.push(alias));
                if let Ok(n) = resolve(db, data_type, name, path.push(alias)) {
                    if n.children.len() == 0 {
                        let (p, s) = choose|p: Seq<char>, s: Seq<nat>|
                            is_primitive(p) && n.data_type == with_dims(p, s);
                        assert(s.push(size).drop_last() =~= s);
                        assert(annotate(n.data_type, size) == with_dims(p, s.push(size)));
                    }
                    let r = NodeView { data_type: annotate(n.data_type, size), ..n };
                    lemma_children_same(r, n, n.children.len());
                    assert(leaves_primitive(r));
                }
            },
            TypedefView::Normal { data_type, .. } => {
                lemma_resolved_leaves_primitive(db, data_type, name, path.push(alias));
            },
        }
    }
}

proof fn lemma_members_leaves(
    db: Seq<TypedefView>,
    elements: Seq<DeclarationView>,
    path: Seq<Seq<char>>,
    k: nat,
)
    requires
        structs_nonempty(db),
    ensures
        resolve_members(db, elements, path, k) matches Ok(cs) ==> (k <= elements.len()
            ==> cs.len() == k) && forall|i: int| 0 <= i < cs.len() ==> #[trigger] leaves_primitive(cs[i]),
    decreases db.len() - path.len(), k + 1,
{
    if k == 0 || k > elements.len() {
    } else {
        lemma_members_leaves(db, elements, path, (k - 1) as nat);
        if let DeclarationView::Normal { name, data_type } = elements[k - 1] {
            lemma_resolved_leaves_primitive(db, data_type, name, path);
            if let Ok(cs) = resolve_members(db, elements, path, k) {
                let prev = resolve_members(db, elements, path, (k - 1) as nat)->Ok_0;
                assert forall|i: int| 0 <= i < cs.len() implies #[trigger] leaves_primitive(cs[i]) by {
                    if i < prev.len() {
                        assert(cs[i] == prev[i]);
                    }
                }
            }
        }
    }
}

/// `t`, named inside the typedef of `from`, is primitive or found exactly once
/// with a lower rank.
pub open spec fn refers_below(
    db: Seq<TypedefView>,
    rank: spec_fn(Seq<char>) -> nat,
    from: Seq<char>,
    t: Seq<char>,
) -> bool {
    is_primitive(t) || (alias_count(db, t) == 1 && rank(t) < rank(from))
}

/// Up to rank `top`, the database has no alias cycle, as witnessed by `rank`,
/// and every struct has members, all of them plain: each type that a typedef
/// of rank at most `top` names is primitive or found exactly once, with a
/// lower rank. Typedefs ranked above `top` are not constrained.
pub open spec fn ranked(db: Seq<TypedefView>, rank: spec_fn(Seq<char>) -> nat, top: nat) -> bool {
    forall|i: int|
        0 <= i < db.len() && rank((#[trigger] db[i]).alias()) <= top ==> match db[i] {
            TypedefView::Struct { alias, elements, .. } => elements.len() > 0 && forall|k: int|
                0 <= k < elements.len() ==> (#[trigger] elements[k] matches DeclarationView::Normal {
                    data_type,
                    ..
                } && refers_below(db, rank, alias, data_type)),
            TypedefView::Array { alias, data_type, .. } => refers_below(db, rank, alias, data_type),
            TypedefView::Normal { alias, data_type } => refers_below(db, rank, alias, data_type),
        }
}

/// Resolving an alias found exactly once succeeds, and every leaf of the tree
/// has a primitive type, possibly with array dimensions, where the typedefs it
/// reaches hold no alias cycle and their structs have plain members only. The
/// rank witnesses this: what the alias reaches ranks at most as high as it
/// does, and typedefs it does not reach may be ranked above it.
pub proof fn lemma_resolution_succeeds(
    db: Seq<TypedefView>,
    rank: spec_fn(Seq<char>) -> nat,
    alias: Seq<char>,
    name: Seq<char>,
)
    requires
        ranked(db, rank, rank(alias)),
        is_primitive(alias) || alias_count(db, alias) == 1,
    ensures
        resolve(db, alias, name, seq![]) matches Ok(v) && leaves_primitive(v),
{
    lemma_ranked_resolves(db, rank, rank(alias), alias, name, seq![]);
}

proof fn lemma_primitive_leaf(t: Seq<char>, name: Seq<char>)
    requires
        is_primitive(t),
    ensures
        leaves_primitive(NodeView { name, data_type: t, children: seq![] }),
{
    assert(t == with_dims(t, seq![]));
}

proof fn lemma_ranked_resolves(
    db: Seq<TypedefView>,
    rank: spec_fn(Seq<char>) -> nat,
    top: nat,
    alias: Seq<char>,
    name: Seq<char>,
    path: Seq<Seq<char>>,
)
    requires
        ranked(db, rank, top),
        is_primitive(alias) || (alias_count(db, alias) == 1 && rank(alias) <= top),
        path.no_duplicates(),
        forall|j: int| 0 <= j < path.len() ==> #[trigger] alias_count(db, path[j]) == 1,
        forall|j: int| 0 <= j < path.len() ==> rank(#[trigger] path[j]) > rank(alias),
    ensures
        resolve(db, alias, name, path) matches Ok(v) && leaves_primitive(v),
    decreases 2 * rank(alias) + 1, 0nat,
{
    if is_primitive(alias) {
        lemma_primitive_leaf(alias, name);
    } else {
        assert(!path.contains(alias)) by {
            if path.contains(alias) {
                let j = choose|j: int| 0 <= j < path.len() && path[j] == alias;
                assert(rank(path[j]) > rank(alias));
            }
        }
        let next = path.push(alias);
        assert forall|j: int| 0 <= j < next.len() implies #[trigger] alias_count(db, next[j]) == 1 by {
            if j < path.len() {
                assert(next[j] == path[j]);
            }
        }
        assert(next.no_duplicates()) by {
            assert forall|x: int, y: int| 0 <= x < next.len() && 0 <= y < next.len() && x != y implies next[x]
                != next[y] by {
                if x == path.len() {
                    assert(next[y] == path[y]);
                } else if y == path.len() {
                    assert(next[x] == path[x]);
                } else {
                    assert(next[x] == path[x] && next[y] == path[y]);
                }
            }
        }
        crate::resolver::lemma_path_fits(db, next);
        crate::lookup::lemma_first_index(db, alias);
        let k = crate::lookup::first_index(db, alias)->0;
        let t = db[k];
        assert(lookup(db, alias) == Ok::<TypedefView, ErrorView>(t));
        assert(t.alias() == alias);
        assert(rank(db[k].alias()) <= top);
        match t {
            TypedefView::Struct { alias: a, elements, .. } => {
                lemma_ranked_members(db, rank, top, alias, elements, next, elements.len());
                let cs = resolve_members(db, elements, next, elements.len())->Ok_0;
                let r = NodeView { name, data_type: a, children: cs };
                assert(resolve(db, alias, name, path) == Ok::<NodeView, ErrorView>(r));
                lemma_children_all(r, cs.len());
            },
            TypedefView::Array { data_type, size, .. } => {
                if is_primitive(data_type) {
                    lemma_primitive_leaf(data_type, name);
                } else {
                    lemma_extend_ranks(rank, path, alias, data_type);
                    lemma_ranked_resolves(db, rank, top, data_type, name, next);
                }
                let n = resolve(db, data_type, name, next)->Ok_0;
                if n.children.len() == 0 {
                    let (p, s) = choose|p: Seq<char>, s: Seq<nat>|
                        is_primitive(p) && n.data_type == with_dims(p, s);
                    assert(s.push(size).drop_last() =~= s);
                    assert(annotate(n.data_type, size) == with_dims(p, s.push(size)));
                }
                let r = NodeView { data_type: annotate(n.data_type, size), ..n };
                lemma_children_same(r, n, n.children.len());
                assert(resolve(db, alias, name, path) == Ok::<NodeView, ErrorView>(r));
                assert(leaves_primitive(r));
            },
            TypedefView::Normal { data_type, .. } => {
                if is_primitive(data_type) {
                    lemma_primitive_leaf(data_type, name);
                } else {
                    lemma_extend_ranks(rank, path, alias, data_type);
                    lemma_ranked_resolves(db, rank, top, data_type, name, next);
                }
                assert(resolve(db, alias, name, path) == resolve(db, data_type, name, next));
            },
        }
    }
}

proof fn lemma_extend_ranks(
    rank: spec_fn(Seq<char>) -> nat,
    path: Seq<Seq<char>>,
    alias: Seq<char>,
    t: Seq<char>,
)
    requires
        forall|j: int| 0 <= j < path.len() ==> rank(#[trigger] path[j]) > rank(alias),
        rank(t) < rank(alias),
    ensures
        forall|j: int| 0 <= j < path.push(alias).len() ==> rank(#[trigger] path.push(alias)[j]) > rank(t),
{
    assert forall|j: int| 0 <= j < path.push(alias).len() implies rank(#[trigger] path.push(alias)[j]) > rank(
        t,
    ) by {
        if j < path.len() {
            assert(path.push(alias)[j] == path[j]);
        }
    }
}

proof fn lemma_ranked_members(
    db: Seq<TypedefView>,
    rank: spec_fn(Seq<char>) -> nat,
    top: nat,
    owner: Seq<char>,
    elements: Seq<DeclarationView>,
    path: Seq<Seq<char>>,
    k: nat,
)
    requires
        ranked(db, rank, top),
        rank(owner) <= top,
        path.len() > 0,
        path.last() == owner,
        path.no_duplicates(),
        forall|j: int| 0 <= j < path.len() ==> #[trigger] alias_count(db, path[j]) == 1,
        forall|j: int| 0 <= j < path.len() - 1 ==> rank(#[trigger] path[j]) > rank(owner),
        forall|i: int|
            0 <= i < elements.len() ==> (#[trigger] elements[i] matches DeclarationView::Normal {
                data_type,
                ..
            } && refers_below(db, rank, owner, data_type)),
    ensures
        resolve_members(db, elements, path, k) matches Ok(cs) && (k <= elements.len() ==> cs.len()
            == k) && forall|i: int| 0 <= i < cs.len() ==> #[trigger] leaves_primitive(cs[i]),
    decreases 2 * rank(owner), k,
{
    if k == 0 || k > elements.len() {
    } else {
        lemma_ranked_members(db, rank, top, owner, elements, path, (k - 1) as nat);
        let d = elements[k - 1];
        if let DeclarationView::Normal { name, data_type } = d {
            if !is_primitive(data_type) {
                assert forall|j: int| 0 <= j < path.len() implies rank(#[trigger] path[j]) > rank(data_type) by {
                    if j < path.len() - 1 {
                    } else {
                        assert(path[j] == owner);
                    }
                }
                lemma_ranked_resolves(db, rank, top, data_type, name, path);
            } else {
                lemma_primitive_leaf(data_type, name);
            }
            let prev = resolve_members(db, elements, path, (k - 1) as nat)->Ok_0;
            let cs = resolve_members(db, elements, path, k)->Ok_0;
            assert forall|i: int| 0 <= i < cs.len() implies #[trigger] leaves_primitive(cs[i]) by {
                if i < prev.len() {
                    assert(cs[i] == prev[i]);
                }
            }
        }
    }
}

proof fn lemma_found_in_nonempty(db: Seq<TypedefView>, alias: Seq<char>)
    requires
        alias_count(db, alias) > 0,
    ensures
        db.len() > 0,
{
}

/// The type that an array or plain typedef names.
pub open spec fn target_of(t: TypedefView) -> Option<Seq<char>> {
    match t {
        TypedefView::Struct { .. } => None,
        TypedefView::Array { data_type, .. } => Some(data_type),
        TypedefView::Normal { data_type, .. } => Some(data_type),
    }
}

/// Where `x` resolves on path `p`, and `p` holds (or `x` is) the type `target`
/// that alias `a` names, putting `a` on the path changes nothing: reaching
/// `a` would lead back to `target`, a cycle.
#[verifier::rlimit(40)]
proof fn lemma_pointer_off_path(
    db: Seq<TypedefView>,
    a: Seq<char>,
    target: Seq<char>,
    x: Seq<char>,
    name: Seq<char>,
    p: Seq<Seq<char>>,
    q: Seq<Seq<char>>,
)
    requires
        resolve(db, x, name, p) is Ok,
        lookup(db, a) is Ok,
        target_of(lookup(db, a)->Ok_0) == Some(target),
        p.contains(target) || x == target,
        !p.contains(a),
        forall|j: int| 0 <= j < p.len() ==> !is_primitive(#[trigger] p[j]),
        q.len() == p.len() + 1,
        forall|y: Seq<char>| q.contains(y) <==> (p.contains(y) || y == a),
        q.no_duplicates(),
        forall|j: int| 0 <= j < q.len() ==> #[trigger] alias_count(db, q[j]) == 1,
    ensures
        resolve(db, x, name, q) == resolve(db, x, name, p),
    decreases db.len() - p.len(), 0nat,
{
    if is_primitive(x) || p.contains(x) {
    } else if x == a {
        let p2 = p.push(a);
        assert(p2.contains(target)) by {
            if p.contains(target) {
                let j = choose|j: int| 0 <= j < p.len() && p[j] == target;
                assert(p2[j] == target);
            } else {
                assert(p2[p.len() as int] == target);
            }
        }
        assert(!is_primitive(target)) by {
            if p.contains(target) {
                let j = choose|j: int| 0 <= j < p.len() && p[j] == target;
                assert(!is_primitive(p[j]));
            }
        }
    } else if let Ok(t) = lookup(db, x) {
        if p.len() < db.len() {
            assert(!q.contains(x));
            let (p2, q2) = (p.push(x), q.push(x));
            assert(alias_count(db, x) == 1);
            assert forall|j: int| 0 <= j < q2.len() implies #[trigger] alias_count(db, q2[j]) == 1 by {
                if j < q.len() {
                    assert(q2[j] == q[j]);
                }
            }
            assert(q2.no_duplicates()) by {
                assert forall|u: int, v: int| 0 <= u < q2.len() && 0 <= v < q2.len() && u != v implies q2[u]
                    != q2[v] by {
                    if u == q.len() {
                        assert(q2[v] == q[v]);
                    } else if v == q.len() {
                        assert(q2[u] == q[u]);
                    } else {
                        assert(q2[u] == q[u] && q2[v] == q[v]);
                    }
                }
            }
            crate::resolver::lemma_path_fits(db, q2);
            assert forall|y: Seq<char>| q2.contains(y) <==> (p2.contains(y) || y == a) by {
                if q2.contains(y) {
                    let j = choose|j: int| 0 <= j < q2.len() && q2[j] == y;
                    if j < q.len() {
                        assert(q.contains(y));
                        if p.contains(y) {
                            let m = choose|m: int| 0 <= m < p.len() && p[m] == y;
                            assert(p2[m] == y);
                        }
                    } else {
                        assert(p2[p.len() as int] == y);
                    }
                }
                if p2.contains(y) {
                    let j = choose|j: int| 0 <= j < p2.len() && p2[j] == y;
                    if j < p.len() {
                        assert(p.contains(y));
                        assert(q.contains(y));
                        let m = choose|m: int| 0 <= m < q.len() && q[m] == y;
                        assert(q2[m] == y);
                    } else {
                        assert(q2[q.len() as int] == y);
                    }
                }
                if y == a {
                    assert(q.contains(y));
                    let m = choose|m: int| 0 <= m < q.len() && q[m] == y;
                    assert(q2[m] == y);
                }
            }
            assert(p2.contains(target)) by {
                if p.contains(target) {
                    let j = choose|j: int| 0 <= j < p.len() && p[j] == target;
                    assert(p2[j] == target);
                } else {
                    assert(p2[p.len() as int] == target);
                }
            }
            assert(!p2.contains(a)) by {
                if p2.contains(a) {
                    let j = choose|j: int| 0 <= j < p2.len() && p2[j] == a;
                    if j < p.len() {
                        assert(p.contains(a));
                    }
                }
            }
            assert forall|j: int| 0 <= j < p2.len() implies !is_primitive(#[trigger] p2[j]) by {
                if j < p.len() {
                    assert(p2[j] == p[j]);
                }
            }
            match t {
                TypedefView::Struct { elements, .. } => {
                    lemma_members_pointer_off_path(db, a, target, elements, p2, q2, elements.len());
                },
                TypedefView::Array { data_type, .. } => {
                    lemma_pointer_off_path(db, a, target, data_type, name, p2, q2);
                },
                TypedefView::Normal { data_type, .. } => {
                    lemma_pointer_off_path(db, a, target, data_type, name, p2, q2);
                },
            }
        }
    }
}

proof fn lemma_members_pointer_off_path(
    db: Seq<TypedefView>,
    a: Seq<char>,
    target: Seq<char>,
    elements: Seq<DeclarationView>,
    p: Seq<Seq<char>>,
    q: Seq<Seq<char>>,
    k: nat,
)
    requires
        resolve_members(db, elements, p, k) is Ok,
        lookup(db, a) is Ok,
        target_of(lookup(db, a)->Ok_0) == Some(target),
        p.contains(target),
        !p.contains(a),
        forall|j: int| 0 <= j < p.len() ==> !is_primitive(#[trigger] p[j]),
        q.len() == p.len() + 1,
        forall|y: Seq<char>| q.contains(y) <==> (p.contains(y) || y == a),
        q.no_duplicates(),
        forall|j: int| 0 <= j < q.len() ==> #[trigger] alias_count(db, q[j]) == 1,
    ensures
        resolve_members(db, elements, q, k) == resolve_members(db, elements, p, k),
    decreases db.len() - p.len(), k + 1,
{
    if k == 0 || k > elements.len() {
    } else {
        lemma_members_pointer_off_path(db, a, target, elements, p, q, (k - 1) as nat);
        if let DeclarationView::Normal { name, data_type } = elements[k - 1] {
            lemma_pointer_off_path(db, a, target, data_type, name, p, q);
        }
    }
}

/// A plain alias is transparent: where `alias` is a plain typedef of `target`
/// and `target` resolves, resolving `alias` gives the same tree.
pub proof fn lemma_alias_transparent(
    db: Seq<TypedefView>,
    alias: Seq<char>,
    target: Seq<char>,
    name: Seq<char>,
)
    requires
        !is_primitive(alias),
        lookup(db, alias) == Ok::<TypedefView, ErrorView>(
            TypedefView::Normal { alias, data_type: target },
        ),
        resolve(db, target, name, seq![]) is Ok,
    ensures
        resolve(db, alias, name, seq![]) == resolve(db, target, name, seq![]),
{
    lemma_found_in_nonempty(db, alias);
    lemma_alias_path(db, alias);
    lemma_pointer_off_path(db, alias, target, target, name, seq![], seq![alias]);
}

proof fn lemma_alias_path(db: Seq<TypedefView>, alias: Seq<char>)
    requires
        lookup(db, alias) is Ok,
    ensures
        seq![].push(alias) == seq![alias],
        seq![alias].len() == 1,
        seq![alias].no_duplicates(),
        forall|j: int| 0 <= j < 1 ==> #[trigger] alias_count(db, seq![alias][j]) == 1,
        forall|y: Seq<char>| seq![alias].contains(y) <==> (Seq::<Seq<char>>::empty().contains(y) || y == alias),
{
    assert(seq![].push(alias) =~= seq![alias]);
    assert forall|y: Seq<char>| seq![alias].contains(y) <==> (Seq::<Seq<char>>::empty().contains(y) || y == alias) by {
        if y == alias {
            assert(seq![alias][0] == y);
        }
    }
}

/// An array typedef of `size` elements of `element` resolves to the tree of
/// `element`, with the dimension `[size]` appended to the root's type and no
/// level added, wherever `element` resolves.
pub proof fn lemma_array_annotates(
    db: Seq<TypedefView>,
    alias: Seq<char>,
    element: Seq<char>,
    size: nat,
    name: Seq<char>,
)
    requires
        !is_primitive(alias),
        lookup(db, alias) == Ok::<TypedefView, ErrorView>(
            TypedefView::Array { alias, data_type: element, size },
        ),
        resolve(db, element, name, seq![]) is Ok,
    ensures
        resolve(db, element, name, seq![]) matches Ok(n) && resolve(db, alias, name, seq![])
            == Ok::<NodeView, ErrorView>(NodeView { data_type: annotate(n.data_type, size), ..n }),
{
    lemma_found_in_nonempty(db, alias);
    lemma_alias_path(db, alias);
    lemma_pointer_off_path(db, alias, element, element, name, seq![], seq![alias]);
}

/// The number of leaves of a tree that stand for a field of primitive type.
pub open spec fn leaf_count(v: NodeView) -> nat
    decreases v, v.children.len() + 1,
{
    if v.children.len() == 0 {
        if crate::emitter::has_primitive_base(v.data_type) { 1 } else { 0 }
    } else {
        leaf_count_children(v, v.children.len())
    }
}

/// The number of leaves under the first `k` children of `v`.
pub open spec fn leaf_count_children(v: NodeView, k: nat) -> nat
    decreases v, k,
{
    if k == 0 || k > v.children.len() {
        0
    } else {
        leaf_count_children(v, (k - 1) as nat) + leaf_count(v.children[k - 1])
    }
}

/// The emitter produces exactly one statement per leaf of the tree that
/// stands for a field of primitive type.
pub proof fn lemma_one_statement_per_leaf(v: NodeView, prefix: Seq<char>)
    ensures
        emit(v, prefix) matches Ok(ss) ==> ss.len() == leaf_count(v),
    decreases v, v.children.len() + 1,
{
    if v.children.len() > 0 {
        if let Some(a) = crate::emitter::annotation_of(v.data_type) {
            lemma_children_statements(v, prefix + v.name + a + "."@, v.children.len());
        }
    }
}

proof fn lemma_children_statements(v: NodeView, prefix: Seq<char>, k: nat)
    ensures
        emit_children(v, prefix, k) matches Ok(ss) ==> ss.len() == leaf_count_children(v, k),
    decreases v, k,
{
    if k == 0 || k > v.children.len() {
    } else {
        lemma_children_statements(v, prefix, (k - 1) as nat);
        lemma_one_statement_per_leaf(v.children[k - 1], prefix);
    }
}

/// A statement without array indices comes back unchanged, so rewriting it
/// twice gives what rewriting it once does.
pub proof fn lemma_no_index_unchanged(statement: Seq<char>)
    requires
        regex_captures(INDEX_PATTERN@, statement) matches Some(ms) && ms.len() == 0,
        regex_split(INDEX_PATTERN@, statement) matches Some(ps) && ps.len() == 1,
    ensures
        post_process(statement) == Ok::<Seq<char>, ErrorView>(statement),
        post_process(post_process(statement)->Ok_0) == post_process(statement),
{
}

/// The loop nest holds one loop per array index of the statement.
pub proof fn lemma_one_loop_per_index(statement: Seq<char>)
    requires
        post_process(statement) is Ok,
    ensures
        ({
            let ms = regex_captures(INDEX_PATTERN@, statement)->Some_0;
            let ps = regex_split(INDEX_PATTERN@, statement)->Some_0;
            let sizes = sizes_of(ms, ms.len())->Some_0;
            sizes.len() == ms.len() && post_process(statement) == Ok::<Seq<char>, ErrorView>(
                nest(statement, ps, sizes),
            )
        }),
{
    let ms = regex_captures(INDEX_PATTERN@, statement)->Some_0;
    lemma_sizes_len(ms, ms.len());
}

} // verus!
