use vstd::prelude::*;
use vstd::string::StringExecFns;
use crate::lookup::{
    alias_count, find_by_alias, first_index, is_primitive, is_primivite_type, lemma_first_index, lookup,
};
use vstd::set_lib::{lemma_int_range, lemma_len_subset, set_int_range};
use crate::text::{decimal, push_decimal, str_eq};
use crate::types::{
    database_view, Declaration, DeclarationView, ErrorView, Typedef, TypedefError, TypedefView,
};

verus! {

broadcast use vstd::std_specs::vec::axiom_vec_index_decreases;

/// The mathematical form of a field-tree node.
pub ghost struct NodeView {
    pub name: Seq<char>,
    pub data_type: Seq<char>,
    pub children: Seq<NodeView>,
}

/// One node of a resolved field tree: a field name, its type, and the fields
/// it expands into.
#[derive(Debug, PartialEq, Eq)]
pub struct Node {
    pub name: String,
    pub data_type: String,
    pub below_nodes: Vec<Node>,
}

impl View for Node {
    type V = NodeView;

    open spec fn view(&self) -> NodeView
        decreases self,
    {
        NodeView {
            name: self.name@,
            data_type: self.data_type@,
            children: Seq::new(
                self.below_nodes.len() as nat,
                |i: int|
                    if 0 <= i < self.below_nodes.len() {
                        self.below_nodes[i].view()
                    } else {
                        NodeView { name: seq![], data_type: seq![], children: seq![] }
                    },
            ),
        }
    }
}

/// The views of a list of nodes.
pub open spec fn nodes_view(ns: Seq<Node>) -> Seq<NodeView> {
    ns.map_values(|n: Node| n@)
}

/// The views of a list of strings.
pub open spec fn strings_view(ss: Seq<String>) -> Seq<Seq<char>> {
    ss.map_values(|s: String| s@)
}

/// The view of a resolution outcome.
pub open spec fn node_result_view(r: Result<Node, TypedefError>) -> Result<NodeView, ErrorView> {
    match r {
        Ok(n) => Ok(n@),
        Err(e) => Err(e@),
    }
}

/// A type name with one array dimension appended.
pub open spec fn annotate(t: Seq<char>, size: nat) -> Seq<char> {
    t + seq!['['] + decimal(size) + seq![']']
}

/// Resolves `alias` under field name `name`, where `path` holds the aliases
/// being expanded above it. An alias that is already on the path is a cycle.
///
/// The length bound on the path only makes the definition total: on a path
/// that holds distinct aliases, each found once, it never decides (see
/// `lemma_path_fits`).
pub open spec fn resolve(
    db: Seq<TypedefView>,
    alias: Seq<char>,
    name: Seq<char>,
    path: Seq<Seq<char>>,
) -> Result<NodeView, ErrorView>
    decreases db.len() - path.len(), 0nat,
{
    if is_primitive(alias) {
        Ok(NodeView { name, data_type: alias, children: seq![] })
    } else if path.contains(alias) {
        Err(ErrorView::CycleDetected { alias })
    } else if lookup(db, alias) is Ok && path.len() >= db.len() {
        Err(ErrorView::CycleDetected { alias })
    } else {
        match lookup(db, alias) {
            Err(e) => Err(e),
            Ok(TypedefView::Struct { alias: a, elements, .. }) => {
                match resolve_members(db, elements, path.push(alias), elements.len()) {
                    Ok(cs) => Ok(NodeView { name, data_type: a, children: cs }),
                    Err(e) => Err(e),
                }
            },
            Ok(TypedefView::Array { data_type, size, .. }) => {
                match resolve(db, data_type, name, path.push(alias)) {
                    Ok(n) => Ok(NodeView { data_type: annotate(n.data_type, size), ..n }),
                    Err(e) => Err(e),
                }
            },
            Ok(TypedefView::Normal { data_type, .. }) => resolve(
                db,
                data_type,
                name,
                path.push(alias),
            ),
        }
    }
}

/// Resolves the first `k` members of a struct, stopping at the first failure.
pub open spec fn resolve_members(
    db: Seq<TypedefView>,
    elements: Seq<DeclarationView>,
    path: Seq<Seq<char>>,
    k: nat,
) -> Result<Seq<NodeView>, ErrorView>
    decreases db.len() - path.len(), k + 1,
{
    if k == 0 || k > elements.len() {
        Ok(seq![])
    } else {
        match resolve_members(db, elements, path, (k - 1) as nat) {
            Err(e) => Err(e),
            Ok(cs) => match elements[k - 1] {
                DeclarationView::Normal { name, data_type } => match resolve(
                    db,
                    data_type,
                    name,
                    path,
                ) {
                    Ok(c) => Ok(cs.push(c)),
                    Err(e) => Err(e),
                },
                DeclarationView::Pointer { name, .. } => Err(
                    ErrorView::UnsupportedDeclaration { name },
                ),
                DeclarationView::Array { name, .. } => Err(
                    ErrorView::UnsupportedDeclaration { name },
                ),
            },
        }
    }
}

proof fn lemma_members_fail(
    db: Seq<TypedefView>,
    elements: Seq<DeclarationView>,
    path: Seq<Seq<char>>,
    k: nat,
    m: nat,
)
    requires
        0 < k <= m <= elements.len(),
        resolve_members(db, elements, path, k) is Err,
    ensures
        resolve_members(db, elements, path, m) == resolve_members(db, elements, path, k),
    decreases m - k,
{
    if m > k {
        lemma_members_fail(db, elements, path, k, (m - 1) as nat);
    }
}

/// Whether `alias` already stands on the path.
fn path_contains(path: &Vec<String>, alias: &str) -> (r: bool)
    ensures
        r == strings_view(path@).contains(alias@),
{
    let mut i: usize = 0;
    while i < path.len()
        invariant
            i <= path.len(),
            forall|j: int| 0 <= j < i ==> path@[j]@ != alias@,
        decreases path.len() - i,
    {
        if str_eq(path[i].as_str(), alias) {
            assert(strings_view(path@)[i as int] == alias@);
            return true;
        }
        i = i + 1;
    }
    assert forall|j: int| 0 <= j < strings_view(path@).len() implies strings_view(path@)[j]
        != alias@ by {
        assert(strings_view(path@)[j] == path@[j]@);
    }
    false
}

/// The path with `alias` added at its end.
fn extended(path: &Vec<String>, alias: &str) -> (r: Vec<String>)
    ensures
        strings_view(r@) == strings_view(path@).push(alias@),
        r@.len() == path@.len() + 1,
{
    let mut r: Vec<String> = Vec::new();
    let mut i: usize = 0;
    while i < path.len()
        invariant
            i <= path.len(),
            r@.len() == i,
            strings_view(r@) =~= strings_view(path@).take(i as int),
        decreases path.len() - i,
    {
        r.push(path[i].clone());
        i = i + 1;
        assert(strings_view(r@) =~= strings_view(path@).take(i as int));
    }
    assert(strings_view(path@).take(i as int) =~= strings_view(path@));
    let ghost prev = r@;
    r.push(String::from_str(alias));
    assert(strings_view(r@) =~= strings_view(prev).push(alias@));
    r
}

/// Resolves `alias` below the aliases of `path`, each of which the database
/// holds once and none twice.
fn resolve_on_path(typedefs: &Vec<Typedef>, alias: &str, name: &str, path: &Vec<String>) -> (r:
    Result<Node, TypedefError>)
    requires
        strings_view(path@).no_duplicates(),
        forall|j: int|
            0 <= j < path@.len() ==> #[trigger] alias_count(
                database_view(typedefs@),
                strings_view(path@)[j],
            ) == 1,
    ensures
        node_result_view(r) == resolve(
            database_view(typedefs@),
            alias@,
            name@,
            strings_view(path@),
        ),
    decreases typedefs.len() - path.len(),
{
    let ghost db = database_view(typedefs@);
    let ghost pv = strings_view(path@);
    if is_primivite_type(alias) {
        let node = Node {
            name: String::from_str(name),
            data_type: String::from_str(alias),
            below_nodes: Vec::new(),
        };
        assert(node@.children =~= Seq::<NodeView>::empty());
        return Ok(node);
    }
    if path_contains(path, alias) {
        return Err(TypedefError::CycleDetected { alias: String::from_str(alias) });
    }
    let typedef = match find_by_alias(typedefs, alias) {
        Ok(t) => t,
        Err(e) => {
            return Err(e);
        },
    };
    let next = extended(path, alias);
    let ghost nv = strings_view(next@);
    proof {
        assert(alias_count(db, alias@) == 1);
        assert forall|j: int| 0 <= j < nv.len() implies #[trigger] alias_count(db, nv[j]) == 1 by {
            if j < pv.len() {
                assert(nv[j] == pv[j]);
            }
        }
        assert(nv.no_duplicates()) by {
            assert forall|x: int, y: int| 0 <= x < nv.len() && 0 <= y < nv.len() && x != y implies nv[x]
                != nv[y] by {
                if x == pv.len() {
                    assert(nv[y] == pv[y]);
                } else if y == pv.len() {
                    assert(nv[x] == pv[x]);
                } else {
                    assert(nv[x] == pv[x] && nv[y] == pv[y]);
                }
            }
        }
        lemma_path_fits(db, nv);
    }
    match typedef {
        Typedef::Struct { alias: a, elements, .. } => {
            let ghost ev = typedef@->Struct_elements;
            let mut children: Vec<Node> = Vec::new();
            let mut i: usize = 0;
            assert(nodes_view(children@) =~= seq![]);
            while i < elements.len()
                invariant
                    i <= elements.len(),
                    db == database_view(typedefs@),
                    nv == strings_view(next@),
                    next@.len() == path@.len() + 1,
                    next@.len() <= typedefs@.len(),
                    nv.no_duplicates(),
                    forall|j: int| 0 <= j < nv.len() ==> #[trigger] alias_count(db, nv[j]) == 1,
                    ev == crate::types::declarations_view(elements@),
                    ev.len() == elements@.len(),
                    pv == strings_view(path@),
                    resolve(db, alias@, name@, pv) == match resolve_members(db, ev, nv, ev.len()) {
                        Ok(cs) => Ok(NodeView { name: name@, data_type: a@, children: cs }),
                        Err(e) => Err(e),
                    },
                    resolve_members(db, ev, nv, i as nat) == Ok::<Seq<NodeView>, ErrorView>(
                        nodes_view(children@),
                    ),
                decreases elements.len() - i,
            {
                proof {
                    assert(ev[i as int] == elements@[i as int]@);
                }
                let child = match &elements[i] {
                    Declaration::Normal { name: member, data_type } => {
                        match resolve_on_path(typedefs, data_type.as_str(), member.as_str(), &next) {
                            Ok(c) => c,
                            Err(e) => {
                                proof { lemma_members_fail(db, ev, nv, (i + 1) as nat, ev.len()); }
                                return Err(e);
                            },
                        }
                    },
                    Declaration::Pointer { name: member, .. } => {
                        proof { lemma_members_fail(db, ev, nv, (i + 1) as nat, ev.len()); }
                        return Err(
                            TypedefError::UnsupportedDeclaration { name: member.clone() },
                        );
                    },
                    Declaration::Array { name: member, .. } => {
                        proof { lemma_members_fail(db, ev, nv, (i + 1) as nat, ev.len()); }
                        return Err(
                            TypedefError::UnsupportedDeclaration { name: member.clone() },
                        );
                    },
                };
                let ghost prev = children@;
                children.push(child);
                assert(nodes_view(children@) =~= nodes_view(prev).push(child@));
                i = i + 1;
            }
            let node = Node { name: String::from_str(name), data_type: a.clone(), below_nodes: children };
            assert(node@.children =~= nodes_view(node.below_nodes@));
            Ok(node)
        },
        Typedef::Array { data_type, size, .. } => {
            let mut node = match resolve_on_path(typedefs, data_type.as_str(), name, &next) {
                Ok(c) => c,
                Err(e) => {
                    return Err(e);
                },
            };
            proof {
                reveal_strlit("[");
                reveal_strlit("]");
            }
            let ghost before = node@;
            node.data_type.append("[");
            push_decimal(&mut node.data_type, *size);
            node.data_type.append("]");
            assert(node.data_type@ =~= annotate(before.data_type, *size as nat));
            assert(node@.children =~= before.children);
            Ok(node)
        },
        Typedef::Normal { data_type, .. } => resolve_on_path(typedefs, data_type.as_str(), name, &next),
    }
}

/// A path of distinct aliases, each found in the database, is no longer than
/// the database.
pub proof fn lemma_path_fits(db: Seq<TypedefView>, path: Seq<Seq<char>>)
    requires
        path.no_duplicates(),
        forall|j: int| 0 <= j < path.len() ==> #[trigger] alias_count(db, path[j]) > 0,
    ensures
        path.len() <= db.len(),
{
    let idx = path.map_values(|x: Seq<char>| first_index(db, x)->0);
    assert forall|j: int| 0 <= j < path.len() implies 0 <= #[trigger] idx[j] < db.len() && db[idx[j]].alias()
        == path[j] by {
        assert(alias_count(db, path[j]) > 0);
        lemma_first_index(db, path[j]);
    }
    assert(idx.no_duplicates()) by {
        assert forall|x: int, y: int| 0 <= x < idx.len() && 0 <= y < idx.len() && x != y implies idx[x]
            != idx[y] by {
            assert(db[idx[x]].alias() == path[x]);
            assert(db[idx[y]].alias() == path[y]);
        }
    }
    idx.unique_seq_to_set();
    lemma_int_range(0, db.len() as int);
    assert(idx.to_set().subset_of(set_int_range(0, db.len() as int)));
    lemma_len_subset(idx.to_set(), set_int_range(0, db.len() as int));
}

/// Resolves `typedef_alias` into a field tree whose root field is named
/// `element_name`.
pub fn parse(typedefs: &Vec<Typedef>, typedef_alias: &str, element_name: &str) -> (r: Result<
    Node,
    TypedefError,
>)
    ensures
        node_result_view(r) == resolve(
            database_view(typedefs@),
            typedef_alias@,
            element_name@,
            seq![],
        ),
{
    let path: Vec<String> = Vec::new();
    assert(strings_view(path@) =~= seq![]);
    resolve_on_path(typedefs, typedef_alias, element_name, &path)
}

} // verus!
