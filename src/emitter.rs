use vstd::prelude::*;
use vstd::string::StringExecFns;
use crate::parser::{mismatch, whole};
use crate::pattern::{captures_all, captures_view, get_group, groups_view, regex_captures};
use crate::lookup::{is_primitive, is_primivite_type};
use crate::resolver::{strings_view, Node, NodeView};
use crate::types::{ErrorView, TypedefError};

verus! {

broadcast use vstd::seq::axiom_seq_index_decreases;

/// A bracketed array dimension, such as `[4]`, inside a type name.
pub const ANNOTATION_PATTERN: &'static str = r#"(\[[\s\t\n]*\d+[\s\t\n]*\])"#;

/// The texts of the first `k` matches, joined.
pub open spec fn joined_matches(ms: Seq<Seq<Option<Seq<char>>>>, k: nat) -> Seq<char>
    decreases k,
{
    if k == 0 || k > ms.len() {
        seq![]
    } else {
        joined_matches(ms, (k - 1) as nat) + whole(ms[k - 1])
    }
}

/// The bracketed dimensions that a type name carries, in order.
pub open spec fn annotation_of(data_type: Seq<char>) -> Option<Seq<char>> {
    match regex_captures(ANNOTATION_PATTERN@, data_type) {
        Some(ms) => Some(joined_matches(ms, ms.len())),
        None => None,
    }
}

/// The length of a type name up to its first bracket.
pub open spec fn base_len(t: Seq<char>) -> nat
    decreases t.len(),
{
    if t.len() == 0 || t[0] == '[' {
        0
    } else {
        1 + base_len(t.drop_first())
    }
}

/// Whether a type name, up to its first bracket, is primitive: the type of a
/// field that takes a zero.
pub open spec fn has_primitive_base(t: Seq<char>) -> bool {
    is_primitive(t.take(base_len(t) as int))
}

/// Whether `t`, up to its first bracket, is a primitive type name.
pub fn base_is_primitive(t: &str) -> (r: bool)
    ensures
        r == has_primitive_base(t@),
{
    let n = t.unicode_len();
    let mut i: usize = 0;
    assert(t@.skip(0) =~= t@);
    while i < n && t.get_char(i) != '['
        invariant
            n == t@.len(),
            i <= n,
            base_len(t@) == i + base_len(t@.skip(i as int)),
        decreases n - i,
    {
        assert(t@.skip(i as int).drop_first() =~= t@.skip(i + 1));
        i = i + 1;
    }
    assert(base_len(t@.skip(i as int)) == 0);
    assert(t@.subrange(0, i as int) =~= t@.take(i as int));
    is_primivite_type(t.substring_char(0, i))
}

/// The zero-initialization statements of the leaves under `v`, whose access
/// path so far is `prefix`, in depth-first order. A node without children of
/// a type that is not primitive (a struct without members) has no field to
/// set and gives none.
pub open spec fn emit(v: NodeView, prefix: Seq<char>) -> Result<Seq<Seq<char>>, ErrorView>
    decreases v, v.children.len() + 1,
{
    match annotation_of(v.data_type) {
        None => mismatch(ANNOTATION_PATTERN@, v.data_type),
        Some(a) => if v.children.len() == 0 {
            if has_primitive_base(v.data_type) {
                Ok(seq![prefix + v.name + a + " = 0;"@])
            } else {
                Ok(seq![])
            }
        } else {
            emit_children(v, prefix + v.name + a + "."@, v.children.len())
        },
    }
}

/// The statements of the first `k` children of `v`, stopping at the first failure.
pub open spec fn emit_children(v: NodeView, prefix: Seq<char>, k: nat) -> Result<
    Seq<Seq<char>>,
    ErrorView,
>
    decreases v, k,
{
    if k == 0 || k > v.children.len() {
        Ok(seq![])
    } else {
        match emit_children(v, prefix, (k - 1) as nat) {
            Err(e) => Err(e),
            Ok(a) => match emit(v.children[k - 1], prefix) {
                Ok(b) => Ok(a + b),
                Err(e) => Err(e),
            },
        }
    }
}

/// The view of a statement-list outcome.
pub open spec fn statements_result_view(r: Result<Vec<String>, TypedefError>) -> Result<
    Seq<Seq<char>>,
    ErrorView,
> {
    match r {
        Ok(v) => Ok(strings_view(v@)),
        Err(e) => Err(e@),
    }
}

proof fn lemma_children_fail(v: NodeView, prefix: Seq<char>, k: nat, m: nat)
    requires
        0 < k <= m <= v.children.len(),
        emit_children(v, prefix, k) is Err,
    ensures
        emit_children(v, prefix, m) == emit_children(v, prefix, k),
    decreases m - k,
{
    if m > k {
        lemma_children_fail(v, prefix, k, (m - 1) as nat);
    }
}

/// The texts of all the given matches, joined in order: the bracketed
/// dimensions of a type name, from the matches of the annotation pattern.
pub fn annotation_from_matches(ms: &Vec<Vec<Option<String>>>) -> (r: String)
    ensures
        r@ == joined_matches(captures_view(Some(*ms))->0, ms@.len() as nat),
{
    let ghost mv = captures_view(Some(*ms))->0;
    let mut out = String::new();
    let mut i: usize = 0;
    while i < ms.len()
        invariant
            i <= ms.len(),
            mv == captures_view(Some(*ms))->0,
            mv.len() == ms@.len(),
            out@ == joined_matches(mv, i as nat),
        decreases ms.len() - i,
    {
        assert(mv[i as int] == groups_view(ms@[i as int]));
        match get_group(&ms[i], 0) {
            Some(t) => out.append(t.as_str()),
            None => {},
        }
        i = i + 1;
        assert(out@ =~= joined_matches(mv, (i - 1) as nat) + crate::parser::whole(mv[i - 1]));
    }
    out
}

/// Builds one zero-assignment statement for every leaf of the tree under
/// `node`, each access path starting with `init_expr`.
pub fn print_init_expr(node: &Node, init_expr: &str) -> (r: Result<Vec<String>, TypedefError>)
    ensures
        statements_result_view(r) == emit(node@, init_expr@),
    decreases node,
{
    let caps = match captures_all(ANNOTATION_PATTERN, node.data_type.as_str()) {
        Some(c) => c,
        None => {
            return Err(
                TypedefError::PatternMismatch {
                    pattern: String::from_str(ANNOTATION_PATTERN),
                    text: node.data_type.clone(),
                },
            );
        },
    };
    let mut path = String::from_str(init_expr);
    path.append(node.name.as_str());
    let annotation = annotation_from_matches(&caps);
    path.append(annotation.as_str());
    if node.below_nodes.len() == 0 {
        if !base_is_primitive(node.data_type.as_str()) {
            let none: Vec<String> = Vec::new();
            assert(strings_view(none@) =~= seq![]);
            return Ok(none);
        }
        path.append(" = 0;");
        let out = vec![path];
        assert(strings_view(out@) =~= seq![out@[0]@]);
        return Ok(out);
    }
    path.append(".");
    let ghost nv = node@;
    let mut out: Vec<String> = Vec::new();
    let mut j: usize = 0;
    assert(strings_view(out@) =~= seq![]);
    while j < node.below_nodes.len()
        invariant
            j <= node.below_nodes.len(),
            nv == node@,
            nv.children.len() == node.below_nodes.len(),
            emit(nv, init_expr@) == emit_children(nv, path@, nv.children.len()),
            emit_children(nv, path@, j as nat) == Ok::<Seq<Seq<char>>, ErrorView>(
                strings_view(out@),
            ),
        decreases node.below_nodes.len() - j,
    {
        assert(nv.children[j as int] == node.below_nodes[j as int]@);
        let mut part = match print_init_expr(&node.below_nodes[j], path.as_str()) {
            Ok(p) => p,
            Err(e) => {
                proof { lemma_children_fail(nv, path@, (j + 1) as nat, nv.children.len()); }
                return Err(e);
            },
        };
        let ghost prev = out@;
        let ghost added = part@;
        out.append(&mut part);
        assert(strings_view(out@) =~= strings_view(prev) + strings_view(added));
        j = j + 1;
    }
    Ok(out)
}

} // verus!
