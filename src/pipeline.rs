use vstd::prelude::*;
use crate::emitter::{emit, print_init_expr, statements_result_view};
use crate::loop_nest::{array_post_proc, post_process};
use crate::parser::{extract_fragments, extract_typedef, lexicalize, lexicalize_typedef, fragments_view};
use crate::resolver::{parse, resolve, strings_view};
use crate::types::{database_view, ErrorView, RawTypedefView, Typedef, TypedefError, TypedefView};

verus! {

/// The typedefs of the first `k` fragments, stopping at the first failure.
pub open spec fn lexicalize_all(raws: Seq<RawTypedefView>, k: nat) -> Result<Seq<TypedefView>, ErrorView>
    decreases k,
{
    if k == 0 || k > raws.len() {
        Ok(seq![])
    } else {
        match lexicalize_all(raws, (k - 1) as nat) {
            Err(e) => Err(e),
            Ok(ts) => match lexicalize(raws[k - 1]) {
                Ok(t) => Ok(ts.push(t)),
                Err(e) => Err(e),
            },
        }
    }
}

/// The first `k` statements after loop-nest synthesis, stopping at the first failure.
pub open spec fn post_process_all(ss: Seq<Seq<char>>, k: nat) -> Result<Seq<Seq<char>>, ErrorView>
    decreases k,
{
    if k == 0 || k > ss.len() {
        Ok(seq![])
    } else {
        match post_process_all(ss, (k - 1) as nat) {
            Err(e) => Err(e),
            Ok(done) => match post_process(ss[k - 1]) {
                Ok(s) => Ok(done.push(s)),
                Err(e) => Err(e),
            },
        }
    }
}

/// The whole pipeline: the typedef database of `header`, the tree of `alias`
/// rooted at the field `root`, and one statement block per leaf.
pub open spec fn generate(header: Seq<char>, alias: Seq<char>, root: Seq<char>) -> Result<
    Seq<Seq<char>>,
    ErrorView,
> {
    match extract_fragments(header) {
        Err(e) => Err(e),
        Ok(raws) => match lexicalize_all(raws, raws.len()) {
            Err(e) => Err(e),
            Ok(db) => match resolve(db, alias, root, seq![]) {
                Err(e) => Err(e),
                Ok(tree) => match emit(tree, seq![]) {
                    Err(e) => Err(e),
                    Ok(ss) => post_process_all(ss, ss.len()),
                },
            },
        },
    }
}

proof fn lemma_lexicalize_fail(raws: Seq<RawTypedefView>, k: nat, m: nat)
    requires
        0 < k <= m <= raws.len(),
        lexicalize_all(raws, k) is Err,
    ensures
        lexicalize_all(raws, m) == lexicalize_all(raws, k),
    decreases m - k,
{
    if m > k {
        lemma_lexicalize_fail(raws, k, (m - 1) as nat);
    }
}

proof fn lemma_post_process_fail(ss: Seq<Seq<char>>, k: nat, m: nat)
    requires
        0 < k <= m <= ss.len(),
        post_process_all(ss, k) is Err,
    ensures
        post_process_all(ss, m) == post_process_all(ss, k),
    decreases m - k,
{
    if m > k {
        lemma_post_process_fail(ss, k, (m - 1) as nat);
    }
}

/// Reads the typedefs of `header`, resolves `alias` into a field tree rooted at
/// `root`, and returns the zero-initialization block of every leaf field.
pub fn generate_init_code(header: &str, alias: &str, root: &str) -> (r: Result<
    Vec<String>,
    TypedefError,
>)
    ensures
        statements_result_view(r) == generate(header@, alias@, root@),
{
    let mut raws = match extract_typedef(header) {
        Ok(v) => v,
        Err(e) => {
            return Err(e);
        },
    };
    let ghost rv = fragments_view(raws@);
    let n = raws.len();
    let mut database: Vec<Typedef> = Vec::new();
    let mut i: usize = 0;
    assert(database_view(database@) =~= seq![]);
    while i < n
        invariant
            n == rv.len(),
            extract_fragments(header@) == Ok::<Seq<RawTypedefView>, ErrorView>(rv),
            i <= n,
            raws@.len() == n - i,
            fragments_view(raws@) =~= rv.skip(i as int),
            lexicalize_all(rv, i as nat) == Ok::<Seq<TypedefView>, ErrorView>(
                database_view(database@),
            ),
        decreases n - i,
    {
        let ghost before = raws@;
        let raw = raws.remove(0);
        assert(raw@ == rv[i as int]) by {
            assert(fragments_view(before)[0] == before[0]@);
            assert(rv.skip(i as int)[0] == rv[i as int]);
        }
        let t = match lexicalize_typedef(raw) {
            Ok(t) => t,
            Err(e) => {
                proof { lemma_lexicalize_fail(rv, (i + 1) as nat, n as nat); }
                return Err(e);
            },
        };
        let ghost prev = database@;
        database.push(t);
        assert(database_view(database@) =~= database_view(prev).push(t@));
        assert(fragments_view(raws@) =~= rv.skip(i + 1)) by {
            assert(raws@ =~= before.subrange(1, before.len() as int));
            assert(fragments_view(raws@) =~= fragments_view(before).skip(1));
            assert(rv.skip(i as int).skip(1) =~= rv.skip(i + 1));
        }
        i = i + 1;
    }
    let tree = match parse(&database, alias, root) {
        Ok(t) => t,
        Err(e) => {
            return Err(e);
        },
    };
    proof { reveal_strlit(""); }
    assert(""@ =~= Seq::<char>::empty());
    let statements = match print_init_expr(&tree, "") {
        Ok(s) => s,
        Err(e) => {
            return Err(e);
        },
    };
    let ghost sv = strings_view(statements@);
    let mut out: Vec<String> = Vec::new();
    let mut j: usize = 0;
    assert(strings_view(out@) =~= seq![]);
    while j < statements.len()
        invariant
            j <= statements.len(),
            sv == strings_view(statements@),
            generate(header@, alias@, root@) == post_process_all(sv, sv.len()),
            post_process_all(sv, j as nat) == Ok::<Seq<Seq<char>>, ErrorView>(strings_view(out@)),
        decreases statements.len() - j,
    {
        let mut block = statements[j].clone();
        assert(block@ == sv[j as int]);
        match array_post_proc(&mut block) {
            Ok(()) => {},
            Err(e) => {
                proof { lemma_post_process_fail(sv, (j + 1) as nat, sv.len()); }
                return Err(e);
            },
        }
        let ghost prev = out@;
        out.push(block);
        assert(strings_view(out@) =~= strings_view(prev).push(block@));
        j = j + 1;
    }
    Ok(out)
}

} // verus!
