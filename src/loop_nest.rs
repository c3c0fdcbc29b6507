use vstd::prelude::*;
use vstd::string::StringExecFns;
use crate::parser::mismatch;
use crate::pattern::{
    captures_all, captures_view, get_group, group, groups_view, pieces_view, regex_captures,
    regex_split, split_all,
};
use crate::text::{decimal, digits_value, parse_digits, push_decimal, push_tabs, tabs};
use crate::types::{ErrorView, TypedefError};

verus! {

/// A bracketed array index with a literal size, such as `[4]`.
pub const INDEX_PATTERN: &'static str = r#"\[[\s\t\n]*(\d+)[\s\t\n]*\]"#;

/// The name of the loop variable for nesting depth `i`: `myi`, `myj`, ...
/// `myr` for the first ten, then `my` followed by the depth.
pub open spec fn index_name(i: nat) -> Seq<char> {
    if i == 0 { "myi"@ } else if i == 1 { "myj"@ } else if i == 2 { "myk"@ }
    else if i == 3 { "myl"@ } else if i == 4 { "mym"@ } else if i == 5 { "myn"@ }
    else if i == 6 { "myo"@ } else if i == 7 { "myp"@ } else if i == 8 { "myq"@ }
    else if i == 9 { "myr"@ } else { "my"@ + decimal(i) }
}

/// The header of the loop at depth `i` over `size` elements.
pub open spec fn loop_header(i: nat, size: nat) -> Seq<char> {
    tabs(i) + "for (int "@ + index_name(i) + " = 0; "@ + index_name(i) + " < "@ + decimal(size)
        + "; "@ + index_name(i) + "++) {\n"@
}

/// The headers of the first `k` loops.
pub open spec fn loop_headers(sizes: Seq<nat>, k: nat) -> Seq<char>
    decreases k,
{
    if k == 0 || k > sizes.len() {
        seq![]
    } else {
        loop_headers(sizes, (k - 1) as nat) + loop_header((k - 1) as nat, sizes[k - 1])
    }
}

/// The statement rebuilt from its pieces, with the first `k` indices replaced
/// by loop variables.
pub open spec fn rewritten(pieces: Seq<Seq<char>>, k: nat) -> Seq<char>
    decreases k,
{
    if k == 0 || k >= pieces.len() {
        if pieces.len() > 0 { pieces[0] } else { seq![] }
    } else {
        rewritten(pieces, (k - 1) as nat) + "["@ + index_name((k - 1) as nat) + "]"@ + pieces[k as int]
    }
}

/// The first `j` closing lines of a nest of depth `n`, innermost first.
pub open spec fn loop_closers(n: nat, j: nat) -> Seq<char>
    decreases j,
{
    if j == 0 || j > n {
        seq![]
    } else {
        loop_closers(n, (j - 1) as nat) + tabs((n - j) as nat) + "}\n"@
    }
}

/// A statement wrapped in one loop per index: the statement itself where it
/// has no index.
pub open spec fn nest(statement: Seq<char>, pieces: Seq<Seq<char>>, sizes: Seq<nat>) -> Seq<char> {
    let n = sizes.len();
    if n == 0 {
        statement
    } else {
        loop_headers(sizes, n) + tabs(n) + rewritten(pieces, n) + "\n"@ + loop_closers(n, n)
    }
}

/// Wraps `statement` in one loop per index: `pieces` are the texts around its
/// indices and `sizes` their values, in order.
pub fn synthesize_loops(statement: &str, pieces: &Vec<String>, sizes: &Vec<usize>) -> (r: String)
    requires
        pieces.len() == sizes.len() + 1,
    ensures
        r@ == nest(statement@, pieces@.map_values(|p: String| p@), sizes@.map_values(|s: usize| s as nat)),
{
    let ghost pv = pieces@.map_values(|p: String| p@);
    let ghost sv = sizes@.map_values(|s: usize| s as nat);
    let n = sizes.len();
    if n == 0 {
        return String::from_str(statement);
    }
    let mut out = String::new();
    let mut i: usize = 0;
    while i < n
        invariant
            n == sizes.len(),
            i <= n,
            sv == sizes@.map_values(|s: usize| s as nat),
            out@ == loop_headers(sv, i as nat),
        decreases n - i,
    {
        let ghost before = out@;
        push_tabs(&mut out, i);
        out.append("for (int ");
        push_index_name(&mut out, i);
        out.append(" = 0; ");
        push_index_name(&mut out, i);
        out.append(" < ");
        push_decimal(&mut out, sizes[i]);
        out.append("; ");
        push_index_name(&mut out, i);
        out.append("++) {\n");
        i = i + 1;
        assert(out@ =~= before + loop_header((i - 1) as nat, sv[i - 1]));
    }
    push_tabs(&mut out, n);
    let ghost mid = out@;
    out.append(pieces[0].as_str());
    let mut k: usize = 0;
    while k < n
        invariant
            n == sizes.len(),
            pieces.len() == n + 1,
            k <= n,
            pv == pieces@.map_values(|p: String| p@),
            out@ == mid + rewritten(pv, k as nat),
        decreases n - k,
    {
        let ghost before = out@;
        out.append("[");
        push_index_name(&mut out, k);
        out.append("]");
        out.append(pieces[k + 1].as_str());
        k = k + 1;
        assert(out@ =~= before + "["@ + index_name((k - 1) as nat) + "]"@ + pv[k as int]);
    }
    out.append("\n");
    let ghost mid2 = out@;
    let mut j: usize = 0;
    while j < n
        invariant
            j <= n,
            out@ == mid2 + loop_closers(n as nat, j as nat),
        decreases n - j,
    {
        let ghost before = out@;
        push_tabs(&mut out, n - 1 - j);
        out.append("}\n");
        j = j + 1;
        assert(out@ =~= before + tabs((n - j) as nat) + "}\n"@);
    }
    assert(out@ =~= nest(statement@, pv, sv));
    out
}

fn push_index_name(s: &mut String, i: usize)
    ensures
        final(s)@ == old(s)@ + index_name(i as nat),
{
    if i == 0 { s.append("myi") } else if i == 1 { s.append("myj") } else if i == 2 { s.append("myk") }
    else if i == 3 { s.append("myl") } else if i == 4 { s.append("mym") } else if i == 5 { s.append("myn") }
    else if i == 6 { s.append("myo") } else if i == 7 { s.append("myp") } else if i == 8 { s.append("myq") }
    else if i == 9 { s.append("myr") } else {
        s.append("my");
        push_decimal(s, i);
        assert(final(s)@ =~= old(s)@ + index_name(i as nat));
    }
}

/// The sizes of the first `k` matches, where each is a number within `usize`.
pub open spec fn sizes_of(ms: Seq<Seq<Option<Seq<char>>>>, k: nat) -> Option<Seq<nat>>
    decreases k,
{
    if k == 0 || k > ms.len() {
        Some(seq![])
    } else {
        match (sizes_of(ms, (k - 1) as nat), group(ms[k - 1], 1)) {
            (Some(s), Some(d)) => match digits_value(d) {
                Some(v) => if v <= usize::MAX { Some(s.push(v)) } else { None },
                None => None,
            },
            _ => None,
        }
    }
}

/// A statement after loop-nest synthesis.
pub open spec fn post_process(statement: Seq<char>) -> Result<Seq<char>, ErrorView> {
    match (regex_captures(INDEX_PATTERN@, statement), regex_split(INDEX_PATTERN@, statement)) {
        (Some(ms), Some(ps)) => match sizes_of(ms, ms.len()) {
            Some(sizes) => if ps.len() == sizes.len() + 1 {
                Ok(nest(statement, ps, sizes))
            } else {
                mismatch(INDEX_PATTERN@, statement)
            },
            None => mismatch(INDEX_PATTERN@, statement),
        },
        _ => mismatch(INDEX_PATTERN@, statement),
    }
}

/// The sizes of `k` matches number `k`.
pub proof fn lemma_sizes_len(ms: Seq<Seq<Option<Seq<char>>>>, k: nat)
    requires
        k <= ms.len(),
    ensures
        sizes_of(ms, k) matches Some(s) ==> s.len() == k,
    decreases k,
{
    if k > 0 {
        lemma_sizes_len(ms, (k - 1) as nat);
    }
}

proof fn lemma_sizes_fail(ms: Seq<Seq<Option<Seq<char>>>>, k: nat, m: nat)
    requires
        0 < k <= m <= ms.len(),
        sizes_of(ms, k) is None,
    ensures
        sizes_of(ms, m) is None,
    decreases m - k,
{
    if m > k {
        lemma_sizes_fail(ms, k, (m - 1) as nat);
    }
}

/// Rewrites a statement in place into a loop nest with one loop per literal
/// array index; a statement without one is left as it is.
pub fn array_post_proc(init_expr: &mut String) -> (r: Result<(), TypedefError>)
    ensures
        match post_process(old(init_expr)@) {
            Ok(s) => r is Ok && final(init_expr)@ == s,
            Err(e) => r matches Err(x) && x@ == e && final(init_expr)@ == old(init_expr)@,
        },
        (regex_captures(INDEX_PATTERN@, old(init_expr)@) matches Some(ms) && sizes_of(ms, ms.len())
            is Some) ==> r is Ok,
{
    let fail = TypedefError::PatternMismatch {
        pattern: String::from_str(INDEX_PATTERN),
        text: init_expr.clone(),
    };
    let caps = match captures_all(INDEX_PATTERN, init_expr.as_str()) {
        Some(c) => c,
        None => {
            return Err(fail);
        },
    };
    let ghost mv = captures_view(Some(caps))->0;
    let mut sizes: Vec<usize> = Vec::new();
    let mut i: usize = 0;
    while i < caps.len()
        invariant
            i <= caps.len(),
            mv == captures_view(Some(caps))->0,
            mv.len() == caps@.len(),
            sizes_of(mv, i as nat) == Some(sizes@.map_values(|s: usize| s as nat)),
            regex_captures(INDEX_PATTERN@, init_expr@) == Some(mv),
            init_expr@ == old(init_expr)@,
            fail@ == (ErrorView::PatternMismatch { pattern: INDEX_PATTERN@, text: init_expr@ }),
        decreases caps.len() - i,
    {
        assert(mv[i as int] == groups_view(caps@[i as int]));
        let size = match get_group(&caps[i], 1) {
            Some(d) => parse_digits(d.as_str()),
            None => None,
        };
        match size {
            Some(v) => {
                let ghost prev = sizes@;
                sizes.push(v);
                assert(sizes@.map_values(|s: usize| s as nat) =~= prev.map_values(
                    |s: usize| s as nat,
                ).push(v as nat));
            },
            None => {
                proof { lemma_sizes_fail(mv, (i + 1) as nat, mv.len()); }
                return Err(fail);
            },
        }
        i = i + 1;
    }
    let pieces = match split_all(INDEX_PATTERN, init_expr.as_str()) {
        Some(p) => p,
        None => {
            return Err(fail);
        },
    };
    proof {
        lemma_sizes_len(mv, mv.len());
    }
    if pieces.len() == 0 || pieces.len() - 1 != sizes.len() {
        return Err(fail);
    }
    let result = synthesize_loops(init_expr.as_str(), &pieces, &sizes);
    *init_expr = result;
    Ok(())
}

} // verus!
