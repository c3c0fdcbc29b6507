use vstd::prelude::*;
use vstd::string::StringExecFns;

verus! {

/// The character of a decimal digit.
pub open spec fn digit_char(d: nat) -> char {
    if d == 0 { '0' } else if d == 1 { '1' } else if d == 2 { '2' } else if d == 3 { '3' }
    else if d == 4 { '4' } else if d == 5 { '5' } else if d == 6 { '6' } else if d == 7 { '7' }
    else if d == 8 { '8' } else { '9' }
}

/// The value of a decimal digit character, if it is one.
pub open spec fn digit_value(c: char) -> Option<nat> {
    if '0' <= c && c <= '9' { Some((c as nat - '0' as nat) as nat) } else { None }
}

/// The decimal notation of `n`, without leading zeros.
pub open spec fn decimal(n: nat) -> Seq<char>
    decreases n,
{
    if n < 10 { seq![digit_char(n)] } else { decimal(n / 10).push(digit_char(n % 10)) }
}

/// The value of a non-empty run of decimal digits.
pub open spec fn digits_value(s: Seq<char>) -> Option<nat>
    decreases s.len(),
{
    if s.len() == 0 {
        None
    } else if s.len() == 1 {
        digit_value(s[0])
    } else {
        match (digits_value(s.drop_last()), digit_value(s.last())) {
            (Some(v), Some(d)) => Some(v * 10 + d),
            _ => None,
        }
    }
}

/// `k` tab characters.
pub open spec fn tabs(k: nat) -> Seq<char>
    decreases k,
{
    if k == 0 { seq![] } else { tabs((k - 1) as nat).push('\t') }
}

/// Whether two strings hold the same characters.
pub fn str_eq(a: &str, b: &str) -> (r: bool)
    ensures
        r == (a@ == b@),
{
    let x = String::from_str(a);
    let y = String::from_str(b);
    x == y
}

fn digit_str(d: usize) -> (r: &'static str)
    requires
        d < 10,
    ensures
        r@ == seq![digit_char(d as nat)],
{
    proof {
        reveal_strlit("0"); reveal_strlit("1"); reveal_strlit("2"); reveal_strlit("3");
        reveal_strlit("4"); reveal_strlit("5"); reveal_strlit("6"); reveal_strlit("7");
        reveal_strlit("8"); reveal_strlit("9");
    }
    if d == 0 { "0" } else if d == 1 { "1" } else if d == 2 { "2" } else if d == 3 { "3" }
    else if d == 4 { "4" } else if d == 5 { "5" } else if d == 6 { "6" } else if d == 7 { "7" }
    else if d == 8 { "8" } else { "9" }
}

/// Appends the decimal notation of `n` to `s`.
pub fn push_decimal(s: &mut String, n: usize)
    ensures
        final(s)@ == old(s)@ + decimal(n as nat),
    decreases n,
{
    if n < 10 {
        s.append(digit_str(n));
        assert(decimal(n as nat) == seq![digit_char(n as nat)]);
    } else {
        push_decimal(s, n / 10);
        s.append(digit_str(n % 10));
        assert(old(s)@ + decimal(n as nat) =~= old(s)@ + decimal((n / 10) as nat) + seq![digit_char((n % 10) as nat)]);
    }
}

/// Appends `k` tab characters to `s`.
pub fn push_tabs(s: &mut String, k: usize)
    ensures
        final(s)@ == old(s)@ + tabs(k as nat),
{
    proof { reveal_strlit("\t"); }
    assert("\t"@ == seq!['\t']);
    let mut i: usize = 0;
    while i < k
        invariant
            i <= k,
            s@ == old(s)@ + tabs(i as nat),
            "\t"@ == seq!['\t'],
        decreases k - i,
    {
        let ghost before = s@;
        s.append("\t");
        i = i + 1;
        assert(s@ =~= old(s)@ + tabs(i as nat)) by {
            assert(tabs(i as nat) == tabs((i - 1) as nat).push('\t'));
            assert(before + "\t"@ =~= (old(s)@ + tabs((i - 1) as nat)).push('\t'));
        }
    }
}

/// Reads a run of decimal digits as a number; `None` where `s` is empty, holds
/// another character, or names a value beyond `usize`.
pub fn parse_digits(s: &str) -> (r: Option<usize>)
    ensures
        r matches Some(v) ==> digits_value(s@) == Some(v as nat),
        r is None ==> (digits_value(s@) matches Some(v) ==> v > usize::MAX),
{
    let n = s.unicode_len();
    if n == 0 {
        return None;
    }
    let mut acc: usize = 0;
    let mut i: usize = 0;
    while i < n
        invariant
            n == s@.len(),
            i <= n,
            n > 0,
            i == 0 ==> acc == 0,
            i > 0 ==> digits_value(s@.subrange(0, i as int)) == Some(acc as nat),
        decreases n - i,
    {
        let c = s.get_char(i);
        if c < '0' || c > '9' {
            proof { lemma_digits_none(s@, (i + 1) as nat); }
            return None;
        }
        let d = (c as u32 - '0' as u32) as usize;
        assert(s@.subrange(0, i + 1).drop_last() =~= s@.subrange(0, i as int));
        if acc > (usize::MAX - d) / 10 {
            proof { lemma_digits_large(s@, (i + 1) as nat, d as nat); }
            return None;
        }
        acc = acc * 10 + d;
        i = i + 1;
    }
    assert(s@.subrange(0, n as int) =~= s@);
    Some(acc)
}

proof fn lemma_digits_none(s: Seq<char>, k: nat)
    requires
        0 < k <= s.len(),
        digit_value(s[k - 1]) is None,
    ensures
        digits_value(s) is None,
    decreases s.len(),
{
    if s.len() > k {
        lemma_digits_none(s.drop_last(), k);
    } else if s.len() > 1 {
        assert(s.last() == s[k - 1]);
    }
}

proof fn lemma_digits_grow(s: Seq<char>, k: nat, v: nat)
    requires
        0 < k <= s.len(),
        digits_value(s.subrange(0, k as int)) == Some(v),
    ensures
        digits_value(s) matches Some(w) ==> w >= v,
    decreases s.len(),
{
    if s.len() > k {
        assert(s.drop_last().subrange(0, k as int) =~= s.subrange(0, k as int));
        lemma_digits_grow(s.drop_last(), k, v);
    } else {
        assert(s.subrange(0, k as int) =~= s);
    }
}

proof fn lemma_digits_large(s: Seq<char>, k: nat, d: nat)
    requires
        1 < k <= s.len() || k == 1 <= s.len(),
        digit_value(s[k - 1]) == Some(d),
        k > 1 ==> (digits_value(s.subrange(0, k - 1)) matches Some(a) && a * 10 + d > usize::MAX),
        k == 1 ==> d > usize::MAX,
    ensures
        digits_value(s) matches Some(v) ==> v > usize::MAX,
{
    let t = s.subrange(0, k as int);
    if k > 1 {
        assert(t.drop_last() =~= s.subrange(0, k - 1));
        assert(t.last() == s[k - 1]);
    }
    lemma_digits_grow(s, k, digits_value(t)->0);
}

} // verus!
