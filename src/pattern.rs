use vstd::prelude::*;

verus! {

/// What `regex` reports for `pattern` over `text`: `None` where the pattern does
/// not compile, else for each successive non-overlapping match the list of its
/// capture groups (group 0 is the whole match; an unmatched group is `None`).
pub uninterp spec fn regex_captures(pattern: Seq<char>, text: Seq<char>) -> Option<
    Seq<Seq<Option<Seq<char>>>>,
>;

/// What `regex` reports when it splits `text` at the matches of `pattern`:
/// `None` where the pattern does not compile, else the pieces between matches.
pub uninterp spec fn regex_split(pattern: Seq<char>, text: Seq<char>) -> Option<Seq<Seq<char>>>;

/// The view of one match's capture groups.
pub open spec fn groups_view(m: Vec<Option<String>>) -> Seq<Option<Seq<char>>> {
    m@.map_values(|g: Option<String>| match g {
        Some(s) => Some(s@),
        None => None,
    })
}

/// The view of the captures of every match.
pub open spec fn captures_view(c: Option<Vec<Vec<Option<String>>>>) -> Option<
    Seq<Seq<Option<Seq<char>>>>,
> {
    match c {
        Some(v) => Some(v@.map_values(|m: Vec<Option<String>>| groups_view(m))),
        None => None,
    }
}

/// The view of a list of pieces.
pub open spec fn pieces_view(c: Option<Vec<String>>) -> Option<Seq<Seq<char>>> {
    match c {
        Some(v) => Some(v@.map_values(|s: String| s@)),
        None => None,
    }
}

/// Relies on regex::Regex::new, Regex::captures_iter and Captures::iter: the
/// capture groups of each successive non-overlapping match of `pattern` in
/// `text`. `Captures::iter` yields the whole match first, always present.
#[verifier::external_body]
pub(crate) fn captures_all(pattern: &str, text: &str) -> (r: Option<Vec<Vec<Option<String>>>>)
    ensures
        captures_view(r) == regex_captures(pattern@, text@),
        r matches Some(v) ==> forall|i: int|
            0 <= i < v@.len() ==> #[trigger] v@[i]@.len() > 0 && v@[i]@[0] is Some,
{
    match regex::Regex::new(pattern) {
        Ok(re) => Some(
            re.captures_iter(text).map(
                |c| c.iter().map(|g| g.map(|m| m.as_str().to_string())).collect(),
            ).collect(),
        ),
        Err(_) => None,
    }
}

/// Relies on regex::Regex::new and Regex::split: the pieces of `text` between
/// the matches of `pattern`. Both wrappers compile `pattern` with
/// `Regex::new`, so they fail on the same patterns. `split` walks the same
/// matches as `captures_iter`
/// and yields the text before each match and then the rest, so there is one
/// piece more than there are matches.
#[verifier::external_body]
pub(crate) fn split_all(pattern: &str, text: &str) -> (r: Option<Vec<String>>)
    ensures
        pieces_view(r) == regex_split(pattern@, text@),
        r is None <==> regex_captures(pattern@, text@) is None,
        r matches Some(ps) ==> (regex_captures(pattern@, text@) matches Some(ms) && ps@.len()
            == ms.len() + 1),
{
    match regex::Regex::new(pattern) {
        Ok(re) => Some(re.split(text).map(|p| p.to_string()).collect()),
        Err(_) => None,
    }
}

/// The capture group `g` of one match, if present.
pub open spec fn group(m: Seq<Option<Seq<char>>>, g: int) -> Option<Seq<char>> {
    if 0 <= g < m.len() { m[g] } else { None }
}

/// Reads capture group `g` of one match.
pub(crate) fn get_group(m: &Vec<Option<String>>, g: usize) -> (r: Option<&String>)
    ensures
        match group(groups_view(*m), g as int) {
            Some(s) => r matches Some(x) && x@ == s,
            None => r is None,
        },
{
    if g < m.len() {
        match &m[g] {
            Some(s) => Some(s),
            None => None,
        }
    } else {
        None
    }
}

} // verus!
