use vstd::prelude::*;
use vstd::string::StringExecFns;
use crate::pattern::{
    captures_all, captures_view, get_group, group, groups_view, regex_captures,
};
use crate::text::{digits_value, parse_digits};
use crate::types::{
    declarations_view, Declaration, DeclarationView, ErrorView, RawTypedef, RawTypedefView,
    Typedef, TypedefError, TypedefView,
};

verus! {

/// `typedef struct <name> { <body> } <alias>;`
pub const STRUCT_PATTERN: &'static str = r#"typedef[\s\n\t]+struct[\s\n\t]+(\w+)[\s\n\t]*\{([\s\S]*?)\}[\s\t\n]+(\w+);"#;

/// `typedef <type> <alias> [ <digits> ] ;`
pub const ARRAY_TYPEDEF_PATTERN: &'static str = r#"typedef[\s\t\n]+(\w+)[\s\t\n]+(\w+)[\s\n\t]*\[[\s\n\t]*(\d+)[\s\n\t]*\][\s\n\t]*;"#;

/// `typedef <type> <alias> ;`
pub const NORMAL_TYPEDEF_PATTERN: &'static str = r#"typedef[\s\t\n]+(\w+)[\s\t\n]+(\w+)[\s\n\t]*;"#;

/// `<type> * <name> ;`
pub const POINTER_MEMBER_PATTERN: &'static str = r#"(\w+)[\s\t\n]*\*[\s\t\n]*(\w+);"#;

/// `<type> <name> [ <digits> ] ;`
pub const ARRAY_MEMBER_PATTERN: &'static str = r#"(\w+)[\s\t\n]+(\w+)[\s\t\n]*\[[\s\t\n]*(\d+)[\s\t\n]*\][\s\t\n]*;"#;

/// `<type> <name> ;`
pub const NORMAL_MEMBER_PATTERN: &'static str = r#"(\w+)[\s\t\n]+(\w+);"#;

impl RawTypedefView {
    /// The pattern of the fragment's shape.
    pub open spec fn pattern(self) -> Seq<char> {
        match self {
            RawTypedefView::Struct(_) => STRUCT_PATTERN@,
            RawTypedefView::Array(_) => ARRAY_TYPEDEF_PATTERN@,
            RawTypedefView::Normal(_) => NORMAL_TYPEDEF_PATTERN@,
        }
    }
}

impl RawTypedef {
    /// The pattern of the fragment's shape.
    pub fn get_regex(&self) -> (r: &'static str)
        ensures
            r@ == self@.pattern(),
    {
        match self {
            RawTypedef::Struct(..) => STRUCT_PATTERN,
            RawTypedef::Array(..) => ARRAY_TYPEDEF_PATTERN,
            RawTypedef::Normal(..) => NORMAL_TYPEDEF_PATTERN,
        }
    }
}

/// The three shapes of a member declaration, in the order they are tried.
#[derive(Debug, Clone, Copy, PartialEq, Eq)]
pub enum MemberShape {
    Pointer,
    Array,
    Normal,
}

/// The pattern of a member shape.
pub open spec fn member_pattern(shape: MemberShape) -> Seq<char> {
    match shape {
        MemberShape::Pointer => POINTER_MEMBER_PATTERN@,
        MemberShape::Array => ARRAY_MEMBER_PATTERN@,
        MemberShape::Normal => NORMAL_MEMBER_PATTERN@,
    }
}

impl DeclarationView {
    /// The pattern of the declaration's shape.
    pub open spec fn pattern(self) -> Seq<char> {
        match self {
            DeclarationView::Pointer { .. } => POINTER_MEMBER_PATTERN@,
            DeclarationView::Array { .. } => ARRAY_MEMBER_PATTERN@,
            DeclarationView::Normal { .. } => NORMAL_MEMBER_PATTERN@,
        }
    }
}

fn member_regex(shape: MemberShape) -> (r: &'static str)
    ensures
        r@ == member_pattern(shape),
{
    match shape {
        MemberShape::Pointer => POINTER_MEMBER_PATTERN,
        MemberShape::Array => ARRAY_MEMBER_PATTERN,
        MemberShape::Normal => NORMAL_MEMBER_PATTERN,
    }
}

/// The whole text of a match.
pub open spec fn whole(m: Seq<Option<Seq<char>>>) -> Seq<char> {
    match group(m, 0) {
        Some(s) => s,
        None => seq![],
    }
}

/// The error for a text that its pattern does not fit.
pub open spec fn mismatch<T>(pattern: Seq<char>, text: Seq<char>) -> Result<T, ErrorView> {
    Err(ErrorView::PatternMismatch { pattern, text })
}

/// The declaration that one match of a member pattern describes.
pub open spec fn declaration_of(shape: MemberShape, m: Seq<Option<Seq<char>>>) -> Result<
    DeclarationView,
    ErrorView,
> {
    match (group(m, 1), group(m, 2)) {
        (Some(data_type), Some(name)) => match shape {
            MemberShape::Pointer => Ok(DeclarationView::Pointer { name, data_type }),
            MemberShape::Normal => Ok(DeclarationView::Normal { name, data_type }),
            MemberShape::Array => match group(m, 3) {
                Some(digits) => match digits_value(digits) {
                    Some(size) => if size <= usize::MAX {
                        Ok(DeclarationView::Array { name, data_type, size })
                    } else {
                        mismatch(member_pattern(shape), whole(m))
                    },
                    None => mismatch(member_pattern(shape), whole(m)),
                },
                None => mismatch(member_pattern(shape), whole(m)),
            },
        },
        _ => mismatch(member_pattern(shape), whole(m)),
    }
}

/// The declarations of the first `k` matches, stopping at the first failure.
pub open spec fn declarations_of(
    shape: MemberShape,
    ms: Seq<Seq<Option<Seq<char>>>>,
    k: nat,
) -> Result<Seq<DeclarationView>, ErrorView>
    decreases k,
{
    if k == 0 || k > ms.len() {
        Ok(seq![])
    } else {
        match declarations_of(shape, ms, (k - 1) as nat) {
            Err(e) => Err(e),
            Ok(ds) => match declaration_of(shape, ms[k - 1]) {
                Ok(d) => Ok(ds.push(d)),
                Err(e) => Err(e),
            },
        }
    }
}

/// Every declaration of one member shape in `body`.
pub open spec fn declarations_of_shape(shape: MemberShape, body: Seq<char>) -> Result<
    Seq<DeclarationView>,
    ErrorView,
> {
    match regex_captures(member_pattern(shape), body) {
        Some(ms) => declarations_of(shape, ms, ms.len()),
        None => mismatch(member_pattern(shape), body),
    }
}

/// The member declarations of a struct body: pointer matches, then sized-array
/// matches, then plain matches.
pub open spec fn extract_declarations(body: Seq<char>) -> Result<Seq<DeclarationView>, ErrorView> {
    match declarations_of_shape(MemberShape::Pointer, body) {
        Err(e) => Err(e),
        Ok(p) => match declarations_of_shape(MemberShape::Array, body) {
            Err(e) => Err(e),
            Ok(a) => match declarations_of_shape(MemberShape::Normal, body) {
                Err(e) => Err(e),
                Ok(n) => Ok(p + a + n),
            },
        },
    }
}

/// The view of a declaration-list outcome.
pub open spec fn declarations_result_view(r: Result<Vec<Declaration>, TypedefError>) -> Result<
    Seq<DeclarationView>,
    ErrorView,
> {
    match r {
        Ok(v) => Ok(declarations_view(v@)),
        Err(e) => Err(e@),
    }
}

/// The declaration that one match of a member pattern describes, from the
/// match's capture groups.
pub fn declaration_from_match(shape: MemberShape, m: &Vec<Option<String>>) -> (r: Result<
    Declaration,
    TypedefError,
>)
    ensures
        match declaration_of(shape, groups_view(*m)) {
            Ok(d) => r matches Ok(x) && x@ == d,
            Err(e) => r matches Err(x) && x@ == e,
        },
{
    let ghost gv = groups_view(*m);
    let text = match get_group(m, 0) {
        Some(s) => s.clone(),
        None => String::new(),
    };
    let fail = TypedefError::PatternMismatch {
        pattern: String::from_str(member_regex(shape)),
        text,
    };
    let (data_type, name) = match (get_group(m, 1), get_group(m, 2)) {
        (Some(t), Some(n)) => (t, n),
        _ => {
            return Err(fail);
        },
    };
    match shape {
        MemberShape::Pointer => Ok(
            Declaration::Pointer { name: name.clone(), data_type: data_type.clone() },
        ),
        MemberShape::Normal => Ok(
            Declaration::Normal { name: name.clone(), data_type: data_type.clone() },
        ),
        MemberShape::Array => {
            let digits = match get_group(m, 3) {
                Some(d) => d,
                None => {
                    return Err(fail);
                },
            };
            match parse_digits(digits.as_str()) {
                Some(size) => Ok(
                    Declaration::Array { name: name.clone(), data_type: data_type.clone(), size },
                ),
                None => Err(fail),
            }
        },
    }
}

fn push_declarations(shape: MemberShape, code: &str, out: &mut Vec<Declaration>) -> (r: Result<
    (),
    TypedefError,
>)
    ensures
        match declarations_of_shape(shape, code@) {
            Ok(ds) => r is Ok && declarations_view(final(out)@) == declarations_view(old(out)@)
                + ds,
            Err(e) => r matches Err(x) && x@ == e,
        },
{
    let pattern = member_regex(shape);
    let ms = match captures_all(pattern, code) {
        Some(ms) => ms,
        None => {
            return Err(
                TypedefError::PatternMismatch {
                    pattern: String::from_str(pattern),
                    text: String::from_str(code),
                },
            );
        },
    };
    let ghost mv = captures_view(Some(ms))->0;
    let ghost start = declarations_view(out@);
    let mut i: usize = 0;
    assert(declarations_view(out@).subrange(start.len() as int, out@.len() as int) =~= seq![]);
    assert(declarations_view(out@).subrange(0, start.len() as int) =~= start);
    while i < ms.len()
        invariant
            i <= ms.len(),
            mv == captures_view(Some(ms))->0,
            regex_captures(member_pattern(shape), code@) == Some(mv),
            mv.len() == ms@.len(),
            declarations_of(shape, mv, i as nat) == Ok::<Seq<DeclarationView>, ErrorView>(
                declarations_view(out@).subrange(start.len() as int, out@.len() as int),
            ),
            start == declarations_view(old(out)@),
            out@.len() >= old(out)@.len(),
            declarations_view(out@).subrange(0, start.len() as int) == start,
        decreases ms.len() - i,
    {
        assert(mv[i as int] == groups_view(ms@[i as int]));
        let d = match declaration_from_match(shape, &ms[i]) {
            Ok(d) => d,
            Err(e) => {
                proof { lemma_declarations_fail(shape, mv, (i + 1) as nat, mv.len()); }
                return Err(e);
            },
        };
        let ghost prev = out@;
        out.push(d);
        assert(declarations_view(out@) =~= declarations_view(prev).push(d@));
        i = i + 1;
        assert(declarations_view(out@).subrange(start.len() as int, out@.len() as int)
            =~= declarations_view(prev).subrange(start.len() as int, prev.len() as int).push(d@));
        assert(declarations_view(out@).subrange(0, start.len() as int)
            =~= declarations_view(prev).subrange(0, start.len() as int));
    }
    assert(declarations_view(out@) =~= start + declarations_view(out@).subrange(
        start.len() as int,
        out@.len() as int,
    ));
    Ok(())
}

proof fn lemma_declarations_fail(
    shape: MemberShape,
    ms: Seq<Seq<Option<Seq<char>>>>,
    k: nat,
    m: nat,
)
    requires
        0 < k <= m <= ms.len(),
        declarations_of(shape, ms, k) is Err,
    ensures
        declarations_of(shape, ms, m) == declarations_of(shape, ms, k),
    decreases m - k,
{
    if m > k {
        lemma_declarations_fail(shape, ms, k, (m - 1) as nat);
    }
}

impl Declaration {
    /// The pattern of the declaration's shape.
    pub fn get_regex(&self) -> (r: &'static str)
        ensures
            r@ == self@.pattern(),
    {
        match self {
            Declaration::Pointer { .. } => POINTER_MEMBER_PATTERN,
            Declaration::Array { .. } => ARRAY_MEMBER_PATTERN,
            Declaration::Normal { .. } => NORMAL_MEMBER_PATTERN,
        }
    }

    /// The member declarations of a struct body, by shape: every pointer
    /// member, then every sized-array member, then every plain member.
    ///
    /// Each pattern scans the whole body on its own. The three shapes cannot
    /// claim the same member: a pointer has `*` between its words, a sized
    /// array ends in `]`, and a plain member ends in a word, so no member is
    /// reported twice.
    pub fn extract_declaration(code: &str) -> (r: Result<Vec<Declaration>, TypedefError>)
        ensures
            declarations_result_view(r) == extract_declarations(code@),
    {
        let mut result: Vec<Declaration> = Vec::new();
        assert(declarations_view(result@) =~= seq![]);
        match push_declarations(MemberShape::Pointer, code, &mut result) {
            Ok(()) => {},
            Err(e) => {
                return Err(e);
            },
        }
        match push_declarations(MemberShape::Array, code, &mut result) {
            Ok(()) => {},
            Err(e) => {
                return Err(e);
            },
        }
        match push_declarations(MemberShape::Normal, code, &mut result) {
            Ok(()) => {},
            Err(e) => {
                return Err(e);
            },
        }
        assert(declarations_view(result@) =~= seq![] + declarations_of_shape(MemberShape::Pointer, code@)->Ok_0 + declarations_of_shape(MemberShape::Array, code@)->Ok_0 + declarations_of_shape(MemberShape::Normal, code@)->Ok_0);
        Ok(result)
    }
}

/// The three shapes of a typedef fragment, in the order they are tried.
#[derive(Debug, Clone, Copy, PartialEq, Eq)]
pub enum FragmentShape {
    Struct,
    Array,
    Normal,
}

/// The pattern of a fragment shape.
pub open spec fn fragment_pattern(shape: FragmentShape) -> Seq<char> {
    match shape {
        FragmentShape::Struct => STRUCT_PATTERN@,
        FragmentShape::Array => ARRAY_TYPEDEF_PATTERN@,
        FragmentShape::Normal => NORMAL_TYPEDEF_PATTERN@,
    }
}

/// A fragment of the given shape.
pub open spec fn fragment_of(shape: FragmentShape, text: Seq<char>) -> RawTypedefView {
    match shape {
        FragmentShape::Struct => RawTypedefView::Struct(text),
        FragmentShape::Array => RawTypedefView::Array(text),
        FragmentShape::Normal => RawTypedefView::Normal(text),
    }
}

/// Every fragment of one shape in `code`, in document order.
pub open spec fn fragments_of_shape(shape: FragmentShape, code: Seq<char>) -> Result<
    Seq<RawTypedefView>,
    ErrorView,
> {
    match regex_captures(fragment_pattern(shape), code) {
        Some(ms) => Ok(ms.map_values(|m: Seq<Option<Seq<char>>>| fragment_of(shape, whole(m)))),
        None => mismatch(fragment_pattern(shape), code),
    }
}

/// The typedef fragments of a header: struct fragments, then array typedefs,
/// then plain typedefs.
pub open spec fn extract_fragments(code: Seq<char>) -> Result<Seq<RawTypedefView>, ErrorView> {
    match fragments_of_shape(FragmentShape::Struct, code) {
        Err(e) => Err(e),
        Ok(s) => match fragments_of_shape(FragmentShape::Array, code) {
            Err(e) => Err(e),
            Ok(a) => match fragments_of_shape(FragmentShape::Normal, code) {
                Err(e) => Err(e),
                Ok(n) => Ok(s + a + n),
            },
        },
    }
}

/// The views of a list of fragments.
pub open spec fn fragments_view(rs: Seq<RawTypedef>) -> Seq<RawTypedefView> {
    rs.map_values(|r: RawTypedef| r@)
}

/// The view of a fragment-list outcome.
pub open spec fn fragments_result_view(r: Result<Vec<RawTypedef>, TypedefError>) -> Result<
    Seq<RawTypedefView>,
    ErrorView,
> {
    match r {
        Ok(v) => Ok(fragments_view(v@)),
        Err(e) => Err(e@),
    }
}

fn fragment_regex(shape: FragmentShape) -> (r: &'static str)
    ensures
        r@ == fragment_pattern(shape),
{
    match shape {
        FragmentShape::Struct => STRUCT_PATTERN,
        FragmentShape::Array => ARRAY_TYPEDEF_PATTERN,
        FragmentShape::Normal => NORMAL_TYPEDEF_PATTERN,
    }
}

/// The fragments of one shape that the given matches describe, one for the
/// whole text of each match.
pub fn fragments_from_matches(shape: FragmentShape, ms: &Vec<Vec<Option<String>>>) -> (r: Vec<
    RawTypedef,
>)
    ensures
        fragments_view(r@) == captures_view(Some(*ms))->0.map_values(
            |m: Seq<Option<Seq<char>>>| fragment_of(shape, whole(m)),
        ),
{
    let ghost mv = captures_view(Some(*ms))->0;
    let ghost fs = mv.map_values(|m: Seq<Option<Seq<char>>>| fragment_of(shape, whole(m)));
    let mut out: Vec<RawTypedef> = Vec::new();
    let mut i: usize = 0;
    while i < ms.len()
        invariant
            i <= ms.len(),
            mv == captures_view(Some(*ms))->0,
            fs == mv.map_values(|m: Seq<Option<Seq<char>>>| fragment_of(shape, whole(m))),
            mv.len() == ms@.len(),
            fragments_view(out@) =~= fs.take(i as int),
        decreases ms.len() - i,
    {
        assert(mv[i as int] == groups_view(ms@[i as int]));
        let text = match get_group(&ms[i], 0) {
            Some(t) => t.clone(),
            None => String::new(),
        };
        let f = match shape {
            FragmentShape::Struct => RawTypedef::Struct(text),
            FragmentShape::Array => RawTypedef::Array(text),
            FragmentShape::Normal => RawTypedef::Normal(text),
        };
        let ghost prev = out@;
        out.push(f);
        assert(fragments_view(out@) =~= fragments_view(prev).push(f@));
        i = i + 1;
        assert(fs.take(i as int) =~= fs.take(i - 1).push(fs[i - 1]));
    }
    assert(fs.take(i as int) =~= fs);
    out
}

fn push_fragments(shape: FragmentShape, code: &str, out: &mut Vec<RawTypedef>) -> (r: Result<
    (),
    TypedefError,
>)
    ensures
        match fragments_of_shape(shape, code@) {
            Ok(fs) => r is Ok && fragments_view(final(out)@) == fragments_view(old(out)@) + fs,
            Err(e) => r matches Err(x) && x@ == e,
        },
{
    let pattern = fragment_regex(shape);
    let ms = match captures_all(pattern, code) {
        Some(ms) => ms,
        None => {
            return Err(
                TypedefError::PatternMismatch {
                    pattern: String::from_str(pattern),
                    text: String::from_str(code),
                },
            );
        },
    };
    let mut found = fragments_from_matches(shape, &ms);
    let ghost prev = out@;
    let ghost added = found@;
    out.append(&mut found);
    assert(fragments_view(out@) =~= fragments_view(prev) + fragments_view(added));
    Ok(())
}

/// Finds every typedef fragment of a header: struct fragments first, then
/// array typedefs, then plain typedefs, each in document order.
pub fn extract_typedef(code: &str) -> (r: Result<Vec<RawTypedef>, TypedefError>)
    ensures
        fragments_result_view(r) == extract_fragments(code@),
{
    let mut result: Vec<RawTypedef> = Vec::new();
    assert(fragments_view(result@) =~= seq![]);
    match push_fragments(FragmentShape::Struct, code, &mut result) {
        Ok(()) => {},
        Err(e) => {
            return Err(e);
        },
    }
    match push_fragments(FragmentShape::Array, code, &mut result) {
        Ok(()) => {},
        Err(e) => {
            return Err(e);
        },
    }
    match push_fragments(FragmentShape::Normal, code, &mut result) {
        Ok(()) => {},
        Err(e) => {
            return Err(e);
        },
    }
    assert(fragments_view(result@) =~= seq![] + fragments_of_shape(FragmentShape::Struct, code@)->Ok_0
        + fragments_of_shape(FragmentShape::Array, code@)->Ok_0 + fragments_of_shape(
        FragmentShape::Normal,
        code@,
    )->Ok_0);
    Ok(result)
}

/// The first match of `pattern` in `text`, if any.
pub open spec fn first_match(pattern: Seq<char>, text: Seq<char>) -> Option<Seq<Option<Seq<char>>>> {
    match regex_captures(pattern, text) {
        Some(ms) => if ms.len() > 0 { Some(ms[0]) } else { None },
        None => None,
    }
}

impl RawTypedefView {
    /// The text of the fragment.
    pub open spec fn text(self) -> Seq<char> {
        match self {
            RawTypedefView::Struct(t) => t,
            RawTypedefView::Array(t) => t,
            RawTypedefView::Normal(t) => t,
        }
    }
}

/// The structured typedef that one match of a fragment's own pattern
/// describes, from the match's capture groups.
pub open spec fn typedef_of(raw: RawTypedefView, m: Seq<Option<Seq<char>>>) -> Result<
    TypedefView,
    ErrorView,
> {
    match raw {
        RawTypedefView::Struct(t) => match (group(m, 1), group(m, 2), group(m, 3)) {
            (Some(data_type), Some(body), Some(alias)) => match extract_declarations(body) {
                Ok(elements) => Ok(TypedefView::Struct { alias, data_type, elements }),
                Err(e) => Err(e),
            },
            _ => mismatch(STRUCT_PATTERN@, t),
        },
        RawTypedefView::Array(t) => match (group(m, 1), group(m, 2), group(m, 3)) {
            (Some(data_type), Some(alias), Some(digits)) => match digits_value(digits) {
                Some(size) => if size <= usize::MAX {
                    Ok(TypedefView::Array { alias, data_type, size })
                } else {
                    mismatch(ARRAY_TYPEDEF_PATTERN@, t)
                },
                None => mismatch(ARRAY_TYPEDEF_PATTERN@, t),
            },
            _ => mismatch(ARRAY_TYPEDEF_PATTERN@, t),
        },
        RawTypedefView::Normal(t) => match (group(m, 1), group(m, 2)) {
            (Some(data_type), Some(alias)) => Ok(TypedefView::Normal { alias, data_type }),
            _ => mismatch(NORMAL_TYPEDEF_PATTERN@, t),
        },
    }
}

/// The structured typedef that a fragment describes, read with the pattern of
/// its own shape.
pub open spec fn lexicalize(raw: RawTypedefView) -> Result<TypedefView, ErrorView> {
    match first_match(raw.pattern(), raw.text()) {
        Some(m) => typedef_of(raw, m),
        None => mismatch(raw.pattern(), raw.text()),
    }
}

/// The view of a typedef outcome.
pub open spec fn typedef_result_view(r: Result<Typedef, TypedefError>) -> Result<TypedefView, ErrorView> {
    match r {
        Ok(t) => Ok(t@),
        Err(e) => Err(e@),
    }
}

fn first_captures(pattern: &str, text: &str) -> (r: Option<Vec<Option<String>>>)
    ensures
        match first_match(pattern@, text@) {
            Some(m) => r matches Some(x) && groups_view(x) == m,
            None => r is None,
        },
{
    match captures_all(pattern, text) {
        Some(mut ms) => {
            if ms.len() > 0 {
                let ghost mv = captures_view(Some(ms))->0;
                assert(mv[0] == groups_view(ms@[0]));
                Some(ms.swap_remove(0))
            } else {
                None
            }
        },
        None => None,
    }
}

/// The structured typedef that a match of the fragment's own pattern
/// describes, from the match's capture groups.
pub fn typedef_from_match(raw_typedef: &RawTypedef, m: &Vec<Option<String>>) -> (r: Result<
    Typedef,
    TypedefError,
>)
    ensures
        typedef_result_view(r) == typedef_of(raw_typedef@, groups_view(*m)),
{
    let text = match raw_typedef {
        RawTypedef::Struct(t) => t,
        RawTypedef::Array(t) => t,
        RawTypedef::Normal(t) => t,
    };
    let fail = TypedefError::PatternMismatch {
        pattern: String::from_str(raw_typedef.get_regex()),
        text: text.clone(),
    };
    match raw_typedef {
        RawTypedef::Struct(..) => match (get_group(m, 1), get_group(m, 2), get_group(m, 3)) {
            (Some(data_type), Some(body), Some(alias)) => {
                match Declaration::extract_declaration(body.as_str()) {
                    Ok(elements) => Ok(
                        Typedef::Struct { alias: alias.clone(), data_type: data_type.clone(), elements },
                    ),
                    Err(e) => Err(e),
                }
            },
            _ => Err(fail),
        },
        RawTypedef::Array(..) => match (get_group(m, 1), get_group(m, 2), get_group(m, 3)) {
            (Some(data_type), Some(alias), Some(digits)) => match parse_digits(digits.as_str()) {
                Some(size) => Ok(Typedef::Array { alias: alias.clone(), data_type: data_type.clone(), size }),
                None => Err(fail),
            },
            _ => Err(fail),
        },
        RawTypedef::Normal(..) => match (get_group(m, 1), get_group(m, 2)) {
            (Some(data_type), Some(alias)) => Ok(
                Typedef::Normal { alias: alias.clone(), data_type: data_type.clone() },
            ),
            _ => Err(fail),
        },
    }
}

/// Turns a raw fragment into a structured typedef, reading it again with the
/// pattern of its shape; a fragment that its pattern does not fit is an error.
pub fn lexicalize_typedef(raw_typedef: RawTypedef) -> (r: Result<Typedef, TypedefError>)
    ensures
        typedef_result_view(r) == lexicalize(raw_typedef@),
{
    let pattern = raw_typedef.get_regex();
    let text = match &raw_typedef {
        RawTypedef::Struct(t) => t,
        RawTypedef::Array(t) => t,
        RawTypedef::Normal(t) => t,
    };
    match first_captures(pattern, text.as_str()) {
        Some(m) => typedef_from_match(&raw_typedef, &m),
        None => Err(TypedefError::PatternMismatch { pattern: String::from_str(pattern), text: text.clone() }),
    }
}

} // verus!
