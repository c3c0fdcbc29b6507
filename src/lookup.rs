use vstd::prelude::*;
use crate::text::str_eq;
use vstd::string::StringExecFns;
use crate::types::{database_view, ErrorView, Typedef, TypedefError, TypedefView};

verus! {

/// The closed set of primitive scalar type names.
pub open spec fn is_primitive(s: Seq<char>) -> bool {
    s == "boolean"@ || s == "uint8"@ || s == "uint16"@ || s == "uint32"@ || s == "int8"@
        || s == "int16"@ || s == "int32"@ || s == "sint8"@ || s == "sint16"@ || s == "sint32"@
}

/// Whether `name` is one of the primitive scalar type names.
pub fn is_primivite_type(name: &str) -> (r: bool)
    ensures
        r == is_primitive(name@),
{
    str_eq(name, "boolean") || str_eq(name, "uint8") || str_eq(name, "uint16")
        || str_eq(name, "uint32") || str_eq(name, "int8") || str_eq(name, "int16")
        || str_eq(name, "int32") || str_eq(name, "sint8") || str_eq(name, "sint16")
        || str_eq(name, "sint32")
}

/// How many typedefs of `db` introduce `alias`.
pub open spec fn alias_count(db: Seq<TypedefView>, alias: Seq<char>) -> nat
    decreases db.len(),
{
    if db.len() == 0 {
        0
    } else {
        alias_count(db.drop_last(), alias) + if db.last().alias() == alias { 1nat } else { 0nat }
    }
}

/// The first position of `db` whose typedef introduces `alias`.
pub open spec fn first_index(db: Seq<TypedefView>, alias: Seq<char>) -> Option<int>
    decreases db.len(),
{
    if db.len() == 0 {
        None
    } else {
        match first_index(db.drop_last(), alias) {
            Some(k) => Some(k),
            None => if db.last().alias() == alias { Some(db.len() - 1) } else { None },
        }
    }
}

/// The typedef that introduces `alias`: found only when exactly one does.
pub open spec fn lookup(db: Seq<TypedefView>, alias: Seq<char>) -> Result<TypedefView, ErrorView> {
    if alias_count(db, alias) == 0 {
        Err(ErrorView::AliasNotFound { alias })
    } else if alias_count(db, alias) > 1 {
        Err(ErrorView::AmbiguousAlias { alias })
    } else {
        Ok(db[first_index(db, alias)->0])
    }
}

pub proof fn lemma_first_index(db: Seq<TypedefView>, alias: Seq<char>)
    ensures
        first_index(db, alias) is Some <==> alias_count(db, alias) > 0,
        first_index(db, alias) matches Some(k) ==> 0 <= k < db.len() && db[k].alias() == alias,
    decreases db.len(),
{
    if db.len() > 0 {
        lemma_first_index(db.drop_last(), alias);
    }
}

/// The alias a typedef introduces.
pub fn alias_of(t: &Typedef) -> (r: &String)
    ensures
        r@ == t@.alias(),
{
    match t {
        Typedef::Struct { alias, .. } => alias,
        Typedef::Array { alias, .. } => alias,
        Typedef::Normal { alias, .. } => alias,
    }
}

/// Finds the one typedef that introduces `target_alias`.
pub fn find_by_alias<'a>(typedefs: &'a Vec<Typedef>, target_alias: &str) -> (r: Result<
    &'a Typedef,
    TypedefError,
>)
    ensures
        match lookup(database_view(typedefs@), target_alias@) {
            Ok(t) => r matches Ok(x) && x@ == t,
            Err(e) => r matches Err(x) && x@ == e,
        },
{
    let ghost db = database_view(typedefs@);
    let mut count: usize = 0;
    let mut first: usize = 0;
    let mut i: usize = 0;
    while i < typedefs.len()
        invariant
            i <= typedefs.len(),
            db == database_view(typedefs@),
            count as nat == alias_count(db.take(i as int), target_alias@),
            count <= i,
            count > 0 ==> first_index(db.take(i as int), target_alias@) == Some(first as int),
        decreases typedefs.len() - i,
    {
        assert(db.take(i + 1).drop_last() =~= db.take(i as int));
        proof { lemma_first_index(db.take(i as int), target_alias@); }
        let alias = alias_of(&typedefs[i]);
        if str_eq(alias.as_str(), target_alias) {
            if count == 0 {
                first = i;
            }
            count = count + 1;
        }
        i = i + 1;
    }
    assert(db.take(i as int) =~= db);
    proof { lemma_first_index(db, target_alias@); }
    if count == 1 {
        Ok(&typedefs[first])
    } else if count == 0 {
        Err(TypedefError::AliasNotFound { alias: String::from_str(target_alias) })
    } else {
        Err(TypedefError::AmbiguousAlias { alias: String::from_str(target_alias) })
    }
}

} // verus!
