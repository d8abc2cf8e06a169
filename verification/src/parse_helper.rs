//! Helpers shared by the parsers: placeholder tokens for fragment
//! references and the statement-class element test.

use vstd::prelude::*;

verus! {

use crate::text::{
    has_sub, match_at, replace_literal, spec_replace, str_eq_str,
};
use crate::def::spec_match_statement;
use vstd::string::StringExecFns;

/// The marker every placeholder token begins with.
pub open spec fn spec_marker() -> Seq<char> {
    "__INCLUDE_ID_"@
}

/// The placeholder token that stands for a reference to fragment `id`.
pub open spec fn spec_token(id: Seq<char>) -> Seq<char> {
    spec_marker() + id + "_END__"@
}

/// A placeholder token carries the marker at its start.
pub proof fn lemma_token_has_marker(id: Seq<char>)
    ensures
        match_at(spec_token(id), spec_marker(), 0),
{
    assert(spec_token(id).subrange(0, spec_marker().len() as int) =~= spec_marker());
}

/// Text free of the marker is free of every placeholder token.
pub proof fn lemma_no_marker_no_token(t: Seq<char>, id: Seq<char>)
    requires
        !has_sub(t, spec_marker()),
    ensures
        !has_sub(t, spec_token(id)),
{
    if has_sub(t, spec_token(id)) {
        lemma_token_has_marker(id);
        crate::text::lemma_has_sub_within(t, spec_token(id), spec_marker());
    }
}

/// The marker is not empty.
pub proof fn lemma_marker_len()
    ensures
        spec_marker().len() == 13,
        forall|id: Seq<char>| #[trigger] spec_token(id).len() > 0,
{
    reveal_strlit("__INCLUDE_ID_");
}

/// Builds the placeholder token for `id`.
pub fn make_token(id: &str) -> (r: String)
    ensures
        r@ == spec_token(id@),
{
    let mut t = "__INCLUDE_ID_".to_owned();
    t.append(id);
    t.append("_END__");
    t
}

/// Replaces every occurrence of the placeholder token for `id` in
/// `orig_sql` with the fragment text `sql_part`.
pub fn replace_included_sql(orig_sql: &str, id: &str, sql_part: &str) -> (r: String)
    ensures
        r@ == spec_replace(orig_sql@, spec_token(id@), sql_part@),
{
    let token = make_token(id);
    proof {
        lemma_marker_len();
    }
    replace_literal(orig_sql, token.as_str(), sql_part)
}

/// Whether `element_name` is a statement-class element (the
/// fragment-definition element `sql` among them).
pub fn match_statement(element_name: &String) -> (r: bool)
    ensures
        r == spec_match_statement(element_name@),
{
    str_eq_str(element_name.as_str(), "statement") || str_eq_str(element_name.as_str(), "select")
        || str_eq_str(element_name.as_str(), "insert") || str_eq_str(
        element_name.as_str(),
        "update",
    ) || str_eq_str(element_name.as_str(), "delete") || str_eq_str(element_name.as_str(), "sql")
}

} // verus!
