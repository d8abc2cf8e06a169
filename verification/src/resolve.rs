//! Fragment resolution: bounded, recursive substitution of placeholder
//! tokens by fragment text, locally per file and globally across files.

use vstd::prelude::*;

verus! {

use crate::def::{FragV, Fragment};
use crate::parse_helper::{
    lemma_marker_len, lemma_no_marker_no_token, lemma_token_has_marker, replace_included_sql,
    spec_marker, spec_token,
};
use crate::text::{
    contains_literal, has_sub, lemma_has_sub_within, lemma_replace_absent, lemma_replace_keeps_sub,
    lemma_replace_whole, spec_replace, spec_upper, to_ascii_upper,
};
use vstd::string::StringExecFns;

/// One substitution pass: for every fragment from index `i` on, replace
/// all occurrences of its placeholder token by its text, in list order.
pub open spec fn spec_pass(sql: Seq<char>, frags: Seq<FragV>, i: int) -> Seq<char>
    decreases frags.len() - i,
{
    if 0 <= i < frags.len() {
        spec_pass(spec_replace(sql, spec_token(frags[i].id), frags[i].text), frags, i + 1)
    } else {
        sql
    }
}

/// Bounded resolution: up to `passes` substitution passes, stopping as
/// soon as a pass leaves no placeholder marker in the text. When the
/// bound runs out with markers still present, the text is left as it
/// stands.
pub open spec fn spec_resolve(sql: Seq<char>, frags: Seq<FragV>, passes: int) -> Seq<char>
    decreases passes,
{
    if passes <= 0 {
        sql
    } else {
        let s2 = spec_pass(sql, frags, 0);
        if !has_sub(s2, spec_marker()) {
            s2
        } else {
            spec_resolve(s2, frags, passes - 1)
        }
    }
}

/// One global-pass step per fragment, under the qualified id uppercased
/// (the first-pass output has been uppercased by the normalizer).
pub open spec fn spec_global_pass(line: Seq<char>, frags: Seq<FragV>, i: int) -> Seq<char>
    decreases frags.len() - i,
{
    if 0 <= i < frags.len() {
        spec_global_pass(
            spec_replace(line, spec_token(spec_upper(frags[i].id)), frags[i].text),
            frags,
            i + 1,
        )
    } else {
        line
    }
}

/// A pass over text free of the marker changes nothing.
pub proof fn lemma_pass_no_marker(sql: Seq<char>, frags: Seq<FragV>, i: int)
    requires
        !has_sub(sql, spec_marker()),
    ensures
        spec_pass(sql, frags, i) == sql,
    decreases frags.len() - i,
{
    if 0 <= i < frags.len() {
        lemma_no_marker_no_token(sql, frags[i].id);
        lemma_replace_absent(sql, spec_token(frags[i].id), frags[i].text);
        lemma_pass_no_marker(sql, frags, i + 1);
    }
}

/// Law: resolution of text that holds no placeholder marker is a
/// no-op, whatever the fragments and the pass bound. In particular a
/// statement without any fragment reference is emitted unchanged.
pub proof fn lemma_resolve_no_op(sql: Seq<char>, frags: Seq<FragV>, passes: int)
    requires
        !has_sub(sql, spec_marker()),
    ensures
        spec_resolve(sql, frags, passes) == sql,
{
    if passes > 0 {
        lemma_pass_no_marker(sql, frags, 0);
    }
}

/// Law: resolution is idempotent once it has converged: when the
/// resolved text holds no marker any more, resolving that text again
/// gives it back unchanged.
pub proof fn lemma_resolve_idempotent(sql: Seq<char>, frags: Seq<FragV>, passes: int)
    requires
        !has_sub(spec_resolve(sql, frags, passes), spec_marker()),
    ensures
        spec_resolve(spec_resolve(sql, frags, passes), frags, passes) == spec_resolve(
            sql,
            frags,
            passes,
        ),
{
    lemma_resolve_no_op(spec_resolve(sql, frags, passes), frags, passes);
}

/// A linear reference chain laid out in reference order: each
/// fragment's text is exactly the next fragment's placeholder token,
/// and the last fragment's text holds no marker.
pub open spec fn is_chain(frags: Seq<FragV>) -> bool {
    &&& frags.len() >= 1
    &&& forall|i: int|
        0 <= i < frags.len() - 1 ==> frags[i].text == spec_token(#[trigger] frags[i + 1].id)
    &&& !has_sub(frags[frags.len() - 1].text, spec_marker())
}

/// Walking a chain from position `i`, one substitution pass cascades
/// all the way down to the last fragment's text.
proof fn lemma_chain_pass(frags: Seq<FragV>, i: int)
    requires
        is_chain(frags),
        0 <= i < frags.len(),
    ensures
        spec_pass(spec_token(frags[i].id), frags, i) == frags[frags.len() - 1].text,
    decreases frags.len() - i,
{
    lemma_marker_len();
    lemma_replace_whole(spec_token(frags[i].id), frags[i].text);
    assert(spec_pass(spec_token(frags[i].id), frags, i) == spec_pass(
        frags[i].text,
        frags,
        i + 1,
    ));
    if i == frags.len() - 1 {
        assert(spec_pass(frags[i].text, frags, i + 1) == frags[i].text);
    } else {
        assert(frags[i].text == spec_token(frags[i + 1].id));
        lemma_chain_pass(frags, i + 1);
    }
}

/// Law: a reference chain in reference order resolves completely in
/// one pass, however deep it is: starting from the head fragment's
/// token, every placeholder is eliminated and what is left is the
/// last fragment's text. A single fragment whose body holds no marker
/// is the depth-one instance.
pub proof fn lemma_resolve_chain(frags: Seq<FragV>, passes: int)
    requires
        is_chain(frags),
        passes >= 1,
    ensures
        spec_resolve(spec_token(frags[0].id), frags, passes) == frags[frags.len() - 1].text,
        !has_sub(
            spec_resolve(spec_token(frags[0].id), frags, passes),
            spec_marker(),
        ),
{
    lemma_chain_pass(frags, 0);
}

/// A linear reference chain laid out against reference order — the
/// worst processing order, taking one pass per link — with fragments
/// whose tokens do not occur in one another: the text of each
/// fragment but the first is exactly the previous fragment's token,
/// and the first fragment's text holds no marker.
pub open spec fn is_reversed_chain(frags: Seq<FragV>) -> bool {
    &&& frags.len() >= 1
    &&& forall|m: int|
        1 <= m < frags.len() ==> frags[m].text == spec_token(#[trigger] frags[m - 1].id)
    &&& !has_sub(frags[0].text, spec_marker())
    &&& forall|i: int, j: int|
        0 <= i < frags.len() && 0 <= j < frags.len() && i != j ==> !has_sub(
            spec_token(#[trigger] frags[i].id),
            spec_token(#[trigger] frags[j].id),
        )
}

/// The rest of a pass leaves a token alone once its own fragment's
/// position lies behind.
proof fn lemma_rev_pass_skips_token(frags: Seq<FragV>, m: int, d: int)
    requires
        is_reversed_chain(frags),
        0 <= d < m,
        d < frags.len(),
    ensures
        spec_pass(spec_token(frags[d].id), frags, m) == spec_token(frags[d].id),
    decreases frags.len() - m,
{
    if 0 <= m < frags.len() {
        lemma_replace_absent(
            spec_token(frags[d].id),
            spec_token(frags[m].id),
            frags[m].text,
        );
        lemma_rev_pass_skips_token(frags, m + 1, d);
    }
}

/// One pass over a reversed chain moves the text exactly one link
/// down the chain.
proof fn lemma_rev_pass_from(frags: Seq<FragV>, m: int, c: int)
    requires
        is_reversed_chain(frags),
        0 <= m <= c < frags.len(),
    ensures
        spec_pass(spec_token(frags[c].id), frags, m) == if c == 0 {
            frags[0].text
        } else {
            spec_token(frags[c - 1].id)
        },
    decreases c - m,
{
    lemma_marker_len();
    if m < c {
        lemma_replace_absent(spec_token(frags[c].id), spec_token(frags[m].id), frags[m].text);
        lemma_rev_pass_from(frags, m + 1, c);
    } else {
        lemma_replace_whole(spec_token(frags[c].id), frags[c].text);
        if c == 0 {
            lemma_pass_no_marker(frags[0].text, frags, m + 1);
        } else {
            lemma_rev_pass_skips_token(frags, m + 1, c - 1);
        }
    }
}

/// Law: a reference chain whose depth stays within the pass bound
/// resolves completely, even in the worst processing order that
/// resolves one link per pass: starting from the head fragment's
/// token, every placeholder is eliminated and what is left is the
/// deepest fragment's text.
pub proof fn lemma_resolve_reversed_chain(frags: Seq<FragV>, c: int, passes: int)
    requires
        is_reversed_chain(frags),
        0 <= c < frags.len(),
        passes >= c + 1,
    ensures
        spec_resolve(spec_token(frags[c].id), frags, passes) == frags[0].text,
        !has_sub(spec_resolve(spec_token(frags[c].id), frags, passes), spec_marker()),
    decreases c,
{
    lemma_marker_len();
    lemma_rev_pass_from(frags, 0, c);
    if c == 0 {
    } else {
        lemma_token_has_marker(frags[c - 1].id);
        assert(has_sub(spec_token(frags[c - 1].id), spec_token(frags[c - 1].id))) by {
            assert(spec_token(frags[c - 1].id).subrange(
                0,
                spec_token(frags[c - 1].id).len() as int,
            ) =~= spec_token(frags[c - 1].id));
            assert(crate::text::match_at(
                spec_token(frags[c - 1].id),
                spec_token(frags[c - 1].id),
                0,
            ));
        }
        crate::text::lemma_has_sub_within(
            spec_token(frags[c - 1].id),
            spec_token(frags[c - 1].id),
            spec_marker(),
        );
        lemma_resolve_reversed_chain(frags, c - 1, passes - 1);
    }
}

/// Law: resolution always terminates, and on a cyclic reference graph
/// it runs out of its pass bound and leaves a placeholder in the text:
/// with a fragment whose body references itself, the resolved text
/// still holds that fragment's token, for every pass bound.
pub proof fn lemma_resolve_cycle_keeps_marker(
    sql: Seq<char>,
    id: Seq<char>,
    body: Seq<char>,
    passes: int,
)
    requires
        has_sub(sql, spec_token(id)),
        has_sub(body, spec_token(id)),
    ensures
        has_sub(spec_resolve(sql, seq![FragV { id: id, text: body }], passes), spec_token(id)),
        has_sub(spec_resolve(sql, seq![FragV { id: id, text: body }], passes), spec_marker()),
    decreases passes,
{
    lemma_marker_len();
    lemma_token_has_marker(id);
    let frags = seq![FragV { id: id, text: body }];
    if passes <= 0 {
        lemma_has_sub_within(sql, spec_token(id), spec_marker());
    } else {
        lemma_replace_keeps_sub(sql, spec_token(id), body, spec_token(id));
        let s2 = spec_replace(sql, spec_token(id), body);
        assert(spec_pass(sql, frags, 0) == spec_pass(s2, frags, 1));
        assert(spec_pass(s2, frags, 1) == s2);
        lemma_has_sub_within(s2, spec_token(id), spec_marker());
        lemma_resolve_cycle_keeps_marker(s2, id, body, passes - 1);
    }
}

/// One local substitution pass over all fragments of the file.
fn one_pass(sql: &str, frags: &Vec<Fragment>) -> (r: String)
    ensures
        r@ == spec_pass(sql@, frags.deep_view(), 0),
{
    let ghost fv = frags.deep_view();
    let mut s = sql.to_owned();
    let mut j: usize = 0;
    proof {
        assert(fv.len() == frags@.len());
    }
    while j < frags.len()
        invariant
            0 <= j <= frags.len(),
            fv == frags.deep_view(),
            fv.len() == frags@.len(),
            spec_pass(sql@, fv, 0) == spec_pass(s@, fv, j as int),
        decreases frags.len() - j,
    {
        proof {
            assert(fv[j as int] == frags@[j as int].deep_view());
        }
        let f = &frags[j];
        s = replace_included_sql(s.as_str(), f.id.as_str(), f.text.as_str());
        j = j + 1;
    }
    s
}

/// Local resolution of one statement's text against the file's own
/// fragments: up to `replace_num` passes, stopping early once no
/// marker remains. Running out of the bound is not an error; the text
/// is handed on as far as it got.
pub fn loop_replace_include_part(sql: &str, frags: &Vec<Fragment>, replace_num: i16) -> (r: String)
    ensures
        r@ == spec_resolve(sql@, frags.deep_view(), replace_num as int),
{
    let ghost fv = frags.deep_view();
    let mut s = sql.to_owned();
    if replace_num <= 0 {
        return s;
    }
    let mut i: i16 = 0;
    while i < replace_num
        invariant
            0 <= i <= replace_num,
            fv == frags.deep_view(),
            spec_resolve(sql@, fv, replace_num as int) == spec_resolve(
                s@,
                fv,
                replace_num - i,
            ),
        decreases replace_num - i,
    {
        let ghost prev = s@;
        s = one_pass(s.as_str(), frags);
        if !contains_literal(s.as_str(), "__INCLUDE_ID_") {
            proof {
                assert("__INCLUDE_ID_"@ == spec_marker());
                assert(spec_resolve(prev, fv, replace_num - i) == s@);
            }
            return s;
        }
        i = i + 1;
    }
    s
}

/// The global rewrite substitution for one output line: every known
/// qualified fragment id, uppercased as the normalizer left the line,
/// is replaced by its fragment text, in one pass and in list order.
/// A reference that no fragment answers stays in the line verbatim.
pub fn replace_inc_between_xml(sql: &str, global_frags: &Vec<Fragment>) -> (r: String)
    ensures
        r@ == spec_global_pass(sql@, global_frags.deep_view(), 0),
{
    let ghost fv = global_frags.deep_view();
    let mut s = sql.to_owned();
    let mut j: usize = 0;
    proof {
        assert(fv.len() == global_frags@.len());
    }
    while j < global_frags.len()
        invariant
            0 <= j <= global_frags.len(),
            fv == global_frags.deep_view(),
            fv.len() == global_frags@.len(),
            spec_global_pass(sql@, fv, 0) == spec_global_pass(s@, fv, j as int),
        decreases global_frags.len() - j,
    {
        proof {
            assert(fv[j as int] == global_frags@[j as int].deep_view());
        }
        let f = &global_frags[j];
        let key_upper = to_ascii_upper(f.id.as_str());
        s = replace_included_sql(s.as_str(), key_upper.as_str(), f.text.as_str());
        j = j + 1;
    }
    s
}

} // verus!
