//! Dialect profile: pure lookup from the target database kind to its
//! comment delimiters, bind-parameter token and EXPLAIN syntax.

use vstd::prelude::*;

verus! {

use vstd::string::StringExecFns;

/// The target database kind.
#[derive(Clone, Copy, PartialEq, Eq, Structural, Debug)]
pub enum DialectType {
    Oracle,
    MySQL,
}

/// Leading text of the file-header comment line.
pub open spec fn spec_comment_leading(d: DialectType) -> Seq<char> {
    "SELECT \"XML-FILE: "@
}

/// Leading text of the statement-header comment line.
pub open spec fn spec_comment_leading2(d: DialectType) -> Seq<char> {
    "SELECT \"STAT-ID: "@
}

/// Trailing text of the file-header comment line.
pub open spec fn spec_comment_tailing(d: DialectType) -> Seq<char> {
    match d {
        DialectType::Oracle => "\" AS XML_FILE FROM DUAL;"@,
        DialectType::MySQL => "\" AS XML_FILE;"@,
    }
}

/// Trailing text of the statement-header comment line.
pub open spec fn spec_comment_tailing2(d: DialectType) -> Seq<char> {
    match d {
        DialectType::Oracle => "\" AS STAT_ID FROM DUAL;"@,
        DialectType::MySQL => "\" AS STAT_ID;"@,
    }
}

/// The dialect's bind-parameter token.
pub open spec fn spec_var_placeholder(d: DialectType) -> Seq<char> {
    match d {
        DialectType::Oracle => ":?"@,
        DialectType::MySQL => "@1"@,
    }
}

/// The dialect's EXPLAIN prefix.
pub open spec fn spec_explain_dialect(d: DialectType) -> Seq<char> {
    match d {
        DialectType::Oracle => "explain plan for "@,
        DialectType::MySQL => "explain "@,
    }
}

/// The comment line `leading + line + trailing`.
pub open spec fn spec_compose_comment(
    leading: Seq<char>,
    line: Seq<char>,
    trailing: Seq<char>,
) -> Seq<char> {
    leading + line + trailing
}

/// Leading text of the file-header comment line.
pub fn comment_leading(dialect_type: &DialectType) -> (r: String)
    ensures
        r@ == spec_comment_leading(*dialect_type),
{
    match dialect_type {
        DialectType::Oracle => "SELECT \"XML-FILE: ".to_owned(),
        DialectType::MySQL => "SELECT \"XML-FILE: ".to_owned(),
    }
}

/// Leading text of the statement-header comment line.
pub fn comment_leading2(dialect_type: &DialectType) -> (r: String)
    ensures
        r@ == spec_comment_leading2(*dialect_type),
{
    match dialect_type {
        DialectType::Oracle => "SELECT \"STAT-ID: ".to_owned(),
        DialectType::MySQL => "SELECT \"STAT-ID: ".to_owned(),
    }
}

/// Trailing text of the file-header comment line.
pub fn comment_tailing(dialect_type: &DialectType) -> (r: String)
    ensures
        r@ == spec_comment_tailing(*dialect_type),
{
    match dialect_type {
        DialectType::Oracle => "\" AS XML_FILE FROM DUAL;".to_owned(),
        DialectType::MySQL => "\" AS XML_FILE;".to_owned(),
    }
}

/// Trailing text of the statement-header comment line.
pub fn comment_tailing2(dialect_type: &DialectType) -> (r: String)
    ensures
        r@ == spec_comment_tailing2(*dialect_type),
{
    match dialect_type {
        DialectType::Oracle => "\" AS STAT_ID FROM DUAL;".to_owned(),
        DialectType::MySQL => "\" AS STAT_ID;".to_owned(),
    }
}

/// The dialect's bind-parameter token.
pub fn var_placeholder(dialect_type: &DialectType) -> (r: &'static str)
    ensures
        r@ == spec_var_placeholder(*dialect_type),
{
    match dialect_type {
        DialectType::Oracle => ":?",
        DialectType::MySQL => "@1",
    }
}

/// The dialect's EXPLAIN prefix.
pub fn explain_dialect(dialect_type: &DialectType) -> (r: &'static str)
    ensures
        r@ == spec_explain_dialect(*dialect_type),
{
    match dialect_type {
        DialectType::Oracle => "explain plan for ",
        DialectType::MySQL => "explain ",
    }
}

/// Wraps a line between a leading and a trailing comment delimiter.
pub fn compose_comment(leading: &String, line: &String, trailing: &String) -> (r: String)
    ensures
        r@ == spec_compose_comment(leading@, line@, trailing@),
{
    let mut s = leading.as_str().to_owned();
    s.append(line.as_str());
    s.append(trailing.as_str());
    s
}

} // verus!
