//! The statement parser: a per-file state machine over the XML event
//! stream, the dialect-aware normalization pipeline, and the emission
//! of one file's output batch.

use vstd::prelude::*;

verus! {

use crate::args::{Args, DbType, XBatisMode, convert, spec_convert};
use crate::def::{
    FragV, Fragment, KeyV, LoopV, Mode, RegexReplacement, RuleV, SqlKey, SqlStatement, StateV,
    StmtV, XmlParsedState, spec_match_statement, spec_mode_of, spec_reset,
};
use crate::dialect::{
    DialectType, comment_leading, comment_leading2, comment_tailing, comment_tailing2,
    compose_comment, explain_dialect, spec_comment_leading, spec_comment_leading2,
    spec_comment_tailing, spec_comment_tailing2, spec_compose_comment, spec_explain_dialect,
    spec_var_placeholder, var_placeholder,
};
use crate::events::{Attr, AttrV, TokenV, XmlToken, search_matched_attr, spec_find_attr, tokenize};
use crate::resolve::{loop_replace_include_part, spec_resolve};
use crate::text::{
    contains_literal, has_sub, spec_lower, spec_trim, spec_upper, str_eq_str, to_ascii_lower,
    to_ascii_upper, trim_spaces,
};
use vstd::string::StringExecFns;

/// What regex::Regex::replace_all yields for a pattern, a text and a
/// replacement; a function of the three texts alone.
pub uninterp spec fn re_replace(pattern: Seq<char>, text: Seq<char>, rep: Seq<char>) -> Seq<char>;

/// Relies on regex::Regex::new and regex::Regex::replace_all: every
/// non-overlapping match of the pattern in the text, found left to
/// right, is replaced by the replacement. The pattern decides the
/// result together with the two texts and nothing else; a pattern that
/// does not compile leaves the text unchanged (the table in this crate
/// holds only fixed, valid patterns).
#[verifier::external_body]
fn regex_replace_all(pattern: &str, text: &str, rep: &str) -> (r: String)
    ensures
        r@ == re_replace(pattern@, text@, rep@),
{
    match regex::Regex::new(pattern) {
        Ok(re) => re.replace_all(text, rep).into_owned(),
        Err(_) => text.to_owned(),
    }
}

/// The id under which a fragment enters the pipeline-wide map: plain
/// where no namespace is present, `namespace.id` otherwise.
pub open spec fn spec_qualify(ns: Seq<char>, id: Seq<char>) -> Seq<char> {
    if ns.len() == 0 {
        id
    } else {
        ns + "."@ + id
    }
}

/// Content lands in whichever accumulator is active; outside a
/// statement it is dropped.
pub open spec fn spec_fill_content(st: StateV, content: Seq<char>) -> StateV {
    if st.in_statement {
        if st.in_sql_key {
            StateV { key_sql_builder: st.key_sql_builder + content, ..st }
        } else {
            StateV { sql_builder: st.sql_builder + content, ..st }
        }
    } else {
        st
    }
}

/// Character or CDATA content; inside a loop element the stored
/// separator follows every chunk.
pub open spec fn spec_fill_xml_content(st: StateV, content: Seq<char>) -> StateV {
    let st1 = spec_fill_content(st, content);
    if st1.in_loop {
        spec_fill_content(st1, st1.loop_def.separator)
    } else {
        st1
    }
}

/// The iBATIS start-tag hook: inside a statement, a `prepend`
/// attribute is appended as a literal, space-wrapped.
pub open spec fn spec_start_hook_ibatis(st: StateV, attrs: Seq<AttrV>) -> StateV {
    if st.in_statement {
        match spec_find_attr(attrs, "prepend"@) {
            Some(p) => StateV { sql_builder: st.sql_builder + " "@ + p + " "@, ..st },
            None => st,
        }
    } else {
        st
    }
}

/// The MyBatis start-tag hook: `set` appends its literal; `trim` and
/// `foreach` open a loop frame, append their opening literal through
/// the accumulators, and store suffix and separator for the end tag.
pub open spec fn spec_start_hook_mybatis(st: StateV, e: Seq<char>, attrs: Seq<AttrV>) -> StateV {
    if e == "set"@ {
        StateV { sql_builder: st.sql_builder + " set "@, ..st }
    } else if e == "trim"@ {
        let st1 = StateV { in_loop: true, ..st };
        let st2 = match spec_find_attr(attrs, "prefix"@) {
            Some(p) => spec_fill_content(st1, p),
            None => st1,
        };
        match spec_find_attr(attrs, "suffix"@) {
            Some(sfx) => StateV {
                loop_def: LoopV { suffix: sfx, separator: st2.loop_def.separator },
                ..st2
            },
            None => st2,
        }
    } else if e == "foreach"@ {
        let st1 = StateV { in_loop: true, ..st };
        let st2 = match spec_find_attr(attrs, "open"@) {
            Some(p) => spec_fill_content(st1, p),
            None => st1,
        };
        let st3 = match spec_find_attr(attrs, "close"@) {
            Some(sfx) => StateV {
                loop_def: LoopV { suffix: sfx, separator: st2.loop_def.separator },
                ..st2
            },
            None => st2,
        };
        match spec_find_attr(attrs, "separator"@) {
            Some(sep) => StateV {
                loop_def: LoopV { suffix: st3.loop_def.suffix, separator: sep },
                ..st3
            },
            None => st3,
        }
    } else {
        st
    }
}

/// Dispatch on a start tag, on the lowercased element name.
pub open spec fn spec_parse_start(
    mode: XBatisMode,
    st: StateV,
    name: Seq<char>,
    attrs: Seq<AttrV>,
) -> StateV {
    let e = spec_lower(name);
    if e == "mapper"@ || e == "sqlmap"@ {
        match spec_find_attr(attrs, "namespace"@) {
            Some(ns) => StateV { namespace: ns, ..st },
            None => st,
        }
    } else if spec_match_statement(e) {
        let st1 = StateV { in_statement: true, ..st };
        match spec_find_attr(attrs, "id"@) {
            Some(id) => StateV { current_id: id, ..st1 },
            None => st1,
        }
    } else if e == "selectkey"@ {
        StateV {
            in_sql_key: true,
            has_sql_key: true,
            current_key_id: st.current_id + ".selectKey"@,
            ..st
        }
    } else if e == "where"@ {
        StateV { sql_builder: st.sql_builder + " where "@, ..st }
    } else if e == "include"@ {
        match spec_find_attr(attrs, "refid"@) {
            Some(refid) => StateV {
                sql_builder: st.sql_builder + " "@ + crate::parse_helper::spec_token(refid),
                has_include: true,
                ..st
            },
            None => st,
        }
    } else {
        match mode {
            XBatisMode::IBatis => spec_start_hook_ibatis(st, attrs),
            XBatisMode::MyBatis => spec_start_hook_mybatis(st, e, attrs),
            XBatisMode::NotSupported => st,
        }
    }
}

/// A fragment-definition end tag: the accumulated text is registered
/// under the plain id for the file and under the qualified id for the
/// pipeline, and the transient state is reset.
pub open spec fn spec_end_sql_part(st: StateV) -> StateV {
    spec_reset(
        StateV {
            fragments: st.fragments.push(FragV { id: st.current_id, text: st.sql_builder }),
            global_fragments: st.global_fragments.push(
                FragV {
                    id: spec_qualify(st.namespace, st.current_id),
                    text: st.sql_builder,
                },
            ),
            ..st
        },
    )
}

/// A statement-class end tag: the accumulated text becomes a finished
/// statement, and the transient state is reset.
pub open spec fn spec_end_statement(st: StateV, mode: Mode) -> StateV {
    spec_reset(
        StateV {
            statements: st.statements.push(
                StmtV {
                    mode,
                    id: st.current_id,
                    sql: st.sql_builder,
                    has_include: st.has_include,
                    has_sql_key: st.has_sql_key,
                    sql_key: KeyV { key: st.current_key_id, sql: st.key_sql_builder },
                },
            ),
            ..st
        },
    )
}

/// The MyBatis end-tag hook: a closing `trim` or `foreach` appends the
/// stored suffix and clears the loop frame.
pub open spec fn spec_end_hook_mybatis(st: StateV, e: Seq<char>) -> StateV {
    if e == "trim"@ || e == "foreach"@ {
        let st1 = spec_fill_content(st, st.loop_def.suffix);
        StateV {
            in_loop: false,
            loop_def: LoopV {
                suffix: Seq::<char>::empty(),
                separator: Seq::<char>::empty(),
            },
            ..st1
        }
    } else {
        st
    }
}

/// Dispatch on an end tag, on the lowercased element name.
pub open spec fn spec_parse_end(mode: XBatisMode, st: StateV, name: Seq<char>) -> StateV {
    let e = spec_lower(name);
    if spec_match_statement(e) {
        if spec_mode_of(e) == Mode::SqlPart {
            spec_end_sql_part(st)
        } else {
            spec_end_statement(st, spec_mode_of(e))
        }
    } else if e == "selectkey"@ {
        StateV { in_sql_key: false, ..st }
    } else {
        match mode {
            XBatisMode::MyBatis => spec_end_hook_mybatis(st, e),
            _ => st,
        }
    }
}

/// One event applied to the parse state.
pub open spec fn spec_step(mode: XBatisMode, st: StateV, t: TokenV) -> StateV {
    match t {
        TokenV::Start { name, attrs } => spec_parse_start(mode, st, name, attrs),
        TokenV::End { name } => spec_parse_end(mode, st, name),
        TokenV::Text { content } => spec_fill_xml_content(st, content),
        TokenV::Ignored => st,
    }
}

/// The parse state after the events from index `i` on.
pub open spec fn spec_run_from(mode: XBatisMode, toks: Seq<TokenV>, i: int, st: StateV) -> StateV
    decreases toks.len() - i,
{
    if 0 <= i < toks.len() {
        spec_run_from(mode, toks, i + 1, spec_step(mode, st, toks[i]))
    } else {
        st
    }
}

/// The detection signature of each mapping-file schema.
pub open spec fn spec_signature(mode: XBatisMode) -> Seq<char> {
    match mode {
        XBatisMode::IBatis => "DTD SQL Map 2.0"@,
        XBatisMode::MyBatis => "DTD Mapper 3.0"@,
        XBatisMode::NotSupported => Seq::<char>::empty(),
    }
}

/// Whether a file's content is routed to this schema's parser.
pub open spec fn spec_detect(mode: XBatisMode, content: Seq<char>) -> bool {
    mode != XBatisMode::NotSupported && has_sub(content, spec_signature(mode))
}

/// The normalization rule table, in order of application.
pub open spec fn spec_rules(mode: XBatisMode, d: DialectType) -> Seq<RuleV> {
    let ph = spec_var_placeholder(d);
    if mode == XBatisMode::IBatis {
        seq![
            RuleV { regex: "[\t ]?--[^\n]*\n"@, target: " "@ },
            RuleV { regex: "[\r\n\t ]+"@, target: " "@ },
            RuleV { regex: "\\$\\{[^${]+\\}"@, target: "__REPLACE_SCHEMA__"@ },
            RuleV { regex: "#[^#]+#"@, target: ph },
            RuleV { regex: "\\$[^$]+\\$"@, target: ph },
            RuleV { regex: "WHERE[ ]+AND[ ]+"@, target: "WHERE "@ },
            RuleV { regex: "WHERE[ ]+OR[ ]+"@, target: "WHERE "@ },
            RuleV { regex: ",[ ]+WHERE"@, target: " WHERE"@ },
            RuleV { regex: "[ ]*,[ ]*\\)"@, target: ")"@ },
            RuleV { regex: "AND[ ]*$"@, target: ""@ },
            RuleV { regex: "OR[ ]*$"@, target: ""@ },
            RuleV { regex: ",$"@, target: ""@ },
        ]
    } else {
        seq![
            RuleV { regex: "[\t ]?--[^\n]*\n"@, target: ""@ },
            RuleV { regex: "[\r\n\t ]+"@, target: " "@ },
            RuleV { regex: "\\$\\{[^${]+\\}\\."@, target: "__REPLACE_SCHEMA__."@ },
            RuleV { regex: "#\\{[^#{]+\\}"@, target: ph },
            RuleV { regex: "\\$\\{[^${]+\\}"@, target: ph },
            RuleV { regex: "WHERE[ ]+AND[ ]+"@, target: "WHERE "@ },
            RuleV { regex: "WHERE[ ]+OR[ ]+"@, target: "WHERE "@ },
            RuleV { regex: ",[ ]+WHERE"@, target: " WHERE"@ },
            RuleV { regex: "[ ]*,[ ]*\\)"@, target: ")"@ },
            RuleV { regex: "AND[ ]*$"@, target: ""@ },
            RuleV { regex: "OR[ ]*$"@, target: ""@ },
            RuleV { regex: ",$"@, target: ""@ },
        ]
    }
}

/// The rule table applied in order from index `i` on.
pub open spec fn spec_apply_rules(s: Seq<char>, rules: Seq<RuleV>, i: int) -> Seq<char>
    decreases rules.len() - i,
{
    if 0 <= i < rules.len() {
        spec_apply_rules(re_replace(rules[i].regex, s, rules[i].target), rules, i + 1)
    } else {
        s
    }
}

/// Structural marker lines bypass the normalization pipeline.
pub open spec fn spec_is_marker_line(s: Seq<char>) -> bool {
    has_sub(s, "XML-FILE:"@) || has_sub(s, "STAT-ID:"@) || has_sub(s, "DBMS_XPLAN"@)
}

/// The query-plan introspection statement appended after an Oracle
/// EXPLAIN.
pub open spec fn spec_plan_line() -> Seq<char> {
    "SELECT * FROM TABLE(DBMS_XPLAN.DISPLAY);"@
}

/// The output lines for one SQL body: marker lines pass through
/// unchanged; anything else is uppercased, trimmed, run through the
/// rule table, EXPLAIN-prefixed and `;`-suffixed as asked, with the
/// plan introspection line after an Oracle EXPLAIN.
pub open spec fn spec_clear_lines(
    sql: Seq<char>,
    rules: Seq<RuleV>,
    d: DialectType,
    gen_explain: bool,
    append_semicolon: bool,
) -> Seq<Seq<char>> {
    if spec_is_marker_line(sql) {
        seq![sql]
    } else {
        let s = spec_apply_rules(spec_trim(spec_upper(sql)), rules, 0);
        let line = if gen_explain {
            spec_explain_dialect(d) + s
        } else {
            s
        };
        let line2 = if append_semicolon {
            line + ";"@
        } else {
            line
        };
        if gen_explain && d == DialectType::Oracle {
            seq![line2, spec_plan_line()]
        } else {
            seq![line2]
        }
    }
}

/// The output lines of one statement: its header comment, its body
/// (locally resolved only in the schema without cross-file
/// references), and, when present, its generated-key header and body.
pub open spec fn spec_statement_lines(p: XBatisParser, frags: Seq<FragV>, st: StmtV) -> Seq<
    Seq<char>,
> {
    let body = if st.has_include && p.mode == XBatisMode::IBatis {
        spec_resolve(st.sql, frags, p.replace_num as int)
    } else {
        st.sql
    };
    let head = seq![
        spec_compose_comment(
            spec_comment_leading2(p.dialect_type),
            st.id,
            spec_comment_tailing2(p.dialect_type),
        ),
    ];
    let main = spec_clear_lines(
        body,
        p.re_vec.deep_view(),
        p.dialect_type,
        p.gen_explain,
        true,
    );
    let keys = if st.has_sql_key {
        seq![
            spec_compose_comment(
                spec_comment_leading2(p.dialect_type),
                st.sql_key.key,
                spec_comment_tailing2(p.dialect_type),
            ),
        ] + spec_clear_lines(
            st.sql_key.sql,
            p.re_vec.deep_view(),
            p.dialect_type,
            p.gen_explain,
            true,
        )
    } else {
        Seq::<Seq<char>>::empty()
    };
    head + main + keys
}

/// The output lines of the statements from index `i` on.
pub open spec fn spec_statements_lines(
    p: XBatisParser,
    frags: Seq<FragV>,
    stmts: Seq<StmtV>,
    i: int,
) -> Seq<Seq<char>>
    decreases stmts.len() - i,
{
    if 0 <= i < stmts.len() {
        spec_statement_lines(p, frags, stmts[i]) + spec_statements_lines(p, frags, stmts, i + 1)
    } else {
        Seq::<Seq<char>>::empty()
    }
}

/// A whole file's batch: the file-header comment, then every statement
/// in document order.
pub open spec fn spec_file_lines(p: XBatisParser, filename: Seq<char>, stf: StateV) -> Seq<
    Seq<char>,
> {
    seq![
        spec_compose_comment(
            spec_comment_leading(p.dialect_type),
            filename,
            spec_comment_tailing(p.dialect_type),
        ),
    ] + spec_statements_lines(p, stf.fragments, stf.statements, 0)
}

/// The fresh parse state for one file.
pub open spec fn spec_init_state(filename: Seq<char>) -> StateV {
    StateV {
        in_statement: false,
        in_sql_key: false,
        in_loop: false,
        has_include: false,
        has_sql_key: false,
        current_id: Seq::<char>::empty(),
        current_key_id: Seq::<char>::empty(),
        namespace: Seq::<char>::empty(),
        loop_def: LoopV { suffix: Seq::<char>::empty(), separator: Seq::<char>::empty() },
        sql_builder: Seq::<char>::empty(),
        key_sql_builder: Seq::<char>::empty(),
        statements: Seq::<StmtV>::empty(),
        fragments: Seq::<FragV>::empty(),
        global_fragments: Seq::<FragV>::empty(),
        filename,
    }
}

/// An accepted file yields, for some event-token sequence, the batch
/// lines and the fragments handed to the pipeline-wide map.
pub open spec fn spec_parse_some(
    p: XBatisParser,
    filename: Seq<char>,
    lines: Seq<Seq<char>>,
    gfrags: Seq<FragV>,
) -> bool {
    exists|toks: Seq<TokenV>| #[trigger] spec_parse_output(p, toks, filename, lines, gfrags)
}

/// What one accepted file yields, for a given event-token sequence:
/// the batch lines and the fragments handed to the pipeline-wide map.
pub open spec fn spec_parse_output(
    p: XBatisParser,
    toks: Seq<TokenV>,
    filename: Seq<char>,
    lines: Seq<Seq<char>>,
    gfrags: Seq<FragV>,
) -> bool {
    let stf = spec_run_from(p.mode, toks, 0, spec_init_state(filename));
    lines == spec_file_lines(p, filename, stf) && gfrags == stf.global_fragments
}

/// Law: a structural marker line passes the normalization pipeline
/// through unchanged, so the pipeline is idempotent on it, whatever
/// the rule table, the dialect and the options.
pub proof fn lemma_marker_line_pass_through(
    sql: Seq<char>,
    rules: Seq<RuleV>,
    d: DialectType,
    gen_explain: bool,
    append_semicolon: bool,
)
    requires
        spec_is_marker_line(sql),
    ensures
        spec_clear_lines(sql, rules, d, gen_explain, append_semicolon) == seq![sql],
        spec_clear_lines(
            spec_clear_lines(sql, rules, d, gen_explain, append_semicolon)[0],
            rules,
            d,
            gen_explain,
            append_semicolon,
        ) == spec_clear_lines(sql, rules, d, gen_explain, append_semicolon),
{
}

/// Every file-header and statement-header comment line carries its
/// structural marker, so the normalizer leaves those lines unchanged
/// however often they meet it.
pub proof fn lemma_header_lines_are_markers(d: DialectType, x: Seq<char>)
    ensures
        spec_is_marker_line(
            spec_compose_comment(spec_comment_leading(d), x, spec_comment_tailing(d)),
        ),
        spec_is_marker_line(
            spec_compose_comment(spec_comment_leading2(d), x, spec_comment_tailing2(d)),
        ),
{
    reveal_strlit("SELECT \"XML-FILE: ");
    reveal_strlit("SELECT \"STAT-ID: ");
    reveal_strlit("XML-FILE:");
    reveal_strlit("STAT-ID:");
    assert(crate::text::match_at(spec_comment_leading(d), "XML-FILE:"@, 8)) by {
        assert(spec_comment_leading(d).subrange(8, 17) =~= "XML-FILE:"@);
    }
    assert(crate::text::match_at(spec_comment_leading2(d), "STAT-ID:"@, 8)) by {
        assert(spec_comment_leading2(d).subrange(8, 16) =~= "STAT-ID:"@);
    }
    crate::text::lemma_has_sub_concat(spec_comment_leading(d), x, "XML-FILE:"@);
    crate::text::lemma_has_sub_concat(
        spec_comment_leading(d) + x,
        spec_comment_tailing(d),
        "XML-FILE:"@,
    );
    crate::text::lemma_has_sub_concat(spec_comment_leading2(d), x, "STAT-ID:"@);
    crate::text::lemma_has_sub_concat(
        spec_comment_leading2(d) + x,
        spec_comment_tailing2(d),
        "STAT-ID:"@,
    );
}

/// One closed parser: the schema mode, the dialect profile, the run
/// options, and the normalization rule table.
pub struct XBatisParser {
    pub mode: XBatisMode,
    pub dialect_type: DialectType,
    pub gen_explain: bool,
    pub replace_num: i16,
    pub sql_limit: i16,
    pub re_vec: Vec<RegexReplacement>,
}

/// Builds the normalization rule table of a schema mode and dialect.
pub fn create_replcements(mode: XBatisMode, dialect_type: &DialectType) -> (r: Vec<
    RegexReplacement,
>)
    ensures
        r.deep_view() == spec_rules(mode, *dialect_type),
{
    let placeholder = var_placeholder(dialect_type);
    let mut v: Vec<RegexReplacement> = Vec::new();
    if let XBatisMode::IBatis = mode {
        v.push(RegexReplacement::new("[\t ]?--[^\n]*\n", " "));
        v.push(RegexReplacement::new("[\r\n\t ]+", " "));
        v.push(RegexReplacement::new("\\$\\{[^${]+\\}", "__REPLACE_SCHEMA__"));
        v.push(RegexReplacement::new("#[^#]+#", placeholder));
        v.push(RegexReplacement::new("\\$[^$]+\\$", placeholder));
    } else {
        v.push(RegexReplacement::new("[\t ]?--[^\n]*\n", ""));
        v.push(RegexReplacement::new("[\r\n\t ]+", " "));
        v.push(RegexReplacement::new("\\$\\{[^${]+\\}\\.", "__REPLACE_SCHEMA__."));
        v.push(RegexReplacement::new("#\\{[^#{]+\\}", placeholder));
        v.push(RegexReplacement::new("\\$\\{[^${]+\\}", placeholder));
    }
    v.push(RegexReplacement::new("WHERE[ ]+AND[ ]+", "WHERE "));
    v.push(RegexReplacement::new("WHERE[ ]+OR[ ]+", "WHERE "));
    v.push(RegexReplacement::new(",[ ]+WHERE", " WHERE"));
    v.push(RegexReplacement::new("[ ]*,[ ]*\\)", ")"));
    v.push(RegexReplacement::new("AND[ ]*$", ""));
    v.push(RegexReplacement::new("OR[ ]*$", ""));
    v.push(RegexReplacement::new(",$", ""));
    proof {
        if mode == XBatisMode::IBatis {
            assert(v.deep_view() =~= spec_rules(mode, *dialect_type));
        } else {
            assert(v.deep_view() =~= spec_rules(mode, *dialect_type));
        }
    }
    v
}

/// An iBATIS parser for the given dialect, with default options.
pub fn create_ibatis_parser(dialect_type: DialectType) -> (r: XBatisParser)
    ensures
        r.mode == XBatisMode::IBatis,
        r.dialect_type == dialect_type,
        r.gen_explain == false,
        r.replace_num == 0i16,
        r.sql_limit == 0i16,
        r.re_vec.deep_view() == spec_rules(XBatisMode::IBatis, dialect_type),
{
    let re_vec = create_replcements(XBatisMode::IBatis, &dialect_type);
    XBatisParser {
        mode: XBatisMode::IBatis,
        dialect_type,
        gen_explain: false,
        replace_num: 0,
        sql_limit: 0,
        re_vec,
    }
}

/// A MyBatis parser for the given dialect, with default options.
pub fn create_mybatis_parser(dialect_type: DialectType) -> (r: XBatisParser)
    ensures
        r.mode == XBatisMode::MyBatis,
        r.dialect_type == dialect_type,
        r.gen_explain == false,
        r.replace_num == 0i16,
        r.sql_limit == 0i16,
        r.re_vec.deep_view() == spec_rules(XBatisMode::MyBatis, dialect_type),
{
    let re_vec = create_replcements(XBatisMode::MyBatis, &dialect_type);
    XBatisParser {
        mode: XBatisMode::MyBatis,
        dialect_type,
        gen_explain: false,
        replace_num: 0,
        sql_limit: 0,
        re_vec,
    }
}

/// The parser that a validated argument set selects, options applied.
pub fn create_parser(args: &Args) -> (r: XBatisParser)
    requires
        args.mode != XBatisMode::NotSupported,
        args.db_type != DbType::Unknown,
    ensures
        r.mode == args.mode,
        r.dialect_type == spec_convert(args.db_type),
        r.gen_explain == args.gen_explain,
        r.replace_num == args.replace_num,
        r.sql_limit == args.sql_limit,
        r.re_vec.deep_view() == spec_rules(args.mode, spec_convert(args.db_type)),
{
    let dialect_type = convert(args.db_type);
    let mut parser = if let XBatisMode::IBatis = args.mode {
        create_ibatis_parser(dialect_type)
    } else {
        create_mybatis_parser(dialect_type)
    };
    parser.setup_gen_explain(args.gen_explain);
    parser.setup_replace_num(args.replace_num);
    parser.setup_sql_limit(args.sql_limit);
    parser
}

impl XBatisParser {
    /// Switches EXPLAIN generation on or off.
    pub fn setup_gen_explain(&mut self, gen_explain: bool)
        ensures
            *final(self) == (XBatisParser { gen_explain, ..*old(self) }),
    {
        self.gen_explain = gen_explain;
    }

    /// Sets the bound on local resolution passes.
    pub fn setup_replace_num(&mut self, replace_num: i16)
        ensures
            *final(self) == (XBatisParser { replace_num, ..*old(self) }),
    {
        self.replace_num = replace_num;
    }

    /// Sets the output-size limit marker.
    pub fn setup_sql_limit(&mut self, sql_limit: i16)
        ensures
            *final(self) == (XBatisParser { sql_limit, ..*old(self) }),
    {
        self.sql_limit = sql_limit;
    }

    /// Whether EXPLAIN generation is on.
    pub fn is_gen_explain(&self) -> (r: bool)
        ensures
            r == self.gen_explain,
    {
        self.gen_explain
    }

    /// The bound on local resolution passes.
    pub fn replace_num(&self) -> (r: i16)
        ensures
            r == self.replace_num,
    {
        self.replace_num
    }

    /// Whether an output-size limit was asked for.
    pub fn is_sql_limit(&self) -> (r: bool)
        ensures
            r == (self.sql_limit > 0),
    {
        self.sql_limit > 0
    }

    /// The output-size limit marker.
    pub fn sql_limit(&self) -> (r: i16)
        ensures
            r == self.sql_limit,
    {
        self.sql_limit
    }

    /// The dialect this parser emits for.
    pub fn dialect_type(&self) -> (r: &DialectType)
        ensures
            *r == self.dialect_type,
    {
        &self.dialect_type
    }

    /// The normalization rule table.
    pub fn vec_regex(&self) -> (r: &Vec<RegexReplacement>)
        ensures
            r.deep_view() == self.re_vec.deep_view(),
    {
        &self.re_vec
    }

    /// Whether the content carries this schema's detection signature.
    pub fn detect_match(&self, content: &str) -> (r: bool)
        ensures
            r == spec_detect(self.mode, content@),
    {
        match self.mode {
            XBatisMode::IBatis => contains_literal(content, "DTD SQL Map 2.0"),
            XBatisMode::MyBatis => contains_literal(content, "DTD Mapper 3.0"),
            XBatisMode::NotSupported => false,
        }
    }

    /// Routes content into the active accumulator.
    pub fn fill_content(&self, state: &mut XmlParsedState, content: &str)
        ensures
            final(state)@ == spec_fill_content(old(state)@, content@),
    {
        if state.in_statement {
            if state.in_sql_key {
                state.key_sql_builder.append(content);
            } else {
                state.sql_builder.append(content);
            }
        }
    }

    /// Routes character or CDATA content, repeating the loop separator
    /// after the chunk while a loop element is open.
    pub fn fill_xml_content(&self, state: &mut XmlParsedState, content: &str)
        ensures
            final(state)@ == spec_fill_xml_content(old(state)@, content@),
    {
        self.fill_content(state, content);
        if state.in_loop {
            let sep = state.loop_def.separator.clone();
            self.fill_content(state, sep.as_str());
        }
    }

    /// The iBATIS start-tag hook.
    fn ex_parse_start_element_ibatis(&self, attrs: &Vec<Attr>, state: &mut XmlParsedState)
        ensures
            final(state)@ == spec_start_hook_ibatis(old(state)@, attrs.deep_view()),
    {
        if state.in_statement {
            if let Some(p) = search_matched_attr(attrs, "prepend") {
                state.sql_builder.append(" ");
                state.sql_builder.append(p.as_str());
                state.sql_builder.append(" ");
            }
        }
    }

    /// The MyBatis start-tag hook.
    fn ex_parse_start_element_mybatis(
        &self,
        element_name: &str,
        attrs: &Vec<Attr>,
        state: &mut XmlParsedState,
    )
        ensures
            final(state)@ == spec_start_hook_mybatis(
                old(state)@,
                element_name@,
                attrs.deep_view(),
            ),
    {
        if str_eq_str(element_name, "set") {
            state.sql_builder.append(" set ");
        } else if str_eq_str(element_name, "trim") {
            state.in_loop = true;
            if let Some(p) = search_matched_attr(attrs, "prefix") {
                self.fill_content(state, p.as_str());
            }
            if let Some(sfx) = search_matched_attr(attrs, "suffix") {
                state.loop_def.suffix = sfx;
            }
        } else if str_eq_str(element_name, "foreach") {
            state.in_loop = true;
            if let Some(p) = search_matched_attr(attrs, "open") {
                self.fill_content(state, p.as_str());
            }
            if let Some(sfx) = search_matched_attr(attrs, "close") {
                state.loop_def.suffix = sfx;
            }
            if let Some(sep) = search_matched_attr(attrs, "separator") {
                state.loop_def.separator = sep;
            }
        }
    }

    /// Dispatches one start tag.
    pub fn parse_start_element(&self, name: &String, attrs: &Vec<Attr>, state: &mut XmlParsedState)
        ensures
            final(state)@ == spec_parse_start(self.mode, old(state)@, name@, attrs.deep_view()),
    {
        let e = to_ascii_lower(name.as_str());
        if str_eq_str(e.as_str(), "mapper") || str_eq_str(e.as_str(), "sqlmap") {
            if let Some(ns) = search_matched_attr(attrs, "namespace") {
                state.namespace = ns;
            }
        } else if crate::parse_helper::match_statement(&e) {
            state.in_statement = true;
            if let Some(id) = search_matched_attr(attrs, "id") {
                state.current_id = id;
            }
        } else if str_eq_str(e.as_str(), "selectkey") {
            state.in_sql_key = true;
            state.has_sql_key = true;
            let mut key_id = state.current_id.clone();
            key_id.append(".selectKey");
            state.current_key_id = key_id;
        } else if str_eq_str(e.as_str(), "where") {
            state.sql_builder.append(" where ");
        } else if str_eq_str(e.as_str(), "include") {
            if let Some(refid) = search_matched_attr(attrs, "refid") {
                state.sql_builder.append(" ");
                let token = crate::parse_helper::make_token(refid.as_str());
                state.sql_builder.append(token.as_str());
                state.has_include = true;
            }
        } else {
            match self.mode {
                XBatisMode::IBatis => self.ex_parse_start_element_ibatis(attrs, state),
                XBatisMode::MyBatis => self.ex_parse_start_element_mybatis(
                    e.as_str(),
                    attrs,
                    state,
                ),
                XBatisMode::NotSupported => {},
            }
        }
    }

    /// Registers a finished fragment under its plain and qualified ids.
    pub fn handle_end_sql_part(&self, state: &mut XmlParsedState)
        ensures
            final(state)@ == spec_end_sql_part(old(state)@),
    {
        let ghost pre = state@;
        let qualified = if state.namespace.as_str().is_empty() {
            state.current_id.clone()
        } else {
            let mut q = state.namespace.clone();
            q.append(".");
            q.append(state.current_id.as_str());
            q
        };
        let frag = Fragment { id: state.current_id.clone(), text: state.sql_builder.clone() };
        let gfrag = Fragment { id: qualified, text: state.sql_builder.clone() };
        state.fragments.push(frag);
        state.global_fragments.push(gfrag);
        state.reset();
        proof {
            assert(final(state)@.fragments =~= pre.fragments.push(
                FragV { id: pre.current_id, text: pre.sql_builder },
            ));
            assert(final(state)@.global_fragments =~= pre.global_fragments.push(
                FragV { id: spec_qualify(pre.namespace, pre.current_id), text: pre.sql_builder },
            ));
        }
    }

    /// Finalizes a statement and resets the transient state.
    pub fn handle_end_statement(&self, mode: Mode, state: &mut XmlParsedState)
        ensures
            final(state)@ == spec_end_statement(old(state)@, mode),
    {
        let ghost pre = state@;
        let sql_stat = SqlStatement::new(
            mode,
            state.current_id.clone(),
            state.sql_builder.clone(),
            state.has_include,
            state.has_sql_key,
            SqlKey { key: state.current_key_id.clone(), sql: state.key_sql_builder.clone() },
        );
        state.statements.push(sql_stat);
        state.reset();
        proof {
            assert(final(state)@.statements =~= pre.statements.push(
                StmtV {
                    mode,
                    id: pre.current_id,
                    sql: pre.sql_builder,
                    has_include: pre.has_include,
                    has_sql_key: pre.has_sql_key,
                    sql_key: KeyV { key: pre.current_key_id, sql: pre.key_sql_builder },
                },
            ));
        }
    }

    /// The MyBatis end-tag hook.
    fn ex_parse_end_element_mybatis(&self, element_name: &str, state: &mut XmlParsedState)
        ensures
            final(state)@ == spec_end_hook_mybatis(old(state)@, element_name@),
    {
        if str_eq_str(element_name, "trim") || str_eq_str(element_name, "foreach") {
            let suffix = state.loop_def.suffix.clone();
            self.fill_content(state, suffix.as_str());
            state.in_loop = false;
            state.loop_def.reset();
        }
    }

    /// Dispatches one end tag.
    pub fn parse_end_element(&self, name: &String, state: &mut XmlParsedState)
        ensures
            final(state)@ == spec_parse_end(self.mode, old(state)@, name@),
    {
        let e = to_ascii_lower(name.as_str());
        if crate::parse_helper::match_statement(&e) {
            let mode = Mode::from(e.as_str());
            match mode {
                Mode::SqlPart => self.handle_end_sql_part(state),
                _ => self.handle_end_statement(mode, state),
            }
        } else if str_eq_str(e.as_str(), "selectkey") {
            state.in_sql_key = false;
        } else {
            match self.mode {
                XBatisMode::MyBatis => self.ex_parse_end_element_mybatis(e.as_str(), state),
                _ => {},
            }
        }
    }

    /// Runs the state machine over a file's whole token stream.
    pub fn read_tokens(&self, tokens: &Vec<XmlToken>, state: &mut XmlParsedState)
        ensures
            final(state)@ == spec_run_from(self.mode, tokens.deep_view(), 0, old(state)@),
    {
        let ghost tv = tokens.deep_view();
        let mut i: usize = 0;
        proof {
            assert(tv.len() == tokens@.len());
        }
        while i < tokens.len()
            invariant
                0 <= i <= tokens.len(),
                tv == tokens.deep_view(),
                tv.len() == tokens@.len(),
                spec_run_from(self.mode, tv, 0, old(state)@) == spec_run_from(
                    self.mode,
                    tv,
                    i as int,
                    state@,
                ),
            decreases tokens.len() - i,
        {
            proof {
                assert(tv[i as int] == tokens@[i as int].deep_view());
            }
            match &tokens[i] {
                XmlToken::Start { name, attrs } => self.parse_start_element(name, attrs, state),
                XmlToken::End { name } => self.parse_end_element(name, state),
                XmlToken::Text { content } => self.fill_xml_content(state, content.as_str()),
                XmlToken::Ignored => {},
            }
            i = i + 1;
        }
    }

    /// Applies one rule of the normalization table.
    pub fn regex_clear_and_push(&self, origin_sql: &str, regex_replacement: &RegexReplacement) -> (r:
        String)
        ensures
            r@ == re_replace(regex_replacement@.regex, origin_sql@, regex_replacement@.target),
    {
        regex_replace_all(
            regex_replacement.regex.as_str(),
            origin_sql,
            regex_replacement.target.as_str(),
        )
    }

    /// Appends the Oracle plan-introspection line, for that dialect only.
    pub fn append_oracle_list_plan(&self, sql_store: &mut Vec<String>)
        ensures
            final(sql_store).deep_view() == old(sql_store).deep_view() + (
            if self.dialect_type == DialectType::Oracle {
                seq![spec_plan_line()]
            } else {
                Seq::<Seq<char>>::empty()
            }),
    {
        let ghost pre = sql_store.deep_view();
        if let DialectType::Oracle = self.dialect_type {
            sql_store.push("SELECT * FROM TABLE(DBMS_XPLAN.DISPLAY);".to_owned());
            proof {
                assert(final(sql_store).deep_view() =~= pre + seq![spec_plan_line()]);
            }
        } else {
            proof {
                assert(pre + Seq::<Seq<char>>::empty() =~= pre);
            }
        }
    }

    /// Normalizes one SQL body and appends its output lines: marker
    /// lines pass through; anything else is uppercased, trimmed, run
    /// through the rule table, and suffixed as asked.
    pub fn loop_clear_and_push(
        &self,
        sql_store: &mut Vec<String>,
        origin_sql: &str,
        gen_explain: bool,
        append_semicolon: bool,
    )
        ensures
            final(sql_store).deep_view() == old(sql_store).deep_view() + spec_clear_lines(
                origin_sql@,
                self.re_vec.deep_view(),
                self.dialect_type,
                gen_explain,
                append_semicolon,
            ),
    {
        let ghost pre = sql_store.deep_view();
        let ghost rv = self.re_vec.deep_view();
        if contains_literal(origin_sql, "XML-FILE:") || contains_literal(origin_sql, "STAT-ID:")
            || contains_literal(origin_sql, "DBMS_XPLAN") {
            sql_store.push(origin_sql.to_owned());
            proof {
                assert(final(sql_store).deep_view() =~= pre + seq![origin_sql@]);
            }
            return ;
        }
        let upper = to_ascii_upper(origin_sql);
        let mut sql = trim_spaces(upper.as_str());
        let mut j: usize = 0;
        proof {
            assert(rv.len() == self.re_vec@.len());
        }
        while j < self.re_vec.len()
            invariant
                0 <= j <= self.re_vec.len(),
                rv == self.re_vec.deep_view(),
                rv.len() == self.re_vec@.len(),
                spec_apply_rules(spec_trim(spec_upper(origin_sql@)), rv, 0) == spec_apply_rules(
                    sql@,
                    rv,
                    j as int,
                ),
            decreases self.re_vec.len() - j,
        {
            proof {
                assert(rv[j as int] == self.re_vec@[j as int].deep_view());
            }
            sql = self.regex_clear_and_push(sql.as_str(), &self.re_vec[j]);
            j = j + 1;
        }
        let mut line = if gen_explain {
            let mut l = explain_dialect(&self.dialect_type).to_owned();
            l.append(sql.as_str());
            l
        } else {
            sql
        };
        if append_semicolon {
            line.append(";");
        }
        sql_store.push(line);
        if gen_explain {
            self.append_oracle_list_plan(sql_store);
            proof {
                assert(final(sql_store).deep_view() =~= pre + spec_clear_lines(
                    origin_sql@,
                    rv,
                    self.dialect_type,
                    gen_explain,
                    append_semicolon,
                ));
            }
        } else {
            proof {
                assert(final(sql_store).deep_view() =~= pre + spec_clear_lines(
                    origin_sql@,
                    rv,
                    self.dialect_type,
                    gen_explain,
                    append_semicolon,
                ));
            }
        }
    }

    /// Normalizes one statement body, with the `;` suffix.
    pub fn clear_and_push(&self, sql_store: &mut Vec<String>, origin_sql: &str, gen_explain: bool)
        ensures
            final(sql_store).deep_view() == old(sql_store).deep_view() + spec_clear_lines(
                origin_sql@,
                self.re_vec.deep_view(),
                self.dialect_type,
                gen_explain,
                true,
            ),
    {
        self.loop_clear_and_push(sql_store, origin_sql, gen_explain, true);
    }

    /// Appends one statement's output: its header comment, its body
    /// (locally resolved only in the schema without cross-file
    /// references), and its generated-key lines when present.
    pub fn replace_single_statement(
        &self,
        sql_store: &mut Vec<String>,
        comment_leading: &String,
        stat: &SqlStatement,
        comment_tailing: &String,
        fragments: &Vec<Fragment>,
    )
        requires
            comment_leading@ == spec_comment_leading2(self.dialect_type),
            comment_tailing@ == spec_comment_tailing2(self.dialect_type),
        ensures
            final(sql_store).deep_view() == old(sql_store).deep_view() + spec_statement_lines(
                *self,
                fragments.deep_view(),
                stat@,
            ),
    {
        let ghost pre = sql_store.deep_view();
        let ghost head = spec_compose_comment(
            spec_comment_leading2(self.dialect_type),
            stat@.id,
            spec_comment_tailing2(self.dialect_type),
        );
        sql_store.push(compose_comment(comment_leading, &stat.id, comment_tailing));
        proof {
            assert(sql_store.deep_view() =~= pre + seq![head]);
        }
        let is_local_mode = self.mode == XBatisMode::IBatis;
        if stat.has_include && is_local_mode {
            let body = loop_replace_include_part(stat.sql.as_str(), fragments, self.replace_num);
            self.clear_and_push(sql_store, body.as_str(), self.gen_explain);
        } else {
            self.clear_and_push(sql_store, stat.sql.as_str(), self.gen_explain);
        }
        let ghost main = spec_clear_lines(
            if stat@.has_include && self.mode == XBatisMode::IBatis {
                spec_resolve(stat@.sql, fragments.deep_view(), self.replace_num as int)
            } else {
                stat@.sql
            },
            self.re_vec.deep_view(),
            self.dialect_type,
            self.gen_explain,
            true,
        );
        proof {
            assert(sql_store.deep_view() =~= pre + seq![head] + main);
        }
        if stat.has_sql_key {
            sql_store.push(compose_comment(comment_leading, &stat.sql_key.key, comment_tailing));
            proof {
                assert(sql_store.deep_view() =~= pre + seq![head] + main + seq![
                    spec_compose_comment(
                        spec_comment_leading2(self.dialect_type),
                        stat@.sql_key.key,
                        spec_comment_tailing2(self.dialect_type),
                    ),
                ]);
            }
            self.clear_and_push(sql_store, stat.sql_key.sql.as_str(), self.gen_explain);
        }
        proof {
            assert(final(sql_store).deep_view() =~= pre + spec_statement_lines(
                *self,
                fragments.deep_view(),
                stat@,
            ));
        }
    }

    /// Appends every statement's output, in document order.
    pub fn replace_and_fill(
        &self,
        sql_store: &mut Vec<String>,
        statements: &Vec<SqlStatement>,
        fragments: &Vec<Fragment>,
    )
        ensures
            final(sql_store).deep_view() == old(sql_store).deep_view() + spec_statements_lines(
                *self,
                fragments.deep_view(),
                statements.deep_view(),
                0,
            ),
    {
        let ghost pre = sql_store.deep_view();
        let ghost sv = statements.deep_view();
        let ghost fv = fragments.deep_view();
        let comment_leading = comment_leading2(&self.dialect_type);
        let comment_tailing = comment_tailing2(&self.dialect_type);
        let mut i: usize = 0;
        proof {
            assert(sv.len() == statements@.len());
        }
        while i < statements.len()
            invariant
                0 <= i <= statements.len(),
                sv == statements.deep_view(),
                fv == fragments.deep_view(),
                sv.len() == statements@.len(),
                comment_leading@ == spec_comment_leading2(self.dialect_type),
                comment_tailing@ == spec_comment_tailing2(self.dialect_type),
                pre + spec_statements_lines(*self, fv, sv, 0) == sql_store.deep_view()
                    + spec_statements_lines(*self, fv, sv, i as int),
            decreases statements.len() - i,
        {
            let ghost mid = sql_store.deep_view();
            proof {
                assert(sv[i as int] == statements@[i as int].deep_view());
            }
            self.replace_single_statement(
                sql_store,
                &comment_leading,
                &statements[i],
                &comment_tailing,
                fragments,
            );
            proof {
                assert(mid + (spec_statement_lines(*self, fv, sv[i as int])
                    + spec_statements_lines(*self, fv, sv, i as int + 1)) =~= (mid
                    + spec_statement_lines(*self, fv, sv[i as int])) + spec_statements_lines(
                    *self,
                    fv,
                    sv,
                    i as int + 1,
                ));
            }
            i = i + 1;
        }
        proof {
            assert(pre + spec_statements_lines(*self, fv, sv, sv.len() as int) =~= pre);
            assert(final(sql_store).deep_view() =~= pre + spec_statements_lines(*self, fv, sv, 0));
        }
    }

    /// One file's batch from an already-read token stream: the header
    /// line, every statement's lines in document order, and the
    /// fragments for the pipeline-wide map — exact for every possible
    /// stream, whatever the XML reader yields.
    pub fn parse_tokens(&self, filename: &String, tokens: &Vec<XmlToken>) -> (r: (
        Vec<String>,
        Vec<Fragment>,
    ))
        ensures
            spec_parse_output(
                *self,
                tokens.deep_view(),
                filename@,
                r.0.deep_view(),
                r.1.deep_view(),
            ),
    {
        let mut state = XmlParsedState::new();
        state.filename = filename.clone();
        proof {
            assert(state@ == spec_init_state(filename@));
        }
        self.read_tokens(&tokens, &mut state);
        let mut sql_store: Vec<String> = Vec::new();
        let header = compose_comment(
            &comment_leading(&self.dialect_type),
            filename,
            &comment_tailing(&self.dialect_type),
        );
        sql_store.push(header);
        proof {
            assert(sql_store.deep_view() =~= seq![
                spec_compose_comment(
                    spec_comment_leading(self.dialect_type),
                    filename@,
                    spec_comment_tailing(self.dialect_type),
                ),
            ]);
        }
        self.replace_and_fill(&mut sql_store, &state.statements, &state.fragments);
        let pair = (sql_store, state.global_fragments);
        proof {
            let stf = spec_run_from(self.mode, tokens.deep_view(), 0, spec_init_state(filename@));
            assert(pair.0.deep_view() =~= spec_file_lines(*self, filename@, stf));
        }
        pair
    }

    /// Parses one file's content, when it carries this schema's
    /// signature: the batch of output lines in document order, and the
    /// fragments handed to the pipeline-wide map under their qualified
    /// ids. What the token stream is for a given document is up to the
    /// XML reader; the batch is exact for that stream.
    pub fn parse(&self, filename: &String, content: &str) -> (r: Option<
        (Vec<String>, Vec<Fragment>),
    >)
        ensures
            (r is Some) == spec_detect(self.mode, content@),
            match r {
                Some(pair) => spec_parse_some(
                    *self,
                    filename@,
                    pair.0.deep_view(),
                    pair.1.deep_view(),
                ),
                None => true,
            },
    {
        if !self.detect_match(content) {
            return None;
        }
        let tokens = tokenize(content);
        let pair = self.parse_tokens(filename, &tokens);
        proof {
            assert(spec_parse_some(*self, filename@, pair.0.deep_view(), pair.1.deep_view()));
        }
        Some(pair)
    }
}

} // verus!
