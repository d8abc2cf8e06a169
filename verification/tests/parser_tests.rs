use xbatis2sql::args::XBatisMode;
use xbatis2sql::events::{Attr, XmlToken};
use xbatis2sql::dialect::DialectType;
use xbatis2sql::resolve::replace_inc_between_xml;
use xbatis2sql::xbatis_parser::{create_ibatis_parser, create_mybatis_parser};

#[test]
fn detection_refuses_foreign_content() {
    let parser = create_ibatis_parser(DialectType::Oracle);
    let r = parser.parse(&"a.xml".to_string(), "<mapper><!-- DTD Mapper 3.0 --></mapper>");
    assert!(r.is_none());
}

#[test]
fn single_statement_yields_header_and_bound_parameter() {
    let mut parser = create_ibatis_parser(DialectType::Oracle);
    parser.setup_replace_num(10);
    let content = "<!-- DTD SQL Map 2.0 --><sqlMap>\
<select id=\"findUser\">SELECT * FROM USERS WHERE ID = #id#</select></sqlMap>";
    let (lines, gfrags) = parser.parse(&"user.xml".to_string(), content).unwrap();
    assert_eq!(
        lines,
        vec![
            "SELECT \"XML-FILE: user.xml\" AS XML_FILE FROM DUAL;".to_string(),
            "SELECT \"STAT-ID: findUser\" AS STAT_ID FROM DUAL;".to_string(),
            "SELECT * FROM USERS WHERE ID = :?;".to_string(),
        ]
    );
    assert!(gfrags.is_empty());
}

#[test]
fn fragment_reference_resolves_locally_in_sqlmap_schema() {
    let mut parser = create_ibatis_parser(DialectType::MySQL);
    parser.setup_replace_num(10);
    let content = "<!-- DTD SQL Map 2.0 --><sqlMap>\
<sql id=\"cols\">NAME, EMAIL</sql>\
<select id=\"q\">SELECT <include refid=\"cols\"/> FROM T</select></sqlMap>";
    let (lines, _) = parser.parse(&"q.xml".to_string(), content).unwrap();
    assert_eq!(lines[2], "SELECT NAME, EMAIL FROM T;".to_string());
}

#[test]
fn missing_reference_stays_visible_in_the_output() {
    let mut parser = create_ibatis_parser(DialectType::MySQL);
    parser.setup_replace_num(10);
    let content = "<!-- DTD SQL Map 2.0 --><sqlMap>\
<select id=\"q\">SELECT <include refid=\"nope\"/> FROM T</select></sqlMap>";
    let (lines, _) = parser.parse(&"q.xml".to_string(), content).unwrap();
    assert_eq!(lines[2], "SELECT __INCLUDE_ID_NOPE_END__ FROM T;".to_string());
}

#[test]
fn mapper_schema_defers_resolution_to_the_global_pass() {
    let mut parser = create_mybatis_parser(DialectType::MySQL);
    parser.setup_replace_num(10);
    let content = "<!-- DTD Mapper 3.0 --><mapper namespace=\"ns\">\
<sql id=\"cols\">NAME, EMAIL</sql>\
<select id=\"q\">SELECT <include refid=\"ns.cols\"/> FROM T</select></mapper>";
    let (lines, gfrags) = parser.parse(&"m.xml".to_string(), content).unwrap();
    assert_eq!(gfrags.len(), 1);
    assert_eq!(gfrags[0].id, "ns.cols".to_string());
    assert_eq!(gfrags[0].text, "NAME, EMAIL".to_string());
    assert_eq!(lines[2], "SELECT __INCLUDE_ID_NS.COLS_END__ FROM T;".to_string());
    let rewritten = replace_inc_between_xml(&lines[2], &gfrags);
    assert_eq!(rewritten, "SELECT NAME, EMAIL FROM T;".to_string());
}

#[test]
fn uppercase_element_names_are_recognized() {
    let mut parser = create_ibatis_parser(DialectType::MySQL);
    parser.setup_replace_num(10);
    let content = "<!-- DTD SQL Map 2.0 --><sqlMap>\
<SELECT id=\"q\">SELECT 1</SELECT></sqlMap>";
    let (lines, _) = parser.parse(&"u.xml".to_string(), content).unwrap();
    assert_eq!(lines[1], "SELECT \"STAT-ID: q\" AS STAT_ID;".to_string());
    assert_eq!(lines[2], "SELECT 1;".to_string());
}

#[test]
fn select_key_is_emitted_after_its_statement() {
    let mut parser = create_ibatis_parser(DialectType::MySQL);
    parser.setup_replace_num(10);
    let content = "<!-- DTD SQL Map 2.0 --><sqlMap>\
<insert id=\"add\">INSERT INTO T VALUES (#v#)\
<selectKey keyProperty=\"id\">SELECT LAST_INSERT_ID()</selectKey></insert></sqlMap>";
    let (lines, _) = parser.parse(&"k.xml".to_string(), content).unwrap();
    assert_eq!(lines[1], "SELECT \"STAT-ID: add\" AS STAT_ID;".to_string());
    assert_eq!(lines[2], "INSERT INTO T VALUES (@1);".to_string());
    assert_eq!(lines[3], "SELECT \"STAT-ID: add.selectKey\" AS STAT_ID;".to_string());
    assert_eq!(lines[4], "SELECT LAST_INSERT_ID();".to_string());
}

#[test]
fn explain_generation_prefixes_and_appends_the_plan_query() {
    let mut parser = create_ibatis_parser(DialectType::Oracle);
    parser.setup_replace_num(10);
    parser.setup_gen_explain(true);
    let content = "<!-- DTD SQL Map 2.0 --><sqlMap>\
<select id=\"q\">SELECT 1 FROM DUAL</select></sqlMap>";
    let (lines, _) = parser.parse(&"e.xml".to_string(), content).unwrap();
    assert_eq!(lines[2], "explain plan for SELECT 1 FROM DUAL;".to_string());
    assert_eq!(lines[3], "SELECT * FROM TABLE(DBMS_XPLAN.DISPLAY);".to_string());
}

#[test]
fn explain_generation_for_mysql_has_no_plan_query() {
    let mut parser = create_mybatis_parser(DialectType::MySQL);
    parser.setup_replace_num(10);
    parser.setup_gen_explain(true);
    let content = "<!-- DTD Mapper 3.0 --><mapper>\
<select id=\"q\">SELECT 1</select></mapper>";
    let (lines, _) = parser.parse(&"e.xml".to_string(), content).unwrap();
    assert_eq!(lines[2], "explain SELECT 1;".to_string());
    assert_eq!(lines.len(), 3);
}

#[test]
fn where_tag_and_parameter_rewriting() {
    let mut parser = create_mybatis_parser(DialectType::MySQL);
    parser.setup_replace_num(10);
    let content = "<!-- DTD Mapper 3.0 --><mapper>\
<select id=\"q\">SELECT * FROM T<where>AND A = #{a}</where></select></mapper>";
    let (lines, _) = parser.parse(&"w.xml".to_string(), content).unwrap();
    assert_eq!(lines[2], "SELECT * FROM T WHERE A = @1;".to_string());
}

#[test]
fn foreach_is_approximated_with_its_literal_tokens() {
    let mut parser = create_mybatis_parser(DialectType::MySQL);
    parser.setup_replace_num(10);
    let content = "<!-- DTD Mapper 3.0 --><mapper>\
<select id=\"q\">SELECT * FROM T WHERE A IN \
<foreach collection=\"xs\" open=\"(\" close=\")\" separator=\",\">#{x}</foreach></select></mapper>";
    let (lines, _) = parser.parse(&"f.xml".to_string(), content).unwrap();
    assert_eq!(lines[2], "SELECT * FROM T WHERE A IN (@1);".to_string());
}

#[test]
fn normalization_pipeline_is_idempotent_on_its_own_output() {
    let parser = create_mybatis_parser(DialectType::MySQL);
    let mut store: Vec<String> = Vec::new();
    parser.loop_clear_and_push(&mut store, "select  a ,\n\tb   from t", false, false);
    let once = store[0].clone();
    let mut store2: Vec<String> = Vec::new();
    parser.loop_clear_and_push(&mut store2, &once, false, false);
    assert_eq!(once, "SELECT A , B FROM T".to_string());
    assert_eq!(store2[0], once);
}

#[test]
fn surrounding_whitespace_is_trimmed_away() {
    let parser = create_ibatis_parser(DialectType::MySQL);
    let mut store: Vec<String> = Vec::new();
    parser.loop_clear_and_push(&mut store, "  select 1  ", false, false);
    assert_eq!(store[0], "SELECT 1".to_string());
}

#[test]
fn marker_lines_bypass_the_pipeline_unchanged() {
    let parser = create_ibatis_parser(DialectType::Oracle);
    let header = "SELECT \"XML-FILE: a.xml\" AS XML_FILE FROM DUAL;";
    let mut store: Vec<String> = Vec::new();
    parser.loop_clear_and_push(&mut store, header, false, false);
    assert_eq!(store[0], header.to_string());
    let mut store2: Vec<String> = Vec::new();
    parser.loop_clear_and_push(&mut store2, &store[0], false, false);
    assert_eq!(store2[0], header.to_string());
}

#[test]
fn comment_stripping_and_comma_repair() {
    let parser = create_ibatis_parser(DialectType::MySQL);
    let mut store: Vec<String> = Vec::new();
    parser.loop_clear_and_push(&mut store, "select a, from t where and b = 1", false, true);
    assert_eq!(store[0], "SELECT A, FROM T WHERE B = 1;".to_string());
}

#[test]
fn parser_mode_and_options_are_kept() {
    let mut parser = create_mybatis_parser(DialectType::Oracle);
    assert_eq!(parser.mode, XBatisMode::MyBatis);
    assert!(!parser.is_gen_explain());
    parser.setup_gen_explain(true);
    assert!(parser.is_gen_explain());
    parser.setup_replace_num(7);
    assert_eq!(parser.replace_num(), 7);
    parser.setup_sql_limit(5);
    assert!(parser.is_sql_limit());
    assert_eq!(parser.sql_limit(), 5);
    assert_eq!(*parser.dialect_type(), DialectType::Oracle);
    assert_eq!(parser.vec_regex().len(), 12);
}

#[test]
fn a_hand_built_token_stream_parses_exactly() {
    let mut parser = create_ibatis_parser(DialectType::MySQL);
    parser.setup_replace_num(10);
    let tokens = vec![
        XmlToken::Start { name: "sqlMap".to_string(), attrs: vec![] },
        XmlToken::Start {
            name: "select".to_string(),
            attrs: vec![Attr { name: "id".to_string(), value: "q".to_string() }],
        },
        XmlToken::Text { content: "SELECT 1".to_string() },
        XmlToken::End { name: "select".to_string() },
        XmlToken::End { name: "sqlMap".to_string() },
    ];
    let (lines, frags) = parser.parse_tokens(&"t.xml".to_string(), &tokens);
    assert_eq!(
        lines,
        vec![
            "SELECT \"XML-FILE: t.xml\" AS XML_FILE;".to_string(),
            "SELECT \"STAT-ID: q\" AS STAT_ID;".to_string(),
            "SELECT 1;".to_string(),
        ]
    );
    assert!(frags.is_empty());
}
