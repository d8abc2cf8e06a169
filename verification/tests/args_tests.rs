use xbatis2sql::args::{actual_check_args, convert, Args, DbType, XBatisMode};
use xbatis2sql::def::{LoopDef, Mode, RegexReplacement, SqlKey, SqlStatement, XmlParsedState};
use xbatis2sql::dialect::{
    comment_leading, comment_leading2, comment_tailing, comment_tailing2, compose_comment,
    explain_dialect, var_placeholder, DialectType,
};
use xbatis2sql::parse_helper::{match_statement, replace_included_sql};

fn some(s: &str) -> Option<String> {
    Some(s.to_string())
}

#[test]
fn a_valid_argument_set_is_accepted() {
    let args = actual_check_args(
        false,
        false,
        true,
        false,
        some("Oracle"),
        some("/src"),
        some("/out"),
        true,
        10,
        -1,
    );
    assert!(!args.fast_fail);
    assert!(!args.show_version);
    assert_eq!(args.mode, XBatisMode::IBatis);
    assert_eq!(args.db_type, DbType::Oracle);
    assert_eq!(args.src_dir, "/src".to_string());
    assert_eq!(args.output_dir, "/out".to_string());
    assert!(args.gen_explain);
    assert_eq!(args.replace_num, 10);
    assert_eq!(args.sql_limit, -1);
}

#[test]
fn both_modes_at_once_are_refused() {
    let args = actual_check_args(
        false, false, true, true, some("mysql"), some("/s"), some("/o"), false, 10, -1,
    );
    assert!(args.fast_fail);
}

#[test]
fn a_missing_mode_is_refused() {
    let args = actual_check_args(
        false, false, false, false, some("mysql"), some("/s"), some("/o"), false, 10, -1,
    );
    assert!(args.fast_fail);
}

#[test]
fn a_missing_directory_is_refused() {
    let args = actual_check_args(
        false, false, false, true, some("mysql"), None, some("/o"), false, 10, -1,
    );
    assert!(args.fast_fail);
    let args = actual_check_args(
        false, false, false, true, some("mysql"), some("/s"), None, false, 10, -1,
    );
    assert!(args.fast_fail);
}

#[test]
fn an_unknown_database_kind_is_refused() {
    let args = actual_check_args(
        false, false, false, true, some("postgres"), some("/s"), some("/o"), false, 10, -1,
    );
    assert!(args.fast_fail);
}

#[test]
fn help_asks_for_usage_and_version_for_the_version_text() {
    let args = actual_check_args(
        true, false, false, true, some("mysql"), some("/s"), some("/o"), false, 10, -1,
    );
    assert!(args.fast_fail);
    let args = actual_check_args(
        false, true, false, true, some("mysql"), some("/s"), some("/o"), false, 10, -1,
    );
    assert!(!args.fast_fail);
    assert!(args.show_version);
}

#[test]
fn database_kind_names_are_case_insensitive() {
    let args = actual_check_args(
        false, false, false, true, some("MySQL"), some("/s"), some("/o"), false, 10, -1,
    );
    assert_eq!(args.db_type, DbType::MySQL);
    assert_eq!(args.mode, XBatisMode::MyBatis);
}

#[test]
fn db_type_from_recognizes_the_two_kinds() {
    assert_eq!(DbType::from("oracle"), DbType::Oracle);
    assert_eq!(DbType::from("mysql"), DbType::MySQL);
    assert_eq!(DbType::from("db2"), DbType::Unknown);
}

#[test]
fn convert_picks_the_matching_dialect() {
    assert_eq!(convert(DbType::Oracle), DialectType::Oracle);
    assert_eq!(convert(DbType::MySQL), DialectType::MySQL);
}

#[test]
fn args_constructors_fill_the_fields() {
    let a = Args::new(XBatisMode::MyBatis, DbType::MySQL, "s", "o", false, 3, 4);
    assert_eq!(a.mode, XBatisMode::MyBatis);
    assert_eq!(a.replace_num, 3);
    assert_eq!(a.sql_limit, 4);
    let f = Args::fail();
    assert!(f.fast_fail);
    assert!(!f.show_version);
    let h = Args::help();
    assert!(!h.fast_fail);
    assert!(h.show_version);
}

#[test]
fn statement_class_elements_are_recognized() {
    for name in ["statement", "select", "insert", "update", "delete", "sql"] {
        assert!(match_statement(&name.to_string()));
    }
    assert!(!match_statement(&"mapper".to_string()));
    assert!(!match_statement(&"selectkey".to_string()));
}

#[test]
fn mode_from_maps_each_element_name() {
    assert!(matches!(Mode::from("statement"), Mode::Statement));
    assert!(matches!(Mode::from("select"), Mode::Select));
    assert!(matches!(Mode::from("insert"), Mode::Insert));
    assert!(matches!(Mode::from("update"), Mode::Update));
    assert!(matches!(Mode::from("delete"), Mode::Delete));
    assert!(matches!(Mode::from("selectkey"), Mode::SelectKey));
    assert!(matches!(Mode::from("sql"), Mode::SqlPart));
}

#[test]
fn dialect_profile_texts_are_exact() {
    assert_eq!(comment_leading(&DialectType::Oracle), "SELECT \"XML-FILE: ".to_string());
    assert_eq!(comment_leading2(&DialectType::MySQL), "SELECT \"STAT-ID: ".to_string());
    assert_eq!(comment_tailing(&DialectType::Oracle), "\" AS XML_FILE FROM DUAL;".to_string());
    assert_eq!(comment_tailing(&DialectType::MySQL), "\" AS XML_FILE;".to_string());
    assert_eq!(comment_tailing2(&DialectType::Oracle), "\" AS STAT_ID FROM DUAL;".to_string());
    assert_eq!(comment_tailing2(&DialectType::MySQL), "\" AS STAT_ID;".to_string());
    assert_eq!(var_placeholder(&DialectType::Oracle), ":?");
    assert_eq!(var_placeholder(&DialectType::MySQL), "@1");
    assert_eq!(explain_dialect(&DialectType::Oracle), "explain plan for ");
    assert_eq!(explain_dialect(&DialectType::MySQL), "explain ");
}

#[test]
fn compose_comment_joins_the_three_parts() {
    let r = compose_comment(
        &"SELECT \"STAT-ID: ".to_string(),
        &"q".to_string(),
        &"\" AS STAT_ID;".to_string(),
    );
    assert_eq!(r, "SELECT \"STAT-ID: q\" AS STAT_ID;".to_string());
}

#[test]
fn parse_state_resets_its_transient_fields() {
    let mut st = XmlParsedState::new();
    st.in_statement = true;
    st.has_include = true;
    st.current_id = "q".to_string();
    st.sql_builder = "SELECT".to_string();
    st.namespace = "ns".to_string();
    st.filename = "f.xml".to_string();
    st.reset();
    assert!(!st.in_statement);
    assert!(!st.has_include);
    assert_eq!(st.current_id, "".to_string());
    assert_eq!(st.sql_builder, "".to_string());
    assert_eq!(st.namespace, "ns".to_string());
    assert_eq!(st.filename, "f.xml".to_string());
}

#[test]
fn loop_frame_reset_clears_both_tokens() {
    let mut l = LoopDef { suffix: ")".to_string(), separator: ",".to_string() };
    l.reset();
    assert_eq!(l.suffix, "".to_string());
    assert_eq!(l.separator, "".to_string());
}

#[test]
fn statement_and_key_builders_keep_their_parts() {
    let k = SqlKey::empty();
    assert_eq!(k.key, "".to_string());
    assert_eq!(k.sql, "".to_string());
    let s = SqlStatement::new(
        Mode::Select,
        "q".to_string(),
        "SELECT 1".to_string(),
        false,
        false,
        SqlKey::empty(),
    );
    assert_eq!(s.id, "q".to_string());
    assert_eq!(s.sql, "SELECT 1".to_string());
    let r = RegexReplacement::new(",$", "");
    assert_eq!(r.regex, ",$".to_string());
    assert_eq!(r.target, "".to_string());
}

#[test]
fn included_sql_replacement_is_case_exact_on_the_id() {
    let r = replace_included_sql("SELECT __INCLUDE_ID_COLS_END__", "COLS", "A, B");
    assert_eq!(r, "SELECT A, B");
}
