use xbatis2sql::def::Fragment;
use xbatis2sql::parse_helper::replace_included_sql;
use xbatis2sql::resolve::{loop_replace_include_part, replace_inc_between_xml};

fn frag(id: &str, text: &str) -> Fragment {
    Fragment { id: id.to_string(), text: text.to_string() }
}

#[test]
fn replace_included_sql_replaces_every_occurrence() {
    let r = replace_included_sql(
        "A __INCLUDE_ID_c_END__ B __INCLUDE_ID_c_END__",
        "c",
        "X",
    );
    assert_eq!(r, "A X B X");
}

#[test]
fn replace_included_sql_leaves_other_ids_alone() {
    let r = replace_included_sql("A __INCLUDE_ID_d_END__", "c", "X");
    assert_eq!(r, "A __INCLUDE_ID_d_END__");
}

#[test]
fn resolve_without_reference_is_no_op() {
    let frags = vec![frag("cols", "NAME, EMAIL")];
    let r = loop_replace_include_part("SELECT 1 FROM T", &frags, 10);
    assert_eq!(r, "SELECT 1 FROM T");
}

#[test]
fn resolve_is_idempotent_once_converged() {
    let frags = vec![frag("cols", "NAME, EMAIL")];
    let once = loop_replace_include_part("SELECT __INCLUDE_ID_cols_END__ FROM T", &frags, 10);
    let twice = loop_replace_include_part(&once, &frags, 10);
    assert_eq!(once, "SELECT NAME, EMAIL FROM T");
    assert_eq!(twice, once);
}

#[test]
fn depth_one_graph_resolves_in_one_pass() {
    let frags = vec![frag("cols", "NAME, EMAIL")];
    let r = loop_replace_include_part("__INCLUDE_ID_cols_END__", &frags, 1);
    assert_eq!(r, "NAME, EMAIL");
}

#[test]
fn chain_resolves_within_bound_in_either_list_order() {
    let forward = vec![frag("a", "__INCLUDE_ID_b_END__"), frag("b", "X")];
    let backward = vec![frag("b", "X"), frag("a", "__INCLUDE_ID_b_END__")];
    let r1 = loop_replace_include_part("__INCLUDE_ID_a_END__", &forward, 10);
    let r2 = loop_replace_include_part("__INCLUDE_ID_a_END__", &backward, 10);
    assert_eq!(r1, "X");
    assert_eq!(r2, "X");
}

#[test]
fn cyclic_graph_terminates_and_keeps_placeholder() {
    let frags = vec![frag("a", "A __INCLUDE_ID_a_END__")];
    let r = loop_replace_include_part("__INCLUDE_ID_a_END__", &frags, 3);
    assert!(r.contains("__INCLUDE_ID_"));
    assert!(r.starts_with("A A A "));
}

#[test]
fn zero_pass_bound_changes_nothing() {
    let frags = vec![frag("a", "X")];
    let r = loop_replace_include_part("__INCLUDE_ID_a_END__", &frags, 0);
    assert_eq!(r, "__INCLUDE_ID_a_END__");
}

#[test]
fn missing_fragment_leaves_placeholder_verbatim() {
    let frags = vec![frag("other", "X")];
    let r = loop_replace_include_part("SELECT __INCLUDE_ID_nope_END__ FROM T", &frags, 10);
    assert_eq!(r, "SELECT __INCLUDE_ID_nope_END__ FROM T");
}

#[test]
fn global_pass_matches_uppercased_qualified_ids() {
    let frags = vec![frag("ns.cols", "NAME, EMAIL")];
    let r = replace_inc_between_xml("SELECT __INCLUDE_ID_NS.COLS_END__ FROM T;", &frags);
    assert_eq!(r, "SELECT NAME, EMAIL FROM T;");
}

#[test]
fn global_pass_leaves_unknown_references() {
    let frags = vec![frag("ns.cols", "NAME")];
    let r = replace_inc_between_xml("SELECT __INCLUDE_ID_NS.OTHER_END__ FROM T;", &frags);
    assert_eq!(r, "SELECT __INCLUDE_ID_NS.OTHER_END__ FROM T;");
}

#[test]
fn depth_equal_to_bound_resolves_but_a_smaller_bound_does_not() {
    let frags = vec![
        frag("c", "X"),
        frag("b", "__INCLUDE_ID_c_END__"),
        frag("a", "__INCLUDE_ID_b_END__"),
    ];
    let r2 = loop_replace_include_part("__INCLUDE_ID_a_END__", &frags, 2);
    assert!(r2.contains("__INCLUDE_ID_"));
    let r3 = loop_replace_include_part("__INCLUDE_ID_a_END__", &frags, 3);
    assert_eq!(r3, "X");
}
