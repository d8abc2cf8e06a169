use xbatis2sql::def::Fragment;
use xbatis2sql::dialect::DialectType;
use xbatis2sql::xbatis_parser::create_ibatis_parser;
use xbatis2sql::pipeline::{
    can_push_batch, can_spawn_worker, is_xml_file, merge_batches, merge_global_fragments,
    render_batch, upsert_global_fragment, writer_should_stop,
};

fn batch(lines: &[&str]) -> Vec<String> {
    lines.iter().map(|s| s.to_string()).collect()
}

#[test]
fn batches_stay_contiguous_in_arrival_order() {
    let a = batch(&["a1", "a2", "a3"]);
    let b = batch(&["b1", "b2", "b3"]);
    let merged = merge_batches(&vec![a, b]);
    assert_eq!(merged, batch(&["a1", "a2", "a3", "b1", "b2", "b3"]));
}

#[test]
fn merged_content_does_not_depend_on_batch_order() {
    let a = batch(&["a1", "a2", "a3"]);
    let b = batch(&["b1", "b2", "b3"]);
    let mut one = merge_batches(&vec![a.clone(), b.clone()]);
    let mut two = merge_batches(&vec![b, a]);
    assert_ne!(one, two);
    one.sort();
    two.sort();
    assert_eq!(one, two);
}

#[test]
fn empty_batches_contribute_nothing() {
    let merged = merge_batches(&vec![batch(&[]), batch(&["x"]), batch(&[])]);
    assert_eq!(merged, batch(&["x"]));
}

#[test]
fn render_batch_ends_every_line_and_separates_batches() {
    let r = render_batch(&batch(&["a", "b"]));
    assert_eq!(r, "a\nb\n\n");
}

#[test]
fn render_batch_of_nothing_is_empty() {
    let r = render_batch(&batch(&[]));
    assert_eq!(r, "");
}

#[test]
fn worker_cap_blocks_at_eight() {
    assert!(can_spawn_worker(0));
    assert!(can_spawn_worker(7));
    assert!(!can_spawn_worker(8));
    assert!(!can_spawn_worker(9));
}

#[test]
fn queue_cap_blocks_at_one_hundred() {
    assert!(can_push_batch(0));
    assert!(can_push_batch(99));
    assert!(!can_push_batch(100));
}

#[test]
fn writer_stops_only_inactive_and_drained() {
    assert!(writer_should_stop(false, true));
    assert!(!writer_should_stop(true, true));
    assert!(!writer_should_stop(false, false));
    assert!(!writer_should_stop(true, false));
}

#[test]
fn global_map_overwrites_colliding_ids() {
    let mut global: Vec<Fragment> = Vec::new();
    upsert_global_fragment(
        &mut global,
        &Fragment { id: "ns.a".to_string(), text: "OLD".to_string() },
    );
    upsert_global_fragment(
        &mut global,
        &Fragment { id: "ns.b".to_string(), text: "B".to_string() },
    );
    upsert_global_fragment(
        &mut global,
        &Fragment { id: "ns.a".to_string(), text: "NEW".to_string() },
    );
    assert_eq!(global.len(), 2);
    assert_eq!(global[0].id, "ns.a".to_string());
    assert_eq!(global[0].text, "NEW".to_string());
    assert_eq!(global[1].id, "ns.b".to_string());
}

#[test]
fn merging_a_file_registers_its_fragments_in_order() {
    let mut global: Vec<Fragment> = Vec::new();
    let frags = vec![
        Fragment { id: "x".to_string(), text: "1".to_string() },
        Fragment { id: "y".to_string(), text: "2".to_string() },
        Fragment { id: "x".to_string(), text: "3".to_string() },
    ];
    merge_global_fragments(&mut global, &frags);
    assert_eq!(global.len(), 2);
    assert_eq!(global[0].text, "3".to_string());
    assert_eq!(global[1].text, "2".to_string());
}

#[test]
fn only_xml_named_files_are_scanned() {
    assert!(is_xml_file("dir/map.xml"));
    assert!(is_xml_file("a.xml"));
    assert!(!is_xml_file("a.xmlx"));
    assert!(!is_xml_file("a.txt"));
    assert!(!is_xml_file("xml"));
}

#[test]
fn two_files_processed_together_stay_grouped() {
    let mut parser = create_ibatis_parser(DialectType::MySQL);
    parser.setup_replace_num(10);
    let a = "<!-- DTD SQL Map 2.0 --><sqlMap>\
<select id=\"a1\">SELECT 1</select>\
<select id=\"a2\">SELECT 2</select>\
<select id=\"a3\">SELECT 3</select></sqlMap>";
    let b = "<!-- DTD SQL Map 2.0 --><sqlMap>\
<select id=\"b1\">SELECT 4</select>\
<select id=\"b2\">SELECT 5</select>\
<select id=\"b3\">SELECT 6</select></sqlMap>";
    let (batch_a, _) = parser.parse(&"a.xml".to_string(), a).unwrap();
    let (batch_b, _) = parser.parse(&"b.xml".to_string(), b).unwrap();
    let merged = merge_batches(&vec![batch_a.clone(), batch_b.clone()]);
    assert_eq!(merged[..batch_a.len()], batch_a[..]);
    assert_eq!(merged[batch_a.len()..], batch_b[..]);
    let merged_rev = merge_batches(&vec![batch_b.clone(), batch_a.clone()]);
    assert_eq!(merged_rev[..batch_b.len()], batch_b[..]);
    assert_eq!(merged_rev[batch_b.len()..], batch_a[..]);
}
