use callgraph::FunctionKey;
use callgraph::aggregate::Aggregator;
use callgraph::analyze::{caller_of_site, impl_target};
use callgraph::errors::AnalysisError;
use callgraph::filter::{compute_blacklist, label_is_test};
use callgraph::label::resolve_label;
use callgraph::render::{dec_string, is_closed, render_graph};
use callgraph::structure::{CallSite, ImplSite, NodeKind, StructureNode};

fn node(label: &str, kind: NodeKind, parent: Option<usize>, nav_start: u32) -> StructureNode {
    StructureNode { label: label.to_owned(), kind, parent, nav_start }
}

#[test]
fn key_identity_by_file_and_offset() {
    let a = FunctionKey::new(1, 2);
    let b = FunctionKey::new(1, 2);
    let c = FunctionKey::new(1, 3);
    let d = FunctionKey::new(2, 2);
    assert!(a.same(&b));
    assert!(!a.same(&c));
    assert!(!a.same(&d));
    assert_eq!(a, b);
    assert_ne!(a, c);
}

#[test]
fn label_of_nested_declaration() {
    let tree = vec![
        node("m", NodeKind::Other, None, 0),
        node("T", NodeKind::Trait, Some(0), 8),
        node("f", NodeKind::Function, Some(1), 20),
    ];
    let l = resolve_label(&tree, 2).unwrap();
    assert_eq!(l, "m::T::f");
}

#[test]
fn label_resolution_is_deterministic() {
    let tree = vec![
        node("outer", NodeKind::Other, None, 0),
        node("inner", NodeKind::Function, Some(0), 12),
    ];
    let first = resolve_label(&tree, 1).unwrap();
    let second = resolve_label(&tree, 1).unwrap();
    assert_eq!(first, second);
    assert_eq!(first, "outer::inner");
}

#[test]
fn root_label_has_no_separator() {
    let tree = vec![node("helper", NodeKind::Function, None, 4)];
    assert_eq!(resolve_label(&tree, 0).unwrap(), "helper");
}

#[test]
fn parent_cycle_is_a_fatal_error() {
    let tree = vec![
        node("a", NodeKind::Function, Some(1), 0),
        node("b", NodeKind::Other, Some(0), 5),
    ];
    assert_eq!(resolve_label(&tree, 0), Err(AnalysisError::InconsistentTree));
}

#[test]
fn dangling_parent_is_a_fatal_error() {
    let tree = vec![node("a", NodeKind::Function, Some(7), 0)];
    assert_eq!(resolve_label(&tree, 0), Err(AnalysisError::InconsistentTree));
}

#[test]
fn self_call_sites_are_suppressed() {
    let site = CallSite { target_file: 0, target_focus: Some(5), range_starts: vec![5, 5] };
    assert_eq!(caller_of_site(&site, 5), Ok(None));
}

#[test]
fn distinct_range_start_keeps_the_caller() {
    let site = CallSite { target_file: 3, target_focus: Some(40), range_starts: vec![5, 17] };
    assert_eq!(caller_of_site(&site, 5), Ok(Some(FunctionKey::new(3, 40))));
}

#[test]
fn empty_range_list_is_suppressed() {
    let site = CallSite { target_file: 0, target_focus: Some(9), range_starts: vec![] };
    assert_eq!(caller_of_site(&site, 1), Ok(None));
}

#[test]
fn missing_focus_range_is_an_error() {
    let site = CallSite { target_file: 0, target_focus: None, range_starts: vec![7] };
    assert_eq!(caller_of_site(&site, 1), Err(AnalysisError::MissingFocusRange));
    let imp = ImplSite { file: 2, focus: None };
    assert_eq!(impl_target(&imp), Err(AnalysisError::MissingFocusRange));
    let imp_ok = ImplSite { file: 2, focus: Some(11) };
    assert_eq!(impl_target(&imp_ok), Ok(FunctionKey::new(2, 11)));
}

#[test]
fn test_prefix_detection() {
    assert!(label_is_test("test::helper"));
    assert!(label_is_test("test::"));
    assert!(!label_is_test("test:"));
    assert!(!label_is_test("tests::helper"));
    assert!(!label_is_test("t"));
    assert!(!label_is_test(""));
    assert!(!label_is_test("atest::x"));
}

#[test]
fn id_string_joins_file_and_offset() {
    assert_eq!(FunctionKey::new(3, 17).id_string(), "3:17");
    assert_eq!(FunctionKey::new(0, 0).id_string(), "0:0");
}

#[test]
fn decimal_rendering() {
    assert_eq!(dec_string(0), "0");
    assert_eq!(dec_string(7), "7");
    assert_eq!(dec_string(10), "10");
    assert_eq!(dec_string(90210), "90210");
}

#[test]
fn render_nodes_and_call_edge() {
    let mut agg = Aggregator::new();
    let k1 = FunctionKey::new(0, 10);
    let k2 = FunctionKey::new(0, 50);
    agg.record_function(k1, "alpha".to_owned());
    agg.record_function(k2, "beta".to_owned());
    agg.record_call(k1, k2);
    assert!(is_closed(&agg));
    let out = render_graph(&agg);
    assert_eq!(
        out,
        "digraph example {\n0[label=\"alpha\"]\n1[label=\"beta\"]\n0 -> 1[label=\"\"]\n}\n"
    );
}

#[test]
fn render_impl_edge_style() {
    let mut agg = Aggregator::new();
    let tm = FunctionKey::new(0, 1);
    let im = FunctionKey::new(0, 2);
    agg.record_function(tm, "T::m".to_owned());
    agg.record_function(im, "impl T for S::m".to_owned());
    agg.record_impl(tm, im);
    let out = render_graph(&agg);
    assert_eq!(
        out,
        "digraph example {\n0[label=\"T::m\"]\n1[label=\"impl T for S::m\"]\n0 -> 1[label=\"\", arrowhead=\"diamond\", style=\"dashed\", color=\"deeppink1\"]\n}\n"
    );
}

#[test]
fn blacklisted_function_emits_no_node_and_no_edges() {
    let mut agg = Aggregator::new();
    let t = FunctionKey::new(0, 3);
    let m = FunctionKey::new(0, 9);
    agg.record_function(t, "test::helper".to_owned());
    agg.record_function(m, "main_logic".to_owned());
    agg.record_call(m, t);
    agg.record_call(t, m);
    agg.record_impl(t, m);
    let bl = compute_blacklist(&agg);
    assert_eq!(bl, vec![t]);
    let out = render_graph(&agg);
    assert_eq!(out, "digraph example {\n1[label=\"main_logic\"]\n}\n");
}

#[test]
fn duplicate_call_pairs_are_preserved() {
    let mut agg = Aggregator::new();
    let k1 = FunctionKey::new(0, 10);
    let k2 = FunctionKey::new(0, 50);
    agg.record_function(k1, "a".to_owned());
    agg.record_function(k2, "b".to_owned());
    agg.record_call(k1, k2);
    agg.record_call(k1, k2);
    let out = render_graph(&agg);
    assert_eq!(
        out,
        "digraph example {\n0[label=\"a\"]\n1[label=\"b\"]\n0 -> 1[label=\"\"]\n0 -> 1[label=\"\"]\n}\n"
    );
}

#[test]
fn relabeling_overwrites() {
    let mut agg = Aggregator::new();
    let k = FunctionKey::new(4, 4);
    agg.record_function(k, "first".to_owned());
    agg.record_function(k, "second".to_owned());
    let out = render_graph(&agg);
    assert_eq!(out, "digraph example {\n0[label=\"second\"]\n}\n");
}

#[test]
fn unobserved_endpoint_is_not_closed() {
    let mut agg = Aggregator::new();
    let k = FunctionKey::new(0, 0);
    let stranger = FunctionKey::new(9, 9);
    agg.record_function(k, "known".to_owned());
    agg.record_call(k, stranger);
    assert!(!is_closed(&agg));
}

#[test]
fn error_messages_name_the_condition() {
    assert_eq!(AnalysisError::ParseError.message(), "file cannot be parsed or analyzed");
    assert_eq!(AnalysisError::QueryError.message(), "analysis query returned no answer");
    assert_eq!(AnalysisError::MissingFocusRange.message(), "location lacks a focus range");
    assert_eq!(AnalysisError::InconsistentTree.message(), "declaration tree has a broken or cyclic parent chain");
}
