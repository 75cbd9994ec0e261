use callgraph::aggregate::Aggregator;
use callgraph::analyze::analyze_file;
use callgraph::render::{is_closed, render_graph};
use callgraph::service::analysis_of_single_file;

fn run_on_source(src: &str) -> String {
    let (service, file_id) = analysis_of_single_file(src.to_owned());
    let mut agg = Aggregator::new();
    assert!(file_id <= 0x7fff_ffff);
    analyze_file(&mut agg, file_id, &service).expect("analysis failed");
    assert!(is_closed(&agg));
    render_graph(&agg)
}

#[test]
fn empty_file_renders_empty_graph() {
    let out = run_on_source("");
    assert_eq!(out, "digraph example {\n}\n");
}

#[test]
fn file_without_functions_renders_empty_graph() {
    let out = run_on_source("struct S;\nenum E { A, B }\n");
    assert_eq!(out, "digraph example {\n}\n");
}

#[test]
fn trait_impl_and_call_render_three_nodes_and_two_edges() {
    let src = "trait T { fn m(); }\nstruct S;\nimpl T for S { fn m() { helper(); } }\nfn helper() {}\n";
    let out = run_on_source(src);
    let lines: Vec<&str> = out.lines().collect();
    assert_eq!(lines.first(), Some(&"digraph example {"));
    assert_eq!(lines.last(), Some(&"}"));

    let node_id = |label: &str| -> String {
        let needle = format!("[label=\"{}\"]", label);
        let line = lines
            .iter()
            .find(|l| l.ends_with(&needle) && !l.contains("->"))
            .unwrap_or_else(|| panic!("no node line for {}: {}", label, out));
        line[..line.len() - needle.len()].to_owned()
    };
    let trait_m = node_id("T::m");
    let impl_m = node_id("impl T for S::m");
    let helper = node_id("helper");
    assert_ne!(trait_m, impl_m);
    assert_ne!(trait_m, helper);
    assert_ne!(impl_m, helper);

    // the call edge runs from the callee's id to the caller's id
    let call_edge = format!("{} -> {}[label=\"\"]", helper, impl_m);
    assert!(lines.contains(&call_edge.as_str()), "missing call edge {} in {}", call_edge, out);

    // the implementation edge is styled apart
    let impl_edge = format!(
        "{} -> {}[label=\"\", arrowhead=\"diamond\", style=\"dashed\", color=\"deeppink1\"]",
        trait_m, impl_m
    );
    assert!(lines.contains(&impl_edge.as_str()), "missing impl edge {} in {}", impl_edge, out);

    // three nodes, one call edge, one implementation edge, two braces
    assert_eq!(lines.len(), 7, "unexpected statements: {}", out);
}

#[test]
fn inherent_methods_contribute_no_impl_edges() {
    let src = "struct S;\nimpl S { fn m(&self) { helper(); } }\nfn helper() {}\n";
    let out = run_on_source(src);
    assert!(!out.contains("arrowhead"), "no implementation edge expected: {}", out);
    assert!(out.contains(" -> "), "the call edge should still appear: {}", out);
}

#[test]
fn test_module_functions_are_filtered_out() {
    let src = "mod test { pub fn helper() {} }\nfn used() { test::helper(); }\n";
    let out = run_on_source(src);
    assert!(!out.contains("test::helper"), "blacklisted node rendered: {}", out);
    assert!(out.contains("[label=\"used\"]"), "missing node for used: {}", out);
    assert!(!out.contains("->"), "no edge may touch a blacklisted function: {}", out);
}
