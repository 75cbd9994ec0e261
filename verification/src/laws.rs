use vstd::prelude::*;

use crate::FunctionKey;
use crate::aggregate::Aggregator;
use crate::filter::blacklisted;
use crate::label::{qualified_label, resolvable};
use crate::render::{calls_text, impls_text, nodes_text, render_spec};
use crate::structure::StructureNode;

verus! {

/// Law: two declarations are the same entity exactly when file and
/// offset agree; nothing else takes part in key equality.
pub proof fn lemma_identity_stability(a: FunctionKey, b: FunctionKey)
    ensures
        (a == b) <==> (a.file_id == b.file_id && a.offset == b.offset),
{
}

/// Law: label resolution is deterministic. The qualified label of a node
/// is a function of the tree and the node alone, so any two strings
/// resolved from the same node of the same tree are equal.
pub proof fn lemma_label_determinism(tree: Seq<StructureNode>, i: int, s1: Seq<char>, s2: Seq<char>)
    requires
        resolvable(tree, i),
        s1 == qualified_label(tree, i),
        s2 == qualified_label(tree, i),
    ensures
        s1 == s2,
{
}

/// Law: a blacklisted function emits no node statement: its position in
/// the function list contributes nothing to the node text.
pub proof fn lemma_blacklist_no_node(agg: Aggregator, i: int)
    requires
        0 <= i < agg.all_functions@.len(),
        blacklisted(agg, agg.all_functions@[i]),
    ensures
        nodes_text(agg, i) == nodes_text(agg, i + 1),
{
}

/// Law: a call pair with a blacklisted endpoint emits no edge statement,
/// whichever end the blacklisted function is.
pub proof fn lemma_blacklist_no_call_edge(agg: Aggregator, j: int)
    requires
        0 <= j < agg.calls@.len(),
        blacklisted(agg, agg.calls@[j].0) || blacklisted(agg, agg.calls@[j].1),
    ensures
        calls_text(agg, j) == calls_text(agg, j + 1),
{
}

/// Law: an aggregate holding no functions and no pairs renders as the
/// empty named graph block, with no node and no edge statements.
pub proof fn lemma_empty_graph(agg: Aggregator)
    requires
        agg.all_functions@.len() == 0,
        agg.calls@.len() == 0,
        agg.impls@.len() == 0,
    ensures
        render_spec(agg) == "digraph example {\n"@ + "}\n"@,
{
    assert(nodes_text(agg, 0) == Seq::<char>::empty());
    assert(calls_text(agg, 0) == Seq::<char>::empty());
    assert(impls_text(agg, 0) == Seq::<char>::empty());
    assert(render_spec(agg) =~= "digraph example {\n"@ + "}\n"@);
}

/// Law: an implementation pair with a blacklisted endpoint emits no edge
/// statement either.
pub proof fn lemma_blacklist_no_impl_edge(agg: Aggregator, j: int)
    requires
        0 <= j < agg.impls@.len(),
        blacklisted(agg, agg.impls@[j].0) || blacklisted(agg, agg.impls@[j].1),
    ensures
        impls_text(agg, j) == impls_text(agg, j + 1),
{
}

} // verus!
