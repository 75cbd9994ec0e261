use vstd::prelude::*;

use crate::FunctionKey;
use crate::aggregate::{Aggregator, lemma_agg_views, lemma_self_prefix, same_state};
use crate::errors::AnalysisError;
use crate::label::{qualified_label, resolvable, resolve_label};
use crate::service::{
    AnalysisHandle, MAX_FILE_ID, query_file_structure, query_implementations, query_incoming_calls,
    query_parse,
};
use crate::structure::{CallSite, ImplSite, NodeKind, StructureNode};

verus! {

/// Node `i` declares a function-like item.
pub open spec fn fn_node(tree: Seq<StructureNode>, i: int) -> bool {
    0 <= i < tree.len() && tree[i].kind == NodeKind::Function
}

/// The identity of the declaration at node `i` of the tree of `file_id`.
pub open spec fn node_key(file_id: u32, tree: Seq<StructureNode>, i: int) -> FunctionKey {
    FunctionKey { file_id, offset: tree[i].nav_start }
}

/// Node `i`'s structural parent is a trait-like container.
pub open spec fn parent_is_trait(tree: Seq<StructureNode>, i: int) -> bool {
    0 <= i < tree.len() && match tree[i].parent {
        Some(p) => p < tree.len() && tree[p as int].kind == NodeKind::Trait,
        None => false,
    }
}

/// `k` is the identity key of some function-like node of the tree.
pub open spec fn is_fn_key(file_id: u32, tree: Seq<StructureNode>, k: FunctionKey) -> bool {
    exists|i: int| fn_node(tree, i) && k == node_key(file_id, tree, i)
}

/// `k` is the identity key of some function-like node whose structural
/// parent is a trait-like container.
pub open spec fn is_trait_method_key(
    file_id: u32,
    tree: Seq<StructureNode>,
    k: FunctionKey,
) -> bool {
    exists|i: int| fn_node(tree, i) && parent_is_trait(tree, i) && k == node_key(file_id, tree, i)
}

/// No two function-like nodes of the tree share an identity key: the
/// service's invariant that no two declarations share a name offset.
pub open spec fn distinct_fn_keys(file_id: u32, tree: Seq<StructureNode>) -> bool {
    forall|a: int, b: int|
        #![trigger node_key(file_id, tree, a), node_key(file_id, tree, b)]
        fn_node(tree, a) && fn_node(tree, b) && a != b ==> node_key(file_id, tree, a) != node_key(
            file_id,
            tree,
            b,
        )
}

/// Every node's name offset lies within the file the handle holds: what
/// the structure query guarantees of the trees it hands out.
pub open spec fn tree_in_file(
    tree: Seq<StructureNode>,
    service: AnalysisHandle,
    file_id: u32,
) -> bool {
    forall|t: int| 0 <= t < tree.len() ==> (#[trigger] tree[t]).nav_start as nat <= service.len_of(
        file_id,
    )
}

/// Every reported call-expression range starts exactly at `offset`.
pub open spec fn all_ranges_at(starts: Seq<u32>, offset: u32) -> bool {
    forall|j: int| 0 <= j < starts.len() ==> starts[j] == offset
}

fn ranges_all_at(starts: &Vec<u32>, offset: u32) -> (r: bool)
    ensures
        r == all_ranges_at(starts@, offset),
{
    let n = starts.len();
    let mut j: usize = 0;
    while j < n
        invariant
            j <= n,
            n == starts@.len(),
            forall|a: int| 0 <= a < j ==> starts@[a] == offset,
        decreases n - j,
    {
        if starts[j] != offset {
            return false;
        }
        j = j + 1;
    }
    true
}

/// The caller edge a call site contributes, if any. A site without a
/// focus range is an input-shape violation. A site whose every reported
/// range starts exactly at the callee's own offset is suppressed: such a
/// "caller" is indistinguishable from the callee itself.
pub fn caller_of_site(site: &CallSite, callee_offset: u32) -> (r: Result<
    Option<FunctionKey>,
    AnalysisError,
>)
    ensures
        r is Err <==> site.target_focus is None,
        r is Err ==> r == Err::<Option<FunctionKey>, AnalysisError>(
            AnalysisError::MissingFocusRange,
        ),
        site.target_focus matches Some(f) ==> r == Ok::<Option<FunctionKey>, AnalysisError>(
            if all_ranges_at(site.range_starts@, callee_offset) {
                None
            } else {
                Some(FunctionKey { file_id: site.target_file, offset: f })
            },
        ),
{
    match site.target_focus {
        None => Err(AnalysisError::MissingFocusRange),
        Some(f) => {
            if ranges_all_at(&site.range_starts, callee_offset) {
                Ok(None)
            } else {
                Ok(Some(FunctionKey::new(site.target_file, f)))
            }
        },
    }
}

/// The implementing declaration an implementation location stands for; a
/// location without a focus range is an input-shape violation.
pub fn impl_target(site: &ImplSite) -> (r: Result<FunctionKey, AnalysisError>)
    ensures
        r is Err <==> site.focus is None,
        r is Err ==> r == Err::<FunctionKey, AnalysisError>(AnalysisError::MissingFocusRange),
        site.focus matches Some(f) ==> r == Ok::<FunctionKey, AnalysisError>(
            FunctionKey { file_id: site.file, offset: f },
        ),
{
    match site.focus {
        None => Err(AnalysisError::MissingFocusRange),
        Some(f) => Ok(FunctionKey::new(site.file, f)),
    }
}

/// Analyzes one function-like node: records its identity and label,
/// appends one caller per unsuppressed incoming call site, and, when its
/// structural parent is trait-like, one implementation per reported
/// location. The inconsistent-tree error comes exactly when the node's
/// parent chain is broken or cyclic; every other failure comes from a
/// query and is a query or focus-range error.
#[verifier::loop_isolation(false)]
pub fn process_function_node(
    agg: &mut Aggregator,
    file_id: u32,
    tree: &Vec<StructureNode>,
    i: usize,
    service: &AnalysisHandle,
) -> (r: Result<(), AnalysisError>)
    requires
        old(agg).wf(),
        file_id <= MAX_FILE_ID,
        service.knows(file_id),
        tree_in_file(tree@, *service, file_id),
        fn_node(tree@, i as int),
    ensures
        final(agg).wf(),
        forall|x: FunctionKey| old(agg).has_fun(x) ==> #[trigger] final(agg).has_fun(x),
        forall|x: FunctionKey|
            #[trigger] final(agg).has_fun(x) ==> old(agg).has_fun(x) || x == node_key(
                file_id,
                tree@,
                i as int,
            ),
        old(agg).calls@.is_prefix_of(final(agg).calls@),
        old(agg).impls@.is_prefix_of(final(agg).impls@),
        forall|j: int|
            #![trigger final(agg).calls@[j]]
            old(agg).calls@.len() <= j < final(agg).calls@.len() ==> final(agg).calls@[j].0
                == node_key(file_id, tree@, i as int),
        forall|j: int|
            #![trigger final(agg).impls@[j]]
            old(agg).impls@.len() <= j < final(agg).impls@.len() ==> final(agg).impls@[j].0
                == node_key(file_id, tree@, i as int) && parent_is_trait(tree@, i as int),
        forall|x: FunctionKey|
            x != node_key(file_id, tree@, i as int) ==> #[trigger] final(agg).fun_label(x) == old(
                agg,
            ).fun_label(x),
        final(agg).fun_label(node_key(file_id, tree@, i as int)) == old(agg).fun_label(
            node_key(file_id, tree@, i as int),
        ) || final(agg).fun_label(node_key(file_id, tree@, i as int)) is Some,
        r == Err::<(), AnalysisError>(AnalysisError::InconsistentTree) <==> !resolvable(
            tree@,
            i as int,
        ),
        r is Err ==> (r == Err::<(), AnalysisError>(AnalysisError::QueryError) || r == Err::<
            (),
            AnalysisError,
        >(AnalysisError::MissingFocusRange) || r == Err::<(), AnalysisError>(
            AnalysisError::InconsistentTree,
        )),
        r is Ok ==> final(agg).has_fun(node_key(file_id, tree@, i as int)),
        r is Ok ==> final(agg).fun_label(node_key(file_id, tree@, i as int)) == Some(
            qualified_label(tree@, i as int),
        ),
{
    let offset = tree[i].nav_start;
    let key = FunctionKey::new(file_id, offset);
    proof {
        assert(tree@[i as int].nav_start as nat <= service.len_of(file_id));
    }
    let label = match resolve_label(tree, i) {
        Ok(l) => l,
        Err(e) => {
            proof {
                lemma_self_prefix(agg.calls@);
                lemma_self_prefix(agg.impls@);
            }
            return Err(e);
        },
    };
    agg.record_function(key, label);
    let sites = match query_incoming_calls(service, file_id, offset) {
        Ok(Some(s)) => s,
        Ok(None) => {
            proof {
                lemma_self_prefix(agg.calls@);
                lemma_self_prefix(agg.impls@);
            }
            return Err(AnalysisError::QueryError);
        },
        Err(e) => {
            proof {
                lemma_self_prefix(agg.calls@);
                lemma_self_prefix(agg.impls@);
            }
            return Err(e);
        },
    };
    let ghost a1 = *agg;
    let n = sites.len();
    let mut j: usize = 0;
    while j < n
        invariant
            j <= n,
            agg.wf(),
            agg.all_functions@ == a1.all_functions@,
            agg.labels@ == a1.labels@,
            agg.impls@ == a1.impls@,
            a1.calls@.is_prefix_of(agg.calls@),
            forall|c: int|
                #![trigger agg.calls@[c]]
                a1.calls@.len() <= c < agg.calls@.len() ==> agg.calls@[c].0 == key,
        decreases n - j,
    {
        match caller_of_site(&sites[j], offset) {
            Err(e) => {
                proof {
                    lemma_agg_views(a1, *agg);
                    lemma_self_prefix(agg.impls@);
                }
                return Err(e);
            },
            Ok(None) => {},
            Ok(Some(caller)) => {
                let ghost before = agg.calls@;
                agg.record_call(key, caller);
                proof {
                    assert(before.is_prefix_of(agg.calls@)) by {
                        assert(agg.calls@.subrange(0, before.len() as int) =~= before);
                    }
                }
            },
        }
        j = j + 1;
    }
    let is_trait_method = match tree[i].parent {
        Some(p) => p < tree.len() && tree[p].kind == NodeKind::Trait,
        None => false,
    };
    if is_trait_method {
        proof {
            assert(parent_is_trait(tree@, i as int));
        }
        let impl_sites = match query_implementations(service, file_id, offset) {
            Ok(Some(s)) => s,
            Ok(None) => {
                proof {
                    lemma_agg_views(a1, *agg);
                    lemma_self_prefix(agg.impls@);
                }
                return Err(AnalysisError::QueryError);
            },
            Err(e) => {
                proof {
                    lemma_agg_views(a1, *agg);
                    lemma_self_prefix(agg.impls@);
                }
                return Err(e);
            },
        };
        let ghost a2 = *agg;
        let m = impl_sites.len();
        let mut j2: usize = 0;
        while j2 < m
            invariant
                j2 <= m,
                agg.wf(),
                agg.all_functions@ == a1.all_functions@,
                agg.labels@ == a1.labels@,
                agg.calls@ == a2.calls@,
                a2.impls@.is_prefix_of(agg.impls@),
                forall|c: int|
                    #![trigger agg.impls@[c]]
                    a2.impls@.len() <= c < agg.impls@.len() ==> agg.impls@[c].0 == key,
            decreases m - j2,
        {
            match impl_target(&impl_sites[j2]) {
                Err(e) => {
                    proof {
                        lemma_agg_views(a1, *agg);
                    }
                    return Err(e);
                },
                Ok(t) => {
                    let ghost before = agg.impls@;
                    agg.record_impl(key, t);
                    proof {
                        assert(before.is_prefix_of(agg.impls@)) by {
                            assert(agg.impls@.subrange(0, before.len() as int) =~= before);
                        }
                    }
                },
            }
            j2 = j2 + 1;
        }
    } else {
        proof {
            lemma_self_prefix(agg.impls@);
        }
    }
    proof {
        lemma_agg_views(a1, *agg);
        assert(a1.has_fun(key));
    }
    Ok(())
}

/// One analyzed node carries the per-file aggregate facts one step: what
/// held of the state before the node still holds of the state after it.
proof fn lemma_structure_step(
    o: Aggregator,
    before: Aggregator,
    cur: Aggregator,
    file_id: u32,
    tree: Seq<StructureNode>,
    idx: int,
)
    requires
        fn_node(tree, idx),
        forall|x: FunctionKey|
            #[trigger] before.has_fun(x) ==> o.has_fun(x) || exists|i: int|
                fn_node(tree, i) && x == node_key(file_id, tree, i),
        forall|x: FunctionKey|
            o.fun_label(x) is Some ==> #[trigger] before.fun_label(x) is Some,
        forall|x: FunctionKey|
            #[trigger] cur.has_fun(x) ==> before.has_fun(x) || x == node_key(file_id, tree, idx),
        forall|x: FunctionKey|
            x != node_key(file_id, tree, idx) ==> #[trigger] cur.fun_label(x) == before.fun_label(
                x,
            ),
        cur.fun_label(node_key(file_id, tree, idx)) == before.fun_label(
            node_key(file_id, tree, idx),
        ) || cur.fun_label(node_key(file_id, tree, idx)) is Some,
        before.calls@.is_prefix_of(cur.calls@),
        before.impls@.is_prefix_of(cur.impls@),
        forall|j: int|
            #![trigger before.calls@[j]]
            o.calls@.len() <= j < before.calls@.len() ==> is_fn_key(
                file_id,
                tree,
                before.calls@[j].0,
            ),
        forall|j: int|
            #![trigger before.impls@[j]]
            o.impls@.len() <= j < before.impls@.len() ==> is_trait_method_key(
                file_id,
                tree,
                before.impls@[j].0,
            ),
        forall|j: int|
            #![trigger cur.calls@[j]]
            before.calls@.len() <= j < cur.calls@.len() ==> cur.calls@[j].0 == node_key(
                file_id,
                tree,
                idx,
            ),
        forall|j: int|
            #![trigger cur.impls@[j]]
            before.impls@.len() <= j < cur.impls@.len() ==> cur.impls@[j].0 == node_key(
                file_id,
                tree,
                idx,
            ) && parent_is_trait(tree, idx),
        o.calls@.len() <= before.calls@.len(),
        o.impls@.len() <= before.impls@.len(),
    ensures
        forall|x: FunctionKey|
            #[trigger] cur.has_fun(x) ==> o.has_fun(x) || exists|i: int|
                fn_node(tree, i) && x == node_key(file_id, tree, i),
        forall|x: FunctionKey| o.fun_label(x) is Some ==> #[trigger] cur.fun_label(x) is Some,
        forall|j: int|
            #![trigger cur.calls@[j]]
            o.calls@.len() <= j < cur.calls@.len() ==> is_fn_key(file_id, tree, cur.calls@[j].0),
        forall|j: int|
            #![trigger cur.impls@[j]]
            o.impls@.len() <= j < cur.impls@.len() ==> is_trait_method_key(
                file_id,
                tree,
                cur.impls@[j].0,
            ),
{
    let k = node_key(file_id, tree, idx);
    assert forall|x: FunctionKey| #[trigger] cur.has_fun(x) implies o.has_fun(x) || exists|i: int|
        fn_node(tree, i) && x == node_key(file_id, tree, i) by {
        if !o.has_fun(x) {
            if before.has_fun(x) {
            } else {
                assert(x == k);
                assert(fn_node(tree, idx) && x == node_key(file_id, tree, idx));
            }
        }
    }
    assert forall|x: FunctionKey| o.fun_label(x) is Some implies #[trigger] cur.fun_label(
        x,
    ) is Some by {
        assert(before.fun_label(x) is Some);
        if x != k {
            assert(cur.fun_label(x) == before.fun_label(x));
        }
    }
    assert forall|j: int| o.calls@.len() <= j < cur.calls@.len() implies is_fn_key(
        file_id,
        tree,
        (#[trigger] cur.calls@[j]).0,
    ) by {
        if j < before.calls@.len() {
            assert(before.calls@ =~= cur.calls@.subrange(0, before.calls@.len() as int));
            assert(before.calls@[j] == cur.calls@[j]);
        } else {
            assert(cur.calls@[j].0 == k);
            assert(fn_node(tree, idx) && cur.calls@[j].0 == node_key(file_id, tree, idx));
        }
    }
    assert forall|j: int| o.impls@.len() <= j < cur.impls@.len() implies is_trait_method_key(
        file_id,
        tree,
        (#[trigger] cur.impls@[j]).0,
    ) by {
        if j < before.impls@.len() {
            assert(before.impls@ =~= cur.impls@.subrange(0, before.impls@.len() as int));
            assert(before.impls@[j] == cur.impls@[j]);
        } else {
            assert(cur.impls@[j].0 == k && parent_is_trait(tree, idx));
            assert(fn_node(tree, idx) && parent_is_trait(tree, idx) && cur.impls@[j].0
                == node_key(file_id, tree, idx));
        }
    }
}

/// Analyzes every function-like declaration of one file's tree, feeding
/// the shared aggregate state. Fails fast: the first fatal condition
/// aborts the pass with nothing further recorded. Every appended call
/// pair is keyed by a function node's key; every appended implementation
/// pair is keyed by a trait-parented node's key. A tree without
/// function-like nodes succeeds and changes nothing.
#[verifier::loop_isolation(false)]
pub fn process_structure(
    agg: &mut Aggregator,
    file_id: u32,
    tree: &Vec<StructureNode>,
    service: &AnalysisHandle,
) -> (r: Result<(), AnalysisError>)
    requires
        old(agg).wf(),
        file_id <= MAX_FILE_ID,
        service.knows(file_id),
        tree_in_file(tree@, *service, file_id),
    ensures
        final(agg).wf(),
        forall|x: FunctionKey| old(agg).has_fun(x) ==> #[trigger] final(agg).has_fun(x),
        forall|x: FunctionKey|
            #[trigger] final(agg).has_fun(x) ==> old(agg).has_fun(x) || exists|i: int|
                fn_node(tree@, i) && x == node_key(file_id, tree@, i),
        old(agg).calls@.is_prefix_of(final(agg).calls@),
        old(agg).impls@.is_prefix_of(final(agg).impls@),
        forall|x: FunctionKey|
            old(agg).fun_label(x) is Some ==> #[trigger] final(agg).fun_label(x) is Some,
        forall|j: int|
            #![trigger final(agg).calls@[j]]
            old(agg).calls@.len() <= j < final(agg).calls@.len() ==> is_fn_key(
                file_id,
                tree@,
                final(agg).calls@[j].0,
            ),
        forall|j: int|
            #![trigger final(agg).impls@[j]]
            old(agg).impls@.len() <= j < final(agg).impls@.len() ==> is_trait_method_key(
                file_id,
                tree@,
                final(agg).impls@[j].0,
            ),
        r is Err ==> (r == Err::<(), AnalysisError>(AnalysisError::QueryError) || r == Err::<
            (),
            AnalysisError,
        >(AnalysisError::MissingFocusRange) || r == Err::<(), AnalysisError>(
            AnalysisError::InconsistentTree,
        )),
        r == Err::<(), AnalysisError>(AnalysisError::InconsistentTree) ==> exists|i: int|
            fn_node(tree@, i) && !resolvable(tree@, i),
        forall|i: int|
            #![trigger fn_node(tree@, i)]
            fn_node(tree@, i) && !resolvable(tree@, i) && (forall|j: int|
                0 <= j < i ==> !fn_node(tree@, j)) ==> r == Err::<(), AnalysisError>(
                AnalysisError::InconsistentTree,
            ),
        (forall|i: int| 0 <= i < tree@.len() ==> !fn_node(tree@, i)) ==> (r is Ok && same_state(
            *final(agg),
            *old(agg),
        )),
        r is Ok ==> forall|i: int|
            #[trigger] fn_node(tree@, i) ==> resolvable(tree@, i) && final(agg).has_fun(
                node_key(file_id, tree@, i),
            ),
        r is Ok && distinct_fn_keys(file_id, tree@) ==> forall|i: int|
            #[trigger] fn_node(tree@, i) ==> final(agg).fun_label(node_key(file_id, tree@, i))
                == Some(qualified_label(tree@, i)),
{
    let n = tree.len();
    let mut idx: usize = 0;
    while idx < n
        invariant
            idx <= n,
            agg.wf(),
            forall|x: FunctionKey| old(agg).has_fun(x) ==> #[trigger] agg.has_fun(x),
            forall|x: FunctionKey|
                #[trigger] agg.has_fun(x) ==> old(agg).has_fun(x) || exists|i: int|
                    fn_node(tree@, i) && x == node_key(file_id, tree@, i),
            old(agg).calls@.is_prefix_of(agg.calls@),
            old(agg).impls@.is_prefix_of(agg.impls@),
            forall|x: FunctionKey|
                old(agg).fun_label(x) is Some ==> #[trigger] agg.fun_label(x) is Some,
            forall|j: int|
                #![trigger agg.calls@[j]]
                old(agg).calls@.len() <= j < agg.calls@.len() ==> is_fn_key(
                    file_id,
                    tree@,
                    agg.calls@[j].0,
                ),
            forall|j: int|
                #![trigger agg.impls@[j]]
                old(agg).impls@.len() <= j < agg.impls@.len() ==> is_trait_method_key(
                    file_id,
                    tree@,
                    agg.impls@[j].0,
                ),
            (forall|t: int| 0 <= t < tree@.len() ==> !fn_node(tree@, t)) ==> same_state(
                *agg,
                *old(agg),
            ),
            forall|i: int|
                0 <= i < idx && #[trigger] fn_node(tree@, i) ==> resolvable(tree@, i)
                    && agg.has_fun(node_key(file_id, tree@, i)),
            distinct_fn_keys(file_id, tree@) ==> forall|i: int|
                0 <= i < idx && #[trigger] fn_node(tree@, i) ==> agg.fun_label(
                    node_key(file_id, tree@, i),
                ) == Some(qualified_label(tree@, i)),
        decreases n - idx,
    {
        if matches!(tree[idx].kind, NodeKind::Function) {
            let ghost before = *agg;
            match process_function_node(agg, file_id, tree, idx, service) {
                Ok(()) => {},
                Err(e) => {
                    proof {
                        lemma_structure_step(
                            *old(agg),
                            before,
                            *agg,
                            file_id,
                            tree@,
                            idx as int,
                        );
                        if e == AnalysisError::InconsistentTree {
                            assert(!resolvable(tree@, idx as int));
                            assert(fn_node(tree@, idx as int) && !resolvable(tree@, idx as int));
                        }
                        assert forall|i: int|
                            fn_node(tree@, i) && !resolvable(tree@, i) && (forall|j: int|
                                0 <= j < i ==> !fn_node(tree@, j)) implies e
                            == AnalysisError::InconsistentTree by {
                            if i < idx as int {
                                assert(resolvable(tree@, i));
                            } else if i > idx as int {
                                assert(!fn_node(tree@, idx as int));
                            } else {
                                assert(!resolvable(tree@, idx as int));
                            }
                        }
                    }
                    return Err(e);
                },
            }
            proof {
                lemma_structure_step(*old(agg), before, *agg, file_id, tree@, idx as int);
                if distinct_fn_keys(file_id, tree@) {
                    assert forall|i: int|
                        0 <= i < idx + 1 && #[trigger] fn_node(tree@, i) implies agg.fun_label(
                        node_key(file_id, tree@, i),
                    ) == Some(qualified_label(tree@, i)) by {
                        if i != idx as int {
                            assert(fn_node(tree@, idx as int));
                            assert(before.fun_label(node_key(file_id, tree@, i)) == Some(
                                qualified_label(tree@, i),
                            ));
                            assert(node_key(file_id, tree@, i) != node_key(
                                file_id,
                                tree@,
                                idx as int,
                            ));
                            assert(agg.fun_label(node_key(file_id, tree@, i)) == before.fun_label(
                                node_key(file_id, tree@, i),
                            ));
                        }
                    }
                }
                assert(old(agg).calls@.is_prefix_of(agg.calls@)) by {
                    assert(agg.calls@.subrange(0, old(agg).calls@.len() as int) =~= old(
                        agg,
                    ).calls@);
                }
                assert(old(agg).impls@.is_prefix_of(agg.impls@)) by {
                    assert(agg.impls@.subrange(0, old(agg).impls@.len() as int) =~= old(
                        agg,
                    ).impls@);
                }
                if forall|t: int| 0 <= t < tree@.len() ==> !fn_node(tree@, t) {
                    assert(!fn_node(tree@, idx as int));
                    assert(false);
                }
            }
        }
        idx = idx + 1;
    }
    Ok(())
}

/// Builds the call and implementation relations contributed by one file:
/// parses it, walks its declaration tree, and feeds the aggregate state.
/// Any fatal condition aborts the whole run; no partial recovery is
/// attempted, and a parse failure comes before any mutation, leaving the
/// aggregate state exactly as it was.
pub fn analyze_file(agg: &mut Aggregator, file_id: u32, service: &AnalysisHandle) -> (r: Result<
    (),
    AnalysisError,
>)
    requires
        old(agg).wf(),
        file_id <= MAX_FILE_ID,
        service.knows(file_id),
    ensures
        final(agg).wf(),
        forall|x: FunctionKey| old(agg).has_fun(x) ==> #[trigger] final(agg).has_fun(x),
        old(agg).calls@.is_prefix_of(final(agg).calls@),
        old(agg).impls@.is_prefix_of(final(agg).impls@),
        forall|x: FunctionKey|
            old(agg).fun_label(x) is Some ==> #[trigger] final(agg).fun_label(x) is Some,
        r == Err::<(), AnalysisError>(AnalysisError::ParseError) ==> same_state(
            *final(agg),
            *old(agg),
        ),
{
    proof {
        assert(old(agg).calls@.is_prefix_of(old(agg).calls@)) by {
            assert(old(agg).calls@.subrange(0, old(agg).calls@.len() as int) =~= old(agg).calls@);
        }
        assert(old(agg).impls@.is_prefix_of(old(agg).impls@)) by {
            assert(old(agg).impls@.subrange(0, old(agg).impls@.len() as int) =~= old(agg).impls@);
        }
    }
    match query_parse(service, file_id) {
        Ok(()) => {},
        Err(e) => { return Err(e) },
    }
    let tree = match query_file_structure(service, file_id) {
        Ok(t) => t,
        Err(e) => { return Err(e) },
    };
    process_structure(agg, file_id, &tree, service)
}

} // verus!
