use vstd::prelude::*;
use vstd::string::StringExecFns;

use crate::errors::AnalysisError;
use crate::structure::StructureNode;

verus! {

/// The chain of unqualified labels collected by walking parent links from
/// node `i`, innermost first, within at most `fuel` steps. `None` stands
/// for a walk that leaves the tree or does not reach a root within `fuel`
/// steps; with `fuel == tree.len()` the latter happens exactly when the
/// walk revisits a node, since a repetition-free chain cannot be longer
/// than the tree.
pub open spec fn chain_views(tree: Seq<StructureNode>, i: int, fuel: nat) -> Option<Seq<Seq<char>>>
    decreases fuel,
{
    if fuel == 0 || !(0 <= i < tree.len()) {
        None
    } else {
        match tree[i].parent {
            None => Some(seq![tree[i].label@]),
            Some(p) => match chain_views(tree, p as int, (fuel - 1) as nat) {
                None => None,
                Some(rest) => Some(seq![tree[i].label@] + rest),
            },
        }
    }
}

/// The parent chain of node `i` reaches a root without revisiting a node.
pub open spec fn resolvable(tree: Seq<StructureNode>, i: int) -> bool {
    chain_views(tree, i, tree.len() as nat) is Some
}

/// Joins a chain of labels, innermost first, into the qualified path:
/// outermost container first, parts separated by `::`.
pub open spec fn join_rev(parts: Seq<Seq<char>>) -> Seq<char>
    decreases parts.len(),
{
    if parts.len() == 0 {
        Seq::empty()
    } else if parts.len() == 1 {
        parts[0]
    } else {
        join_rev(parts.drop_first()) + "::"@ + parts[0]
    }
}

/// The fully qualified label of node `i`: every enclosing container's
/// label, outermost first, joined with `::`.
pub open spec fn qualified_label(tree: Seq<StructureNode>, i: int) -> Seq<char>
    recommends
        resolvable(tree, i),
{
    join_rev(chain_views(tree, i, tree.len() as nat).unwrap())
}

/// The label views of a chain of owned label parts.
pub open spec fn part_views(parts: Seq<String>) -> Seq<Seq<char>> {
    parts.map_values(|s: String| s@)
}

/// `Some` chain extended on the left by already-collected parts; `None`
/// stays `None`.
pub open spec fn opt_prepend(prefix: Seq<Seq<char>>, rest: Option<Seq<Seq<char>>>) -> Option<
    Seq<Seq<char>>,
> {
    match rest {
        None => None,
        Some(s) => Some(prefix + s),
    }
}

/// Joins collected label parts, innermost first, with `::`, outermost
/// first in the result.
fn join_parts(parts: &Vec<String>) -> (r: String)
    requires
        parts@.len() >= 1,
    ensures
        r@ == join_rev(part_views(parts@)),
{
    let n = parts.len();
    let mut s: String = parts[n - 1].clone();
    let mut j: usize = n - 1;
    assert(part_views(parts@).subrange(j as int, n as int) =~= seq![parts@[j as int]@]);
    while j > 0
        invariant
            0 <= j < n,
            n == parts@.len(),
            s@ == join_rev(part_views(parts@).subrange(j as int, n as int)),
        decreases j,
    {
        j = j - 1;
        s.append("::");
        s.append(parts[j].as_str());
        proof {
            let vs = part_views(parts@);
            let sub = vs.subrange(j as int, n as int);
            assert(sub.drop_first() =~= vs.subrange(j + 1, n as int));
            assert(sub[0] == parts@[j as int]@);
        }
    }
    proof {
        assert(part_views(parts@).subrange(0, n as int) =~= part_views(parts@));
    }
    s
}

/// Resolves the qualified label of node `i` by walking parent links.
/// Succeeds exactly when the parent chain reaches a root without leaving
/// the tree or revisiting a node; a cyclic or dangling chain is reported
/// as an explicit fatal inconsistency, never looped on.
pub fn resolve_label(tree: &Vec<StructureNode>, i: usize) -> (r: Result<String, AnalysisError>)
    requires
        i < tree@.len(),
    ensures
        r is Ok <==> resolvable(tree@, i as int),
        r matches Ok(s) ==> s@ == qualified_label(tree@, i as int),
        r is Err ==> r == Err::<String, AnalysisError>(AnalysisError::InconsistentTree),
{
    let ghost t = tree@;
    let ghost full_fuel = tree@.len() as nat;
    let mut parts: Vec<String> = Vec::new();
    let mut cur: usize = i;
    let mut fuel: usize = tree.len();
    loop
        invariant
            cur < t.len(),
            fuel <= t.len(),
            t == tree@,
            full_fuel == t.len() as nat,
            (i as int) < t.len(),
            chain_views(t, i as int, full_fuel) == opt_prepend(
                part_views(parts@),
                chain_views(t, cur as int, fuel as nat),
            ),
        decreases fuel,
    {
        if fuel == 0 {
            proof {
                assert(chain_views(t, cur as int, 0) is None);
            }
            return Err(AnalysisError::InconsistentTree);
        }
        let ghost parts_before = parts@;
        parts.push(tree[cur].label.clone());
        proof {
            assert(part_views(parts@) =~= part_views(parts_before).push(t[cur as int].label@));
        }
        match tree[cur].parent {
            None => {
                proof {
                    assert(chain_views(t, cur as int, fuel as nat) == Some(
                        seq![t[cur as int].label@],
                    ));
                    assert(part_views(parts_before) + seq![t[cur as int].label@] =~= part_views(
                        parts@,
                    ));
                }
                let s = join_parts(&parts);
                return Ok(s);
            },
            Some(p) => {
                if p >= tree.len() {
                    proof {
                        assert(chain_views(t, p as int, (fuel - 1) as nat) is None);
                        assert(chain_views(t, cur as int, fuel as nat) is None);
                    }
                    return Err(AnalysisError::InconsistentTree);
                }
                proof {
                    let rest = chain_views(t, p as int, (fuel - 1) as nat);
                    if rest is Some {
                        assert(part_views(parts_before) + (seq![t[cur as int].label@]
                            + rest.unwrap()) =~= part_views(parts@) + rest.unwrap());
                    }
                }
                cur = p;
                fuel = fuel - 1;
            },
        }
    }
}

} // verus!
