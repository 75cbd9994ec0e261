use vstd::prelude::*;
use vstd::string::StrSliceExecFns;

use crate::FunctionKey;
use crate::aggregate::{Aggregator, LabelEntry, label_lookup};

verus! {

/// A label that marks test code: it begins with the literal `test::`.
pub open spec fn is_test_label(s: Seq<char>) -> bool {
    s.len() >= 6 && s[0] == 't' && s[1] == 'e' && s[2] == 's' && s[3] == 't' && s[4] == ':' && s[5]
        == ':'
}

/// A function is excluded from output exactly when it was observed and its
/// label marks it as test code.
pub open spec fn blacklisted(agg: Aggregator, k: FunctionKey) -> bool {
    agg.has_fun(k) && (agg.fun_label(k) matches Some(l) && is_test_label(l))
}

/// Decides whether a label begins with `test::`.
pub fn label_is_test(label: &str) -> (r: bool)
    ensures
        r == is_test_label(label@),
{
    let n = label.unicode_len();
    if n < 6 {
        return false;
    }
    let r = label.get_char(0) == 't' && label.get_char(1) == 'e' && label.get_char(2) == 's'
        && label.get_char(3) == 't' && label.get_char(4) == ':' && label.get_char(5) == ':';
    r
}

/// Finds the label recorded for `k`: the latest matching journal entry.
pub fn find_label<'a>(labels: &'a Vec<LabelEntry>, k: &FunctionKey) -> (r: Option<&'a String>)
    ensures
        match r {
            Some(s) => label_lookup(labels@, *k) == Some(s@),
            None => label_lookup(labels@, *k) is None,
        },
{
    let mut j: usize = labels.len();
    proof {
        assert(labels@.take(j as int) =~= labels@);
    }
    while j > 0
        invariant
            j <= labels@.len(),
            label_lookup(labels@, *k) == label_lookup(labels@.take(j as int), *k),
            forall|a: int| j <= a < labels@.len() ==> labels@[a].key != *k,
        decreases j,
    {
        j = j - 1;
        if labels[j].key.same(k) {
            proof {
                assert(labels@.take(j as int + 1).last() == labels@[j as int]);
            }
            return Some(&labels[j].label);
        }
        proof {
            assert(labels@.take(j as int + 1).drop_last() =~= labels@.take(j as int));
        }
    }
    proof {
        assert(labels@.take(0) =~= Seq::<LabelEntry>::empty());
    }
    None
}

/// Computes the set of functions to exclude from output: those whose
/// label begins with `test::`.
pub fn compute_blacklist(agg: &Aggregator) -> (r: Vec<FunctionKey>)
    requires
        agg.wf(),
    ensures
        forall|k: FunctionKey| #[trigger] r@.contains(k) <==> blacklisted(*agg, k),
{
    let funs = &agg.all_functions;
    let mut out: Vec<FunctionKey> = Vec::new();
    let n = funs.len();
    let mut j: usize = 0;
    while j < n
        invariant
            j <= n,
            n == funs@.len(),
            funs == &agg.all_functions,
            agg.wf(),
            forall|k: FunctionKey| #[trigger] out@.contains(k) ==> blacklisted(*agg, k),
            forall|a: int|
                0 <= a < j && blacklisted(*agg, #[trigger] funs@[a]) ==> out@.contains(funs@[a]),
        decreases n - j,
    {
        let f = funs[j];
        proof {
            assert(agg.all_functions@.contains(f));
        }
        match find_label(&agg.labels, &f) {
            Some(s) => {
                if label_is_test(s.as_str()) {
                    let ghost out_before = out@;
                    out.push(f);
                    proof {
                        broadcast use vstd::seq_lib::lemma_seq_contains_after_push;

                        assert(out@ == out_before.push(f));
                    }
                }
            },
            None => {
                proof {
                    assert(agg.has_fun(f));
                    assert(agg.fun_label(f) is Some);
                    assert(false);
                }
            },
        }
        j = j + 1;
    }
    proof {
        assert forall|k: FunctionKey| blacklisted(*agg, k) implies #[trigger] out@.contains(k) by {
            let a = choose|a: int|
                0 <= a < agg.all_functions@.len() && agg.all_functions@[a] == k;
            assert(blacklisted(*agg, funs@[a]));
        }
    }
    out
}

} // verus!
