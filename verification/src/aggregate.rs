use vstd::prelude::*;

use crate::FunctionKey;

verus! {

/// A function key together with its fully qualified label. The label map
/// is kept as a journal: the latest entry for a key is its label, so a
/// re-visit overwrites by appending.
pub struct LabelEntry {
    pub key: FunctionKey,
    pub label: String,
}

/// The label recorded for `k`: that of the latest entry, if any.
pub open spec fn label_lookup(entries: Seq<LabelEntry>, k: FunctionKey) -> Option<Seq<char>>
    decreases entries.len(),
{
    if entries.len() == 0 {
        None
    } else if entries.last().key == k {
        Some(entries.last().label@)
    } else {
        label_lookup(entries.drop_last(), k)
    }
}

/// The values attributed to key `k` among a sequence of `(key, value)`
/// pairs, in order of recording.
pub open spec fn values_of(pairs: Seq<(FunctionKey, FunctionKey)>, k: FunctionKey) -> Seq<
    FunctionKey,
>
    decreases pairs.len(),
{
    if pairs.len() == 0 {
        Seq::empty()
    } else if pairs.last().0 == k {
        values_of(pairs.drop_last(), k).push(pairs.last().1)
    } else {
        values_of(pairs.drop_last(), k)
    }
}

/// Process-wide aggregate state of one run: every function declaration
/// observed, the recorded incoming-call pairs, the recorded
/// trait-to-implementation pairs, and each function's label. Populated
/// file by file; read once, at the end, to render output.
pub struct Aggregator {
    pub all_functions: Vec<FunctionKey>,
    pub calls: Vec<(FunctionKey, FunctionKey)>,
    pub impls: Vec<(FunctionKey, FunctionKey)>,
    pub labels: Vec<LabelEntry>,
}

impl Aggregator {
    /// Membership in the set of observed declarations.
    pub open spec fn has_fun(self, k: FunctionKey) -> bool {
        self.all_functions@.contains(k)
    }

    /// The callers recorded for target `k`, in order of recording.
    pub open spec fn calls_of(self, k: FunctionKey) -> Seq<FunctionKey> {
        values_of(self.calls@, k)
    }

    /// The implementations recorded for trait method `k`.
    pub open spec fn impls_of(self, k: FunctionKey) -> Seq<FunctionKey> {
        values_of(self.impls@, k)
    }

    /// The label recorded for `k`, if it was ever visited.
    pub open spec fn fun_label(self, k: FunctionKey) -> Option<Seq<char>> {
        label_lookup(self.labels@, k)
    }

    /// Well-formedness: no declaration is listed twice, and every listed
    /// declaration has a label.
    pub open spec fn wf(self) -> bool {
        &&& forall|a: int, b: int|
            0 <= a < b < self.all_functions@.len() ==> self.all_functions@[a]
                != self.all_functions@[b]
        &&& forall|k: FunctionKey| self.has_fun(k) ==> #[trigger] self.fun_label(k) is Some
    }

    /// Both members of a recorded pair are observed declarations.
    pub open spec fn pair_closed(self, p: (FunctionKey, FunctionKey)) -> bool {
        self.has_fun(p.0) && self.has_fun(p.1)
    }

    /// Every endpoint of a recorded call or implementation pair is itself
    /// an observed declaration: the condition under which rendering can
    /// give every endpoint an id.
    pub open spec fn closed(self) -> bool {
        &&& forall|j: int|
            0 <= j < self.calls@.len() ==> self.pair_closed(#[trigger] self.calls@[j])
        &&& forall|j: int|
            0 <= j < self.impls@.len() ==> self.pair_closed(#[trigger] self.impls@[j])
    }

    pub fn new() -> (a: Aggregator)
        ensures
            a.all_functions@.len() == 0,
            a.calls@.len() == 0,
            a.impls@.len() == 0,
            a.labels@.len() == 0,
            a.wf(),
            a.closed(),
    {
        Aggregator {
            all_functions: Vec::new(),
            calls: Vec::new(),
            impls: Vec::new(),
            labels: Vec::new(),
        }
    }

    /// Records a visited declaration: stores (or overwrites) its label and
    /// adds it to the set of observed functions if absent.
    pub fn record_function(&mut self, k: FunctionKey, label: String)
        requires
            old(self).wf(),
        ensures
            final(self).wf(),
            forall|x: FunctionKey| #[trigger]
                final(self).has_fun(x) <==> old(self).has_fun(x) || x == k,
            final(self).all_functions@ == if old(self).has_fun(k) {
                old(self).all_functions@
            } else {
                old(self).all_functions@.push(k)
            },
            final(self).fun_label(k) == Some::<Seq<char>>(label@),
            forall|x: FunctionKey|
                x != k ==> #[trigger] final(self).fun_label(x) == old(self).fun_label(x),
            final(self).calls@ == old(self).calls@,
            final(self).impls@ == old(self).impls@,
    {
        self.labels.push(LabelEntry { key: k, label });
        proof {
            assert(self.labels@.drop_last() =~= old(self).labels@);
        }
        if !contains_key(&self.all_functions, &k) {
            self.all_functions.push(k);
            proof {
                broadcast use vstd::seq_lib::lemma_seq_contains_after_push;

                assert(self.all_functions@ == old(self).all_functions@.push(k));
                assert forall|a: int, b: int|
                    0 <= a < b < self.all_functions@.len() implies self.all_functions@[a]
                    != self.all_functions@[b] by {
                    if b == self.all_functions@.len() - 1 {
                        assert(old(self).all_functions@[a] == self.all_functions@[a]);
                        assert(old(self).all_functions@.contains(self.all_functions@[a]));
                    }
                }
            }
        }
        proof {
            broadcast use vstd::seq_lib::lemma_seq_contains_after_push;

            lemma_wf_label_part(*old(self), *self);
        }
    }

    /// Records one incoming call: `caller` is appended to the callers of
    /// `target`, and nothing else changes.
    pub fn record_call(&mut self, target: FunctionKey, caller: FunctionKey)
        requires
            old(self).wf(),
        ensures
            final(self).wf(),
            final(self).calls@ == old(self).calls@.push((target, caller)),
            final(self).calls_of(target) == old(self).calls_of(target).push(caller),
            forall|x: FunctionKey|
                x != target ==> #[trigger] final(self).calls_of(x) == old(self).calls_of(x),
            final(self).all_functions@ == old(self).all_functions@,
            final(self).impls@ == old(self).impls@,
            final(self).labels@ == old(self).labels@,
    {
        self.calls.push((target, caller));
        proof {
            assert(self.calls@.drop_last() =~= old(self).calls@);
            lemma_wf_same_parts(*old(self), *self);
        }
    }

    /// Records one implementation of a trait method: `implementation` is
    /// appended to the implementations of `trait_method`.
    pub fn record_impl(&mut self, trait_method: FunctionKey, implementation: FunctionKey)
        requires
            old(self).wf(),
        ensures
            final(self).wf(),
            final(self).impls@ == old(self).impls@.push((trait_method, implementation)),
            final(self).impls_of(trait_method) == old(self).impls_of(trait_method).push(
                implementation,
            ),
            forall|x: FunctionKey|
                x != trait_method ==> #[trigger] final(self).impls_of(x) == old(self).impls_of(x),
            final(self).all_functions@ == old(self).all_functions@,
            final(self).calls@ == old(self).calls@,
            final(self).labels@ == old(self).labels@,
    {
        self.impls.push((trait_method, implementation));
        proof {
            assert(self.impls@.drop_last() =~= old(self).impls@);
            lemma_wf_same_parts(*old(self), *self);
        }
    }
}

/// Two aggregate states hold the same data.
pub open spec fn same_state(a: Aggregator, b: Aggregator) -> bool {
    &&& a.all_functions@ == b.all_functions@
    &&& a.calls@ == b.calls@
    &&& a.impls@ == b.impls@
    &&& a.labels@ == b.labels@
}

/// Membership and label lookups agree between two states that share the
/// function list and the label journal.
pub proof fn lemma_agg_views(a: Aggregator, b: Aggregator)
    requires
        b.all_functions@ == a.all_functions@,
        b.labels@ == a.labels@,
    ensures
        forall|x: FunctionKey| #[trigger] b.has_fun(x) == a.has_fun(x),
        forall|x: FunctionKey| #[trigger] b.fun_label(x) == a.fun_label(x),
{
}

/// Every sequence is a prefix of itself.
pub proof fn lemma_self_prefix<T>(s: Seq<T>)
    ensures
        s.is_prefix_of(s),
{
    assert(s.subrange(0, s.len() as int) =~= s);
}

/// Well-formedness depends only on the function list and the label
/// journal: it carries over to a state that shares both.
proof fn lemma_wf_same_parts(a: Aggregator, b: Aggregator)
    requires
        a.wf(),
        b.all_functions@ == a.all_functions@,
        b.labels@ == a.labels@,
    ensures
        b.wf(),
{
    assert forall|k: FunctionKey| b.has_fun(k) implies #[trigger] b.fun_label(k) is Some by {
        assert(a.has_fun(k));
        assert(a.fun_label(k) is Some);
    }
}

/// After a label is appended for `k` and `k` is ensured to be listed,
/// every listed declaration still has a label.
proof fn lemma_wf_label_part(a: Aggregator, b: Aggregator)
    requires
        forall|x: FunctionKey| a.has_fun(x) ==> #[trigger] a.fun_label(x) is Some,
        b.labels@.len() >= 1,
        b.labels@.drop_last() == a.labels@,
        forall|x: FunctionKey| #[trigger]
            b.has_fun(x) ==> a.has_fun(x) || x == b.labels@.last().key,
    ensures
        forall|k: FunctionKey| b.has_fun(k) ==> #[trigger] b.fun_label(k) is Some,
{
    let k0 = b.labels@.last().key;
    assert forall|k: FunctionKey| b.has_fun(k) implies #[trigger] b.fun_label(k) is Some by {
        if k == k0 {
            assert(b.fun_label(k) == Some(b.labels@.last().label@));
        } else {
            assert(a.has_fun(k));
            assert(a.fun_label(k) is Some);
            assert(b.fun_label(k) == a.fun_label(k));
        }
    }
}

/// Linear membership test over the observed declarations.
pub fn contains_key(keys: &Vec<FunctionKey>, k: &FunctionKey) -> (r: bool)
    ensures
        r == keys@.contains(*k),
{
    let n = keys.len();
    let mut j: usize = 0;
    while j < n
        invariant
            j <= n,
            n == keys@.len(),
            forall|a: int| 0 <= a < j ==> keys@[a] != *k,
        decreases n - j,
    {
        if keys[j].same(k) {
            return true;
        }
        j = j + 1;
    }
    false
}

} // verus!
