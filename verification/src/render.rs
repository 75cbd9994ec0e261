use vstd::prelude::*;
use vstd::string::StringExecFns;

use crate::FunctionKey;
use crate::aggregate::{Aggregator, contains_key};
use crate::filter::{blacklisted, compute_blacklist, find_label};

verus! {

/// The character of one decimal digit.
pub open spec fn dec_digit(d: nat) -> char {
    if d == 0 {
        '0'
    } else if d == 1 {
        '1'
    } else if d == 2 {
        '2'
    } else if d == 3 {
        '3'
    } else if d == 4 {
        '4'
    } else if d == 5 {
        '5'
    } else if d == 6 {
        '6'
    } else if d == 7 {
        '7'
    } else if d == 8 {
        '8'
    } else {
        '9'
    }
}

/// The decimal notation of `n`, most significant digit first.
pub open spec fn dec_seq(n: nat) -> Seq<char>
    decreases n,
{
    if n < 10 {
        seq![dec_digit(n)]
    } else {
        dec_seq(n / 10).push(dec_digit(n % 10))
    }
}

fn digit_str(d: usize) -> (r: &'static str)
    requires
        d < 10,
    ensures
        r@ == seq![dec_digit(d as nat)],
{
    match d {
        0 => {
            proof {
                reveal_strlit("0");
                assert("0"@ =~= seq![dec_digit(0)]);
            }
            "0"
        },
        1 => {
            proof {
                reveal_strlit("1");
                assert("1"@ =~= seq![dec_digit(1)]);
            }
            "1"
        },
        2 => {
            proof {
                reveal_strlit("2");
                assert("2"@ =~= seq![dec_digit(2)]);
            }
            "2"
        },
        3 => {
            proof {
                reveal_strlit("3");
                assert("3"@ =~= seq![dec_digit(3)]);
            }
            "3"
        },
        4 => {
            proof {
                reveal_strlit("4");
                assert("4"@ =~= seq![dec_digit(4)]);
            }
            "4"
        },
        5 => {
            proof {
                reveal_strlit("5");
                assert("5"@ =~= seq![dec_digit(5)]);
            }
            "5"
        },
        6 => {
            proof {
                reveal_strlit("6");
                assert("6"@ =~= seq![dec_digit(6)]);
            }
            "6"
        },
        7 => {
            proof {
                reveal_strlit("7");
                assert("7"@ =~= seq![dec_digit(7)]);
            }
            "7"
        },
        8 => {
            proof {
                reveal_strlit("8");
                assert("8"@ =~= seq![dec_digit(8)]);
            }
            "8"
        },
        _ => {
            proof {
                reveal_strlit("9");
                assert("9"@ =~= seq![dec_digit(9)]);
            }
            "9"
        },
    }
}

/// The decimal notation of `n`, as text.
pub fn dec_string(n: usize) -> (r: String)
    ensures
        r@ == dec_seq(n as nat),
    decreases n,
{
    if n < 10 {
        String::from_str(digit_str(n))
    } else {
        let mut s = dec_string(n / 10);
        s.append(digit_str(n % 10));
        proof {
            assert(dec_seq((n / 10) as nat) + seq![dec_digit((n % 10) as nat)] =~= dec_seq(
                (n / 10) as nat,
            ).push(dec_digit((n % 10) as nat)));
        }
        s
    }
}

/// One node statement: the function's id and its label as display text.
pub open spec fn node_line(id: nat, label: Seq<char>) -> Seq<char> {
    dec_seq(id) + "[label=\""@ + label + "\"]\n"@
}

/// One plain call edge, from the callee's id to the caller's id.
pub open spec fn call_edge_line(a: nat, b: nat) -> Seq<char> {
    dec_seq(a) + " -> "@ + dec_seq(b) + "[label=\"\"]\n"@
}

/// One implementation edge, styled apart from call edges: dashed, with a
/// diamond head and a distinct color.
pub open spec fn impl_edge_line(a: nat, b: nat) -> Seq<char> {
    dec_seq(a) + " -> "@ + dec_seq(b)
        + "[label=\"\", arrowhead=\"diamond\", style=\"dashed\", color=\"deeppink1\"]\n"@
}

/// The position of the first occurrence of `k`.
pub open spec fn key_index(s: Seq<FunctionKey>, k: FunctionKey) -> int
    decreases s.len(),
{
    if s.len() == 0 {
        0
    } else if s[0] == k {
        0
    } else {
        1 + key_index(s.drop_first(), k)
    }
}

proof fn lemma_key_index_found(s: Seq<FunctionKey>, k: FunctionKey, j: int)
    requires
        0 <= j < s.len(),
        s[j] == k,
        forall|a: int| 0 <= a < j ==> s[a] != k,
    ensures
        key_index(s, k) == j,
    decreases j,
{
    if s[0] == k {
        assert(j == 0);
    } else {
        assert(j > 0);
        assert forall|a: int| 0 <= a < j - 1 implies s.drop_first()[a] != k by {
            assert(s.drop_first()[a] == s[a + 1]);
        }
        assert(s.drop_first()[j - 1] == s[j]);
        lemma_key_index_found(s.drop_first(), k, j - 1);
    }
}

/// The id the renderer gives `k`: its position in the function list.
pub fn find_index(keys: &Vec<FunctionKey>, k: &FunctionKey) -> (r: usize)
    requires
        keys@.contains(*k),
    ensures
        r < keys@.len(),
        keys@[r as int] == *k,
        r as int == key_index(keys@, *k),
{
    let n = keys.len();
    let mut j: usize = 0;
    while j < n
        invariant
            j <= n,
            n == keys@.len(),
            keys@.contains(*k),
            forall|a: int| 0 <= a < j ==> keys@[a] != *k,
        decreases n - j,
    {
        if keys[j].same(k) {
            proof {
                lemma_key_index_found(keys@, *k, j as int);
            }
            return j;
        }
        j = j + 1;
    }
    proof {
        let w = choose|i: int| 0 <= i < keys@.len() && keys@[i] == *k;
        assert(false);
    }
    0
}

/// The node statements: one line per observed function that is not
/// blacklisted, each carrying its id and label, in list order from
/// position `i` on.
pub open spec fn nodes_text(agg: Aggregator, i: int) -> Seq<char>
    decreases agg.all_functions@.len() - i,
{
    if i < 0 || i >= agg.all_functions@.len() {
        Seq::empty()
    } else {
        let rest = nodes_text(agg, i + 1);
        if blacklisted(agg, agg.all_functions@[i]) {
            rest
        } else {
            node_line((i as nat), agg.fun_label(agg.all_functions@[i]).unwrap()) + rest
        }
    }
}

/// The call-edge statements: one line per recorded call pair, from the
/// callee's id to the caller's id, skipping every pair with a blacklisted
/// endpoint, from pair `i` on.
pub open spec fn calls_text(agg: Aggregator, i: int) -> Seq<char>
    decreases agg.calls@.len() - i,
{
    if i < 0 || i >= agg.calls@.len() {
        Seq::empty()
    } else {
        let rest = calls_text(agg, i + 1);
        let p = agg.calls@[i];
        if blacklisted(agg, p.0) || blacklisted(agg, p.1) {
            rest
        } else {
            call_edge_line(
                key_index(agg.all_functions@, p.0) as nat,
                key_index(agg.all_functions@, p.1) as nat,
            ) + rest
        }
    }
}

/// The implementation-edge statements, analogous to the call edges but in
/// the distinct style, from pair `i` on.
pub open spec fn impls_text(agg: Aggregator, i: int) -> Seq<char>
    decreases agg.impls@.len() - i,
{
    if i < 0 || i >= agg.impls@.len() {
        Seq::empty()
    } else {
        let rest = impls_text(agg, i + 1);
        let p = agg.impls@[i];
        if blacklisted(agg, p.0) || blacklisted(agg, p.1) {
            rest
        } else {
            impl_edge_line(
                key_index(agg.all_functions@, p.0) as nat,
                key_index(agg.all_functions@, p.1) as nat,
            ) + rest
        }
    }
}

/// The whole rendered graph: a named directed-graph block holding the
/// node statements, then the call edges, then the implementation edges.
pub open spec fn render_spec(agg: Aggregator) -> Seq<char> {
    "digraph example {\n"@ + nodes_text(agg, 0) + calls_text(agg, 0) + impls_text(agg, 0) + "}\n"@
}

/// Decides whether every endpoint of every recorded pair is an observed
/// function, so that rendering can give each an id.
#[verifier::loop_isolation(false)]
pub fn is_closed(agg: &Aggregator) -> (r: bool)
    ensures
        r == agg.closed(),
{
    let mut j: usize = 0;
    let n = agg.calls.len();
    while j < n
        invariant
            j <= n,
            n == agg.calls@.len(),
            forall|a: int| 0 <= a < j ==> agg.pair_closed(#[trigger] agg.calls@[a]),
        decreases n - j,
    {
        if !contains_key(&agg.all_functions, &agg.calls[j].0) || !contains_key(
            &agg.all_functions,
            &agg.calls[j].1,
        ) {
            proof {
                assert(!agg.pair_closed(agg.calls@[j as int]));
            }
            return false;
        }
        proof {
            assert(agg.pair_closed(agg.calls@[j as int]));
        }
        j = j + 1;
    }
    let mut j2: usize = 0;
    let m = agg.impls.len();
    while j2 < m
        invariant
            j2 <= m,
            m == agg.impls@.len(),
            forall|a: int| 0 <= a < j2 ==> agg.pair_closed(#[trigger] agg.impls@[a]),
            forall|a: int| 0 <= a < agg.calls@.len() ==> agg.pair_closed(#[trigger] agg.calls@[a]),
        decreases m - j2,
    {
        if !contains_key(&agg.all_functions, &agg.impls[j2].0) || !contains_key(
            &agg.all_functions,
            &agg.impls[j2].1,
        ) {
            proof {
                assert(!agg.pair_closed(agg.impls@[j2 as int]));
            }
            return false;
        }
        proof {
            assert(agg.pair_closed(agg.impls@[j2 as int]));
        }
        j2 = j2 + 1;
    }
    true
}

/// Renders the aggregated graph: a `digraph example` block holding one
/// node statement per retained function (its id and label), one plain
/// call edge per retained call pair, and one styled implementation edge
/// per retained implementation pair. Blacklisted functions are omitted,
/// as nodes and as edge endpoints.
#[verifier::loop_isolation(false)]
pub fn render(agg: &Aggregator, blacklist: &Vec<FunctionKey>) -> (r: String)
    requires
        agg.wf(),
        agg.closed(),
        forall|k: FunctionKey| #[trigger] blacklist@.contains(k) <==> blacklisted(*agg, k),
    ensures
        r@ == render_spec(*agg),
{
    let mut s = String::from_str("digraph example {\n");
    let ghost header = "digraph example {\n"@;
    let n = agg.all_functions.len();
    let mut j: usize = 0;
    while j < n
        invariant
            j <= n,
            s@ + nodes_text(*agg, j as int) == header + nodes_text(*agg, 0),
        decreases n - j,
    {
        let f = agg.all_functions[j];
        let ghost s0 = s@;
        let ghost line = node_line(j as nat, agg.fun_label(agg.all_functions@[j as int]).unwrap());
        if !contains_key(blacklist, &f) {
            let ids = dec_string(j);
            s.append(ids.as_str());
            s.append("[label=\"");
            match find_label(&agg.labels, &f) {
                Some(l) => { s.append(l.as_str()) },
                None => {
                    proof {
                        assert(agg.all_functions@.contains(f));
                        assert(agg.fun_label(f) is Some);
                        assert(false);
                    }
                },
            }
            s.append("\"]\n");
            proof {
                assert(s@ =~= s0 + line);
                assert((s0 + line) + nodes_text(*agg, j as int + 1) =~= s0 + (line + nodes_text(
                    *agg,
                    j as int + 1,
                )));
                assert(nodes_text(*agg, j as int) == line + nodes_text(*agg, j as int + 1));
            }
        } else {
            proof {
                assert(nodes_text(*agg, j as int) == nodes_text(*agg, j as int + 1));
            }
        }
        j = j + 1;
    }
    proof {
        assert(nodes_text(*agg, n as int) == Seq::<char>::empty());
        assert(s@ + Seq::<char>::empty() =~= s@);
        assert(s@ == header + nodes_text(*agg, 0));
    }
    let ghost base1 = s@;
    let nc = agg.calls.len();
    let mut j2: usize = 0;
    while j2 < nc
        invariant
            j2 <= nc,
            s@ + calls_text(*agg, j2 as int) == base1 + calls_text(*agg, 0),
        decreases nc - j2,
    {
        let p0 = agg.calls[j2].0;
        let p1 = agg.calls[j2].1;
        let ghost s0 = s@;
        proof {
            assert(agg.pair_closed(agg.calls@[j2 as int]));
        }
        let ghost line = call_edge_line(
            key_index(agg.all_functions@, agg.calls@[j2 as int].0) as nat,
            key_index(agg.all_functions@, agg.calls@[j2 as int].1) as nat,
        );
        if !contains_key(blacklist, &p0) && !contains_key(blacklist, &p1) {
            let a = find_index(&agg.all_functions, &p0);
            let b = find_index(&agg.all_functions, &p1);
            let sa = dec_string(a);
            s.append(sa.as_str());
            s.append(" -> ");
            let sb = dec_string(b);
            s.append(sb.as_str());
            s.append("[label=\"\"]\n");
            proof {
                assert(s@ =~= s0 + line);
                assert((s0 + line) + calls_text(*agg, j2 as int + 1) =~= s0 + (line + calls_text(
                    *agg,
                    j2 as int + 1,
                )));
                assert(calls_text(*agg, j2 as int) == line + calls_text(*agg, j2 as int + 1));
            }
        } else {
            proof {
                assert(calls_text(*agg, j2 as int) == calls_text(*agg, j2 as int + 1));
            }
        }
        j2 = j2 + 1;
    }
    proof {
        assert(calls_text(*agg, nc as int) == Seq::<char>::empty());
        assert(s@ + Seq::<char>::empty() =~= s@);
        assert(s@ == base1 + calls_text(*agg, 0));
    }
    let ghost base2 = s@;
    let ni = agg.impls.len();
    let mut j3: usize = 0;
    while j3 < ni
        invariant
            j3 <= ni,
            s@ + impls_text(*agg, j3 as int) == base2 + impls_text(*agg, 0),
        decreases ni - j3,
    {
        let p0 = agg.impls[j3].0;
        let p1 = agg.impls[j3].1;
        let ghost s0 = s@;
        proof {
            assert(agg.pair_closed(agg.impls@[j3 as int]));
        }
        let ghost line = impl_edge_line(
            key_index(agg.all_functions@, agg.impls@[j3 as int].0) as nat,
            key_index(agg.all_functions@, agg.impls@[j3 as int].1) as nat,
        );
        if !contains_key(blacklist, &p0) && !contains_key(blacklist, &p1) {
            let a = find_index(&agg.all_functions, &p0);
            let b = find_index(&agg.all_functions, &p1);
            let sa = dec_string(a);
            s.append(sa.as_str());
            s.append(" -> ");
            let sb = dec_string(b);
            s.append(sb.as_str());
            s.append("[label=\"\", arrowhead=\"diamond\", style=\"dashed\", color=\"deeppink1\"]\n");
            proof {
                assert(s@ =~= s0 + line);
                assert((s0 + line) + impls_text(*agg, j3 as int + 1) =~= s0 + (line + impls_text(
                    *agg,
                    j3 as int + 1,
                )));
                assert(impls_text(*agg, j3 as int) == line + impls_text(*agg, j3 as int + 1));
            }
        } else {
            proof {
                assert(impls_text(*agg, j3 as int) == impls_text(*agg, j3 as int + 1));
            }
        }
        j3 = j3 + 1;
    }
    proof {
        assert(impls_text(*agg, ni as int) == Seq::<char>::empty());
        assert(s@ + Seq::<char>::empty() =~= s@);
        assert(s@ == base2 + impls_text(*agg, 0));
    }
    s.append("}\n");
    proof {
        assert(s@ =~= ((header + nodes_text(*agg, 0)) + calls_text(*agg, 0)) + impls_text(*agg, 0)
            + "}\n"@);
        assert(s@ =~= render_spec(*agg));
    }
    s
}

/// Computes the blacklist and renders the graph in one step: what the
/// driver calls once all files are analyzed.
pub fn render_graph(agg: &Aggregator) -> (r: String)
    requires
        agg.wf(),
        agg.closed(),
    ensures
        r@ == render_spec(*agg),
{
    let blacklist = compute_blacklist(agg);
    render(agg, &blacklist)
}

} // verus!
