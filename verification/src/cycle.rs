//! Cycle detection in the graph that renaming rules induce: every name has
//! at most one successor, the target of the first rule that names it.
use vstd::prelude::*;
use crate::text::same_text;

verus! {

/// A list of rules `from → to`, as character sequences.
pub open spec fn edge_texts(edges: Seq<(String, String)>) -> Seq<(Seq<char>, Seq<char>)> {
    edges.map_values(|e: (String, String)| (e.0@, e.1@))
}

/// The position of the first rule for `name`.
pub open spec fn first_rule(edges: Seq<(Seq<char>, Seq<char>)>, name: Seq<char>) -> Option<int>
    decreases edges.len(),
{
    if edges.len() == 0 {
        None
    } else {
        match first_rule(edges.drop_last(), name) {
            Some(i) => Some(i),
            None => if edges.last().0 == name {
                Some(edges.len() - 1)
            } else {
                None
            },
        }
    }
}

/// Where `name` leads in one step.
pub open spec fn successor(edges: Seq<(Seq<char>, Seq<char>)>, name: Seq<char>) -> Option<
    Seq<char>,
> {
    match first_rule(edges, name) {
        Some(i) => Some(edges[i].1),
        None => None,
    }
}

/// Where `name` leads in `n` steps, if the chain is that long.
pub open spec fn after(edges: Seq<(Seq<char>, Seq<char>)>, name: Seq<char>, n: nat) -> Option<
    Seq<char>,
>
    decreases n,
{
    if n == 0 {
        Some(name)
    } else {
        match after(edges, name, (n - 1) as nat) {
            Some(x) => successor(edges, x),
            None => None,
        }
    }
}

/// Following the rules from `name` leads back to `name`.
pub open spec fn on_cycle(edges: Seq<(Seq<char>, Seq<char>)>, name: Seq<char>) -> bool {
    exists|n: nat| n > 0 && #[trigger] after(edges, name, n) == Some(name)
}

/// The chain of rules from `name` comes to an end.
pub open spec fn chain_ends(edges: Seq<(Seq<char>, Seq<char>)>, name: Seq<char>) -> bool {
    exists|n: nat| #[trigger] after(edges, name, n) is None
}

proof fn lemma_first_rule(edges: Seq<(Seq<char>, Seq<char>)>, name: Seq<char>)
    ensures
        match first_rule(edges, name) {
            Some(i) => 0 <= i < edges.len() && edges[i].0 == name && forall|k: int|
                0 <= k < i ==> (#[trigger] edges[k]).0 != name,
            None => forall|k: int| 0 <= k < edges.len() ==> (#[trigger] edges[k]).0 != name,
        },
    decreases edges.len(),
{
    if edges.len() > 0 {
        lemma_first_rule(edges.drop_last(), name);
        assert forall|k: int| 0 <= k < edges.len() - 1 implies edges.drop_last()[k]
            == #[trigger] edges[k] by {}
    }
}

proof fn lemma_first_rule_is(edges: Seq<(Seq<char>, Seq<char>)>, name: Seq<char>, i: int)
    requires
        0 <= i < edges.len(),
        edges[i].0 == name,
        forall|k: int| 0 <= k < i ==> (#[trigger] edges[k]).0 != name,
    ensures
        first_rule(edges, name) == Some(i),
{
    lemma_first_rule(edges, name);
}

proof fn lemma_after_sum(edges: Seq<(Seq<char>, Seq<char>)>, name: Seq<char>, a: nat, b: nat)
    ensures
        after(edges, name, a + b) == match after(edges, name, a) {
            Some(x) => after(edges, x, b),
            None => None,
        },
    decreases b,
{
    if b > 0 {
        lemma_after_sum(edges, name, a, (b - 1) as nat);
        assert((a + b - 1) as nat == a + (b - 1) as nat);
    }
}

proof fn lemma_round_again(edges: Seq<(Seq<char>, Seq<char>)>, name: Seq<char>, n: nat, k: nat)
    requires
        after(edges, name, n) == Some(name),
    ensures
        after(edges, name, n * k) == Some(name),
    decreases k,
{
    if k == 0 {
        assert(n * 0 == 0) by (nonlinear_arith);
    } else {
        lemma_round_again(edges, name, n, (k - 1) as nat);
        lemma_after_sum(edges, name, n * ((k - 1) as nat), n);
        assert(n * k == n * ((k - 1) as nat) + n) by (nonlinear_arith)
            requires
                k > 0,
        ;
    }
}

/// A name whose chain ends lies on no cycle.
pub proof fn lemma_ending_chain_has_no_cycle(
    edges: Seq<(Seq<char>, Seq<char>)>,
    name: Seq<char>,
)
    requires
        chain_ends(edges, name),
    ensures
        !on_cycle(edges, name),
{
    if on_cycle(edges, name) {
        let n = choose|n: nat| n > 0 && #[trigger] after(edges, name, n) == Some(name);
        let m = choose|m: nat| #[trigger] after(edges, name, m) is None;
        lemma_round_again(edges, name, n, m);
        assert(n * m >= m) by (nonlinear_arith)
            requires
                n > 0,
        ;
        lemma_after_sum(edges, name, m, (n * m - m) as nat);
    }
}

proof fn lemma_longer_chain(edges: Seq<(Seq<char>, Seq<char>)>, name: Seq<char>, n: nat, m: nat)
    requires
        n <= m,
        after(edges, name, m) is Some,
    ensures
        after(edges, name, n) is Some,
{
    lemma_after_sum(edges, name, n, (m - n) as nat);
}

/// Without a cycle every chain ends: no chain is longer than there are rules.
pub proof fn acyclic_chains_end(edges: Seq<(Seq<char>, Seq<char>)>, name: Seq<char>)
    requires
        forall|other: Seq<char>| !#[trigger] on_cycle(edges, other),
    ensures
        after(edges, name, (edges.len() + 1) as nat) is None,
        chain_ends(edges, name),
{
    let n = edges.len() as int;
    if after(edges, name, (n + 1) as nat) is Some {
        let used = Seq::new(
            (n + 1) as nat,
            |i: int| first_rule(edges, after(edges, name, i as nat)->0)->0,
        );
        assert forall|i: int| 0 <= i <= n implies 0 <= #[trigger] used[i] < n && after(
            edges,
            name,
            i as nat,
        ) == Some(edges[used[i]].0) by {
            lemma_longer_chain(edges, name, (i + 1) as nat, (n + 1) as nat);
            lemma_longer_chain(edges, name, i as nat, (n + 1) as nat);
            lemma_first_rule(edges, after(edges, name, i as nat)->0);
        }
        if used.no_duplicates() {
            used.unique_seq_to_set();
            let all = Set::new(|k: int| 0 <= k < n);
            vstd::set_lib::lemma_int_range(0, n);
            assert(all =~= vstd::set_lib::set_int_range(0, n));
            assert forall|k: int| used.to_set().contains(k) implies all.contains(k) by {
                let i = used.index_of(k);
                assert(used[i] == k);
            }
            vstd::set_lib::lemma_len_subset(used.to_set(), all);
        } else {
            let (i, j) = choose|i: int, j: int|
                0 <= i < used.len() && 0 <= j < used.len() && i < j && used[i] == used[j];
            let x = edges[used[i]].0;
            assert(after(edges, name, i as nat) == Some(x));
            assert(after(edges, name, j as nat) == Some(x));
            lemma_after_sum(edges, name, i as nat, (j - i) as nat);
            assert(after(edges, x, (j - i) as nat) == Some(x));
            assert(on_cycle(edges, x));
        }
    }
}

/// Where a chain of fewer rules leads, the chain of all rules leads too, as
/// long as no rule that was left out comes first for its name.
proof fn lemma_subchain(
    part: Seq<(Seq<char>, Seq<char>)>,
    edges: Seq<(Seq<char>, Seq<char>)>,
    name: Seq<char>,
    n: nat,
)
    requires
        forall|x: Seq<char>|
            (#[trigger] successor(part, x)) is Some ==> successor(edges, x) == successor(part, x),
        after(part, name, n) is Some,
    ensures
        after(edges, name, n) == after(part, name, n),
    decreases n,
{
    if n > 0 {
        lemma_subchain(part, edges, name, (n - 1) as nat);
    }
}

/// Leaving rules out makes no cycle, as long as no rule that was left out
/// comes first for its name.
pub proof fn lemma_fewer_rules_stay_acyclic(
    part: Seq<(Seq<char>, Seq<char>)>,
    edges: Seq<(Seq<char>, Seq<char>)>,
)
    requires
        forall|x: Seq<char>|
            (#[trigger] successor(part, x)) is Some ==> successor(edges, x) == successor(part, x),
        forall|name: Seq<char>| !#[trigger] on_cycle(edges, name),
    ensures
        forall|name: Seq<char>| !#[trigger] on_cycle(part, name),
{
    assert forall|name: Seq<char>| !#[trigger] on_cycle(part, name) by {
        if on_cycle(part, name) {
            let n = choose|n: nat| n > 0 && #[trigger] after(part, name, n) == Some(name);
            lemma_subchain(part, edges, name, n);
            assert(on_cycle(edges, name));
        }
    }
}

/// One more rule changes the successor of its own name alone, and only where
/// that had none.
pub proof fn lemma_successor_push(
    edges: Seq<(Seq<char>, Seq<char>)>,
    edge: (Seq<char>, Seq<char>),
    name: Seq<char>,
)
    ensures
        successor(edges.push(edge), name) == (if successor(edges, name) is Some || edge.0 != name {
            successor(edges, name)
        } else {
            Some(edge.1)
        }),
{
    lemma_first_rule(edges, name);
    assert(edges.push(edge).drop_last() =~= edges);
}

proof fn lemma_step_back(edges: Seq<(Seq<char>, Seq<char>)>, name: Seq<char>, next: Seq<char>)
    requires
        successor(edges, name) == Some(next),
        chain_ends(edges, next),
    ensures
        chain_ends(edges, name),
{
    let m = choose|m: nat| #[trigger] after(edges, next, m) is None;
    lemma_after_sum(edges, name, 1, m);
    assert(after(edges, name, 0) == Some(name));
    assert(after(edges, name, 1) == Some(next));
    assert(after(edges, name, 1 + m) is None);
}

/// How many of the marks are still zero.
spec fn unvisited(marks: Seq<u8>) -> nat
    decreases marks.len(),
{
    if marks.len() == 0 {
        0
    } else {
        unvisited(marks.drop_last()) + if marks.last() == 0 {
            1nat
        } else {
            0nat
        }
    }
}

proof fn lemma_visit(marks: Seq<u8>, i: int)
    requires
        0 <= i < marks.len(),
        marks[i] == 0,
    ensures
        unvisited(marks.update(i, 1)) + 1 == unvisited(marks),
    decreases marks.len(),
{
    let next = marks.update(i, 1);
    if i == marks.len() - 1 {
        assert(next.drop_last() =~= marks.drop_last());
    } else {
        assert(next.drop_last() =~= marks.drop_last().update(i, 1));
        lemma_visit(marks.drop_last(), i);
    }
}

/// Each entry of `path` is the first rule for its name, and leads to the next.
spec fn is_path(edges: Seq<(Seq<char>, Seq<char>)>, path: Seq<usize>, end: Seq<char>) -> bool {
    &&& forall|i: int|
        0 <= i < path.len() ==> (#[trigger] path[i]) < edges.len() && first_rule(
            edges,
            edges[path[i] as int].0,
        ) == Some(path[i] as int)
    &&& forall|i: int|
        0 <= i < path.len() ==> (#[trigger] edges[path[i] as int]).1 == if i + 1 < path.len() {
            edges[path[i + 1] as int].0
        } else {
            end
        }
}

proof fn lemma_path_leads(
    edges: Seq<(Seq<char>, Seq<char>)>,
    path: Seq<usize>,
    end: Seq<char>,
    i: int,
)
    requires
        is_path(edges, path, end),
        0 <= i < path.len(),
    ensures
        after(edges, edges[path[i] as int].0, (path.len() - i) as nat) == Some(end),
    decreases path.len() - i,
{
    let name = edges[path[i] as int].0;
    let next = edges[path[i] as int].1;
    assert(successor(edges, name) == Some(next));
    assert(after(edges, name, 0) == Some(name));
    assert(after(edges, name, 1) == Some(next));
    if i + 1 < path.len() {
        lemma_path_leads(edges, path, end, i + 1);
        lemma_after_sum(edges, name, 1, (path.len() - i - 1) as nat);
    }
}

proof fn lemma_path_ends(
    edges: Seq<(Seq<char>, Seq<char>)>,
    path: Seq<usize>,
    end: Seq<char>,
    i: int,
)
    requires
        is_path(edges, path, end),
        chain_ends(edges, end),
        0 <= i < path.len(),
    ensures
        chain_ends(edges, edges[path[i] as int].0),
    decreases path.len() - i,
{
    let name = edges[path[i] as int].0;
    let next = edges[path[i] as int].1;
    if i + 1 < path.len() {
        lemma_path_ends(edges, path, end, i + 1);
    }
    assert(successor(edges, name) == Some(next));
    lemma_step_back(edges, name, next);
}

fn find_rule(edges: &Vec<(String, String)>, name: &str) -> (r: Option<usize>)
    ensures
        match r {
            Some(i) => first_rule(edge_texts(edges@), name@) == Some(i as int),
            None => first_rule(edge_texts(edges@), name@) is None,
        },
{
    let ghost all = edge_texts(edges@);
    let mut i: usize = 0;
    while i < edges.len()
        invariant
            i <= edges.len(),
            all == edge_texts(edges@),
            forall|k: int| 0 <= k < i ==> (#[trigger] all[k]).0 != name@,
        decreases edges.len() - i,
    {
        proof {
            assert(all[i as int] == (edges@[i as int].0@, edges@[i as int].1@));
        }
        if same_text(&edges[i].0, name) {
            proof {
                lemma_first_rule_is(all, name@, i as int);
            }
            return Some(i);
        }
        i += 1;
    }
    proof {
        lemma_first_rule(all, name@);
    }
    None
}

/// Marks every rule of `path` as done.
fn finish(marks: &mut Vec<u8>, path: &Vec<usize>)
    requires
        forall|j: int| 0 <= j < path.len() ==> #[trigger] path@[j] < old(marks).len(),
    ensures
        final(marks).len() == old(marks).len(),
        forall|k: int|
            0 <= k < old(marks).len() ==> #[trigger] final(marks)@[k] == if path@.contains(
                k as usize,
            ) {
                2
            } else {
                old(marks)@[k]
            },
{
    let ghost before = marks@;
    let mut i: usize = 0;
    while i < path.len()
        invariant
            i <= path.len(),
            marks.len() == before.len(),
            forall|j: int| 0 <= j < path.len() ==> #[trigger] path@[j] < marks.len(),
            forall|k: int|
                0 <= k < before.len() ==> #[trigger] marks@[k] == if path@.take(i as int).contains(
                    k as usize,
                ) {
                    2
                } else {
                    before[k]
                },
        decreases path.len() - i,
    {
        let ghost marks0 = marks@;
        marks.set(path[i], 2);
        proof {
            let now = path@.take(i + 1);
            let was = path@.take(i as int);
            assert forall|k: int| 0 <= k < before.len() implies #[trigger] marks@[k]
                == if now.contains(k as usize) {
                2
            } else {
                before[k]
            } by {
                assert(now =~= was.push(path@[i as int]));
                if was.contains(k as usize) {
                    let j = was.index_of(k as usize);
                    assert(now[j] == k);
                }
                assert(now[i as int] == path@[i as int]);
            }
        }
        i += 1;
    }
    proof {
        assert(path@.take(path.len() as int) =~= path@);
    }
}

/// Walks the rules from every source and returns a name that lies on a
/// cycle, if there is one. Each rule is visited once.
pub fn find_cycle(edges: &Vec<(String, String)>) -> (r: Option<String>)
    ensures
        match r {
            Some(name) => on_cycle(edge_texts(edges@), name@),
            None => forall|name: Seq<char>| !on_cycle(edge_texts(edges@), name),
        },
{
    let ghost all = edge_texts(edges@);
    let n = edges.len();
    let mut marks: Vec<u8> = Vec::new();
    while marks.len() < n
        invariant
            marks.len() <= n,
            forall|k: int| 0 <= k < marks.len() ==> marks@[k] == 0,
        decreases n - marks.len(),
    {
        marks.push(0);
    }
    let mut start: usize = 0;
    while start < n
        invariant
            start <= n == edges.len() == marks.len(),
            all == edge_texts(edges@),
            forall|k: int| 0 <= k < n ==> (#[trigger] marks@[k]) == 0 || marks@[k] == 2,
            forall|k: int|
                0 <= k < n && (#[trigger] marks@[k]) == 2 ==> chain_ends(all, all[k].0),
            forall|k: int| 0 <= k < start ==> chain_ends(all, (#[trigger] all[k]).0),
        decreases n - start,
    {
        let mut path: Vec<usize> = Vec::new();
        let mut current: String = edges[start].0.clone();
        let ghost base = marks@;
        loop
            invariant
                start < n == edges.len() == marks.len(),
                base.len() == n,
                all == edge_texts(edges@),
                forall|k: int| 0 <= k < n ==> (#[trigger] base[k]) == 0 || base[k] == 2,
                forall|k: int|
                    0 <= k < n && (#[trigger] base[k]) == 2 ==> chain_ends(all, all[k].0),
                forall|k: int|
                    0 <= k < n ==> (#[trigger] marks@[k]) == base[k] || (base[k] == 0 && marks@[k]
                        == 1),
                forall|k: int|
                    0 <= k < n && (#[trigger] marks@[k]) == 1 ==> exists|j: int|
                        0 <= j < path.len() && #[trigger] path@[j] == k,
                is_path(all, path@, current@),
                path.len() == 0 ==> current@ == all[start as int].0,
                path.len() > 0 ==> all[path@[0] as int].0 == all[start as int].0,
            ensures
                chain_ends(all, current@),
            decreases unvisited(marks@),
        {
            match find_rule(edges, &current) {
                None => {
                    proof {
                        assert(after(all, current@, 0) == Some(current@));
                        assert(after(all, current@, 1) is None);
                    }
                    break;
                },
                Some(k) => {
                    proof {
                        lemma_first_rule(all, current@);
                    }
                    if marks[k] == 1 {
                        proof {
                            let j = choose|j: int| 0 <= j < path.len() && #[trigger] path@[j] == k;
                            lemma_path_leads(all, path@, current@, j);
                            assert(after(all, current@, (path.len() - j) as nat) == Some(current@));
                        }
                        return Some(current);
                    }
                    if marks[k] == 2 {
                        break;
                    }
                    let ghost marks0 = marks@;
                    let ghost path0 = path@;
                    proof {
                        lemma_visit(marks0, k as int);
                    }
                    marks.set(k, 1);
                    path.push(k);
                    let ghost before = current@;
                    current = edges[k].1.clone();
                    proof {
                        assert(all[k as int] == (edges@[k as int].0@, edges@[k as int].1@));
                        assert forall|i: int| 0 <= i < n && (#[trigger] marks@[i])
                            == 1 implies exists|j: int|
                            0 <= j < path.len() && #[trigger] path@[j] == i by {
                            if i == k {
                                assert(path@[path.len() - 1] == i);
                            } else {
                                let j = choose|j: int|
                                    0 <= j < path0.len() && #[trigger] path0[j] == i;
                                assert(path@[j] == i);
                            }
                        }
                        assert forall|i: int| 0 <= i < path.len() implies (#[trigger] path@[i])
                            < all.len() && first_rule(all, all[path@[i] as int].0) == Some(
                            path@[i] as int,
                        ) by {
                            if i < path0.len() {
                                assert(path0[i] == path@[i]);
                            }
                        }
                        assert forall|i: int| 0 <= i < path.len() implies (
                        #[trigger] all[path@[i] as int]).1 == if i + 1 < path.len() {
                            all[path@[i + 1] as int].0
                        } else {
                            current@
                        } by {
                            if i < path0.len() {
                                assert(path0[i] == path@[i]);
                                assert(all[path0[i] as int].1 == if i + 1 < path0.len() {
                                    all[path0[i + 1] as int].0
                                } else {
                                    before
                                });
                            }
                        }
                    }
                },
            }
        }
        // Everything on the path leads to a chain that ends.
        let ghost grey = marks@;
        proof {
            assert forall|i: int| 0 <= i < path.len() implies chain_ends(
                all,
                all[#[trigger] path@[i] as int].0,
            ) by {
                lemma_path_ends(all, path@, current@, i);
            }
        }
        finish(&mut marks, &path);
        proof {
            assert forall|k: int| 0 <= k < n implies (#[trigger] marks@[k]) == 0 || marks@[k]
                == 2 by {
                if grey[k] == 1 {
                    let j = choose|j: int| 0 <= j < path.len() && #[trigger] path@[j] == k;
                    assert(path@.contains(k as usize));
                }
            }
            assert forall|k: int| 0 <= k < n && (#[trigger] marks@[k]) == 2 implies chain_ends(
                all,
                all[k].0,
            ) by {
                if path@.contains(k as usize) {
                    let j = path@.index_of(k as usize);
                    assert(chain_ends(all, all[path@[j] as int].0));
                } else {
                    assert(grey[k] == base[k]);
                }
            }
            if path.len() > 0 {
                assert(chain_ends(all, all[path@[0] as int].0));
            }
        }
        start += 1;
    }
    proof {
        assert forall|name: Seq<char>| !on_cycle(all, name) by {
            lemma_first_rule(all, name);
            match first_rule(all, name) {
                Some(i) => {
                    assert(chain_ends(all, all[i].0));
                },
                None => {
                    assert(after(all, name, 0) == Some(name));
                    assert(after(all, name, 1) is None);
                },
            }
            lemma_ending_chain_has_no_cycle(all, name);
        }
    }
    None
}

// ── Laws ──────────────────────────────────────────────────────────────

/// The first rule for a name decides where it leads; later ones for the same name
/// have no say, and a name without a rule leads nowhere.
pub proof fn first_rules_decide(edges: Seq<(Seq<char>, Seq<char>)>, name: Seq<char>, i: int)
    ensures
        0 <= i < edges.len() && edges[i].0 == name && (forall|j: int|
            0 <= j < i ==> (#[trigger] edges[j]).0 != name) ==> successor(edges, name) == Some(
            edges[i].1,
        ),
        (forall|j: int| 0 <= j < edges.len() ==> (#[trigger] edges[j]).0 != name) ==> successor(
            edges,
            name,
        ) is None,
{
    lemma_first_rule(edges, name);
    if 0 <= i < edges.len() && edges[i].0 == name && (forall|j: int|
        0 <= j < i ==> (#[trigger] edges[j]).0 != name) {
        lemma_first_rule_is(edges, name, i);
    }
}

/// A rule that leads to its own name is a cycle, and so are two rules that lead
/// to each other; a name that leads nowhere is on none.
pub proof fn short_cycles_are_cycles(
    edges: Seq<(Seq<char>, Seq<char>)>,
    a: Seq<char>,
    b: Seq<char>,
)
    ensures
        successor(edges, a) == Some(a) ==> on_cycle(edges, a),
        successor(edges, a) == Some(b) && successor(edges, b) == Some(a) ==> on_cycle(edges, a)
            && on_cycle(edges, b),
        successor(edges, a) is None ==> !on_cycle(edges, a) && chain_ends(edges, a),
        successor(edges, a) == Some(b) && on_cycle(edges, a) ==> on_cycle(edges, b),
{
    reveal_with_fuel(after, 3);
    assert(after(edges, a, 1) == successor(edges, a));
    if successor(edges, a) == Some(b) && successor(edges, b) == Some(a) {
        assert(after(edges, a, 2) == Some(a));
        assert(after(edges, b, 1) == Some(a));
        assert(after(edges, b, 2) == Some(b));
    }
    if successor(edges, a) is None {
        assert forall|n: nat| n > 0 implies #[trigger] after(edges, a, n) is None by {
            if after(edges, a, n) is Some {
                lemma_longer_chain(edges, a, 1, n);
            }
        }
    }
    if successor(edges, a) == Some(b) && on_cycle(edges, a) {
        let n = choose|n: nat| n > 0 && #[trigger] after(edges, a, n) == Some(a);
        lemma_after_sum(edges, a, n, 1);
        lemma_after_sum(edges, a, 1, n);
        assert(after(edges, a, n + 1) == Some(b));
        assert(after(edges, b, n) == Some(b));
    }
}

/// Rules are seen one for one, each from its source to its target.
pub proof fn rules_are_seen_one_for_one(edges: Seq<(String, String)>, i: int)
    requires
        0 <= i < edges.len(),
    ensures
        edge_texts(edges).len() == edges.len(),
        edge_texts(edges)[i].0 == edges[i].0@,
        edge_texts(edges)[i].1 == edges[i].1@,
{
}

} // verus!
