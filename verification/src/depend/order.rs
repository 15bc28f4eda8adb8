//! The order in which new packages are installed.
//!
//! The packages to install form a graph over their names. A dependency group
//! of a package that no available package meets, and that names packages of
//! the list, is a *need* of that package; each entry of such a group that
//! names a package of the list is an *edge* from that package to the one
//! with the group. A package can be installed once, for each of its needs,
//! an edge into it comes from a package installed before it; more precisely,
//! once at least as many edges into it come from those packages as it has
//! needs.
use crate::depend::{group_met, name_of, DependencyGraph};
use crate::pkg::{PackageData, PackageRange, PackageRangeView, PackageView};
use crate::text::str_eq;
use vstd::prelude::*;
use vstd::set_lib::{lemma_int_range, lemma_len_subset, set_int_range};

verus! {

/// Whether some package of `ps` is named `n`.
pub open spec fn names_package(ps: Seq<PackageView>, n: Seq<char>) -> bool {
    exists|i: int| 0 <= i < ps.len() && name_of(#[trigger] ps[i]) == n
}

/// The edges that the group `g` of the package named `target` gives: one
/// (dependency, dependent) pair for each entry that names a package of `ps`.
pub open spec fn group_edges(ps: Seq<PackageView>, g: Seq<PackageRangeView>, target: Seq<char>) -> Seq<
    (Seq<char>, Seq<char>),
>
    decreases g.len(),
{
    if g.len() == 0 {
        Seq::empty()
    } else {
        let rest = group_edges(ps, g.drop_last(), target);
        if names_package(ps, g.last().name) {
            rest.push((g.last().name, target))
        } else {
            rest
        }
    }
}

/// The edges of the groups `gs` of the package named `target` that are not
/// met among `avail`.
pub open spec fn package_edges(
    ps: Seq<PackageView>,
    avail: Set<(Seq<char>, Seq<char>)>,
    gs: Seq<Seq<PackageRangeView>>,
    target: Seq<char>,
) -> Seq<(Seq<char>, Seq<char>)>
    decreases gs.len(),
{
    if gs.len() == 0 {
        Seq::empty()
    } else if group_met(avail, gs.last()) {
        package_edges(ps, avail, gs.drop_last(), target)
    } else {
        package_edges(ps, avail, gs.drop_last(), target) + group_edges(ps, gs.last(), target)
    }
}

/// One entry `target` for each group of `gs` that is not met among `avail`
/// and names a package of `ps`: the needs of the package named `target`.
pub open spec fn package_needs(
    ps: Seq<PackageView>,
    avail: Set<(Seq<char>, Seq<char>)>,
    gs: Seq<Seq<PackageRangeView>>,
    target: Seq<char>,
) -> Seq<Seq<char>>
    decreases gs.len(),
{
    if gs.len() == 0 {
        Seq::empty()
    } else {
        let rest = package_needs(ps, avail, gs.drop_last(), target);
        if !group_met(avail, gs.last()) && group_edges(ps, gs.last(), target).len() > 0 {
            rest.push(target)
        } else {
            rest
        }
    }
}

/// The edges of the packages `qs`, package by package, over the names of `ps`.
pub open spec fn order_edges(ps: Seq<PackageView>, avail: Set<(Seq<char>, Seq<char>)>, qs: Seq<PackageView>) -> Seq<
    (Seq<char>, Seq<char>),
>
    decreases qs.len(),
{
    if qs.len() == 0 {
        Seq::empty()
    } else {
        order_edges(ps, avail, qs.drop_last()) + package_edges(
            ps,
            avail,
            qs.last().relation.depend,
            name_of(qs.last()),
        )
    }
}

/// The needs of the packages `qs`, package by package, over the names of `ps`.
pub open spec fn order_needs(ps: Seq<PackageView>, avail: Set<(Seq<char>, Seq<char>)>, qs: Seq<PackageView>) -> Seq<
    Seq<char>,
>
    decreases qs.len(),
{
    if qs.len() == 0 {
        Seq::empty()
    } else {
        order_needs(ps, avail, qs.drop_last()) + package_needs(
            ps,
            avail,
            qs.last().relation.depend,
            name_of(qs.last()),
        )
    }
}

/// How many times `n` occurs in `s`.
pub open spec fn occurrences(s: Seq<Seq<char>>, n: Seq<char>) -> nat
    decreases s.len(),
{
    if s.len() == 0 {
        0
    } else {
        occurrences(s.drop_last(), n) + if s.last() == n {
            1nat
        } else {
            0nat
        }
    }
}

/// How many edges of `es` lead into `n` from a name of `from`.
pub open spec fn edges_into(es: Seq<(Seq<char>, Seq<char>)>, n: Seq<char>, from: Set<Seq<char>>) -> nat
    decreases es.len(),
{
    if es.len() == 0 {
        0
    } else {
        edges_into(es.drop_last(), n, from) + if es.last().1 == n && from.contains(es.last().0) {
            1nat
        } else {
            0nat
        }
    }
}

/// Whether the package named `n` can be installed after the packages named
/// in `before`: it has no need, or at least as many edges into it come from
/// `before` as it has needs.
pub open spec fn ready_after(
    ps: Seq<PackageView>,
    avail: Set<(Seq<char>, Seq<char>)>,
    n: Seq<char>,
    before: Set<Seq<char>>,
) -> bool {
    let needs = occurrences(order_needs(ps, avail, ps), n);
    needs == 0 || edges_into(order_edges(ps, avail, ps), n, before) >= needs
}

/// Whether `order` lists names of packages of `ps`, each once, each ready
/// after the names before it.
pub open spec fn install_schedule(ps: Seq<PackageView>, avail: Set<(Seq<char>, Seq<char>)>, order: Seq<Seq<char>>) -> bool {
    &&& order.no_duplicates()
    &&& forall|k: int|
        0 <= k < order.len() ==> names_package(ps, #[trigger] order[k]) && ready_after(
            ps,
            avail,
            order[k],
            order.take(k).to_set(),
        )
}

/// Whether no package of `ps` named outside `done` is ready after `done`.
pub open spec fn schedule_closed(ps: Seq<PackageView>, avail: Set<(Seq<char>, Seq<char>)>, done: Set<Seq<char>>) -> bool {
    forall|n: Seq<char>| names_package(ps, n) && !done.contains(n) ==> !#[trigger] ready_after(ps, avail, n, done)
}

/// The names of the packages of `ps` that are not named in `done`, in order.
pub open spec fn names_left(ps: Seq<PackageView>, done: Seq<Seq<char>>) -> Seq<Seq<char>> {
    ps.filter(|p: PackageView| !done.contains(name_of(p))).map_values(|p: PackageView| name_of(p))
}

/// Edges into `n` from a larger set are at least as many.
proof fn lemma_edges_into_monotone(es: Seq<(Seq<char>, Seq<char>)>, n: Seq<char>, a: Set<Seq<char>>, b: Set<Seq<char>>)
    requires
        a.subset_of(b),
    ensures
        edges_into(es, n, a) <= edges_into(es, n, b),
    decreases es.len(),
{
    if es.len() > 0 {
        lemma_edges_into_monotone(es.drop_last(), n, a, b);
    }
}

/// Readiness after a set stays after a larger set.
proof fn lemma_ready_monotone(
    ps: Seq<PackageView>,
    avail: Set<(Seq<char>, Seq<char>)>,
    n: Seq<char>,
    a: Set<Seq<char>>,
    b: Set<Seq<char>>,
)
    requires
        a.subset_of(b),
        ready_after(ps, avail, n, a),
    ensures
        ready_after(ps, avail, n, b),
{
    lemma_edges_into_monotone(order_edges(ps, avail, ps), n, a, b);
}

/// The packages that can be installed do not depend on the order chosen:
/// any two closed schedules place the same names.
pub proof fn lemma_closed_schedules_agree(
    ps: Seq<PackageView>,
    avail: Set<(Seq<char>, Seq<char>)>,
    o1: Seq<Seq<char>>,
    o2: Seq<Seq<char>>,
)
    requires
        install_schedule(ps, avail, o1),
        install_schedule(ps, avail, o2),
        schedule_closed(ps, avail, o1.to_set()),
        schedule_closed(ps, avail, o2.to_set()),
    ensures
        o1.to_set() == o2.to_set(),
{
    lemma_schedule_within_closed(ps, avail, o1, o2.to_set());
    lemma_schedule_within_closed(ps, avail, o2, o1.to_set());
    assert(o1.to_set() =~= o2.to_set());
}

/// Every name of a schedule lies in each closed set.
proof fn lemma_schedule_within_closed(
    ps: Seq<PackageView>,
    avail: Set<(Seq<char>, Seq<char>)>,
    o: Seq<Seq<char>>,
    done: Set<Seq<char>>,
)
    requires
        install_schedule(ps, avail, o),
        schedule_closed(ps, avail, done),
    ensures
        o.to_set().subset_of(done),
{
    assert forall|k: int| 0 <= k <= o.len() implies #[trigger] o.take(k).to_set().subset_of(done) by {
        lemma_prefix_within_closed(ps, avail, o, done, k);
    }
    assert(o.take(o.len() as int) =~= o);
}

proof fn lemma_prefix_within_closed(
    ps: Seq<PackageView>,
    avail: Set<(Seq<char>, Seq<char>)>,
    o: Seq<Seq<char>>,
    done: Set<Seq<char>>,
    k: int,
)
    requires
        install_schedule(ps, avail, o),
        schedule_closed(ps, avail, done),
        0 <= k <= o.len(),
    ensures
        o.take(k).to_set().subset_of(done),
    decreases k,
{
    if k > 0 {
        lemma_prefix_within_closed(ps, avail, o, done, k - 1);
        let x = o[k - 1];
        assert(names_package(ps, x));
        assert(ready_after(ps, avail, x, o.take(k - 1).to_set()));
        lemma_ready_monotone(ps, avail, x, o.take(k - 1).to_set(), done);
        assert(done.contains(x));
        assert(o.take(k) =~= o.take(k - 1).push(x));
        assert forall|y: Seq<char>| o.take(k).to_set().contains(y) implies done.contains(y) by {
            if y != x {
                assert(o.take(k).contains(y));
                let j = choose|j: int| 0 <= j < o.take(k).len() && o.take(k)[j] == y;
                assert(o.take(k - 1)[j] == y);
                assert(o.take(k - 1).to_set().contains(y));
            }
        }
    }
}

/// How the packages `ps` are laid out as nodes: `nn` holds each name once,
/// `node_of[i]` is the node of `ps[i]`, and `last_of[k]` the last package
/// with the name of node `k`.
pub open spec fn node_layout(ps: Seq<PackageView>, nn: Seq<Seq<char>>, node_of: Seq<usize>, last_of: Seq<usize>) -> bool {
    &&& nn.no_duplicates()
    &&& node_of.len() == ps.len()
    &&& last_of.len() == nn.len()
    &&& forall|i: int| 0 <= i < ps.len() ==> #[trigger] node_of[i] < nn.len() && nn[node_of[i] as int] == name_of(ps[i])
    &&& forall|k: int|
        0 <= k < nn.len() ==> #[trigger] last_of[k] < ps.len() && node_of[last_of[k] as int] == k && forall|i: int|
            last_of[k] < i < ps.len() ==> node_of[i] != k
}

/// The edges `es`, given by node, named.
pub open spec fn named_edges(nn: Seq<Seq<char>>, es: Seq<(usize, usize)>) -> Seq<(Seq<char>, Seq<char>)> {
    es.map_values(|e: (usize, usize)| (nn[e.0 as int], nn[e.1 as int]))
}

/// Whether every edge of `es` joins nodes below `m`.
pub open spec fn edges_within(es: Seq<(usize, usize)>, m: nat) -> bool {
    forall|e: int| 0 <= e < es.len() ==> (#[trigger] es[e]).0 < m && es[e].1 < m
}

pub(crate) proof fn lemma_layout_names(ps: Seq<PackageView>, nn: Seq<Seq<char>>, node_of: Seq<usize>, last_of: Seq<usize>)
    requires
        node_layout(ps, nn, node_of, last_of),
    ensures
        forall|n: Seq<char>| names_package(ps, n) <==> nn.contains(n),
{
    assert forall|n: Seq<char>| names_package(ps, n) <==> nn.contains(n) by {
        if names_package(ps, n) {
            let i = choose|i: int| 0 <= i < ps.len() && name_of(#[trigger] ps[i]) == n;
            assert(node_of[i] < nn.len());
            assert(nn[node_of[i] as int] == n);
        }
        if nn.contains(n) {
            let k = choose|k: int| 0 <= k < nn.len() && nn[k] == n;
            assert(last_of[k] < ps.len());
            let i = last_of[k] as int;
            assert(node_of[i] == k);
            assert(name_of(ps[i]) == n);
        }
    }
}

/// The node named `name`, if there is one.
fn find_node(nodes: &Vec<String>, name: &str) -> (r: Option<usize>)
    ensures
        match r {
            Some(k) => k < nodes@.len() && nodes@[k as int]@ == name@,
            None => !nodes.deep_view().contains(name@),
        },
{
    let mut k: usize = 0;
    while k < nodes.len()
        invariant
            k <= nodes@.len(),
            forall|j: int| 0 <= j < k ==> nodes.deep_view()[j] != name@,
        decreases nodes.len() - k,
    {
        if str_eq(nodes[k].as_str(), name) {
            return Some(k);
        }
        k = k + 1;
    }
    None
}

/// The nodes of the packages `packages`: their names, each once in order of
/// first appearance; the node of each package; and the last package of each node.
pub(crate) fn layout_nodes(packages: &[PackageData]) -> (r: (Vec<String>, Vec<usize>, Vec<usize>))
    ensures
        node_layout(packages.deep_view(), r.0.deep_view(), r.1@, r.2@),
{
    let ghost ps = packages.deep_view();
    let mut nodes: Vec<String> = Vec::new();
    let mut node_of: Vec<usize> = Vec::new();
    let mut last_of: Vec<usize> = Vec::new();
    let mut i: usize = 0;
    while i < packages.len()
        invariant
            i <= packages@.len(),
            ps == packages.deep_view(),
            node_layout(ps.take(i as int), nodes.deep_view(), node_of@, last_of@),
        decreases packages.len() - i,
    {
        let name = packages[i].about.package.name.as_str();
        assert(ps[i as int] == packages[i as int].deep_view());
        let ghost nn0 = nodes.deep_view();
        let ghost no0 = node_of@;
        let ghost lo0 = last_of@;
        match find_node(&nodes, name) {
            Some(k) => {
                node_of.push(k);
                last_of.set(k, i);
                proof {
                    let q = ps.take(i + 1);
                    assert forall|j: int| 0 <= j < q.len() implies #[trigger] node_of@[j] < nodes.deep_view().len()
                        && nodes.deep_view()[node_of@[j] as int] == name_of(q[j]) by {
                        if j < i {
                            assert(q[j] == ps.take(i as int)[j]);
                        }
                    }
                    assert forall|m: int| 0 <= m < nodes.deep_view().len() implies #[trigger] last_of@[m] < q.len()
                        && node_of@[last_of@[m] as int] == m && forall|j: int|
                        last_of@[m] < j < q.len() ==> node_of@[j] != m by {
                        if m != k {
                            assert(lo0[m] < i);
                            assert forall|j: int| last_of@[m] < j < q.len() implies node_of@[j] != m by {
                                if j < i {
                                    assert(no0[j] != m);
                                }
                            }
                        }
                    }
                }
            },
            None => {
                let m = nodes.len();
                nodes.push(packages[i].about.package.name.clone());
                node_of.push(m);
                last_of.push(i);
                proof {
                    let q = ps.take(i + 1);
                    assert(nodes.deep_view() =~= nn0.push(name@));
                    assert forall|a: int, b: int|
                        0 <= a < nodes.deep_view().len() && 0 <= b < nodes.deep_view().len() && a != b implies nodes.deep_view()[a]
                        != nodes.deep_view()[b] by {
                        if a == m as int {
                            assert(nn0[b] != name@);
                        } else if b == m as int {
                            assert(nn0[a] != name@);
                        }
                    }
                    assert forall|j: int| 0 <= j < q.len() implies #[trigger] node_of@[j] < nodes.deep_view().len()
                        && nodes.deep_view()[node_of@[j] as int] == name_of(q[j]) by {
                        if j < i {
                            assert(q[j] == ps.take(i as int)[j]);
                        }
                    }
                    assert forall|k: int| 0 <= k < nodes.deep_view().len() implies #[trigger] last_of@[k] < q.len()
                        && node_of@[last_of@[k] as int] == k && forall|j: int|
                        last_of@[k] < j < q.len() ==> node_of@[j] != k by {
                        if k < m {
                            assert forall|j: int| last_of@[k] < j < q.len() implies node_of@[j] != k by {
                                if j < i {
                                    assert(no0[j] != k);
                                }
                            }
                        }
                    }
                }
            },
        }
        i = i + 1;
    }
    assert(ps.take(packages@.len() as int) =~= ps);
    (nodes, node_of, last_of)
}

/// Appends to `edges` the edges that `group` gives to node `target`.
fn add_group_edges(
    nodes: &Vec<String>,
    group: &Vec<PackageRange>,
    target: usize,
    edges: &mut Vec<(usize, usize)>,
    Ghost(ps): Ghost<Seq<PackageView>>,
)
    requires
        target < nodes@.len(),
        forall|n: Seq<char>| names_package(ps, n) <==> nodes.deep_view().contains(n),
        edges_within(old(edges)@, nodes@.len()),
    ensures
        named_edges(nodes.deep_view(), final(edges)@) == named_edges(nodes.deep_view(), old(edges)@) + group_edges(
            ps,
            group.deep_view(),
            nodes.deep_view()[target as int],
        ),
        edges_within(final(edges)@, nodes@.len()),
{
    let ghost nn = nodes.deep_view();
    let ghost g = group.deep_view();
    let ghost t = nn[target as int];
    let ghost start = named_edges(nn, edges@);
    let mut j: usize = 0;
    assert(g.take(0) =~= Seq::<PackageRangeView>::empty());
    assert(start + group_edges(ps, g.take(0), t) =~= start);
    while j < group.len()
        invariant
            j <= group@.len(),
            nn == nodes.deep_view(),
            g == group.deep_view(),
            t == nn[target as int],
            target < nodes@.len(),
            forall|n: Seq<char>| names_package(ps, n) <==> nn.contains(n),
            edges_within(edges@, nodes@.len()),
            named_edges(nn, edges@) == start + group_edges(ps, g.take(j as int), t),
        decreases group.len() - j,
    {
        let d = &group[j];
        assert(g.take(j + 1).drop_last() =~= g.take(j as int));
        assert(g.take(j + 1).last() == d.deep_view());
        match find_node(nodes, d.name.as_str()) {
            Some(k) => {
                let ghost before = edges@;
                edges.push((k, target));
                assert(nn[k as int] == d.name@);
                assert(nn.contains(d.name@));
                assert(named_edges(nn, edges@) =~= named_edges(nn, before).push((d.name@, t)));
            },
            None => {},
        }
        j = j + 1;
    }
    assert(g.take(group@.len() as int) =~= g);
}

impl DependencyGraph {
    /// Appends to `edges` the edges of the groups of node `target` that no
    /// available package meets, and counts its needs in `in_deg`.
    fn add_package_edges(
        &self,
        nodes: &Vec<String>,
        groups: &Vec<Vec<PackageRange>>,
        target: usize,
        edges: &mut Vec<(usize, usize)>,
        in_deg: &mut Vec<usize>,
        Ghost(ps): Ghost<Seq<PackageView>>,
    )
        requires
            target < nodes@.len(),
            forall|n: Seq<char>| names_package(ps, n) <==> nodes.deep_view().contains(n),
            edges_within(old(edges)@, nodes@.len()),
            old(in_deg)@.len() == nodes@.len(),
            forall|k: int| 0 <= k < old(in_deg)@.len() ==> old(in_deg)@[k] <= old(edges)@.len(),
        ensures
            named_edges(nodes.deep_view(), final(edges)@) == named_edges(nodes.deep_view(), old(edges)@)
                + package_edges(ps, self.available_packages@, groups.deep_view(), nodes.deep_view()[target as int]),
            edges_within(final(edges)@, nodes@.len()),
            final(in_deg)@.len() == old(in_deg)@.len(),
            forall|k: int| 0 <= k < final(in_deg)@.len() && k != target ==> final(in_deg)@[k] == old(in_deg)@[k],
            final(in_deg)@[target as int] == old(in_deg)@[target as int] + package_needs(
                ps,
                self.available_packages@,
                groups.deep_view(),
                nodes.deep_view()[target as int],
            ).len(),
            forall|k: int| 0 <= k < final(in_deg)@.len() ==> final(in_deg)@[k] <= final(edges)@.len(),
    {
        let ghost nn = nodes.deep_view();
        let ghost gs = groups.deep_view();
        let ghost t = nn[target as int];
        let ghost avail = self.available_packages@;
        let ghost start = named_edges(nn, edges@);
        let ghost deg0 = in_deg@;
        let mut i: usize = 0;
        assert(gs.take(0) =~= Seq::<Seq<PackageRangeView>>::empty());
        assert(start + package_edges(ps, avail, gs.take(0), t) =~= start);
        while i < groups.len()
            invariant
                i <= groups@.len(),
                nn == nodes.deep_view(),
                gs == groups.deep_view(),
                t == nn[target as int],
                avail == self.available_packages@,
                target < nodes@.len(),
                forall|n: Seq<char>| names_package(ps, n) <==> nn.contains(n),
                edges_within(edges@, nodes@.len()),
                named_edges(nn, edges@) == start + package_edges(ps, avail, gs.take(i as int), t),
                in_deg@.len() == deg0.len(),
                deg0.len() == nodes@.len(),
                forall|k: int| 0 <= k < in_deg@.len() && k != target ==> in_deg@[k] == deg0[k],
                in_deg@[target as int] == deg0[target as int] + package_needs(ps, avail, gs.take(i as int), t).len(),
                forall|k: int| 0 <= k < in_deg@.len() ==> in_deg@[k] <= edges@.len(),
            decreases groups.len() - i,
        {
            let group = &groups[i];
            assert(gs.take(i + 1).drop_last() =~= gs.take(i as int));
            assert(gs.take(i + 1).last() == group.deep_view());
            if !self.is_group_satisfied(group) {
                let before = edges.len();
                let ghost named_before = named_edges(nn, edges@);
                add_group_edges(nodes, group, target, edges, Ghost(ps));
                assert(named_edges(nn, edges@).len() == edges@.len());
                assert(named_before.len() == before);
                assert(named_edges(nn, edges@) =~= start + package_edges(ps, avail, gs.take(i + 1), t));
                if edges.len() > before {
                    let d = in_deg[target];
                    in_deg.set(target, d + 1);
                }
            }
            i = i + 1;
        }
        assert(gs.take(groups@.len() as int) =~= gs);
    }
}

/// How many edges of `es` lead into node `v` from a node of `from`.
pub open spec fn id_edges_into(es: Seq<(usize, usize)>, v: usize, from: Set<usize>) -> nat
    decreases es.len(),
{
    if es.len() == 0 {
        0
    } else {
        id_edges_into(es.drop_last(), v, from) + if es.last().1 == v && from.contains(es.last().0) {
            1nat
        } else {
            0nat
        }
    }
}

/// The names of the nodes `ids`.
pub open spec fn node_names(nn: Seq<Seq<char>>, ids: Seq<usize>) -> Seq<Seq<char>> {
    ids.map_values(|k: usize| nn[k as int])
}

proof fn lemma_id_edges_into_monotone(es: Seq<(usize, usize)>, v: usize, a: Set<usize>, b: Set<usize>)
    requires
        a.subset_of(b),
    ensures
        id_edges_into(es, v, a) <= id_edges_into(es, v, b),
    decreases es.len(),
{
    if es.len() > 0 {
        lemma_id_edges_into_monotone(es.drop_last(), v, a, b);
    }
}

proof fn lemma_id_edges_into_union(es: Seq<(usize, usize)>, v: usize, a: Set<usize>, b: Set<usize>)
    requires
        a.disjoint(b),
    ensures
        id_edges_into(es, v, a.union(b)) == id_edges_into(es, v, a) + id_edges_into(es, v, b),
    decreases es.len(),
{
    if es.len() > 0 {
        lemma_id_edges_into_union(es.drop_last(), v, a, b);
    }
}

proof fn lemma_id_edges_into_bound(es: Seq<(usize, usize)>, v: usize, a: Set<usize>)
    ensures
        id_edges_into(es, v, a) <= es.len(),
    decreases es.len(),
{
    if es.len() > 0 {
        lemma_id_edges_into_bound(es.drop_last(), v, a);
    }
}

/// Counting by node and counting by name agree when the names are distinct.
proof fn lemma_named_edges_into(nn: Seq<Seq<char>>, es: Seq<(usize, usize)>, v: usize, from: Set<usize>)
    requires
        nn.no_duplicates(),
        edges_within(es, nn.len()),
        v < nn.len(),
        forall|k: usize| #[trigger] from.contains(k) ==> k < nn.len(),
    ensures
        id_edges_into(es, v, from) == edges_into(named_edges(nn, es), nn[v as int], from.map(|k: usize| nn[k as int])),
    decreases es.len(),
{
    if es.len() > 0 {
        let rest = es.drop_last();
        assert(named_edges(nn, es).drop_last() =~= named_edges(nn, rest));
        assert forall|e: int| 0 <= e < rest.len() implies (#[trigger] rest[e]).0 < nn.len() && rest[e].1 < nn.len() by {
            assert(rest[e] == es[e]);
        }
        lemma_named_edges_into(nn, rest, v, from);
        let last = es.last();
        assert(last == es[es.len() - 1]);
        assert(named_edges(nn, es).last() == (nn[last.0 as int], nn[last.1 as int]));
        let f = |k: usize| nn[k as int];
        if from.map(f).contains(nn[last.0 as int]) {
            let k = choose|k: usize| from.contains(k) && f(k) == nn[last.0 as int];
            assert(k == last.0);
        }
        if from.contains(last.0) {
            assert(from.map(f).contains(f(last.0)));
        }
    }
}

/// Each name occurs in a concatenation as often as in its parts together.
proof fn lemma_occurrences_add(a: Seq<Seq<char>>, b: Seq<Seq<char>>, n: Seq<char>)
    ensures
        occurrences(a + b, n) == occurrences(a, n) + occurrences(b, n),
    decreases b.len(),
{
    if b.len() > 0 {
        assert((a + b).drop_last() =~= a + b.drop_last());
        lemma_occurrences_add(a, b.drop_last(), n);
    }
}

/// The needs of one package all name it.
proof fn lemma_needs_occurrences(
    ps: Seq<PackageView>,
    avail: Set<(Seq<char>, Seq<char>)>,
    gs: Seq<Seq<PackageRangeView>>,
    t: Seq<char>,
    n: Seq<char>,
)
    ensures
        occurrences(package_needs(ps, avail, gs, t), n) == if n == t {
            package_needs(ps, avail, gs, t).len()
        } else {
            0
        },
    decreases gs.len(),
{
    if gs.len() > 0 {
        lemma_needs_occurrences(ps, avail, gs.drop_last(), t, n);
        let rest = package_needs(ps, avail, gs.drop_last(), t);
        assert(rest.push(t).drop_last() =~= rest);
    }
}

/// A sequence of distinct nodes below `m` has at most `m` entries, and
/// exactly `m` when it holds every node below `m`.
pub(crate) proof fn lemma_distinct_ids_bound(s: Seq<usize>, m: usize)
    requires
        s.no_duplicates(),
        forall|i: int| 0 <= i < s.len() ==> s[i] < m,
    ensures
        s.len() <= m,
        (forall|v: usize| v < m ==> s.contains(v)) ==> s.len() == m,
{
    let t = s.map_values(|x: usize| x as int);
    assert forall|i: int, j: int| 0 <= i < t.len() && 0 <= j < t.len() && i != j implies t[i] != t[j] by {
        assert(s[i] != s[j]);
    }
    assert(t.no_duplicates());
    t.unique_seq_to_set();
    lemma_int_range(0, m as int);
    assert forall|x: int| t.to_set().contains(x) implies set_int_range(0, m as int).contains(x) by {
        let i = choose|i: int| 0 <= i < t.len() && t[i] == x;
        assert(s[i] < m);
    }
    lemma_len_subset(t.to_set(), set_int_range(0, m as int));
    if forall|v: usize| v < m ==> s.contains(v) {
        assert forall|x: int| set_int_range(0, m as int).contains(x) implies t.to_set().contains(x) by {
            let v = x as usize;
            assert(s.contains(v));
            let i = choose|i: int| 0 <= i < s.len() && s[i] == v;
            assert(t[i] == x);
        }
        lemma_len_subset(set_int_range(0, m as int), t.to_set());
    }
}

proof fn lemma_id_edges_into_empty(es: Seq<(usize, usize)>, v: usize)
    ensures
        id_edges_into(es, v, Set::empty()) == 0,
    decreases es.len(),
{
    if es.len() > 0 {
        lemma_id_edges_into_empty(es.drop_last(), v);
    }
}

/// The nodes below `in_deg.len()` in the order in which they are installed:
/// first those with no need, in node order; then, taking them in turn, each
/// node whose needs are matched by edges from the nodes taken so far, at the
/// moment the count of such edges reaches its number of needs.
pub(crate) fn schedule_nodes(edges: &Vec<(usize, usize)>, in_deg: &Vec<usize>) -> (queue: Vec<usize>)
    requires
        edges_within(edges@, in_deg@.len()),
    ensures
        queue@.no_duplicates(),
        forall|p: int| 0 <= p < queue@.len() ==> #[trigger] queue@[p] < in_deg@.len(),
        forall|p: int|
            0 <= p < queue@.len() ==> in_deg@[#[trigger] queue@[p] as int] == 0 || id_edges_into(
                edges@,
                queue@[p],
                queue@.take(p).to_set(),
            ) >= in_deg@[queue@[p] as int],
        forall|v: usize|
            v < in_deg@.len() && !#[trigger] queue@.contains(v) ==> in_deg@[v as int] > 0 && id_edges_into(
                edges@,
                v,
                queue@.to_set(),
            ) < in_deg@[v as int],
{
    let m = in_deg.len();
    let mut queue: Vec<usize> = Vec::new();
    let mut k: usize = 0;
    while k < m
        invariant
            m == in_deg@.len(),
            k <= m,
            queue@.no_duplicates(),
            forall|p: int| 0 <= p < queue@.len() ==> #[trigger] queue@[p] < k,
            forall|p: int| 0 <= p < queue@.len() ==> in_deg@[#[trigger] queue@[p] as int] == 0,
            forall|v: usize| v < k ==> (#[trigger] queue@.contains(v) <==> in_deg@[v as int] == 0),
        decreases m - k,
    {
        if in_deg[k] == 0 {
            let ghost q0 = queue@;
            queue.push(k);
            proof {
                assert(queue@ =~= q0.push(k));
                assert(!q0.contains(k));
                assert forall|v: usize| v < k + 1 implies (#[trigger] queue@.contains(v) <==> in_deg@[v as int] == 0) by {
                    if v < k {
                        if q0.contains(v) {
                            let j = choose|j: int| 0 <= j < q0.len() && q0[j] == v;
                            assert(queue@[j] == v);
                        }
                        if queue@.contains(v) {
                            let j = choose|j: int| 0 <= j < queue@.len() && queue@[j] == v;
                            assert(j < q0.len());
                            assert(q0[j] == v);
                        }
                    } else {
                        assert(queue@[q0.len() as int] == k);
                    }
                }
            }
        } else {
            proof {
                assert forall|v: usize| v < k + 1 implies (#[trigger] queue@.contains(v) <==> in_deg@[v as int] == 0) by {
                    if v == k && queue@.contains(v) {
                        let j = choose|j: int| 0 <= j < queue@.len() && queue@[j] == v;
                        assert(queue@[j] < k);
                    }
                }
            }
        }
        k = k + 1;
    }
    let mut counts: Vec<usize> = Vec::new();
    let mut c: usize = 0;
    while c < m
        invariant
            c <= m,
            counts@.len() == c,
            forall|v: int| 0 <= v < c ==> counts@[v] == 0,
        decreases m - c,
    {
        counts.push(0);
        c = c + 1;
    }
    proof {
        lemma_distinct_ids_bound(queue@, m);
        assert(queue@.take(0).to_set() =~= Set::<usize>::empty());
        assert forall|v: usize| v < m implies counts@[v as int] == id_edges_into(edges@, v, queue@.take(0).to_set()) by {
            lemma_id_edges_into_empty(edges@, v);
        }
        assert forall|p: int|
            0 <= p < queue@.len() implies in_deg@[#[trigger] queue@[p] as int] == 0 || id_edges_into(
            edges@,
            queue@[p],
            queue@.take(p).to_set(),
        ) >= in_deg@[queue@[p] as int] by {}
    }
    let mut head: usize = 0;
    while head < queue.len()
        invariant
            m == in_deg@.len(),
            counts@.len() == m,
            edges_within(edges@, m as nat),
            head <= queue@.len(),
            queue@.len() <= m,
            queue@.no_duplicates(),
            forall|p: int| 0 <= p < queue@.len() ==> #[trigger] queue@[p] < m,
            forall|v: usize| v < m ==> #[trigger] counts@[v as int] == id_edges_into(edges@, v, queue@.take(head as int).to_set()),
            forall|v: usize|
                v < m ==> (#[trigger] queue@.contains(v) <==> (in_deg@[v as int] == 0 || counts@[v as int] >= in_deg@[v as int])),
            forall|p: int|
                0 <= p < queue@.len() ==> in_deg@[#[trigger] queue@[p] as int] == 0 || id_edges_into(
                    edges@,
                    queue@[p],
                    queue@.take(p).to_set(),
                ) >= in_deg@[queue@[p] as int],
        decreases m - head,
    {
        let u = queue[head];
        let ghost before = queue@.take(head as int).to_set();
        let ghost one = Set::<usize>::empty().insert(u);
        proof {
            assert(queue@.take(head + 1) =~= queue@.take(head as int).push(u));
            queue@.take(head as int).lemma_push_to_set_commute(u);
            assert(queue@.take(head + 1).to_set() =~= before.insert(u));
            assert(!before.contains(u)) by {
                if before.contains(u) {
                    let j = choose|j: int| 0 <= j < head && queue@.take(head as int)[j] == u;
                    assert(queue@[j] == queue@[head as int]);
                }
            }
            assert(before.insert(u) =~= before.union(one));
            assert(before.disjoint(one));
            assert(edges@.take(0) =~= Seq::<(usize, usize)>::empty());
            assert forall|v: usize| v < m implies #[trigger] counts@[v as int] == id_edges_into(edges@, v, before)
                + id_edges_into(edges@.take(0), v, one) by {}
        }
        head = head + 1;
        let ghost settled = queue@.take(head as int);
        let mut e: usize = 0;
        while e < edges.len()
            invariant
                m == in_deg@.len(),
                counts@.len() == m,
                edges_within(edges@, m as nat),
                0 < head <= queue@.len(),
                queue@.len() <= m,
                queue@.no_duplicates(),
                u == queue@[head - 1],
                settled == queue@.take(head as int),
                before == queue@.take(head - 1).to_set(),
                one == Set::<usize>::empty().insert(u),
                before.disjoint(one),
                settled.to_set() == before.union(one),
                e <= edges@.len(),
                forall|p: int| 0 <= p < queue@.len() ==> #[trigger] queue@[p] < m,
                forall|v: usize|
                    v < m ==> #[trigger] counts@[v as int] == id_edges_into(edges@, v, before) + id_edges_into(
                        edges@.take(e as int),
                        v,
                        one,
                    ),
                forall|v: usize|
                    v < m ==> (#[trigger] queue@.contains(v) <==> (in_deg@[v as int] == 0 || counts@[v as int]
                        >= in_deg@[v as int])),
                forall|p: int|
                    0 <= p < queue@.len() ==> in_deg@[#[trigger] queue@[p] as int] == 0 || id_edges_into(
                        edges@,
                        queue@[p],
                        queue@.take(p).to_set(),
                    ) >= in_deg@[queue@[p] as int],
            decreases edges.len() - e,
        {
            let (f, t) = edges[e];
            proof {
                assert(edges@.take(e + 1).drop_last() =~= edges@.take(e as int));
                assert(edges@.take(e + 1).last() == edges@[e as int]);
                assert(edges@[e as int].0 < m && edges@[e as int].1 < m);
                assert forall|v: usize| v < m && v != t implies id_edges_into(edges@.take(e + 1), v, one)
                    == id_edges_into(edges@.take(e as int), v, one) by {}
            }
            if f == u {
                let cnt = counts[t];
                proof {
                    assert(id_edges_into(edges@.take(e + 1), t, one) == id_edges_into(edges@.take(e as int), t, one) + 1);
                    lemma_take_edges_into(edges@, t, one, e as int + 1);
                    lemma_id_edges_into_union(edges@, t, before, one);
                    lemma_id_edges_into_bound(edges@, t, before.union(one));
                }
                counts.set(t, cnt + 1);
                if cnt + 1 == in_deg[t] {
                    let ghost q0 = queue@;
                    assert(!q0.contains(t));
                    queue.push(t);
                    proof {
                        assert(queue@ =~= q0.push(t));
                        assert(queue@.take(head as int) =~= q0.take(head as int));
                        assert(queue@.take(head - 1) =~= q0.take(head - 1));
                        assert(queue@.take(q0.len() as int) =~= q0);
                        lemma_distinct_ids_bound(queue@, m);
                        assert(settled.to_set().subset_of(q0.to_set())) by {
                            assert forall|x: usize| settled.to_set().contains(x) implies q0.to_set().contains(x) by {
                                let j = choose|j: int| 0 <= j < settled.len() && settled[j] == x;
                                assert(q0[j] == x);
                            }
                        }
                        lemma_id_edges_into_monotone(edges@, t, settled.to_set(), q0.to_set());
                        assert forall|p: int| 0 <= p < q0.len() implies queue@.take(p) =~= q0.take(p) by {}
                        assert forall|v: usize| v < m implies (#[trigger] queue@.contains(v) <==> (in_deg@[v as int]
                            == 0 || counts@[v as int] >= in_deg@[v as int])) by {
                            if v != t {
                                if queue@.contains(v) {
                                    let j = choose|j: int| 0 <= j < queue@.len() && queue@[j] == v;
                                    assert(q0[j] == v);
                                }
                                if q0.contains(v) {
                                    let j = choose|j: int| 0 <= j < q0.len() && q0[j] == v;
                                    assert(queue@[j] == v);
                                }
                            } else {
                                assert(queue@[q0.len() as int] == t);
                            }
                        }
                        assert forall|p: int|
                            0 <= p < queue@.len() implies in_deg@[#[trigger] queue@[p] as int] == 0 || id_edges_into(
                            edges@,
                            queue@[p],
                            queue@.take(p).to_set(),
                        ) >= in_deg@[queue@[p] as int] by {
                            if p < q0.len() {
                                assert(queue@[p] == q0[p]);
                                assert(queue@.take(p) =~= q0.take(p));
                            }
                        }
                    }
                }
            }
            e = e + 1;
        }
        proof {
            assert(edges@.take(edges@.len() as int) =~= edges@);
            assert forall|v: usize| v < m implies #[trigger] counts@[v as int] == id_edges_into(
                edges@,
                v,
                queue@.take(head as int).to_set(),
            ) by {
                lemma_id_edges_into_union(edges@, v, before, one);
            }
        }
    }
    proof {
        assert(queue@.take(head as int) =~= queue@);
    }
    queue
}

proof fn lemma_take_edges_into(es: Seq<(usize, usize)>, v: usize, a: Set<usize>, e: int)
    requires
        0 <= e <= es.len(),
    ensures
        id_edges_into(es.take(e), v, a) <= id_edges_into(es, v, a),
    decreases es.len() - e,
{
    if e < es.len() {
        lemma_take_edges_into(es, v, a, e + 1);
        assert(es.take(e + 1).drop_last() =~= es.take(e));
    } else {
        assert(es.take(e) =~= es);
    }
}

impl DependencyGraph {
    /// The edges between the nodes of `packages`, and the number of needs of
    /// each node.
    pub(crate) fn order_graph(
        &self,
        packages: &[PackageData],
        nodes: &Vec<String>,
        node_of: &Vec<usize>,
        Ghost(last_of): Ghost<Seq<usize>>,
    ) -> (r: (Vec<(usize, usize)>, Vec<usize>))
        requires
            node_layout(packages.deep_view(), nodes.deep_view(), node_of@, last_of),
        ensures
            named_edges(nodes.deep_view(), r.0@) == order_edges(
                packages.deep_view(),
                self.available_packages@,
                packages.deep_view(),
            ),
            edges_within(r.0@, nodes@.len()),
            r.1@.len() == nodes@.len(),
            forall|k: int|
                0 <= k < nodes@.len() ==> #[trigger] r.1@[k] == occurrences(
                    order_needs(packages.deep_view(), self.available_packages@, packages.deep_view()),
                    nodes.deep_view()[k],
                ),
    {
        let ghost ps = packages.deep_view();
        let ghost nn = nodes.deep_view();
        let ghost avail = self.available_packages@;
        proof {
            lemma_layout_names(ps, nn, node_of@, last_of);
        }
        let m = nodes.len();
        let mut in_deg: Vec<usize> = Vec::new();
        let mut c: usize = 0;
        while c < m
            invariant
                c <= m,
                in_deg@.len() == c,
                forall|v: int| 0 <= v < c ==> in_deg@[v] == 0,
            decreases m - c,
        {
            in_deg.push(0);
            c = c + 1;
        }
        let mut edges: Vec<(usize, usize)> = Vec::new();
        let mut i: usize = 0;
        proof {
            assert(ps.take(0) =~= Seq::<PackageView>::empty());
            assert(named_edges(nn, edges@) =~= order_edges(ps, avail, ps.take(0)));
        }
        while i < packages.len()
            invariant
                i <= packages@.len(),
                ps == packages.deep_view(),
                nn == nodes.deep_view(),
                avail == self.available_packages@,
                m == nodes@.len(),
                node_layout(ps, nn, node_of@, last_of),
                forall|n: Seq<char>| names_package(ps, n) <==> nn.contains(n),
                edges_within(edges@, m as nat),
                named_edges(nn, edges@) == order_edges(ps, avail, ps.take(i as int)),
                in_deg@.len() == m,
                forall|k: int| 0 <= k < m ==> #[trigger] in_deg@[k] == occurrences(order_needs(ps, avail, ps.take(i as int)), nn[k]),
                forall|k: int| 0 <= k < m ==> in_deg@[k] <= edges@.len(),
            decreases packages.len() - i,
        {
            let pkg = &packages[i];
            let target = node_of[i];
            let ghost deg0 = in_deg@;
            proof {
                assert(ps[i as int] == pkg.deep_view());
                assert(nn[target as int] == name_of(ps[i as int]));
            }
            self.add_package_edges(nodes, &pkg.relation.depend, target, &mut edges, &mut in_deg, Ghost(ps));
            proof {
                let q = ps.take(i + 1);
                assert(q.drop_last() =~= ps.take(i as int));
                assert(q.last() == ps[i as int]);
                let needs = package_needs(ps, avail, pkg.deep_view().relation.depend, nn[target as int]);
                assert forall|k: int| 0 <= k < m implies #[trigger] in_deg@[k] == occurrences(order_needs(ps, avail, q), nn[k]) by {
                    lemma_occurrences_add(order_needs(ps, avail, ps.take(i as int)), needs, nn[k]);
                    lemma_needs_occurrences(ps, avail, pkg.deep_view().relation.depend, nn[target as int], nn[k]);
                }
            }
            i = i + 1;
        }
        assert(ps.take(packages@.len() as int) =~= ps);
        (edges, in_deg)
    }
}

/// A schedule of nodes gives a schedule of names, closed when the node
/// schedule leaves out only nodes that are not ready.
pub(crate) proof fn lemma_named_schedule(
    ps: Seq<PackageView>,
    avail: Set<(Seq<char>, Seq<char>)>,
    nn: Seq<Seq<char>>,
    node_of: Seq<usize>,
    last_of: Seq<usize>,
    es: Seq<(usize, usize)>,
    in_deg: Seq<usize>,
    queue: Seq<usize>,
)
    requires
        node_layout(ps, nn, node_of, last_of),
        named_edges(nn, es) == order_edges(ps, avail, ps),
        edges_within(es, nn.len()),
        in_deg.len() == nn.len(),
        nn.len() <= usize::MAX,
        forall|k: int| 0 <= k < nn.len() ==> #[trigger] in_deg[k] == occurrences(order_needs(ps, avail, ps), nn[k]),
        queue.no_duplicates(),
        forall|p: int| 0 <= p < queue.len() ==> #[trigger] queue[p] < in_deg.len(),
        forall|p: int|
            0 <= p < queue.len() ==> in_deg[#[trigger] queue[p] as int] == 0 || id_edges_into(
                es,
                queue[p],
                queue.take(p).to_set(),
            ) >= in_deg[queue[p] as int],
        forall|v: usize|
            v < in_deg.len() && !#[trigger] queue.contains(v) ==> in_deg[v as int] > 0 && id_edges_into(
                es,
                v,
                queue.to_set(),
            ) < in_deg[v as int],
    ensures
        install_schedule(ps, avail, node_names(nn, queue)),
        schedule_closed(ps, avail, node_names(nn, queue).to_set()),
{
    lemma_layout_names(ps, nn, node_of, last_of);
    let f = |k: usize| nn[k as int];
    let order = node_names(nn, queue);
    assert forall|i: int, j: int| 0 <= i < order.len() && 0 <= j < order.len() && i != j implies order[i] != order[j] by {
        assert(queue[i] != queue[j]);
        assert(queue[i] < nn.len() && queue[j] < nn.len());
    }
    assert forall|k: int| 0 <= k < order.len() implies names_package(ps, #[trigger] order[k]) && ready_after(
        ps,
        avail,
        order[k],
        order.take(k).to_set(),
    ) by {
        let q = queue[k];
        assert(nn.contains(nn[q as int]));
        let from = queue.take(k).to_set();
        assert forall|x: usize| #[trigger] from.contains(x) implies x < nn.len() by {
            let j = choose|j: int| 0 <= j < queue.take(k).len() && queue.take(k)[j] == x;
            assert(queue[j] == x);
        }
        lemma_named_edges_into(nn, es, q, from);
        queue.take(k).lemma_to_set_map_commutes(f);
        assert(order.take(k) =~= queue.take(k).map_values(f));
    }
    assert forall|n: Seq<char>|
        names_package(ps, n) && !order.to_set().contains(n) implies !#[trigger] ready_after(ps, avail, n, order.to_set()) by {
        assert(nn.contains(n));
        let v = choose|v: int| 0 <= v < nn.len() && nn[v] == n;
        let vu = v as usize;
        if queue.contains(vu) {
            let j = choose|j: int| 0 <= j < queue.len() && queue[j] == vu;
            assert(order[j] == n);
        }
        assert(!queue.contains(vu));
        let from = queue.to_set();
        assert forall|x: usize| #[trigger] from.contains(x) implies x < nn.len() by {
            let j = choose|j: int| 0 <= j < queue.len() && queue[j] == x;
        }
        lemma_named_edges_into(nn, es, vu, from);
        queue.lemma_to_set_map_commutes(f);
    }
}

/// There are at most as many nodes as packages, and as many when the
/// packages have distinct names.
pub(crate) proof fn lemma_layout_counts(ps: Seq<PackageView>, nn: Seq<Seq<char>>, node_of: Seq<usize>, last_of: Seq<usize>)
    requires
        node_layout(ps, nn, node_of, last_of),
        ps.len() <= usize::MAX,
        nn.len() <= usize::MAX,
    ensures
        nn.len() <= ps.len(),
        ps.map_values(|p: PackageView| name_of(p)).no_duplicates() ==> nn.len() == ps.len(),
{
    assert forall|i: int, j: int| 0 <= i < last_of.len() && 0 <= j < last_of.len() && i != j implies last_of[i]
        != last_of[j] by {
        assert(node_of[last_of[i] as int] == i);
        assert(node_of[last_of[j] as int] == j);
    }
    lemma_distinct_ids_bound(last_of, ps.len() as usize);
    let names = ps.map_values(|p: PackageView| name_of(p));
    if names.no_duplicates() {
        assert forall|i: int, j: int| 0 <= i < node_of.len() && 0 <= j < node_of.len() && i != j implies node_of[i]
            != node_of[j] by {
            assert(names[i] != names[j]);
            assert(nn[node_of[i] as int] == name_of(ps[i]));
            assert(nn[node_of[j] as int] == name_of(ps[j]));
        }
        lemma_distinct_ids_bound(node_of, nn.len() as usize);
    }
}

/// Whether some entry of the group `g` names a package of `ps`.
pub open spec fn group_names_batch(ps: Seq<PackageView>, g: Seq<PackageRangeView>) -> bool {
    exists|j: int| 0 <= j < g.len() && names_package(ps, #[trigger] g[j].name)
}

/// Whether the dependency group `g` can be resolved neither by an available
/// package nor by a package of the batch `ps`.
pub open spec fn group_unresolved(
    ps: Seq<PackageView>,
    avail: Set<(Seq<char>, Seq<char>)>,
    g: Seq<PackageRangeView>,
) -> bool {
    !group_met(avail, g) && !group_names_batch(ps, g)
}

/// The dependency groups of `p` that cannot be resolved, in order.
pub open spec fn unresolved_groups(
    ps: Seq<PackageView>,
    avail: Set<(Seq<char>, Seq<char>)>,
    p: PackageView,
) -> Seq<Seq<PackageRangeView>> {
    p.relation.depend.filter(|g: Seq<PackageRangeView>| group_unresolved(ps, avail, g))
}

/// Whether every dependency group of every package of `ps` can be resolved.
pub open spec fn all_resolved(ps: Seq<PackageView>, avail: Set<(Seq<char>, Seq<char>)>) -> bool {
    forall|i: int| 0 <= i < ps.len() ==> unresolved_groups(ps, avail, #[trigger] ps[i]).len() == 0
}

/// Whether a package of `packages` is named `n`.
fn names_a_package(packages: &[PackageData], n: &str) -> (r: bool)
    ensures
        r == names_package(packages.deep_view(), n@),
{
    let ghost ps = packages.deep_view();
    let mut i: usize = 0;
    while i < packages.len()
        invariant
            i <= packages@.len(),
            ps == packages.deep_view(),
            forall|k: int| 0 <= k < i ==> name_of(#[trigger] ps[k]) != n@,
        decreases packages.len() - i,
    {
        if str_eq(packages[i].about.package.name.as_str(), n) {
            assert(name_of(ps[i as int]) == n@);
            return true;
        }
        i = i + 1;
    }
    false
}

/// Whether some entry of `g` names a package of `packages`.
fn group_names_a_package(packages: &[PackageData], g: &Vec<PackageRange>) -> (r: bool)
    ensures
        r == group_names_batch(packages.deep_view(), g.deep_view()),
{
    let ghost gv = g.deep_view();
    let mut j: usize = 0;
    while j < g.len()
        invariant
            j <= g@.len(),
            gv == g.deep_view(),
            forall|k: int| 0 <= k < j ==> !names_package(packages.deep_view(), #[trigger] gv[k].name),
        decreases g.len() - j,
    {
        if names_a_package(packages, g[j].name.as_str()) {
            assert(names_package(packages.deep_view(), gv[j as int].name));
            return true;
        }
        j = j + 1;
    }
    false
}

impl DependencyGraph {
    /// The dependency groups of `p` that cannot be resolved by the available
    /// packages nor by the batch `packages`, in order.
    pub(crate) fn unresolved_groups_of(&self, packages: &[PackageData], p: &PackageData) -> (r: Vec<
        Vec<PackageRange>,
    >)
        ensures
            r.deep_view() == unresolved_groups(packages.deep_view(), self.available_packages@, p.deep_view()),
    {
        let groups = &p.relation.depend;
        let ghost gs = groups.deep_view();
        let ghost ps = packages.deep_view();
        let ghost avail = self.available_packages@;
        let ghost pred = |g: Seq<PackageRangeView>| group_unresolved(ps, avail, g);
        let mut r: Vec<Vec<PackageRange>> = Vec::new();
        let mut i: usize = 0;
        while i < groups.len()
            invariant
                i <= groups@.len(),
                gs == groups.deep_view(),
                gs == p.deep_view().relation.depend,
                ps == packages.deep_view(),
                avail == self.available_packages@,
                pred == (|g: Seq<PackageRangeView>| group_unresolved(ps, avail, g)),
                r.deep_view() == gs.take(i as int).filter(pred),
            decreases groups.len() - i,
        {
            proof {
                reveal(Seq::filter);
                assert(gs.take(i + 1).drop_last() =~= gs.take(i as int));
                assert(gs.take(i + 1).last() == gs[i as int]);
            }
            let met = self.is_group_satisfied(&groups[i]);
            let named = group_names_a_package(packages, &groups[i]);
            if !met && !named {
                let ghost before = r.deep_view();
                let copy = crate::pkg::clone_ranges(&groups[i]);
                r.push(copy);
                assert(r.deep_view() =~= before.push(gs[i as int]));
            }
            i = i + 1;
        }
        assert(gs.take(groups.len() as int) =~= gs);
        r
    }

    /// The first package of `packages` with a dependency group that cannot be
    /// resolved, and those groups; `None` when every group can be resolved.
    pub(crate) fn first_unresolved(&self, packages: &[PackageData]) -> (r: Option<(usize, Vec<Vec<PackageRange>>)>)
        ensures
            ({
                let ps = packages.deep_view();
                let avail = self.available_packages@;
                match r {
                    Some((i, m)) => {
                        &&& i < ps.len()
                        &&& m.deep_view() == unresolved_groups(ps, avail, ps[i as int])
                        &&& m@.len() > 0
                        &&& forall|j: int| 0 <= j < i ==> unresolved_groups(ps, avail, #[trigger] ps[j]).len() == 0
                    },
                    None => all_resolved(ps, avail),
                }
            }),
    {
        let ghost ps = packages.deep_view();
        let mut i: usize = 0;
        while i < packages.len()
            invariant
                i <= packages@.len(),
                ps == packages.deep_view(),
                forall|j: int|
                    0 <= j < i ==> unresolved_groups(ps, self.available_packages@, #[trigger] ps[j]).len() == 0,
            decreases packages.len() - i,
        {
            let m = self.unresolved_groups_of(packages, &packages[i]);
            assert(packages[i as int].deep_view() == ps[i as int]);
            if m.len() > 0 {
                return Some((i, m));
            }
            i = i + 1;
        }
        None
    }
}

} // verus!
