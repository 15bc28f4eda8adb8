//! Dependency resolution: which packages an installed set provides, whether
//! new packages can be installed beside it, whether some can be removed from
//! it, and in which order new packages are to be installed.
use crate::index::PackageIndex;
use crate::list::{clone_installed, infos, now_rfc3339, InstalledPackageData, InstalledView, PackageListData};
use crate::pkg::{PackageData, PackageRange, PackageRangeView, PackageView, RelationData};
use crate::text::{str_eq, strings_of};
use crate::version::{join, join_strings, range_accepts};
use order::{
    all_resolved, install_schedule, unresolved_groups, layout_nodes, lemma_distinct_ids_bound, lemma_layout_counts, lemma_layout_names,
    lemma_named_schedule, names_left, node_layout, node_names, schedule_closed, schedule_nodes,
};
pub mod order;

use vstd::prelude::*;

verus! {

broadcast use {vstd::seq_lib::group_seq_properties, vstd::seq_lib::group_filter_ensures};

/// Why a set of packages cannot be installed.
#[derive(Debug)]
pub enum InstallError {
    /// Some dependency group of `package` is met by no package present.
    MissingDependencies { package: String, missing: Vec<Vec<PackageRange>> },
    /// `package` conflicts with installed packages.
    ConflictsWithInstalled { package: String, conflicts: Vec<PackageRange> },
    /// `package` conflicts with another package installed with it.
    ConflictsWithOtherPackages { package: String, conflicts_with: String },
    /// `package` needs commands that the system lacks.
    MissingSystemCommands { package: String, missing_cmds: Vec<String> },
    /// The packages cannot be ordered: they depend on each other in a cycle.
    CyclicDependencies { packages: Vec<String> },
}

/// The view of an [`InstallError`].
pub enum InstallErrorView {
    MissingDependencies { package: Seq<char>, missing: Seq<Seq<PackageRangeView>> },
    ConflictsWithInstalled { package: Seq<char>, conflicts: Seq<PackageRangeView> },
    ConflictsWithOtherPackages { package: Seq<char>, conflicts_with: Seq<char> },
    MissingSystemCommands { package: Seq<char>, missing_cmds: Seq<Seq<char>> },
    CyclicDependencies { packages: Seq<Seq<char>> },
}

impl DeepView for InstallError {
    type V = InstallErrorView;

    open spec fn deep_view(&self) -> InstallErrorView {
        match self {
            InstallError::MissingDependencies { package, missing } => {
                InstallErrorView::MissingDependencies {
                    package: package@,
                    missing: missing.deep_view(),
                }
            },
            InstallError::ConflictsWithInstalled { package, conflicts } => {
                InstallErrorView::ConflictsWithInstalled {
                    package: package@,
                    conflicts: conflicts.deep_view(),
                }
            },
            InstallError::ConflictsWithOtherPackages { package, conflicts_with } => {
                InstallErrorView::ConflictsWithOtherPackages {
                    package: package@,
                    conflicts_with: conflicts_with@,
                }
            },
            InstallError::MissingSystemCommands { package, missing_cmds } => {
                InstallErrorView::MissingSystemCommands {
                    package: package@,
                    missing_cmds: missing_cmds.deep_view(),
                }
            },
            InstallError::CyclicDependencies { packages } => {
                InstallErrorView::CyclicDependencies { packages: packages.deep_view() }
            },
        }
    }
}

/// Why packages cannot be removed.
#[derive(Debug)]
pub enum RemoveError {
    /// Removing `package` would leave a dependency of `dependent_packages` unmet.
    DependencyOfOtherPackages { package: String, dependent_packages: Vec<String> },
}

/// The name of a package.
pub open spec fn name_of(p: PackageView) -> Seq<char> {
    p.about.package.name
}

/// The version text of a package.
pub open spec fn version_of(p: PackageView) -> Seq<char> {
    p.about.package.version
}

/// The commands of `needed` that are not among `available`, in order.
pub open spec fn missing_cmds(needed: Seq<Seq<char>>, available: Seq<Seq<char>>) -> Seq<Seq<char>> {
    needed.filter(|c: Seq<char>| !available.contains(c))
}

/// Whether every command that `relation` needs is among `available_cmds`.
pub fn are_depend_cmds_available(relation: &RelationData, available_cmds: &Vec<String>) -> (r: bool)
    ensures
        r == (forall|k: int|
            0 <= k < relation.depend_cmds@.len() ==> available_cmds.deep_view().contains(
                #[trigger] relation.depend_cmds@[k]@,
            )),
{
    let missing = get_missing_depend_cmds(relation, available_cmds);
    proof {
        let needed = relation.depend_cmds.deep_view();
        let pred = |c: Seq<char>| !available_cmds.deep_view().contains(c);
        if missing.len() == 0 {
            assert forall|k: int| 0 <= k < relation.depend_cmds@.len() implies available_cmds.deep_view().contains(
                #[trigger] relation.depend_cmds@[k]@,
            ) by {
                assert(needed[k] == relation.depend_cmds@[k]@);
                if !available_cmds.deep_view().contains(needed[k]) {
                    assert(needed.filter(pred).contains(needed[k]));
                }
            }
        } else {
            let c = needed.filter(pred)[0];
            assert(pred(c));
            assert(needed.filter(pred).contains(c));
            needed.lemma_filter_contains_rev(pred, c);
            let k = choose|k: int| 0 <= k < needed.len() && needed[k] == c;
            assert(needed[k] == relation.depend_cmds@[k]@);
            assert(!available_cmds.deep_view().contains(relation.depend_cmds@[k]@));
        }
    }
    missing.len() == 0
}

/// Whether the text `s` is one of `list`.
pub fn contains_string(list: &Vec<String>, s: &str) -> (r: bool)
    ensures
        r == list.deep_view().contains(s@),
{
    let mut i: usize = 0;
    while i < list.len()
        invariant
            i <= list.len(),
            forall|k: int| 0 <= k < i ==> list.deep_view()[k] != s@,
        decreases list.len() - i,
    {
        if str_eq(list[i].as_str(), s) {
            assert(list.deep_view()[i as int] == s@);
            return true;
        }
        i = i + 1;
    }
    false
}

/// The commands that `relation` needs and that are not among `available_cmds`, in order.
pub fn get_missing_depend_cmds(relation: &RelationData, available_cmds: &Vec<String>) -> (r: Vec<
    String,
>)
    ensures
        r.deep_view() == missing_cmds(relation.depend_cmds.deep_view(), available_cmds.deep_view()),
{
    let ghost needed = relation.depend_cmds.deep_view();
    let ghost pred = |c: Seq<char>| !available_cmds.deep_view().contains(c);
    let mut r: Vec<String> = Vec::new();
    let mut i: usize = 0;
    while i < relation.depend_cmds.len()
        invariant
            i <= relation.depend_cmds.len(),
            needed == relation.depend_cmds.deep_view(),
            pred == (|c: Seq<char>| !available_cmds.deep_view().contains(c)),
            r.deep_view() == needed.take(i as int).filter(pred),
        decreases relation.depend_cmds.len() - i,
    {
        proof {
            reveal(Seq::filter);
            assert(needed.take(i + 1).drop_last() =~= needed.take(i as int));
            assert(needed.take(i + 1).last() == relation.depend_cmds@[i as int]@);
        }
        let cmd = &relation.depend_cmds[i];
        if !contains_string(available_cmds, cmd.as_str()) {
            let ghost before = r.deep_view();
            r.push(cmd.clone());
            assert(r.deep_view() =~= before.push(cmd@));
        }
        i = i + 1;
    }
    assert(needed.take(relation.depend_cmds.len() as int) =~= needed);
    r
}


/// The (name, version) pairs of the packages `ps`.
pub open spec fn real_pairs(ps: Seq<PackageView>) -> Set<(Seq<char>, Seq<char>)> {
    Set::new(
        |q: (Seq<char>, Seq<char>)|
            exists|i: int| 0 <= i < ps.len() && q == (name_of(ps[i]), version_of(#[trigger] ps[i])),
    )
}

/// The (name, version) pairs of the virtual packages that `p` provides.
pub open spec fn own_virtuals(p: PackageView) -> Set<(Seq<char>, Seq<char>)> {
    Set::new(
        |q: (Seq<char>, Seq<char>)|
            exists|j: int|
                0 <= j < p.relation.virtuals.len() && q == (
                    (#[trigger] p.relation.virtuals[j]).name,
                    p.relation.virtuals[j].version,
                ),
    )
}

/// The (name, version) pairs of the virtual packages that the packages `ps` provide.
pub open spec fn virtual_pairs(ps: Seq<PackageView>) -> Set<(Seq<char>, Seq<char>)> {
    Set::new(
        |q: (Seq<char>, Seq<char>)|
            exists|i: int| 0 <= i < ps.len() && #[trigger] own_virtuals(ps[i]).contains(q),
    )
}

/// The (name, version) pairs that the packages `ps` make available: their own
/// and those of the virtual packages they provide.
pub open spec fn available_pairs(ps: Seq<PackageView>) -> Set<(Seq<char>, Seq<char>)> {
    real_pairs(ps).union(virtual_pairs(ps))
}

proof fn lemma_pairs_push(ps: Seq<PackageView>, x: PackageView)
    ensures
        real_pairs(ps.push(x)) == real_pairs(ps).insert((name_of(x), version_of(x))),
        virtual_pairs(ps.push(x)) == virtual_pairs(ps).union(own_virtuals(x)),
        available_pairs(ps.push(x)) == available_pairs(ps).insert((name_of(x), version_of(x))).union(
            own_virtuals(x),
        ),
{
    let qs = ps.push(x);
    assert forall|q: (Seq<char>, Seq<char>)| real_pairs(qs).contains(q) == real_pairs(ps).insert(
        (name_of(x), version_of(x)),
    ).contains(q) by {
        if real_pairs(qs).contains(q) {
            let i = choose|i: int| 0 <= i < qs.len() && q == (name_of(qs[i]), version_of(#[trigger] qs[i]));
            if i < ps.len() {
                assert(q == (name_of(ps[i]), version_of(ps[i])));
            }
        }
        if real_pairs(ps).contains(q) {
            let i = choose|i: int| 0 <= i < ps.len() && q == (name_of(ps[i]), version_of(#[trigger] ps[i]));
            assert(q == (name_of(qs[i]), version_of(qs[i])));
        }
        if q == (name_of(x), version_of(x)) {
            assert(q == (name_of(qs[ps.len() as int]), version_of(qs[ps.len() as int])));
        }
    }
    assert(real_pairs(qs) =~= real_pairs(ps).insert((name_of(x), version_of(x))));
    assert forall|q: (Seq<char>, Seq<char>)| virtual_pairs(qs).contains(q) == virtual_pairs(ps).union(
        own_virtuals(x),
    ).contains(q) by {
        if virtual_pairs(qs).contains(q) {
            let i = choose|i: int| 0 <= i < qs.len() && #[trigger] own_virtuals(qs[i]).contains(q);
            if i < ps.len() {
                assert(own_virtuals(ps[i]).contains(q));
            }
        }
        if virtual_pairs(ps).contains(q) {
            let i = choose|i: int| 0 <= i < ps.len() && #[trigger] own_virtuals(ps[i]).contains(q);
            assert(own_virtuals(qs[i]).contains(q));
        }
        if own_virtuals(x).contains(q) {
            assert(own_virtuals(qs[ps.len() as int]).contains(q));
        }
    }
    assert(virtual_pairs(qs) =~= virtual_pairs(ps).union(own_virtuals(x)));
    assert(available_pairs(qs) =~= available_pairs(ps).insert((name_of(x), version_of(x))).union(
        own_virtuals(x),
    ));
}

/// Whether the dependency `d` is met among the pairs `avail`: some version
/// present under its name lies in its range.
pub open spec fn dep_met(avail: Set<(Seq<char>, Seq<char>)>, d: PackageRangeView) -> bool {
    exists|t: Seq<char>| avail.contains((d.name, t)) && range_accepts(d.range, t)
}

/// Whether one of the alternatives of the group `g` is met among `avail`.
pub open spec fn group_met(avail: Set<(Seq<char>, Seq<char>)>, g: Seq<PackageRangeView>) -> bool {
    exists|j: int| 0 <= j < g.len() && dep_met(avail, #[trigger] g[j])
}

/// Whether every dependency group of `groups` is met among `avail`.
pub open spec fn deps_met(avail: Set<(Seq<char>, Seq<char>)>, groups: Seq<Seq<PackageRangeView>>) -> bool {
    forall|i: int| 0 <= i < groups.len() ==> group_met(avail, #[trigger] groups[i])
}

/// The dependency groups of `groups` that are not met among `avail`, in order.
pub open spec fn unmet_groups(avail: Set<(Seq<char>, Seq<char>)>, groups: Seq<Seq<PackageRangeView>>) -> Seq<
    Seq<PackageRangeView>,
> {
    groups.filter(|g: Seq<PackageRangeView>| !group_met(avail, g))
}

/// The conflicts of `conflicts` that some pair of `installed` meets, in order.
pub open spec fn present_conflicts(installed: Set<(Seq<char>, Seq<char>)>, conflicts: Seq<PackageRangeView>) -> Seq<
    PackageRangeView,
> {
    conflicts.filter(|c: PackageRangeView| dep_met(installed, c))
}

/// Whether the conflict entry `c` names the package `p` at a version in its range.
pub open spec fn hits(c: PackageRangeView, p: PackageView) -> bool {
    c.name == name_of(p) && range_accepts(c.range, version_of(p))
}

/// Whether `a` declares a conflict with `b`, or `b` with `a`.
pub open spec fn conflicts_between(a: PackageView, b: PackageView) -> bool {
    ||| exists|k: int|
        0 <= k < a.relation.conflicts.len() && hits(#[trigger] a.relation.conflicts[k], b)
    ||| exists|k: int|
        0 <= k < b.relation.conflicts.len() && hits(#[trigger] b.relation.conflicts[k], a)
}

/// The name of the first package of `others` that conflicts with `a`, if any does.
pub open spec fn first_conflicting(a: PackageView, others: Seq<PackageView>) -> Option<Seq<char>>
    decreases others.len(),
{
    if others.len() == 0 {
        None
    } else if conflicts_between(a, others[0]) {
        Some(name_of(others[0]))
    } else {
        first_conflicting(a, others.drop_first())
    }
}

/// Whether the package `a` declares a conflict that names `b` with a range
/// that holds `b`'s version.
pub open spec fn declares_conflict_on(a: PackageView, b: PackageView) -> bool {
    exists|k: int|
        0 <= k < a.relation.conflicts.len() && #[trigger] a.relation.conflicts[k].name == name_of(b)
            && range_accepts(a.relation.conflicts[k].range, version_of(b))
}

/// A package installed together with others is reported as conflicting only
/// when a conflict entry of one of the two names the other and its range
/// holds the other's version: the name reported is that of the first such
/// package, and none is reported when every such entry's range leaves the
/// other's version out.
pub proof fn lemma_conflicts_need_version_in_range(a: PackageView, others: Seq<PackageView>)
    ensures
        match first_conflicting(a, others) {
            Some(n) => exists|j: int|
                0 <= j < others.len() && name_of(#[trigger] others[j]) == n && (declares_conflict_on(a, others[j])
                    || declares_conflict_on(others[j], a)) && forall|i: int|
                    0 <= i < j ==> !declares_conflict_on(a, #[trigger] others[i]) && !declares_conflict_on(
                        others[i],
                        a,
                    ),
            None => forall|j: int|
                0 <= j < others.len() ==> !declares_conflict_on(a, #[trigger] others[j]) && !declares_conflict_on(
                    others[j],
                    a,
                ),
        },
    decreases others.len(),
{
    if others.len() > 0 {
        let b = others[0];
        let rest = others.drop_first();
        lemma_conflicts_need_version_in_range(a, rest);
        assert(conflicts_between(a, b) <==> (declares_conflict_on(a, b) || declares_conflict_on(b, a))) by {
            if declares_conflict_on(a, b) {
                let k = choose|k: int|
                    0 <= k < a.relation.conflicts.len() && #[trigger] a.relation.conflicts[k].name == name_of(b)
                        && range_accepts(a.relation.conflicts[k].range, version_of(b));
                assert(hits(a.relation.conflicts[k], b));
            }
            if declares_conflict_on(b, a) {
                let k = choose|k: int|
                    0 <= k < b.relation.conflicts.len() && #[trigger] b.relation.conflicts[k].name == name_of(a)
                        && range_accepts(b.relation.conflicts[k].range, version_of(a));
                assert(hits(b.relation.conflicts[k], a));
            }
            if conflicts_between(a, b) {
                if exists|k: int| 0 <= k < a.relation.conflicts.len() && hits(#[trigger] a.relation.conflicts[k], b) {
                    let k = choose|k: int| 0 <= k < a.relation.conflicts.len() && hits(#[trigger] a.relation.conflicts[k], b);
                    assert(a.relation.conflicts[k].name == name_of(b));
                } else {
                    let k = choose|k: int| 0 <= k < b.relation.conflicts.len() && hits(#[trigger] b.relation.conflicts[k], a);
                    assert(b.relation.conflicts[k].name == name_of(a));
                }
            }
        }
        assert forall|j: int| 1 <= j < others.len() implies #[trigger] others[j] == rest[j - 1] by {}
        if conflicts_between(a, b) {
            assert(name_of(others[0]) == name_of(b));
        } else {
            match first_conflicting(a, rest) {
                Some(n) => {
                    let j = choose|j: int|
                        0 <= j < rest.len() && name_of(#[trigger] rest[j]) == n && (declares_conflict_on(a, rest[j])
                            || declares_conflict_on(rest[j], a)) && forall|i: int|
                            0 <= i < j ==> !declares_conflict_on(a, #[trigger] rest[i]) && !declares_conflict_on(
                                rest[i],
                                a,
                            );
                    assert(others[j + 1] == rest[j]);
                    assert forall|i: int| 0 <= i < j + 1 implies !declares_conflict_on(a, #[trigger] others[i])
                        && !declares_conflict_on(others[i], a) by {
                        if i > 0 {
                            assert(others[i] == rest[i - 1]);
                        }
                    }
                },
                None => {
                    assert forall|j: int| 0 <= j < others.len() implies !declares_conflict_on(a, #[trigger] others[j])
                        && !declares_conflict_on(others[j], a) by {
                        if j > 0 {
                            assert(others[j] == rest[j - 1]);
                        }
                    }
                },
            }
        }
    }
}

/// The first refusal that the command check gives: the first package of
/// `ps`, from index `from` on, that needs a command missing from `cmds`.
pub open spec fn cmd_refusal(ps: Seq<PackageView>, cmds: Seq<Seq<char>>, from: int) -> Option<InstallErrorView>
    decreases ps.len() - from,
{
    if from < 0 || from >= ps.len() {
        None
    } else if missing_cmds(ps[from].relation.depend_cmds, cmds).len() > 0 {
        Some(
            InstallErrorView::MissingSystemCommands {
                package: name_of(ps[from]),
                missing_cmds: missing_cmds(ps[from].relation.depend_cmds, cmds),
            },
        )
    } else {
        cmd_refusal(ps, cmds, from + 1)
    }
}

/// The refusal, if any, of the package `ps[i]`: its dependency groups are
/// checked among `avail` (installed and new packages together), its conflicts
/// among the installed pairs `reals`, and then against the other new packages.
pub open spec fn package_refusal(
    reals: Set<(Seq<char>, Seq<char>)>,
    avail: Set<(Seq<char>, Seq<char>)>,
    ps: Seq<PackageView>,
    i: int,
) -> Option<InstallErrorView> {
    let p = ps[i];
    if unmet_groups(avail, p.relation.depend).len() > 0 {
        Some(
            InstallErrorView::MissingDependencies {
                package: name_of(p),
                missing: unmet_groups(avail, p.relation.depend),
            },
        )
    } else if present_conflicts(reals, p.relation.conflicts).len() > 0 {
        Some(
            InstallErrorView::ConflictsWithInstalled {
                package: name_of(p),
                conflicts: present_conflicts(reals, p.relation.conflicts),
            },
        )
    } else {
        match first_conflicting(p, ps.remove(i)) {
            Some(n) => Some(
                InstallErrorView::ConflictsWithOtherPackages { package: name_of(p), conflicts_with: n },
            ),
            None => None,
        }
    }
}

/// The first refusal among the packages of `ps` from index `from` on.
pub open spec fn packages_refusal(
    reals: Set<(Seq<char>, Seq<char>)>,
    avail: Set<(Seq<char>, Seq<char>)>,
    ps: Seq<PackageView>,
    from: int,
) -> Option<InstallErrorView>
    decreases ps.len() - from,
{
    if from < 0 || from >= ps.len() {
        None
    } else {
        match package_refusal(reals, avail, ps, from) {
            Some(e) => Some(e),
            None => packages_refusal(reals, avail, ps, from + 1),
        }
    }
}

/// Why the packages `ps` cannot be installed beside the installed pairs
/// `reals` (with `avail` available) on a system with the commands `cmds`, or
/// `None` when they can: the commands of every package are checked first,
/// then each package in order.
pub open spec fn install_refusal(
    reals: Set<(Seq<char>, Seq<char>)>,
    avail: Set<(Seq<char>, Seq<char>)>,
    ps: Seq<PackageView>,
    cmds: Seq<Seq<char>>,
) -> Option<InstallErrorView> {
    match cmd_refusal(ps, cmds, 0) {
        Some(e) => Some(e),
        None => packages_refusal(reals, avail.union(available_pairs(ps)), ps, 0),
    }
}

/// The name of the first installed package of `s`, not named in `names`,
/// whose dependencies are not met among `avail`.
pub open spec fn first_dependent(s: Seq<InstalledView>, names: Seq<Seq<char>>, avail: Set<(Seq<char>, Seq<char>)>) -> Option<
    Seq<char>,
>
    decreases s.len(),
{
    if s.len() == 0 {
        None
    } else if !names.contains(s[0].info.about.package.name) && !deps_met(avail, s[0].info.relation.depend) {
        Some(s[0].info.about.package.name)
    } else {
        first_dependent(s.drop_first(), names, avail)
    }
}

/// `get_missing_dependencies` finds no missing group exactly when
/// `are_dependencies_satisfied` holds: a list of groups has no unmet group
/// exactly when every group is met.
pub proof fn lemma_unmet_groups_empty(avail: Set<(Seq<char>, Seq<char>)>, gs: Seq<Seq<PackageRangeView>>)
    ensures
        unmet_groups(avail, gs).len() == 0 <==> deps_met(avail, gs),
{
    let pred = |g: Seq<PackageRangeView>| !group_met(avail, g);
    if unmet_groups(avail, gs).len() == 0 {
        assert forall|i: int| 0 <= i < gs.len() implies group_met(avail, #[trigger] gs[i]) by {
            if !group_met(avail, gs[i]) {
                gs.lemma_filter_contains(pred, i);
            }
        }
    }
    if deps_met(avail, gs) && unmet_groups(avail, gs).len() > 0 {
        let g = gs.filter(pred)[0];
        gs.lemma_filter_pred(pred, 0);
        assert(gs.filter(pred).contains(g));
        gs.lemma_filter_contains_rev(pred, g);
        let i = choose|i: int| 0 <= i < gs.len() && gs[i] == g;
        assert(group_met(avail, gs[i]));
    }
}

/// `has_conflicts` answers `None` exactly when no conflict of the package is
/// met by an installed package: a list of conflicts has no present entry
/// exactly when none of its entries is met among `installed`.
pub proof fn lemma_present_conflicts_empty(installed: Set<(Seq<char>, Seq<char>)>, cs: Seq<PackageRangeView>)
    ensures
        present_conflicts(installed, cs).len() == 0 <==> forall|k: int| 0 <= k < cs.len() ==> !dep_met(installed, #[trigger] cs[k]),
{
    let pred = |c: PackageRangeView| dep_met(installed, c);
    if present_conflicts(installed, cs).len() == 0 {
        assert forall|k: int| 0 <= k < cs.len() implies !dep_met(installed, #[trigger] cs[k]) by {
            if dep_met(installed, cs[k]) {
                cs.lemma_filter_contains(pred, k);
            }
        }
    } else {
        let c = cs.filter(pred)[0];
        cs.lemma_filter_pred(pred, 0);
        assert(cs.filter(pred).contains(c));
        cs.lemma_filter_contains_rev(pred, c);
    }
}

/// No package of `others` conflicts with `a` exactly when the search for one finds none.
pub proof fn lemma_first_conflicting_none(a: PackageView, others: Seq<PackageView>)
    ensures
        first_conflicting(a, others) is None <==> forall|j: int| 0 <= j < others.len() ==> !conflicts_between(a, #[trigger] others[j]),
    decreases others.len(),
{
    if others.len() > 0 {
        lemma_first_conflicting_none(a, others.drop_first());
        assert forall|j: int| 1 <= j < others.len() implies others.drop_first()[j - 1] == #[trigger] others[j] by {}
        if forall|j: int| 1 <= j < others.len() ==> !conflicts_between(a, #[trigger] others[j]) {
            assert forall|j: int| 0 <= j < others.drop_first().len() implies !conflicts_between(a, #[trigger] others.drop_first()[j]) by {
                assert(others.drop_first()[j] == others[j + 1]);
            }
        }
    }
}

/// Whether the package `ps[i]`, installed together with all of `ps` beside
/// the installed pairs `reals` (with `avail` available) on a system with the
/// commands `cmds`, has what it needs and meets no conflict.
pub open spec fn installs_cleanly(
    reals: Set<(Seq<char>, Seq<char>)>,
    avail: Set<(Seq<char>, Seq<char>)>,
    ps: Seq<PackageView>,
    cmds: Seq<Seq<char>>,
    i: int,
) -> bool {
    &&& missing_cmds(ps[i].relation.depend_cmds, cmds).len() == 0
    &&& deps_met(avail.union(available_pairs(ps)), ps[i].relation.depend)
    &&& forall|k: int|
        0 <= k < ps[i].relation.conflicts.len() ==> !dep_met(reals, #[trigger] ps[i].relation.conflicts[k])
    &&& forall|j: int| 0 <= j < ps.len() && j != i ==> !conflicts_between(ps[i], #[trigger] ps[j])
}

proof fn lemma_cmd_refusal_none(ps: Seq<PackageView>, cmds: Seq<Seq<char>>, from: int)
    requires
        0 <= from <= ps.len(),
    ensures
        cmd_refusal(ps, cmds, from) is None <==> forall|i: int|
            from <= i < ps.len() ==> missing_cmds((#[trigger] ps[i]).relation.depend_cmds, cmds).len() == 0,
    decreases ps.len() - from,
{
    if from < ps.len() {
        lemma_cmd_refusal_none(ps, cmds, from + 1);
    }
}

proof fn lemma_packages_refusal_none(
    reals: Set<(Seq<char>, Seq<char>)>,
    avail: Set<(Seq<char>, Seq<char>)>,
    ps: Seq<PackageView>,
    from: int,
)
    requires
        0 <= from <= ps.len(),
    ensures
        packages_refusal(reals, avail, ps, from) is None <==> forall|i: int|
            from <= i < ps.len() ==> #[trigger] package_refusal(reals, avail, ps, i) is None,
    decreases ps.len() - from,
{
    if from < ps.len() {
        lemma_packages_refusal_none(reals, avail, ps, from + 1);
    }
}

proof fn lemma_package_refusal_none(
    reals: Set<(Seq<char>, Seq<char>)>,
    all: Set<(Seq<char>, Seq<char>)>,
    ps: Seq<PackageView>,
    i: int,
)
    requires
        0 <= i < ps.len(),
    ensures
        package_refusal(reals, all, ps, i) is None <==> {
            &&& deps_met(all, ps[i].relation.depend)
            &&& forall|k: int|
                0 <= k < ps[i].relation.conflicts.len() ==> !dep_met(reals, #[trigger] ps[i].relation.conflicts[k])
            &&& forall|j: int| 0 <= j < ps.len() && j != i ==> !conflicts_between(ps[i], #[trigger] ps[j])
        },
{
    lemma_unmet_groups_empty(all, ps[i].relation.depend);
    lemma_present_conflicts_empty(reals, ps[i].relation.conflicts);
    let others = ps.remove(i);
    lemma_first_conflicting_none(ps[i], others);
    if forall|j: int| 0 <= j < others.len() ==> !conflicts_between(ps[i], #[trigger] others[j]) {
        assert forall|j: int| 0 <= j < ps.len() && j != i implies !conflicts_between(ps[i], #[trigger] ps[j]) by {
            if j < i {
                assert(others[j] == ps[j]);
            } else {
                assert(others[j - 1] == ps[j]);
            }
        }
    }
    if forall|j: int| 0 <= j < ps.len() && j != i ==> !conflicts_between(ps[i], #[trigger] ps[j]) {
        assert forall|j: int| 0 <= j < others.len() implies !conflicts_between(ps[i], #[trigger] others[j]) by {
            if j < i {
                assert(others[j] == ps[j]);
            } else {
                assert(others[j] == ps[j + 1]);
            }
        }
    }
}

/// New packages are accepted exactly when each of them installs cleanly:
/// every command it needs is present, each of its dependency groups is met
/// among the installed and the new packages, no installed package meets one
/// of its conflicts, and it conflicts with none of the other new packages.
pub proof fn lemma_installable_iff(
    reals: Set<(Seq<char>, Seq<char>)>,
    avail: Set<(Seq<char>, Seq<char>)>,
    ps: Seq<PackageView>,
    cmds: Seq<Seq<char>>,
)
    ensures
        install_refusal(reals, avail, ps, cmds) is None <==> forall|i: int|
            0 <= i < ps.len() ==> #[trigger] installs_cleanly(reals, avail, ps, cmds, i),
{
    let all = avail.union(available_pairs(ps));
    lemma_cmd_refusal_none(ps, cmds, 0);
    lemma_packages_refusal_none(reals, all, ps, 0);
    if install_refusal(reals, avail, ps, cmds) is None {
        assert forall|i: int| 0 <= i < ps.len() implies #[trigger] installs_cleanly(reals, avail, ps, cmds, i) by {
            lemma_package_refusal_none(reals, all, ps, i);
            assert(package_refusal(reals, all, ps, i) is None);
        }
    }
    if forall|i: int| 0 <= i < ps.len() ==> #[trigger] installs_cleanly(reals, avail, ps, cmds, i) {
        assert forall|i: int| 0 <= i < ps.len() implies missing_cmds((#[trigger] ps[i]).relation.depend_cmds, cmds).len()
            == 0 by {
            assert(installs_cleanly(reals, avail, ps, cmds, i));
        }
        assert forall|i: int| 0 <= i < ps.len() implies #[trigger] package_refusal(reals, all, ps, i) is None by {
            assert(installs_cleanly(reals, avail, ps, cmds, i));
            lemma_package_refusal_none(reals, all, ps, i);
        }
    }
}

/// The first blocking package is missing exactly when every installed
/// package that stays has its dependency groups met.
pub proof fn lemma_removable_iff(s: Seq<InstalledView>, names: Seq<Seq<char>>, avail: Set<(Seq<char>, Seq<char>)>)
    ensures
        first_dependent(s, names, avail) is None <==> forall|i: int|
            0 <= i < s.len() && !names.contains((#[trigger] s[i]).info.about.package.name) ==> deps_met(
                avail,
                s[i].info.relation.depend,
            ),
    decreases s.len(),
{
    if s.len() > 0 {
        lemma_removable_iff(s.drop_first(), names, avail);
        assert forall|i: int| 1 <= i < s.len() implies s.drop_first()[i - 1] == #[trigger] s[i] by {}
    }
}

/// Removing packages by name keeps exactly the installed packages with other
/// names, in order.
pub proof fn lemma_kept_installed(s: Seq<InstalledView>, names: Seq<Seq<char>>)
    ensures
        forall|k: int|
            0 <= k < kept_installed(s, names).len() ==> !names.contains(
                (#[trigger] kept_installed(s, names)[k]).info.about.package.name,
            ) && s.contains(kept_installed(s, names)[k]),
        forall|i: int|
            0 <= i < s.len() && !names.contains((#[trigger] s[i]).info.about.package.name) ==> kept_installed(
                s,
                names,
            ).contains(s[i]),
{
    let pred = |x: InstalledView| !names.contains(x.info.about.package.name);
    assert forall|k: int| 0 <= k < kept_installed(s, names).len() implies !names.contains(
        (#[trigger] kept_installed(s, names)[k]).info.about.package.name,
    ) && s.contains(kept_installed(s, names)[k]) by {
        s.lemma_filter_pred(pred, k);
        assert(s.filter(pred).contains(s.filter(pred)[k]));
        s.lemma_filter_contains_rev(pred, s.filter(pred)[k]);
    }
    assert forall|i: int| 0 <= i < s.len() && !names.contains((#[trigger] s[i]).info.about.package.name) implies kept_installed(
        s,
        names,
    ).contains(s[i]) by {
        s.lemma_filter_contains(pred, i);
    }
}

/// Which packages are installed, which (name, version) pairs they make
/// available, and which of those are packages of their own.
#[derive(Debug)]
pub struct DependencyGraph {
    /// The pairs of the installed packages and of the virtual packages they provide.
    pub available_packages: PackageIndex,
    /// The pairs of the installed packages.
    pub real_packages: PackageIndex,
    /// The installed packages.
    pub installed_package_data: Vec<InstalledPackageData>,
}

/// Adds the pairs of `pkg` to the indexes `reals` and `available`.
fn add_package_pairs(reals: &mut PackageIndex, available: &mut PackageIndex, pkg: &PackageData)
    ensures
        final(reals)@ == old(reals)@.insert((name_of(pkg.deep_view()), version_of(pkg.deep_view()))),
        final(available)@ == old(available)@.insert(
            (name_of(pkg.deep_view()), version_of(pkg.deep_view())),
        ).union(own_virtuals(pkg.deep_view())),
{
    let name = pkg.about.package.name.as_str();
    let version = &pkg.about.package.version;
    reals.insert(name, version);
    available.insert(name, version);
    let ghost base = available@;
    let ghost p = pkg.deep_view();
    let mut j: usize = 0;
    while j < pkg.relation.virtuals.len()
        invariant
            j <= pkg.relation.virtuals@.len(),
            p == pkg.deep_view(),
            available@ == base.union(
                Set::new(
                    |q: (Seq<char>, Seq<char>)|
                        exists|k: int|
                            0 <= k < j && q == (
                                (#[trigger] p.relation.virtuals[k]).name,
                                p.relation.virtuals[k].version,
                            ),
                ),
            ),
        decreases pkg.relation.virtuals.len() - j,
    {
        let v = &pkg.relation.virtuals[j];
        let ghost before = available@;
        available.insert(v.name.as_str(), &v.version);
        proof {
            assert(p.relation.virtuals[j as int] == v.deep_view());
            assert(available@ =~= base.union(
                Set::new(
                    |q: (Seq<char>, Seq<char>)|
                        exists|k: int|
                            0 <= k < j + 1 && q == (
                                (#[trigger] p.relation.virtuals[k]).name,
                                p.relation.virtuals[k].version,
                            ),
                ),
            ));
        }
        j = j + 1;
    }
    assert(available@ =~= base.union(own_virtuals(p)));
}


/// The installed packages of `s` whose names are not among `names`, in order.
pub open spec fn kept_installed(s: Seq<InstalledView>, names: Seq<Seq<char>>) -> Seq<InstalledView> {
    s.filter(|x: InstalledView| !names.contains(x.info.about.package.name))
}

proof fn lemma_infos_push(s: Seq<InstalledView>, x: InstalledView)
    ensures
        infos(s.push(x)) == infos(s).push(x.info),
{
    assert(infos(s.push(x)) =~= infos(s).push(x.info));
}

/// Whether the text `n` is one of `names`.
pub fn names_contain(names: &[&str], n: &str) -> (r: bool)
    ensures
        r == names.deep_view().contains(n@),
{
    let mut i: usize = 0;
    while i < names.len()
        invariant
            i <= names@.len(),
            forall|k: int| 0 <= k < i ==> names.deep_view()[k] != n@,
        decreases names.len() - i,
    {
        if str_eq(names[i], n) {
            assert(names.deep_view()[i as int] == n@);
            return true;
        }
        i = i + 1;
    }
    false
}

impl Default for DependencyGraph {
    fn default() -> (r: DependencyGraph)
        ensures
            r.available_packages@ == Set::<(Seq<char>, Seq<char>)>::empty(),
            r.real_packages@ == Set::<(Seq<char>, Seq<char>)>::empty(),
            r.installed_package_data@.len() == 0,
    {
        DependencyGraph::new()
    }
}

impl DependencyGraph {
    /// An empty graph: nothing installed, nothing available.
    pub fn new() -> (r: DependencyGraph)
        ensures
            r.available_packages@ == Set::<(Seq<char>, Seq<char>)>::empty(),
            r.real_packages@ == Set::<(Seq<char>, Seq<char>)>::empty(),
            r.installed_package_data@.len() == 0,
    {
        DependencyGraph {
            available_packages: PackageIndex::new(),
            real_packages: PackageIndex::new(),
            installed_package_data: Vec::new(),
        }
    }

    /// Whether the graph describes exactly the installed packages `s`.
    pub open spec fn describes(&self, s: Seq<InstalledView>) -> bool {
        &&& self.installed_package_data.deep_view() == s
        &&& self.real_packages@ == real_pairs(infos(s))
        &&& self.available_packages@ == available_pairs(infos(s))
    }

    /// The graph of the packages installed in `installed_packages`.
    pub fn from_installed_packages(installed_packages: &PackageListData) -> (r: DependencyGraph)
        ensures
            r.describes(installed_packages.installed_packages.deep_view()),
    {
        let list = &installed_packages.installed_packages;
        let ghost s = list.deep_view();
        let mut g = DependencyGraph::new();
        let mut i: usize = 0;
        proof {
            assert(s.take(0) =~= Seq::<InstalledView>::empty());
            assert(infos(s.take(0)) =~= Seq::<PackageView>::empty());
            assert(real_pairs(infos(s.take(0))) =~= Set::<(Seq<char>, Seq<char>)>::empty());
            assert(virtual_pairs(infos(s.take(0))) =~= Set::<(Seq<char>, Seq<char>)>::empty());
            assert(available_pairs(infos(s.take(0))) =~= Set::<(Seq<char>, Seq<char>)>::empty());
            assert(g.installed_package_data.deep_view() =~= s.take(0));
        }
        while i < list.len()
            invariant
                i <= list@.len(),
                s == list.deep_view(),
                g.describes(s.take(i as int)),
            decreases list.len() - i,
        {
            let item = &list[i];
            add_package_pairs(&mut g.real_packages, &mut g.available_packages, &item.info);
            let ghost before = g.installed_package_data.deep_view();
            g.installed_package_data.push(item.clone());
            proof {
                assert(s.take(i + 1) =~= s.take(i as int).push(s[i as int]));
                assert(s[i as int] == item.deep_view());
                lemma_infos_push(s.take(i as int), s[i as int]);
                lemma_pairs_push(infos(s.take(i as int)), item.info.deep_view());
                assert(g.installed_package_data.deep_view() =~= before.push(item.deep_view()));
            }
            i = i + 1;
        }
        assert(s.take(list.len() as int) =~= s);
        g
    }

    /// The pairs of the installed packages.
    pub fn get_real_packages(&self) -> (r: &PackageIndex)
        ensures
            r@ == self.real_packages@,
    {
        &self.real_packages
    }

    /// The pairs of the installed packages and of the virtual packages they provide.
    pub fn get_available_packages(&self) -> (r: &PackageIndex)
        ensures
            r@ == self.available_packages@,
    {
        &self.available_packages
    }

    /// The graph of the installed packages whose names are not among
    /// `packages_to_remove`.
    pub fn without_packages(&self, packages_to_remove: &[&str]) -> (r: DependencyGraph)
        ensures
            r.describes(
                kept_installed(self.installed_package_data.deep_view(), packages_to_remove.deep_view()),
            ),
    {
        let list = &self.installed_package_data;
        let ghost s = list.deep_view();
        let ghost names = packages_to_remove.deep_view();
        let ghost pred = |x: InstalledView| !names.contains(x.info.about.package.name);
        let mut g = DependencyGraph::new();
        let mut i: usize = 0;
        proof {
            reveal(Seq::filter);
            assert(s.take(0) =~= Seq::<InstalledView>::empty());
            assert(s.take(0).filter(pred) =~= Seq::<InstalledView>::empty());
            assert(infos(s.take(0).filter(pred)) =~= Seq::<PackageView>::empty());
            assert(real_pairs(infos(s.take(0).filter(pred))) =~= Set::<(Seq<char>, Seq<char>)>::empty());
            assert(virtual_pairs(infos(s.take(0).filter(pred))) =~= Set::<(Seq<char>, Seq<char>)>::empty());
            assert(available_pairs(infos(s.take(0).filter(pred))) =~= Set::<(Seq<char>, Seq<char>)>::empty());
            assert(g.installed_package_data.deep_view() =~= s.take(0).filter(pred));
        }
        while i < list.len()
            invariant
                i <= list@.len(),
                s == list.deep_view(),
                names == packages_to_remove.deep_view(),
                pred == (|x: InstalledView| !names.contains(x.info.about.package.name)),
                g.describes(s.take(i as int).filter(pred)),
            decreases list.len() - i,
        {
            let item = &list[i];
            proof {
                reveal(Seq::filter);
                assert(s.take(i + 1).drop_last() =~= s.take(i as int));
                assert(s.take(i + 1).last() == s[i as int]);
                assert(s[i as int] == item.deep_view());
            }
            if !names_contain(packages_to_remove, item.info.about.package.name.as_str()) {
                add_package_pairs(&mut g.real_packages, &mut g.available_packages, &item.info);
                let ghost before = g.installed_package_data.deep_view();
                g.installed_package_data.push(item.clone());
                proof {
                    let prev = s.take(i as int).filter(pred);
                    lemma_infos_push(prev, s[i as int]);
                    lemma_pairs_push(infos(prev), item.info.deep_view());
                    assert(g.installed_package_data.deep_view() =~= before.push(item.deep_view()));
                }
            }
            i = i + 1;
        }
        assert(s.take(list.len() as int) =~= s);
        g
    }

    /// Whether `dep` is met by some available package.
    pub fn is_dependency_satisfied(&self, dep: &PackageRange) -> (r: bool)
        ensures
            r == dep_met(self.available_packages@, dep.deep_view()),
    {
        self.available_packages.any_in_range(dep.name.as_str(), &dep.range)
    }

    /// Whether every dependency group of `group` has an alternative met among
    /// the available packages.
    pub(crate) fn is_group_satisfied(&self, group: &Vec<PackageRange>) -> (r: bool)
        ensures
            r == group_met(self.available_packages@, group.deep_view()),
    {
        let mut j: usize = 0;
        while j < group.len()
            invariant
                j <= group@.len(),
                forall|k: int| 0 <= k < j ==> !dep_met(self.available_packages@, #[trigger] group.deep_view()[k]),
            decreases group.len() - j,
        {
            if self.is_dependency_satisfied(&group[j]) {
                assert(dep_met(self.available_packages@, group.deep_view()[j as int]));
                return true;
            }
            j = j + 1;
        }
        false
    }

    /// Whether every dependency group of `package` is met among the available packages.
    pub fn are_dependencies_satisfied(&self, package: &PackageData) -> (r: bool)
        ensures
            r == deps_met(self.available_packages@, package.deep_view().relation.depend),
    {
        let groups = &package.relation.depend;
        let ghost gs = package.deep_view().relation.depend;
        assert(gs == groups.deep_view());
        assert(gs.len() == groups@.len());
        let mut i: usize = 0;
        while i < groups.len()
            invariant
                i <= groups@.len(),
                gs == package.deep_view().relation.depend,
                gs == groups.deep_view(),
                gs.len() == groups@.len(),
                forall|k: int| 0 <= k < i ==> group_met(self.available_packages@, #[trigger] gs[k]),
            decreases groups.len() - i,
        {
            if !self.is_group_satisfied(&groups[i]) {
                assert(!group_met(self.available_packages@, gs[i as int]));
                return false;
            }
            i = i + 1;
        }
        true
    }

    /// The dependency groups of `package` that no available package meets, in order.
    pub fn get_missing_dependencies(&self, package: &PackageData) -> (r: Vec<Vec<PackageRange>>)
        ensures
            r.deep_view() == unmet_groups(self.available_packages@, package.deep_view().relation.depend),
    {
        let groups = &package.relation.depend;
        let ghost gs = groups.deep_view();
        let ghost avail = self.available_packages@;
        let ghost pred = |g: Seq<PackageRangeView>| !group_met(avail, g);
        let mut r: Vec<Vec<PackageRange>> = Vec::new();
        let mut i: usize = 0;
        while i < groups.len()
            invariant
                i <= groups@.len(),
                gs == groups.deep_view(),
                avail == self.available_packages@,
                pred == (|g: Seq<PackageRangeView>| !group_met(avail, g)),
                r.deep_view() == gs.take(i as int).filter(pred),
            decreases groups.len() - i,
        {
            proof {
                reveal(Seq::filter);
                assert(gs.take(i + 1).drop_last() =~= gs.take(i as int));
                assert(gs.take(i + 1).last() == gs[i as int]);
            }
            if !self.is_group_satisfied(&groups[i]) {
                let ghost before = r.deep_view();
                let copy = crate::pkg::clone_ranges(&groups[i]);
                r.push(copy);
                assert(r.deep_view() =~= before.push(gs[i as int]));
            }
            i = i + 1;
        }
        assert(gs.take(groups.len() as int) =~= gs);
        r
    }

    /// The conflicts of `package` that installed packages meet; `None` when there is none.
    pub fn has_conflicts(&self, package: &PackageData) -> (r: Option<Vec<PackageRange>>)
        ensures
            match r {
                None => present_conflicts(self.real_packages@, package.deep_view().relation.conflicts).len() == 0,
                Some(c) => c.deep_view() == present_conflicts(
                    self.real_packages@,
                    package.deep_view().relation.conflicts,
                ) && c@.len() > 0,
            },
    {
        let cs = &package.relation.conflicts;
        let ghost cv = cs.deep_view();
        let ghost reals = self.real_packages@;
        let ghost pred = |c: PackageRangeView| dep_met(reals, c);
        let mut r: Vec<PackageRange> = Vec::new();
        let mut i: usize = 0;
        while i < cs.len()
            invariant
                i <= cs@.len(),
                cv == cs.deep_view(),
                reals == self.real_packages@,
                pred == (|c: PackageRangeView| dep_met(reals, c)),
                r.deep_view() == cv.take(i as int).filter(pred),
            decreases cs.len() - i,
        {
            proof {
                reveal(Seq::filter);
                assert(cv.take(i + 1).drop_last() =~= cv.take(i as int));
                assert(cv.take(i + 1).last() == cv[i as int]);
            }
            let c = &cs[i];
            if self.real_packages.any_in_range(c.name.as_str(), &c.range) {
                let ghost before = r.deep_view();
                r.push(c.clone());
                assert(r.deep_view() =~= before.push(cv[i as int]));
            }
            i = i + 1;
        }
        assert(cv.take(cs.len() as int) =~= cv);
        if r.len() == 0 {
            None
        } else {
            Some(r)
        }
    }

    /// Whether the packages `installing_packages` can be installed beside the
    /// installed ones on a system that has the commands `available_cmds`: the
    /// commands that every package needs are checked first; then, package by
    /// package, that each of its dependency groups is met among the installed
    /// and new packages, that it conflicts with no installed package, and that
    /// it conflicts with none of the other new packages.
    #[verifier::spinoff_prover]
    #[verifier::rlimit(40)]
    pub fn is_packages_installable(&self, installing_packages: Vec<PackageData>, available_cmds: &Vec<String>) -> (r:
        Result<(), InstallError>)
        ensures
            match r {
                Ok(()) => install_refusal(
                    self.real_packages@,
                    self.available_packages@,
                    installing_packages.deep_view(),
                    available_cmds.deep_view(),
                ) is None,
                Err(e) => install_refusal(
                    self.real_packages@,
                    self.available_packages@,
                    installing_packages.deep_view(),
                    available_cmds.deep_view(),
                ) == Some(e.deep_view()),
            },
    {
        let temp_graph = self.with_additional_packages(installing_packages.as_slice());
        let ghost ps = installing_packages.deep_view();
        let ghost cmds = available_cmds.deep_view();
        let ghost reals = self.real_packages@;
        let ghost avail = self.available_packages@.union(available_pairs(ps));
        let n = installing_packages.len();
        let mut i: usize = 0;
        while i < n
            invariant
                n == installing_packages@.len(),
                i <= n,
                ps == installing_packages.deep_view(),
                cmds == available_cmds.deep_view(),
                cmd_refusal(ps, cmds, 0) == cmd_refusal(ps, cmds, i as int),
            decreases n - i,
        {
            let package = &installing_packages[i];
            let missing = get_missing_depend_cmds(&package.relation, available_cmds);
            assert(ps[i as int] == package.deep_view());
            if missing.len() > 0 {
                return Err(
                    InstallError::MissingSystemCommands {
                        package: package.about.package.name.clone(),
                        missing_cmds: missing,
                    },
                );
            }
            i = i + 1;
        }
        assert(cmd_refusal(ps, cmds, 0) is None);
        let mut i: usize = 0;
        while i < n
            invariant
                n == installing_packages@.len(),
                i <= n,
                ps == installing_packages.deep_view(),
                reals == self.real_packages@,
                avail == temp_graph.available_packages@,
                avail == self.available_packages@.union(available_pairs(ps)),
                cmds == available_cmds.deep_view(),
                cmd_refusal(ps, cmds, 0) is None,
                packages_refusal(reals, avail, ps, 0) == packages_refusal(reals, avail, ps, i as int),
            decreases n - i,
        {
            let package = &installing_packages[i];
            assert(ps[i as int] == package.deep_view());
            let missing_deps = temp_graph.get_missing_dependencies(package);
            assert(missing_deps.deep_view().len() == missing_deps@.len());
            if missing_deps.len() > 0 {
                assert(unmet_groups(avail, ps[i as int].relation.depend).len() > 0);
                return Err(
                    InstallError::MissingDependencies {
                        package: package.about.package.name.clone(),
                        missing: missing_deps,
                    },
                );
            }
            match self.has_conflicts(package) {
                Some(conflicts) => {
                    assert(conflicts.deep_view().len() == conflicts@.len());
                    return Err(
                        InstallError::ConflictsWithInstalled {
                            package: package.about.package.name.clone(),
                            conflicts,
                        },
                    );
                },
                None => {},
            }
            let others = others_than(&installing_packages, i);
            match temp_graph.has_conflicts_with_packages(package, others.as_slice()) {
                Some(conflicts_with) => {
                    return Err(
                        InstallError::ConflictsWithOtherPackages {
                            package: package.about.package.name.clone(),
                            conflicts_with,
                        },
                    );
                },
                None => {},
            }
            i = i + 1;
        }
        Ok(())
    }

    /// Whether the packages named in `packages_to_remove_names` can be removed:
    /// every other installed package must still have its dependency groups met
    /// by what the remaining packages make available. The refusal names all
    /// the packages to remove, joined by ", ", and the first installed package
    /// that would be left with an unmet dependency.
    pub fn is_packages_removable(&self, packages_to_remove_names: &[&str]) -> (r: Result<(), RemoveError>)
        ensures
            ({
                let s = self.installed_package_data.deep_view();
                let names = packages_to_remove_names.deep_view();
                let blocker = first_dependent(s, names, available_pairs(infos(kept_installed(s, names))));
                match r {
                    Ok(()) => blocker is None,
                    Err(RemoveError::DependencyOfOtherPackages { package, dependent_packages }) => {
                        &&& blocker is Some
                        &&& dependent_packages.deep_view() == seq![blocker->0]
                        &&& package@ == join(names, ", "@)
                    },
                }
            }),
    {
        let temp_graph = self.without_packages(packages_to_remove_names);
        let ghost s = self.installed_package_data.deep_view();
        let ghost names = packages_to_remove_names.deep_view();
        let ghost avail = available_pairs(infos(kept_installed(s, names)));
        let list = &self.installed_package_data;
        let mut k: usize = 0;
        assert(s.skip(0) =~= s);
        while k < list.len()
            invariant
                k <= list@.len(),
                s == list.deep_view(),
                s == self.installed_package_data.deep_view(),
                names == packages_to_remove_names.deep_view(),
                avail == temp_graph.available_packages@,
                avail == available_pairs(infos(kept_installed(s, names))),
                first_dependent(s, names, avail) == first_dependent(s.skip(k as int), names, avail),
            decreases list.len() - k,
        {
            let item = &list[k];
            proof {
                assert(s.skip(k as int)[0] == item.deep_view());
                assert(s.skip(k as int).drop_first() =~= s.skip(k + 1));
            }
            if !names_contain(packages_to_remove_names, item.info.about.package.name.as_str()) {
                if !temp_graph.are_dependencies_satisfied(&item.info) {
                    let dependent_packages = vec![item.info.about.package.name.clone()];
                    assert(dependent_packages.deep_view() =~= seq![item.info.about.package.name@]);
                    let all = strings_of(packages_to_remove_names);
                    let joined = join_strings(&all, ", ");
                    return Err(
                        RemoveError::DependencyOfOtherPackages {
                            package: joined,
                            dependent_packages,
                        },
                    );
                }
            }
            k = k + 1;
        }
        Ok(())
    }

    /// The name of the first package of `other_packages` that conflicts with
    /// `package` (either declaring a conflict with the other), if any does.
    pub fn has_conflicts_with_packages(&self, package: &PackageData, other_packages: &[&PackageData]) -> (r:
        Option<String>)
        ensures
            match r {
                None => first_conflicting(package.deep_view(), other_packages.deep_view()) is None,
                Some(n) => first_conflicting(package.deep_view(), other_packages.deep_view()) == Some(n@),
            },
    {
        let ghost a = package.deep_view();
        let ghost os = other_packages.deep_view();
        let mut i: usize = 0;
        assert(os.skip(0) =~= os);
        while i < other_packages.len()
            invariant
                i <= other_packages@.len(),
                a == package.deep_view(),
                os == other_packages.deep_view(),
                first_conflicting(a, os) == first_conflicting(a, os.skip(i as int)),
            decreases other_packages.len() - i,
        {
            let other = other_packages[i];
            proof {
                assert(os.skip(i as int)[0] == other.deep_view());
                assert(os.skip(i as int).drop_first() =~= os.skip(i + 1));
            }
            if declares_conflict_with(package, other) || declares_conflict_with(other, package) {
                return Some(other.about.package.name.clone());
            }
            i = i + 1;
        }
        None
    }
}

/// Operations that build on a dependency graph: adding packages to it, and
/// ordering new packages for installation.
pub trait DependencyGraphOperations: Sized {
    /// The graph with `additional_packages` installed as well.
    fn with_additional_packages(&self, additional_packages: &[PackageData]) -> Self;

    /// The packages of `packages_to_sort` in an order in which each comes after
    /// the packages of the list that it needs. Fails with the dependency
    /// groups of the first package that has a group resolved neither by an
    /// installed package nor by one of the list, else with the packages that
    /// no such order can place.
    fn topological_sort_packages_for_install(&self, packages_to_sort: &[PackageData]) -> Result<
        Vec<PackageData>,
        InstallError,
    >;
}

impl DependencyGraphOperations for DependencyGraph {
    fn with_additional_packages(&self, additional_packages: &[PackageData]) -> (r: DependencyGraph)
        ensures
            r.real_packages@ == self.real_packages@.union(real_pairs(additional_packages.deep_view())),
            r.available_packages@ == self.available_packages@.union(
                available_pairs(additional_packages.deep_view()),
            ),
            infos(r.installed_package_data.deep_view()) == infos(self.installed_package_data.deep_view())
                + additional_packages.deep_view(),
    {
        let ghost ps = additional_packages.deep_view();
        let mut g = DependencyGraph {
            available_packages: self.available_packages.clone(),
            real_packages: self.real_packages.clone(),
            installed_package_data: clone_installed(&self.installed_package_data),
        };
        let mut i: usize = 0;
        proof {
            assert(ps.take(0) =~= Seq::<PackageView>::empty());
            assert(real_pairs(ps.take(0)) =~= Set::<(Seq<char>, Seq<char>)>::empty());
            assert(virtual_pairs(ps.take(0)) =~= Set::<(Seq<char>, Seq<char>)>::empty());
            assert(available_pairs(ps.take(0)) =~= Set::<(Seq<char>, Seq<char>)>::empty());
            assert(g.real_packages@ =~= self.real_packages@.union(real_pairs(ps.take(0))));
            assert(g.available_packages@ =~= self.available_packages@.union(available_pairs(ps.take(0))));
            assert(infos(g.installed_package_data.deep_view()) =~= infos(self.installed_package_data.deep_view())
                + ps.take(0));
        }
        while i < additional_packages.len()
            invariant
                i <= additional_packages@.len(),
                ps == additional_packages.deep_view(),
                g.real_packages@ == self.real_packages@.union(real_pairs(ps.take(i as int))),
                g.available_packages@ == self.available_packages@.union(available_pairs(ps.take(i as int))),
                infos(g.installed_package_data.deep_view()) == infos(self.installed_package_data.deep_view())
                    + ps.take(i as int),
            decreases additional_packages.len() - i,
        {
            let pkg = &additional_packages[i];
            add_package_pairs(&mut g.real_packages, &mut g.available_packages, pkg);
            let ghost before = g.installed_package_data.deep_view();
            let entry = InstalledPackageData { info: pkg.clone(), last_modified: now_rfc3339() };
            g.installed_package_data.push(entry);
            proof {
                assert(ps.take(i + 1) =~= ps.take(i as int).push(ps[i as int]));
                assert(ps[i as int] == pkg.deep_view());
                lemma_pairs_push(ps.take(i as int), ps[i as int]);
                assert(g.installed_package_data.deep_view() =~= before.push(g.installed_package_data.deep_view().last()));
                lemma_infos_push(before, g.installed_package_data.deep_view().last());
                assert(g.real_packages@ =~= self.real_packages@.union(real_pairs(ps.take(i + 1))));
                assert(g.available_packages@ =~= self.available_packages@.union(available_pairs(ps.take(i + 1))));
                assert(infos(g.installed_package_data.deep_view()) =~= infos(self.installed_package_data.deep_view())
                    + ps.take(i + 1));
            }
            i = i + 1;
        }
        assert(ps.take(additional_packages@.len() as int) =~= ps);
        g
    }

    fn topological_sort_packages_for_install(&self, packages_to_sort: &[PackageData]) -> (r: Result<
        Vec<PackageData>,
        InstallError,
    >)
        ensures
            ({
                let ps = packages_to_sort.deep_view();
                let avail = self.available_packages@;
                match r {
                    Err(InstallError::MissingDependencies { package, missing }) => exists|i: int|
                        {
                            &&& 0 <= i < ps.len()
                            &&& forall|j: int|
                                0 <= j < i ==> unresolved_groups(ps, avail, #[trigger] ps[j]).len() == 0
                            &&& unresolved_groups(ps, avail, ps[i]).len() > 0
                            &&& package@ == name_of(ps[i])
                            &&& missing.deep_view() == unresolved_groups(ps, avail, ps[i])
                        },
                    Ok(sorted) => {
                        &&& all_resolved(ps, avail)
                        &&& sorted@.len() == ps.len()
                        &&& forall|k: int| 0 <= k < sorted@.len() ==> ps.contains(#[trigger] sorted.deep_view()[k])
                        &&& install_schedule(ps, avail, sorted.deep_view().map_values(|p: PackageView| name_of(p)))
                    },
                    Err(InstallError::CyclicDependencies { packages }) => {
                        &&& all_resolved(ps, avail)
                        &&& exists|order: Seq<Seq<char>>|
                            {
                                &&& install_schedule(ps, avail, order)
                                &&& schedule_closed(ps, avail, order.to_set())
                                &&& packages.deep_view() == names_left(ps, order)
                            }
                        &&& ps.map_values(|p: PackageView| name_of(p)).no_duplicates() ==> packages@.len() > 0
                    },
                    Err(_) => false,
                }
            }),
    {
        let ghost ps = packages_to_sort.deep_view();
        let ghost avail = self.available_packages@;
        match self.first_unresolved(packages_to_sort) {
            Some((i, missing)) => {
                let package = packages_to_sort[i].about.package.name.clone();
                assert(packages_to_sort[i as int].deep_view() == ps[i as int]);
                return Err(InstallError::MissingDependencies { package, missing });
            },
            None => {},
        }
        let (nodes, node_of, last_of) = layout_nodes(packages_to_sort);
        let ghost nn = nodes.deep_view();
        let (edges, in_deg) = self.order_graph(packages_to_sort, &nodes, &node_of, Ghost(last_of@));
        let queue = schedule_nodes(&edges, &in_deg);
        let ghost order = node_names(nn, queue@);
        let node_count = nodes.len();
        proof {
            assert(nn.len() == node_count);
            lemma_named_schedule(ps, avail, nn, node_of@, last_of@, edges@, in_deg@, queue@);
            lemma_layout_names(ps, nn, node_of@, last_of@);
        }
        let mut sorted: Vec<PackageData> = Vec::new();
        let mut k: usize = 0;
        while k < queue.len()
            invariant
                k <= queue@.len(),
                ps == packages_to_sort.deep_view(),
                nn == nodes.deep_view(),
                order == node_names(nn, queue@),
                node_layout(ps, nn, node_of@, last_of@),
                forall|p: int| 0 <= p < queue@.len() ==> #[trigger] queue@[p] < nodes@.len(),
                sorted@.len() == k,
                forall|j: int|
                    0 <= j < k ==> #[trigger] sorted.deep_view()[j] == ps[last_of@[queue@[j] as int] as int],
            decreases queue.len() - k,
        {
            let q = queue[k];
            let ghost before = sorted.deep_view();
            sorted.push(packages_to_sort[last_of[q]].clone());
            assert(sorted.deep_view() =~= before.push(ps[last_of@[q as int] as int]));
            k = k + 1;
        }
        if sorted.len() != packages_to_sort.len() {
            let m = nodes.len();
            let mut placed: Vec<bool> = Vec::new();
            let mut c: usize = 0;
            while c < m
                invariant
                    c <= m,
                    placed@.len() == c,
                    forall|v: int| 0 <= v < c ==> !placed@[v],
                decreases m - c,
            {
                placed.push(false);
                c = c + 1;
            }
            let mut k: usize = 0;
            while k < queue.len()
                invariant
                    k <= queue@.len(),
                    m == nodes@.len(),
                    placed@.len() == m,
                    forall|p: int| 0 <= p < queue@.len() ==> #[trigger] queue@[p] < m,
                    forall|v: usize| v < m ==> (placed@[v as int] <==> #[trigger] queue@.take(k as int).contains(v)),
                decreases queue.len() - k,
            {
                let q = queue[k];
                placed.set(q, true);
                proof {
                    assert(queue@.take(k + 1) =~= queue@.take(k as int).push(q));
                    assert forall|v: usize| v < m implies (placed@[v as int] <==> #[trigger] queue@.take(k + 1).contains(v)) by {
                        if queue@.take(k as int).contains(v) {
                            let s0 = queue@.take(k as int);
                            let j = choose|j: int| 0 <= j < s0.len() && s0[j] == v;
                            assert(queue@.take(k + 1)[j] == v);
                        }
                        if queue@.take(k + 1).contains(v) && v != q {
                            let s1 = queue@.take(k + 1);
                            let j = choose|j: int| 0 <= j < s1.len() && s1[j] == v;
                            assert(queue@.take(k as int)[j] == v);
                        }
                        if v == q {
                            assert(queue@.take(k + 1)[k as int] == v);
                        }
                    }
                }
                k = k + 1;
            }
            assert(queue@.take(queue@.len() as int) =~= queue@);
            let ghost keep = |p: PackageView| !order.contains(name_of(p));
            let mut missing: Vec<String> = Vec::new();
            let mut i: usize = 0;
            while i < packages_to_sort.len()
                invariant
                    i <= packages_to_sort@.len(),
                    ps == packages_to_sort.deep_view(),
                    nn == nodes.deep_view(),
                    m == nodes@.len(),
                    order == node_names(nn, queue@),
                    node_layout(ps, nn, node_of@, last_of@),
                    keep == (|p: PackageView| !order.contains(name_of(p))),
                    placed@.len() == m,
                    forall|p: int| 0 <= p < queue@.len() ==> #[trigger] queue@[p] < m,
                    forall|v: usize| v < m ==> (placed@[v as int] <==> #[trigger] queue@.contains(v)),
                    missing.deep_view() == ps.take(i as int).filter(keep).map_values(|p: PackageView| name_of(p)),
                decreases packages_to_sort.len() - i,
            {
                let v = node_of[i];
                proof {
                    reveal(Seq::filter);
                    assert(ps.take(i + 1).drop_last() =~= ps.take(i as int));
                    assert(ps.take(i + 1).last() == ps[i as int]);
                    assert(nn[v as int] == name_of(ps[i as int]));
                    if queue@.contains(v) {
                        let j = choose|j: int| 0 <= j < queue@.len() && queue@[j] == v;
                        assert(order[j] == name_of(ps[i as int]));
                    }
                    if order.contains(name_of(ps[i as int])) {
                        let j = choose|j: int| 0 <= j < order.len() && order[j] == name_of(ps[i as int]);
                        assert(nn[queue@[j] as int] == nn[v as int]);
                        assert(queue@[j] == v);
                    }
                }
                if !placed[v] {
                    let ghost before = missing.deep_view();
                    missing.push(packages_to_sort[i].about.package.name.clone());
                    proof {
                        assert(ps.take(i + 1).filter(keep) == ps.take(i as int).filter(keep).push(ps[i as int]));
                        assert(missing.deep_view() =~= before.push(name_of(ps[i as int])));
                        assert(ps.take(i + 1).filter(keep).map_values(|p: PackageView| name_of(p)) =~= ps.take(
                            i as int,
                        ).filter(keep).map_values(|p: PackageView| name_of(p)).push(name_of(ps[i as int])));
                    }
                } else {
                    proof {
                        assert(ps.take(i + 1).filter(keep) == ps.take(i as int).filter(keep));
                    }
                }
                i = i + 1;
            }
            proof {
                assert(ps.take(ps.len() as int) =~= ps);
                assert(missing.deep_view() == names_left(ps, order));
                lemma_layout_counts(ps, nn, node_of@, last_of@);
                if ps.map_values(|p: PackageView| name_of(p)).no_duplicates() {
                    lemma_distinct_ids_bound(queue@, m);
                    assert(queue@.len() < m);
                    let v = choose|v: usize| v < m && !queue@.contains(v);
                    let i = last_of@[v as int] as int;
                    assert(node_of@[i] == v);
                    assert(!placed@[v as int]);
                    assert(keep(ps[i]));
                    assert(ps.filter(keep).contains(ps[i]));
                    assert(missing@.len() == missing.deep_view().len());
                }
            }
            return Err(InstallError::CyclicDependencies { packages: missing });
        }
        proof {
            assert forall|k: int| 0 <= k < sorted@.len() implies ps.contains(#[trigger] sorted.deep_view()[k]) by {
                assert(last_of@[queue@[k] as int] < ps.len());
            }
            assert(sorted.deep_view().map_values(|p: PackageView| name_of(p)) =~= order) by {
                assert forall|k: int| 0 <= k < sorted@.len() implies name_of(#[trigger] sorted.deep_view()[k])
                    == order[k] by {
                    let q = queue@[k];
                    assert(node_of@[last_of@[q as int] as int] == q);
                }
            }
        }
        Ok(sorted)
    }
}

/// The packages of `packages` but the one at `i`, in order.
fn others_than(packages: &Vec<PackageData>, i: usize) -> (r: Vec<&PackageData>)
    requires
        i < packages@.len(),
    ensures
        r.deep_view() == packages.deep_view().remove(i as int),
{
    let ghost ps = packages.deep_view();
    let n = packages.len();
    let mut others: Vec<&PackageData> = Vec::new();
    let mut j: usize = 0;
    while j < n
        invariant
            n == packages@.len(),
            i < n,
            j <= n,
            ps == packages.deep_view(),
            others.deep_view() == (if j <= i {
                ps.take(j as int)
            } else {
                ps.take(i as int) + ps.subrange(i + 1, j as int)
            }),
        decreases n - j,
    {
        if j != i {
            let ghost before = others.deep_view();
            others.push(&packages[j]);
            assert(others.deep_view() =~= before.push(ps[j as int]));
            if j < i {
                assert(ps.take(j + 1) =~= ps.take(j as int).push(ps[j as int]));
            } else {
                assert(ps.subrange(i + 1, j + 1) =~= ps.subrange(i + 1, j as int).push(ps[j as int]));
                assert(ps.take(i as int) + ps.subrange(i + 1, j + 1) =~= (ps.take(i as int) + ps.subrange(
                    i + 1,
                    j as int,
                )).push(ps[j as int]));
            }
        } else {
            assert(ps.subrange(i + 1, i + 1) =~= Seq::<PackageView>::empty());
            assert(ps.take(i as int) + ps.subrange(i + 1, i + 1) =~= ps.take(i as int));
        }
        j = j + 1;
    }
    assert(others.deep_view() =~= ps.remove(i as int));
    others
}

/// Whether `a` declares a conflict that names `b` at a version in its range.
fn declares_conflict_with(a: &PackageData, b: &PackageData) -> (r: bool)
    ensures
        r == exists|k: int|
            0 <= k < a.deep_view().relation.conflicts.len() && hits(
                #[trigger] a.deep_view().relation.conflicts[k],
                b.deep_view(),
            ),
{
    let cs = &a.relation.conflicts;
    let ghost cv = a.deep_view().relation.conflicts;
    assert(cv.len() == cs@.len());
    let mut k: usize = 0;
    while k < cs.len()
        invariant
            k <= cs@.len(),
            cv == a.deep_view().relation.conflicts,
            cv == cs.deep_view(),
            cv.len() == cs@.len(),
            forall|m: int| 0 <= m < k ==> !hits(#[trigger] cv[m], b.deep_view()),
        decreases cs.len() - k,
    {
        let c = &cs[k];
        assert(cv[k as int] == c.deep_view());
        if str_eq(c.name.as_str(), b.about.package.name.as_str()) && c.range.compare(&b.about.package.version) {
            assert(hits(cv[k as int], b.deep_view()));
            return true;
        }
        k = k + 1;
    }
    false
}

} // verus!
