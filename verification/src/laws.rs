//! What holds of the check as a whole, stated over the plain values that the
//! functions' contracts speak of.

use vstd::prelude::*;

use crate::cmdline::CmdInfoView;
use crate::depinfo::DepInfo;
use crate::evidence::{
    declared_by, first_evidence, observed, observed_all, strip_lib, tagged, used_by_stem,
    used_by_stems, EvidenceView,
};
use crate::interceptor::ExecData;
use crate::names::{
    DependencyNames, learn_name, names_of_lib, no_names, no_resolution, resolve_deps, resolve_edge, resolve_edges,
    DeclaredDepView, DepKind, DependencyNamesView, LibTargetView, NamesView, ResolvedDepView,
    Resolution,
};
use crate::outcome::{
    exempts, ignored_views, unused_pairs, Member, Outcome, PackageMetadataCargoUdepsIgnore,
};
use crate::report::{any_has_non_lib, note_text, TargetSelection};
use crate::udeps::{evidence_of, is_outcome_of};
use crate::text::before_first;

verus! {

/// Whether no declaration among `deps` is of kind `kind`.
pub open spec fn declares_none(deps: Seq<ResolvedDepView>, kind: DepKind) -> bool {
    forall|i: int, j: int|
        0 <= i < deps.len() && 0 <= j < deps[i].deps.len() ==> (#[trigger] deps[i].deps[j]).kind
            != kind
}

/// Declarations of other kinds leave the tables of a kind as they are.
proof fn lemma_other_edges_keep(
    so_far: Resolution,
    package: u64,
    lib: Option<LibTargetView>,
    edges: Seq<DeclaredDepView>,
    kind: DepKind,
)
    requires
        forall|j: int| 0 <= j < edges.len() ==> (#[trigger] edges[j]).kind != kind,
    ensures
        resolve_edges(so_far, package, lib, edges).names.of(kind) == so_far.names.of(kind),
    decreases edges.len(),
{
    if edges.len() > 0 {
        let front = edges.drop_last();
        assert forall|j: int| 0 <= j < front.len() implies (#[trigger] front[j]).kind != kind by {
            assert(front[j] == edges[j]);
        }
        lemma_other_edges_keep(so_far, package, lib, front, kind);
        assert(edges.last() == edges[edges.len() - 1]);
    }
}

/// A member that declares no dependency of a kind has empty tables for that
/// kind.
pub proof fn lemma_no_declaration_no_names(deps: Seq<ResolvedDepView>, kind: DepKind)
    requires
        declares_none(deps, kind),
    ensures
        resolve_deps(no_resolution(), deps).names.of(kind) == no_names(),
    decreases deps.len(),
{
    if deps.len() > 0 {
        let front = deps.drop_last();
        assert forall|i: int, j: int| 0 <= i < front.len() && 0 <= j < front[i].deps.len() implies (
        #[trigger] front[i].deps[j]).kind != kind by {
            assert(front[i] == deps[i]);
        }
        lemma_no_declaration_no_names(front, kind);
        let dep = deps.last();
        assert(dep == deps[deps.len() - 1]);
        lemma_other_edges_keep(
            resolve_deps(no_resolution(), front),
            dep.package,
            dep.lib,
            dep.deps,
            kind,
        );
    }
}

/// Empty tables show no file to be a used dependency.
pub proof fn lemma_no_names_nothing_used(
    stems: Seq<Option<Seq<char>>>,
    table: Map<Seq<char>, u64>,
)
    ensures
        used_by_stems(stems, no_names(), table) == Set::<Seq<char>>::empty(),
    decreases stems.len(),
{
    if stems.len() > 0 {
        lemma_no_names_nothing_used(stems.drop_last(), table);
        match stems.last() {
            Some(stem) => {
                assert(used_by_stem(stem, no_names(), table) =~= Set::<Seq<char>>::empty());
            },
            None => {},
        }
        assert(used_by_stems(stems, no_names(), table) =~= Set::<Seq<char>>::empty());
    }
}

/// A member whose tables for a kind are empty stays without a declared
/// dependency of that kind, whatever unit is seen.
pub proof fn lemma_no_names_nothing_declared(
    before: EvidenceView,
    unit: CmdInfoView,
    stems: Seq<Option<Seq<char>>>,
    all: Map<u64, DependencyNamesView>,
    table: Map<Seq<char>, u64>,
    member: u64,
    kind: DepKind,
)
    requires
        all.contains_key(member),
        all[member].of(kind) == no_names(),
        forall|n: Seq<char>| !before.declared(kind).contains((member, n)),
    ensures
        forall|n: Seq<char>| !observed(before, unit, stems, all, table).declared(kind).contains(
            (member, n),
        ),
        forall|n: Seq<char>|
            !first_evidence(all).declared(kind).contains((member, n)),
{
    assert(declared_by(unit.extern_crate_names, no_names()) =~= Set::<Seq<char>>::empty());
    let after = observed(before, unit, stems, all, table);
    assert forall|n: Seq<char>| !after.declared(kind).contains((member, n)) by {
        if all.contains_key(unit.pkg) {
            let more = tagged(
                unit.pkg,
                declared_by(unit.extern_crate_names, all[unit.pkg].of(kind)),
            );
            match kind {
                DepKind::Normal => {
                    assert(after.declared(kind) == before.declared(kind) + more);
                },
                DepKind::Development => {
                    assert(after.declared(kind) == before.declared(kind) + more);
                },
                DepKind::Build => {
                    assert(after.declared(kind) == before.declared(kind) + more);
                },
            }
            assert(!more.contains((member, n)));
        }
    }
}

/// A kind in which a member declares nothing adds nothing to what is left
/// over for that member.
pub proof fn lemma_nothing_declared_nothing_unused(
    evidence: EvidenceView,
    members: Map<u64, Member>,
    workspace_ignore: Option<PackageMetadataCargoUdepsIgnore>,
    member: u64,
    kind: DepKind,
)
    requires
        forall|n: Seq<char>| !evidence.declared(kind).contains((member, n)),
    ensures
        forall|n: Seq<char>|
            !unused_pairs(evidence, members, workspace_ignore, kind).contains((member, n)),
{
}

/// Two outcomes found from the same evidence, members and ignore lists agree
/// on what is left over and on whether the check succeeded.
pub proof fn lemma_same_inputs_same_outcome(
    first: Outcome,
    second: Outcome,
    evidence: EvidenceView,
    members: Map<u64, Member>,
    workspace_ignore: Option<PackageMetadataCargoUdepsIgnore>,
)
    requires
        forall|kind: DepKind|
            first.unused(kind) == unused_pairs(evidence, members, workspace_ignore, kind),
        forall|kind: DepKind|
            second.unused(kind) == unused_pairs(evidence, members, workspace_ignore, kind),
        first.success == (forall|kind: DepKind|
            unused_pairs(evidence, members, workspace_ignore, kind) == Set::<
                (u64, Seq<char>),
            >::empty()),
        second.success == (forall|kind: DepKind|
            unused_pairs(evidence, members, workspace_ignore, kind) == Set::<
                (u64, Seq<char>),
            >::empty()),
    ensures
        forall|kind: DepKind| first.unused(kind) == second.unused(kind),
        first.success == second.success,
        first.exit_code_of() == second.exit_code_of(),
{
}

/// Whether the lists `later` exempt all that the lists `earlier` exempt.
pub open spec fn exempts_more(
    earlier: Option<PackageMetadataCargoUdepsIgnore>,
    later: Option<PackageMetadataCargoUdepsIgnore>,
) -> bool {
    forall|kind: DepKind, name: Seq<char>| #[trigger]
        exempts(earlier, kind, name) ==> exempts(later, kind, name)
}

/// Longer ignore lists never make the report longer: where the same members
/// are asked about, and each member's list and the workspace's exempt at
/// least what they did, every dependency left over was left over before.
pub proof fn lemma_ignore_lists_only_shrink(
    evidence: EvidenceView,
    members: Map<u64, Member>,
    workspace_ignore: Option<PackageMetadataCargoUdepsIgnore>,
    more_members: Map<u64, Member>,
    more_workspace_ignore: Option<PackageMetadataCargoUdepsIgnore>,
    kind: DepKind,
)
    requires
        members.dom() == more_members.dom(),
        forall|id: u64| #[trigger]
            members.contains_key(id) ==> exempts_more(members[id].ignore, more_members[id].ignore),
        exempts_more(workspace_ignore, more_workspace_ignore),
    ensures
        unused_pairs(evidence, more_members, more_workspace_ignore, kind).subset_of(
            unused_pairs(evidence, members, workspace_ignore, kind),
        ),
{
    assert forall|p: (u64, Seq<char>)|
        unused_pairs(evidence, more_members, more_workspace_ignore, kind).contains(
            p,
        ) implies unused_pairs(evidence, members, workspace_ignore, kind).contains(p) by {
        assert(more_members.contains_key(p.0));
        assert(members.dom().contains(p.0));
        assert(members.contains_key(p.0));
        if exempts(members[p.0].ignore, kind, p.1) {
            assert(exempts(more_members[p.0].ignore, kind, p.1));
        }
        if exempts(workspace_ignore, kind, p.1) {
            assert(exempts(more_workspace_ignore, kind, p.1));
        }
    }
}

/// A dependency is known by the name that the manifest gives it, not by the
/// name of its package: once a declaration named `name` has led to a package
/// with a library, the name that the dependent's code uses stands for `name`,
/// a file built by that package in this run shows `name` to be used, and so
/// does a file of an earlier run that is named after the library.
pub proof fn lemma_renamed_dependency_is_used(
    names: NamesView,
    package: u64,
    lib: LibTargetView,
    name: Seq<char>,
    stem: Seq<char>,
    table: Map<Seq<char>, u64>,
    externs: Set<Seq<char>>,
)
    requires
        stem.contains('-'),
    ensures
        ({
            let learnt = learn_name(names, package, Some(lib), name);
            &&& externs.contains(lib.extern_crate_name) ==> declared_by(externs, learnt).contains(
                name,
            )
            &&& table.contains_key(stem) && table[stem] == package ==> used_by_stem(
                stem,
                learnt,
                table,
            ) == set![name]
            &&& !table.contains_key(stem) && strip_lib(before_first(stem, '-'))
                == lib.lib_true_snakecased_name ==> used_by_stem(stem, learnt, table).contains(
                name,
            )
        }),
{
    let learnt = learn_name(names, package, Some(lib), name);
    if externs.contains(lib.extern_crate_name) {
        assert(learnt.by_extern_crate_name.contains_key(lib.extern_crate_name));
        assert(learnt.by_extern_crate_name[lib.extern_crate_name] == name);
    }
}

/// Whether no table of `names` leads to the manifest name `name`: not from a
/// package, not from a library name, and not from a name in the dependent's
/// code.
pub open spec fn leads_nowhere(names: NamesView, name: Seq<char>) -> bool {
    &&& forall|package: u64| #[trigger]
        names.by_package_id.contains_key(package) ==> names.by_package_id[package] != name
    &&& forall|lib: Seq<char>| !(#[trigger] names_of_lib(names, lib)).contains(name)
    &&& forall|x: Seq<char>| #[trigger]
        names.by_extern_crate_name.contains_key(x) ==> names.by_extern_crate_name[x] != name
}

/// A declaration that leads to a package without a library is noted as such,
/// and leaves the other tables as they are.
pub proof fn lemma_non_lib_is_noted(names: NamesView, package: u64, name: Seq<char>)
    ensures
        learn_name(names, package, None, name).non_lib.contains(name),
        learn_name(names, package, None, name).by_package_id == names.by_package_id,
        learn_name(names, package, None, name).by_extern_crate_name == names.by_extern_crate_name,
        learn_name(names, package, None, name).by_lib_true_snakecased_name
            == names.by_lib_true_snakecased_name,
        leads_nowhere(names, name) ==> leads_nowhere(
            learn_name(names, package, None, name),
            name,
        ),
{
    let learnt = learn_name(names, package, None, name);
    if leads_nowhere(names, name) {
        assert forall|lib: Seq<char>| !(#[trigger] names_of_lib(learnt, lib)).contains(name) by {
            assert(names_of_lib(learnt, lib) == names_of_lib(names, lib));
        }
    }
}

/// A dependency that no table leads to is never shown to be used, whatever
/// files the units read.
pub proof fn lemma_non_lib_never_used(
    stems: Seq<Option<Seq<char>>>,
    names: NamesView,
    table: Map<Seq<char>, u64>,
    name: Seq<char>,
)
    requires
        leads_nowhere(names, name),
    ensures
        !used_by_stems(stems, names, table).contains(name),
    decreases stems.len(),
{
    if stems.len() > 0 {
        lemma_non_lib_never_used(stems.drop_last(), names, table, name);
        match stems.last() {
            Some(stem) => {
                if stem.contains('-') && !table.contains_key(stem) {
                    assert(!names_of_lib(names, strip_lib(before_first(stem, '-'))).contains(name));
                }
            },
            None => {},
        }
    }
}

/// A dependency without a library counts as declared from the start, and
/// stays declared whatever unit is seen.
pub proof fn lemma_non_lib_is_declared(
    all: Map<u64, DependencyNamesView>,
    member: u64,
    kind: DepKind,
    name: Seq<char>,
    unit: CmdInfoView,
    stems: Seq<Option<Seq<char>>>,
    table: Map<Seq<char>, u64>,
    before: EvidenceView,
)
    requires
        all.contains_key(member),
        all[member].of(kind).non_lib.contains(name),
    ensures
        first_evidence(all).declared(kind).contains((member, name)),
        before.declared(kind).contains((member, name)) ==> observed(
            before,
            unit,
            stems,
            all,
            table,
        ).declared(kind).contains((member, name)),
{
}

/// A declared dependency that is never shown to be used, and that no ignore
/// list exempts, is left over for a member that was asked about.
pub proof fn lemma_unused_is_reported(
    evidence: EvidenceView,
    members: Map<u64, Member>,
    workspace_ignore: Option<PackageMetadataCargoUdepsIgnore>,
    kind: DepKind,
    member: u64,
    name: Seq<char>,
)
    requires
        evidence.declared(kind).contains((member, name)),
        !evidence.used(kind).contains((member, name)),
        members.contains_key(member),
        !exempts(members[member].ignore, kind, name),
        !exempts(workspace_ignore, kind, name),
    ensures
        unused_pairs(evidence, members, workspace_ignore, kind).contains((member, name)),
{
}

/// The advice that some dependencies have no library.
pub open spec fn non_lib_advice() -> Seq<char> {
    "Note: Some dependencies are non-library packages.\n"@
        + "      `cargo-udeps` regards them as unused.\n"@
}

/// Where some dependency has no library, the note says so; else it does not
/// hold that advice at that place.
pub proof fn lemma_note_tells_of_non_lib(selection: TargetSelection)
    ensures
        exists|head: Seq<char>, tail: Seq<char>|
            note_text(selection, true) == head + non_lib_advice() + tail && note_text(
                selection,
                false,
            ) == head + tail,
{
    let head = if selection.all_targets {
        Seq::<char>::empty()
    } else {
        "Note: These dependencies might be used by other targets.\n"@ + (
        if selection.names_nothing() {
            "      To find dependencies that are not used by any target, enable `--all-targets`.\n"@
        } else {
            Seq::empty()
        })
    };
    let tail = "Note: They might be false-positive.\n"@
        + "      For example, `cargo-udeps` cannot detect usage of crates that are only used in doc-tests.\n"@
        + "      To ignore some dependencies, write `package.metadata.cargo-udeps.ignore` in Cargo.toml.\n"@;
    assert(note_text(selection, true) =~= head + non_lib_advice() + tail);
    assert(note_text(selection, false) =~= head + tail);
}

/// Declarations read one list after another are read as one list.
pub proof fn lemma_resolve_edges_append(
    so_far: Resolution,
    package: u64,
    lib: Option<LibTargetView>,
    first: Seq<DeclaredDepView>,
    second: Seq<DeclaredDepView>,
)
    ensures
        resolve_edges(so_far, package, lib, first + second) == resolve_edges(
            resolve_edges(so_far, package, lib, first),
            package,
            lib,
            second,
        ),
    decreases second.len(),
{
    if second.len() == 0 {
        assert(first + second =~= first);
    } else {
        assert((first + second).drop_last() =~= first + second.drop_last());
        assert((first + second).last() == second.last());
        lemma_resolve_edges_append(so_far, package, lib, first, second.drop_last());
    }
}

/// Packages read one list after another are read as one list.
pub proof fn lemma_resolve_deps_append(
    so_far: Resolution,
    first: Seq<ResolvedDepView>,
    second: Seq<ResolvedDepView>,
)
    ensures
        resolve_deps(so_far, first + second) == resolve_deps(
            resolve_deps(so_far, first),
            second,
        ),
    decreases second.len(),
{
    if second.len() == 0 {
        assert(first + second =~= first);
    } else {
        assert((first + second).drop_last() =~= first + second.drop_last());
        assert((first + second).last() == second.last());
        lemma_resolve_deps_append(so_far, first, second.drop_last());
    }
}

/// Packages whose declarations are all of other kinds leave the tables of a
/// kind as they are.
pub proof fn lemma_other_deps_keep(so_far: Resolution, deps: Seq<ResolvedDepView>, kind: DepKind)
    requires
        declares_none(deps, kind),
    ensures
        resolve_deps(so_far, deps).names.of(kind) == so_far.names.of(kind),
    decreases deps.len(),
{
    if deps.len() > 0 {
        let front = deps.drop_last();
        assert forall|i: int, j: int| 0 <= i < front.len() && 0 <= j < front[i].deps.len() implies (
        #[trigger] front[i].deps[j]).kind != kind by {
            assert(front[i] == deps[i]);
        }
        lemma_other_deps_keep(so_far, front, kind);
        let dep = deps.last();
        assert(dep == deps[deps.len() - 1]);
        lemma_other_edges_keep(resolve_deps(so_far, front), dep.package, dep.lib, dep.deps, kind);
    }
}

/// What is known after the one package `dep`.
proof fn lemma_resolve_one(so_far: Resolution, dep: ResolvedDepView)
    ensures
        resolve_deps(so_far, seq![dep]) == resolve_edges(so_far, dep.package, dep.lib, dep.deps),
{
    assert(seq![dep].drop_last() =~= Seq::<ResolvedDepView>::empty());
    assert(seq![dep].last() == dep);
    assert(resolve_deps(so_far, Seq::<ResolvedDepView>::empty()) == so_far);
}

/// What is known after the one declaration `edge`.
proof fn lemma_resolve_one_edge(
    so_far: Resolution,
    package: u64,
    lib: Option<LibTargetView>,
    edge: DeclaredDepView,
)
    ensures
        resolve_edges(so_far, package, lib, seq![edge]) == resolve_edge(so_far, package, lib, edge),
{
    assert(seq![edge].drop_last() =~= Seq::<DeclaredDepView>::empty());
    assert(seq![edge].last() == edge);
    assert(resolve_edges(so_far, package, lib, Seq::<DeclaredDepView>::empty()) == so_far);
}

/// The tables of `kind` after all packages, where the declaration at place
/// `j` of package `i` is of kind `kind`: those after the packages before `i`
/// and the declarations before `j`, then that declaration, then the rest.
proof fn lemma_resolve_split(deps: Seq<ResolvedDepView>, i: int, j: int)
    requires
        0 <= i < deps.len(),
        0 <= j < deps[i].deps.len(),
    ensures
        ({
            let dep = deps[i];
            let before = resolve_edges(
                resolve_deps(no_resolution(), deps.take(i)),
                dep.package,
                dep.lib,
                dep.deps.take(j),
            );
            let with = resolve_edge(before, dep.package, dep.lib, dep.deps[j]);
            resolve_deps(no_resolution(), deps) == resolve_deps(
                resolve_edges(with, dep.package, dep.lib, dep.deps.skip(j + 1)),
                deps.skip(i + 1),
            )
        }),
{
    let dep = deps[i];
    let start = resolve_deps(no_resolution(), deps.take(i));
    assert(deps =~= deps.take(i) + seq![dep] + deps.skip(i + 1));
    lemma_resolve_deps_append(no_resolution(), deps.take(i) + seq![dep], deps.skip(i + 1));
    lemma_resolve_deps_append(no_resolution(), deps.take(i), seq![dep]);
    lemma_resolve_one(start, dep);
    let edges = dep.deps;
    assert(edges =~= edges.take(j) + seq![edges[j]] + edges.skip(j + 1));
    lemma_resolve_edges_append(
        start,
        dep.package,
        dep.lib,
        edges.take(j) + seq![edges[j]],
        edges.skip(j + 1),
    );
    lemma_resolve_edges_append(start, dep.package, dep.lib, edges.take(j), seq![edges[j]]);
    lemma_resolve_one_edge(
        resolve_edges(start, dep.package, dep.lib, edges.take(j)),
        dep.package,
        dep.lib,
        edges[j],
    );
}

/// Whether the declaration at place `j` of package `i` is the only one of
/// kind `kind`.
pub open spec fn only_declaration(deps: Seq<ResolvedDepView>, kind: DepKind, i: int, j: int) -> bool {
    &&& 0 <= i < deps.len()
    &&& 0 <= j < deps[i].deps.len()
    &&& deps[i].deps[j].kind == kind
    &&& forall|a: int, b: int|
        0 <= a < deps.len() && 0 <= b < deps[a].deps.len() && (#[trigger] deps[a].deps[b]).kind
            == kind ==> a == i && b == j
}

/// A renamed dependency is entered under the name that the manifest gives
/// it: where a member's only declaration of a kind leads to a package with a
/// library, whatever it declares of other kinds, the tables of that kind pair
/// the name in the dependent's code, the library's own name and the package
/// with the manifest name and with nothing else, and no dependency of that
/// kind is without library.
pub proof fn lemma_renamed_dependency_tables(
    deps: Seq<ResolvedDepView>,
    kind: DepKind,
    i: int,
    j: int,
)
    requires
        only_declaration(deps, kind, i, j),
        deps[i].lib is Some,
    ensures
        ({
            let tables = resolve_deps(no_resolution(), deps).names.of(kind);
            let lib = deps[i].lib->0;
            let name = deps[i].deps[j].name_in_toml;
            &&& tables.by_extern_crate_name == map![lib.extern_crate_name => name]
            &&& tables.by_lib_true_snakecased_name == map![lib.lib_true_snakecased_name => set![name]]
            &&& tables.by_package_id == map![deps[i].package => name]
            &&& tables.non_lib == Set::<Seq<char>>::empty()
        }),
{
    let dep = deps[i];
    let edges = dep.deps;
    lemma_resolve_split(deps, i, j);
    let start = resolve_deps(no_resolution(), deps.take(i));
    assert(declares_none(deps.take(i), kind)) by {
        assert forall|a: int, b: int|
            0 <= a < deps.take(i).len() && 0 <= b < deps.take(i)[a].deps.len() implies (
        #[trigger] deps.take(i)[a].deps[b]).kind != kind by {
            assert(deps.take(i)[a] == deps[a]);
            if deps[a].deps[b].kind == kind {
                assert(a == i);
            }
        }
    }
    lemma_other_deps_keep(no_resolution(), deps.take(i), kind);
    assert forall|b: int| 0 <= b < edges.take(j).len() implies (#[trigger] edges.take(j)[b]).kind
        != kind by {
        assert(edges.take(j)[b] == deps[i].deps[b]);
        if deps[i].deps[b].kind == kind {
            assert(b == j);
        }
    }
    lemma_other_edges_keep(start, dep.package, dep.lib, edges.take(j), kind);
    let before = resolve_edges(start, dep.package, dep.lib, edges.take(j));
    let with = resolve_edge(before, dep.package, dep.lib, edges[j]);
    assert forall|b: int| 0 <= b < edges.skip(j + 1).len() implies (
    #[trigger] edges.skip(j + 1)[b]).kind != kind by {
        assert(edges.skip(j + 1)[b] == deps[i].deps[b + j + 1]);
        if deps[i].deps[b + j + 1].kind == kind {
            assert(b + j + 1 == j);
        }
    }
    lemma_other_edges_keep(with, dep.package, dep.lib, edges.skip(j + 1), kind);
    let after = resolve_edges(with, dep.package, dep.lib, edges.skip(j + 1));
    assert(declares_none(deps.skip(i + 1), kind)) by {
        assert forall|a: int, b: int|
            0 <= a < deps.skip(i + 1).len() && 0 <= b < deps.skip(i + 1)[a].deps.len() implies (
        #[trigger] deps.skip(i + 1)[a].deps[b]).kind != kind by {
            assert(deps.skip(i + 1)[a] == deps[a + i + 1]);
            if deps[a + i + 1].deps[b].kind == kind {
                assert(a + i + 1 == i);
            }
        }
    }
    lemma_other_deps_keep(after, deps.skip(i + 1), kind);
    let tables = resolve_deps(no_resolution(), deps).names.of(kind);
    let lib = dep.lib->0;
    let name = edges[j].name_in_toml;
    assert(tables == learn_name(no_names(), dep.package, dep.lib, name));
    assert(tables.by_extern_crate_name =~= map![lib.extern_crate_name => name]);
    assert(names_of_lib(no_names(), lib.lib_true_snakecased_name) =~= Set::<Seq<char>>::empty());
    assert(set![name] =~= Set::<Seq<char>>::empty().insert(name));
    assert(tables.by_lib_true_snakecased_name =~= map![lib.lib_true_snakecased_name => set![name]]);
    assert(tables.by_package_id =~= map![dep.package => name]);
}

/// Whether every declaration of kind `kind` named `name` leads to a package
/// without a library.
pub open spec fn never_leads_to_lib(deps: Seq<ResolvedDepView>, kind: DepKind, name: Seq<char>) -> bool {
    forall|a: int, b: int|
        0 <= a < deps.len() && 0 <= b < deps[a].deps.len() && (#[trigger] deps[a].deps[b]).kind
            == kind && deps[a].deps[b].name_in_toml == name ==> deps[a].lib is None
}

/// One more declaration leaves a name that no table leads to as it is,
/// unless the declaration is of that kind and name and leads to a library.
proof fn lemma_edge_leads_nowhere(
    so_far: Resolution,
    package: u64,
    lib: Option<LibTargetView>,
    edge: DeclaredDepView,
    kind: DepKind,
    name: Seq<char>,
)
    requires
        leads_nowhere(so_far.names.of(kind), name),
        edge.kind == kind && edge.name_in_toml == name ==> lib is None,
    ensures
        leads_nowhere(resolve_edge(so_far, package, lib, edge).names.of(kind), name),
{
    let old_tables = so_far.names.of(kind);
    let new_tables = resolve_edge(so_far, package, lib, edge).names.of(kind);
    if edge.kind == kind {
        assert(new_tables == learn_name(old_tables, package, lib, edge.name_in_toml));
        match lib {
            Some(l) => {
                assert forall|x: Seq<char>| !(#[trigger] names_of_lib(new_tables, x)).contains(
                    name,
                ) by {
                    if x == l.lib_true_snakecased_name {
                        assert(!names_of_lib(old_tables, x).contains(name));
                    } else {
                        assert(names_of_lib(new_tables, x) == names_of_lib(old_tables, x));
                    }
                }
            },
            None => {
                assert forall|x: Seq<char>| !(#[trigger] names_of_lib(new_tables, x)).contains(
                    name,
                ) by {
                    assert(names_of_lib(new_tables, x) == names_of_lib(old_tables, x));
                }
            },
        }
    } else {
        assert(new_tables == old_tables);
    }
}

/// Declarations that lead a name to no library leave a name that no table
/// leads to as it is.
proof fn lemma_edges_lead_nowhere(
    so_far: Resolution,
    package: u64,
    lib: Option<LibTargetView>,
    edges: Seq<DeclaredDepView>,
    kind: DepKind,
    name: Seq<char>,
)
    requires
        leads_nowhere(so_far.names.of(kind), name),
        forall|b: int|
            0 <= b < edges.len() && (#[trigger] edges[b]).kind == kind && edges[b].name_in_toml
                == name ==> lib is None,
    ensures
        leads_nowhere(resolve_edges(so_far, package, lib, edges).names.of(kind), name),
    decreases edges.len(),
{
    if edges.len() > 0 {
        let front = edges.drop_last();
        assert forall|b: int|
            0 <= b < front.len() && (#[trigger] front[b]).kind == kind && front[b].name_in_toml
                == name implies lib is None by {
            assert(front[b] == edges[b]);
        }
        lemma_edges_lead_nowhere(so_far, package, lib, front, kind, name);
        assert(edges.last() == edges[edges.len() - 1]);
        lemma_edge_leads_nowhere(
            resolve_edges(so_far, package, lib, front),
            package,
            lib,
            edges.last(),
            kind,
            name,
        );
    }
}

/// Where every declaration of a kind and a name leads to a package without
/// a library, no table of that kind leads to the name.
pub proof fn lemma_never_led_to(deps: Seq<ResolvedDepView>, kind: DepKind, name: Seq<char>)
    requires
        never_leads_to_lib(deps, kind, name),
    ensures
        leads_nowhere(resolve_deps(no_resolution(), deps).names.of(kind), name),
    decreases deps.len(),
{
    if deps.len() == 0 {
        assert forall|x: Seq<char>| !(#[trigger] names_of_lib(no_names(), x)).contains(name) by {}
    } else {
        let front = deps.drop_last();
        assert(never_leads_to_lib(front, kind, name)) by {
            assert forall|a: int, b: int|
                0 <= a < front.len() && 0 <= b < front[a].deps.len() && (
                #[trigger] front[a].deps[b]).kind == kind && front[a].deps[b].name_in_toml
                    == name implies front[a].lib is None by {
                assert(front[a] == deps[a]);
                assert(deps[a].deps[b].kind == kind);
            }
        }
        lemma_never_led_to(front, kind, name);
        let dep = deps.last();
        assert(dep == deps[deps.len() - 1]);
        assert forall|b: int|
            0 <= b < dep.deps.len() && (#[trigger] dep.deps[b]).kind == kind
                && dep.deps[b].name_in_toml == name implies dep.lib is None by {
            assert(deps[deps.len() - 1].deps[b].kind == kind);
        }
        lemma_edges_lead_nowhere(
            resolve_deps(no_resolution(), front),
            dep.package,
            dep.lib,
            dep.deps,
            kind,
            name,
        );
    }
}

/// A name that is noted as one without library stays noted, whatever
/// declarations follow.
proof fn lemma_edges_keep_non_lib(
    so_far: Resolution,
    package: u64,
    lib: Option<LibTargetView>,
    edges: Seq<DeclaredDepView>,
    kind: DepKind,
    name: Seq<char>,
)
    requires
        so_far.names.of(kind).non_lib.contains(name),
    ensures
        resolve_edges(so_far, package, lib, edges).names.of(kind).non_lib.contains(name),
    decreases edges.len(),
{
    if edges.len() > 0 {
        lemma_edges_keep_non_lib(so_far, package, lib, edges.drop_last(), kind, name);
    }
}

/// A name that is noted as one without library stays noted, whatever
/// packages follow.
proof fn lemma_deps_keep_non_lib(
    so_far: Resolution,
    deps: Seq<ResolvedDepView>,
    kind: DepKind,
    name: Seq<char>,
)
    requires
        so_far.names.of(kind).non_lib.contains(name),
    ensures
        resolve_deps(so_far, deps).names.of(kind).non_lib.contains(name),
    decreases deps.len(),
{
    if deps.len() > 0 {
        lemma_deps_keep_non_lib(so_far, deps.drop_last(), kind, name);
        let dep = deps.last();
        lemma_edges_keep_non_lib(
            resolve_deps(so_far, deps.drop_last()),
            dep.package,
            dep.lib,
            dep.deps,
            kind,
            name,
        );
    }
}

/// A declaration that leads to a package without a library is noted as such
/// in the tables of its kind, whatever else the member declares.
pub proof fn lemma_non_lib_in_tables(deps: Seq<ResolvedDepView>, i: int, j: int)
    requires
        0 <= i < deps.len(),
        0 <= j < deps[i].deps.len(),
        deps[i].lib is None,
    ensures
        resolve_deps(no_resolution(), deps).names.of(deps[i].deps[j].kind).non_lib.contains(
            deps[i].deps[j].name_in_toml,
        ),
        resolve_deps(no_resolution(), deps).names.has_non_lib(),
{
    let dep = deps[i];
    let edge = dep.deps[j];
    lemma_resolve_split(deps, i, j);
    let before = resolve_edges(
        resolve_deps(no_resolution(), deps.take(i)),
        dep.package,
        dep.lib,
        dep.deps.take(j),
    );
    let with = resolve_edge(before, dep.package, dep.lib, edge);
    assert(with.names.of(edge.kind).non_lib.contains(edge.name_in_toml));
    lemma_edges_keep_non_lib(
        with,
        dep.package,
        dep.lib,
        dep.deps.skip(j + 1),
        edge.kind,
        edge.name_in_toml,
    );
    lemma_deps_keep_non_lib(
        resolve_edges(with, dep.package, dep.lib, dep.deps.skip(j + 1)),
        deps.skip(i + 1),
        edge.kind,
        edge.name_in_toml,
    );
    let names = resolve_deps(no_resolution(), deps).names;
    assert(names.of(edge.kind).non_lib.contains(edge.name_in_toml));
    assert(names.of(edge.kind).non_lib != Set::<Seq<char>>::empty());
}

/// Whether what counts as used for `kind` is also drawn from the tables of
/// `other`: normal and development dependencies share what is used, build
/// dependencies stand alone.
pub open spec fn shares_used_set(kind: DepKind, other: DepKind) -> bool {
    (kind == DepKind::Build) == (other == DepKind::Build)
}

/// One more unit leaves a declared dependency declared, and leaves a
/// dependency that no table leads to unused.
proof fn lemma_observed_keeps_unused(
    before: EvidenceView,
    unit: CmdInfoView,
    stems: Seq<Option<Seq<char>>>,
    all: Map<u64, DependencyNamesView>,
    table: Map<Seq<char>, u64>,
    member: u64,
    kind: DepKind,
    name: Seq<char>,
)
    requires
        all.contains_key(member),
        forall|other: DepKind|
            shares_used_set(kind, other) ==> leads_nowhere(
                #[trigger] all[member].of(other),
                name,
            ),
        before.declared(kind).contains((member, name)),
        !before.used(kind).contains((member, name)),
    ensures
        observed(before, unit, stems, all, table).declared(kind).contains((member, name)),
        !observed(before, unit, stems, all, table).used(kind).contains((member, name)),
{
    if all.contains_key(unit.pkg) && unit.pkg == member {
        let names = all[member];
        if kind == DepKind::Build {
            assert(leads_nowhere(names.of(DepKind::Build), name));
            lemma_non_lib_never_used(stems, names.build, table, name);
        } else {
            assert(shares_used_set(kind, DepKind::Normal));
            assert(shares_used_set(kind, DepKind::Development));
            assert(leads_nowhere(names.of(DepKind::Normal), name));
            assert(leads_nowhere(names.of(DepKind::Development), name));
            lemma_non_lib_never_used(stems, names.normal, table, name);
            lemma_non_lib_never_used(stems, names.development, table, name);
        }
    }
}

/// A dependency without library is always left over: where the tables of a
/// member note `name` as one without library for `kind`, and no table that
/// counts for `kind` leads to `name`, then whatever units are seen and
/// whatever files they read, `name` is left over for the member, unless the
/// member was not asked about or an ignore list exempts the name.
pub proof fn lemma_non_lib_is_left_over(
    all: Map<u64, DependencyNamesView>,
    units: Seq<CmdInfoView>,
    stems: Seq<Seq<Option<Seq<char>>>>,
    table: Map<Seq<char>, u64>,
    members: Map<u64, Member>,
    workspace_ignore: Option<PackageMetadataCargoUdepsIgnore>,
    member: u64,
    kind: DepKind,
    name: Seq<char>,
)
    requires
        all.contains_key(member),
        all[member].of(kind).non_lib.contains(name),
        forall|other: DepKind|
            shares_used_set(kind, other) ==> leads_nowhere(
                #[trigger] all[member].of(other),
                name,
            ),
        members.contains_key(member),
        !exempts(members[member].ignore, kind, name),
        !exempts(workspace_ignore, kind, name),
    ensures
        observed_all(first_evidence(all), units, stems, all, table).declared(kind).contains(
            (member, name),
        ),
        !observed_all(first_evidence(all), units, stems, all, table).used(kind).contains(
            (member, name),
        ),
        unused_pairs(
            observed_all(first_evidence(all), units, stems, all, table),
            members,
            workspace_ignore,
            kind,
        ).contains((member, name)),
    decreases units.len(),
{
    if units.len() > 0 {
        lemma_non_lib_is_left_over(
            all,
            units.drop_last(),
            stems.drop_last(),
            table,
            members,
            workspace_ignore,
            member,
            kind,
            name,
        );
        lemma_observed_keeps_unused(
            observed_all(first_evidence(all), units.drop_last(), stems.drop_last(), all, table),
            units.last(),
            stems.last(),
            all,
            table,
            member,
            kind,
            name,
        );
    }
}

/// A declared dependency on a package without a library is always reported:
/// where a member that was asked about declares `name` of kind `kind` on a
/// package without library, every declaration named `name` of a kind that
/// counts for `kind` leads to a package without library, and no ignore list
/// exempts `name`, then whatever the command lines and the dependency
/// listings of the units hold, the outcome leaves `name` over for the member
/// and is no success, the run ends with status 1, and the note tells of
/// dependencies without library.
pub proof fn lemma_non_lib_dependency_is_always_reported(
    deps: Seq<ResolvedDepView>,
    i: int,
    j: int,
    all: Map<u64, DependencyNamesView>,
    units: Seq<CmdInfoView>,
    stems: Seq<Seq<Option<Seq<char>>>>,
    table: Map<Seq<char>, u64>,
    members: Map<u64, Member>,
    workspace_ignore: Option<PackageMetadataCargoUdepsIgnore>,
    member: u64,
    found: Outcome,
    ignored: Seq<(DepKind, u64, String)>,
)
    requires
        0 <= i < deps.len(),
        0 <= j < deps[i].deps.len(),
        deps[i].lib is None,
        forall|other: DepKind|
            shares_used_set(deps[i].deps[j].kind, other) ==> #[trigger] never_leads_to_lib(
                deps,
                other,
                deps[i].deps[j].name_in_toml,
            ),
        all.contains_key(member),
        all[member] == resolve_deps(no_resolution(), deps).names,
        members.contains_key(member),
        !exempts(members[member].ignore, deps[i].deps[j].kind, deps[i].deps[j].name_in_toml),
        !exempts(workspace_ignore, deps[i].deps[j].kind, deps[i].deps[j].name_in_toml),
        is_outcome_of(
            found,
            ignored,
            observed_all(first_evidence(all), units, stems, all, table),
            members,
            workspace_ignore,
        ),
    ensures
        found.unused(deps[i].deps[j].kind).contains((member, deps[i].deps[j].name_in_toml)),
        !found.success,
        found.exit_code_of() == 1,
        any_has_non_lib(all),
{
    let kind = deps[i].deps[j].kind;
    let name = deps[i].deps[j].name_in_toml;
    lemma_non_lib_in_tables(deps, i, j);
    assert forall|other: DepKind| shares_used_set(kind, other) implies leads_nowhere(
        #[trigger] all[member].of(other),
        name,
    ) by {
        assert(never_leads_to_lib(deps, other, name));
        lemma_never_led_to(deps, other, name);
    }
    lemma_non_lib_is_left_over(
        all,
        units,
        stems,
        table,
        members,
        workspace_ignore,
        member,
        kind,
        name,
    );
    let evidence = observed_all(first_evidence(all), units, stems, all, table);
    assert(unused_pairs(evidence, members, workspace_ignore, kind).contains((member, name)));
    assert(unused_pairs(evidence, members, workspace_ignore, kind) != Set::<
        (u64, Seq<char>),
    >::empty());
    assert(all[member].has_non_lib());
}

/// What a file shows to be used is among what the files of its unit show.
proof fn lemma_stem_counts(
    stems: Seq<Option<Seq<char>>>,
    k: int,
    names: NamesView,
    table: Map<Seq<char>, u64>,
)
    requires
        0 <= k < stems.len(),
        stems[k] is Some,
    ensures
        used_by_stem(stems[k]->0, names, table).subset_of(used_by_stems(stems, names, table)),
    decreases stems.len(),
{
    if k < stems.len() - 1 {
        assert(stems.drop_last()[k] == stems[k]);
        lemma_stem_counts(stems.drop_last(), k, names, table);
    } else {
        assert(stems.last() == stems[k]);
    }
}

/// What was shown to be used stays so when another unit is seen.
proof fn lemma_observed_keeps_used(
    before: EvidenceView,
    unit: CmdInfoView,
    stems: Seq<Option<Seq<char>>>,
    all: Map<u64, DependencyNamesView>,
    table: Map<Seq<char>, u64>,
    kind: DepKind,
    p: (u64, Seq<char>),
)
    requires
        before.used(kind).contains(p),
    ensures
        observed(before, unit, stems, all, table).used(kind).contains(p),
{
}

/// A renamed dependency that is used is never reported: where the tables of
/// a member pair a package with the manifest name `name` for `kind`, and some
/// unit of the member read a file that this package built in this run, then
/// `name` counts as used for the member and is not left over, whatever other
/// units are seen.
pub proof fn lemma_renamed_dependency_is_not_left_over(
    all: Map<u64, DependencyNamesView>,
    units: Seq<CmdInfoView>,
    stems: Seq<Seq<Option<Seq<char>>>>,
    table: Map<Seq<char>, u64>,
    members: Map<u64, Member>,
    workspace_ignore: Option<PackageMetadataCargoUdepsIgnore>,
    member: u64,
    kind: DepKind,
    name: Seq<char>,
    u: int,
    k: int,
)
    requires
        stems.len() == units.len(),
        0 <= u < units.len(),
        units[u].pkg == member,
        all.contains_key(member),
        0 <= k < stems[u].len(),
        stems[u][k] is Some,
        (stems[u][k]->0).contains('-'),
        table.contains_key(stems[u][k]->0),
        all[member].of(kind).by_package_id.contains_key(table[stems[u][k]->0]),
        all[member].of(kind).by_package_id[table[stems[u][k]->0]] == name,
    ensures
        observed_all(first_evidence(all), units, stems, all, table).used(kind).contains(
            (member, name),
        ),
        !unused_pairs(
            observed_all(first_evidence(all), units, stems, all, table),
            members,
            workspace_ignore,
            kind,
        ).contains((member, name)),
    decreases units.len(),
{
    let front = observed_all(first_evidence(all), units.drop_last(), stems.drop_last(), all, table);
    if u < units.len() - 1 {
        assert(units.drop_last()[u] == units[u]);
        assert(stems.drop_last()[u] == stems[u]);
        lemma_renamed_dependency_is_not_left_over(
            all,
            units.drop_last(),
            stems.drop_last(),
            table,
            members,
            workspace_ignore,
            member,
            kind,
            name,
            u,
            k,
        );
        lemma_observed_keeps_used(
            front,
            units.last(),
            stems.last(),
            all,
            table,
            kind,
            (member, name),
        );
    } else {
        assert(units.last() == units[u]);
        assert(stems.last() == stems[u]);
        let stem = stems[u][k]->0;
        lemma_stem_counts(stems[u], k, all[member].of(kind), table);
        assert(used_by_stem(stem, all[member].of(kind), table).contains(name));
        assert(used_by_stems(stems[u], all[member].of(kind), table).contains(name));
        let after = observed(front, units[u], stems[u], all, table);
        assert(tagged(member, used_by_stems(stems[u], all[member].of(kind), table)).contains(
            (member, name),
        ));
        match kind {
            DepKind::Normal => {
                assert(after.used(kind).contains((member, name)));
            },
            DepKind::Development => {
                assert(after.used(kind).contains((member, name)));
            },
            DepKind::Build => {
                assert(after.used(kind).contains((member, name)));
            },
        }
    }
}

/// Running the check twice on an unchanged project gives the same result:
/// two outcomes drawn from the same units, dependency listings, tables,
/// members and ignore lists agree on what is left over for each kind, on
/// whether the check succeeded, on the status with which the run ends, and
/// on the dependencies that an ignore list exempts.
pub proof fn lemma_check_is_idempotent(
    data: ExecData,
    depinfos: Seq<DepInfo>,
    dependency_names: Map<u64, DependencyNames>,
    members: Map<u64, Member>,
    workspace_ignore: Option<PackageMetadataCargoUdepsIgnore>,
    first: Outcome,
    first_ignored: Seq<(DepKind, u64, String)>,
    second: Outcome,
    second_ignored: Seq<(DepKind, u64, String)>,
)
    requires
        is_outcome_of(
            first,
            first_ignored,
            evidence_of(data, depinfos, dependency_names),
            members,
            workspace_ignore,
        ),
        is_outcome_of(
            second,
            second_ignored,
            evidence_of(data, depinfos, dependency_names),
            members,
            workspace_ignore,
        ),
    ensures
        forall|kind: DepKind| first.unused(kind) == second.unused(kind),
        first.success == second.success,
        first.exit_code_of() == second.exit_code_of(),
        ignored_views(first_ignored).to_set() == ignored_views(second_ignored).to_set(),
{
}

} // verus!
