//! Which declared dependencies the compiled units of a workspace show to be
//! used: a unit's dependency listing names the library files it read, and its
//! command line names the crates it was allowed to refer to.

use vstd::prelude::*;
use vstd::string::{StrSliceExecFns, StringExecFns};

use crate::cmdline::{CmdInfo, CmdInfoView};
use crate::collections::{lemma_take_one_more, views, IdMap, PairSet, StrMap, StrSet};
use crate::defs::{ExternalCrate, Prelude};
use crate::depinfo::{name_views, own_prerequisites, rule_views, DepInfo};
use crate::names::{
    names_of_lib, DepKind, DependencyNames, DependencyNamesValue, DependencyNamesView, NamesView,
};
use crate::paths::{name_view, path_file_stem, path_file_stem_of};
use crate::text::{
    before_first, has_prefix, lemma_lex_less_asymmetric, lex_less, split_first, starts_with,
};

verus! {

/// The pairs of `member` with each of `names`.
pub open spec fn tagged(member: u64, names: Set<Seq<char>>) -> Set<(u64, Seq<char>)> {
    Set::new(|p: (u64, Seq<char>)| p.0 == member && names.contains(p.1))
}

/// `name` without `lib` at its start, if it starts so.
pub open spec fn strip_lib(name: Seq<char>) -> Seq<char> {
    if has_prefix(name, "lib"@) {
        name.skip(3)
    } else {
        name
    }
}

/// The units as plain values.
pub open spec fn unit_views(units: Seq<CmdInfo>) -> Seq<CmdInfoView> {
    units.map_values(|u: CmdInfo| u@)
}

/// The package that built each output file, by the file's name without
/// extension. Of two units with one such name, the later counts.
pub open spec fn stem_table(units: Seq<CmdInfoView>) -> Map<Seq<char>, u64>
    decreases units.len(),
{
    if units.len() == 0 {
        Map::empty()
    } else {
        stem_table(units.drop_last()).insert(
            units.last().artifact_base_name(),
            units.last().pkg,
        )
    }
}

/// Builds the table from output file names to the packages that built them.
pub fn lib_stem_table(units: &Vec<CmdInfo>) -> (table: StrMap<u64>)
    ensures
        table@ == stem_table(unit_views(units@)),
{
    let ghost all = unit_views(units@);
    let mut table: StrMap<u64> = StrMap::new();
    let mut i: usize = 0;
    while i < units.len()
        invariant
            all == unit_views(units@),
            i <= units.len(),
            table@ == stem_table(all.take(i as int)),
        decreases units.len() - i,
    {
        assert(all.take(i + 1).drop_last() =~= all.take(i as int));
        assert(all.take(i + 1).last() == units[i as int]@);
        table.insert(units[i].get_artifact_base_name(), units[i].pkg);
        i += 1;
    }
    assert(all.take(units.len() as int) =~= all);
    table
}

/// The manifest names that a file read by a unit shows to be used, where
/// `stem` is the file's name without extension. A name without `-` shows
/// nothing. A name that some unit of this run built shows the dependency that
/// leads to the package of that unit, if one does. Any other name shows every
/// dependency whose library is named as the part before the first `-`, less a
/// leading `lib`.
pub open spec fn used_by_stem(stem: Seq<char>, names: NamesView, table: Map<Seq<char>, u64>) -> Set<
    Seq<char>,
> {
    if !stem.contains('-') {
        Set::empty()
    } else if table.contains_key(stem) {
        if names.by_package_id.contains_key(table[stem]) {
            set![names.by_package_id[table[stem]]]
        } else {
            Set::empty()
        }
    } else {
        names_of_lib(names, strip_lib(before_first(stem, '-')))
    }
}

/// The manifest names that the files read by a unit show to be used, where a
/// file without a readable name shows nothing.
pub open spec fn used_by_stems(
    stems: Seq<Option<Seq<char>>>,
    names: NamesView,
    table: Map<Seq<char>, u64>,
) -> Set<Seq<char>>
    decreases stems.len(),
{
    if stems.len() == 0 {
        Set::empty()
    } else {
        used_by_stems(stems.drop_last(), names, table) + (match stems.last() {
            Some(stem) => used_by_stem(stem, names, table),
            None => Set::empty(),
        })
    }
}

/// The manifest names of the dependencies that a unit was allowed to refer
/// to: those that the names on its command line stand for.
pub open spec fn declared_by(externs: Set<Seq<char>>, names: NamesView) -> Set<Seq<char>> {
    Set::new(
        |d: Seq<char>|
            exists|x: Seq<char>|
                externs.contains(x) && names.by_extern_crate_name.contains_key(x)
                    && #[trigger] names.by_extern_crate_name[x] == d,
    )
}

/// One more name on the command line adds the dependency it stands for.
pub proof fn lemma_declared_by_insert(externs: Set<Seq<char>>, x: Seq<char>, names: NamesView)
    ensures
        declared_by(externs.insert(x), names) == declared_by(externs, names) + (
        if names.by_extern_crate_name.contains_key(x) {
            set![names.by_extern_crate_name[x]]
        } else {
            Set::empty()
        }),
{
    let more = if names.by_extern_crate_name.contains_key(x) {
        set![names.by_extern_crate_name[x]]
    } else {
        Set::empty()
    };
    assert forall|d: Seq<char>| declared_by(externs.insert(x), names).contains(d) <==> (
    declared_by(externs, names) + more).contains(d) by {
        if declared_by(externs.insert(x), names).contains(d) {
            let y = choose|y: Seq<char>|
                externs.insert(x).contains(y) && names.by_extern_crate_name.contains_key(y)
                    && #[trigger] names.by_extern_crate_name[y] == d;
            if y != x {
                assert(externs.contains(y));
            }
        }
        if declared_by(externs, names).contains(d) {
            let y = choose|y: Seq<char>|
                externs.contains(y) && names.by_extern_crate_name.contains_key(y)
                    && #[trigger] names.by_extern_crate_name[y] == d;
            assert(externs.insert(x).contains(y));
        }
        if more.contains(d) {
            assert(externs.insert(x).contains(x));
            assert(names.by_extern_crate_name[x] == d);
        }
    }
    assert(declared_by(externs.insert(x), names) =~= declared_by(externs, names) + more);
}

/// Adds to `set` the pairs of `member` with each of `names`.
pub fn insert_all(set: &mut PairSet, member: u64, names: &StrSet)
    ensures
        final(set)@ == old(set)@ + tagged(member, names@),
{
    let ghost all = names.ordered();
    let mut k: usize = 0;
    assert(set@ =~= old(set)@ + tagged(member, all.take(0).to_set()));
    while k < names.len()
        invariant
            all == names.ordered(),
            k <= all.len(),
            set@ == old(set)@ + tagged(member, all.take(k as int).to_set()),
        decreases all.len() - k,
    {
        let name = names.get(k).clone();
        assert(name@ == all[k as int]);
        set.insert(member, name);
        proof {
            lemma_take_one_more(all, k as int);
        }
        assert(set@ =~= old(set)@ + tagged(member, all.take(k + 1).to_set()));
        k += 1;
    }
    assert(all.take(all.len() as int) =~= all);
}

/// Adds to `used` what one file read by a unit of `member` shows.
pub fn record_stem(
    stem: &str,
    member: u64,
    names: &DependencyNamesValue,
    table: &StrMap<u64>,
    used: &mut PairSet,
)
    ensures
        final(used)@ == old(used)@ + tagged(member, used_by_stem(stem@, names@, table@)),
{
    let parts = split_first(stem, '-');
    if parts.1.is_none() {
        assert(used@ =~= old(used)@ + tagged(member, Set::empty()));
        return ;
    }
    match table.get(stem) {
        Some(package) => {
            match names.by_package_id.get(*package) {
                Some(name) => {
                    used.insert(member, name.clone());
                    assert(used@ =~= old(used)@ + tagged(member, set![name@]));
                },
                None => {
                    assert(used@ =~= old(used)@ + tagged(member, Set::empty()));
                },
            }
        },
        None => {
            proof {
                reveal_strlit("lib");
            }
            let lib_name = parts.0.as_str();
            let n = lib_name.unicode_len();
            let bare = if starts_with(lib_name, "lib") {
                let rest = lib_name.substring_char(3, n);
                assert(lib_name@.subrange(3, n as int) =~= lib_name@.skip(3));
                rest
            } else {
                lib_name
            };
            assert(bare@ == strip_lib(before_first(stem@, '-')));
            match names.by_lib_true_snakecased_name.get(bare) {
                Some(found) => {
                    insert_all(used, member, found);
                },
                None => {
                    assert(used@ =~= old(used)@ + tagged(member, Set::empty()));
                },
            }
        },
    }
}

/// Adds to `used` what the files read by a unit of `member` show.
pub fn record_stems(
    stems: &Vec<Option<String>>,
    member: u64,
    names: &DependencyNamesValue,
    table: &StrMap<u64>,
    used: &mut PairSet,
)
    ensures
        final(used)@ == old(used)@ + tagged(
            member,
            used_by_stems(name_views(stems@), names@, table@),
        ),
{
    let ghost all = name_views(stems@);
    let mut i: usize = 0;
    assert(used@ =~= old(used)@ + tagged(member, used_by_stems(all.take(0), names@, table@)));
    while i < stems.len()
        invariant
            all == name_views(stems@),
            i <= stems.len(),
            used@ == old(used)@ + tagged(
                member,
                used_by_stems(all.take(i as int), names@, table@),
            ),
        decreases stems.len() - i,
    {
        let ghost before = used@;
        assert(all.take(i + 1).drop_last() =~= all.take(i as int));
        assert(all.take(i + 1).last() == all[i as int]);
        match &stems[i] {
            Some(stem) => {
                record_stem(stem.as_str(), member, names, table, used);
                assert(used@ =~= old(used)@ + tagged(
                    member,
                    used_by_stems(all.take(i + 1), names@, table@),
                ));
            },
            None => {
                assert(used@ =~= old(used)@ + tagged(
                    member,
                    used_by_stems(all.take(i + 1), names@, table@),
                ));
            },
        }
        i += 1;
    }
    assert(all.take(stems.len() as int) =~= all);
}

/// Adds to `declared` the dependencies that a unit of `member` was allowed to
/// refer to, by the names on its command line.
pub fn record_declared(
    externs: &StrSet,
    member: u64,
    names: &DependencyNamesValue,
    declared: &mut PairSet,
)
    ensures
        final(declared)@ == old(declared)@ + tagged(member, declared_by(externs@, names@)),
{
    let ghost all = externs.ordered();
    let mut k: usize = 0;
    assert(all.take(0).to_set() =~= Set::<Seq<char>>::empty());
    assert(declared_by(Set::<Seq<char>>::empty(), names@) =~= Set::<Seq<char>>::empty());
    assert(declared@ =~= old(declared)@ + tagged(
        member,
        declared_by(all.take(0).to_set(), names@),
    ));
    while k < externs.len()
        invariant
            all == externs.ordered(),
            k <= all.len(),
            declared@ == old(declared)@ + tagged(
                member,
                declared_by(all.take(k as int).to_set(), names@),
            ),
        decreases all.len() - k,
    {
        let name = externs.get(k);
        assert(name@ == all[k as int]);
        proof {
            lemma_take_one_more(all, k as int);
            lemma_declared_by_insert(all.take(k as int).to_set(), all[k as int], names@);
        }
        match names.by_extern_crate_name.get(name.as_str()) {
            Some(dep) => {
                declared.insert(member, dep.clone());
                assert(declared@ =~= old(declared)@ + tagged(
                    member,
                    declared_by(all.take(k + 1).to_set(), names@),
                ));
            },
            None => {
                assert(declared@ =~= old(declared)@ + tagged(
                    member,
                    declared_by(all.take(k + 1).to_set(), names@),
                ));
            },
        }
        k += 1;
    }
    assert(all.take(all.len() as int) =~= all);
}

/// Adds what one unit shows for one kind of dependency: to `used` what the
/// files it read show, to `declared` what its command line allowed.
pub fn collect_names(
    unit: &CmdInfo,
    stems: &Vec<Option<String>>,
    names: &DependencyNamesValue,
    table: &StrMap<u64>,
    used: &mut PairSet,
    declared: &mut PairSet,
)
    ensures
        final(used)@ == old(used)@ + tagged(
            unit.pkg,
            used_by_stems(name_views(stems@), names@, table@),
        ),
        final(declared)@ == old(declared)@ + tagged(
            unit.pkg,
            declared_by(unit@.extern_crate_names, names@),
        ),
{
    record_stems(stems, unit.pkg, names, table, used);
    record_declared(&unit.extern_crate_names, unit.pkg, names, declared);
}

/// The name, without extension, of each of the files `files`.
pub open spec fn stems_of(files: Seq<Seq<char>>) -> Seq<Option<Seq<char>>> {
    files.map_values(|f: Seq<char>| path_file_stem_of(f))
}

/// The names, without extension, of the files that a listing says the unit
/// read, in order: one for each prerequisite of the unit's own output.
pub open spec fn read_stems(depinfo: DepInfo) -> Seq<Option<Seq<char>>> {
    stems_of(own_prerequisites(rule_views(depinfo.di@), depinfo.f_name@))
}

/// The names, without extension, of the files that a listing says the unit
/// read, in order: one for each prerequisite of the unit's own output, that
/// is of the first rule whose target has the listing's file name. A file
/// without a readable name has none.
pub fn file_stems(depinfo: &DepInfo) -> (stems: Vec<Option<String>>)
    ensures
        name_views(stems@) == read_stems(*depinfo),
{
    let deps = depinfo.deps_of_depfile();
    let ghost files = views(deps@);
    let mut stems: Vec<Option<String>> = Vec::new();
    let mut i: usize = 0;
    assert(name_views(stems@) =~= stems_of(files).take(0));
    while i < deps.len()
        invariant
            files == views(deps@),
            i <= deps.len(),
            name_views(stems@) == stems_of(files).take(i as int),
        decreases deps.len() - i,
    {
        let ghost earlier = name_views(stems@);
        let stem = path_file_stem(deps[i].as_str());
        let ghost view = name_view(stem);
        assert(files[i as int] == deps[i as int]@);
        stems.push(stem);
        assert(name_views(stems@) =~= earlier.push(view));
        assert(stems_of(files).take(i + 1) =~= stems_of(files).take(i as int).push(view));
        i += 1;
    }
    assert(stems_of(files).take(deps.len() as int) =~= stems_of(files));
    stems
}

/// The tables of every member as plain values.
pub open spec fn member_names(names: Map<u64, DependencyNames>) -> Map<u64, DependencyNamesView> {
    names.map_values(|d: DependencyNames| d@)
}

/// The dependencies of kind `kind` that have no library, each with the member
/// that declares it.
pub open spec fn non_lib_pairs(all: Map<u64, DependencyNamesView>, kind: DepKind) -> Set<
    (u64, Seq<char>),
> {
    Set::new(
        |p: (u64, Seq<char>)| all.contains_key(p.0) && all[p.0].of(kind).non_lib.contains(p.1),
    )
}

/// Gathers the dependencies of kind `kind` that have no library.
pub fn non_lib_of_kind(dependency_names: &IdMap<DependencyNames>, kind: DepKind) -> (set: PairSet)
    ensures
        set@ == non_lib_pairs(member_names(dependency_names@), kind),
{
    proof {
        use_type_invariant(dependency_names);
        dependency_names.lemma_ordered();
    }
    let ghost all = member_names(dependency_names@);
    let ghost keys = dependency_names.keys();
    let mut set = PairSet::new();
    let mut i: usize = 0;
    while i < dependency_names.len()
        invariant
            dependency_names.wf(),
            all == member_names(dependency_names@),
            keys == dependency_names.keys(),
            i <= keys.len(),
            set@ == Set::new(
                |p: (u64, Seq<char>)|
                    keys.take(i as int).contains(p.0) && all[p.0].of(kind).non_lib.contains(p.1),
            ),
        decreases keys.len() - i,
    {
        proof {
            dependency_names.lemma_ordered();
        }
        let key = dependency_names.key_at(i);
        let names = dependency_names.value_at(i);
        let ghost before = set@;
        assert(dependency_names@.contains_key(keys[i as int]));
        assert(all[key] == names@);
        insert_all(&mut set, key, &names.index(kind).non_lib);
        assert(set@ =~= Set::new(
            |p: (u64, Seq<char>)|
                keys.take(i + 1).contains(p.0) && all[p.0].of(kind).non_lib.contains(p.1),
        )) by {
            lemma_take_one_more(keys, i as int);
        }
        i += 1;
    }
    proof {
        dependency_names.lemma_ordered();
        assert(keys.take(keys.len() as int) =~= keys);
        assert(set@ =~= non_lib_pairs(all, kind)) by {
            assert forall|p: (u64, Seq<char>)| keys.contains(p.0) <==> all.contains_key(p.0) by {
                assert(dependency_names@.dom() == keys.to_set());
                assert(keys.to_set().contains(p.0) == keys.contains(p.0));
            }
        }
    }
    set
}

/// What the units seen so far show: which dependencies were used, and which
/// were declared, each as a pair of the member and the manifest name.
#[derive(Debug)]
pub struct Evidence {
    /// Normal and development dependencies that were used.
    pub used_normal_dev_dependencies: PairSet,
    /// Build dependencies that were used.
    pub used_build_dependencies: PairSet,
    pub normal_dependencies: PairSet,
    pub dev_dependencies: PairSet,
    pub build_dependencies: PairSet,
}

/// Evidence as plain values.
pub struct EvidenceView {
    pub used_normal_dev_dependencies: Set<(u64, Seq<char>)>,
    pub used_build_dependencies: Set<(u64, Seq<char>)>,
    pub normal_dependencies: Set<(u64, Seq<char>)>,
    pub dev_dependencies: Set<(u64, Seq<char>)>,
    pub build_dependencies: Set<(u64, Seq<char>)>,
}

impl EvidenceView {
    /// The dependencies of kind `kind` that were declared.
    pub open spec fn declared(self, kind: DepKind) -> Set<(u64, Seq<char>)> {
        match kind {
            DepKind::Normal => self.normal_dependencies,
            DepKind::Development => self.dev_dependencies,
            DepKind::Build => self.build_dependencies,
        }
    }

    /// The dependencies that count as used for kind `kind`: normal and
    /// development dependencies share one set.
    pub open spec fn used(self, kind: DepKind) -> Set<(u64, Seq<char>)> {
        match kind {
            DepKind::Normal => self.used_normal_dev_dependencies,
            DepKind::Development => self.used_normal_dev_dependencies,
            DepKind::Build => self.used_build_dependencies,
        }
    }
}

impl View for Evidence {
    type V = EvidenceView;

    open spec fn view(&self) -> EvidenceView {
        EvidenceView {
            used_normal_dev_dependencies: self.used_normal_dev_dependencies@,
            used_build_dependencies: self.used_build_dependencies@,
            normal_dependencies: self.normal_dependencies@,
            dev_dependencies: self.dev_dependencies@,
            build_dependencies: self.build_dependencies@,
        }
    }
}

/// The evidence before any unit was seen: nothing used, and declared only the
/// dependencies that have no library.
pub open spec fn first_evidence(all: Map<u64, DependencyNamesView>) -> EvidenceView {
    EvidenceView {
        used_normal_dev_dependencies: Set::empty(),
        used_build_dependencies: Set::empty(),
        normal_dependencies: non_lib_pairs(all, DepKind::Normal),
        dev_dependencies: non_lib_pairs(all, DepKind::Development),
        build_dependencies: non_lib_pairs(all, DepKind::Build),
    }
}

/// The evidence after one more unit, where `stems` are the names, without
/// extension, of the files that the unit read. A unit of a package that is no
/// member shows nothing.
pub open spec fn observed(
    before: EvidenceView,
    unit: CmdInfoView,
    stems: Seq<Option<Seq<char>>>,
    all: Map<u64, DependencyNamesView>,
    table: Map<Seq<char>, u64>,
) -> EvidenceView {
    if !all.contains_key(unit.pkg) {
        before
    } else {
        let names = all[unit.pkg];
        EvidenceView {
            used_normal_dev_dependencies: before.used_normal_dev_dependencies + tagged(
                unit.pkg,
                used_by_stems(stems, names.normal, table),
            ) + tagged(unit.pkg, used_by_stems(stems, names.development, table)),
            used_build_dependencies: before.used_build_dependencies + tagged(
                unit.pkg,
                used_by_stems(stems, names.build, table),
            ),
            normal_dependencies: before.normal_dependencies + tagged(
                unit.pkg,
                declared_by(unit.extern_crate_names, names.normal),
            ),
            dev_dependencies: before.dev_dependencies + tagged(
                unit.pkg,
                declared_by(unit.extern_crate_names, names.development),
            ),
            build_dependencies: before.build_dependencies + tagged(
                unit.pkg,
                declared_by(unit.extern_crate_names, names.build),
            ),
        }
    }
}

/// A name on a unit's command line that stands for no dependency of the
/// unit's member.
#[derive(Debug)]
pub struct UnmappedExtern {
    /// The member that the unit belongs to.
    pub member: u64,
    /// The name that could not be mapped.
    pub name: String,
}

impl UnmappedExtern {
    /// The text of the error.
    pub open spec fn text(self) -> Seq<char> {
        "could not map the extern crate name `"@ + self.name@ + "` to a dependency"@
    }

    /// The text of the error.
    pub fn message(&self) -> (text: String)
        ensures
            text@ == self.text(),
    {
        let mut text = String::from_str("could not map the extern crate name `");
        text.append(self.name.as_str());
        text.append("` to a dependency");
        text
    }
}

/// Whether `name` stands for a dependency of some kind.
pub open spec fn is_mapped(names: DependencyNamesView, name: Seq<char>) -> bool {
    ||| names.normal.by_extern_crate_name.contains_key(name)
    ||| names.development.by_extern_crate_name.contains_key(name)
    ||| names.build.by_extern_crate_name.contains_key(name)
}

/// The names among `externs` that stand for no dependency of any kind.
pub open spec fn unmapped_among(externs: Set<Seq<char>>, names: DependencyNamesView) -> Set<
    Seq<char>,
> {
    Set::new(|x: Seq<char>| externs.contains(x) && !is_mapped(names, x))
}

/// The names on a unit's command line that stand for no dependency of its
/// member. A unit of a package that is no member has none.
pub open spec fn unmapped_externs(unit: CmdInfoView, all: Map<u64, DependencyNamesView>) -> Set<
    Seq<char>,
> {
    if all.contains_key(unit.pkg) {
        unmapped_among(unit.extern_crate_names, all[unit.pkg])
    } else {
        Set::empty()
    }
}

/// Whether `name` is the first of `set` in lexicographic order.
pub open spec fn least_of(set: Set<Seq<char>>, name: Seq<char>) -> bool {
    set.contains(name) && forall|y: Seq<char>| set.contains(y) ==> !lex_less(y, name)
}

/// The first name of `externs`, in lexicographic order, that stands for no
/// dependency of any kind.
pub fn first_unmapped(externs: &StrSet, names: &DependencyNames) -> (found: Option<String>)
    ensures
        match found {
            Some(name) => least_of(unmapped_among(externs@, names@), name@),
            None => unmapped_among(externs@, names@) == Set::<Seq<char>>::empty(),
        },
{
    proof {
        use_type_invariant(externs);
        externs.lemma_ordered();
    }
    let ghost all = externs.ordered();
    let mut i: usize = 0;
    while i < externs.len()
        invariant
            all == externs.ordered(),
            crate::collections::increasing(all),
            i <= all.len(),
            forall|j: int| 0 <= j < i ==> is_mapped(names@, #[trigger] all[j]),
        decreases all.len() - i,
    {
        let name = externs.get(i);
        let mapped = names.normal.by_extern_crate_name.contains_key(name.as_str())
            || names.development.by_extern_crate_name.contains_key(name.as_str())
            || names.build.by_extern_crate_name.contains_key(name.as_str());
        if !mapped {
            proof {
                let set = unmapped_among(externs@, names@);
                assert(all.contains(all[i as int]));
                assert(set.contains(name@));
                assert forall|y: Seq<char>| set.contains(y) implies !lex_less(y, name@) by {
                    assert(all.contains(y));
                    let k = choose|k: int| 0 <= k < all.len() && all[k] == y;
                    if k > i {
                        lemma_lex_less_asymmetric(all[i as int], all[k]);
                    } else if k == i {
                        if lex_less(y, name@) {
                            lemma_lex_less_asymmetric(y, name@);
                        }
                    }
                }
            }
            return Some(name.clone());
        }
        i += 1;
    }
    proof {
        let set = unmapped_among(externs@, names@);
        assert forall|x: Seq<char>| !set.contains(x) by {
            if externs@.contains(x) {
                assert(all.contains(x));
                let k = choose|k: int| 0 <= k < all.len() && all[k] == x;
                assert(is_mapped(names@, all[k]));
            }
        }
        assert(set =~= Set::<Seq<char>>::empty());
    }
    None
}

impl Evidence {
    /// The evidence before any unit was seen.
    pub fn new(dependency_names: &IdMap<DependencyNames>) -> (evidence: Evidence)
        ensures
            evidence@ == first_evidence(member_names(dependency_names@)),
    {
        Evidence {
            used_normal_dev_dependencies: PairSet::new(),
            used_build_dependencies: PairSet::new(),
            normal_dependencies: non_lib_of_kind(dependency_names, DepKind::Normal),
            dev_dependencies: non_lib_of_kind(dependency_names, DepKind::Development),
            build_dependencies: non_lib_of_kind(dependency_names, DepKind::Build),
        }
    }

    /// Takes in one unit, where `stems` are the names, without extension, of
    /// the files that the unit read. A name on the unit's command line that
    /// stands for no dependency of its member is an error: the first such
    /// name is told, and the evidence stays as it was.
    pub fn observe_stems(
        &mut self,
        unit: &CmdInfo,
        stems: &Vec<Option<String>>,
        dependency_names: &IdMap<DependencyNames>,
        table: &StrMap<u64>,
    ) -> (result: Result<(), UnmappedExtern>)
        ensures
            match result {
                Ok(_) => unmapped_externs(unit@, member_names(dependency_names@)) == Set::<
                    Seq<char>,
                >::empty() && final(self)@ == observed(
                    old(self)@,
                    unit@,
                    name_views(stems@),
                    member_names(dependency_names@),
                    table@,
                ),
                Err(e) => e.member == unit.pkg && least_of(
                    unmapped_externs(unit@, member_names(dependency_names@)),
                    e.name@,
                ) && final(self)@ == old(self)@,
            },
    {
        match dependency_names.get(unit.pkg) {
            Some(names) => {
                if let Some(name) = first_unmapped(&unit.extern_crate_names, names) {
                    return Err(UnmappedExtern { member: unit.pkg, name });
                }
                collect_names(
                    unit,
                    stems,
                    &names.normal,
                    table,
                    &mut self.used_normal_dev_dependencies,
                    &mut self.normal_dependencies,
                );
                collect_names(
                    unit,
                    stems,
                    &names.development,
                    table,
                    &mut self.used_normal_dev_dependencies,
                    &mut self.dev_dependencies,
                );
                collect_names(
                    unit,
                    stems,
                    &names.build,
                    table,
                    &mut self.used_build_dependencies,
                    &mut self.build_dependencies,
                );
                Ok(())
            },
            None => Ok(()),
        }
    }

    /// Takes in one unit with its dependency listing: the unit is taken in
    /// with the names, without extension, of the files that the listing says
    /// it read.
    pub fn observe(
        &mut self,
        unit: &CmdInfo,
        depinfo: &DepInfo,
        dependency_names: &IdMap<DependencyNames>,
        table: &StrMap<u64>,
    ) -> (result: Result<(), UnmappedExtern>)
        ensures
            match result {
                Ok(_) => unmapped_externs(unit@, member_names(dependency_names@)) == Set::<
                    Seq<char>,
                >::empty() && final(self)@ == observed(
                    old(self)@,
                    unit@,
                    read_stems(*depinfo),
                    member_names(dependency_names@),
                    table@,
                ),
                Err(e) => e.member == unit.pkg && least_of(
                    unmapped_externs(unit@, member_names(dependency_names@)),
                    e.name@,
                ) && final(self)@ == old(self)@,
            },
    {
        let stems = file_stems(depinfo);
        self.observe_stems(unit, &stems, dependency_names, table)
    }
}

/// The names of the files read by each unit, as plain values.
pub open spec fn stem_views(stems: Seq<Vec<Option<String>>>) -> Seq<Seq<Option<Seq<char>>>> {
    stems.map_values(|s: Vec<Option<String>>| name_views(s@))
}

/// The evidence after the units `units`, in order, where `stems[i]` are the
/// names, without extension, of the files that unit `i` read.
pub open spec fn observed_all(
    before: EvidenceView,
    units: Seq<CmdInfoView>,
    stems: Seq<Seq<Option<Seq<char>>>>,
    all: Map<u64, DependencyNamesView>,
    table: Map<Seq<char>, u64>,
) -> EvidenceView
    decreases units.len(),
{
    if units.len() == 0 {
        before
    } else {
        observed(
            observed_all(before, units.drop_last(), stems.drop_last(), all, table),
            units.last(),
            stems.last(),
            all,
            table,
        )
    }
}

/// Whether every name on the command lines of the first `n` units stands for
/// a dependency.
pub open spec fn all_mapped(units: Seq<CmdInfoView>, all: Map<u64, DependencyNamesView>, n: int) -> bool {
    forall|i: int|
        0 <= i < n ==> unmapped_externs(#[trigger] units[i], all) == Set::<Seq<char>>::empty()
}

/// Whether `name` is the first name that stands for no dependency, on the
/// command line of the first unit that has such a name, and that unit belongs
/// to `member`.
pub open spec fn first_unmapped_is(
    units: Seq<CmdInfoView>,
    all: Map<u64, DependencyNamesView>,
    member: u64,
    name: Seq<char>,
) -> bool {
    exists|i: int|
        0 <= i < units.len() && all_mapped(units, all, i) && (#[trigger] units[i]).pkg == member
            && least_of(unmapped_externs(units[i], all), name)
}

impl Evidence {
    /// Gathers the evidence of all units, where `stems[i]` are the names,
    /// without extension, of the files that unit `i` read. The first name
    /// that stands for no dependency of its unit's member is an error.
    pub fn gather_stems(
        units: &Vec<CmdInfo>,
        stems: &Vec<Vec<Option<String>>>,
        dependency_names: &IdMap<DependencyNames>,
        table: &StrMap<u64>,
    ) -> (result: Result<Evidence, UnmappedExtern>)
        requires
            stems.len() == units.len(),
        ensures
            match result {
                Ok(evidence) => all_mapped(
                    unit_views(units@),
                    member_names(dependency_names@),
                    units.len() as int,
                ) && evidence@ == observed_all(
                    first_evidence(member_names(dependency_names@)),
                    unit_views(units@),
                    stem_views(stems@),
                    member_names(dependency_names@),
                    table@,
                ),
                Err(e) => first_unmapped_is(
                    unit_views(units@),
                    member_names(dependency_names@),
                    e.member,
                    e.name@,
                ),
            },
    {
        let ghost all_units = unit_views(units@);
        let ghost all_stems = stem_views(stems@);
        let ghost all = member_names(dependency_names@);
        let mut evidence = Evidence::new(dependency_names);
        let mut i: usize = 0;
        while i < units.len()
            invariant
                stems.len() == units.len(),
                all_units == unit_views(units@),
                all_stems == stem_views(stems@),
                all == member_names(dependency_names@),
                i <= units.len(),
                all_mapped(all_units, all, i as int),
                evidence@ == observed_all(
                    first_evidence(all),
                    all_units.take(i as int),
                    all_stems.take(i as int),
                    all,
                    table@,
                ),
            decreases units.len() - i,
        {
            assert(all_units.take(i + 1).drop_last() =~= all_units.take(i as int));
            assert(all_stems.take(i + 1).drop_last() =~= all_stems.take(i as int));
            assert(all_units.take(i + 1).last() == units[i as int]@);
            assert(all_stems.take(i + 1).last() == name_views(stems[i as int]@));
            assert(all_units[i as int] == units[i as int]@);
            match evidence.observe_stems(&units[i], &stems[i], dependency_names, table) {
                Ok(_) => {},
                Err(e) => {
                    assert(all_units[i as int].pkg == e.member);
                    return Err(e);
                },
            }
            i += 1;
        }
        assert(all_units.take(units.len() as int) =~= all_units);
        assert(all_stems.take(units.len() as int) =~= all_stems);
        Ok(evidence)
    }

    /// Gathers the evidence of all units, where `depinfos[i]` is the
    /// dependency listing of unit `i`: each unit is taken in with the names,
    /// without extension, of the files that its listing says it read. The
    /// first name that stands for no dependency of its unit's member is an
    /// error.
    pub fn gather(
        units: &Vec<CmdInfo>,
        depinfos: &Vec<DepInfo>,
        dependency_names: &IdMap<DependencyNames>,
        table: &StrMap<u64>,
    ) -> (result: Result<Evidence, UnmappedExtern>)
        requires
            depinfos.len() == units.len(),
        ensures
            match result {
                Ok(evidence) => all_mapped(
                    unit_views(units@),
                    member_names(dependency_names@),
                    units.len() as int,
                ) && evidence@ == observed_all(
                    first_evidence(member_names(dependency_names@)),
                    unit_views(units@),
                    all_read_stems(depinfos@),
                    member_names(dependency_names@),
                    table@,
                ),
                Err(e) => first_unmapped_is(
                    unit_views(units@),
                    member_names(dependency_names@),
                    e.member,
                    e.name@,
                ),
            },
    {
        let ghost all = all_read_stems(depinfos@);
        let mut stems: Vec<Vec<Option<String>>> = Vec::new();
        let mut i: usize = 0;
        assert(stem_views(stems@) =~= all.take(0));
        while i < depinfos.len()
            invariant
                all == all_read_stems(depinfos@),
                i <= depinfos.len(),
                stems.len() == i,
                stem_views(stems@) == all.take(i as int),
            decreases depinfos.len() - i,
        {
            let ghost earlier = stem_views(stems@);
            let next = file_stems(&depinfos[i]);
            let ghost view = name_views(next@);
            stems.push(next);
            assert(stem_views(stems@) =~= earlier.push(view));
            assert(all.take(i + 1) =~= all.take(i as int).push(view));
            i += 1;
        }
        assert(all.take(depinfos.len() as int) =~= all);
        Evidence::gather_stems(units, &stems, dependency_names, table)
    }
}

/// The names, without extension, of the files that each listing says its unit
/// read.
pub open spec fn all_read_stems(depinfos: Seq<DepInfo>) -> Seq<Seq<Option<Seq<char>>>> {
    depinfos.map_values(|d: DepInfo| read_stems(d))
}

/// The manifest names that an analysis record shows to be used: those that
/// lead to a library named as one of the external crates that the record
/// lists.
pub open spec fn used_by_crates(crates: Seq<Seq<char>>, names: NamesView) -> Set<Seq<char>>
    decreases crates.len(),
{
    if crates.len() == 0 {
        Set::empty()
    } else {
        used_by_crates(crates.drop_last(), names) + names_of_lib(names, crates.last())
    }
}

/// The names of the external crates that a record lists.
pub open spec fn crate_names(crates: Seq<ExternalCrate>) -> Seq<Seq<char>> {
    crates.map_values(|c: ExternalCrate| c.id.name@)
}

/// Adds to `used` what the analysis record of a unit of `member` shows.
pub fn record_prelude(
    prelude: &Prelude,
    member: u64,
    names: &DependencyNamesValue,
    used: &mut PairSet,
)
    ensures
        final(used)@ == old(used)@ + tagged(
            member,
            used_by_crates(crate_names(prelude.external_crates@), names@),
        ),
{
    let ghost all = crate_names(prelude.external_crates@);
    let mut i: usize = 0;
    assert(used@ =~= old(used)@ + tagged(member, used_by_crates(all.take(0), names@)));
    while i < prelude.external_crates.len()
        invariant
            all == crate_names(prelude.external_crates@),
            i <= prelude.external_crates.len(),
            used@ == old(used)@ + tagged(member, used_by_crates(all.take(i as int), names@)),
        decreases prelude.external_crates.len() - i,
    {
        assert(all.take(i + 1).drop_last() =~= all.take(i as int));
        assert(all.take(i + 1).last() == prelude.external_crates[i as int].id.name@);
        match names.by_lib_true_snakecased_name.get(
            prelude.external_crates[i].id.name.as_str(),
        ) {
            Some(found) => {
                insert_all(used, member, found);
            },
            None => {},
        }
        assert(used@ =~= old(used)@ + tagged(member, used_by_crates(all.take(i + 1), names@)));
        i += 1;
    }
    assert(all.take(prelude.external_crates.len() as int) =~= all);
}

} // verus!
