//! The names under which a workspace member's dependencies can be met: in its
//! manifest, on a compiler command line, and in the names of built libraries.

use vstd::prelude::*;

use crate::collections::{lemma_take_one_more, IdMap, StrMap, StrSet};

verus! {

/// The section of a manifest that declares a dependency.
#[derive(Clone, Copy, Debug, PartialEq, Eq, Structural)]
pub enum DepKind {
    Normal,
    Development,
    Build,
}

/// One declaration of a dependency in a manifest.
#[derive(Debug)]
pub struct DeclaredDep {
    pub kind: DepKind,
    /// The name that the manifest gives the dependency.
    pub name_in_toml: String,
}

/// The library of a package, as a dependent meets it.
#[derive(Debug)]
pub struct LibTarget {
    /// The name by which the dependent's code refers to the library.
    pub extern_crate_name: String,
    /// The library's own name, with `_` for each `-`.
    pub lib_true_snakecased_name: String,
}

/// A package that a member depends on, with the declarations that lead to it.
#[derive(Debug)]
pub struct ResolvedDep {
    /// The number of the package.
    pub package: u64,
    /// The package's library, if it has one.
    pub lib: Option<LibTarget>,
    pub deps: Vec<DeclaredDep>,
}

/// A declaration as plain values.
pub struct DeclaredDepView {
    pub kind: DepKind,
    pub name_in_toml: Seq<char>,
}

/// A library as plain values.
pub struct LibTargetView {
    pub extern_crate_name: Seq<char>,
    pub lib_true_snakecased_name: Seq<char>,
}

/// A package depended on as plain values.
pub struct ResolvedDepView {
    pub package: u64,
    pub lib: Option<LibTargetView>,
    pub deps: Seq<DeclaredDepView>,
}

impl View for DeclaredDep {
    type V = DeclaredDepView;

    open spec fn view(&self) -> DeclaredDepView {
        DeclaredDepView { kind: self.kind, name_in_toml: self.name_in_toml@ }
    }
}

impl View for LibTarget {
    type V = LibTargetView;

    open spec fn view(&self) -> LibTargetView {
        LibTargetView {
            extern_crate_name: self.extern_crate_name@,
            lib_true_snakecased_name: self.lib_true_snakecased_name@,
        }
    }
}

/// The library of a package as plain values, if it has one.
pub open spec fn lib_view(lib: Option<LibTarget>) -> Option<LibTargetView> {
    match lib {
        Some(l) => Some(l@),
        None => None,
    }
}

impl View for ResolvedDep {
    type V = ResolvedDepView;

    open spec fn view(&self) -> ResolvedDepView {
        ResolvedDepView {
            package: self.package,
            lib: lib_view(self.lib),
            deps: self.deps@.map_values(|d: DeclaredDep| d@),
        }
    }
}

/// The lookup tables of one member for one kind of dependency.
#[derive(Debug)]
pub struct DependencyNamesValue {
    /// From the name in the dependent's code to the name in the manifest.
    pub by_extern_crate_name: StrMap<String>,
    /// From a library's own name to the manifest names that lead to a library
    /// of that name.
    pub by_lib_true_snakecased_name: StrMap<StrSet>,
    /// From a package to the name in the manifest.
    pub by_package_id: IdMap<String>,
    /// The manifest names of the dependencies that have no library.
    pub non_lib: StrSet,
}

/// Lookup tables as plain values.
pub struct NamesView {
    pub by_extern_crate_name: Map<Seq<char>, Seq<char>>,
    pub by_lib_true_snakecased_name: Map<Seq<char>, Set<Seq<char>>>,
    pub by_package_id: Map<u64, Seq<char>>,
    pub non_lib: Set<Seq<char>>,
}

impl View for DependencyNamesValue {
    type V = NamesView;

    open spec fn view(&self) -> NamesView {
        NamesView {
            by_extern_crate_name: self.by_extern_crate_name@.map_values(|s: String| s@),
            by_lib_true_snakecased_name: self.by_lib_true_snakecased_name@.map_values(
                |s: StrSet| s@,
            ),
            by_package_id: self.by_package_id@.map_values(|s: String| s@),
            non_lib: self.non_lib@,
        }
    }
}

/// Tables that hold nothing.
pub open spec fn no_names() -> NamesView {
    NamesView {
        by_extern_crate_name: Map::empty(),
        by_lib_true_snakecased_name: Map::empty(),
        by_package_id: Map::empty(),
        non_lib: Set::empty(),
    }
}

/// The manifest names that lead to a library named `lib`.
pub open spec fn names_of_lib(names: NamesView, lib: Seq<char>) -> Set<Seq<char>> {
    if names.by_lib_true_snakecased_name.contains_key(lib) {
        names.by_lib_true_snakecased_name[lib]
    } else {
        Set::empty()
    }
}

/// The tables after one declaration named `name` that leads to `package`.
/// Where the package has a library, the three tables learn the name; where it
/// has none, the name is only noted as one without a library.
pub open spec fn learn_name(
    names: NamesView,
    package: u64,
    lib: Option<LibTargetView>,
    name: Seq<char>,
) -> NamesView {
    match lib {
        Some(l) => NamesView {
            by_extern_crate_name: names.by_extern_crate_name.insert(l.extern_crate_name, name),
            by_lib_true_snakecased_name: names.by_lib_true_snakecased_name.insert(
                l.lib_true_snakecased_name,
                names_of_lib(names, l.lib_true_snakecased_name).insert(name),
            ),
            by_package_id: names.by_package_id.insert(package, name),
            non_lib: names.non_lib,
        },
        None => NamesView { non_lib: names.non_lib.insert(name), ..names },
    }
}

impl DependencyNamesValue {
    /// Tables that hold nothing.
    pub fn new() -> (names: DependencyNamesValue)
        ensures
            names@ == no_names(),
    {
        let names = DependencyNamesValue {
            by_extern_crate_name: StrMap::new(),
            by_lib_true_snakecased_name: StrMap::new(),
            by_package_id: IdMap::new(),
            non_lib: StrSet::new(),
        };
        assert(names@.by_extern_crate_name =~= Map::<Seq<char>, Seq<char>>::empty());
        assert(names@.by_lib_true_snakecased_name =~= Map::<Seq<char>, Set<Seq<char>>>::empty());
        assert(names@.by_package_id =~= Map::<u64, Seq<char>>::empty());
        names
    }

    /// Enters one declaration named `name` that leads to `package`. Gives back
    /// the name under which the package was entered before, if it was.
    pub fn learn(&mut self, package: u64, lib: &Option<LibTarget>, name: &String) -> (previous:
        Option<String>)
        ensures
            final(self)@ == learn_name(old(self)@, package, lib_view(*lib), name@),
            match previous {
                Some(p) => lib is Some && old(self)@.by_package_id.contains_key(package) && p@
                    == old(self)@.by_package_id[package],
                None => lib is None || !old(self)@.by_package_id.contains_key(package),
            },
    {
        match lib {
            Some(l) => {
                let ghost before = old(self)@;
                let ghost key = l.lib_true_snakecased_name@;
                self.by_extern_crate_name.insert(l.extern_crate_name.clone(), name.clone());
                let previous = self.by_package_id.insert(package, name.clone());
                let mut set = match self.by_lib_true_snakecased_name.remove(
                    l.lib_true_snakecased_name.as_str(),
                ) {
                    Some(s) => s,
                    None => StrSet::new(),
                };
                assert(set@ == names_of_lib(before, key));
                set.insert(name.clone());
                self.by_lib_true_snakecased_name.insert(l.lib_true_snakecased_name.clone(), set);
                proof {
                    let after = learn_name(before, package, lib_view(*lib), name@);
                    assert(final(self)@.by_extern_crate_name =~= after.by_extern_crate_name);
                    assert(final(self)@.by_package_id =~= after.by_package_id);
                    assert(final(self)@.by_lib_true_snakecased_name
                        =~= after.by_lib_true_snakecased_name);
                }
                previous
            },
            None => {
                self.non_lib.insert(name.clone());
                None
            },
        }
    }
}

/// The lookup tables of one member, by kind of dependency.
#[derive(Debug)]
pub struct DependencyNames {
    pub normal: DependencyNamesValue,
    pub development: DependencyNamesValue,
    pub build: DependencyNamesValue,
}

/// The tables of one member as plain values.
pub struct DependencyNamesView {
    pub normal: NamesView,
    pub development: NamesView,
    pub build: NamesView,
}

impl DependencyNamesView {
    /// The tables for `kind`.
    pub open spec fn of(self, kind: DepKind) -> NamesView {
        match kind {
            DepKind::Normal => self.normal,
            DepKind::Development => self.development,
            DepKind::Build => self.build,
        }
    }

    /// These tables, with `names` for `kind`.
    pub open spec fn with(self, kind: DepKind, names: NamesView) -> DependencyNamesView {
        match kind {
            DepKind::Normal => DependencyNamesView { normal: names, ..self },
            DepKind::Development => DependencyNamesView { development: names, ..self },
            DepKind::Build => DependencyNamesView { build: names, ..self },
        }
    }

    /// Whether some dependency of some kind has no library.
    pub open spec fn has_non_lib(self) -> bool {
        self.normal.non_lib != Set::<Seq<char>>::empty() || self.development.non_lib
            != Set::<Seq<char>>::empty() || self.build.non_lib != Set::<Seq<char>>::empty()
    }
}

impl View for DependencyNames {
    type V = DependencyNamesView;

    open spec fn view(&self) -> DependencyNamesView {
        DependencyNamesView {
            normal: self.normal@,
            development: self.development@,
            build: self.build@,
        }
    }
}

/// What reading a member's dependencies gives: the tables, and each package
/// that a second declaration of one kind led to, with the name it had before.
pub struct Resolution {
    pub names: DependencyNamesView,
    pub duplicates: Seq<(u64, Seq<char>)>,
}

/// Nothing read yet.
pub open spec fn no_resolution() -> Resolution {
    Resolution {
        names: DependencyNamesView {
            normal: no_names(),
            development: no_names(),
            build: no_names(),
        },
        duplicates: Seq::empty(),
    }
}

/// What is known after one more declaration.
pub open spec fn resolve_edge(
    so_far: Resolution,
    package: u64,
    lib: Option<LibTargetView>,
    edge: DeclaredDepView,
) -> Resolution {
    let names = so_far.names.of(edge.kind);
    Resolution {
        names: so_far.names.with(edge.kind, learn_name(names, package, lib, edge.name_in_toml)),
        duplicates: if lib is Some && names.by_package_id.contains_key(package) {
            so_far.duplicates.push((package, names.by_package_id[package]))
        } else {
            so_far.duplicates
        },
    }
}

/// What is known after the declarations `edges`, in order, all of which lead
/// to `package`.
pub open spec fn resolve_edges(
    so_far: Resolution,
    package: u64,
    lib: Option<LibTargetView>,
    edges: Seq<DeclaredDepView>,
) -> Resolution
    decreases edges.len(),
{
    if edges.len() == 0 {
        so_far
    } else {
        resolve_edge(
            resolve_edges(so_far, package, lib, edges.drop_last()),
            package,
            lib,
            edges.last(),
        )
    }
}

/// What is known after the packages `deps`, in order.
pub open spec fn resolve_deps(so_far: Resolution, deps: Seq<ResolvedDepView>) -> Resolution
    decreases deps.len(),
{
    if deps.len() == 0 {
        so_far
    } else {
        let dep = deps.last();
        resolve_edges(resolve_deps(so_far, deps.drop_last()), dep.package, dep.lib, dep.deps)
    }
}

/// The packages depended on as plain values.
pub open spec fn dep_views(deps: Seq<ResolvedDep>) -> Seq<ResolvedDepView> {
    deps.map_values(|d: ResolvedDep| d@)
}

/// The pairs of a package number and a name as plain values.
pub open spec fn duplicate_views(duplicates: Seq<(u64, String)>) -> Seq<(u64, Seq<char>)> {
    duplicates.map_values(|d: (u64, String)| (d.0, d.1@))
}

impl DependencyNames {
    /// Tables that hold nothing.
    pub fn empty() -> (names: DependencyNames)
        ensures
            names@ == no_resolution().names,
    {
        DependencyNames {
            normal: DependencyNamesValue::new(),
            development: DependencyNamesValue::new(),
            build: DependencyNamesValue::new(),
        }
    }

    /// The tables for `kind`.
    pub fn index(&self, index: DepKind) -> (names: &DependencyNamesValue)
        ensures
            names@ == self@.of(index),
    {
        match index {
            DepKind::Normal => &self.normal,
            DepKind::Development => &self.development,
            DepKind::Build => &self.build,
        }
    }

    /// The tables for `kind`, to add to.
    pub fn index_mut(&mut self, index: DepKind) -> (names: &mut DependencyNamesValue)
        ensures
            *names == old(self).value_of(index),
            final(self).value_of(index) == *final(names),
            forall|other: DepKind|
                other != index ==> final(self).value_of(other) == old(self).value_of(other),
    {
        match index {
            DepKind::Normal => &mut self.normal,
            DepKind::Development => &mut self.development,
            DepKind::Build => &mut self.build,
        }
    }

    /// The tables for `kind`.
    pub open spec fn value_of(self, kind: DepKind) -> DependencyNamesValue {
        match kind {
            DepKind::Normal => self.normal,
            DepKind::Development => self.development,
            DepKind::Build => self.build,
        }
    }

    /// Whether some dependency of some kind has no library.
    pub fn has_non_lib(&self) -> (any: bool)
        ensures
            any == self@.has_non_lib(),
    {
        !self.normal.non_lib.is_empty() || !self.development.non_lib.is_empty()
            || !self.build.non_lib.is_empty()
    }

    /// Enters one declaration that leads to `package`.
    fn learn(&mut self, package: u64, lib: &Option<LibTarget>, edge: &DeclaredDep) -> (previous:
        Option<String>)
        ensures
            final(self)@ == old(self)@.with(
                edge.kind,
                learn_name(old(self)@.of(edge.kind), package, lib_view(*lib), edge.name_in_toml@),
            ),
            match previous {
                Some(p) => lib is Some && old(self)@.of(edge.kind).by_package_id.contains_key(
                    package,
                ) && p@ == old(self)@.of(edge.kind).by_package_id[package],
                None => lib is None || !old(self)@.of(edge.kind).by_package_id.contains_key(
                    package,
                ),
            },
    {
        let kind = edge.kind;
        let names = self.index_mut(kind);
        let previous = names.learn(package, lib, &edge.name_in_toml);
        proof {
            assert(self.value_of(DepKind::Normal) == self.normal);
            assert(self.value_of(DepKind::Development) == self.development);
            assert(self.value_of(DepKind::Build) == self.build);
            assert(old(self).value_of(DepKind::Normal) == old(self).normal);
            assert(old(self).value_of(DepKind::Development) == old(self).development);
            assert(old(self).value_of(DepKind::Build) == old(self).build);
            assert(self.value_of(kind)@ == learn_name(
                old(self).value_of(kind)@,
                package,
                lib_view(*lib),
                edge.name_in_toml@,
            ));
        }
        previous
    }

    /// Builds the tables of one member from the packages it depends on. Also
    /// gives, in order, each package that a second declaration of one kind led
    /// to, with the manifest name it had before.
    pub fn new(deps: &Vec<ResolvedDep>) -> (result: (DependencyNames, Vec<(u64, String)>))
        ensures
            result.0@ == resolve_deps(no_resolution(), dep_views(deps@)).names,
            duplicate_views(result.1@) == resolve_deps(
                no_resolution(),
                dep_views(deps@),
            ).duplicates,
    {
        let mut this = DependencyNames::empty();
        let mut duplicates: Vec<(u64, String)> = Vec::new();
        let ghost all = dep_views(deps@);
        assert(duplicate_views(duplicates@) =~= Seq::<(u64, Seq<char>)>::empty());
        let mut i: usize = 0;
        while i < deps.len()
            invariant
                all == dep_views(deps@),
                i <= deps.len(),
                this@ == resolve_deps(no_resolution(), all.take(i as int)).names,
                duplicate_views(duplicates@) == resolve_deps(
                    no_resolution(),
                    all.take(i as int),
                ).duplicates,
            decreases deps.len() - i,
        {
            let dep = &deps[i];
            let ghost start = resolve_deps(no_resolution(), all.take(i as int));
            let ghost edges = dep@.deps;
            assert(all.take(i + 1).drop_last() =~= all.take(i as int));
            assert(all.take(i + 1).last() == dep@);
            let mut j: usize = 0;
            while j < dep.deps.len()
                invariant
                    edges == dep@.deps,
                    edges.len() == dep.deps.len(),
                    j <= dep.deps.len(),
                    this@ == resolve_edges(start, dep.package, dep@.lib, edges.take(j as int)).names,
                    duplicate_views(duplicates@) == resolve_edges(
                        start,
                        dep.package,
                        dep@.lib,
                        edges.take(j as int),
                    ).duplicates,
                decreases dep.deps.len() - j,
            {
                let edge = &dep.deps[j];
                assert(edges.take(j + 1).drop_last() =~= edges.take(j as int));
                assert(edges.take(j + 1).last() == edge@);
                let previous = this.learn(dep.package, &dep.lib, edge);
                if let Some(name) = previous {
                    let ghost earlier = duplicate_views(duplicates@);
                    duplicates.push((dep.package, name));
                    assert(duplicate_views(duplicates@) =~= earlier.push((dep.package, name@)));
                }
                j += 1;
            }
            assert(edges.take(dep.deps.len() as int) =~= edges);
            i += 1;
        }
        assert(all.take(deps.len() as int) =~= all);
        (this, duplicates)
    }
}

/// Each name of `set`, paired with `lib`.
pub open spec fn all_to(set: Set<Seq<char>>, lib: Seq<char>) -> Map<Seq<char>, Seq<char>> {
    Map::new(|d: Seq<char>| set.contains(d), |d: Seq<char>| lib)
}

/// The character sequences that the strings of a map stand for.
pub open spec fn text_map(map: Map<Seq<char>, String>) -> Map<Seq<char>, Seq<char>> {
    map.map_values(|s: String| s@)
}

/// The manifest names that share a library name with another, each with that
/// library name, as the first `n` entries of a table show them. Where a name
/// shares two library names, the later entry counts.
pub open spec fn ambiguous_upto(keys: Seq<Seq<char>>, sets: Seq<StrSet>, n: int) -> Map<
    Seq<char>,
    Seq<char>,
>
    decreases n,
{
    if n <= 0 {
        Map::empty()
    } else {
        let rest = ambiguous_upto(keys, sets, n - 1);
        if sets[n - 1]@.len() > 1 {
            rest.union_prefer_right(all_to(sets[n - 1]@, keys[n - 1]))
        } else {
            rest
        }
    }
}

/// The manifest names that share a library name with another, each with that
/// library name.
pub open spec fn ambiguous_of(table: StrMap<StrSet>) -> Map<Seq<char>, Seq<char>> {
    ambiguous_upto(table.keys(), table.values(), table.keys().len() as int)
}

/// Whether `dep` is one of several manifest names that lead to a library
/// named `lib`.
pub open spec fn shares_lib(table: Map<Seq<char>, StrSet>, dep: Seq<char>, lib: Seq<char>) -> bool {
    table.contains_key(lib) && table[lib]@.len() > 1 && table[lib]@.contains(dep)
}

/// Whether entry `j` of a table shows `dep` to share its library name.
pub open spec fn shares_at(sets: Seq<StrSet>, j: int, dep: Seq<char>) -> bool {
    sets[j]@.len() > 1 && sets[j]@.contains(dep)
}

/// What the first `n` entries of a table show to be ambiguous is what some
/// entry among them shows to share its library name.
proof fn lemma_ambiguous_upto(keys: Seq<Seq<char>>, sets: Seq<StrSet>, n: int, dep: Seq<char>)
    requires
        0 <= n <= keys.len(),
        keys.len() == sets.len(),
    ensures
        ambiguous_upto(keys, sets, n).contains_key(dep) <==> exists|j: int|
            0 <= j < n && #[trigger] shares_at(sets, j, dep),
        ambiguous_upto(keys, sets, n).contains_key(dep) ==> exists|j: int|
            0 <= j < n && #[trigger] shares_at(sets, j, dep) && keys[j] == ambiguous_upto(
                keys,
                sets,
                n,
            )[dep],
    decreases n,
{
    if n > 0 {
        lemma_ambiguous_upto(keys, sets, n - 1, dep);
        let rest = ambiguous_upto(keys, sets, n - 1);
        if shares_at(sets, n - 1, dep) {
            assert(ambiguous_upto(keys, sets, n).contains_key(dep));
            assert(ambiguous_upto(keys, sets, n)[dep] == keys[n - 1]);
        } else if rest.contains_key(dep) {
            let j = choose|j: int|
                0 <= j < n - 1 && #[trigger] shares_at(sets, j, dep) && keys[j] == rest[dep];
            assert(shares_at(sets, j, dep));
            assert(ambiguous_upto(keys, sets, n)[dep] == rest[dep]);
        } else {
            assert(!ambiguous_upto(keys, sets, n).contains_key(dep));
            if exists|j: int| 0 <= j < n && #[trigger] shares_at(sets, j, dep) {
                let j = choose|j: int| 0 <= j < n && #[trigger] shares_at(sets, j, dep);
                assert(j < n - 1);
            }
        }
    }
}

/// A manifest name is ambiguous just when it is one of several that lead to
/// a library of one name; and it is shown with such a library name.
pub proof fn lemma_ambiguous_of(table: StrMap<StrSet>, dep: Seq<char>)
    requires
        table.wf(),
    ensures
        ambiguous_of(table).contains_key(dep) <==> exists|lib: Seq<char>| #[trigger]
            shares_lib(table@, dep, lib),
        ambiguous_of(table).contains_key(dep) ==> shares_lib(
            table@,
            dep,
            ambiguous_of(table)[dep],
        ),
{
    table.lemma_ordered();
    let keys = table.keys();
    let sets = table.values();
    lemma_ambiguous_upto(keys, sets, keys.len() as int, dep);
    if ambiguous_of(table).contains_key(dep) {
        let j = choose|j: int|
            0 <= j < keys.len() && #[trigger] shares_at(sets, j, dep) && keys[j] == ambiguous_of(
                table,
            )[dep];
        assert(table@.contains_key(keys[j]) && table@[keys[j]] == sets[j]);
        assert(shares_lib(table@, dep, keys[j]));
    }
    if exists|lib: Seq<char>| #[trigger] shares_lib(table@, dep, lib) {
        let lib = choose|lib: Seq<char>| #[trigger] shares_lib(table@, dep, lib);
        assert(keys.to_set().contains(lib));
        let j = choose|j: int| 0 <= j < keys.len() && keys[j] == lib;
        assert(table@.contains_key(keys[j]) && table@[keys[j]] == sets[j]);
        assert(shares_at(sets, j, dep));
    }
}

/// Pairs each name of `set` with `lib` in `found`.
fn add_set(lib: &String, set: &StrSet, found: &mut StrMap<String>)
    ensures
        text_map(final(found)@) == text_map(old(found)@).union_prefer_right(all_to(set@, lib@)),
{
    let ghost all = set.ordered();
    let ghost before = text_map(found@);
    let mut t: usize = 0;
    assert(text_map(found@) =~= before.union_prefer_right(all_to(all.take(0).to_set(), lib@)));
    while t < set.len()
        invariant
            all == set.ordered(),
            t <= all.len(),
            text_map(found@) == before.union_prefer_right(
                all_to(all.take(t as int).to_set(), lib@),
            ),
        decreases all.len() - t,
    {
        let dep = set.get(t).clone();
        proof {
            lemma_take_one_more(all, t as int);
        }
        let ghost prev = text_map(found@);
        assert(dep@ == all[t as int]);
        found.insert(dep, lib.clone());
        assert(text_map(found@) =~= prev.insert(all[t as int], lib@));
        assert(all.take(t + 1).to_set() =~= all.take(t as int).to_set().insert(all[t as int]));
        assert(text_map(found@) =~= before.union_prefer_right(
            all_to(all.take(t + 1).to_set(), lib@),
        ));
        t += 1;
    }
    assert(all.take(all.len() as int) =~= all);
}

/// Adds to `found` the manifest names of `table` that share a library name
/// with another.
pub fn add_ambiguous(table: &StrMap<StrSet>, found: &mut StrMap<String>)
    ensures
        text_map(final(found)@) == text_map(old(found)@).union_prefer_right(ambiguous_of(*table)),
{
    proof {
        use_type_invariant(table);
        table.lemma_ordered();
    }
    let ghost keys = table.keys();
    let ghost sets = table.values();
    let ghost before = text_map(found@);
    let mut i: usize = 0;
    assert(text_map(found@) =~= before.union_prefer_right(ambiguous_upto(keys, sets, 0)));
    while i < table.len()
        invariant
            keys == table.keys(),
            sets == table.values(),
            i <= keys.len(),
            keys.len() == sets.len(),
            text_map(found@) == before.union_prefer_right(ambiguous_upto(keys, sets, i as int)),
        decreases keys.len() - i,
    {
        let set = table.value_at(i);
        proof {
            use_type_invariant(set);
            set.lemma_ordered();
        }
        if set.len() > 1 {
            add_set(table.key_at(i), set, found);
            assert(text_map(found@) =~= before.union_prefer_right(
                ambiguous_upto(keys, sets, i + 1),
            ));
        }
        i += 1;
    }
}

/// The pairs as plain values.
pub open spec fn pair_views(pairs: Seq<(String, String)>) -> Seq<(Seq<char>, Seq<char>)> {
    pairs.map_values(|p: (String, String)| (p.0@, p.1@))
}

/// The first parts of the pairs.
pub open spec fn firsts(pairs: Seq<(Seq<char>, Seq<char>)>) -> Seq<Seq<char>> {
    pairs.map_values(|p: (Seq<char>, Seq<char>)| p.0)
}

/// The pairs of a map, in increasing order of the keys.
pub fn sorted_entries(map: &StrMap<String>) -> (pairs: Vec<(String, String)>)
    ensures
        crate::collections::increasing(firsts(pair_views(pairs@))),
        firsts(pair_views(pairs@)).to_set() == map@.dom(),
        forall|i: int|
            0 <= i < pairs.len() ==> map@.contains_key((#[trigger] pairs[i]).0@) && map@[pairs[i].0@]@
                == pairs[i].1@,
{
    proof {
        use_type_invariant(map);
        map.lemma_ordered();
    }
    let ghost keys = map.keys();
    let mut order = StrSet::new();
    let mut i: usize = 0;
    assert(keys.take(0).to_set() =~= Set::<Seq<char>>::empty());
    while i < map.len()
        invariant
            keys == map.keys(),
            i <= keys.len(),
            order@ == keys.take(i as int).to_set(),
        decreases keys.len() - i,
    {
        proof {
            lemma_take_one_more(keys, i as int);
        }
        order.insert(map.key_at(i).clone());
        i += 1;
    }
    assert(keys.take(keys.len() as int) =~= keys);
    proof {
        use_type_invariant(&order);
        order.lemma_ordered();
    }
    let ghost sorted = order.ordered();
    let mut pairs: Vec<(String, String)> = Vec::new();
    let mut k: usize = 0;
    assert(firsts(pair_views(pairs@)) =~= sorted.take(0));
    while k < order.len()
        invariant
            sorted == order.ordered(),
            order@ == map@.dom(),
            k <= sorted.len(),
            firsts(pair_views(pairs@)) == sorted.take(k as int),
            forall|i: int|
                0 <= i < pairs.len() ==> map@.contains_key((#[trigger] pairs[i]).0@)
                    && map@[pairs[i].0@]@ == pairs[i].1@,
        decreases sorted.len() - k,
    {
        let key = order.get(k);
        assert(order@.contains(sorted[k as int]));
        let ghost earlier = firsts(pair_views(pairs@));
        match map.get(key.as_str()) {
            Some(value) => {
                pairs.push((key.clone(), value.clone()));
            },
            None => {
                assert(false);
            },
        }
        assert(firsts(pair_views(pairs@)) =~= earlier.push(sorted[k as int]));
        assert(sorted.take(k + 1) =~= sorted.take(k as int).push(sorted[k as int]));
        k += 1;
    }
    assert(sorted.take(sorted.len() as int) =~= sorted);
    pairs
}

impl DependencyNames {
    /// The manifest names that share a library name with another, each with
    /// that library name, in increasing order of the manifest names: first
    /// those among the normal and development dependencies, where a name met
    /// under both kinds goes by its development entry; then those among the
    /// build dependencies.
    pub fn ambiguous_names(&self) -> (found: (Vec<(String, String)>, Vec<(String, String)>))
        ensures
            crate::collections::increasing(firsts(pair_views(found.0@))),
            crate::collections::increasing(firsts(pair_views(found.1@))),
            firsts(pair_views(found.0@)).to_set() == ambiguous_of(
                self.normal.by_lib_true_snakecased_name,
            ).union_prefer_right(ambiguous_of(self.development.by_lib_true_snakecased_name)).dom(),
            firsts(pair_views(found.1@)).to_set() == ambiguous_of(
                self.build.by_lib_true_snakecased_name,
            ).dom(),
            forall|i: int|
                0 <= i < found.0.len() ==> (#[trigger] found.0[i]).1@ == ambiguous_of(
                    self.normal.by_lib_true_snakecased_name,
                ).union_prefer_right(ambiguous_of(self.development.by_lib_true_snakecased_name))[found.0[i].0@],
            forall|i: int|
                0 <= i < found.1.len() ==> (#[trigger] found.1[i]).1@ == ambiguous_of(
                    self.build.by_lib_true_snakecased_name,
                )[found.1[i].0@],
    {
        let mut normal_dev: StrMap<String> = StrMap::new();
        assert(text_map(normal_dev@) =~= Map::<Seq<char>, Seq<char>>::empty());
        add_ambiguous(&self.normal.by_lib_true_snakecased_name, &mut normal_dev);
        add_ambiguous(&self.development.by_lib_true_snakecased_name, &mut normal_dev);
        let mut build: StrMap<String> = StrMap::new();
        assert(text_map(build@) =~= Map::<Seq<char>, Seq<char>>::empty());
        add_ambiguous(&self.build.by_lib_true_snakecased_name, &mut build);
        let ghost nd = ambiguous_of(self.normal.by_lib_true_snakecased_name).union_prefer_right(
            ambiguous_of(self.development.by_lib_true_snakecased_name),
        );
        let ghost b = ambiguous_of(self.build.by_lib_true_snakecased_name);
        assert(text_map(normal_dev@) =~= nd);
        assert(text_map(build@) =~= b);
        assert(normal_dev@.dom() =~= nd.dom());
        assert(build@.dom() =~= b.dom());
        let first = sorted_entries(&normal_dev);
        let second = sorted_entries(&build);
        assert forall|i: int| 0 <= i < first.len() implies (#[trigger] first[i]).1@
            == nd[first[i].0@] by {
            assert(text_map(normal_dev@)[first[i].0@] == normal_dev@[first[i].0@]@);
        }
        assert forall|i: int| 0 <= i < second.len() implies (#[trigger] second[i]).1@
            == b[second[i].0@] by {
            assert(text_map(build@)[second[i].0@] == build@[second[i].0@]@);
        }
        (first, second)
    }
}

} // verus!
