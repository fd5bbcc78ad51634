//! What a check finds: the declared dependencies that are left over once the used
//! the exempted ones are taken away.

use vstd::prelude::*;

use crate::collections::{lemma_push_to_set, lemma_take_one_more, IdMap, PairSet, StrSet};
use crate::evidence::{Evidence, EvidenceView};
use crate::names::DepKind;

verus! {

/// The manifest names that a package or a workspace exempts, by kind.
#[derive(Debug)]
pub struct PackageMetadataCargoUdepsIgnore {
    pub normal: StrSet,
    pub development: StrSet,
    pub build: StrSet,
}

impl PackageMetadataCargoUdepsIgnore {
    /// The names exempted for `kind`.
    pub open spec fn of(self, kind: DepKind) -> StrSet {
        match kind {
            DepKind::Normal => self.normal,
            DepKind::Development => self.development,
            DepKind::Build => self.build,
        }
    }

    /// A list that exempts nothing.
    pub fn new() -> (ignore: PackageMetadataCargoUdepsIgnore)
        ensures
            forall|kind: DepKind| ignore.of(kind)@ == Set::<Seq<char>>::empty(),
    {
        PackageMetadataCargoUdepsIgnore {
            normal: StrSet::new(),
            development: StrSet::new(),
            build: StrSet::new(),
        }
    }

    /// Whether the list exempts the dependency `name_in_toml` of kind `kind`.
    pub fn contains(&self, kind: DepKind, name_in_toml: &str) -> (found: bool)
        ensures
            found == self.of(kind)@.contains(name_in_toml@),
    {
        match kind {
            DepKind::Normal => self.normal.contains(name_in_toml),
            DepKind::Development => self.development.contains(name_in_toml),
            DepKind::Build => self.build.contains(name_in_toml),
        }
    }
}

/// Whether `ignore`, if there is such a list, exempts `name` for `kind`.
pub open spec fn exempts(
    ignore: Option<PackageMetadataCargoUdepsIgnore>,
    kind: DepKind,
    name: Seq<char>,
) -> bool {
    match ignore {
        Some(list) => list.of(kind)@.contains(name),
        None => false,
    }
}

/// A workspace member that the check was asked about.
#[derive(Debug)]
pub struct Member {
    /// The member as reports show it.
    pub package: String,
    /// Where the member's manifest is.
    pub manifest_path: String,
    /// What the member's own manifest exempts.
    pub ignore: Option<PackageMetadataCargoUdepsIgnore>,
}

/// The unused dependencies of one member, by kind.
#[derive(Debug)]
pub struct OutcomeUnusedDeps {
    /// The member as reports show it.
    pub package: String,
    pub manifest_path: String,
    pub normal: StrSet,
    pub development: StrSet,
    pub build: StrSet,
}

impl OutcomeUnusedDeps {
    /// The unused dependencies of kind `kind`.
    pub open spec fn of(self, kind: DepKind) -> StrSet {
        match kind {
            DepKind::Normal => self.normal,
            DepKind::Development => self.development,
            DepKind::Build => self.build,
        }
    }

    /// An entry for a member, with no dependency in it yet.
    pub fn new(package: String, manifest_path: String) -> (entry: OutcomeUnusedDeps)
        ensures
            entry.package == package,
            entry.manifest_path == manifest_path,
            forall|kind: DepKind| entry.of(kind)@ == Set::<Seq<char>>::empty(),
    {
        OutcomeUnusedDeps {
            package,
            manifest_path,
            normal: StrSet::new(),
            development: StrSet::new(),
            build: StrSet::new(),
        }
    }

    /// The unused dependencies of kind `kind`, to add to.
    pub fn unused_deps_mut(&mut self, kind: DepKind) -> (set: &mut StrSet)
        ensures
            *set == old(self).of(kind),
            final(self).of(kind) == *final(set),
            final(self).package == old(self).package,
            final(self).manifest_path == old(self).manifest_path,
            forall|other: DepKind| other != kind ==> final(self).of(other) == old(self).of(other),
    {
        match kind {
            DepKind::Normal => &mut self.normal,
            DepKind::Development => &mut self.development,
            DepKind::Build => &mut self.build,
        }
    }

    /// Whether the entry holds no dependency of any kind.
    pub fn is_empty(&self) -> (empty: bool)
        ensures
            empty == (forall|kind: DepKind| self.of(kind)@ == Set::<Seq<char>>::empty()),
    {
        let empty = self.normal.is_empty() && self.development.is_empty() && self.build.is_empty();
        proof {
            if empty {
                assert forall|kind: DepKind| self.of(kind)@ == Set::<Seq<char>>::empty() by {}
            } else {
                if !(self.normal@ == Set::<Seq<char>>::empty()) {
                    assert(self.of(DepKind::Normal)@ != Set::<Seq<char>>::empty());
                } else if !(self.development@ == Set::<Seq<char>>::empty()) {
                    assert(self.of(DepKind::Development)@ != Set::<Seq<char>>::empty());
                } else {
                    assert(self.of(DepKind::Build)@ != Set::<Seq<char>>::empty());
                }
            }
        }
        empty
    }
}

/// The dependencies of kind `kind` that the entries hold, each with its
/// member.
pub open spec fn unused_in(entries: Map<u64, OutcomeUnusedDeps>, kind: DepKind) -> Set<
    (u64, Seq<char>),
> {
    Set::new(
        |p: (u64, Seq<char>)| entries.contains_key(p.0) && entries[p.0].of(kind)@.contains(p.1),
    )
}

/// Every entry is that of a member of `members`, and shows it as `members`
/// does.
pub open spec fn labelled(entries: Map<u64, OutcomeUnusedDeps>, members: Map<u64, Member>) -> bool {
    forall|id: u64| #[trigger]
        entries.contains_key(id) ==> members.contains_key(id) && entries[id].package@
            == members[id].package@ && entries[id].manifest_path@
            == members[id].manifest_path@
}

/// What a check found.
#[derive(Debug)]
pub struct Outcome {
    /// Whether no dependency is left over.
    pub success: bool,
    /// The dependencies left over, by member.
    pub unused_deps: IdMap<OutcomeUnusedDeps>,
    /// Advice to print below the list.
    pub note: Option<String>,
}

impl Outcome {
    /// The unused dependencies of kind `kind`, each with its member.
    pub open spec fn unused(self, kind: DepKind) -> Set<(u64, Seq<char>)> {
        unused_in(self.unused_deps@, kind)
    }

    /// The status with which a run that found this outcome ends: 0 where
    /// nothing is left over, else 1.
    pub open spec fn exit_code_of(self) -> int {
        if self.success {
            0
        } else {
            1
        }
    }

    /// The status with which a run that found this outcome ends.
    pub fn exit_code(&self) -> (code: i32)
        ensures
            code == self.exit_code_of(),
    {
        if self.success {
            0
        } else {
            1
        }
    }
}

/// Whether the dependency `p` of kind `kind` is left over: it was declared,
/// its member was asked about, it was not used, and neither the member nor
/// the workspace exempts it.
pub open spec fn is_unused(
    evidence: EvidenceView,
    members: Map<u64, Member>,
    workspace_ignore: Option<PackageMetadataCargoUdepsIgnore>,
    kind: DepKind,
    p: (u64, Seq<char>),
) -> bool {
    &&& evidence.declared(kind).contains(p)
    &&& members.contains_key(p.0)
    &&& !evidence.used(kind).contains(p)
    &&& !exempts(members[p.0].ignore, kind, p.1)
    &&& !exempts(workspace_ignore, kind, p.1)
}

/// Whether the dependency `p` of kind `kind` would be left over but is
/// exempted.
pub open spec fn is_exempted(
    evidence: EvidenceView,
    members: Map<u64, Member>,
    workspace_ignore: Option<PackageMetadataCargoUdepsIgnore>,
    kind: DepKind,
    p: (u64, Seq<char>),
) -> bool {
    &&& evidence.declared(kind).contains(p)
    &&& members.contains_key(p.0)
    &&& !evidence.used(kind).contains(p)
    &&& (exempts(members[p.0].ignore, kind, p.1) || exempts(workspace_ignore, kind, p.1))
}

/// The dependencies of kind `kind` that are left over.
pub open spec fn unused_pairs(
    evidence: EvidenceView,
    members: Map<u64, Member>,
    workspace_ignore: Option<PackageMetadataCargoUdepsIgnore>,
    kind: DepKind,
) -> Set<(u64, Seq<char>)> {
    Set::new(|p: (u64, Seq<char>)| is_unused(evidence, members, workspace_ignore, kind, p))
}

/// Enters the dependency `dep` of kind `kind` as unused by member `id`.
fn record(
    entries: &mut IdMap<OutcomeUnusedDeps>,
    id: u64,
    member: &Member,
    kind: DepKind,
    dep: String,
    Ghost(members): Ghost<Map<u64, Member>>,
)
    requires
        labelled(old(entries)@, members),
        members.contains_key(id),
        members[id] == *member,
    ensures
        labelled(final(entries)@, members),
        unused_in(final(entries)@, kind) == unused_in(old(entries)@, kind).insert((id, dep@)),
        forall|other: DepKind|
            other != kind ==> unused_in(final(entries)@, other) == unused_in(
                old(entries)@,
                other,
            ),
{
    let ghost before = entries@;
    let mut entry = match entries.remove(id) {
        Some(e) => e,
        None => OutcomeUnusedDeps::new(member.package.clone(), member.manifest_path.clone()),
    };
    let ghost start = entry;
    assert(before.contains_key(id) ==> start == before[id]);
    assert(!before.contains_key(id) ==> forall|k: DepKind|
        start.of(k)@ == Set::<Seq<char>>::empty());
    let ghost name = dep@;
    let set = entry.unused_deps_mut(kind);
    set.insert(dep);
    entries.insert(id, entry);
    proof {
        assert(entries@ =~= before.insert(id, entry));
        assert(entry.of(kind)@ == start.of(kind)@.insert(name));
        assert(unused_in(entries@, kind) =~= unused_in(before, kind).insert((id, name)));
        assert forall|other: DepKind| other != kind implies unused_in(entries@, other)
            == unused_in(before, other) by {
            assert(entry.of(other) == start.of(other));
            assert(unused_in(entries@, other) =~= unused_in(before, other));
        }
    }
}

/// Whether the entries hold no dependency of any kind.
fn all_used(entries: &IdMap<OutcomeUnusedDeps>) -> (success: bool)
    ensures
        success == (forall|kind: DepKind|
            unused_in(entries@, kind) == Set::<(u64, Seq<char>)>::empty()),
{
    proof {
        use_type_invariant(entries);
        entries.lemma_ordered();
    }
    let ghost keys = entries.keys();
    let mut i: usize = 0;
    while i < entries.len()
        invariant
            entries.wf(),
            keys == entries.keys(),
            i <= keys.len(),
            forall|j: int, kind: DepKind|
                0 <= j < i ==> (#[trigger] entries@[keys[j]].of(kind))@ == Set::<
                    Seq<char>,
                >::empty(),
        decreases keys.len() - i,
    {
        proof {
            entries.lemma_ordered();
        }
        let entry = entries.value_at(i);
        assert(entries@.contains_key(keys[i as int]));
        assert(*entry == entries@[keys[i as int]]);
        if !entry.is_empty() {
            proof {
                let kind = choose|kind: DepKind| entry.of(kind)@ != Set::<Seq<char>>::empty();
                let set = entry.of(kind)@;
                assert(!(set =~= Set::<Seq<char>>::empty()));
                let n = choose|n: Seq<char>| set.contains(n);
                assert(unused_in(entries@, kind).contains((keys[i as int], n)));
            }
            return false;
        }
        i += 1;
    }
    proof {
        entries.lemma_ordered();
        assert forall|kind: DepKind| unused_in(entries@, kind) == Set::<
            (u64, Seq<char>),
        >::empty() by {
            assert forall|p: (u64, Seq<char>)| !unused_in(entries@, kind).contains(p) by {
                if entries@.contains_key(p.0) {
                    assert(keys.to_set().contains(p.0));
                    let j = choose|j: int| 0 <= j < keys.len() && keys[j] == p.0;
                    assert(entries@[keys[j]].of(kind)@ == Set::<Seq<char>>::empty());
                }
            }
            assert(unused_in(entries@, kind) =~= Set::<(u64, Seq<char>)>::empty());
        }
    }
    true
}

/// The exempted dependencies as plain values: kind, member and name.
pub open spec fn ignored_views(ignored: Seq<(DepKind, u64, String)>) -> Seq<
    (DepKind, u64, Seq<char>),
> {
    ignored.map_values(|t: (DepKind, u64, String)| (t.0, t.1, t.2@))
}

/// The dependencies of kind `kind` that an ignore list saved from the report,
/// each with its kind and member.
pub open spec fn exempted_of_kind(
    evidence: EvidenceView,
    members: Map<u64, Member>,
    workspace_ignore: Option<PackageMetadataCargoUdepsIgnore>,
    kind: DepKind,
) -> Set<(DepKind, u64, Seq<char>)> {
    Set::new(
        |t: (DepKind, u64, Seq<char>)|
            t.0 == kind && is_exempted(evidence, members, workspace_ignore, kind, (t.1, t.2)),
    )
}

/// The exempted dependencies among the first `n` of `pairs`, in order, each
/// with its kind.
pub open spec fn exempted_upto(
    pairs: Seq<(u64, Seq<char>)>,
    n: int,
    evidence: EvidenceView,
    members: Map<u64, Member>,
    workspace_ignore: Option<PackageMetadataCargoUdepsIgnore>,
    kind: DepKind,
) -> Seq<(DepKind, u64, Seq<char>)>
    decreases n,
{
    if n <= 0 {
        Seq::empty()
    } else {
        let rest = exempted_upto(pairs, n - 1, evidence, members, workspace_ignore, kind);
        if is_exempted(evidence, members, workspace_ignore, kind, pairs[n - 1]) {
            rest.push((kind, pairs[n - 1].0, pairs[n - 1].1))
        } else {
            rest
        }
    }
}

/// The exempted dependencies of kind `kind`, in the order in which `declared`
/// keeps the dependencies.
pub open spec fn exempted_in_order(
    declared: PairSet,
    evidence: EvidenceView,
    members: Map<u64, Member>,
    workspace_ignore: Option<PackageMetadataCargoUdepsIgnore>,
    kind: DepKind,
) -> Seq<(DepKind, u64, Seq<char>)> {
    exempted_upto(
        declared.pairs(),
        declared.pairs().len() as int,
        evidence,
        members,
        workspace_ignore,
        kind,
    )
}

/// Goes through the declared dependencies of one kind: enters those left over
/// in `entries`, and notes those that an ignore list exempts in `ignored`.
fn sift(
    declared: &PairSet,
    used: &PairSet,
    kind: DepKind,
    members: &IdMap<Member>,
    workspace_ignore: &Option<PackageMetadataCargoUdepsIgnore>,
    entries: &mut IdMap<OutcomeUnusedDeps>,
    ignored: &mut Vec<(DepKind, u64, String)>,
    Ghost(evidence): Ghost<EvidenceView>,
)
    requires
        declared@ == evidence.declared(kind),
        used@ == evidence.used(kind),
        labelled(old(entries)@, members@),
    ensures
        labelled(final(entries)@, members@),
        unused_in(final(entries)@, kind) == unused_in(old(entries)@, kind) + unused_pairs(
            evidence,
            members@,
            *workspace_ignore,
            kind,
        ),
        forall|other: DepKind|
            other != kind ==> unused_in(final(entries)@, other) == unused_in(
                old(entries)@,
                other,
            ),
        ignored_views(final(ignored)@).to_set() == ignored_views(old(ignored)@).to_set()
            + exempted_of_kind(evidence, members@, *workspace_ignore, kind),
        ignored_views(final(ignored)@) == ignored_views(old(ignored)@) + exempted_in_order(
            *declared,
            evidence,
            members@,
            *workspace_ignore,
            kind,
        ),
{
    let ghost pairs = declared.pairs();
    let ghost ws = *workspace_ignore;
    let ghost before = entries@;
    let ghost noted = ignored_views(ignored@).to_set();
    let ghost listed = ignored_views(ignored@);
    let mut i: usize = 0;
    assert(ignored_views(ignored@) =~= listed + exempted_upto(
        pairs,
        0,
        evidence,
        members@,
        ws,
        kind,
    ));
    assert(unused_in(entries@, kind) =~= unused_in(before, kind) + Set::new(
        |p: (u64, Seq<char>)|
            pairs.take(0).contains(p) && is_unused(evidence, members@, ws, kind, p),
    ));
    assert(ignored_views(ignored@).to_set() =~= noted + Set::new(
        |t: (DepKind, u64, Seq<char>)|
            t.0 == kind && pairs.take(0).contains((t.1, t.2)) && is_exempted(
                evidence,
                members@,
                ws,
                kind,
                (t.1, t.2),
            ),
    ));
    while i < declared.len()
        invariant
            pairs == declared.pairs(),
            ws == *workspace_ignore,
            declared@ == evidence.declared(kind),
            used@ == evidence.used(kind),
            i <= pairs.len(),
            labelled(entries@, members@),
            unused_in(entries@, kind) == unused_in(before, kind) + Set::new(
                |p: (u64, Seq<char>)|
                    pairs.take(i as int).contains(p) && is_unused(
                        evidence,
                        members@,
                        ws,
                        kind,
                        p,
                    ),
            ),
            forall|other: DepKind|
                other != kind ==> unused_in(entries@, other) == unused_in(before, other),
            ignored_views(ignored@).to_set() == noted + Set::new(
                |t: (DepKind, u64, Seq<char>)|
                    t.0 == kind && pairs.take(i as int).contains((t.1, t.2)) && is_exempted(
                        evidence,
                        members@,
                        ws,
                        kind,
                        (t.1, t.2),
                    ),
            ),
            ignored_views(ignored@) == listed + exempted_upto(
                pairs,
                i as int,
                evidence,
                members@,
                ws,
                kind,
            ),
        decreases pairs.len() - i,
    {
        let id = declared.id_at(i);
        let dep = declared.name_at(i);
        let ghost p = (id, dep@);
        assert(pairs[i as int] == p);
        assert(declared@.contains(p));
        proof {
            lemma_take_one_more(pairs, i as int);
        }
        let ghost entries_before = entries@;
        let ghost ignored_before = ignored_views(ignored@);
        match members.get(id) {
            None => {},
            Some(member) => {
                if !used.contains(id, dep.as_str()) {
                    let by_member = match &member.ignore {
                        Some(list) => list.contains(kind, dep.as_str()),
                        None => false,
                    };
                    let by_workspace = match workspace_ignore {
                        Some(list) => list.contains(kind, dep.as_str()),
                        None => false,
                    };
                    if by_member || by_workspace {
                        ignored.push((kind, id, dep.clone()));
                        assert(ignored_views(ignored@) =~= ignored_before.push((kind, id, dep@)));
                        proof {
                            lemma_push_to_set(ignored_before, (kind, id, dep@));
                        }
                    } else {
                        record(entries, id, member, kind, dep.clone(), Ghost(members@));
                    }
                }
            },
        }
        assert(unused_in(entries@, kind) =~= unused_in(before, kind) + Set::new(
            |p: (u64, Seq<char>)|
                pairs.take(i + 1).contains(p) && is_unused(evidence, members@, ws, kind, p),
        ));
        assert(ignored_views(ignored@).to_set() =~= noted + Set::new(
            |t: (DepKind, u64, Seq<char>)|
                t.0 == kind && pairs.take(i + 1).contains((t.1, t.2)) && is_exempted(
                    evidence,
                    members@,
                    ws,
                    kind,
                    (t.1, t.2),
                ),
        ));
        assert(ignored_views(ignored@) =~= listed + exempted_upto(
            pairs,
            i + 1,
            evidence,
            members@,
            ws,
            kind,
        ));
        i += 1;
    }
    proof {
        assert(pairs.take(pairs.len() as int) =~= pairs);
        assert forall|p: (u64, Seq<char>)| pairs.contains(p) == declared@.contains(p) by {}
        assert(unused_in(entries@, kind) =~= unused_in(before, kind) + unused_pairs(
            evidence,
            members@,
            ws,
            kind,
        ));
        assert(ignored_views(ignored@).to_set() =~= noted + exempted_of_kind(
            evidence,
            members@,
            ws,
            kind,
        ));
    }
}

impl Outcome {
    /// Finds the dependencies left over: for each kind, those declared by a
    /// member of `members` that were not used and that neither the member's
    /// ignore list nor the workspace's exempts. Also gives, with kind and
    /// member, those that an ignore list saved from the report. The outcome
    /// has no note yet.
    pub fn aggregate(
        evidence: &Evidence,
        members: &IdMap<Member>,
        workspace_ignore: &Option<PackageMetadataCargoUdepsIgnore>,
    ) -> (result: (Outcome, Vec<(DepKind, u64, String)>))
        ensures
            forall|kind: DepKind|
                result.0.unused(kind) == unused_pairs(
                    evidence@,
                    members@,
                    *workspace_ignore,
                    kind,
                ),
            labelled(result.0.unused_deps@, members@),
            result.0.success == (forall|kind: DepKind|
                unused_pairs(evidence@, members@, *workspace_ignore, kind) == Set::<
                    (u64, Seq<char>),
                >::empty()),
            result.0.note is None,
            ignored_views(result.1@).to_set() == Set::new(
                |t: (DepKind, u64, Seq<char>)|
                    is_exempted(evidence@, members@, *workspace_ignore, t.0, (t.1, t.2)),
            ),
            ignored_views(result.1@) == exempted_in_order(
                evidence.normal_dependencies,
                evidence@,
                members@,
                *workspace_ignore,
                DepKind::Normal,
            ) + exempted_in_order(
                evidence.dev_dependencies,
                evidence@,
                members@,
                *workspace_ignore,
                DepKind::Development,
            ) + exempted_in_order(
                evidence.build_dependencies,
                evidence@,
                members@,
                *workspace_ignore,
                DepKind::Build,
            ),
    {
        let ghost e = evidence@;
        let ghost ws = *workspace_ignore;
        let mut entries: IdMap<OutcomeUnusedDeps> = IdMap::new();
        let mut ignored: Vec<(DepKind, u64, String)> = Vec::new();
        assert(ignored_views(ignored@).to_set() =~= Set::<(DepKind, u64, Seq<char>)>::empty());
        assert(ignored_views(ignored@) =~= Seq::<(DepKind, u64, Seq<char>)>::empty());
        assert forall|kind: DepKind| unused_in(entries@, kind) == Set::<
            (u64, Seq<char>),
        >::empty() by {
            assert(unused_in(entries@, kind) =~= Set::<(u64, Seq<char>)>::empty());
        }
        sift(
            &evidence.normal_dependencies,
            &evidence.used_normal_dev_dependencies,
            DepKind::Normal,
            members,
            workspace_ignore,
            &mut entries,
            &mut ignored,
            Ghost(e),
        );
        sift(
            &evidence.dev_dependencies,
            &evidence.used_normal_dev_dependencies,
            DepKind::Development,
            members,
            workspace_ignore,
            &mut entries,
            &mut ignored,
            Ghost(e),
        );
        sift(
            &evidence.build_dependencies,
            &evidence.used_build_dependencies,
            DepKind::Build,
            members,
            workspace_ignore,
            &mut entries,
            &mut ignored,
            Ghost(e),
        );
        proof {
            assert forall|kind: DepKind| unused_in(entries@, kind) == unused_pairs(
                e,
                members@,
                ws,
                kind,
            ) by {
                assert(unused_in(entries@, kind) =~= unused_pairs(e, members@, ws, kind));
            }
            assert(ignored_views(ignored@).to_set() =~= Set::new(
                |t: (DepKind, u64, Seq<char>)| is_exempted(e, members@, ws, t.0, (t.1, t.2)),
            ));
        }
        let success = all_used(&entries);
        (Outcome { success, unused_deps: entries, note: None }, ignored)
    }
}

} // verus!
