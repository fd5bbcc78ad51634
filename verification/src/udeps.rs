//! The whole check, once the build has run: from the units that were seen and
//! their dependency listings to the outcome.

use vstd::prelude::*;

use crate::collections::IdMap;
use crate::depinfo::DepInfo;
use crate::evidence::{
    all_mapped, all_read_stems, first_evidence, first_unmapped_is, lib_stem_table, member_names,
    observed_all, stem_table, unit_views, Evidence, EvidenceView, UnmappedExtern,
};
use crate::interceptor::ExecData;
use crate::names::{DepKind, DependencyNames};
use crate::outcome::{
    ignored_views, is_exempted, labelled, unused_pairs, Member, Outcome,
    PackageMetadataCargoUdepsIgnore,
};
use crate::report::{any_has_non_lib, any_non_lib, note_text, TargetSelection};

verus! {

/// The evidence that a build leaves: that of the units of workspace members,
/// each with the names, without extension, of the files that its dependency
/// listing says it read, where every unit of the build tells which package
/// built which file.
pub open spec fn evidence_of(
    data: ExecData,
    depinfos: Seq<DepInfo>,
    dependency_names: Map<u64, DependencyNames>,
) -> EvidenceView {
    observed_all(
        first_evidence(member_names(dependency_names)),
        unit_views(data.relevant_cmd_infos@),
        all_read_stems(depinfos),
        member_names(dependency_names),
        stem_table(unit_views(data.all_cmd_infos@)),
    )
}

/// Whether `found` is what is left over of `evidence`: for each kind the
/// dependencies that were declared and not used, less what `members` and the
/// workspace exempt; a success just where nothing is left over; with the
/// exempted dependencies in `ignored`.
pub open spec fn is_outcome_of(
    found: Outcome,
    ignored: Seq<(DepKind, u64, String)>,
    evidence: EvidenceView,
    members: Map<u64, Member>,
    workspace_ignore: Option<PackageMetadataCargoUdepsIgnore>,
) -> bool {
    &&& forall|kind: DepKind|
        found.unused(kind) == unused_pairs(evidence, members, workspace_ignore, kind)
    &&& found.success == (forall|kind: DepKind|
        unused_pairs(evidence, members, workspace_ignore, kind) == Set::<
            (u64, Seq<char>),
        >::empty())
    &&& ignored_views(ignored).to_set() == Set::new(
        |t: (DepKind, u64, Seq<char>)|
            is_exempted(evidence, members, workspace_ignore, t.0, (t.1, t.2)),
    )
}

/// Draws the outcome from what the build left: the evidence of the units of
/// workspace members, where `depinfos[i]` is the dependency listing of the
/// `i`th of them; less what was used and what `members` and the workspace
/// exempt; with the advice to print where something is left over. Also gives
/// the dependencies that an ignore list saved from the report.
///
/// A name on a unit's command line that stands for no dependency of the
/// unit's member is an error, and the first such name is told.
pub fn conclude(
    data: &ExecData,
    depinfos: &Vec<DepInfo>,
    dependency_names: &IdMap<DependencyNames>,
    members: &IdMap<Member>,
    workspace_ignore: &Option<PackageMetadataCargoUdepsIgnore>,
    selection: &TargetSelection,
) -> (result: Result<(Outcome, Vec<(DepKind, u64, String)>), UnmappedExtern>)
    requires
        depinfos.len() == data.relevant_cmd_infos.len(),
    ensures
        match result {
            Ok(found) => {
                &&& all_mapped(
                    unit_views(data.relevant_cmd_infos@),
                    member_names(dependency_names@),
                    data.relevant_cmd_infos.len() as int,
                )
                &&& is_outcome_of(
                    found.0,
                    found.1@,
                    evidence_of(*data, depinfos@, dependency_names@),
                    members@,
                    *workspace_ignore,
                )
                &&& labelled(found.0.unused_deps@, members@)
                &&& found.0.success ==> found.0.note is None
                &&& !found.0.success ==> found.0.note is Some && found.0.note->0@ == note_text(
                    *selection,
                    any_has_non_lib(member_names(dependency_names@)),
                )
            },
            Err(e) => first_unmapped_is(
                unit_views(data.relevant_cmd_infos@),
                member_names(dependency_names@),
                e.member,
                e.name@,
            ),
        },
{
    let table = lib_stem_table(&data.all_cmd_infos);
    let evidence = match Evidence::gather(
        &data.relevant_cmd_infos,
        depinfos,
        dependency_names,
        &table,
    ) {
        Ok(evidence) => evidence,
        Err(e) => {
            return Err(e);
        },
    };
    let (mut outcome, ignored) = Outcome::aggregate(&evidence, members, workspace_ignore);
    let non_lib = any_non_lib(dependency_names);
    let ghost found = outcome;
    outcome.annotate(selection, non_lib);
    proof {
        let seen = evidence_of(*data, depinfos@, dependency_names@);
        assert(seen == evidence@);
        assert forall|kind: DepKind| outcome.unused(kind) == unused_pairs(
            seen,
            members@,
            *workspace_ignore,
            kind,
        ) by {
            assert(outcome.unused(kind) == found.unused(kind));
        }
        assert(is_outcome_of(outcome, ignored@, seen, members@, *workspace_ignore));
    }
    Ok((outcome, ignored))
}

} // verus!
