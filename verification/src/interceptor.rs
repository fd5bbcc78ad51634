//! What is kept of the compiler runs that the build makes, and what is decided
//! for each of them.

use vstd::prelude::*;
use vstd::string::StringExecFns;

use crate::cmdline::CmdInfo;
use crate::evidence::unit_views;
use crate::style::{bool_str, bool_text, label, label_text, Tint};

verus! {

/// The settings handed to the compiler for the units of workspace members, to
/// keep the analysis record small.
pub open spec fn analysis_settings() -> Seq<char> {
    "{ \"reachable_only\": false, \"full_docs\": false, \"pub_only\": false, \"distro_crate\": false, \"signatures\": false, \"borrow_data\": false }"@
}

/// The warning that a unit's lints are capped although it comes from a path,
/// or are not although it does not.
pub open spec fn mismatch_text(
    supports_color: bool,
    cap_lints_allow: bool,
    is_path: bool,
    id: Seq<char>,
) -> Seq<char> {
    label_text(supports_color, Tint::Yellow, "warning:"@) + " (!cap_lints_allow)="@ + bool_text(
        !cap_lints_allow,
    ) + " differs from is_path="@ + bool_text(is_path) + " for id="@ + id
}

/// Writes the warning about a unit whose lint cap and source disagree.
pub fn mismatch_warning(supports_color: bool, cap_lints_allow: bool, is_path: bool, id: &str) -> (text:
    String)
    ensures
        text@ == mismatch_text(supports_color, cap_lints_allow, is_path, id@),
{
    let mut text = label(supports_color, Tint::Yellow, "warning:");
    text.append(" (!cap_lints_allow)=");
    text.append(bool_str(!cap_lints_allow));
    text.append(" differs from is_path=");
    text.append(bool_str(is_path));
    text.append(" for id=");
    text.append(id);
    text
}

/// What is kept while the build runs.
#[derive(Debug)]
pub struct ExecData {
    /// Whether the error stream takes colours.
    pub supports_color: bool,
    /// The numbers of the packages that are workspace members.
    pub workspace_members: Vec<u64>,
    /// The units of workspace members, in the order in which they came.
    pub relevant_cmd_infos: Vec<CmdInfo>,
    /// All units, in the order in which they came.
    pub all_cmd_infos: Vec<CmdInfo>,
}

/// What to do about a unit before it is compiled.
#[derive(Debug)]
pub struct UnitDecision {
    /// Whether the unit belongs to a workspace member.
    pub is_workspace_member: bool,
    /// A warning to show, if there is one.
    pub warning: Option<String>,
    /// Settings for the analysis record, for a unit of a workspace member.
    pub analysis_settings: Option<String>,
}

impl ExecData {
    /// The state before any unit came.
    pub fn new(supports_color: bool, workspace_members: Vec<u64>) -> (data: ExecData)
        ensures
            data.supports_color == supports_color,
            data.workspace_members == workspace_members,
            data.relevant_cmd_infos@.len() == 0,
            data.all_cmd_infos@.len() == 0,
    {
        ExecData {
            supports_color,
            workspace_members,
            relevant_cmd_infos: Vec::new(),
            all_cmd_infos: Vec::new(),
        }
    }

    /// Whether the package `id` is a workspace member.
    pub fn is_member(&self, id: u64) -> (member: bool)
        ensures
            member == self.workspace_members@.contains(id),
    {
        let mut i: usize = 0;
        while i < self.workspace_members.len()
            invariant
                i <= self.workspace_members.len(),
                forall|j: int| 0 <= j < i ==> self.workspace_members[j] != id,
            decreases self.workspace_members.len() - i,
        {
            if self.workspace_members[i] == id {
                return true;
            }
            i += 1;
        }
        false
    }

    /// Whether a unit of the package `id` must be compiled again although a
    /// result of an earlier run is at hand: it must for workspace members,
    /// whose use of dependencies has to be seen in every run.
    pub fn force_rebuild(&self, id: u64) -> (rebuild: bool)
        ensures
            rebuild == self.workspace_members@.contains(id),
    {
        self.is_member(id)
    }

    /// Takes note of a unit before it is compiled, where `is_path` says
    /// whether its package comes from a path and `id` is the package as it is
    /// shown. Every unit is kept; a unit of a workspace member is also kept as
    /// one to draw evidence from, and gets settings for the analysis record.
    /// A warning is due where the unit's lints are capped and it comes from a
    /// path, or neither.
    pub fn record_unit(&mut self, cmd_info: CmdInfo, is_path: bool, id: &str) -> (decision: UnitDecision)
        requires
            old(self).workspace_members@.contains(cmd_info.pkg) ==> is_path,
        ensures
            final(self).supports_color == old(self).supports_color,
            final(self).workspace_members == old(self).workspace_members,
            unit_views(final(self).all_cmd_infos@) == unit_views(old(self).all_cmd_infos@).push(
                cmd_info@,
            ),
            unit_views(final(self).relevant_cmd_infos@) == (if decision.is_workspace_member {
                unit_views(old(self).relevant_cmd_infos@).push(cmd_info@)
            } else {
                unit_views(old(self).relevant_cmd_infos@)
            }),
            decision.is_workspace_member == old(self).workspace_members@.contains(cmd_info.pkg),
            match decision.warning {
                Some(text) => (!cmd_info.cap_lints_allow) != is_path && text@ == mismatch_text(
                    old(self).supports_color,
                    cmd_info.cap_lints_allow,
                    is_path,
                    id@,
                ),
                None => (!cmd_info.cap_lints_allow) == is_path,
            },
            match decision.analysis_settings {
                Some(text) => decision.is_workspace_member && text@ == analysis_settings(),
                None => !decision.is_workspace_member,
            },
    {
        let is_workspace_member = self.is_member(cmd_info.pkg);
        let cap_lints_allow = cmd_info.cap_lints_allow;
        let ghost all_before = unit_views(self.all_cmd_infos@);
        let ghost relevant_before = unit_views(self.relevant_cmd_infos@);
        if is_workspace_member {
            self.relevant_cmd_infos.push(cmd_info.clone());
            assert(unit_views(self.relevant_cmd_infos@) =~= relevant_before.push(cmd_info@));
        }
        self.all_cmd_infos.push(cmd_info);
        assert(unit_views(self.all_cmd_infos@) =~= all_before.push(cmd_info@));
        let warning = if (!cap_lints_allow) != is_path {
            Some(mismatch_warning(self.supports_color, cap_lints_allow, is_path, id))
        } else {
            None
        };
        let analysis_settings = if is_workspace_member {
            Some(
                String::from_str(
                    "{ \"reachable_only\": false, \"full_docs\": false, \"pub_only\": false, \"distro_crate\": false, \"signatures\": false, \"borrow_data\": false }",
                ),
            )
        } else {
            None
        };
        UnitDecision { is_workspace_member, warning, analysis_settings }
    }
}

} // verus!
