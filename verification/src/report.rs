//! The report for a person to read: the tree of unused dependencies, and the
//! advice printed below it.

use vstd::prelude::*;
use vstd::string::StringExecFns;

use crate::collections::{views, IdMap, StrSet};
use crate::names::{DepKind, DependencyNames, DependencyNamesView};
use crate::outcome::{Outcome, OutcomeUnusedDeps};

verus! {

/// The text that `{:?}` writes for a string: the string in double quotes, with
/// escapes as the standard library chooses them.
pub uninterp spec fn debug_quoted(text: Seq<char>) -> Seq<char>;

/// Formats a string with `{:?}`, that is by `<str as std::fmt::Debug>::fmt`.
/// The result is only given a name.
#[verifier::external_body]
pub(crate) fn debug_quote(text: &str) -> (quoted: String)
    ensures
        quoted@ == debug_quoted(text@),
{
    format!("{:?}", text)
}

/// Each of `names`, quoted.
pub open spec fn quoted_all(names: Seq<Seq<char>>) -> Seq<Seq<char>> {
    names.map_values(|n: Seq<char>| debug_quoted(n))
}

/// Quotes the names of a set, in order.
pub fn quote_all(names: &StrSet) -> (quoted: Vec<String>)
    ensures
        views(quoted@) == quoted_all(names.ordered()),
{
    let ghost all = names.ordered();
    let mut quoted: Vec<String> = Vec::new();
    let mut i: usize = 0;
    while i < names.len()
        invariant
            all == names.ordered(),
            i <= all.len(),
            views(quoted@) == quoted_all(all.take(i as int)),
        decreases all.len() - i,
    {
        let ghost earlier = views(quoted@);
        let q = debug_quote(names.get(i).as_str());
        quoted.push(q);
        assert(views(quoted@) =~= earlier.push(debug_quoted(all[i as int])));
        assert(all.take(i + 1) =~= all.take(i as int).push(all[i as int]));
        assert(quoted_all(all.take(i + 1)) =~= quoted_all(all.take(i as int)).push(
            debug_quoted(all[i as int]),
        ));
        i += 1;
    }
    assert(all.take(all.len() as int) =~= all);
    quoted
}

/// The line of one leaf: the edge of the branch above, four spaces, a joint
/// that closes the branch at the last leaf, a dash, and the leaf.
pub open spec fn leaf_line(edge: Seq<char>, leaf: Seq<char>, last: bool) -> Seq<char> {
    edge + "    "@ + (if last {
        "\u{2514}"@
    } else {
        "\u{251c}"@
    }) + "\u{2500}\u{2500}\u{2500} "@ + leaf + "\n"@
}

/// The lines of the first `n` leaves.
pub open spec fn leaf_lines(edge: Seq<char>, leaves: Seq<Seq<char>>, n: int) -> Seq<char>
    decreases n,
{
    if n <= 0 {
        Seq::empty()
    } else {
        leaf_lines(edge, leaves, n - 1) + leaf_line(edge, leaves[n - 1], n == leaves.len())
    }
}

/// A branch of the tree: nothing where there are no leaves; else a heading
/// `<joint>─── <prefix>dependencies` and a line for each leaf.
pub open spec fn branch(
    joint: Seq<char>,
    edge: Seq<char>,
    prefix: Seq<char>,
    leaves: Seq<Seq<char>>,
) -> Seq<char> {
    if leaves.len() == 0 {
        Seq::empty()
    } else {
        joint + "\u{2500}\u{2500}\u{2500} "@ + prefix + "dependencies\n"@ + leaf_lines(
            edge,
            leaves,
            leaves.len() as int,
        )
    }
}

/// Writes one branch of the tree.
pub fn render_branch(joint: &str, edge: &str, prefix: &str, leaves: &Vec<String>) -> (text: String)
    ensures
        text@ == branch(joint@, edge@, prefix@, views(leaves@)),
{
    let mut text = String::new();
    if leaves.len() == 0 {
        return text;
    }
    let ghost all = views(leaves@);
    text.append(joint);
    text.append("\u{2500}\u{2500}\u{2500} ");
    text.append(prefix);
    text.append("dependencies\n");
    let ghost heading = text@;
    assert(heading =~= joint@ + "\u{2500}\u{2500}\u{2500} "@ + prefix@ + "dependencies\n"@);
    let mut i: usize = 0;
    assert(text@ =~= heading + leaf_lines(edge@, all, 0));
    while i < leaves.len()
        invariant
            all == views(leaves@),
            i <= leaves.len(),
            text@ == heading + leaf_lines(edge@, all, i as int),
        decreases leaves.len() - i,
    {
        let ghost before = text@;
        let last = i + 1 == leaves.len();
        text.append(edge);
        text.append("    ");
        if last {
            text.append("\u{2514}");
        } else {
            text.append("\u{251c}");
        }
        text.append("\u{2500}\u{2500}\u{2500} ");
        text.append(leaves[i].as_str());
        text.append("\n");
        assert(text@ =~= before + leaf_line(edge@, all[i as int], last));
        assert(text@ =~= heading + leaf_lines(edge@, all, i + 1));
        i += 1;
    }
    text
}

/// The joint and the edge of a branch: those that close the tree where no
/// branch follows, else those that let it go on.
pub open spec fn joint_of(closing: bool) -> Seq<char> {
    if closing {
        "\u{2514}"@
    } else {
        "\u{251c}"@
    }
}

/// The edge below a joint: blank below a closing one, else a bar.
pub open spec fn edge_of(closing: bool) -> Seq<char> {
    if closing {
        " "@
    } else {
        "\u{2502}"@
    }
}

/// The part of the report about one member: its name between backquotes, then
/// a branch for each kind that has leaves. A branch closes the tree where no
/// branch of a later kind has leaves.
pub open spec fn member_block(
    label: Seq<char>,
    normal: Seq<Seq<char>>,
    development: Seq<Seq<char>>,
    build: Seq<Seq<char>>,
) -> Seq<char> {
    "`"@ + label + "`\n"@ + branch(
        joint_of(development.len() == 0 && build.len() == 0),
        edge_of(development.len() == 0 && build.len() == 0),
        Seq::empty(),
        normal,
    ) + branch(joint_of(build.len() == 0), edge_of(build.len() == 0), "dev-"@, development)
        + branch(joint_of(true), edge_of(true), "build-"@, build)
}

/// Writes the part of the report about one member, where the leaves are
/// already written as they are to be shown.
pub fn render_member(
    label: &str,
    normal: &Vec<String>,
    development: &Vec<String>,
    build: &Vec<String>,
) -> (text: String)
    ensures
        text@ == member_block(label@, views(normal@), views(development@), views(build@)),
{
    let mut text = String::from_str("`");
    text.append(label);
    text.append("`\n");
    let closing = development.len() == 0 && build.len() == 0;
    let first = if closing {
        render_branch("\u{2514}", " ", "", normal)
    } else {
        render_branch("\u{251c}", "\u{2502}", "", normal)
    };
    proof {
        reveal_strlit("");
        assert(""@ =~= Seq::<char>::empty());
    }
    text.append(first.as_str());
    let second = if build.len() == 0 {
        render_branch("\u{2514}", " ", "dev-", development)
    } else {
        render_branch("\u{251c}", "\u{2502}", "dev-", development)
    };
    text.append(second.as_str());
    let third = render_branch("\u{2514}", " ", "build-", build);
    text.append(third.as_str());
    text
}

/// The part of the report about one entry.
pub open spec fn entry_block(entry: OutcomeUnusedDeps) -> Seq<char> {
    member_block(
        entry.package@,
        quoted_all(entry.normal.ordered()),
        quoted_all(entry.development.ordered()),
        quoted_all(entry.build.ordered()),
    )
}

/// The parts of the report about the first `n` entries.
pub open spec fn entry_blocks(entries: Seq<OutcomeUnusedDeps>, n: int) -> Seq<char>
    decreases n,
{
    if n <= 0 {
        Seq::empty()
    } else {
        entry_blocks(entries, n - 1) + entry_block(entries[n - 1])
    }
}

/// The report of an outcome for a person to read: one line where nothing is
/// left over; else a heading, the members in increasing order of their
/// numbers, each with its tree, and the note if there is one.
pub open spec fn human_text(outcome: Outcome) -> Seq<char> {
    if outcome.success {
        "All deps seem to have been used.\n"@
    } else {
        "unused dependencies:\n"@ + entry_blocks(
            outcome.unused_deps.values(),
            outcome.unused_deps.values().len() as int,
        ) + (match outcome.note {
            Some(note) => note@,
            None => Seq::empty(),
        })
    }
}

impl Outcome {
    /// Writes the report for a person to read.
    pub fn print_human(&self) -> (text: String)
        ensures
            text@ == human_text(*self),
    {
        if self.success {
            return String::from_str("All deps seem to have been used.\n");
        }
        let mut text = String::from_str("unused dependencies:\n");
        let ghost heading = text@;
        let ghost entries = self.unused_deps.values();
        let mut i: usize = 0;
        assert(text@ =~= heading + entry_blocks(entries, 0));
        while i < self.unused_deps.len()
            invariant
                entries == self.unused_deps.values(),
                i <= entries.len(),
                text@ == heading + entry_blocks(entries, i as int),
            decreases entries.len() - i,
        {
            let entry = self.unused_deps.value_at(i);
            let normal = quote_all(&entry.normal);
            let development = quote_all(&entry.development);
            let build = quote_all(&entry.build);
            let block = render_member(entry.package.as_str(), &normal, &development, &build);
            let ghost before = text@;
            text.append(block.as_str());
            assert(text@ =~= heading + entry_blocks(entries, i + 1));
            i += 1;
        }
        match &self.note {
            Some(note) => {
                text.append(note.as_str());
            },
            None => {
                assert(text@ =~= text@ + Seq::<char>::empty());
            },
        }
        text
    }
}

/// Which targets of the members were asked to be checked.
#[derive(Debug)]
pub struct TargetSelection {
    pub all_targets: bool,
    pub lib: bool,
    pub bins: bool,
    pub examples: bool,
    pub tests: bool,
    pub benches: bool,
    pub bin: Vec<String>,
    pub example: Vec<String>,
    pub test: Vec<String>,
    pub bench: Vec<String>,
}

impl TargetSelection {
    /// Whether no target and no kind of target was named.
    pub open spec fn names_nothing(self) -> bool {
        !self.lib && !self.bins && !self.examples && !self.tests && !self.benches
            && self.bin@.len() == 0 && self.example@.len() == 0 && self.test@.len() == 0
            && self.bench@.len() == 0
    }
}

/// The advice below a list of unused dependencies. Unless all targets were
/// checked, it warns that other targets may use them, and says how to check
/// all where none was named; it says so where some dependency has no library;
/// it always warns of false positives.
pub open spec fn note_text(selection: TargetSelection, any_non_lib: bool) -> Seq<char> {
    (if selection.all_targets {
        Seq::empty()
    } else {
        "Note: These dependencies might be used by other targets.\n"@ + (
        if selection.names_nothing() {
            "      To find dependencies that are not used by any target, enable `--all-targets`.\n"@
        } else {
            Seq::empty()
        })
    }) + (if any_non_lib {
        "Note: Some dependencies are non-library packages.\n"@
            + "      `cargo-udeps` regards them as unused.\n"@
    } else {
        Seq::empty()
    }) + "Note: They might be false-positive.\n"@
        + "      For example, `cargo-udeps` cannot detect usage of crates that are only used in doc-tests.\n"@
        + "      To ignore some dependencies, write `package.metadata.cargo-udeps.ignore` in Cargo.toml.\n"@
}

/// Writes the advice below a list of unused dependencies.
pub fn build_note(selection: &TargetSelection, any_non_lib: bool) -> (note: String)
    ensures
        note@ == note_text(*selection, any_non_lib),
{
    let mut note = String::new();
    if !selection.all_targets {
        note.append("Note: These dependencies might be used by other targets.\n");
        if !selection.lib && !selection.bins && !selection.examples && !selection.tests
            && !selection.benches && selection.bin.len() == 0 && selection.example.len() == 0
            && selection.test.len() == 0 && selection.bench.len() == 0 {
            note.append(
                "      To find dependencies that are not used by any target, enable `--all-targets`.\n",
            );
        }
    }
    if any_non_lib {
        note.append("Note: Some dependencies are non-library packages.\n");
        note.append("      `cargo-udeps` regards them as unused.\n");
    }
    note.append("Note: They might be false-positive.\n");
    note.append(
        "      For example, `cargo-udeps` cannot detect usage of crates that are only used in doc-tests.\n",
    );
    note.append(
        "      To ignore some dependencies, write `package.metadata.cargo-udeps.ignore` in Cargo.toml.\n",
    );
    assert(note@ =~= note_text(*selection, any_non_lib));
    note
}

/// Whether some member has a dependency without a library.
pub open spec fn any_has_non_lib(all: Map<u64, DependencyNamesView>) -> bool {
    exists|id: u64| all.contains_key(id) && (#[trigger] all[id]).has_non_lib()
}

/// Whether some member has a dependency without a library.
pub fn any_non_lib(dependency_names: &IdMap<DependencyNames>) -> (any: bool)
    ensures
        any == any_has_non_lib(crate::evidence::member_names(dependency_names@)),
{
    proof {
        use_type_invariant(dependency_names);
        dependency_names.lemma_ordered();
    }
    let ghost all = crate::evidence::member_names(dependency_names@);
    let ghost keys = dependency_names.keys();
    let mut i: usize = 0;
    while i < dependency_names.len()
        invariant
            dependency_names.wf(),
            all == crate::evidence::member_names(dependency_names@),
            keys == dependency_names.keys(),
            i <= keys.len(),
            forall|j: int| 0 <= j < i ==> !(#[trigger] all[keys[j]]).has_non_lib(),
        decreases keys.len() - i,
    {
        proof {
            dependency_names.lemma_ordered();
        }
        let names = dependency_names.value_at(i);
        assert(dependency_names@.contains_key(keys[i as int]));
        assert(all[keys[i as int]] == names@);
        if names.has_non_lib() {
            assert(all.contains_key(keys[i as int]));
            return true;
        }
        i += 1;
    }
    proof {
        dependency_names.lemma_ordered();
        assert forall|id: u64| all.contains_key(id) implies !(#[trigger] all[id]).has_non_lib() by {
            assert(keys.to_set().contains(id));
            let j = choose|j: int| 0 <= j < keys.len() && keys[j] == id;
            assert(!all[keys[j]].has_non_lib());
        }
    }
    false
}

impl Outcome {
    /// Where something is left over, puts the advice below the list.
    pub fn annotate(&mut self, selection: &TargetSelection, any_non_lib: bool)
        ensures
            final(self).success == old(self).success,
            final(self).unused_deps == old(self).unused_deps,
            old(self).success ==> final(self).note == old(self).note,
            !old(self).success ==> final(self).note is Some && final(self).note->0@ == note_text(
                *selection,
                any_non_lib,
            ),
    {
        if !self.success {
            self.note = Some(build_note(selection, any_non_lib));
        }
    }
}

/// The leaf that shows a manifest name and the library name it shares: both
/// quoted, with an arrow between them.
pub open spec fn ambiguity_leaf(pair: (Seq<char>, Seq<char>)) -> Seq<char> {
    debug_quoted(pair.0) + " \u{2192} "@ + debug_quoted(pair.1)
}

/// A leaf for each pair.
pub open spec fn ambiguity_leaves(pairs: Seq<(Seq<char>, Seq<char>)>) -> Seq<Seq<char>> {
    pairs.map_values(|p: (Seq<char>, Seq<char>)| ambiguity_leaf(p))
}

/// The warning that some dependencies of `member` cannot be told apart, with
/// a tree of them: a branch for the normal and development dependencies and
/// one for the build dependencies, each only where it has leaves. No white
/// space ends the text.
pub open spec fn ambiguity_text(
    member: Seq<char>,
    normal_dev: Seq<Seq<char>>,
    build: Seq<Seq<char>>,
) -> Seq<char> {
    crate::text::trimmed_end(
        "Currently `cargo-udeps` cannot distinguish multiple crates with the same `lib` name. This may cause false negative\n"@
            + "`"@ + member + "`\n"@ + branch(
            joint_of(build.len() == 0),
            edge_of(build.len() == 0),
            "(dev-)"@,
            normal_dev,
        ) + branch(joint_of(true), edge_of(true), "build-"@, build),
    )
}

/// Writes the warning that some dependencies of `member` cannot be told
/// apart, where the leaves are already written as they are to be shown.
pub fn render_ambiguity(member: &str, normal_dev: &Vec<String>, build: &Vec<String>) -> (text:
    String)
    ensures
        text@ == ambiguity_text(member@, views(normal_dev@), views(build@)),
{
    let mut text = String::from_str(
        "Currently `cargo-udeps` cannot distinguish multiple crates with the same `lib` name. This may cause false negative\n",
    );
    text.append("`");
    text.append(member);
    text.append("`\n");
    let first = if build.len() == 0 {
        render_branch("\u{2514}", " ", "(dev-)", normal_dev)
    } else {
        render_branch("\u{251c}", "\u{2502}", "(dev-)", normal_dev)
    };
    text.append(first.as_str());
    let second = render_branch("\u{2514}", " ", "build-", build);
    text.append(second.as_str());
    crate::text::trim_end(text.as_str())
}

/// Writes a leaf for each pair of a manifest name and a library name.
pub fn quote_pairs(pairs: &Vec<(String, String)>) -> (leaves: Vec<String>)
    ensures
        views(leaves@) == ambiguity_leaves(crate::names::pair_views(pairs@)),
{
    let ghost all = crate::names::pair_views(pairs@);
    let mut leaves: Vec<String> = Vec::new();
    let mut i: usize = 0;
    while i < pairs.len()
        invariant
            all == crate::names::pair_views(pairs@),
            i <= pairs.len(),
            views(leaves@) == ambiguity_leaves(all.take(i as int)),
        decreases pairs.len() - i,
    {
        let ghost earlier = views(leaves@);
        let mut leaf = debug_quote(pairs[i].0.as_str());
        leaf.append(" \u{2192} ");
        leaf.append(debug_quote(pairs[i].1.as_str()).as_str());
        assert(leaf@ == ambiguity_leaf(all[i as int]));
        leaves.push(leaf);
        assert(views(leaves@) =~= earlier.push(ambiguity_leaf(all[i as int])));
        assert(all.take(i + 1) =~= all.take(i as int).push(all[i as int]));
        assert(ambiguity_leaves(all.take(i + 1)) =~= ambiguity_leaves(all.take(i as int)).push(
            ambiguity_leaf(all[i as int]),
        ));
        i += 1;
    }
    assert(all.take(pairs.len() as int) =~= all);
    leaves
}

/// The warning that some dependencies of `member` cannot be told apart: none
/// where there is no such dependency.
pub fn ambiguity_warning(
    member: &str,
    normal_dev: &Vec<(String, String)>,
    build: &Vec<(String, String)>,
) -> (warning: Option<String>)
    ensures
        normal_dev.len() == 0 && build.len() == 0 ==> warning is None,
        !(normal_dev.len() == 0 && build.len() == 0) ==> warning is Some && warning->0@
            == ambiguity_text(
            member@,
            ambiguity_leaves(crate::names::pair_views(normal_dev@)),
            ambiguity_leaves(crate::names::pair_views(build@)),
        ),
{
    if normal_dev.len() == 0 && build.len() == 0 {
        None
    } else {
        let first = quote_pairs(normal_dev);
        let second = quote_pairs(build);
        Some(render_ambiguity(member, &first, &second))
    }
}

/// The warning that a second declaration led to `package`, which a
/// declaration named `previous` had led to before; `previous` is shown as
/// `quoted`.
pub open spec fn duplicate_text(package: Seq<char>, quoted: Seq<char>) -> Seq<char> {
    "duplicate package mentioned in toml "@ + package + ". Some("@ + quoted + ")"@
}

/// Writes the warning about a package met twice, where `quoted` is the
/// earlier name as it is to be shown.
pub fn render_duplicate(package: &str, quoted: &str) -> (text: String)
    ensures
        text@ == duplicate_text(package@, quoted@),
{
    let mut text = String::from_str("duplicate package mentioned in toml ");
    text.append(package);
    text.append(". Some(");
    text.append(quoted);
    text.append(")");
    text
}

/// Writes the warning about a package met twice.
pub fn duplicate_warning(package: &str, previous: &str) -> (text: String)
    ensures
        text@ == duplicate_text(package@, debug_quoted(previous@)),
{
    let quoted = debug_quote(previous);
    render_duplicate(package, quoted.as_str())
}

/// The name of a kind of dependency.
pub open spec fn kind_text(kind: DepKind) -> Seq<char> {
    match kind {
        DepKind::Normal => "Normal"@,
        DepKind::Development => "Development"@,
        DepKind::Build => "Build"@,
    }
}

/// What the user is told of a dependency that an ignore list exempts: the
/// manifest name between backquotes, and the kind in brackets.
pub open spec fn ignoring_text(dependency: Seq<char>, kind: DepKind) -> Seq<char> {
    "Ignoring `"@ + dependency + "` ("@ + kind_text(kind) + ")"@
}

/// Writes what the user is told of a dependency that an ignore list exempts.
pub fn ignoring_message(dependency: &str, kind: DepKind) -> (text: String)
    ensures
        text@ == ignoring_text(dependency@, kind),
{
    let mut text = String::from_str("Ignoring `");
    text.append(dependency);
    text.append("` (");
    match kind {
        DepKind::Normal => text.append("Normal"),
        DepKind::Development => text.append("Development"),
        DepKind::Build => text.append("Build"),
    }
    text.append(")");
    text
}

} // verus!
