use cargo_udeps::collections::{IdMap, StrSet};
use cargo_udeps::outcome::{Outcome, OutcomeUnusedDeps};
use cargo_udeps::names::DepKind;
use cargo_udeps::report::{
    build_note, ignoring_message, quote_all, quote_pairs, render_ambiguity, render_branch,
    render_duplicate, render_member, TargetSelection,
};

fn strings(list: &[&str]) -> Vec<String> {
    list.iter().map(|s| s.to_string()).collect()
}

fn selection() -> TargetSelection {
    TargetSelection {
        all_targets: false,
        lib: false,
        bins: false,
        examples: false,
        tests: false,
        benches: false,
        bin: vec![],
        example: vec![],
        test: vec![],
        bench: vec![],
    }
}

const OTHER: &str = "Note: These dependencies might be used by other targets.\n";
const ALL: &str =
    "      To find dependencies that are not used by any target, enable `--all-targets`.\n";
const NON_LIB: &str = "Note: Some dependencies are non-library packages.\n      `cargo-udeps` regards them as unused.\n";
const FALSE_POSITIVE: &str = "Note: They might be false-positive.\n      For example, `cargo-udeps` cannot detect usage of crates that are only used in doc-tests.\n      To ignore some dependencies, write `package.metadata.cargo-udeps.ignore` in Cargo.toml.\n";

#[test]
fn quote_all_quotes_like_debug() {
    let mut set = StrSet::new();
    for n in ["plain", "with \"quote\"", "tab\t", "back\\slash"] {
        set.insert(n.to_string());
    }
    let expected: Vec<String> =
        (0..set.len()).map(|i| format!("{:?}", set.get(i))).collect();
    assert_eq!(quote_all(&set), expected);
    assert_eq!(quote_all(&set)[2], "\"tab\\t\"");
    assert_eq!(
        quote_pairs(&vec![("a-b".to_string(), "a_b".to_string())]),
        ["\"a-b\" → \"a_b\""]
    );
}

#[test]
fn render_branch_draws_a_heading_and_leaves() {
    assert_eq!(render_branch("└", " ", "dev-", &vec![]), "");
    assert_eq!(
        render_branch("├", "│", "", &strings(&["\"a\"", "\"b\"", "\"c\""])),
        "├─── dependencies\n│    ├─── \"a\"\n│    ├─── \"b\"\n│    └─── \"c\"\n"
    );
    assert_eq!(
        render_branch("└", " ", "build-", &strings(&["x"])),
        "└─── build-dependencies\n     └─── x\n"
    );
}

#[test]
fn render_member_closes_the_tree_at_the_last_branch() {
    let a = strings(&["\"a\""]);
    let none: Vec<String> = vec![];
    assert_eq!(render_member("m", &none, &none, &none), "`m`\n");
    assert_eq!(render_member("m", &a, &none, &none), "`m`\n└─── dependencies\n     └─── \"a\"\n");
    assert_eq!(
        render_member("m", &a, &a, &none),
        "`m`\n├─── dependencies\n│    └─── \"a\"\n└─── dev-dependencies\n     └─── \"a\"\n"
    );
    assert_eq!(
        render_member("m", &none, &a, &a),
        "`m`\n├─── dev-dependencies\n│    └─── \"a\"\n└─── build-dependencies\n     └─── \"a\"\n"
    );
    assert_eq!(
        render_member("m", &a, &none, &a),
        "`m`\n├─── dependencies\n│    └─── \"a\"\n└─── build-dependencies\n     └─── \"a\"\n"
    );
}

#[test]
fn print_human_lists_members_in_order_with_the_note() {
    let mut entries = IdMap::new();
    let mut second = OutcomeUnusedDeps::new("zeta v1".to_string(), "/z".to_string());
    second.normal.insert("serde".to_string());
    second.normal.insert("log".to_string());
    entries.insert(9, second);
    let mut first = OutcomeUnusedDeps::new("alpha v2".to_string(), "/a".to_string());
    first.build.insert("cc".to_string());
    entries.insert(4, first);
    let mut outcome = Outcome { success: false, unused_deps: entries, note: None };
    let tree = "unused dependencies:\n`alpha v2`\n└─── build-dependencies\n     └─── \"cc\"\n`zeta v1`\n└─── dependencies\n     ├─── \"log\"\n     └─── \"serde\"\n";
    assert_eq!(outcome.print_human(), tree);
    outcome.annotate(&selection(), true);
    assert_eq!(
        outcome.print_human(),
        format!("{}{}{}{}{}", tree, OTHER, ALL, NON_LIB, FALSE_POSITIVE)
    );
    assert_eq!(outcome.exit_code(), 1);
}

#[test]
fn print_human_of_a_success_is_one_line() {
    let mut outcome = Outcome { success: true, unused_deps: IdMap::new(), note: None };
    outcome.annotate(&selection(), true);
    assert!(outcome.note.is_none());
    assert_eq!(outcome.print_human(), "All deps seem to have been used.\n");
    assert_eq!(outcome.exit_code(), 0);
}

#[test]
fn build_note_follows_the_selection() {
    assert_eq!(build_note(&selection(), false), format!("{}{}{}", OTHER, ALL, FALSE_POSITIVE));
    let mut all = selection();
    all.all_targets = true;
    assert_eq!(build_note(&all, false), FALSE_POSITIVE);
    assert_eq!(build_note(&all, true), format!("{}{}", NON_LIB, FALSE_POSITIVE));
    let narrowed: Vec<TargetSelection> = vec![
        TargetSelection { lib: true, ..selection() },
        TargetSelection { bins: true, ..selection() },
        TargetSelection { examples: true, ..selection() },
        TargetSelection { tests: true, ..selection() },
        TargetSelection { benches: true, ..selection() },
        TargetSelection { bin: strings(&["b"]), ..selection() },
        TargetSelection { example: strings(&["e"]), ..selection() },
        TargetSelection { test: strings(&["t"]), ..selection() },
        TargetSelection { bench: strings(&["b"]), ..selection() },
    ];
    for s in &narrowed {
        assert_eq!(build_note(s, false), format!("{}{}", OTHER, FALSE_POSITIVE));
    }
}

#[test]
fn render_ambiguity_ends_without_white_space() {
    assert_eq!(
        render_ambiguity("m", &vec![], &strings(&["x "])),
        "Currently `cargo-udeps` cannot distinguish multiple crates with the same `lib` name. This may cause false negative\n`m`\n└─── build-dependencies\n     └─── x"
    );
    assert_eq!(
        render_ambiguity("m", &vec![], &vec![]),
        "Currently `cargo-udeps` cannot distinguish multiple crates with the same `lib` name. This may cause false negative\n`m`"
    );
    assert_eq!(
        render_duplicate("p v1 (registry)", "\"old\""),
        "duplicate package mentioned in toml p v1 (registry). Some(\"old\")"
    );
}

#[test]
fn ignoring_message_names_the_dependency_and_its_kind() {
    assert_eq!(ignoring_message("if_chain", DepKind::Normal), "Ignoring `if_chain` (Normal)");
    assert_eq!(ignoring_message("maplit", DepKind::Development), "Ignoring `maplit` (Development)");
    assert_eq!(ignoring_message("", DepKind::Build), "Ignoring `` (Build)");
}
