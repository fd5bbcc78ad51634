use cargo_udeps::cmdline::{check_extern_values, cmd_info, CmdInfo};
use cargo_udeps::collections::IdMap;
use cargo_udeps::depinfo::{parse_rustc_dep_info, DepInfo};
use cargo_udeps::interceptor::ExecData;
use cargo_udeps::names::{DeclaredDep, DepKind, DependencyNames, LibTarget, ResolvedDep};
use cargo_udeps::outcome::{Member, PackageMetadataCargoUdepsIgnore};
use cargo_udeps::report::TargetSelection;
use cargo_udeps::udeps::conclude;

const MEMBER: u64 = 1;

/// A dependency of the member under test.
struct Dep {
    kind: DepKind,
    name: &'static str,
    package: u64,
    /// The library's name, or none for a package without a library.
    lib: Option<&'static str>,
    hash: &'static str,
}

/// A unit of the member under test.
struct Unit {
    crate_name: &'static str,
    crate_type: Option<&'static str>,
    custom_build: bool,
    /// The dependencies that the unit may refer to.
    externs: Vec<&'static str>,
    /// The dependencies whose library the unit read.
    reads: Vec<&'static str>,
}

fn args_of(words: &[String]) -> Vec<String> {
    words.to_vec()
}

fn unit_of(pkg: u64, custom_build: bool, words: Vec<String>) -> CmdInfo {
    assert!(check_extern_values(&words));
    cmd_info(pkg, custom_build, &args_of(&words)).expect("a complete command line")
}

fn artifact(dep: &Dep) -> String {
    format!("/t/debug/deps/lib{}-{}.rmeta", dep.lib.unwrap(), dep.hash)
}

fn ignore_of(normal: &[&str]) -> PackageMetadataCargoUdepsIgnore {
    let mut list = PackageMetadataCargoUdepsIgnore::new();
    for name in normal {
        list.normal.insert(name.to_string());
    }
    list
}

fn selection(all_targets: bool) -> TargetSelection {
    TargetSelection {
        all_targets,
        lib: false,
        bins: false,
        examples: false,
        tests: false,
        benches: false,
        bin: vec![],
        example: vec![],
        test: vec![],
        bench: vec![],
    }
}

/// Runs the check on one member and gives the exit code and the report.
fn check(
    label: &str,
    deps: &[Dep],
    units: &[Unit],
    member_ignore: Option<PackageMetadataCargoUdepsIgnore>,
    workspace_ignore: Option<PackageMetadataCargoUdepsIgnore>,
    all_targets: bool,
) -> (i32, String) {
    let resolved: Vec<ResolvedDep> = deps
        .iter()
        .map(|d| ResolvedDep {
            package: d.package,
            lib: d.lib.map(|lib| LibTarget {
                extern_crate_name: d.name.replace('-', "_"),
                lib_true_snakecased_name: lib.to_string(),
            }),
            deps: vec![DeclaredDep { kind: d.kind, name_in_toml: d.name.to_string() }],
        })
        .collect();
    let (names, duplicates) = DependencyNames::new(&resolved);
    assert!(duplicates.is_empty());
    let mut dependency_names = IdMap::new();
    dependency_names.insert(MEMBER, names);

    let mut data = ExecData::new(false, vec![MEMBER]);
    for d in deps.iter().filter(|d| d.lib.is_some()) {
        let words = vec![
            "--crate-name".to_string(),
            d.lib.unwrap().to_string(),
            "--crate-type".to_string(),
            "lib".to_string(),
            "-C".to_string(),
            format!("extra-filename=-{}", d.hash),
            "--out-dir".to_string(),
            "/t/debug/deps".to_string(),
            "--cap-lints".to_string(),
            "allow".to_string(),
        ];
        let decision = data.record_unit(unit_of(d.package, false, words), false, d.name);
        assert!(!decision.is_workspace_member);
        assert!(decision.warning.is_none());
    }
    let mut depinfos = Vec::new();
    for (i, u) in units.iter().enumerate() {
        let mut words = vec![
            "--crate-name".to_string(),
            u.crate_name.to_string(),
            "--edition=2018".to_string(),
        ];
        if let Some(ty) = u.crate_type {
            words.push("--crate-type".to_string());
            words.push(ty.to_string());
        }
        words.extend([
            "-C".to_string(),
            format!("extra-filename=-m{}", i),
            "--out-dir".to_string(),
            "/t/debug/deps".to_string(),
        ]);
        for e in &u.externs {
            let dep = deps.iter().find(|d| d.name == *e).unwrap();
            words.push("--extern".to_string());
            words.push(format!("{}={}", e.replace('-', "_"), artifact(dep)));
        }
        let unit = unit_of(MEMBER, u.custom_build, words);
        let f_name = unit.get_depinfo_filename();
        let mut listing = format!("/t/debug/deps/{}: src/lib.rs", f_name);
        for r in &u.reads {
            let dep = deps.iter().find(|d| d.name == *r).unwrap();
            listing.push(' ');
            listing.push_str(&artifact(dep));
        }
        listing.push_str("\n\nsrc/lib.rs:\n");
        depinfos.push(DepInfo { di: parse_rustc_dep_info(&listing).unwrap(), f_name });
        let decision = data.record_unit(unit, true, label);
        assert!(decision.is_workspace_member);
        assert!(decision.warning.is_none());
    }

    let mut members = IdMap::new();
    members.insert(
        MEMBER,
        Member {
            package: label.to_string(),
            manifest_path: "/w/Cargo.toml".to_string(),
            ignore: member_ignore,
        },
    );
    let (outcome, _ignored) = conclude(
        &data,
        &depinfos,
        &dependency_names,
        &members,
        &workspace_ignore,
        &selection(all_targets),
    )
    .expect("every extern name stands for a dependency");
    (outcome.exit_code(), outcome.print_human())
}

fn lib_unit(name: &'static str, externs: Vec<&'static str>, reads: Vec<&'static str>) -> Unit {
    Unit { crate_name: name, crate_type: Some("lib"), custom_build: false, externs, reads }
}

fn test_unit(name: &'static str, externs: Vec<&'static str>, reads: Vec<&'static str>) -> Unit {
    Unit { crate_name: name, crate_type: None, custom_build: false, externs, reads }
}

fn build_script(externs: Vec<&'static str>, reads: Vec<&'static str>) -> Unit {
    Unit {
        crate_name: "build_script_build",
        crate_type: Some("bin"),
        custom_build: true,
        externs,
        reads,
    }
}

fn normal(name: &'static str, package: u64, lib: &'static str) -> Dep {
    Dep { kind: DepKind::Normal, name, package, lib: Some(lib), hash: "0123456789abcdef" }
}

const NOTE_OTHER_TARGETS: &str = "Note: These dependencies might be used by other targets.\n      To find dependencies that are not used by any target, enable `--all-targets`.\n";
const NOTE_NON_LIB: &str = "Note: Some dependencies are non-library packages.\n      `cargo-udeps` regards them as unused.\n";
const NOTE_FALSE_POSITIVE: &str = "Note: They might be false-positive.\n      For example, `cargo-udeps` cannot detect usage of crates that are only used in doc-tests.\n      To ignore some dependencies, write `package.metadata.cargo-udeps.ignore` in Cargo.toml.\n";

#[test]
fn cfg_test_no_unexpected_cfg() {
    let units = [lib_unit("has_test_cfg", vec![], vec![]), test_unit("has_test_cfg", vec![], vec![])];
    let (code, stdout_masked) =
        check("has-test-cfg v0.0.1 (\u{2588}\u{2588})", &[], &units, None, None, true);
    assert_eq!(0, code);
    assert_eq!("All deps seem to have been used.\n", stdout_masked);
}

#[test]
fn macro_call() {
    let deps = [normal("strum", 2, "strum")];
    let units = [
        lib_unit("strum_macro", vec!["strum"], vec!["strum"]),
        test_unit("strum_macro", vec!["strum"], vec!["strum"]),
    ];
    let (code, stdout_masked) = check("strum_macro v0.0.1 (x)", &deps, &units, None, None, true);
    assert_eq!(0, code);
    assert_eq!("All deps seem to have been used.\n", stdout_masked);
}

fn three_normal() -> [Dep; 3] {
    [normal("if_chain", 2, "if_chain"), normal("maplit", 3, "maplit"), normal("matches", 4, "matches")]
}

fn three_units(name: &'static str) -> [Unit; 2] {
    [
        lib_unit(name, vec!["if_chain", "maplit", "matches"], vec![]),
        test_unit(name, vec!["if_chain", "maplit", "matches"], vec![]),
    ]
}

#[test]
fn ignore_ignore_if_chain() {
    let (code, stdout_masked) = check(
        "ignore-if-chain v0.0.0 (\u{2588}\u{2588}\u{2588}\u{2588}\u{2588}\u{2588}\u{2588}\u{2588}\u{2588}\u{2588})",
        &three_normal(),
        &three_units("ignore_if_chain"),
        Some(ignore_of(&["if_chain"])),
        None,
        true,
    );
    assert_eq!(1, code);
    assert_eq!(
        r#"unused dependencies:
`ignore-if-chain v0.0.0 (██████████)`
└─── dependencies
     ├─── "maplit"
     └─── "matches"
Note: They might be false-positive.
      For example, `cargo-udeps` cannot detect usage of crates that are only used in doc-tests.
      To ignore some dependencies, write `package.metadata.cargo-udeps.ignore` in Cargo.toml.
"#,
        stdout_masked,
    );
}

#[test]
fn ignore_workspace() {
    let (code, stdout_masked) = check(
        "ignore-workspace v0.0.0 (██████████)",
        &three_normal(),
        &three_units("ignore_workspace"),
        None,
        Some(ignore_of(&["if_chain"])),
        true,
    );
    assert_eq!(1, code);
    assert_eq!(
        r#"unused dependencies:
`ignore-workspace v0.0.0 (██████████)`
└─── dependencies
     ├─── "maplit"
     └─── "matches"
Note: They might be false-positive.
      For example, `cargo-udeps` cannot detect usage of crates that are only used in doc-tests.
      To ignore some dependencies, write `package.metadata.cargo-udeps.ignore` in Cargo.toml.
"#,
        stdout_masked,
    );
}

#[test]
fn ignore_all() {
    let units = [lib_unit("ignore_all", vec!["if_chain", "maplit", "matches"], vec![])];
    let (code, stdout_masked) = check(
        "ignore-all v0.0.0 (██████████)",
        &three_normal(),
        &units,
        Some(ignore_of(&["if_chain", "maplit", "matches"])),
        None,
        false,
    );
    assert_eq!(0, code);
    assert_eq!("All deps seem to have been used.\n", stdout_masked);
}

fn byteorder_report(note: &str) -> String {
    format!(
        "unused dependencies:\n`unused_byteorder v0.0.1 (██████████)`\n└─── dependencies\n     └─── \"byteorder\"\n{}",
        note
    )
}

fn byteorder_scenario(all_targets: bool) -> (i32, String) {
    let deps = [normal("byteorder", 2, "byteorder")];
    let mut units = vec![lib_unit("unused_byteorder", vec!["byteorder"], vec![])];
    if all_targets {
        units.push(test_unit("unused_byteorder", vec!["byteorder"], vec![]));
    }
    check("unused_byteorder v0.0.1 (██████████)", &deps, &units, None, None, all_targets)
}

#[test]
fn nightly_features_without_all_targets() {
    let (code, stdout_masked) = byteorder_scenario(false);
    assert_eq!(1, code);
    assert_eq!(
        byteorder_report(&format!("{}{}", NOTE_OTHER_TARGETS, NOTE_FALSE_POSITIVE)),
        stdout_masked
    );
}

#[test]
fn nightly_features_with_all_targets() {
    let (code, stdout_masked) = byteorder_scenario(true);
    assert_eq!(1, code);
    assert_eq!(byteorder_report(NOTE_FALSE_POSITIVE), stdout_masked);
}

#[test]
fn nightly_features_ignore_if_chain() {
    let deps = [normal("if_chain", 2, "if_chain")];
    let units = [
        lib_unit("ignore_if_chain", vec!["if_chain"], vec![]),
        test_unit("ignore_if_chain", vec!["if_chain"], vec![]),
    ];
    let (code, stdout_masked) = check(
        "ignore-if-chain v0.0.0 (██████████)",
        &deps,
        &units,
        Some(ignore_of(&["if_chain"])),
        None,
        true,
    );
    assert_eq!(0, code);
    assert_eq!(
        r#"All deps seem to have been used.
"#,
        stdout_masked,
    );
}

fn non_lib_build_dep(all_targets: bool) -> (i32, String) {
    let deps = [Dep { kind: DepKind::Build, name: "diffr", package: 2, lib: None, hash: "" }];
    let mut units = vec![lib_unit("non_lib_build_dep", vec![], vec![])];
    if all_targets {
        units.push(test_unit("non_lib_build_dep", vec![], vec![]));
    }
    check("non_lib_build_dep v0.0.0 (██████████)", &deps, &units, None, None, all_targets)
}

#[test]
fn non_lib_build_dep_without_all_targets() {
    let (code, stdout_masked) = non_lib_build_dep(false);
    assert_eq!(1, code);
    assert_eq!(
        r#"unused dependencies:
`non_lib_build_dep v0.0.0 (██████████)`
└─── build-dependencies
     └─── "diffr"
Note: These dependencies might be used by other targets.
      To find dependencies that are not used by any target, enable `--all-targets`.
Note: Some dependencies are non-library packages.
      `cargo-udeps` regards them as unused.
Note: They might be false-positive.
      For example, `cargo-udeps` cannot detect usage of crates that are only used in doc-tests.
      To ignore some dependencies, write `package.metadata.cargo-udeps.ignore` in Cargo.toml.
"#,
        stdout_masked,
    );
}

#[test]
fn non_lib_build_dep_with_all_targets() {
    let (code, stdout_masked) = non_lib_build_dep(true);
    assert_eq!(1, code);
    assert_eq!(
        r#"unused dependencies:
`non_lib_build_dep v0.0.0 (██████████)`
└─── build-dependencies
     └─── "diffr"
Note: Some dependencies are non-library packages.
      `cargo-udeps` regards them as unused.
Note: They might be false-positive.
      For example, `cargo-udeps` cannot detect usage of crates that are only used in doc-tests.
      To ignore some dependencies, write `package.metadata.cargo-udeps.ignore` in Cargo.toml.
"#,
        stdout_masked,
    );
}

fn normal_dev_build(all_targets: bool) -> (i32, String) {
    let deps = [
        normal("if_chain", 2, "if_chain"),
        Dep { kind: DepKind::Development, name: "maplit", package: 3, lib: Some("maplit"), hash: "aa" },
        Dep { kind: DepKind::Build, name: "matches", package: 4, lib: Some("matches"), hash: "bb" },
    ];
    let mut units = vec![
        build_script(vec!["matches"], vec![]),
        lib_unit("normal_dev_build", vec!["if_chain"], vec![]),
    ];
    if all_targets {
        units.push(test_unit("normal_dev_build", vec!["if_chain", "maplit"], vec![]));
    }
    check("normal_dev_build v0.0.1 (██████████)", &deps, &units, None, None, all_targets)
}

#[test]
fn normal_dev_build_without_all_targets() {
    let (code, stdout_masked) = normal_dev_build(false);
    assert_eq!(1, code);
    assert_eq!(
        r#"unused dependencies:
`normal_dev_build v0.0.1 (██████████)`
├─── dependencies
│    └─── "if_chain"
└─── build-dependencies
     └─── "matches"
Note: These dependencies might be used by other targets.
      To find dependencies that are not used by any target, enable `--all-targets`.
Note: They might be false-positive.
      For example, `cargo-udeps` cannot detect usage of crates that are only used in doc-tests.
      To ignore some dependencies, write `package.metadata.cargo-udeps.ignore` in Cargo.toml.
"#,
        stdout_masked,
    );
}

#[test]
fn normal_dev_build_with_all_targets() {
    let (code, stdout_masked) = normal_dev_build(true);
    assert_eq!(1, code);
    assert_eq!(
        r#"unused dependencies:
`normal_dev_build v0.0.1 (██████████)`
├─── dependencies
│    └─── "if_chain"
├─── dev-dependencies
│    └─── "maplit"
└─── build-dependencies
     └─── "matches"
Note: They might be false-positive.
      For example, `cargo-udeps` cannot detect usage of crates that are only used in doc-tests.
      To ignore some dependencies, write `package.metadata.cargo-udeps.ignore` in Cargo.toml.
"#,
        stdout_masked,
    );
}

#[test]
fn unused_byteorder() {
    let (_code, stdout) = byteorder_scenario(false);
    assert!(stdout.contains("byteorder"));
}

#[test]
fn unused_byteorder_without_all_targets() {
    let (code, stdout_masked) = byteorder_scenario(false);
    assert_eq!(1, code);
    assert_eq!(
        r#"unused dependencies:
`unused_byteorder v0.0.1 (██████████)`
└─── dependencies
     └─── "byteorder"
Note: These dependencies might be used by other targets.
      To find dependencies that are not used by any target, enable `--all-targets`.
Note: They might be false-positive.
      For example, `cargo-udeps` cannot detect usage of crates that are only used in doc-tests.
      To ignore some dependencies, write `package.metadata.cargo-udeps.ignore` in Cargo.toml.
"#,
        stdout_masked,
    );
}

#[test]
fn unused_byteorder_with_all_targets() {
    let (code, stdout_masked) = byteorder_scenario(true);
    assert_eq!(1, code);
    assert_eq!(
        r#"unused dependencies:
`unused_byteorder v0.0.1 (██████████)`
└─── dependencies
     └─── "byteorder"
Note: They might be false-positive.
      For example, `cargo-udeps` cannot detect usage of crates that are only used in doc-tests.
      To ignore some dependencies, write `package.metadata.cargo-udeps.ignore` in Cargo.toml.
"#,
        stdout_masked,
    );
}

#[test]
fn unused_transitive() {
    let deps = [normal("chrono", 2, "chrono"), normal("time", 3, "time")];
    let units = [
        lib_unit("unused_transitive", vec!["chrono", "time"], vec!["chrono", "time"]),
        test_unit("unused_transitive", vec!["chrono", "time"], vec!["chrono", "time"]),
    ];
    let (code, stdout_masked) =
        check("unused_transitive v0.0.1 (██████████)", &deps, &units, None, None, true);
    assert_eq!(0, code);
    assert_eq!("All deps seem to have been used.\n", stdout_masked);
}

fn used_withdash(all_targets: bool) -> (i32, String) {
    let deps = [normal("iso639-1", 2, "iso639_1")];
    let mut units = vec![lib_unit("usesiso639dash1", vec!["iso639-1"], vec!["iso639-1"])];
    if all_targets {
        units.push(test_unit("usesiso639dash1", vec!["iso639-1"], vec!["iso639-1"]));
    }
    check("usesiso639dash1 v0.0.1 (██████████)", &deps, &units, None, None, all_targets)
}

#[test]
fn used_withdash_without_all_targets() {
    let (code, stdout_masked) = used_withdash(false);
    assert_eq!(0, code, "STDOUT: {stdout_masked}");
    assert_eq!("All deps seem to have been used.\n", stdout_masked);
}

#[test]
fn used_withdash_with_all_targets() {
    let (code, stdout_masked) = used_withdash(true);
    assert_eq!(0, code, "STDOUT: {stdout_masked}");
    assert_eq!("All deps seem to have been used.\n", stdout_masked);
}

#[test]
fn renamed_dependency_is_used_by_its_manifest_name() {
    let deps = [Dep {
        kind: DepKind::Normal,
        name: "bar",
        package: 2,
        lib: Some("foo_real"),
        hash: "0f",
    }];
    let units = [lib_unit("renamer", vec!["bar"], vec!["bar"])];
    let (code, stdout) = check("renamer v0.1.0 (x)", &deps, &units, None, None, true);
    assert_eq!(0, code);
    assert_eq!("All deps seem to have been used.\n", stdout);
    let units = [lib_unit("renamer", vec!["bar"], vec![])];
    let (code, stdout) = check("renamer v0.1.0 (x)", &deps, &units, None, None, true);
    assert_eq!(1, code);
    assert!(stdout.contains("\"bar\""));
    assert!(!stdout.contains("foo_real"));
}

#[test]
fn member_without_dependencies_reports_nothing() {
    let units = [lib_unit("bare", vec![], vec![])];
    let (code, stdout) = check("bare v0.1.0 (x)", &[], &units, None, None, false);
    assert_eq!(0, code);
    assert_eq!("All deps seem to have been used.\n", stdout);
}

#[test]
fn check_twice_gives_the_same_report() {
    assert_eq!(normal_dev_build(true), normal_dev_build(true));
    assert_eq!(byteorder_scenario(false), byteorder_scenario(false));
}

#[test]
fn longer_ignore_list_never_reports_more() {
    let (_c0, none) = check("m v1 (x)", &three_normal(), &three_units("m"), None, None, true);
    let (_c1, one) = check(
        "m v1 (x)",
        &three_normal(),
        &three_units("m"),
        Some(ignore_of(&["maplit"])),
        None,
        true,
    );
    for name in ["if_chain", "maplit", "matches"] {
        let quoted = format!("\"{}\"", name);
        assert!(none.contains(&quoted));
        assert_eq!(one.contains(&quoted), name != "maplit");
    }
}
