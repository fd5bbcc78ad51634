use cargo_udeps::cmdline::{cmd_info, CmdInfo};
use cargo_udeps::collections::{IdMap, PairSet, StrMap, StrSet};
use cargo_udeps::defs::{CrateDisambiguator, CrateId, ExternalCrate, Prelude};
use cargo_udeps::depinfo::DepInfo;
use cargo_udeps::evidence::{
    collect_names, first_unmapped, insert_all, lib_stem_table, non_lib_of_kind, record_declared,
    record_prelude, record_stem, record_stems, Evidence,
};
use cargo_udeps::names::{DeclaredDep, DepKind, DependencyNames, LibTarget, ResolvedDep};

fn pairs_of(set: &PairSet) -> Vec<(u64, String)> {
    let mut all: Vec<(u64, String)> =
        (0..set.len()).map(|i| (set.id_at(i), set.name_at(i).clone())).collect();
    all.sort();
    all
}

fn expect(list: &[(u64, &str)]) -> Vec<(u64, String)> {
    list.iter().map(|(id, n)| (*id, n.to_string())).collect()
}

fn unit(pkg: u64, name: &str, ty: &str, extra: &str, externs: &[&str]) -> CmdInfo {
    let mut args: Vec<String> =
        ["--crate-name", name, "--crate-type", ty, "-C", extra, "--out-dir", "/t/deps"]
            .iter()
            .map(|w| w.to_string())
            .collect();
    for e in externs {
        args.push("--extern".to_string());
        args.push(e.to_string());
    }
    cmd_info(pkg, false, &args).unwrap()
}

fn names() -> DependencyNames {
    let deps = vec![
        ResolvedDep {
            package: 2,
            lib: Some(LibTarget {
                extern_crate_name: "bar".to_string(),
                lib_true_snakecased_name: "foo_real".to_string(),
            }),
            deps: vec![DeclaredDep { kind: DepKind::Normal, name_in_toml: "bar".to_string() }],
        },
        ResolvedDep {
            package: 3,
            lib: Some(LibTarget {
                extern_crate_name: "libc".to_string(),
                lib_true_snakecased_name: "libc".to_string(),
            }),
            deps: vec![
                DeclaredDep { kind: DepKind::Normal, name_in_toml: "libc".to_string() },
                DeclaredDep { kind: DepKind::Development, name_in_toml: "libc".to_string() },
            ],
        },
        ResolvedDep {
            package: 4,
            lib: None,
            deps: vec![DeclaredDep { kind: DepKind::Build, name_in_toml: "tool".to_string() }],
        },
    ];
    DependencyNames::new(&deps).0
}

fn table() -> StrMap<u64> {
    lib_stem_table(&vec![
        unit(2, "foo_real", "lib", "extra-filename=-aa", &[]),
        unit(9, "other", "rlib", "extra-filename=-bb", &[]),
        unit(1, "member", "bin", "extra-filename=-cc", &[]),
        unit(8, "other", "lib", "extra-filename=-bb", &[]),
    ])
}

#[test]
fn lib_stem_table_maps_artifacts_to_packages() {
    let table = table();
    assert_eq!(table.len(), 3);
    assert_eq!(table.get("libfoo_real-aa"), Some(&2));
    assert_eq!(table.get("libother-bb"), Some(&8));
    assert_eq!(table.get("member-cc"), Some(&1));
    assert_eq!(table.get("foo_real-aa"), None);
}

#[test]
fn record_stem_follows_the_artifact_or_the_library_name() {
    let names = names();
    let table = table();
    let mut used = PairSet::new();
    record_stem("lib", 1, &names.normal, &table, &mut used);
    record_stem("libfoo_real", 1, &names.normal, &table, &mut used);
    record_stem("libother-bb", 1, &names.normal, &table, &mut used);
    record_stem("libfoo_real-zz", 1, &names.development, &table, &mut used);
    assert_eq!(pairs_of(&used), expect(&[]));
    record_stem("libfoo_real-aa", 1, &names.normal, &table, &mut used);
    assert_eq!(pairs_of(&used), expect(&[(1, "bar")]));
    let mut used = PairSet::new();
    record_stem("libfoo_real-zz", 1, &names.normal, &table, &mut used);
    assert_eq!(pairs_of(&used), expect(&[(1, "bar")]));
    let mut used = PairSet::new();
    record_stem("foo_real-zz", 7, &names.normal, &table, &mut used);
    assert_eq!(pairs_of(&used), expect(&[(7, "bar")]));
    let mut used = PairSet::new();
    record_stem("liblibc-1", 1, &names.normal, &table, &mut used);
    assert_eq!(pairs_of(&used), expect(&[(1, "libc")]));
    let mut used = PairSet::new();
    record_stem("libc-1", 1, &names.normal, &table, &mut used);
    assert_eq!(pairs_of(&used), expect(&[]));
}

#[test]
fn record_stems_passes_over_missing_names() {
    let names = names();
    let mut used = PairSet::new();
    let stems = vec![None, Some("libfoo_real-aa".to_string()), None, Some("x".to_string())];
    record_stems(&stems, 1, &names.normal, &table(), &mut used);
    assert_eq!(pairs_of(&used), expect(&[(1, "bar")]));
}

#[test]
fn record_declared_maps_extern_names_to_manifest_names() {
    let names = names();
    let mut externs = StrSet::new();
    for e in ["bar", "libc", "proc_macro", "foo_real"] {
        externs.insert(e.to_string());
    }
    let mut declared = PairSet::new();
    record_declared(&externs, 1, &names.normal, &mut declared);
    assert_eq!(pairs_of(&declared), expect(&[(1, "bar"), (1, "libc")]));
    let mut declared = PairSet::new();
    record_declared(&externs, 1, &names.build, &mut declared);
    assert_eq!(pairs_of(&declared), expect(&[]));
}

#[test]
fn collect_names_fills_both_sets() {
    let names = names();
    let member = unit(1, "member", "lib", "extra-filename=-cc", &["bar=/t/libfoo_real-aa.rmeta"]);
    let mut used = PairSet::new();
    let mut declared = PairSet::new();
    used.insert(5, "kept".to_string());
    let stems = vec![Some("libfoo_real-aa".to_string())];
    collect_names(&member, &stems, &names.normal, &table(), &mut used, &mut declared);
    assert_eq!(pairs_of(&used), expect(&[(1, "bar"), (5, "kept")]));
    assert_eq!(pairs_of(&declared), expect(&[(1, "bar")]));
}

#[test]
fn insert_all_pairs_every_name_with_the_member() {
    let mut names = StrSet::new();
    names.insert("b".to_string());
    names.insert("a".to_string());
    let mut set = PairSet::new();
    set.insert(3, "a".to_string());
    insert_all(&mut set, 3, &names);
    insert_all(&mut set, 4, &StrSet::new());
    assert_eq!(pairs_of(&set), expect(&[(3, "a"), (3, "b")]));
}

#[test]
fn evidence_starts_with_the_dependencies_without_library() {
    let mut all = IdMap::new();
    all.insert(1, names());
    all.insert(6, DependencyNames::empty());
    assert_eq!(pairs_of(&non_lib_of_kind(&all, DepKind::Build)), expect(&[(1, "tool")]));
    assert_eq!(pairs_of(&non_lib_of_kind(&all, DepKind::Normal)), expect(&[]));
    let evidence = Evidence::new(&all);
    assert_eq!(pairs_of(&evidence.build_dependencies), expect(&[(1, "tool")]));
    assert_eq!(evidence.normal_dependencies.len(), 0);
    assert_eq!(evidence.dev_dependencies.len(), 0);
    assert_eq!(evidence.used_normal_dev_dependencies.len(), 0);
    assert_eq!(evidence.used_build_dependencies.len(), 0);
}

#[test]
fn observe_reads_the_listing_of_a_member_unit() {
    let mut all = IdMap::new();
    all.insert(1, names());
    let table = table();
    let member = unit(
        1,
        "member",
        "lib",
        "extra-filename=-cc",
        &["bar=/t/deps/libfoo_real-aa.rmeta", "libc=/t/deps/liblibc-dd.rmeta"],
    );
    let listing = DepInfo {
        di: vec![(
            "/t/deps/member-cc.d".to_string(),
            vec!["src/lib.rs".to_string(), "/t/deps/liblibc-dd.rmeta".to_string()],
        )],
        f_name: "member-cc.d".to_string(),
    };
    let mut evidence = Evidence::new(&all);
    evidence.observe(&member, &listing, &all, &table).unwrap();
    assert_eq!(pairs_of(&evidence.used_normal_dev_dependencies), expect(&[(1, "libc")]));
    assert_eq!(pairs_of(&evidence.normal_dependencies), expect(&[(1, "bar"), (1, "libc")]));
    assert_eq!(pairs_of(&evidence.dev_dependencies), expect(&[(1, "libc")]));
    assert_eq!(pairs_of(&evidence.build_dependencies), expect(&[(1, "tool")]));
    assert_eq!(evidence.used_build_dependencies.len(), 0);

    let stranger = unit(5, "stranger", "lib", "extra-filename=-ee", &["bar=/x"]);
    let mut evidence = Evidence::new(&all);
    evidence
        .observe_stems(&stranger, &vec![Some("liblibc-dd".to_string())], &all, &table)
        .unwrap();
    assert_eq!(evidence.normal_dependencies.len(), 0);
    assert_eq!(evidence.used_normal_dev_dependencies.len(), 0);

    let units = vec![member, stranger];
    let stems = vec![vec![Some("libfoo_real-aa".to_string())], vec![]];
    let evidence = Evidence::gather_stems(&units, &stems, &all, &table).unwrap();
    assert_eq!(pairs_of(&evidence.used_normal_dev_dependencies), expect(&[(1, "bar")]));
    let listings = vec![listing, DepInfo { di: vec![], f_name: "stranger-ee.d".to_string() }];
    let evidence = Evidence::gather(&units, &listings, &all, &table).unwrap();
    assert_eq!(pairs_of(&evidence.used_normal_dev_dependencies), expect(&[(1, "libc")]));
}

#[test]
fn record_prelude_matches_external_crates_by_library_name() {
    let names = names();
    let krate = |num: u32, name: &str| ExternalCrate {
        num,
        id: CrateId { name: name.to_string(), disambiguator: CrateDisambiguator(1, 2) },
    };
    let prelude = Prelude {
        crate_id: CrateId { name: "member".to_string(), disambiguator: CrateDisambiguator(0, 0) },
        external_crates: vec![krate(1, "std"), krate(2, "foo_real"), krate(3, "bar")],
    };
    let mut used = PairSet::new();
    record_prelude(&prelude, 1, &names.normal, &mut used);
    assert_eq!(pairs_of(&used), expect(&[(1, "bar")]));
}

#[test]
fn an_extern_name_without_dependency_is_an_error() {
    let mut all = IdMap::new();
    all.insert(1, names());
    let table = table();
    let good = unit(1, "member", "lib", "extra-filename=-cc", &["bar=/a", "libc=/b"]);
    let bad = unit(
        1,
        "member",
        "bin",
        "extra-filename=-dd",
        &["zeta=/z", "bar=/a", "member=/t/deps/libmember-cc.rlib", "libc=/b"],
    );
    assert_eq!(first_unmapped(&good.extern_crate_names, all.get(1).unwrap()), None);
    assert_eq!(
        first_unmapped(&bad.extern_crate_names, all.get(1).unwrap()),
        Some("member".to_string())
    );

    let mut evidence = Evidence::new(&all);
    let err = evidence.observe_stems(&bad, &vec![], &all, &table).unwrap_err();
    assert_eq!((err.member, err.name.as_str()), (1, "member"));
    assert_eq!(
        err.message(),
        "could not map the extern crate name `member` to a dependency"
    );
    assert_eq!(evidence.normal_dependencies.len(), 0);
    assert_eq!(evidence.used_normal_dev_dependencies.len(), 0);

    let worse = unit(1, "member", "bin", "extra-filename=-ee", &["alpha=/z"]);
    let units = vec![good, bad, worse];
    let stems = vec![vec![], vec![], vec![]];
    let err = Evidence::gather_stems(&units, &stems, &all, &table).unwrap_err();
    assert_eq!((err.member, err.name.as_str()), (1, "member"));
    let listings: Vec<DepInfo> =
        (0..3).map(|_| DepInfo { di: vec![], f_name: "x.d".to_string() }).collect();
    let err = Evidence::gather(&units, &listings, &all, &table).unwrap_err();
    assert_eq!(err.name, "member");
}
