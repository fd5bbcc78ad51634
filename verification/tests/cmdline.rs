use cargo_udeps::cmdline::{check_extern_values, cmd_info, CmdInfoError};

fn words(list: &[&str]) -> Vec<String> {
    list.iter().map(|w| w.to_string()).collect()
}

fn externs(args: &[&str]) -> Vec<String> {
    let info = cmd_info(0, false, &words(args)).unwrap();
    (0..info.extern_crate_names.len()).map(|i| info.extern_crate_names.get(i).clone()).collect()
}

const FULL: [&str; 6] =
    ["--crate-name", "foo", "-C", "extra-filename=-0a1b", "--out-dir", "/t/deps"];

#[test]
fn reads_the_facts_of_a_library_unit() {
    let args = words(&[
        "--crate-name",
        "byteorder",
        "--edition=2018",
        "src/lib.rs",
        "--crate-type",
        "lib",
        "--emit=dep-info,metadata",
        "-C",
        "embed-bitcode=no",
        "-C",
        "metadata=9f",
        "-C",
        "extra-filename=-9f8e",
        "--out-dir",
        "/t/debug/deps",
        "-L",
        "dependency=/t/debug/deps",
        "--extern",
        "cfg_if=/t/debug/deps/libcfg_if-1.rmeta",
        "--extern",
        "proc_macro",
        "--extern",
        "cfg_if=/t/debug/deps/libcfg_if-1.rmeta",
        "--cap-lints",
        "allow",
    ]);
    assert!(check_extern_values(&args));
    let info = cmd_info(42, true, &args).unwrap();
    assert_eq!(info.pkg, 42);
    assert!(info.custom_build);
    assert_eq!(info.crate_name, "byteorder");
    assert_eq!(info.crate_type, "lib");
    assert_eq!(info.extra_filename, "-9f8e");
    assert!(info.cap_lints_allow);
    assert_eq!(info.out_dir, "/t/debug/deps");
    assert_eq!(info.extern_crate_names.len(), 2);
    assert!(info.extern_crate_names.contains("cfg_if"));
    assert!(info.extern_crate_names.contains("proc_macro"));
    assert_eq!(info.get_artifact_base_name(), "libbyteorder-9f8e");
    assert_eq!(info.get_depinfo_filename(), "byteorder-9f8e.d");
}

#[test]
fn crate_type_defaults_to_bin() {
    let info = cmd_info(1, false, &words(&FULL)).unwrap();
    assert_eq!(info.crate_type, "bin");
    assert!(!info.cap_lints_allow);
    assert!(info.extern_crate_names.is_empty());
    assert_eq!(info.get_artifact_base_name(), "foo-0a1b");
}

#[test]
fn artifact_of_a_procedural_macro_starts_with_lib() {
    let mut args = words(&FULL);
    args.extend(words(&["--crate-type", "proc-macro"]));
    assert_eq!(cmd_info(1, false, &args).unwrap().get_artifact_base_name(), "libfoo-0a1b");
    let mut args = words(&FULL);
    args.extend(words(&["--crate-type", "cdylib"]));
    assert_eq!(cmd_info(1, false, &args).unwrap().get_artifact_base_name(), "libfoo-0a1b");
}

#[test]
fn missing_crate_name_is_the_first_error() {
    let err = cmd_info(1, false, &words(&["--crate-type", "lib"])).unwrap_err();
    assert_eq!(err, CmdInfoError::CrateNameNeeded);
    assert_eq!(err.message(), "crate name needed");
    assert_eq!(cmd_info(1, false, &vec![]).unwrap_err(), CmdInfoError::CrateNameNeeded);
}

#[test]
fn missing_extra_filename_is_an_error() {
    let err =
        cmd_info(1, false, &words(&["--crate-name", "foo", "--out-dir", "/t"])).unwrap_err();
    assert_eq!(err, CmdInfoError::ExtraFilenameNeeded);
    assert_eq!(err.message(), "extra-filename needed");
    let err = cmd_info(
        1,
        false,
        &words(&["--crate-name", "foo", "-C", "extra-filename", "-C", "metadata=1"]),
    )
    .unwrap_err();
    assert_eq!(err, CmdInfoError::ExtraFilenameNeeded);
}

#[test]
fn missing_out_dir_is_an_error() {
    let err = cmd_info(1, false, &words(&["--crate-name", "foo", "-C", "extra-filename=-1"]))
        .unwrap_err();
    assert_eq!(err, CmdInfoError::OutDirNeeded);
    assert_eq!(err.message(), "outdir needed");
}

#[test]
fn a_flag_uses_up_the_next_token() {
    let args = words(&[
        "--crate-name",
        "--extern",
        "x=y",
        "-C",
        "extra-filename=-1",
        "--out-dir",
        "--cap-lints",
        "allow",
    ]);
    let info = cmd_info(1, false, &args).unwrap();
    assert_eq!(info.crate_name, "--extern");
    assert_eq!(info.out_dir, "--cap-lints");
    assert!(!info.cap_lints_allow);
    assert!(info.extern_crate_names.is_empty());
}

#[test]
fn a_later_value_replaces_an_earlier_one() {
    let args = words(&[
        "--crate-name",
        "a",
        "--crate-name",
        "b",
        "-C",
        "extra-filename=-1",
        "-C",
        "extra-filename=-2=x",
        "--out-dir",
        "/1",
        "--out-dir",
        "/2",
        "--cap-lints",
        "allow",
        "--cap-lints",
        "warn",
        "--out-dir",
    ]);
    let info = cmd_info(1, false, &args).unwrap();
    assert_eq!(info.crate_name, "b");
    assert_eq!(info.extra_filename, "-2");
    assert_eq!(info.out_dir, "/2");
    assert!(info.cap_lints_allow);
}

#[test]
fn extern_names_stand_before_the_equals_sign() {
    let mut args = words(&FULL);
    args.extend(words(&["--extern", "b=/p/libb-1.rlib", "--extern", "a", "--extern", "=x"]));
    assert_eq!(externs(&args.iter().map(|a| a.as_str()).collect::<Vec<_>>()), ["", "a", "b"]);
}

#[test]
fn extern_values_with_two_equals_signs_are_found() {
    assert!(!check_extern_values(&words(&["--extern", "a=b=c"])));
    assert!(check_extern_values(&words(&["--extern", "a=b", "-C", "a=b=c"])));
    assert!(check_extern_values(&words(&["--crate-name", "--extern", "a=b=c"])));
    assert!(check_extern_values(&words(&["--extern"])));
    assert!(check_extern_values(&vec![]));
}
