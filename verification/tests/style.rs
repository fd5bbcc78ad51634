use cargo_udeps::cmdline::cmd_info;
use cargo_udeps::interceptor::{mismatch_warning, ExecData};
use cargo_udeps::options::{test_mode, verbosity, Backend, OutputKind};
use cargo_udeps::style::{bool_str, info, label, Tint};

#[test]
fn label_is_painted_where_colours_are_taken() {
    assert_eq!(label(false, Tint::Yellow, "warning:"), "warning:");
    assert_eq!(label(true, Tint::Yellow, "warning:"), "\u{1b}[1;33mwarning:\u{1b}[0m");
    assert_eq!(label(true, Tint::Cyan, "info:"), "\u{1b}[1;36minfo:\u{1b}[0m");
    assert_eq!(label(true, Tint::Cyan, ""), "\u{1b}[1;36m\u{1b}[0m");
}

#[test]
fn info_is_silent_when_quiet() {
    assert_eq!(info(true, true, "Loading"), None);
    assert_eq!(info(false, false, "Loading depinfo"), Some("info: Loading depinfo\n".to_string()));
    assert_eq!(
        info(false, true, "Ignoring `a` (Normal)"),
        Some("\u{1b}[1;36minfo:\u{1b}[0m Ignoring `a` (Normal)\n".to_string())
    );
    assert_eq!(bool_str(true), "true");
    assert_eq!(bool_str(false), "false");
}

#[test]
fn mismatch_warning_tells_both_values() {
    assert_eq!(
        mismatch_warning(false, true, true, "a v1 (/w)"),
        "warning: (!cap_lints_allow)=false differs from is_path=true for id=a v1 (/w)"
    );
    assert_eq!(
        mismatch_warning(true, false, false, "b"),
        "\u{1b}[1;33mwarning:\u{1b}[0m (!cap_lints_allow)=true differs from is_path=false for id=b"
    );
}

fn unit(pkg: u64, cap: bool) -> cargo_udeps::cmdline::CmdInfo {
    let mut args: Vec<String> =
        ["--crate-name", "u", "-C", "extra-filename=-1", "--out-dir", "/t"]
            .iter()
            .map(|w| w.to_string())
            .collect();
    if cap {
        args.extend(["--cap-lints".to_string(), "allow".to_string()]);
    }
    cmd_info(pkg, false, &args).unwrap()
}

#[test]
fn record_unit_keeps_units_and_decides() {
    let mut data = ExecData::new(false, vec![1, 2]);
    assert!(data.is_member(2));
    assert!(!data.is_member(3));
    assert!(data.force_rebuild(1));
    assert!(!data.force_rebuild(7));

    let decision = data.record_unit(unit(1, false), true, "one");
    assert!(decision.is_workspace_member);
    assert_eq!(decision.warning, None);
    assert_eq!(
        decision.analysis_settings.as_deref(),
        Some(
            r#"{ "reachable_only": false, "full_docs": false, "pub_only": false, "distro_crate": false, "signatures": false, "borrow_data": false }"#
        )
    );

    let decision = data.record_unit(unit(7, true), false, "seven");
    assert!(!decision.is_workspace_member);
    assert_eq!(decision.warning, None);
    assert_eq!(decision.analysis_settings, None);

    let decision = data.record_unit(unit(8, true), true, "eight");
    assert_eq!(
        decision.warning.as_deref(),
        Some("warning: (!cap_lints_allow)=false differs from is_path=true for id=eight")
    );
    let decision = data.record_unit(unit(9, false), false, "nine");
    assert_eq!(
        decision.warning.as_deref(),
        Some("warning: (!cap_lints_allow)=true differs from is_path=false for id=nine")
    );

    assert_eq!(data.all_cmd_infos.iter().map(|u| u.pkg).collect::<Vec<_>>(), [1, 7, 8, 9]);
    assert_eq!(data.relevant_cmd_infos.iter().map(|u| u.pkg).collect::<Vec<_>>(), [1]);
    assert!(!data.supports_color);
    assert_eq!(data.workspace_members, [1, 2]);
}

#[test]
fn options_are_read_from_their_names() {
    assert_eq!(OutputKind::from_str("human"), Ok(OutputKind::Human));
    assert_eq!(OutputKind::from_str("json"), Ok(OutputKind::Json));
    assert_eq!(
        OutputKind::from_str("Human"),
        Err(r#"expected "human" or "json" (you should not see this message)"#)
    );
    assert_eq!(Backend::from_str("depinfo"), Ok(Backend::Depinfo));
    assert_eq!(
        Backend::from_str("save-analysis"),
        Err(r#"expected "depinfo" (you should not see this message)"#)
    );
}

#[test]
fn only_the_test_profile_is_known() {
    assert_eq!(test_mode(None).unwrap(), false);
    assert_eq!(test_mode(Some("test")).unwrap(), true);
    let err = test_mode(Some("release")).unwrap_err();
    assert_eq!(err.profile, "release");
    assert_eq!(
        err.message(),
        "unknown profile: `release`, only `test` is currently supported"
    );
}

#[test]
fn verbosity_is_capped_at_two() {
    assert_eq!(verbosity(0), 0);
    assert_eq!(verbosity(1), 1);
    assert_eq!(verbosity(2), 2);
    assert_eq!(verbosity(3), 2);
    assert_eq!(verbosity(255), 2);
}
