use cargo_udeps::depinfo::{
    clone_strings, parse_rustc_dep_info, select_prerequisites, DepInfo, DepInfoError,
};
use cargo_udeps::evidence::file_stems;

fn rule(target: &str, deps: &[&str]) -> (String, Vec<String>) {
    (target.to_string(), deps.iter().map(|d| d.to_string()).collect())
}

#[test]
fn parses_the_rules_of_a_listing() {
    let text = "/t/deps/foo-1.d: src/lib.rs /t/deps/libbar-2.rmeta\n\n/t/deps/libfoo-1.rmeta: src/lib.rs /t/deps/libbar-2.rmeta\n\nsrc/lib.rs:\n# env-dep:OUT_DIR=/t\n";
    assert_eq!(
        parse_rustc_dep_info(text).unwrap(),
        vec![
            rule("/t/deps/foo-1.d", &["src/lib.rs", "/t/deps/libbar-2.rmeta"]),
            rule("/t/deps/libfoo-1.rmeta", &["src/lib.rs", "/t/deps/libbar-2.rmeta"]),
        ]
    );
}

#[test]
fn a_backslash_joins_a_word_to_the_next() {
    let text = "out.d: my\\ file.rs a\\ b\\ c.rs plain.rs\r\n";
    assert_eq!(
        parse_rustc_dep_info(text).unwrap(),
        vec![rule("out.d", &["my file.rs", "a b c.rs", "plain.rs"])]
    );
}

#[test]
fn a_trailing_backslash_is_an_error() {
    let listing = parse_rustc_dep_info("ok.d: a.rs\nout.d: a.rs b\\\nlater.d: c.rs\n").unwrap();
    assert_eq!(
        listing,
        vec![rule("ok.d", &["a.rs"]), rule("out.d", &["a.rs", "b", "later.d:", "c.rs"])]
    );
    let err = parse_rustc_dep_info("ok.d: a.rs\nout.d: a.rs b\\").unwrap_err();
    assert_eq!(err, DepInfoError::TrailingBackslash);
    assert_eq!(err.message(), "malformed dep-info format, trailing \\");
    assert_eq!(
        parse_rustc_dep_info("out.d: a.rs b\\\n").unwrap_err(),
        DepInfoError::TrailingBackslash
    );
    assert_eq!(
        parse_rustc_dep_info("no rule \\").unwrap_err(),
        DepInfoError::TrailingBackslash
    );
    assert_eq!(
        parse_rustc_dep_info("out.d: a.rs b\\ \nnext.d: c").unwrap_err(),
        DepInfoError::TrailingBackslash
    );
}

#[test]
fn a_rule_goes_on_in_the_next_line() {
    assert_eq!(parse_rustc_dep_info("t: a \\\n b").unwrap(), vec![rule("t", &["a", "b"])]);
    assert_eq!(
        parse_rustc_dep_info("t: a\\\r\nb \\\n c\\ d\nu: e\n").unwrap(),
        vec![rule("t", &["a", "b", "c d"]), rule("u", &["e"])]
    );
    assert_eq!(
        parse_rustc_dep_info("t\\\n: a\nlone \\\nline\n").unwrap(),
        vec![rule("t ", &["a"])]
    );
}

#[test]
fn lines_without_a_colon_and_space_are_passed_over() {
    assert_eq!(parse_rustc_dep_info("").unwrap(), vec![]);
    assert_eq!(parse_rustc_dep_info("src/lib.rs:\nno rule here\n:x").unwrap(), vec![]);
    assert_eq!(
        parse_rustc_dep_info("a: b: c  \n: \nlast: x").unwrap(),
        vec![rule("a", &["b:", "c"]), rule("", &[]), rule("last", &["x"])]
    );
}

#[test]
fn select_prerequisites_takes_the_first_rule_of_that_name() {
    let rules = vec![rule("/x/a.d", &["1"]), rule("/y/b.d", &["2"]), rule("/z/b.d", &["3"])];
    let names =
        vec![Some("a.d".to_string()), Some("b.d".to_string()), Some("b.d".to_string())];
    assert_eq!(select_prerequisites(&rules, &names, "b.d"), ["2"]);
    assert_eq!(select_prerequisites(&rules, &names, "c.d"), Vec::<String>::new());
    let names = vec![None, None, Some("b.d".to_string())];
    assert_eq!(select_prerequisites(&rules, &names, "b.d"), ["3"]);
}

#[test]
fn deps_of_depfile_finds_the_listing_by_its_file_name() {
    let info = DepInfo {
        di: vec![
            rule("/t/deps/libfoo-1.rmeta", &["src/lib.rs"]),
            rule("/t/deps/foo-1.d", &["src/lib.rs", "/t/deps/libbar-2.rmeta", "/t/deps/.."]),
        ],
        f_name: "foo-1.d".to_string(),
    };
    assert_eq!(info.deps_of_depfile(), ["src/lib.rs", "/t/deps/libbar-2.rmeta", "/t/deps/.."]);
    assert_eq!(
        file_stems(&info),
        [Some("lib".to_string()), Some("libbar-2".to_string()), None]
    );
    let other = DepInfo { di: info.di, f_name: "/t/deps/foo-1.d".to_string() };
    assert_eq!(other.deps_of_depfile(), Vec::<String>::new());
}

#[test]
fn clone_strings_copies() {
    let items = vec!["a".to_string(), String::new(), "b c".to_string()];
    assert_eq!(clone_strings(&items), items);
}
