use cargo_udeps::defs::{
    Compilation, CrateDisambiguator, CrateId, CrateSaveAnalysis, CrateSaveAnalysisMetadata, Def,
    ExternalCrate, ItemId, Prelude, Ref, Span,
};
use cargo_udeps::text::Rank;
use std::cmp::Ordering;

fn span(file: &str, line_start: u32, line_end: u32, column_start: u32, column_end: u32) -> Span {
    Span { file_name: file.to_string(), line_start, line_end, column_start, column_end }
}

fn def(name: &str, span: Span) -> Def<u32> {
    Def {
        kind: "Function".to_string(),
        name: name.to_string(),
        id: ItemId { krate: 0, index: 1 },
        span,
        parent: None,
        decl_id: Some(ItemId { krate: 0, index: 2 }),
    }
}

#[test]
fn display_str_gives_file_line_and_column() {
    assert_eq!(span("src/lib.rs", 10, 12, 32, 1).display_str(), "src/lib.rs:10:32");
    assert_eq!(span("", 0, 0, 0, 0).display_str(), ":0:0");
    assert_eq!(span("a b.rs", 4294967295, 0, 100, 0).display_str(), "a b.rs:4294967295:100");
}

#[test]
fn span_compare_agrees_with_the_derived_order() {
    let spans = [
        span("a.rs", 1, 1, 1, 1),
        span("a.rs", 1, 1, 1, 2),
        span("a.rs", 1, 1, 2, 0),
        span("a.rs", 1, 2, 0, 0),
        span("a.rs", 2, 0, 0, 0),
        span("b.rs", 0, 0, 0, 0),
        span("a", 9, 9, 9, 9),
    ];
    for a in &spans {
        for b in &spans {
            let expected = match a.cmp(b) {
                Ordering::Less => Rank::Before,
                Ordering::Equal => Rank::Same,
                Ordering::Greater => Rank::After,
            };
            assert_eq!(a.compare(b), expected);
        }
    }
}

#[test]
fn defs_are_ordered_by_span_then_name() {
    let a = def("zeta", span("a.rs", 1, 1, 1, 1));
    let b = def("alpha", span("a.rs", 1, 1, 1, 2));
    let c = def("beta", span("a.rs", 1, 1, 1, 2));
    assert_eq!(a.cmp(&b), Ordering::Less);
    assert_eq!(b.cmp(&a), Ordering::Greater);
    assert_eq!(b.cmp(&c), Ordering::Less);
    assert_eq!(c.cmp(&c), Ordering::Equal);
    assert_eq!(b.compare(&c), Rank::Before);
    assert_eq!(a.partial_cmp(&b), Some(Ordering::Less));
    assert!(a < b && b < c && !(c < b));
    assert!(c == def("beta", span("a.rs", 1, 1, 1, 2)));
}

#[test]
fn records_hold_their_parts() {
    let id = CrateId { name: "core".to_string(), disambiguator: CrateDisambiguator(1, 2) };
    assert_eq!(id.disambiguator, CrateDisambiguator(1, 2));
    let prelude = || Prelude {
        crate_id: CrateId { name: "me".to_string(), disambiguator: CrateDisambiguator(0, 0) },
        external_crates: vec![ExternalCrate {
            num: 1,
            id: CrateId { name: "core".to_string(), disambiguator: CrateDisambiguator(1, 2) },
        }],
    };
    let whole = CrateSaveAnalysis {
        compilation: Compilation { directory: "/w".to_string() },
        prelude: prelude(),
        defs: vec![def("f", span("a.rs", 1, 1, 1, 1))],
        refs: vec![Ref {
            kind: "Function".to_string(),
            ref_id: ItemId { krate: 1, index: 7 },
            span: span("a.rs", 2, 2, 1, 1),
        }],
    };
    let head = CrateSaveAnalysisMetadata {
        compilation: Compilation { directory: "/w".to_string() },
        prelude: prelude(),
    };
    assert_eq!(whole.prelude.external_crates[0].id.name, head.prelude.external_crates[0].id.name);
    assert_eq!(whole.refs[0].ref_id, ItemId { krate: 1, index: 7 });
    assert_eq!(whole.defs[0].name, "f");
    assert_eq!(head.compilation.directory, "/w");
}
