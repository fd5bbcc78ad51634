//! The shape of the analysis record that a compiler run can leave beside a
//! unit's output: which crate was compiled, which external crates it saw, and
//! the definitions and references it recorded.

use std::cmp::Ordering;
use vstd::prelude::*;
use vstd::std_specs::cmp::PartialOrdSpecImpl;
use vstd::string::StringExecFns;

use crate::text::{compare, decimal, decimal_string, lex_rank, Rank};

verus! {

/// The pair of numbers that tells apart two crates of one name.
#[derive(Debug, Hash, PartialEq, Eq, Copy, Clone)]
pub struct CrateDisambiguator(pub u64, pub u64);

/// A crate as the compiler names it.
#[derive(Debug)]
pub struct CrateId {
    pub name: String,
    pub disambiguator: CrateDisambiguator,
}

/// An item, by the crate that holds it and its index there.
#[derive(Debug, Hash, PartialEq, Eq, Copy, Clone)]
pub struct ItemId<KrateId> {
    pub krate: KrateId,
    pub index: u32,
}

/// A stretch of source text.
#[derive(Debug, Clone, PartialEq, Eq, PartialOrd, Ord)]
pub struct Span {
    pub file_name: String,
    pub line_start: u32,
    pub line_end: u32,
    pub column_start: u32,
    pub column_end: u32,
}

/// The rank of one number relative to another.
pub open spec fn int_rank(a: int, b: int) -> Rank {
    if a < b {
        Rank::Before
    } else if a == b {
        Rank::Same
    } else {
        Rank::After
    }
}

/// `first`, unless it is a tie: then `second` decides.
pub open spec fn refine(first: Rank, second: Rank) -> Rank {
    if first == Rank::Same {
        second
    } else {
        first
    }
}

/// The rank of a number relative to another.
fn rank_u32(a: u32, b: u32) -> (rank: Rank)
    ensures
        rank == int_rank(a as int, b as int),
{
    if a < b {
        Rank::Before
    } else if a == b {
        Rank::Same
    } else {
        Rank::After
    }
}

impl Span {
    /// The text `file:line:column` of the place where the span starts.
    pub open spec fn display(self) -> Seq<char> {
        self.file_name@ + seq![':'] + decimal(self.line_start as nat) + seq![':'] + decimal(
            self.column_start as nat,
        )
    }

    /// The rank of this span relative to `other`: by file name, then by first
    /// line, last line, first column and last column.
    pub open spec fn rank(self, other: Span) -> Rank {
        refine(
            lex_rank(self.file_name@, other.file_name@),
            refine(
                int_rank(self.line_start as int, other.line_start as int),
                refine(
                    int_rank(self.line_end as int, other.line_end as int),
                    refine(
                        int_rank(self.column_start as int, other.column_start as int),
                        int_rank(self.column_end as int, other.column_end as int),
                    ),
                ),
            ),
        )
    }

    /// Obtains `file_name.rs:10:32` like format of the span.
    pub fn display_str(&self) -> (text: String)
        ensures
            text@ == self.display(),
    {
        proof {
            reveal_strlit(":");
        }
        let mut text = self.file_name.clone();
        text.append(":");
        text.append(decimal_string(self.line_start).as_str());
        text.append(":");
        text.append(decimal_string(self.column_start).as_str());
        assert(":"@ =~= seq![':']);
        text
    }

    /// Compares two spans field by field.
    pub fn compare(&self, other: &Span) -> (rank: Rank)
        ensures
            rank == self.rank(*other),
    {
        let by_file = compare(self.file_name.as_str(), other.file_name.as_str());
        if by_file != Rank::Same {
            return by_file;
        }
        let by_line_start = rank_u32(self.line_start, other.line_start);
        if by_line_start != Rank::Same {
            return by_line_start;
        }
        let by_line_end = rank_u32(self.line_end, other.line_end);
        if by_line_end != Rank::Same {
            return by_line_end;
        }
        let by_column_start = rank_u32(self.column_start, other.column_start);
        if by_column_start != Rank::Same {
            return by_column_start;
        }
        rank_u32(self.column_end, other.column_end)
    }
}

/// A crate that the compiled crate refers to.
#[derive(Debug)]
pub struct ExternalCrate {
    pub num: u32,
    pub id: CrateId,
}

/// The head of an analysis record: the crate itself and the crates it saw.
#[derive(Debug)]
pub struct Prelude {
    pub crate_id: CrateId,
    pub external_crates: Vec<ExternalCrate>,
}

/// A definition.
#[derive(Debug, PartialEq, Eq)]
pub struct Def<KrateId> {
    pub kind: String,
    pub name: String,
    pub id: ItemId<KrateId>,
    pub span: Span,
    pub parent: Option<ItemId<KrateId>>,
    pub decl_id: Option<ItemId<KrateId>>,
}

/// The standard ordering that a rank stands for.
pub open spec fn rank_ordering(rank: Rank) -> Ordering {
    match rank {
        Rank::Before => Ordering::Less,
        Rank::Same => Ordering::Equal,
        Rank::After => Ordering::Greater,
    }
}

impl<KrateId> Def<KrateId> {
    /// The rank of this definition relative to `other`: by span, then by name.
    pub open spec fn rank(self, other: Self) -> Rank {
        refine(self.span.rank(other.span), lex_rank(self.name@, other.name@))
    }

    /// Compares two definitions by span, then by name.
    pub fn compare(&self, other: &Self) -> (rank: Rank)
        ensures
            rank == self.rank(*other),
    {
        let by_span = self.span.compare(&other.span);
        if by_span != Rank::Same {
            return by_span;
        }
        compare(self.name.as_str(), other.name.as_str())
    }

    /// The ordering of two definitions: by span, then by name.
    pub fn cmp(&self, other: &Self) -> (ordering: Ordering)
        ensures
            ordering == rank_ordering(self.rank(*other)),
    {
        match self.compare(other) {
            Rank::Before => Ordering::Less,
            Rank::Same => Ordering::Equal,
            Rank::After => Ordering::Greater,
        }
    }
}

impl<KrateId: Eq> PartialOrd for Def<KrateId> {
    fn partial_cmp(&self, other: &Self) -> (ordering: Option<Ordering>) {
        Some(self.cmp(other))
    }
}

impl<KrateId: Eq> PartialOrdSpecImpl for Def<KrateId> {
    open spec fn obeys_partial_cmp_spec() -> bool {
        true
    }

    open spec fn partial_cmp_spec(&self, other: &Self) -> Option<Ordering> {
        Some(rank_ordering(self.rank(*other)))
    }
}

/// A reference to a definition.
#[derive(Debug)]
pub struct Ref<KrateId> {
    pub kind: String,
    pub ref_id: ItemId<KrateId>,
    pub span: Span,
}

/// Where the compiler ran.
#[derive(Debug)]
pub struct Compilation {
    pub directory: String,
}

/// A whole analysis record.
#[derive(Debug)]
pub struct CrateSaveAnalysis {
    pub compilation: Compilation,
    pub prelude: Prelude,
    pub defs: Vec<Def<u32>>,
    pub refs: Vec<Ref<u32>>,
}

/// The part of an analysis record that tells which crates were seen.
#[derive(Debug)]
pub struct CrateSaveAnalysisMetadata {
    pub compilation: Compilation,
    pub prelude: Prelude,
}

} // verus!
