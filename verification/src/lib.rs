//! A deterministic screenplay pagination engine.
//!
//! Given a linear sequence of typed screenplay elements and a page-format
//! configuration, the engine computes a page-by-page layout with exact line
//! placements, dialogue continuation markers (MORE / CONT'D), orphan and
//! widow control, and split bookkeeping for elements that cross a page
//! boundary. Pagination is a pure function of its inputs: equal inputs give
//! equal outputs, apart from an opaque timing statistic.

use vstd::prelude::*;

pub mod config;
pub mod continuation;
pub mod element;
pub mod laws;
pub mod line_calculator;
pub mod model;
pub mod page;
pub mod page_breaker;
pub mod result;
pub mod text;
pub mod wrap;

pub use config::ContinuationStyle;
pub use config::ElementStyle;
pub use config::OrphanControlConfig;
pub use config::PageConfig;
pub use config::PaperSize;
pub use config::StyleMap;
pub use continuation::ContinuationManager;
pub use continuation::SplitResult;
pub use element::DualDialoguePosition;
pub use element::Element;
pub use element::ElementId;
pub use element::ElementType;
pub use line_calculator::LineCalculation;
pub use line_calculator::LineCalculator;
pub use page::LineRange;
pub use page::Page;
pub use page::PageBreak;
pub use page::PageBreakReason;
pub use page::PageElement;
pub use page::PageIdentifier;
pub use page_breaker::PaginationState;
pub use page_breaker::paginate;
pub use result::ElementPosition;
pub use result::PaginationResult;
pub use result::PaginationStats;
pub use result::PaginationWarning;
pub use result::PositionMap;
pub use result::WarningType;

verus! {

/// A count clamped to the machine range: the in-band saturation used by the
/// page accounting, which never aborts on oversized inputs.
pub open spec fn clip_v(n: nat) -> nat {
    if n > usize::MAX {
        usize::MAX as nat
    } else {
        n
    }
}

/// Saturating addition on `usize`.
pub open spec fn sat_add_v(a: nat, b: nat) -> nat {
    clip_v(a + b)
}

/// Saturating subtraction: zero when the subtrahend is larger.
pub open spec fn sat_sub_v(a: nat, b: nat) -> nat {
    if a >= b {
        (a - b) as nat
    } else {
        0
    }
}

pub fn sat_add(a: usize, b: usize) -> (r: usize)
    ensures
        r as nat == sat_add_v(a as nat, b as nat),
{
    a.saturating_add(b)
}

pub fn sat_sub(a: usize, b: usize) -> (r: usize)
    ensures
        r as nat == sat_sub_v(a as nat, b as nat),
{
    a.saturating_sub(b)
}

/// The total lines an element needs, from a full line calculation: the
/// auxiliary query of the engine, useful for previews.
pub fn calculate_element_lines(element: &element::Element, config: &config::PageConfig) -> (r:
    usize)
    ensures
        r as nat == line_calculator::calc_of_v(element@, config@).total_lines,
{
    let calculator = line_calculator::LineCalculator::new(config);
    let calculation = calculator.calculate(element);
    calculation.total_lines
}

} // verus!
