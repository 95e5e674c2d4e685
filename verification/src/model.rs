//! The mathematical model of the pagination pass.
//!
//! Every function here is specification-level and mirrors one step of the
//! executable page breaker exactly; `paginate` proves that its result equals
//! [`paginate_v`] applied to the views of its inputs. Pagination is thereby
//! a pure function of (elements, configuration), which is the engine's
//! determinism contract: the only field outside the model is the opaque
//! timing statistic.

use vstd::prelude::*;

use crate::sat_add_v;
use crate::sat_sub_v;
use crate::config::PageConfigV;
use crate::config::style_for_v;
use crate::continuation::split_action_v;
use crate::continuation::split_dialogue_v;
use crate::element::Element;
use crate::element::ElementType;
use crate::element::ElementV;
use crate::line_calculator::LineCalculationV;
use crate::line_calculator::calc_of_v;
use crate::page::LineRangeV;
use crate::page::PageElementV;
use crate::page::PageIdentifier;
use crate::page::PageV;
use crate::page::inc_page_number_v;
use crate::page::page_new_v;
use crate::result::ElementPositionV;
use crate::result::PaginationResultV;
use crate::result::PaginationStatsV;
use crate::result::PaginationWarningV;
use crate::result::WarningType;
use crate::text::dec_str_v;

verus! {

/// The views of a sequence of elements.
pub open spec fn elements_v(es: Seq<Element>) -> Seq<ElementV> {
    es.map_values(|e: Element| e@)
}

/// How the page breaker handles one element at a page boundary.
#[derive(Debug, Clone, Copy, PartialEq, Eq, Structural)]
pub enum BreakDecision {
    /// The element fits on the current page.
    Fits,

    /// Break the page before this element, pushing it to the next page.
    BreakBefore,

    /// Split the element at the given wrapped-line index.
    SplitAt { line: usize },
}

/// Mathematical model of the transient pagination state.
pub struct PaginationStateV {
    pub pages: Seq<PageV>,
    pub current_page: PageV,
    pub page_number: u32,
    pub element_positions: Map<Seq<char>, ElementPositionV>,
    pub warnings: Seq<PaginationWarningV>,
    pub break_count: nat,
    pub continuation_count: nat,
}

/// The state a pagination pass starts from: one empty page numbered 1.
pub open spec fn init_state_v() -> PaginationStateV {
    PaginationStateV {
        pages: Seq::<PageV>::empty(),
        current_page: page_new_v(PageIdentifier::Sequential(1)),
        page_number: 1,
        element_positions: Map::<Seq<char>, ElementPositionV>::empty(),
        warnings: Seq::<PaginationWarningV>::empty(),
        break_count: 0,
        continuation_count: 0,
    }
}

/// A page is at its start while nothing has consumed a line on it.
pub open spec fn at_page_start_v(s: PaginationStateV) -> bool {
    s.current_page.lines_used == 0
}

/// Lines still free on the current page.
pub open spec fn lines_remaining_v(s: PaginationStateV, lines_per_page: nat) -> nat {
    sat_sub_v(lines_per_page, s.current_page.lines_used)
}

/// Finalize the current page and open a fresh one under the next sequential
/// number.
pub open spec fn end_page_v(s: PaginationStateV) -> PaginationStateV {
    PaginationStateV {
        pages: s.pages.push(s.current_page),
        current_page: page_new_v(PageIdentifier::Sequential(inc_page_number_v(s.page_number))),
        page_number: inc_page_number_v(s.page_number),
        break_count: sat_add_v(s.break_count, 1),
        ..s
    }
}

/// Place a whole element on the current page and record its position.
pub open spec fn add_element_v(
    s: PaginationStateV,
    e: ElementV,
    calc: LineCalculationV,
    at_page_start: bool,
) -> PaginationStateV {
    let space_before: nat = if at_page_start {
        0
    } else {
        calc.space_before
    };
    let start_line = sat_add_v(sat_add_v(s.current_page.lines_used, space_before), 1);
    let placement = PageElementV {
        element_id: e.id,
        start_line,
        line_count: calc.content_lines,
        is_continuation: false,
        line_range: None,
        continuation_prefix: None,
    };
    let current = PageV {
        elements: s.current_page.elements.push(placement),
        lines_used: sat_add_v(s.current_page.lines_used, sat_add_v(space_before, calc.total_lines)),
        ..s.current_page
    };
    let position = ElementPositionV {
        pages: seq![s.current_page.identifier],
        start_line,
        end_line: sat_sub_v(sat_add_v(start_line, calc.content_lines), 1),
        is_split: false,
    };
    PaginationStateV {
        current_page: current,
        element_positions: s.element_positions.insert(e.id, position),
        ..s
    }
}

/// Place the first half of a split element, and the MORE marker when one was
/// produced.
pub open spec fn add_split_first_v(
    s: PaginationStateV,
    e: ElementV,
    first_lines: nat,
    more_marker: Option<Seq<char>>,
    at_page_start: bool,
    space_before: nat,
) -> PaginationStateV {
    let actual_space: nat = if at_page_start {
        0
    } else {
        space_before
    };
    let start_line = sat_add_v(sat_add_v(s.current_page.lines_used, actual_space), 1);
    let placement = PageElementV {
        element_id: e.id,
        start_line,
        line_count: first_lines,
        is_continuation: false,
        line_range: Some(LineRangeV { start: 0, end: first_lines }),
        continuation_prefix: None,
    };
    let used = sat_add_v(s.current_page.lines_used, sat_add_v(actual_space, first_lines));
    let current = PageV {
        elements: s.current_page.elements.push(placement),
        lines_used: used,
        ..s.current_page
    };
    if more_marker is Some {
        PaginationStateV {
            current_page: PageV {
                bottom_continuation: more_marker,
                lines_used: sat_add_v(used, 1),
                ..current
            },
            continuation_count: sat_add_v(s.continuation_count, 1),
            ..s
        }
    } else {
        PaginationStateV { current_page: current, ..s }
    }
}

/// Place the second half of a split element on the (fresh) current page.
pub open spec fn add_split_second_v(
    s: PaginationStateV,
    e: ElementV,
    first_lines: nat,
    second_lines: nat,
    contd_prefix: Option<Seq<char>>,
) -> PaginationStateV {
    let extra: nat = if contd_prefix is Some {
        1
    } else {
        0
    };
    let placement = PageElementV {
        element_id: e.id,
        start_line: (1 + extra) as nat,
        line_count: second_lines,
        is_continuation: true,
        line_range: Some(
            LineRangeV { start: first_lines, end: sat_add_v(first_lines, second_lines) },
        ),
        continuation_prefix: contd_prefix,
    };
    PaginationStateV {
        current_page: PageV {
            elements: s.current_page.elements.push(placement),
            lines_used: sat_add_v(extra, second_lines),
            ..s.current_page
        },
        ..s
    }
}

/// Record the position of a split element: both pages, split flag set.
pub open spec fn record_split_v(
    s: PaginationStateV,
    id: Seq<char>,
    first_page: PageIdentifier,
    second_page: PageIdentifier,
    start_line: nat,
    end_line: nat,
) -> PaginationStateV {
    PaginationStateV {
        element_positions: s.element_positions.insert(
            id,
            ElementPositionV { pages: seq![first_page, second_page], start_line, end_line, is_split: true },
        ),
        ..s
    }
}

/// Append a warning.
pub open spec fn add_warning_v(
    s: PaginationStateV,
    element_id: Option<Seq<char>>,
    warning_type: WarningType,
    message: Seq<char>,
) -> PaginationStateV {
    PaginationStateV {
        warnings: s.warnings.push(PaginationWarningV { element_id, warning_type, message }),
        ..s
    }
}

/// The text of an `ElementExceedsPage` warning.
pub open spec fn exceeds_message_v(total_lines: nat, lines_per_page: nat) -> Seq<char> {
    "Element requires "@ + dec_str_v(total_lines) + " lines but page only has "@ + dec_str_v(
        lines_per_page,
    ) + " lines"@
}

/// The left-to-right estimate of the lines needed by up to `remaining` more
/// elements starting at `j`: content lines only for the first, space-before
/// plus content lines for the rest, accumulated with saturation.
pub open spec fn estimate_follow_rec_v(
    elements: Seq<ElementV>,
    c: PageConfigV,
    j: int,
    remaining: nat,
    first: bool,
    acc: nat,
) -> nat
    decreases remaining,
{
    if remaining == 0 || j < 0 || j >= elements.len() {
        acc
    } else {
        let calc = calc_of_v(elements[j], c);
        let add: nat = if first {
            calc.content_lines
        } else {
            sat_add_v(calc.space_before, calc.content_lines)
        };
        estimate_follow_rec_v(
            elements,
            c,
            j + 1,
            (remaining - 1) as nat,
            false,
            sat_add_v(acc, add),
        )
    }
}

/// Estimated lines for the `count` elements following `start - 1`.
pub open spec fn estimate_following_v(
    elements: Seq<ElementV>,
    c: PageConfigV,
    start: int,
    count: nat,
) -> nat {
    estimate_follow_rec_v(elements, c, start, count, true, 0)
}

/// The page breaker's decision for the element at `idx`: fit it, push it to
/// the next page, or split it.
pub open spec fn decide_break_v(
    elements: Seq<ElementV>,
    idx: int,
    calc: LineCalculationV,
    total_needed: nat,
    remaining: nat,
    c: PageConfigV,
) -> BreakDecision {
    let e = elements[idx];
    let style = style_for_v(c.element_styles, e.element_type);
    if total_needed <= remaining {
        if style.keep_with_next && elements.len() - idx > 1 {
            let following = estimate_following_v(elements, c, idx + 1, style.keep_with_next_lines as nat);
            if sat_add_v(total_needed, following) > remaining {
                BreakDecision::BreakBefore
            } else {
                BreakDecision::Fits
            }
        } else {
            BreakDecision::Fits
        }
    } else {
        match e.element_type {
            ElementType::Dialogue => {
                if !style.can_split {
                    BreakDecision::BreakBefore
                } else {
                    let min_before = c.orphan_control.dialogue_min_before_split as nat;
                    let min_after = c.orphan_control.dialogue_min_after_split as nat;
                    let available = sat_sub_v(remaining, calc.space_before);
                    if available >= min_before && sat_sub_v(calc.content_lines, available)
                        >= min_after {
                        let split_line = sat_sub_v(available, 1);
                        if split_line >= min_before {
                            BreakDecision::SplitAt { line: split_line as usize }
                        } else {
                            BreakDecision::BreakBefore
                        }
                    } else {
                        BreakDecision::BreakBefore
                    }
                }
            },
            ElementType::Action => {
                if !style.can_split {
                    BreakDecision::BreakBefore
                } else {
                    let min_before = style.min_lines_before_split as nat;
                    let min_after = style.min_lines_after_split as nat;
                    let available = sat_sub_v(remaining, calc.space_before);
                    if available >= min_before && sat_sub_v(calc.content_lines, available)
                        >= min_after {
                        BreakDecision::SplitAt { line: available as usize }
                    } else {
                        BreakDecision::BreakBefore
                    }
                }
            },
            _ => BreakDecision::BreakBefore,
        }
    }
}

/// Apply a break decision to the state.
pub open spec fn apply_decision_v(
    elements: Seq<ElementV>,
    c: PageConfigV,
    s: PaginationStateV,
    idx: int,
    calc: LineCalculationV,
    decision: BreakDecision,
    space_before: nat,
) -> PaginationStateV {
    let e = elements[idx];
    match decision {
        BreakDecision::Fits => add_element_v(s, e, calc, at_page_start_v(s)),
        BreakDecision::BreakBefore => {
            let s1 = if !at_page_start_v(s) {
                end_page_v(s)
            } else {
                s
            };
            add_element_v(s1, e, calc, true)
        },
        BreakDecision::SplitAt { line } => {
            let split = if e.element_type == ElementType::Dialogue {
                split_dialogue_v(e, calc, line as nat, c.continuation_style)
            } else {
                split_action_v(calc, line as nat)
            };
            if split.first_part_lines > 0 && split.second_part_lines > 0 {
                let first_page = s.current_page.identifier;
                let start_line = sat_add_v(sat_add_v(s.current_page.lines_used, space_before), 1);
                let s1 = add_split_first_v(
                    s,
                    e,
                    split.first_part_lines,
                    split.more_marker,
                    at_page_start_v(s),
                    calc.space_before,
                );
                let s2 = end_page_v(s1);
                let second_page = s2.current_page.identifier;
                let s3 = add_split_second_v(
                    s2,
                    e,
                    split.first_part_lines,
                    split.second_part_lines,
                    split.contd_prefix,
                );
                let extra: nat = if split.contd_prefix is Some {
                    1
                } else {
                    0
                };
                record_split_v(
                    s3,
                    e.id,
                    first_page,
                    second_page,
                    start_line,
                    sat_add_v(extra, split.second_part_lines),
                )
            } else {
                let s1 = if !at_page_start_v(s) {
                    end_page_v(s)
                } else {
                    s
                };
                add_element_v(s1, e, calc, true)
            }
        },
    }
}

/// One full step of the pagination pass: handle the element at `idx`.
pub open spec fn step_v(
    elements: Seq<ElementV>,
    c: PageConfigV,
    s: PaginationStateV,
    idx: int,
) -> PaginationStateV {
    let e = elements[idx];
    if e.element_type == ElementType::PageBreak {
        if !at_page_start_v(s) {
            end_page_v(s)
        } else {
            s
        }
    } else {
        let calc = calc_of_v(e, c);
        let space_before: nat = if at_page_start_v(s) {
            0
        } else {
            calc.space_before
        };
        let total_needed = sat_add_v(space_before, calc.total_lines);
        let remaining = lines_remaining_v(s, c.lines_per_page as nat);
        let decision = decide_break_v(elements, idx, calc, total_needed, remaining, c);
        let s1 = apply_decision_v(elements, c, s, idx, calc, decision, space_before);
        let s2 = if e.force_page_break_after && !at_page_start_v(s1) {
            end_page_v(s1)
        } else {
            s1
        };
        if calc.total_lines > c.lines_per_page as nat {
            add_warning_v(
                s2,
                Some(e.id),
                WarningType::ElementExceedsPage,
                exceeds_message_v(calc.total_lines, c.lines_per_page as nat),
            )
        } else {
            s2
        }
    }
}

/// The state after the first `n` elements have been processed.
pub open spec fn run_v(elements: Seq<ElementV>, c: PageConfigV, n: int) -> PaginationStateV
    decreases n,
{
    if n <= 0 {
        init_state_v()
    } else {
        step_v(elements, c, run_v(elements, c, n - 1), n - 1)
    }
}

/// Turn the final state into a result: the current page joins the output iff
/// it holds a placement.
pub open spec fn finalize_v(s: PaginationStateV, element_count: nat) -> PaginationResultV {
    let pages = if s.current_page.elements.len() > 0 {
        s.pages.push(s.current_page)
    } else {
        s.pages
    };
    PaginationResultV {
        pages,
        element_positions: s.element_positions,
        warnings: s.warnings,
        stats: PaginationStatsV {
            page_count: pages.len(),
            element_count,
            break_count: s.break_count,
            continuation_count: s.continuation_count,
        },
    }
}

/// The whole pagination pass as a pure function of its inputs.
pub open spec fn paginate_v(elements: Seq<ElementV>, c: PageConfigV) -> PaginationResultV {
    finalize_v(run_v(elements, c, elements.len() as int), elements.len())
}

} // verus!
