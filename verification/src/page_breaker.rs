//! The page breaker: a single forward pass over the elements that decides,
//! for each one, whether it fits on the current page, moves to the next
//! page, or splits across the boundary. The result is proved equal to the
//! mathematical model in [`crate::model`], which makes the pass a pure
//! function of its inputs.

use vstd::prelude::*;

use crate::sat_add;
use crate::sat_sub;
use crate::config::PageConfig;
use crate::continuation::ContinuationManager;
use crate::element::Element;
use crate::element::ElementId;
use crate::element::ElementType;
use crate::line_calculator::LineCalculation;
use crate::line_calculator::LineCalculator;
use crate::model::BreakDecision;
use crate::model::PaginationStateV;
use crate::model::add_element_v;
use crate::model::add_split_first_v;
use crate::model::add_split_second_v;
use crate::model::add_warning_v;
use crate::model::apply_decision_v;
use crate::model::at_page_start_v;
use crate::model::decide_break_v;
use crate::model::elements_v;
use crate::model::end_page_v;
use crate::model::estimate_follow_rec_v;
use crate::model::estimate_following_v;
use crate::model::exceeds_message_v;
use crate::model::finalize_v;
use crate::model::init_state_v;
use crate::model::lines_remaining_v;
use crate::model::paginate_v;
use crate::model::record_split_v;
use crate::model::run_v;
use crate::model::step_v;
use crate::page::LineRange;
use crate::page::Page;
use crate::page::PageBreakReason;
use crate::page::PageElement;
use crate::page::PageIdentifier;
use crate::page::PageV;
use crate::result::ElementPosition;
use crate::result::PaginationResult;
use crate::result::PaginationStats;
use crate::result::PaginationWarning;
use crate::result::PositionMap;
use crate::result::WarningType;
use crate::text::u64_string;

verus! {

#[verifier::external_type_specification]
#[verifier::external_body]
pub struct ExInstant(std::time::Instant);

/// Relies on std::time::Instant::now: an opaque monotonic clock reading.
/// Nothing is promised of it; timing is the engine's only non-deterministic
/// observable.
pub assume_specification[ std::time::Instant::now ]() -> std::time::Instant;

/// Relies on std::time::Instant::elapsed: the opaque duration since the
/// reading was taken.
pub assume_specification[ std::time::Instant::elapsed ](
    instant: &std::time::Instant,
) -> std::time::Duration;

/// Relies on core::time::Duration::as_micros: the duration in microseconds.
pub assume_specification[ core::time::Duration::as_micros ](
    duration: &core::time::Duration,
) -> u128;

/// Internal state during pagination.
pub struct PaginationState {
    pub pages: Vec<Page>,
    pub current_page: Page,
    pub page_number: u32,
    pub element_positions: PositionMap,
    pub warnings: Vec<PaginationWarning>,
    pub break_count: usize,
    pub continuation_count: usize,
}

impl View for PaginationState {
    type V = PaginationStateV;

    open spec fn view(&self) -> PaginationStateV {
        PaginationStateV {
            pages: self.pages@.map_values(|p: Page| p@),
            current_page: self.current_page@,
            page_number: self.page_number,
            element_positions: self.element_positions@,
            warnings: self.warnings@.map_values(|w: PaginationWarning| w@),
            break_count: self.break_count as nat,
            continuation_count: self.continuation_count as nat,
        }
    }
}

impl PaginationState {
    pub fn new() -> (r: Self)
        ensures
            r@ == init_state_v(),
    {
        let r = PaginationState {
            pages: Vec::new(),
            current_page: Page::new(PageIdentifier::Sequential(1)),
            page_number: 1,
            element_positions: PositionMap::new(),
            warnings: Vec::new(),
            break_count: 0,
            continuation_count: 0,
        };
        proof {
            assert(r@.pages =~= init_state_v().pages);
            assert(r@.warnings =~= init_state_v().warnings);
        }
        r
    }

    /// Lines still free on the current page.
    pub fn lines_remaining(&self, lines_per_page: usize) -> (r: usize)
        ensures
            r as nat == lines_remaining_v(self@, lines_per_page as nat),
    {
        sat_sub(lines_per_page, self.current_page.lines_used)
    }

    /// Whether nothing has consumed a line on the current page yet.
    pub fn at_page_start(&self) -> (r: bool)
        ensures
            r == at_page_start_v(self@),
    {
        self.current_page.lines_used == 0
    }

    /// Finalize the current page and open the next one.
    pub fn end_page(&mut self, _reason: PageBreakReason)
        ensures
            final(self)@ == end_page_v(old(self)@),
    {
        let next_number = if self.page_number == u32::MAX {
            self.page_number
        } else {
            self.page_number + 1
        };
        let mut finished = Page::new(PageIdentifier::Sequential(next_number));
        core::mem::swap(&mut self.current_page, &mut finished);
        self.pages.push(finished);
        self.page_number = next_number;
        self.break_count = sat_add(self.break_count, 1);
        proof {
            assert(self@.pages =~= end_page_v(old(self)@).pages);
        }
    }

    /// Place a whole element on the current page.
    pub fn add_element(
        &mut self,
        element: &Element,
        line_calc: &LineCalculation,
        at_page_start: bool,
    )
        ensures
            final(self)@ == add_element_v(old(self)@, element@, line_calc@, at_page_start),
    {
        let space_before: usize = if at_page_start {
            0
        } else {
            line_calc.space_before
        };
        let start_line = sat_add(sat_add(self.current_page.lines_used, space_before), 1);
        let placement = PageElement {
            element_id: ElementId::new(element.id.0.as_str()),
            start_line,
            line_count: line_calc.content_lines,
            is_continuation: false,
            line_range: None,
            continuation_prefix: None,
        };
        self.current_page.elements.push(placement);
        self.current_page.lines_used = sat_add(
            self.current_page.lines_used,
            sat_add(space_before, line_calc.total_lines),
        );
        let end_line = sat_sub(sat_add(start_line, line_calc.content_lines), 1);
        let mut pages_of: Vec<PageIdentifier> = Vec::new();
        pages_of.push(self.current_page.identifier);
        let position = ElementPosition { pages: pages_of, start_line, end_line, is_split: false };
        proof {
            assert(position@.pages =~= seq![old(self)@.current_page.identifier]);
        }
        self.element_positions.insert(element.id.0.as_str(), position);
        proof {
            assert(self@.current_page.elements =~= add_element_v(
                old(self)@,
                element@,
                line_calc@,
                at_page_start,
            ).current_page.elements);
        }
    }

    /// Place the first half of a split element, with its MORE marker.
    pub fn add_split_element_first_part(
        &mut self,
        element: &Element,
        first_lines: usize,
        more_marker: Option<String>,
        at_page_start: bool,
        space_before: usize,
    )
        ensures
            final(self)@ == add_split_first_v(
                old(self)@,
                element@,
                first_lines as nat,
                match more_marker {
                    Some(m) => Some(m@),
                    None => None,
                },
                at_page_start,
                space_before as nat,
            ),
    {
        let actual_space: usize = if at_page_start {
            0
        } else {
            space_before
        };
        let start_line = sat_add(sat_add(self.current_page.lines_used, actual_space), 1);
        let placement = PageElement {
            element_id: ElementId::new(element.id.0.as_str()),
            start_line,
            line_count: first_lines,
            is_continuation: false,
            line_range: Some(LineRange { start: 0, end: first_lines }),
            continuation_prefix: None,
        };
        self.current_page.elements.push(placement);
        self.current_page.lines_used = sat_add(
            self.current_page.lines_used,
            sat_add(actual_space, first_lines),
        );
        let ghost marker_view: Option<Seq<char>> = match more_marker {
            Some(ref m) => Some(m@),
            None => None,
        };
        let has_more = more_marker.is_some();
        if has_more {
            self.current_page.bottom_continuation = more_marker;
            self.current_page.lines_used = sat_add(self.current_page.lines_used, 1);
            self.continuation_count = sat_add(self.continuation_count, 1);
        }
        proof {
            let target = add_split_first_v(
                old(self)@,
                element@,
                first_lines as nat,
                marker_view,
                at_page_start,
                space_before as nat,
            );
            assert(self@.current_page.elements =~= target.current_page.elements);
        }
    }

    /// Place the second half of a split element on the fresh current page.
    pub fn add_split_element_second_part(
        &mut self,
        element: &Element,
        first_lines: usize,
        second_lines: usize,
        contd_prefix: Option<String>,
    )
        ensures
            final(self)@ == add_split_second_v(
                old(self)@,
                element@,
                first_lines as nat,
                second_lines as nat,
                match contd_prefix {
                    Some(p) => Some(p@),
                    None => None,
                },
            ),
    {
        let extra: usize = if contd_prefix.is_some() {
            1
        } else {
            0
        };
        let placement = PageElement {
            element_id: ElementId::new(element.id.0.as_str()),
            start_line: 1 + extra,
            line_count: second_lines,
            is_continuation: true,
            line_range: Some(LineRange { start: first_lines, end: sat_add(first_lines, second_lines) }),
            continuation_prefix: contd_prefix,
        };
        self.current_page.elements.push(placement);
        self.current_page.lines_used = sat_add(extra, second_lines);
        proof {
            let target = add_split_second_v(
                old(self)@,
                element@,
                first_lines as nat,
                second_lines as nat,
                placement@.continuation_prefix,
            );
            assert(self@.current_page.elements =~= target.current_page.elements);
        }
    }

    /// Record the two-page position of a split element.
    pub fn record_split_position(
        &mut self,
        element_id: &str,
        first_page: PageIdentifier,
        second_page: PageIdentifier,
        start_line: usize,
        end_line: usize,
    )
        ensures
            final(self)@ == record_split_v(
                old(self)@,
                element_id@,
                first_page,
                second_page,
                start_line as nat,
                end_line as nat,
            ),
    {
        let mut pages_of: Vec<PageIdentifier> = Vec::new();
        pages_of.push(first_page);
        pages_of.push(second_page);
        let position = ElementPosition { pages: pages_of, start_line, end_line, is_split: true };
        proof {
            assert(position@.pages =~= seq![first_page, second_page]);
        }
        self.element_positions.insert(element_id, position);
    }

    /// Append a warning to the result.
    pub fn add_warning(
        &mut self,
        element_id: Option<&ElementId>,
        warning_type: WarningType,
        message: String,
    )
        ensures
            final(self)@ == add_warning_v(
                old(self)@,
                match element_id {
                    Some(id) => Some(id@),
                    None => None,
                },
                warning_type,
                message@,
            ),
    {
        let owned_id: Option<ElementId> = match element_id {
            Some(id) => Some(ElementId::new(id.0.as_str())),
            None => None,
        };
        self.warnings.push(PaginationWarning { element_id: owned_id, warning_type, message });
        proof {
            let target = add_warning_v(
                old(self)@,
                match element_id {
                    Some(id) => Some(id@),
                    None => None,
                },
                warning_type,
                message@,
            );
            assert(self@.warnings =~= target.warnings);
        }
    }

    /// Consume the state into a result. The current page joins the output
    /// iff it holds at least one placement.
    pub fn finalize(self, timing_us: u64, element_count: usize) -> (r: PaginationResult)
        ensures
            r@ == finalize_v(self@, element_count as nat),
            r.stats.timing_us == timing_us,
    {
        let PaginationState {
            pages: mut pages,
            current_page,
            page_number: _,
            element_positions,
            warnings,
            break_count,
            continuation_count,
        } = self;
        let ghost sv = self@;
        if current_page.elements.len() > 0 {
            pages.push(current_page);
        }
        let page_count = pages.len();
        let r = PaginationResult {
            pages,
            element_positions,
            warnings,
            stats: PaginationStats {
                page_count,
                element_count,
                break_count,
                continuation_count,
                timing_us,
            },
        };
        proof {
            assert(r@.pages =~= finalize_v(sv, element_count as nat).pages);
            assert(r@.warnings =~= finalize_v(sv, element_count as nat).warnings);
        }
        r
    }
}

/// Estimate the lines needed by up to `count` elements starting at `start`:
/// the look-ahead for keep-with-next.
fn estimate_following_lines(
    config: &PageConfig,
    elements: &[Element],
    start: usize,
    count: usize,
) -> (r: usize)
    ensures
        r as nat == estimate_following_v(
            elements_v(elements@),
            config@,
            start as int,
            count as nat,
        ),
{
    let ghost ev = elements_v(elements@);
    let calc = LineCalculator::new(config);
    let mut total: usize = 0;
    let mut j: usize = start;
    let mut remaining: usize = count;
    let mut first = true;
    while remaining > 0 && j < elements.len()
        invariant
            calc@ == config@,
            ev == elements_v(elements@),
            start <= j,
            estimate_follow_rec_v(ev, config@, j as int, remaining as nat, first, total as nat)
                == estimate_following_v(ev, config@, start as int, count as nat),
        decreases remaining,
    {
        let lines = calc.calculate(&elements[j]);
        proof {
            assert(elements[j as int]@ == ev[j as int]);
        }
        let add: usize = if first {
            lines.content_lines
        } else {
            sat_add(lines.space_before, lines.content_lines)
        };
        total = sat_add(total, add);
        j = j + 1;
        remaining = remaining - 1;
        first = false;
    }
    total
}

/// Decide how to handle the element at `idx` against the space remaining on
/// the current page.
fn decide_break(
    elements: &[Element],
    idx: usize,
    lines: &LineCalculation,
    total_needed: usize,
    remaining: usize,
    config: &PageConfig,
) -> (r: BreakDecision)
    requires
        idx < elements@.len(),
    ensures
        r == decide_break_v(
            elements_v(elements@),
            idx as int,
            lines@,
            total_needed as nat,
            remaining as nat,
            config@,
        ),
{
    let ghost ev = elements_v(elements@);
    let element = &elements[idx];
    proof {
        assert(element@ == ev[idx as int]);
    }
    let style = config.style_for(element.element_type);
    if total_needed <= remaining {
        if style.keep_with_next && elements.len() - idx > 1 {
            let following = estimate_following_lines(
                config,
                elements,
                idx + 1,
                style.keep_with_next_lines,
            );
            if sat_add(total_needed, following) > remaining {
                return BreakDecision::BreakBefore;
            }
        }
        return BreakDecision::Fits;
    }
    let orphan = &config.orphan_control;
    match element.element_type {
        ElementType::Dialogue => {
            if !style.can_split {
                return BreakDecision::BreakBefore;
            }
            let min_before = orphan.dialogue_min_before_split;
            let min_after = orphan.dialogue_min_after_split;
            let available_for_content = sat_sub(remaining, lines.space_before);
            if available_for_content >= min_before && sat_sub(
                lines.content_lines,
                available_for_content,
            ) >= min_after {
                let split_line = sat_sub(available_for_content, 1);
                if split_line >= min_before {
                    return BreakDecision::SplitAt { line: split_line };
                }
            }
            BreakDecision::BreakBefore
        },
        ElementType::Action => {
            if !style.can_split {
                return BreakDecision::BreakBefore;
            }
            let min_before = style.min_lines_before_split;
            let min_after = style.min_lines_after_split;
            let available_for_content = sat_sub(remaining, lines.space_before);
            if available_for_content >= min_before && sat_sub(
                lines.content_lines,
                available_for_content,
            ) >= min_after {
                return BreakDecision::SplitAt { line: available_for_content };
            }
            BreakDecision::BreakBefore
        },
        _ => BreakDecision::BreakBefore,
    }
}

/// Build the text of an `ElementExceedsPage` warning.
fn exceeds_message(total_lines: usize, lines_per_page: usize) -> (r: String)
    ensures
        r@ == exceeds_message_v(total_lines as nat, lines_per_page as nat),
{
    let mut s = "Element requires ".to_owned();
    s.append(u64_string(total_lines as u64).as_str());
    s.append(" lines but page only has ");
    s.append(u64_string(lines_per_page as u64).as_str());
    s.append(" lines");
    s
}

/// Paginate a sequence of elements under a configuration: the core
/// operation of the engine. Pure and total: the result equals the
/// mathematical model of the pass on the views of the inputs, so equal
/// inputs give equal results (`timing_us` aside, which is opaque).
pub fn paginate(elements: &[Element], config: &PageConfig) -> (r: PaginationResult)
    ensures
        r@ == paginate_v(elements_v(elements@), config@),
{
    let start_time = std::time::Instant::now();
    let ghost ev = elements_v(elements@);
    let ghost cv = config@;

    let line_calc = LineCalculator::new(config);
    let continuation_mgr = ContinuationManager::new(config);

    let mut state = PaginationState::new();
    let element_count = elements.len();

    let mut i: usize = 0;
    while i < elements.len()
        invariant
            ev == elements_v(elements@),
            cv == config@,
            line_calc@ == cv,
            continuation_mgr@ == cv,
            0 <= i <= elements@.len(),
            state@ == run_v(ev, cv, i as int),
        decreases elements@.len() - i,
    {
        let ghost s0 = state@;
        let element = &elements[i];
        proof {
            assert(element@ == ev[i as int]);
        }
        if element.element_type == ElementType::PageBreak {
            if !state.at_page_start() {
                state.end_page(PageBreakReason::Forced);
            }
        } else {
            let lines = line_calc.calculate(element);
            let at_start = state.at_page_start();
            let space_before: usize = if at_start {
                0
            } else {
                lines.space_before
            };
            let total_needed = sat_add(space_before, lines.total_lines);
            let remaining = state.lines_remaining(config.lines_per_page);
            let decision = decide_break(elements, i, &lines, total_needed, remaining, config);
            match decision {
                BreakDecision::Fits => {
                    let aps = state.at_page_start();
                    state.add_element(element, &lines, aps);
                },
                BreakDecision::BreakBefore => {
                    if !state.at_page_start() {
                        state.end_page(PageBreakReason::OrphanPrevention);
                    }
                    state.add_element(element, &lines, true);
                },
                BreakDecision::SplitAt { line } => {
                    let at_page_start = state.at_page_start();
                    let split = if element.element_type == ElementType::Dialogue {
                        continuation_mgr.split_dialogue(element, &lines, line)
                    } else {
                        continuation_mgr.split_action(&lines, line)
                    };
                    let ghost sv = split@;
                    if split.first_part_lines > 0 && split.second_part_lines > 0 {
                        let first_page = state.current_page.identifier;
                        let start_line = sat_add(
                            sat_add(state.current_page.lines_used, space_before),
                            1,
                        );
                        let extra: usize = if split.contd_prefix.is_some() {
                            1
                        } else {
                            0
                        };
                        let SplitResultParts {
                            first_part_lines,
                            second_part_lines,
                            more_marker,
                            contd_prefix,
                        } = split_parts(split);
                        state.add_split_element_first_part(
                            element,
                            first_part_lines,
                            more_marker,
                            at_page_start,
                            lines.space_before,
                        );
                        state.end_page(PageBreakReason::DialogueContinuation);
                        let second_page = state.current_page.identifier;
                        state.add_split_element_second_part(
                            element,
                            first_part_lines,
                            second_part_lines,
                            contd_prefix,
                        );
                        let end_line = sat_add(extra, second_part_lines);
                        state.record_split_position(
                            element.id.0.as_str(),
                            first_page,
                            second_page,
                            start_line,
                            end_line,
                        );
                        proof {
                            assert(state@ == apply_decision_v(
                                ev,
                                cv,
                                s0,
                                i as int,
                                lines@,
                                decision,
                                space_before as nat,
                            ));
                        }
                    } else {
                        if !state.at_page_start() {
                            state.end_page(PageBreakReason::OrphanPrevention);
                        }
                        state.add_element(element, &lines, true);
                    }
                },
            }
            proof {
                assert(state@ == apply_decision_v(
                    ev,
                    cv,
                    s0,
                    i as int,
                    lines@,
                    decision,
                    space_before as nat,
                ));
            }
            if element.force_page_break_after && !state.at_page_start() {
                state.end_page(PageBreakReason::Forced);
            }
            if lines.total_lines > config.lines_per_page {
                let message = exceeds_message(lines.total_lines, config.lines_per_page);
                state.add_warning(Some(&element.id), WarningType::ElementExceedsPage, message);
            }
        }
        proof {
            assert(state@ == step_v(ev, cv, s0, i as int));
        }
        i = i + 1;
    }

    let micros = std::time::Instant::elapsed(&start_time).as_micros();
    let timing_us: u64 = if micros > u64::MAX as u128 {
        u64::MAX
    } else {
        micros as u64
    };
    let result = state.finalize(timing_us, element_count);
    proof {
        assert(result@ == paginate_v(ev, cv));
    }
    result
}

/// The fields of a split result that the page breaker consumes.
struct SplitResultParts {
    first_part_lines: usize,
    second_part_lines: usize,
    more_marker: Option<String>,
    contd_prefix: Option<String>,
}

fn split_parts(split: crate::continuation::SplitResult) -> (r: SplitResultParts)
    ensures
        r.first_part_lines as nat == split@.first_part_lines,
        r.second_part_lines as nat == split@.second_part_lines,
        (match r.more_marker {
            Some(m) => Some(m@),
            None => None,
        }) == split@.more_marker,
        (match r.contd_prefix {
            Some(p) => Some(p@),
            None => None,
        }) == split@.contd_prefix,
{
    let crate::continuation::SplitResult {
        first_part_lines,
        second_part_lines,
        first_part_content: _,
        second_part_content: _,
        more_marker,
        contd_prefix,
    } = split;
    SplitResultParts { first_part_lines, second_part_lines, more_marker, contd_prefix }
}

} // verus!
