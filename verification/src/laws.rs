//! Global laws of the pagination pass, proved against the model in
//! [`crate::model`]. Since `paginate` returns exactly the model's result,
//! each law holds of every value the engine returns.

use vstd::prelude::*;

use crate::config::PageConfigV;
use crate::element::ElementType;
use crate::element::ElementV;
use crate::line_calculator::calc_of_v;
use crate::model::PaginationStateV;
use crate::model::at_page_start_v;
use crate::model::init_state_v;
use crate::model::paginate_v;
use crate::model::run_v;
use crate::model::step_v;
use crate::page::PageElementV;
use crate::page::PageIdentifier;
use crate::page::PageV;
use crate::result::PaginationResultV;

verus! {

/// The sum of the per-page line counts of a placement list.
pub open spec fn placement_line_sum(es: Seq<PageElementV>) -> nat
    decreases es.len(),
{
    if es.len() == 0 {
        0
    } else {
        placement_line_sum(es.drop_last()) + es.last().line_count
    }
}

/// The sum of the placement line counts over a list of pages.
pub open spec fn pages_line_sum(pages: Seq<PageV>) -> nat
    decreases pages.len(),
{
    if pages.len() == 0 {
        0
    } else {
        pages_line_sum(pages.drop_last()) + placement_line_sum(pages.last().elements)
    }
}

/// How many pages carry a bottom continuation marker.
pub open spec fn pages_continuations(pages: Seq<PageV>) -> nat
    decreases pages.len(),
{
    if pages.len() == 0 {
        0
    } else {
        pages_continuations(pages.drop_last()) + (if pages.last().bottom_continuation is Some {
            1nat
        } else {
            0nat
        })
    }
}

/// The content lines of the first `n` elements, page-break markers aside.
pub open spec fn content_sum(elements: Seq<ElementV>, c: PageConfigV, n: int) -> nat
    decreases n,
{
    if n <= 0 {
        0
    } else {
        content_sum(elements, c, n - 1) + (if elements[n - 1].element_type
            == ElementType::PageBreak {
            0nat
        } else {
            calc_of_v(elements[n - 1], c).content_lines
        })
    }
}

/// The ids of the non-page-break elements among the first `n`.
pub open spec fn processed_ids(elements: Seq<ElementV>, n: int) -> Set<Seq<char>> {
    Set::new(
        |id: Seq<char>|
            exists|i: int|
                0 <= i < n && elements[i].element_type != ElementType::PageBreak
                    && elements[i].id == id,
    )
}

/// The inductive invariant of the pagination pass after `n` elements.
pub open spec fn state_inv(
    elements: Seq<ElementV>,
    c: PageConfigV,
    n: int,
    s: PaginationStateV,
) -> bool {
    &&& s.current_page.bottom_continuation is None
    &&& s.current_page.lines_used > 0 ==> s.current_page.elements.len() >= 1
    &&& pages_line_sum(s.pages) + placement_line_sum(s.current_page.elements) == content_sum(
        elements,
        c,
        n,
    )
    &&& s.continuation_count == pages_continuations(s.pages)
    &&& s.continuation_count <= n
    &&& s.element_positions.dom() == processed_ids(elements, n)
    &&& forall|j: int| 0 <= j < s.pages.len() ==> #[trigger] s.pages[j].elements.len() >= 1
    &&& s.current_page.identifier == PageIdentifier::Sequential(s.page_number)
    &&& s.pages.len() <= 2 * n
    &&& s.page_number == clip_u32(s.pages.len() as int + 1)
    &&& forall|j: int|
        0 <= j < s.pages.len() ==> #[trigger] s.pages[j].identifier == PageIdentifier::Sequential(
            clip_u32(j + 1),
        )
}

/// A page number clamped to the 32-bit range.
pub open spec fn clip_u32(n: int) -> u32 {
    if n > u32::MAX {
        u32::MAX
    } else if n < 0 {
        0
    } else {
        n as u32
    }
}

proof fn lemma_inc_clip(n: int)
    requires
        n >= 1,
    ensures
        crate::page::inc_page_number_v(clip_u32(n)) == clip_u32(n + 1),
{
}

proof fn lemma_processed_step(elements: Seq<ElementV>, idx: int)
    requires
        0 <= idx < elements.len(),
    ensures
        elements[idx].element_type == ElementType::PageBreak ==> processed_ids(elements, idx + 1)
            =~= processed_ids(elements, idx),
        elements[idx].element_type != ElementType::PageBreak ==> processed_ids(elements, idx + 1)
            =~= processed_ids(elements, idx).insert(elements[idx].id),
{
    if elements[idx].element_type == ElementType::PageBreak {
        assert forall|id: Seq<char>| processed_ids(elements, idx + 1).contains(id)
            implies processed_ids(elements, idx).contains(id) by {
            let i = choose|i: int|
                0 <= i < idx + 1 && elements[i].element_type != ElementType::PageBreak
                    && elements[i].id == id;
            assert(i < idx);
            assert(0 <= i < idx && elements[i].element_type != ElementType::PageBreak
                && elements[i].id == id);
        }
    } else {
        assert forall|id: Seq<char>| processed_ids(elements, idx + 1).contains(id)
            implies processed_ids(elements, idx).insert(elements[idx].id).contains(id) by {
            let i = choose|i: int|
                0 <= i < idx + 1 && elements[i].element_type != ElementType::PageBreak
                    && elements[i].id == id;
            if i < idx {
                assert(processed_ids(elements, idx).contains(id));
            }
        }
        assert forall|id: Seq<char>|
            processed_ids(elements, idx).insert(elements[idx].id).contains(id)
            implies processed_ids(elements, idx + 1).contains(id) by {
            if id == elements[idx].id {
                assert(0 <= idx < idx + 1 && elements[idx].element_type
                    != ElementType::PageBreak && elements[idx].id == id);
            } else {
                let i = choose|i: int|
                    0 <= i < idx && elements[i].element_type != ElementType::PageBreak
                        && elements[i].id == id;
                assert(0 <= i < idx + 1 && elements[i].element_type != ElementType::PageBreak
                    && elements[i].id == id);
            }
        }
    }
}

proof fn lemma_push_sums(pages: Seq<PageV>, p: PageV)
    ensures
        pages_line_sum(pages.push(p)) == pages_line_sum(pages) + placement_line_sum(p.elements),
        pages_continuations(pages.push(p)) == pages_continuations(pages) + (
        if p.bottom_continuation is Some {
            1nat
        } else {
            0nat
        }),
{
    assert(pages.push(p).drop_last() =~= pages);
    assert(pages.push(p).last() == p);
}

proof fn lemma_placement_push(es: Seq<PageElementV>, p: PageElementV)
    ensures
        placement_line_sum(es.push(p)) == placement_line_sum(es) + p.line_count,
{
    assert(es.push(p).drop_last() =~= es);
    assert(es.push(p).last() == p);
}

#[verifier::rlimit(100)]
proof fn lemma_step_inv(elements: Seq<ElementV>, c: PageConfigV, idx: int, s: PaginationStateV)
    requires
        0 <= idx < elements.len(),
        elements.len() <= usize::MAX,
        state_inv(elements, c, idx, s),
    ensures
        state_inv(elements, c, idx + 1, step_v(elements, c, s, idx)),
{
    let e = elements[idx];
    lemma_processed_step(elements, idx);
    if e.element_type == ElementType::PageBreak {
        if !at_page_start_v(s) {
            lemma_push_sums(s.pages, s.current_page);
            lemma_inc_clip(s.pages.len() as int + 1);
        }
    } else {
        let calc = calc_of_v(e, c);
        let space_before: nat = if at_page_start_v(s) {
            0
        } else {
            calc.space_before
        };
        let total_needed = crate::sat_add_v(space_before, calc.total_lines);
        let remaining = crate::model::lines_remaining_v(s, c.lines_per_page as nat);
        let decision = crate::model::decide_break_v(
            elements,
            idx,
            calc,
            total_needed,
            remaining,
            c,
        );
        let s1 = crate::model::apply_decision_v(
            elements,
            c,
            s,
            idx,
            calc,
            decision,
            space_before,
        );
        match decision {
            crate::model::BreakDecision::Fits => {
                lemma_placement_push(
                    s.current_page.elements,
                    crate::model::add_element_v(
                        s,
                        e,
                        calc,
                        at_page_start_v(s),
                    ).current_page.elements.last(),
                );
                assert(s1.element_positions.dom() =~= processed_ids(elements, idx + 1));
            },
            crate::model::BreakDecision::BreakBefore => {
                let sm = if !at_page_start_v(s) {
                    crate::model::end_page_v(s)
                } else {
                    s
                };
                if !at_page_start_v(s) {
                    lemma_push_sums(s.pages, s.current_page);
                    lemma_inc_clip(s.pages.len() as int + 1);
                }
                lemma_placement_push(
                    sm.current_page.elements,
                    crate::model::add_element_v(sm, e, calc, true).current_page.elements.last(),
                );
                assert(s1.element_positions.dom() =~= processed_ids(elements, idx + 1));
            },
            crate::model::BreakDecision::SplitAt { line } => {
                let split = if e.element_type == ElementType::Dialogue {
                    crate::continuation::split_dialogue_v(e, calc, line as nat, c.continuation_style)
                } else {
                    crate::continuation::split_action_v(calc, line as nat)
                };
                assert(split.first_part_lines + split.second_part_lines == calc.content_lines) by {
                    let a = crate::continuation::split_index_v(calc.wrapped_lines, line as nat);
                    assert(calc.wrapped_lines.take(a).len() == a);
                    assert(calc.wrapped_lines.skip(a).len() == calc.wrapped_lines.len() - a);
                }
                if split.first_part_lines > 0 && split.second_part_lines > 0 {
                    let sa = crate::model::add_split_first_v(
                        s,
                        e,
                        split.first_part_lines,
                        split.more_marker,
                        at_page_start_v(s),
                        calc.space_before,
                    );
                    lemma_placement_push(s.current_page.elements, sa.current_page.elements.last());
                    let sb = crate::model::end_page_v(sa);
                    lemma_push_sums(sa.pages, sa.current_page);
                    lemma_inc_clip(sa.pages.len() as int + 1);
                    let sc = crate::model::add_split_second_v(
                        sb,
                        e,
                        split.first_part_lines,
                        split.second_part_lines,
                        split.contd_prefix,
                    );
                    lemma_placement_push(sb.current_page.elements, sc.current_page.elements.last());
                    assert(placement_line_sum(sb.current_page.elements) == 0);
                    assert(s1.element_positions.dom() =~= processed_ids(elements, idx + 1));
                } else {
                    let sm = if !at_page_start_v(s) {
                        crate::model::end_page_v(s)
                    } else {
                        s
                    };
                    if !at_page_start_v(s) {
                        lemma_push_sums(s.pages, s.current_page);
                        lemma_inc_clip(s.pages.len() as int + 1);
                    }
                    lemma_placement_push(
                        sm.current_page.elements,
                        crate::model::add_element_v(sm, e, calc, true).current_page.elements.last(),
                    );
                    assert(s1.element_positions.dom() =~= processed_ids(elements, idx + 1));
                }
            },
        }
        if e.force_page_break_after && !at_page_start_v(s1) {
            lemma_push_sums(s1.pages, s1.current_page);
            lemma_inc_clip(s1.pages.len() as int + 1);
        }
    }
}

/// The inductive invariant holds of every run prefix.
pub proof fn lemma_run_inv(elements: Seq<ElementV>, c: PageConfigV, n: int)
    requires
        0 <= n <= elements.len(),
        elements.len() <= usize::MAX,
    ensures
        state_inv(elements, c, n, run_v(elements, c, n)),
    decreases n,
{
    if n == 0 {
        assert(init_state_v().element_positions.dom() =~= processed_ids(elements, 0));
    } else {
        lemma_run_inv(elements, c, n - 1);
        lemma_step_inv(elements, c, n - 1, run_v(elements, c, n - 1));
    }
}

/// Line conservation: the placements of the result hold every content line
/// of every non-page-break element exactly once, and exactly the pages whose
/// final dialogue continues carry a bottom continuation marker, one per
/// counted continuation.
pub proof fn lemma_line_conservation(elements: Seq<ElementV>, c: PageConfigV)
    requires
        elements.len() <= usize::MAX,
    ensures
        pages_line_sum(paginate_v(elements, c).pages) == content_sum(
            elements,
            c,
            elements.len() as int,
        ),
        pages_continuations(paginate_v(elements, c).pages) == paginate_v(
            elements,
            c,
        ).stats.continuation_count,
{
    let n = elements.len() as int;
    lemma_run_inv(elements, c, n);
    let s = run_v(elements, c, n);
    if s.current_page.elements.len() > 0 {
        lemma_push_sums(s.pages, s.current_page);
    }
}

/// Position completeness: the result records a position for exactly the ids
/// of the non-page-break input elements, one entry per id. (A page-break
/// marker element is consumed by the pass and gets no position.)
pub proof fn lemma_positions_complete(elements: Seq<ElementV>, c: PageConfigV)
    requires
        elements.len() <= usize::MAX,
    ensures
        paginate_v(elements, c).element_positions.dom() == processed_ids(
            elements,
            elements.len() as int,
        ),
        forall|i: int|
            0 <= i < elements.len() && elements[i].element_type != ElementType::PageBreak
                ==> paginate_v(elements, c).element_positions.dom().contains(
                #[trigger] elements[i].id,
            ),
{
    let n = elements.len() as int;
    lemma_run_inv(elements, c, n);
    assert forall|i: int|
        0 <= i < elements.len() && elements[i].element_type != ElementType::PageBreak
        implies paginate_v(elements, c).element_positions.dom().contains(elements[i].id) by {
        assert(processed_ids(elements, n).contains(elements[i].id));
    }
}

/// An empty element list yields no pages, no positions, no warnings, and
/// zeroed statistics.
pub proof fn lemma_empty_input(c: PageConfigV)
    ensures
        paginate_v(Seq::<ElementV>::empty(), c).pages == Seq::<PageV>::empty(),
        paginate_v(Seq::<ElementV>::empty(), c).warnings.len() == 0,
        paginate_v(Seq::<ElementV>::empty(), c).element_positions.dom() =~= Set::<
            Seq<char>,
        >::empty(),
        paginate_v(Seq::<ElementV>::empty(), c).stats.page_count == 0,
{
    let r = paginate_v(Seq::<ElementV>::empty(), c);
    assert(run_v(Seq::<ElementV>::empty(), c, 0) == init_state_v());
}

/// A single element whose total lines fit on one page fills exactly one
/// page: one placement starting at line 1, not split, with no page breaks
/// and no warnings.
pub proof fn lemma_single_element_fits(e: ElementV, c: PageConfigV)
    requires
        e.element_type != ElementType::PageBreak,
        !e.force_page_break_after,
        calc_of_v(e, c).total_lines <= c.lines_per_page as nat,
    ensures
        paginate_v(seq![e], c).pages.len() == 1,
        paginate_v(seq![e], c).pages[0].elements.len() == 1,
        paginate_v(seq![e], c).pages[0].elements[0].start_line == 1,
        paginate_v(seq![e], c).pages[0].elements[0].element_id == e.id,
        paginate_v(seq![e], c).pages[0].elements[0].line_count == calc_of_v(e, c).content_lines,
        paginate_v(seq![e], c).pages[0].lines_used == calc_of_v(e, c).total_lines,
        paginate_v(seq![e], c).stats.break_count == 0,
        paginate_v(seq![e], c).stats.page_count == 1,
        paginate_v(seq![e], c).warnings.len() == 0,
        paginate_v(seq![e], c).element_positions.dom().contains(e.id),
        !paginate_v(seq![e], c).element_positions[e.id].is_split,
        paginate_v(seq![e], c).element_positions[e.id].pages.len() == 1,
        paginate_v(seq![e], c).element_positions[e.id].start_line == 1,
{
    let elements = seq![e];
    let s0 = run_v(elements, c, 0);
    assert(s0 == init_state_v());
    let s1 = step_v(elements, c, s0, 0);
    assert(run_v(elements, c, 1) == s1);
    let calc = calc_of_v(e, c);
    assert(crate::sat_add_v(0, calc.total_lines) == calc.total_lines);
    let r = paginate_v(elements, c);
    assert(r.pages.len() == 1);
    assert(r.pages[0].elements.len() == 1);
}

/// A single element whose total lines equal the page capacity exactly fills
/// the page and raises no warning.
pub proof fn lemma_single_element_exact_fill(e: ElementV, c: PageConfigV)
    requires
        e.element_type != ElementType::PageBreak,
        !e.force_page_break_after,
        calc_of_v(e, c).total_lines == c.lines_per_page as nat,
    ensures
        paginate_v(seq![e], c).pages.len() == 1,
        paginate_v(seq![e], c).pages[0].lines_used == c.lines_per_page as nat,
        paginate_v(seq![e], c).warnings.len() == 0,
{
    lemma_single_element_fits(e, c);
}

/// A single element needing more lines than a whole page raises exactly one
/// `ElementExceedsPage` warning, naming the element.
pub proof fn lemma_single_element_exceeds(e: ElementV, c: PageConfigV)
    requires
        e.element_type != ElementType::PageBreak,
        calc_of_v(e, c).total_lines > c.lines_per_page as nat,
    ensures
        paginate_v(seq![e], c).warnings.len() == 1,
        paginate_v(seq![e], c).warnings[0].warning_type
            == crate::result::WarningType::ElementExceedsPage,
        paginate_v(seq![e], c).warnings[0].element_id == Some(e.id),
{
    let elements = seq![e];
    let s0 = run_v(elements, c, 0);
    assert(s0 == init_state_v());
    let s1 = step_v(elements, c, s0, 0);
    assert(run_v(elements, c, 1) == s1);
    let calc = calc_of_v(e, c);
    let decision = crate::model::decide_break_v(
        elements,
        0,
        calc,
        crate::sat_add_v(0, calc.total_lines),
        crate::model::lines_remaining_v(s0, c.lines_per_page as nat),
        c,
    );
    let sa = crate::model::apply_decision_v(elements, c, s0, 0, calc, decision, 0);
    assert(sa.warnings == s0.warnings);
    let sb = if e.force_page_break_after && !at_page_start_v(sa) {
        crate::model::end_page_v(sa)
    } else {
        sa
    };
    assert(sb.warnings == s0.warnings);
    assert(s1.warnings =~= s0.warnings.push(s1.warnings.last()));
}

proof fn lemma_split_single_paragraph(text: Seq<char>)
    requires
        forall|i: int| 0 <= i < text.len() ==> text[i] != '\n',
    ensures
        crate::wrap::split_paragraphs_v(text) == seq![text],
    decreases text.len(),
{
    if text.len() == 0 {
        assert(text =~= Seq::<char>::empty());
        assert(crate::wrap::split_paragraphs_v(text) == seq![Seq::<char>::empty()]);
        assert(seq![Seq::<char>::empty()] =~= seq![text]);
    } else {
        lemma_split_single_paragraph(text.skip(1));
        let rest = crate::wrap::split_paragraphs_v(text.skip(1));
        assert(rest == seq![text.skip(1)]);
        assert(seq![text[0]] + rest[0] =~= text);
        assert(rest.skip(1) =~= Seq::<Seq<char>>::empty());
        assert(crate::wrap::split_paragraphs_v(text) =~= seq![text]);
    }
}

/// A single word longer than the character limit is hard-broken into
/// ceiling(length / limit) consecutive chunk lines.
pub proof fn lemma_long_word_break(w: Seq<char>, m: nat)
    requires
        m >= 1,
        w.len() > m,
        forall|i: int|
            0 <= i < w.len() ==> !crate::wrap::is_wrap_space_v(#[trigger] w[i]) && w[i] != '\n',
    ensures
        crate::wrap::wrap_text_v(w, m) == crate::wrap::chunks_v(w, m),
        crate::wrap::wrap_text_v(w, m).len() == (w.len() + m - 1) / (m as int),
{
    lemma_split_single_paragraph(w);
    crate::wrap::lemma_tokens_word(w, Seq::<char>::empty());
    assert(w + Seq::<char>::empty() =~= w);
    let toks = crate::wrap::tokens_v(w);
    assert(toks == seq![w] + crate::wrap::tokens_v(Seq::<char>::empty()));
    assert(toks =~= seq![w]);
    let chunks = crate::wrap::chunks_v(w, m);
    assert(crate::wrap::wrap_words_v(toks, m, 1, Seq::<char>::empty())
        == Seq::<Seq<char>>::empty());
    assert(crate::wrap::wrap_words_v(toks, m, 0, Seq::<char>::empty()) == chunks
        + Seq::<Seq<char>>::empty());
    assert(chunks + Seq::<Seq<char>>::empty() =~= chunks);
    assert(crate::wrap::wrap_paragraph_v(w, m) == chunks);
    let paras = crate::wrap::split_paragraphs_v(w);
    assert(crate::wrap::wrap_paras_v(paras, m, 1) == Seq::<Seq<char>>::empty());
    assert(crate::wrap::wrap_paras_v(paras, m, 0) =~= chunks);
    assert(chunks.len() >= 1);
    crate::wrap::lemma_chunks_len(w, m);
}

/// Every element's wrapped content fits the machine's count range. This
/// holds of every element that exists in memory: the executable wrapper
/// returns its lines in a vector, whose length is a `usize`.
pub open spec fn content_bounded(elements: Seq<ElementV>, c: PageConfigV) -> bool {
    forall|i: int|
        0 <= i < elements.len() ==> #[trigger] calc_of_v(elements[i], c).content_lines
            <= usize::MAX
}

/// Every element carries its own id.
pub open spec fn distinct_ids(elements: Seq<ElementV>) -> bool {
    forall|i: int, j: int|
        0 <= i < j < elements.len() ==> #[trigger] elements[i].id != #[trigger] elements[j].id
}

/// How many placements in a list carry a given element id.
pub open spec fn count_in_placements(es: Seq<PageElementV>, id: Seq<char>) -> nat
    decreases es.len(),
{
    if es.len() == 0 {
        0
    } else {
        count_in_placements(es.drop_last(), id) + (if es.last().element_id == id {
            1nat
        } else {
            0nat
        })
    }
}

/// How many placements over a list of pages carry a given element id.
pub open spec fn count_in_pages(pages: Seq<PageV>, id: Seq<char>) -> nat
    decreases pages.len(),
{
    if pages.len() == 0 {
        0
    } else {
        count_in_pages(pages.drop_last(), id) + count_in_placements(pages.last().elements, id)
    }
}

/// How many placements the whole state holds for an id, the open page
/// included.
pub open spec fn count_total(s: PaginationStateV, id: Seq<char>) -> nat {
    count_in_pages(s.pages, id) + count_in_placements(s.current_page.elements, id)
}

/// Some processed element with this id has the given content-line count.
pub open spec fn recorded_content(
    elements: Seq<ElementV>,
    c: PageConfigV,
    n: int,
    id: Seq<char>,
    total: nat,
) -> bool {
    exists|i: int|
        0 <= i < n && #[trigger] elements[i].id == id && elements[i].element_type
            != ElementType::PageBreak && calc_of_v(elements[i], c).content_lines == total
}

/// The placement shows a strict prefix of a processed dialogue's wrapped
/// lines: the shape of a split dialogue's first half.
pub open spec fn first_half_of_dialogue(
    elements: Seq<ElementV>,
    c: PageConfigV,
    n: int,
    p: PageElementV,
) -> bool {
    match p.line_range {
        Some(r) => exists|i: int|
            0 <= i < n && #[trigger] elements[i].id == p.element_id && elements[i].element_type
                == ElementType::Dialogue && r.end < calc_of_v(elements[i], c).content_lines,
        None => false,
    }
}

/// The placement is whole, or it ends exactly at its element's last content
/// line (the shape of a split's second half).
pub open spec fn placement_closed(
    elements: Seq<ElementV>,
    c: PageConfigV,
    n: int,
    p: PageElementV,
) -> bool {
    match p.line_range {
        None => true,
        Some(r) => recorded_content(elements, c, n, p.element_id, r.end),
    }
}

/// A finalized page carries a bottom continuation marker exactly when its
/// final placement is the first half of a split dialogue.
pub open spec fn page_marker_ok(
    elements: Seq<ElementV>,
    c: PageConfigV,
    n: int,
    page: PageV,
) -> bool {
    &&& page.elements.len() >= 1
    &&& (page.bottom_continuation is Some <==> first_half_of_dialogue(
        elements,
        c,
        n,
        page.elements.last(),
    ))
}

/// The two halves of a split element: consecutive line ranges tiling
/// `[0, content_lines)` exactly.
pub open spec fn split_halves_ok(
    elements: Seq<ElementV>,
    c: PageConfigV,
    n: int,
    first: PageElementV,
    second: PageElementV,
    id: Seq<char>,
) -> bool {
    &&& first.element_id == id
    &&& second.element_id == id
    &&& !first.is_continuation
    &&& second.is_continuation
    &&& first.line_count >= 1
    &&& second.line_count >= 1
    &&& match (first.line_range, second.line_range) {
        (Some(a), Some(b)) => {
            &&& a.start == 0
            &&& a.end == first.line_count
            &&& b.start == first.line_count
            &&& b.end == first.line_count + second.line_count
            &&& recorded_content(elements, c, n, id, b.end)
        },
        _ => false,
    }
}

/// The recorded pages of a split element sit at positions `j` and `j + 1`:
/// the first half ends page `j`, the second half opens the page after it
/// (which may still be the open page).
pub open spec fn split_at_index_ok(
    elements: Seq<ElementV>,
    c: PageConfigV,
    n: int,
    s: PaginationStateV,
    id: Seq<char>,
    j: int,
) -> bool {
    let pos = s.element_positions[id];
    &&& 0 <= j < s.pages.len()
    &&& s.pages[j].identifier == pos.pages[0]
    &&& s.pages[j].elements.len() >= 1
    &&& if j + 1 < s.pages.len() {
        &&& s.pages[j + 1].identifier == pos.pages[1]
        &&& s.pages[j + 1].elements.len() >= 1
        &&& split_halves_ok(
            elements,
            c,
            n,
            s.pages[j].elements.last(),
            s.pages[j + 1].elements[0],
            id,
        )
    } else {
        &&& s.current_page.identifier == pos.pages[1]
        &&& s.current_page.elements.len() >= 1
        &&& split_halves_ok(
            elements,
            c,
            n,
            s.pages[j].elements.last(),
            s.current_page.elements[0],
            id,
        )
    }
}

pub open spec fn split_location_ok(
    elements: Seq<ElementV>,
    c: PageConfigV,
    n: int,
    s: PaginationStateV,
    id: Seq<char>,
) -> bool {
    exists|j: int| #[trigger] split_at_index_ok(elements, c, n, s, id, j)
}

/// What the position index says of one recorded id.
pub open spec fn position_ok(
    elements: Seq<ElementV>,
    c: PageConfigV,
    n: int,
    s: PaginationStateV,
    id: Seq<char>,
) -> bool {
    let pos = s.element_positions[id];
    &&& pos.start_line >= 1
    &&& if pos.is_split {
        &&& pos.pages.len() == 2
        &&& count_total(s, id) == 2
        &&& split_location_ok(elements, c, n, s, id)
    } else {
        &&& pos.pages.len() == 1
        &&& count_total(s, id) == 1
    }
}

/// The structural invariant of the placements: each recorded id appears on
/// exactly one page (or two, when split, with tiling halves on consecutive
/// pages), unrecorded ids appear nowhere, every placement on the open page
/// is whole or a closing half, and every finalized page's marker agrees
/// with its final placement.
pub open spec fn placement_inv(
    elements: Seq<ElementV>,
    c: PageConfigV,
    n: int,
    s: PaginationStateV,
) -> bool {
    &&& forall|id: Seq<char>|
        s.element_positions.dom().contains(id) ==> #[trigger] position_ok(elements, c, n, s, id)
    &&& forall|id: Seq<char>|
        !s.element_positions.dom().contains(id) ==> #[trigger] count_total(s, id) == 0
    &&& forall|k: int|
        0 <= k < s.current_page.elements.len() ==> placement_closed(
            elements,
            c,
            n,
            #[trigger] s.current_page.elements[k],
        )
    &&& c.continuation_style.enabled ==> forall|j: int|
        0 <= j < s.pages.len() ==> page_marker_ok(elements, c, n, #[trigger] s.pages[j])
}

proof fn lemma_count_placement_push(es: Seq<PageElementV>, p: PageElementV)
    ensures
        forall|id: Seq<char>|
            #[trigger] count_in_placements(es.push(p), id) == count_in_placements(es, id) + (
            if p.element_id == id {
                1nat
            } else {
                0nat
            }),
{
    assert forall|id: Seq<char>|
        #[trigger] count_in_placements(es.push(p), id) == count_in_placements(es, id) + (
        if p.element_id == id {
            1nat
        } else {
            0nat
        }) by {
        assert(es.push(p).drop_last() =~= es);
        assert(es.push(p).last() == p);
    }
}

proof fn lemma_count_pages_push(pages: Seq<PageV>, p: PageV)
    ensures
        forall|id: Seq<char>|
            #[trigger] count_in_pages(pages.push(p), id) == count_in_pages(pages, id)
                + count_in_placements(p.elements, id),
{
    assert forall|id: Seq<char>|
        #[trigger] count_in_pages(pages.push(p), id) == count_in_pages(pages, id)
            + count_in_placements(p.elements, id) by {
        assert(pages.push(p).drop_last() =~= pages);
        assert(pages.push(p).last() == p);
    }
}

proof fn lemma_count_zero_placements(es: Seq<PageElementV>, id: Seq<char>)
    requires
        count_in_placements(es, id) == 0,
    ensures
        forall|k: int| 0 <= k < es.len() ==> (#[trigger] es[k]).element_id != id,
    decreases es.len(),
{
    if es.len() > 0 {
        lemma_count_zero_placements(es.drop_last(), id);
        assert forall|k: int| 0 <= k < es.len() implies (#[trigger] es[k]).element_id != id by {
            if k < es.len() - 1 {
                assert(es.drop_last()[k] == es[k]);
            } else {
                assert(es.last() == es[k]);
            }
        }
    }
}

proof fn lemma_count_zero_pages(pages: Seq<PageV>, id: Seq<char>)
    requires
        count_in_pages(pages, id) == 0,
    ensures
        forall|j: int, k: int|
            0 <= j < pages.len() && 0 <= k < pages[j].elements.len() ==> (#[trigger] pages[j].elements[k]).element_id != id,
    decreases pages.len(),
{
    if pages.len() > 0 {
        lemma_count_zero_pages(pages.drop_last(), id);
        lemma_count_zero_placements(pages.last().elements, id);
        assert forall|j: int, k: int|
            0 <= j < pages.len() && 0 <= k < pages[j].elements.len()
            implies (#[trigger] pages[j].elements[k]).element_id != id by {
            if j < pages.len() - 1 {
                assert(pages.drop_last()[j] == pages[j]);
            } else {
                assert(pages.last() == pages[j]);
            }
        }
    }
}

proof fn lemma_closed_not_open(
    elements: Seq<ElementV>,
    c: PageConfigV,
    n: int,
    p: PageElementV,
)
    requires
        distinct_ids(elements),
        n <= elements.len(),
        placement_closed(elements, c, n, p),
    ensures
        !first_half_of_dialogue(elements, c, n, p),
{
    match p.line_range {
        Some(r) => {
            if first_half_of_dialogue(elements, c, n, p) {
                let i = choose|i: int|
                    0 <= i < n && #[trigger] elements[i].id == p.element_id
                        && elements[i].element_type == ElementType::Dialogue && r.end < calc_of_v(
                        elements[i],
                        c,
                    ).content_lines;
                let i2 = choose|i2: int|
                    0 <= i2 < n && #[trigger] elements[i2].id == p.element_id
                        && elements[i2].element_type != ElementType::PageBreak && calc_of_v(
                        elements[i2],
                        c,
                    ).content_lines == r.end;
                assert(i == i2);
                assert(false);
            }
        },
        None => {},
    }
}

/// Predicates over the processed prefix are stable under one more element
/// whose id appears nowhere in the layout.
proof fn lemma_placement_inv_stable(
    elements: Seq<ElementV>,
    c: PageConfigV,
    idx: int,
    s: PaginationStateV,
)
    requires
        0 <= idx < elements.len(),
        distinct_ids(elements),
        placement_inv(elements, c, idx, s),
        count_total(s, elements[idx].id) == 0,
    ensures
        placement_inv(elements, c, idx + 1, s),
{
    let id0 = elements[idx].id;
    lemma_count_zero_pages(s.pages, id0);
    lemma_count_zero_placements(s.current_page.elements, id0);
    assert forall|id: Seq<char>| s.element_positions.dom().contains(id)
        implies #[trigger] position_ok(elements, c, idx + 1, s, id) by {
        assert(position_ok(elements, c, idx, s, id));
        let pos = s.element_positions[id];
        if pos.is_split {
            let j = choose|j: int| #[trigger] split_at_index_ok(elements, c, idx, s, id, j);
            assert(split_at_index_ok(elements, c, idx + 1, s, id, j)) by {
                if j + 1 < s.pages.len() {
                    let fh = s.pages[j].elements.last();
                    let sh = s.pages[j + 1].elements[0];
                    assert(recorded_content(elements, c, idx, id, sh.line_range->Some_0.end));
                    let i = choose|i: int|
                        0 <= i < idx && #[trigger] elements[i].id == id
                            && elements[i].element_type != ElementType::PageBreak && calc_of_v(
                            elements[i],
                            c,
                        ).content_lines == sh.line_range->Some_0.end;
                    assert(recorded_content(elements, c, idx + 1, id, sh.line_range->Some_0.end));
                } else {
                    let sh = s.current_page.elements[0];
                    assert(recorded_content(elements, c, idx, id, sh.line_range->Some_0.end));
                    let i = choose|i: int|
                        0 <= i < idx && #[trigger] elements[i].id == id
                            && elements[i].element_type != ElementType::PageBreak && calc_of_v(
                            elements[i],
                            c,
                        ).content_lines == sh.line_range->Some_0.end;
                    assert(recorded_content(elements, c, idx + 1, id, sh.line_range->Some_0.end));
                }
            }
            assert(split_location_ok(elements, c, idx + 1, s, id));
        }
    }
    assert forall|k: int| 0 <= k < s.current_page.elements.len() implies placement_closed(
        elements,
        c,
        idx + 1,
        #[trigger] s.current_page.elements[k],
    ) by {
        assert(placement_closed(elements, c, idx, s.current_page.elements[k]));
        match s.current_page.elements[k].line_range {
            Some(r) => {
                let i = choose|i: int|
                    0 <= i < idx && #[trigger] elements[i].id
                        == s.current_page.elements[k].element_id && elements[i].element_type
                        != ElementType::PageBreak && calc_of_v(elements[i], c).content_lines
                        == r.end;
                assert(recorded_content(
                    elements,
                    c,
                    idx + 1,
                    s.current_page.elements[k].element_id,
                    r.end,
                ));
            },
            None => {},
        }
    }
    if c.continuation_style.enabled {
    assert forall|j: int| 0 <= j < s.pages.len() implies page_marker_ok(
        elements,
        c,
        idx + 1,
        #[trigger] s.pages[j],
    ) by {
        assert(page_marker_ok(elements, c, idx, s.pages[j]));
        let last = s.pages[j].elements.last();
        if s.pages[j].bottom_continuation is Some {
            assert(first_half_of_dialogue(elements, c, idx, last));
            match last.line_range {
                Some(r) => {
                    let i = choose|i: int|
                        0 <= i < idx && #[trigger] elements[i].id == last.element_id
                            && elements[i].element_type == ElementType::Dialogue && r.end
                            < calc_of_v(elements[i], c).content_lines;
                    assert(first_half_of_dialogue(elements, c, idx + 1, last));
                },
                None => {
                    assert(false);
                },
            }
        } else {
            if first_half_of_dialogue(elements, c, idx + 1, last) {
                match last.line_range {
                    Some(r) => {
                        let i = choose|i: int|
                            0 <= i < idx + 1 && #[trigger] elements[i].id == last.element_id
                                && elements[i].element_type == ElementType::Dialogue && r.end
                                < calc_of_v(elements[i], c).content_lines;
                        if i == idx {
                            assert(last.element_id == id0);
                            assert(false);
                        } else {
                            assert(first_half_of_dialogue(elements, c, idx, last));
                            assert(false);
                        }
                    },
                    None => {
                        assert(false);
                    },
                }
            }
        }
    }
    }
}

proof fn lemma_place_end_page(elements: Seq<ElementV>, c: PageConfigV, n: int, s: PaginationStateV)
    requires
        forall|id: Seq<char>|
            s.element_positions.dom().contains(id) ==> #[trigger] position_ok(
                elements,
                c,
                n,
                s,
                id,
            ),
        forall|id: Seq<char>|
            !s.element_positions.dom().contains(id) ==> #[trigger] count_total(s, id) == 0,
        c.continuation_style.enabled ==> forall|j: int|
            0 <= j < s.pages.len() ==> page_marker_ok(elements, c, n, #[trigger] s.pages[j]),
        s.current_page.elements.len() >= 1,
        c.continuation_style.enabled ==> page_marker_ok(elements, c, n, s.current_page),
    ensures
        placement_inv(elements, c, n, crate::model::end_page_v(s)),
{
    let s2 = crate::model::end_page_v(s);
    lemma_count_pages_push(s.pages, s.current_page);
    assert(count_in_placements(s2.current_page.elements, Seq::<char>::empty()) == 0);
    assert forall|id: Seq<char>| #[trigger] count_total(s2, id) == count_total(s, id) by {
        assert(count_in_placements(s2.current_page.elements, id) == 0);
    }
    assert forall|id: Seq<char>| s2.element_positions.dom().contains(id)
        implies #[trigger] position_ok(elements, c, n, s2, id) by {
        assert(position_ok(elements, c, n, s, id));
        let pos = s.element_positions[id];
        if pos.is_split {
            let j = choose|j: int| #[trigger] split_at_index_ok(elements, c, n, s, id, j);
            assert(s2.pages[j] == s.pages[j]);
            if j + 1 < s.pages.len() {
                assert(s2.pages[j + 1] == s.pages[j + 1]);
            } else {
                assert(s2.pages[j + 1] == s.current_page);
            }
            assert(split_at_index_ok(elements, c, n, s2, id, j));
        }
    }
    if c.continuation_style.enabled {
        assert forall|j: int| 0 <= j < s2.pages.len() implies page_marker_ok(
            elements,
            c,
            n,
            #[trigger] s2.pages[j],
        ) by {
            if j < s.pages.len() {
                assert(s2.pages[j] == s.pages[j]);
            } else {
                assert(s2.pages[j] == s.current_page);
            }
        }
    }
}

proof fn lemma_place_add_element(
    elements: Seq<ElementV>,
    c: PageConfigV,
    idx: int,
    s: PaginationStateV,
    calc: crate::line_calculator::LineCalculationV,
    aps: bool,
)
    requires
        0 <= idx < elements.len(),
        placement_inv(elements, c, idx + 1, s),
        count_total(s, elements[idx].id) == 0,
    ensures
        placement_inv(
            elements,
            c,
            idx + 1,
            crate::model::add_element_v(s, elements[idx], calc, aps),
        ),
{
    let e = elements[idx];
    let s2 = crate::model::add_element_v(s, e, calc, aps);
    let placement = s2.current_page.elements.last();
    lemma_count_placement_push(s.current_page.elements, placement);
    assert(s2.current_page.elements == s.current_page.elements.push(placement));
    assert forall|id: Seq<char>|
        #[trigger] count_total(s2, id) == count_total(s, id) + (if id == e.id {
            1nat
        } else {
            0nat
        }) by {}
    if s.element_positions.dom().contains(e.id) {
        assert(position_ok(elements, c, idx + 1, s, e.id));
        assert(count_total(s, e.id) >= 1);
        assert(false);
    }
    assert forall|id: Seq<char>| s2.element_positions.dom().contains(id)
        implies #[trigger] position_ok(elements, c, idx + 1, s2, id) by {
        if id == e.id {
            assert(s2.element_positions[id].pages.len() == 1);
            assert(s2.element_positions[id].start_line >= 1);
            assert(count_total(s2, id) == 1);
        } else {
            assert(s.element_positions.dom().contains(id));
            assert(position_ok(elements, c, idx + 1, s, id));
            assert(s2.element_positions[id] == s.element_positions[id]);
            let pos = s.element_positions[id];
            if pos.is_split {
                let j = choose|j: int| #[trigger] split_at_index_ok(elements, c, idx + 1, s, id, j);
                if !(j + 1 < s.pages.len()) {
                    assert(s2.current_page.elements[0] == s.current_page.elements[0]);
                }
                assert(split_at_index_ok(elements, c, idx + 1, s2, id, j));
            }
        }
    }
    assert forall|k: int| 0 <= k < s2.current_page.elements.len() implies placement_closed(
        elements,
        c,
        idx + 1,
        #[trigger] s2.current_page.elements[k],
    ) by {
        if k < s.current_page.elements.len() {
            assert(s2.current_page.elements[k] == s.current_page.elements[k]);
        } else {
            assert(s2.current_page.elements[k] == placement);
        }
    }
}

#[verifier::rlimit(100)]
proof fn lemma_place_split(
    elements: Seq<ElementV>,
    c: PageConfigV,
    idx: int,
    s: PaginationStateV,
    calc: crate::line_calculator::LineCalculationV,
    line: usize,
    space_before: nat,
)
    requires
        0 <= idx < elements.len(),
        distinct_ids(elements),
        content_bounded(elements, c),
        calc == calc_of_v(elements[idx], c),
        elements[idx].element_type != ElementType::PageBreak,
        placement_inv(elements, c, idx + 1, s),
        count_total(s, elements[idx].id) == 0,
        s.current_page.bottom_continuation is None,
        ({
            let split = if elements[idx].element_type == ElementType::Dialogue {
                crate::continuation::split_dialogue_v(
                    elements[idx],
                    calc,
                    line as nat,
                    c.continuation_style,
                )
            } else {
                crate::continuation::split_action_v(calc, line as nat)
            };
            split.first_part_lines > 0 && split.second_part_lines > 0
        }),
    ensures
        placement_inv(
            elements,
            c,
            idx + 1,
            crate::model::apply_decision_v(
                elements,
                c,
                s,
                idx,
                calc,
                crate::model::BreakDecision::SplitAt { line },
                space_before,
            ),
        ),
{
    let e = elements[idx];
    let id0 = e.id;
    let split = if e.element_type == ElementType::Dialogue {
        crate::continuation::split_dialogue_v(e, calc, line as nat, c.continuation_style)
    } else {
        crate::continuation::split_action_v(calc, line as nat)
    };
    let k = split.first_part_lines;
    let m = split.second_part_lines;
    assert(k + m == calc.content_lines) by {
        let a = crate::continuation::split_index_v(calc.wrapped_lines, line as nat);
        assert(calc.wrapped_lines.take(a).len() == a);
        assert(calc.wrapped_lines.skip(a).len() == calc.wrapped_lines.len() - a);
    }
    assert(recorded_content(elements, c, idx + 1, id0, k + m)) by {
        assert(0 <= idx < idx + 1 && elements[idx].id == id0 && elements[idx].element_type
            != ElementType::PageBreak && calc_of_v(elements[idx], c).content_lines == k + m);
    }
    if s.element_positions.dom().contains(id0) {
        assert(position_ok(elements, c, idx + 1, s, id0));
        assert(count_total(s, id0) >= 1);
        assert(false);
    }

    // First half placed on the current page.
    let sa = crate::model::add_split_first_v(
        s,
        e,
        k,
        split.more_marker,
        crate::model::at_page_start_v(s),
        calc.space_before,
    );
    let fh = sa.current_page.elements.last();
    assert(sa.current_page.elements == s.current_page.elements.push(fh));
    lemma_count_placement_push(s.current_page.elements, fh);
    assert(fh.element_id == id0);
    assert(fh.line_count == k);
    assert(fh.line_range == Some(crate::page::LineRangeV { start: 0, end: k }));
    assert(!fh.is_continuation);
    assert(first_half_of_dialogue(elements, c, idx + 1, fh) <==> e.element_type
        == ElementType::Dialogue) by {
        if e.element_type == ElementType::Dialogue {
            assert(0 <= idx < idx + 1 && elements[idx].id == fh.element_id
                && elements[idx].element_type == ElementType::Dialogue
                && fh.line_range->Some_0.end < calc_of_v(elements[idx], c).content_lines);
        } else {
            if first_half_of_dialogue(elements, c, idx + 1, fh) {
                let i = choose|i: int|
                    0 <= i < idx + 1 && #[trigger] elements[i].id == fh.element_id
                        && elements[i].element_type == ElementType::Dialogue
                        && fh.line_range->Some_0.end < calc_of_v(elements[i], c).content_lines;
                assert(elements[i].id == elements[idx].id);
                assert(i == idx);
                assert(false);
            }
        }
    }
    if c.continuation_style.enabled {
        assert(sa.current_page.bottom_continuation is Some <==> e.element_type
            == ElementType::Dialogue);
        assert(page_marker_ok(elements, c, idx + 1, sa.current_page));
    }

    // The page holding the first half is finalized.
    let sb = crate::model::end_page_v(sa);
    lemma_count_pages_push(sa.pages, sa.current_page);
    assert forall|id: Seq<char>| #[trigger] count_total(sb, id) == count_total(sa, id) by {
        assert(count_in_placements(sb.current_page.elements, id) == 0);
    }
    let jn = s.pages.len() as int;
    assert(sb.pages[jn] == sa.current_page);

    // Second half placed on the fresh page.
    let sc = crate::model::add_split_second_v(sb, e, k, m, split.contd_prefix);
    let sh = sc.current_page.elements.last();
    assert(sc.current_page.elements == sb.current_page.elements.push(sh));
    assert(sc.current_page.elements.len() == 1);
    assert(sc.current_page.elements[0] == sh);
    lemma_count_placement_push(sb.current_page.elements, sh);
    assert(sh.element_id == id0);
    assert(sh.is_continuation);
    assert(sh.line_count == m);
    assert(sh.line_range == Some(
        crate::page::LineRangeV { start: k, end: crate::sat_add_v(k, m) },
    ));
    assert(crate::sat_add_v(k, m) == k + m) by {
        assert(calc_of_v(elements[idx], c).content_lines <= usize::MAX);
    }

    // The split position is recorded.
    let sd = crate::model::record_split_v(
        sc,
        id0,
        s.current_page.identifier,
        sb.current_page.identifier,
        crate::sat_add_v(crate::sat_add_v(s.current_page.lines_used, space_before), 1),
        crate::sat_add_v(
            if split.contd_prefix is Some {
                1nat
            } else {
                0nat
            },
            m,
        ),
    );
    assert(sd == crate::model::apply_decision_v(
        elements,
        c,
        s,
        idx,
        calc,
        crate::model::BreakDecision::SplitAt { line },
        space_before,
    ));

    assert(split_halves_ok(elements, c, idx + 1, fh, sh, id0));

    assert forall|id: Seq<char>|
        #[trigger] count_total(sd, id) == count_total(s, id) + (if id == id0 {
            2nat
        } else {
            0nat
        }) by {}

    assert forall|id: Seq<char>| sd.element_positions.dom().contains(id)
        implies #[trigger] position_ok(elements, c, idx + 1, sd, id) by {
        if id == id0 {
            let pos = sd.element_positions[id];
            assert(pos.is_split);
            assert(pos.pages.len() == 2);
            assert(pos.pages[0] == s.current_page.identifier);
            assert(pos.pages[1] == sb.current_page.identifier);
            assert(count_total(sd, id) == 2);
            assert(split_at_index_ok(elements, c, idx + 1, sd, id, jn)) by {
                assert(sd.pages[jn] == sa.current_page);
                assert(sd.pages[jn].elements.last() == fh);
                assert(sd.current_page.elements[0] == sh);
                assert(!(jn + 1 < sd.pages.len() as int));
            }
            assert(split_location_ok(elements, c, idx + 1, sd, id));
            assert(pos.start_line >= 1);
        } else {
            assert(s.element_positions.dom().contains(id));
            assert(position_ok(elements, c, idx + 1, s, id));
            assert(sd.element_positions[id] == s.element_positions[id]);
            let pos = s.element_positions[id];
            assert(count_total(sd, id) == count_total(s, id));
            if pos.is_split {
                let j = choose|j: int| #[trigger] split_at_index_ok(elements, c, idx + 1, s, id, j);
                assert(sd.pages[j] == s.pages[j]);
                if j + 1 < s.pages.len() {
                    assert(sd.pages[j + 1] == s.pages[j + 1]);
                    assert(split_at_index_ok(elements, c, idx + 1, sd, id, j));
                } else {
                    // The second half sat on the open page, which was just
                    // finalized with the new first half appended after it.
                    assert(sd.pages[j + 1] == sa.current_page);
                    assert(sa.current_page.elements[0] == s.current_page.elements[0]);
                    assert(sa.current_page.identifier == s.current_page.identifier);
                    assert(split_at_index_ok(elements, c, idx + 1, sd, id, j));
                }
            }
        }
    }
    if c.continuation_style.enabled {
        assert forall|j: int| 0 <= j < sd.pages.len() implies page_marker_ok(
            elements,
            c,
            idx + 1,
            #[trigger] sd.pages[j],
        ) by {
            if j < s.pages.len() {
                assert(sd.pages[j] == s.pages[j]);
            } else {
                assert(sd.pages[j] == sa.current_page);
            }
        }
    }
    assert forall|kk: int| 0 <= kk < sd.current_page.elements.len() implies placement_closed(
        elements,
        c,
        idx + 1,
        #[trigger] sd.current_page.elements[kk],
    ) by {
        assert(sd.current_page.elements[kk] == sh);
        assert(recorded_content(elements, c, idx + 1, id0, k + m));
    }
}

proof fn lemma_place_same_layout(
    elements: Seq<ElementV>,
    c: PageConfigV,
    n: int,
    s2: PaginationStateV,
    s3: PaginationStateV,
)
    requires
        s3.pages == s2.pages,
        s3.current_page == s2.current_page,
        s3.element_positions == s2.element_positions,
        placement_inv(elements, c, n, s2),
    ensures
        placement_inv(elements, c, n, s3),
{
    assert forall|id: Seq<char>| s3.element_positions.dom().contains(id)
        implies #[trigger] position_ok(elements, c, n, s3, id) by {
        assert(position_ok(elements, c, n, s2, id));
        assert(count_total(s3, id) == count_total(s2, id));
        if s2.element_positions[id].is_split {
            let j = choose|j: int| #[trigger] split_at_index_ok(elements, c, n, s2, id, j);
            assert(split_at_index_ok(elements, c, n, s3, id, j));
        }
    }
    assert forall|id: Seq<char>| !s3.element_positions.dom().contains(id)
        implies #[trigger] count_total(s3, id) == 0 by {
        assert(count_total(s3, id) == count_total(s2, id));
    }
}

#[verifier::rlimit(100)]
proof fn lemma_step_placement(
    elements: Seq<ElementV>,
    c: PageConfigV,
    idx: int,
    s: PaginationStateV,
)
    requires
        0 <= idx < elements.len(),
        elements.len() <= usize::MAX,
        distinct_ids(elements),
        content_bounded(elements, c),
        state_inv(elements, c, idx, s),
        placement_inv(elements, c, idx, s),
    ensures
        placement_inv(elements, c, idx + 1, step_v(elements, c, s, idx)),
{
    let e = elements[idx];
    let id0 = e.id;
    assert(!s.element_positions.dom().contains(id0)) by {
        if processed_ids(elements, idx).contains(id0) {
            let i = choose|i: int|
                0 <= i < idx && elements[i].element_type != ElementType::PageBreak
                    && elements[i].id == id0;
            assert(elements[i].id == elements[idx].id);
            assert(false);
        }
    }
    assert(count_total(s, id0) == 0);
    lemma_placement_inv_stable(elements, c, idx, s);
    let n1 = idx + 1;
    if e.element_type == ElementType::PageBreak {
        if !at_page_start_v(s) {
            assert(s.current_page.elements.len() >= 1);
            if c.continuation_style.enabled {
                assert(placement_closed(elements, c, n1, s.current_page.elements.last()));
                lemma_closed_not_open(elements, c, n1, s.current_page.elements.last());
            }
            lemma_place_end_page(elements, c, n1, s);
        }
    } else {
        let calc = calc_of_v(e, c);
        let space_before: nat = if at_page_start_v(s) {
            0
        } else {
            calc.space_before
        };
        let total_needed = crate::sat_add_v(space_before, calc.total_lines);
        let remaining = crate::model::lines_remaining_v(s, c.lines_per_page as nat);
        let decision = crate::model::decide_break_v(
            elements,
            idx,
            calc,
            total_needed,
            remaining,
            c,
        );
        let s1 = crate::model::apply_decision_v(
            elements,
            c,
            s,
            idx,
            calc,
            decision,
            space_before,
        );
        match decision {
            crate::model::BreakDecision::Fits => {
                lemma_place_add_element(elements, c, idx, s, calc, at_page_start_v(s));
                assert(s1.current_page.elements.len() >= 1);
                assert(s1.current_page.bottom_continuation is None);
            },
            crate::model::BreakDecision::BreakBefore => {
                let sm = if !at_page_start_v(s) {
                    crate::model::end_page_v(s)
                } else {
                    s
                };
                if !at_page_start_v(s) {
                    assert(s.current_page.elements.len() >= 1);
                    if c.continuation_style.enabled {
                        assert(placement_closed(elements, c, n1, s.current_page.elements.last()));
                        lemma_closed_not_open(elements, c, n1, s.current_page.elements.last());
                    }
                    lemma_place_end_page(elements, c, n1, s);
                }
                assert(!sm.element_positions.dom().contains(id0));
                assert(count_total(sm, id0) == 0);
                lemma_place_add_element(elements, c, idx, sm, calc, true);
                assert(s1.current_page.elements.len() >= 1);
                assert(s1.current_page.bottom_continuation is None);
            },
            crate::model::BreakDecision::SplitAt { line } => {
                let split = if e.element_type == ElementType::Dialogue {
                    crate::continuation::split_dialogue_v(e, calc, line as nat, c.continuation_style)
                } else {
                    crate::continuation::split_action_v(calc, line as nat)
                };
                if split.first_part_lines > 0 && split.second_part_lines > 0 {
                    lemma_place_split(elements, c, idx, s, calc, line, space_before);
                    assert(s1.current_page.elements.len() >= 1);
                    assert(s1.current_page.bottom_continuation is None);
                } else {
                    let sm = if !at_page_start_v(s) {
                        crate::model::end_page_v(s)
                    } else {
                        s
                    };
                    if !at_page_start_v(s) {
                        assert(s.current_page.elements.len() >= 1);
                        if c.continuation_style.enabled {
                            assert(placement_closed(
                                elements,
                                c,
                                n1,
                                s.current_page.elements.last(),
                            ));
                            lemma_closed_not_open(elements, c, n1, s.current_page.elements.last());
                        }
                        lemma_place_end_page(elements, c, n1, s);
                    }
                    assert(!sm.element_positions.dom().contains(id0));
                    assert(count_total(sm, id0) == 0);
                    lemma_place_add_element(elements, c, idx, sm, calc, true);
                    assert(s1.current_page.elements.len() >= 1);
                    assert(s1.current_page.bottom_continuation is None);
                }
            },
        }
        let s2 = if e.force_page_break_after && !at_page_start_v(s1) {
            crate::model::end_page_v(s1)
        } else {
            s1
        };
        if e.force_page_break_after && !at_page_start_v(s1) {
            if c.continuation_style.enabled {
                assert(placement_closed(elements, c, n1, s1.current_page.elements.last()));
                lemma_closed_not_open(elements, c, n1, s1.current_page.elements.last());
            }
            lemma_place_end_page(elements, c, n1, s1);
        }
        let s3 = step_v(elements, c, s, idx);
        if calc.total_lines > c.lines_per_page as nat {
            lemma_place_same_layout(elements, c, n1, s2, s3);
        }
    }
}

/// The structural invariant holds of every run prefix.
pub proof fn lemma_run_placement(elements: Seq<ElementV>, c: PageConfigV, n: int)
    requires
        0 <= n <= elements.len(),
        elements.len() <= usize::MAX,
        distinct_ids(elements),
        content_bounded(elements, c),
    ensures
        placement_inv(elements, c, n, run_v(elements, c, n)),
    decreases n,
{
    if n == 0 {
        let s = init_state_v();
        assert forall|id: Seq<char>| !s.element_positions.dom().contains(id)
            implies #[trigger] count_total(s, id) == 0 by {
            assert(count_in_pages(s.pages, id) == 0);
            assert(count_in_placements(s.current_page.elements, id) == 0);
        }
    } else {
        lemma_run_inv(elements, c, n - 1);
        lemma_run_placement(elements, c, n - 1);
        lemma_step_placement(elements, c, n - 1, run_v(elements, c, n - 1));
    }
}

/// The two recorded pages of a split element sit at positions `j` and
/// `j + 1` of the result, holding the tiling halves as the last and first
/// placement respectively.
pub open spec fn adjacent_split_at(
    elements: Seq<ElementV>,
    c: PageConfigV,
    r: PaginationResultV,
    id: Seq<char>,
    j: int,
) -> bool {
    let pos = r.element_positions[id];
    &&& 0 <= j
    &&& j + 1 < r.pages.len()
    &&& r.pages[j].identifier == pos.pages[0]
    &&& r.pages[j + 1].identifier == pos.pages[1]
    &&& r.pages[j].elements.len() >= 1
    &&& r.pages[j + 1].elements.len() >= 1
    &&& split_halves_ok(
        elements,
        c,
        elements.len() as int,
        r.pages[j].elements.last(),
        r.pages[j + 1].elements[0],
        id,
    )
}

pub open spec fn adjacent_split_ok(
    elements: Seq<ElementV>,
    c: PageConfigV,
    r: PaginationResultV,
    id: Seq<char>,
) -> bool {
    exists|j: int| #[trigger] adjacent_split_at(elements, c, r, id, j)
}

/// Split adjacency and tiling: every element recorded as split appears on
/// two pages that are immediate neighbours in the result's page list; its
/// first half ends the earlier page, its second half opens the later one,
/// and the two line ranges tile `[0, content_lines)` of that element
/// exactly.
pub proof fn lemma_split_adjacency(elements: Seq<ElementV>, c: PageConfigV)
    requires
        elements.len() <= usize::MAX,
        distinct_ids(elements),
        content_bounded(elements, c),
    ensures
        forall|id: Seq<char>|
            #[trigger] paginate_v(elements, c).element_positions.dom().contains(id) && paginate_v(
                elements,
                c,
            ).element_positions[id].is_split ==> paginate_v(
                elements,
                c,
            ).element_positions[id].pages.len() == 2 && adjacent_split_ok(
                elements,
                c,
                paginate_v(elements, c),
                id,
            ),
{
    let n = elements.len() as int;
    lemma_run_inv(elements, c, n);
    lemma_run_placement(elements, c, n);
    let s = run_v(elements, c, n);
    assert forall|id: Seq<char>|
        #[trigger] paginate_v(elements, c).element_positions.dom().contains(id) && paginate_v(
            elements,
            c,
        ).element_positions[id].is_split implies paginate_v(
        elements,
        c,
    ).element_positions[id].pages.len() == 2 && adjacent_split_ok(
        elements,
        c,
        paginate_v(elements, c),
        id,
    ) by {
        let r = paginate_v(elements, c);
        assert(position_ok(elements, c, n, s, id));
        let j = choose|j: int| #[trigger] split_at_index_ok(elements, c, n, s, id, j);
        if j + 1 < s.pages.len() {
            assert(r.pages[j] == s.pages[j]);
            assert(r.pages[j + 1] == s.pages[j + 1]);
        } else {
            assert(s.current_page.elements.len() >= 1);
            assert(r.pages == s.pages.push(s.current_page));
            assert(r.pages[j] == s.pages[j]);
            assert(r.pages[j + 1] == s.current_page);
        }
        assert(adjacent_split_at(elements, c, paginate_v(elements, c), id, j));
        assert(adjacent_split_ok(elements, c, paginate_v(elements, c), id));
    }
}

/// Fits-preservation: every element recorded as not split appears on
/// exactly one page, with a starting line of at least 1.
pub proof fn lemma_fits_preservation(elements: Seq<ElementV>, c: PageConfigV)
    requires
        elements.len() <= usize::MAX,
        distinct_ids(elements),
        content_bounded(elements, c),
    ensures
        forall|id: Seq<char>|
            #[trigger] paginate_v(elements, c).element_positions.dom().contains(id) ==> {
                let pos = paginate_v(elements, c).element_positions[id];
                &&& pos.start_line >= 1
                &&& !pos.is_split ==> pos.pages.len() == 1 && count_in_pages(
                    paginate_v(elements, c).pages,
                    id,
                ) == 1
            },
{
    let n = elements.len() as int;
    lemma_run_inv(elements, c, n);
    lemma_run_placement(elements, c, n);
    let s = run_v(elements, c, n);
    let r = paginate_v(elements, c);
    if s.current_page.elements.len() > 0 {
        lemma_count_pages_push(s.pages, s.current_page);
    }
    assert forall|id: Seq<char>| #[trigger] r.element_positions.dom().contains(id) implies {
        let pos = r.element_positions[id];
        &&& pos.start_line >= 1
        &&& !pos.is_split ==> pos.pages.len() == 1 && count_in_pages(r.pages, id) == 1
    } by {
        assert(position_ok(elements, c, n, s, id));
        if s.current_page.elements.len() > 0 {
            assert(count_in_pages(r.pages, id) == count_total(s, id));
        } else {
            assert(count_in_placements(s.current_page.elements, id) == 0);
            assert(count_in_pages(r.pages, id) == count_total(s, id));
        }
    }
}

/// The shape a page's final placement must have for the page to carry a
/// bottom continuation: a strict prefix of a named dialogue's lines.
pub open spec fn continued_dialogue_last(
    elements: Seq<ElementV>,
    c: PageConfigV,
    page: PageV,
) -> bool {
    &&& page.elements.len() >= 1
    &&& match page.elements.last().line_range {
        Some(r) => exists|i: int|
            0 <= i < elements.len() && #[trigger] elements[i].id
                == page.elements.last().element_id && elements[i].element_type
                == ElementType::Dialogue && elements[i].character_name is Some && r.end
                < calc_of_v(elements[i], c).content_lines,
        None => false,
    }
}

/// Bottom-continuation coherence: with continuation markers enabled and
/// every dialogue carrying a character name, a page has a bottom
/// continuation marker exactly when its final placement shows a strict
/// prefix of a dialogue's lines.
pub proof fn lemma_bottom_continuation_coherence(elements: Seq<ElementV>, c: PageConfigV)
    requires
        elements.len() <= usize::MAX,
        distinct_ids(elements),
        content_bounded(elements, c),
        c.continuation_style.enabled,
        forall|i: int|
            0 <= i < elements.len() && (#[trigger] elements[i]).element_type
                == ElementType::Dialogue ==> elements[i].character_name is Some,
    ensures
        forall|j: int|
            0 <= j < paginate_v(elements, c).pages.len() ==> ((#[trigger] paginate_v(
                elements,
                c,
            ).pages[j]).bottom_continuation is Some <==> continued_dialogue_last(
                elements,
                c,
                paginate_v(elements, c).pages[j],
            )),
{
    let n = elements.len() as int;
    lemma_run_inv(elements, c, n);
    lemma_run_placement(elements, c, n);
    let s = run_v(elements, c, n);
    let r = paginate_v(elements, c);
    assert forall|j: int| 0 <= j < r.pages.len() implies ((#[trigger] r.pages[j]).bottom_continuation
        is Some <==> continued_dialogue_last(elements, c, r.pages[j])) by {
        let page = r.pages[j];
        if j < s.pages.len() {
            assert(page == s.pages[j]);
            assert(page_marker_ok(elements, c, n, page));
            if page.bottom_continuation is Some {
                assert(first_half_of_dialogue(elements, c, n, page.elements.last()));
                match page.elements.last().line_range {
                    Some(rg) => {
                        let i = choose|i: int|
                            0 <= i < n && #[trigger] elements[i].id
                                == page.elements.last().element_id && elements[i].element_type
                                == ElementType::Dialogue && rg.end < calc_of_v(
                                elements[i],
                                c,
                            ).content_lines;
                        assert(elements[i].character_name is Some);
                        assert(continued_dialogue_last(elements, c, page));
                    },
                    None => {
                        assert(false);
                    },
                }
            } else {
                if continued_dialogue_last(elements, c, page) {
                    match page.elements.last().line_range {
                        Some(rg) => {
                            let i = choose|i: int|
                                0 <= i < elements.len() && #[trigger] elements[i].id
                                    == page.elements.last().element_id && elements[i].element_type
                                    == ElementType::Dialogue && elements[i].character_name is Some
                                    && rg.end < calc_of_v(elements[i], c).content_lines;
                            assert(first_half_of_dialogue(elements, c, n, page.elements.last()));
                            assert(false);
                        },
                        None => {
                            assert(false);
                        },
                    }
                }
            }
        } else {
            assert(page == s.current_page);
            assert(page.bottom_continuation is None);
            if continued_dialogue_last(elements, c, page) {
                assert(placement_closed(elements, c, n, page.elements.last()));
                lemma_closed_not_open(elements, c, n, page.elements.last());
                match page.elements.last().line_range {
                    Some(rg) => {
                        let i = choose|i: int|
                            0 <= i < elements.len() && #[trigger] elements[i].id
                                == page.elements.last().element_id && elements[i].element_type
                                == ElementType::Dialogue && elements[i].character_name is Some
                                && rg.end < calc_of_v(elements[i], c).content_lines;
                        assert(first_half_of_dialogue(elements, c, n, page.elements.last()));
                        assert(false);
                    },
                    None => {
                        assert(false);
                    },
                }
            }
        }
    }
}

} // verus!
