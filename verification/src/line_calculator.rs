//! The line calculator: wraps an element's content into the monospace grid
//! and computes its line counts, including spacing.

use vstd::prelude::*;

use crate::clip_v;
use crate::sat_add;
use crate::sat_add_v;
use crate::config::ElementStyle;
use crate::config::PageConfig;
use crate::config::PageConfigV;
use crate::config::style_for_v;
use crate::element::Element;
use crate::element::ElementV;
use crate::wrap::string_views;
use crate::wrap::wrap_text;
use crate::wrap::wrap_text_v;

verus! {

/// Mathematical model of a [`LineCalculation`].
pub struct LineCalculationV {
    pub content_lines: nat,
    pub space_before: nat,
    pub space_after: nat,
    pub total_lines: nat,
    pub wrapped_lines: Seq<Seq<char>>,
}

/// Result of calculating lines for an element.
#[derive(Debug)]
pub struct LineCalculation {
    /// Lines of wrapped content.
    pub content_lines: usize,

    /// Space before, from the element style.
    pub space_before: usize,

    /// Space after, from the element style.
    pub space_after: usize,

    /// Total lines including line spacing and space after (and space before,
    /// for the "with spacing" variant away from a page start).
    pub total_lines: usize,

    /// The wrapped content lines themselves, for split calculations.
    pub wrapped_lines: Vec<String>,
}

impl View for LineCalculation {
    type V = LineCalculationV;

    open spec fn view(&self) -> LineCalculationV {
        LineCalculationV {
            content_lines: self.content_lines as nat,
            space_before: self.space_before as nat,
            space_after: self.space_after as nat,
            total_lines: self.total_lines as nat,
            wrapped_lines: string_views(self.wrapped_lines@),
        }
    }
}

/// Content lines scaled by the line-spacing multiplier (hundredths),
/// ceil-rounded; single spacing and below leave the count unchanged.
pub open spec fn scale_lines_v(content: nat, spacing_hundredths: nat) -> nat {
    if spacing_hundredths > 100 {
        clip_v((content * spacing_hundredths + 99) / 100)
    } else {
        content
    }
}

fn scale_lines(content: usize, spacing_hundredths: usize) -> (r: usize)
    ensures
        r as nat == scale_lines_v(content as nat, spacing_hundredths as nat),
{
    if spacing_hundredths > 100 {
        proof {
            assert((content as nat) * (spacing_hundredths as nat) <= (u64::MAX as nat) * (
            u64::MAX as nat)) by (nonlinear_arith)
                requires
                    content as nat <= u64::MAX as nat,
                    spacing_hundredths as nat <= u64::MAX as nat,
            ;
            assert((u64::MAX as nat) * (u64::MAX as nat) + 99 < u128::MAX as nat);
        }
        let prod: u128 = (content as u128) * (spacing_hundredths as u128);
        let scaled: u128 = (prod + 99) / 100;
        if scaled > usize::MAX as u128 {
            usize::MAX
        } else {
            scaled as usize
        }
    } else {
        content
    }
}

/// The line calculation of an element under a configuration.
pub open spec fn calc_of_v(e: ElementV, c: PageConfigV) -> LineCalculationV {
    let style = style_for_v(c.element_styles, e.element_type);
    let wrapped = wrap_text_v(e.content, style.max_chars_per_line as nat);
    let spaced = scale_lines_v(wrapped.len(), style.line_spacing_hundredths as nat);
    LineCalculationV {
        content_lines: wrapped.len(),
        space_before: style.space_before as nat,
        space_after: style.space_after as nat,
        total_lines: sat_add_v(spaced, style.space_after as nat),
        wrapped_lines: wrapped,
    }
}

/// The line calculation with space-before folded into the total, which
/// happens exactly when the element is not at the start of a page.
pub open spec fn calc_with_spacing_v(e: ElementV, c: PageConfigV, at_page_start: bool)
    -> LineCalculationV {
    let base = calc_of_v(e, c);
    if at_page_start {
        base
    } else {
        LineCalculationV { total_lines: sat_add_v(base.total_lines, base.space_before), ..base }
    }
}

/// Calculates line counts for screenplay elements.
pub struct LineCalculator<'a> {
    config: &'a PageConfig,
}

impl<'a> View for LineCalculator<'a> {
    type V = PageConfigV;

    closed spec fn view(&self) -> PageConfigV {
        self.config@
    }
}

impl<'a> LineCalculator<'a> {
    pub fn new(config: &'a PageConfig) -> (r: Self)
        ensures
            r@ == config@,
    {
        LineCalculator { config }
    }

    /// How many lines an element requires.
    pub fn calculate(&self, element: &Element) -> (r: LineCalculation)
        ensures
            r@ == calc_of_v(element@, self@),
    {
        let style = self.config.style_for(element.element_type);
        let wrapped_lines = wrap_text(element.content.as_str(), style.max_chars_per_line);
        let content_lines = wrapped_lines.len();
        let spaced = scale_lines(content_lines, style.line_spacing_hundredths);
        let total_lines = sat_add(spaced, style.space_after);
        LineCalculation {
            content_lines,
            space_before: style.space_before,
            space_after: style.space_after,
            total_lines,
            wrapped_lines,
        }
    }

    /// Like [`Self::calculate`], but with space-before included in the total
    /// when the element is not at the start of a page.
    pub fn calculate_with_spacing(&self, element: &Element, at_page_start: bool) -> (r:
        LineCalculation)
        ensures
            r@ == calc_with_spacing_v(element@, self@, at_page_start),
    {
        let mut calc = self.calculate(element);
        if !at_page_start {
            calc.total_lines = sat_add(calc.total_lines, calc.space_before);
        }
        calc
    }

    /// Just the content line count of an element.
    pub fn content_lines(&self, element: &Element) -> (r: usize)
        ensures
            r as nat == calc_of_v(element@, self@).content_lines,
    {
        let style = self.config.style_for(element.element_type);
        let wrapped = wrap_text(element.content.as_str(), style.max_chars_per_line);
        wrapped.len()
    }
}

} // verus!
