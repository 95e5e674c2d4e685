//! Dialogue continuation: splitting a wrapped element at a line index and
//! building the MORE / CONT'D markers.

use vstd::prelude::*;

use crate::config::ContinuationStyleV;
use crate::config::PageConfig;
use crate::config::PageConfigV;
use crate::element::Element;
use crate::element::ElementV;
use crate::line_calculator::LineCalculation;
use crate::line_calculator::LineCalculationV;
use crate::text::ascii_upper;
use crate::text::ascii_upper_v;
use crate::wrap::string_views;

verus! {

/// Mathematical model of a [`SplitResult`].
pub struct SplitResultV {
    pub first_part_lines: nat,
    pub second_part_lines: nat,
    pub first_part_content: Seq<Seq<char>>,
    pub second_part_content: Seq<Seq<char>>,
    pub more_marker: Option<Seq<char>>,
    pub contd_prefix: Option<Seq<char>>,
}

/// Result of splitting an element across pages.
#[derive(Debug)]
pub struct SplitResult {
    /// Lines shown on the current page.
    pub first_part_lines: usize,

    /// Lines shown on the next page.
    pub second_part_lines: usize,

    /// Content lines of the first part.
    pub first_part_content: Vec<String>,

    /// Content lines of the second part.
    pub second_part_content: Vec<String>,

    /// Marker at the bottom of the page ("(MORE)"), when emitted.
    pub more_marker: Option<String>,

    /// Prefix for the character name on the next page ("JOHN (CONT'D)").
    pub contd_prefix: Option<String>,
}

impl View for SplitResult {
    type V = SplitResultV;

    open spec fn view(&self) -> SplitResultV {
        SplitResultV {
            first_part_lines: self.first_part_lines as nat,
            second_part_lines: self.second_part_lines as nat,
            first_part_content: string_views(self.first_part_content@),
            second_part_content: string_views(self.second_part_content@),
            more_marker: match self.more_marker {
                Some(ref m) => Some(m@),
                None => None,
            },
            contd_prefix: match self.contd_prefix {
                Some(ref p) => Some(p@),
                None => None,
            },
        }
    }
}

/// The split index actually used: the requested index, clamped to the number
/// of wrapped lines.
pub open spec fn split_index_v(wrapped: Seq<Seq<char>>, split_at_line: nat) -> int {
    if split_at_line > wrapped.len() {
        wrapped.len() as int
    } else {
        split_at_line as int
    }
}

/// The CONT'D prefix for a character name: the ASCII-uppercased name, a
/// space, and the configured marker.
pub open spec fn contd_prefix_v(name: Seq<char>, contd_marker: Seq<char>) -> Seq<char> {
    ascii_upper_v(name) + seq![' '] + contd_marker
}

/// Splitting a dialogue: the first part takes the wrapped lines before the
/// (clamped) split index, the second part the rest. Markers are emitted iff
/// continuation is enabled and the second part is nonempty; the CONT'D
/// prefix additionally needs a character name.
pub open spec fn split_dialogue_v(
    e: ElementV,
    calc: LineCalculationV,
    split_at_line: nat,
    cont: ContinuationStyleV,
) -> SplitResultV {
    let a = split_index_v(calc.wrapped_lines, split_at_line);
    let first = calc.wrapped_lines.take(a);
    let second = calc.wrapped_lines.skip(a);
    if cont.enabled && second.len() > 0 {
        SplitResultV {
            first_part_lines: first.len(),
            second_part_lines: second.len(),
            first_part_content: first,
            second_part_content: second,
            more_marker: Some(cont.more_marker),
            contd_prefix: match e.character_name {
                Some(name) => Some(contd_prefix_v(name, cont.contd_marker)),
                None => None,
            },
        }
    } else {
        SplitResultV {
            first_part_lines: first.len(),
            second_part_lines: second.len(),
            first_part_content: first,
            second_part_content: second,
            more_marker: None,
            contd_prefix: None,
        }
    }
}

/// Splitting an action: a raw split with no markers at all.
pub open spec fn split_action_v(calc: LineCalculationV, split_at_line: nat) -> SplitResultV {
    let a = split_index_v(calc.wrapped_lines, split_at_line);
    let first = calc.wrapped_lines.take(a);
    let second = calc.wrapped_lines.skip(a);
    SplitResultV {
        first_part_lines: first.len(),
        second_part_lines: second.len(),
        first_part_content: first,
        second_part_content: second,
        more_marker: None,
        contd_prefix: None,
    }
}

/// Clones of the first `a` lines.
fn take_lines(lines: &Vec<String>, a: usize) -> (r: Vec<String>)
    requires
        a <= lines@.len(),
    ensures
        string_views(r@) == string_views(lines@).take(a as int),
{
    let mut r: Vec<String> = Vec::new();
    let mut i: usize = 0;
    while i < a
        invariant
            0 <= i <= a <= lines@.len(),
            string_views(r@) == string_views(lines@).take(i as int),
        decreases a - i,
    {
        let s = lines[i].clone();
        proof {
            assert(s@ == lines@[i as int]@);
        }
        let ghost old_r = r@;
        r.push(s);
        i = i + 1;
        proof {
            assert(string_views(r@) =~= string_views(old_r).push(s@));
            assert(string_views(r@) =~= string_views(lines@).take(i as int));
        }
    }
    r
}

/// Clones of the lines from `a` on.
fn skip_lines(lines: &Vec<String>, a: usize) -> (r: Vec<String>)
    requires
        a <= lines@.len(),
    ensures
        string_views(r@) == string_views(lines@).skip(a as int),
{
    let mut r: Vec<String> = Vec::new();
    let mut i: usize = a;
    while i < lines.len()
        invariant
            a <= i <= lines@.len(),
            string_views(r@) == string_views(lines@).subrange(a as int, i as int),
        decreases lines@.len() - i,
    {
        let s = lines[i].clone();
        proof {
            assert(s@ == lines@[i as int]@);
        }
        let ghost old_r = r@;
        r.push(s);
        i = i + 1;
        proof {
            assert(string_views(r@) =~= string_views(old_r).push(s@));
            assert(string_views(r@) =~= string_views(lines@).subrange(a as int, i as int));
        }
    }
    proof {
        assert(string_views(r@) =~= string_views(lines@).skip(a as int));
    }
    r
}

/// Manages dialogue continuation (MORE / CONT'D) logic.
pub struct ContinuationManager<'a> {
    config: &'a PageConfig,
}

impl<'a> View for ContinuationManager<'a> {
    type V = PageConfigV;

    closed spec fn view(&self) -> PageConfigV {
        self.config@
    }
}

impl<'a> ContinuationManager<'a> {
    pub fn new(config: &'a PageConfig) -> (r: Self)
        ensures
            r@ == config@,
    {
        ContinuationManager { config }
    }

    /// Split a dialogue element at a given line index.
    pub fn split_dialogue(
        &self,
        element: &Element,
        line_calc: &LineCalculation,
        split_at_line: usize,
    ) -> (r: SplitResult)
        ensures
            r@ == split_dialogue_v(
                element@,
                line_calc@,
                split_at_line as nat,
                self@.continuation_style,
            ),
    {
        let n = line_calc.wrapped_lines.len();
        let a = if split_at_line > n {
            n
        } else {
            split_at_line
        };
        let first_part_content = take_lines(&line_calc.wrapped_lines, a);
        let second_part_content = skip_lines(&line_calc.wrapped_lines, a);
        let first_part_lines = first_part_content.len();
        let second_part_lines = second_part_content.len();
        let enabled = self.config.continuation_style.enabled;
        let (more_marker, contd_prefix): (Option<String>, Option<String>) = if enabled
            && second_part_lines > 0 {
            let more = Some(self.config.continuation_style.more_marker.clone());
            let contd = match &element.character_name {
                Some(name) => {
                    let mut p = ascii_upper(name.as_str());
                    p.append(" ");
                    p.append(self.config.continuation_style.contd_marker.as_str());
                    proof {
                        reveal_strlit(" ");
                        assert(" "@ =~= seq![' ']);
                    }
                    Some(p)
                },
                None => None,
            };
            (more, contd)
        } else {
            (None, None)
        };
        SplitResult {
            first_part_lines,
            second_part_lines,
            first_part_content,
            second_part_content,
            more_marker,
            contd_prefix,
        }
    }

    /// Split an action element: no continuation markers, just a raw split.
    pub fn split_action(&self, line_calc: &LineCalculation, split_at_line: usize) -> (r:
        SplitResult)
        ensures
            r@ == split_action_v(line_calc@, split_at_line as nat),
    {
        let n = line_calc.wrapped_lines.len();
        let a = if split_at_line > n {
            n
        } else {
            split_at_line
        };
        let first_part_content = take_lines(&line_calc.wrapped_lines, a);
        let second_part_content = skip_lines(&line_calc.wrapped_lines, a);
        let first_part_lines = first_part_content.len();
        let second_part_lines = second_part_content.len();
        SplitResult {
            first_part_lines,
            second_part_lines,
            first_part_content,
            second_part_content,
            more_marker: None,
            contd_prefix: None,
        }
    }

    /// Whether continuation markers are enabled.
    pub fn is_enabled(&self) -> (r: bool)
        ensures
            r == self@.continuation_style.enabled,
    {
        self.config.continuation_style.enabled
    }

    /// The MORE marker text.
    pub fn more_marker(&self) -> (r: &str)
        ensures
            r@ == self@.continuation_style.more_marker,
    {
        self.config.continuation_style.more_marker.as_str()
    }

    /// The CONT'D marker text.
    pub fn contd_marker(&self) -> (r: &str)
        ensures
            r@ == self@.continuation_style.contd_marker,
    {
        self.config.continuation_style.contd_marker.as_str()
    }
}

} // verus!
