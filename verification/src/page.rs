//! Pages and element placements: the output side of the pagination pass.

use vstd::prelude::*;

use crate::element::ElementId;
use crate::text::dec_str_v;
use crate::text::push_char;
use crate::text::u64_string;

verus! {

/// Page identifier, supporting inserted (47A) and omitted pages for
/// production-script revision workflows. The pagination pass itself only
/// generates sequential identifiers, but preserves the others when supplied.
#[derive(Debug, Clone, Copy, PartialEq, Eq, Structural)]
pub enum PageIdentifier {
    /// Normal sequential page (1, 2, 3, ...).
    Sequential(u32),

    /// Inserted page after locking (47A, 47B, ...).
    Inserted { base: u32, suffix: char },

    /// Omitted page marker: the page was removed but its number kept.
    Omitted(u32),
}

/// Well-formed identifiers keep the inserted-page suffix within 'A'..='Z'.
pub open spec fn page_id_wf_v(id: PageIdentifier) -> bool {
    match id {
        PageIdentifier::Inserted { base, suffix } => 'A' as u32 <= suffix as u32 <= 'Z' as u32,
        _ => true,
    }
}

/// A page number incremented by one, staying put at the top of the range.
pub open spec fn inc_page_number_v(n: u32) -> u32 {
    if n == u32::MAX {
        n
    } else {
        (n + 1) as u32
    }
}

/// The next letter suffix; anything outside 'A'..='Y' is left unchanged.
pub open spec fn next_suffix_v(suffix: char) -> char {
    match suffix {
        'A' => 'B',
        'B' => 'C',
        'C' => 'D',
        'D' => 'E',
        'E' => 'F',
        'F' => 'G',
        'G' => 'H',
        'H' => 'I',
        'I' => 'J',
        'J' => 'K',
        'K' => 'L',
        'L' => 'M',
        'M' => 'N',
        'N' => 'O',
        'O' => 'P',
        'P' => 'Q',
        'Q' => 'R',
        'R' => 'S',
        'S' => 'T',
        'T' => 'U',
        'U' => 'V',
        'V' => 'W',
        'W' => 'X',
        'X' => 'Y',
        'Y' => 'Z',
        _ => suffix,
    }
}

/// The printed label of a page identifier.
pub open spec fn page_id_display_v(id: PageIdentifier) -> Seq<char> {
    match id {
        PageIdentifier::Sequential(n) => dec_str_v(n as nat),
        PageIdentifier::Inserted { base, suffix } => dec_str_v(base as nat).push(suffix),
        PageIdentifier::Omitted(n) => dec_str_v(n as nat) + " OMITTED"@,
    }
}

/// The sort key of a page identifier: base number, then suffix ordinal.
pub open spec fn page_id_sort_key_v(id: PageIdentifier) -> (u32, u8) {
    match id {
        PageIdentifier::Sequential(n) => (n, 0u8),
        PageIdentifier::Inserted { base, suffix } => (
            base,
            (suffix as u32 - 'A' as u32 + 1) as u8,
        ),
        PageIdentifier::Omitted(n) => (n, 0u8),
    }
}

/// The identifier following a given one: sequential pages advance by one,
/// inserted pages advance their letter ('Z' wraps to the next number).
pub open spec fn page_id_next_v(id: PageIdentifier) -> PageIdentifier {
    match id {
        PageIdentifier::Sequential(n) => PageIdentifier::Sequential(inc_page_number_v(n)),
        PageIdentifier::Inserted { base, suffix } => {
            if suffix == 'Z' {
                PageIdentifier::Sequential(inc_page_number_v(base))
            } else {
                PageIdentifier::Inserted { base, suffix: next_suffix_v(suffix) }
            }
        },
        PageIdentifier::Omitted(n) => PageIdentifier::Sequential(inc_page_number_v(n)),
    }
}

fn next_suffix(suffix: char) -> (r: char)
    ensures
        r == next_suffix_v(suffix),
{
    match suffix {
        'A' => 'B',
        'B' => 'C',
        'C' => 'D',
        'D' => 'E',
        'E' => 'F',
        'F' => 'G',
        'G' => 'H',
        'H' => 'I',
        'I' => 'J',
        'J' => 'K',
        'K' => 'L',
        'L' => 'M',
        'M' => 'N',
        'N' => 'O',
        'O' => 'P',
        'P' => 'Q',
        'Q' => 'R',
        'R' => 'S',
        'S' => 'T',
        'T' => 'U',
        'U' => 'V',
        'V' => 'W',
        'W' => 'X',
        'X' => 'Y',
        'Y' => 'Z',
        _ => suffix,
    }
}

impl PageIdentifier {
    /// The printed label: "42", "47A", or "10 OMITTED".
    pub fn display(&self) -> (r: String)
        ensures
            r@ == page_id_display_v(*self),
    {
        match self {
            PageIdentifier::Sequential(n) => u64_string(*n as u64),
            PageIdentifier::Inserted { base, suffix } => {
                let mut s = u64_string(*base as u64);
                push_char(&mut s, *suffix);
                s
            },
            PageIdentifier::Omitted(n) => {
                let mut s = u64_string(*n as u64);
                s.append(" OMITTED");
                s
            },
        }
    }

    /// For sorting: (base number, suffix ordinal), so that 47 < 47A < 47B
    /// < 48.
    pub fn sort_key(&self) -> (r: (u32, u8))
        requires
            page_id_wf_v(*self),
        ensures
            r == page_id_sort_key_v(*self),
    {
        match self {
            PageIdentifier::Sequential(n) => (*n, 0),
            PageIdentifier::Inserted { base, suffix } => (
                *base,
                (*suffix as u32 - 'A' as u32 + 1) as u8,
            ),
            PageIdentifier::Omitted(n) => (*n, 0),
        }
    }

    /// The next page identifier.
    pub fn next(&self) -> (r: PageIdentifier)
        ensures
            r == page_id_next_v(*self),
    {
        match self {
            PageIdentifier::Sequential(n) => {
                PageIdentifier::Sequential(if *n == u32::MAX {
                    *n
                } else {
                    *n + 1
                })
            },
            PageIdentifier::Inserted { base, suffix } => {
                if *suffix == 'Z' {
                    PageIdentifier::Sequential(if *base == u32::MAX {
                        *base
                    } else {
                        *base + 1
                    })
                } else {
                    PageIdentifier::Inserted { base: *base, suffix: next_suffix(*suffix) }
                }
            },
            PageIdentifier::Omitted(n) => {
                PageIdentifier::Sequential(if *n == u32::MAX {
                    *n
                } else {
                    *n + 1
                })
            },
        }
    }
}

impl Default for PageIdentifier {
    fn default() -> (r: Self)
        ensures
            r == PageIdentifier::Sequential(1u32),
    {
        PageIdentifier::Sequential(1)
    }
}

/// Reason for a page break.
#[derive(Debug, Clone, Copy, PartialEq, Eq, Structural)]
pub enum PageBreakReason {
    /// Page filled naturally.
    PageFull,

    /// Forced by an explicit page-break element.
    Forced,

    /// Act break.
    ActBreak,

    /// Moved to prevent an orphan.
    OrphanPrevention,

    /// Dialogue split with a continuation marker.
    DialogueContinuation,
}

/// Mathematical model of a [`PageBreak`].
pub struct PageBreakV {
    pub after_element: Seq<char>,
    pub split_at_line: Option<usize>,
    pub reason: PageBreakReason,
}

/// A page-break point in the document.
#[derive(Debug, Clone)]
pub struct PageBreak {
    /// Element after which this break occurs.
    pub after_element: ElementId,

    /// If the element was split, the line index within the element.
    pub split_at_line: Option<usize>,

    /// Reason for the break.
    pub reason: PageBreakReason,
}

impl View for PageBreak {
    type V = PageBreakV;

    open spec fn view(&self) -> PageBreakV {
        PageBreakV {
            after_element: self.after_element@,
            split_at_line: self.split_at_line,
            reason: self.reason,
        }
    }
}

/// Range of wrapped-line indices within a split element: `start` inclusive,
/// `end` exclusive.
#[derive(Debug, Clone, Copy, PartialEq, Eq, Structural)]
pub struct LineRange {
    pub start: usize,
    pub end: usize,
}

/// Mathematical model of a [`LineRange`].
pub struct LineRangeV {
    pub start: nat,
    pub end: nat,
}

/// Mathematical model of a [`PageElement`].
pub struct PageElementV {
    pub element_id: Seq<char>,
    pub start_line: nat,
    pub line_count: nat,
    pub is_continuation: bool,
    pub line_range: Option<LineRangeV>,
    pub continuation_prefix: Option<Seq<char>>,
}

/// An element's placement on one page.
#[derive(Debug, Clone)]
pub struct PageElement {
    pub element_id: ElementId,

    /// Starting line on this page (1-indexed).
    pub start_line: usize,

    /// Number of content lines this element occupies on this page.
    pub line_count: usize,

    /// Whether this placement continues an element from the previous page.
    pub is_continuation: bool,

    /// Which wrapped lines of the element this placement shows, when split.
    pub line_range: Option<LineRange>,

    /// Continuation prefix for the character name ("JOHN (CONT'D)").
    pub continuation_prefix: Option<String>,
}

impl View for PageElement {
    type V = PageElementV;

    open spec fn view(&self) -> PageElementV {
        PageElementV {
            element_id: self.element_id@,
            start_line: self.start_line as nat,
            line_count: self.line_count as nat,
            is_continuation: self.is_continuation,
            line_range: match self.line_range {
                Some(r) => Some(LineRangeV { start: r.start as nat, end: r.end as nat }),
                None => None,
            },
            continuation_prefix: match self.continuation_prefix {
                Some(p) => Some(p@),
                None => None,
            },
        }
    }
}

/// Mathematical model of a [`Page`].
pub struct PageV {
    pub identifier: PageIdentifier,
    pub elements: Seq<PageElementV>,
    pub bottom_continuation: Option<Seq<char>>,
    pub lines_used: nat,
}

/// A single page of the paginated output.
#[derive(Debug, Clone)]
pub struct Page {
    pub identifier: PageIdentifier,

    /// Element placements on this page, in layout order.
    pub elements: Vec<PageElement>,

    /// Continuation marker at the bottom ("(MORE)"), when the final
    /// placement is a split dialogue's first half.
    pub bottom_continuation: Option<String>,

    /// Lines used on this page. May exceed the configured lines per page by
    /// one: the MORE marker sits on the bottom margin's upper edge.
    pub lines_used: usize,
}

impl View for Page {
    type V = PageV;

    open spec fn view(&self) -> PageV {
        PageV {
            identifier: self.identifier,
            elements: self.elements@.map_values(|e: PageElement| e@),
            bottom_continuation: match self.bottom_continuation {
                Some(s) => Some(s@),
                None => None,
            },
            lines_used: self.lines_used as nat,
        }
    }
}

/// A fresh, empty page under a given identifier.
pub open spec fn page_new_v(identifier: PageIdentifier) -> PageV {
    PageV {
        identifier,
        elements: Seq::<PageElementV>::empty(),
        bottom_continuation: None,
        lines_used: 0,
    }
}

impl Page {
    pub fn new(identifier: PageIdentifier) -> (r: Self)
        ensures
            r@ == page_new_v(identifier),
    {
        let r = Page { identifier, elements: Vec::new(), bottom_continuation: None, lines_used: 0 };
        proof {
            assert(r@.elements =~= Seq::<PageElementV>::empty());
        }
        r
    }

    /// Lines still free on this page, never negative.
    pub fn lines_remaining(&self, lines_per_page: usize) -> (r: usize)
        ensures
            r as nat == crate::sat_sub_v(lines_per_page as nat, self.lines_used as nat),
    {
        crate::sat_sub(lines_per_page, self.lines_used)
    }
}

} // verus!
