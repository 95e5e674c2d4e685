//! Page-format configuration: paper size, per-type element styles, dialogue
//! continuation markers, and orphan/widow control.
//!
//! Point-based metrics (character width, margins) belong to external
//! renderers; the engine itself works purely on the monospace line grid, so
//! the configuration here carries only line-valued quantities. The line
//! spacing multiplier is kept in hundredths (100 = single spacing) so that
//! the ceiling rule of the layout is exact integer arithmetic.

use vstd::prelude::*;

use crate::element::ElementType;

verus! {

/// Paper size definitions.
#[derive(Debug, Clone, Copy, PartialEq, Eq, Structural)]
pub enum PaperSize {
    UsLetter,
    A4,
}

impl Default for PaperSize {
    fn default() -> (r: Self)
        ensures
            r == PaperSize::UsLetter,
    {
        PaperSize::UsLetter
    }
}

/// Style configuration for one element type. All quantities are in lines of
/// the monospace grid, except `max_chars_per_line` (characters) and
/// `line_spacing_hundredths` (a multiplier in hundredths, ceil-rounded when
/// applied).
#[derive(Debug, Clone, Copy, PartialEq, Eq, Structural)]
pub struct ElementStyle {
    /// Maximum characters per line.
    pub max_chars_per_line: usize,

    /// Blank lines before this element type.
    pub space_before: usize,

    /// Blank lines after this element type.
    pub space_after: usize,

    /// Line spacing multiplier in hundredths (100 = single, 200 = double).
    pub line_spacing_hundredths: usize,

    /// Whether this element can be split across pages.
    pub can_split: bool,

    /// Minimum lines that must remain on the upper page when splitting.
    pub min_lines_before_split: usize,

    /// Minimum lines that must appear on the new page after a split.
    pub min_lines_after_split: usize,

    /// Must keep with the following element.
    pub keep_with_next: bool,

    /// Number of following elements whose lines must fit when
    /// `keep_with_next` is set.
    pub keep_with_next_lines: usize,

    /// Render hint: force uppercase. The engine itself never uppercases
    /// content.
    pub force_uppercase: bool,
}

/// The global fallback style, used when an element type is missing from the
/// configuration's style map.
pub open spec fn default_style_v() -> ElementStyle {
    ElementStyle {
        max_chars_per_line: 60,
        space_before: 1,
        space_after: 0,
        line_spacing_hundredths: 100,
        can_split: true,
        min_lines_before_split: 2,
        min_lines_after_split: 2,
        keep_with_next: false,
        keep_with_next_lines: 0,
        force_uppercase: false,
    }
}

impl Default for ElementStyle {
    fn default() -> (r: Self)
        ensures
            r == default_style_v(),
    {
        ElementStyle {
            max_chars_per_line: 60,
            space_before: 1,
            space_after: 0,
            line_spacing_hundredths: 100,
            can_split: true,
            min_lines_before_split: 2,
            min_lines_after_split: 2,
            keep_with_next: false,
            keep_with_next_lines: 0,
            force_uppercase: false,
        }
    }
}

/// The default style table, per element type.
pub open spec fn default_style_for_v(element_type: ElementType) -> ElementStyle {
    match element_type {
        ElementType::SceneHeading => ElementStyle {
            space_before: 2,
            keep_with_next: true,
            keep_with_next_lines: 2,
            force_uppercase: true,
            can_split: false,
            ..default_style_v()
        },
        ElementType::Action => default_style_v(),
        ElementType::Character => ElementStyle {
            max_chars_per_line: 38,
            force_uppercase: true,
            keep_with_next: true,
            keep_with_next_lines: 2,
            can_split: false,
            ..default_style_v()
        },
        ElementType::Dialogue => ElementStyle {
            max_chars_per_line: 35,
            space_before: 0,
            ..default_style_v()
        },
        ElementType::Parenthetical => ElementStyle {
            max_chars_per_line: 25,
            space_before: 0,
            can_split: false,
            keep_with_next: true,
            keep_with_next_lines: 1,
            ..default_style_v()
        },
        ElementType::Transition => ElementStyle {
            max_chars_per_line: 20,
            space_before: 2,
            space_after: 1,
            force_uppercase: true,
            can_split: false,
            ..default_style_v()
        },
        ElementType::ActBreak => ElementStyle {
            space_before: 4,
            space_after: 4,
            force_uppercase: true,
            can_split: false,
            ..default_style_v()
        },
        ElementType::PageBreak => ElementStyle {
            space_before: 0,
            can_split: false,
            ..default_style_v()
        },
        _ => default_style_v(),
    }
}

impl ElementStyle {
    /// The default style for a specific element type.
    pub fn default_for(element_type: ElementType) -> (r: Self)
        ensures
            r == default_style_for_v(element_type),
    {
        let base = ElementStyle::default();
        match element_type {
            ElementType::SceneHeading => ElementStyle {
                space_before: 2,
                keep_with_next: true,
                keep_with_next_lines: 2,
                force_uppercase: true,
                can_split: false,
                ..base
            },
            ElementType::Action => base,
            ElementType::Character => ElementStyle {
                max_chars_per_line: 38,
                force_uppercase: true,
                keep_with_next: true,
                keep_with_next_lines: 2,
                can_split: false,
                ..base
            },
            ElementType::Dialogue => ElementStyle {
                max_chars_per_line: 35,
                space_before: 0,
                ..base
            },
            ElementType::Parenthetical => ElementStyle {
                max_chars_per_line: 25,
                space_before: 0,
                can_split: false,
                keep_with_next: true,
                keep_with_next_lines: 1,
                ..base
            },
            ElementType::Transition => ElementStyle {
                max_chars_per_line: 20,
                space_before: 2,
                space_after: 1,
                force_uppercase: true,
                can_split: false,
                ..base
            },
            ElementType::ActBreak => ElementStyle {
                space_before: 4,
                space_after: 4,
                force_uppercase: true,
                can_split: false,
                ..base
            },
            ElementType::PageBreak => ElementStyle {
                space_before: 0,
                can_split: false,
                ..base
            },
            _ => base,
        }
    }
}

/// Mathematical model of a [`ContinuationStyle`].
pub struct ContinuationStyleV {
    pub more_marker: Seq<char>,
    pub contd_marker: Seq<char>,
    pub enabled: bool,
}

/// How dialogue continuation markers are formatted.
#[derive(Debug, Clone)]
pub struct ContinuationStyle {
    /// Marker at the bottom of a page whose final dialogue continues.
    pub more_marker: String,

    /// Suffix added to the character name on the next page.
    pub contd_marker: String,

    /// Whether continuation markers are emitted at all.
    pub enabled: bool,
}

impl View for ContinuationStyle {
    type V = ContinuationStyleV;

    open spec fn view(&self) -> ContinuationStyleV {
        ContinuationStyleV {
            more_marker: self.more_marker@,
            contd_marker: self.contd_marker@,
            enabled: self.enabled,
        }
    }
}

impl Default for ContinuationStyle {
    fn default() -> (r: Self)
        ensures
            r@.more_marker == "(MORE)"@,
            r@.contd_marker == "(CONT'D)"@,
            r@.enabled,
    {
        ContinuationStyle {
            more_marker: "(MORE)".to_owned(),
            contd_marker: "(CONT'D)".to_owned(),
            enabled: true,
        }
    }
}

/// Orphan/widow control settings, in lines.
#[derive(Debug, Clone, Copy, PartialEq, Eq, Structural)]
pub struct OrphanControlConfig {
    /// A scene heading must have at least this many lines after it.
    pub scene_heading_min_following: usize,

    /// A character name must have at least this many dialogue lines with it.
    pub character_min_dialogue_lines: usize,

    /// Minimum dialogue lines kept on the upper page of a split.
    pub dialogue_min_before_split: usize,

    /// Minimum dialogue lines moved to the next page by a split.
    pub dialogue_min_after_split: usize,
}

pub open spec fn default_orphan_control_v() -> OrphanControlConfig {
    OrphanControlConfig {
        scene_heading_min_following: 2,
        character_min_dialogue_lines: 2,
        dialogue_min_before_split: 2,
        dialogue_min_after_split: 2,
    }
}

impl Default for OrphanControlConfig {
    fn default() -> (r: Self)
        ensures
            r == default_orphan_control_v(),
    {
        OrphanControlConfig {
            scene_heading_min_following: 2,
            character_min_dialogue_lines: 2,
            dialogue_min_before_split: 2,
            dialogue_min_after_split: 2,
        }
    }
}

/// First match in the style table, or the global fallback.
pub open spec fn style_for_v(entries: Seq<(ElementType, ElementStyle)>, t: ElementType)
    -> ElementStyle
    decreases entries.len(),
{
    if entries.len() == 0 {
        default_style_v()
    } else if entries[0].0 == t {
        entries[0].1
    } else {
        style_for_v(entries.skip(1), t)
    }
}

/// Whether the style table has an entry for a type.
pub open spec fn has_style_v(entries: Seq<(ElementType, ElementStyle)>, t: ElementType) -> bool {
    exists|i: int| 0 <= i < entries.len() && entries[i].0 == t
}

/// The per-type style table of a configuration.
#[derive(Debug, Clone)]
pub struct StyleMap {
    entries: Vec<(ElementType, ElementStyle)>,
}

impl View for StyleMap {
    type V = Seq<(ElementType, ElementStyle)>;

    closed spec fn view(&self) -> Seq<(ElementType, ElementStyle)> {
        self.entries@
    }
}

impl StyleMap {
    pub fn new() -> (r: Self)
        ensures
            r@ == Seq::<(ElementType, ElementStyle)>::empty(),
    {
        StyleMap { entries: Vec::new() }
    }

    /// Add a style at the front of the table, so that the newest entry for a
    /// type wins the lookup.
    pub fn set(&mut self, t: ElementType, style: ElementStyle)
        ensures
            final(self)@ == seq![(t, style)] + old(self)@,
    {
        self.entries.insert(0, (t, style));
        proof {
            assert(self.entries@ =~= seq![(t, style)] + old(self).entries@);
        }
    }

    /// Look up the style for a type, falling back to the global default.
    pub fn style_for(&self, t: ElementType) -> (r: ElementStyle)
        ensures
            r == style_for_v(self@, t),
    {
        let mut i: usize = 0;
        proof {
            assert(self.entries@.skip(0) =~= self.entries@);
        }
        while i < self.entries.len()
            invariant
                0 <= i <= self.entries@.len(),
                style_for_v(self.entries@, t) == style_for_v(
                    self.entries@.skip(i as int),
                    t,
                ),
            decreases self.entries@.len() - i,
        {
            let ghost rem = self.entries@.skip(i as int);
            proof {
                assert(rem[0] == self.entries@[i as int]);
                assert(rem.skip(1) =~= self.entries@.skip(i as int + 1));
            }
            let (et, style) = self.entries[i];
            if et == t {
                return style;
            }
            i = i + 1;
        }
        proof {
            assert(self.entries@.skip(i as int) =~= Seq::<(ElementType, ElementStyle)>::empty());
        }
        ElementStyle::default()
    }

    /// Whether the table holds an entry for a type.
    pub fn contains(&self, t: ElementType) -> (r: bool)
        ensures
            r == has_style_v(self@, t),
    {
        let mut i: usize = 0;
        while i < self.entries.len()
            invariant
                0 <= i <= self.entries@.len(),
                forall|k: int| 0 <= k < i ==> self.entries@[k].0 != t,
            decreases self.entries@.len() - i,
        {
            let (et, _style) = self.entries[i];
            if et == t {
                return true;
            }
            i = i + 1;
        }
        false
    }
}

/// Mathematical model of a [`PageConfig`].
pub struct PageConfigV {
    pub paper_size: PaperSize,
    pub lines_per_page: usize,
    pub element_styles: Seq<(ElementType, ElementStyle)>,
    pub continuation_style: ContinuationStyleV,
    pub orphan_control: OrphanControlConfig,
}

/// Complete page configuration.
#[derive(Debug, Clone)]
pub struct PageConfig {
    pub paper_size: PaperSize,

    /// Lines per page (typically 55 for US Letter).
    pub lines_per_page: usize,

    /// Styles for each element type.
    pub element_styles: StyleMap,

    /// Dialogue continuation configuration.
    pub continuation_style: ContinuationStyle,

    /// Orphan/widow control settings.
    pub orphan_control: OrphanControlConfig,
}

impl View for PageConfig {
    type V = PageConfigV;

    open spec fn view(&self) -> PageConfigV {
        PageConfigV {
            paper_size: self.paper_size,
            lines_per_page: self.lines_per_page,
            element_styles: self.element_styles@,
            continuation_style: self.continuation_style@,
            orphan_control: self.orphan_control,
        }
    }
}

/// The style table of the feature-film configuration, newest entry first.
pub open spec fn feature_film_styles_v() -> Seq<(ElementType, ElementStyle)> {
    seq![
        (ElementType::BlankLine, default_style_for_v(ElementType::BlankLine)),
        (ElementType::Shot, default_style_for_v(ElementType::Shot)),
        (ElementType::PageBreak, default_style_for_v(ElementType::PageBreak)),
        (ElementType::ActBreak, default_style_for_v(ElementType::ActBreak)),
        (ElementType::Transition, default_style_for_v(ElementType::Transition)),
        (ElementType::Parenthetical, default_style_for_v(ElementType::Parenthetical)),
        (ElementType::Dialogue, default_style_for_v(ElementType::Dialogue)),
        (ElementType::Character, default_style_for_v(ElementType::Character)),
        (ElementType::Action, default_style_for_v(ElementType::Action)),
        (ElementType::SceneHeading, default_style_for_v(ElementType::SceneHeading)),
    ]
}

impl PageConfig {
    /// The canonical US feature-film format: US Letter, 55 lines per page,
    /// the default style table, MORE/CONT'D continuation markers enabled,
    /// and orphan minima of two lines throughout.
    pub fn feature_film() -> (r: Self)
        ensures
            r@.paper_size == PaperSize::UsLetter,
            r@.lines_per_page == 55,
            r@.element_styles == feature_film_styles_v(),
            r@.continuation_style.more_marker == "(MORE)"@,
            r@.continuation_style.contd_marker == "(CONT'D)"@,
            r@.continuation_style.enabled,
            r@.orphan_control == default_orphan_control_v(),
    {
        let mut element_styles = StyleMap::new();
        element_styles.set(
            ElementType::SceneHeading,
            ElementStyle::default_for(ElementType::SceneHeading),
        );
        element_styles.set(ElementType::Action, ElementStyle::default_for(ElementType::Action));
        element_styles.set(
            ElementType::Character,
            ElementStyle::default_for(ElementType::Character),
        );
        element_styles.set(
            ElementType::Dialogue,
            ElementStyle::default_for(ElementType::Dialogue),
        );
        element_styles.set(
            ElementType::Parenthetical,
            ElementStyle::default_for(ElementType::Parenthetical),
        );
        element_styles.set(
            ElementType::Transition,
            ElementStyle::default_for(ElementType::Transition),
        );
        element_styles.set(
            ElementType::ActBreak,
            ElementStyle::default_for(ElementType::ActBreak),
        );
        element_styles.set(
            ElementType::PageBreak,
            ElementStyle::default_for(ElementType::PageBreak),
        );
        element_styles.set(ElementType::Shot, ElementStyle::default_for(ElementType::Shot));
        element_styles.set(
            ElementType::BlankLine,
            ElementStyle::default_for(ElementType::BlankLine),
        );
        proof {
            assert(element_styles@ =~= feature_film_styles_v());
        }
        PageConfig {
            paper_size: PaperSize::UsLetter,
            lines_per_page: 55,
            element_styles,
            continuation_style: ContinuationStyle::default(),
            orphan_control: OrphanControlConfig::default(),
        }
    }

    /// The style for an element type under this configuration.
    pub fn style_for(&self, element_type: ElementType) -> (r: ElementStyle)
        ensures
            r == style_for_v(self@.element_styles, element_type),
    {
        self.element_styles.style_for(element_type)
    }
}

} // verus!
