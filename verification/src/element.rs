//! Screenplay elements: the typed input units of the pagination engine.

use vstd::prelude::*;

verus! {

/// Unique identifier for each element, used for position tracking.
#[derive(Debug, Clone)]
pub struct ElementId(pub String);

impl View for ElementId {
    type V = Seq<char>;

    open spec fn view(&self) -> Seq<char> {
        self.0@
    }
}

impl ElementId {
    pub fn new(id: &str) -> (r: Self)
        ensures
            r@ == id@,
    {
        ElementId(id.to_owned())
    }
}

/// All screenplay element types: a closed set of tags.
#[derive(Debug, Clone, Copy, PartialEq, Eq, Structural)]
pub enum ElementType {
    SceneHeading,
    Action,
    Character,
    Dialogue,
    Parenthetical,
    Transition,
    Shot,
    DualDialogueLeft,
    DualDialogueRight,
    ActBreak,
    PageBreak,
    BlankLine,
}

/// Which column a dual-dialogue element occupies.
#[derive(Debug, Clone, Copy, PartialEq, Eq, Structural)]
pub enum DualDialoguePosition {
    Left,
    Right,
}

/// Mathematical model of an [`Element`].
pub struct ElementV {
    pub id: Seq<char>,
    pub element_type: ElementType,
    pub content: Seq<char>,
    pub character_name: Option<Seq<char>>,
    pub dual_dialogue_position: Option<DualDialoguePosition>,
    pub force_page_break_after: bool,
}

/// A single screenplay element with its content and metadata.
#[derive(Debug, Clone)]
pub struct Element {
    pub id: ElementId,
    pub element_type: ElementType,
    pub content: String,

    /// Character name for dialogue (used for CONT'D prefixes).
    pub character_name: Option<String>,

    /// Column, when the element is part of a dual-dialogue block.
    pub dual_dialogue_position: Option<DualDialoguePosition>,

    /// Whether this element forces a page break after it.
    pub force_page_break_after: bool,
}

impl View for Element {
    type V = ElementV;

    open spec fn view(&self) -> ElementV {
        ElementV {
            id: self.id@,
            element_type: self.element_type,
            content: self.content@,
            character_name: match self.character_name {
                Some(n) => Some(n@),
                None => None,
            },
            dual_dialogue_position: self.dual_dialogue_position,
            force_page_break_after: self.force_page_break_after,
        }
    }
}

impl Element {
    pub fn new(id: &str, element_type: ElementType, content: &str) -> (r: Self)
        ensures
            r@ == (ElementV {
                id: id@,
                element_type,
                content: content@,
                character_name: None,
                dual_dialogue_position: None,
                force_page_break_after: false,
            }),
    {
        Element {
            id: ElementId::new(id),
            element_type,
            content: content.to_owned(),
            character_name: None,
            dual_dialogue_position: None,
            force_page_break_after: false,
        }
    }

    pub fn with_character_name(self, name: &str) -> (r: Self)
        ensures
            r@ == (ElementV { character_name: Some(name@), ..self@ }),
    {
        Element { character_name: Some(name.to_owned()), ..self }
    }

    pub fn with_force_page_break(self) -> (r: Self)
        ensures
            r@ == (ElementV { force_page_break_after: true, ..self@ }),
    {
        Element { force_page_break_after: true, ..self }
    }
}

} // verus!
