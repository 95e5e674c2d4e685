//! The pagination result: pages, a per-element position index, warnings and
//! statistics.

use vstd::prelude::*;

use crate::element::ElementId;
use crate::page::Page;
use crate::page::PageIdentifier;
use crate::page::PageV;
use crate::text::str_eq;

verus! {

/// Mathematical model of an [`ElementPosition`].
pub struct ElementPositionV {
    pub pages: Seq<PageIdentifier>,
    pub start_line: nat,
    pub end_line: nat,
    pub is_split: bool,
}

/// Where an element landed in the paginated document.
#[derive(Debug, Clone)]
pub struct ElementPosition {
    /// The page(s) this element appears on: one identifier, or two for a
    /// split element.
    pub pages: Vec<PageIdentifier>,

    /// Starting line on the first page (1-indexed).
    pub start_line: usize,

    /// Ending line on the last page (1-indexed).
    pub end_line: usize,

    /// Whether the element was split across pages.
    pub is_split: bool,
}

impl View for ElementPosition {
    type V = ElementPositionV;

    open spec fn view(&self) -> ElementPositionV {
        ElementPositionV {
            pages: self.pages@,
            start_line: self.start_line as nat,
            end_line: self.end_line as nat,
            is_split: self.is_split,
        }
    }
}

/// The finite map described by an association list, later entries winning.
pub open spec fn assoc_map_v(entries: Seq<(String, ElementPosition)>) -> Map<
    Seq<char>,
    ElementPositionV,
>
    decreases entries.len(),
{
    if entries.len() == 0 {
        Map::<Seq<char>, ElementPositionV>::empty()
    } else {
        assoc_map_v(entries.drop_last()).insert(entries.last().0@, entries.last().1@)
    }
}

/// Distinct keys in an association list.
pub open spec fn assoc_distinct_v(entries: Seq<(String, ElementPosition)>) -> bool {
    forall|i: int, j: int|
        0 <= i < j < entries.len() ==> entries[i].0@ != entries[j].0@
}

proof fn lemma_assoc_dom(entries: Seq<(String, ElementPosition)>)
    ensures
        forall|k: Seq<char>|
            assoc_map_v(entries).dom().contains(k) <==> exists|i: int|
                0 <= i < entries.len() && entries[i].0@ == k,
    decreases entries.len(),
{
    if entries.len() > 0 {
        let prefix = entries.drop_last();
        lemma_assoc_dom(prefix);
        let m = assoc_map_v(entries);
        assert(m == assoc_map_v(prefix).insert(entries.last().0@, entries.last().1@));
        assert forall|k: Seq<char>|
            m.dom().contains(k) implies exists|i: int|
            0 <= i < entries.len() && entries[i].0@ == k by {
            if k == entries.last().0@ {
                let i = entries.len() - 1;
                assert(0 <= i < entries.len() && entries[i].0@ == k);
            } else {
                assert(assoc_map_v(prefix).dom().contains(k));
                let i = choose|i: int| 0 <= i < prefix.len() && prefix[i].0@ == k;
                assert(prefix[i] == entries[i]);
                assert(0 <= i < entries.len() && entries[i].0@ == k);
            }
        }
        assert forall|k: Seq<char>|
            (exists|i: int| 0 <= i < entries.len() && entries[i].0@ == k)
            implies m.dom().contains(k) by {
            let i = choose|i: int| 0 <= i < entries.len() && entries[i].0@ == k;
            if i < entries.len() - 1 {
                assert(prefix[i].0@ == k);
                assert(assoc_map_v(prefix).dom().contains(k));
            } else {
                assert(k == entries.last().0@);
            }
        }
    }
}

proof fn lemma_assoc_len(entries: Seq<(String, ElementPosition)>)
    requires
        assoc_distinct_v(entries),
    ensures
        assoc_map_v(entries).dom().len() == entries.len(),
        assoc_map_v(entries).dom().finite(),
    decreases entries.len(),
{
    if entries.len() == 0 {
    } else {
        let prefix = entries.drop_last();
        assert(assoc_distinct_v(prefix)) by {
            assert(forall|i: int, j: int|
                0 <= i < j < prefix.len() ==> entries[i].0@ != entries[j].0@);
        }
        lemma_assoc_len(prefix);
        lemma_assoc_dom(prefix);
        let k = entries.last().0@;
        assert(!assoc_map_v(prefix).dom().contains(k)) by {
            if exists|i: int| 0 <= i < prefix.len() && prefix[i].0@ == k {
                let i = choose|i: int| 0 <= i < prefix.len() && prefix[i].0@ == k;
                assert(entries[i].0@ == entries[entries.len() - 1].0@);
                assert(false);
            }
        }
        assert(assoc_map_v(entries).dom() =~= assoc_map_v(prefix).dom().insert(k));
    }
}

proof fn lemma_assoc_get(entries: Seq<(String, ElementPosition)>, i: int)
    requires
        assoc_distinct_v(entries),
        0 <= i < entries.len(),
    ensures
        assoc_map_v(entries).dom().contains(entries[i].0@),
        assoc_map_v(entries)[entries[i].0@] == entries[i].1@,
    decreases entries.len(),
{
    lemma_assoc_dom(entries);
    if i == entries.len() - 1 {
    } else {
        let prefix = entries.drop_last();
        assert(assoc_distinct_v(prefix)) by {
            assert(forall|a: int, b: int|
                0 <= a < b < prefix.len() ==> entries[a].0@ != entries[b].0@);
        }
        assert(prefix[i] == entries[i]);
        lemma_assoc_get(prefix, i);
        assert(entries[i].0@ != entries.last().0@);
    }
}

/// An index from element id to [`ElementPosition`], with map semantics:
/// inserting an id that is already present replaces its entry.
#[derive(Debug)]
pub struct PositionMap {
    entries: Vec<(String, ElementPosition)>,
}

impl View for PositionMap {
    type V = Map<Seq<char>, ElementPositionV>;

    closed spec fn view(&self) -> Map<Seq<char>, ElementPositionV> {
        assoc_map_v(self.entries@)
    }
}

impl PositionMap {
    #[verifier::type_invariant]
    closed spec fn wf(self) -> bool {
        assoc_distinct_v(self.entries@)
    }

    pub fn new() -> (r: Self)
        ensures
            r@ == Map::<Seq<char>, ElementPositionV>::empty(),
    {
        PositionMap { entries: Vec::new() }
    }

    /// Insert or replace the position recorded for an id.
    pub fn insert(&mut self, element_id: &str, position: ElementPosition)
        ensures
            final(self)@ == old(self)@.insert(element_id@, position@),
    {
        proof {
            use_type_invariant(&*self);
        }
        let mut tmp = PositionMap { entries: Vec::new() };
        core::mem::swap(self, &mut tmp);
        let PositionMap { entries: mut entries } = tmp;
        let ghost old_entries = entries@;
        let mut j: usize = 0;
        let mut found = false;
        while !found && j < entries.len()
            invariant
                entries@ == old_entries,
                0 <= j <= old_entries.len(),
                forall|k: int| 0 <= k < j ==> old_entries[k].0@ != element_id@,
                found ==> j < old_entries.len() && old_entries[j as int].0@ == element_id@,
            decreases old_entries.len() - j + (if found { 0int } else { 1int }),
        {
            if str_eq(entries[j].0.as_str(), element_id) {
                found = true;
            } else {
                j = j + 1;
            }
        }
        if found {
            let _removed = entries.remove(j);
            proof {
                lemma_assoc_remove(old_entries, j as int);
            }
        }
        let pair = (element_id.to_owned(), position);
        let ghost mid_entries = entries@;
        entries.push(pair);
        proof {
            assert(entries@.drop_last() =~= mid_entries);
            assert(entries@.last().0@ == element_id@);
            assert(assoc_map_v(entries@) == assoc_map_v(mid_entries).insert(
                element_id@,
                position@,
            ));
            if found {
                assert(assoc_map_v(mid_entries) == assoc_map_v(old_entries).remove(element_id@));
                assert(assoc_map_v(mid_entries).insert(element_id@, position@) =~= assoc_map_v(
                    old_entries,
                ).insert(element_id@, position@));
                assert(assoc_distinct_v(mid_entries)) by {
                    assert(forall|a: int, b: int|
                        0 <= a < b < mid_entries.len() ==> mid_entries[a].0@
                            != mid_entries[b].0@) by {
                        assert(forall|a: int|
                            0 <= a < mid_entries.len() ==> mid_entries[a]
                                == (if a < j { old_entries[a] } else { old_entries[a + 1] }));
                    }
                }
                lemma_assoc_dom(mid_entries);
                assert(forall|k: int|
                    0 <= k < mid_entries.len() ==> mid_entries[k].0@ != element_id@) by {
                    assert(forall|k: int|
                        0 <= k < mid_entries.len() ==> mid_entries[k]
                            == (if k < j { old_entries[k] } else { old_entries[k + 1] }));
                }
                assert(assoc_distinct_v(entries@));
            } else {
                assert(assoc_distinct_v(entries@)) by {
                    assert(forall|k: int|
                        0 <= k < mid_entries.len() ==> mid_entries[k].0@ != element_id@);
                }
            }
        }
        let result = PositionMap { entries };
        *self = result;
    }

    /// The recorded position for an id, if any.
    pub fn get(&self, element_id: &str) -> (r: Option<&ElementPosition>)
        ensures
            match r {
                Some(p) => self@.dom().contains(element_id@) && p@ == self@[element_id@],
                None => !self@.dom().contains(element_id@),
            },
    {
        proof {
            use_type_invariant(&*self);
            lemma_assoc_dom(self.entries@);
        }
        let mut j: usize = 0;
        while j < self.entries.len()
            invariant
                assoc_distinct_v(self.entries@),
                0 <= j <= self.entries@.len(),
                forall|k: int| 0 <= k < j ==> self.entries@[k].0@ != element_id@,
            decreases self.entries@.len() - j,
        {
            if str_eq(self.entries[j].0.as_str(), element_id) {
                proof {
                    lemma_assoc_get(self.entries@, j as int);
                }
                return Some(&self.entries[j].1);
            }
            j = j + 1;
        }
        proof {
            lemma_assoc_dom(self.entries@);
        }
        None
    }

    /// Whether an id has a recorded position.
    pub fn contains_key(&self, element_id: &str) -> (r: bool)
        ensures
            r == self@.dom().contains(element_id@),
    {
        match self.get(element_id) {
            Some(_) => true,
            None => false,
        }
    }

    /// The number of recorded positions.
    pub fn len(&self) -> (r: usize)
        ensures
            r as nat == self@.dom().len(),
    {
        proof {
            use_type_invariant(&*self);
            lemma_assoc_len(self.entries@);
        }
        self.entries.len()
    }

    /// The recorded entries, one per id.
    pub fn entries(&self) -> (r: &Vec<(String, ElementPosition)>)
        ensures
            assoc_map_v(r@) == self@,
            assoc_distinct_v(r@),
    {
        proof {
            use_type_invariant(&*self);
        }
        &self.entries
    }

    /// Whether no positions are recorded.
    pub fn is_empty(&self) -> (r: bool)
        ensures
            r == (self@.dom() =~= Set::<Seq<char>>::empty()),
    {
        proof {
            use_type_invariant(&*self);
            lemma_assoc_len(self.entries@);
            lemma_assoc_dom(self.entries@);
            if self.entries@.len() > 0 {
                assert(self@.dom().contains(self.entries@[0].0@));
            }
        }
        self.entries.len() == 0
    }
}

proof fn lemma_assoc_remove(entries: Seq<(String, ElementPosition)>, j: int)
    requires
        assoc_distinct_v(entries),
        0 <= j < entries.len(),
    ensures
        assoc_map_v(entries.remove(j)) == assoc_map_v(entries).remove(entries[j].0@),
    decreases entries.len(),
{
    let k = entries[j].0@;
    if j == entries.len() - 1 {
        assert(entries.remove(j) =~= entries.drop_last());
        lemma_assoc_dom(entries.drop_last());
        assert(!assoc_map_v(entries.drop_last()).dom().contains(k)) by {
            if exists|i: int|
                0 <= i < entries.drop_last().len() && entries.drop_last()[i].0@ == k {
                let i = choose|i: int|
                    0 <= i < entries.drop_last().len() && entries.drop_last()[i].0@ == k;
                assert(entries[i].0@ == entries[j].0@);
                assert(false);
            }
        }
        assert(assoc_map_v(entries.drop_last()) =~= assoc_map_v(entries).remove(k));
    } else {
        let prefix = entries.drop_last();
        assert(assoc_distinct_v(prefix)) by {
            assert(forall|a: int, b: int|
                0 <= a < b < prefix.len() ==> entries[a].0@ != entries[b].0@);
        }
        assert(prefix[j] == entries[j]);
        lemma_assoc_remove(prefix, j);
        assert(entries.remove(j).drop_last() =~= prefix.remove(j));
        assert(entries.remove(j).len() == entries.len() - 1);
        assert(entries.remove(j).last() == entries.last());
        assert(assoc_map_v(entries.remove(j)) == assoc_map_v(prefix.remove(j)).insert(
            entries.last().0@,
            entries.last().1@,
        ));
        assert(entries.last().0@ != k);
        assert(assoc_map_v(prefix).remove(k).insert(entries.last().0@, entries.last().1@)
            =~= assoc_map_v(prefix).insert(entries.last().0@, entries.last().1@).remove(k));
    }
}

/// Warning classes reported through the result's warning channel.
#[derive(Debug, Clone, Copy, PartialEq, Eq, Structural)]
pub enum WarningType {
    /// An element needs more lines than a whole page holds.
    ElementExceedsPage,

    /// An orphan could not be prevented.
    UnpreventableOrphan,

    /// A configuration violates sanity limits.
    ConfigurationWarning,

    /// A dual-dialogue layout issue.
    DualDialogueOverflow,
}

/// Mathematical model of a [`PaginationWarning`].
pub struct PaginationWarningV {
    pub element_id: Option<Seq<char>>,
    pub warning_type: WarningType,
    pub message: Seq<char>,
}

/// A warning generated during pagination. Warnings never abort the pass.
#[derive(Debug, Clone)]
pub struct PaginationWarning {
    pub element_id: Option<ElementId>,
    pub warning_type: WarningType,
    pub message: String,
}

impl View for PaginationWarning {
    type V = PaginationWarningV;

    open spec fn view(&self) -> PaginationWarningV {
        PaginationWarningV {
            element_id: match self.element_id {
                Some(ref id) => Some(id@),
                None => None,
            },
            warning_type: self.warning_type,
            message: self.message@,
        }
    }
}

/// Statistics about one pagination run. `timing_us` is the only
/// non-deterministic observable of the engine and is opaque to every
/// contract.
#[derive(Debug, Clone, Copy, PartialEq, Eq, Structural)]
pub struct PaginationStats {
    /// Total page count.
    pub page_count: usize,

    /// Total elements processed.
    pub element_count: usize,

    /// Number of page breaks.
    pub break_count: usize,

    /// Number of dialogue continuations (MORE/CONT'D pairs).
    pub continuation_count: usize,

    /// Wall-clock duration of the pass in microseconds.
    pub timing_us: u64,
}

/// Mathematical model of the [`PaginationStats`], without the opaque
/// timing field: `timing_us` is the engine's only non-deterministic
/// observable, so it stays outside the mathematical model.
pub struct PaginationStatsV {
    pub page_count: nat,
    pub element_count: nat,
    pub break_count: nat,
    pub continuation_count: nat,
}

/// Mathematical model of a [`PaginationResult`].
pub struct PaginationResultV {
    pub pages: Seq<PageV>,
    pub element_positions: Map<Seq<char>, ElementPositionV>,
    pub warnings: Seq<PaginationWarningV>,
    pub stats: PaginationStatsV,
}

/// Complete result of one pagination pass.
#[derive(Debug)]
pub struct PaginationResult {
    /// All pages, in order.
    pub pages: Vec<Page>,

    /// Lookup from element id to its position.
    pub element_positions: PositionMap,

    /// Warnings generated during the pass.
    pub warnings: Vec<PaginationWarning>,

    /// Statistics of the pass.
    pub stats: PaginationStats,
}

impl View for PaginationResult {
    type V = PaginationResultV;

    open spec fn view(&self) -> PaginationResultV {
        PaginationResultV {
            pages: self.pages@.map_values(|p: Page| p@),
            element_positions: self.element_positions@,
            warnings: self.warnings@.map_values(|w: PaginationWarning| w@),
            stats: PaginationStatsV {
                page_count: self.stats.page_count as nat,
                element_count: self.stats.element_count as nat,
                break_count: self.stats.break_count as nat,
                continuation_count: self.stats.continuation_count as nat,
            },
        }
    }
}

impl PaginationResult {
    /// An empty result: no pages, no positions, no warnings, zeroed stats.
    pub fn new() -> (r: Self)
        ensures
            r@.pages == Seq::<PageV>::empty(),
            r@.element_positions == Map::<Seq<char>, ElementPositionV>::empty(),
            r@.warnings == Seq::<PaginationWarningV>::empty(),
            r@.stats == (PaginationStatsV {
                page_count: 0,
                element_count: 0,
                break_count: 0,
                continuation_count: 0,
            }),
            r.stats.timing_us == 0,
    {
        let r = PaginationResult {
            pages: Vec::new(),
            element_positions: PositionMap::new(),
            warnings: Vec::new(),
            stats: PaginationStats {
                page_count: 0,
                element_count: 0,
                break_count: 0,
                continuation_count: 0,
                timing_us: 0,
            },
        };
        proof {
            assert(r@.pages =~= Seq::<PageV>::empty());
            assert(r@.warnings =~= Seq::<PaginationWarningV>::empty());
        }
        r
    }

    /// The first page an element appears on, if it was placed.
    pub fn get_page_for_element(&self, element_id: &str) -> (r: Option<&PageIdentifier>)
        ensures
            match r {
                Some(pid) => self@.element_positions.dom().contains(element_id@)
                    && self@.element_positions[element_id@].pages.len() > 0 && *pid
                    == self@.element_positions[element_id@].pages[0],
                None => !self@.element_positions.dom().contains(element_id@)
                    || self@.element_positions[element_id@].pages.len() == 0,
            },
    {
        match self.element_positions.get(element_id) {
            Some(pos) => {
                if pos.pages.len() > 0 {
                    Some(&pos.pages[0])
                } else {
                    None
                }
            },
            None => None,
        }
    }

    /// The total page count.
    pub fn page_count(&self) -> (r: usize)
        ensures
            r == self@.stats.page_count,
    {
        self.stats.page_count
    }
}

impl Default for PaginationResult {
    fn default() -> (r: Self)
        ensures
            r@.pages == Seq::<PageV>::empty(),
            r@.element_positions == Map::<Seq<char>, ElementPositionV>::empty(),
            r@.warnings == Seq::<PaginationWarningV>::empty(),
            r@.stats == (PaginationStatsV {
                page_count: 0,
                element_count: 0,
                break_count: 0,
                continuation_count: 0,
            }),
            r.stats.timing_us == 0,
    {
        PaginationResult::new()
    }
}

} // verus!
