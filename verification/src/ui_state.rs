//! Persisted GUI session state (single row in the `ui_state` table).

use vstd::prelude::*;
use crate::filters::{no_filters, Filters};
use crate::ids::ImageId;
use crate::sort::{Sort, SortDir, SortKey};

verus! {

/// Which search mode the session was in when last saved.
#[derive(Debug, Clone, PartialEq)]
pub enum PersistedMode {
    Browse,
    Text(String),
    /// Seed image id for a similarity search.
    Similar(ImageId),
}

impl Default for PersistedMode {
    fn default() -> (r: Self)
        ensures
            r is Browse,
    {
        PersistedMode::Browse
    }
}

/// One color brush: a curated set of tag names quick-applied as a unit. The
/// color is input-only; these tags are assigned to images as ordinary tags.
#[derive(Debug, Clone, PartialEq)]
pub struct TagBrush {
    pub tags: Vec<String>,
}

impl Default for TagBrush {
    fn default() -> (r: Self)
        ensures
            r.tags@.len() == 0,
    {
        TagBrush { tags: Vec::new() }
    }
}

/// The rail is shown on first launch, and where an older session does not say.
pub fn default_true() -> (r: bool)
    ensures
        r,
{
    true
}

/// Full GUI session state.
#[derive(Debug, Clone, PartialEq)]
pub struct UiState {
    pub search_text: String,
    pub mode: PersistedMode,
    pub sort: Sort,
    pub filters: Filters,
    pub result_ids: Vec<ImageId>,
    pub selected_index: Option<usize>,
    pub detail_open: bool,
    /// The bits of the single-precision scroll position.
    pub scroll_y_bits: u32,
    /// Five color brushes, indexed by `colors::BrushColor::index`.
    pub brushes: [TagBrush; 5],
    /// The live, editable "Most Recent" (`mm`) staging set.
    pub recent_tags: Vec<String>,
    /// Left-rail visibility (defaults to shown).
    pub rail_visible: bool,
}

impl Default for UiState {
    fn default() -> (r: Self)
        ensures
            r.search_text@.len() == 0,
            r.mode is Browse,
            r.sort == (Sort { key: SortKey::Name, dir: SortDir::Asc }),
            r.filters@ == no_filters(),
            r.result_ids@.len() == 0,
            r.selected_index is None,
            !r.detail_open,
            r.scroll_y_bits == 0,
            forall|i: int| 0 <= i < 5 ==> (#[trigger] r.brushes@[i]).tags@.len() == 0,
            r.recent_tags@.len() == 0,
            r.rail_visible,
    {
        UiState {
            search_text: String::new(),
            mode: PersistedMode::default(),
            sort: Sort::default(),
            filters: Filters::default(),
            result_ids: Vec::new(),
            selected_index: None,
            detail_open: false,
            scroll_y_bits: 0,
            brushes: [
                TagBrush::default(),
                TagBrush::default(),
                TagBrush::default(),
                TagBrush::default(),
                TagBrush::default(),
            ],
            recent_tags: Vec::new(),
            rail_visible: default_true(),
        }
    }
}

} // verus!
