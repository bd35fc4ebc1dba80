//! The reader's interaction mode and its transient state.

use vstd::prelude::*;

verus! {

/// What keys currently do.
#[derive(Clone, Copy, Debug, PartialEq, Eq, Structural)]
pub enum EditorMode {
    Normal,
    Command,
    Search,
    ReverseSearch,
    Visual,
}

/// Mode, prompt text, search and selection state of the reader.
pub struct EditorState {
    pub mode: EditorMode,
    pub command_buffer: String,
    pub search_query: String,
    /// `true` searches forward, `false` backward.
    pub search_direction: bool,
    pub last_search_index: Option<usize>,
    /// The current search match: line index, and start and end byte of the
    /// match in the lowercased line.
    pub current_match: Option<(usize, usize, usize)>,
    /// First line of a visual selection.
    pub visual_start: Option<usize>,
    /// Last line of a visual selection.
    pub visual_end: Option<usize>,
}

impl EditorState {
    /// Normal mode with empty prompt and query, forward search, no match and
    /// no selection.
    pub fn new() -> (s: Self)
        ensures
            s.mode == EditorMode::Normal,
            s.command_buffer@ == Seq::<char>::empty(),
            s.search_query@ == Seq::<char>::empty(),
            s.search_direction,
            s.last_search_index is None,
            s.current_match is None,
            s.visual_start is None,
            s.visual_end is None,
    {
        EditorState {
            mode: EditorMode::Normal,
            command_buffer: String::new(),
            search_query: String::new(),
            search_direction: true,
            last_search_index: None,
            current_match: None,
            visual_start: None,
            visual_end: None,
        }
    }
}

} // verus!
