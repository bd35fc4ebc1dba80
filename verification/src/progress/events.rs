//! The events of the progress log.

use vstd::prelude::*;

verus! {

/// One entry of the progress log. Timestamps are nanoseconds since the Unix
/// epoch.
#[derive(Clone, Copy, Debug, PartialEq, Eq)]
pub enum Event {
    UpdateProgress { timestamp: i64, document_hash: u64, offset: usize, total_lines: usize },
    AddHighlight { timestamp: i64, document_hash: u64, line_number: usize },
    RemoveHighlight { timestamp: i64, document_hash: u64, line_number: usize },
    ClearHighlights { timestamp: i64, document_hash: u64 },
    UndoHighlight { timestamp: i64, document_hash: u64 },
}

/// The latest reading position recorded for a document.
#[derive(Clone, Copy, Debug, PartialEq, Eq)]
pub struct Progress {
    pub document_hash: u64,
    pub offset: usize,
    pub total_lines: usize,
}

impl Event {
    /// The document an event belongs to.
    pub open spec fn document(self) -> u64 {
        match self {
            Event::UpdateProgress { document_hash, .. } => document_hash,
            Event::AddHighlight { document_hash, .. } => document_hash,
            Event::RemoveHighlight { document_hash, .. } => document_hash,
            Event::ClearHighlights { document_hash, .. } => document_hash,
            Event::UndoHighlight { document_hash, .. } => document_hash,
        }
    }

    /// The document an event belongs to.
    pub fn document_hash(&self) -> (r: u64)
        ensures
            r == self.document(),
    {
        match self {
            Event::UpdateProgress { document_hash, .. } => *document_hash,
            Event::AddHighlight { document_hash, .. } => *document_hash,
            Event::RemoveHighlight { document_hash, .. } => *document_hash,
            Event::ClearHighlights { document_hash, .. } => *document_hash,
            Event::UndoHighlight { document_hash, .. } => *document_hash,
        }
    }
}

} // verus!
