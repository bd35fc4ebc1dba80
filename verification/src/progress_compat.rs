//! Undoing a highlight action by taking its entry out of the progress log.

use vstd::prelude::*;

pub use crate::progress::generate_hash;
use crate::progress::events::Event;
use crate::progress::highlights::{apply_event, highlights_of, local_add};

verus! {

/// An add, remove or clear of a document's highlights: what an undo can take
/// back.
pub open spec fn is_undoable(e: Event, document: u64) -> bool {
    (e is AddHighlight || e is RemoveHighlight || e is ClearHighlights) && e.document() == document
}

/// Position of the last undoable action of a document in the log.
pub open spec fn last_undoable(events: Seq<Event>, document: u64) -> Option<int>
    decreases events.len(),
{
    if events.len() == 0 {
        None
    } else if is_undoable(events.last(), document) {
        Some(events.len() - 1)
    } else {
        last_undoable(events.drop_last(), document)
    }
}

proof fn lemma_last_undoable_bounds(events: Seq<Event>, document: u64)
    ensures
        last_undoable(events, document) matches Some(i) ==> 0 <= i < events.len() && is_undoable(
            events[i],
            document,
        ) && forall|j: int| i < j < events.len() ==> !is_undoable(#[trigger] events[j], document),
        last_undoable(events, document) is None ==> forall|j: int|
            0 <= j < events.len() ==> !is_undoable(#[trigger] events[j], document),
    decreases events.len(),
{
    if events.len() > 0 {
        lemma_last_undoable_bounds(events.drop_last(), document);
        assert forall|j: int| 0 <= j < events.len() - 1 implies events[j] == events.drop_last()[j] by {}
    }
}

/// Takes the last add, remove or clear of a document's highlights out of the
/// log; says whether there was one.
pub fn undo_last_highlight(events: &mut Vec<Event>, document_hash: u64, _file_path: &str) -> (r:
    bool)
    ensures
        r == (last_undoable(old(events)@, document_hash) is Some),
        last_undoable(old(events)@, document_hash) matches Some(i) ==> final(events)@ == old(
            events,
        )@.remove(i),
        !r ==> final(events)@ == old(events)@,
{
    proof {
        lemma_last_undoable_bounds(events@, document_hash);
    }
    if events.len() == 0 {
        return false;
    }
    let mut i: usize = events.len();
    while i > 0
        invariant
            events@ == old(events)@,
            i <= events.len(),
            forall|j: int| i <= j < events.len() ==> !is_undoable(#[trigger] events@[j], document_hash),
            last_undoable(events@, document_hash) matches Some(k) ==> k < i,
        decreases i,
    {
        proof {
            lemma_last_undoable_bounds(events@, document_hash);
        }
        let e = events[i - 1];
        let undoable = match e {
            Event::AddHighlight { .. } => true,
            Event::RemoveHighlight { .. } => true,
            Event::ClearHighlights { .. } => true,
            _ => false,
        };
        if undoable && e.document_hash() == document_hash {
            events.remove(i - 1);
            return true;
        }
        i = i - 1;
    }
    proof {
        lemma_last_undoable_bounds(events@, document_hash);
    }
    false
}

/// Undoing right after highlighting a line that was not highlighted restores
/// the log as it was.
pub proof fn law_undo_reverts_add(events: Seq<Event>, document: u64, line: usize, timestamp: i64)
    requires
        !highlights_of(events, document).contains(line),
    ensures
        last_undoable(local_add(events, document, line, timestamp), document) == Some(
            events.len() as int,
        ),
        local_add(events, document, line, timestamp).remove(events.len() as int) == events,
{
    let e = local_add(events, document, line, timestamp);
    assert(e.drop_last() =~= events);
    assert(e.remove(events.len() as int) =~= events);
}

/// Undoing right after a highlight removal restores the log as it was.
pub proof fn law_undo_reverts_remove(events: Seq<Event>, document: u64, line: usize, timestamp: i64)
    ensures
        ({
            let e = events.push(
                Event::RemoveHighlight { timestamp, document_hash: document, line_number: line },
            );
            last_undoable(e, document) == Some(events.len() as int) && e.remove(
                events.len() as int,
            ) == events
        }),
{
    let e = events.push(
        Event::RemoveHighlight { timestamp, document_hash: document, line_number: line },
    );
    assert(e.remove(events.len() as int) =~= events);
}

/// Undoing right after clearing the highlights restores the log as it was.
pub proof fn law_undo_reverts_clear(events: Seq<Event>, document: u64, timestamp: i64)
    ensures
        ({
            let e = events.push(Event::ClearHighlights { timestamp, document_hash: document });
            last_undoable(e, document) == Some(events.len() as int) && e.remove(
                events.len() as int,
            ) == events
        }),
{
    let e = events.push(Event::ClearHighlights { timestamp, document_hash: document });
    assert(e.remove(events.len() as int) =~= events);
}

/// With nothing to undo, undoing changes nothing.
pub proof fn law_nothing_to_undo(events: Seq<Event>, document: u64)
    requires
        forall|j: int| 0 <= j < events.len() ==> !is_undoable(#[trigger] events[j], document),
    ensures
        last_undoable(events, document) is None,
    decreases events.len(),
{
    if events.len() > 0 {
        assert forall|j: int| 0 <= j < events.len() - 1 implies !is_undoable(
            #[trigger] events.drop_last()[j],
            document,
        ) by {
            assert(events.drop_last()[j] == events[j]);
        }
        law_nothing_to_undo(events.drop_last(), document);
    }
}

proof fn lemma_remove_other_document(events: Seq<Event>, i: int, other: u64)
    requires
        0 <= i < events.len(),
        events[i].document() != other,
    ensures
        highlights_of(events.remove(i), other) == highlights_of(events, other),
    decreases events.len(),
{
    let last = events.last();
    if i == events.len() - 1 {
        assert(events.remove(i) =~= events.drop_last());
        assert(events[i] == last);
        assert(apply_event(highlights_of(events.drop_last(), other), last, other) == highlights_of(
            events.drop_last(),
            other,
        ));
    } else {
        let d = events.drop_last();
        assert(d[i] == events[i]);
        lemma_remove_other_document(d, i, other);
        let r = events.remove(i);
        assert(r.drop_last() =~= d.remove(i));
        assert(r.last() == last);
        assert(r.len() > 0);
    }
}

/// An undo for a document only takes out an entry of that document: the entry
/// taken out is one of its adds, removes or clears, and every other document's
/// highlights stay as they were.
pub proof fn law_undo_keeps_other_documents(events: Seq<Event>, document: u64, other: u64)
    requires
        other != document,
    ensures
        last_undoable(events, document) matches Some(i) ==> {
            &&& events[i].document() == document
            &&& (events[i] is AddHighlight || events[i] is RemoveHighlight
                || events[i] is ClearHighlights)
            &&& highlights_of(events.remove(i), other) == highlights_of(events, other)
        },
{
    lemma_last_undoable_bounds(events, document);
    if let Some(i) = last_undoable(events, document) {
        lemma_remove_other_document(events, i, other);
    }
}

/// The entry an undo takes out is the last add, remove or clear of the
/// document: every later entry is of another document or of another kind.
pub proof fn law_undo_takes_the_last_action(events: Seq<Event>, document: u64)
    ensures
        last_undoable(events, document) matches Some(i) ==> forall|j: int|
            i < j < events.len() ==> !((events[j] is AddHighlight || events[j] is RemoveHighlight
                || events[j] is ClearHighlights) && events[j].document() == document),
        last_undoable(events, document) is None ==> forall|j: int|
            0 <= j < events.len() ==> !((events[j] is AddHighlight || events[j] is RemoveHighlight
                || events[j] is ClearHighlights) && events[j].document() == document),
{
    lemma_last_undoable_bounds(events, document);
}

} // verus!
