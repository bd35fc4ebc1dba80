//! The progress journal: reading positions and highlight actions, where an
//! undo is itself an entry that takes back the action recorded before it.

use vstd::prelude::*;
use vstd::string::*;

pub use crate::progress::generate_hash;
use crate::progress::events::{Event, Progress};
use crate::progress::highlights::{
    contains_line, export_body, lemma_without_contains, lemma_without_distinct, push_export_body,
    push_keeps_distinct, remove_line, without,
};

verus! {

// ---------------------------------------------------------------------------
// Reading progress
// ---------------------------------------------------------------------------

/// The latest position recorded for a document.
pub open spec fn latest_progress(events: Seq<Event>, document: u64) -> Option<Progress>
    decreases events.len(),
{
    if events.len() == 0 {
        None
    } else {
        match events.last() {
            Event::UpdateProgress { document_hash, offset, total_lines, .. } => if document_hash
                == document {
                Some(Progress { document_hash, offset, total_lines })
            } else {
                latest_progress(events.drop_last(), document)
            },
            _ => latest_progress(events.drop_last(), document),
        }
    }
}

/// Records a reading position.
pub fn save_progress(
    events: &mut Vec<Event>,
    document_hash: u64,
    offset: usize,
    total_lines: usize,
    timestamp: i64,
)
    ensures
        final(events)@ == old(events)@.push(
            Event::UpdateProgress { timestamp, document_hash, offset, total_lines },
        ),
{
    events.push(Event::UpdateProgress { timestamp, document_hash, offset, total_lines });
}

/// The latest position recorded for a document, if any.
pub fn load_progress(events: &Vec<Event>, document_hash: u64) -> (r: Option<Progress>)
    ensures
        r == latest_progress(events@, document_hash),
{
    let mut latest: Option<Progress> = None;
    let mut i: usize = 0;
    while i < events.len()
        invariant
            i <= events.len(),
            latest == latest_progress(events@.take(i as int), document_hash),
        decreases events.len() - i,
    {
        assert(events@.take(i + 1).drop_last() =~= events@.take(i as int));
        if let Event::UpdateProgress { document_hash: hash, offset, total_lines, .. } = events[i] {
            if hash == document_hash {
                latest = Some(Progress { document_hash: hash, offset, total_lines });
            }
        }
        i = i + 1;
    }
    assert(events@.take(events.len() as int) =~= events@);
    latest
}

// ---------------------------------------------------------------------------
// Highlight actions
// ---------------------------------------------------------------------------

/// Records that a line is highlighted.
pub fn add_highlight(events: &mut Vec<Event>, document_hash: u64, line_number: usize, timestamp: i64)
    ensures
        final(events)@ == old(events)@.push(
            Event::AddHighlight { timestamp, document_hash, line_number },
        ),
{
    events.push(Event::AddHighlight { timestamp, document_hash, line_number });
}

/// Records that a line is no longer highlighted.
pub fn remove_highlight(
    events: &mut Vec<Event>,
    document_hash: u64,
    line_number: usize,
    timestamp: i64,
)
    ensures
        final(events)@ == old(events)@.push(
            Event::RemoveHighlight { timestamp, document_hash, line_number },
        ),
{
    events.push(Event::RemoveHighlight { timestamp, document_hash, line_number });
}

/// Records that every highlight of a document is cleared.
pub fn clear_highlights(events: &mut Vec<Event>, document_hash: u64, timestamp: i64)
    ensures
        final(events)@ == old(events)@.push(Event::ClearHighlights { timestamp, document_hash }),
{
    events.push(Event::ClearHighlights { timestamp, document_hash });
}

/// A highlight action (add, remove, clear or undo) of the given document.
pub open spec fn is_highlight_action(e: Event, document: u64) -> bool {
    !(e is UpdateProgress) && e.document() == document
}

/// The highlight actions of a document, in log order.
pub open spec fn highlight_history(events: Seq<Event>, document: u64) -> Seq<Event>
    decreases events.len(),
{
    if events.len() == 0 {
        Seq::empty()
    } else if is_highlight_action(events.last(), document) {
        highlight_history(events.drop_last(), document).push(events.last())
    } else {
        highlight_history(events.drop_last(), document)
    }
}

/// The highlighted lines after the `i`-th action of a history: an undo takes
/// back the action just before it when that added or removed a line.
pub open spec fn journal_step(lines: Seq<usize>, history: Seq<Event>, i: int) -> Seq<usize> {
    match history[i] {
        Event::AddHighlight { line_number, .. } => if lines.contains(line_number) {
            lines
        } else {
            lines.push(line_number)
        },
        Event::RemoveHighlight { line_number, .. } => without(lines, line_number),
        Event::ClearHighlights { .. } => Seq::empty(),
        Event::UndoHighlight { .. } => if i > 0 {
            match history[i - 1] {
                Event::AddHighlight { line_number, .. } => without(lines, line_number),
                Event::RemoveHighlight { line_number, .. } => if lines.contains(line_number) {
                    lines
                } else {
                    lines.push(line_number)
                },
                _ => lines,
            }
        } else {
            lines
        },
        _ => lines,
    }
}

/// The highlighted lines after the first `n` actions of a history.
pub open spec fn journal_replay(history: Seq<Event>, n: int) -> Seq<usize>
    decreases n,
{
    if n <= 0 {
        Seq::empty()
    } else {
        journal_step(journal_replay(history, n - 1), history, n - 1)
    }
}

/// The highlighted lines of a document that the journal records.
pub open spec fn journal_highlights(events: Seq<Event>, document: u64) -> Seq<usize> {
    let h = highlight_history(events, document);
    journal_replay(h, h.len() as int)
}

fn history_of(events: &Vec<Event>, document_hash: u64) -> (r: Vec<Event>)
    ensures
        r@ == highlight_history(events@, document_hash),
{
    let mut history: Vec<Event> = Vec::new();
    let mut i: usize = 0;
    while i < events.len()
        invariant
            i <= events.len(),
            history@ == highlight_history(events@.take(i as int), document_hash),
        decreases events.len() - i,
    {
        assert(events@.take(i + 1).drop_last() =~= events@.take(i as int));
        let e = events[i];
        let is_update = match e {
            Event::UpdateProgress { .. } => true,
            _ => false,
        };
        if !is_update && e.document_hash() == document_hash {
            history.push(e);
        }
        i = i + 1;
    }
    assert(events@.take(events.len() as int) =~= events@);
    history
}

/// The highlighted lines of a document, replayed from the journal.
pub fn load_highlights(events: &Vec<Event>, document_hash: u64) -> (r: Vec<usize>)
    ensures
        r@ == journal_highlights(events@, document_hash),
{
    let history = history_of(events, document_hash);
    let mut highlights: Vec<usize> = Vec::new();
    let mut i: usize = 0;
    while i < history.len()
        invariant
            i <= history.len(),
            highlights@ == journal_replay(history@, i as int),
        decreases history.len() - i,
    {
        match history[i] {
            Event::AddHighlight { line_number, .. } => {
                if !contains_line(&highlights, line_number) {
                    highlights.push(line_number);
                }
            },
            Event::RemoveHighlight { line_number, .. } => {
                highlights = remove_line(&highlights, line_number);
            },
            Event::ClearHighlights { .. } => {
                highlights = Vec::new();
            },
            Event::UndoHighlight { .. } => {
                if i > 0 {
                    match history[i - 1] {
                        Event::AddHighlight { line_number, .. } => {
                            highlights = remove_line(&highlights, line_number);
                        },
                        Event::RemoveHighlight { line_number, .. } => {
                            if !contains_line(&highlights, line_number) {
                                highlights.push(line_number);
                            }
                        },
                        _ => {},
                    }
                }
            },
            _ => {},
        }
        i = i + 1;
    }
    highlights
}

/// The last highlight action recorded for a document.
pub open spec fn last_highlight_action(events: Seq<Event>, document: u64) -> Option<Event> {
    let h = highlight_history(events, document);
    if h.len() > 0 {
        Some(h.last())
    } else {
        None
    }
}

/// The last highlight action recorded for a document, if any.
pub fn get_last_highlight_event(events: &Vec<Event>, document_hash: u64) -> (r: Option<Event>)
    ensures
        r == last_highlight_action(events@, document_hash),
{
    let history = history_of(events, document_hash);
    if history.len() > 0 {
        Some(history[history.len() - 1])
    } else {
        None
    }
}

/// Records an undo of the last highlight action, when there is one; says
/// whether there was.
pub fn undo_last_highlight(events: &mut Vec<Event>, document_hash: u64, timestamp: i64) -> (r: bool)
    ensures
        r == (last_highlight_action(old(events)@, document_hash) is Some),
        r ==> final(events)@ == old(events)@.push(
            Event::UndoHighlight { timestamp, document_hash },
        ),
        !r ==> final(events)@ == old(events)@,
{
    if get_last_highlight_event(events, document_hash).is_some() {
        events.push(Event::UndoHighlight { timestamp, document_hash });
        true
    } else {
        false
    }
}

/// The exported text of a document's highlighted lines.
pub fn export_highlights(events: &Vec<Event>, document_hash: u64, lines: &Vec<String>) -> (r:
    String)
    ensures
        r@ == export_body(journal_highlights(events@, document_hash), lines@),
{
    let highlights = load_highlights(events, document_hash);
    let mut result = String::new();
    push_export_body(&mut result, &highlights, lines);
    result
}

// ---------------------------------------------------------------------------
// Laws
// ---------------------------------------------------------------------------

/// Loading a document's progress gives back the position saved last.
pub proof fn law_load_gives_last_save(
    events: Seq<Event>,
    document: u64,
    offset: usize,
    total_lines: usize,
    timestamp: i64,
)
    ensures
        latest_progress(
            events.push(
                Event::UpdateProgress { timestamp, document_hash: document, offset, total_lines },
            ),
            document,
        ) == Some(Progress { document_hash: document, offset, total_lines }),
{
}

/// Saving progress for one document does not change another's.
pub proof fn law_progress_per_document(events: Seq<Event>, e: Event, document: u64)
    requires
        e.document() != document,
    ensures
        latest_progress(events.push(e), document) == latest_progress(events, document),
{
    assert(events.push(e).drop_last() =~= events);
}

/// An undo right after a line was highlighted takes the highlight back.
pub proof fn law_undo_takes_back_add(
    events: Seq<Event>,
    document: u64,
    line: usize,
    t1: i64,
    t2: i64,
)
    ensures
        !journal_highlights(
            events.push(Event::AddHighlight { timestamp: t1, document_hash: document, line_number: line }).push(
                Event::UndoHighlight { timestamp: t2, document_hash: document },
            ),
            document,
        ).contains(line),
{
    let add = Event::AddHighlight { timestamp: t1, document_hash: document, line_number: line };
    let undo = Event::UndoHighlight { timestamp: t2, document_hash: document };
    let e1 = events.push(add);
    let e2 = e1.push(undo);
    assert(e2.drop_last() =~= e1);
    assert(e1.drop_last() =~= events);
    let h = highlight_history(events, document);
    let h2 = highlight_history(e2, document);
    assert(is_highlight_action(add, document) && is_highlight_action(undo, document));
    assert(highlight_history(e1, document) == h.push(add));
    assert(h2 == h.push(add).push(undo));
    assert(h2[h.len() as int] == add);
    assert(h2[h.len() as int + 1] == undo);
    lemma_without_contains(journal_replay(h2, h.len() as int + 1), line, line);
}

/// An undo right after a highlight was removed puts the line back.
pub proof fn law_undo_takes_back_remove(
    events: Seq<Event>,
    document: u64,
    line: usize,
    t1: i64,
    t2: i64,
)
    ensures
        journal_highlights(
            events.push(Event::RemoveHighlight { timestamp: t1, document_hash: document, line_number: line }).push(
                Event::UndoHighlight { timestamp: t2, document_hash: document },
            ),
            document,
        ).contains(line),
{
    let rem = Event::RemoveHighlight { timestamp: t1, document_hash: document, line_number: line };
    let undo = Event::UndoHighlight { timestamp: t2, document_hash: document };
    let e1 = events.push(rem);
    let e2 = e1.push(undo);
    assert(e2.drop_last() =~= e1);
    assert(e1.drop_last() =~= events);
    let h = highlight_history(events, document);
    let h2 = highlight_history(e2, document);
    assert(is_highlight_action(rem, document) && is_highlight_action(undo, document));
    assert(highlight_history(e1, document) == h.push(rem));
    assert(h2 == h.push(rem).push(undo));
    assert(h2[h.len() as int] == rem);
    assert(h2[h.len() as int + 1] == undo);
    let before = journal_replay(h2, h.len() as int + 1);
    if !before.contains(line) {
        assert(before.push(line)[before.len() as int] == line);
    }
}

proof fn lemma_journal_replay_distinct(history: Seq<Event>, n: int)
    ensures
        journal_replay(history, n).no_duplicates(),
    decreases n,
{
    if n > 0 {
        lemma_journal_replay_distinct(history, n - 1);
        let prev = journal_replay(history, n - 1);
        let i = n - 1;
        match history[i] {
            Event::AddHighlight { line_number, .. } => {
                if !prev.contains(line_number) {
                    push_keeps_distinct(prev, line_number);
                }
            },
            Event::RemoveHighlight { line_number, .. } => {
                lemma_without_distinct(prev, line_number);
            },
            Event::ClearHighlights { .. } => {
                assert(Seq::<usize>::empty().no_duplicates());
            },
            Event::UndoHighlight { .. } => {
                if i > 0 {
                    match history[i - 1] {
                        Event::AddHighlight { line_number, .. } => {
                            lemma_without_distinct(prev, line_number);
                        },
                        Event::RemoveHighlight { line_number, .. } => {
                            if !prev.contains(line_number) {
                                push_keeps_distinct(prev, line_number);
                            }
                        },
                        _ => {},
                    }
                }
            },
            _ => {},
        }
    }
}

/// The journal never lists a highlighted line twice, whatever the log: a line
/// highlighted again, or put back by an undo, is listed once.
pub proof fn law_journal_highlights_distinct(events: Seq<Event>, document: u64)
    ensures
        journal_highlights(events, document).no_duplicates(),
{
    let h = highlight_history(events, document);
    lemma_journal_replay_distinct(h, h.len() as int);
}

} // verus!
