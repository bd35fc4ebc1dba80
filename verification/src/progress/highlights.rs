//! Highlighted lines, as the progress log records them.

use vstd::prelude::*;
use vstd::string::*;

use super::events::Event;
use crate::progress_compat::last_undoable;
use crate::text::{decimal_text, push_decimal};

verus! {

// ---------------------------------------------------------------------------
// Line lists
// ---------------------------------------------------------------------------

/// The list with every occurrence of `x` taken out, order kept.
pub open spec fn without(s: Seq<usize>, x: usize) -> Seq<usize>
    decreases s.len(),
{
    if s.len() == 0 {
        s
    } else if s.last() == x {
        without(s.drop_last(), x)
    } else {
        without(s.drop_last(), x).push(s.last())
    }
}

pub proof fn lemma_without_contains(s: Seq<usize>, x: usize, y: usize)
    ensures
        without(s, x).contains(y) <==> (s.contains(y) && y != x),
    decreases s.len(),
{
    if s.len() > 0 {
        lemma_without_contains(s.drop_last(), x, y);
        assert(s =~= s.drop_last().push(s.last()));
        if s.drop_last().contains(y) {
            let k = choose|k: int| 0 <= k < s.drop_last().len() && s.drop_last()[k] == y;
            assert(s[k] == y);
        }
        if s.contains(y) && y != s.last() {
            let k = choose|k: int| 0 <= k < s.len() && s[k] == y;
            assert(k < s.len() - 1);
            assert(s.drop_last()[k] == y);
        }
        if s.last() != x {
            let w = without(s.drop_last(), x);
            assert(w.push(s.last())[w.len() as int] == s.last());
            if w.push(s.last()).contains(y) && y != s.last() {
                let k = choose|k: int| 0 <= k < w.len() + 1 && w.push(s.last())[k] == y;
                assert(w[k] == y);
            }
            if w.contains(y) {
                let k = choose|k: int| 0 <= k < w.len() && w[k] == y;
                assert(w.push(s.last())[k] == y);
            }
        }
    }
}

pub proof fn lemma_without_distinct(s: Seq<usize>, x: usize)
    requires
        s.no_duplicates(),
    ensures
        without(s, x).no_duplicates(),
    decreases s.len(),
{
    if s.len() > 0 {
        assert(s.drop_last().no_duplicates()) by {
            assert forall|i: int, j: int|
                0 <= i < s.drop_last().len() && 0 <= j < s.drop_last().len() && i != j implies
                s.drop_last()[i] != s.drop_last()[j] by {
                assert(s[i] == s.drop_last()[i] && s[j] == s.drop_last()[j]);
            }
        }
        lemma_without_distinct(s.drop_last(), x);
        if s.last() != x {
            let w = without(s.drop_last(), x);
            lemma_without_contains(s.drop_last(), x, s.last());
            assert(!s.drop_last().contains(s.last())) by {
                if s.drop_last().contains(s.last()) {
                    let k = choose|k: int| 0 <= k < s.drop_last().len() && s.drop_last()[k] == s.last();
                    assert(s[k] == s[s.len() - 1]);
                }
            }
            push_keeps_distinct(w, s.last());
        }
    }
}

pub proof fn push_keeps_distinct(w: Seq<usize>, v: usize)
    requires
        w.no_duplicates(),
        !w.contains(v),
    ensures
        w.push(v).no_duplicates(),
{
    assert forall|i: int, j: int|
        0 <= i < w.len() + 1 && 0 <= j < w.len() + 1 && i != j implies w.push(v)[i] != w.push(v)[j] by {
        if i == w.len() {
            assert(w.push(v)[j] == w[j]);
        } else if j == w.len() {
            assert(w.push(v)[i] == w[i]);
        } else {
            assert(w.push(v)[i] == w[i] && w.push(v)[j] == w[j]);
        }
    }
}

/// Whether a line is in the list.
pub fn contains_line(lines: &Vec<usize>, line: usize) -> (r: bool)
    ensures
        r == lines@.contains(line),
{
    let mut i: usize = 0;
    while i < lines.len()
        invariant
            i <= lines.len(),
            forall|j: int| 0 <= j < i ==> lines@[j] != line,
        decreases lines.len() - i,
    {
        if lines[i] == line {
            return true;
        }
        i = i + 1;
    }
    false
}

/// The list with every occurrence of `line` taken out.
pub fn remove_line(lines: &Vec<usize>, line: usize) -> (r: Vec<usize>)
    ensures
        r@ == without(lines@, line),
{
    let mut r: Vec<usize> = Vec::new();
    let mut i: usize = 0;
    while i < lines.len()
        invariant
            i <= lines.len(),
            r@ == without(lines@.take(i as int), line),
        decreases lines.len() - i,
    {
        assert(lines@.take(i + 1).drop_last() =~= lines@.take(i as int));
        if lines[i] != line {
            r.push(lines[i]);
        }
        i = i + 1;
    }
    assert(lines@.take(lines.len() as int) =~= lines@);
    r
}

// ---------------------------------------------------------------------------
// Replaying the log
// ---------------------------------------------------------------------------

/// The highlighted lines of `document` after one more event.
pub open spec fn apply_event(lines: Seq<usize>, e: Event, document: u64) -> Seq<usize> {
    match e {
        Event::AddHighlight { document_hash, line_number, .. } => if document_hash == document
            && !lines.contains(line_number) {
            lines.push(line_number)
        } else {
            lines
        },
        Event::RemoveHighlight { document_hash, line_number, .. } => if document_hash
            == document {
            without(lines, line_number)
        } else {
            lines
        },
        Event::ClearHighlights { document_hash, .. } => if document_hash == document {
            Seq::empty()
        } else {
            lines
        },
        _ => lines,
    }
}

/// The highlighted lines of `document` that a log records, in the order in
/// which they were first highlighted.
pub open spec fn highlights_of(events: Seq<Event>, document: u64) -> Seq<usize>
    decreases events.len(),
{
    if events.len() == 0 {
        Seq::empty()
    } else {
        apply_event(highlights_of(events.drop_last(), document), events.last(), document)
    }
}

/// The highlighted lines of a document, replayed from the log.
pub fn handle_local_load_highlights(events: &Vec<Event>, document_hash: u64) -> (r: Vec<usize>)
    ensures
        r@ == highlights_of(events@, document_hash),
{
    let mut highlights: Vec<usize> = Vec::new();
    let mut i: usize = 0;
    while i < events.len()
        invariant
            i <= events.len(),
            highlights@ == highlights_of(events@.take(i as int), document_hash),
        decreases events.len() - i,
    {
        assert(events@.take(i + 1).drop_last() =~= events@.take(i as int));
        match events[i] {
            Event::AddHighlight { document_hash: hash, line_number, .. } => {
                if hash == document_hash && !contains_line(&highlights, line_number) {
                    highlights.push(line_number);
                }
            },
            Event::RemoveHighlight { document_hash: hash, line_number, .. } => {
                if hash == document_hash {
                    highlights = remove_line(&highlights, line_number);
                }
            },
            Event::ClearHighlights { document_hash: hash, .. } => {
                if hash == document_hash {
                    highlights = Vec::new();
                }
            },
            _ => {},
        }
        i = i + 1;
    }
    assert(events@.take(events.len() as int) =~= events@);
    highlights
}

/// The log after a request to highlight `line_number`: unchanged when the line
/// is already highlighted, else with an `AddHighlight` event appended.
pub open spec fn local_add(events: Seq<Event>, document: u64, line: usize, timestamp: i64) -> Seq<
    Event,
> {
    if highlights_of(events, document).contains(line) {
        events
    } else {
        events.push(Event::AddHighlight { timestamp, document_hash: document, line_number: line })
    }
}

/// Records that a line is highlighted, unless it already is.
pub fn handle_local_add_highlight(
    events: &mut Vec<Event>,
    document_hash: u64,
    line_number: usize,
    timestamp: i64,
)
    ensures
        final(events)@ == local_add(old(events)@, document_hash, line_number, timestamp),
{
    let highlights = handle_local_load_highlights(events, document_hash);
    if contains_line(&highlights, line_number) {
        return ;
    }
    events.push(Event::AddHighlight { timestamp, document_hash, line_number });
}

/// Records that a line is no longer highlighted.
pub fn handle_local_remove_highlight(
    events: &mut Vec<Event>,
    document_hash: u64,
    line_number: usize,
    timestamp: i64,
)
    ensures
        final(events)@ == old(events)@.push(
            Event::RemoveHighlight { timestamp, document_hash, line_number },
        ),
{
    events.push(Event::RemoveHighlight { timestamp, document_hash, line_number });
}

/// Records that every highlight of a document is cleared.
pub fn handle_local_clear_highlights(events: &mut Vec<Event>, document_hash: u64, timestamp: i64)
    ensures
        final(events)@ == old(events)@.push(Event::ClearHighlights { timestamp, document_hash }),
{
    events.push(Event::ClearHighlights { timestamp, document_hash });
}

// ---------------------------------------------------------------------------
// Synchronous calls
// ---------------------------------------------------------------------------

/// What a synchronous highlight call made with a server client answers: the
/// service can only be reached by the asynchronous form.
pub open spec fn sync_refusal(async_name: Seq<char>) -> Seq<char> {
    "Cannot use server-side highlights from a synchronous context. Use "@ + async_name
        + " instead"@
}

fn refusal(async_name: &str) -> (r: String)
    ensures
        r@ == sync_refusal(async_name@),
{
    let mut m = String::new();
    m.append("Cannot use server-side highlights from a synchronous context. Use ");
    m.append(async_name);
    m.append(" instead");
    m
}

/// Highlights a line in the log, unless it already is; refused, with the log
/// untouched, when a server client is given.
pub fn add_highlight(
    events: &mut Vec<Event>,
    document_hash: u64,
    line_number: usize,
    _file_path: &str,
    client_given: bool,
    timestamp: i64,
) -> (r: Result<(), String>)
    ensures
        client_given ==> (r matches Err(m) && m@ == sync_refusal("add_highlight_async"@)),
        client_given ==> final(events)@ == old(events)@,
        !client_given ==> r is Ok && final(events)@ == local_add(
            old(events)@,
            document_hash,
            line_number,
            timestamp,
        ),
{
    if client_given {
        return Err(refusal("add_highlight_async"));
    }
    handle_local_add_highlight(events, document_hash, line_number, timestamp);
    Ok(())
}

/// Records the removal of a line's highlight; refused, with the log untouched,
/// when a server client is given.
pub fn remove_highlight(
    events: &mut Vec<Event>,
    document_hash: u64,
    line_number: usize,
    _file_path: &str,
    client_given: bool,
    timestamp: i64,
) -> (r: Result<(), String>)
    ensures
        client_given ==> (r matches Err(m) && m@ == sync_refusal("remove_highlight_async"@)),
        client_given ==> final(events)@ == old(events)@,
        !client_given ==> r is Ok && final(events)@ == old(events)@.push(
            Event::RemoveHighlight { timestamp, document_hash, line_number },
        ),
{
    if client_given {
        return Err(refusal("remove_highlight_async"));
    }
    handle_local_remove_highlight(events, document_hash, line_number, timestamp);
    Ok(())
}

/// Records that a document's highlights are cleared; refused, with the log
/// untouched, when a server client is given.
pub fn clear_highlights(
    events: &mut Vec<Event>,
    document_hash: u64,
    client_given: bool,
    timestamp: i64,
) -> (r: Result<(), String>)
    ensures
        client_given ==> (r matches Err(m) && m@ == sync_refusal("clear_highlights_async"@)),
        client_given ==> final(events)@ == old(events)@,
        !client_given ==> r is Ok && final(events)@ == old(events)@.push(
            Event::ClearHighlights { timestamp, document_hash },
        ),
{
    if client_given {
        return Err(refusal("clear_highlights_async"));
    }
    handle_local_clear_highlights(events, document_hash, timestamp);
    Ok(())
}

/// Takes the last add, remove or clear of a document's highlights out of the
/// log and says whether there was one; refused, with the log untouched, when
/// a server client is given.
pub fn undo_last_highlight(events: &mut Vec<Event>, document_hash: u64, client_given: bool) -> (r:
    Result<bool, String>)
    ensures
        client_given ==> (r matches Err(m) && m@ == sync_refusal("undo_last_highlight_async"@)),
        client_given ==> final(events)@ == old(events)@,
        !client_given ==> (r matches Ok(b) && b == (last_undoable(old(events)@, document_hash) is Some)),
        !client_given ==> (last_undoable(old(events)@, document_hash) matches Some(i)
            ==> final(events)@ == old(events)@.remove(i)),
        !client_given && last_undoable(old(events)@, document_hash) is None ==> final(events)@
            == old(events)@,
{
    if client_given {
        return Err(refusal("undo_last_highlight_async"));
    }
    Ok(crate::progress_compat::undo_last_highlight(events, document_hash, ""))
}

// ---------------------------------------------------------------------------
// Export
// ---------------------------------------------------------------------------

/// The export line for one highlighted line: `Line <n>: <text>` with the
/// line's number counted from 1; nothing for a line past the end.
pub open spec fn export_entry(line: usize, lines: Seq<String>) -> Seq<char> {
    if line < lines.len() {
        "Line "@ + decimal_text((line + 1) as nat) + ": "@ + lines[line as int]@ + "\n"@
    } else {
        Seq::empty()
    }
}

/// The export lines for highlighted lines, in order.
pub open spec fn export_body(highlights: Seq<usize>, lines: Seq<String>) -> Seq<char>
    decreases highlights.len(),
{
    if highlights.len() == 0 {
        Seq::empty()
    } else {
        export_body(highlights.drop_last(), lines) + export_entry(highlights.last(), lines)
    }
}

/// Appends the export lines of `highlights` to `result`.
pub fn push_export_body(result: &mut String, highlights: &Vec<usize>, lines: &Vec<String>)
    ensures
        final(result)@ == old(result)@ + export_body(highlights@, lines@),
{
    let ghost start = result@;
    let mut i: usize = 0;
    while i < highlights.len()
        invariant
            i <= highlights.len(),
            result@ == start + export_body(highlights@.take(i as int), lines@),
        decreases highlights.len() - i,
    {
        assert(highlights@.take(i + 1).drop_last() =~= highlights@.take(i as int));
        let line_num = highlights[i];
        let ghost before = result@;
        if line_num < lines.len() {
            result.append("Line ");
            push_decimal(result, (line_num + 1) as u64);
            result.append(": ");
            result.append(lines[line_num].as_str());
            result.append("\n");
            assert(result@ =~= before + export_entry(line_num, lines@));
        } else {
            assert(export_entry(line_num, lines@) =~= Seq::<char>::empty());
            assert(result@ =~= before + export_entry(line_num, lines@));
        }
        i = i + 1;
    }
    assert(highlights@.take(highlights.len() as int) =~= highlights@);
}

/// The exported text of highlighted lines, under a heading.
pub fn format_highlights_result(highlights: &Vec<usize>, lines: &Vec<String>) -> (r: String)
    ensures
        r@ == "# Exported Highlights\n\n"@ + export_body(highlights@, lines@),
{
    let mut result = String::new();
    result.append("# Exported Highlights\n\n");
    push_export_body(&mut result, highlights, lines);
    result
}

/// The exported text of a document's highlighted lines, under a heading.
pub fn export_highlights(events: &Vec<Event>, document_hash: u64, lines: &Vec<String>) -> (r:
    String)
    ensures
        r@ == "# Exported Highlights\n\n"@ + export_body(
            highlights_of(events@, document_hash),
            lines@,
        ),
{
    let highlights = handle_local_load_highlights(events, document_hash);
    format_highlights_result(&highlights, lines)
}

// ---------------------------------------------------------------------------
// Laws
// ---------------------------------------------------------------------------

/// No line is ever listed twice among a document's highlights.
pub proof fn law_highlights_distinct(events: Seq<Event>, document: u64)
    ensures
        highlights_of(events, document).no_duplicates(),
    decreases events.len(),
{
    if events.len() > 0 {
        law_highlights_distinct(events.drop_last(), document);
        let prev = highlights_of(events.drop_last(), document);
        match events.last() {
            Event::AddHighlight { document_hash, line_number, .. } => {
                if document_hash == document && !prev.contains(line_number) {
                    push_keeps_distinct(prev, line_number);
                }
            },
            Event::RemoveHighlight { document_hash, line_number, .. } => {
                if document_hash == document {
                    lemma_without_distinct(prev, line_number);
                }
            },
            _ => {},
        }
    }
}

/// After a line is highlighted, it is among the document's highlights.
pub proof fn law_add_highlights_line(events: Seq<Event>, document: u64, line: usize, timestamp: i64)
    ensures
        highlights_of(local_add(events, document, line, timestamp), document).contains(line),
{
    let prev = highlights_of(events, document);
    if !prev.contains(line) {
        let e = events.push(
            Event::AddHighlight { timestamp, document_hash: document, line_number: line },
        );
        assert(e.drop_last() =~= events);
        assert(prev.push(line)[prev.len() as int] == line);
    }
}

/// Highlighting a line that is already highlighted leaves the log unchanged.
pub proof fn law_add_is_idempotent(events: Seq<Event>, document: u64, line: usize, t1: i64, t2: i64)
    ensures
        local_add(local_add(events, document, line, t1), document, line, t2) == local_add(
            events,
            document,
            line,
            t1,
        ),
{
    law_add_highlights_line(events, document, line, t1);
}

/// After a line's highlight is removed, the line is not among the highlights.
pub proof fn law_remove_unhighlights_line(
    events: Seq<Event>,
    document: u64,
    line: usize,
    timestamp: i64,
)
    ensures
        !highlights_of(
            events.push(Event::RemoveHighlight { timestamp, document_hash: document, line_number: line }),
            document,
        ).contains(line),
{
    let e = events.push(
        Event::RemoveHighlight { timestamp, document_hash: document, line_number: line },
    );
    assert(e.drop_last() =~= events);
    lemma_without_contains(highlights_of(events, document), line, line);
}

/// Removing a highlight leaves the other highlighted lines highlighted.
pub proof fn law_remove_keeps_others(
    events: Seq<Event>,
    document: u64,
    line: usize,
    other: usize,
    timestamp: i64,
)
    requires
        other != line,
    ensures
        highlights_of(
            events.push(Event::RemoveHighlight { timestamp, document_hash: document, line_number: line }),
            document,
        ).contains(other) == highlights_of(events, document).contains(other),
{
    let e = events.push(
        Event::RemoveHighlight { timestamp, document_hash: document, line_number: line },
    );
    assert(e.drop_last() =~= events);
    lemma_without_contains(highlights_of(events, document), line, other);
}

/// After the highlights are cleared, no line is highlighted.
pub proof fn law_clear_empties(events: Seq<Event>, document: u64, timestamp: i64)
    ensures
        highlights_of(
            events.push(Event::ClearHighlights { timestamp, document_hash: document }),
            document,
        ).len() == 0,
{
    let e = events.push(Event::ClearHighlights { timestamp, document_hash: document });
    assert(e.drop_last() =~= events);
}

/// Events of other documents do not change a document's highlights.
pub proof fn law_other_documents_ignored(events: Seq<Event>, e: Event, document: u64)
    requires
        e.document() != document,
    ensures
        highlights_of(events.push(e), document) == highlights_of(events, document),
{
    assert(events.push(e).drop_last() =~= events);
}

pub proof fn lemma_without_absent(s: Seq<usize>, x: usize)
    requires
        !s.contains(x),
    ensures
        without(s, x) == s,
    decreases s.len(),
{
    if s.len() > 0 {
        assert(!s.drop_last().contains(x)) by {
            if s.drop_last().contains(x) {
                let k = choose|k: int| 0 <= k < s.drop_last().len() && s.drop_last()[k] == x;
                assert(s[k] == x);
            }
        }
        lemma_without_absent(s.drop_last(), x);
        assert(s.last() != x) by {
            assert(s[s.len() - 1] == s.last());
        }
        assert(s.drop_last().push(s.last()) =~= s);
    } else {
        assert(without(s, x) =~= s);
    }
}

/// Highlighting a line that was not highlighted and then removing its
/// highlight leaves every document's highlights as they were.
pub proof fn law_add_then_remove_restores(
    events: Seq<Event>,
    document: u64,
    line: usize,
    t1: i64,
    t2: i64,
    any_document: u64,
)
    requires
        !highlights_of(events, document).contains(line),
    ensures
        highlights_of(
            local_add(events, document, line, t1).push(
                Event::RemoveHighlight { timestamp: t2, document_hash: document, line_number: line },
            ),
            any_document,
        ) == highlights_of(events, any_document),
{
    let added = local_add(events, document, line, t1);
    let removed = added.push(
        Event::RemoveHighlight { timestamp: t2, document_hash: document, line_number: line },
    );
    assert(removed.drop_last() =~= added);
    assert(added.drop_last() =~= events);
    if any_document == document {
        let prev = highlights_of(events, document);
        assert(highlights_of(added, document) == prev.push(line));
        assert(prev.push(line).drop_last() =~= prev);
        assert(prev.push(line).last() == line);
        assert(without(prev.push(line), line) == without(prev, line));
        lemma_without_absent(prev, line);
        assert(highlights_of(removed, document) == without(prev.push(line), line));
    } else {
        assert(highlights_of(added, any_document) == highlights_of(events, any_document));
        assert(highlights_of(removed, any_document) == highlights_of(added, any_document));
    }
}

/// Removing a line's highlight a second time changes no document's
/// highlights.
pub proof fn law_repeated_remove_changes_nothing(
    events: Seq<Event>,
    document: u64,
    line: usize,
    t1: i64,
    t2: i64,
    any_document: u64,
)
    ensures
        ({
            let once = events.push(
                Event::RemoveHighlight { timestamp: t1, document_hash: document, line_number: line },
            );
            let twice = once.push(
                Event::RemoveHighlight { timestamp: t2, document_hash: document, line_number: line },
            );
            highlights_of(twice, any_document) == highlights_of(once, any_document)
        }),
{
    let once = events.push(
        Event::RemoveHighlight { timestamp: t1, document_hash: document, line_number: line },
    );
    let twice = once.push(
        Event::RemoveHighlight { timestamp: t2, document_hash: document, line_number: line },
    );
    assert(twice.drop_last() =~= once);
    assert(once.drop_last() =~= events);
    if any_document == document {
        let after = highlights_of(once, document);
        lemma_without_contains(highlights_of(events, document), line, line);
        lemma_without_absent(after, line);
    }
}

} // verus!
