//! Case-insensitive search through the document's lines, wrapping around.

use vstd::prelude::*;

use super::{with_offset, Editor, ReaderView};
use crate::text::{
    byte_len, find_text, first_occurrence, lemma_first_occurrence_from, lemma_occurrence_bytes,
    lowercase_of, to_lowercase, utf8_len,
};

verus! {

/// The line visited `k` steps after `start` going forward or backward through
/// `n` lines, wrapping around at either end.
pub open spec fn cyclic_line(start: int, k: int, n: int, forward: bool) -> int {
    if forward {
        if start + k >= n {
            start + k - n
        } else {
            start + k
        }
    } else {
        if start - k < 0 {
            start - k + n
        } else {
            start - k
        }
    }
}

/// Line `i` holds the query, both lowercased.
pub open spec fn line_matches(lines: Seq<Seq<char>>, i: int, query: Seq<char>) -> bool {
    first_occurrence(lowercase_of(lines[i]), lowercase_of(query)) is Some
}

/// The first step, at or after `k`, whose line holds the query.
pub open spec fn first_match_step(
    lines: Seq<Seq<char>>,
    query: Seq<char>,
    start: int,
    forward: bool,
    k: int,
) -> Option<int>
    decreases lines.len() - k,
{
    if k < 0 || k >= lines.len() {
        None
    } else if line_matches(lines, cyclic_line(start, k, lines.len() as int, forward), query) {
        Some(k)
    } else {
        first_match_step(lines, query, start, forward, k + 1)
    }
}

/// The match of the query in line `i`: the line, and the byte positions at
/// which the first occurrence starts and ends in the lowercased line.
pub open spec fn match_span(lines: Seq<Seq<char>>, i: int, query: Seq<char>) -> (
    usize,
    usize,
    usize,
) {
    let low = lowercase_of(lines[i]);
    let q = lowercase_of(query);
    let k = first_occurrence(low, q)->0;
    let s = utf8_len(low.take(k));
    (i as usize, s as usize, (s + utf8_len(q)) as usize)
}

/// Where a search starts: after (or before) the current match, else at the
/// top line of the view.
pub open spec fn search_start(
    current: Option<(usize, usize, usize)>,
    offset: usize,
    n: int,
    forward: bool,
) -> int {
    match current {
        Some((l, _, _)) => if forward {
            if l + 1 == n {
                0
            } else {
                l + 1
            }
        } else {
            if l == 0 {
                n - 1
            } else {
                l - 1
            }
        },
        None => offset as int,
    }
}

/// The match found by searching every line once from `start`.
pub open spec fn search_outcome(
    lines: Seq<Seq<char>>,
    query: Seq<char>,
    start: int,
    forward: bool,
) -> Option<(usize, usize, usize)> {
    match first_match_step(lines, query, start, forward, 0) {
        Some(k) => Some(match_span(lines, cyclic_line(start, k, lines.len() as int, forward), query)),
        None => None,
    }
}

/// The offset that puts line `line` in the middle of a screen `height` lines
/// high.
pub open spec fn centered(line: usize, height: usize) -> usize {
    if line >= height / 2 {
        (line - height / 2) as usize
    } else {
        0
    }
}

proof fn lemma_first_match_step(
    lines: Seq<Seq<char>>,
    query: Seq<char>,
    start: int,
    forward: bool,
    k: int,
)
    requires
        0 <= k,
    ensures
        first_match_step(lines, query, start, forward, k) matches Some(j) ==> k <= j < lines.len()
            && line_matches(lines, cyclic_line(start, j, lines.len() as int, forward), query),
    decreases lines.len() - k,
{
    if k < lines.len() && !line_matches(
        lines,
        cyclic_line(start, k, lines.len() as int, forward),
        query,
    ) {
        lemma_first_match_step(lines, query, start, forward, k + 1);
    }
}

proof fn lemma_no_match_steps(
    lines: Seq<Seq<char>>,
    query: Seq<char>,
    start: int,
    forward: bool,
    k: int,
)
    requires
        0 <= k,
        first_match_step(lines, query, start, forward, k) is None,
    ensures
        forall|j: int|
            k <= j < lines.len() ==> !line_matches(
                lines,
                cyclic_line(start, j, lines.len() as int, forward),
                query,
            ),
    decreases lines.len() - k,
{
    if k < lines.len() {
        lemma_no_match_steps(lines, query, start, forward, k + 1);
    }
}

/// A search reports a line that holds the query, the first one in search
/// order; and reports none exactly when no line of the document holds it.
pub proof fn law_search_finds_first_match(
    lines: Seq<Seq<char>>,
    query: Seq<char>,
    start: int,
    forward: bool,
)
    requires
        0 <= start < lines.len(),
        lines.len() <= usize::MAX,
    ensures
        search_outcome(lines, query, start, forward) matches Some((l, _, _)) ==> (l
            < lines.len() && line_matches(lines, l as int, query) && exists|k: int|
            0 <= k < lines.len() && cyclic_line(start, k, lines.len() as int, forward) == l
                && forall|j: int|
                0 <= j < k ==> !line_matches(
                    lines,
                    cyclic_line(start, j, lines.len() as int, forward),
                    query,
                )),
        search_outcome(lines, query, start, forward) is None <==> forall|i: int|
            0 <= i < lines.len() ==> !line_matches(lines, i, query),
{
    let n = lines.len() as int;
    lemma_first_match_step(lines, query, start, forward, 0);
    match first_match_step(lines, query, start, forward, 0) {
        Some(k) => {
            let i = cyclic_line(start, k, n, forward);
            lemma_steps_before(lines, query, start, forward, 0, k);
            assert(0 <= i < n);
            assert(match_span(lines, i, query).0 as int == i);
        },
        None => {
            lemma_no_match_steps(lines, query, start, forward, 0);
            assert forall|i: int| 0 <= i < n implies !line_matches(lines, i, query) by {
                let k = if forward {
                    if i >= start {
                        i - start
                    } else {
                        i - start + n
                    }
                } else {
                    if i <= start {
                        start - i
                    } else {
                        start - i + n
                    }
                };
                assert(cyclic_line(start, k, n, forward) == i);
            }
        },
    }
}

proof fn lemma_steps_before(
    lines: Seq<Seq<char>>,
    query: Seq<char>,
    start: int,
    forward: bool,
    from: int,
    k: int,
)
    requires
        0 <= from <= k,
        first_match_step(lines, query, start, forward, from) == Some(k),
    ensures
        forall|j: int|
            from <= j < k ==> !line_matches(
                lines,
                cyclic_line(start, j, lines.len() as int, forward),
                query,
            ),
    decreases k - from,
{
    if from < k {
        lemma_steps_before(lines, query, start, forward, from + 1, k);
    }
}

/// Moves the current match to the next line, forward or backward and
/// wrapping around, that holds the search query, ignoring case; no match when
/// no line holds it. Nothing changes when the query is empty.
pub fn find_next_match(editor: &mut Editor, forward: bool)
    requires
        old(editor).wf(),
    ensures
        final(editor).wf(),
        final(editor)@ == super::find_view(old(editor)@, forward),
{
    if editor.editor_state.search_query.as_str().is_empty() {
        return ;
    }
    let ghost v = editor@;
    let total_lines = editor.lines.len();
    let start_line: usize = match editor.editor_state.current_match {
        Some((l, _, _)) => {
            if forward {
                if l + 1 == total_lines {
                    0
                } else {
                    l + 1
                }
            } else {
                if l == 0 {
                    total_lines - 1
                } else {
                    l - 1
                }
            }
        },
        None => editor.offset,
    };
    let ghost start = search_start(v.current_match, v.offset, v.lines.len() as int, forward);
    assert(start == start_line);
    let search_query = to_lowercase(editor.editor_state.search_query.as_str());
    let mut curr_line = start_line;
    let mut checked_lines: usize = 0;
    while checked_lines < total_lines
        invariant
            editor@ == v,
            v == old(editor)@,
            v.search_query.len() > 0,
            search_start(v.current_match, v.offset, v.lines.len() as int, forward)
                == start_line as int,
            v.wf(),
            total_lines == v.lines.len(),
            editor.lines.len() == total_lines,
            search_query@ == lowercase_of(v.search_query),
            total_lines > 0 ==> start_line < total_lines,
            checked_lines <= total_lines,
            checked_lines < total_lines ==> curr_line == cyclic_line(
                start_line as int,
                checked_lines as int,
                total_lines as int,
                forward,
            ),
            first_match_step(v.lines, v.search_query, start_line as int, forward, 0)
                == first_match_step(
                v.lines,
                v.search_query,
                start_line as int,
                forward,
                checked_lines as int,
            ),
        decreases total_lines - checked_lines,
    {
        let line = to_lowercase(editor.lines[curr_line].as_str());
        assert(line@ == lowercase_of(v.lines[curr_line as int]));
        match find_text(line.as_str(), search_query.as_str()) {
            Some(start) => {
                proof {
                    let k = first_occurrence(line@, search_query@)->0;
                    lemma_first_occurrence_from(line@, search_query@, 0);
                    lemma_occurrence_bytes(line@, search_query@, k);
                }
                let end = start + byte_len(search_query.as_str());
                proof {
                    assert(line_matches(v.lines, curr_line as int, v.search_query));
                    assert(first_match_step(
                        v.lines,
                        v.search_query,
                        start_line as int,
                        forward,
                        checked_lines as int,
                    ) == Some(checked_lines as int));
                    assert(match_span(v.lines, curr_line as int, v.search_query) == (
                        curr_line,
                        start,
                        end,
                    ));
                }
                editor.editor_state.current_match = Some((curr_line, start, end));
                assert(editor@ == ReaderView { current_match: Some((curr_line, start, end)), ..v });
                assert(search_outcome(v.lines, v.search_query, start_line as int, forward) == Some(
                    (curr_line, start, end),
                ));
                return ;
            },
            None => {},
        }
        curr_line = if forward {
            if curr_line + 1 == total_lines {
                0
            } else {
                curr_line + 1
            }
        } else {
            if curr_line == 0 {
                total_lines - 1
            } else {
                curr_line - 1
            }
        };
        checked_lines = checked_lines + 1;
    }
    editor.editor_state.current_match = None;
}

/// Scrolls so that the current match is in the middle of the screen.
pub fn center_on_match(editor: &mut Editor)
    requires
        old(editor).wf(),
    ensures
        final(editor).wf(),
        final(editor)@ == super::center_view(old(editor)@),
{
    if let Some((line_idx, _, _)) = editor.editor_state.current_match {
        let center_offset = editor.height / 2;
        if line_idx >= center_offset {
            editor.offset = line_idx - center_offset;
        } else {
            editor.offset = 0;
        }
    }
}

/// The line `d` lines after (forward) or before line `l` of an `n`-line
/// document, going round from the last line to the first and back.
pub open spec fn lines_on(l: int, d: int, n: int, forward: bool) -> int {
    if forward {
        if l + d < n {
            l + d
        } else {
            l + d - n
        }
    } else {
        if l >= d {
            l - d
        } else {
            l - d + n
        }
    }
}

proof fn lemma_search_start_steps(l: int, n: int, forward: bool, k: int)
    requires
        0 <= l < n <= usize::MAX,
        0 <= k < n,
    ensures
        ({
            let start = search_start(Some((l as usize, 0usize, 0usize)), 0, n, forward);
            &&& 0 <= start < n
            &&& cyclic_line(start, k, n, forward) == lines_on(l, k + 1, n, forward)
        }),
{
}

/// With a current match on line `l`, `n` (forward) or `N` (backward) looks at
/// the lines after (before) `l` first, wrapping around at the end (start) of
/// the document: the match it reports is on the first such line that holds
/// the query, `d` lines on with `1 <= d <= n`. So when another line holds the
/// query, the match moves to another line.
pub proof fn law_next_match_moves_on(v: ReaderView, forward: bool)
    requires
        v.wf(),
        v.search_query.len() > 0,
        v.current_match is Some,
    ensures
        ({
            let n = v.lines.len() as int;
            let l = (v.current_match->0).0 as int;
            let q = v.search_query;
            let found = super::find_view(v, forward).current_match;
            &&& found matches Some((l2, _, _)) ==> exists|d: int|
                #![trigger lines_on(l, d, n, forward)]
                1 <= d <= n && l2 as int == lines_on(l, d, n, forward) && line_matches(
                    v.lines,
                    l2 as int,
                    q,
                ) && forall|e: int|
                    1 <= e < d ==> !line_matches(v.lines, #[trigger] lines_on(l, e, n, forward), q)
            &&& (exists|j: int| 0 <= j < n && j != l && line_matches(v.lines, j, q)) ==> (found matches Some(
                (l2, _, _),
            ) && l2 != l)
        }),
{
    let n = v.lines.len() as int;
    let l = (v.current_match->0).0 as int;
    let q = v.search_query;
    let start = search_start(v.current_match, v.offset, n, forward);
    assert(start == search_start(Some((l as usize, 0usize, 0usize)), 0, n, forward));
    lemma_search_start_steps(l, n, forward, 0);
    law_search_finds_first_match(v.lines, q, start, forward);
    assert forall|k: int| 0 <= k < n implies #[trigger] cyclic_line(start, k, n, forward)
        == lines_on(l, k + 1, n, forward) by {
        lemma_search_start_steps(l, n, forward, k);
    }
    let found = super::find_view(v, forward).current_match;
    assert(found == search_outcome(v.lines, q, start, forward));
    if let Some((l2, _, _)) = found {
        let k = choose|k: int|
            0 <= k < n && cyclic_line(start, k, n, forward) == l2 && forall|j: int|
                0 <= j < k ==> !line_matches(v.lines, cyclic_line(start, j, n, forward), q);
        let d = k + 1;
        assert(l2 as int == lines_on(l, d, n, forward));
        assert forall|e: int| 1 <= e < d implies !line_matches(
            v.lines,
            #[trigger] lines_on(l, e, n, forward),
            q,
        ) by {
            assert(cyclic_line(start, e - 1, n, forward) == lines_on(l, e, n, forward));
        }
    }
    if exists|j: int| 0 <= j < n && j != l && line_matches(v.lines, j, q) {
        let j = choose|j: int| 0 <= j < n && j != l && line_matches(v.lines, j, q);
        assert(found is Some);
        if let Some((l2, _, _)) = found {
            if l2 == l {
                let k = choose|k: int|
                    0 <= k < n && cyclic_line(start, k, n, forward) == l2 && forall|i: int|
                        0 <= i < k ==> !line_matches(v.lines, cyclic_line(start, i, n, forward), q);
                assert(k == n - 1);
                let e = if forward {
                    if j > l {
                        j - l
                    } else {
                        j - l + n
                    }
                } else {
                    if j < l {
                        l - j
                    } else {
                        l - j + n
                    }
                };
                assert(cyclic_line(start, e - 1, n, forward) == j);
                assert(false);
            }
        }
    }
}

} // verus!
