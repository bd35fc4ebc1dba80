//! What each screen row of the reader shows, and the status line.

use vstd::prelude::*;
use vstd::string::*;
use vstd::utf8::*;

use super::{Editor, EditorMode, Key, ReaderView};
use crate::progress::highlights::contains_line;
use crate::text::{decimal_text, push_decimal};

verus! {

/// How a screen row is coloured.
#[derive(Clone, Copy, Debug, PartialEq, Eq)]
pub enum RowStyle {
    Plain,
    /// The line in the middle of the screen, when the marker is on.
    CurrentLine,
    /// A highlighted line.
    Highlighted,
    /// A line of the visual selection.
    Selected,
}

/// Columns of left margin that centre a text `col` columns wide on a screen
/// `width` columns wide.
pub open spec fn margin(width: usize, col: usize) -> usize {
    if width > col {
        (width / 2 - col / 2) as usize
    } else {
        0
    }
}

/// Columns of left margin that centre a text `col` columns wide on a screen
/// `width` columns wide.
pub fn center_offset(width: usize, col: usize) -> (r: usize)
    ensures
        r == margin(width, col),
{
    if width > col {
        (width / 2) - col / 2
    } else {
        0
    }
}

/// The first and last line of the visual selection, in visual mode.
pub open spec fn selection(v: ReaderView) -> Option<(usize, usize)> {
    if v.mode == EditorMode::Visual {
        match (v.visual_start, v.visual_end) {
            (Some(s), Some(e)) => if s <= e {
                Some((s, e))
            } else {
                Some((e, s))
            },
            _ => None,
        }
    } else {
        None
    }
}

/// The style of screen row `i`: selection first, then highlight, then the
/// middle-row marker.
pub open spec fn row_style_of(v: ReaderView, i: int) -> RowStyle {
    let line = v.offset + i;
    if selection(v) matches Some((lo, hi)) && lo <= line <= hi {
        RowStyle::Selected
    } else if v.highlights.contains(line as usize) {
        RowStyle::Highlighted
    } else if v.show_highlighter && i == v.height / 2 {
        RowStyle::CurrentLine
    } else {
        RowStyle::Plain
    }
}

/// The status line in the prompt and visual modes; empty in normal mode,
/// where the progress display takes its place.
pub open spec fn status_of(v: ReaderView) -> Seq<char> {
    match v.mode {
        EditorMode::Command => ":"@ + v.command_buffer,
        EditorMode::Search => "/"@ + v.command_buffer,
        EditorMode::ReverseSearch => "?"@ + v.command_buffer,
        EditorMode::Visual => match selection(v) {
            Some((lo, hi)) => "VISUAL MODE ("@ + decimal_text((hi - lo + 1) as nat)
                + " lines selected)"@,
            None => "VISUAL MODE"@,
        },
        EditorMode::Normal => Seq::empty(),
    }
}

impl Editor {
    /// The first and last line of the visual selection, in visual mode.
    pub fn visual_selection(&self) -> (r: Option<(usize, usize)>)
        ensures
            r == selection(self@),
    {
        if self.editor_state.mode == EditorMode::Visual {
            match (self.editor_state.visual_start, self.editor_state.visual_end) {
                (Some(s), Some(e)) => if s <= e {
                    Some((s, e))
                } else {
                    Some((e, s))
                },
                _ => None,
            }
        } else {
            None
        }
    }

    /// Number of screen rows that show a line.
    pub fn visible_rows(&self) -> (r: usize)
        requires
            self.wf(),
        ensures
            r == if self.lines.len() - self.offset < self.height {
                self.lines.len() - self.offset
            } else {
                self.height as int
            },
    {
        let left = self.lines.len() - self.offset;
        if left < self.height {
            left
        } else {
            self.height
        }
    }

    /// The style of screen row `i`.
    pub fn row_style(&self, i: usize) -> (r: RowStyle)
        requires
            self.wf(),
            i < self.height,
        ensures
            r == row_style_of(self@, i as int),
    {
        let line = self.offset + i;
        if let Some((lo, hi)) = self.visual_selection() {
            if lo <= line && line <= hi {
                return RowStyle::Selected;
            }
        }
        if contains_line(&self.highlights, line) {
            RowStyle::Highlighted
        } else if self.show_highlighter && i == self.height / 2 {
            RowStyle::CurrentLine
        } else {
            RowStyle::Plain
        }
    }

    /// The byte span of the search match shown on screen row `i`, if any.
    pub fn search_span(&self, i: usize) -> (r: Option<(usize, usize)>)
        requires
            self.wf(),
            i < self.height,
        ensures
            r == match self@.current_match {
                Some((l, s, e)) => if l == self.offset + i {
                    Some((s, e))
                } else {
                    None
                },
                None => None,
            },
    {
        match self.editor_state.current_match {
            Some((l, s, e)) => if l == self.offset + i {
                Some((s, e))
            } else {
                None
            },
            None => None,
        }
    }

    /// The line in the middle of the screen.
    pub fn middle_line(&self) -> (r: usize)
        requires
            self.wf(),
        ensures
            r == self@.middle(),
    {
        self.offset + self.height / 2
    }

    /// The status line in the prompt and visual modes; empty in normal mode.
    pub fn status_text(&self) -> (r: String)
        requires
            self.wf(),
        ensures
            r@ == status_of(self@),
    {
        let mut s = String::new();
        match self.editor_state.mode {
            EditorMode::Command => {
                s.append(":");
                s.append(self.editor_state.command_buffer.as_str());
            },
            EditorMode::Search => {
                s.append("/");
                s.append(self.editor_state.command_buffer.as_str());
            },
            EditorMode::ReverseSearch => {
                s.append("?");
                s.append(self.editor_state.command_buffer.as_str());
            },
            EditorMode::Visual => {
                match self.visual_selection() {
                    Some((lo, hi)) => {
                        let count: usize = hi - lo;
                        s.append("VISUAL MODE (");
                        push_decimal(&mut s, count as u64 + 1);
                        s.append(" lines selected)");
                    },
                    None => {
                        s.append("VISUAL MODE");
                    },
                }
            },
            EditorMode::Normal => {},
        }
        s
    }
}

proof fn lemma_boundary_in_prefix(bytes: Seq<u8>, start: int, end: int)
    requires
        valid_utf8(bytes),
        0 <= start <= end,
        is_char_boundary(bytes, start),
        is_char_boundary(bytes, end),
    ensures
        end <= bytes.len(),
        valid_utf8(bytes.subrange(0, end)),
        is_char_boundary(bytes.subrange(0, end), start),
{
    if end > bytes.len() {
        assert(!is_char_boundary(bytes, end));
    }
    valid_utf8_split(bytes, end);
    let head = bytes.subrange(0, end);
    if start == end {
        is_char_boundary_start_end_of_seq(head);
    } else if start > 0 {
        is_char_boundary_iff_not_is_continuation_byte(bytes, start);
        is_char_boundary_iff_not_is_continuation_byte(head, start);
        assert(head[start] == bytes[start]);
    }
}

/// A line cut at a search match's byte span: the text before the match, the
/// match, and the text after it.
pub fn match_pieces(line: &str, start: usize, end: usize) -> (r: (&str, &str, &str))
    requires
        start <= end,
        is_char_boundary(line.spec_bytes(), start as int),
        is_char_boundary(line.spec_bytes(), end as int),
    ensures
        r.0.spec_bytes() == line.spec_bytes().subrange(0, start as int),
        r.1.spec_bytes() == line.spec_bytes().subrange(start as int, end as int),
        r.2.spec_bytes() == line.spec_bytes().subrange(end as int, line.spec_bytes().len() as int),
        r.0@ + r.1@ + r.2@ == line@,
{
    let ghost bytes = line.spec_bytes();
    proof {
        encode_utf8_valid_utf8(line@);
        lemma_boundary_in_prefix(bytes, start as int, end as int);
    }
    let (head, after) = line.split_at(end);
    let (before, matched) = head.split_at(start);
    proof {
        let hb = bytes.subrange(0, end as int);
        assert(matched.spec_bytes() =~= bytes.subrange(start as int, end as int));
        assert(before.spec_bytes() =~= bytes.subrange(0, start as int));
        encode_utf8_decode_utf8(line@);
        encode_utf8_decode_utf8(head@);
        encode_utf8_decode_utf8(before@);
        encode_utf8_decode_utf8(matched@);
        encode_utf8_decode_utf8(after@);
        decode_utf8_split(bytes, end as int);
        decode_utf8_split(hb, start as int);
        assert(hb.subrange(start as int, hb.len() as int) =~= matched.spec_bytes());
    }
    (before, matched, after)
}

/// The tutorial's top line after a key, or `None` when the key closes it:
/// `j`/Down and `k`/Up scroll by a line, Page Down and Page Up by a screen.
pub open spec fn tutorial_scroll(offset: usize, height: usize, total: usize, k: Key) -> Option<
    usize,
> {
    let last_top: int = if total >= height {
        total - height
    } else {
        0
    };
    match k {
        Key::Char(c) => if c == 'j' {
            Some(
                if offset + height < total {
                    (offset + 1) as usize
                } else {
                    offset
                },
            )
        } else if c == 'k' {
            Some(
                if offset > 0 {
                    (offset - 1) as usize
                } else {
                    offset
                },
            )
        } else {
            None
        },
        Key::Down => Some(
            if offset + height < total {
                (offset + 1) as usize
            } else {
                offset
            },
        ),
        Key::Up => Some(
            if offset > 0 {
                (offset - 1) as usize
            } else {
                offset
            },
        ),
        Key::PageDown => Some(
            if offset + height < last_top {
                (offset + height) as usize
            } else {
                last_top as usize
            },
        ),
        Key::PageUp => Some(
            if offset >= height {
                (offset - height) as usize
            } else {
                0
            },
        ),
        _ => None,
    }
}

/// The tutorial's top line after a key, or `None` when the key closes it.
pub fn tutorial_key(offset: usize, height: usize, total: usize, k: Key) -> (r: Option<usize>)
    ensures
        r == tutorial_scroll(offset, height, total, k),
{
    let down = match k {
        Key::Char(c) => c == 'j',
        Key::Down => true,
        _ => false,
    };
    let up = match k {
        Key::Char(c) => c == 'k',
        Key::Up => true,
        _ => false,
    };
    if down {
        if height < total && offset < total - height {
            Some(offset + 1)
        } else {
            Some(offset)
        }
    } else if up {
        if offset > 0 {
            Some(offset - 1)
        } else {
            Some(offset)
        }
    } else {
        match k {
            Key::PageDown => {
                let last_top = if total >= height { total - height } else { 0 };
                if offset < last_top && last_top - offset > height {
                    Some(offset + height)
                } else {
                    Some(last_top)
                }
            },
            Key::PageUp => {
                if offset >= height {
                    Some(offset - height)
                } else {
                    Some(0)
                }
            },
            _ => None,
        }
    }
}

} // verus!
