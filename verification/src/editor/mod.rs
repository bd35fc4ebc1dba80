//! The reader: a scrolling view over a document's lines, with search,
//! visual selection and a command prompt.

use vstd::prelude::*;

pub mod commands;
pub mod display;
pub mod search;
pub mod state;

pub use state::{EditorMode, EditorState};

use crate::progress::{generate_hash, texts};
use crate::text::{pop_char, push_char};
use search::{center_on_match, centered, find_next_match, search_outcome, search_start};

verus! {

/// A document open in the reader.
pub struct Editor {
    pub lines: Vec<String>,
    pub col: usize,
    pub offset: usize,
    pub width: usize,
    pub height: usize,
    pub show_highlighter: bool,
    pub editor_state: EditorState,
    /// Highlighted line numbers.
    pub highlights: Vec<usize>,
    pub document_hash: u64,
    pub total_lines: usize,
    pub show_progress: bool,
    pub read_only: bool,
    pub file_path: String,
}

/// Everything a reader holds, as mathematical values.
pub struct ReaderView {
    pub lines: Seq<Seq<char>>,
    pub col: usize,
    pub offset: usize,
    pub width: usize,
    pub height: usize,
    pub show_highlighter: bool,
    pub highlights: Seq<usize>,
    pub document_hash: u64,
    pub total_lines: usize,
    pub show_progress: bool,
    pub read_only: bool,
    pub file_path: Seq<char>,
    pub mode: EditorMode,
    pub command_buffer: Seq<char>,
    pub search_query: Seq<char>,
    pub search_direction: bool,
    pub last_search_index: Option<usize>,
    pub current_match: Option<(usize, usize, usize)>,
    pub visual_start: Option<usize>,
    pub visual_end: Option<usize>,
}

impl View for Editor {
    type V = ReaderView;

    open spec fn view(&self) -> ReaderView {
        ReaderView {
            lines: texts(self.lines@),
            col: self.col,
            offset: self.offset,
            width: self.width,
            height: self.height,
            show_highlighter: self.show_highlighter,
            highlights: self.highlights@,
            document_hash: self.document_hash,
            total_lines: self.total_lines,
            show_progress: self.show_progress,
            read_only: self.read_only,
            file_path: self.file_path@,
            mode: self.editor_state.mode,
            command_buffer: self.editor_state.command_buffer@,
            search_query: self.editor_state.search_query@,
            search_direction: self.editor_state.search_direction,
            last_search_index: self.editor_state.last_search_index,
            current_match: self.editor_state.current_match,
            visual_start: self.editor_state.visual_start,
            visual_end: self.editor_state.visual_end,
        }
    }
}

/// The index of the last line, or 0 for an empty document.
pub open spec fn last_line(total: usize) -> int {
    if total > 0 {
        total - 1
    } else {
        0
    }
}

/// The offset after scrolling down `by` lines, stopping at the last line.
pub open spec fn scrolled_down(offset: usize, by: int, total: usize) -> usize {
    if offset + by < last_line(total) {
        (offset + by) as usize
    } else {
        last_line(total) as usize
    }
}

/// The offset after scrolling up `by` lines, stopping at the first line.
pub open spec fn scrolled_up(offset: usize, by: int) -> usize {
    if offset >= by {
        (offset - by) as usize
    } else {
        0
    }
}

impl ReaderView {
    /// The reader's invariant: the line count matches the lines, the view
    /// starts at a line of the document (line 0 for an empty one), the
    /// screen is one a terminal reports, and a search match names a line.
    pub open spec fn wf(self) -> bool {
        &&& self.total_lines == self.lines.len()
        &&& self.lines.len() <= isize::MAX
        &&& self.offset <= last_line(self.total_lines)
        &&& self.width <= u16::MAX
        &&& self.height <= u16::MAX
        &&& self.current_match matches Some((l, _, _)) ==> l < self.lines.len()
        &&& self.visual_start matches Some(v) ==> v < usize::MAX
        &&& self.visual_end matches Some(v) ==> v < usize::MAX
    }

    /// The line the middle of the screen shows.
    pub open spec fn middle(self) -> int {
        self.offset + self.height / 2
    }
}

impl Editor {
    pub open spec fn wf(&self) -> bool {
        self@.wf()
    }
}

/// A key as the reader tells keys apart.
#[derive(Clone, Copy, Debug, PartialEq, Eq)]
pub enum Key {
    Char(char),
    Up,
    Down,
    PageUp,
    PageDown,
    Home,
    End,
    Esc,
    Enter,
    Backspace,
    Other,
}

/// A key press, and whether Control was held.
#[derive(Clone, Copy, Debug, PartialEq, Eq)]
pub struct KeyPress {
    pub key: Key,
    pub control: bool,
}

/// An input event of the terminal.
#[derive(Clone, Copy, Debug, PartialEq, Eq)]
pub enum InputEvent {
    Key(KeyPress),
    Resize(u16, u16),
    Other,
}

/// What the reader's loop does after an event.
#[derive(Clone, Copy, Debug, PartialEq, Eq)]
pub enum LoopAction {
    Continue,
    Quit,
    /// Run the command in the prompt, then call `finish_command`.
    RunCommand,
}

// ---------------------------------------------------------------------------
// The key bindings, as functions on views
// ---------------------------------------------------------------------------

/// `n`/`N`: the next match of the search query, when there is a query.
pub open spec fn find_view(v: ReaderView, forward: bool) -> ReaderView {
    if v.search_query.len() == 0 {
        v
    } else {
        ReaderView {
            current_match: search_outcome(
                v.lines,
                v.search_query,
                search_start(v.current_match, v.offset, v.lines.len() as int, forward),
                forward,
            ),
            ..v
        }
    }
}

/// The view moved so that the current match is in the middle of the screen.
pub open spec fn center_view(v: ReaderView) -> ReaderView {
    match v.current_match {
        Some((l, _, _)) => ReaderView { offset: centered(l, v.height), ..v },
        None => v,
    }
}

pub open spec fn with_offset(v: ReaderView, offset: usize) -> ReaderView {
    ReaderView { offset, ..v }
}

/// A key in normal mode.
pub open spec fn normal_key(v: ReaderView, k: KeyPress) -> ReaderView {
    match k.key {
        Key::Char(c) => if c == 'j' {
            with_offset(v, scrolled_down(v.offset, 1, v.total_lines))
        } else if c == 'k' {
            with_offset(v, scrolled_up(v.offset, 1))
        } else if c == 'd' {
            if k.control {
                with_offset(v, scrolled_down(v.offset, (v.height / 2) as int, v.total_lines))
            } else {
                v
            }
        } else if c == 'u' {
            if k.control {
                with_offset(v, scrolled_up(v.offset, (v.height / 2) as int))
            } else {
                v
            }
        } else if c == '/' {
            ReaderView {
                mode: EditorMode::Search,
                command_buffer: Seq::empty(),
                search_direction: true,
                ..v
            }
        } else if c == '?' {
            ReaderView {
                mode: EditorMode::ReverseSearch,
                command_buffer: Seq::empty(),
                search_direction: false,
                ..v
            }
        } else if c == 'n' {
            find_view(v, true)
        } else if c == 'N' {
            find_view(v, false)
        } else if c == 'v' {
            ReaderView {
                mode: EditorMode::Visual,
                visual_start: Some(v.middle() as usize),
                visual_end: Some(v.middle() as usize),
                ..v
            }
        } else if c == ':' {
            ReaderView { mode: EditorMode::Command, command_buffer: Seq::empty(), ..v }
        } else {
            v
        },
        Key::Down => with_offset(v, scrolled_down(v.offset, 1, v.total_lines)),
        Key::Up => with_offset(v, scrolled_up(v.offset, 1)),
        Key::PageDown => with_offset(v, scrolled_down(v.offset, v.height as int, v.total_lines)),
        Key::PageUp => with_offset(v, scrolled_up(v.offset, v.height as int)),
        Key::Home => with_offset(v, 0),
        Key::End => with_offset(v, last_line(v.total_lines) as usize),
        _ => v,
    }
}

/// The view after moving in visual mode, the selection following the middle
/// of the screen.
pub open spec fn visual_move(v: ReaderView, offset: usize) -> ReaderView {
    ReaderView { offset, visual_end: Some((offset + v.height / 2) as usize), ..v }
}

/// A key in visual mode.
pub open spec fn visual_key(v: ReaderView, k: KeyPress) -> ReaderView {
    match k.key {
        Key::Char(c) => if c == 'j' {
            visual_move(v, scrolled_down(v.offset, 1, v.total_lines))
        } else if c == 'k' {
            visual_move(v, scrolled_up(v.offset, 1))
        } else if c == ':' {
            ReaderView { mode: EditorMode::Command, command_buffer: Seq::empty(), ..v }
        } else {
            v
        },
        Key::Down => visual_move(v, scrolled_down(v.offset, 1, v.total_lines)),
        Key::Up => visual_move(v, scrolled_up(v.offset, 1)),
        Key::Esc => ReaderView {
            mode: EditorMode::Normal,
            visual_start: None,
            visual_end: None,
            ..v
        },
        _ => v,
    }
}

/// Enter in a search prompt: the prompt becomes the query, the next match is
/// searched for and centered, and the reader returns to normal mode.
pub open spec fn search_enter(v: ReaderView) -> ReaderView {
    let v1 = ReaderView { search_query: v.command_buffer, ..v };
    let v2 = find_view(v1, v.search_direction);
    let v3 = if v2.current_match is Some {
        center_view(v2)
    } else {
        v2
    };
    ReaderView { mode: EditorMode::Normal, command_buffer: Seq::empty(), ..v3 }
}

/// A key in a prompt (command, search or reverse search).
pub open spec fn prompt_key(v: ReaderView, k: KeyPress) -> ReaderView {
    match k.key {
        Key::Esc => ReaderView {
            mode: EditorMode::Normal,
            command_buffer: Seq::empty(),
            visual_start: None,
            visual_end: None,
            ..v
        },
        Key::Enter => if v.mode == EditorMode::Command {
            v
        } else {
            search_enter(v)
        },
        Key::Backspace => if v.command_buffer.len() > 0 {
            ReaderView { command_buffer: v.command_buffer.drop_last(), ..v }
        } else {
            v
        },
        Key::Char(c) => ReaderView { command_buffer: v.command_buffer.push(c), ..v },
        _ => v,
    }
}

/// The reader after a key.
pub open spec fn key_view(v: ReaderView, k: KeyPress) -> ReaderView {
    match v.mode {
        EditorMode::Normal => normal_key(v, k),
        EditorMode::Visual => visual_key(v, k),
        _ => prompt_key(v, k),
    }
}

/// The reader after an input event.
pub open spec fn event_view(v: ReaderView, ev: InputEvent) -> ReaderView {
    match ev {
        InputEvent::Key(k) => key_view(v, k),
        InputEvent::Resize(w, h) => ReaderView { width: w as usize, height: h as usize, ..v },
        InputEvent::Other => v,
    }
}

/// What the loop does after an input event: `q` in normal mode quits, Enter
/// in the command prompt runs the command.
pub open spec fn event_action(v: ReaderView, ev: InputEvent) -> LoopAction {
    match ev {
        InputEvent::Key(k) => if v.mode == EditorMode::Normal && k.key == Key::Char('q') {
            LoopAction::Quit
        } else if v.mode == EditorMode::Command && k.key == Key::Enter {
            LoopAction::RunCommand
        } else {
            LoopAction::Continue
        },
        _ => LoopAction::Continue,
    }
}

/// Whether the reader opens with the tutorial: never when the configuration
/// turns it off, else only for an empty document.
pub fn tutorial_wanted(enable_tutorial: Option<bool>, document_is_empty: bool) -> (r: bool)
    ensures
        r == match enable_tutorial {
            Some(false) => false,
            _ => document_is_empty,
        },
{
    match enable_tutorial {
        Some(false) => false,
        _ => document_is_empty,
    }
}

/// The offset after scrolling down `by` lines, stopping at the last line.
pub fn scroll_down(offset: usize, by: usize, total: usize) -> (r: usize)
    ensures
        r == scrolled_down(offset, by as int, total),
{
    let last = if total > 0 { total - 1 } else { 0 };
    if offset >= last || last - offset <= by {
        last
    } else {
        offset + by
    }
}

/// The offset after scrolling up `by` lines, stopping at the first line.
pub fn scroll_up(offset: usize, by: usize) -> (r: usize)
    ensures
        r == scrolled_up(offset, by as int),
{
    if offset >= by {
        offset - by
    } else {
        0
    }
}

impl Editor {
    /// A reader at the top of `lines`, for a screen of `width` by `height`,
    /// with the document's highlights.
    pub fn new(
        lines: Vec<String>,
        col: usize,
        file_path: String,
        width: u16,
        height: u16,
        highlights: Vec<usize>,
    ) -> (e: Self)
        requires
            lines.len() <= isize::MAX,
        ensures
            e.wf(),
            e.lines@ == lines@,
            e.col == col,
            e.file_path@ == file_path@,
            e.width == width,
            e.height == height,
            e.highlights@ == highlights@,
            e.offset == 0,
            e.total_lines == lines.len(),
            e.document_hash == crate::progress::document_hash_of(texts(lines@)),
            e.show_highlighter,
            !e.show_progress,
            !e.read_only,
            e@.mode == EditorMode::Normal,
            e@.command_buffer.len() == 0,
            e@.search_query.len() == 0,
            e@.search_direction,
            e@.last_search_index is None,
            e@.current_match is None,
            e@.visual_start is None,
            e@.visual_end is None,
    {
        let document_hash = generate_hash(&lines);
        let total_lines = lines.len();
        Editor {
            lines,
            col,
            offset: 0,
            width: width as usize,
            height: height as usize,
            show_highlighter: true,
            editor_state: EditorState::new(),
            highlights,
            document_hash,
            total_lines,
            show_progress: false,
            read_only: false,
            file_path,
        }
    }

    /// Moves the view to a line, stopping at the last line.
    pub fn set_position(&mut self, position: usize)
        requires
            old(self).wf(),
        ensures
            final(self).wf(),
            final(self)@ == with_offset(
                old(self)@,
                if position < last_line(old(self).total_lines) {
                    position
                } else {
                    last_line(old(self).total_lines) as usize
                },
            ),
    {
        let last = if self.total_lines > 0 { self.total_lines - 1 } else { 0 };
        self.offset = if position < last { position } else { last };
    }

    pub fn set_read_only(&mut self, read_only: bool)
        ensures
            final(self)@ == (ReaderView { read_only, ..old(self)@ }),
    {
        self.read_only = read_only;
    }

    fn clear_command_buffer(&mut self)
        ensures
            final(self)@ == (ReaderView { command_buffer: Seq::empty(), ..old(self)@ }),
    {
        self.editor_state.command_buffer = String::new();
    }

    fn normal_mode_key(&mut self, k: KeyPress)
        requires
            old(self).wf(),
            old(self).editor_state.mode == EditorMode::Normal,
        ensures
            final(self).wf(),
            final(self)@ == normal_key(old(self)@, k),
    {
        let half = self.height / 2;
        match k.key {
            Key::Char(c) => {
                if c == 'j' {
                    self.offset = scroll_down(self.offset, 1, self.total_lines);
                } else if c == 'k' {
                    self.offset = scroll_up(self.offset, 1);
                } else if c == 'd' {
                    if k.control {
                        self.offset = scroll_down(self.offset, half, self.total_lines);
                    }
                } else if c == 'u' {
                    if k.control {
                        self.offset = scroll_up(self.offset, half);
                    }
                } else if c == '/' {
                    self.editor_state.mode = EditorMode::Search;
                    self.clear_command_buffer();
                    self.editor_state.search_direction = true;
                } else if c == '?' {
                    self.editor_state.mode = EditorMode::ReverseSearch;
                    self.clear_command_buffer();
                    self.editor_state.search_direction = false;
                } else if c == 'n' {
                    find_next_match(self, true);
                } else if c == 'N' {
                    find_next_match(self, false);
                } else if c == 'v' {
                    self.editor_state.mode = EditorMode::Visual;
                    self.editor_state.visual_start = Some(self.offset + half);
                    self.editor_state.visual_end = self.editor_state.visual_start;
                } else if c == ':' {
                    self.editor_state.mode = EditorMode::Command;
                    self.clear_command_buffer();
                }
            },
            Key::Down => {
                self.offset = scroll_down(self.offset, 1, self.total_lines);
            },
            Key::Up => {
                self.offset = scroll_up(self.offset, 1);
            },
            Key::PageDown => {
                self.offset = scroll_down(self.offset, self.height, self.total_lines);
            },
            Key::PageUp => {
                self.offset = scroll_up(self.offset, self.height);
            },
            Key::Home => {
                self.offset = 0;
            },
            Key::End => {
                self.offset = if self.total_lines > 0 { self.total_lines - 1 } else { 0 };
            },
            _ => {},
        }
    }

    fn visual_mode_key(&mut self, k: KeyPress)
        requires
            old(self).wf(),
            old(self).editor_state.mode == EditorMode::Visual,
        ensures
            final(self).wf(),
            final(self)@ == visual_key(old(self)@, k),
    {
        let half = self.height / 2;
        let down = match k.key {
            Key::Char(c) => c == 'j',
            Key::Down => true,
            _ => false,
        };
        let up = match k.key {
            Key::Char(c) => c == 'k',
            Key::Up => true,
            _ => false,
        };
        if down {
            self.offset = scroll_down(self.offset, 1, self.total_lines);
            self.editor_state.visual_end = Some(self.offset + half);
        } else if up {
            self.offset = scroll_up(self.offset, 1);
            self.editor_state.visual_end = Some(self.offset + half);
        } else {
            match k.key {
                Key::Esc => {
                    self.editor_state.mode = EditorMode::Normal;
                    self.editor_state.visual_start = None;
                    self.editor_state.visual_end = None;
                },
                Key::Char(c) => {
                    if c == ':' {
                        self.editor_state.mode = EditorMode::Command;
                        self.clear_command_buffer();
                    }
                },
                _ => {},
            }
        }
    }

    fn prompt_mode_key(&mut self, k: KeyPress)
        requires
            old(self).wf(),
            old(self).editor_state.mode == EditorMode::Command || old(self).editor_state.mode
                == EditorMode::Search || old(self).editor_state.mode
                == EditorMode::ReverseSearch,
        ensures
            final(self).wf(),
            final(self)@ == prompt_key(old(self)@, k),
    {
        match k.key {
            Key::Esc => {
                self.editor_state.mode = EditorMode::Normal;
                self.clear_command_buffer();
                self.editor_state.visual_start = None;
                self.editor_state.visual_end = None;
            },
            Key::Enter => {
                if self.editor_state.mode != EditorMode::Command {
                    self.editor_state.search_query = self.editor_state.command_buffer.clone();
                    let direction = self.editor_state.search_direction;
                    find_next_match(self, direction);
                    if self.editor_state.current_match.is_some() {
                        center_on_match(self);
                    }
                    self.editor_state.mode = EditorMode::Normal;
                    self.clear_command_buffer();
                }
            },
            Key::Backspace => {
                pop_char(&mut self.editor_state.command_buffer);
            },
            Key::Char(c) => {
                push_char(&mut self.editor_state.command_buffer, c);
            },
            _ => {},
        }
    }

    /// Applies an input event to the reader and says what the loop does next.
    pub fn handle_event(&mut self, ev: InputEvent) -> (r: LoopAction)
        requires
            old(self).wf(),
        ensures
            final(self).wf(),
            final(self)@ == event_view(old(self)@, ev),
            r == event_action(old(self)@, ev),
    {
        match ev {
            InputEvent::Key(k) => {
                match self.editor_state.mode {
                    EditorMode::Normal => {
                        let quit = match k.key {
                            Key::Char(c) => c == 'q',
                            _ => false,
                        };
                        if quit {
                            return LoopAction::Quit;
                        }
                        self.normal_mode_key(k);
                        LoopAction::Continue
                    },
                    EditorMode::Visual => {
                        self.visual_mode_key(k);
                        LoopAction::Continue
                    },
                    _ => {
                        let run = self.editor_state.mode == EditorMode::Command && match k.key {
                            Key::Enter => true,
                            _ => false,
                        };
                        self.prompt_mode_key(k);
                        if run {
                            LoopAction::RunCommand
                        } else {
                            LoopAction::Continue
                        }
                    },
                }
            },
            InputEvent::Resize(w, h) => {
                self.width = w as usize;
                self.height = h as usize;
                LoopAction::Continue
            },
            InputEvent::Other => LoopAction::Continue,
        }
    }

    /// After a command that did not quit: back to normal mode with an empty
    /// prompt and no selection.
    pub fn finish_command(&mut self)
        requires
            old(self).wf(),
        ensures
            final(self).wf(),
            final(self)@ == (ReaderView {
                mode: EditorMode::Normal,
                command_buffer: Seq::empty(),
                visual_start: None,
                visual_end: None,
                ..old(self)@
            }),
    {
        self.editor_state.mode = EditorMode::Normal;
        self.clear_command_buffer();
        self.editor_state.visual_start = None;
        self.editor_state.visual_end = None;
    }
}

// ---------------------------------------------------------------------------
// Laws
// ---------------------------------------------------------------------------

/// In normal mode, a line down and then a line up come back to the same
/// line, unless the view was already at the last line.
pub proof fn law_down_then_up(v: ReaderView)
    requires
        v.wf(),
        v.mode == EditorMode::Normal,
        v.offset < last_line(v.total_lines),
    ensures
        event_view(
            event_view(v, InputEvent::Key(KeyPress { key: Key::Down, control: false })),
            InputEvent::Key(KeyPress { key: Key::Up, control: false }),
        ).offset == v.offset,
{
}

/// Home shows the first line and End the last one.
pub proof fn law_home_and_end(v: ReaderView, control: bool)
    requires
        v.wf(),
        v.mode == EditorMode::Normal,
    ensures
        event_view(v, InputEvent::Key(KeyPress { key: Key::Home, control })).offset == 0,
        event_view(v, InputEvent::Key(KeyPress { key: Key::End, control })).offset == last_line(
            v.total_lines,
        ),
{
}

/// Typing a character into a prompt and then pressing Backspace leaves the
/// reader as it was.
pub proof fn law_type_then_backspace(v: ReaderView, c: char, control: bool)
    requires
        v.mode == EditorMode::Command || v.mode == EditorMode::Search || v.mode
            == EditorMode::ReverseSearch,
    ensures
        event_view(
            event_view(v, InputEvent::Key(KeyPress { key: Key::Char(c), control })),
            InputEvent::Key(KeyPress { key: Key::Backspace, control }),
        ) == v,
{
    assert(v.command_buffer.push(c).drop_last() =~= v.command_buffer);
}

/// Escape in a prompt always returns to normal mode with an empty prompt and
/// no selection.
pub proof fn law_escape_leaves_prompt(v: ReaderView, control: bool)
    requires
        v.mode == EditorMode::Command || v.mode == EditorMode::Search || v.mode
            == EditorMode::ReverseSearch,
    ensures
        ({
            let w = event_view(v, InputEvent::Key(KeyPress { key: Key::Esc, control }));
            w.mode == EditorMode::Normal && w.command_buffer.len() == 0 && w.visual_start is None
                && w.visual_end is None && w.offset == v.offset
        }),
{
}

/// How far each motion key moves the view in normal mode: `j`/Down one line
/// down, `k`/Up one line up, Ctrl-d half a screen down, Ctrl-u half a screen
/// up, Page Down a screen down, Page Up a screen up, Home to the first line,
/// End to the last; moving down stops at the last line and moving up at the
/// first. Nothing else about the reader changes.
pub proof fn law_motion_keys(v: ReaderView)
    requires
        v.wf(),
        v.mode == EditorMode::Normal,
    ensures
        ({
            let last: int = if v.total_lines > 0 {
                v.total_lines - 1
            } else {
                0
            };
            let half: int = (v.height / 2) as int;
            let page: int = v.height as int;
            let o: int = v.offset as int;
            let at = |k: Key, control: bool|
                event_view(v, InputEvent::Key(KeyPress { key: k, control }));
            &&& forall|control: bool|
                #![trigger at(Key::Char('j'), control)]
                at(Key::Char('j'), control) == ReaderView {
                    offset: (if o + 1 < last {
                        o + 1
                    } else {
                        last
                    }) as usize,
                    ..v
                }
            &&& forall|control: bool|
                #![trigger at(Key::Down, control)]
                at(Key::Down, control) == ReaderView {
                    offset: (if o + 1 < last {
                        o + 1
                    } else {
                        last
                    }) as usize,
                    ..v
                }
            &&& forall|control: bool|
                #![trigger at(Key::Char('k'), control)]
                at(Key::Char('k'), control) == ReaderView {
                    offset: (if o >= 1 {
                        o - 1
                    } else {
                        0
                    }) as usize,
                    ..v
                }
            &&& forall|control: bool|
                #![trigger at(Key::Up, control)]
                at(Key::Up, control) == ReaderView {
                    offset: (if o >= 1 {
                        o - 1
                    } else {
                        0
                    }) as usize,
                    ..v
                }
            &&& at(Key::Char('d'), true) == ReaderView {
                offset: (if o + half < last {
                    o + half
                } else {
                    last
                }) as usize,
                ..v
            }
            &&& at(Key::Char('u'), true) == ReaderView {
                offset: (if o >= half {
                    o - half
                } else {
                    0
                }) as usize,
                ..v
            }
            &&& at(Key::Char('d'), false) == v
            &&& at(Key::Char('u'), false) == v
            &&& forall|control: bool|
                #![trigger at(Key::PageDown, control)]
                at(Key::PageDown, control) == ReaderView {
                    offset: (if o + page < last {
                        o + page
                    } else {
                        last
                    }) as usize,
                    ..v
                }
            &&& forall|control: bool|
                #![trigger at(Key::PageUp, control)]
                at(Key::PageUp, control) == ReaderView {
                    offset: (if o >= page {
                        o - page
                    } else {
                        0
                    }) as usize,
                    ..v
                }
        }),
{
}

/// Half a screen down with Ctrl-d and back up with Ctrl-u returns to the same
/// line, unless Ctrl-d stopped at the last line.
pub proof fn law_half_page_round_trip(v: ReaderView)
    requires
        v.wf(),
        v.mode == EditorMode::Normal,
        v.offset + v.height / 2 < last_line(v.total_lines),
    ensures
        event_view(v, InputEvent::Key(KeyPress { key: Key::Char('d'), control: true })).offset
            == v.offset + v.height / 2,
        event_view(
            event_view(v, InputEvent::Key(KeyPress { key: Key::Char('d'), control: true })),
            InputEvent::Key(KeyPress { key: Key::Char('u'), control: true }),
        ).offset == v.offset,
{
}

} // verus!
