//! Commands typed at the reader's prompt.

use vstd::prelude::*;
use vstd::string::*;

use super::{with_offset, Editor, EditorMode, ReaderView};
use crate::text::{
    all_digits, chars_of, decimal_text, is_white_space, lemma_decimal_roundtrip, lemma_parse_decimal,
    parse_usize, parsed_usize, same_chars, trim_end, trim_start, trim_text, trimmed,
};

verus! {

broadcast use vstd::string::group_string_axioms;

/// A command of the prompt, as its trimmed text selects it.
#[derive(Clone, Copy, Debug, PartialEq, Eq)]
pub enum Command {
    /// `p`
    ToggleProgress,
    /// `h`
    ToggleHighlighter,
    /// `q`, `quit`, `exit`
    Quit,
    /// `help`
    Help,
    /// `clear`
    ClearHighlights,
    /// `export`
    ExportHighlights,
    /// `u`, `undo`
    Undo,
    /// `o <line>`, with the line number when it reads as one.
    GoToLine(Option<usize>),
    /// Anything else.
    Other,
}

/// The command that a prompt's text selects.
pub open spec fn command_of(buffer: Seq<char>) -> Command {
    let t = trimmed(buffer);
    if t == "p"@ {
        Command::ToggleProgress
    } else if t == "h"@ {
        Command::ToggleHighlighter
    } else if t == "q"@ || t == "quit"@ || t == "exit"@ {
        Command::Quit
    } else if t == "help"@ {
        Command::Help
    } else if t == "clear"@ {
        Command::ClearHighlights
    } else if t == "export"@ {
        Command::ExportHighlights
    } else if t == "u"@ || t == "undo"@ {
        Command::Undo
    } else if t.len() >= 2 && t[0] == 'o' && t[1] == ' ' {
        Command::GoToLine(parsed_usize(trimmed(t.skip(2))))
    } else {
        Command::Other
    }
}

/// Reads the command that the prompt's text selects.
pub fn parse_command(buffer: &str) -> (c: Command)
    ensures
        c == command_of(buffer@),
{
    let t = trim_text(buffer);
    let cs = chars_of(t);
    if same_chars(&cs, "p") {
        Command::ToggleProgress
    } else if same_chars(&cs, "h") {
        Command::ToggleHighlighter
    } else if same_chars(&cs, "q") || same_chars(&cs, "quit") || same_chars(&cs, "exit") {
        Command::Quit
    } else if same_chars(&cs, "help") {
        Command::Help
    } else if same_chars(&cs, "clear") {
        Command::ClearHighlights
    } else if same_chars(&cs, "export") {
        Command::ExportHighlights
    } else if same_chars(&cs, "u") || same_chars(&cs, "undo") {
        Command::Undo
    } else if cs.len() >= 2 && cs[0] == 'o' && cs[1] == ' ' {
        let rest = t.substring_char(2, cs.len());
        assert(rest@ =~= t@.skip(2));
        Command::GoToLine(parse_usize(trim_text(rest)))
    } else {
        Command::Other
    }
}

/// `highlight on` / `h on` and `highlight off` / `h off`: sets whether the
/// current line is marked; says whether the text was one of these.
pub fn handle_command(command: &str, show_highlighter: &mut bool) -> (r: bool)
    ensures
        r == (command@ == "highlight on"@ || command@ == "h on"@ || command@ == "highlight off"@
            || command@ == "h off"@),
        (command@ == "highlight on"@ || command@ == "h on"@) ==> *final(show_highlighter),
        (command@ == "highlight off"@ || command@ == "h off"@) ==> !*final(show_highlighter),
        !r ==> *final(show_highlighter) == *old(show_highlighter),
{
    proof {
        reveal_strlit("highlight on");
        reveal_strlit("h on");
        reveal_strlit("highlight off");
        reveal_strlit("h off");
        assert("highlight on"@.len() == 12 && "h on"@.len() == 4);
        assert("highlight off"@.len() == 13 && "h off"@.len() == 5);
    }
    let cs = chars_of(command);
    if same_chars(&cs, "highlight on") || same_chars(&cs, "h on") {
        *show_highlighter = true;
        true
    } else if same_chars(&cs, "highlight off") || same_chars(&cs, "h off") {
        *show_highlighter = false;
        true
    } else {
        false
    }
}

/// What a command leaves to be done or said once the reader's state is
/// updated.
#[derive(Clone, Copy, Debug, PartialEq, Eq)]
pub enum CommandOutcome {
    /// The progress display is now on (`true`) or off.
    ProgressToggled(bool),
    /// The current-line marker is now on (`true`) or off; the highlights are
    /// to be loaded again.
    HighlighterToggled(bool),
    Quit,
    Help,
    ClearHighlights,
    ExportHighlights,
    Undo,
    /// The view moved to this line number (counted from 1).
    Jumped(usize),
    /// The line number is not between 1 and this number of lines.
    LineOutOfRange(usize),
    InvalidLineNumber,
    /// `highlight on`/`off`: the current-line marker is now on or off.
    HighlightingSet(bool),
    Unknown,
}

/// The reader after a command, and what is left to do.
pub open spec fn command_step(v: ReaderView) -> (ReaderView, CommandOutcome) {
    let b = v.command_buffer;
    match command_of(b) {
        Command::ToggleProgress => (
            ReaderView { show_progress: !v.show_progress, ..v },
            CommandOutcome::ProgressToggled(!v.show_progress),
        ),
        Command::ToggleHighlighter => (
            ReaderView { show_highlighter: !v.show_highlighter, ..v },
            CommandOutcome::HighlighterToggled(!v.show_highlighter),
        ),
        Command::Quit => (v, CommandOutcome::Quit),
        Command::Help => (v, CommandOutcome::Help),
        Command::ClearHighlights => (v, CommandOutcome::ClearHighlights),
        Command::ExportHighlights => (v, CommandOutcome::ExportHighlights),
        Command::Undo => (v, CommandOutcome::Undo),
        Command::GoToLine(Some(n)) => if n > 0 && n <= v.lines.len() {
            (with_offset(v, (n - 1) as usize), CommandOutcome::Jumped(n))
        } else {
            (v, CommandOutcome::LineOutOfRange(v.lines.len() as usize))
        },
        Command::GoToLine(None) => (v, CommandOutcome::InvalidLineNumber),
        Command::Other => if b == "highlight on"@ || b == "h on"@ {
            (ReaderView { show_highlighter: true, ..v }, CommandOutcome::HighlightingSet(true))
        } else if b == "highlight off"@ || b == "h off"@ {
            (ReaderView { show_highlighter: false, ..v }, CommandOutcome::HighlightingSet(false))
        } else {
            (v, CommandOutcome::Unknown)
        },
    }
}

/// Carries out the command in the prompt as far as the reader's own state
/// goes, and says what is left to do.
pub fn execute_command(editor: &mut Editor) -> (r: CommandOutcome)
    requires
        old(editor).wf(),
    ensures
        final(editor).wf(),
        (final(editor)@, r) == command_step(old(editor)@),
{
    proof {
        reveal_strlit("highlight on");
        reveal_strlit("h on");
        reveal_strlit("highlight off");
        reveal_strlit("h off");
    }
    match parse_command(editor.editor_state.command_buffer.as_str()) {
        Command::ToggleProgress => {
            editor.show_progress = !editor.show_progress;
            CommandOutcome::ProgressToggled(editor.show_progress)
        },
        Command::ToggleHighlighter => {
            editor.show_highlighter = !editor.show_highlighter;
            CommandOutcome::HighlighterToggled(editor.show_highlighter)
        },
        Command::Quit => CommandOutcome::Quit,
        Command::Help => CommandOutcome::Help,
        Command::ClearHighlights => CommandOutcome::ClearHighlights,
        Command::ExportHighlights => CommandOutcome::ExportHighlights,
        Command::Undo => CommandOutcome::Undo,
        Command::GoToLine(Some(line)) => {
            if line > 0 && line <= editor.lines.len() {
                editor.offset = line - 1;
                CommandOutcome::Jumped(line)
            } else {
                CommandOutcome::LineOutOfRange(editor.lines.len())
            }
        },
        Command::GoToLine(None) => CommandOutcome::InvalidLineNumber,
        Command::Other => {
            let mut show = editor.show_highlighter;
            if handle_command(editor.editor_state.command_buffer.as_str(), &mut show) {
                editor.show_highlighter = show;
                CommandOutcome::HighlightingSet(show)
            } else {
                CommandOutcome::Unknown
            }
        },
    }
}

// ---------------------------------------------------------------------------
// Laws
// ---------------------------------------------------------------------------

proof fn lemma_trimmed_unchanged(s: Seq<char>)
    requires
        s.len() > 0,
        !is_white_space(s[0]),
        !is_white_space(s.last()),
    ensures
        trimmed(s) == s,
{
    assert(trim_start(s) == s);
    assert(trim_end(s) == s);
}

/// `o <n>`, with `n` written in decimal, asks for line `n`.
pub proof fn law_goto_reads_line_number(n: usize)
    ensures
        command_of("o "@ + decimal_text(n as nat)) == Command::GoToLine(Some(n)),
{
    reveal_strlit("o ");
    reveal_strlit("p");
    reveal_strlit("h");
    reveal_strlit("q");
    reveal_strlit("quit");
    reveal_strlit("exit");
    reveal_strlit("help");
    reveal_strlit("clear");
    reveal_strlit("export");
    reveal_strlit("u");
    reveal_strlit("undo");
    let d = decimal_text(n as nat);
    let s = "o "@ + d;
    lemma_decimal_roundtrip(n as nat);
    lemma_parse_decimal(n);
    assert(all_digits(d));
    assert(d[0] == d[0]);
    assert(d.last() == d[d.len() - 1]);
    assert(s[0] == 'o');
    assert(s.last() == d.last());
    lemma_trimmed_unchanged(s);
    lemma_trimmed_unchanged(d);
    assert(s.skip(2) =~= d);
}

/// `o <n>` moves the view to line `n` when the document has that line.
pub proof fn law_goto_moves_to_line(v: ReaderView, n: usize)
    requires
        0 < n <= v.lines.len(),
        v.command_buffer == "o "@ + decimal_text(n as nat),
    ensures
        command_step(v).0.offset == n - 1,
        command_step(v).1 == CommandOutcome::Jumped(n),
{
    law_goto_reads_line_number(n);
}

/// Each command name does its own thing: `p` and `h` toggle the progress
/// display and the current-line marker, `clear`, `export`, `u`/`undo`,
/// `help` and `q`/`quit`/`exit` leave the reader as it is and hand on their
/// own outcome; surrounding whitespace does not matter.
pub proof fn law_command_names(v: ReaderView)
    ensures
        trimmed(v.command_buffer) == "p"@ ==> command_step(v) == (
            ReaderView { show_progress: !v.show_progress, ..v },
            CommandOutcome::ProgressToggled(!v.show_progress),
        ),
        trimmed(v.command_buffer) == "h"@ ==> command_step(v) == (
            ReaderView { show_highlighter: !v.show_highlighter, ..v },
            CommandOutcome::HighlighterToggled(!v.show_highlighter),
        ),
        trimmed(v.command_buffer) == "clear"@ ==> command_step(v) == (
            v,
            CommandOutcome::ClearHighlights,
        ),
        trimmed(v.command_buffer) == "export"@ ==> command_step(v) == (
            v,
            CommandOutcome::ExportHighlights,
        ),
        (trimmed(v.command_buffer) == "u"@ || trimmed(v.command_buffer) == "undo"@)
            ==> command_step(v) == (v, CommandOutcome::Undo),
        trimmed(v.command_buffer) == "help"@ ==> command_step(v) == (v, CommandOutcome::Help),
        (trimmed(v.command_buffer) == "q"@ || trimmed(v.command_buffer) == "quit"@ || trimmed(
            v.command_buffer,
        ) == "exit"@) ==> command_step(v) == (v, CommandOutcome::Quit),
{
    reveal_strlit("p");
    reveal_strlit("h");
    reveal_strlit("q");
    reveal_strlit("quit");
    reveal_strlit("exit");
    reveal_strlit("help");
    reveal_strlit("clear");
    reveal_strlit("export");
    reveal_strlit("u");
    reveal_strlit("undo");
    assert("p"@[0] == 'p' && "h"@[0] == 'h' && "q"@[0] == 'q' && "u"@[0] == 'u');
    assert("quit"@[0] == 'q' && "exit"@[0] == 'e' && "help"@[0] == 'h' && "undo"@[0] == 'u');
    assert("p"@ != "h"@ && "p"@ != "q"@ && "p"@ != "u"@ && "h"@ != "q"@ && "h"@ != "u"@ && "q"@
        != "u"@);
    assert("quit"@ != "exit"@ && "quit"@ != "help"@ && "quit"@ != "undo"@ && "exit"@ != "help"@
        && "exit"@ != "undo"@ && "help"@ != "undo"@);
    let t = trimmed(v.command_buffer);
    if t == "p"@ {
        assert(command_of(v.command_buffer) == Command::ToggleProgress);
    } else if t == "h"@ {
        assert(t != "p"@);
        assert(command_of(v.command_buffer) == Command::ToggleHighlighter);
    } else if t == "clear"@ {
        assert(command_of(v.command_buffer) == Command::ClearHighlights);
    } else if t == "export"@ {
        assert(command_of(v.command_buffer) == Command::ExportHighlights);
    } else if t == "u"@ || t == "undo"@ {
        assert(t[0] == 'u');
        assert("quit"@[0] == 'q' && "exit"@[0] == 'e' && "help"@[0] == 'h');
        assert(t != "quit"@ && t != "exit"@ && t != "help"@);
        assert(command_of(v.command_buffer) == Command::Undo);
    } else if t == "help"@ {
        assert(command_of(v.command_buffer) == Command::Help);
    } else if t == "q"@ || t == "quit"@ || t == "exit"@ {
        assert(command_of(v.command_buffer) == Command::Quit);
    }
}

/// `highlight on` / `h on` turn the current-line marker on and `highlight off`
/// / `h off` turn it off, whatever it was.
pub proof fn law_highlight_on_off(v: ReaderView)
    ensures
        (v.command_buffer == "highlight on"@ || v.command_buffer == "h on"@) ==> command_step(v)
            == (
            ReaderView { show_highlighter: true, ..v },
            CommandOutcome::HighlightingSet(true),
        ),
        (v.command_buffer == "highlight off"@ || v.command_buffer == "h off"@) ==> command_step(v)
            == (
            ReaderView { show_highlighter: false, ..v },
            CommandOutcome::HighlightingSet(false),
        ),
{
    reveal_strlit("p");
    reveal_strlit("h");
    reveal_strlit("q");
    reveal_strlit("quit");
    reveal_strlit("exit");
    reveal_strlit("help");
    reveal_strlit("clear");
    reveal_strlit("export");
    reveal_strlit("u");
    reveal_strlit("undo");
    reveal_strlit("highlight on");
    reveal_strlit("h on");
    reveal_strlit("highlight off");
    reveal_strlit("h off");
    let b = v.command_buffer;
    if b == "highlight on"@ || b == "h on"@ || b == "highlight off"@ || b == "h off"@ {
        assert(b[0] == 'h');
        assert(b.last() == b[b.len() - 1]);
        lemma_trimmed_unchanged(b);
        assert(trimmed(b) == b);
        assert(b.len() >= 4);
    }
}

} // verus!
