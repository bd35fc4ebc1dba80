use hygg::editor::commands::{execute_command, handle_command, parse_command, Command, CommandOutcome};
use hygg::editor::display::{center_offset, match_pieces, tutorial_key, RowStyle};
use hygg::editor::search::{center_on_match, find_next_match};
use hygg::editor::{Editor, EditorMode, EditorState, InputEvent, Key, KeyPress, LoopAction};

fn lines(texts: &[&str]) -> Vec<String> {
    texts.iter().map(|s| s.to_string()).collect()
}

fn key(k: Key) -> InputEvent {
    InputEvent::Key(KeyPress { key: k, control: false })
}

fn ctrl(c: char) -> InputEvent {
    InputEvent::Key(KeyPress { key: Key::Char(c), control: true })
}

fn type_text(e: &mut Editor, text: &str) {
    for c in text.chars() {
        assert_eq!(e.handle_event(key(Key::Char(c))), LoopAction::Continue);
    }
}

fn reader(n: usize, height: u16) -> Editor {
    let ls: Vec<String> = (0..n).map(|i| format!("line {}", i)).collect();
    Editor::new(ls, 80, "doc.txt".to_string(), 100, height, vec![])
}

#[test]
fn editor_state_starts_in_normal_mode() {
    let s = EditorState::new();
    assert!(s.mode == EditorMode::Normal);
    assert!(s.command_buffer.is_empty());
    assert!(s.search_query.is_empty());
    assert!(s.search_direction);
    assert_eq!(s.last_search_index, None);
    assert_eq!(s.current_match, None);
    assert_eq!(s.visual_start, None);
    assert_eq!(s.visual_end, None);
}

#[test]
fn new_editor_starts_at_the_top() {
    let e = reader(5, 24);
    assert_eq!(e.offset, 0);
    assert_eq!(e.total_lines, 5);
    assert_eq!(e.width, 100);
    assert_eq!(e.height, 24);
    assert!(e.show_highlighter);
    assert!(!e.show_progress);
    assert!(!e.read_only);
    assert_eq!(e.document_hash, hygg::progress::generate_hash(&e.lines));
}

#[test]
fn scrolling_stays_within_the_document() {
    let mut e = reader(10, 6);
    e.handle_event(key(Key::Down));
    e.handle_event(key(Key::Char('j')));
    assert_eq!(e.offset, 2);
    e.handle_event(key(Key::Char('k')));
    assert_eq!(e.offset, 1);
    e.handle_event(key(Key::PageDown));
    assert_eq!(e.offset, 7);
    e.handle_event(key(Key::PageDown));
    assert_eq!(e.offset, 9);
    e.handle_event(key(Key::Down));
    assert_eq!(e.offset, 9);
    e.handle_event(ctrl('u'));
    assert_eq!(e.offset, 6);
    e.handle_event(key(Key::Char('u')));
    assert_eq!(e.offset, 6);
    e.handle_event(ctrl('d'));
    assert_eq!(e.offset, 9);
    e.handle_event(key(Key::Home));
    assert_eq!(e.offset, 0);
    e.handle_event(key(Key::Up));
    assert_eq!(e.offset, 0);
    e.handle_event(key(Key::End));
    assert_eq!(e.offset, 9);
    e.handle_event(key(Key::PageUp));
    assert_eq!(e.offset, 3);
    e.set_position(100);
    assert_eq!(e.offset, 9);
    e.set_position(4);
    assert_eq!(e.offset, 4);
    e.set_read_only(true);
    assert!(e.read_only);
}

#[test]
fn empty_document_stays_at_line_zero() {
    let mut e = Editor::new(vec![], 80, "empty.txt".to_string(), 80, 24, vec![]);
    e.handle_event(key(Key::Down));
    e.handle_event(key(Key::End));
    assert_eq!(e.offset, 0);
    e.handle_event(key(Key::Char('/')));
    type_text(&mut e, "x");
    e.handle_event(key(Key::Enter));
    assert_eq!(e.editor_state.current_match, None);
}

#[test]
fn q_quits_and_resize_changes_the_screen() {
    let mut e = reader(3, 24);
    assert_eq!(e.handle_event(InputEvent::Resize(120, 40)), LoopAction::Continue);
    assert_eq!((e.width, e.height), (120, 40));
    assert_eq!(e.handle_event(key(Key::Char('q'))), LoopAction::Quit);
}

#[test]
fn search_finds_lines_ignoring_case_and_wraps() {
    let mut e = Editor::new(
        lines(&["Hello World", "foo", "say HELLO again", "bar"]),
        80,
        "s.txt".to_string(),
        80,
        4,
        vec![],
    );
    e.handle_event(key(Key::Char('/')));
    assert!(e.editor_state.mode == EditorMode::Search);
    type_text(&mut e, "hello");
    assert_eq!(e.status_text(), "/hello");
    e.handle_event(key(Key::Enter));
    assert!(e.editor_state.mode == EditorMode::Normal);
    assert_eq!(e.editor_state.search_query, "hello");
    assert_eq!(e.editor_state.current_match, Some((0, 0, 5)));
    assert!(e.editor_state.command_buffer.is_empty());
    e.handle_event(key(Key::Char('n')));
    assert_eq!(e.editor_state.current_match, Some((2, 4, 9)));
    e.handle_event(key(Key::Char('n')));
    assert_eq!(e.editor_state.current_match, Some((0, 0, 5)));
    e.handle_event(key(Key::Char('N')));
    assert_eq!(e.editor_state.current_match, Some((2, 4, 9)));
    center_on_match(&mut e);
    assert_eq!(e.offset, 0);
    e.editor_state.search_query = "zzz".to_string();
    find_next_match(&mut e, true);
    assert_eq!(e.editor_state.current_match, None);
}

#[test]
fn reverse_search_goes_backward() {
    let mut e = Editor::new(
        lines(&["a x", "b", "c x", "d", "e"]),
        80,
        "s.txt".to_string(),
        80,
        2,
        vec![],
    );
    e.set_position(3);
    e.handle_event(key(Key::Char('?')));
    assert!(!e.editor_state.search_direction);
    type_text(&mut e, "X");
    e.handle_event(key(Key::Enter));
    assert_eq!(e.editor_state.current_match, Some((2, 2, 3)));
    assert_eq!(e.offset, 1);
    e.handle_event(key(Key::Char('n')));
    assert_eq!(e.editor_state.current_match, Some((0, 2, 3)));
}

#[test]
fn search_reports_byte_positions() {
    let mut e = Editor::new(lines(&["Éclair hello"]), 80, "u.txt".to_string(), 80, 24, vec![]);
    e.editor_state.search_query = "HELLO".to_string();
    find_next_match(&mut e, true);
    assert_eq!(e.editor_state.current_match, Some((0, 8, 13)));
    // An empty query leaves the match as it is.
    e.editor_state.search_query.clear();
    find_next_match(&mut e, true);
    assert_eq!(e.editor_state.current_match, Some((0, 8, 13)));
}

#[test]
fn prompt_editing_and_escape() {
    let mut e = reader(3, 24);
    e.handle_event(key(Key::Char(':')));
    assert!(e.editor_state.mode == EditorMode::Command);
    type_text(&mut e, "hel");
    e.handle_event(key(Key::Backspace));
    assert_eq!(e.editor_state.command_buffer, "he");
    assert_eq!(e.status_text(), ":he");
    e.handle_event(key(Key::Esc));
    assert!(e.editor_state.mode == EditorMode::Normal);
    assert!(e.editor_state.command_buffer.is_empty());
    e.handle_event(key(Key::Char(':')));
    type_text(&mut e, "o 2");
    assert_eq!(e.handle_event(key(Key::Enter)), LoopAction::RunCommand);
    assert_eq!(execute_command(&mut e), CommandOutcome::Jumped(2));
    assert_eq!(e.offset, 1);
    e.finish_command();
    assert!(e.editor_state.mode == EditorMode::Normal);
    assert!(e.editor_state.command_buffer.is_empty());
}

#[test]
fn visual_mode_selects_from_the_middle_line() {
    let mut e = reader(30, 10);
    e.handle_event(key(Key::Char('v')));
    assert!(e.editor_state.mode == EditorMode::Visual);
    assert_eq!(e.editor_state.visual_start, Some(5));
    e.handle_event(key(Key::Char('j')));
    e.handle_event(key(Key::Down));
    assert_eq!(e.offset, 2);
    assert_eq!(e.editor_state.visual_end, Some(7));
    assert_eq!(e.visual_selection(), Some((5, 7)));
    assert_eq!(e.status_text(), "VISUAL MODE (3 lines selected)");
    assert_eq!(e.row_style(3), RowStyle::Selected);
    assert_eq!(e.row_style(6), RowStyle::Plain);
    e.handle_event(key(Key::Up));
    e.handle_event(key(Key::Up));
    e.handle_event(key(Key::Up));
    assert_eq!(e.offset, 0);
    assert_eq!(e.visual_selection(), Some((5, 5)));
    e.handle_event(key(Key::Esc));
    assert!(e.editor_state.mode == EditorMode::Normal);
    assert_eq!(e.visual_selection(), None);
    assert_eq!(e.status_text(), "");
}

#[test]
fn row_styles_and_spans() {
    let mut e = Editor::new(
        lines(&["a", "b", "c", "d", "e"]),
        80,
        "r.txt".to_string(),
        80,
        4,
        vec![1],
    );
    assert_eq!(e.row_style(0), RowStyle::Plain);
    assert_eq!(e.row_style(1), RowStyle::Highlighted);
    assert_eq!(e.row_style(2), RowStyle::CurrentLine);
    e.show_highlighter = false;
    assert_eq!(e.row_style(2), RowStyle::Plain);
    e.editor_state.current_match = Some((3, 0, 1));
    assert_eq!(e.search_span(3), Some((0, 1)));
    assert_eq!(e.search_span(2), None);
    assert_eq!(e.visible_rows(), 4);
    e.set_position(3);
    assert_eq!(e.visible_rows(), 2);
    assert_eq!(e.middle_line(), 5);
    assert_eq!(center_offset(100, 80), 10);
    assert_eq!(center_offset(80, 100), 0);
}

#[test]
fn commands_are_read_from_trimmed_text() {
    assert_eq!(parse_command("p"), Command::ToggleProgress);
    assert_eq!(parse_command(" h "), Command::ToggleHighlighter);
    assert_eq!(parse_command("quit"), Command::Quit);
    assert_eq!(parse_command("exit\t"), Command::Quit);
    assert_eq!(parse_command("q"), Command::Quit);
    assert_eq!(parse_command("help"), Command::Help);
    assert_eq!(parse_command("clear"), Command::ClearHighlights);
    assert_eq!(parse_command("export"), Command::ExportHighlights);
    assert_eq!(parse_command("undo"), Command::Undo);
    assert_eq!(parse_command("u"), Command::Undo);
    assert_eq!(parse_command("  o 12  "), Command::GoToLine(Some(12)));
    assert_eq!(parse_command("o   +3"), Command::GoToLine(Some(3)));
    assert_eq!(parse_command("o x"), Command::GoToLine(None));
    assert_eq!(parse_command("o"), Command::Other);
    assert_eq!(parse_command("h on"), Command::Other);
    assert_eq!(parse_command("quit now"), Command::Other);
}

#[test]
fn highlight_on_and_off() {
    let mut show = false;
    assert!(handle_command("highlight on", &mut show));
    assert!(show);
    assert!(handle_command("h off", &mut show));
    assert!(!show);
    assert!(handle_command("h on", &mut show));
    assert!(show);
    assert!(handle_command("highlight off", &mut show));
    assert!(!show);
    assert!(!handle_command(" h on", &mut show));
    assert!(!show);
}

#[test]
fn executing_commands() {
    let mut e = reader(4, 24);
    e.editor_state.command_buffer = "p".to_string();
    assert_eq!(execute_command(&mut e), CommandOutcome::ProgressToggled(true));
    assert!(e.show_progress);
    e.editor_state.command_buffer = "h".to_string();
    assert_eq!(execute_command(&mut e), CommandOutcome::HighlighterToggled(false));
    e.editor_state.command_buffer = "h on".to_string();
    assert_eq!(execute_command(&mut e), CommandOutcome::HighlightingSet(true));
    assert!(e.show_highlighter);
    e.editor_state.command_buffer = "o 9".to_string();
    assert_eq!(execute_command(&mut e), CommandOutcome::LineOutOfRange(4));
    e.editor_state.command_buffer = "o 0".to_string();
    assert_eq!(execute_command(&mut e), CommandOutcome::LineOutOfRange(4));
    e.editor_state.command_buffer = "o four".to_string();
    assert_eq!(execute_command(&mut e), CommandOutcome::InvalidLineNumber);
    e.editor_state.command_buffer = "o 4".to_string();
    assert_eq!(execute_command(&mut e), CommandOutcome::Jumped(4));
    assert_eq!(e.offset, 3);
    e.editor_state.command_buffer = "bogus".to_string();
    assert_eq!(execute_command(&mut e), CommandOutcome::Unknown);
    e.editor_state.command_buffer = "exit".to_string();
    assert_eq!(execute_command(&mut e), CommandOutcome::Quit);
}

#[test]
fn tutorial_scrolling() {
    assert_eq!(tutorial_key(0, 10, 25, Key::Char('j')), Some(1));
    assert_eq!(tutorial_key(15, 10, 25, Key::Down), Some(15));
    assert_eq!(tutorial_key(0, 10, 25, Key::Up), Some(0));
    assert_eq!(tutorial_key(4, 10, 25, Key::Char('k')), Some(3));
    assert_eq!(tutorial_key(0, 10, 25, Key::PageDown), Some(10));
    assert_eq!(tutorial_key(10, 10, 25, Key::PageDown), Some(15));
    assert_eq!(tutorial_key(3, 10, 25, Key::PageUp), Some(0));
    assert_eq!(tutorial_key(0, 30, 25, Key::PageDown), Some(0));
    assert_eq!(tutorial_key(0, 10, 25, Key::Esc), None);
    assert_eq!(tutorial_key(0, 10, 25, Key::Char('x')), None);
}

#[test]
fn match_pieces_cut_the_line_at_the_span() {
    assert_eq!(match_pieces("Hello world", 6, 11), ("Hello ", "world", ""));
    assert_eq!(match_pieces("Hello world", 0, 5), ("", "Hello", " world"));
    assert_eq!(match_pieces("naïve café", 7, 12), ("naïve ", "café", ""));
    assert_eq!(match_pieces("abc", 1, 1), ("a", "", "bc"));
}
