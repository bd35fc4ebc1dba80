use hygg::journal::{
    add_highlight, clear_highlights, export_highlights, get_last_highlight_event, load_highlights,
    load_progress, remove_highlight, save_progress, undo_last_highlight,
};
use hygg::progress::events::{Event, Progress};

#[test]
fn journal_undo_takes_back_the_previous_action() {
    let mut events: Vec<Event> = Vec::new();
    add_highlight(&mut events, 7, 5, 1);
    add_highlight(&mut events, 7, 10, 2);
    assert_eq!(load_highlights(&events, 7), vec![5, 10]);
    assert!(undo_last_highlight(&mut events, 7, 3));
    assert_eq!(load_highlights(&events, 7), vec![5]);
    remove_highlight(&mut events, 7, 5, 4);
    assert!(load_highlights(&events, 7).is_empty());
    assert!(undo_last_highlight(&mut events, 7, 5));
    assert_eq!(load_highlights(&events, 7), vec![5]);
    // An undo after an undo or a clear takes nothing back.
    assert!(undo_last_highlight(&mut events, 7, 6));
    assert_eq!(load_highlights(&events, 7), vec![5]);
    clear_highlights(&mut events, 7, 7);
    assert!(undo_last_highlight(&mut events, 7, 8));
    assert!(load_highlights(&events, 7).is_empty());
}

#[test]
fn journal_undo_needs_a_highlight_action() {
    let mut events: Vec<Event> = Vec::new();
    save_progress(&mut events, 7, 3, 10, 1);
    assert!(!undo_last_highlight(&mut events, 7, 2));
    assert_eq!(events.len(), 1);
    assert_eq!(get_last_highlight_event(&events, 7), None);
    add_highlight(&mut events, 8, 1, 3);
    assert!(!undo_last_highlight(&mut events, 7, 4));
    assert!(undo_last_highlight(&mut events, 8, 5));
    assert_eq!(
        get_last_highlight_event(&events, 8),
        Some(Event::UndoHighlight { timestamp: 5, document_hash: 8 })
    );
}

#[test]
fn latest_progress_wins() {
    let mut events: Vec<Event> = Vec::new();
    assert_eq!(load_progress(&events, 1), None);
    save_progress(&mut events, 1, 4, 100, 1);
    save_progress(&mut events, 2, 50, 60, 2);
    save_progress(&mut events, 1, 9, 100, 3);
    add_highlight(&mut events, 1, 2, 4);
    assert_eq!(
        load_progress(&events, 1),
        Some(Progress { document_hash: 1, offset: 9, total_lines: 100 })
    );
    assert_eq!(
        load_progress(&events, 2),
        Some(Progress { document_hash: 2, offset: 50, total_lines: 60 })
    );
}

#[test]
fn journal_export_has_no_heading() {
    let lines: Vec<String> = vec!["a".into(), "b".into()];
    let mut events: Vec<Event> = Vec::new();
    add_highlight(&mut events, 3, 1, 0);
    add_highlight(&mut events, 3, 0, 1);
    add_highlight(&mut events, 3, 5, 2);
    assert_eq!(export_highlights(&events, 3, &lines), "Line 2: b\nLine 1: a\n");
}
