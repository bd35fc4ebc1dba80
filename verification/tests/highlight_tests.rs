use hygg::progress::events::Event;
use hygg::progress::generate_hash;
use hygg::progress::highlights::{
    export_highlights, format_highlights_result, handle_local_add_highlight,
    handle_local_clear_highlights, handle_local_load_highlights, handle_local_remove_highlight,
};
use hygg::progress_compat::undo_last_highlight;
use hygg::progress::highlights;
use std::hash::{Hash, Hasher};

#[test]
fn test_local_highlighting() {
    let document_hash = 12345u64;
    let line_number = 10;
    let file_path = "test_document.txt";
    let mut events: Vec<Event> = Vec::new();

    handle_local_add_highlight(&mut events, document_hash, line_number, 1);
    assert_eq!(handle_local_load_highlights(&events, document_hash), vec![10]);

    // Adding the same highlight again records nothing.
    handle_local_add_highlight(&mut events, document_hash, line_number, 2);
    assert_eq!(events.len(), 1);

    handle_local_remove_highlight(&mut events, document_hash, line_number, 3);
    assert!(handle_local_load_highlights(&events, document_hash).is_empty());

    // Removing a highlight that is not there is fine.
    handle_local_remove_highlight(&mut events, document_hash, line_number, 4);
    assert!(handle_local_load_highlights(&events, document_hash).is_empty());

    handle_local_add_highlight(&mut events, document_hash, line_number, 5);
    assert_eq!(handle_local_load_highlights(&events, document_hash), vec![10]);
    let before_undo = events.len();
    assert!(undo_last_highlight(&mut events, document_hash, file_path));
    assert_eq!(events.len(), before_undo - 1);
    assert!(handle_local_load_highlights(&events, document_hash).is_empty());

    // The removals before are still there to undo.
    assert!(undo_last_highlight(&mut events, document_hash, file_path));

    handle_local_add_highlight(&mut events, document_hash, line_number, 6);
    handle_local_add_highlight(&mut events, document_hash, line_number + 1, 7);
    assert_eq!(handle_local_load_highlights(&events, document_hash), vec![10, 11]);
    handle_local_clear_highlights(&mut events, document_hash, 8);
    assert!(handle_local_load_highlights(&events, document_hash).is_empty());
}

#[test]
fn test_error_cases() {
    let document_hash = 99999u64;
    let line_number = 15;
    let mut events: Vec<Event> = Vec::new();

    handle_local_add_highlight(&mut events, document_hash, line_number, 1);
    handle_local_add_highlight(&mut events, document_hash, line_number, 2);
    assert_eq!(events.len(), 1);
    handle_local_remove_highlight(&mut events, document_hash, line_number, 3);
    handle_local_remove_highlight(&mut events, document_hash, line_number, 4);
    assert!(handle_local_load_highlights(&events, document_hash).is_empty());
    handle_local_clear_highlights(&mut events, document_hash, 5);
    assert!(handle_local_load_highlights(&events, document_hash).is_empty());
    assert_eq!(events.len(), 4);
}

#[test]
fn test_highlight_workflow() {
    let document_hash = 54321u64;
    let file_path = "test_workflow_document.txt";
    let mut events: Vec<Event> = Vec::new();

    for (t, line) in [5usize, 10, 15].into_iter().enumerate() {
        handle_local_add_highlight(&mut events, document_hash, line, t as i64);
    }
    handle_local_add_highlight(&mut events, document_hash, 5, 10);
    handle_local_add_highlight(&mut events, document_hash, 15, 11);
    assert_eq!(handle_local_load_highlights(&events, document_hash), vec![5, 10, 15]);

    handle_local_remove_highlight(&mut events, document_hash, 10, 12);
    assert_eq!(handle_local_load_highlights(&events, document_hash), vec![5, 15]);
    handle_local_remove_highlight(&mut events, document_hash, 20, 13);
    assert_eq!(handle_local_load_highlights(&events, document_hash), vec![5, 15]);

    // Undo takes back the removal of line 20, which changes nothing shown.
    assert!(undo_last_highlight(&mut events, document_hash, file_path));
    assert_eq!(handle_local_load_highlights(&events, document_hash), vec![5, 15]);

    handle_local_clear_highlights(&mut events, document_hash, 14);
    assert!(handle_local_load_highlights(&events, document_hash).is_empty());
    handle_local_add_highlight(&mut events, document_hash, 25, 15);
    assert_eq!(handle_local_load_highlights(&events, document_hash), vec![25]);
}

#[test]
fn other_documents_do_not_interfere() {
    let mut events: Vec<Event> = Vec::new();
    handle_local_add_highlight(&mut events, 1, 3, 0);
    handle_local_add_highlight(&mut events, 2, 4, 1);
    handle_local_clear_highlights(&mut events, 2, 2);
    events.push(Event::UpdateProgress { timestamp: 3, document_hash: 1, offset: 9, total_lines: 20 });
    assert_eq!(handle_local_load_highlights(&events, 1), vec![3]);
    assert!(handle_local_load_highlights(&events, 2).is_empty());
    // Undo for document 1 skips the other document's clear and the progress entry.
    assert!(undo_last_highlight(&mut events, 1, "f"));
    assert!(handle_local_load_highlights(&events, 1).is_empty());
    assert_eq!(events.len(), 3);
    assert!(!undo_last_highlight(&mut events, 1, "f"));
    assert!(!undo_last_highlight(&mut Vec::new(), 1, "f"));
}

#[test]
fn export_lists_lines_in_highlight_order() {
    let lines: Vec<String> = vec!["alpha".into(), "beta".into(), "gamma".into()];
    let text = format_highlights_result(&vec![2, 0, 7], &lines);
    assert_eq!(text, "# Exported Highlights\n\nLine 3: gamma\nLine 1: alpha\n");
    let mut events: Vec<Event> = Vec::new();
    handle_local_add_highlight(&mut events, 8, 1, 0);
    assert_eq!(
        export_highlights(&events, 8, &lines),
        "# Exported Highlights\n\nLine 2: beta\n"
    );
    assert_eq!(export_highlights(&Vec::new(), 8, &lines), "# Exported Highlights\n\n");
}

#[test]
fn document_hash_is_the_default_hasher_of_the_lines() {
    let lines: Vec<String> = vec!["one".into(), "two".into()];
    let mut s = std::collections::hash_map::DefaultHasher::new();
    lines.hash(&mut s);
    assert_eq!(generate_hash(&lines), s.finish());
    assert_eq!(generate_hash(&lines), generate_hash(&lines.clone()));
    let other: Vec<String> = vec!["one".into(), "three".into()];
    assert_ne!(generate_hash(&lines), generate_hash(&other));
}

#[test]
fn test_sync_functions_with_server_client() {
    let document_hash = 11111u64;
    let line_number = 7;
    let file_path = "test_error_document.txt";
    let mut events: Vec<Event> = Vec::new();
    handle_local_add_highlight(&mut events, document_hash, 3, 0);
    let before = events.clone();

    let result = highlights::add_highlight(&mut events, document_hash, line_number, file_path, true, 1);
    assert!(result.is_err(), "Expected error when using sync add_highlight with server client");
    assert_eq!(
        result,
        Err("Cannot use server-side highlights from a synchronous context. Use add_highlight_async instead".to_string())
    );

    let result = highlights::remove_highlight(&mut events, document_hash, line_number, file_path, true, 2);
    assert!(result.is_err(), "Expected error when using sync remove_highlight with server client");

    let result = highlights::undo_last_highlight(&mut events, document_hash, true);
    assert!(result.is_err(), "Expected error when using sync undo_last_highlight with server client");

    let result = highlights::clear_highlights(&mut events, document_hash, true, 3);
    assert!(result.is_err(), "Expected error when using sync clear_highlights with server client");

    assert_eq!(events, before);
}

#[test]
fn sync_functions_without_client_use_the_log() {
    let mut events: Vec<Event> = Vec::new();
    assert_eq!(highlights::add_highlight(&mut events, 5, 2, "f", false, 0), Ok(()));
    assert_eq!(highlights::add_highlight(&mut events, 5, 2, "f", false, 1), Ok(()));
    assert_eq!(events.len(), 1);
    assert_eq!(highlights::remove_highlight(&mut events, 5, 2, "f", false, 2), Ok(()));
    assert!(handle_local_load_highlights(&events, 5).is_empty());
    assert_eq!(highlights::undo_last_highlight(&mut events, 5, false), Ok(true));
    assert_eq!(handle_local_load_highlights(&events, 5), vec![2]);
    assert_eq!(highlights::clear_highlights(&mut events, 5, false, 3), Ok(()));
    assert!(handle_local_load_highlights(&events, 5).is_empty());
    assert_eq!(highlights::undo_last_highlight(&mut events, 5, false), Ok(true));
    assert_eq!(highlights::undo_last_highlight(&mut events, 5, false), Ok(true));
    assert_eq!(highlights::undo_last_highlight(&mut events, 5, false), Ok(false));
}

#[test]
fn add_then_remove_and_repeated_remove() {
    let mut events: Vec<Event> = Vec::new();
    handle_local_add_highlight(&mut events, 1, 4, 0);
    handle_local_add_highlight(&mut events, 2, 9, 1);
    let before1 = handle_local_load_highlights(&events, 1);
    let before2 = handle_local_load_highlights(&events, 2);
    handle_local_add_highlight(&mut events, 1, 6, 2);
    handle_local_remove_highlight(&mut events, 1, 6, 3);
    assert_eq!(handle_local_load_highlights(&events, 1), before1);
    assert_eq!(handle_local_load_highlights(&events, 2), before2);
    handle_local_remove_highlight(&mut events, 1, 4, 4);
    let once = handle_local_load_highlights(&events, 1);
    handle_local_remove_highlight(&mut events, 1, 4, 5);
    assert_eq!(handle_local_load_highlights(&events, 1), once);
    assert!(once.is_empty());
}
