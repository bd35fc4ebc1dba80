use hygg::progress::remote::{add_needed, add_rejected_as_duplicate, plan_remove, RemovePlan};
use hygg::server::{
    clear_highlights_url, file_url, highlight_request, highlights_url, service_url,
    undo_highlight_url, SERVER_URL,
};
use hygg::service::{safe_data_path, safe_file_name, LockTable, LOCK_DURATION};

#[test]
fn files_stay_in_the_data_directory() {
    assert_eq!(safe_file_name("../../etc/passwd"), "passwd");
    assert_eq!(safe_file_name("/a/b/"), "");
    assert_eq!(safe_file_name("plain.txt"), "plain.txt");
    assert_eq!(safe_file_name("///"), "");
    assert_eq!(safe_data_path("/books/sample.txt"), "test-data/sample.txt");
}

#[test]
fn locks_are_exclusive_until_they_expire() {
    let alice = "alice".to_string();
    let bob = "bob".to_string();
    let mut t = LockTable::new();
    assert_eq!(t.acquire(1, &alice, 100), Ok(100 + LOCK_DURATION));
    assert!(t.holds_lock(1, &alice));
    assert_eq!(t.acquire(1, &bob, 200), Err("alice".to_string()));
    assert!(!t.holds_lock(1, &bob));
    // Alice may take her lock again; it is extended.
    assert_eq!(t.acquire(1, &alice, 300), Ok(300 + LOCK_DURATION));
    assert_eq!(t.locks.len(), 1);
    // Another progress is independent.
    assert_eq!(t.acquire(2, &bob, 300), Ok(300 + LOCK_DURATION));
    // After expiry, Bob gets the lock.
    assert_eq!(t.acquire(1, &bob, 300 + LOCK_DURATION), Ok(300 + 2 * LOCK_DURATION));
    assert!(!t.holds_lock(1, &alice));
    assert!(!t.release(1, &alice));
    assert!(t.release(1, &bob));
    assert!(!t.holds_lock(1, &bob));
    assert!(!t.release(1, &bob));
}

#[test]
fn requests_and_addresses() {
    let r = highlight_request("test.txt", 67890, 5, "test_user");
    assert_eq!(r.file_path, "test.txt");
    assert_eq!(r.document_hash, "67890");
    assert_eq!(r.line_number, 5);
    assert_eq!(r.user_id, "test_user");
    assert_eq!(SERVER_URL, "http://localhost:3001");
    assert_eq!(highlights_url(67890, "test_user"), "http://localhost:3001/highlights/67890/test_user");
    assert_eq!(clear_highlights_url(1, "u"), "http://localhost:3001/highlights/clear/1/u");
    assert_eq!(undo_highlight_url(2, "u"), "http://localhost:3001/highlights/undo/2/u");
    assert_eq!(service_url("/highlights/add"), "http://localhost:3001/highlights/add");
    assert_eq!(file_url("/x/y/book.txt"), "http://localhost:3001/file/book.txt");
    assert_eq!(file_url(""), "http://localhost:3001/file/sample.txt");
    assert_eq!(file_url("dir/.."), "http://localhost:3001/file/sample.txt");
}

#[test]
fn server_highlight_decisions() {
    assert!(add_needed(&None, 3));
    assert!(add_needed(&Some(vec![1, 2]), 3));
    assert!(!add_needed(&Some(vec![1, 3]), 3));
    assert!(add_rejected_as_duplicate("error decoding response body: expected value at line 1"));
    assert!(add_rejected_as_duplicate("expected value"));
    assert!(!add_rejected_as_duplicate("connection refused"));
    assert_eq!(plan_remove(&None, 4), RemovePlan::RecordLocally);
    assert_eq!(plan_remove(&Some(vec![4]), 4), RemovePlan::SendRemove);
    assert_eq!(plan_remove(&Some(vec![5]), 4), RemovePlan::NothingToRemove);
}

#[test]
fn a_granted_lock_replaces_the_progress_entry() {
    let alice = "alice".to_string();
    let bob = "bob".to_string();
    let mut t = LockTable::new();
    assert_eq!(t.acquire(1, &alice, 0), Ok(LOCK_DURATION));
    assert_eq!(t.acquire(2, &bob, 10), Ok(10 + LOCK_DURATION));
    // Alice takes her lock again: the old entry goes, the new one comes last.
    assert_eq!(t.acquire(1, &alice, 20), Ok(20 + LOCK_DURATION));
    let entries: Vec<(u128, String, i64)> =
        t.locks.iter().map(|e| (e.progress_id, e.holder.clone(), e.expiry)).collect();
    assert_eq!(entries, vec![(2, bob.clone(), 10 + LOCK_DURATION), (1, alice.clone(), 20 + LOCK_DURATION)]);
    // Expired locks are dropped when a lock is granted.
    assert_eq!(t.acquire(3, &bob, 10 + LOCK_DURATION), Ok(10 + 2 * LOCK_DURATION));
    let ids: Vec<u128> = t.locks.iter().map(|e| e.progress_id).collect();
    assert_eq!(ids, vec![1, 3]);
}
