//! Decisions taken while highlights are kept on the server.

use vstd::prelude::*;

use crate::progress::highlights::contains_line;
use crate::text::{contains_text, text_contains};

verus! {

/// Whether to ask the server to highlight a line, given the lines the server
/// reported as highlighted (`None` when asking for them failed): only when
/// the line is not among them.
pub fn add_needed(server_lines: &Option<Vec<usize>>, line_number: usize) -> (r: bool)
    ensures
        r == match server_lines {
            Some(v) => !v@.contains(line_number),
            None => true,
        },
{
    match server_lines {
        Some(v) => !contains_line(v, line_number),
        None => true,
    }
}

/// Whether the server's refusal of an added highlight means that the line is
/// already highlighted there, which counts as success.
pub fn add_rejected_as_duplicate(message: &str) -> (r: bool)
    ensures
        r == (contains_text(message@, "decoding response body"@) || contains_text(
            message@,
            "expected value"@,
        )),
{
    text_contains(message, "decoding response body") || text_contains(message, "expected value")
}

/// What to do to remove a highlight kept on the server.
#[derive(Clone, Copy, Debug, PartialEq, Eq)]
pub enum RemovePlan {
    /// The server does not have the line highlighted: nothing to do.
    NothingToRemove,
    /// Ask the server to remove it.
    SendRemove,
    /// The server could not be asked: record the removal in the local log.
    RecordLocally,
}

/// What to do to remove a line's highlight, given the lines the server
/// reported as highlighted (`None` when asking for them failed).
pub fn plan_remove(server_lines: &Option<Vec<usize>>, line_number: usize) -> (r: RemovePlan)
    ensures
        r == match server_lines {
            Some(v) => if v@.contains(line_number) {
                RemovePlan::SendRemove
            } else {
                RemovePlan::NothingToRemove
            },
            None => RemovePlan::RecordLocally,
        },
{
    match server_lines {
        Some(v) => if contains_line(v, line_number) {
            RemovePlan::SendRemove
        } else {
            RemovePlan::NothingToRemove
        },
        None => RemovePlan::RecordLocally,
    }
}

} // verus!
