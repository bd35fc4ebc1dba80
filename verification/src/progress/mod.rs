//! Reading progress and line highlights, kept as a log of events.

use vstd::prelude::*;
use std::collections::hash_map::DefaultHasher;
use std::hash::{Hash, Hasher};
use vstd::std_specs::hash::DefaultHasherAdditionalSpecFns;

pub mod events;
pub mod highlights;
pub mod remote;

pub use events::{Event, Progress};
pub use highlights::{
    add_highlight, clear_highlights, export_highlights, remove_highlight, undo_last_highlight,
};

verus! {

/// Name for the state (in vstd's model of a `DefaultHasher`, the writes it
/// has taken in) that hashing a document's lines with `Hash::hash` leads to
/// from the state `before`, on the platform the crate is built for.
pub uninterp spec fn state_after_lines(before: Seq<Seq<u8>>, lines: Seq<Seq<char>>) -> Seq<
    Seq<u8>,
>;

/// The text of each line.
pub open spec fn texts(lines: Seq<String>) -> Seq<Seq<char>> {
    lines.map_values(|s: String| s@)
}

/// `<Vec<String> as Hash>::hash`: feeds a document's lines to the hasher; the
/// state it reaches depends on the state before and the lines' text alone.
#[verifier::external_body]
fn hash_lines(lines: &Vec<String>, state: &mut DefaultHasher)
    ensures
        final(state)@ == state_after_lines(old(state)@, texts(lines@)),
{
    lines.hash(state)
}

/// The hash of a document's lines: what a fresh `DefaultHasher` (fixed keys)
/// finishes with after taking them in.
pub open spec fn document_hash_of(lines: Seq<Seq<char>>) -> u64 {
    DefaultHasher::spec_finish(state_after_lines(Seq::empty(), lines))
}

/// The hash by which a document's progress and highlights are recorded.
pub fn generate_hash(lines: &Vec<String>) -> (h: u64)
    ensures
        h == document_hash_of(texts(lines@)),
{
    let mut s = DefaultHasher::new();
    hash_lines(lines, &mut s);
    s.finish()
}

} // verus!
