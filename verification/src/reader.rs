//! Byte-stream reader logic.
//!
//! A response stream carries no length: reading accumulates chunks until
//! the terminator appears in the accumulator's tail.  The I/O loop itself
//! lives outside the library; it feeds every read result through
//! [`reader_step`], which appends the chunk and decides whether to keep
//! reading, pause briefly (after an empty read), or stop.  A read failure
//! stops the loop and leaves whatever was accumulated — the caller cannot
//! tell that outcome from success, a known weakness of the protocol.

use vstd::prelude::*;

use crate::bytes::append_bytes;

verus! {

/// `needle` occurs in `haystack` at offset `i`.
pub open spec fn contains_at(haystack: Seq<u8>, needle: Seq<u8>, i: int) -> bool {
    &&& 0 <= i
    &&& i + needle.len() <= haystack.len()
    &&& haystack.subrange(i, i + needle.len()) == needle
}

/// `needle` occurs somewhere in `haystack`.
pub open spec fn contains_seq(haystack: Seq<u8>, needle: Seq<u8>) -> bool {
    exists|i: int| contains_at(haystack, needle, i)
}

/// The tail window the reader scans: the last `tlen + 2` bytes of `acc`,
/// or all of it when it is shorter.
pub open spec fn tail_window(acc: Seq<u8>, tlen: int) -> Seq<u8> {
    if acc.len() >= tlen + 2 {
        acc.subrange(acc.len() - (tlen + 2), acc.len() as int)
    } else {
        acc
    }
}

/// The terminator occurs in the tail window of `acc`: one call's data is
/// complete.
pub open spec fn terminator_in_tail(acc: Seq<u8>, term: Seq<u8>) -> bool {
    contains_seq(tail_window(acc, term.len() as int), term)
}

/// Relies on bstr's `ByteSlice::find`: it returns the index of the first
/// occurrence of `needle` in `haystack`, or `None` when it occurs nowhere.
#[verifier::external_body]
fn find_subslice(haystack: &[u8], needle: &[u8]) -> (r: Option<usize>)
    requires
        needle@.len() > 0,
    ensures
        match r {
            Some(i) => contains_at(haystack@, needle@, i as int) && forall|j: int|
                0 <= j < i ==> !contains_at(haystack@, needle@, j),
            None => !contains_seq(haystack@, needle@),
        },
{
    bstr::ByteSlice::find(haystack, needle)
}

/// Whether `term` occurs in the tail window of `acc` — the reader's
/// stop test.
pub fn tail_contains_terminator(acc: &Vec<u8>, term: &Vec<u8>) -> (r: bool)
    requires
        term@.len() > 0,
        term@.len() + 2 <= usize::MAX,
    ensures
        r == terminator_in_tail(acc@, term@),
{
    let window: usize = term.len() + 2;
    let start: usize = if acc.len() >= window {
        acc.len() - window
    } else {
        0
    };
    let tail = vstd::slice::slice_subrange(acc.as_slice(), start, acc.len());
    proof {
        if acc@.len() < term@.len() + 2 {
            assert(acc@.subrange(0, acc@.len() as int) =~= acc@);
        }
        assert(tail@ == tail_window(acc@, term@.len() as int));
    }
    find_subslice(tail, term.as_slice()).is_some()
}

/// One read result handed to the reader: a chunk of bytes (possibly
/// empty), or a failed read.
pub enum ReadEvent {
    /// A successful read; an empty chunk is a zero-byte read.
    Chunk(Vec<u8>),
    /// The read returned an error.
    Failed,
}

/// What the reading loop does next.
#[derive(Clone, Copy, Debug, PartialEq, Eq, Structural)]
pub enum ReaderAction {
    /// Read another chunk at once.
    Continue,
    /// Pause briefly (the last read was empty), then read again.
    Pause,
    /// Stop and hand back the accumulator.
    Done,
}

/// Fold one read result into the accumulator and decide what to do next:
/// a failed read stops at once with the accumulator unchanged; otherwise
/// the chunk is appended and reading stops exactly when the terminator
/// has appeared in the accumulator's tail window, pausing first whenever
/// a read returned no bytes.
pub fn reader_step(acc: &mut Vec<u8>, event: ReadEvent, term: &Vec<u8>) -> (a: ReaderAction)
    requires
        term@.len() > 0,
        term@.len() + 2 <= usize::MAX,
    ensures
        event matches ReadEvent::Failed ==> final(acc)@ == old(acc)@ && a == ReaderAction::Done,
        event matches ReadEvent::Chunk(c) ==> {
            &&& final(acc)@ == old(acc)@ + c@
            &&& (a == ReaderAction::Done) == terminator_in_tail(old(acc)@ + c@, term@)
            &&& (a == ReaderAction::Pause) == (!terminator_in_tail(old(acc)@ + c@, term@)
                && c@.len() == 0)
            &&& (a == ReaderAction::Continue) == (!terminator_in_tail(old(acc)@ + c@, term@)
                && c@.len() > 0)
        },
{
    match event {
        ReadEvent::Failed => ReaderAction::Done,
        ReadEvent::Chunk(c) => {
            let was_empty = c.len() == 0;
            append_bytes(acc, c.as_slice());
            if tail_contains_terminator(acc, term) {
                ReaderAction::Done
            } else if was_empty {
                ReaderAction::Pause
            } else {
                ReaderAction::Continue
            }
        },
    }
}

} // verus!
