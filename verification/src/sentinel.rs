//! Per-call sentinel tokens.
//!
//! Each call injects three tokens derived from one per-call identifier:
//! a ready marker that bounds the output stream, an error post-marker that
//! bounds the error stream, and an execute marker appended to the command.
//! The identifier is opaque here; the caller keeps it distinct across
//! calls so the tokens cannot collide with another call's in-flight data.

use vstd::prelude::*;

use crate::bytes::append_bytes;

verus! {

/// The bytes of `"{ready"` (ASCII).
pub open spec fn ready_prefix() -> Seq<u8> {
    seq![123u8, 114u8, 101u8, 97u8, 100u8, 121u8]
}

/// The bytes of `"post"` (ASCII).
pub open spec fn post_prefix() -> Seq<u8> {
    seq![112u8, 111u8, 115u8, 116u8]
}

/// The bytes of `"-execute"` (ASCII).
pub open spec fn execute_prefix() -> Seq<u8> {
    seq![45u8, 101u8, 120u8, 101u8, 99u8, 117u8, 116u8, 101u8]
}

/// `"{ready" + id + "}"`: bounds one call's output stream.
pub open spec fn ready_marker_spec(id: Seq<u8>) -> Seq<u8> {
    ready_prefix() + id + seq![125u8]
}

/// `"post" + id`: bounds one call's error stream.
pub open spec fn err_post_marker_spec(id: Seq<u8>) -> Seq<u8> {
    post_prefix() + id
}

/// `"-execute" + id`: triggers execution and marker emission.
pub open spec fn execute_marker_spec(id: Seq<u8>) -> Seq<u8> {
    execute_prefix() + id
}

/// The three sentinel tokens of one call.
pub struct Sentinels {
    /// Terminator of the output stream, `"{ready" + id + "}"`.
    pub ready: Vec<u8>,
    /// Terminator of the error stream, `"post" + id`.
    pub err_post: Vec<u8>,
    /// Execute directive, `"-execute" + id`.
    pub execute: Vec<u8>,
}

impl Sentinels {
    /// The three tokens are exactly the ones derived from `id`.
    pub open spec fn derived_from(self, id: Seq<u8>) -> bool {
        &&& self.ready@ == ready_marker_spec(id)
        &&& self.err_post@ == err_post_marker_spec(id)
        &&& self.execute@ == execute_marker_spec(id)
    }
}

/// Build the three sentinel tokens of one call from its identifier.
pub fn make_sentinels(id: &[u8]) -> (s: Sentinels)
    ensures
        s.derived_from(id@),
{
    let mut ready: Vec<u8> = Vec::new();
    ready.push(123);  // '{'
    ready.push(114);  // 'r'
    ready.push(101);  // 'e'
    ready.push(97);  // 'a'
    ready.push(100);  // 'd'
    ready.push(121);  // 'y'
    append_bytes(&mut ready, id);
    ready.push(125);  // '}'

    let mut err_post: Vec<u8> = Vec::new();
    err_post.push(112);  // 'p'
    err_post.push(111);  // 'o'
    err_post.push(115);  // 's'
    err_post.push(116);  // 't'
    append_bytes(&mut err_post, id);

    let mut execute: Vec<u8> = Vec::new();
    execute.push(45);  // '-'
    execute.push(101);  // 'e'
    execute.push(120);  // 'x'
    execute.push(101);  // 'e'
    execute.push(99);  // 'c'
    execute.push(117);  // 'u'
    execute.push(116);  // 't'
    execute.push(101);  // 'e'
    append_bytes(&mut execute, id);

    proof {
        assert(ready@ =~= ready_marker_spec(id@));
        assert(err_post@ =~= err_post_marker_spec(id@));
        assert(execute@ =~= execute_marker_spec(id@));
    }
    Sentinels { ready, err_post, execute }
}

/// Law: within one call the three tokens never collide, whatever the
/// identifier: each pair differs already in its first byte or length.
pub proof fn lemma_sentinels_distinct(s: Sentinels, id: Seq<u8>)
    requires
        s.derived_from(id),
    ensures
        s.ready@ != s.err_post@,
        s.ready@ != s.execute@,
        s.err_post@ != s.execute@,
{
    assert(s.ready@[0] == 123u8);
    assert(s.err_post@[0] == 112u8);
    assert(s.execute@[0] == 45u8);
}

} // verus!
