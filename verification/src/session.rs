//! The per-call plan of the execute cycle.
//!
//! One call runs Idle → Writing → ReadingOutput → ReadingError →
//! Decoding → Idle, under an exclusive session lock held for the
//! streaming portion.  Everything the cycle decides is verified here or
//! in the modules this one draws on: [`prepare_call`] fixes the request
//! bytes and both stream terminators before anything is written, the
//! reader's step function bounds each read, and response decoding
//! recovers the result.  Only the lock and the pipe I/O between those
//! steps live outside the library.

use vstd::prelude::*;

use crate::encode::encode_request;
use crate::encode::encode_spec;
use crate::encode::views_of;
use crate::sentinel::make_sentinels;
use crate::sentinel::err_post_marker_spec;
use crate::sentinel::execute_marker_spec;
use crate::sentinel::Sentinels;

verus! {

/// Everything one call fixes before touching the child: the encoded
/// request and the sentinels whose markers bound its two responses.
pub struct CallPlan {
    /// The newline-terminated request bytes to write to the child.
    pub message: Vec<u8>,
    /// This call's sentinel tokens; `ready` terminates the output
    /// stream, `err_post` the error stream.
    pub sentinels: Sentinels,
}

/// Plan one call: derive the three sentinels from the per-call
/// identifier and encode the request around them.  Both stream
/// terminators are non-empty, so the reader's stop test is defined for
/// them.
pub fn prepare_call(params: &Vec<Vec<u8>>, id: &[u8]) -> (plan: CallPlan)
    ensures
        plan.sentinels.derived_from(id@),
        plan.message@ == encode_spec(
            views_of(params@),
            err_post_marker_spec(id@),
            execute_marker_spec(id@),
        ),
        plan.sentinels.ready@.len() > 0,
        plan.sentinels.err_post@.len() > 0,
{
    let sentinels = make_sentinels(id);
    let message = encode_request(params, &sentinels);
    CallPlan { message, sentinels }
}

} // verus!
