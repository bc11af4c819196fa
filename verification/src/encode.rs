//! Request encoding.
//!
//! A request is the caller's parameters, one line-feed-terminated line
//! each, followed by an echo directive, a delimiter-wrapped status-macro
//! line carrying the error post-marker, and the execute-marker line.
//! A parameter holding a line feed of its own corrupts the framing; that
//! is the caller's responsibility.

use vstd::prelude::*;

use crate::bytes::append_bytes;
use crate::sentinel::Sentinels;

verus! {

/// The status delimiter byte, `'='`.
pub const STATUS_DELIM: u8 = 61;

/// The line-feed byte.
pub const LINE_FEED: u8 = 10;

/// The views of a list of byte buffers.
pub open spec fn views_of(params: Seq<Vec<u8>>) -> Seq<Seq<u8>> {
    Seq::new(params.len(), |i: int| params[i]@)
}

/// `p` as one line: its bytes, then a line feed.
pub open spec fn line_spec(p: Seq<u8>) -> Seq<u8> {
    p + seq![LINE_FEED]
}

/// Every element of `params` as a line, in order.
pub open spec fn lines_spec(params: Seq<Seq<u8>>) -> Seq<u8>
    decreases params.len(),
{
    if params.len() == 0 {
        Seq::empty()
    } else {
        lines_spec(params.drop_last()) + line_spec(params.last())
    }
}

/// The bytes of `"-echo4"` (ASCII): route the next echo to the error stream.
pub open spec fn echo_directive() -> Seq<u8> {
    seq![45u8, 101u8, 99u8, 104u8, 111u8, 52u8]
}

/// The bytes of `"${status}"` (ASCII): the child replaces this macro with
/// its exit status.
pub open spec fn status_macro() -> Seq<u8> {
    seq![36u8, 123u8, 115u8, 116u8, 97u8, 116u8, 117u8, 115u8, 125u8]
}

/// The echoed status line: `"=" + "${status}" + "=" + err_post`.
pub open spec fn status_line_spec(err_post: Seq<u8>) -> Seq<u8> {
    seq![STATUS_DELIM] + status_macro() + seq![STATUS_DELIM] + err_post
}

/// The whole encoded request: the parameter lines, the echo directive
/// line, the status line, and the execute-marker line.
pub open spec fn encode_spec(params: Seq<Seq<u8>>, err_post: Seq<u8>, execute: Seq<u8>) -> Seq<u8> {
    lines_spec(params) + line_spec(echo_directive()) + line_spec(status_line_spec(err_post))
        + line_spec(execute)
}

/// Append `p` and a line feed to `msg`.
fn push_line(msg: &mut Vec<u8>, p: &[u8])
    ensures
        final(msg)@ == old(msg)@ + line_spec(p@),
{
    append_bytes(msg, p);
    msg.push(LINE_FEED);
    proof {
        assert(old(msg)@ + p@ + seq![LINE_FEED] =~= old(msg)@ + line_spec(p@));
    }
}

/// Serialize one request: each parameter as a line, then the echo
/// directive, the delimiter-wrapped status macro with the error
/// post-marker, and the execute marker, each line-feed terminated.
pub fn encode_request(params: &Vec<Vec<u8>>, sentinels: &Sentinels) -> (msg: Vec<u8>)
    ensures
        msg@ == encode_spec(views_of(params@), sentinels.err_post@, sentinels.execute@),
{
    let ghost vs: Seq<Seq<u8>> = views_of(params@);
    let mut msg: Vec<u8> = Vec::new();
    let mut i: usize = 0;
    proof {
        assert(msg@ =~= lines_spec(vs.take(0)));
    }
    while i < params.len()
        invariant
            i <= params@.len(),
            vs == views_of(params@),
            msg@ == lines_spec(vs.take(i as int)),
        decreases params@.len() - i,
    {
        push_line(&mut msg, params[i].as_slice());
        proof {
            assert(vs.take(i + 1).drop_last() =~= vs.take(i as int));
            assert(vs.take(i + 1).last() == params@[i as int]@);
        }
        i = i + 1;
    }
    proof {
        assert(vs.take(vs.len() as int) =~= vs);
    }

    let mut echo: Vec<u8> = Vec::new();
    echo.push(45);  // '-'
    echo.push(101);  // 'e'
    echo.push(99);  // 'c'
    echo.push(104);  // 'h'
    echo.push(111);  // 'o'
    echo.push(52);  // '4'
    proof {
        assert(echo@ =~= echo_directive());
    }
    push_line(&mut msg, echo.as_slice());

    let mut status_line: Vec<u8> = Vec::new();
    status_line.push(STATUS_DELIM);
    status_line.push(36);  // '$'
    status_line.push(123);  // '{'
    status_line.push(115);  // 's'
    status_line.push(116);  // 't'
    status_line.push(97);  // 'a'
    status_line.push(116);  // 't'
    status_line.push(117);  // 'u'
    status_line.push(115);  // 's'
    status_line.push(125);  // '}'
    status_line.push(STATUS_DELIM);
    append_bytes(&mut status_line, sentinels.err_post.as_slice());
    proof {
        assert(status_line@ =~= status_line_spec(sentinels.err_post@));
    }
    push_line(&mut msg, status_line.as_slice());

    push_line(&mut msg, sentinels.execute.as_slice());
    proof {
        assert(msg@ =~= encode_spec(vs, sentinels.err_post@, sentinels.execute@));
    }
    msg
}

} // verus!
