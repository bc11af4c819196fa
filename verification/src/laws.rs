//! Laws of the framing protocol, stated and proved over the same spec
//! functions that the executable functions' contracts use.

use vstd::prelude::*;

use crate::decode::decode_spec;
use crate::decode::digits_part;
use crate::decode::is_digit;
use crate::decode::is_u8_decimal;
use crate::decode::lemma_rfind_byte;
use crate::decode::rfind_byte;
use crate::decode::u8_decimal_value;
use crate::decode::ProtocolError;
use crate::encode::encode_spec;
use crate::encode::STATUS_DELIM;
use crate::trim::all_ws;
use crate::trim::is_ws;
use crate::trim::lemma_trim_absorbs_ws;
use crate::trim::lemma_trim_noop;
use crate::trim::trim_spec;

verus! {

/// A well-formed response to one call: the child's output text, then the
/// ready marker, then optional horizontal whitespace.
pub open spec fn response_output(out_text: Seq<u8>, ready: Seq<u8>, ws: Seq<u8>) -> Seq<u8> {
    out_text + ready + ws
}

/// A well-formed error stream for one call: the child's error text, the
/// delimited status field, the error post-marker, then optional
/// horizontal whitespace.
pub open spec fn response_error(
    err_text: Seq<u8>,
    digits: Seq<u8>,
    err_post: Seq<u8>,
    ws: Seq<u8>,
) -> Seq<u8> {
    err_text + seq![STATUS_DELIM] + digits + seq![STATUS_DELIM] + err_post + ws
}

/// No byte of a status numeral is the status delimiter.
proof fn lemma_decimal_has_no_delim(digits: Seq<u8>)
    requires
        is_u8_decimal(digits),
    ensures
        forall|i: int| 0 <= i < digits.len() ==> digits[i] != STATUS_DELIM,
{
    assert forall|i: int| 0 <= i < digits.len() implies digits[i] != STATUS_DELIM by {
        if digits[0] == 43 {
            if i > 0 {
                assert(is_digit(digits_part(digits)[i - 1]));
                assert(digits_part(digits)[i - 1] == digits[i]);
            }
        } else {
            assert(is_digit(digits_part(digits)[i]));
            assert(digits_part(digits)[i] == digits[i]);
        }
    }
}

/// Law (round trip): a response assembled from any output text, error
/// text, and valid status numeral with one call's sentinels decodes to
/// exactly that status, that output text, and that error text,
/// byte-for-byte — whatever trailing horizontal whitespace the streams
/// picked up after the markers.  With `decode_spec` being what
/// `decode_response` returns, this is the statement that `execute`
/// reflects exactly what the child wrote before its terminators.
pub proof fn lemma_response_round_trip(
    out_text: Seq<u8>,
    err_text: Seq<u8>,
    digits: Seq<u8>,
    ready: Seq<u8>,
    err_post: Seq<u8>,
    ws_out: Seq<u8>,
    ws_err: Seq<u8>,
)
    requires
        ready.len() > 0,
        !is_ws(ready.last()),
        err_post.len() > 0,
        !is_ws(err_post.last()),
        is_u8_decimal(digits),
        all_ws(ws_out),
        all_ws(ws_err),
    ensures
        decode_spec(
            response_output(out_text, ready, ws_out),
            response_error(err_text, digits, err_post, ws_err),
            ready,
            err_post,
            STATUS_DELIM,
        ) == Ok::<(u8, Seq<u8>, Seq<u8>), ProtocolError>(
            (u8_decimal_value(digits) as u8, out_text, err_text),
        ),
{
    let raw_out = response_output(out_text, ready, ws_out);
    let raw_err = response_error(err_text, digits, err_post, ws_err);

    // Trimming strips exactly the appended whitespace: both buffers then
    // end in their marker's last byte, which is not whitespace.
    lemma_trim_absorbs_ws(out_text + ready, ws_out);
    assert((out_text + ready + ws_out) =~= (out_text + ready) + ws_out);
    assert((out_text + ready).last() == ready.last());
    lemma_trim_noop(out_text + ready);
    let o = trim_spec(raw_out);
    assert(o == out_text + ready);

    let err_head = err_text + seq![STATUS_DELIM] + digits + seq![STATUS_DELIM] + err_post;
    assert(raw_err =~= err_head + ws_err);
    lemma_trim_absorbs_ws(err_head, ws_err);
    assert(err_head.last() == err_post.last());
    lemma_trim_noop(err_head);
    let e = trim_spec(raw_err);
    assert(e == err_head);

    // Dropping one marker length from each tail leaves the output text
    // and the error text with its delimited status field.
    assert(o.take(o.len() - ready.len()) =~= out_text);
    let e2 = e.take(e.len() - err_post.len());
    assert(e2 =~= err_text + seq![STATUS_DELIM] + digits + seq![STATUS_DELIM]);
    assert(e2.last() == STATUS_DELIM);

    // The previous delimiter occurrence is the one right before the
    // numeral: no numeral byte is the delimiter.
    let body = e2.drop_last();
    assert(body =~= err_text + seq![STATUS_DELIM] + digits);
    let pos: int = err_text.len() as int;
    assert(body[pos] == STATUS_DELIM);
    lemma_decimal_has_no_delim(digits);
    assert(forall|j: int| pos < j < body.len() ==> body[j] == digits[j - pos - 1]);
    lemma_rfind_byte(body, STATUS_DELIM);
    let found = rfind_byte(body, STATUS_DELIM);
    match found {
        Some(i) => {
            assert(i >= pos);
            assert(i <= pos);
        },
        None => {
            assert(body[pos] != STATUS_DELIM);
        },
    }
    assert(found == Some(pos));

    // The bytes between the two delimiters are the numeral; the error
    // text is what precedes the earlier one.
    assert(body.skip(pos + 1) =~= digits);
    assert(body.take(pos) =~= err_text);
}

/// Law (blank response): a response whose streams carry nothing of their
/// own — only the markers, the status field, and horizontal whitespace —
/// decodes to the empty output and empty error, not to a failure.
pub proof fn lemma_blank_response_decodes_empty(
    digits: Seq<u8>,
    ready: Seq<u8>,
    err_post: Seq<u8>,
    ws_out: Seq<u8>,
    ws_err: Seq<u8>,
)
    requires
        ready.len() > 0,
        !is_ws(ready.last()),
        err_post.len() > 0,
        !is_ws(err_post.last()),
        is_u8_decimal(digits),
        all_ws(ws_out),
        all_ws(ws_err),
    ensures
        decode_spec(
            response_output(Seq::empty(), ready, ws_out),
            response_error(Seq::empty(), digits, err_post, ws_err),
            ready,
            err_post,
            STATUS_DELIM,
        ) == Ok::<(u8, Seq<u8>, Seq<u8>), ProtocolError>(
            (u8_decimal_value(digits) as u8, Seq::empty(), Seq::empty()),
        ),
{
    lemma_response_round_trip(
        Seq::empty(),
        Seq::empty(),
        digits,
        ready,
        err_post,
        ws_out,
        ws_err,
    );
}

/// Law (idempotence): the framing pipeline is a pure function of its
/// inputs.  Two calls that encode the same parameter list with the same
/// sentinels write the same request bytes, and two responses with equal
/// raw buffers decode to the same status, output, and error — so a
/// deterministic child answering a repeated call yields identical decoded
/// results.
pub proof fn lemma_call_deterministic(
    params_a: Seq<Seq<u8>>,
    params_b: Seq<Seq<u8>>,
    err_post: Seq<u8>,
    execute: Seq<u8>,
    out_a: Seq<u8>,
    out_b: Seq<u8>,
    err_a: Seq<u8>,
    err_b: Seq<u8>,
    ready: Seq<u8>,
)
    requires
        params_a == params_b,
        out_a == out_b,
        err_a == err_b,
    ensures
        encode_spec(params_a, err_post, execute) == encode_spec(params_b, err_post, execute),
        decode_spec(out_a, err_a, ready, err_post, STATUS_DELIM) == decode_spec(
            out_b,
            err_b,
            ready,
            err_post,
            STATUS_DELIM,
        ),
{
}

} // verus!
