//! Response decoding.
//!
//! Given the raw output and error buffers of one call, decoding trims
//! trailing horizontal whitespace from both, removes exactly one marker
//! length from each tail, and recovers the status code that the child
//! echoed into the error stream between two delimiter bytes just before
//! the error post-marker.  A malformed error stream is a protocol
//! violation: the call fails, it never yields a made-up status.

use vstd::prelude::*;

use crate::trim::trim_end;
use crate::trim::trim_spec;

verus! {

/// How decoding a response can fail.  Every variant is fatal to the call.
#[derive(Clone, Copy, Debug, PartialEq, Eq, Structural)]
pub enum ProtocolError {
    /// The trimmed output buffer is shorter than the ready marker.
    OutputShorterThanMarker,
    /// The trimmed error buffer is shorter than the error post-marker.
    ErrorShorterThanMarker,
    /// The error buffer does not end with the status delimiter.
    MissingStatusDelimiter,
    /// No earlier delimiter occurrence bounds the status field.
    UnterminatedStatusField,
    /// The status field is not an unsigned 8-bit decimal integer.
    MalformedStatusCode,
}

/// One decoded call result.
pub struct ExifToolOutput {
    /// The child's exit status for this call.
    pub status: u8,
    /// The output bytes, trimmed, without the ready marker.
    pub output: Vec<u8>,
    /// The error bytes, trimmed, without the post-marker and without the
    /// delimited status field.
    pub error: Vec<u8>,
}

/// `b` is an ASCII decimal digit.
pub open spec fn is_digit(b: u8) -> bool {
    48 <= b <= 57
}

/// Every byte of `s` is an ASCII decimal digit.
pub open spec fn all_digits(s: Seq<u8>) -> bool {
    forall|i: int| 0 <= i < s.len() ==> is_digit(s[i])
}

/// The value of `s` read as a decimal numeral, most significant digit
/// first.  Meaningful only when `s` is all digits.
pub open spec fn digits_value(s: Seq<u8>) -> int
    decreases s.len(),
{
    if s.len() == 0 {
        0
    } else {
        digits_value(s.drop_last()) * 10 + (s.last() as int - 48)
    }
}

/// `s` without one optional leading `'+'` sign.
pub open spec fn digits_part(s: Seq<u8>) -> Seq<u8> {
    if s.len() > 0 && s[0] == 43 {
        s.skip(1)
    } else {
        s
    }
}

/// `s` parses as an unsigned 8-bit decimal integer: an optional leading
/// `'+'`, then at least one digit, with a value of at most 255.
pub open spec fn is_u8_decimal(s: Seq<u8>) -> bool {
    &&& digits_part(s).len() > 0
    &&& all_digits(digits_part(s))
    &&& digits_value(digits_part(s)) <= 255
}

/// The value of `s` as an unsigned 8-bit decimal integer.
pub open spec fn u8_decimal_value(s: Seq<u8>) -> int {
    digits_value(digits_part(s))
}

/// The index of the last occurrence of `b` in `s`, if any.
pub open spec fn rfind_byte(s: Seq<u8>, b: u8) -> Option<int>
    decreases s.len(),
{
    if s.len() == 0 {
        None
    } else if s.last() == b {
        Some(s.len() - 1)
    } else {
        rfind_byte(s.drop_last(), b)
    }
}

/// What `rfind_byte` returns: the greatest index holding `b`, or `None`
/// when no index does.
pub proof fn lemma_rfind_byte(s: Seq<u8>, b: u8)
    ensures
        match rfind_byte(s, b) {
            Some(i) => 0 <= i < s.len() && s[i] == b && forall|j: int|
                i < j < s.len() ==> s[j] != b,
            None => forall|j: int| 0 <= j < s.len() ==> s[j] != b,
        },
    decreases s.len(),
{
    if s.len() > 0 && s.last() != b {
        lemma_rfind_byte(s.drop_last(), b);
        assert(forall|j: int| 0 <= j < s.len() - 1 ==> s[j] == s.drop_last()[j]);
    }
}

/// A numeral's value never shrinks as digits are appended: if some prefix
/// already exceeds 255, so does the whole (given the remaining bytes are
/// digits).
pub proof fn lemma_digits_value_prefix_le(s: Seq<u8>, k: int)
    requires
        0 <= k <= s.len(),
        forall|j: int| k <= j < s.len() ==> is_digit(s[j]),
        digits_value(s.take(k)) >= 0,
    ensures
        digits_value(s.take(k)) <= digits_value(s),
        digits_value(s) >= 0,
    decreases s.len() - k,
{
    if k == s.len() {
        assert(s.take(k) =~= s);
    } else {
        assert(s.take(k + 1).drop_last() =~= s.take(k));
        assert(s.take(k + 1).last() == s[k]);
        assert(digits_value(s.take(k + 1)) == digits_value(s.take(k)) * 10 + (s[k] as int - 48));
        assert(digits_value(s.take(k)) <= digits_value(s.take(k + 1)));
        lemma_digits_value_prefix_le(s, k + 1);
    }
}

/// Parse `s` as an unsigned 8-bit decimal integer: an optional leading
/// `'+'`, then at least one digit, value at most 255; `None` otherwise.
pub fn parse_u8_decimal(s: &[u8]) -> (r: Option<u8>)
    ensures
        r matches Some(v) ==> is_u8_decimal(s@) && v as int == u8_decimal_value(s@),
        r is None ==> !is_u8_decimal(s@),
{
    let start: usize = if s.len() > 0 && s[0] == 43 {
        1
    } else {
        0
    };
    let ghost ds: Seq<u8> = digits_part(s@);
    proof {
        assert(ds =~= s@.skip(start as int));
    }
    if s.len() == start {
        return None;
    }
    let mut acc: u16 = 0;
    let mut i: usize = start;
    proof {
        assert(ds.take(0) =~= Seq::<u8>::empty());
    }
    while i < s.len()
        invariant
            start <= i <= s@.len(),
            ds == s@.skip(start as int),
            ds == digits_part(s@),
            ds.len() == s@.len() - start,
            all_digits(ds.take(i - start)),
            acc as int == digits_value(ds.take(i - start)),
            acc <= 255,
        decreases s@.len() - i,
    {
        let b = s[i];
        let ghost k: int = i - start;
        proof {
            assert(ds[k] == s@[i as int]);
            assert(ds.take(k + 1).drop_last() =~= ds.take(k));
            assert(ds.take(k + 1).last() == ds[k]);
        }
        if !(48 <= b && b <= 57) {
            proof {
                assert(!is_digit(ds[k]));
                assert(!all_digits(ds));
            }
            return None;
        }
        let v: u16 = acc * 10 + (b - 48) as u16;
        proof {
            assert(digits_value(ds.take(k + 1)) == v as int);
            assert(forall|m: int| 0 <= m < k ==> ds.take(k + 1)[m] == ds.take(k)[m]);
            assert(ds.take(k + 1)[k] == ds[k]);
            assert(all_digits(ds.take(k + 1)));
        }
        if v > 255 {
            proof {
                if all_digits(ds) {
                    lemma_digits_value_prefix_le(ds, k + 1);
                    assert(digits_value(ds) >= v as int > 255);
                }
            }
            return None;
        }
        acc = v;
        i = i + 1;
    }
    proof {
        assert(ds.take(ds.len() as int) =~= ds);
    }
    Some(acc as u8)
}

/// The decoded form of a raw response, or the protocol violation that
/// makes it undecodable: trim both buffers, drop one marker length from
/// each tail, require the error buffer to end with the delimiter, locate
/// the previous delimiter, read the bytes between the two as the status
/// code, and cut the error buffer at the earlier delimiter.
pub open spec fn decode_spec(
    out: Seq<u8>,
    err: Seq<u8>,
    ready: Seq<u8>,
    err_post: Seq<u8>,
    delim: u8,
) -> Result<(u8, Seq<u8>, Seq<u8>), ProtocolError> {
    let o = trim_spec(out);
    let e = trim_spec(err);
    if o.len() < ready.len() {
        Err(ProtocolError::OutputShorterThanMarker)
    } else if e.len() < err_post.len() {
        Err(ProtocolError::ErrorShorterThanMarker)
    } else {
        let o2 = o.take(o.len() - ready.len());
        let e2 = e.take(e.len() - err_post.len());
        if e2.len() == 0 || e2.last() != delim {
            Err(ProtocolError::MissingStatusDelimiter)
        } else {
            let body = e2.drop_last();
            match rfind_byte(body, delim) {
                None => Err(ProtocolError::UnterminatedStatusField),
                Some(i) => {
                    let digits = body.skip(i + 1);
                    if !is_u8_decimal(digits) {
                        Err(ProtocolError::MalformedStatusCode)
                    } else {
                        Ok((u8_decimal_value(digits) as u8, o2, body.take(i)))
                    }
                },
            }
        }
    }
}

/// Decode one raw response.  The result is exactly what [`decode_spec`]
/// says of the four buffers and the delimiter: `Ok` holds the status code
/// found between the two delimiter occurrences, the trimmed output
/// without its ready marker, and the trimmed error text without the
/// post-marker and status field; `Err` names the protocol violation.
pub fn decode_response(
    output: Vec<u8>,
    error: Vec<u8>,
    ready: &Vec<u8>,
    err_post: &Vec<u8>,
    delim: u8,
) -> (r: Result<ExifToolOutput, ProtocolError>)
    ensures
        r matches Ok(res) ==> decode_spec(output@, error@, ready@, err_post@, delim) == Ok::<
            (u8, Seq<u8>, Seq<u8>),
            ProtocolError,
        >((res.status, res.output@, res.error@)),
        r matches Err(e) ==> decode_spec(output@, error@, ready@, err_post@, delim) == Err::<
            (u8, Seq<u8>, Seq<u8>),
            ProtocolError,
        >(e),
{
    let mut out = output;
    let mut err = error;
    trim_end(&mut out);
    trim_end(&mut err);
    if out.len() < ready.len() {
        return Err(ProtocolError::OutputShorterThanMarker);
    }
    if err.len() < err_post.len() {
        return Err(ProtocolError::ErrorShorterThanMarker);
    }
    let olen = out.len() - ready.len();
    out.truncate(olen);
    let elen = err.len() - err_post.len();
    err.truncate(elen);
    if err.len() == 0 || err[err.len() - 1] != delim {
        return Err(ProtocolError::MissingStatusDelimiter);
    }
    let ghost e2: Seq<u8> = err@;
    let ghost body: Seq<u8> = e2.drop_last();
    let body_len = err.len() - 1;
    proof {
        assert(body =~= e2.take(body_len as int));
        lemma_rfind_byte(body, delim);
    }

    let mut j: usize = body_len;
    while j > 0 && err[j - 1] != delim
        invariant
            j <= body_len,
            body_len == e2.len() - 1,
            err@ == e2,
            body == e2.take(body_len as int),
            forall|k: int| j <= k < body_len ==> body[k] != delim,
        decreases j,
    {
        j = j - 1;
    }
    if j == 0 {
        proof {
            assert(rfind_byte(body, delim) is None) by {
                match rfind_byte(body, delim) {
                    Some(i) => {
                        assert(body[i] == delim);
                    },
                    None => {
                    },
                }
            };
        }
        return Err(ProtocolError::UnterminatedStatusField);
    }
    let ghost prev: int = j - 1;
    proof {
        assert(body[prev] == delim);
        assert(rfind_byte(body, delim) == Some(prev)) by {
            match rfind_byte(body, delim) {
                Some(i) => {
                    assert(i >= prev);
                    assert(i <= prev);
                },
                None => {
                    assert(body[prev] != delim);
                },
            }
        };
    }

    let digits = vstd::slice::slice_subrange(err.as_slice(), j, body_len);
    proof {
        assert(digits@ =~= body.skip(prev + 1));
    }
    match parse_u8_decimal(digits) {
        None => Err(ProtocolError::MalformedStatusCode),
        Some(status) => {
            err.truncate(j - 1);
            proof {
                assert(err@ =~= body.take(prev));
            }
            Ok(ExifToolOutput { status, output: out, error: err })
        },
    }
}

} // verus!
