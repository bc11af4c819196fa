//! Trailing horizontal-whitespace removal.
//!
//! Response buffers may carry trailing tabs and spaces after the sentinel
//! bytes; decoding first strips those.  Only tab and space count as
//! whitespace here: a newline is deliberately kept.

use vstd::prelude::*;

verus! {

/// A byte is horizontal whitespace: tab or space.
pub open spec fn is_ws(b: u8) -> bool {
    b == 9 || b == 32
}

/// `s` with every trailing tab and space removed; a newline is kept.
pub open spec fn trim_spec(s: Seq<u8>) -> Seq<u8>
    decreases s.len(),
{
    if s.len() == 0 {
        s
    } else if is_ws(s.last()) {
        trim_spec(s.drop_last())
    } else {
        s
    }
}

/// Whether every byte of `s` is horizontal whitespace.
pub open spec fn all_ws(s: Seq<u8>) -> bool {
    forall|i: int| 0 <= i < s.len() ==> is_ws(s[i])
}

/// A buffer that does not end in whitespace is left unchanged.
pub proof fn lemma_trim_noop(s: Seq<u8>)
    requires
        s.len() == 0 || !is_ws(s.last()),
    ensures
        trim_spec(s) == s,
{
}

/// Appending whitespace does not change what trimming leaves.
pub proof fn lemma_trim_absorbs_ws(s: Seq<u8>, t: Seq<u8>)
    requires
        all_ws(t),
    ensures
        trim_spec(s + t) == trim_spec(s),
    decreases t.len(),
{
    if t.len() == 0 {
        assert(s + t =~= s);
    } else {
        assert((s + t).last() == t.last());
        assert((s + t).drop_last() =~= s + t.drop_last());
        lemma_trim_absorbs_ws(s, t.drop_last());
    }
}

/// Whether byte `*c` is horizontal whitespace (tab or space).
pub fn is_whitespace(c: &u8) -> (r: bool)
    ensures
        r == is_ws(*c),
{
    *c == 9 || *c == 32
}

/// Whether byte `*c` is anything but horizontal whitespace.
pub fn is_not_whitespace(c: &u8) -> (r: bool)
    ensures
        r == !is_ws(*c),
{
    !is_whitespace(c)
}

/// Remove every trailing tab and space from `v`; a trailing newline stays.
/// A buffer of nothing but tabs and spaces becomes empty.
pub fn trim_end(v: &mut Vec<u8>)
    ensures
        final(v)@ == trim_spec(old(v)@),
{
    let ghost orig: Seq<u8> = v@;
    let mut len: usize = v.len();
    proof {
        assert(orig.take(orig.len() as int) =~= orig);
    }
    while len > 0 && is_whitespace(&v[len - 1])
        invariant
            len <= v@.len(),
            v@ == orig,
            trim_spec(orig) == trim_spec(orig.take(len as int)),
        decreases len,
    {
        proof {
            assert(orig.take(len as int).last() == orig[len - 1]);
            assert(orig.take(len as int).drop_last() =~= orig.take(len - 1));
        }
        len = len - 1;
    }
    proof {
        if len > 0 {
            assert(orig.take(len as int).last() == orig[len - 1]);
        }
        assert(trim_spec(orig.take(len as int)) == orig.take(len as int));
    }
    v.truncate(len);
}

} // verus!
