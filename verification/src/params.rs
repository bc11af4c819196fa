//! Parameter lists for the query helpers.
//!
//! The helpers only arrange parameters: the JSON query prepends the
//! machine-readable-output flag, tag extraction turns each tag name into
//! a selector and appends the file paths, and preview extraction asks for
//! one file's embedded preview image as raw binary output.

use vstd::prelude::*;

use crate::bytes::append_bytes;
use crate::encode::views_of;

verus! {

/// The bytes of `"-j"` (ASCII): ask for machine-readable (JSON) output.
pub open spec fn json_flag() -> Seq<u8> {
    seq![45u8, 106u8]
}

/// The bytes of `"-b"` (ASCII): ask for raw binary output.
pub open spec fn binary_flag() -> Seq<u8> {
    seq![45u8, 98u8]
}

/// The bytes of `"-PreviewImage"` (ASCII): select the embedded preview.
pub open spec fn preview_directive() -> Seq<u8> {
    seq![45u8, 80u8, 114u8, 101u8, 118u8, 105u8, 101u8, 119u8, 73u8, 109u8, 97u8, 103u8, 101u8]
}

/// Each tag name turned into a selector: a `'-'` before its bytes.
pub open spec fn selectors_of(tags: Seq<Seq<u8>>) -> Seq<Seq<u8>> {
    Seq::new(tags.len(), |i: int| seq![45u8] + tags[i])
}

/// Appending one buffer appends its view.
proof fn lemma_views_of_push(s: Seq<Vec<u8>>, v: Vec<u8>)
    ensures
        views_of(s.push(v)) == views_of(s) + seq![v@],
{
    assert forall|k: int| 0 <= k < s.len() + 1 implies #[trigger] views_of(s.push(v))[k] == (
    views_of(s) + seq![v@])[k] by {
        if k < s.len() {
            assert(s.push(v)[k] == s[k]);
        } else {
            assert(s.push(v)[k] == v);
        }
    }
    assert(views_of(s.push(v)) =~= views_of(s) + seq![v@]);
}

/// Prepend the machine-readable-output flag to a parameter list.
pub fn json_params(params: Vec<Vec<u8>>) -> (r: Vec<Vec<u8>>)
    ensures
        views_of(r@) == seq![json_flag()] + views_of(params@),
{
    let mut flag: Vec<u8> = Vec::new();
    flag.push(45);  // '-'
    flag.push(106);  // 'j'
    let ghost pvs: Seq<Seq<u8>> = views_of(params@);
    let mut r = params;
    r.insert(0, flag);
    proof {
        assert(views_of(r@) =~~= seq![json_flag()] + pvs);
    }
    r
}

/// Build the parameter list of a preview query: raw binary output of the
/// embedded preview image of one file.
pub fn preview_params(path: Vec<u8>) -> (r: Vec<Vec<u8>>)
    ensures
        views_of(r@) == seq![binary_flag(), preview_directive(), path@],
{
    let mut flag: Vec<u8> = Vec::new();
    flag.push(45);  // '-'
    flag.push(98);  // 'b'
    let mut directive: Vec<u8> = Vec::new();
    directive.push(45);  // '-'
    directive.push(80);  // 'P'
    directive.push(114);  // 'r'
    directive.push(101);  // 'e'
    directive.push(118);  // 'v'
    directive.push(105);  // 'i'
    directive.push(101);  // 'e'
    directive.push(119);  // 'w'
    directive.push(73);  // 'I'
    directive.push(109);  // 'm'
    directive.push(97);  // 'a'
    directive.push(103);  // 'g'
    directive.push(101);  // 'e'
    let mut r: Vec<Vec<u8>> = Vec::new();
    r.push(flag);
    r.push(directive);
    r.push(path);
    proof {
        assert(views_of(r@) =~~= seq![binary_flag(), preview_directive(), r@[2]@]);
    }
    r
}

/// Build the parameter list of a tag query: the caller's parameters, a
/// selector for each requested tag, then the file paths.
pub fn tag_params(params: Vec<Vec<u8>>, tags: Vec<Vec<u8>>, files: Vec<Vec<u8>>) -> (r: Vec<
    Vec<u8>,
>)
    ensures
        views_of(r@) == views_of(params@) + selectors_of(views_of(tags@)) + views_of(files@),
{
    let ghost tvs: Seq<Seq<u8>> = views_of(tags@);
    let ghost fvs: Seq<Seq<u8>> = views_of(files@);
    let mut r = params;
    let ghost pvs: Seq<Seq<u8>> = views_of(r@);

    let mut i: usize = 0;
    proof {
        assert(views_of(r@) =~~= pvs + selectors_of(tvs.take(0)));
    }
    while i < tags.len()
        invariant
            i <= tags@.len(),
            tvs == views_of(tags@),
            views_of(r@) == pvs + selectors_of(tvs.take(i as int)),
        decreases tags@.len() - i,
    {
        let mut sel: Vec<u8> = Vec::new();
        sel.push(45);  // '-'
        append_bytes(&mut sel, tags[i].as_slice());
        let ghost selvec: Vec<u8> = sel;
        let ghost r_old: Seq<Vec<u8>> = r@;
        r.push(sel);
        proof {
            lemma_views_of_push(r_old, selvec);
            assert(selvec@ =~= seq![45u8] + tvs[i as int]);
            assert(views_of(r@) =~= pvs + selectors_of(tvs.take(i + 1)));
        }
        i = i + 1;
    }
    proof {
        assert(tvs.take(tvs.len() as int) =~= tvs);
    }

    let mut files = files;
    let mut j: usize = 0;
    let n_files = files.len();
    let ghost total: int = n_files as int;
    proof {
        assert(views_of(r@) == pvs + selectors_of(tvs) + fvs.take(0)) by {
            assert(pvs + selectors_of(tvs) + fvs.take(0) =~= pvs + selectors_of(tvs));
        };
    }
    while files.len() > 0
        invariant
            0 <= j <= total,
            total <= usize::MAX,
            files@.len() == total - j,
            forall|m: int| 0 <= m < files@.len() ==> #[trigger] files@[m]@ == fvs[m + j],
            fvs.len() == total,
            views_of(r@) == pvs + selectors_of(tvs) + fvs.take(j as int),
        decreases files@.len(),
    {
        let ghost fview: Seq<u8> = files@[0]@;
        let f = files.remove(0);
        let ghost fvec: Vec<u8> = f;
        let ghost r_old: Seq<Vec<u8>> = r@;
        r.push(f);
        proof {
            lemma_views_of_push(r_old, fvec);
            assert(fview == fvs[j as int]);
            assert(views_of(r@) =~= pvs + selectors_of(tvs) + fvs.take(j + 1));
        }
        j = j + 1;
    }
    proof {
        assert(fvs.take(total) =~= fvs);
    }
    r
}

} // verus!
