//! Frame subset selection: skip/stride/take policies over the ordered frame
//! sequence, applied in exactly that order. The stride filter keeps only the
//! elements at even positions of the post-skip sequence.

use crate::names::{parse_u32, parse_usize, spec_parse_u32, spec_parse_usize};
use vstd::prelude::*;

verus! {

/// Which frames of the ordered sequence take part in the output artifact:
/// drop the first `skip`, optionally keep only every other remaining frame,
/// then take at most `take` of what is left.
pub struct ImageSelectionConfig {
    pub skip: usize,
    pub take: usize,
    pub skip_alternating: bool,
}

impl ImageSelectionConfig {
    /// The selection that keeps every frame.
    pub fn blank() -> (r: Self)
        ensures
            r.skip == 0,
            r.take == usize::MAX,
            !r.skip_alternating,
    {
        ImageSelectionConfig { skip: 0, take: usize::MAX, skip_alternating: false }
    }

    pub fn new(skip: usize, take: usize, skip_alternating: bool) -> (r: Self)
        ensures
            r.skip == skip,
            r.take == take,
            r.skip_alternating == skip_alternating,
    {
        ImageSelectionConfig { skip, take, skip_alternating }
    }

    /// Builds the selection from its three configured values as text: the
    /// skip and take counts as base-10 integers, and the stride flag as a
    /// base-10 integer that switches the filter on exactly when it is 1.
    /// `None` exactly when one of the three does not parse.
    pub fn from_strings(skip: &str, take: &str, skip_alternating: &str) -> (r: Option<Self>)
        ensures
            r is Some <==> (spec_parse_usize(skip@) is Some && spec_parse_usize(take@) is Some
                && spec_parse_u32(skip_alternating@) is Some),
            r matches Some(c) ==> {
                &&& c.skip == spec_parse_usize(skip@)->Some_0
                &&& c.take == spec_parse_usize(take@)->Some_0
                &&& c.skip_alternating == (spec_parse_u32(skip_alternating@)->Some_0 == 1)
            },
    {
        match (parse_usize(skip), parse_usize(take), parse_u32(skip_alternating)) {
            (Some(s), Some(t), Some(a)) => Some(
                ImageSelectionConfig { skip: s, take: t, skip_alternating: a == 1 },
            ),
            _ => None,
        }
    }
}

/// The elements at even positions: element `i` of the result is element
/// `2 i` of the input.
pub open spec fn every_other<T>(s: Seq<T>) -> Seq<T> {
    Seq::new(((s.len() + 1) / 2) as nat, |i: int| s[2 * i])
}

/// The selected subsequence: the first `skip` elements dropped, then only
/// even positions kept when `alternating` is set, then at most `take`
/// elements taken.
pub open spec fn spec_select<T>(s: Seq<T>, skip: int, take: int, alternating: bool) -> Seq<T> {
    let dropped = if skip <= s.len() {
        s.skip(skip)
    } else {
        Seq::empty()
    };
    let strided = if alternating {
        every_other(dropped)
    } else {
        dropped
    };
    if take <= strided.len() {
        strided.take(take)
    } else {
        strided
    }
}

/// The sequence without its first `k` elements (empty when it has fewer).
fn drop_prefix<T>(v: Vec<T>, k: usize) -> (r: Vec<T>)
    ensures
        r@ == if k <= v@.len() {
            v@.skip(k as int)
        } else {
            Seq::<T>::empty()
        },
{
    let ghost orig = v@;
    let mut v = v;
    let mut dropped: usize = 0;
    while dropped < k && v.len() > 0
        invariant
            0 <= dropped <= orig.len(),
            dropped <= k,
            v@ == orig.skip(dropped as int),
        decreases k - dropped,
    {
        v.remove(0);
        proof {
            assert(v@ =~= orig.skip(dropped + 1));
        }
        dropped = dropped + 1;
    }
    proof {
        if k <= orig.len() {
            assert(dropped == k);
        } else {
            assert(v@.len() == 0);
            assert(v@ =~= Seq::<T>::empty());
        }
    }
    v
}

/// The elements at even positions, in their original order.
fn keep_even_positions<T>(v: Vec<T>) -> (r: Vec<T>)
    ensures
        r@ == every_other(v@),
{
    let ghost orig = v@;
    proof {
        assert(v.len() == orig.len());
    }
    let mut v = v;
    let mut out: Vec<T> = Vec::new();
    let mut i: usize = 0;
    while v.len() > 0
        invariant
            0 <= i <= orig.len(),
            orig.len() <= usize::MAX,
            v@ == orig.skip(i as int),
            out@ == every_other(orig.take(i as int)),
        decreases v@.len(),
    {
        let x = v.remove(0);
        proof {
            assert(v@ =~= orig.skip(i + 1));
            assert(x == orig[i as int]);
        }
        if i % 2 == 0 {
            out.push(x);
        }
        proof {
            assert(out@ =~= every_other(orig.take(i + 1)));
        }
        i = i + 1;
    }
    proof {
        assert(orig.take(i as int) =~= orig);
    }
    out
}

/// The first `k` elements (all of them when it has fewer).
fn take_prefix<T>(v: Vec<T>, k: usize) -> (r: Vec<T>)
    ensures
        r@ == if k <= v@.len() {
            v@.take(k as int)
        } else {
            v@
        },
{
    if k >= v.len() {
        return v;
    }
    let ghost orig = v@;
    let mut v = v;
    let mut out: Vec<T> = Vec::new();
    while out.len() < k
        invariant
            k <= orig.len(),
            0 <= out@.len() <= k,
            out@ == orig.take(out@.len() as int),
            v@ == orig.skip(out@.len() as int),
        decreases k - out@.len(),
    {
        let ghost n = out@.len() as int;
        let x = v.remove(0);
        proof {
            assert(x == orig[n]);
            assert(v@ =~= orig.skip(n + 1));
        }
        out.push(x);
        proof {
            assert(out@ =~= orig.take(n + 1));
        }
    }
    out
}

/// Applies the selection policy: drops the first `skip` frames, keeps only
/// even positions of the remainder when the stride filter is set, then takes
/// at most `take` frames, preserving the original order throughout.
pub fn select_frames<T>(frames: Vec<T>, config: &ImageSelectionConfig) -> (r: Vec<T>)
    ensures
        r@ == spec_select(frames@, config.skip as int, config.take as int, config.skip_alternating),
{
    let dropped = drop_prefix(frames, config.skip);
    let strided = if config.skip_alternating {
        keep_even_positions(dropped)
    } else {
        dropped
    };
    take_prefix(strided, config.take)
}

/// Law: without the stride filter, selection yields exactly the contiguous
/// slice `frames[skip .. skip + take)`, shortened when the sequence runs
/// out.
pub proof fn lemma_select_no_stride<T>(s: Seq<T>, skip: int, take: int)
    requires
        0 <= skip,
        0 <= take,
    ensures
        spec_select(s, skip, take, false) =~= s.subrange(
            if skip <= s.len() {
                skip
            } else {
                s.len() as int
            },
            if skip + take <= s.len() {
                skip + take
            } else {
                s.len() as int
            },
        ),
{
}

/// Law: with the stride filter, selection yields exactly the elements of
/// the post-skip sequence at even positions, in their original order:
/// element `k` of the result is `frames[skip + 2 k]`, and the result is
/// `take` elements long or as long as the even positions allow.
pub proof fn lemma_select_stride<T>(s: Seq<T>, skip: int, take: int)
    requires
        0 <= skip <= s.len(),
        0 <= take,
    ensures
        spec_select(s, skip, take, true).len() == if take <= (s.len() - skip + 1) / 2 {
            take as int
        } else {
            (s.len() - skip + 1) / 2
        },
        forall|k: int|
            0 <= k < spec_select(s, skip, take, true).len()
                ==> #[trigger] spec_select(s, skip, take, true)[k] == s[skip + 2 * k],
{
}

} // verus!
