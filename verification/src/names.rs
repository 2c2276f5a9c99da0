//! Ordering frames by file name: each frame file carries a base-10 integer
//! in its base name (before the extension), and frames are processed in
//! ascending order of that number. Names without a parseable number sort
//! first, in an unspecified relative order.

use core::cmp::Ordering;
use vstd::prelude::*;

verus! {

/// The character is a decimal digit.
pub open spec fn is_ascii_digit(c: char) -> bool {
    48 <= c as int <= 57
}

/// The numeric value of a decimal digit character.
pub open spec fn digit_val(c: char) -> int {
    c as int - 48
}

/// Every character of the sequence is a decimal digit.
pub open spec fn all_digits(s: Seq<char>) -> bool {
    forall|i: int| 0 <= i < s.len() ==> is_ascii_digit(#[trigger] s[i])
}

/// The base-10 value of a digit sequence (0 when empty).
pub open spec fn digits_value(s: Seq<char>) -> int
    decreases s.len(),
{
    if s.len() == 0 {
        0
    } else {
        digits_value(s.drop_last()) * 10 + digit_val(s.last())
    }
}

/// The value of a digit sequence is never negative.
pub proof fn lemma_digits_value_nonneg(s: Seq<char>)
    requires
        all_digits(s),
    ensures
        digits_value(s) >= 0,
    decreases s.len(),
{
    if s.len() > 0 {
        assert(all_digits(s.drop_last()));
        lemma_digits_value_nonneg(s.drop_last());
    }
}

/// A digit sequence is worth at least any of its prefixes.
pub proof fn lemma_digits_value_prefix(s: Seq<char>, i: int)
    requires
        all_digits(s),
        0 <= i <= s.len(),
    ensures
        digits_value(s.take(i)) <= digits_value(s),
    decreases s.len() - i,
{
    if i == s.len() {
        assert(s.take(i) =~= s);
    } else {
        assert(all_digits(s.take(i)));
        lemma_digits_value_nonneg(s.take(i));
        assert(s.take(i + 1).drop_last() =~= s.take(i));
        assert(s.take(i + 1).last() == s[i]);
        assert(digits_value(s.take(i + 1)) == digits_value(s.take(i)) * 10 + digit_val(s[i]));
        lemma_digits_value_prefix(s, i + 1);
    }
}

/// How `u32` parses from text: an optional leading plus sign, then one or
/// more decimal digits whose value fits; anything else is rejected.
pub open spec fn spec_parse_u32(s: Seq<char>) -> Option<u32> {
    let body = if s.len() > 0 && s[0] == '+' {
        s.skip(1)
    } else {
        s
    };
    if body.len() > 0 && all_digits(body) && digits_value(body) <= u32::MAX {
        Some(digits_value(body) as u32)
    } else {
        None
    }
}

/// Parses a base-10 `u32`: an optional leading plus sign, then one or more
/// decimal digits; rejects empty input, other characters, and values that
/// do not fit.
pub fn parse_u32(s: &str) -> (r: Option<u32>)
    ensures
        r == spec_parse_u32(s@),
{
    let n = s.unicode_len();
    let start: usize = if n > 0 && s.get_char(0) == '+' {
        1
    } else {
        0
    };
    let ghost body = if start == 1 {
        s@.skip(1)
    } else {
        s@
    };
    if n == start {
        return None;
    }
    let mut acc: u64 = 0;
    let mut i: usize = start;
    while i < n
        invariant
            start <= i <= n,
            n == s@.len(),
            start == 0 || start == 1,
            start == 1 ==> n > 0 && s@[0] == '+',
            start == 0 ==> n == 0 || s@[0] != '+',
            body == (if start == 1 {
                s@.skip(1)
            } else {
                s@
            }),
            body.len() == n - start,
            forall|j: int| 0 <= j < body.len() ==> body[j] == s@[j + start],
            all_digits(body.take(i - start)),
            acc == digits_value(body.take(i - start)),
            acc <= u32::MAX,
        decreases n - i,
    {
        let c = s.get_char(i);
        let cv = c as u32;
        if cv < 48 || cv > 57 {
            proof {
                assert(body[i - start] == s@[i as int]);
                assert(!is_ascii_digit(body[i - start]));
                assert(!all_digits(body));
            }
            return None;
        }
        let d: u64 = (cv - 48) as u64;
        acc = acc * 10 + d;
        proof {
            let k = i - start;
            assert(body.take(k + 1).drop_last() =~= body.take(k as int));
            assert(body.take(k + 1).last() == body[k]);
            assert(body[k] == s@[i as int]);
            assert(acc == digits_value(body.take(k + 1)));
        }
        if acc > 0xffff_ffff {
            proof {
                if all_digits(body) {
                    lemma_digits_value_prefix(body, i - start + 1);
                }
            }
            return None;
        }
        i = i + 1;
    }
    proof {
        assert(body.take(n - start) =~= body);
    }
    Some(acc as u32)
}

/// How `usize` parses from text: an optional leading plus sign, then one or
/// more decimal digits whose value fits; anything else is rejected.
pub open spec fn spec_parse_usize(s: Seq<char>) -> Option<usize> {
    let body = if s.len() > 0 && s[0] == '+' {
        s.skip(1)
    } else {
        s
    };
    if body.len() > 0 && all_digits(body) && digits_value(body) <= usize::MAX {
        Some(digits_value(body) as usize)
    } else {
        None
    }
}

/// Parses a base-10 `usize`: an optional leading plus sign, then one or
/// more decimal digits; rejects empty input, other characters, and values
/// that do not fit.
pub fn parse_usize(s: &str) -> (r: Option<usize>)
    ensures
        r == spec_parse_usize(s@),
{
    let n = s.unicode_len();
    let start: usize = if n > 0 && s.get_char(0) == '+' {
        1
    } else {
        0
    };
    let ghost body = if start == 1 {
        s@.skip(1)
    } else {
        s@
    };
    if n == start {
        return None;
    }
    let mut acc: u128 = 0;
    let mut i: usize = start;
    while i < n
        invariant
            start <= i <= n,
            n == s@.len(),
            start == 0 || start == 1,
            start == 1 ==> n > 0 && s@[0] == '+',
            start == 0 ==> n == 0 || s@[0] != '+',
            body == (if start == 1 {
                s@.skip(1)
            } else {
                s@
            }),
            body.len() == n - start,
            forall|j: int| 0 <= j < body.len() ==> body[j] == s@[j + start],
            all_digits(body.take(i - start)),
            acc == digits_value(body.take(i - start)),
            acc <= usize::MAX,
        decreases n - i,
    {
        let c = s.get_char(i);
        let cv = c as u32;
        if cv < 48 || cv > 57 {
            proof {
                assert(body[i - start] == s@[i as int]);
                assert(!is_ascii_digit(body[i - start]));
                assert(!all_digits(body));
            }
            return None;
        }
        let d: u128 = (cv - 48) as u128;
        acc = acc * 10 + d;
        proof {
            let k = i - start;
            assert(body.take(k + 1).drop_last() =~= body.take(k as int));
            assert(body.take(k + 1).last() == body[k]);
            assert(body[k] == s@[i as int]);
            assert(acc == digits_value(body.take(k + 1)));
        }
        if acc > usize::MAX as u128 {
            proof {
                if all_digits(body) {
                    lemma_digits_value_prefix(body, i - start + 1);
                }
            }
            return None;
        }
        i = i + 1;
    }
    proof {
        assert(body.take(n - start) =~= body);
    }
    Some(acc as usize)
}

/// The index of the last occurrence of `c` in `s`, or -1 when `c` does not
/// occur.
pub open spec fn last_index_of(s: Seq<char>, c: char) -> int
    decreases s.len(),
{
    if s.len() == 0 {
        -1
    } else if s.last() == c {
        s.len() - 1
    } else {
        last_index_of(s.drop_last(), c)
    }
}

/// The last index points at `c` and nothing after it equals `c`.
pub proof fn lemma_last_index_of(s: Seq<char>, c: char)
    ensures
        -1 <= last_index_of(s, c) < s.len(),
        last_index_of(s, c) >= 0 ==> s[last_index_of(s, c)] == c,
        forall|j: int| last_index_of(s, c) < j < s.len() ==> s[j] != c,
    decreases s.len(),
{
    if s.len() > 0 && s.last() != c {
        lemma_last_index_of(s.drop_last(), c);
        assert forall|j: int| last_index_of(s, c) < j < s.len() implies s[j] != c by {
            if j < s.len() - 1 {
                assert(s.drop_last()[j] != c);
            }
        }
    }
}

/// The file stem: the part of the name before the final dot, or the whole
/// name when there is no dot past the first character.
pub open spec fn spec_stem(s: Seq<char>) -> Seq<char> {
    let k = last_index_of(s, '.');
    if k >= 1 {
        s.take(k)
    } else {
        s
    }
}

/// The index of the last occurrence of `c`, or `None` when `c` does not
/// occur.
pub(crate) fn last_index_of_char(s: &str, c: char) -> (r: Option<usize>)
    ensures
        match r {
            Some(k) => k as int == last_index_of(s@, c),
            None => last_index_of(s@, c) == -1,
        },
{
    proof {
        lemma_last_index_of(s@, c);
    }
    let n = s.unicode_len();
    let mut i: usize = n;
    while i > 0
        invariant
            0 <= i <= n,
            n == s@.len(),
            forall|j: int| i <= j < n ==> s@[j] != c,
            -1 <= last_index_of(s@, c) < s@.len(),
            last_index_of(s@, c) >= 0 ==> s@[last_index_of(s@, c)] == c,
            forall|j: int| last_index_of(s@, c) < j < s@.len() ==> s@[j] != c,
        decreases i,
    {
        let ch = s.get_char(i - 1);
        if ch == c {
            proof {
                let k = last_index_of(s@, c);
                if k < i - 1 {
                    assert(s@[i - 1] != c);
                    assert(false);
                }
                if k > i - 1 {
                    assert(s@[k] != c);
                    assert(false);
                }
            }
            return Some(i - 1);
        }
        i = i - 1;
    }
    proof {
        let k = last_index_of(s@, c);
        if k >= 0 {
            assert(s@[k] != c);
            assert(false);
        }
    }
    None
}

/// The part of the file name before the final dot; the whole name when
/// there is no dot past the first character.
pub fn stem_of(s: &str) -> (r: &str)
    ensures
        r@ == spec_stem(s@),
{
    proof {
        lemma_last_index_of(s@, '.');
    }
    match last_index_of_char(s, '.') {
        Some(k) => {
            if k >= 1 {
                s.substring_char(0, k)
            } else {
                s
            }
        },
        None => s,
    }
}

/// The frame number of a file name: the base-10 value of its stem, when the
/// stem parses as one.
pub open spec fn spec_frame_number(name: Seq<char>) -> Option<u32> {
    spec_parse_u32(spec_stem(name))
}

/// Extracts the frame number from a file name ("12.png" gives 12), or
/// `None` when the stem is not a base-10 integer.
pub fn number_from_filename(name: &str) -> (r: Option<u32>)
    ensures
        r == spec_frame_number(name@),
{
    parse_u32(stem_of(name))
}

/// The key frames are ordered by: the frame number, with names lacking one
/// ordered before all numbered names.
pub open spec fn sort_key(name: Seq<char>) -> int {
    match spec_frame_number(name) {
        Option::None => -1,
        Option::Some(v) => v as int,
    }
}

/// Orders two file names by frame number; names without a number come
/// first and are mutually equal.
pub fn compare_paths(a: &str, b: &str) -> (r: Ordering)
    ensures
        (r == Ordering::Less) <==> sort_key(a@) < sort_key(b@),
        (r == Ordering::Equal) <==> sort_key(a@) == sort_key(b@),
        (r == Ordering::Greater) <==> sort_key(a@) > sort_key(b@),
{
    let na = number_from_filename(a);
    let nb = number_from_filename(b);
    match (na, nb) {
        (None, None) => Ordering::Equal,
        (None, Some(_)) => Ordering::Less,
        (Some(_), None) => Ordering::Greater,
        (Some(x), Some(y)) => {
            if x < y {
                Ordering::Less
            } else if x == y {
                Ordering::Equal
            } else {
                Ordering::Greater
            }
        },
    }
}

/// The first position within `v[0 .. hi]` whose key exceeds the key of `x`,
/// or `hi` when no key does; `v[0 .. hi]` must already be sorted by key.
fn find_insert_pos(v: &Vec<String>, hi: usize, x: &String) -> (pos: usize)
    requires
        hi <= v@.len(),
        forall|p: int, q: int|
            0 <= p <= q < hi ==> sort_key(#[trigger] v@[p]@) <= sort_key(#[trigger] v@[q]@),
    ensures
        0 <= pos <= hi,
        forall|p: int| 0 <= p < pos ==> sort_key(#[trigger] v@[p]@) <= sort_key(x@),
        forall|p: int| pos <= p < hi ==> sort_key(#[trigger] v@[p]@) > sort_key(x@),
{
    let mut p: usize = 0;
    while p < hi
        invariant
            0 <= p <= hi,
            hi <= v@.len(),
            forall|q: int| 0 <= q < p ==> sort_key(#[trigger] v@[q]@) <= sort_key(x@),
            forall|p2: int, q2: int|
                0 <= p2 <= q2 < hi ==> sort_key(#[trigger] v@[p2]@) <= sort_key(
                    #[trigger] v@[q2]@,
                ),
        decreases hi - p,
    {
        match compare_paths(v[p].as_str(), x.as_str()) {
            Ordering::Greater => {
                return p;
            },
            _ => {},
        }
        p = p + 1;
    }
    hi
}

/// Sorts file names ascending by frame number, keeping exactly the same
/// names (as a multiset); names without a number end up first.
pub fn sort_filenames(names: Vec<String>) -> (r: Vec<String>)
    ensures
        r@.len() == names@.len(),
        r@.to_multiset() == names@.to_multiset(),
        forall|p: int, q: int|
            0 <= p <= q < r@.len() ==> sort_key(#[trigger] r@[p]@) <= sort_key(#[trigger] r@[q]@),
{

    let mut v = names;
    let mut i: usize = 1;
    while i < v.len()
        invariant
            1 <= i,
            v@.len() == names@.len(),
            v@.to_multiset() == names@.to_multiset(),
            forall|p: int, q: int|
                0 <= p <= q < i && q < v@.len() ==> sort_key(#[trigger] v@[p]@) <= sort_key(
                    #[trigger] v@[q]@,
                ),
        decreases v@.len() - i,
    {
        let ghost before = v@;
        let x = v.remove(i);
        let pos = find_insert_pos(&v, i, &x);
        v.insert(pos, x);
        proof {
            broadcast use vstd::seq_lib::group_to_multiset_ensures;
            broadcast use vstd::multiset::group_multiset_axioms;

            let rm_seq = before.remove(i as int);
            assert(rm_seq.to_multiset() == before.to_multiset().remove(x));
            assert(v@.to_multiset() == rm_seq.to_multiset().insert(x));
            assert(before.to_multiset().count(x) > 0) by {
                assert(before[i as int] == x);
                assert(before.contains(x));
            }
            assert(v@.to_multiset() =~= before.to_multiset());
            assert forall|p: int, q: int|
                0 <= p <= q < i + 1 && q < v@.len() implies sort_key(#[trigger] v@[p]@)
                <= sort_key(#[trigger] v@[q]@) by {
                let rm = before.remove(i as int);
                if p < pos {
                    assert(v@[p] == rm[p]);
                }
                if q < pos {
                    assert(v@[q] == rm[q]);
                }
                if p > pos {
                    assert(v@[p] == rm[p - 1]);
                }
                if q > pos {
                    assert(v@[q] == rm[q - 1]);
                }
            }
        }
        i = i + 1;
    }
    v
}

} // verus!
