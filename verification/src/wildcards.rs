//! Patterns with wildcards: a star stands for any bytes, a question mark for one. A value that itself
//! holds a star may be refused though it fits: a star of the value is taken for the one of the pattern, so
//! the pattern `*` refuses the value `*a`.

use vstd::prelude::*;
use vstd::utf8::*;

verus! {

/// Whether a value fits a pattern: a star fits any bytes, a question mark any one byte, and each
/// other byte itself.
pub open spec fn fits(pattern: Seq<u8>, value: Seq<u8>) -> bool
    decreases pattern.len(), value.len(),
{
    if pattern.len() == 0 {
        value.len() == 0
    } else if pattern[0] == 42u8 {
        fits(pattern.skip(1), value) || (value.len() > 0 && fits(pattern, value.skip(1)))
    } else {
        &&& value.len() > 0
        &&& pattern[0] == 63u8 || pattern[0] == value[0]
        &&& fits(pattern.skip(1), value.skip(1))
    }
}

/// Whether a pattern holds nothing but stars.
pub open spec fn only_stars(pattern: Seq<u8>) -> bool {
    forall|i: int| 0 <= i < pattern.len() ==> #[trigger] pattern[i] == 42u8
}

/// What a scan of a value decides that stands at `p` in the pattern and at `v` in the value. A byte
/// of the pattern is first held against the byte of the value, then taken for a star. On a
/// mismatch the scan goes back to the last star, which then takes one byte more.
pub open spec fn scan(pattern: Seq<u8>, value: Seq<u8>, p: int, v: int, star: Option<int>, taken: int) -> bool
    decreases
        value.len() - taken,
        pattern.len() - match star {
            Some(s) => s + 1,
            None => 0,
        },
        value.len() - v,
    when 0 <= p <= pattern.len() && 0 <= taken <= v <= value.len() && match star {
        Some(s) => 0 <= s < p,
        None => true,
    }
{
    if v >= value.len() {
        only_stars(pattern.skip(p))
    } else if p < pattern.len() && (pattern[p] == 63u8 || pattern[p] == value[v]) {
        scan(pattern, value, p + 1, v + 1, star, taken)
    } else if p < pattern.len() && pattern[p] == 42u8 {
        scan(pattern, value, p + 1, v, Some(p), v)
    } else {
        match star {
            Some(s) => scan(pattern, value, s + 1, taken + 1, star, taken + 1),
            None => false,
        }
    }
}

/// Whether a scan from the start accepts the value.
pub open spec fn accepted(pattern: Seq<u8>, value: Seq<u8>) -> bool {
    scan(pattern, value, 0, 0, None, 0)
}

/// Whether the value matches the pattern.
pub fn wildcard_match(pattern: &str, value: &str) -> (answer: bool)
    ensures
        answer == accepted(encode_utf8(pattern@), encode_utf8(value@)),
{
    let wanted = pattern.as_bytes();
    let given = value.as_bytes();
    let mut p: usize = 0;
    let mut v: usize = 0;
    let mut star: Option<usize> = None;
    let mut taken: usize = 0;
    while v < given.len()
        invariant
            wanted@ == encode_utf8(pattern@),
            given@ == encode_utf8(value@),
            p <= wanted@.len(),
            taken <= v <= given@.len(),
            star matches Some(s) ==> s < p,
            accepted(wanted@, given@) == scan(
                wanted@,
                given@,
                p as int,
                v as int,
                match star {
                    Some(s) => Some(s as int),
                    None => None,
                },
                taken as int,
            ),
        decreases
            given@.len() - taken,
            wanted@.len() - match star {
                Some(s) => s + 1,
                None => 0,
            },
            given@.len() - v,
    {
        if p < wanted.len() && (wanted[p] == 63 || wanted[p] == given[v]) {
            p = p + 1;
            v = v + 1;
        } else if p < wanted.len() && wanted[p] == 42 {
            star = Some(p);
            taken = v;
            p = p + 1;
        } else if let Some(s) = star {
            p = s + 1;
            taken = taken + 1;
            v = taken;
        } else {
            return false;
        }
    }
    let ghost from = p;
    while p < wanted.len() && wanted[p] == 42
        invariant
            from <= p <= wanted@.len(),
            forall|i: int| from <= i < p ==> #[trigger] wanted@[i] == 42u8,
        decreases wanted@.len() - p,
    {
        p = p + 1;
    }
    let answer = p == wanted.len();
    proof {
        let rest = wanted@.skip(from as int);
        if answer {
            assert forall|i: int| 0 <= i < rest.len() implies #[trigger] rest[i] == 42u8 by {
                assert(rest[i] == wanted@[from + i]);
            }
        } else {
            assert(rest[p - from] == wanted@[p as int]);
        }
    }
    answer
}

// ---------------------------------------------------------------------------
// Scans and patterns
// ---------------------------------------------------------------------------

/// Whether the rest of the value fits the rest of the pattern.
spec fn rest_fits(pattern: Seq<u8>, value: Seq<u8>, p: int, v: int) -> bool {
    fits(pattern.skip(p), value.skip(v))
}

proof fn one_fits(pattern: Seq<u8>, value: Seq<u8>, p: int, v: int)
    requires
        0 <= p < pattern.len(),
        0 <= v < value.len(),
        pattern[p] != 42u8,
    ensures
        rest_fits(pattern, value, p, v) <==> (pattern[p] == 63u8 || pattern[p] == value[v]) && rest_fits(
            pattern,
            value,
            p + 1,
            v + 1,
        ),
{
    assert(pattern.skip(p).skip(1) =~= pattern.skip(p + 1));
    assert(value.skip(v).skip(1) =~= value.skip(v + 1));
}

proof fn star_fits(pattern: Seq<u8>, value: Seq<u8>, p: int, v: int, k: int)
    requires
        0 <= p < pattern.len(),
        0 <= v <= k <= value.len(),
        pattern[p] == 42u8,
        rest_fits(pattern, value, p + 1, k),
    ensures
        rest_fits(pattern, value, p, v),
    decreases k - v,
{
    assert(pattern.skip(p).skip(1) =~= pattern.skip(p + 1));
    if v < k {
        star_fits(pattern, value, p, v + 1, k);
        assert(value.skip(v).skip(1) =~= value.skip(v + 1));
    }
}

proof fn star_takes(pattern: Seq<u8>, value: Seq<u8>, p: int, v: int) -> (k: int)
    requires
        0 <= p < pattern.len(),
        0 <= v <= value.len(),
        pattern[p] == 42u8,
        rest_fits(pattern, value, p, v),
    ensures
        v <= k <= value.len(),
        rest_fits(pattern, value, p + 1, k),
    decreases value.len() - v,
{
    assert(pattern.skip(p).skip(1) =~= pattern.skip(p + 1));
    if rest_fits(pattern, value, p + 1, v) {
        v
    } else {
        assert(value.skip(v).skip(1) =~= value.skip(v + 1));
        star_takes(pattern, value, p, v + 1)
    }
}

proof fn stars_fit_nothing(pattern: Seq<u8>)
    ensures
        fits(pattern, Seq::empty()) <==> only_stars(pattern),
    decreases pattern.len(),
{
    if pattern.len() > 0 {
        stars_fit_nothing(pattern.skip(1));
        assert(pattern.skip(1).len() == pattern.len() - 1);
        if only_stars(pattern) {
            assert forall|i: int| 0 <= i < pattern.skip(1).len() implies #[trigger] pattern.skip(1)[i] == 42u8 by {
                assert(pattern.skip(1)[i] == pattern[i + 1]);
            }
        }
        if pattern[0] == 42u8 && only_stars(pattern.skip(1)) {
            assert forall|i: int| 0 <= i < pattern.len() implies #[trigger] pattern[i] == 42u8 by {
                if i > 0 {
                    assert(pattern.skip(1)[i - 1] == pattern[i]);
                }
            }
        }
    }
}

/// A value that a scan accepts fits the pattern.
pub proof fn accepted_values_fit(pattern: Seq<u8>, value: Seq<u8>)
    requires
        accepted(pattern, value),
    ensures
        fits(pattern, value),
{
    assert(pattern.skip(0) =~= pattern);
    assert(value.skip(0) =~= value);
    scan_is_sound(pattern, value, 0, 0, None, 0);
}

proof fn scan_is_sound(pattern: Seq<u8>, value: Seq<u8>, p: int, v: int, star: Option<int>, taken: int)
    requires
        0 <= p <= pattern.len(),
        0 <= taken <= v <= value.len(),
        star matches Some(s) ==> 0 <= s < p && pattern[s] == 42u8,
        scan(pattern, value, p, v, star, taken),
    ensures
        rest_fits(pattern, value, p, v) || (star is Some && exists|k: int|
            taken <= k <= value.len() && #[trigger] rest_fits(pattern, value, star->0 + 1, k)),
    decreases
        value.len() - taken,
        pattern.len() - match star {
            Some(s) => s + 1,
            None => 0,
        },
        value.len() - v,
{
    if v >= value.len() {
        assert(value.skip(v) =~= Seq::empty());
        stars_fit_nothing(pattern.skip(p));
    } else if p < pattern.len() && (pattern[p] == 63u8 || pattern[p] == value[v]) {
        scan_is_sound(pattern, value, p + 1, v + 1, star, taken);
        if rest_fits(pattern, value, p + 1, v + 1) {
            if pattern[p] == 42u8 {
                star_fits(pattern, value, p, v, v + 1);
            } else {
                one_fits(pattern, value, p, v);
            }
        }
    } else if p < pattern.len() && pattern[p] == 42u8 {
        scan_is_sound(pattern, value, p + 1, v, Some(p), v);
        if rest_fits(pattern, value, p + 1, v) {
            star_fits(pattern, value, p, v, v);
        } else {
            let k = choose|k: int| v <= k <= value.len() && #[trigger] rest_fits(pattern, value, p + 1, k);
            star_fits(pattern, value, p, v, k);
        }
    } else {
        let s = star->0;
        scan_is_sound(pattern, value, s + 1, taken + 1, star, taken + 1);
        assert(rest_fits(pattern, value, s + 1, taken + 1) || exists|k: int|
            taken + 1 <= k <= value.len() && #[trigger] rest_fits(pattern, value, s + 1, k));
    }
}

/// A value without a star that fits the pattern is accepted by a scan.
pub proof fn fitting_values_are_accepted(pattern: Seq<u8>, value: Seq<u8>)
    requires
        fits(pattern, value),
        !value.contains(42u8),
    ensures
        accepted(pattern, value),
{
    assert(pattern.skip(0) =~= pattern);
    assert(value.skip(0) =~= value);
    scan_is_complete(pattern, value, 0, 0, None, 0);
}

/// Whether the pattern since the last star holds no other star and agrees with the value since
/// the bytes that the star took.
spec fn agrees(pattern: Seq<u8>, value: Seq<u8>, p: int, v: int, s: int, taken: int) -> bool {
    &&& p - (s + 1) == v - taken
    &&& forall|i: int| s + 1 <= i < p ==> #[trigger] pattern[i] != 42u8 && (pattern[i] == 63u8 || pattern[i] == value[taken
        + (i - (s + 1))])
}

/// What fits from a later start of the fragment after the star fits from behind it.
proof fn fragment_fits(pattern: Seq<u8>, value: Seq<u8>, from: int, p: int, k: int)
    requires
        0 <= from <= p <= pattern.len(),
        0 <= k <= value.len(),
        forall|i: int| from <= i < p ==> #[trigger] pattern[i] != 42u8,
        rest_fits(pattern, value, from, k),
    ensures
        k + (p - from) <= value.len(),
        rest_fits(pattern, value, p, k + (p - from)),
    decreases p - from,
{
    if from < p {
        assert(pattern.skip(from)[0] == pattern[from]);
        assert(value.skip(k).len() > 0);
        one_fits(pattern, value, from, k);
        fragment_fits(pattern, value, from + 1, p, k + 1);
    }
}

proof fn scan_is_complete(pattern: Seq<u8>, value: Seq<u8>, p: int, v: int, star: Option<int>, taken: int)
    requires
        0 <= p <= pattern.len(),
        0 <= taken <= v <= value.len(),
        !value.contains(42u8),
        match star {
            Some(s) => 0 <= s < p && pattern[s] == 42u8 && agrees(pattern, value, p, v, s, taken) && exists|k: int|
                taken <= k <= value.len() && #[trigger] rest_fits(pattern, value, s + 1, k),
            None => rest_fits(pattern, value, p, v),
        },
    ensures
        scan(pattern, value, p, v, star, taken),
    decreases
        value.len() - taken,
        pattern.len() - match star {
            Some(s) => s + 1,
            None => 0,
        },
        value.len() - v,
{
    let behind = match star {
        Some(s) => choose|k: int| taken <= k <= value.len() && #[trigger] rest_fits(pattern, value, s + 1, k),
        None => 0,
    };
    if let Some(s) = star {
        fragment_fits(pattern, value, s + 1, p, behind);
    }
    if v >= value.len() {
        assert(value.skip(v) =~= Seq::empty());
        stars_fit_nothing(pattern.skip(p));
    } else if p < pattern.len() && (pattern[p] == 63u8 || pattern[p] == value[v]) {
        assert(value.contains(value[v]));
        assert(pattern[p] != 42u8);
        if star is None {
            one_fits(pattern, value, p, v);
        }
        scan_is_complete(pattern, value, p + 1, v + 1, star, taken);
    } else if p < pattern.len() && pattern[p] == 42u8 {
        let start = match star {
            Some(s) => behind + (p - (s + 1)),
            None => v,
        };
        let k = star_takes(pattern, value, p, start);
        assert(v <= k <= value.len() && rest_fits(pattern, value, p + 1, k));
        scan_is_complete(pattern, value, p + 1, v, Some(p), v);
    } else {
        match star {
            Some(s) => {
                if behind == taken {
                    assert(rest_fits(pattern, value, p, v));
                    if p < pattern.len() {
                        one_fits(pattern, value, p, v);
                    } else {
                        assert(pattern.skip(p).len() == 0);
                        assert(value.skip(v).len() > 0);
                    }
                    assert(false);
                }
                assert(taken + 1 <= behind <= value.len() && rest_fits(pattern, value, s + 1, behind));
                scan_is_complete(pattern, value, s + 1, taken + 1, star, taken + 1);
            },
            None => {
                if p < pattern.len() {
                    one_fits(pattern, value, p, v);
                } else {
                    assert(pattern.skip(p).len() == 0);
                    assert(value.skip(v).len() > 0);
                }
            },
        }
    }
}

} // verus!
