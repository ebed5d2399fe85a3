//! Orders on texts and numbers, and the sorting that rests on them.

use vstd::prelude::*;

use crate::text;

verus! {

/// Whether `left` comes before `right` in the order of their characters: at the first difference
/// the lower character decides, and a text comes after each of its proper prefixes.
pub open spec fn precedes(left: Seq<char>, right: Seq<char>) -> bool
    decreases left.len(),
{
    if right.len() == 0 {
        false
    } else if left.len() == 0 {
        true
    } else if left.first() != right.first() {
        left.first() < right.first()
    } else {
        precedes(left.drop_first(), right.drop_first())
    }
}

/// No text comes before itself.
pub proof fn precedes_irreflexive(s: Seq<char>)
    ensures
        !precedes(s, s),
    decreases s.len(),
{
    if s.len() > 0 {
        precedes_irreflexive(s.drop_first());
    }
}

/// Of two different texts, one comes before the other.
pub proof fn precedes_total(left: Seq<char>, right: Seq<char>)
    ensures
        left == right || precedes(left, right) || precedes(right, left),
    decreases left.len(),
{
    if left.len() == 0 && right.len() == 0 {
        assert(left =~= right);
    } else if left.len() > 0 && right.len() > 0 && left.first() == right.first() {
        precedes_total(left.drop_first(), right.drop_first());
        if left.drop_first() == right.drop_first() {
            assert(left =~= seq![left.first()] + left.drop_first());
            assert(right =~= seq![right.first()] + right.drop_first());
        }
    }
}

/// The order of texts is transitive.
pub proof fn precedes_transitive(a: Seq<char>, b: Seq<char>, c: Seq<char>)
    requires
        precedes(a, b),
        precedes(b, c),
    ensures
        precedes(a, c),
    decreases a.len(),
{
    if a.len() > 0 && a.first() == b.first() && b.first() == c.first() {
        precedes_transitive(a.drop_first(), b.drop_first(), c.drop_first());
    }
}

/// Whether `left` comes before `right`.
pub fn text_precedes(left: &str, right: &str) -> (answer: bool)
    ensures
        answer == precedes(left@, right@),
{
    let first = text::chars_of(left);
    let second = text::chars_of(right);
    let mut at: usize = 0;
    assert(first@.skip(0) =~= first@);
    assert(second@.skip(0) =~= second@);
    while at < first.len() && at < second.len()
        invariant
            at <= first@.len(),
            at <= second@.len(),
            first@ == left@,
            second@ == right@,
            precedes(left@, right@) == precedes(first@.skip(at as int), second@.skip(at as int)),
        decreases first@.len() - at,
    {
        assert(first@.skip(at as int).drop_first() =~= first@.skip(at + 1));
        assert(second@.skip(at as int).drop_first() =~= second@.skip(at + 1));
        if first[at] != second[at] {
            return first[at] < second[at];
        }
        at = at + 1;
    }
    at < second.len()
}

/// Whether each text of the list comes before the ones behind it.
pub open spec fn ascending(list: Seq<Seq<char>>) -> bool {
    forall|i: int, j: int| 0 <= i < j < list.len() ==> precedes(#[trigger] list[i], #[trigger] list[j])
}

/// Whether two lists hold the same texts, however often and in whatever order.
pub open spec fn same_members(left: Seq<Seq<char>>, right: Seq<Seq<char>>) -> bool {
    forall|s: Seq<char>| left.contains(s) <==> #[trigger] right.contains(s)
}

/// The members of an ascending list that come before `wanted` stand at its start; this many.
pub fn position_in(list: &Vec<String>, wanted: &str) -> (at: usize)
    requires
        ascending(text::texts(list@)),
    ensures
        at <= list@.len(),
        forall|i: int| 0 <= i < at ==> precedes(#[trigger] list@[i]@, wanted@),
        forall|i: int| at <= i < list@.len() ==> !precedes(#[trigger] list@[i]@, wanted@),
{
    let mut at: usize = 0;
    while at < list.len() && text_precedes(list[at].as_str(), wanted)
        invariant
            at <= list@.len(),
            forall|i: int| 0 <= i < at ==> precedes(#[trigger] list@[i]@, wanted@),
        decreases list@.len() - at,
    {
        at = at + 1;
    }
    proof {
        assert forall|i: int| at <= i < list@.len() implies !precedes(#[trigger] list@[i]@, wanted@) by {
            if i > at && precedes(list@[i]@, wanted@) {
                let all = text::texts(list@);
                assert(precedes(all[at as int], all[i]));
                precedes_transitive(list@[at as int]@, list@[i]@, wanted@);
            }
        }
    }
    at
}

/// The texts of a list, each once, in ascending order.
pub open spec fn sorted(list: Seq<Seq<char>>) -> Seq<Seq<char>> {
    choose|result: Seq<Seq<char>>| ascending(result) && #[trigger] same_members(result, list)
}

/// Two ascending lists with the same members are equal.
pub proof fn ascending_unique(left: Seq<Seq<char>>, right: Seq<Seq<char>>)
    requires
        ascending(left),
        ascending(right),
        same_members(left, right),
    ensures
        left == right,
    decreases left.len(),
{
    if left.len() == 0 {
        if right.len() > 0 {
            assert(right.contains(right[0]));
        }
        assert(left =~= right);
    } else {
        assert(left.contains(left[0]));
        assert(right.contains(left[0]));
        assert(right.contains(right[0]));
        assert(left.contains(right[0]));
        let j = right.index_of(left[0]);
        let i = left.index_of(right[0]);
        if j > 0 && i > 0 {
            assert(precedes(right[0], right[j]));
            assert(precedes(left[0], left[i]));
            precedes_transitive(left[0], right[0], left[0]);
            precedes_irreflexive(left[0]);
        }
        let first = left[0];
        assert(right[0] == first);
        let less = left.drop_first();
        let fewer = right.drop_first();
        assert forall|s: Seq<char>| less.contains(s) <==> #[trigger] fewer.contains(s) by {
            assert(left.contains(s) <==> right.contains(s));
            precedes_irreflexive(first);
            if less.contains(s) {
                let k = less.index_of(s);
                assert(left[k + 1] == s);
                assert(precedes(left[0], left[k + 1]));
                let m = right.index_of(s);
                assert(m > 0);
                assert(fewer[m - 1] == s);
            }
            if fewer.contains(s) {
                let k = fewer.index_of(s);
                assert(right[k + 1] == s);
                assert(precedes(right[0], right[k + 1]));
                let m = left.index_of(s);
                assert(m > 0);
                assert(less[m - 1] == s);
            }
        }
        assert forall|a: int, b: int| 0 <= a < b < less.len() implies precedes(#[trigger] less[a], #[trigger] less[b]) by {
            assert(precedes(left[a + 1], left[b + 1]));
        }
        assert forall|a: int, b: int| 0 <= a < b < fewer.len() implies precedes(#[trigger] fewer[a], #[trigger] fewer[b]) by {
            assert(precedes(right[a + 1], right[b + 1]));
        }
        ascending_unique(less, fewer);
        assert(left =~= seq![first] + less);
        assert(right =~= seq![first] + fewer);
    }
}

/// The texts of the list, each once, in ascending order.
pub fn sort_unique(list: &Vec<String>) -> (result: Vec<String>)
    ensures
        ascending(text::texts(result@)),
        same_members(text::texts(result@), text::texts(list@)),
        text::texts(result@) == sorted(text::texts(list@)),
{
    let mut result: Vec<String> = Vec::new();
    let mut at: usize = 0;
    let ghost all = text::texts(list@);
    assert(same_members(text::texts(result@), all.take(0)));
    while at < list.len()
        invariant
            at <= list@.len(),
            all == text::texts(list@),
            ascending(text::texts(result@)),
            same_members(text::texts(result@), all.take(at as int)),
        decreases list@.len() - at,
    {
        let place = position_in(&result, list[at].as_str());
        let ghost before = text::texts(result@);
        let ghost new = list@[at as int]@;
        proof {
            assert(all.take(at + 1) =~= all.take(at as int).push(new));
            assert forall|s: Seq<char>| #[trigger] all.take(at + 1).contains(s) <==> (all.take(at as int).contains(s) || s == new) by {
                let taken = all.take(at as int);
                if taken.contains(s) {
                    let k = taken.index_of(s);
                    assert(all.take(at + 1)[k] == s);
                }
                if s == new {
                    assert(all.take(at + 1)[at as int] == s);
                }
                if all.take(at + 1).contains(s) {
                    let k = all.take(at + 1).index_of(s);
                    if k < at {
                        assert(taken[k] == s);
                    }
                }
            }
        }
        if place < result.len() && result[place] == list[at] {
            proof {
                assert(before[place as int] == new);
                assert(before.contains(new));
                assert forall|s: Seq<char>| before.contains(s) <==> #[trigger] all.take(at + 1).contains(s) by {
                    assert(before.contains(s) <==> all.take(at as int).contains(s));
                }
            }
        } else {
            result.insert(place, list[at].clone());
            proof {
                let after = text::texts(result@);
                assert(after =~= before.insert(place as int, new));
                assert forall|i: int, j: int| 0 <= i < j < after.len() implies precedes(#[trigger] after[i], #[trigger] after[j]) by {
                    if i == place {
                        assert(before[j - 1] == after[j]);
                        assert(!precedes(before[j - 1], new));
                        precedes_total(before[j - 1], new);
                        if j - 1 > place {
                            assert(precedes(before[place as int], before[j - 1]));
                            if before[j - 1] == new {
                                assert(precedes(before[place as int], new));
                            }
                        }
                    } else if j == place {
                        assert(before[i] == after[i]);
                    } else {
                        let bi = if i < place { i } else { i - 1 };
                        let bj = if j < place { j } else { j - 1 };
                        assert(precedes(before[bi], before[bj]));
                    }
                }
                assert forall|s: Seq<char>| after.contains(s) <==> #[trigger] all.take(at + 1).contains(s) by {
                    assert(before.contains(s) <==> all.take(at as int).contains(s));
                    if before.contains(s) {
                        let k = before.index_of(s);
                        assert(after[if k < place { k } else { k + 1 }] == s);
                    }
                    if s == new {
                        assert(after[place as int] == s);
                    }
                    if after.contains(s) && s != new {
                        let k = after.index_of(s);
                        assert(before[if k < place { k } else { k - 1 }] == s);
                    }
                }
            }
        }
        at = at + 1;
    }
    assert(all.take(at as int) =~= all);
    proof {
        assert(same_members(text::texts(result@), all));
        let other = sorted(all);
        assert forall|t: Seq<char>| text::texts(result@).contains(t) <==> #[trigger] other.contains(t) by {
            assert(other.contains(t) <==> all.contains(t));
            assert(text::texts(result@).contains(t) <==> all.contains(t));
        }
        ascending_unique(text::texts(result@), other);
    }
    result
}

/// Whether the list of positions `order` puts the items with the given dates newest first: each
/// position occurs once, a higher date comes before a lower one, and of two items with the same
/// date the earlier position comes first.
pub open spec fn newest_first(dates: Seq<u64>, order: Seq<usize>) -> bool {
    &&& order.len() == dates.len()
    &&& forall|i: int| 0 <= i < order.len() ==> (#[trigger] order[i]) < dates.len()
    &&& forall|k: usize| k < dates.len() ==> #[trigger] order.contains(k)
    &&& forall|i: int, j: int|
        0 <= i < j < order.len() ==> newer(dates, #[trigger] order[i], #[trigger] order[j])
}

/// Whether the item at position `first` has a higher date than the one at `second`, or the same
/// date and an earlier position.
pub open spec fn newer(dates: Seq<u64>, first: usize, second: usize) -> bool {
    ||| dates[first as int] > dates[second as int]
    ||| dates[first as int] == dates[second as int] && first < second
}

/// The positions of the items with the given dates, newest first.
pub fn order_newest_first(dates: &Vec<u64>) -> (order: Vec<usize>)
    ensures
        newest_first(dates@, order@),
{
    let mut order: Vec<usize> = Vec::new();
    let mut at: usize = 0;
    while at < dates.len()
        invariant
            at <= dates@.len(),
            order@.len() == at,
            forall|i: int| 0 <= i < order@.len() ==> (#[trigger] order@[i]) < at,
            forall|k: usize| k < at ==> #[trigger] order@.contains(k),
            forall|i: int, j: int|
                0 <= i < j < order@.len() ==> newer(dates@, #[trigger] order@[i], #[trigger] order@[j]),
        decreases dates@.len() - at,
    {
        let mut place: usize = 0;
        while place < order.len() && dates[order[place]] >= dates[at]
            invariant
                at < dates@.len(),
                place <= order@.len(),
                forall|i: int| 0 <= i < order@.len() ==> (#[trigger] order@[i]) < at,
                forall|i: int| 0 <= i < place ==> dates@[#[trigger] order@[i] as int] >= dates@[at as int],
            decreases order@.len() - place,
        {
            place = place + 1;
        }
        let ghost before = order@;
        order.insert(place, at);
        proof {
            let after = order@;
            assert(after =~= before.insert(place as int, at));
            assert forall|k: usize| k < at + 1 implies #[trigger] after.contains(k) by {
                if k == at {
                    assert(after[place as int] == k);
                } else {
                    assert(before.contains(k));
                    let j = before.index_of(k);
                    assert(after[if j < place { j } else { j + 1 }] == k);
                }
            }
            assert forall|i: int, j: int| 0 <= i < j < after.len() implies newer(dates@, #[trigger] after[i], #[trigger] after[j]) by {
                if i == place {
                    assert(after[j] == before[j - 1]);
                    if j - 1 > place {
                        assert(newer(dates@, before[place as int], before[j - 1]));
                    }
                } else if j == place {
                    assert(after[i] == before[i]);
                } else {
                    let bi = if i < place { i } else { i - 1 };
                    let bj = if j < place { j } else { j - 1 };
                    assert(newer(dates@, before[bi], before[bj]));
                }
            }
            assert forall|i: int| 0 <= i < after.len() implies (#[trigger] after[i]) < at + 1 by {
                if i != place {
                    assert(after[i] == before[if i < place { i } else { i - 1 }]);
                }
            }
        }
        at = at + 1;
    }
    order
}

/// There is only one order that puts items newest first.
pub proof fn newest_first_unique(dates: Seq<u64>, left: Seq<usize>, right: Seq<usize>)
    requires
        newest_first(dates, left),
        newest_first(dates, right),
    ensures
        left == right,
{
    assert forall|k: int| 0 <= k <= left.len() implies left.take(k) == right.take(k) by {
        newest_first_unique_up_to(dates, left, right, k);
    }
    assert(left.take(left.len() as int) =~= left);
    assert(right.take(right.len() as int) =~= right);
}

proof fn newest_first_unique_up_to(dates: Seq<u64>, left: Seq<usize>, right: Seq<usize>, k: int)
    requires
        newest_first(dates, left),
        newest_first(dates, right),
        0 <= k <= left.len(),
    ensures
        left.take(k) == right.take(k),
    decreases k,
{
    if k == 0 {
        assert(left.take(0) =~= right.take(0));
    } else {
        newest_first_unique_up_to(dates, left, right, k - 1);
        let a = left[k - 1];
        let b = right[k - 1];
        assert(right.contains(a));
        assert(left.contains(b));
        let ja = right.index_of(a);
        let jb = left.index_of(b);
        if a != b {
            if ja < k - 1 {
                assert(right.take(k - 1)[ja] == left.take(k - 1)[ja]);
                assert(left[ja] == a);
                assert(newer(dates, left[ja], left[k - 1]));
            }
            if jb < k - 1 {
                assert(left.take(k - 1)[jb] == right.take(k - 1)[jb]);
                assert(right[jb] == b);
                assert(newer(dates, right[jb], right[k - 1]));
            }
            assert(newer(dates, right[k - 1], right[ja]));
            assert(newer(dates, left[k - 1], left[jb]));
            assert(false);
        }
        assert(left.take(k) =~= left.take(k - 1).push(a));
        assert(right.take(k) =~= right.take(k - 1).push(b));
    }
}

/// Whether `order` lists the position at which each name first occurs, by ascending name.
pub open spec fn names_once(names: Seq<Seq<char>>, order: Seq<usize>) -> bool {
    &&& forall|i: int|
        0 <= i < order.len() ==> (#[trigger] order[i]) < names.len() && first_named(names, order[i] as int)
    &&& forall|k: usize| k < names.len() && first_named(names, k as int) ==> #[trigger] order.contains(k)
    &&& forall|i: int, j: int|
        0 <= i < j < order.len() ==> precedes(names[(#[trigger] order[i]) as int], names[(#[trigger] order[j]) as int])
}

/// Whether no name before position `k` is the same as the one there.
pub open spec fn first_named(names: Seq<Seq<char>>, k: int) -> bool {
    forall|i: int| 0 <= i < k ==> #[trigger] names[i] != names[k]
}

/// The position at which each name first occurs, by ascending name.
pub fn order_by_name(names: &Vec<String>) -> (order: Vec<usize>)
    ensures
        names_once(text::texts(names@), order@),
{
    let mut order: Vec<usize> = Vec::new();
    let mut at: usize = 0;
    let ghost all = text::texts(names@);
    while at < names.len()
        invariant
            at <= names@.len(),
            all == text::texts(names@),
            forall|i: int|
                0 <= i < order@.len() ==> (#[trigger] order@[i]) < at && first_named(all, order@[i] as int),
            forall|k: usize| k < at && first_named(all, k as int) ==> #[trigger] order@.contains(k),
            forall|i: int, j: int|
                0 <= i < j < order@.len() ==> precedes(all[(#[trigger] order@[i]) as int], all[(#[trigger] order@[j]) as int]),
        decreases names@.len() - at,
    {
        let mut place: usize = 0;
        while place < order.len() && text_precedes(names[order[place]].as_str(), names[at].as_str())
            invariant
                at < names@.len(),
                place <= order@.len(),
                all == text::texts(names@),
                forall|i: int| 0 <= i < order@.len() ==> (#[trigger] order@[i]) < at,
                forall|i: int| 0 <= i < place ==> precedes(all[(#[trigger] order@[i]) as int], all[at as int]),
            decreases order@.len() - place,
        {
            place = place + 1;
        }
        let known = place < order.len() && names[order[place]] == names[at];
        let ghost before = order@;
        if known {
            proof {
                assert(all[before[place as int] as int] == all[at as int]);
                assert(!first_named(all, at as int));
            }
        } else {
            order.insert(place, at);
            proof {
                let after = order@;
                assert(after =~= before.insert(place as int, at));
                assert(first_named(all, at as int)) by {
                    assert forall|k: int| 0 <= k < at implies #[trigger] all[k] != all[at as int] by {
                        if all[k] == all[at as int] {
                            first_occurrence(all, k);
                            let f = choose|f: int| 0 <= f <= k && first_named(all, f) && #[trigger] all[f] == all[k];
                            assert(before.contains(f as usize));
                            let i = before.index_of(f as usize);
                            assert(all[before[i] as int] == all[at as int]);
                            precedes_irreflexive(all[at as int]);
                            if i > place {
                                assert(precedes(all[before[place as int] as int], all[before[i] as int]));
                            }
                            if i < place {
                                assert(precedes(all[before[i] as int], all[at as int]));
                            }
                        }
                    }
                }
                assert forall|k: usize| k < at + 1 && first_named(all, k as int) implies #[trigger] after.contains(k) by {
                    if k == at {
                        assert(after[place as int] == k);
                    } else {
                        assert(before.contains(k));
                        let j = before.index_of(k);
                        assert(after[if j < place { j } else { j + 1 }] == k);
                    }
                }
                assert forall|i: int, j: int| 0 <= i < j < after.len() implies precedes(all[(#[trigger] after[i]) as int], all[(#[trigger] after[j]) as int]) by {
                    if i == place {
                        assert(after[j] == before[j - 1]);
                        let here = all[at as int];
                        let there = all[before[j - 1] as int];
                        precedes_total(here, there);
                        if j - 1 > place {
                            assert(precedes(all[before[place as int] as int], there));
                            precedes_total(here, all[before[place as int] as int]);
                            precedes_transitive(here, all[before[place as int] as int], there);
                        }
                    } else if j == place {
                        assert(after[i] == before[i]);
                    } else {
                        let bi = if i < place { i } else { i - 1 };
                        let bj = if j < place { j } else { j - 1 };
                        assert(precedes(all[before[bi] as int], all[before[bj] as int]));
                    }
                }
                assert forall|i: int| 0 <= i < after.len() implies (#[trigger] after[i]) < at + 1 && first_named(all, after[i] as int) by {
                    if i != place {
                        assert(after[i] == before[if i < place { i } else { i - 1 }]);
                    }
                }
            }
        }
        at = at + 1;
    }
    order
}

proof fn first_occurrence(names: Seq<Seq<char>>, k: int)
    requires
        0 <= k < names.len(),
    ensures
        exists|f: int| 0 <= f <= k && first_named(names, f) && #[trigger] names[f] == names[k],
    decreases k,
{
    if !first_named(names, k) {
        let i = choose|i: int| 0 <= i < k && #[trigger] names[i] == names[k];
        first_occurrence(names, i);
    } else {
        assert(names[k] == names[k]);
    }
}

proof fn placed(list: Seq<Seq<char>>, new: Seq<char>) -> (result: Seq<Seq<char>>)
    requires
        ascending(list),
    ensures
        ascending(result),
        forall|s: Seq<char>| #[trigger] result.contains(s) <==> list.contains(s) || s == new,
    decreases list.len(),
{
    if list.len() == 0 {
        let result = seq![new];
        assert(result[0] == new);
        result
    } else {
        let last = list.last();
        let front = list.drop_last();
        assert(list[list.len() - 1] == last);
        precedes_total(last, new);
        assert forall|s: Seq<char>| #[trigger] list.contains(s) <==> front.contains(s) || s == last by {
            if front.contains(s) {
                assert(list[front.index_of(s)] == s);
            }
            if list.contains(s) && s != last {
                assert(front[list.index_of(s)] == s);
            }
        }
        if last == new {
            list
        } else if precedes(last, new) {
            let result = list.push(new);
            assert forall|i: int, j: int| 0 <= i < j < result.len() implies precedes(#[trigger] result[i], #[trigger] result[j]) by {
                if j == list.len() && i < list.len() - 1 {
                    assert(precedes(list[i], list[list.len() - 1]));
                    precedes_transitive(list[i], last, new);
                }
            }
            assert forall|s: Seq<char>| #[trigger] result.contains(s) <==> list.contains(s) || s == new by {
                if list.contains(s) {
                    assert(result[list.index_of(s)] == s);
                }
                assert(result[list.len() as int] == new);
            }
            result
        } else {
            assert forall|i: int, j: int| 0 <= i < j < front.len() implies precedes(#[trigger] front[i], #[trigger] front[j]) by {
                assert(precedes(list[i], list[j]));
            }
            let before = placed(front, new);
            let result = before.push(last);
            assert forall|i: int, j: int| 0 <= i < j < result.len() implies precedes(#[trigger] result[i], #[trigger] result[j]) by {
                if j == before.len() {
                    assert(before.contains(before[i]));
                    if before[i] != new {
                        let k = front.index_of(before[i]);
                        assert(precedes(list[k], list[list.len() - 1]));
                    }
                }
            }
            assert forall|s: Seq<char>| #[trigger] result.contains(s) <==> list.contains(s) || s == new by {
                if before.contains(s) {
                    assert(result[before.index_of(s)] == s);
                }
                if result.contains(s) && s != last {
                    assert(before[result.index_of(s)] == s);
                }
                assert(result[before.len() as int] == last);
            }
            result
        }
    }
}

proof fn sortable(list: Seq<Seq<char>>) -> (result: Seq<Seq<char>>)
    ensures
        ascending(result),
        same_members(result, list),
    decreases list.len(),
{
    if list.len() == 0 {
        list
    } else {
        let front = list.drop_last();
        let before = sortable(front);
        let result = placed(before, list.last());
        assert forall|s: Seq<char>| result.contains(s) <==> #[trigger] list.contains(s) by {
            assert(before.contains(s) <==> front.contains(s));
            if front.contains(s) {
                assert(list[front.index_of(s)] == s);
            }
            if list.contains(s) && s != list.last() {
                assert(front[list.index_of(s)] == s);
            }
            assert(list[list.len() - 1] == list.last());
        }
        result
    }
}

/// Every list can be sorted: the sorted list ascends, has no text twice, and holds the texts of the
/// list and no others.
pub proof fn sorted_lists_hold_the_same(list: Seq<Seq<char>>, s: Seq<char>)
    ensures
        ascending(sorted(list)),
        sorted(list).no_duplicates(),
        sorted(list).contains(s) <==> list.contains(s),
{
    let result = sortable(list);
    assert(same_members(result, list));
    let found = sorted(list);
    assert(same_members(found, list));
    assert forall|i: int, j: int| 0 <= i < found.len() && 0 <= j < found.len() && i != j implies found[i] != found[j] by {
        precedes_irreflexive(found[i]);
        if i < j {
            assert(precedes(found[i], found[j]));
        } else {
            assert(precedes(found[j], found[i]));
        }
    }
}

} // verus!
