//! Orders on bytes and numbers, and one stable merge sort over them.

use vstd::multiset::*;
use vstd::prelude::*;
use vstd::relations::*;

use crate::text::byte_strings;

verus! {

/// Lexicographic order on byte strings.
pub open spec fn bytes_le(left: Seq<u8>, right: Seq<u8>) -> bool
    decreases left.len(),
{
    if left.len() == 0 {
        true
    } else if right.len() == 0 {
        false
    } else if left[0] != right[0] {
        left[0] < right[0]
    } else {
        bytes_le(left.drop_first(), right.drop_first())
    }
}

/// The byte order is reflexive.
pub proof fn lemma_bytes_reflexive(bytes: Seq<u8>)
    ensures
        bytes_le(bytes, bytes),
    decreases bytes.len(),
{
    if bytes.len() > 0 {
        lemma_bytes_reflexive(bytes.drop_first());
    }
}

/// The byte order is transitive.
pub proof fn lemma_bytes_transitive(first: Seq<u8>, second: Seq<u8>, third: Seq<u8>)
    requires
        bytes_le(first, second),
        bytes_le(second, third),
    ensures
        bytes_le(first, third),
    decreases first.len(),
{
    if first.len() > 0 && second.len() > 0 && third.len() > 0 {
        if first[0] == second[0] && second[0] == third[0] {
            lemma_bytes_transitive(first.drop_first(), second.drop_first(), third.drop_first());
        }
    }
}

/// The byte order compares any two byte strings.
pub proof fn lemma_bytes_total(left: Seq<u8>, right: Seq<u8>)
    ensures
        bytes_le(left, right) || bytes_le(right, left),
    decreases left.len(),
{
    if left.len() > 0 && right.len() > 0 {
        lemma_bytes_total(left.drop_first(), right.drop_first());
    }
}

/// Two byte strings that are each no greater than the other are the same.
pub proof fn lemma_bytes_antisymmetric(left: Seq<u8>, right: Seq<u8>)
    requires
        bytes_le(left, right),
        bytes_le(right, left),
    ensures
        left == right,
    decreases left.len(),
{
    if left.len() == 0 || right.len() == 0 {
        assert(left =~= right);
    } else {
        lemma_bytes_antisymmetric(left.drop_first(), right.drop_first());
        assert(left =~= seq![left[0]] + left.drop_first());
        assert(right =~= seq![right[0]] + right.drop_first());
    }
}

/// Compares two byte strings.
pub fn bytes_no_greater(left: &[u8], right: &[u8]) -> (no_greater: bool)
    ensures
        no_greater == bytes_le(left@, right@),
{
    let mut index: usize = 0;
    proof {
        assert(left@.skip(0) =~= left@);
        assert(right@.skip(0) =~= right@);
    }
    while index < left.len() && index < right.len()
        invariant
            index <= left@.len(),
            index <= right@.len(),
            bytes_le(left@, right@) == bytes_le(left@.skip(index as int), right@.skip(index as int)),
        decreases left@.len() - index,
    {
        if left[index] != right[index] {
            return left[index] < right[index];
        }
        proof {
            assert(left@.skip(index as int).drop_first() =~= left@.skip(index + 1));
            assert(right@.skip(index as int).drop_first() =~= right@.skip(index + 1));
        }
        index = index + 1;
    }
    index == left.len()
}

/// A key with a total order up to ties.
pub trait SortKey: Sized {
    spec fn rank_le(&self, other: &Self) -> bool;

    proof fn rank_transitive(first: &Self, second: &Self, third: &Self)
        requires
            first.rank_le(second),
            second.rank_le(third),
        ensures
            first.rank_le(third),
    ;

    proof fn rank_total(first: &Self, second: &Self)
        ensures
            first.rank_le(second) || second.rank_le(first),
    ;

    fn ranks_no_later(&self, other: &Self) -> (no_later: bool)
        ensures
            no_later == self.rank_le(other),
    ;
}

impl SortKey for u64 {
    open spec fn rank_le(&self, other: &Self) -> bool {
        *self <= *other
    }

    proof fn rank_transitive(first: &Self, second: &Self, third: &Self) {
    }

    proof fn rank_total(first: &Self, second: &Self) {
    }

    fn ranks_no_later(&self, other: &Self) -> (no_later: bool) {
        *self <= *other
    }
}

impl SortKey for Vec<u8> {
    open spec fn rank_le(&self, other: &Self) -> bool {
        bytes_le(self@, other@)
    }

    proof fn rank_transitive(first: &Self, second: &Self, third: &Self) {
        lemma_bytes_transitive(first@, second@, third@);
    }

    proof fn rank_total(first: &Self, second: &Self) {
        lemma_bytes_total(first@, second@);
    }

    fn ranks_no_later(&self, other: &Self) -> (no_later: bool) {
        bytes_no_greater(self.as_slice(), other.as_slice())
    }
}

/// Whether the item at `first` sorts before the item at `second`; ties keep their places.
pub open spec fn sorts_before<K: SortKey>(keys: Seq<K>, first: int, second: int) -> bool {
    &&& keys[first].rank_le(&keys[second])
    &&& keys[second].rank_le(&keys[first]) ==> first < second
}

/// Whether `order` lists each of `from..to` once, in sorted order.
pub open spec fn sorted_range<K: SortKey>(
    keys: Seq<K>,
    order: Seq<usize>,
    from: int,
    to: int,
) -> bool {
    &&& order.len() == to - from
    &&& forall|i: int| 0 <= i < order.len() ==> from <= #[trigger] order[i] < to
    &&& forall|i: int, j: int|
        0 <= i < j < order.len() ==> #[trigger] order[i] != #[trigger] order[j]
    &&& forall|i: int, j: int|
        0 <= i < j < order.len() ==> sorts_before(
            keys,
            #[trigger] order[i] as int,
            #[trigger] order[j] as int,
        )
}

/// Whether `order` is the stable sort of `keys`, as a list of places.
pub open spec fn is_stable_order<K: SortKey>(keys: Seq<K>, order: Seq<usize>) -> bool {
    sorted_range(keys, order, 0, keys.len() as int)
}

proof fn lemma_before_transitive<K: SortKey>(keys: Seq<K>, first: int, second: int, third: int)
    requires
        sorts_before(keys, first, second),
        sorts_before(keys, second, third),
    ensures
        sorts_before(keys, first, third),
{
    K::rank_transitive(&keys[first], &keys[second], &keys[third]);
    if keys[third].rank_le(&keys[first]) {
        K::rank_transitive(&keys[third], &keys[first], &keys[second]);
        K::rank_transitive(&keys[second], &keys[third], &keys[first]);
    }
}

fn merge_sorted<K: SortKey>(
    keys: &Vec<K>,
    left: &Vec<usize>,
    right: &Vec<usize>,
    Ghost(from): Ghost<int>,
    Ghost(middle): Ghost<int>,
    Ghost(to): Ghost<int>,
) -> (order: Vec<usize>)
    requires
        0 <= from <= middle <= to <= keys@.len(),
        sorted_range(keys@, left@, from, middle),
        sorted_range(keys@, right@, middle, to),
    ensures
        sorted_range(keys@, order@, from, to),
{
    let mut order: Vec<usize> = Vec::new();
    let mut i: usize = 0;
    let mut j: usize = 0;
    while i < left.len() || j < right.len()
        invariant
            0 <= from <= middle <= to <= keys@.len(),
            sorted_range(keys@, left@, from, middle),
            sorted_range(keys@, right@, middle, to),
            i <= left@.len(),
            j <= right@.len(),
            order@.len() == i + j,
            forall|k: int| 0 <= k < order@.len() ==> from <= #[trigger] order@[k] < to,
            forall|k: int, l: int|
                0 <= k < l < order@.len() ==> #[trigger] order@[k] != #[trigger] order@[l],
            forall|k: int, l: int|
                0 <= k < l < order@.len() ==> sorts_before(
                    keys@,
                    #[trigger] order@[k] as int,
                    #[trigger] order@[l] as int,
                ),
            forall|k: int, l: int|
                0 <= k < order@.len() && i <= l < left@.len() ==> #[trigger] order@[k]
                    != #[trigger] left@[l] && sorts_before(
                    keys@,
                    order@[k] as int,
                    left@[l] as int,
                ),
            forall|k: int, l: int|
                0 <= k < order@.len() && j <= l < right@.len() ==> #[trigger] order@[k]
                    != #[trigger] right@[l] && sorts_before(
                    keys@,
                    order@[k] as int,
                    right@[l] as int,
                ),
        decreases left@.len() + right@.len() - i - j,
    {
        let take_left: bool = if i == left.len() {
            false
        } else if j == right.len() {
            true
        } else {
            keys[left[i]].ranks_no_later(&keys[right[j]])
        };
        let ghost before = order@;
        if take_left {
            let chosen: usize = left[i];
            order.push(chosen);
            proof {
                assert forall|l: int| j <= l < right@.len() implies sorts_before(
                    keys@,
                    chosen as int,
                    #[trigger] right@[l] as int,
                ) by {
                    assert(right@[j as int] >= middle);
                    if l > j {
                        lemma_before_transitive(
                            keys@,
                            chosen as int,
                            right@[j as int] as int,
                            right@[l] as int,
                        );
                    }
                }
                assert forall|l: int| i < l < left@.len() implies chosen != #[trigger] left@[l]
                    && sorts_before(keys@, chosen as int, left@[l] as int) by {
                    assert(left@[i as int] == chosen);
                }
            }
            i = i + 1;
        } else {
            let chosen: usize = right[j];
            order.push(chosen);
            proof {
                assert forall|l: int| i <= l < left@.len() implies sorts_before(
                    keys@,
                    chosen as int,
                    #[trigger] left@[l] as int,
                ) by {
                    K::rank_total(&keys@[chosen as int], &keys@[left@[i as int] as int]);
                    if l > i {
                        lemma_before_transitive(
                            keys@,
                            chosen as int,
                            left@[i as int] as int,
                            left@[l] as int,
                        );
                    }
                }
                assert forall|l: int| j < l < right@.len() implies chosen != #[trigger] right@[l]
                    && sorts_before(keys@, chosen as int, right@[l] as int) by {
                    assert(right@[j as int] == chosen);
                }
            }
            j = j + 1;
        }
        assert(order@.drop_last() =~= before);
    }
    order
}

fn sort_range<K: SortKey>(keys: &Vec<K>, from: usize, to: usize) -> (order: Vec<usize>)
    requires
        from <= to <= keys@.len(),
    ensures
        sorted_range(keys@, order@, from as int, to as int),
    decreases to - from,
{
    if to - from == 0 {
        return Vec::new();
    }
    if to - from == 1 {
        let mut order: Vec<usize> = Vec::new();
        order.push(from);
        return order;
    }
    let middle: usize = from + (to - from) / 2;
    let left = sort_range(keys, from, middle);
    let right = sort_range(keys, middle, to);
    merge_sorted(keys, &left, &right, Ghost(from as int), Ghost(middle as int), Ghost(to as int))
}

/// Sorts `keys` by merging, keeping ties in place, and returns the places in sorted order.
pub fn stable_order<K: SortKey>(keys: &Vec<K>) -> (order: Vec<usize>)
    ensures
        is_stable_order(keys@, order@),
{
    sort_range(keys, 0, keys.len())
}

/// The items at the places of `order`.
pub open spec fn picked<T>(items: Seq<T>, order: Seq<usize>) -> Seq<T> {
    Seq::new(order.len(), |i: int| items[order[i] as int])
}

/// A list that names each place once picks every item once.
pub proof fn lemma_picked_multiset<T>(items: Seq<T>, order: Seq<usize>)
    requires
        order.len() == items.len(),
        forall|i: int| 0 <= i < order.len() ==> 0 <= #[trigger] order[i] < items.len(),
        forall|i: int, j: int|
            0 <= i < j < order.len() ==> #[trigger] order[i] != #[trigger] order[j],
    ensures
        picked(items, order).to_multiset() == items.to_multiset(),
    decreases items.len(),
{
    broadcast use vstd::seq_lib::group_to_multiset_ensures;

    if items.len() == 0 {
        assert(picked(items, order) =~= items);
    } else {
        let last = (items.len() - 1) as int;
        assert(exists|k: int| 0 <= k < order.len() && order[k] == last) by {
            lemma_covers(order, items.len() as int, last);
        }
        let at = choose|k: int| 0 <= k < order.len() && order[k] == last;
        let rest = order.remove(at);
        let shorter = items.drop_last();
        assert forall|i: int| 0 <= i < rest.len() implies 0 <= #[trigger] rest[i]
            < shorter.len() by {
            let source = if i < at {
                i
            } else {
                i + 1
            };
            assert(rest[i] == order[source]);
            assert(order[source] != order[at]);
        }
        assert forall|i: int, j: int| 0 <= i < j < rest.len() implies #[trigger] rest[i]
            != #[trigger] rest[j] by {
            let a = if i < at {
                i
            } else {
                i + 1
            };
            let b = if j < at {
                j
            } else {
                j + 1
            };
            assert(rest[i] == order[a] && rest[j] == order[b]);
        }
        lemma_picked_multiset(shorter, rest);
        let whole = picked(items, order);
        assert(whole.remove(at) =~= picked(shorter, rest));
        assert(items =~= shorter.push(items.last()));
        assert(whole[at] == items.last());
        assert(whole.to_multiset().remove(items.last()) =~= shorter.to_multiset());
        assert(whole.to_multiset().count(items.last()) > 0) by {
            assert(whole.contains(whole[at]));
        }
        assert(whole.to_multiset() =~= shorter.to_multiset().insert(items.last()));
    }
}

/// Distinct places below `bound`, as many as `bound`, reach every place.
pub proof fn lemma_covers(order: Seq<usize>, bound: int, wanted: int)
    requires
        order.len() == bound,
        0 <= wanted < bound,
        forall|i: int| 0 <= i < order.len() ==> 0 <= #[trigger] order[i] < bound,
        forall|i: int, j: int|
            0 <= i < j < order.len() ==> #[trigger] order[i] != #[trigger] order[j],
    ensures
        exists|k: int| 0 <= k < order.len() && #[trigger] order[k] == wanted,
{
    let places = order.map_values(|place: usize| place as int);
    assert forall|i: int, j: int| 0 <= i < j < places.len() implies #[trigger] places[i]
        != #[trigger] places[j] by {
        assert(order[i] != order[j]);
    }
    lemma_reaches(places, bound, wanted);
    let k = choose|k: int| 0 <= k < places.len() && #[trigger] places[k] == wanted;
    assert(order[k] == wanted);
}

/// Distinct numbers below `bound`, as many as `bound`, reach every number below it.
pub proof fn lemma_reaches(places: Seq<int>, bound: int, wanted: int)
    requires
        places.len() == bound,
        0 <= wanted < bound,
        forall|i: int| 0 <= i < places.len() ==> 0 <= #[trigger] places[i] < bound,
        forall|i: int, j: int|
            0 <= i < j < places.len() ==> #[trigger] places[i] != #[trigger] places[j],
    ensures
        exists|k: int| 0 <= k < places.len() && #[trigger] places[k] == wanted,
    decreases bound,
{
    let last = bound - 1;
    if forall|k: int| 0 <= k < places.len() ==> #[trigger] places[k] != wanted {
        if bound == 1 {
            assert(places[0] == wanted);
        } else {
            // Move the number `last`, if it is there, onto `wanted`, and drop one entry.
            let moved = Seq::new(
                places.len(),
                |i: int|
                    if places[i] == last {
                        wanted
                    } else {
                        places[i]
                    },
            );
            let shorter = moved.drop_last();
            let gone = moved.last();
            assert forall|i: int| 0 <= i < moved.len() implies 0 <= #[trigger] moved[i] < last by {
                assert(places[i] < bound);
                assert(places[i] != wanted);
            }
            assert forall|i: int, j: int| 0 <= i < j < moved.len() implies #[trigger] moved[i]
                != #[trigger] moved[j] by {
                assert(places[i] != places[j]);
                assert(places[i] != wanted);
                assert(places[j] != wanted);
            }
            assert forall|i: int| 0 <= i < shorter.len() implies 0 <= #[trigger] shorter[i]
                < last by {
                assert(shorter[i] == moved[i]);
            }
            assert forall|i: int, j: int| 0 <= i < j < shorter.len() implies #[trigger] shorter[i]
                != #[trigger] shorter[j] by {
                assert(moved[i] != moved[j]);
            }
            assert(gone == moved[moved.len() - 1]);
            lemma_reaches(shorter, last, gone);
            let k = choose|k: int| 0 <= k < shorter.len() && #[trigger] shorter[k] == gone;
            assert(moved[k] == moved[moved.len() - 1]);
        }
    }
}

/// The numbers in increasing order.
pub open spec fn increasing(values: Seq<u64>) -> Seq<u64> {
    values.sort_by(|left: u64, right: u64| left <= right)
}

/// Two increasing lists of the same numbers are the same list.
pub proof fn lemma_sorted_lists_agree(left: Seq<u64>, right: Seq<u64>)
    requires
        left.to_multiset() == right.to_multiset(),
        forall|i: int, j: int| 0 <= i <= j < left.len() ==> #[trigger] left[i] <= #[trigger] left[j],
        forall|i: int, j: int|
            0 <= i <= j < right.len() ==> #[trigger] right[i] <= #[trigger] right[j],
    ensures
        left == right,
    decreases left.len(),
{
    broadcast use vstd::seq_lib::group_to_multiset_ensures;

    left.to_multiset_ensures();
    right.to_multiset_ensures();
    if left.len() == 0 {
        assert(left =~= right);
    } else {
        let a = left.last();
        let b = right.last();
        assert(left.contains(a) && right.contains(b));
        assert(right.to_multiset().count(a) > 0);
        assert(left.to_multiset().count(b) > 0);
        assert(right.contains(a) && left.contains(b));
        let i = choose|i: int| 0 <= i < right.len() && right[i] == a;
        let j = choose|j: int| 0 <= j < left.len() && left[j] == b;
        assert(right[i] <= right[right.len() - 1]);
        assert(left[j] <= left[left.len() - 1]);
        assert(a == b);
        let last = left.len() - 1;
        assert(left.remove(last) =~= left.drop_last());
        assert(right.remove(last) =~= right.drop_last());
        lemma_sorted_lists_agree(left.drop_last(), right.drop_last());
        assert(left =~= left.drop_last().push(a));
        assert(right =~= right.drop_last().push(b));
    }
}

proof fn lemma_number_order()
    ensures
        total_ordering(|left: u64, right: u64| left <= right),
{
}

/// The increasing list holds the same numbers, in order.
pub proof fn lemma_increasing(values: Seq<u64>)
    ensures
        increasing(values).to_multiset() == values.to_multiset(),
        increasing(values).len() == values.len(),
        forall|i: int, j: int|
            0 <= i <= j < increasing(values).len() ==> #[trigger] increasing(values)[i]
                <= #[trigger] increasing(values)[j],
{
    broadcast use vstd::seq_lib::group_to_multiset_ensures;

    lemma_number_order();
    let leq = |left: u64, right: u64| left <= right;
    values.lemma_sort_by_ensures(leq);
    let sorted = values.sort_by(leq);
    assert(sorted.to_multiset().len() == values.to_multiset().len());
    assert forall|i: int, j: int| 0 <= i <= j < sorted.len() implies #[trigger] sorted[i]
        <= #[trigger] sorted[j] by {
        if i < j {
            assert(leq(sorted[i], sorted[j]));
        }
    }
}

/// The increasing list does not depend on the order in which the numbers are given.
pub proof fn lemma_increasing_ignores_order(left: Seq<u64>, right: Seq<u64>)
    requires
        left.to_multiset() == right.to_multiset(),
    ensures
        increasing(left) == increasing(right),
{
    lemma_increasing(left);
    lemma_increasing(right);
    lemma_sorted_lists_agree(increasing(left), increasing(right));
}

/// How many numbers are no greater than `bound`.
pub open spec fn count_at_most(values: Seq<u64>, bound: u64) -> nat {
    values.filter(|value: u64| value <= bound).len()
}

/// How many numbers are no less than `bound`.
pub open spec fn count_at_least(values: Seq<u64>, bound: u64) -> nat {
    values.filter(|value: u64| bound <= value).len()
}

/// A filter that every item passes keeps the list.
pub proof fn lemma_filter_all<A>(items: Seq<A>, keeps: spec_fn(A) -> bool)
    requires
        forall|i: int| 0 <= i < items.len() ==> keeps(#[trigger] items[i]),
    ensures
        items.filter(keeps) == items,
    decreases items.len(),
{
    reveal(Seq::filter);
    if items.len() > 0 {
        assert forall|i: int| 0 <= i < items.drop_last().len() implies keeps(
            #[trigger] items.drop_last()[i],
        ) by {
            assert(keeps(items[i]));
        }
        lemma_filter_all(items.drop_last(), keeps);
        assert(keeps(items[items.len() - 1]));
        assert(items =~= items.drop_last().push(items.last()));
    }
}

/// A filter that no item passes leaves nothing.
pub proof fn lemma_filter_none<A>(items: Seq<A>, keeps: spec_fn(A) -> bool)
    requires
        forall|i: int| 0 <= i < items.len() ==> !keeps(#[trigger] items[i]),
    ensures
        items.filter(keeps).len() == 0,
    decreases items.len(),
{
    reveal(Seq::filter);
    if items.len() > 0 {
        assert forall|i: int| 0 <= i < items.drop_last().len() implies !keeps(
            #[trigger] items.drop_last()[i],
        ) by {
            assert(!keeps(items[i]));
        }
        lemma_filter_none(items.drop_last(), keeps);
        assert(!keeps(items[items.len() - 1]));
    }
}

proof fn lemma_filter_remove<A>(items: Seq<A>, keeps: spec_fn(A) -> bool, place: int)
    requires
        0 <= place < items.len(),
    ensures
        items.filter(keeps).len() == items.remove(place).filter(keeps).len() + if keeps(
            items[place],
        ) {
            1int
        } else {
            0int
        },
{
    let front = items.take(place);
    let one = seq![items[place]];
    let back = items.skip(place + 1);
    assert(items =~= front + one + back);
    assert(items.remove(place) =~= front + back);
    Seq::filter_distributes_over_add(front + one, back, keeps);
    Seq::filter_distributes_over_add(front, one, keeps);
    Seq::filter_distributes_over_add(front, back, keeps);
    reveal_with_fuel(Seq::filter, 2);
    assert(one.drop_last() =~= Seq::empty());
    assert(one.last() == items[place]);
}

/// How many items pass a filter does not depend on their order.
pub proof fn lemma_filter_ignores_order<A>(
    left: Seq<A>,
    right: Seq<A>,
    keeps: spec_fn(A) -> bool,
)
    requires
        left.to_multiset() == right.to_multiset(),
    ensures
        left.filter(keeps).len() == right.filter(keeps).len(),
    decreases left.len(),
{
    broadcast use vstd::seq_lib::group_to_multiset_ensures;

    left.to_multiset_ensures();
    right.to_multiset_ensures();
    if left.len() == 0 {
        assert(left =~= right);
    } else {
        let last = left.len() - 1;
        let item = left[last];
        assert(left.contains(item));
        assert(right.to_multiset().count(item) > 0);
        assert(right.contains(item));
        let place = choose|i: int| 0 <= i < right.len() && right[i] == item;
        lemma_filter_remove(left, keeps, last);
        lemma_filter_remove(right, keeps, place);
        lemma_filter_ignores_order(left.remove(last), right.remove(place), keeps);
    }
}

/// The number at `place` of the increasing list is one of the numbers, with more than `place`
/// numbers no greater than it, and at least as many no less as stand from there on.
pub proof fn lemma_order_statistic(values: Seq<u64>, place: int)
    requires
        0 <= place < values.len(),
    ensures
        values.contains(increasing(values)[place]),
        count_at_most(values, increasing(values)[place]) >= place + 1,
        count_at_least(values, increasing(values)[place]) >= values.len() - place,
{
    broadcast use vstd::seq_lib::group_to_multiset_ensures;

    lemma_increasing(values);
    let sorted = increasing(values);
    let found = sorted[place];
    assert(sorted.contains(found));
    assert(values.to_multiset().count(found) > 0);
    let below = |value: u64| value <= found;
    let above = |value: u64| found <= value;
    lemma_filter_ignores_order(sorted, values, below);
    lemma_filter_ignores_order(sorted, values, above);
    assert(sorted =~= sorted.take(place + 1) + sorted.skip(place + 1));
    Seq::filter_distributes_over_add(sorted.take(place + 1), sorted.skip(place + 1), below);
    lemma_filter_all(sorted.take(place + 1), below);
    assert(sorted =~= sorted.take(place) + sorted.skip(place));
    Seq::filter_distributes_over_add(sorted.take(place), sorted.skip(place), above);
    lemma_filter_all(sorted.skip(place), above);
    assert(count_at_most(values, found) == values.filter(below).len());
    assert(count_at_least(values, found) == values.filter(above).len());
}

/// Only one number has that many numbers below and above it.
pub proof fn lemma_order_statistic_is_unique(values: Seq<u64>, place: int, found: u64)
    requires
        0 <= place < values.len(),
        count_at_most(values, found) >= place + 1,
        count_at_least(values, found) >= values.len() - place,
    ensures
        found == increasing(values)[place],
{
    lemma_increasing(values);
    let sorted = increasing(values);
    let below = |value: u64| value <= found;
    let above = |value: u64| found <= value;
    lemma_filter_ignores_order(sorted, values, below);
    lemma_filter_ignores_order(sorted, values, above);
    assert(count_at_most(values, found) == values.filter(below).len());
    assert(count_at_least(values, found) == values.filter(above).len());
    if found < sorted[place] {
        assert(sorted =~= sorted.take(place) + sorted.skip(place));
        Seq::filter_distributes_over_add(sorted.take(place), sorted.skip(place), below);
        sorted.take(place).lemma_filter_len(below);
        assert forall|i: int| 0 <= i < sorted.skip(place).len() implies !below(
            #[trigger] sorted.skip(place)[i],
        ) by {
            assert(sorted[place] <= sorted[place + i]);
        }
        lemma_filter_none(sorted.skip(place), below);
    } else if sorted[place] < found {
        let next = place + 1;
        assert(sorted =~= sorted.take(next) + sorted.skip(next));
        Seq::filter_distributes_over_add(sorted.take(next), sorted.skip(next), above);
        sorted.skip(next).lemma_filter_len(above);
        assert forall|i: int| 0 <= i < sorted.take(next).len() implies !above(
            #[trigger] sorted.take(next)[i],
        ) by {
            assert(sorted[i] <= sorted[place]);
        }
        lemma_filter_none(sorted.take(next), above);
    }
}

/// Sorts numbers into increasing order.
pub fn sort_numbers(values: &Vec<u64>) -> (sorted: Vec<u64>)
    ensures
        sorted@ == increasing(values@),
{
    let order = stable_order(values);
    let mut sorted: Vec<u64> = Vec::new();
    let mut index: usize = 0;
    while index < order.len()
        invariant
            index <= order@.len(),
            is_stable_order(values@, order@),
            sorted@ =~= picked(values@, order@.take(index as int)),
        decreases order@.len() - index,
    {
        sorted.push(values[order[index]]);
        index = index + 1;
    }
    proof {
        assert(order@.take(index as int) =~= order@);
        lemma_picked_multiset(values@, order@);
        lemma_increasing(values@);
        assert forall|i: int, j: int| 0 <= i <= j < sorted@.len() implies #[trigger] sorted@[i]
            <= #[trigger] sorted@[j] by {
            if i < j {
                assert(sorts_before(values@, order@[i] as int, order@[j] as int));
            }
        }
        lemma_sorted_lists_agree(sorted@, increasing(values@));
    }
    sorted
}

/// Whether the key at `first` sorts before the key at `second`; ties keep their places.
pub open spec fn key_before(keys: Seq<Seq<u8>>, first: int, second: int) -> bool {
    &&& bytes_le(keys[first], keys[second])
    &&& bytes_le(keys[second], keys[first]) ==> first < second
}

/// Whether `order` lists every place of `keys` once, in the stable byte order.
pub open spec fn is_byte_order(keys: Seq<Seq<u8>>, order: Seq<usize>) -> bool {
    &&& order.len() == keys.len()
    &&& forall|i: int| 0 <= i < order.len() ==> 0 <= #[trigger] order[i] < keys.len()
    &&& forall|i: int, j: int|
        0 <= i < j < order.len() ==> #[trigger] order[i] != #[trigger] order[j]
    &&& forall|i: int, j: int|
        0 <= i < j < order.len() ==> key_before(
            keys,
            #[trigger] order[i] as int,
            #[trigger] order[j] as int,
        )
}

/// The places of `keys` in the stable byte order.
pub open spec fn byte_order(keys: Seq<Seq<u8>>) -> Seq<usize> {
    choose|order: Seq<usize>| is_byte_order(keys, order)
}

/// There is only one stable byte order.
pub proof fn lemma_byte_order_unique(keys: Seq<Seq<u8>>, order: Seq<usize>)
    requires
        is_byte_order(keys, order),
    ensures
        order == byte_order(keys),
{
    let other = byte_order(keys);
    assert(is_byte_order(keys, other));
    assert forall|k: int| 0 <= k < order.len() implies order[k] == other[k] by {
        lemma_byte_orders_agree(keys, order, other, k);
    }
    assert(order =~= other);
}

proof fn lemma_byte_orders_agree(
    keys: Seq<Seq<u8>>,
    left: Seq<usize>,
    right: Seq<usize>,
    place: int,
)
    requires
        is_byte_order(keys, left),
        is_byte_order(keys, right),
        0 <= place < left.len(),
    ensures
        left[place] == right[place],
    decreases place,
{
    assert forall|k: int| 0 <= k < place implies left[k] == right[k] by {
        lemma_byte_orders_agree(keys, left, right, k);
    }
    if left[place] != right[place] {
        let a = left[place] as int;
        let b = right[place] as int;
        lemma_covers(right, keys.len() as int, a);
        lemma_covers(left, keys.len() as int, b);
        let i = choose|i: int| 0 <= i < right.len() && #[trigger] right[i] == a;
        let j = choose|j: int| 0 <= j < left.len() && #[trigger] left[j] == b;
        if i < place {
            assert(left[i] == left[place]);
        }
        if j < place {
            assert(right[j] == right[place]);
        }
        assert(key_before(keys, b, a));
        assert(key_before(keys, a, b));
    }
}

/// Sorts byte strings by merging and returns their places in the stable byte order.
pub fn order_keys(keys: &Vec<Vec<u8>>) -> (order: Vec<usize>)
    ensures
        order@ == byte_order(byte_strings(keys@)),
        is_byte_order(byte_strings(keys@), order@),
{
    let order = stable_order(keys);
    proof {
        let views = byte_strings(keys@);
        assert forall|i: int, j: int| 0 <= i < j < order@.len() implies key_before(
            views,
            #[trigger] order@[i] as int,
            #[trigger] order@[j] as int,
        ) by {
            assert(sorts_before(keys@, order@[i] as int, order@[j] as int));
            assert(views[order@[i] as int] == keys@[order@[i] as int]@);
            assert(views[order@[j] as int] == keys@[order@[j] as int]@);
        }
        lemma_byte_order_unique(views, order@);
    }
    order
}

/// Byte strings in increasing order.
pub open spec fn sorted_bytes(keys: Seq<Seq<u8>>) -> Seq<Seq<u8>> {
    picked(keys, byte_order(keys))
}

/// Puts items in the order of their places.
pub fn arrange<T>(items: Vec<T>, order: &Vec<usize>) -> (arranged: Vec<T>)
    requires
        order@.len() == items@.len(),
        forall|i: int| 0 <= i < order@.len() ==> 0 <= #[trigger] order@[i] < items@.len(),
        forall|i: int, j: int|
            0 <= i < j < order@.len() ==> #[trigger] order@[i] != #[trigger] order@[j],
    ensures
        arranged@ == picked(items@, order@),
{
    let ghost all = items@;
    let total: usize = items.len();
    let mut left = items;
    // The slots hold the items back to front.
    let mut slots: Vec<Option<T>> = Vec::new();
    while left.len() > 0
        invariant
            total == all.len(),
            left@ == all.take(left@.len() as int),
            left@.len() + slots@.len() == total,
            forall|i: int|
                0 <= i < slots@.len() ==> #[trigger] slots@[i] == Some(all[total - 1 - i]),
        decreases left@.len(),
    {
        let ghost count = left@.len();
        let item = left.pop();
        slots.push(item);
        assert(left@ =~= all.take(count - 1));
    }
    let mut arranged: Vec<T> = Vec::new();
    let mut index: usize = 0;
    while index < order.len()
        invariant
            index <= order@.len() == total == all.len() == slots@.len(),
            forall|i: int| 0 <= i < order@.len() ==> 0 <= #[trigger] order@[i] < total,
            forall|i: int, j: int|
                0 <= i < j < order@.len() ==> #[trigger] order@[i] != #[trigger] order@[j],
            arranged@ =~= picked(all, order@.take(index as int)),
            forall|k: int|
                index <= k < order@.len() ==> slots@[total - 1 - #[trigger] order@[k]] == Some(
                    all[order@[k] as int],
                ),
        decreases order@.len() - index,
    {
        let place: usize = total - 1 - order[index];
        let ghost before = slots@;
        let taken = slots[place].take();
        match taken {
            Some(item) => {
                arranged.push(item);
            },
            None => {
                assert(false);
            },
        }
        proof {
            assert forall|k: int| index < k < order@.len() implies slots@[total - 1
                - #[trigger] order@[k]] == Some(all[order@[k] as int]) by {
                assert(order@[index as int] != order@[k]);
                assert(slots@[total - 1 - order@[k]] == before[total - 1 - order@[k]]);
            }
        }
        index = index + 1;
    }
    assert(order@.take(index as int) =~= order@);
    arranged
}

/// Places `place` among the places of `order`, which are in the stable byte order.
proof fn lemma_insert_place(keys: Seq<Seq<u8>>, order: Seq<usize>, place: usize) -> (longer: Seq<
    usize,
>)
    requires
        keys.len() == order.len() + 1,
        place == order.len(),
        is_byte_order(keys.drop_last(), order),
    ensures
        is_byte_order(keys, longer),
{
    let shorter = keys.drop_last();
    let at = lemma_insertion_point(keys, order, place, 0);
    let longer = order.insert(at, place);
    assert forall|i: int, j: int| 0 <= i < j < longer.len() implies #[trigger] longer[i]
        != #[trigger] longer[j] && key_before(keys, longer[i] as int, longer[j] as int) by {
        let a = if i < at {
            i
        } else {
            i - 1
        };
        let b = if j < at {
            j
        } else {
            j - 1
        };
        if i != at {
            assert(longer[i] == order[a]);
        }
        if j != at {
            assert(longer[j] == order[b]);
        }
        if i != at && j != at {
            assert(key_before(shorter, order[a] as int, order[b] as int));
        }
    }
    assert forall|i: int| 0 <= i < longer.len() implies 0 <= #[trigger] longer[i] < keys.len() by {
        if i < at {
            assert(longer[i] == order[i]);
        } else if i > at {
            assert(longer[i] == order[i - 1]);
        }
    }
    longer
}

proof fn lemma_insertion_point(
    keys: Seq<Seq<u8>>,
    order: Seq<usize>,
    place: usize,
    from: int,
) -> (at: int)
    requires
        keys.len() == order.len() + 1,
        place == order.len(),
        0 <= from <= order.len(),
        is_byte_order(keys.drop_last(), order),
        forall|i: int| 0 <= i < from ==> bytes_le(keys[#[trigger] order[i] as int], keys[place as int]),
    ensures
        0 <= at <= order.len(),
        forall|i: int| 0 <= i < at ==> key_before(keys, #[trigger] order[i] as int, place as int),
        forall|i: int|
            at <= i < order.len() ==> key_before(keys, place as int, #[trigger] order[i] as int),
    decreases order.len() - from,
{
    let shorter = keys.drop_last();
    if from == order.len() {
        from
    } else if bytes_le(keys[order[from] as int], keys[place as int]) {
        lemma_insertion_point(keys, order, place, from + 1)
    } else {
        assert forall|i: int| from <= i < order.len() implies key_before(
            keys,
            place as int,
            #[trigger] order[i] as int,
        ) by {
            let low = keys[order[from] as int];
            let high = keys[order[i] as int];
            lemma_bytes_total(low, keys[place as int]);
            if i > from {
                assert(key_before(shorter, order[from] as int, order[i] as int));
                assert(shorter[order[from] as int] == low);
                assert(shorter[order[i] as int] == high);
                lemma_bytes_transitive(keys[place as int], low, high);
                if bytes_le(high, keys[place as int]) {
                    lemma_bytes_transitive(low, high, keys[place as int]);
                }
            }
        }
        from
    }
}

/// Every list of keys has a stable byte order.
pub proof fn lemma_byte_order_exists(keys: Seq<Seq<u8>>)
    requires
        keys.len() <= usize::MAX,
    ensures
        is_byte_order(keys, byte_order(keys)),
    decreases keys.len(),
{
    if keys.len() == 0 {
        assert(is_byte_order(keys, Seq::empty()));
    } else {
        lemma_byte_order_exists(keys.drop_last());
        let order = byte_order(keys.drop_last());
        let longer = lemma_insert_place(keys, order, (keys.len() - 1) as usize);
        assert(is_byte_order(keys, longer));
    }
}

} // verus!
