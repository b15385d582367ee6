//! Unix paths as byte strings: components, joining, and containment.

use vstd::prelude::*;
use vstd::slice::slice_to_vec;

use crate::order::bytes_le;
use crate::text::{optional_bytes, same_bytes};

verus! {

/// The separator `/`.
pub const SEPARATOR: u8 = 47;

/// The letter `.`.
pub const DOT: u8 = 46;

/// Whether a path starts at the root.
pub open spec fn is_absolute_path(path: Seq<u8>) -> bool {
    path.len() > 0 && path[0] == SEPARATOR
}

/// The end of the run of letters other than `/` that starts at `from`.
pub open spec fn segment_end(path: Seq<u8>, from: int) -> int
    decreases path.len() - from,
{
    if from < 0 || from >= path.len() || path[from] == SEPARATOR {
        from
    } else {
        segment_end(path, from + 1)
    }
}

/// Where the components at or after `from` lie. A `.` counts only at the start of a relative path.
pub open spec fn spans_from(path: Seq<u8>, from: int) -> Seq<(int, int)>
    decreases path.len() - from,
    when 0 <= from
    via spans_from_shrinks
{
    if from >= path.len() {
        Seq::empty()
    } else if path[from] == SEPARATOR {
        spans_from(path, from + 1)
    } else {
        let end = segment_end(path, from);
        if from != 0 && end == from + 1 && path[from] == DOT {
            spans_from(path, end)
        } else {
            seq![(from, end)] + spans_from(path, end)
        }
    }
}

#[via_fn]
proof fn spans_from_shrinks(path: Seq<u8>, from: int) {
    lemma_segment_end(path, from);
    if from < path.len() && path[from] != SEPARATOR {
        lemma_segment_end(path, from + 1);
    }
}

/// Where the components of a path lie; the root counts as the component `/`.
pub open spec fn spans(path: Seq<u8>) -> Seq<(int, int)> {
    if is_absolute_path(path) {
        seq![(0int, 1int)] + spans_from(path, 1)
    } else {
        spans_from(path, 0)
    }
}

/// The components of a path, in order.
pub open spec fn parts(path: Seq<u8>) -> Seq<Seq<u8>> {
    spans(path).map_values(|span: (int, int)| path.subrange(span.0, span.1))
}

/// Whether `path` is `base` or lies below it, component by component.
pub open spec fn lies_within(path: Seq<u8>, base: Seq<u8>) -> bool {
    parts(base).is_prefix_of(parts(path))
}

/// The path that `tail` names when it is resolved against `base`.
pub open spec fn join_path(base: Seq<u8>, tail: Seq<u8>) -> Seq<u8> {
    if is_absolute_path(tail) {
        tail
    } else if base.len() == 0 || base.last() == SEPARATOR {
        base + tail
    } else {
        base.push(SEPARATOR) + tail
    }
}

/// The path without its last component; none for the root and for the empty path.
pub open spec fn parent_path(path: Seq<u8>) -> Option<Seq<u8>> {
    let found = spans(path);
    if found.len() == 0 || (found.len() == 1 && is_absolute_path(path)) {
        None
    } else if found.len() == 1 {
        Some(Seq::empty())
    } else {
        Some(path.subrange(0, found[found.len() - 2].1))
    }
}

/// The last component, when it is a plain name.
pub open spec fn file_name_of(path: Seq<u8>) -> Option<Seq<u8>> {
    let found = parts(path);
    if found.len() == 0 || found.last() == seq![SEPARATOR] || found.last() == seq![DOT]
        || found.last() == seq![DOT, DOT] {
        None
    } else {
        Some(found.last())
    }
}

/// What follows `base` in `path`, when `path` lies within `base`.
pub open spec fn path_below(path: Seq<u8>, base: Seq<u8>) -> Option<Seq<u8>> {
    let skipped = spans(base).len() as int;
    let found = spans(path);
    if !lies_within(path, base) {
        None
    } else if skipped == found.len() {
        Some(Seq::empty())
    } else {
        Some(path.subrange(found[skipped].0, found.last().1))
    }
}

/// Whether a byte string is one plain component: not empty, no `/`, neither `.` nor `..`.
pub open spec fn is_plain_name(name: Seq<u8>) -> bool {
    &&& name.len() > 0
    &&& !name.contains(SEPARATOR)
    &&& name != seq![DOT]
    &&& name != seq![DOT, DOT]
}

pub proof fn lemma_segment_end(path: Seq<u8>, from: int)
    requires
        0 <= from,
    ensures
        from <= segment_end(path, from),
        from <= path.len() ==> segment_end(path, from) <= path.len(),
        forall|i: int| from <= i < segment_end(path, from) ==> path[i] != SEPARATOR,
        segment_end(path, from) < path.len() ==> path[segment_end(path, from)] == SEPARATOR,
    decreases path.len() - from,
{
    if from < path.len() && path[from] != SEPARATOR {
        lemma_segment_end(path, from + 1);
    }
}

proof fn lemma_spans_from(path: Seq<u8>, from: int)
    requires
        0 <= from,
    ensures
        forall|i: int|
            #![trigger spans_from(path, from)[i]]
            0 <= i < spans_from(path, from).len() ==> from <= spans_from(path, from)[i].0
                < spans_from(path, from)[i].1 <= path.len(),
        forall|i: int, j: int|
            #![trigger spans_from(path, from)[i], spans_from(path, from)[j]]
            0 <= i < j < spans_from(path, from).len() ==> spans_from(path, from)[i].1
                <= spans_from(path, from)[j].0,
    decreases path.len() - from,
{
    if from >= path.len() {
        assert(spans_from(path, from).len() == 0);
    } else if path[from] == SEPARATOR {
        lemma_spans_from(path, from + 1);
        assert(spans_from(path, from) == spans_from(path, from + 1));
    } else {
        lemma_segment_end(path, from);
        lemma_segment_end(path, from + 1);
        let end = segment_end(path, from);
        lemma_spans_from(path, end);
        let rest = spans_from(path, end);
        let whole = spans_from(path, from);
        if from != 0 && end == from + 1 && path[from] == DOT {
            assert(whole == rest);
        } else {
            assert(whole == seq![(from, end)] + rest);
            assert forall|i: int|
                #![trigger whole[i]]
                0 <= i < whole.len() implies from <= whole[i].0 < whole[i].1 <= path.len() by {
                if i > 0 {
                    assert(whole[i] == rest[i - 1]);
                }
            }
            assert forall|i: int, j: int|
                #![trigger whole[i], whole[j]]
                0 <= i < j < whole.len() implies whole[i].1 <= whole[j].0 by {
                assert(whole[j] == rest[j - 1]);
                if i > 0 {
                    assert(whole[i] == rest[i - 1]);
                }
            }
        }
    }
}

/// Every component lies inside its path, and the components follow one another.
pub proof fn lemma_spans(path: Seq<u8>)
    ensures
        forall|i: int|
            #![trigger spans(path)[i]]
            0 <= i < spans(path).len() ==> 0 <= spans(path)[i].0 < spans(path)[i].1 <= path.len(),
        forall|i: int, j: int|
            #![trigger spans(path)[i], spans(path)[j]]
            0 <= i < j < spans(path).len() ==> spans(path)[i].1 <= spans(path)[j].0,
{
    if is_absolute_path(path) {
        lemma_spans_from(path, 1);
    } else {
        lemma_spans_from(path, 0);
    }
}

/// A path is read in two halves where its front ends at a separator: the components of the front,
/// and those behind it.
proof fn lemma_joined_spans(base: Seq<u8>, whole: Seq<u8>, start: int, from: int)
    requires
        0 <= from <= start <= whole.len(),
        base.len() <= start,
        base =~= whole.subrange(0, base.len() as int),
        forall|i: int| base.len() <= i < start ==> whole[i] == SEPARATOR,
        start == base.len() ==> base.len() == 0 || base.last() == SEPARATOR,
    ensures
        spans_from(whole, from) == spans_from(base, from) + spans_from(whole, start),
    decreases start - from,
{
    if from == start {
        assert(spans_from(base, from) =~= Seq::empty());
        assert(spans_from(whole, from) =~= spans_from(base, from) + spans_from(whole, start));
    } else if from >= base.len() {
        lemma_joined_spans(base, whole, start, from + 1);
        assert(whole[from] == SEPARATOR);
        assert(spans_from(base, from) =~= Seq::empty());
        assert(spans_from(base, from + 1) =~= Seq::empty());
    } else if base[from] == SEPARATOR {
        lemma_joined_spans(base, whole, start, from + 1);
        assert(whole[from] == SEPARATOR);
    } else {
        assert(whole[from] == base[from]);
        lemma_same_segment(base, whole, start, from);
        lemma_segment_end(base, from);
        lemma_segment_end(base, from + 1);
        let end = segment_end(base, from);
        lemma_joined_spans(base, whole, start, end);
        if from != 0 && end == from + 1 && base[from] == DOT {
        } else {
            assert(spans_from(whole, from) =~= spans_from(base, from) + spans_from(whole, start));
        }
    }
}

proof fn lemma_same_segment(base: Seq<u8>, whole: Seq<u8>, start: int, from: int)
    requires
        0 <= from < base.len(),
        base.len() <= start <= whole.len(),
        base =~= whole.subrange(0, base.len() as int),
        forall|i: int| base.len() <= i < start ==> whole[i] == SEPARATOR,
        start == base.len() ==> base.len() == 0 || base.last() == SEPARATOR,
    ensures
        segment_end(whole, from) == segment_end(base, from),
    decreases base.len() - from,
{
    assert(whole[from] == base[from]);
    if base[from] != SEPARATOR {
        if from + 1 < base.len() {
            lemma_same_segment(base, whole, start, from + 1);
        } else {
            assert(base.last() == base[from]);
            assert(whole[base.len() as int] == SEPARATOR);
            assert(segment_end(whole, from + 1) == from + 1);
            assert(segment_end(base, from + 1) == from + 1);
        }
    }
}

/// Joining a plain name adds that one component: the result lies inside the base.
pub proof fn law_joined_names_stay_inside(base: Seq<u8>, name: Seq<u8>)
    requires
        is_plain_name(name),
    ensures
        parts(join_path(base, name)) == parts(base).push(name),
        lies_within(join_path(base, name), base),
{
    let whole = join_path(base, name);
    assert(!is_absolute_path(name)) by {
        if is_absolute_path(name) {
            assert(name.contains(name[0]));
        }
    }
    let start = whole.len() - name.len();
    assert(whole.subrange(start, whole.len() as int) =~= name);
    assert forall|i: int| start <= i < whole.len() implies whole[i] != SEPARATOR by {
        assert(whole[i] == name[i - start]);
        assert(name.contains(name[i - start]));
    }
    if whole.len() == start + 1 && whole[start] == DOT {
        assert(name =~= seq![DOT]);
    }
    let first = if is_absolute_path(base) {
        1int
    } else {
        0int
    };
    assert(is_absolute_path(whole) == is_absolute_path(base));
    lemma_joined_spans(base, whole, start, first);
    lemma_segment_end(whole, start);
    assert(segment_end(whole, start) == whole.len());
    assert(spans_from(whole, whole.len() as int) =~= Seq::empty());
    assert(spans_from(whole, start) =~= seq![(start, whole.len() as int)]);
    lemma_spans(base);
    assert(spans(whole) =~= spans(base).push((start, whole.len() as int)));
    let left = parts(whole);
    let right = parts(base).push(name);
    assert(left.len() == right.len());
    assert forall|i: int| 0 <= i < left.len() implies left[i] == right[i] by {
        if i < spans(base).len() {
            let span = spans(base)[i];
            assert(spans(whole)[i] == span);
            assert(whole.subrange(span.0, span.1) =~= base.subrange(span.0, span.1));
        }
    }
    assert(left =~= right);
}

/// The components that a relative path adds to those of the directory that it is resolved
/// against.
pub open spec fn parts_below(tail: Seq<u8>) -> Seq<Seq<u8>> {
    parts(seq![SEPARATOR] + tail).skip(1)
}

spec fn parts_from(path: Seq<u8>, from: int) -> Seq<Seq<u8>> {
    spans_from(path, from).map_values(|span: (int, int)| path.subrange(span.0, span.1))
}

proof fn lemma_moved_segment(left: Seq<u8>, right: Seq<u8>, from: int, shift: int)
    requires
        0 <= from,
        0 <= from + shift,
        left.len() + shift == right.len(),
        forall|i: int| from <= i < left.len() ==> #[trigger] left[i] == right[i + shift],
    ensures
        segment_end(right, from + shift) == segment_end(left, from) + shift,
    decreases left.len() - from,
{
    if from < left.len() {
        assert(left[from] == right[from + shift]);
        if left[from] != SEPARATOR {
            lemma_moved_segment(left, right, from + 1, shift);
        }
    }
}

proof fn lemma_moved_parts(left: Seq<u8>, right: Seq<u8>, from: int, shift: int)
    requires
        1 <= from,
        1 <= from + shift,
        left.len() + shift == right.len(),
        forall|i: int| from <= i < left.len() ==> #[trigger] left[i] == right[i + shift],
    ensures
        parts_from(right, from + shift) == parts_from(left, from),
    decreases left.len() - from,
{
    let a = parts_from(left, from);
    let b = parts_from(right, from + shift);
    if from >= left.len() {
        assert(a =~= b);
    } else if left[from] == SEPARATOR {
        assert(left[from] == right[from + shift]);
        lemma_moved_parts(left, right, from + 1, shift);
    } else {
        assert(left[from] == right[from + shift]);
        lemma_moved_segment(left, right, from, shift);
        lemma_segment_end(left, from);
        lemma_segment_end(left, from + 1);
        let end = segment_end(left, from);
        lemma_moved_parts(left, right, end, shift);
        if end == from + 1 && left[from] == DOT {
        } else {
            let first = left.subrange(from, end);
            assert(right.subrange(from + shift, end + shift) =~= first);
            assert(a =~= seq![first] + parts_from(left, end));
            assert(b =~= seq![first] + parts_from(right, end + shift));
        }
    }
}

/// Joining a relative path to a base adds components to those of the base, and which ones does not
/// depend on the base: the result lies inside the base.
pub proof fn law_joined_paths_extend_their_base(base: Seq<u8>, tail: Seq<u8>)
    requires
        base.len() > 0,
        !is_absolute_path(tail),
    ensures
        parts(join_path(base, tail)) == parts(base) + parts_below(tail),
        lies_within(join_path(base, tail), base),
{
    let whole = join_path(base, tail);
    let start = whole.len() - tail.len();
    let first = if is_absolute_path(base) {
        1int
    } else {
        0int
    };
    assert(whole[0] == base[0]);
    lemma_joined_spans(base, whole, start, first);
    lemma_spans(base);
    assert(spans(whole) =~= spans(base) + spans_from(whole, start));
    let rooted = seq![SEPARATOR] + tail;
    lemma_moved_parts(rooted, whole, 1, start - 1);
    assert(parts_below(tail) =~= parts_from(rooted, 1));
    let left = parts(whole);
    let right = parts(base) + parts_from(whole, start);
    assert(left.len() == right.len());
    assert forall|i: int| 0 <= i < left.len() implies left[i] == right[i] by {
        if i < spans(base).len() {
            let span = spans(base)[i];
            assert(spans(whole)[i] == span);
            assert(whole.subrange(span.0, span.1) =~= base.subrange(span.0, span.1));
        }
    }
    assert(left =~= right);
}

fn find_segment_end(path: &[u8], from: usize) -> (end: usize)
    requires
        from <= path@.len(),
    ensures
        end == segment_end(path@, from as int),
        from <= end <= path@.len(),
{
    let mut end: usize = from;
    while end < path.len() && path[end] != SEPARATOR
        invariant
            from <= end <= path@.len(),
            segment_end(path@, from as int) == segment_end(path@, end as int),
        decreases path@.len() - end,
    {
        end = end + 1;
    }
    end
}

/// The number pair at each place of a list of spans.
pub open spec fn spans_agree(found: Seq<(usize, usize)>, expected: Seq<(int, int)>) -> bool {
    &&& found.len() == expected.len()
    &&& forall|i: int|
        #![trigger found[i]]
        0 <= i < found.len() ==> found[i].0 == expected[i].0 && found[i].1 == expected[i].1
}

/// Finds the components of a path.
pub fn find_spans(path: &[u8]) -> (found: Vec<(usize, usize)>)
    ensures
        spans_agree(found@, spans(path@)),
{
    let mut found: Vec<(usize, usize)> = Vec::new();
    let mut index: usize = 0;
    if path.len() > 0 && path[0] == SEPARATOR {
        found.push((0, 1));
        index = 1;
    }
    while index < path.len()
        invariant
            index <= path@.len(),
            spans(path@).len() == found@.len() + spans_from(path@, index as int).len(),
            forall|i: int|
                #![trigger found@[i]]
                0 <= i < found@.len() ==> found@[i].0 == spans(path@)[i].0 && found@[i].1 == spans(
                    path@,
                )[i].1,
            forall|i: int|
                #![trigger spans_from(path@, index as int)[i]]
                0 <= i < spans_from(path@, index as int).len() ==> spans_from(
                    path@,
                    index as int,
                )[i] == spans(path@)[found@.len() + i],
        decreases path@.len() - index,
    {
        let ghost rest = spans_from(path@, index as int);
        if path[index] == SEPARATOR {
            proof {
                assert(rest == spans_from(path@, index + 1));
            }
            index = index + 1;
        } else {
            let end = find_segment_end(path, index);
            proof {
                lemma_segment_end(path@, index as int);
            }
            if index != 0 && end == index + 1 && path[index] == DOT {
                proof {
                    assert(rest == spans_from(path@, end as int));
                }
                index = end;
            } else {
                proof {
                    let later = spans_from(path@, end as int);
                    assert(rest == seq![(index as int, end as int)] + later);
                    assert(rest[0] == (index as int, end as int));
                    assert forall|i: int|
                        #![trigger later[i]]
                        0 <= i < later.len() implies later[i] == spans(path@)[found@.len() + 1
                        + i] by {
                        assert(later[i] == rest[i + 1]);
                    }
                }
                found.push((index, end));
                index = end;
            }
        }
    }
    found
}

/// Whether a path starts at the root.
pub fn is_absolute(path: &[u8]) -> (absolute: bool)
    ensures
        absolute == is_absolute_path(path@),
{
    path.len() > 0 && path[0] == SEPARATOR
}

/// Resolves `tail` against `base`.
pub fn join(base: &[u8], tail: &[u8]) -> (joined: Vec<u8>)
    ensures
        joined@ == join_path(base@, tail@),
{
    if is_absolute(tail) {
        return slice_to_vec(tail);
    }
    let mut joined = slice_to_vec(base);
    if base.len() > 0 && base[base.len() - 1] != SEPARATOR {
        joined.push(SEPARATOR);
    }
    joined.extend_from_slice(tail);
    joined
}

/// Whether `path` lies within `base`.
pub fn starts_with(path: &[u8], base: &[u8]) -> (within: bool)
    ensures
        within == lies_within(path@, base@),
{
    let whole = find_spans(path);
    let start = find_spans(base);
    proof {
        lemma_spans(path@);
        lemma_spans(base@);
    }
    if start.len() > whole.len() {
        return false;
    }
    let mut index: usize = 0;
    while index < start.len()
        invariant
            index <= start@.len() <= whole@.len(),
            spans_agree(whole@, spans(path@)),
            spans_agree(start@, spans(base@)),
            forall|i: int| 0 <= i < index ==> parts(path@)[i] == #[trigger] parts(base@)[i],
            forall|i: int|
                #![trigger spans(path@)[i]]
                0 <= i < spans(path@).len() ==> 0 <= spans(path@)[i].0 < spans(path@)[i].1
                    <= path@.len(),
            forall|i: int|
                #![trigger spans(base@)[i]]
                0 <= i < spans(base@).len() ==> 0 <= spans(base@)[i].0 < spans(base@)[i].1
                    <= base@.len(),
        decreases start@.len() - index,
    {
        let (left_from, left_to) = whole[index];
        let (right_from, right_to) = start[index];
        assert(spans(path@)[index as int] == (left_from as int, left_to as int));
        assert(spans(base@)[index as int] == (right_from as int, right_to as int));
        if !same_bytes(&path[left_from..left_to], &base[right_from..right_to]) {
            assert(parts(path@)[index as int] != parts(base@)[index as int]);
            return false;
        }
        assert(parts(path@)[index as int] == parts(base@)[index as int]);
        index = index + 1;
    }
    assert(parts(base@) =~= parts(path@).subrange(0, parts(base@).len() as int));
    true
}

/// Whether two paths have the same components.
pub fn same_path(left: &[u8], right: &[u8]) -> (same: bool)
    ensures
        same == (parts(left@) == parts(right@)),
{
    let same = starts_with(left, right) && starts_with(right, left);
    proof {
        if same {
            assert(parts(left@) =~= parts(right@));
        }
    }
    same
}

/// The path without its last component.
pub fn parent(path: &[u8]) -> (found: Option<Vec<u8>>)
    ensures
        optional_bytes(found) == parent_path(path@),
{
    let places = find_spans(path);
    proof {
        lemma_spans(path@);
    }
    if places.len() == 0 || (places.len() == 1 && is_absolute(path)) {
        return None;
    }
    if places.len() == 1 {
        let empty: Vec<u8> = Vec::new();
        assert(empty@ =~= Seq::<u8>::empty());
        return Some(empty);
    }
    let end: usize = places[places.len() - 2].1;
    assert(spans(path@)[places@.len() - 2].1 == end);
    Some(slice_to_vec(&path[0..end]))
}

/// The last component, when it is a plain name.
pub fn file_name(path: &[u8]) -> (found: Option<Vec<u8>>)
    ensures
        optional_bytes(found) == file_name_of(path@),
{
    let places = find_spans(path);
    proof {
        lemma_spans(path@);
    }
    if places.len() == 0 {
        return None;
    }
    let (from, to) = places[places.len() - 1];
    assert(spans(path@).last() == (from as int, to as int));
    let name = slice_to_vec(&path[from..to]);
    assert(parts(path@).last() == name@);
    if name.len() == 1 && (name[0] == SEPARATOR || name[0] == DOT) {
        assert(name@ =~= seq![SEPARATOR] || name@ =~= seq![DOT]);
        return None;
    }
    if name.len() == 2 && name[0] == DOT && name[1] == DOT {
        assert(name@ =~= seq![DOT, DOT]);
        return None;
    }
    Some(name)
}

/// What follows `base` in `path`.
pub fn strip_prefix(path: &[u8], base: &[u8]) -> (found: Option<Vec<u8>>)
    ensures
        optional_bytes(found) == path_below(path@, base@),
{
    if !starts_with(path, base) {
        return None;
    }
    let whole = find_spans(path);
    let skipped: usize = find_spans(base).len();
    proof {
        lemma_spans(path@);
    }
    if skipped == whole.len() {
        let empty: Vec<u8> = Vec::new();
        assert(empty@ =~= Seq::<u8>::empty());
        return Some(empty);
    }
    assert(parts(base@).len() <= parts(path@).len());
    let from: usize = whole[skipped].0;
    let to: usize = whole[whole.len() - 1].1;
    assert(spans(path@)[skipped as int].0 == from);
    assert(spans(path@).last().1 == to);
    Some(slice_to_vec(&path[from..to]))
}

/// Where `byte` last stands in the first `count` bytes.
pub open spec fn last_place(value: Seq<u8>, byte: u8, count: int) -> Option<int>
    decreases count,
{
    if count <= 0 {
        None
    } else if value[count - 1] == byte {
        Some(count - 1)
    } else {
        last_place(value, byte, count - 1)
    }
}

/// What follows the last dot of the file name, when something stands before that dot.
pub open spec fn extension_of(path: Seq<u8>) -> Option<Seq<u8>> {
    match file_name_of(path) {
        None => None,
        Some(name) => match last_place(name, DOT, name.len() as int) {
            Some(place) => if place == 0 {
                None
            } else {
                Some(name.subrange(place + 1, name.len() as int))
            },
            None => None,
        },
    }
}

/// What follows the last dot of the file name, when something stands before that dot.
pub fn extension(path: &[u8]) -> (found: Option<Vec<u8>>)
    ensures
        optional_bytes(found) == extension_of(path@),
{
    let name = match file_name(path) {
        Some(name) => name,
        None => return None,
    };
    let mut count: usize = name.len();
    while count > 0
        invariant
            count <= name@.len(),
            last_place(name@, DOT, name@.len() as int) == last_place(name@, DOT, count as int),
            file_name_of(path@) == Some(name@),
        decreases count,
    {
        if name[count - 1] == DOT {
            if count == 1 {
                return None;
            }
            return Some(slice_to_vec(&name.as_slice()[count..name.len()]));
        }
        count = count - 1;
    }
    None
}

/// The rank of a component: the root comes first, then the current directory, then the parent
/// directory, then every name.
pub open spec fn part_rank(part: Seq<u8>) -> u8 {
    if part == seq![SEPARATOR] {
        0
    } else if part == seq![DOT] {
        1
    } else if part == seq![DOT, DOT] {
        2
    } else {
        3
    }
}

/// The first `count` bytes of a component, each behind a mark.
pub open spec fn marked_bytes(part: Seq<u8>, count: int) -> Seq<u8>
    decreases count,
{
    if count <= 0 {
        Seq::empty()
    } else {
        marked_bytes(part, count - 1) + seq![1u8, part[count - 1]]
    }
}

/// The first `count` components: each has its rank before it, and a zero byte, which is less than
/// any mark, behind it.
pub open spec fn ranked_parts(components: Seq<Seq<u8>>, count: int) -> Seq<u8>
    decreases count,
{
    if count <= 0 {
        Seq::empty()
    } else {
        let part = components[count - 1];
        ranked_parts(components, count - 1) + seq![part_rank(part)] + marked_bytes(
            part,
            part.len() as int,
        ) + seq![0u8]
    }
}

/// A key that orders paths: the byte order of the keys is the order of the components.
pub open spec fn component_key(path: Seq<u8>) -> Seq<u8> {
    ranked_parts(parts(path), parts(path).len() as int)
}

fn rank_part(part: &[u8]) -> (rank: u8)
    ensures
        rank == part_rank(part@),
{
    if part.len() == 1 {
        assert(part@ =~= seq![part@[0]]);
        if part[0] == SEPARATOR {
            return 0;
        }
        if part[0] == DOT {
            return 1;
        }
        assert(part@[0] != seq![SEPARATOR][0] && part@[0] != seq![DOT][0]);
        return 3;
    }
    if part.len() == 2 && part[0] == DOT && part[1] == DOT {
        assert(part@ =~= seq![DOT, DOT]);
        return 2;
    }
    proof {
        if part@.len() == 2 {
            assert(part@[0] != seq![DOT, DOT][0] || part@[1] != seq![DOT, DOT][1]);
        }
    }
    3
}

fn push_part(key: &mut Vec<u8>, part: &[u8])
    ensures
        final(key)@ == old(key)@ + seq![part_rank(part@)] + marked_bytes(
            part@,
            part@.len() as int,
        ) + seq![0u8],
{
    let ghost before = key@;
    key.push(rank_part(part));
    let mut index: usize = 0;
    assert(key@ =~= before + seq![part_rank(part@)] + marked_bytes(part@, 0));
    while index < part.len()
        invariant
            index <= part@.len(),
            key@ == before + seq![part_rank(part@)] + marked_bytes(part@, index as int),
        decreases part@.len() - index,
    {
        key.push(1);
        key.push(part[index]);
        index = index + 1;
        assert(key@ =~= before + seq![part_rank(part@)] + marked_bytes(part@, index as int));
    }
    key.push(0);
    assert(key@ =~= before + seq![part_rank(part@)] + marked_bytes(part@, part@.len() as int)
        + seq![0u8]);
}

/// The key that orders a path component by component.
pub fn path_key(path: &[u8]) -> (key: Vec<u8>)
    ensures
        key@ == component_key(path@),
{
    let places = find_spans(path);
    let mut key: Vec<u8> = Vec::new();
    let mut index: usize = 0;
    proof {
        lemma_spans(path@);
    }
    assert(key@ =~= Seq::<u8>::empty());
    while index < places.len()
        invariant
            index <= places@.len() == parts(path@).len(),
            spans_agree(places@, spans(path@)),
            forall|i: int|
                #![trigger spans(path@)[i]]
                0 <= i < spans(path@).len() ==> 0 <= spans(path@)[i].0 <= spans(path@)[i].1
                    <= path@.len(),
            key@ == ranked_parts(parts(path@), index as int),
        decreases places@.len() - index,
    {
        let (from, to): (usize, usize) = places[index];
        assert(spans(path@)[index as int] == (from as int, to as int));
        let part = slice_to_vec(&path[from..to]);
        assert(part@ == parts(path@)[index as int]);
        push_part(&mut key, part.as_slice());
        index = index + 1;
    }
    key
}

proof fn lemma_marked_front(part: Seq<u8>, count: int)
    requires
        0 < count <= part.len(),
    ensures
        marked_bytes(part, count) == seq![1u8, part[0]] + marked_bytes(
            part.drop_first(),
            count - 1,
        ),
    decreases count,
{
    reveal_with_fuel(marked_bytes, 2);
    if count > 1 {
        lemma_marked_front(part, count - 1);
        assert(part.drop_first()[count - 2] == part[count - 1]);
    }
    assert(marked_bytes(part, count) =~= seq![1u8, part[0]] + marked_bytes(
        part.drop_first(),
        count - 1,
    ));
}

/// What stands behind the rank of a component.
spec fn closed_part(part: Seq<u8>) -> Seq<u8> {
    marked_bytes(part, part.len() as int) + seq![0u8]
}

proof fn lemma_closed_front(part: Seq<u8>, rest: Seq<u8>)
    ensures
        part.len() == 0 ==> closed_part(part) + rest == seq![0u8] + rest,
        part.len() > 0 ==> closed_part(part) + rest == seq![1u8, part[0]] + (closed_part(
            part.drop_first(),
        ) + rest),
{
    if part.len() > 0 {
        lemma_marked_front(part, part.len() as int);
        assert(closed_part(part) + rest =~= seq![1u8, part[0]] + (closed_part(part.drop_first())
            + rest));
    } else {
        assert(closed_part(part) + rest =~= seq![0u8] + rest);
    }
}

proof fn lemma_bytes_behind(front: u8, left: Seq<u8>, right: Seq<u8>)
    ensures
        bytes_le(seq![front] + left, seq![front] + right) == bytes_le(left, right),
{
    assert((seq![front] + left).drop_first() =~= left);
    assert((seq![front] + right).drop_first() =~= right);
}

proof fn lemma_closed_parts_compare(
    left: Seq<u8>,
    right: Seq<u8>,
    left_rest: Seq<u8>,
    right_rest: Seq<u8>,
)
    ensures
        bytes_le(closed_part(left) + left_rest, closed_part(right) + right_rest) == if left
            == right {
            bytes_le(left_rest, right_rest)
        } else {
            bytes_le(left, right)
        },
    decreases left.len(),
{
    lemma_closed_front(left, left_rest);
    lemma_closed_front(right, right_rest);
    if left.len() == 0 && right.len() == 0 {
        assert(left =~= right);
        lemma_bytes_behind(0, left_rest, right_rest);
    } else if left.len() > 0 && right.len() > 0 {
        let left_tail = closed_part(left.drop_first()) + left_rest;
        let right_tail = closed_part(right.drop_first()) + right_rest;
        assert(seq![1u8, left[0]] + left_tail =~= seq![1u8] + (seq![left[0]] + left_tail));
        assert(seq![1u8, right[0]] + right_tail =~= seq![1u8] + (seq![right[0]] + right_tail));
        lemma_bytes_behind(1, seq![left[0]] + left_tail, seq![right[0]] + right_tail);
        if left[0] == right[0] {
            lemma_bytes_behind(left[0], left_tail, right_tail);
            lemma_closed_parts_compare(
                left.drop_first(),
                right.drop_first(),
                left_rest,
                right_rest,
            );
            assert(left =~= seq![left[0]] + left.drop_first());
            assert(right =~= seq![right[0]] + right.drop_first());
        } else {
            assert((seq![left[0]] + left_tail)[0] == left[0]);
            assert((seq![right[0]] + right_tail)[0] == right[0]);
        }
    } else if left.len() == 0 {
        assert((seq![0u8] + left_rest)[0] == 0);
        assert((closed_part(right) + right_rest)[0] == 1);
    } else {
        assert((seq![0u8] + right_rest)[0] == 0);
        assert((closed_part(left) + left_rest)[0] == 1);
    }
}

proof fn lemma_ranked_front(components: Seq<Seq<u8>>, count: int)
    requires
        0 < count <= components.len(),
    ensures
        ranked_parts(components, count) == seq![part_rank(components[0])] + (closed_part(
            components[0],
        ) + ranked_parts(components.drop_first(), count - 1)),
    decreases count,
{
    reveal_with_fuel(ranked_parts, 2);
    if count > 1 {
        lemma_ranked_front(components, count - 1);
        assert(components.drop_first()[count - 2] == components[count - 1]);
    }
    assert(ranked_parts(components, count) =~= seq![part_rank(components[0])] + (closed_part(
        components[0],
    ) + ranked_parts(components.drop_first(), count - 1)));
}

/// The order of components: by their ranks, then by their bytes, and by the next components
/// where they are the same.
pub open spec fn parts_le(left: Seq<Seq<u8>>, right: Seq<Seq<u8>>) -> bool
    decreases left.len(),
{
    if left.len() == 0 {
        true
    } else if right.len() == 0 {
        false
    } else if part_rank(left[0]) != part_rank(right[0]) {
        part_rank(left[0]) < part_rank(right[0])
    } else if left[0] != right[0] {
        bytes_le(left[0], right[0])
    } else {
        parts_le(left.drop_first(), right.drop_first())
    }
}

proof fn lemma_ranked_parts_compare(left: Seq<Seq<u8>>, right: Seq<Seq<u8>>)
    ensures
        bytes_le(
            ranked_parts(left, left.len() as int),
            ranked_parts(right, right.len() as int),
        ) == parts_le(left, right),
    decreases left.len(),
{
    if left.len() > 0 && right.len() > 0 {
        lemma_ranked_front(left, left.len() as int);
        lemma_ranked_front(right, right.len() as int);
        let left_rest = ranked_parts(left.drop_first(), left.len() - 1);
        let right_rest = ranked_parts(right.drop_first(), right.len() - 1);
        let left_tail = closed_part(left[0]) + left_rest;
        let right_tail = closed_part(right[0]) + right_rest;
        if part_rank(left[0]) == part_rank(right[0]) {
            lemma_bytes_behind(part_rank(left[0]), left_tail, right_tail);
            lemma_closed_parts_compare(left[0], right[0], left_rest, right_rest);
            lemma_ranked_parts_compare(left.drop_first(), right.drop_first());
        } else {
            assert((seq![part_rank(left[0])] + left_tail)[0] == part_rank(left[0]));
            assert((seq![part_rank(right[0])] + right_tail)[0] == part_rank(right[0]));
        }
    } else if left.len() > 0 {
        lemma_ranked_front(left, left.len() as int);
        assert(ranked_parts(left, left.len() as int).len() > 0);
        assert(ranked_parts(right, 0) =~= Seq::<u8>::empty());
    } else {
        assert(ranked_parts(left, 0) =~= Seq::<u8>::empty());
    }
}

/// The keys of paths are ordered as the components of the paths.
pub proof fn law_path_keys_order_components(left: Seq<u8>, right: Seq<u8>)
    ensures
        bytes_le(component_key(left), component_key(right)) == parts_le(
            parts(left),
            parts(right),
        ),
{
    lemma_ranked_parts_compare(parts(left), parts(right));
}

} // verus!
