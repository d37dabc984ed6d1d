//! Putting lists in order: lines by their text, values by the place they had
//! on the command line.

use vstd::prelude::*;
use vstd::string::*;
use crate::text::{chars_of, texts};

verus! {

/// `sorted` with `x` put behind the last element that is not above it.
pub open spec fn inserted<A>(sorted: Seq<A>, x: A, le: spec_fn(A, A) -> bool) -> Seq<A>
    decreases sorted.len(),
{
    if sorted.len() == 0 {
        seq![x]
    } else if le(sorted.last(), x) {
        sorted.push(x)
    } else {
        inserted(sorted.drop_last(), x, le).push(sorted.last())
    }
}

/// The elements of `v` in ascending order, equal ones in the order they had.
pub open spec fn stably_sorted<A>(v: Seq<A>, le: spec_fn(A, A) -> bool) -> Seq<A>
    decreases v.len(),
{
    if v.len() == 0 {
        Seq::empty()
    } else {
        inserted(stably_sorted(v.drop_last(), le), v.last(), le)
    }
}

/// Whether no element of `v` stands in front of one that it is above.
pub open spec fn ascending<A>(v: Seq<A>, le: spec_fn(A, A) -> bool) -> bool {
    forall|i: int, j: int| 0 <= i < j < v.len() ==> le(#[trigger] v[i], #[trigger] v[j])
}

/// Whether `le` compares any two elements, and in a way that carries over.
pub open spec fn is_total_order<A>(le: spec_fn(A, A) -> bool) -> bool {
    &&& forall|a: A, b: A| #[trigger] le(a, b) || #[trigger] le(b, a)
    &&& forall|a: A, b: A, c: A| #[trigger] le(a, b) && #[trigger] le(b, c) ==> le(a, c)
}

/// Inserting at index `at` is what [`inserted`] does, where everything from
/// `at` on is above `x` and what stands in front of `at` is not.
pub proof fn lemma_inserted_at<A>(sorted: Seq<A>, x: A, le: spec_fn(A, A) -> bool, at: int)
    requires
        0 <= at <= sorted.len(),
        forall|j: int| at <= j < sorted.len() ==> !le(#[trigger] sorted[j], x),
        at > 0 ==> le(sorted[at - 1], x),
    ensures
        inserted(sorted, x, le) == sorted.insert(at, x),
    decreases sorted.len() - at,
{
    if at < sorted.len() {
        let front = sorted.drop_last();
        lemma_inserted_at(front, x, le, at);
    }
}

/// Inserting keeps the order and adds exactly the element.
pub proof fn lemma_inserted<A>(sorted: Seq<A>, x: A, le: spec_fn(A, A) -> bool)
    requires
        is_total_order(le),
        ascending(sorted, le),
    ensures
        ascending(inserted(sorted, x, le), le),
        inserted(sorted, x, le).to_multiset() == sorted.to_multiset().insert(x),
        inserted(sorted, x, le).len() == sorted.len() + 1,
    decreases sorted.len(),
{
    broadcast use vstd::seq_lib::group_to_multiset_ensures;

    if sorted.len() > 0 && !le(sorted.last(), x) {
        let front = sorted.drop_last();
        let last = sorted.last();
        lemma_inserted(front, x, le);
        let mid = inserted(front, x, le);
        assert forall|k: int| 0 <= k < mid.len() implies le(#[trigger] mid[k], last) by {
            assert(mid.to_multiset().count(mid[k]) > 0);
        }
        assert(sorted == front.push(last));
    }
}

/// Sorting gives the same elements in ascending order.
pub proof fn lemma_stably_sorted<A>(v: Seq<A>, le: spec_fn(A, A) -> bool)
    requires
        is_total_order(le),
    ensures
        ascending(stably_sorted(v, le), le),
        stably_sorted(v, le).to_multiset() == v.to_multiset(),
        stably_sorted(v, le).len() == v.len(),
    decreases v.len(),
{
    broadcast use vstd::seq_lib::group_to_multiset_ensures;

    if v.len() > 0 {
        lemma_stably_sorted(v.drop_last(), le);
        lemma_inserted(stably_sorted(v.drop_last(), le), v.last(), le);
        assert(v == v.drop_last().push(v.last()));
    }
}

/// Whether the text `a` does not come behind `b`: at the first place where
/// they differ `a` has the lower character, or `a` ends there.
pub open spec fn text_le(a: Seq<char>, b: Seq<char>) -> bool
    decreases a.len(),
{
    if a.len() == 0 {
        true
    } else if b.len() == 0 {
        false
    } else if a[0] != b[0] {
        a[0] < b[0]
    } else {
        text_le(a.drop_first(), b.drop_first())
    }
}

/// The order of texts.
pub open spec fn by_text() -> spec_fn(Seq<char>, Seq<char>) -> bool {
    |a: Seq<char>, b: Seq<char>| text_le(a, b)
}

/// Any two texts compare.
proof fn lemma_text_le_total(a: Seq<char>, b: Seq<char>)
    ensures
        text_le(a, b) || text_le(b, a),
    decreases a.len(),
{
    if a.len() > 0 && b.len() > 0 && a[0] == b[0] {
        lemma_text_le_total(a.drop_first(), b.drop_first());
    }
}

/// The order of texts carries over.
proof fn lemma_text_le_transitive(a: Seq<char>, b: Seq<char>, c: Seq<char>)
    requires
        text_le(a, b),
        text_le(b, c),
    ensures
        text_le(a, c),
    decreases a.len(),
{
    if a.len() > 0 && b.len() > 0 && c.len() > 0 && a[0] == b[0] && b[0] == c[0] {
        lemma_text_le_transitive(a.drop_first(), b.drop_first(), c.drop_first());
    }
}

/// Texts are in a total order.
pub proof fn lemma_by_text_is_total_order()
    ensures
        is_total_order(by_text()),
{
    let le = by_text();
    assert forall|a: Seq<char>, b: Seq<char>| #[trigger] le(a, b) || #[trigger] le(b, a) by {
        lemma_text_le_total(a, b);
    }
    assert forall|a: Seq<char>, b: Seq<char>, c: Seq<char>| #[trigger]
        le(a, b) && #[trigger] le(b, c) implies le(a, c) by {
        lemma_text_le_transitive(a, b, c);
    }
}

/// Lines that are sorted come out in ascending order of their texts, each
/// as often as it went in.
pub proof fn lemma_sorted_lines(lines: Seq<Seq<char>>)
    ensures
        ascending(stably_sorted(lines, by_text()), by_text()),
        stably_sorted(lines, by_text()).to_multiset() == lines.to_multiset(),
{
    lemma_by_text_is_total_order();
    lemma_stably_sorted(lines, by_text());
}

/// Whether `a` does not come behind `b` in the order of texts.
pub fn text_not_after(a: &str, b: &str) -> (r: bool)
    ensures
        r == text_le(a@, b@),
{
    let x = chars_of(a);
    let y = chars_of(b);
    let mut i: usize = 0;
    assert(x@.skip(0) == x@ && y@.skip(0) == y@);
    while i < x.len() && i < y.len()
        invariant
            i <= x.len(),
            i <= y.len(),
            x@ == a@,
            y@ == b@,
            text_le(a@, b@) == text_le(x@.skip(i as int), y@.skip(i as int)),
        decreases x.len() - i,
    {
        let ghost p = x@.skip(i as int);
        let ghost q = y@.skip(i as int);
        assert(p.drop_first() == x@.skip(i + 1) && q.drop_first() == y@.skip(i + 1));
        if x[i] != y[i] {
            return x[i] < y[i];
        }
        i = i + 1;
    }
    i >= x.len()
}

/// Puts `lines` in the order of their texts.
pub fn sort_lines(lines: Vec<String>) -> (out: Vec<String>)
    ensures
        texts(out@) == stably_sorted(texts(lines@), by_text()),
{
    let mut out: Vec<String> = Vec::new();
    let mut i: usize = 0;
    while i < lines.len()
        invariant
            i <= lines.len(),
            texts(out@) == stably_sorted(texts(lines@).take(i as int), by_text()),
        decreases lines.len() - i,
    {
        let line = lines[i].clone();
        let mut at: usize = out.len();
        while at > 0 && !text_not_after(out[at - 1].as_str(), line.as_str())
            invariant
                at <= out.len(),
                forall|j: int| at <= j < out.len() ==> !text_le(#[trigger] out@[j]@, line@),
            decreases at,
        {
            at = at - 1;
        }
        let ghost before = texts(out@);
        proof {
            lemma_inserted_at(before, line@, by_text(), at as int);
        }
        out.insert(at, line);
        i = i + 1;
        proof {
            let done = texts(lines@).take(i as int);
            assert(done.drop_last() == texts(lines@).take(i - 1));
        }
    }
    assert(texts(lines@).take(i as int) == texts(lines@));
    out
}

/// A value and the place where it stood on the command line.
#[derive(Debug, Clone, PartialEq, Eq)]
pub struct ValueWithIndex {
    pub value: String,
    pub index: usize,
}

/// The values with their places, as plain values.
pub open spec fn indexed(v: Seq<ValueWithIndex>) -> Seq<(nat, Seq<char>)> {
    Seq::new(v.len(), |i: int| (v[i].index as nat, v[i].value@))
}

/// The order of places.
pub open spec fn by_index() -> spec_fn((nat, Seq<char>), (nat, Seq<char>)) -> bool {
    |a: (nat, Seq<char>), b: (nat, Seq<char>)| a.0 <= b.0
}

/// Values that are sorted by their places come out in ascending order of
/// places, each as often as it went in.
pub proof fn lemma_sorted_by_index(values: Seq<(nat, Seq<char>)>)
    ensures
        ascending(stably_sorted(values, by_index()), by_index()),
        stably_sorted(values, by_index()).to_multiset() == values.to_multiset(),
{
    lemma_stably_sorted(values, by_index());
}

/// The texts of the values.
pub open spec fn values_of(v: Seq<(nat, Seq<char>)>) -> Seq<Seq<char>> {
    Seq::new(v.len(), |i: int| v[i].1)
}

/// Puts the values in the order of their places, those of one place in the
/// order they came in.
pub fn sort_by_index(values: Vec<ValueWithIndex>) -> (out: Vec<ValueWithIndex>)
    ensures
        indexed(out@) == stably_sorted(indexed(values@), by_index()),
{
    let mut out: Vec<ValueWithIndex> = Vec::new();
    let mut i: usize = 0;
    while i < values.len()
        invariant
            i <= values.len(),
            indexed(out@) == stably_sorted(indexed(values@).take(i as int), by_index()),
        decreases values.len() - i,
    {
        let item = ValueWithIndex { value: values[i].value.clone(), index: values[i].index };
        let ghost plain = (item.index as nat, item.value@);
        let mut at: usize = out.len();
        while at > 0 && out[at - 1].index > item.index
            invariant
                at <= out.len(),
                forall|j: int| at <= j < out.len() ==> (#[trigger] out@[j]).index > item.index,
            decreases at,
        {
            at = at - 1;
        }
        let ghost before = indexed(out@);
        proof {
            lemma_inserted_at(before, plain, by_index(), at as int);
        }
        out.insert(at, item);
        i = i + 1;
        proof {
            let done = indexed(values@).take(i as int);
            assert(done.drop_last() == indexed(values@).take(i - 1));
        }
    }
    assert(indexed(values@).take(i as int) == indexed(values@));
    out
}

} // verus!
