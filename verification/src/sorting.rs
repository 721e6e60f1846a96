//! Lists that are kept in an order.

use vstd::prelude::*;

use crate::order;
use crate::text;
use crate::types::NetworkRule;
use crate::types::SudoRule;

verus! {

/// The list with one more item, which goes behind those that do not come after it.
pub open spec fn filed<T, L: Fn(&T, &T) -> bool>(list: Seq<T>, item: T, less: L) -> Seq<T>
    decreases list.len(),
{
    if list.len() > 0 && text::relates(less, item, list.last()) {
        filed(list.drop_last(), item, less).push(list.last())
    } else {
        list.push(item)
    }
}

/// The list in order; items that are level keep theirs.
pub open spec fn sorted_by<T, L: Fn(&T, &T) -> bool>(list: Seq<T>, less: L) -> Seq<T>
    decreases list.len(),
{
    if list.len() == 0 {
        Seq::empty()
    } else {
        filed(sorted_by(list.drop_last(), less), list.last(), less)
    }
}

proof fn lemma_filed<T, L: Fn(&T, &T) -> bool>(list: Seq<T>, item: T, less: L, i: int)
    requires
        0 <= i <= list.len(),
        forall|j: int| i <= j < list.len() ==> text::relates(less, item, #[trigger] list[j]),
        i > 0 ==> !text::relates(less, item, list[i - 1]),
    ensures
        filed(list, item, less) == list.insert(i, item),
    decreases list.len(),
{
    if i == list.len() {
        if list.len() > 0 {
            assert(list.last() == list[i - 1]);
        }
        assert(list.insert(i, item) =~= list.push(item));
    } else {
        assert(list.last() == list[list.len() - 1]);
        let front = list.drop_last();
        lemma_filed(front, item, less, i);
        assert(list.insert(i, item) =~= front.insert(i, item).push(list.last()));
    }
}

/// Put an item behind those that do not come after it.
pub fn file<T, L: Fn(&T, &T) -> bool>(list: &mut Vec<T>, item: T, less: &L)
    requires
        text::decides_pairs(*less),
    ensures
        final(list)@ == filed(old(list)@, item, *less),
{
    let mut i: usize = list.len();
    while i > 0 && less(&item, &list[i - 1])
        invariant
            text::decides_pairs(*less),
            *list == *old(list),
            i <= list@.len(),
            forall|j: int|
                i <= j < list@.len() ==> text::relates(*less, item, #[trigger] list@[j]),
        decreases i,
    {
        i -= 1;
    }
    proof {
        lemma_filed(list@, item, *less, i as int);
    }
    list.insert(i, item);
}

/// Put a list in order; items that are level keep theirs.
pub fn sort_by<T, L: Fn(&T, &T) -> bool>(list: Vec<T>, less: &L) -> (r: Vec<T>)
    requires
        text::decides_pairs(*less),
    ensures
        r@ == sorted_by(list@, *less),
{
    let ghost all = list@;
    let mut list = list;
    let mut r: Vec<T> = Vec::new();
    let ghost mut done: int = 0;
    assert(all.take(0) =~= Seq::<T>::empty());
    assert(all.skip(0) =~= all);
    while list.len() > 0
        invariant
            text::decides_pairs(*less),
            0 <= done <= all.len(),
            list@ == all.skip(done),
            r@ == sorted_by(all.take(done), *less),
        decreases list@.len(),
    {
        let item = list.remove(0);
        proof {
            assert(item == all[done]);
            assert(all.take(done + 1).drop_last() =~= all.take(done));
            assert(all.take(done + 1).last() == item);
            assert(list@ =~= all.skip(done + 1));
            done = done + 1;
        }
        file(&mut r, item, less);
    }
    assert(all.take(done) =~= all);
    r
}

proof fn lemma_filed_items<T, L: Fn(&T, &T) -> bool>(list: Seq<T>, item: T, less: L)
    ensures
        filed(list, item, less).to_multiset() == list.to_multiset().insert(item),
    decreases list.len(),
{
    broadcast use vstd::seq_lib::group_to_multiset_ensures;

    if list.len() > 0 && text::relates(less, item, list.last()) {
        lemma_filed_items(list.drop_last(), item, less);
        assert(list =~= list.drop_last().push(list.last()));
        assert(filed(list, item, less).to_multiset() =~= list.to_multiset().insert(item));
    }
}

/// Sorting neither loses nor makes items.
pub proof fn law_sorting_keeps_items<T, L: Fn(&T, &T) -> bool>(list: Seq<T>, less: L)
    ensures
        sorted_by(list, less).to_multiset() == list.to_multiset(),
    decreases list.len(),
{
    broadcast use vstd::seq_lib::group_to_multiset_ensures;

    if list.len() > 0 {
        law_sorting_keeps_items(list.drop_last(), less);
        lemma_filed_items(sorted_by(list.drop_last(), less), list.last(), less);
        assert(list =~= list.drop_last().push(list.last()));
    }
}

/// No item comes before the one that stands in front of it.
pub open spec fn ordered<T, L: Fn(&T, &T) -> bool>(list: Seq<T>, less: L) -> bool {
    forall|i: int, j: int|
        0 <= i < list.len() && j == i + 1 && j < list.len() ==> !text::relates(
            less,
            #[trigger] list[j],
            #[trigger] list[i],
        )
}

proof fn lemma_filed_last<T, L: Fn(&T, &T) -> bool>(list: Seq<T>, item: T, less: L)
    ensures
        filed(list, item, less).len() == list.len() + 1,
        filed(list, item, less).last() == item || (list.len() > 0 && filed(
            list,
            item,
            less,
        ).last() == list.last()),
    decreases list.len(),
{
    if list.len() > 0 && text::relates(less, item, list.last()) {
        lemma_filed_last(list.drop_last(), item, less);
    }
}

proof fn lemma_filed_ordered<T, L: Fn(&T, &T) -> bool>(list: Seq<T>, item: T, less: L)
    requires
        ordered(list, less),
        forall|a: T, b: T| #[trigger] text::relates(less, a, b) ==> !text::relates(less, b, a),
    ensures
        ordered(filed(list, item, less), less),
    decreases list.len(),
{
    let r = filed(list, item, less);
    if list.len() > 0 && text::relates(less, item, list.last()) {
        let front = list.drop_last();
        assert(ordered(front, less)) by {
            assert forall|i: int, j: int|
                0 <= i < front.len() && j == i + 1 && j < front.len() implies !text::relates(
                less,
                #[trigger] front[j],
                #[trigger] front[i],
            ) by {
                assert(!text::relates(less, list[j], list[i]));
            }
        }
        lemma_filed_ordered(front, item, less);
        lemma_filed_last(front, item, less);
        let g = filed(front, item, less);
        if front.len() > 0 {
            let n = list.len() - 2;
            assert(!text::relates(less, list[n + 1], list[n]));
        }
        assert(!text::relates(less, list.last(), g.last()));
        assert forall|i: int, j: int|
            0 <= i < r.len() && j == i + 1 && j < r.len() implies !text::relates(
            less,
            #[trigger] r[j],
            #[trigger] r[i],
        ) by {
            if j < g.len() {
                assert(!text::relates(less, g[j], g[i]));
            }
        }
    } else {
        assert forall|i: int, j: int|
            0 <= i < r.len() && j == i + 1 && j < r.len() implies !text::relates(
            less,
            #[trigger] r[j],
            #[trigger] r[i],
        ) by {
            if j < list.len() {
                assert(!text::relates(less, list[j], list[i]));
            }
        }
    }
}

/// Sorting by an order that never runs both ways puts no item behind one that comes after it.
pub proof fn law_sorting_orders<T, L: Fn(&T, &T) -> bool>(list: Seq<T>, less: L)
    requires
        forall|a: T, b: T| #[trigger] text::relates(less, a, b) ==> !text::relates(less, b, a),
    ensures
        ordered(sorted_by(list, less), less),
    decreases list.len(),
{
    if list.len() > 0 {
        law_sorting_orders(list.drop_last(), less);
        lemma_filed_ordered(sorted_by(list.drop_last(), less), list.last(), less);
    }
}

/// Items that are filed under a key, and the order of the keys.
pub trait Keyed: Sized {
    /// What items are filed under.
    type K;

    /// What the item is filed under.
    spec fn key(&self) -> Self::K;

    /// The first key comes before the second.
    spec fn precedes(a: Self::K, b: Self::K) -> bool;

    /// The keys have an order: of two that differ, one comes before the other and not the other
    /// way round.
    proof fn lemma_order(a: Self::K, b: Self::K, c: Self::K)
        ensures
            Self::precedes(a, b) ==> !Self::precedes(b, a) && a != b,
            a != b ==> Self::precedes(a, b) || Self::precedes(b, a),
            Self::precedes(a, b) && Self::precedes(b, c) ==> Self::precedes(a, c),
    ;

    fn same_key(&self, other: &Self) -> (r: bool)
        ensures
            r == (self.key() == other.key()),
    ;

    fn comes_before(&self, other: &Self) -> (r: bool)
        ensures
            r == Self::precedes(self.key(), other.key()),
    ;
}

/// The keys of the list rise from item to item.
pub open spec fn rising<T: Keyed>(list: Seq<T>) -> bool {
    forall|i: int, j: int|
        0 <= i < j < list.len() ==> T::precedes(
            (#[trigger] list[i]).key(),
            (#[trigger] list[j]).key(),
        )
}

/// The list holds an item under the key.
pub open spec fn holds_key<T: Keyed>(list: Seq<T>, key: T::K) -> bool {
    exists|i: int| 0 <= i < list.len() && (#[trigger] list[i]).key() == key
}

/// Where two rising lists hold items under the same keys, the last of the one has the key of the
/// last of the other, and so without these two.
proof fn lemma_rising_last<T: Keyed>(a: Seq<T>, b: Seq<T>)
    requires
        rising(a),
        rising(b),
        forall|key: T::K| holds_key(a, key) == #[trigger] holds_key(b, key),
        a.len() > 0,
    ensures
        b.len() > 0,
        a.last().key() == b.last().key(),
        forall|key: T::K|
            holds_key(a.drop_last(), key) == #[trigger] holds_key(b.drop_last(), key),
{
    assert(a[a.len() - 1].key() == a.last().key());
    assert(holds_key(a, a.last().key()));
    assert(holds_key(b, a.last().key()));
    let j = choose|j: int| 0 <= j < b.len() && (#[trigger] b[j]).key() == a.last().key();
    assert(b[b.len() - 1].key() == b.last().key());
    assert(holds_key(b, b.last().key()));
    assert(holds_key(a, b.last().key()));
    let i = choose|i: int| 0 <= i < a.len() && (#[trigger] a[i]).key() == b.last().key();
    T::lemma_order(a.last().key(), b.last().key(), b.last().key());
    T::lemma_order(b.last().key(), a.last().key(), a.last().key());
    assert forall|key: T::K|
        holds_key(a.drop_last(), key) == #[trigger] holds_key(b.drop_last(), key) by {
        lemma_without_last(a, key);
        lemma_without_last(b, key);
        assert(holds_key(a, key) == holds_key(b, key));
    }
}

proof fn lemma_without_last<T: Keyed>(list: Seq<T>, key: T::K)
    requires
        rising(list),
        list.len() > 0,
    ensures
        holds_key(list.drop_last(), key) == (holds_key(list, key) && key != list.last().key()),
{
    let rest = list.drop_last();
    if holds_key(rest, key) {
        let i = choose|i: int| 0 <= i < rest.len() && (#[trigger] rest[i]).key() == key;
        assert(list[i].key() == key);
        T::lemma_order(list[i].key(), list[list.len() - 1].key(), key);
    }
    if holds_key(list, key) && key != list.last().key() {
        let i = choose|i: int| 0 <= i < list.len() && (#[trigger] list[i]).key() == key;
        assert(rest[i].key() == key);
    }
}

/// Two rising lists that hold items under the same keys have them in the same places.
pub proof fn law_rising_is_one_order<T: Keyed>(a: Seq<T>, b: Seq<T>)
    requires
        rising(a),
        rising(b),
        forall|key: T::K| holds_key(a, key) == #[trigger] holds_key(b, key),
    ensures
        a.len() == b.len(),
        forall|i: int| 0 <= i < a.len() ==> (#[trigger] a[i]).key() == b[i].key(),
    decreases a.len(),
{
    if a.len() > 0 {
        lemma_rising_last(a, b);
        law_rising_is_one_order(a.drop_last(), b.drop_last());
        assert forall|i: int| 0 <= i < a.len() implies (#[trigger] a[i]).key() == b[i].key() by {
            if i < a.len() - 1 {
                assert(a.drop_last()[i].key() == b.drop_last()[i].key());
            }
        }
    } else if b.len() > 0 {
        assert(holds_key(b, b[0].key()));
        assert(holds_key(a, b[0].key()));
    }
}

/// The item is the one that the list holds under the key.
pub open spec fn holds_item<T: Keyed>(list: Seq<T>, item: T) -> bool {
    exists|i: int| 0 <= i < list.len() && #[trigger] list[i] == item
}

/// The second list is the first with the item in place of the one under its key.
pub open spec fn item_put<T: Keyed>(before: Seq<T>, after: Seq<T>, item: T) -> bool {
    &&& rising(after)
    &&& holds_item(after, item)
    &&& forall|other: T| #[trigger]
        holds_item(after, other) ==> other == item || (other.key() != item.key() && holds_item(
            before,
            other,
        ))
    &&& forall|other: T| #[trigger]
        holds_item(before, other) && other.key() != item.key() ==> holds_item(after, other)
}

/// The second list is the first without the item under the key.
pub open spec fn item_dropped<T: Keyed>(before: Seq<T>, after: Seq<T>, key: T::K) -> bool {
    &&& rising(after)
    &&& !holds_key(after, key)
    &&& forall|other: T| #[trigger]
        holds_item(after, other) == (holds_item(before, other) && other.key() != key)
}

/// Where the item belongs: every item before comes before it, none from there on does.
fn place<T: Keyed>(list: &Vec<T>, item: &T) -> (r: usize)
    requires
        rising(list@),
    ensures
        r <= list@.len(),
        forall|j: int| 0 <= j < r ==> T::precedes((#[trigger] list@[j]).key(), item.key()),
        forall|j: int|
            r <= j < list@.len() ==> !T::precedes((#[trigger] list@[j]).key(), item.key()),
{
    let mut i: usize = 0;
    while i < list.len() && list[i].comes_before(item)
        invariant
            i <= list@.len(),
            forall|j: int| 0 <= j < i ==> T::precedes((#[trigger] list@[j]).key(), item.key()),
        decreases list@.len() - i,
    {
        i += 1;
    }
    proof {
        assert forall|j: int| i <= j < list@.len() implies !T::precedes(
            (#[trigger] list@[j]).key(),
            item.key(),
        ) by {
            if j > i {
                T::lemma_order(list@[i as int].key(), list@[j].key(), item.key());
            }
        }
    }
    i
}

/// Put an item into a rising list, in place of the one under its key.
pub fn put<T: Keyed>(list: &mut Vec<T>, item: T)
    requires
        rising(old(list)@),
    ensures
        item_put(old(list)@, final(list)@, item),
{
    let ghost before = list@;
    let i = place(list, &item);
    if i < list.len() && list[i].same_key(&item) {
        list.set(i, item);
        proof {
            let after = list@;
            assert(after[i as int] == item);
            assert(rising(after)) by {
                assert forall|a: int, b: int| 0 <= a < b < after.len() implies T::precedes(
                    (#[trigger] after[a]).key(),
                    (#[trigger] after[b]).key(),
                ) by {
                    assert(T::precedes(before[a].key(), before[b].key()));
                }
            }
            assert forall|other: T| #[trigger] holds_item(after, other) implies other == item || (
            other.key() != item.key() && holds_item(before, other)) by {
                let j = choose|j: int| 0 <= j < after.len() && #[trigger] after[j] == other;
                if j != i {
                    assert(before[j] == other);
                    T::lemma_order(before[j].key(), before[i as int].key(), item.key());
                    T::lemma_order(before[i as int].key(), before[j].key(), item.key());
                    if j < i {
                        assert(T::precedes(before[j].key(), before[i as int].key()));
                    } else {
                        assert(T::precedes(before[i as int].key(), before[j].key()));
                    }
                }
            }
            assert forall|other: T| #[trigger]
                holds_item(before, other) && other.key() != item.key() implies holds_item(
                after,
                other,
            ) by {
                let j = choose|j: int| 0 <= j < before.len() && #[trigger] before[j] == other;
                assert(after[j] == other);
            }
        }
    } else {
        proof {
            if i < before.len() {
                T::lemma_order(before[i as int].key(), item.key(), item.key());
            }
        }
        list.insert(i, item);
        proof {
            let after = list@;
            assert(after == before.insert(i as int, item));
            assert(after[i as int] == item);
            assert(rising(after)) by {
                assert forall|a: int, b: int| 0 <= a < b < after.len() implies T::precedes(
                    (#[trigger] after[a]).key(),
                    (#[trigger] after[b]).key(),
                ) by {
                    let x = if a < i {
                        a
                    } else {
                        a - 1
                    };
                    let y = if b < i {
                        b
                    } else {
                        b - 1
                    };
                    if a == i {
                        assert(after[b] == before[b - 1]);
                        if b - 1 > i {
                            assert(T::precedes(before[i as int].key(), before[b - 1].key()));
                        }
                        T::lemma_order(item.key(), before[i as int].key(), before[b - 1].key());
                    } else if b == i {
                        assert(after[a] == before[a]);
                    } else {
                        assert(after[a] == before[x] && after[b] == before[y]);
                        assert(T::precedes(before[x].key(), before[y].key()));
                    }
                }
            }
            assert forall|other: T| #[trigger] holds_item(after, other) implies other == item || (
            other.key() != item.key() && holds_item(before, other)) by {
                let j = choose|j: int| 0 <= j < after.len() && #[trigger] after[j] == other;
                if j != i {
                    let x = if j < i {
                        j
                    } else {
                        j - 1
                    };
                    assert(before[x] == other);
                    if j < i {
                        T::lemma_order(before[x].key(), item.key(), item.key());
                    } else {
                        assert(T::precedes(item.key(), before[i as int].key()));
                        if x > i {
                            assert(T::precedes(before[i as int].key(), before[x].key()));
                        }
                        T::lemma_order(item.key(), before[i as int].key(), before[x].key());
                        T::lemma_order(item.key(), before[x].key(), item.key());
                    }
                }
            }
            assert forall|other: T| #[trigger]
                holds_item(before, other) && other.key() != item.key() implies holds_item(
                after,
                other,
            ) by {
                let j = choose|j: int| 0 <= j < before.len() && #[trigger] before[j] == other;
                if j < i {
                    assert(after[j] == other);
                } else {
                    assert(after[j + 1] == other);
                }
            }
        }
    }
}

/// Take the item under a key out of a rising list. `like` is an item with that key.
pub fn drop_key<T: Keyed>(list: &mut Vec<T>, like: &T)
    requires
        rising(old(list)@),
    ensures
        item_dropped(old(list)@, final(list)@, like.key()),
{
    let ghost before = list@;
    let i = place(list, like);
    if i < list.len() && list[i].same_key(like) {
        let _ = list.remove(i);
        proof {
            let after = list@;
            assert(after == before.remove(i as int));
            assert forall|a: int, b: int| 0 <= a < b < after.len() implies T::precedes(
                (#[trigger] after[a]).key(),
                (#[trigger] after[b]).key(),
            ) by {
                let x = if a < i {
                    a
                } else {
                    a + 1
                };
                let y = if b < i {
                    b
                } else {
                    b + 1
                };
                assert(after[a] == before[x] && after[b] == before[y]);
                assert(T::precedes(before[x].key(), before[y].key()));
            }
            assert forall|other: T| #[trigger] holds_item(after, other) implies holds_item(
                before,
                other,
            ) && other.key() != like.key() by {
                let j = choose|j: int| 0 <= j < after.len() && #[trigger] after[j] == other;
                let x = if j < i {
                    j
                } else {
                    j + 1
                };
                assert(before[x] == other);
                if x < i {
                    assert(T::precedes(before[x].key(), before[i as int].key()));
                } else {
                    assert(T::precedes(before[i as int].key(), before[x].key()));
                }
                T::lemma_order(before[x].key(), before[i as int].key(), like.key());
                T::lemma_order(before[i as int].key(), before[x].key(), like.key());
            }
            assert forall|other: T|
                holds_item(before, other) && other.key() != like.key() implies #[trigger]
            holds_item(after, other) by {
                let j = choose|j: int| 0 <= j < before.len() && #[trigger] before[j] == other;
                if j < i {
                    assert(after[j] == other);
                } else {
                    assert(after[j - 1] == other);
                }
            }
            assert(!holds_key(after, like.key())) by {
                if holds_key(after, like.key()) {
                    let j = choose|j: int|
                        0 <= j < after.len() && (#[trigger] after[j]).key() == like.key();
                    assert(holds_item(after, after[j]));
                }
            }
        }
    } else {
        proof {
            if i < before.len() {
                T::lemma_order(before[i as int].key(), like.key(), like.key());
            }
            assert forall|j: int| 0 <= j < before.len() implies (#[trigger] before[j]).key()
                != like.key() by {
                T::lemma_order(before[j].key(), like.key(), like.key());
                if j > i {
                    assert(T::precedes(like.key(), before[i as int].key()));
                    assert(T::precedes(before[i as int].key(), before[j].key()));
                    T::lemma_order(like.key(), before[i as int].key(), before[j].key());
                    T::lemma_order(like.key(), before[j].key(), like.key());
                }
            }
        }
    }
}

impl Keyed for NetworkRule {
    type K = (Seq<char>, u16);

    open spec fn key(&self) -> (Seq<char>, u16) {
        (self.host@, self.port)
    }

    open spec fn precedes(a: (Seq<char>, u16), b: (Seq<char>, u16)) -> bool {
        order::text_less(a.0, b.0) || (a.0 == b.0 && a.1 < b.1)
    }

    proof fn lemma_order(a: (Seq<char>, u16), b: (Seq<char>, u16), c: (Seq<char>, u16)) {
        order::lemma_text_less_total(a.0, b.0);
        if order::text_less(a.0, b.0) {
            order::lemma_text_less_asymmetric(a.0, b.0);
        }
        if order::text_less(a.0, b.0) && order::text_less(b.0, c.0) {
            order::lemma_text_less_transitive(a.0, b.0, c.0);
        }
    }

    fn same_key(&self, other: &Self) -> (r: bool) {
        self.host == other.host && self.port == other.port
    }

    fn comes_before(&self, other: &Self) -> (r: bool) {
        order::less(&self.host, &other.host) || (self.host == other.host && self.port
            < other.port)
    }
}

/// The first list of texts comes before the second, text by text.
pub open spec fn texts_less(a: Seq<Seq<char>>, b: Seq<Seq<char>>) -> bool
    decreases a.len(),
{
    if b.len() == 0 {
        false
    } else if a.len() == 0 {
        true
    } else if a[0] != b[0] {
        order::text_less(a[0], b[0])
    } else {
        texts_less(a.skip(1), b.skip(1))
    }
}

proof fn lemma_texts_order(a: Seq<Seq<char>>, b: Seq<Seq<char>>, c: Seq<Seq<char>>)
    ensures
        texts_less(a, b) ==> !texts_less(b, a) && a != b,
        a != b ==> texts_less(a, b) || texts_less(b, a),
        texts_less(a, b) && texts_less(b, c) ==> texts_less(a, c),
    decreases a.len(),
{
    if a.len() > 0 && b.len() > 0 {
        order::lemma_text_less_total(a[0], b[0]);
        if order::text_less(a[0], b[0]) {
            order::lemma_text_less_asymmetric(a[0], b[0]);
        }
        if a[0] == b[0] {
            if c.len() > 0 {
                lemma_texts_order(a.skip(1), b.skip(1), c.skip(1));
            } else {
                lemma_texts_order(a.skip(1), b.skip(1), c);
            }
            if a.skip(1) == b.skip(1) {
                assert(a =~= seq![a[0]] + a.skip(1));
                assert(b =~= seq![b[0]] + b.skip(1));
            }
        }
        if c.len() > 0 && order::text_less(a[0], b[0]) && order::text_less(b[0], c[0]) {
            order::lemma_text_less_transitive(a[0], b[0], c[0]);
        }
    } else if a.len() == 0 && b.len() == 0 {
        assert(a =~= b);
    }
}

fn argv_less(a: &Vec<String>, b: &Vec<String>) -> (r: bool)
    ensures
        r == texts_less(text::texts(a@), text::texts(b@)),
{
    let ghost ta = text::texts(a@);
    let ghost tb = text::texts(b@);
    let mut i: usize = 0;
    assert(ta.skip(0) =~= ta && tb.skip(0) =~= tb);
    while i < a.len() && i < b.len()
        invariant
            ta == text::texts(a@),
            tb == text::texts(b@),
            i <= a@.len(),
            i <= b@.len(),
            texts_less(ta, tb) == texts_less(ta.skip(i as int), tb.skip(i as int)),
        decreases a@.len() - i,
    {
        let ghost x = ta.skip(i as int);
        let ghost y = tb.skip(i as int);
        assert(x[0] == a@[i as int]@ && y[0] == b@[i as int]@);
        if a[i] != b[i] {
            return order::less(&a[i], &b[i]);
        }
        assert(x.skip(1) =~= ta.skip(i + 1) && y.skip(1) =~= tb.skip(i + 1));
        i += 1;
    }
    i < b.len()
}

impl Keyed for SudoRule {
    type K = Seq<Seq<char>>;

    open spec fn key(&self) -> Seq<Seq<char>> {
        text::texts(self.argv@)
    }

    open spec fn precedes(a: Seq<Seq<char>>, b: Seq<Seq<char>>) -> bool {
        texts_less(a, b)
    }

    proof fn lemma_order(a: Seq<Seq<char>>, b: Seq<Seq<char>>, c: Seq<Seq<char>>) {
        lemma_texts_order(a, b, c);
    }

    fn same_key(&self, other: &Self) -> (r: bool) {
        text::same_texts(&self.argv, &other.argv)
    }

    fn comes_before(&self, other: &Self) -> (r: bool) {
        argv_less(&self.argv, &other.argv)
    }
}

impl Keyed for String {
    type K = Seq<char>;

    open spec fn key(&self) -> Seq<char> {
        self@
    }

    open spec fn precedes(a: Seq<char>, b: Seq<char>) -> bool {
        order::text_less(a, b)
    }

    proof fn lemma_order(a: Seq<char>, b: Seq<char>, c: Seq<char>) {
        order::lemma_text_less_total(a, b);
        if order::text_less(a, b) {
            order::lemma_text_less_asymmetric(a, b);
            if order::text_less(b, c) {
                order::lemma_text_less_transitive(a, b, c);
            }
        }
    }

    fn same_key(&self, other: &Self) -> (r: bool) {
        *self == *other
    }

    fn comes_before(&self, other: &Self) -> (r: bool) {
        order::less(self, other)
    }
}

} // verus!
