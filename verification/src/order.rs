//! The order of texts.

use vstd::prelude::*;

use crate::text;

verus! {

/// The first text comes before the second, character by character.
pub open spec fn text_less(a: Seq<char>, b: Seq<char>) -> bool
    decreases a.len(),
{
    if b.len() == 0 {
        false
    } else if a.len() == 0 {
        true
    } else if a[0] != b[0] {
        a[0] < b[0]
    } else {
        text_less(a.skip(1), b.skip(1))
    }
}

/// Whether the first text comes before the second.
pub fn chars_less(a: &Vec<char>, b: &Vec<char>) -> (r: bool)
    ensures
        r == text_less(a@, b@),
{
    let mut i: usize = 0;
    assert(a@.skip(0) =~= a@ && b@.skip(0) =~= b@);
    while i < a.len() && i < b.len()
        invariant
            i <= a@.len(),
            i <= b@.len(),
            text_less(a@, b@) == text_less(a@.skip(i as int), b@.skip(i as int)),
        decreases a@.len() - i,
    {
        let ghost x = a@.skip(i as int);
        let ghost y = b@.skip(i as int);
        assert(x[0] == a@[i as int] && y[0] == b@[i as int]);
        if a[i] != b[i] {
            return a[i] < b[i];
        }
        assert(x.skip(1) =~= a@.skip(i + 1) && y.skip(1) =~= b@.skip(i + 1));
        i += 1;
    }
    i < b.len()
}

/// Whether the first text comes before the second.
pub fn less(a: &String, b: &String) -> (r: bool)
    ensures
        r == text_less(a@, b@),
{
    chars_less(&text::chars_of(a.as_str()), &text::chars_of(b.as_str()))
}

pub proof fn lemma_text_less_asymmetric(a: Seq<char>, b: Seq<char>)
    requires
        text_less(a, b),
    ensures
        !text_less(b, a),
    decreases a.len(),
{
    if a.len() > 0 && b.len() > 0 && a[0] == b[0] {
        lemma_text_less_asymmetric(a.skip(1), b.skip(1));
    }
}

pub proof fn lemma_text_less_transitive(a: Seq<char>, b: Seq<char>, c: Seq<char>)
    requires
        text_less(a, b),
        text_less(b, c),
    ensures
        text_less(a, c),
    decreases a.len(),
{
    if a.len() > 0 && a[0] == b[0] && b[0] == c[0] {
        lemma_text_less_transitive(a.skip(1), b.skip(1), c.skip(1));
    }
}

pub proof fn lemma_text_less_total(a: Seq<char>, b: Seq<char>)
    ensures
        a == b || text_less(a, b) || text_less(b, a),
    decreases a.len(),
{
    if a.len() > 0 && b.len() > 0 && a[0] == b[0] {
        lemma_text_less_total(a.skip(1), b.skip(1));
        if a.skip(1) == b.skip(1) {
            assert(a =~= seq![a[0]] + a.skip(1));
            assert(b =~= seq![b[0]] + b.skip(1));
        }
    } else if a.len() == 0 && b.len() == 0 {
        assert(a =~= b);
    }
}

/// The text is in the list and no other one there comes before it.
pub open spec fn least_of(list: Seq<Seq<char>>, s: Seq<char>) -> bool {
    list.contains(s) && forall|j: int| 0 <= j < list.len() ==> !text_less(#[trigger] list[j], s)
}

/// The text of a list that comes before all others.
pub fn least(list: &Vec<String>) -> (r: Option<String>)
    ensures
        match r {
            Some(s) => least_of(text::texts(list@), s@),
            None => list@.len() == 0,
        },
{
    if list.len() == 0 {
        return None;
    }
    let ghost all = text::texts(list@);
    let mut best: usize = 0;
    let mut i: usize = 1;
    proof {
        if text_less(all[0], all[0]) {
            lemma_text_less_asymmetric(all[0], all[0]);
        }
    }
    while i < list.len()
        invariant
            all == text::texts(list@),
            best < list@.len(),
            1 <= i <= list@.len(),
            forall|j: int| 0 <= j < i ==> !text_less(#[trigger] all[j], all[best as int]),
        decreases list@.len() - i,
    {
        assert(all[i as int] == list@[i as int]@ && all[best as int] == list@[best as int]@);
        if less(&list[i], &list[best]) {
            proof {
                assert forall|j: int| 0 <= j <= i implies !text_less(
                    #[trigger] all[j],
                    all[i as int],
                ) by {
                    if text_less(all[j], all[i as int]) {
                        if j == i {
                            lemma_text_less_asymmetric(all[j], all[i as int]);
                        } else {
                            lemma_text_less_transitive(all[j], all[i as int], all[best as int]);
                        }
                    }
                }
            }
            best = i;
        }
        i += 1;
    }
    assert(all[best as int] == list@[best as int]@);
    Some(list[best].clone())
}

} // verus!
