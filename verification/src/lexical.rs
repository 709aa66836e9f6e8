//! The order of texts as in a dictionary, character by character.

use crate::cli::string_views;
use crate::path::texts;
use crate::sorting::{lemma_insert_position, ranks, sorted_by, tells_apart};
use crate::text::chars_of;
use vstd::prelude::*;

verus! {

/// Whether `a` stands before `b` in the order of texts: at the first place
/// where they differ `a` has the smaller character, or `a` ends there and
/// `b` goes on.
pub open spec fn text_before(a: Seq<char>, b: Seq<char>) -> bool
    decreases a.len(),
{
    if b.len() == 0 {
        false
    } else if a.len() == 0 {
        true
    } else if a[0] != b[0] {
        a[0] < b[0]
    } else {
        text_before(a.skip(1), b.skip(1))
    }
}

/// The order of texts as a relation.
pub open spec fn text_order() -> spec_fn(Seq<char>, Seq<char>) -> bool {
    |a: Seq<char>, b: Seq<char>| text_before(a, b)
}

/// No two texts stand each before the other.
pub proof fn lemma_text_before_one_way(a: Seq<char>, b: Seq<char>)
    requires
        text_before(a, b),
    ensures
        !text_before(b, a),
    decreases a.len(),
{
    if a.len() > 0 && b.len() > 0 && a[0] == b[0] {
        lemma_text_before_one_way(a.skip(1), b.skip(1));
    }
}

/// Where `a` does not stand before `b`, nor `b` before `c`, `a` does not
/// stand before `c`.
pub proof fn lemma_text_before_ranks(a: Seq<char>, b: Seq<char>, c: Seq<char>)
    requires
        !text_before(a, b),
        !text_before(b, c),
    ensures
        !text_before(a, c),
    decreases a.len(),
{
    if c.len() > 0 {
        assert(b.len() > 0);
        assert(a.len() > 0);
        if a[0] == b[0] && b[0] == c[0] {
            lemma_text_before_ranks(a.skip(1), b.skip(1), c.skip(1));
        }
    }
}

/// Of two different texts one stands before the other.
pub proof fn lemma_text_before_total(a: Seq<char>, b: Seq<char>)
    requires
        a != b,
    ensures
        text_before(a, b) || text_before(b, a),
    decreases a.len(),
{
    if a.len() > 0 && b.len() > 0 {
        if a[0] == b[0] {
            if a.skip(1) == b.skip(1) {
                assert(a =~= seq![a[0]] + a.skip(1));
                assert(b =~= seq![b[0]] + b.skip(1));
            }
            lemma_text_before_total(a.skip(1), b.skip(1));
        } else {
        }
    } else if a.len() == 0 && b.len() == 0 {
        assert(a =~= b);
    }
}

/// The order of texts ranks them and tells any two different texts apart.
pub proof fn lemma_text_order()
    ensures
        ranks(text_order()),
        tells_apart(text_order()),
{
    let before = text_order();
    assert forall|a: Seq<char>, b: Seq<char>| #[trigger] before(a, b) implies !before(b, a) by {
        lemma_text_before_one_way(a, b);
    }
    assert forall|a: Seq<char>, b: Seq<char>, c: Seq<char>|
        #![trigger before(a, b), before(b, c)]
        !before(a, b) && !before(b, c) implies !before(a, c) by {
        lemma_text_before_ranks(a, b, c);
    }
    assert forall|a: Seq<char>, b: Seq<char>| a != b implies #[trigger] before(a, b)
        || #[trigger] before(b, a) by {
        lemma_text_before_total(a, b);
    }
}

/// Whether `a` stands before `b` in the order of texts.
pub fn comes_before(a: &Vec<char>, b: &Vec<char>) -> (r: bool)
    ensures
        r == text_before(a@, b@),
{
    let mut i: usize = 0;
    assert(a@.skip(0) == a@ && b@.skip(0) == b@);
    while i < a.len() && i < b.len()
        invariant
            i <= a.len(),
            i <= b.len(),
            text_before(a@, b@) == text_before(a@.skip(i as int), b@.skip(i as int)),
        decreases a.len() - i,
    {
        proof {
            assert(a@.skip(i as int)[0] == a@[i as int]);
            assert(b@.skip(i as int)[0] == b@[i as int]);
            assert(a@.skip(i as int).skip(1) == a@.skip(i + 1));
            assert(b@.skip(i as int).skip(1) == b@.skip(i + 1));
        }
        if a[i] != b[i] {
            return a[i] < b[i];
        }
        i += 1;
    }
    i < b.len()
}

/// The texts in the order of texts.
pub fn sort_texts(list: &Vec<String>) -> (out: Vec<Vec<char>>)
    ensures
        texts(out@) == sorted_by(text_order(), string_views(list@)),
{
    let ghost all = string_views(list@);
    let mut out: Vec<Vec<char>> = Vec::new();
    let mut i: usize = 0;
    assert(all.take(0) == Seq::<Seq<char>>::empty());
    assert(texts(out@) == Seq::<Seq<char>>::empty());
    while i < list.len()
        invariant
            i <= list.len(),
            all == string_views(list@),
            texts(out@) == sorted_by(text_order(), all.take(i as int)),
        decreases list.len() - i,
    {
        let x = chars_of(list[i].as_str());
        proof {
            assert(all.take(i + 1).drop_last() == all.take(i as int));
            assert(all.take(i + 1).last() == x@);
        }
        let mut pos: usize = out.len();
        while pos > 0 && comes_before(&x, &out[pos - 1])
            invariant
                pos <= out.len(),
                forall|j: int| pos <= j < out.len() ==> text_before(x@, (#[trigger] out@[j])@),
            decreases pos,
        {
            pos -= 1;
        }
        proof {
            let s = texts(out@);
            assert forall|j: int| pos <= j < s.len() implies text_order()(x@, #[trigger] s[j]) by {
                assert(s[j] == out@[j]@);
            }
            if pos > 0 {
                assert(s[pos - 1] == out@[pos - 1]@);
            }
            lemma_insert_position(text_order(), s, x@, pos as int);
        }
        let ghost before = texts(out@);
        out.insert(pos, x);
        assert(texts(out@) == before.take(pos as int).push(x@) + before.skip(pos as int));
        i += 1;
    }
    assert(all.take(list.len() as int) == all);
    out
}

} // verus!
