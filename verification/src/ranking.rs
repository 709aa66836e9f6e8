//! The orders in which reports list their files.
//!
//! Every order is stable: files that the order does not tell apart stay in
//! the order in which they were found.

use crate::scanner::{file_views, CleanableFile, FileView};
use crate::sorting::{
    alike, first_n, insert_sorted, lemma_insert_position, lemma_insert_within, lemma_sorted_by,
    lemma_sorted_by_is_stable, ranks, sorted_by,
};
use vstd::prelude::*;

verus! {

/// An order of files.
#[derive(Debug, Clone, Copy, PartialEq, Eq, Structural)]
pub enum Ranking {
    /// By size, the largest first.
    LargestFirst,
    /// By the time of the last access, the oldest first.
    OldestFirst,
    /// By the time of the last access, the oldest first; among files last
    /// accessed at the same time, the largest first.
    OldestThenLargest,
}

/// Whether the order asks that `a` stand before `b`.
pub open spec fn goes_before(order: Ranking, a: FileView, b: FileView) -> bool {
    match order {
        Ranking::LargestFirst => a.size > b.size,
        Ranking::OldestFirst => a.last_accessed.instant() < b.last_accessed.instant(),
        Ranking::OldestThenLargest => a.last_accessed.instant() < b.last_accessed.instant() || (
        a.last_accessed.instant() == b.last_accessed.instant() && a.size > b.size),
    }
}

/// The relation by which an order sorts.
pub open spec fn file_order(order: Ranking) -> spec_fn(FileView, FileView) -> bool {
    |a: FileView, b: FileView| goes_before(order, a, b)
}

/// `s` with `x` put in behind the last file that `x` need not stand before.
pub open spec fn insert_ranked(order: Ranking, s: Seq<FileView>, x: FileView) -> Seq<FileView> {
    insert_sorted(file_order(order), s, x)
}

/// The files of `s` in the given order: each file in turn is put in behind
/// the files found before it that it need not stand before.
pub open spec fn ranked(order: Ranking, s: Seq<FileView>) -> Seq<FileView> {
    sorted_by(file_order(order), s)
}

/// Whether no file of `s` stands behind one that it should stand before.
pub open spec fn files_in_order(order: Ranking, s: Seq<FileView>) -> bool {
    forall|i: int, j: int| 0 <= i < j < s.len() ==> !goes_before(order, s[j], s[i])
}

/// Every order of files ranks them.
pub proof fn lemma_file_order_ranks(order: Ranking)
    ensures
        ranks(file_order(order)),
{
    let before = file_order(order);
    assert forall|a: FileView, b: FileView| #[trigger] before(a, b) implies !before(b, a) by {}
    assert forall|a: FileView, b: FileView, c: FileView|
        #![trigger before(a, b), before(b, c)]
        !before(a, b) && !before(b, c) implies !before(a, c) by {}
}

/// Ranked files are in order, and they are the files that were given: none
/// is lost, none is added, none is changed.
pub proof fn lemma_ranked(order: Ranking, s: Seq<FileView>)
    ensures
        files_in_order(order, ranked(order, s)),
        ranked(order, s).len() == s.len(),
        ranked(order, s).to_multiset() == s.to_multiset(),
{
    lemma_file_order_ranks(order);
    lemma_sorted_by(file_order(order), s);
    let out = ranked(order, s);
    assert forall|i: int, j: int| 0 <= i < j < out.len() implies !goes_before(
        order,
        out[j],
        out[i],
    ) by {
        assert(!file_order(order)(out[j], out[i]));
    }
}

/// Ranking is stable: the files that the order does not tell apart from
/// `x` stand in the ranked sequence as they stood in the one given.
pub proof fn lemma_ranked_is_stable(order: Ranking, s: Seq<FileView>, x: FileView)
    ensures
        ranked(order, s).filter_map(alike(file_order(order), x)) == s.filter_map(
            alike(file_order(order), x),
        ),
{
    lemma_file_order_ranks(order);
    lemma_sorted_by_is_stable(file_order(order), s, x);
}

/// Whether the order asks that `a` stand before `b`.
pub fn precedes(order: Ranking, a: &CleanableFile, b: &CleanableFile) -> (r: bool)
    ensures
        r == goes_before(order, a@, b@),
{
    match order {
        Ranking::LargestFirst => a.size > b.size,
        Ranking::OldestFirst => a.last_accessed.is_before(&b.last_accessed),
        Ranking::OldestThenLargest => {
            if a.last_accessed.is_before(&b.last_accessed) {
                true
            } else if b.last_accessed.is_before(&a.last_accessed) {
                false
            } else {
                a.size > b.size
            }
        },
    }
}

/// Puts `x` into `out` at the place that the order gives it.
pub fn insert_file(out: &mut Vec<CleanableFile>, x: CleanableFile, order: Ranking)
    ensures
        file_views(final(out)@) == insert_ranked(order, file_views(old(out)@), x@),
{
    let mut pos: usize = out.len();
    while pos > 0 && precedes(order, &x, &out[pos - 1])
        invariant
            pos <= out.len(),
            out@ == old(out)@,
            forall|j: int| pos <= j < out.len() ==> goes_before(order, x@, out@[j]@),
        decreases pos,
    {
        pos -= 1;
    }
    proof {
        let s = file_views(out@);
        assert forall|j: int| pos <= j < s.len() implies goes_before(order, x@, s[j]) by {
            assert(s[j] == out@[j]@);
        }
        if pos > 0 {
            assert(s[pos - 1] == out@[pos - 1]@);
        }
        assert forall|j: int| pos <= j < s.len()
            implies file_order(order)(x@, #[trigger] s[j]) by {}
        lemma_insert_position(file_order(order), s, x@, pos as int);
    }
    let ghost before = out@;
    out.insert(pos, x);
    assert(file_views(out@) == file_views(before).take(pos as int).push(x@) + file_views(
        before,
    ).skip(pos as int));
}

/// The files in reverse order.
pub fn reversed(files: Vec<CleanableFile>) -> (r: Vec<CleanableFile>)
    ensures
        file_views(r@) == file_views(files@).reverse(),
{
    let ghost all = file_views(files@);
    let mut rest = files;
    let mut out: Vec<CleanableFile> = Vec::new();
    assert(file_views(out@).reverse() == Seq::<FileView>::empty());
    while rest.len() > 0
        invariant
            file_views(rest@) + file_views(out@).reverse() == all,
        decreases rest.len(),
    {
        let ghost r0 = file_views(rest@);
        let ghost s0 = file_views(out@);
        let x = rest.pop().unwrap();
        out.push(x);
        assert(file_views(rest@) == r0.drop_last());
        assert(file_views(out@) == s0.push(x@));
        assert(r0.drop_last() + s0.push(x@).reverse() == r0 + s0.reverse());
    }
    assert(file_views(out@).reverse() == all);
    assert(file_views(out@).reverse().reverse() == file_views(out@));
    out
}

/// The files in the given order.
pub fn sort_files(files: Vec<CleanableFile>, order: Ranking) -> (out: Vec<CleanableFile>)
    ensures
        file_views(out@) == ranked(order, file_views(files@)),
{
    let ghost all = file_views(files@);
    let ghost n = all.len();
    let mut out: Vec<CleanableFile> = Vec::new();
    let mut stack = reversed(files);
    assert(all.take(0) == Seq::<FileView>::empty());
    assert(file_views(stack@).len() == n);
    assert(all.skip(0) == all);
    assert(all.reverse().reverse() == all);
    while stack.len() > 0
        invariant
            n == all.len(),
            stack.len() <= n,
            file_views(out@) == ranked(order, all.take(n - stack.len())),
            file_views(stack@).reverse() == all.skip(n - stack.len()),
        decreases stack.len(),
    {
        let ghost s0 = file_views(stack@);
        let ghost k = n - stack.len();
        let x = stack.pop().unwrap();
        proof {
            assert(file_views(stack@) == s0.drop_last());
            assert(s0.reverse()[0] == s0.last());
            assert(x@ == all[k]);
            assert(all.take(k + 1).drop_last() == all.take(k));
            assert(all.take(k + 1).last() == x@);
            assert(s0.drop_last().reverse() == s0.reverse().skip(1));
            assert(all.skip(k).skip(1) == all.skip(k + 1));
        }
        insert_file(&mut out, x, order);
    }
    assert(all.take(n as int) == all);
    out
}

/// The first files in the given order, up to `limit` of them. Only as many
/// files are held at a time as are asked for.
pub fn sort_files_within(files: Vec<CleanableFile>, order: Ranking, limit: usize) -> (out: Vec<
    CleanableFile,
>)
    ensures
        file_views(out@) == first_n(ranked(order, file_views(files@)), limit as nat),
{
    let ghost all = file_views(files@);
    let ghost n = all.len();
    let mut out: Vec<CleanableFile> = Vec::new();
    let mut stack = reversed(files);
    assert(all.take(0) == Seq::<FileView>::empty());
    assert(file_views(stack@).len() == n);
    assert(all.skip(0) == all);
    assert(all.reverse().reverse() == all);
    while stack.len() > 0
        invariant
            n == all.len(),
            stack.len() <= n,
            file_views(out@) == first_n(ranked(order, all.take(n - stack.len())), limit as nat),
            file_views(stack@).reverse() == all.skip(n - stack.len()),
        decreases stack.len(),
    {
        let ghost s0 = file_views(stack@);
        let ghost k = n - stack.len();
        let x = stack.pop().unwrap();
        proof {
            assert(file_views(stack@) == s0.drop_last());
            assert(s0.reverse()[0] == s0.last());
            assert(x@ == all[k]);
            assert(all.take(k + 1).drop_last() == all.take(k));
            assert(all.take(k + 1).last() == x@);
            assert(s0.drop_last().reverse() == s0.reverse().skip(1));
            assert(all.skip(k).skip(1) == all.skip(k + 1));
            let sofar = ranked(order, all.take(k));
            lemma_file_order_ranks(order);
            lemma_sorted_by(file_order(order), all.take(k));
            lemma_insert_within(file_order(order), sofar, x@, limit as nat);
        }
        insert_file(&mut out, x, order);
        let ghost longer = file_views(out@);
        out.truncate(limit);
        assert(file_views(out@) == first_n(longer, limit as nat));
    }
    assert(all.take(n as int) == all);
    out
}

} // verus!
