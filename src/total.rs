//! The running total of a run: per-entry statistics folded into one
//! accumulator of a shape fixed at creation.

use vstd::prelude::*;
use crate::stat::{clamp, saturating_sum, DirStat, FileStat};

verus! {

/// The statistics of one entry: of a file's contents or of a directory's
/// entries.
#[derive(Clone, Copy, Debug, PartialEq, Eq, Structural)]
pub enum Stat {
    File(FileStat),
    Dir(DirStat),
}

/// A running sum of statistics of one shape, and the number of entries
/// folded into it.
#[derive(Clone, Copy, Debug, PartialEq, Eq, Structural)]
pub struct Total {
    pub sum: Stat,
    pub done: usize,
}

impl Stat {
    /// Whether two statistics have the same shape.
    pub open spec fn same_shape(self, o: Stat) -> bool {
        (self is File && o is File) || (self is Dir && o is Dir)
    }

    /// The field-wise sum of two statistics of one shape; `self` when the
    /// shapes differ.
    pub open spec fn plus(self, o: Stat) -> Stat {
        match (self, o) {
            (Stat::File(a), Stat::File(b)) => Stat::File(a.plus(b)),
            (Stat::Dir(a), Stat::Dir(b)) => Stat::Dir(a.plus(b)),
            _ => self,
        }
    }
}

impl Total {
    /// The total after folding in one entry's statistics: added when of the
    /// total's shape, ignored otherwise.
    pub open spec fn absorbed(self, s: Stat) -> Total {
        if self.sum.same_shape(s) {
            Total { sum: self.sum.plus(s), done: clamp(self.done + 1) }
        } else {
            self
        }
    }

    /// The total after merging in another total: added when of the same
    /// shape, ignored otherwise.
    pub open spec fn merged(self, o: Total) -> Total {
        if self.sum.same_shape(o.sum) {
            Total { sum: self.sum.plus(o.sum), done: clamp(self.done + o.done) }
        } else {
            self
        }
    }

    pub open spec fn file_zero() -> Total {
        Total { sum: Stat::File(FileStat::zero()), done: 0 }
    }

    pub open spec fn dir_zero() -> Total {
        Total { sum: Stat::Dir(DirStat::zero()), done: 0 }
    }

    /// A fresh total of the same shape as `self`.
    pub open spec fn fresh_like(self) -> Total {
        match self.sum {
            Stat::File(_) => Total { sum: Stat::File(FileStat::zero()), done: 0 },
            Stat::Dir(_) => Total { sum: Stat::Dir(DirStat::zero()), done: 0 },
        }
    }

    /// An empty total for file contents.
    pub fn file() -> (r: Total)
        ensures
            r == (Total { sum: Stat::File(FileStat::zero()), done: 0 }),
    {
        Total { sum: Stat::File(FileStat::new()), done: 0 }
    }

    /// An empty total for directory entries.
    pub fn dir() -> (r: Total)
        ensures
            r == (Total { sum: Stat::Dir(DirStat::zero()), done: 0 }),
    {
        Total { sum: Stat::Dir(DirStat::new()), done: 0 }
    }

    /// Folds in the counts of one file; a directory total ignores them.
    pub fn update_file(&mut self, fs: &FileStat)
        ensures
            *final(self) == old(self).absorbed(Stat::File(*fs)),
    {
        match &mut self.sum {
            Stat::File(s) => {
                s.add(fs);
                self.done = saturating_sum(self.done, 1);
            },
            Stat::Dir(_) => {},
        }
    }

    /// Folds in the counts of one directory; a file total ignores them.
    pub fn update_dir(&mut self, ds: &DirStat)
        ensures
            *final(self) == old(self).absorbed(Stat::Dir(*ds)),
    {
        match &mut self.sum {
            Stat::File(_) => {},
            Stat::Dir(s) => {
                s.add(ds);
                self.done = saturating_sum(self.done, 1);
            },
        }
    }

    /// Folds in one entry's statistics.
    pub fn add_assign(&mut self, rhs: &Stat)
        ensures
            *final(self) == old(self).absorbed(*rhs),
    {
        match rhs {
            Stat::File(s) => self.update_file(s),
            Stat::Dir(s) => self.update_dir(s),
        }
    }

    /// Merges in a total built apart, such as one worker's share of a run.
    pub fn merge(&mut self, o: &Total)
        ensures
            *final(self) == old(self).merged(*o),
    {
        match (&mut self.sum, &o.sum) {
            (Stat::File(a), Stat::File(b)) => {
                a.add(b);
                self.done = saturating_sum(self.done, o.done);
            },
            (Stat::Dir(a), Stat::Dir(b)) => {
                a.add(b);
                self.done = saturating_sum(self.done, o.done);
            },
            _ => {},
        }
    }
}

/// The total after folding in `stats` from the first to the last.
pub open spec fn folded(t: Total, stats: Seq<Stat>) -> Total
    decreases stats.len(),
{
    if stats.len() == 0 {
        t
    } else {
        folded(t, stats.drop_last()).absorbed(stats.last())
    }
}

/// Two entries folded in one after the other give the same total in either
/// order.
pub proof fn lemma_absorb_commutes(t: Total, a: Stat, b: Stat)
    ensures
        t.absorbed(a).absorbed(b) == t.absorbed(b).absorbed(a),
{
    match (t.sum, a, b) {
        (Stat::File(x), Stat::File(y), Stat::File(z)) => {
            FileStat::lemma_plus_laws(x, y, z);
            FileStat::lemma_plus_laws(x, z, y);
            FileStat::lemma_plus_laws(y, z, x);
        },
        (Stat::Dir(x), Stat::Dir(y), Stat::Dir(z)) => {
            DirStat::lemma_plus_laws(x, y, z);
            DirStat::lemma_plus_laws(x, z, y);
            DirStat::lemma_plus_laws(y, z, x);
        },
        _ => {},
    }
}

/// Folding an entry in at any position of a sequence gives the same total as
/// folding it in last.
pub proof fn lemma_fold_insert(t: Total, stats: Seq<Stat>, j: int, x: Stat)
    requires
        0 <= j <= stats.len(),
    ensures
        folded(t, stats.insert(j, x)) == folded(t, stats).absorbed(x),
    decreases stats.len(),
{
    let s = stats.insert(j, x);
    if j == stats.len() {
        assert(s.drop_last() =~= stats);
    } else {
        let init = stats.drop_last();
        lemma_fold_insert(t, init, j, x);
        assert(s.drop_last() =~= init.insert(j, x));
        lemma_absorb_commutes(folded(t, init), x, stats.last());
    }
}

/// Folding is independent of order: any two sequences that hold the same
/// statistics, each as often, fold into the same total.
pub proof fn lemma_fold_any_order(t: Total, s1: Seq<Stat>, s2: Seq<Stat>)
    requires
        s1.to_multiset() == s2.to_multiset(),
    ensures
        folded(t, s1) == folded(t, s2),
    decreases s1.len(),
{
    broadcast use vstd::seq_lib::group_to_multiset_ensures, vstd::multiset::group_multiset_axioms;

    if s1.len() == 0 {
        assert(s2.to_multiset().len() == 0);
        assert(s2 =~= s1);
    } else {
        let p = s1.drop_last();
        let x = s1.last();
        assert(s1 =~= p.push(x));
        assert(s1.to_multiset() =~= p.to_multiset().insert(x));
        assert(s2.to_multiset().count(x) > 0);
        assert(s2.contains(x));
        let j = choose|j: int| 0 <= j < s2.len() && s2[j] == x;
        let q = s2.remove(j);
        assert(q.to_multiset() == s2.to_multiset().remove(x));
        assert(q.to_multiset() =~= p.to_multiset());
        lemma_fold_any_order(t, p, q);
        assert(q.insert(j, x) =~= s2);
        lemma_fold_insert(t, q, j, x);
    }
}

/// Folding `[a, b, c]` and folding `[c, a, b]` give the same total.
pub proof fn lemma_fold_rotated(t: Total, a: Stat, b: Stat, c: Stat)
    ensures
        folded(t, seq![a, b, c]) == folded(t, seq![c, a, b]),
{
    lemma_fold_insert(t, seq![a, b], 0, c);
    assert(seq![a, b].insert(0, c) =~= seq![c, a, b]);
    assert(seq![a, b, c].drop_last() =~= seq![a, b]);
}

/// Splitting a sequence between two accumulators and merging them gives the
/// same total as folding it into one.
pub proof fn lemma_fold_split(t: Total, s1: Seq<Stat>, s2: Seq<Stat>)
    ensures
        folded(t, s1 + s2) == folded(t, s1).merged(folded(t.fresh_like(), s2)),
    decreases s2.len(),
{
    let f = t.fresh_like();
    lemma_folded_shape(t, s1);
    if s2.len() == 0 {
        assert(s1 + s2 =~= s1);
    } else {
        let init = s2.drop_last();
        let y = s2.last();
        assert((s1 + s2).drop_last() =~= s1 + init);
        lemma_fold_split(t, s1, init);
        lemma_folded_shape(f, init);
        lemma_merge_absorb(folded(t, s1), folded(f, init), y);
    }
}

/// Folding keeps the shape of the total.
pub proof fn lemma_folded_shape(t: Total, stats: Seq<Stat>)
    ensures
        (folded(t, stats).sum is File) == (t.sum is File),
    decreases stats.len(),
{
    if stats.len() > 0 {
        lemma_folded_shape(t, stats.drop_last());
    }
}

proof fn lemma_merge_absorb(a: Total, b: Total, y: Stat)
    requires
        a.sum.same_shape(b.sum),
    ensures
        a.merged(b).absorbed(y) == a.merged(b.absorbed(y)),
{
    match (a.sum, b.sum, y) {
        (Stat::File(x), Stat::File(u), Stat::File(v)) => FileStat::lemma_plus_laws(x, u, v),
        (Stat::Dir(x), Stat::Dir(u), Stat::Dir(v)) => DirStat::lemma_plus_laws(x, u, v),
        _ => {},
    }
}

} // verus!
