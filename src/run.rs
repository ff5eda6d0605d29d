//! The decisions of a run over many inputs: which entries are counted, which
//! failures stop the run, what is reported and whether a total is printed.

use vstd::prelude::*;
use crate::stat::EntryKind;
use crate::total::{folded, lemma_folded_shape, Stat, Total};

verus! {

/// What a run counts: the contents of regular files, or the entries of
/// directories by type. Fixed for the whole run.
#[derive(Clone, Copy, Debug, PartialEq, Eq, Structural)]
pub enum Mode {
    Content,
    Structure,
}

impl Mode {
    /// The type of entry that the mode counts.
    pub open spec fn target(self) -> EntryKind {
        match self {
            Mode::Content => EntryKind::File,
            Mode::Structure => EntryKind::Dir,
        }
    }

    /// The type of entry that the mode counts.
    pub fn target_kind(&self) -> (r: EntryKind)
        ensures
            r == self.target(),
    {
        match self {
            Mode::Content => EntryKind::File,
            Mode::Structure => EntryKind::Dir,
        }
    }

    /// An empty total of the shape that the mode produces.
    pub open spec fn fresh_total(self) -> Total {
        match self {
            Mode::Content => Total::file_zero(),
            Mode::Structure => Total::dir_zero(),
        }
    }
}

/// Why an entry could not be counted.
#[derive(Debug)]
pub enum Failure {
    /// The entry is not of the type that the mode counts. It is reported and
    /// the run goes on.
    WrongType { path: String, expected: EntryKind },
    /// The entry could not be read. The run stops.
    Io { path: String, message: String },
}

impl Failure {
    /// Whether the failure stops the whole run.
    pub fn is_fatal(&self) -> (r: bool)
        ensures
            r == (self is Io),
    {
        match self {
            Failure::WrongType { .. } => false,
            Failure::Io { .. } => true,
        }
    }
}

/// Checks that an entry of type `kind`, found at `path`, is one that `mode`
/// counts.
pub fn check_target(mode: Mode, path: &str, kind: EntryKind) -> (r: Result<(), Failure>)
    ensures
        r is Ok <==> kind == mode.target(),
        r matches Err(Failure::WrongType { path: p, expected }) ==> p@ == path@ && expected
            == mode.target(),
        r is Err ==> r->Err_0 is WrongType,
{
    let want = mode.target_kind();
    if kind == want {
        Ok(())
    } else {
        Err(Failure::WrongType { path: path.to_owned(), expected: want })
    }
}

/// The paths among `walked` whose type is the one that `mode` counts, in
/// their order.
pub open spec fn target_paths(mode: Mode, walked: Seq<(String, Option<EntryKind>)>) -> Seq<String>
    decreases walked.len(),
{
    if walked.len() == 0 {
        seq![]
    } else {
        let init = target_paths(mode, walked.drop_last());
        if walked.last().1 == Some(mode.target()) {
            init.push(walked.last().0)
        } else {
            init
        }
    }
}

/// How many entries of `walked` are of the type that `mode` counts.
pub open spec fn count_targets(mode: Mode, walked: Seq<(String, Option<EntryKind>)>) -> nat
    decreases walked.len(),
{
    if walked.len() == 0 {
        0
    } else {
        count_targets(mode, walked.drop_last()) + if walked.last().1 == Some(mode.target()) {
            1nat
        } else {
            0nat
        }
    }
}

/// Picks, from the entries that a walk of a tree met, those that a recursive
/// run counts: regular files for contents, directories for structure.
pub fn select_targets(mode: Mode, walked: &[(String, Option<EntryKind>)]) -> (r: Vec<String>)
    ensures
        r@ == target_paths(mode, walked@),
{
    let want = mode.target_kind();
    let mut out: Vec<String> = Vec::new();
    let mut i: usize = 0;
    assert(walked@.take(0) =~= Seq::<(String, Option<EntryKind>)>::empty());
    while i < walked.len()
        invariant
            i <= walked@.len(),
            want == mode.target(),
            out@ == target_paths(mode, walked@.take(i as int)),
        decreases walked@.len() - i,
    {
        assert(walked@.take(i + 1).drop_last() =~= walked@.take(i as int));
        if walked[i].1 == Some(want) {
            out.push(walked[i].0.clone());
        }
        i = i + 1;
    }
    assert(walked@.take(walked@.len() as int) =~= walked@);
    out
}

/// A recursive run has exactly as many targets as the walk met entries of
/// the counted type.
pub proof fn lemma_target_count(mode: Mode, walked: Seq<(String, Option<EntryKind>)>)
    ensures
        target_paths(mode, walked).len() == count_targets(mode, walked),
    decreases walked.len(),
{
    if walked.len() > 0 {
        lemma_target_count(mode, walked.drop_last());
    }
}

/// What a run does with the outcome of one entry.
#[derive(Debug)]
pub enum Step {
    /// Print the entry's statistics; they were folded into the total.
    Report(Stat),
    /// Print nothing; the statistics were folded into the total.
    Counted,
    /// Print a warning and go on; the total is unchanged.
    Warn(Failure),
    /// Stop the run with this failure; the total is unchanged.
    Abort(Failure),
}

/// The state of a run: the running total, and whether per-entry reports are
/// left out.
pub struct Run {
    pub total: Total,
    pub quiet: bool,
}

impl Run {
    /// A run of `mode`, with nothing counted yet.
    pub fn new(mode: Mode, quiet: bool) -> (r: Run)
        ensures
            r.total == mode.fresh_total(),
            r.quiet == quiet,
    {
        let total = match mode {
            Mode::Content => Total::file(),
            Mode::Structure => Total::dir(),
        };
        Run { total, quiet }
    }

    /// The state after taking the outcome of one entry: a count is folded
    /// into the total, a failure leaves the state as it was.
    pub open spec fn after(self, outcome: Result<Stat, Failure>) -> Run {
        match outcome {
            Ok(s) => Run { total: self.total.absorbed(s), quiet: self.quiet },
            Err(_) => self,
        }
    }

    /// Takes the outcome of one entry: a count is folded into the total and
    /// reported unless the run is quiet; a wrong type is warned of; any other
    /// failure stops the run.
    pub fn record(&mut self, outcome: Result<Stat, Failure>) -> (r: Step)
        ensures
            *final(self) == old(self).after(outcome),
            r is Abort <==> aborts(outcome),
            match outcome {
                Ok(s) => if old(self).quiet {
                    r is Counted
                } else {
                    r == Step::Report(s)
                },
                Err(f) => if f is Io {
                    r == Step::Abort(f)
                } else {
                    r == Step::Warn(f)
                },
            },
    {
        match outcome {
            Ok(s) => {
                self.total.add_assign(&s);
                if self.quiet {
                    Step::Counted
                } else {
                    Step::Report(s)
                }
            },
            Err(f) => {
                if f.is_fatal() {
                    Step::Abort(f)
                } else {
                    Step::Warn(f)
                }
            },
        }
    }

    /// The total to print at the end of the run: only when more than one
    /// entry was counted.
    pub fn total_line(&self) -> (r: Option<Stat>)
        ensures
            r == if self.total.done > 1 {
                Some(self.total.sum)
            } else {
                None::<Stat>
            },
    {
        if self.total.done > 1 {
            Some(self.total.sum)
        } else {
            None
        }
    }
}

/// Whether the outcome of an entry stops the run.
pub open spec fn aborts(outcome: Result<Stat, Failure>) -> bool {
    outcome matches Err(Failure::Io { .. })
}

/// An entry of the wrong type, such as a directory given to a content run,
/// does not stop the run and leaves its state as it was, so that the entries
/// after it are counted as if it had not been given.
pub proof fn lemma_wrong_type_goes_on(run: Run, path: String, expected: EntryKind)
    ensures
        !aborts(Err(Failure::WrongType { path, expected })),
        run.after(Err(Failure::WrongType { path, expected })) == run,
{
}

/// Counting `n` entries of the run's shape from a fresh total records `n`
/// entries as done.
pub proof fn lemma_done_counts(mode: Mode, stats: Seq<Stat>)
    requires
        stats.len() <= usize::MAX,
        forall|i: int| 0 <= i < stats.len() ==> stats[i].same_shape(mode.fresh_total().sum),
    ensures
        folded(mode.fresh_total(), stats).done == stats.len(),
    decreases stats.len(),
{
    if stats.len() > 0 {
        let init = stats.drop_last();
        assert forall|i: int| 0 <= i < init.len() implies init[i].same_shape(
            mode.fresh_total().sum,
        ) by {
            assert(init[i] == stats[i]);
        }
        lemma_done_counts(mode, init);
        lemma_folded_shape(mode.fresh_total(), init);
        assert(stats.last() == stats[stats.len() - 1]);
    }
}

/// A recursive run over a tree counts each entry of the counted type that
/// the walk met, and nothing else: once every target is counted, the run has
/// as many entries done as the tree holds of that type, and so as many
/// reports when it is not quiet.
pub proof fn lemma_recursive_counts(
    mode: Mode,
    walked: Seq<(String, Option<EntryKind>)>,
    stats: Seq<Stat>,
)
    requires
        walked.len() <= usize::MAX,
        stats.len() == target_paths(mode, walked).len(),
        forall|i: int| 0 <= i < stats.len() ==> stats[i].same_shape(mode.fresh_total().sum),
    ensures
        folded(mode.fresh_total(), stats).done == count_targets(mode, walked),
{
    lemma_target_count(mode, walked);
    lemma_targets_bounded(mode, walked);
    lemma_done_counts(mode, stats);
}

proof fn lemma_targets_bounded(mode: Mode, walked: Seq<(String, Option<EntryKind>)>)
    ensures
        count_targets(mode, walked) <= walked.len(),
    decreases walked.len(),
{
    if walked.len() > 0 {
        lemma_targets_bounded(mode, walked.drop_last());
    }
}

} // verus!
