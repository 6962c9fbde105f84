//! Run Coordinator: the verdict on preparing the shared output directory,
//! and the tally of a run's outcomes.
use vstd::prelude::*;

use crate::destination::resolve_spec;
use crate::transfer::{
    begin_spec,
    lemma_existing_destination_is_skipped,
    lemma_successful_transfer,
    run_spec,
    Stage,
    TransferEvent,
    TransferOutcome,
    TransferUnit,
};

verus! {

/// The name of the output directory under the working directory.
pub fn output_dir_name() -> (r: String)
    ensures
        r@ == "temp"@,
{
    String::from_str("temp")
}

/// What came of creating the output directory.
#[derive(Clone, Debug)]
pub enum DirCreation {
    /// The directory was created.
    Created,
    /// The directory existed already.
    AlreadyExists,
    /// Creation failed for another reason.
    Failed(String),
}

/// The verdict on the directory step: go on (saying whether an existing
/// directory is reused) or abort the run with the reason.
pub open spec fn dir_verdict_spec(c: DirCreation) -> Result<bool, String> {
    match c {
        DirCreation::Created => Ok(false),
        DirCreation::AlreadyExists => Ok(true),
        DirCreation::Failed(why) => Err(why),
    }
}

/// Decides whether the run may go on after the directory step. An existing
/// directory is no error; any other failure aborts the run before any
/// network activity.
pub fn output_dir_verdict(c: DirCreation) -> (r: Result<bool, String>)
    ensures
        r == dir_verdict_spec(c),
{
    match c {
        DirCreation::Created => Ok(false),
        DirCreation::AlreadyExists => Ok(true),
        DirCreation::Failed(why) => Err(why),
    }
}

/// The three ways a transfer can end.
#[derive(PartialEq, Eq, Structural, Clone, Copy, Debug)]
pub enum OutcomeKind {
    Skipped,
    Failed,
    Completed,
}

/// Which way an outcome ended.
pub open spec fn kind_of(o: TransferOutcome) -> OutcomeKind {
    match o {
        TransferOutcome::Skipped(_) => OutcomeKind::Skipped,
        TransferOutcome::Failed(_) => OutcomeKind::Failed,
        TransferOutcome::Completed(..) => OutcomeKind::Completed,
    }
}

/// How many outcomes in `s` ended the way `k` says.
pub open spec fn count_spec(s: Seq<TransferOutcome>, k: OutcomeKind) -> nat
    decreases s.len(),
{
    if s.len() == 0 {
        0
    } else {
        count_spec(s.drop_last(), k) + if kind_of(s.last()) == k {
            1nat
        } else {
            0nat
        }
    }
}

/// The tally of a run.
#[derive(Clone, Copy, Debug, PartialEq, Eq)]
pub struct Summary {
    /// Targets dropped before any transfer (failed send or status not 200).
    pub dropped: usize,
    pub skipped: usize,
    pub failed: usize,
    pub completed: usize,
}

proof fn lemma_count_bounded(s: Seq<TransferOutcome>, k: OutcomeKind)
    ensures
        count_spec(s, k) <= s.len(),
    decreases s.len(),
{
    if s.len() > 0 {
        lemma_count_bounded(s.drop_last(), k);
    }
}

/// Tallies the outcomes of a run and the number of dropped targets.
pub fn summarize(dropped: usize, outcomes: &Vec<TransferOutcome>) -> (r: Summary)
    ensures
        r.dropped == dropped,
        r.skipped == count_spec(outcomes@, OutcomeKind::Skipped),
        r.failed == count_spec(outcomes@, OutcomeKind::Failed),
        r.completed == count_spec(outcomes@, OutcomeKind::Completed),
{
    let mut skipped: usize = 0;
    let mut failed: usize = 0;
    let mut completed: usize = 0;
    let mut i: usize = 0;
    while i < outcomes.len()
        invariant
            i <= outcomes@.len(),
            skipped == count_spec(outcomes@.subrange(0, i as int), OutcomeKind::Skipped),
            failed == count_spec(outcomes@.subrange(0, i as int), OutcomeKind::Failed),
            completed == count_spec(outcomes@.subrange(0, i as int), OutcomeKind::Completed),
        decreases outcomes@.len() - i,
    {
        let ghost next = outcomes@.subrange(0, i + 1);
        proof {
            assert(next.drop_last() =~= outcomes@.subrange(0, i as int));
            lemma_count_bounded(next, OutcomeKind::Skipped);
            lemma_count_bounded(next, OutcomeKind::Failed);
            lemma_count_bounded(next, OutcomeKind::Completed);
            assert(next.last() == outcomes@[i as int]);
            assert(outcomes@.len() <= usize::MAX);
            let prev = outcomes@.subrange(0, i as int);
            let o = outcomes@[i as int];
            assert(count_spec(next, OutcomeKind::Skipped) == count_spec(prev, OutcomeKind::Skipped) + if kind_of(o) == OutcomeKind::Skipped { 1nat } else { 0nat });
            assert(count_spec(next, OutcomeKind::Failed) == count_spec(prev, OutcomeKind::Failed) + if kind_of(o) == OutcomeKind::Failed { 1nat } else { 0nat });
            assert(count_spec(next, OutcomeKind::Completed) == count_spec(prev, OutcomeKind::Completed) + if kind_of(o) == OutcomeKind::Completed { 1nat } else { 0nat });
        }
        let o = &outcomes[i];
        assert(*o == outcomes@[i as int]);
        match o {
            TransferOutcome::Skipped(_) => {
                proof {
                    assert(kind_of(outcomes@[i as int]) == OutcomeKind::Skipped);
                }
                skipped = skipped + 1;
            },
            TransferOutcome::Failed(_) => {
                proof {
                    assert(kind_of(outcomes@[i as int]) == OutcomeKind::Failed);
                }
                failed = failed + 1;
            },
            TransferOutcome::Completed(..) => {
                proof {
                    assert(kind_of(outcomes@[i as int]) == OutcomeKind::Completed);
                }
                completed = completed + 1;
            },
        }
        i = i + 1;
    }
    proof {
        assert(outcomes@.subrange(0, i as int) =~= outcomes@);
    }
    Summary { dropped, skipped, failed, completed }
}

/// The events of a transfer whose creation, read of `n` bytes and write
/// all succeed, its destination being free.
pub open spec fn success_events(n: u64) -> Seq<TransferEvent> {
    seq![
        TransferEvent::ExistenceChecked(false),
        TransferEvent::FileCreated(Ok(())),
        TransferEvent::BodyRead(Ok(n)),
        TransferEvent::BodyWritten(Ok(())),
    ]
}

/// The outcome of a finished unit.
pub open spec fn outcome_of(u: TransferUnit) -> TransferOutcome
    recommends
        u.stage is Done,
{
    u.stage->Done_0
}

proof fn lemma_count_all(s: Seq<TransferOutcome>, k: OutcomeKind)
    requires
        forall|i: int| 0 <= i < s.len() ==> kind_of(#[trigger] s[i]) == k,
    ensures
        count_spec(s, k) == s.len(),
    decreases s.len(),
{
    if s.len() > 0 {
        let p = s.drop_last();
        assert forall|i: int| 0 <= i < p.len() implies kind_of(#[trigger] p[i]) == k by {
            assert(p[i] == s[i]);
        }
        lemma_count_all(p, k);
    }
}

/// When all N transfers succeed, there are exactly N `Completed` outcomes,
/// each naming its own resolved destination, its URL and a non-empty byte
/// count; when the URLs give distinct file names, the destinations are
/// distinct.
pub proof fn lemma_all_transfers_complete(
    dir: Seq<char>,
    urls: Seq<Seq<char>>,
    units: Seq<TransferUnit>,
    sizes: Seq<u64>,
)
    requires
        units.len() == urls.len(),
        sizes.len() == urls.len(),
        forall|i: int| 0 <= i < urls.len() ==> begin_spec(dir, urls[i], #[trigger] units[i]),
        forall|i: int| 0 <= i < urls.len() ==> #[trigger] sizes[i] > 0,
    ensures
        ({
            let outs = Seq::new(
                urls.len(),
                |i: int| outcome_of(run_spec(units[i], success_events(sizes[i]))),
            );
            &&& count_spec(outs, OutcomeKind::Completed) == urls.len()
            &&& forall|i: int|
                0 <= i < urls.len() ==> #[trigger] outs[i] == TransferOutcome::Completed(
                    units[i].dest,
                    sizes[i],
                    units[i].url,
                ) && units[i].dest@ == resolve_spec(dir, urls[i]) && sizes[i] > 0
            &&& forall|i: int, j: int|
                0 <= i < urls.len() && 0 <= j < urls.len() && i != j
                    && resolve_spec(dir, urls[i]).1 != resolve_spec(dir, urls[j]).1
                    ==> (#[trigger] units[i].dest)@ != (#[trigger] units[j].dest)@
        }),
{
    let outs = Seq::new(
        urls.len(),
        |i: int| outcome_of(run_spec(units[i], success_events(sizes[i]))),
    );
    assert forall|i: int| 0 <= i < urls.len() implies #[trigger] outs[i]
        == TransferOutcome::Completed(units[i].dest, sizes[i], units[i].url) by {
        lemma_successful_transfer(dir, urls[i], units[i], sizes[i]);
    }
    lemma_count_all(outs, OutcomeKind::Completed);
}

/// A second run into the same directory goes on past the directory step,
/// and a transfer of a URL that the first run completed finds its
/// destination taken and is skipped, with the same destination, leaving
/// the file as it was.
pub proof fn lemma_second_run_skips(
    dir: Seq<char>,
    url: Seq<char>,
    first: TransferUnit,
    n: u64,
    second: TransferUnit,
    later: Seq<TransferEvent>,
)
    requires
        begin_spec(dir, url, first),
        begin_spec(dir, url, second),
    ensures
        dir_verdict_spec(DirCreation::AlreadyExists) is Ok,
        run_spec(first, success_events(n)).stage matches Stage::Done(
            TransferOutcome::Completed(d, _, _),
        ) && d@ == second.dest@,
        run_spec(second, seq![TransferEvent::ExistenceChecked(true)] + later).stage
            == Stage::Done(TransferOutcome::Skipped(second.dest)),
{
    lemma_successful_transfer(dir, url, first, n);
    lemma_existing_destination_is_skipped(dir, url, second, later);
}

} // verus!
