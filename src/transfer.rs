//! Transfer Unit: the lifecycle of one download, as a state machine. The
//! caller performs each action (an existence check, a file creation, a body
//! read, a write) and hands back what came of it as an event.
use vstd::prelude::*;

use crate::destination::{resolve, resolve_spec, Destination};

verus! {

/// How one transfer ended.
#[derive(Clone, Debug)]
pub enum TransferOutcome {
    /// The destination existed already; nothing was written.
    Skipped(Destination),
    /// The transfer failed for the given reason.
    Failed(String),
    /// The body was written: the destination, the byte count and the
    /// source URL.
    Completed(Destination, u64, String),
}

/// Where a transfer stands.
#[derive(Clone, Debug)]
pub enum Stage {
    /// Waiting for the existence check of the destination.
    Checking,
    /// Waiting for the destination file to be created.
    Creating,
    /// Waiting for the response body.
    Reading,
    /// Waiting for the write of a body of the given length.
    Writing(u64),
    /// Finished with an outcome; further events change nothing.
    Done(TransferOutcome),
}

/// What came of the last action.
#[derive(Debug)]
pub enum TransferEvent {
    /// Whether a file exists at the destination.
    ExistenceChecked(bool),
    /// The destination file was created, or why it could not be.
    FileCreated(Result<(), String>),
    /// The body was read in full (its length), or why it could not be.
    BodyRead(Result<u64, String>),
    /// The body was written to the file, or why it could not be.
    BodyWritten(Result<(), String>),
}

/// What the caller is to do next.
#[derive(Clone, Debug)]
pub enum TransferAction {
    /// Check whether a file exists at the destination.
    CheckExists(Destination),
    /// Create the destination file.
    CreateFile(Destination),
    /// Read the whole response body.
    ReadBody,
    /// Write the body into the created destination file.
    WriteBody(Destination),
    /// Report the outcome; the transfer is over.
    Report(TransferOutcome),
    /// Nothing: the event did not fit the stage.
    Idle,
}

/// One download: its source URL, its destination and its stage.
pub struct TransferUnit {
    pub url: String,
    pub dest: Destination,
    pub stage: Stage,
}

/// A fresh transfer of `url` into `dir`, before any event.
pub open spec fn begin_spec(dir: Seq<char>, url: Seq<char>, u: TransferUnit) -> bool {
    &&& u.url@ == url
    &&& u.dest@ == resolve_spec(dir, url)
    &&& u.stage is Checking
}

/// One transition: the next unit and the action it asks for.
///
/// A skip reports the destination untouched. A failure to create the file,
/// to read the body or to write it ends the transfer as `Failed` with the
/// reason given; a failed write is reported, not passed over. An event that
/// does not fit the stage changes nothing.
pub open spec fn step_spec(u: TransferUnit, e: TransferEvent) -> (TransferUnit, TransferAction) {
    let with = |s: Stage| TransferUnit { url: u.url, dest: u.dest, stage: s };
    match (u.stage, e) {
        (Stage::Checking, TransferEvent::ExistenceChecked(true)) => {
            let o = TransferOutcome::Skipped(u.dest);
            (with(Stage::Done(o)), TransferAction::Report(o))
        },
        (Stage::Checking, TransferEvent::ExistenceChecked(false)) => {
            (with(Stage::Creating), TransferAction::CreateFile(u.dest))
        },
        (Stage::Creating, TransferEvent::FileCreated(Ok(()))) => {
            (with(Stage::Reading), TransferAction::ReadBody)
        },
        (Stage::Creating, TransferEvent::FileCreated(Err(why))) => {
            let o = TransferOutcome::Failed(why);
            (with(Stage::Done(o)), TransferAction::Report(o))
        },
        (Stage::Reading, TransferEvent::BodyRead(Ok(n))) => {
            (with(Stage::Writing(n)), TransferAction::WriteBody(u.dest))
        },
        (Stage::Reading, TransferEvent::BodyRead(Err(why))) => {
            let o = TransferOutcome::Failed(why);
            (with(Stage::Done(o)), TransferAction::Report(o))
        },
        (Stage::Writing(n), TransferEvent::BodyWritten(Ok(()))) => {
            let o = TransferOutcome::Completed(u.dest, n, u.url);
            (with(Stage::Done(o)), TransferAction::Report(o))
        },
        (Stage::Writing(_), TransferEvent::BodyWritten(Err(why))) => {
            let o = TransferOutcome::Failed(why);
            (with(Stage::Done(o)), TransferAction::Report(o))
        },
        _ => (u, TransferAction::Idle),
    }
}

impl TransferUnit {
    /// Starts the transfer of `url` (the response's final URL) into
    /// `output_dir`: the first action is the existence check of its
    /// destination.
    pub fn begin(output_dir: &str, url: &str) -> (r: (TransferUnit, TransferAction))
        ensures
            begin_spec(output_dir@, url@, r.0),
            r.1 == TransferAction::CheckExists(r.0.dest),
    {
        let dest = resolve(output_dir, url);
        let action = TransferAction::CheckExists(dest.duplicate());
        (TransferUnit { url: url.to_owned(), dest, stage: Stage::Checking }, action)
    }

    /// Takes the outcome of the last action and gives the next one.
    pub fn step(&mut self, event: TransferEvent) -> (r: TransferAction)
        ensures
            (*final(self), r) == step_spec(*old(self), event),
    {
        let outcome = match (&self.stage, event) {
            (Stage::Checking, TransferEvent::ExistenceChecked(exists)) => {
                if exists {
                    TransferOutcome::Skipped(self.dest.duplicate())
                } else {
                    self.stage = Stage::Creating;
                    return TransferAction::CreateFile(self.dest.duplicate());
                }
            },
            (Stage::Creating, TransferEvent::FileCreated(res)) => match res {
                Ok(()) => {
                    self.stage = Stage::Reading;
                    return TransferAction::ReadBody;
                },
                Err(why) => TransferOutcome::Failed(why),
            },
            (Stage::Reading, TransferEvent::BodyRead(res)) => match res {
                Ok(n) => {
                    self.stage = Stage::Writing(n);
                    return TransferAction::WriteBody(self.dest.duplicate());
                },
                Err(why) => TransferOutcome::Failed(why),
            },
            (Stage::Writing(n), TransferEvent::BodyWritten(res)) => match res {
                Ok(()) => TransferOutcome::Completed(self.dest.duplicate(), *n, self.url.clone()),
                Err(why) => TransferOutcome::Failed(why),
            },
            _ => {
                return TransferAction::Idle;
            },
        };
        let reported = outcome.duplicate();
        self.stage = Stage::Done(outcome);
        TransferAction::Report(reported)
    }

    /// Whether the transfer has ended.
    pub fn is_done(&self) -> (r: bool)
        ensures
            r == self.stage is Done,
    {
        match self.stage {
            Stage::Done(_) => true,
            _ => false,
        }
    }
}

impl TransferOutcome {
    /// A copy of this outcome, equal to it.
    pub fn duplicate(&self) -> (r: TransferOutcome)
        ensures
            r == *self,
    {
        match self {
            TransferOutcome::Skipped(d) => TransferOutcome::Skipped(d.duplicate()),
            TransferOutcome::Failed(why) => TransferOutcome::Failed(why.clone()),
            TransferOutcome::Completed(d, n, url) => TransferOutcome::Completed(
                d.duplicate(),
                *n,
                url.clone(),
            ),
        }
    }
}

/// The unit after a sequence of events.
pub open spec fn run_spec(u: TransferUnit, es: Seq<TransferEvent>) -> TransferUnit
    decreases es.len(),
{
    if es.len() == 0 {
        u
    } else {
        run_spec(step_spec(u, es[0]).0, es.drop_first())
    }
}

/// The actions asked for along a sequence of events, one per event.
pub open spec fn actions_spec(u: TransferUnit, es: Seq<TransferEvent>) -> Seq<TransferAction>
    decreases es.len(),
{
    if es.len() == 0 {
        Seq::empty()
    } else {
        seq![step_spec(u, es[0]).1] + actions_spec(step_spec(u, es[0]).0, es.drop_first())
    }
}

/// Whether an action touches the destination file.
pub open spec fn writes_file(a: TransferAction) -> bool {
    a is CreateFile || a is WriteBody
}

/// A finished transfer stays as it is and asks for nothing more.
pub proof fn lemma_done_is_final(u: TransferUnit, es: Seq<TransferEvent>)
    requires
        u.stage is Done,
    ensures
        run_spec(u, es) == u,
        actions_spec(u, es).len() == es.len(),
        forall|i: int| 0 <= i < es.len() ==> actions_spec(u, es)[i] is Idle,
    decreases es.len(),
{
    if es.len() > 0 {
        lemma_done_is_final(u, es.drop_first());
    }
}

/// A transfer whose destination exists already ends as `Skipped` with that
/// destination, whatever events follow, and never asks to create or write
/// a file: the existing file is left as it was.
pub proof fn lemma_existing_destination_is_skipped(
    dir: Seq<char>,
    url: Seq<char>,
    u: TransferUnit,
    later: Seq<TransferEvent>,
)
    requires
        begin_spec(dir, url, u),
    ensures
        run_spec(u, seq![TransferEvent::ExistenceChecked(true)] + later).stage
            == Stage::Done(TransferOutcome::Skipped(u.dest)),
        u.dest@ == resolve_spec(dir, url),
        forall|i: int|
            0 <= i < later.len() + 1 ==> !writes_file(
                #[trigger] actions_spec(u, seq![TransferEvent::ExistenceChecked(true)] + later)[i],
            ),
{
    let es = seq![TransferEvent::ExistenceChecked(true)] + later;
    assert(es.drop_first() =~= later);
    let next = step_spec(u, es[0]).0;
    lemma_done_is_final(next, later);
}

/// A transfer whose destination is free, and whose creation, read and write
/// all succeed, completes with its destination, the body's length and its
/// URL.
pub proof fn lemma_successful_transfer(dir: Seq<char>, url: Seq<char>, u: TransferUnit, n: u64)
    requires
        begin_spec(dir, url, u),
    ensures
        run_spec(
            u,
            seq![
                TransferEvent::ExistenceChecked(false),
                TransferEvent::FileCreated(Ok(())),
                TransferEvent::BodyRead(Ok(n)),
                TransferEvent::BodyWritten(Ok(())),
            ],
        ).stage == Stage::Done(TransferOutcome::Completed(u.dest, n, u.url)),
        u.dest@ == resolve_spec(dir, url),
        u.url@ == url,
{
    let es = seq![
        TransferEvent::ExistenceChecked(false),
        TransferEvent::FileCreated(Ok(())),
        TransferEvent::BodyRead(Ok(n)),
        TransferEvent::BodyWritten(Ok(())),
    ];
    let u1 = step_spec(u, es[0]).0;
    let u2 = step_spec(u1, es[1]).0;
    let u3 = step_spec(u2, es[2]).0;
    let u4 = step_spec(u3, es[3]).0;
    let s1 = es.drop_first();
    let s2 = s1.drop_first();
    let s3 = s2.drop_first();
    let s4 = s3.drop_first();
    assert(s1[0] == es[1] && s2[0] == es[2] && s3[0] == es[3]);
    assert(s4.len() == 0);
    assert(run_spec(u4, s4) == u4);
    assert(run_spec(u3, s3) == u4);
    assert(run_spec(u2, s2) == u4);
    assert(run_spec(u1, s1) == u4);
    assert(run_spec(u, es) == u4);
}

} // verus!
