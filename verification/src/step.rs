//! The steps of an evaluation: what an entry asks for at each stage, given
//! what it was told.

use crate::entry::{EntryView, ReifyFail, SuccessView};
use crate::error::Error;
use crate::fingerprint::fingerprint;
use crate::protocol::{ActionView, EventView, InvocationView, Stage, Stream};
use crate::text::join;
use crate::watch::FileView;
use vstd::prelude::*;

verus! {

/// How many of the paths resolved.
pub open spec fn resolved_count(found: Seq<Option<Seq<u8>>>) -> nat
    decreases found.len(),
{
    if found.len() == 0 {
        0
    } else if found.last() is Some {
        resolved_count(found.drop_last()) + 1
    } else {
        resolved_count(found.drop_last())
    }
}

/// How an entry's command is started: `/bin/bash -c` with a script that sets
/// `-xe` and then holds the command; with the declared paths as they were
/// declared, one per line, in the variables `files` and `required_files`; and
/// with the caller's own standard output and standard error.
pub open spec fn invocation_of(entry: EntryView) -> InvocationView {
    InvocationView {
        program: "/bin/bash"@,
        args: seq!["-c"@, "set -xe"@ + "\n"@ + entry.cmd],
        env: seq![
            ("files"@, join(entry.files, "\n"@)),
            ("required_files"@, join(entry.required_files, "\n"@)),
        ],
        stdout: Stream::Inherit,
        stderr: Stream::Inherit,
    }
}

/// The end of an evaluation with this outcome.
pub open spec fn finished(outcome: Result<SuccessView, ReifyFail>) -> (Stage, ActionView) {
    (Stage::Finished, ActionView::Done(outcome))
}

/// The end of an evaluation that was answered out of turn.
pub open spec fn out_of_turn() -> (Stage, ActionView) {
    (Stage::Finished, ActionView::Fail(Error::OutOfTurn))
}

/// Running the command: what a stale entry does in a real evaluation.
pub open spec fn execute(entry: EntryView) -> (Stage, ActionView) {
    (Stage::Running, ActionView::Run(invocation_of(entry)))
}

/// How an entry stands to the files observed for it.
#[derive(Debug, Clone, Copy, PartialEq, Eq, Structural)]
pub enum Staleness {
    /// The entry has no stored fingerprint.
    NoHistory,
    /// The files give the stored fingerprint.
    Unchanged,
    /// The files give another fingerprint than the stored one.
    Changed,
}

impl Staleness {
    /// Whether the entry is to execute: always, unless it is unchanged.
    pub open spec fn executes(self) -> bool {
        self != Staleness::Unchanged
    }

    /// Whether the entry is to execute: always, unless it is unchanged.
    #[verifier::when_used_as_spec(executes)]
    pub fn decide(self) -> (execute: bool)
        ensures
            execute == self.executes(),
    {
        match self {
            Staleness::Unchanged => false,
            _ => true,
        }
    }
}

/// How `entry` stands to the files `observed` for it.
pub open spec fn staleness(entry: EntryView, observed: Seq<Option<FileView>>) -> Staleness {
    match entry.sha {
        None => Staleness::NoHistory,
        Some(stored) => if fingerprint(entry.cmd, observed) == stored {
            Staleness::Unchanged
        } else {
            Staleness::Changed
        },
    }
}

/// The staleness check. An entry without a stored fingerprint executes without
/// a look at its files. One with a stored fingerprint asks for its watched
/// files, and once they are observed it executes unless it is unchanged. An
/// entry that executes goes on with `stale`; an unchanged one is done, with
/// `Noop`.
pub open spec fn check_then(
    entry: EntryView,
    observed: Option<Seq<Option<FileView>>>,
    stale: (Stage, ActionView),
) -> (Stage, ActionView) {
    match (entry.sha, observed) {
        (None, _) => stale,
        (Some(_), None) => (Stage::Comparing, ActionView::Observe(entry.watched())),
        (Some(_), Some(observed)) => if staleness(entry, observed).executes() {
            stale
        } else {
            finished(Ok(SuccessView::Noop))
        },
    }
}

/// One step of a real evaluation.
pub open spec fn reify_step(entry: EntryView, stage: Stage, event: EventView) -> (
    Stage,
    ActionView,
) {
    match (stage, event) {
        (Stage::Start, EventView::Begin) => (
            Stage::Admitting,
            ActionView::Resolve(entry.required_files),
        ),
        (Stage::Admitting, EventView::Resolved(found)) => if resolved_count(found)
            == entry.required_files.len() {
            check_then(entry, None, execute(entry))
        } else {
            finished(Err(ReifyFail::MissingRequiredFiles))
        },
        (Stage::Comparing, EventView::Observed(observed)) => check_then(
            entry,
            Some(observed),
            execute(entry),
        ),
        (Stage::Running, EventView::Exited(Some(code))) => if code == 0 {
            (Stage::Sealing, ActionView::Observe(entry.watched()))
        } else {
            finished(Err(ReifyFail::ExecFail(code)))
        },
        (Stage::Running, EventView::Exited(None)) => (
            Stage::Finished,
            ActionView::Fail(Error::Unknown),
        ),
        (Stage::Sealing, EventView::Observed(observed)) => finished(
            Ok(SuccessView::ExecSuccess(fingerprint(entry.cmd, observed))),
        ),
        _ => out_of_turn(),
    }
}

/// One step of a dry run.
pub open spec fn dry_run_step(entry: EntryView, stage: Stage, event: EventView) -> (
    Stage,
    ActionView,
) {
    match (stage, event) {
        (Stage::Start, EventView::Begin) => check_then(
            entry,
            None,
            finished(Err(ReifyFail::DryFail)),
        ),
        (Stage::Comparing, EventView::Observed(observed)) => check_then(
            entry,
            Some(observed),
            finished(Err(ReifyFail::DryFail)),
        ),
        _ => out_of_turn(),
    }
}

/// How many of the paths resolved.
pub fn count_resolved(found: &Vec<Option<Vec<u8>>>) -> (count: usize)
    ensures
        count == resolved_count(found.deep_view()),
{
    let mut count: usize = 0;
    let mut i: usize = 0;
    while i < found.len()
        invariant
            i <= found.len(),
            count <= i,
            count == resolved_count(found.deep_view().take(i as int)),
        decreases found.len() - i,
    {
        proof {
            let upto = found.deep_view().take(i + 1);
            assert(upto.drop_last() =~= found.deep_view().take(i as int));
        }
        if found[i].is_some() {
            count += 1;
        }
        i += 1;
    }
    assert(found.deep_view().take(i as int) =~= found.deep_view());
    count
}

} // verus!
