//! Whole evaluations: what the steps of an entry add up to when a caller
//! follows them.

use crate::entry::{EntryView, ReifyFail, SuccessView};
use crate::error::Error;
use crate::fingerprint::fingerprint;
use crate::protocol::{ActionView, EventView, Stage};
use crate::step::{
    dry_run_step, execute, finished, reify_step, resolved_count, staleness, Staleness,
};
use crate::watch::FileView;
use vstd::prelude::*;

verus! {

/// What the outside world holds in store for one evaluation.
pub struct World {
    /// How the required files resolve.
    pub required: Seq<Option<Seq<u8>>>,
    /// The watched files as they are before the command runs.
    pub before: Seq<Option<FileView>>,
    /// The exit code of the command, if it ends with one.
    pub exit: Option<i32>,
    /// The watched files as they are after the command has run.
    pub after: Seq<Option<FileView>>,
}

/// What a faithful caller reports after doing `action`, asked for with
/// `stage` reached.
pub open spec fn answer(world: World, stage: Stage, action: ActionView) -> EventView {
    match action {
        ActionView::Resolve(_) => EventView::Resolved(world.required),
        ActionView::Observe(_) => if stage == Stage::Sealing {
            EventView::Observed(world.after)
        } else {
            EventView::Observed(world.before)
        },
        ActionView::Run(_) => EventView::Exited(world.exit),
        _ => EventView::Begin,
    }
}

/// Where a real evaluation stands after its first step and `more` further
/// ones, each answered faithfully. A finished evaluation stays as it is.
pub open spec fn reify_trace(entry: EntryView, world: World, more: nat) -> (Stage, ActionView)
    decreases more,
{
    if more == 0 {
        reify_step(entry, Stage::Start, EventView::Begin)
    } else {
        let reached = reify_trace(entry, world, (more - 1) as nat);
        if reached.0 == Stage::Finished {
            reached
        } else {
            reify_step(entry, reached.0, answer(world, reached.0, reached.1))
        }
    }
}

/// Where a dry run stands after its first step and `more` further ones.
pub open spec fn dry_run_trace(entry: EntryView, world: World, more: nat) -> (Stage, ActionView)
    decreases more,
{
    if more == 0 {
        dry_run_step(entry, Stage::Start, EventView::Begin)
    } else {
        let reached = dry_run_trace(entry, world, (more - 1) as nat);
        if reached.0 == Stage::Finished {
            reached
        } else {
            dry_run_step(entry, reached.0, answer(world, reached.0, reached.1))
        }
    }
}

/// Every required file resolves.
pub open spec fn satisfied(entry: EntryView, world: World) -> bool {
    resolved_count(world.required) == entry.required_files.len()
}

/// The entry has a stored fingerprint, and the files observed give that one.
pub open spec fn unchanged(entry: EntryView, observed: Seq<Option<FileView>>) -> bool {
    staleness(entry, observed) == Staleness::Unchanged
}

/// The command runs: every required file resolves and the entry is not
/// unchanged.
pub open spec fn executes(entry: EntryView, world: World) -> bool {
    satisfied(entry, world) && !unchanged(entry, world.before)
}

/// How a real evaluation ends. A missing required file ends it before
/// anything else is looked at. An unchanged entry ends it with `Noop`. Else
/// the command runs: without an exit code the evaluation fails, with code 0
/// it succeeds with the fingerprint taken afterwards, and with any other code
/// it ends with that code.
pub open spec fn reify_outcome(entry: EntryView, world: World) -> ActionView {
    if !satisfied(entry, world) {
        ActionView::Done(Err(ReifyFail::MissingRequiredFiles))
    } else if unchanged(entry, world.before) {
        ActionView::Done(Ok(SuccessView::Noop))
    } else {
        match world.exit {
            None => ActionView::Fail(Error::Unknown),
            Some(code) => if code == 0 {
                ActionView::Done(
                    Ok(SuccessView::ExecSuccess(fingerprint(entry.cmd, world.after))),
                )
            } else {
                ActionView::Done(Err(ReifyFail::ExecFail(code)))
            },
        }
    }
}

/// How a dry run ends: with `Noop` for an unchanged entry and with `DryFail`
/// for any other.
pub open spec fn dry_run_outcome(entry: EntryView, world: World) -> ActionView {
    if unchanged(entry, world.before) {
        ActionView::Done(Ok(SuccessView::Noop))
    } else {
        ActionView::Done(Err(ReifyFail::DryFail))
    }
}

/// A finished real evaluation stays as it is.
pub proof fn lemma_reify_trace_rests(entry: EntryView, world: World, at: nat, later: nat)
    requires
        reify_trace(entry, world, at).0 == Stage::Finished,
        at <= later,
    ensures
        reify_trace(entry, world, later) == reify_trace(entry, world, at),
    decreases later,
{
    if later > at {
        lemma_reify_trace_rests(entry, world, at, (later - 1) as nat);
    }
}

/// A finished dry run stays as it is.
pub proof fn lemma_dry_run_trace_rests(entry: EntryView, world: World, at: nat, later: nat)
    requires
        dry_run_trace(entry, world, at).0 == Stage::Finished,
        at <= later,
    ensures
        dry_run_trace(entry, world, later) == dry_run_trace(entry, world, at),
    decreases later,
{
    if later > at {
        lemma_dry_run_trace_rests(entry, world, at, (later - 1) as nat);
    }
}

/// A real evaluation that is answered faithfully is over after five steps at
/// the latest, and ends as `reify_outcome` says. In particular it never ends
/// with `Error::OutOfTurn`.
pub proof fn lemma_reify_ends(entry: EntryView, world: World, more: nat)
    requires
        more >= 4,
    ensures
        reify_trace(entry, world, more) == (Stage::Finished, reify_outcome(entry, world)),
{
    reveal_with_fuel(reify_trace, 5);
    lemma_reify_trace_rests(entry, world, 4, more);
}

/// A real evaluation asks for the command to run if and only if every
/// required file resolves and the entry is not unchanged; what it then asks
/// for is the entry's invocation.
pub proof fn lemma_reify_runs_when_stale(entry: EntryView, world: World)
    ensures
        executes(entry, world) <==> exists|more: nat| reify_trace(entry, world, more).1 is Run,
        forall|more: nat| #[trigger]
            reify_trace(entry, world, more).1 is Run ==> reify_trace(entry, world, more)
                == execute(entry),
{
    reveal_with_fuel(reify_trace, 5);
    assert forall|more: nat| #[trigger] reify_trace(entry, world, more).1 is Run implies executes(
        entry,
        world,
    ) && reify_trace(entry, world, more) == execute(entry) by {
        if more >= 4 {
            lemma_reify_ends(entry, world, more);
        }
    }
    if executes(entry, world) {
        if entry.sha is None {
            assert(reify_trace(entry, world, 1).1 is Run);
        } else {
            assert(reify_trace(entry, world, 2).1 is Run);
        }
    }
}

/// A dry run that is answered faithfully is over after two steps at the
/// latest, and ends as `dry_run_outcome` says.
pub proof fn lemma_dry_run_ends(entry: EntryView, world: World, more: nat)
    requires
        more >= 1,
    ensures
        dry_run_trace(entry, world, more) == (Stage::Finished, dry_run_outcome(entry, world)),
{
    reveal_with_fuel(dry_run_trace, 2);
    lemma_dry_run_trace_rests(entry, world, 1, more);
}

/// While a required file is missing, a real evaluation ends with
/// `MissingRequiredFiles`, and before that it asks for nothing but the
/// resolution of the required files: no command runs and no file is read.
pub proof fn lemma_missing_required_files(entry: EntryView, world: World)
    requires
        !satisfied(entry, world),
    ensures
        reify_outcome(entry, world) == ActionView::Done(Err(ReifyFail::MissingRequiredFiles)),
        forall|more: nat|
            !(#[trigger] reify_trace(entry, world, more).1 is Run) && !(reify_trace(
                entry,
                world,
                more,
            ).1 is Observe),
{
    reveal_with_fuel(reify_trace, 2);
    assert forall|more: nat|
        !(#[trigger] reify_trace(entry, world, more).1 is Run) && !(reify_trace(
            entry,
            world,
            more,
        ).1 is Observe) by {
        if more >= 1 {
            lemma_reify_trace_rests(entry, world, 1, more);
        }
    }
}

/// An entry without a stored fingerprint runs its command as soon as its
/// required files are found to resolve, without reading any file first.
pub proof fn lemma_no_history_executes(entry: EntryView, world: World)
    requires
        entry.sha is None,
        satisfied(entry, world),
    ensures
        executes(entry, world),
        reify_trace(entry, world, 0).1 is Resolve,
        reify_trace(entry, world, 1) == execute(entry),
{
    reveal_with_fuel(reify_trace, 2);
}

/// An entry whose stored fingerprint is the one that the watched files give
/// ends with `Noop`, in a real evaluation whose required files resolve and in
/// a dry run alike, and neither ever asks for the command to run.
pub proof fn lemma_unchanged_is_noop(entry: EntryView, world: World)
    requires
        unchanged(entry, world.before),
    ensures
        satisfied(entry, world) ==> reify_outcome(entry, world) == ActionView::Done(
            Ok(SuccessView::Noop),
        ),
        dry_run_outcome(entry, world) == ActionView::Done(Ok(SuccessView::Noop)),
        forall|more: nat| !(#[trigger] reify_trace(entry, world, more).1 is Run),
        forall|more: nat| !(#[trigger] dry_run_trace(entry, world, more).1 is Run),
{
    lemma_reify_runs_when_stale(entry, world);
    lemma_dry_run_never_runs(entry, world);
}

/// A dry run never asks for the command to run nor for required files to be
/// resolved, whatever it is told: all it ever asks for is to read the watched
/// files.
pub proof fn lemma_dry_run_step_is_passive(entry: EntryView, stage: Stage, event: EventView)
    ensures
        !(dry_run_step(entry, stage, event).1 is Run),
        !(dry_run_step(entry, stage, event).1 is Resolve),
{
}

/// A dry run never asks for the command to run.
pub proof fn lemma_dry_run_never_runs(entry: EntryView, world: World)
    ensures
        forall|more: nat| !(#[trigger] dry_run_trace(entry, world, more).1 is Run),
{
    assert forall|more: nat| !(#[trigger] dry_run_trace(entry, world, more).1 is Run) by {
        lemma_dry_run_trace_is_passive(entry, world, more);
    }
}

/// No step of a dry run asks for the command to run.
proof fn lemma_dry_run_trace_is_passive(entry: EntryView, world: World, more: nat)
    ensures
        !(dry_run_trace(entry, world, more).1 is Run),
    decreases more,
{
    if more > 0 {
        lemma_dry_run_trace_is_passive(entry, world, (more - 1) as nat);
    }
}

/// A dry run judges staleness as a real evaluation does: on the same files it
/// ends with `Noop` exactly when a real evaluation whose required files
/// resolve would, and it ends with `DryFail` exactly when that one would run
/// the command.
pub proof fn lemma_dry_run_agrees_with_reify(entry: EntryView, world: World)
    requires
        satisfied(entry, world),
    ensures
        dry_run_outcome(entry, world) == ActionView::Done(Ok(SuccessView::Noop)) <==> reify_outcome(
            entry,
            world,
        ) == ActionView::Done(Ok(SuccessView::Noop)),
        dry_run_outcome(entry, world) == ActionView::Done(Err(ReifyFail::DryFail)) <==> executes(
            entry,
            world,
        ),
        forall|observed: Seq<Option<FileView>>|
            #![trigger dry_run_step(entry, Stage::Comparing, EventView::Observed(observed))]
            dry_run_step(entry, Stage::Comparing, EventView::Observed(observed)) == finished(
                Ok(SuccessView::Noop),
            ) <==> reify_step(entry, Stage::Comparing, EventView::Observed(observed)) == finished(
                Ok(SuccessView::Noop),
            ),
{
}

/// A command that exits with a code other than 0 ends the evaluation with
/// that code, and no fingerprint is taken afterwards.
pub proof fn lemma_failed_command(entry: EntryView, world: World, code: i32)
    requires
        executes(entry, world),
        world.exit == Some(code),
        code != 0,
    ensures
        reify_outcome(entry, world) == ActionView::Done(Err(ReifyFail::ExecFail(code))),
        forall|more: nat| #[trigger] reify_trace(entry, world, more).0 != Stage::Sealing,
{
    reveal_with_fuel(reify_trace, 5);
    assert forall|more: nat| #[trigger] reify_trace(entry, world, more).0 != Stage::Sealing by {
        if more >= 4 {
            lemma_reify_ends(entry, world, more);
        }
    }
}

} // verus!
