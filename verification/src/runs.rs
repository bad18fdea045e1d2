use vstd::prelude::*;

use crate::errors::ErrorModel;
use crate::machine::{
    action_model, event_fits, init_model, step_model, ActionModel, EventModel, StateModel,
};
use crate::paths::output_path_spec;

verus! {

/// Whether, from `s`, each event in turn fits the state it answers.
pub open spec fn valid_run(s: StateModel, events: Seq<EventModel>) -> bool
    decreases events.len(),
{
    if events.len() == 0 {
        true
    } else {
        event_fits(s, events[0]) && valid_run(step_model(s, events[0]), events.skip(1))
    }
}

/// The state after feeding each event in turn.
pub open spec fn run_end(s: StateModel, events: Seq<EventModel>) -> StateModel
    decreases events.len(),
{
    if events.len() == 0 {
        s
    } else {
        run_end(step_model(s, events[0]), events.skip(1))
    }
}

/// The actions performed along a run: one per consumed event, each the
/// action that was pending in the state its event answered.
pub open spec fn run_actions(s: StateModel, events: Seq<EventModel>) -> Seq<ActionModel>
    decreases events.len(),
{
    if events.len() == 0 {
        Seq::empty()
    } else {
        seq![action_model(s)] + run_actions(step_model(s, events[0]), events.skip(1))
    }
}

/// A run of one whole invocation on the given source text.
pub open spec fn complete_run(source: Seq<char>, events: Seq<EventModel>) -> bool {
    &&& valid_run(init_model(source), events)
    &&& run_end(init_model(source), events) is Done
}

/// Whether some action of a run deletes the file at `path`.
pub open spec fn issues_delete(actions: Seq<ActionModel>, path: Seq<u8>) -> bool {
    exists|i: int| 0 <= i < actions.len() && actions[i] == (ActionModel::DeleteFile { path })
}

/// The paths the machine is still bound to order deleted before the
/// invocation ends.
pub open spec fn owed_deletes(s: StateModel) -> Set<Seq<u8>> {
    match s {
        StateModel::Staging { .. } => Set::empty(),
        StateModel::Invoking { source_path } => set![source_path],
        StateModel::Harvesting { source_path } => set![
            source_path,
            output_path_spec(source_path),
        ],
        StateModel::DeletingSource { source_path, output_produced, .. } => if output_produced {
            set![source_path, output_path_spec(source_path)]
        } else {
            set![source_path]
        },
        StateModel::DeletingOutput { output_path, .. } => set![output_path],
        StateModel::Done { .. } => Set::empty(),
    }
}

/// The main outcome a state is already committed to, if it is fixed.
pub open spec fn pending_outcome(s: StateModel) -> Option<Result<Seq<u8>, ErrorModel>> {
    match s {
        StateModel::DeletingSource { outcome, .. } => Some(outcome),
        StateModel::DeletingOutput { outcome, .. } => Some(outcome),
        StateModel::Done { outcome, .. } => Some(outcome),
        _ => None,
    }
}

/// How far an invocation has progressed.
pub open spec fn phase(s: StateModel) -> int {
    match s {
        StateModel::Staging { .. } => 0,
        StateModel::Invoking { .. } => 1,
        StateModel::Harvesting { .. } => 2,
        StateModel::DeletingSource { .. } => 3,
        StateModel::DeletingOutput { .. } => 4,
        StateModel::Done { .. } => 5,
    }
}

/// The phase whose pending action an event answers; the two delete phases
/// share one kind of answer.
pub open spec fn event_phase(e: EventModel) -> int {
    match e {
        EventModel::StageOk { .. } => 0,
        EventModel::StageCreateFailed { .. } => 0,
        EventModel::StageWriteFailed { .. } => 0,
        EventModel::LaunchFailed { .. } => 1,
        EventModel::CompilerFinished { .. } => 1,
        EventModel::FileRead { .. } => 2,
        EventModel::FileReadFailed { .. } => 2,
        EventModel::DeleteOk => 3,
        EventModel::DeleteFailed => 3,
    }
}

/// The phase of the event a state expects; the two delete phases expect
/// the same kind of answer.
pub open spec fn phase_cap(s: StateModel) -> int {
    if phase(s) <= 3 {
        phase(s)
    } else {
        3
    }
}

proof fn lemma_fits_phase(s: StateModel, e: EventModel)
    requires
        event_fits(s, e),
    ensures
        event_phase(e) == phase_cap(s),
{
}

proof fn lemma_step_phase(s: StateModel, e: EventModel)
    requires
        event_fits(s, e),
    ensures
        phase(step_model(s, e)) > phase(s),
{
}

/// Along a valid run, events answer phases in order: once the machine has
/// passed a phase, no event of that phase can occur again.
pub proof fn lemma_phases_monotone(s: StateModel, events: Seq<EventModel>)
    requires
        valid_run(s, events),
    ensures
        forall|j: int|
            0 <= j < events.len() ==> event_phase(#[trigger] events[j]) >= phase_cap(s),
    decreases events.len(),
{
    if events.len() == 0 {
    } else {
        let next = step_model(s, events[0]);
        lemma_fits_phase(s, events[0]);
        lemma_step_phase(s, events[0]);
        lemma_phases_monotone(next, events.skip(1));
        assert forall|j: int|
            0 <= j < events.len() implies event_phase(#[trigger] events[j]) >= phase_cap(s) by {
            if j >= 1 {
                assert(events.skip(1)[j - 1] == events[j]);
                assert(event_phase(events[j]) >= phase_cap(next));
            }
        }
    }
}

proof fn lemma_issues_shift(head: ActionModel, tail: Seq<ActionModel>, q: Seq<u8>)
    requires
        issues_delete(tail, q),
    ensures
        issues_delete(seq![head] + tail, q),
{
    let i = choose|i: int|
        0 <= i < tail.len() && tail[i] == (ActionModel::DeleteFile { path: q });
    assert((seq![head] + tail)[i + 1] == tail[i]);
}

/// Once the main outcome is fixed, every later state of the run carries it
/// unchanged to the end.
pub proof fn lemma_outcome_preserved(s: StateModel, events: Seq<EventModel>)
    requires
        valid_run(s, events),
    ensures
        pending_outcome(s) is Some ==> pending_outcome(run_end(s, events)) == pending_outcome(s),
    decreases events.len(),
{
    if events.len() == 0 {
    } else {
        let next = step_model(s, events[0]);
        lemma_outcome_preserved(next, events.skip(1));
        assert(run_end(s, events) == run_end(next, events.skip(1)));
        if pending_outcome(s) is Some {
            assert(pending_outcome(next) == pending_outcome(s));
        }
    }
}

/// Every deletion the machine still owes is ordered before the run ends.
pub proof fn lemma_owed_deletes_issued(s: StateModel, events: Seq<EventModel>)
    requires
        valid_run(s, events),
        run_end(s, events) is Done,
    ensures
        forall|q: Seq<u8>|
            owed_deletes(s).contains(q) ==> issues_delete(run_actions(s, events), q),
    decreases events.len(),
{
    if events.len() == 0 {
    } else {
        let next = step_model(s, events[0]);
        let tail = events.skip(1);
        lemma_owed_deletes_issued(next, tail);
        assert forall|q: Seq<u8>|
            owed_deletes(s).contains(q) implies issues_delete(run_actions(s, events), q) by {
            if owed_deletes(next).contains(q) {
                lemma_issues_shift(action_model(s), run_actions(next, tail), q);
            } else {
                assert(action_model(s) == (ActionModel::DeleteFile { path: q }));
                assert(run_actions(s, events)[0] == action_model(s));
            }
        }
    }
}


/// No-residue law: in a finished run the machine has ordered the deletion
/// of the staged source artifact and, whenever the compiler reported
/// success, of the output artifact at its derived path as well.
pub proof fn lemma_no_residue(source: Seq<char>, events: Seq<EventModel>)
    requires
        complete_run(source, events),
    ensures
        forall|i: int|
            0 <= i < events.len() && (#[trigger] events[i]) is StageOk ==> issues_delete(
                run_actions(init_model(source), events),
                events[i]->StageOk_path,
            ),
        forall|i: int, j: int|
            #![trigger events[i], events[j]]
            0 <= i < events.len() && 0 <= j < events.len() && events[i] is StageOk && events[j]
                is CompilerFinished && events[j]->CompilerFinished_exit_ok ==> issues_delete(
                run_actions(init_model(source), events),
                output_path_spec(events[i]->StageOk_path),
            ),
{
    let s0 = init_model(source);
    let acts = run_actions(s0, events);
    assert forall|i: int|
        0 <= i < events.len() && (#[trigger] events[i]) is StageOk implies issues_delete(
        acts,
        events[i]->StageOk_path,
    ) by {
        let next = step_model(s0, events[0]);
        let tail = events.skip(1);
        lemma_fits_phase(s0, events[0]);
        lemma_step_phase(s0, events[0]);
        lemma_phases_monotone(next, tail);
        if i >= 1 {
            assert(tail[i - 1] == events[i]);
            assert(false);
        }
        let p = events[0]->StageOk_path;
        assert(next == (StateModel::Invoking { source_path: p }));
        assert(run_end(next, tail) is Done);
        lemma_owed_deletes_issued(next, tail);
        assert(owed_deletes(next).contains(p));
        lemma_issues_shift(action_model(s0), run_actions(next, tail), p);
        assert(acts == seq![action_model(s0)] + run_actions(next, tail));
    }
    assert forall|i: int, j: int|
        #![trigger events[i], events[j]]
        0 <= i < events.len() && 0 <= j < events.len() && events[i] is StageOk && events[j]
            is CompilerFinished && events[j]->CompilerFinished_exit_ok implies issues_delete(
        acts,
        output_path_spec(events[i]->StageOk_path),
    ) by {
        let next = step_model(s0, events[0]);
        let tail = events.skip(1);
        lemma_fits_phase(s0, events[0]);
        lemma_step_phase(s0, events[0]);
        lemma_phases_monotone(next, tail);
        if i >= 1 {
            assert(tail[i - 1] == events[i]);
            assert(false);
        }
        let p = events[0]->StageOk_path;
        assert(next == (StateModel::Invoking { source_path: p }));
        if j == 0 {
            assert(false);
        }
        let next2 = step_model(next, tail[0]);
        let tail2 = tail.skip(1);
        assert(valid_run(next, tail));
        lemma_fits_phase(next, tail[0]);
        lemma_step_phase(next, tail[0]);
        lemma_phases_monotone(next2, tail2);
        if j >= 2 {
            assert(tail2[j - 2] == events[j]);
            assert(false);
        }
        assert(tail[0] == events[1] && j == 1);
        assert(next2 == (StateModel::Harvesting { source_path: p }));
        assert(run_end(s0, events) == run_end(next, tail));
        assert(run_end(next, tail) == run_end(next2, tail2));
        assert(run_end(next2, tail2) is Done);
        lemma_owed_deletes_issued(next2, tail2);
        assert(owed_deletes(next2).contains(output_path_spec(p)));
        lemma_issues_shift(action_model(next), run_actions(next2, tail2), output_path_spec(p));
        assert(run_actions(next, tail) == seq![action_model(next)] + run_actions(next2, tail2));
        lemma_issues_shift(action_model(s0), run_actions(next, tail), output_path_spec(p));
        assert(acts == seq![action_model(s0)] + run_actions(next, tail));
    }
}

/// Diagnostic pass-through law: when the compiler runs and exits non-zero,
/// the run's outcome is `CompilerExitFailed`, carrying the captured
/// standard-error text verbatim.
pub proof fn lemma_diagnostic_pass_through(source: Seq<char>, events: Seq<EventModel>)
    requires
        complete_run(source, events),
    ensures
        forall|j: int|
            0 <= j < events.len() && (#[trigger] events[j]) is CompilerFinished
                && !events[j]->CompilerFinished_exit_ok ==> run_end(init_model(source), events)
                is Done && run_end(init_model(source), events)->Done_outcome == Err::<
                Seq<u8>,
                ErrorModel,
            >(ErrorModel::CompilerExitFailed { stderr: events[j]->CompilerFinished_stderr }),
{
    let s0 = init_model(source);
    assert forall|j: int|
        0 <= j < events.len() && (#[trigger] events[j]) is CompilerFinished
            && !events[j]->CompilerFinished_exit_ok implies run_end(s0, events) is Done && run_end(
        s0,
        events,
    )->Done_outcome == Err::<Seq<u8>, ErrorModel>(
        ErrorModel::CompilerExitFailed { stderr: events[j]->CompilerFinished_stderr },
    ) by {
        let next = step_model(s0, events[0]);
        let tail = events.skip(1);
        lemma_fits_phase(s0, events[0]);
        lemma_step_phase(s0, events[0]);
        lemma_phases_monotone(next, tail);
        if j >= 1 {
            assert(tail[j - 1] == events[j]);
        }
        if j == 0 {
            assert(false);
        }
        let p = events[0]->StageOk_path;
        assert(next == (StateModel::Invoking { source_path: p }));
        let next2 = step_model(next, tail[0]);
        let tail2 = tail.skip(1);
        assert(valid_run(next, tail));
        lemma_fits_phase(next, tail[0]);
        lemma_step_phase(next, tail[0]);
        lemma_phases_monotone(next2, tail2);
        if j >= 2 {
            assert(tail2[j - 2] == events[j]);
            assert(false);
        }
        assert(tail[0] == events[1] && j == 1);
        let sd = events[1]->CompilerFinished_stderr;
        assert(next2 == (StateModel::DeletingSource {
            source_path: p,
            output_produced: false,
            outcome: Err::<Seq<u8>, ErrorModel>(ErrorModel::CompilerExitFailed { stderr: sd }),
        }));
        lemma_outcome_preserved(next2, tail2);
        assert(run_end(s0, events) == run_end(next, tail));
        assert(run_end(next, tail) == run_end(next2, tail2));
    }
}

/// Success-correspondence law: a finished run's outcome is `Ok` exactly
/// with the bytes its own read of the output artifact reported.
pub proof fn lemma_success_corresponds(source: Seq<char>, events: Seq<EventModel>)
    requires
        complete_run(source, events),
    ensures
        forall|i: int|
            0 <= i < events.len() && (#[trigger] events[i]) is FileRead ==> run_end(
                init_model(source),
                events,
            ) is Done && run_end(init_model(source), events)->Done_outcome == Ok::<
                Seq<u8>,
                ErrorModel,
            >(events[i]->FileRead_bytes),
        run_end(init_model(source), events) is Done && run_end(
            init_model(source),
            events,
        )->Done_outcome is Ok ==> exists|i: int|
            0 <= i < events.len() && (#[trigger] events[i]) == (EventModel::FileRead {
                bytes: run_end(init_model(source), events)->Done_outcome->Ok_0,
            }),
{
    let s0 = init_model(source);
    assert forall|i: int|
        0 <= i < events.len() && (#[trigger] events[i]) is FileRead implies run_end(s0, events)
        is Done && run_end(s0, events)->Done_outcome == Ok::<Seq<u8>, ErrorModel>(
        events[i]->FileRead_bytes,
    ) by {
        let next = step_model(s0, events[0]);
        let tail = events.skip(1);
        lemma_fits_phase(s0, events[0]);
        lemma_step_phase(s0, events[0]);
        lemma_phases_monotone(next, tail);
        if i >= 1 {
            assert(tail[i - 1] == events[i]);
        }
        if i == 0 {
            assert(false);
        }
        let p = events[0]->StageOk_path;
        assert(next == (StateModel::Invoking { source_path: p }));
        let next2 = step_model(next, tail[0]);
        let tail2 = tail.skip(1);
        assert(valid_run(next, tail));
        lemma_fits_phase(next, tail[0]);
        lemma_step_phase(next, tail[0]);
        lemma_phases_monotone(next2, tail2);
        if i >= 2 {
            assert(tail2[i - 2] == events[i]);
        }
        if i == 1 {
            assert(false);
        }
        if phase(next2) >= 3 {
            assert(false);
        }
        assert(next2 == (StateModel::Harvesting { source_path: p }));
        let next3 = step_model(next2, tail2[0]);
        let tail3 = tail2.skip(1);
        assert(valid_run(next2, tail2));
        lemma_fits_phase(next2, tail2[0]);
        lemma_step_phase(next2, tail2[0]);
        lemma_phases_monotone(next3, tail3);
        if i >= 3 {
            assert(tail3[i - 3] == events[i]);
            assert(false);
        }
        assert(tail2[0] == events[2] && i == 2);
        let b = events[2]->FileRead_bytes;
        assert(next3 == (StateModel::DeletingSource {
            source_path: p,
            output_produced: true,
            outcome: Ok::<Seq<u8>, ErrorModel>(b),
        }));
        lemma_outcome_preserved(next3, tail3);
        assert(run_end(s0, events) == run_end(next, tail));
        assert(run_end(next, tail) == run_end(next2, tail2));
        assert(run_end(next2, tail2) == run_end(next3, tail3));
    }
    let end = run_end(s0, events);
    if end is Done && end->Done_outcome is Ok {
        lemma_ok_needs_read(s0, events, end->Done_outcome->Ok_0);
    }
}

proof fn lemma_ok_needs_read(s: StateModel, events: Seq<EventModel>, b: Seq<u8>)
    requires
        valid_run(s, events),
        run_end(s, events) is Done,
        pending_outcome(run_end(s, events)) == Some(Ok::<Seq<u8>, ErrorModel>(b)),
    ensures
        pending_outcome(s) == Some(Ok::<Seq<u8>, ErrorModel>(b)) || exists|i: int|
            0 <= i < events.len() && (#[trigger] events[i]) == (EventModel::FileRead { bytes: b }),
    decreases events.len(),
{
    if events.len() == 0 {
    } else {
        let next = step_model(s, events[0]);
        let tail = events.skip(1);
        assert(run_end(s, events) == run_end(next, tail));
        lemma_ok_needs_read(next, tail, b);
        if pending_outcome(next) == Some(Ok::<Seq<u8>, ErrorModel>(b)) {
            match s {
                StateModel::Harvesting { .. } => {
                    assert(events[0] == (EventModel::FileRead { bytes: b }));
                },
                _ => {
                    assert(pending_outcome(s) == Some(Ok::<Seq<u8>, ErrorModel>(b)));
                },
            }
        } else {
            let i = choose|i: int|
                0 <= i < tail.len() && (#[trigger] tail[i]) == (EventModel::FileRead { bytes: b });
            assert(events[i + 1] == tail[i]);
        }
    }
}

/// The exact shape of a run in which the compiler failed to start: stage,
/// launch, one deletion of the source artifact, and nothing else.
proof fn lemma_launch_shape(source: Seq<char>, events: Seq<EventModel>, j: int)
    requires
        complete_run(source, events),
        0 <= j < events.len(),
        events[j] is LaunchFailed,
    ensures
        j == 1,
        events.len() == 3,
        events[0] is StageOk,
        run_actions(init_model(source), events) == seq![
            (ActionModel::Stage { contents: source + "\n"@ }),
            (ActionModel::RunCompiler { source_path: events[0]->StageOk_path }),
            (ActionModel::DeleteFile { path: events[0]->StageOk_path }),
        ],
        run_end(init_model(source), events) is Done,
        run_end(init_model(source), events)->Done_outcome == Err::<Seq<u8>, ErrorModel>(
            ErrorModel::CompilerLaunchFailed { message: events[1]->LaunchFailed_message },
        ),
{
    let s0 = init_model(source);
    let next = step_model(s0, events[0]);
    let tail = events.skip(1);
    lemma_fits_phase(s0, events[0]);
    lemma_step_phase(s0, events[0]);
    lemma_phases_monotone(next, tail);
    if j >= 1 {
        assert(tail[j - 1] == events[j]);
    }
    if j == 0 {
        assert(false);
    }
    let p = events[0]->StageOk_path;
    assert(next == (StateModel::Invoking { source_path: p }));
    let next2 = step_model(next, tail[0]);
    let tail2 = tail.skip(1);
    assert(valid_run(next, tail));
    lemma_fits_phase(next, tail[0]);
    lemma_step_phase(next, tail[0]);
    lemma_phases_monotone(next2, tail2);
    if j >= 2 {
        assert(tail2[j - 2] == events[j]);
        assert(false);
    }
    assert(tail[0] == events[1] && j == 1);
    let m = events[1]->LaunchFailed_message;
    assert(next2 == (StateModel::DeletingSource {
        source_path: p,
        output_produced: false,
        outcome: Err::<Seq<u8>, ErrorModel>(ErrorModel::CompilerLaunchFailed { message: m }),
    }));
    assert(valid_run(next2, tail2));
    assert(run_end(s0, events) == run_end(next, tail));
    assert(run_end(next, tail) == run_end(next2, tail2));
    if tail2.len() == 0 {
        assert(run_end(next2, tail2) == next2);
        assert(false);
    }
    let next3 = step_model(next2, tail2[0]);
    let tail3 = tail2.skip(1);
    assert(valid_run(next3, tail3));
    assert(next3 is Done);
    assert(run_end(next2, tail2) == run_end(next3, tail3));
    if tail3.len() > 0 {
        assert(!event_fits(next3, tail3[0]));
        assert(false);
    }
    assert(events.len() == 3);
    assert(run_end(next3, tail3) == next3);
    assert(pending_outcome(next3) == Some(
        Err::<Seq<u8>, ErrorModel>(ErrorModel::CompilerLaunchFailed { message: m }),
    ));
    assert(run_actions(next3, tail3) == Seq::<ActionModel>::empty());
    assert(run_actions(next2, tail2) == seq![action_model(next2)] + run_actions(next3, tail3));
    assert(run_actions(next2, tail2) =~= seq![action_model(next2)]);
    assert(run_actions(next, tail) =~= seq![action_model(next), action_model(next2)]);
    assert(run_actions(s0, events) =~= seq![
        action_model(s0),
        action_model(next),
        action_model(next2),
    ]);
}

/// Launch-failure isolation law: when the compiler could not be started,
/// the run's outcome is `CompilerLaunchFailed` with the performer's
/// message, no read of an output artifact is ever ordered, every ordered
/// deletion names the staged source artifact, and that deletion is indeed
/// ordered.
pub proof fn lemma_launch_failure_isolated(source: Seq<char>, events: Seq<EventModel>)
    requires
        complete_run(source, events),
    ensures
        forall|j: int|
            0 <= j < events.len() && (#[trigger] events[j]) is LaunchFailed ==> run_end(
                init_model(source),
                events,
            ) is Done && run_end(init_model(source), events)->Done_outcome == Err::<
                Seq<u8>,
                ErrorModel,
            >(ErrorModel::CompilerLaunchFailed { message: events[j]->LaunchFailed_message }),
        forall|j: int, k: int|
            #![trigger events[j], run_actions(init_model(source), events)[k]]
            0 <= j < events.len() && 0 <= k < run_actions(init_model(source), events).len()
                && events[j] is LaunchFailed ==> !(run_actions(init_model(source), events)[k]
                is ReadFile),
        forall|j: int, k: int|
            #![trigger events[j], run_actions(init_model(source), events)[k]]
            0 <= j < events.len() && 0 <= k < run_actions(init_model(source), events).len()
                && events[j] is LaunchFailed && run_actions(init_model(source), events)[k]
                is DeleteFile ==> exists|i: int|
                0 <= i < events.len() && (#[trigger] events[i]) is StageOk
                    && events[i]->StageOk_path == run_actions(
                    init_model(source),
                    events,
                )[k]->DeleteFile_path,
        forall|i: int, j: int|
            #![trigger events[i], events[j]]
            0 <= i < events.len() && 0 <= j < events.len() && events[i] is StageOk && events[j]
                is LaunchFailed ==> issues_delete(
                run_actions(init_model(source), events),
                events[i]->StageOk_path,
            ),
{
    let s0 = init_model(source);
    let acts = run_actions(s0, events);
    lemma_no_residue(source, events);
    assert forall|j: int|
        0 <= j < events.len() && (#[trigger] events[j]) is LaunchFailed implies run_end(s0, events)
        is Done && run_end(s0, events)->Done_outcome == Err::<Seq<u8>, ErrorModel>(
        ErrorModel::CompilerLaunchFailed { message: events[j]->LaunchFailed_message },
    ) by {
        lemma_launch_shape(source, events, j);
    }
    assert forall|j: int, k: int|
        #![trigger events[j], acts[k]]
        0 <= j < events.len() && 0 <= k < acts.len() && events[j] is LaunchFailed implies !(acts[k]
        is ReadFile) by {
        lemma_launch_shape(source, events, j);
    }
    assert forall|j: int, k: int|
        #![trigger events[j], acts[k]]
        0 <= j < events.len() && 0 <= k < acts.len() && events[j] is LaunchFailed && acts[k]
            is DeleteFile implies exists|i: int|
        0 <= i < events.len() && (#[trigger] events[i]) is StageOk && events[i]->StageOk_path
            == acts[k]->DeleteFile_path by {
        lemma_launch_shape(source, events, j);
        assert(0 <= 0 < events.len() && events[0] is StageOk && events[0]->StageOk_path == acts[k]->DeleteFile_path);
    }
}

/// Whose artifacts one invocation's actions may touch: its own staged
/// contents, its own source artifact, or the output path derived from it.
pub open spec fn action_confined(a: ActionModel, source: Seq<char>, staged: Seq<u8>) -> bool {
    match a {
        ActionModel::Stage { contents } => contents == source + "\n"@,
        ActionModel::RunCompiler { source_path } => source_path == staged,
        ActionModel::ReadFile { path } => path == output_path_spec(staged),
        ActionModel::DeleteFile { path } => path == staged || path == output_path_spec(staged),
    }
}

spec fn state_confined(s: StateModel, source: Seq<char>, staged: Seq<u8>) -> bool {
    match s {
        StateModel::Staging { contents } => contents == source + "\n"@,
        StateModel::Invoking { source_path } => source_path == staged,
        StateModel::Harvesting { source_path } => source_path == staged,
        StateModel::DeletingSource { source_path, .. } => source_path == staged,
        StateModel::DeletingOutput { output_path, .. } => output_path == output_path_spec(staged),
        StateModel::Done { .. } => true,
    }
}

proof fn lemma_confined_rec(
    s: StateModel,
    events: Seq<EventModel>,
    source: Seq<char>,
    staged: Seq<u8>,
)
    requires
        valid_run(s, events),
        state_confined(s, source, staged),
        !(s is Staging),
    ensures
        forall|k: int|
            0 <= k < run_actions(s, events).len() ==> action_confined(
                #[trigger] run_actions(s, events)[k],
                source,
                staged,
            ),
    decreases events.len(),
{
    if events.len() == 0 {
    } else {
        let next = step_model(s, events[0]);
        let tail = events.skip(1);
        lemma_confined_rec(next, tail, source, staged);
        assert(action_confined(action_model(s), source, staged));
        assert forall|k: int|
            0 <= k < run_actions(s, events).len() implies action_confined(
            #[trigger] run_actions(s, events)[k],
            source,
            staged,
        ) by {
            if k == 0 {
                assert(run_actions(s, events)[0] == action_model(s));
            } else {
                assert(run_actions(s, events)[k] == run_actions(next, tail)[k - 1]);
            }
        }
    }
}

/// Confinement law, the ground for running invocations concurrently:
/// every action of a run concerns only that run's own source text, the
/// staged path its own staging reported, or the output path derived from
/// it — never another invocation's artifacts.
pub proof fn lemma_actions_confined(source: Seq<char>, events: Seq<EventModel>)
    requires
        valid_run(init_model(source), events),
    ensures
        forall|i: int, k: int|
            #![trigger events[i], run_actions(init_model(source), events)[k]]
            0 <= i < events.len() && 0 <= k < run_actions(init_model(source), events).len()
                && events[i] is StageOk ==> action_confined(
                run_actions(init_model(source), events)[k],
                source,
                events[i]->StageOk_path,
            ),
{
    let s0 = init_model(source);
    let acts = run_actions(s0, events);
    assert forall|i: int, k: int|
        #![trigger events[i], acts[k]]
        0 <= i < events.len() && 0 <= k < acts.len() && events[i] is StageOk implies
        action_confined(acts[k], source, events[i]->StageOk_path) by {
        let next = step_model(s0, events[0]);
        let tail = events.skip(1);
        lemma_fits_phase(s0, events[0]);
        lemma_step_phase(s0, events[0]);
        lemma_phases_monotone(next, tail);
        if i >= 1 {
            assert(tail[i - 1] == events[i]);
            assert(false);
        }
        let p = events[0]->StageOk_path;
        assert(next == (StateModel::Invoking { source_path: p }));
        lemma_confined_rec(next, tail, source, p);
        if k == 0 {
            assert(acts[0] == action_model(s0));
        } else {
            assert(acts[k] == run_actions(next, tail)[k - 1]);
        }
    }
}

/// Repeatability law: the machine keeps no state from one invocation to
/// the next; a run's end state and its actions are a function of the
/// source text and the observed events alone. In particular, the same
/// failing input answered by the same events yields the same error again.
pub proof fn lemma_run_repeatable(
    source1: Seq<char>,
    source2: Seq<char>,
    events1: Seq<EventModel>,
    events2: Seq<EventModel>,
)
    requires
        source1 == source2,
        events1 == events2,
    ensures
        run_end(init_model(source1), events1) == run_end(init_model(source2), events2),
        run_actions(init_model(source1), events1) == run_actions(init_model(source2), events2),
{
}

} // verus!
