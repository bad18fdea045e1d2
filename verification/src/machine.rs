use vstd::prelude::*;

use crate::errors::{CompileError, ErrorModel};
use crate::paths::{output_path, output_path_spec};

verus! {

/// Abstract value of an [`Event`].
pub enum EventModel {
    StageOk { path: Seq<u8> },
    StageCreateFailed { message: Seq<char> },
    StageWriteFailed { message: Seq<char> },
    LaunchFailed { message: Seq<char> },
    CompilerFinished { exit_ok: bool, stderr: Seq<char> },
    FileRead { bytes: Seq<u8> },
    FileReadFailed { message: Seq<char> },
    DeleteOk,
    DeleteFailed,
}

/// What the performer reports back after carrying out one [`Action`].
#[derive(Debug)]
pub enum Event {
    /// Staging succeeded; the source artifact now sits at `path`.
    StageOk { path: Vec<u8> },
    /// The temporary file could not be created; nothing was left behind.
    StageCreateFailed { message: String },
    /// The temporary file could not be written; nothing was left behind.
    StageWriteFailed { message: String },
    /// The compiler process could not be started at all.
    LaunchFailed { message: String },
    /// The compiler ran to completion; `exit_ok` says whether it exited
    /// with status zero, and `stderr` is its captured standard-error text.
    CompilerFinished { exit_ok: bool, stderr: String },
    /// The output artifact was read in full.
    FileRead { bytes: Vec<u8> },
    /// The output artifact was absent or unreadable.
    FileReadFailed { message: String },
    /// The file named by the delete action is gone.
    DeleteOk,
    /// The file named by the delete action could not be removed.
    DeleteFailed,
}

impl View for Event {
    type V = EventModel;

    open spec fn view(&self) -> EventModel {
        match *self {
            Event::StageOk { path } => EventModel::StageOk { path: path@ },
            Event::StageCreateFailed { message } => EventModel::StageCreateFailed {
                message: message@,
            },
            Event::StageWriteFailed { message } => EventModel::StageWriteFailed {
                message: message@,
            },
            Event::LaunchFailed { message } => EventModel::LaunchFailed { message: message@ },
            Event::CompilerFinished { exit_ok, stderr } => EventModel::CompilerFinished {
                exit_ok,
                stderr: stderr@,
            },
            Event::FileRead { bytes } => EventModel::FileRead { bytes: bytes@ },
            Event::FileReadFailed { message } => EventModel::FileReadFailed { message: message@ },
            Event::DeleteOk => EventModel::DeleteOk,
            Event::DeleteFailed => EventModel::DeleteFailed,
        }
    }
}

/// Abstract value of an [`Action`].
pub enum ActionModel {
    Stage { contents: Seq<char> },
    RunCompiler { source_path: Seq<u8> },
    ReadFile { path: Seq<u8> },
    DeleteFile { path: Seq<u8> },
}

/// The one piece of outside work the machine asks its performer to do next.
#[derive(Debug)]
pub enum Action {
    /// Create a fresh, uniquely named temporary file, write `contents` to
    /// it, flush it, and report the file's path; on failure leave nothing
    /// behind.
    Stage { contents: String },
    /// Run the compiler on the file at `source_path` with the output-format
    /// selector, wait for it, and capture its standard error.
    RunCompiler { source_path: Vec<u8> },
    /// Read the whole file at `path`.
    ReadFile { path: Vec<u8> },
    /// Delete the file at `path`.
    DeleteFile { path: Vec<u8> },
}

impl View for Action {
    type V = ActionModel;

    open spec fn view(&self) -> ActionModel {
        match *self {
            Action::Stage { contents } => ActionModel::Stage { contents: contents@ },
            Action::RunCompiler { source_path } => ActionModel::RunCompiler {
                source_path: source_path@,
            },
            Action::ReadFile { path } => ActionModel::ReadFile { path: path@ },
            Action::DeleteFile { path } => ActionModel::DeleteFile { path: path@ },
        }
    }
}

/// Abstract value of a [`CompileState`].
pub enum StateModel {
    Staging { contents: Seq<char> },
    Invoking { source_path: Seq<u8> },
    Harvesting { source_path: Seq<u8> },
    DeletingSource {
        source_path: Seq<u8>,
        output_produced: bool,
        outcome: Result<Seq<u8>, ErrorModel>,
    },
    DeletingOutput {
        output_path: Seq<u8>,
        outcome: Result<Seq<u8>, ErrorModel>,
        failed_source: Option<Seq<u8>>,
    },
    Done {
        outcome: Result<Seq<u8>, ErrorModel>,
        failed_source: Option<Seq<u8>>,
        failed_output: Option<Seq<u8>>,
    },
}

/// One compile invocation, seen between two pieces of outside work.
///
/// The machine is purely a decider: it never touches the filesystem or a
/// process itself. A performer asks [`next_action`] what to do, does it,
/// and feeds the observed [`Event`] back through [`step`], until
/// [`is_done`]. `Done` carries the invocation's outcome — the harvested
/// output bytes, or the first error — apart from the cleanup report:
/// `failed_source` and `failed_output` name the artifacts whose deletion
/// failed, so that a captured result is reported even when cleanup was not
/// clean.
#[derive(Debug)]
pub enum CompileState {
    /// The source text, newline-terminated, waits to be staged.
    Staging { contents: String },
    /// The source artifact sits at `source_path`; the compiler is to run.
    Invoking { source_path: Vec<u8> },
    /// The compiler exited with status zero; its output artifact is to be
    /// read.
    Harvesting { source_path: Vec<u8> },
    /// The main outcome is fixed; the source artifact is to be deleted.
    DeletingSource {
        source_path: Vec<u8>,
        output_produced: bool,
        outcome: Result<Vec<u8>, CompileError>,
    },
    /// The main outcome is fixed; the output artifact is to be deleted.
    DeletingOutput {
        output_path: Vec<u8>,
        outcome: Result<Vec<u8>, CompileError>,
        failed_source: Option<Vec<u8>>,
    },
    /// The invocation is over.
    Done {
        outcome: Result<Vec<u8>, CompileError>,
        failed_source: Option<Vec<u8>>,
        failed_output: Option<Vec<u8>>,
    },
}

/// Abstract value of a main outcome.
pub open spec fn outcome_view(o: Result<Vec<u8>, CompileError>) -> Result<Seq<u8>, ErrorModel> {
    match o {
        Ok(b) => Ok(b@),
        Err(e) => Err(e@),
    }
}

/// Abstract value of an optionally recorded path.
pub open spec fn opt_path_view(o: Option<Vec<u8>>) -> Option<Seq<u8>> {
    match o {
        Some(p) => Some(p@),
        None => None,
    }
}

impl View for CompileState {
    type V = StateModel;

    open spec fn view(&self) -> StateModel {
        match *self {
            CompileState::Staging { contents } => StateModel::Staging { contents: contents@ },
            CompileState::Invoking { source_path } => StateModel::Invoking {
                source_path: source_path@,
            },
            CompileState::Harvesting { source_path } => StateModel::Harvesting {
                source_path: source_path@,
            },
            CompileState::DeletingSource { source_path, output_produced, outcome } => {
                StateModel::DeletingSource {
                    source_path: source_path@,
                    output_produced,
                    outcome: outcome_view(outcome),
                }
            },
            CompileState::DeletingOutput { output_path, outcome, failed_source } => {
                StateModel::DeletingOutput {
                    output_path: output_path@,
                    outcome: outcome_view(outcome),
                    failed_source: opt_path_view(failed_source),
                }
            },
            CompileState::Done { outcome, failed_source, failed_output } => {
                StateModel::Done {
                    outcome: outcome_view(outcome),
                    failed_source: opt_path_view(failed_source),
                    failed_output: opt_path_view(failed_output),
                }
            },
        }
    }
}

/// The machine's first state for the given source text: the staged
/// contents are the text followed by one newline.
pub open spec fn init_model(source: Seq<char>) -> StateModel {
    StateModel::Staging { contents: source + "\n"@ }
}

/// Which events can answer the action pending in a state; `Done` expects
/// none.
pub open spec fn event_fits(s: StateModel, e: EventModel) -> bool {
    match s {
        StateModel::Staging { .. } => e is StageOk || e is StageCreateFailed
            || e is StageWriteFailed,
        StateModel::Invoking { .. } => e is LaunchFailed || e is CompilerFinished,
        StateModel::Harvesting { .. } => e is FileRead || e is FileReadFailed,
        StateModel::DeletingSource { .. } => e is DeleteOk || e is DeleteFailed,
        StateModel::DeletingOutput { .. } => e is DeleteOk || e is DeleteFailed,
        StateModel::Done { .. } => false,
    }
}

/// The action pending in a state that is not `Done`.
pub open spec fn action_model(s: StateModel) -> ActionModel
    recommends
        !(s is Done),
{
    match s {
        StateModel::Staging { contents } => ActionModel::Stage { contents },
        StateModel::Invoking { source_path } => ActionModel::RunCompiler { source_path },
        StateModel::Harvesting { source_path } => ActionModel::ReadFile {
            path: output_path_spec(source_path),
        },
        StateModel::DeletingSource { source_path, .. } => ActionModel::DeleteFile {
            path: source_path,
        },
        StateModel::DeletingOutput { output_path, .. } => ActionModel::DeleteFile {
            path: output_path,
        },
        StateModel::Done { .. } => arbitrary(),
    }
}

/// The machine's whole transition function. An event that does not fit the
/// state leaves it unchanged.
pub open spec fn step_model(s: StateModel, e: EventModel) -> StateModel {
    match (s, e) {
        (StateModel::Staging { .. }, EventModel::StageOk { path }) => StateModel::Invoking {
            source_path: path,
        },
        (StateModel::Staging { .. }, EventModel::StageCreateFailed { message }) => (
        StateModel::Done {
            outcome: Err(ErrorModel::TempFileCreateFailed { message }),
            failed_source: None,
            failed_output: None,
        }),
        (StateModel::Staging { .. }, EventModel::StageWriteFailed { message }) => (
        StateModel::Done {
            outcome: Err(ErrorModel::TempFileWriteFailed { message }),
            failed_source: None,
            failed_output: None,
        }),
        (StateModel::Invoking { source_path }, EventModel::LaunchFailed { message }) => (
        StateModel::DeletingSource {
            source_path,
            output_produced: false,
            outcome: Err(ErrorModel::CompilerLaunchFailed { message }),
        }),
        (
            StateModel::Invoking { source_path },
            EventModel::CompilerFinished { exit_ok, stderr },
        ) => if exit_ok {
            StateModel::Harvesting { source_path }
        } else {
            StateModel::DeletingSource {
                source_path,
                output_produced: false,
                outcome: Err(ErrorModel::CompilerExitFailed { stderr }),
            }
        },
        (StateModel::Harvesting { source_path }, EventModel::FileRead { bytes }) => (
        StateModel::DeletingSource {
            source_path,
            output_produced: true,
            outcome: Ok(bytes),
        }),
        (StateModel::Harvesting { source_path }, EventModel::FileReadFailed { message }) => (
        StateModel::DeletingSource {
            source_path,
            output_produced: true,
            outcome: Err(ErrorModel::OutputReadFailed { message }),
        }),
        (
            StateModel::DeletingSource { source_path, output_produced, outcome },
            EventModel::DeleteOk,
        ) => if output_produced {
            StateModel::DeletingOutput {
                output_path: output_path_spec(source_path),
                outcome,
                failed_source: None,
            }
        } else {
            StateModel::Done { outcome, failed_source: None, failed_output: None }
        },
        (
            StateModel::DeletingSource { source_path, output_produced, outcome },
            EventModel::DeleteFailed,
        ) => if output_produced {
            StateModel::DeletingOutput {
                output_path: output_path_spec(source_path),
                outcome,
                failed_source: Some(source_path),
            }
        } else {
            StateModel::Done {
                outcome,
                failed_source: Some(source_path),
                failed_output: None,
            }
        },
        (
            StateModel::DeletingOutput { output_path, outcome, failed_source },
            EventModel::DeleteOk,
        ) => StateModel::Done { outcome, failed_source, failed_output: None },
        (
            StateModel::DeletingOutput { output_path, outcome, failed_source },
            EventModel::DeleteFailed,
        ) => StateModel::Done { outcome, failed_source, failed_output: Some(output_path) },
        (s0, _) => s0,
    }
}

/// Begin a compile invocation: the staged contents are the caller's source
/// text followed by one newline, so the compiler observes a terminated
/// final line.
pub fn init(source: String) -> (s: CompileState)
    ensures
        s@ == init_model(source@),
{
    let mut contents = source;
    contents.append("\n");
    CompileState::Staging { contents }
}

/// Whether the invocation is over.
pub fn is_done(state: &CompileState) -> (b: bool)
    ensures
        b == (state@ is Done),
{
    match state {
        CompileState::Done { .. } => true,
        _ => false,
    }
}

/// Copy a byte string.
fn copy_bytes(v: &Vec<u8>) -> (r: Vec<u8>)
    ensures
        r@ == v@,
{
    let mut r: Vec<u8> = Vec::new();
    let mut i: usize = 0;
    while i < v.len()
        invariant
            i <= v@.len(),
            r@ == v@.take(i as int),
        decreases v@.len() - i,
    {
        r.push(v[i]);
        proof {
            assert(r@ =~= v@.take(i as int + 1));
        }
        i = i + 1;
    }
    proof {
        assert(v@.take(v@.len() as int) =~= v@);
    }
    r
}

/// The piece of outside work to perform next, or `None` once the
/// invocation is over.
pub fn next_action(state: &CompileState) -> (r: Option<Action>)
    ensures
        r is Some <==> !(state@ is Done),
        r matches Some(a) ==> a@ == action_model(state@),
{
    match state {
        CompileState::Staging { contents } => Some(Action::Stage { contents: contents.clone() }),
        CompileState::Invoking { source_path } => Some(Action::RunCompiler {
            source_path: copy_bytes(source_path),
        }),
        CompileState::Harvesting { source_path } => Some(Action::ReadFile {
            path: output_path(source_path),
        }),
        CompileState::DeletingSource { source_path, .. } => Some(Action::DeleteFile {
            path: copy_bytes(source_path),
        }),
        CompileState::DeletingOutput { output_path, .. } => Some(Action::DeleteFile {
            path: copy_bytes(output_path),
        }),
        CompileState::Done { .. } => None,
    }
}

/// Feed the event observed for the pending action back into the machine.
/// An event that does not fit the state leaves it unchanged.
pub fn step(state: CompileState, event: Event) -> (next: CompileState)
    ensures
        next@ == step_model(state@, event@),
{
    match (state, event) {
        (CompileState::Staging { .. }, Event::StageOk { path }) => CompileState::Invoking {
            source_path: path,
        },
        (CompileState::Staging { .. }, Event::StageCreateFailed { message }) => CompileState::Done {
            outcome: Err(CompileError::TempFileCreateFailed { message }),
            failed_source: None,
            failed_output: None,
        },
        (CompileState::Staging { .. }, Event::StageWriteFailed { message }) => CompileState::Done {
            outcome: Err(CompileError::TempFileWriteFailed { message }),
            failed_source: None,
            failed_output: None,
        },
        (CompileState::Invoking { source_path }, Event::LaunchFailed { message }) => (
        CompileState::DeletingSource {
            source_path,
            output_produced: false,
            outcome: Err(CompileError::CompilerLaunchFailed { message }),
        }),
        (CompileState::Invoking { source_path }, Event::CompilerFinished { exit_ok, stderr }) => {
            if exit_ok {
                CompileState::Harvesting { source_path }
            } else {
                CompileState::DeletingSource {
                    source_path,
                    output_produced: false,
                    outcome: Err(CompileError::CompilerExitFailed { stderr }),
                }
            }
        },
        (CompileState::Harvesting { source_path }, Event::FileRead { bytes }) => (
        CompileState::DeletingSource {
            source_path,
            output_produced: true,
            outcome: Ok(bytes),
        }),
        (CompileState::Harvesting { source_path }, Event::FileReadFailed { message }) => (
        CompileState::DeletingSource {
            source_path,
            output_produced: true,
            outcome: Err(CompileError::OutputReadFailed { message }),
        }),
        (
            CompileState::DeletingSource { source_path, output_produced, outcome },
            Event::DeleteOk,
        ) => {
            if output_produced {
                let op = output_path(&source_path);
                CompileState::DeletingOutput { output_path: op, outcome, failed_source: None }
            } else {
                CompileState::Done { outcome, failed_source: None, failed_output: None }
            }
        },
        (
            CompileState::DeletingSource { source_path, output_produced, outcome },
            Event::DeleteFailed,
        ) => {
            if output_produced {
                let op = output_path(&source_path);
                CompileState::DeletingOutput {
                    output_path: op,
                    outcome,
                    failed_source: Some(source_path),
                }
            } else {
                CompileState::Done {
                    outcome,
                    failed_source: Some(source_path),
                    failed_output: None,
                }
            }
        },
        (
            CompileState::DeletingOutput { output_path, outcome, failed_source },
            Event::DeleteOk,
        ) => CompileState::Done { outcome, failed_source, failed_output: None },
        (
            CompileState::DeletingOutput { output_path, outcome, failed_source },
            Event::DeleteFailed,
        ) => CompileState::Done { outcome, failed_source, failed_output: Some(output_path) },
        (s0, _) => s0,
    }
}

/// The cleanup report of a finished invocation, as reportable errors: one
/// `CleanupFailed` for each artifact whose deletion failed, the source
/// artifact's first.
pub fn cleanup_failures(
    failed_source: Option<Vec<u8>>,
    failed_output: Option<Vec<u8>>,
) -> (r: Vec<CompileError>)
    ensures
        r@.len() == (if failed_source is Some {
            1int
        } else {
            0int
        }) + (if failed_output is Some {
            1int
        } else {
            0int
        }),
        failed_source matches Some(p) ==> r@[0]@ == (ErrorModel::CleanupFailed { path: p@ }),
        failed_output matches Some(p) ==> r@[r@.len() - 1]@ == (ErrorModel::CleanupFailed {
            path: p@,
        }),
{
    let mut r: Vec<CompileError> = Vec::new();
    match failed_source {
        Some(p) => r.push(CompileError::CleanupFailed { path: p }),
        None => {},
    }
    match failed_output {
        Some(p) => r.push(CompileError::CleanupFailed { path: p }),
        None => {},
    }
    r
}

} // verus!
