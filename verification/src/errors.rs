use vstd::prelude::*;

verus! {

/// Abstract value of a [`CompileError`]: the failure kinds of one compile
/// invocation, over mathematical sequences.
pub enum ErrorModel {
    TempFileCreateFailed { message: Seq<char> },
    TempFileWriteFailed { message: Seq<char> },
    CompilerLaunchFailed { message: Seq<char> },
    CompilerExitFailed { stderr: Seq<char> },
    OutputReadFailed { message: Seq<char> },
    CleanupFailed { path: Seq<u8> },
}

/// A failure of one compile invocation.
///
/// Every variant carries the text a caller needs to report the failure:
/// `CompilerExitFailed` holds the compiler's standard-error text verbatim,
/// and `CleanupFailed` names the temporary file that could not be removed.
#[derive(Debug)]
pub enum CompileError {
    /// The staging temporary file could not be created.
    TempFileCreateFailed { message: String },
    /// The staged source text could not be written out.
    TempFileWriteFailed { message: String },
    /// The compiler binary could not be started at all.
    CompilerLaunchFailed { message: String },
    /// The compiler ran and exited non-zero; `stderr` is its diagnostic
    /// output, kept verbatim.
    CompilerExitFailed { stderr: String },
    /// The compiler reported success, yet the output artifact could not be
    /// read.
    OutputReadFailed { message: String },
    /// A temporary artifact at `path` could not be deleted.
    CleanupFailed { path: Vec<u8> },
}

impl View for CompileError {
    type V = ErrorModel;

    open spec fn view(&self) -> ErrorModel {
        match *self {
            CompileError::TempFileCreateFailed { message } => ErrorModel::TempFileCreateFailed {
                message: message@,
            },
            CompileError::TempFileWriteFailed { message } => ErrorModel::TempFileWriteFailed {
                message: message@,
            },
            CompileError::CompilerLaunchFailed { message } => ErrorModel::CompilerLaunchFailed {
                message: message@,
            },
            CompileError::CompilerExitFailed { stderr } => ErrorModel::CompilerExitFailed {
                stderr: stderr@,
            },
            CompileError::OutputReadFailed { message } => ErrorModel::OutputReadFailed {
                message: message@,
            },
            CompileError::CleanupFailed { path } => ErrorModel::CleanupFailed { path: path@ },
        }
    }
}

} // verus!
