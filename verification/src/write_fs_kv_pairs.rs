//! Writing the outputs of one function, one after the other, and recording
//! how it ended. The files are written outside this library: these
//! functions say which output is next, and keep the records.

use crate::data_struct::{FailureResult, FailureView, SuccessResult, SuccessView};
use vstd::prelude::*;

verus! {

/// What follows the writing of one output.
#[derive(Debug, PartialEq, Eq)]
pub enum BatchStep {
    /// The output at this place is to be written next.
    Next(usize),
    /// Nothing more is written: all outputs are, or one could not be.
    Finished(Result<bool, String>),
}

/// A `BatchStep` as contracts see it.
pub enum BatchStepView {
    Next(int),
    Finished(Result<bool, Seq<char>>),
}

impl View for BatchStep {
    type V = BatchStepView;

    open spec fn view(&self) -> BatchStepView {
        match self {
            BatchStep::Next(at) => BatchStepView::Next(*at as int),
            BatchStep::Finished(Ok(done)) => BatchStepView::Finished(Ok(*done)),
            BatchStep::Finished(Err(message)) => BatchStepView::Finished(Err(message@)),
        }
    }
}

/// The outcome of writing a file as contracts see it.
pub open spec fn written_view(written: Result<(), String>) -> Result<(), Seq<char>> {
    match written {
        Ok(()) => Ok(()),
        Err(message) => Err(message@),
    }
}

/// What follows when, of `count` outputs, the one at `at` was written with
/// this outcome: after a failure nothing more is written, and the failure
/// is the outcome of all; else the next output follows, if there is one.
pub open spec fn batch_step(count: nat, at: nat, written: Result<(), Seq<char>>) -> BatchStepView {
    match written {
        Err(message) => BatchStepView::Finished(Err(message)),
        Ok(()) => if at + 1 < count {
            BatchStepView::Next(at as int + 1)
        } else {
            BatchStepView::Finished(Ok(true))
        },
    }
}

/// What follows the writing of the output at `at` of `pairs`.
pub fn write_fs_path_content_paris(
    pairs: &Vec<(String, String)>,
    at: usize,
    written: Result<(), String>,
) -> (step: BatchStep)
    ensures
        step@ == batch_step(pairs.len() as nat, at as nat, written_view(written)),
{
    match written {
        Err(message) => BatchStep::Finished(Err(message)),
        Ok(()) => {
            if at < pairs.len() && at + 1 < pairs.len() {
                BatchStep::Next(at + 1)
            } else {
                BatchStep::Finished(Ok(true))
            }
        },
    }
}

/// Records how the writing of the outputs of `function_name` ended: a
/// success, or a failure with its message, under `path`. The other list
/// stays as it is, and nothing is taken from either.
pub fn write_pairs(
    outcome: Result<bool, String>,
    successes: &mut Vec<SuccessResult>,
    failures: &mut Vec<FailureResult>,
    function_name: String,
    path: String,
)
    ensures
        match outcome {
            Ok(_) => {
                &&& final(successes).deep_view() == old(successes).deep_view().push(
                    SuccessView { name: function_name@, path: path@ },
                )
                &&& final(failures).deep_view() == old(failures).deep_view()
            },
            Err(message) => {
                &&& final(successes).deep_view() == old(successes).deep_view()
                &&& final(failures).deep_view() == old(failures).deep_view().push(
                    FailureView { name: function_name@, error: message@, path: path@ },
                )
            },
        },
{
    let ghost had_successes = successes.deep_view();
    let ghost had_failures = failures.deep_view();
    match outcome {
        Ok(_) => {
            successes.push(SuccessResult { name: function_name, path });
            assert(successes.deep_view() =~= had_successes.push(
                SuccessView { name: function_name@, path: path@ },
            ));
        },
        Err(message) => {
            failures.push(FailureResult { name: function_name, error: message, path });
            assert(failures.deep_view() =~= had_failures.push(
                FailureView { name: function_name@, error: message@, path: path@ },
            ));
        },
    }
}

} // verus!
