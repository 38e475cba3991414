//! The values that pass between discovery, invocation and the run.

use crate::replace_prefix_or_not::PathAliasTable;
use vstd::prelude::*;

verus! {

/// Pairs of texts as contracts see them.
pub type TextPairs = Seq<(Seq<char>, Seq<char>)>;

/// One function that a script offers for execution.
#[derive(Debug, Clone, PartialEq, Eq)]
pub struct FunctionForExecute {
    /// The name under which the script binds the function.
    pub function_name: String,
    /// The path the function declares for its output; empty if it declares none.
    pub path: String,
    /// The file extension the function declares; empty if it declares none.
    pub lang: String,
    /// Whether the function names the paths of its outputs itself.
    pub composed: bool,
}

/// A `FunctionForExecute` as contracts see it.
pub struct EntryView {
    pub function_name: Seq<char>,
    pub path: Seq<char>,
    pub lang: Seq<char>,
    pub composed: bool,
}

impl View for FunctionForExecute {
    type V = EntryView;

    open spec fn view(&self) -> EntryView {
        EntryView {
            function_name: self.function_name@,
            path: self.path@,
            lang: self.lang@,
            composed: self.composed,
        }
    }
}

impl DeepView for FunctionForExecute {
    type V = EntryView;

    open spec fn deep_view(&self) -> EntryView {
        self@
    }
}

/// The record of a function whose output was written.
#[derive(Debug, Clone, PartialEq, Eq)]
pub struct SuccessResult {
    pub name: String,
    pub path: String,
}

/// A `SuccessResult` as contracts see it.
pub struct SuccessView {
    pub name: Seq<char>,
    pub path: Seq<char>,
}

impl View for SuccessResult {
    type V = SuccessView;

    open spec fn view(&self) -> SuccessView {
        SuccessView { name: self.name@, path: self.path@ }
    }
}

impl DeepView for SuccessResult {
    type V = SuccessView;

    open spec fn deep_view(&self) -> SuccessView {
        self@
    }
}

/// The record of a function that failed, or whose output could not be
/// written.
#[derive(Debug, Clone, PartialEq, Eq)]
pub struct FailureResult {
    pub name: String,
    pub error: String,
    pub path: String,
}

/// A `FailureResult` as contracts see it.
pub struct FailureView {
    pub name: Seq<char>,
    pub error: Seq<char>,
    pub path: Seq<char>,
}

impl View for FailureResult {
    type V = FailureView;

    open spec fn view(&self) -> FailureView {
        FailureView { name: self.name@, error: self.error@, path: self.path@ }
    }
}

impl DeepView for FailureResult {
    type V = FailureView;

    open spec fn deep_view(&self) -> FailureView {
        self@
    }
}

/// What a composed function returned, read by its shape.
#[derive(Debug, Clone, PartialEq, Eq)]
pub enum FunctionReturnType {
    /// An array: the pairs of its elements, in order.
    Array2D(Vec<(String, String)>),
    /// An object: its own properties, in order.
    Object(Vec<(String, String)>),
    /// Anything else, as text.
    String(String),
}

/// A `FunctionReturnType` as contracts see it.
pub enum ReturnView {
    Array2D(TextPairs),
    Object(TextPairs),
    String(Seq<char>),
}

impl View for FunctionReturnType {
    type V = ReturnView;

    open spec fn view(&self) -> ReturnView {
        match self {
            FunctionReturnType::Array2D(pairs) => ReturnView::Array2D(pairs.deep_view()),
            FunctionReturnType::Object(pairs) => ReturnView::Object(pairs.deep_view()),
            FunctionReturnType::String(text) => ReturnView::String(text@),
        }
    }
}

/// How one function ended.
#[derive(Debug, Clone, PartialEq, Eq)]
pub enum ExecutionOutcome {
    /// It succeeded; the text says so.
    Success(String),
    /// It failed; the text says why.
    Failure(String),
}

/// An `ExecutionOutcome` as contracts see it.
pub enum OutcomeView {
    Success(Seq<char>),
    Failure(Seq<char>),
}

impl View for ExecutionOutcome {
    type V = OutcomeView;

    open spec fn view(&self) -> OutcomeView {
        match self {
            ExecutionOutcome::Success(text) => OutcomeView::Success(text@),
            ExecutionOutcome::Failure(text) => OutcomeView::Failure(text@),
        }
    }
}

/// One line of the report of a run.
#[derive(Debug, Clone, PartialEq, Eq)]
pub struct FunctionResult {
    pub name: String,
    pub result: ExecutionOutcome,
    pub path: String,
}

/// A `FunctionResult` as contracts see it.
pub struct ResultView {
    pub name: Seq<char>,
    pub result: OutcomeView,
    pub path: Seq<char>,
}

impl View for FunctionResult {
    type V = ResultView;

    open spec fn view(&self) -> ResultView {
        ResultView { name: self.name@, result: self.result@, path: self.path@ }
    }
}

impl DeepView for FunctionResult {
    type V = ResultView;

    open spec fn deep_view(&self) -> ResultView {
        self@
    }
}

/// The settings of a run.
#[derive(Debug)]
pub struct Config {
    /// The alias table, if one was configured.
    pub alias: Option<PathAliasTable>,
}

} // verus!
