//! One run over a script: every entry is called, what it returned is
//! written, and a record is kept of each, whatever becomes of the others.
//!
//! The run is a state machine. It asks for one thing at a time, a call or
//! the writing of one file, and is told how that ended. Files are written
//! outside this library.

use crate::call_func::call_function;
use crate::call_in_compose::call_function_typed;
use crate::data_struct::{
    Config, EntryView, ExecutionOutcome, FailureResult, FailureView, FunctionForExecute,
    FunctionResult, FunctionReturnType, OutcomeView, ResultView, ReturnView, SuccessResult,
    SuccessView, TextPairs,
};
use crate::engine::evaluate;
use crate::find_exported_functions::{
    distinct_names, find_composed_functions, find_exported_functions, is_discovery_failure,
    selected, BindingView, EntryKind,
};
use crate::from_key_to_fs_path::{from_string_to_path_string, resolved};
use crate::make_uuid_for_path_not::{is_simple_id, make_uuid_for_path_not, synthesized};
use crate::normalize_path::{join_path, joined, parent_dir, parent_of};
use crate::replace_prefix_or_not::{AliasEntries, PathAliasTable};
use crate::text::followed_by;
use crate::write_fs_kv_pairs::{
    batch_step, write_fs_path_content_paris, write_pairs, written_view, BatchStep, BatchStepView,
};
use boa_engine::Context;
use vstd::prelude::*;
use vstd::string::*;

verus! {

/// How the call of an entry ended.
#[derive(Debug, Clone, PartialEq, Eq)]
pub enum Invocation {
    /// A single-output function returned; this is what it returned, as text.
    Text(String),
    /// A composed function returned; this is what it returned, classified.
    Classified(FunctionReturnType),
    /// The call failed, or what was returned could not be classified.
    Failed(String),
}

/// An `Invocation` as contracts see it.
pub enum InvocationView {
    Text(Seq<char>),
    Classified(ReturnView),
    Failed(Seq<char>),
}

impl View for Invocation {
    type V = InvocationView;

    open spec fn view(&self) -> InvocationView {
        match self {
            Invocation::Text(text) => InvocationView::Text(text@),
            Invocation::Classified(value) => InvocationView::Classified(value@),
            Invocation::Failed(message) => InvocationView::Failed(message@),
        }
    }
}

/// What is to become of an entry after its call.
#[derive(Debug, Clone, PartialEq, Eq)]
pub enum Plan {
    /// These files are to be written, in this order; the record names
    /// `report_path`.
    Write { writes: Vec<(String, String)>, report_path: String },
    /// The entry failed; the record names `path`.
    Fail { error: String, path: String },
    /// The call's outcome is not one of this kind of entry.
    Ignore,
}

/// A `Plan` as contracts see it.
pub enum PlanView {
    Write { writes: TextPairs, report_path: Seq<char> },
    Fail { error: Seq<char>, path: Seq<char> },
    Ignore,
}

impl View for Plan {
    type V = PlanView;

    open spec fn view(&self) -> PlanView {
        match self {
            Plan::Write { writes, report_path } => PlanView::Write {
                writes: writes.deep_view(),
                report_path: report_path@,
            },
            Plan::Fail { error, path } => PlanView::Fail { error: error@, path: path@ },
            Plan::Ignore => PlanView::Ignore,
        }
    }
}

/// What the run asks for next.
#[derive(Debug, Clone, PartialEq, Eq)]
pub enum RunAction {
    /// Call this function of the script with `content`, and tell the run
    /// how the call ended.
    Invoke { name: String, content: String, composed: bool },
    /// Write `content` to the file `path`, and tell the run whether that
    /// succeeded.
    Write { path: String, content: String },
    /// Every entry has its record.
    Finished,
}

/// A `RunAction` as contracts see it.
pub enum ActionView {
    Invoke { name: Seq<char>, content: Seq<char>, composed: bool },
    Write { path: Seq<char>, content: Seq<char> },
    Finished,
}

impl View for RunAction {
    type V = ActionView;

    open spec fn view(&self) -> ActionView {
        match self {
            RunAction::Invoke { name, content, composed } => ActionView::Invoke {
                name: name@,
                content: content@,
                composed: *composed,
            },
            RunAction::Write { path, content } => ActionView::Write {
                path: path@,
                content: content@,
            },
            RunAction::Finished => ActionView::Finished,
        }
    }
}

/// What the run waits for.
enum Stage {
    /// The call of the entry at the cursor.
    Calling,
    /// The writing of the file at `at` of `writes`, for the entry at the
    /// cursor.
    Writing { writes: Vec<(String, String)>, at: usize, report_path: String },
}

/// What a run waits for, as contracts see it.
pub enum StageView {
    Calling,
    Writing { writes: TextPairs, at: int, report_path: Seq<char> },
}

/// A run over the entries of one script.
pub struct Run {
    entries: Vec<FunctionForExecute>,
    aliases: PathAliasTable,
    base_dir: String,
    content: String,
    verbatim: bool,
    cursor: usize,
    stage: Stage,
    successes: Vec<SuccessResult>,
    failures: Vec<FailureResult>,
}

/// A run as contracts see it.
pub struct RunView {
    /// The entries, in the order in which they are processed.
    pub entries: Seq<EntryView>,
    pub aliases: AliasEntries,
    /// The directory that relative paths start from.
    pub base_dir: Seq<char>,
    /// The text that every entry is called with.
    pub content: Seq<char>,
    /// Whether the platform writes paths with a verbatim prefix.
    pub verbatim: bool,
    /// The number of entries that have their record.
    pub cursor: int,
    pub stage: StageView,
    pub successes: Seq<SuccessView>,
    pub failures: Seq<FailureView>,
}

impl View for Run {
    type V = RunView;

    closed spec fn view(&self) -> RunView {
        RunView {
            entries: self.entries.deep_view(),
            aliases: self.aliases@,
            base_dir: self.base_dir@,
            content: self.content@,
            verbatim: self.verbatim,
            cursor: self.cursor as int,
            stage: match self.stage {
                Stage::Calling => StageView::Calling,
                Stage::Writing { writes, at, report_path } => StageView::Writing {
                    writes: writes.deep_view(),
                    at: at as int,
                    report_path: report_path@,
                },
            },
            successes: self.successes.deep_view(),
            failures: self.failures.deep_view(),
        }
    }
}

/// What holds of every run: each entry before the cursor has one record, and
/// a file is written only for the entry at the cursor.
pub open spec fn run_wf(run: RunView) -> bool {
    &&& 0 <= run.cursor <= run.entries.len()
    &&& run.successes.len() + run.failures.len() == run.cursor
    &&& match run.stage {
        StageView::Calling => true,
        StageView::Writing { writes, at, report_path } => {
            &&& run.cursor < run.entries.len()
            &&& 0 <= at < writes.len()
        },
    }
}

/// The name of the file of an entry that declares no path: the function's
/// name, a dot and the declared extension.
pub open spec fn default_file_name(entry: EntryView) -> Seq<char> {
    entry.function_name + seq!['.'] + entry.lang
}

/// The file that a single-output entry is written to: the path it declares
/// or, where it declares none, its default file name in the base directory;
/// either resolved through the aliases.
pub open spec fn target_path(
    entry: EntryView,
    aliases: AliasEntries,
    base: Seq<char>,
    verbatim: bool,
) -> Seq<char> {
    if entry.path.len() > 0 {
        resolved(aliases, base, entry.path, verbatim)
    } else {
        resolved(aliases, base, joined(base, default_file_name(entry)), verbatim)
    }
}

/// `pairs` with every key resolved to the path of a file.
pub open spec fn resolved_pairs(
    pairs: TextPairs,
    aliases: AliasEntries,
    base: Seq<char>,
    verbatim: bool,
) -> TextPairs {
    Seq::new(pairs.len(), |i: int| (resolved(aliases, base, pairs[i].0, verbatim), pairs[i].1))
}

/// What becomes of `entry` after its call.
///
/// A single-output entry is written to its target path, and a failed call
/// is recorded under that path. The pairs of a composed entry are written
/// each to the path that its key resolves to, and recorded under no path; a
/// text of a composed entry is written to `synthesized`; a failed call is
/// recorded under no path.
pub open spec fn planned(
    entry: EntryView,
    invocation: InvocationView,
    aliases: AliasEntries,
    base: Seq<char>,
    synthesized: Seq<char>,
    verbatim: bool,
) -> PlanView {
    if entry.composed {
        match invocation {
            InvocationView::Classified(ReturnView::Array2D(pairs)) => PlanView::Write {
                writes: resolved_pairs(pairs, aliases, base, verbatim),
                report_path: Seq::<char>::empty(),
            },
            InvocationView::Classified(ReturnView::Object(pairs)) => PlanView::Write {
                writes: resolved_pairs(pairs, aliases, base, verbatim),
                report_path: Seq::<char>::empty(),
            },
            InvocationView::Classified(ReturnView::String(text)) => PlanView::Write {
                writes: seq![(synthesized, text)],
                report_path: synthesized,
            },
            InvocationView::Failed(message) => PlanView::Fail {
                error: message,
                path: Seq::<char>::empty(),
            },
            InvocationView::Text(_) => PlanView::Ignore,
        }
    } else {
        let target = target_path(entry, aliases, base, verbatim);
        match invocation {
            InvocationView::Text(text) => PlanView::Write {
                writes: seq![(target, text)],
                report_path: target,
            },
            InvocationView::Failed(message) => PlanView::Fail { error: message, path: target },
            InvocationView::Classified(_) => PlanView::Ignore,
        }
    }
}

/// The run with one more record, for the entry at the cursor, and the
/// cursor on the next entry.
pub open spec fn settled(run: RunView, outcome: Result<bool, Seq<char>>, path: Seq<char>)
    -> RunView {
    let name = run.entries[run.cursor].function_name;
    match outcome {
        Ok(_) => RunView {
            cursor: run.cursor + 1,
            stage: StageView::Calling,
            successes: run.successes.push(SuccessView { name, path }),
            ..run
        },
        Err(message) => RunView {
            cursor: run.cursor + 1,
            stage: StageView::Calling,
            failures: run.failures.push(FailureView { name, error: message, path }),
            ..run
        },
    }
}

/// The run after it was told how the call of the entry at the cursor ended.
///
/// A failed call gives a failure record, and the run goes on with the next
/// entry. A call that leaves nothing to write gives a success record. Else
/// the run goes on to write the first file. A run that waits for no call
/// stays as it is.
pub open spec fn after_invocation(
    run: RunView,
    invocation: InvocationView,
    synthesized: Seq<char>,
) -> RunView {
    if run.stage is Calling && 0 <= run.cursor < run.entries.len() {
        match planned(
            run.entries[run.cursor],
            invocation,
            run.aliases,
            run.base_dir,
            synthesized,
            run.verbatim,
        ) {
            PlanView::Ignore => run,
            PlanView::Fail { error, path } => settled(run, Err(error), path),
            PlanView::Write { writes, report_path } => if writes.len() == 0 {
                settled(run, Ok(true), report_path)
            } else {
                RunView { stage: StageView::Writing { writes, at: 0, report_path }, ..run }
            },
        }
    } else {
        run
    }
}

/// The run after it was told how the writing of a file ended.
///
/// A failed write gives a failure record for the entry, nothing more is
/// written for it, and the run goes on with the next entry. After the last
/// file of an entry a success record is given. A run that waits for no file
/// stays as it is.
pub open spec fn after_write(run: RunView, written: Result<(), Seq<char>>) -> RunView {
    match run.stage {
        StageView::Calling => run,
        StageView::Writing { writes, at, report_path } => match batch_step(
            writes.len(),
            at as nat,
            written,
        ) {
            BatchStepView::Next(next) => RunView {
                stage: StageView::Writing { writes, at: next, report_path },
                ..run
            },
            BatchStepView::Finished(outcome) => settled(run, outcome, report_path),
        },
    }
}

/// What the run asks for.
pub open spec fn action_of(run: RunView) -> ActionView {
    match run.stage {
        StageView::Writing { writes, at, report_path } => ActionView::Write {
            path: writes[at].0,
            content: writes[at].1,
        },
        StageView::Calling => if 0 <= run.cursor < run.entries.len() {
            ActionView::Invoke {
                name: run.entries[run.cursor].function_name,
                content: run.content,
                composed: run.entries[run.cursor].composed,
            }
        } else {
            ActionView::Finished
        },
    }
}

/// The run before anything was called: the single-output entries come
/// first, then the composed ones, and there is no record yet.
pub open spec fn started(
    singles: Seq<EntryView>,
    composed: Seq<EntryView>,
    aliases: AliasEntries,
    base_dir: Seq<char>,
    content: Seq<char>,
    verbatim: bool,
) -> RunView {
    RunView {
        entries: singles + composed,
        aliases,
        base_dir,
        content,
        verbatim,
        cursor: 0,
        stage: StageView::Calling,
        successes: Seq::<SuccessView>::empty(),
        failures: Seq::<FailureView>::empty(),
    }
}

/// The file that a single-output entry is written to.
pub fn target_for(
    entry: &FunctionForExecute,
    aliases: &PathAliasTable,
    base: &str,
    verbatim: bool,
) -> (target: String)
    ensures
        target@ == target_path(entry@, aliases@, base@, verbatim),
{
    if entry.path.as_str().unicode_len() > 0 {
        from_string_to_path_string(aliases, base, entry.path.clone(), verbatim)
    } else {
        proof {
            reveal_strlit(".");
        }
        let mut file_name = entry.function_name.clone();
        file_name.append(".");
        file_name.append(entry.lang.as_str());
        assert(file_name@ =~= default_file_name(entry@));
        from_string_to_path_string(aliases, base, join_path(base, file_name.as_str()), verbatim)
    }
}

/// `pairs` with every key resolved to the path of a file.
pub fn resolve_pairs(
    pairs: &Vec<(String, String)>,
    aliases: &PathAliasTable,
    base: &str,
    verbatim: bool,
) -> (writes: Vec<(String, String)>)
    ensures
        writes.deep_view() == resolved_pairs(pairs.deep_view(), aliases@, base@, verbatim),
{
    let ghost wanted = resolved_pairs(pairs.deep_view(), aliases@, base@, verbatim);
    let mut writes: Vec<(String, String)> = Vec::new();
    let mut k: usize = 0;
    while k < pairs.len()
        invariant
            k <= pairs.len(),
            wanted == resolved_pairs(pairs.deep_view(), aliases@, base@, verbatim),
            writes.deep_view() == wanted.take(k as int),
        decreases pairs.len() - k,
    {
        let ghost so_far = writes.deep_view();
        let path = from_string_to_path_string(aliases, base, pairs[k].0.clone(), verbatim);
        writes.push((path, pairs[k].1.clone()));
        assert(writes.deep_view() =~= so_far.push(wanted[k as int]));
        assert(wanted.take(k + 1) =~= wanted.take(k as int).push(wanted[k as int]));
        k = k + 1;
    }
    assert(wanted.take(pairs.len() as int) =~= wanted);
    writes
}

/// One file to write.
fn single_write(path: String, content: String) -> (writes: Vec<(String, String)>)
    ensures
        writes.deep_view() == seq![(path@, content@)],
{
    let mut writes: Vec<(String, String)> = Vec::new();
    writes.push((path, content));
    assert(writes.deep_view() =~= seq![(path@, content@)]);
    writes
}

/// What is to become of `entry` after its call. `synthesized` is the file
/// name for a composed entry that returned one text.
pub fn plan_entry(
    entry: &FunctionForExecute,
    invocation: Invocation,
    aliases: &PathAliasTable,
    base: &str,
    synthesized: String,
    verbatim: bool,
) -> (plan: Plan)
    ensures
        plan@ == planned(entry@, invocation@, aliases@, base@, synthesized@, verbatim),
{
    if entry.composed {
        match invocation {
            Invocation::Classified(FunctionReturnType::Array2D(pairs)) => Plan::Write {
                writes: resolve_pairs(&pairs, aliases, base, verbatim),
                report_path: String::new(),
            },
            Invocation::Classified(FunctionReturnType::Object(pairs)) => Plan::Write {
                writes: resolve_pairs(&pairs, aliases, base, verbatim),
                report_path: String::new(),
            },
            Invocation::Classified(FunctionReturnType::String(text)) => {
                let report_path = synthesized.clone();
                Plan::Write { writes: single_write(synthesized, text), report_path }
            },
            Invocation::Failed(message) => Plan::Fail { error: message, path: String::new() },
            Invocation::Text(_) => Plan::Ignore,
        }
    } else {
        let target = target_for(entry, aliases, base, verbatim);
        match invocation {
            Invocation::Text(text) => {
                let report_path = target.clone();
                Plan::Write { writes: single_write(target, text), report_path }
            },
            Invocation::Failed(message) => Plan::Fail { error: message, path: target },
            Invocation::Classified(_) => Plan::Ignore,
        }
    }
}

impl Run {
    #[verifier::type_invariant]
    spec fn well_formed(&self) -> bool {
        run_wf(self@)
    }

    /// A run over `singles` and then `composed`, with nothing called yet.
    /// Relative paths start from `base_dir`, and every entry is called with
    /// `content`. `verbatim` says whether the platform writes paths with a
    /// verbatim prefix. There may be no entries at all.
    pub fn new(
        singles: Vec<FunctionForExecute>,
        composed: Vec<FunctionForExecute>,
        aliases: PathAliasTable,
        base_dir: String,
        content: String,
        verbatim: bool,
    ) -> (run: Run)
        ensures
            run@ == started(
                singles.deep_view(),
                composed.deep_view(),
                aliases@,
                base_dir@,
                content@,
                verbatim,
            ),
            run_wf(run@),
    {
        let mut entries = singles;
        let mut composed = composed;
        let ghost first = entries.deep_view();
        let ghost second = composed.deep_view();
        entries.append(&mut composed);
        assert(entries.deep_view() =~= first + second);
        let successes: Vec<SuccessResult> = Vec::new();
        let failures: Vec<FailureResult> = Vec::new();
        assert(successes.deep_view() =~= Seq::<SuccessView>::empty());
        assert(failures.deep_view() =~= Seq::<FailureView>::empty());
        Run {
            entries,
            aliases,
            base_dir,
            content,
            verbatim,
            cursor: 0,
            stage: Stage::Calling,
            successes,
            failures,
        }
    }

    /// What the run asks for next.
    pub fn next_action(&self) -> (action: RunAction)
        ensures
            action@ == action_of(self@),
            run_wf(self@),
    {
        proof {
            use_type_invariant(self);
        }
        match &self.stage {
            Stage::Writing { writes, at, report_path } => {
                let pair = &writes[*at];
                assert(writes.deep_view()[*at as int] == (pair.0@, pair.1@));
                RunAction::Write { path: pair.0.clone(), content: pair.1.clone() }
            },
            Stage::Calling => {
                if self.cursor < self.entries.len() {
                    let entry = &self.entries[self.cursor];
                    assert(self.entries.deep_view()[self.cursor as int] == entry@);
                    RunAction::Invoke {
                        name: entry.function_name.clone(),
                        content: self.content.clone(),
                        composed: entry.composed,
                    }
                } else {
                    RunAction::Finished
                }
            },
        }
    }

    /// Whether every entry has its record.
    pub fn is_finished(&self) -> (finished: bool)
        ensures
            finished == (action_of(self@) is Finished),
            finished ==> self@.successes.len() + self@.failures.len() == self@.entries.len(),
    {
        proof {
            use_type_invariant(self);
        }
        match &self.stage {
            Stage::Writing { .. } => false,
            Stage::Calling => self.cursor >= self.entries.len(),
        }
    }

    /// Tells the run how the call that it asked for ended. `synthesized`
    /// is the file name for a composed entry that returned one text.
    pub fn invoked(self, invocation: Invocation, synthesized: String) -> (run: Run)
        ensures
            run@ == after_invocation(self@, invocation@, synthesized@),
            run_wf(run@),
    {
        proof {
            use_type_invariant(&self);
        }
        let Run {
            entries,
            aliases,
            base_dir,
            content,
            verbatim,
            cursor,
            stage,
            successes,
            failures,
        } = self;
        let calling = match &stage {
            Stage::Calling => true,
            Stage::Writing { .. } => false,
        };
        if !calling || cursor >= entries.len() {
            return Run {
                entries,
                aliases,
                base_dir,
                content,
                verbatim,
                cursor,
                stage,
                successes,
                failures,
            };
        }
        let entry = &entries[cursor];
        assert(entries.deep_view()[cursor as int] == entry@);
        let name = entry.function_name.clone();
        let plan = plan_entry(
            entry,
            invocation,
            &aliases,
            base_dir.as_str(),
            synthesized,
            verbatim,
        );
        let mut successes = successes;
        let mut failures = failures;
        match plan {
            Plan::Ignore => Run {
                entries,
                aliases,
                base_dir,
                content,
                verbatim,
                cursor,
                stage,
                successes,
                failures,
            },
            Plan::Fail { error, path } => {
                write_pairs(Err(error), &mut successes, &mut failures, name, path);
                Run {
                    entries,
                    aliases,
                    base_dir,
                    content,
                    verbatim,
                    cursor: cursor + 1,
                    stage: Stage::Calling,
                    successes,
                    failures,
                }
            },
            Plan::Write { writes, report_path } => {
                if writes.len() == 0 {
                    write_pairs(Ok(true), &mut successes, &mut failures, name, report_path);
                    Run {
                        entries,
                        aliases,
                        base_dir,
                        content,
                        verbatim,
                        cursor: cursor + 1,
                        stage: Stage::Calling,
                        successes,
                        failures,
                    }
                } else {
                    Run {
                        entries,
                        aliases,
                        base_dir,
                        content,
                        verbatim,
                        cursor,
                        stage: Stage::Writing { writes, at: 0, report_path },
                        successes,
                        failures,
                    }
                }
            },
        }
    }

    /// Tells the run how the writing of the file that it asked for ended.
    pub fn written(self, outcome: Result<(), String>) -> (run: Run)
        ensures
            run@ == after_write(self@, written_view(outcome)),
            run_wf(run@),
    {
        proof {
            use_type_invariant(&self);
        }
        let Run {
            entries,
            aliases,
            base_dir,
            content,
            verbatim,
            cursor,
            stage,
            successes,
            failures,
        } = self;
        match stage {
            Stage::Calling => Run {
                entries,
                aliases,
                base_dir,
                content,
                verbatim,
                cursor,
                stage: Stage::Calling,
                successes,
                failures,
            },
            Stage::Writing { writes, at, report_path } => {
                match write_fs_path_content_paris(&writes, at, outcome) {
                    BatchStep::Next(next) => Run {
                        entries,
                        aliases,
                        base_dir,
                        content,
                        verbatim,
                        cursor,
                        stage: Stage::Writing { writes, at: next, report_path },
                        successes,
                        failures,
                    },
                    BatchStep::Finished(result) => {
                        let count = entries.len();
                        assert(cursor < count);
                        let entry = &entries[cursor];
                        assert(entries.deep_view()[cursor as int] == entry@);
                        let name = entry.function_name.clone();
                        let mut successes = successes;
                        let mut failures = failures;
                        write_pairs(result, &mut successes, &mut failures, name, report_path);
                        Run {
                            entries,
                            aliases,
                            base_dir,
                            content,
                            verbatim,
                            cursor: cursor + 1,
                            stage: Stage::Calling,
                            successes,
                            failures,
                        }
                    },
                }
            },
        }
    }

    /// Makes the call that the run asks for, in `context`, and tells the run
    /// how it ended. The text of a composed entry goes to a file named by
    /// the entry's name and a fresh identifier. A run that asks for no call
    /// stays as it is.
    pub fn call_next(self, context: &mut Context) -> (run: Run)
        ensures
            exists|invocation: InvocationView, made: Seq<char>|
                run@ == after_invocation(self@, invocation, made) && (action_of(self@)
                    is Invoke ==> fits(self@.entries[self@.cursor].composed, invocation)) && (
                invocation matches InvocationView::Classified(ReturnView::String(_))
                    ==> exists|id: Seq<char>|
                    is_simple_id(id) && made == synthesized(
                        self@.entries[self@.cursor].function_name,
                        id,
                    )),
            run_wf(run@),
    {
        proof {
            use_type_invariant(&self);
        }
        match self.next_action() {
            RunAction::Invoke { name, content, composed } => {
                let invocation = if composed {
                    match call_function_typed(context, name.as_str(), content.as_str()) {
                        Ok(value) => Invocation::Classified(value),
                        Err(message) => Invocation::Failed(message),
                    }
                } else {
                    match call_function(context, name.as_str(), content.as_str()) {
                        Ok(text) => Invocation::Text(text),
                        Err(message) => Invocation::Failed(message),
                    }
                };
                let file_name = match &invocation {
                    Invocation::Classified(FunctionReturnType::String(_)) => make_uuid_for_path_not(
                        &name,
                    ),
                    _ => String::new(),
                };
                let ghost told = invocation@;
                let ghost made = file_name@;
                let run = self.invoked(invocation, file_name);
                assert(name@ == self@.entries[self@.cursor].function_name);
                assert(run@ == after_invocation(self@, told, made) && fits(
                    self@.entries[self@.cursor].composed,
                    told,
                ) && (told matches InvocationView::Classified(ReturnView::String(_))
                    ==> exists|id: Seq<char>|
                    is_simple_id(id) && made == synthesized(
                        self@.entries[self@.cursor].function_name,
                        id,
                    )));
                run
            },
            _ => {
                assert(self@ == after_invocation(
                    self@,
                    InvocationView::Failed(Seq::<char>::empty()),
                    Seq::<char>::empty(),
                ));
                self
            },
        }
    }

    /// The records of the run: the successes and the failures, each in the
    /// order in which they were given.
    pub fn into_results(self) -> (records: (Vec<SuccessResult>, Vec<FailureResult>))
        ensures
            records.0.deep_view() == self@.successes,
            records.1.deep_view() == self@.failures,
            records.0.len() + records.1.len() == self@.cursor,
    {
        proof {
            use_type_invariant(&self);
        }
        let Run {
            entries,
            aliases,
            base_dir,
            content,
            verbatim,
            cursor,
            stage,
            successes,
            failures,
        } = self;
        (successes, failures)
    }
}

/// The outcome of a call is one that an entry of this kind can have: a
/// text for a single-output entry, a classified value for a composed one,
/// a failure for either.
pub open spec fn fits(composed: bool, invocation: InvocationView) -> bool {
    match invocation {
        InvocationView::Text(_) => !composed,
        InvocationView::Classified(_) => composed,
        InvocationView::Failed(_) => true,
    }
}

/// What a run is told: how a call ended, with the file name for a composed
/// entry that returned one text, or how the writing of a file ended.
pub enum EventView {
    Invoked { invocation: InvocationView, synthesized: Seq<char> },
    Written { written: Result<(), Seq<char>> },
}

/// The run after it was told of one event.
pub open spec fn after_event(run: RunView, event: EventView) -> RunView {
    match event {
        EventView::Invoked { invocation, synthesized } => after_invocation(
            run,
            invocation,
            synthesized,
        ),
        EventView::Written { written } => after_write(run, written),
    }
}

/// The run after it was told of `events`, one after the other.
pub open spec fn after_events(run: RunView, events: Seq<EventView>) -> RunView
    decreases events.len(),
{
    if events.len() == 0 {
        run
    } else {
        after_event(after_events(run, events.drop_last()), events.last())
    }
}

/// Whatever a run is told, and in whatever order: it keeps every record it
/// has given, its entries and its content stay, the cursor never goes back,
/// and each entry before the cursor has exactly one record.
pub proof fn lemma_nothing_stops_or_undoes_a_run(run: RunView, events: Seq<EventView>)
    requires
        run_wf(run),
    ensures
        ({
            let after = after_events(run, events);
            &&& run_wf(after)
            &&& after.entries == run.entries
            &&& after.content == run.content
            &&& run.successes.is_prefix_of(after.successes)
            &&& run.failures.is_prefix_of(after.failures)
            &&& run.cursor <= after.cursor
        }),
    decreases events.len(),
{
    if events.len() > 0 {
        let before = after_events(run, events.drop_last());
        lemma_nothing_stops_or_undoes_a_run(run, events.drop_last());
        match events.last() {
            EventView::Invoked { invocation, synthesized } => {
                lemma_invocation_keeps_records(before, invocation, synthesized);
            },
            EventView::Written { written } => {
                lemma_write_keeps_records(before, written);
            },
        }
        let after = after_events(run, events);
        assert(run.successes.is_prefix_of(after.successes)) by {
            assert(run.successes =~= after.successes.subrange(0, run.successes.len() as int));
        }
        assert(run.failures.is_prefix_of(after.failures)) by {
            assert(run.failures =~= after.failures.subrange(0, run.failures.len() as int));
        }
    }
}

/// A call that is answered with an outcome of the entry's kind is never
/// asked for again: the entry is settled, or its first file is asked for.
pub proof fn lemma_answered_call_makes_progress(
    run: RunView,
    invocation: InvocationView,
    synthesized: Seq<char>,
)
    requires
        run_wf(run),
        action_of(run) is Invoke,
        fits(run.entries[run.cursor].composed, invocation),
    ensures
        ({
            let after = after_invocation(run, invocation, synthesized);
            ||| after.cursor == run.cursor + 1 && after.stage is Calling
            ||| after.cursor == run.cursor && (after.stage matches StageView::Writing { at, .. }
                && at == 0)
        }),
{
}

/// A write that is answered is never asked for again: the next file of the
/// entry is asked for, or the entry is settled.
pub proof fn lemma_answered_write_makes_progress(run: RunView, written: Result<(), Seq<char>>)
    requires
        run_wf(run),
        action_of(run) is Write,
    ensures
        ({
            let after = after_write(run, written);
            ||| after.cursor == run.cursor + 1 && after.stage is Calling
            ||| after.cursor == run.cursor && (run.stage matches StageView::Writing {
                at: before,
                ..
            } && after.stage matches StageView::Writing { at, .. } && at == before + 1)
        }),
{
}

/// One step after a call keeps what holds of every run. It takes no record
/// away, gives at most one, and gives one exactly when it moves the cursor.
pub proof fn lemma_invocation_keeps_records(
    run: RunView,
    invocation: InvocationView,
    synthesized: Seq<char>,
)
    requires
        run_wf(run),
    ensures
        ({
            let after = after_invocation(run, invocation, synthesized);
            &&& run_wf(after)
            &&& after.entries == run.entries
            &&& after.content == run.content
            &&& run.successes.is_prefix_of(after.successes)
            &&& run.failures.is_prefix_of(after.failures)
            &&& run.cursor <= after.cursor <= run.cursor + 1
        }),
{
}

/// One step after a write keeps what holds of every run. It takes no record
/// away, gives at most one, and gives one exactly when it moves the cursor.
pub proof fn lemma_write_keeps_records(run: RunView, written: Result<(), Seq<char>>)
    requires
        run_wf(run),
    ensures
        ({
            let after = after_write(run, written);
            &&& run_wf(after)
            &&& after.entries == run.entries
            &&& after.content == run.content
            &&& run.successes.is_prefix_of(after.successes)
            &&& run.failures.is_prefix_of(after.failures)
            &&& run.cursor <= after.cursor <= run.cursor + 1
        }),
{
}

/// What a run asks for when the entry at its cursor is settled: the call of
/// the next entry, or nothing if that was the last.
pub open spec fn next_call(run: RunView) -> ActionView {
    if run.cursor + 1 < run.entries.len() {
        ActionView::Invoke {
            name: run.entries[run.cursor + 1].function_name,
            content: run.content,
            composed: run.entries[run.cursor + 1].composed,
        }
    } else {
        ActionView::Finished
    }
}

/// A call that fails does not end the run: the entry gets a failure record
/// with the message, the successes stay, and the run goes on with the next
/// entry.
pub proof fn lemma_failed_call_does_not_stop_the_run(
    run: RunView,
    message: Seq<char>,
    synthesized: Seq<char>,
)
    requires
        run_wf(run),
        run.stage is Calling,
        run.cursor < run.entries.len(),
    ensures
        ({
            let after = after_invocation(run, InvocationView::Failed(message), synthesized);
            &&& after.cursor == run.cursor + 1
            &&& after.successes == run.successes
            &&& after.failures.len() == run.failures.len() + 1
            &&& after.failures.last().name == run.entries[run.cursor].function_name
            &&& after.failures.last().error == message
            &&& action_of(after) == next_call(run)
        }),
{
}

/// A write that fails does not end the run: the entry gets a failure record
/// with the message, nothing more is written for it, and the run goes on
/// with the next entry.
pub proof fn lemma_failed_write_does_not_stop_the_run(run: RunView, message: Seq<char>)
    requires
        run_wf(run),
        run.stage is Writing,
    ensures
        ({
            let after = after_write(run, Err(message));
            &&& after.cursor == run.cursor + 1
            &&& after.successes == run.successes
            &&& after.failures.len() == run.failures.len() + 1
            &&& after.failures.last().name == run.entries[run.cursor].function_name
            &&& after.failures.last().error == message
            &&& action_of(after) == next_call(run)
        }),
{
}

/// The last write of an entry gives it a success record, and the run goes
/// on with the next entry.
pub proof fn lemma_last_write_settles_the_entry(run: RunView)
    requires
        run_wf(run),
        run.stage matches StageView::Writing { writes, at, .. } && at + 1 == writes.len(),
    ensures
        ({
            let after = after_write(run, Ok(()));
            &&& after.cursor == run.cursor + 1
            &&& after.failures == run.failures
            &&& after.successes.len() == run.successes.len() + 1
            &&& after.successes.last().name == run.entries[run.cursor].function_name
            &&& action_of(after) == next_call(run)
        }),
{
}

/// A run that asks for nothing more has a record for every entry.
pub proof fn lemma_finished_run_accounts_for_every_entry(run: RunView)
    requires
        run_wf(run),
        action_of(run) is Finished,
    ensures
        run.successes.len() + run.failures.len() == run.entries.len(),
{
}

/// Runs the script `js_code` in `context`, finds its entries, and gives the
/// run over them: first the single-output entries, then the composed ones,
/// with nothing called yet. Relative paths start from the directory of
/// `js_file_str`, and the aliases are those of `generation_config`, or none.
/// `verbatim` says whether the platform writes paths with a verbatim prefix.
/// Fails, with nothing else done, where the script itself fails.
pub fn execute_exported_functions(
    context: &mut Context,
    js_code: &str,
    content: &str,
    js_file_str: &str,
    generation_config: &Config,
    verbatim: bool,
) -> (run: Result<Run, String>)
    ensures
        run matches Err(message) ==> {
            ||| exists|reason: Seq<char>| message@ == #[trigger] evaluation_failed_text(reason)
            ||| is_discovery_failure(message@)
        },
        run matches Ok(run) ==> {
            &&& run_wf(run@)
            &&& run@.cursor == 0
            &&& run@.stage is Calling
            &&& run@.successes.len() == 0
            &&& run@.failures.len() == 0
            &&& exists|first: Seq<BindingView>, second: Seq<BindingView>|
                run@.entries == #[trigger] selected(first, EntryKind::SingleOutput)
                    + #[trigger] selected(second, EntryKind::Composed)
            &&& run@.content == content@
            &&& run@.verbatim == verbatim
            &&& run@.base_dir == parent_of(js_file_str@)
            &&& run@.aliases == match generation_config.alias {
                Some(table) => table@,
                None => AliasEntries::empty(),
            }
        },
{
    match evaluate(context, js_code) {
        Ok(_) => {},
        Err(message) => {
            let text = followed_by("Failed to evaluate JavaScript: ", message.as_str());
            assert(text@ == evaluation_failed_text(message@));
            return Err(text);
        },
    }
    let singles = match find_exported_functions(context) {
        Ok(singles) => singles,
        Err(message) => {
            return Err(message);
        },
    };
    let composed = match find_composed_functions(context) {
        Ok(composed) => composed,
        Err(message) => {
            return Err(message);
        },
    };
    let aliases = match &generation_config.alias {
        Some(table) => table.copy(),
        None => PathAliasTable::new(),
    };
    proof {
        let first = choose|bindings: Seq<BindingView>|
            distinct_names(bindings) && singles.deep_view() == #[trigger] selected(
                bindings,
                EntryKind::SingleOutput,
            );
        let second = choose|bindings: Seq<BindingView>|
            distinct_names(bindings) && composed.deep_view() == #[trigger] selected(
                bindings,
                EntryKind::Composed,
            );
        assert(singles.deep_view() + composed.deep_view() == selected(
            first,
            EntryKind::SingleOutput,
        ) + selected(second, EntryKind::Composed));
    }
    Ok(
        Run::new(
            singles,
            composed,
            aliases,
            parent_dir(js_file_str),
            String::from_str(content),
            verbatim,
        ),
    )
}

/// The report of a run as contracts see it: a line for each success, then a
/// line for each failure.
pub open spec fn report_of(successes: Seq<SuccessView>, failures: Seq<FailureView>) -> Seq<
    ResultView,
> {
    Seq::new(
        successes.len() + failures.len(),
        |i: int|
            if i < successes.len() {
                ResultView {
                    name: successes[i].name,
                    result: OutcomeView::Success("Done!"@),
                    path: successes[i].path,
                }
            } else {
                ResultView {
                    name: failures[i - successes.len()].name,
                    result: OutcomeView::Failure(failures[i - successes.len()].error),
                    path: failures[i - successes.len()].path,
                }
            },
    )
}

/// The report of a run: a line for each success, then a line for each
/// failure with its message.
pub fn report(successes: &Vec<SuccessResult>, failures: &Vec<FailureResult>) -> (lines: Vec<
    FunctionResult,
>)
    ensures
        lines.deep_view() == report_of(successes.deep_view(), failures.deep_view()),
{
    let ghost wanted = report_of(successes.deep_view(), failures.deep_view());
    let mut lines: Vec<FunctionResult> = Vec::new();
    let mut i: usize = 0;
    while i < successes.len()
        invariant
            i <= successes.len(),
            wanted == report_of(successes.deep_view(), failures.deep_view()),
            lines.deep_view() == wanted.take(i as int),
        decreases successes.len() - i,
    {
        let ghost so_far = lines.deep_view();
        let success = &successes[i];
        assert(successes.deep_view()[i as int] == success@);
        lines.push(
            FunctionResult {
                name: success.name.clone(),
                result: ExecutionOutcome::Success(String::from_str("Done!")),
                path: success.path.clone(),
            },
        );
        assert(lines.deep_view() =~= so_far.push(wanted[i as int]));
        assert(wanted.take(i + 1) =~= wanted.take(i as int).push(wanted[i as int]));
        i = i + 1;
    }
    let mut j: usize = 0;
    while j < failures.len()
        invariant
            j <= failures.len(),
            wanted == report_of(successes.deep_view(), failures.deep_view()),
            lines.deep_view() == wanted.take(successes.len() + j),
        decreases failures.len() - j,
    {
        let ghost so_far = lines.deep_view();
        let failure = &failures[j];
        assert(failures.deep_view()[j as int] == failure@);
        lines.push(
            FunctionResult {
                name: failure.name.clone(),
                result: ExecutionOutcome::Failure(failure.error.clone()),
                path: failure.path.clone(),
            },
        );
        assert(lines.deep_view() =~= so_far.push(wanted[successes.len() + j]));
        assert(wanted.take(successes.len() + j + 1) =~= wanted.take(successes.len() + j).push(
            wanted[successes.len() + j],
        ));
        j = j + 1;
    }
    assert(wanted.take(successes.len() + failures.len()) =~= wanted);
    lines
}

/// What is said where the script itself fails.
pub open spec fn evaluation_failed_text(reason: Seq<char>) -> Seq<char> {
    "Failed to evaluate JavaScript: "@ + reason
}

} // verus!
