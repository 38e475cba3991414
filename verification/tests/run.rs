use boa_engine::{Context, Source};
use js_evaluator::data_struct::{
    Config, ExecutionOutcome, FailureResult, FunctionForExecute, FunctionResult,
    FunctionReturnType, SuccessResult,
};
use js_evaluator::executors::{
    execute_exported_functions, plan_entry, report, resolve_pairs, target_for, Invocation, Plan,
    Run, RunAction,
};
use js_evaluator::load_config_file::load_config;
use js_evaluator::make_uuid_for_path_not::{make_uuid_for_path_not, synthesized_name};
use js_evaluator::replace_prefix_or_not::PathAliasTable;
use js_evaluator::write_fs_kv_pairs::{write_fs_path_content_paris, write_pairs, BatchStep};

fn entry(name: &str, path: &str, lang: &str, composed: bool) -> FunctionForExecute {
    FunctionForExecute {
        function_name: name.to_string(),
        path: path.to_string(),
        lang: lang.to_string(),
        composed,
    }
}

fn pairs(items: &[(&str, &str)]) -> Vec<(String, String)> {
    items.iter().map(|(k, v)| (k.to_string(), v.to_string())).collect()
}

fn success(name: &str, path: &str) -> SuccessResult {
    SuccessResult { name: name.to_string(), path: path.to_string() }
}

fn failure(name: &str, error: &str, path: &str) -> FailureResult {
    FailureResult { name: name.to_string(), error: error.to_string(), path: path.to_string() }
}

fn aliases() -> PathAliasTable {
    let mut table = PathAliasTable::new();
    table.insert("@out".to_string(), "/var/out".to_string());
    table
}

fn run_over(singles: Vec<FunctionForExecute>, composed: Vec<FunctionForExecute>) -> Run {
    Run::new(singles, composed, aliases(), "/home/user".to_string(), "CONTENT".to_string(), false)
}

fn invoke_action(name: &str, composed: bool) -> RunAction {
    RunAction::Invoke { name: name.to_string(), content: "CONTENT".to_string(), composed }
}

fn write_action(path: &str, content: &str) -> RunAction {
    RunAction::Write { path: path.to_string(), content: content.to_string() }
}

/// Drives a run to its end. A file whose path is in `refused` cannot be
/// written; every other file is kept in the list that is returned.
fn drive(
    mut run: Run,
    context: &mut Context,
    refused: &[&str],
) -> (Vec<(String, String)>, Vec<SuccessResult>, Vec<FailureResult>) {
    let mut files: Vec<(String, String)> = Vec::new();
    let mut steps = 0;
    loop {
        steps += 1;
        assert!(steps < 1000);
        match run.next_action() {
            RunAction::Invoke { .. } => {
                run = run.call_next(context);
            }
            RunAction::Write { path, content } => {
                if refused.contains(&path.as_str()) {
                    run = run.written(Err(format!("cannot write {path}")));
                } else {
                    files.retain(|(held, _)| *held != path);
                    files.push((path, content));
                    run = run.written(Ok(()));
                }
            }
            RunAction::Finished => break,
        }
    }
    assert!(run.is_finished());
    let (successes, failures) = run.into_results();
    (files, successes, failures)
}

#[test]
fn run_without_entries_is_finished() {
    let run = run_over(vec![], vec![]);
    assert_eq!(run.next_action(), RunAction::Finished);
    assert!(run.is_finished());
    assert_eq!(run.into_results(), (vec![], vec![]));
}

#[test]
fn singles_come_before_composed() {
    let run = run_over(vec![entry("s", "s.txt", "", false)], vec![entry("c", "", "", true)]);
    assert_eq!(run.next_action(), invoke_action("s", false));
    let run = run.invoked(Invocation::Failed("e".to_string()), String::new());
    assert_eq!(run.next_action(), invoke_action("c", true));
}

#[test]
fn single_output_is_written_to_its_target() {
    let run = run_over(vec![entry("page", "@out/./page.html", "html", false)], vec![]);
    assert!(!run.is_finished());
    let run = run.invoked(Invocation::Text("<p>".to_string()), "unused".to_string());
    assert_eq!(run.next_action(), write_action("/var/out/page.html", "<p>"));
    assert!(!run.is_finished());
    let run = run.written(Ok(()));
    assert_eq!(run.next_action(), RunAction::Finished);
    assert_eq!(run.into_results(), (vec![success("page", "/var/out/page.html")], vec![]));
}

#[test]
fn single_output_without_path_goes_by_name_and_lang() {
    let run = run_over(vec![entry("page", "", "html", false)], vec![]);
    let run = run.invoked(Invocation::Text("x".to_string()), String::new());
    assert_eq!(run.next_action(), write_action("/home/user/page.html", "x"));
    assert_eq!(
        target_for(&entry("page", "", "html", false), &aliases(), "/home/user", false),
        "/home/user/page.html"
    );
    assert_eq!(
        target_for(&entry("page", "rel/p.txt", "html", false), &aliases(), "/home/user", false),
        "/home/user/rel/p.txt"
    );
}

#[test]
fn failed_call_is_recorded_under_the_target() {
    let run = run_over(
        vec![entry("a", "a.txt", "", false), entry("b", "b.txt", "", false)],
        vec![],
    );
    let run = run.invoked(Invocation::Failed("boom".to_string()), String::new());
    assert_eq!(run.next_action(), invoke_action("b", false));
    let run = run.invoked(Invocation::Text("B".to_string()), String::new());
    let run = run.written(Ok(()));
    assert_eq!(
        run.into_results(),
        (
            vec![success("b", "/home/user/b.txt")],
            vec![failure("a", "boom", "/home/user/a.txt")]
        )
    );
}

#[test]
fn failed_write_is_recorded_and_the_run_goes_on() {
    let run = run_over(
        vec![entry("a", "a.txt", "", false), entry("b", "b.txt", "", false)],
        vec![],
    );
    let run = run.invoked(Invocation::Text("A".to_string()), String::new());
    let run = run.written(Err("disk full".to_string()));
    assert_eq!(run.next_action(), invoke_action("b", false));
    let run = run.invoked(Invocation::Text("B".to_string()), String::new());
    let run = run.written(Ok(()));
    assert!(run.is_finished());
    assert_eq!(
        run.into_results(),
        (
            vec![success("b", "/home/user/b.txt")],
            vec![failure("a", "disk full", "/home/user/a.txt")]
        )
    );
}

#[test]
fn composed_pairs_are_written_one_after_the_other() {
    let run = run_over(vec![], vec![entry("bundle", "", "", true)]);
    let returned = FunctionReturnType::Array2D(pairs(&[("@out/a.txt", "A"), ("sub/../b.txt", "B")]));
    let run = run.invoked(Invocation::Classified(returned), "unused".to_string());
    assert_eq!(run.next_action(), write_action("/var/out/a.txt", "A"));
    let run = run.written(Ok(()));
    assert_eq!(run.next_action(), write_action("/home/user/b.txt", "B"));
    let run = run.written(Ok(()));
    assert_eq!(run.next_action(), RunAction::Finished);
    assert_eq!(run.into_results(), (vec![success("bundle", "")], vec![]));
}

#[test]
fn composed_object_is_written_like_pairs() {
    let run = run_over(vec![], vec![entry("bundle", "", "", true)]);
    let returned = FunctionReturnType::Object(pairs(&[("c.txt", "C")]));
    let run = run.invoked(Invocation::Classified(returned), String::new());
    assert_eq!(run.next_action(), write_action("/home/user/c.txt", "C"));
    let run = run.written(Ok(()));
    assert_eq!(run.into_results(), (vec![success("bundle", "")], vec![]));
}

#[test]
fn failed_write_ends_the_batch_of_its_entry_only() {
    let run = run_over(vec![], vec![entry("one", "", "", true), entry("two", "", "", true)]);
    let returned = FunctionReturnType::Array2D(pairs(&[("a", "A"), ("b", "B"), ("c", "C")]));
    let run = run.invoked(Invocation::Classified(returned), String::new());
    let run = run.written(Ok(()));
    assert_eq!(run.next_action(), write_action("/home/user/b", "B"));
    let run = run.written(Err("denied".to_string()));
    assert_eq!(run.next_action(), invoke_action("two", true));
    let returned = FunctionReturnType::Array2D(pairs(&[("d", "D")]));
    let run = run.invoked(Invocation::Classified(returned), String::new());
    assert_eq!(run.next_action(), write_action("/home/user/d", "D"));
    let run = run.written(Ok(()));
    assert_eq!(
        run.into_results(),
        (vec![success("two", "")], vec![failure("one", "denied", "")])
    );
}

#[test]
fn composed_without_pairs_succeeds_at_once() {
    let run = run_over(vec![], vec![entry("none", "", "", true)]);
    let run = run.invoked(Invocation::Classified(FunctionReturnType::Array2D(vec![])), String::new());
    assert_eq!(run.next_action(), RunAction::Finished);
    assert_eq!(run.into_results(), (vec![success("none", "")], vec![]));
}

#[test]
fn composed_text_is_written_to_the_synthesized_name() {
    let run = run_over(vec![], vec![entry("one", "", "", true)]);
    let returned = FunctionReturnType::String("TEXT".to_string());
    let run = run.invoked(Invocation::Classified(returned), "one_0123".to_string());
    assert_eq!(run.next_action(), write_action("one_0123", "TEXT"));
    let run = run.written(Ok(()));
    assert_eq!(run.into_results(), (vec![success("one", "one_0123")], vec![]));
}

#[test]
fn composed_failure_is_recorded_under_no_path() {
    let run = run_over(vec![], vec![entry("one", "p.txt", "", true)]);
    let run = run.invoked(Invocation::Failed("Item 0 is bad".to_string()), String::new());
    assert_eq!(run.into_results(), (vec![], vec![failure("one", "Item 0 is bad", "")]));
}

#[test]
fn an_event_that_answers_nothing_changes_nothing() {
    let run = run_over(vec![entry("s", "s.txt", "", false)], vec![entry("c", "", "", true)]);
    let run = run.written(Ok(()));
    assert_eq!(run.next_action(), invoke_action("s", false));
    let run = run.written(Err("x".to_string()));
    assert_eq!(run.next_action(), invoke_action("s", false));
    let run = run.invoked(
        Invocation::Classified(FunctionReturnType::String("t".to_string())),
        String::new(),
    );
    assert_eq!(run.next_action(), invoke_action("s", false));
    let run = run.invoked(Invocation::Text("S".to_string()), String::new());
    assert_eq!(run.next_action(), write_action("/home/user/s.txt", "S"));
    let run = run.invoked(Invocation::Text("again".to_string()), String::new());
    assert_eq!(run.next_action(), write_action("/home/user/s.txt", "S"));
    let run = run.written(Ok(()));
    let run = run.invoked(Invocation::Text("text".to_string()), String::new());
    assert_eq!(run.next_action(), invoke_action("c", true));
    let run = run.invoked(Invocation::Failed("e".to_string()), String::new());
    assert!(run.is_finished());
    let run = run.invoked(Invocation::Failed("late".to_string()), String::new());
    let run = run.written(Ok(()));
    assert_eq!(
        run.into_results(),
        (vec![success("s", "/home/user/s.txt")], vec![failure("c", "e", "")])
    );
}

#[test]
fn plan_of_each_outcome() {
    let single = entry("s", "@out/s.txt", "", false);
    let composed = entry("c", "", "", true);
    let table = aliases();
    assert_eq!(
        plan_entry(&single, Invocation::Text("S".to_string()), &table, "/b", "id".to_string(), false),
        Plan::Write {
            writes: pairs(&[("/var/out/s.txt", "S")]),
            report_path: "/var/out/s.txt".to_string()
        }
    );
    assert_eq!(
        plan_entry(&single, Invocation::Failed("e".to_string()), &table, "/b", "id".to_string(), false),
        Plan::Fail { error: "e".to_string(), path: "/var/out/s.txt".to_string() }
    );
    assert_eq!(
        plan_entry(
            &single,
            Invocation::Classified(FunctionReturnType::Object(vec![])),
            &table,
            "/b",
            "id".to_string(), false
        ),
        Plan::Ignore
    );
    assert_eq!(
        plan_entry(
            &composed,
            Invocation::Classified(FunctionReturnType::Object(pairs(&[("x/../y", "Y")]))),
            &table,
            "/b",
            "id".to_string(), false
        ),
        Plan::Write { writes: pairs(&[("/b/y", "Y")]), report_path: String::new() }
    );
    assert_eq!(
        plan_entry(
            &composed,
            Invocation::Classified(FunctionReturnType::String("T".to_string())),
            &table,
            "/b",
            "c_id".to_string(), false
        ),
        Plan::Write { writes: pairs(&[("c_id", "T")]), report_path: "c_id".to_string() }
    );
    assert_eq!(
        plan_entry(&composed, Invocation::Failed("e".to_string()), &table, "/b", "id".to_string(), false),
        Plan::Fail { error: "e".to_string(), path: String::new() }
    );
    assert_eq!(
        plan_entry(&composed, Invocation::Text("t".to_string()), &table, "/b", "id".to_string(), false),
        Plan::Ignore
    );
}

#[test]
fn pair_keys_are_resolved() {
    assert_eq!(
        resolve_pairs(&pairs(&[("@out/a", "1"), ("b", "2"), ("/c", "3")]), &aliases(), "/base", false),
        pairs(&[("/var/out/a", "1"), ("/base/b", "2"), ("/c", "3")])
    );
    assert_eq!(resolve_pairs(&vec![], &aliases(), "/base", false), vec![]);
}

#[test]
fn batch_goes_on_until_the_last_pair() {
    let batch = pairs(&[("a", "A"), ("b", "B"), ("c", "C")]);
    assert_eq!(write_fs_path_content_paris(&batch, 0, Ok(())), BatchStep::Next(1));
    assert_eq!(write_fs_path_content_paris(&batch, 1, Ok(())), BatchStep::Next(2));
    assert_eq!(write_fs_path_content_paris(&batch, 2, Ok(())), BatchStep::Finished(Ok(true)));
}

#[test]
fn batch_ends_at_the_first_failure() {
    let batch = pairs(&[("a", "A"), ("b", "B"), ("c", "C")]);
    assert_eq!(
        write_fs_path_content_paris(&batch, 0, Err("no".to_string())),
        BatchStep::Finished(Err("no".to_string()))
    );
    assert_eq!(
        write_fs_path_content_paris(&batch, 2, Err("late".to_string())),
        BatchStep::Finished(Err("late".to_string()))
    );
}

#[test]
fn write_pairs_records_success_or_failure() {
    let mut successes = vec![success("old", "o")];
    let mut failures = vec![];
    write_pairs(Ok(true), &mut successes, &mut failures, "f".to_string(), "p".to_string());
    assert_eq!(successes, vec![success("old", "o"), success("f", "p")]);
    assert_eq!(failures, vec![]);
    write_pairs(
        Err("why".to_string()),
        &mut successes,
        &mut failures,
        "g".to_string(),
        String::new(),
    );
    assert_eq!(successes, vec![success("old", "o"), success("f", "p")]);
    assert_eq!(failures, vec![failure("g", "why", "")]);
}

#[test]
fn synthesized_name_has_the_name_and_an_identifier() {
    assert_eq!(synthesized_name("render", "abc123"), "render_abc123");
    let name = make_uuid_for_path_not(&"render".to_string());
    let id = name.strip_prefix("render_").unwrap();
    assert_eq!(id.len(), 32);
    assert!(id.chars().all(|c| c.is_ascii_digit() || ('a'..='f').contains(&c)), "{id}");
}

#[test]
fn synthesized_names_differ() {
    let first = make_uuid_for_path_not(&"f".to_string());
    let second = make_uuid_for_path_not(&"f".to_string());
    assert_ne!(first, second);
}

#[test]
fn report_lists_successes_then_failures() {
    let lines = report(
        &vec![success("a", "/a"), success("b", "/b")],
        &vec![failure("c", "boom", "/c")],
    );
    assert_eq!(
        lines,
        vec![
            FunctionResult {
                name: "a".to_string(),
                result: ExecutionOutcome::Success("Done!".to_string()),
                path: "/a".to_string()
            },
            FunctionResult {
                name: "b".to_string(),
                result: ExecutionOutcome::Success("Done!".to_string()),
                path: "/b".to_string()
            },
            FunctionResult {
                name: "c".to_string(),
                result: ExecutionOutcome::Failure("boom".to_string()),
                path: "/c".to_string()
            },
        ]
    );
    assert_eq!(report(&vec![], &vec![]), vec![]);
}

#[test]
fn config_without_aliases_stays_without() {
    let config = load_config(Config { alias: None }, "/work/rc.config.json", false);
    assert!(config.alias.is_none());
}

#[test]
fn config_aliases_are_anchored_at_the_file() {
    let mut table = PathAliasTable::new();
    table.insert("@gen".to_string(), "../generated".to_string());
    let config = load_config(Config { alias: Some(table) }, "/work/rc.config.json", false);
    let table = config.alias.unwrap();
    assert_eq!(table.len(), 1);
    assert_eq!(table.key_at(0), "@gen");
    assert_eq!(table.value_at(0), "/work/generated");
}

const THREE: &str = r#"
    function first(content) { return "1:" + content; }
    first.path = "out/first.txt";
    function second(content) { throw new Error("second failed"); }
    second.path = "out/second.txt";
    function third(content) { return "3:" + content; }
    third.path = "@out/third.txt";
"#;

#[test]
fn a_throwing_entry_does_not_stop_the_others() {
    let mut context = Context::default();
    let config = Config { alias: Some(aliases()) };
    let run =
        execute_exported_functions(&mut context, THREE, "C", "/home/user/script.js", &config, false)
            .unwrap();
    let (files, successes, failures) = drive(run, &mut context, &[]);
    assert_eq!(
        successes,
        vec![success("first", "/home/user/out/first.txt"), success("third", "/var/out/third.txt")]
    );
    assert_eq!(failures.len(), 1);
    assert_eq!(failures[0].name, "second");
    assert_eq!(failures[0].path, "/home/user/out/second.txt");
    assert!(failures[0].error.contains("second failed"), "{}", failures[0].error);
    assert_eq!(
        files,
        pairs(&[("/home/user/out/first.txt", "1:C"), ("/var/out/third.txt", "3:C")])
    );
}

#[test]
fn a_refused_file_does_not_stop_the_others() {
    let mut context = Context::default();
    let config = Config { alias: Some(aliases()) };
    let script = "function a(c) { return c; } a.path = 'a.txt';
                  function b(c) { return c + c; } b.path = 'b.txt';";
    let run = execute_exported_functions(&mut context, script, "x", "/w/s.js", &config, false).unwrap();
    let (files, successes, failures) = drive(run, &mut context, &["/w/a.txt"]);
    assert_eq!(successes, vec![success("b", "/w/b.txt")]);
    assert_eq!(failures, vec![failure("a", "cannot write /w/a.txt", "/w/a.txt")]);
    assert_eq!(files, pairs(&[("/w/b.txt", "xx")]));
}

#[test]
fn composed_entries_of_a_script_are_written() {
    let mut context = Context::default();
    let script = r#"
        function bundle(content) { return [["@out/a.txt", content], { "b.txt": content + "!" }]; }
        bundle.compose = true;
        function scalar(content) { return 42; }
        scalar.compose = true;
        function broken(content) { return [content]; }
        broken.compose = true;
        function single(content) { return content; }
        single.path = "single.txt";
    "#;
    let config = Config { alias: Some(aliases()) };
    let run = execute_exported_functions(&mut context, script, "C", "/w/s.js", &config, false).unwrap();
    let (files, successes, failures) = drive(run, &mut context, &[]);
    assert_eq!(successes.len(), 3);
    assert_eq!(successes[0], success("single", "/w/single.txt"));
    assert_eq!(successes[1], success("bundle", ""));
    assert_eq!(successes[2].name, "scalar");
    let id = successes[2].path.strip_prefix("scalar_").unwrap();
    assert_eq!(id.len(), 32);
    assert!(id.chars().all(|c| c.is_ascii_digit() || ('a'..='f').contains(&c)), "{id}");
    assert_eq!(
        failures,
        vec![failure("broken", "Item 0 is neither an array nor an object", "")]
    );
    assert_eq!(files.len(), 4);
    assert_eq!(files[0], ("/w/single.txt".to_string(), "C".to_string()));
    assert_eq!(files[1], ("/var/out/a.txt".to_string(), "C".to_string()));
    assert_eq!(files[2], ("/w/b.txt".to_string(), "C!".to_string()));
    assert_eq!(files[3], (successes[2].path.clone(), "42".to_string()));
}

#[test]
fn every_entry_is_called_with_the_same_content() {
    let mut context = Context::default();
    let script = "function a(c) { return c; } a.path = 'a';
                  function b(c) { return [['b', c]]; } b.compose = true;";
    let config = Config { alias: None };
    let run = execute_exported_functions(&mut context, script, "same", "/w/s.js", &config, false).unwrap();
    let (files, _, _) = drive(run, &mut context, &[]);
    assert_eq!(files, pairs(&[("/w/a", "same"), ("/w/b", "same")]));
}

#[test]
fn script_without_entries_gives_an_empty_run() {
    let mut context = Context::default();
    let config = Config { alias: None };
    let run = execute_exported_functions(&mut context, "var x = 1;", "C", "/w/s.js", &config, false)
        .unwrap();
    assert!(run.is_finished());
    assert_eq!(run.into_results(), (vec![], vec![]));
}

#[test]
fn a_script_that_fails_is_fatal() {
    let mut context = Context::default();
    let config = Config { alias: None };
    let syntax = execute_exported_functions(&mut context, "function (", "C", "/w/s.js", &config, false);
    assert!(syntax.err().unwrap().starts_with("Failed to evaluate JavaScript: "));
    let thrown =
        execute_exported_functions(&mut context, "throw new Error('top');", "C", "/w/s.js", &config, false);
    let message = thrown.err().unwrap();
    assert!(message.starts_with("Failed to evaluate JavaScript: "), "{message}");
    assert!(message.contains("top"), "{message}");
}

#[test]
fn call_next_answers_only_a_call() {
    let mut context = Context::default();
    context.eval(Source::from_bytes("function s(c) { return c; }")).unwrap();
    let run = run_over(vec![entry("s", "s.txt", "", false)], vec![]);
    let run = run.call_next(&mut context);
    assert_eq!(run.next_action(), write_action("/home/user/s.txt", "CONTENT"));
    let run = run.call_next(&mut context);
    assert_eq!(run.next_action(), write_action("/home/user/s.txt", "CONTENT"));
    let run = run.written(Ok(()));
    let run = run.call_next(&mut context);
    assert!(run.is_finished());
}
