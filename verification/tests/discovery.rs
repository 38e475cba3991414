use boa_engine::{Context, Source};
use js_evaluator::data_struct::FunctionForExecute;
use js_evaluator::find_exported_functions::{
    filter_functions_inside, find_composed_functions, find_exported_functions, inspect_globals,
    is_entry, is_read, select_entries, EntryKind, GlobalBinding,
};

fn binding(name: &str, callable: bool, path: &str, lang: &str, compose: bool) -> GlobalBinding {
    GlobalBinding {
        name: name.to_string(),
        callable,
        path: path.to_string(),
        lang: lang.to_string(),
        compose,
    }
}

fn entry(name: &str, path: &str, lang: &str, composed: bool) -> FunctionForExecute {
    FunctionForExecute {
        function_name: name.to_string(),
        path: path.to_string(),
        lang: lang.to_string(),
        composed,
    }
}

fn context_with(code: &str) -> Context {
    let mut context = Context::default();
    context.eval(Source::from_bytes(code)).unwrap();
    context
}

const SCRIPT: &str = r#"
    function page(content) { return "<p>" + content + "</p>"; }
    page.path = "out/page.html";
    page.lang = "html";

    function bundle(content) { return [["a.txt", content]]; }
    bundle.compose = true;

    function both(content) { return {}; }
    both.path = "out/both.txt";
    both.compose = 1;

    function helper() {}
    function noPath() {}
    noPath.path = "";
    function numericPath() {}
    numericPath.path = 12;
    function onlyLang() {}
    onlyLang.lang = "txt";

    var data = { path: "data.txt", compose: true };
    var text = "text";

    parseInt.path = "stolen.txt";
    Math.compose = true;
    JSON.path = "json.txt";
"#;

#[test]
fn tagged_callable_gives_one_single_output_entry() {
    let bindings = vec![
        binding("helper", true, "", "", false),
        binding("page", true, "out/page.html", "html", false),
        binding("other", true, "o.txt", "", false),
    ];
    let entries = select_entries(&bindings, EntryKind::SingleOutput);
    assert_eq!(
        entries,
        vec![entry("page", "out/page.html", "html", false), entry("other", "o.txt", "", false)]
    );
    assert_eq!(entries.iter().filter(|e| e.function_name == "page").count(), 1);
}

#[test]
fn entries_keep_the_order_of_the_bindings() {
    let bindings = vec![
        binding("c", true, "c.txt", "", false),
        binding("a", true, "a.txt", "", false),
        binding("b", true, "b.txt", "", false),
    ];
    let names: Vec<String> = select_entries(&bindings, EntryKind::SingleOutput)
        .into_iter()
        .map(|e| e.function_name)
        .collect();
    assert_eq!(names, vec!["c", "a", "b"]);
}

#[test]
fn builtin_names_are_never_entries() {
    let bindings = vec![
        binding("parseInt", true, "stolen.txt", "txt", false),
        binding("Math", true, "", "", true),
        binding("Object", true, "o.txt", "", true),
        binding("mine", true, "mine.txt", "", false),
    ];
    assert_eq!(
        select_entries(&bindings, EntryKind::SingleOutput),
        vec![entry("mine", "mine.txt", "", false)]
    );
    assert_eq!(select_entries(&bindings, EntryKind::Composed), vec![]);
    assert!(!is_entry(&bindings[0], EntryKind::SingleOutput));
    assert!(!is_entry(&bindings[1], EntryKind::Composed));
}

#[test]
fn compose_routes_to_the_composed_entries() {
    let bindings = vec![
        binding("single", true, "s.txt", "", false),
        binding("both", true, "b.txt", "txt", true),
        binding("marker", true, "", "", true),
    ];
    assert_eq!(
        select_entries(&bindings, EntryKind::SingleOutput),
        vec![entry("single", "s.txt", "", false)]
    );
    assert_eq!(
        select_entries(&bindings, EntryKind::Composed),
        vec![entry("both", "b.txt", "txt", true), entry("marker", "", "", true)]
    );
}

#[test]
fn what_cannot_be_called_is_no_entry() {
    let bindings = vec![binding("data", false, "data.txt", "", true)];
    assert_eq!(select_entries(&bindings, EntryKind::SingleOutput), vec![]);
    assert_eq!(select_entries(&bindings, EntryKind::Composed), vec![]);
}

#[test]
fn callable_without_tag_is_ignored() {
    let bindings = vec![
        binding("helper", true, "", "", false),
        binding("onlyLang", true, "", "txt", false),
    ];
    assert_eq!(select_entries(&bindings, EntryKind::SingleOutput), vec![]);
    assert_eq!(select_entries(&bindings, EntryKind::Composed), vec![]);
}

#[test]
fn no_bindings_give_no_entries() {
    assert_eq!(select_entries(&vec![], EntryKind::SingleOutput), vec![]);
    assert_eq!(select_entries(&vec![], EntryKind::Composed), vec![]);
}

#[test]
fn script_single_output_entries() {
    let mut context = context_with(SCRIPT);
    assert_eq!(
        find_exported_functions(&mut context),
        Ok(vec![entry("page", "out/page.html", "html", false)])
    );
}

#[test]
fn script_composed_entries() {
    let mut context = context_with(SCRIPT);
    assert_eq!(
        find_composed_functions(&mut context),
        Ok(vec![entry("bundle", "", "", true), entry("both", "out/both.txt", "", true)])
    );
}

#[test]
fn script_entries_by_kind() {
    let mut context = context_with(SCRIPT);
    assert_eq!(
        filter_functions_inside(&mut context, EntryKind::SingleOutput),
        find_exported_functions(&mut context)
    );
    assert_eq!(
        filter_functions_inside(&mut context, EntryKind::Composed),
        find_composed_functions(&mut context)
    );
}

#[test]
fn script_builtins_are_passed_over() {
    let mut context = context_with(SCRIPT);
    let bindings = inspect_globals(&mut context).unwrap();
    for name in ["parseInt", "Math", "JSON", "Object", "globalThis"] {
        assert!(bindings.iter().all(|b| b.name != name), "{name}");
    }
}

#[test]
fn script_bindings_are_read_with_their_tags() {
    let mut context = context_with(SCRIPT);
    let bindings = inspect_globals(&mut context).unwrap();
    let find = |name: &str| bindings.iter().find(|b| b.name == name).cloned();
    assert_eq!(find("page"), Some(binding("page", true, "out/page.html", "html", false)));
    assert_eq!(find("both"), Some(binding("both", true, "out/both.txt", "", true)));
    assert_eq!(find("numericPath"), Some(binding("numericPath", true, "", "", false)));
    assert_eq!(find("data"), Some(binding("data", false, "", "", false)));
    assert_eq!(find("text"), Some(binding("text", false, "", "", false)));
}

#[test]
fn empty_script_has_no_entries() {
    let mut context = context_with("");
    assert_eq!(find_exported_functions(&mut context), Ok(vec![]));
    assert_eq!(find_composed_functions(&mut context), Ok(vec![]));
}

#[test]
fn a_throwing_tag_fails_discovery() {
    let mut context = context_with(
        "function f() {} Object.defineProperty(f, 'path', { get() { throw new Error('no'); } });",
    );
    let error = find_exported_functions(&mut context).unwrap_err();
    assert!(error.starts_with("Failed to get property: "), "{error}");
}

#[test]
fn a_throwing_global_fails_discovery() {
    let mut context = context_with(
        "Object.defineProperty(globalThis, 'trap', { get() { throw new Error('no'); }, \
         enumerable: true, configurable: true });",
    );
    let error = inspect_globals(&mut context).unwrap_err();
    assert!(error.starts_with("Failed to get value: "), "{error}");
    assert!(find_composed_functions(&mut context).is_err());
}

#[test]
fn symbol_keys_of_the_global_scope_are_passed_over() {
    let mut context = context_with(
        "globalThis[Symbol('hidden')] = function () {}; function seen() {} seen.path = 'p';",
    );
    assert_eq!(find_exported_functions(&mut context), Ok(vec![entry("seen", "p", "", false)]));
}

#[test]
fn index_keys_of_the_global_scope_are_named_in_decimal() {
    let mut context =
        context_with("globalThis[7] = function () {}; globalThis[7].path = 'seven.txt';");
    assert_eq!(
        find_exported_functions(&mut context),
        Ok(vec![entry("7", "seven.txt", "", false)])
    );
}

#[test]
fn a_fresh_environment_binds_only_builtin_names() {
    let mut context = Context::default();
    let bindings = inspect_globals(&mut context).unwrap();
    let names: Vec<&str> = bindings.iter().map(|b| b.name.as_str()).collect();
    assert_eq!(names, Vec::<&str>::new());
}

#[test]
fn no_name_is_read_twice() {
    let mut context = context_with(SCRIPT);
    let bindings = inspect_globals(&mut context).unwrap();
    for (at, binding) in bindings.iter().enumerate() {
        assert!(is_read(&bindings, &binding.name));
        assert!(bindings[..at].iter().all(|earlier| earlier.name != binding.name));
    }
    assert!(!is_read(&bindings, "parseInt"));
    assert!(!is_read(&bindings, "neverBound"));
    assert!(!is_read(&vec![], "page"));
}

#[test]
fn no_two_entries_bear_the_same_name() {
    let mut context = context_with(
        "function twice() {} twice.path = 'a'; function twice() {} twice.path = 'b';
         var other = function () {}; other.path = 'c';",
    );
    let entries = find_exported_functions(&mut context).unwrap();
    assert_eq!(entries, vec![entry("twice", "b", "", false), entry("other", "c", "", false)]);
}
