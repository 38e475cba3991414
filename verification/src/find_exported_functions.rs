//! Discovery: which functions of a script are offered for execution.
//!
//! A function is offered when it carries a tag: a non-empty `path`, which
//! names the file for its output, or `compose`, which says that it names
//! its files itself. Names of the scripting environment are never taken.

use crate::built_in_filter::{is_builtin, is_builtin_name};
use crate::data_struct::{EntryView, FunctionForExecute};
use crate::engine::{get_by_key, global_object, is_callable, key_name, own_keys, value_shape};
use crate::get_property::{get_property, has_property, property_failed_text};
use crate::text::{followed_by, same_text};
use boa_engine::Context;
use vstd::prelude::*;
use vstd::string::*;

verus! {

/// What discovery reads of one binding of the script's global scope.
#[derive(Debug, Clone, PartialEq, Eq)]
pub struct GlobalBinding {
    /// The name of the binding.
    pub name: String,
    /// Whether it holds something that can be called.
    pub callable: bool,
    /// The text of its `path` tag; empty where it has none.
    pub path: String,
    /// The text of its `lang` tag; empty where it has none.
    pub lang: String,
    /// Whether it has a `compose` tag.
    pub compose: bool,
}

/// A `GlobalBinding` as contracts see it.
pub struct BindingView {
    pub name: Seq<char>,
    pub callable: bool,
    pub path: Seq<char>,
    pub lang: Seq<char>,
    pub compose: bool,
}

impl View for GlobalBinding {
    type V = BindingView;

    open spec fn view(&self) -> BindingView {
        BindingView {
            name: self.name@,
            callable: self.callable,
            path: self.path@,
            lang: self.lang@,
            compose: self.compose,
        }
    }
}

impl DeepView for GlobalBinding {
    type V = BindingView;

    open spec fn deep_view(&self) -> BindingView {
        self@
    }
}

/// The two kinds of entries.
#[derive(Debug, Clone, Copy, PartialEq, Eq)]
pub enum EntryKind {
    /// A function whose one output goes to the path it declares.
    SingleOutput,
    /// A function that returns the paths of its outputs with them.
    Composed,
}

/// The binding is an entry of this kind: it is no name of the environment,
/// it can be called, and it has `compose`, for a composed entry, or a
/// non-empty `path` and no `compose`, for a single-output entry.
pub open spec fn qualifies(binding: BindingView, kind: EntryKind) -> bool {
    &&& !is_builtin_name(binding.name)
    &&& binding.callable
    &&& match kind {
        EntryKind::Composed => binding.compose,
        EntryKind::SingleOutput => !binding.compose && binding.path.len() > 0,
    }
}

/// The entry that a binding gives.
pub open spec fn entry_of(binding: BindingView) -> EntryView {
    EntryView {
        function_name: binding.name,
        path: binding.path,
        lang: binding.lang,
        composed: binding.compose,
    }
}

/// The entries of one kind among `bindings`, in the order of the bindings.
pub open spec fn selected(bindings: Seq<BindingView>, kind: EntryKind) -> Seq<EntryView>
    decreases bindings.len(),
{
    if bindings.len() == 0 {
        Seq::<EntryView>::empty()
    } else {
        let before = selected(bindings.drop_last(), kind);
        if qualifies(bindings.last(), kind) {
            before.push(entry_of(bindings.last()))
        } else {
            before
        }
    }
}

/// The number of entries that the bindings before `i` give: the place of
/// the entry of binding `i`, if it gives one.
pub open spec fn place_of(bindings: Seq<BindingView>, kind: EntryKind, i: int) -> int {
    selected(bindings.take(i), kind).len() as int
}

/// No name occurs twice among the bindings.
pub open spec fn distinct_names(bindings: Seq<BindingView>) -> bool {
    forall|i: int, j: int|
        0 <= i < bindings.len() && 0 <= j < bindings.len() && i != j ==> (
        #[trigger] bindings[i]).name != (#[trigger] bindings[j]).name
}

/// Whether `binding` is an entry of this kind.
pub fn is_entry(binding: &GlobalBinding, kind: EntryKind) -> (yes: bool)
    ensures
        yes == qualifies(binding@, kind),
{
    if !binding.callable || is_builtin(binding.name.as_str()) {
        return false;
    }
    match kind {
        EntryKind::Composed => binding.compose,
        EntryKind::SingleOutput => !binding.compose && binding.path.as_str().unicode_len() > 0,
    }
}

/// The entries of one kind among `bindings`, in the order of the bindings.
pub fn select_entries(bindings: &Vec<GlobalBinding>, kind: EntryKind) -> (entries: Vec<
    FunctionForExecute,
>)
    ensures
        entries.deep_view() == selected(bindings.deep_view(), kind),
{
    let mut entries: Vec<FunctionForExecute> = Vec::new();
    let ghost all = bindings.deep_view();
    let mut i: usize = 0;
    assert(all.take(0) =~= Seq::<BindingView>::empty());
    assert(entries.deep_view() =~= Seq::<EntryView>::empty());
    while i < bindings.len()
        invariant
            i <= bindings.len(),
            all == bindings.deep_view(),
            entries.deep_view() == selected(all.take(i as int), kind),
        decreases bindings.len() - i,
    {
        let binding = &bindings[i];
        let ghost so_far = entries.deep_view();
        proof {
            assert(all.take(i + 1).drop_last() =~= all.take(i as int));
            assert(all.take(i + 1).last() == binding@);
        }
        if is_entry(binding, kind) {
            entries.push(
                FunctionForExecute {
                    function_name: binding.name.clone(),
                    path: binding.path.clone(),
                    lang: binding.lang.clone(),
                    composed: binding.compose,
                },
            );
            assert(entries.deep_view() =~= so_far.push(entry_of(binding@)));
        }
        i = i + 1;
    }
    assert(all.take(bindings.len() as int) =~= all);
    entries
}

/// The entries of the first bindings come first among the entries of all.
pub proof fn lemma_selected_grows(bindings: Seq<BindingView>, kind: EntryKind, i: int)
    requires
        0 <= i <= bindings.len(),
    ensures
        place_of(bindings, kind, i) <= selected(bindings, kind).len(),
        selected(bindings, kind).take(place_of(bindings, kind, i)) == selected(
            bindings.take(i),
            kind,
        ),
    decreases bindings.len(),
{
    if i == bindings.len() {
        assert(bindings.take(i) =~= bindings);
        assert(selected(bindings, kind).take(selected(bindings, kind).len() as int) =~= selected(
            bindings,
            kind,
        ));
    } else {
        let front = bindings.drop_last();
        lemma_selected_grows(front, kind, i);
        assert(front.take(i) =~= bindings.take(i));
        let shorter = selected(front, kind);
        assert(selected(bindings, kind).take(place_of(bindings, kind, i)) =~= shorter.take(
            place_of(bindings, kind, i),
        ));
    }
}

/// A binding that is an entry stands at its place among the entries.
pub proof fn lemma_entry_stands_at_its_place(bindings: Seq<BindingView>, kind: EntryKind, i: int)
    requires
        0 <= i < bindings.len(),
        qualifies(bindings[i], kind),
    ensures
        place_of(bindings, kind, i) < selected(bindings, kind).len(),
        selected(bindings, kind)[place_of(bindings, kind, i)] == entry_of(bindings[i]),
{
    lemma_selected_grows(bindings, kind, i + 1);
    assert(bindings.take(i + 1).drop_last() =~= bindings.take(i));
    assert(bindings.take(i + 1).last() == bindings[i]);
    let upto = selected(bindings.take(i + 1), kind);
    assert(upto == selected(bindings.take(i), kind).push(entry_of(bindings[i])));
    assert(upto[place_of(bindings, kind, i)] == entry_of(bindings[i]));
    assert(selected(bindings, kind).take(place_of(bindings, kind, i + 1))[place_of(
        bindings,
        kind,
        i,
    )] == selected(bindings, kind)[place_of(bindings, kind, i)]);
}

/// Every entry comes from a binding that is an entry, and stands at that
/// binding's place.
pub proof fn lemma_entry_has_a_source(bindings: Seq<BindingView>, kind: EntryKind, j: int) -> (i:
    int)
    requires
        0 <= j < selected(bindings, kind).len(),
    ensures
        0 <= i < bindings.len(),
        qualifies(bindings[i], kind),
        place_of(bindings, kind, i) == j,
        selected(bindings, kind)[j] == entry_of(bindings[i]),
    decreases bindings.len(),
{
    let front = bindings.drop_last();
    let last = bindings.len() - 1;
    assert(bindings.take(last) =~= front);
    if qualifies(bindings.last(), kind) && j == selected(front, kind).len() {
        last
    } else {
        let i = lemma_entry_has_a_source(front, kind, j);
        assert(front.take(i) =~= bindings.take(i));
        i
    }
}

/// A callable with a non-empty `path` and no `compose`, under a name that is
/// not the environment's, gives exactly one single-output entry, and that
/// entry declares the path of the callable.
pub proof fn lemma_one_entry_per_tagged_callable(bindings: Seq<BindingView>, i: int)
    requires
        distinct_names(bindings),
        0 <= i < bindings.len(),
        !is_builtin_name(bindings[i].name),
        bindings[i].callable,
        bindings[i].path.len() > 0,
        !bindings[i].compose,
    ensures
        ({
            let entries = selected(bindings, EntryKind::SingleOutput);
            let place = place_of(bindings, EntryKind::SingleOutput, i);
            &&& 0 <= place < entries.len()
            &&& entries[place].function_name == bindings[i].name
            &&& entries[place].path == bindings[i].path
            &&& forall|j: int|
                0 <= j < entries.len() && (#[trigger] entries[j]).function_name
                    == bindings[i].name ==> j == place
        }),
{
    let kind = EntryKind::SingleOutput;
    let entries = selected(bindings, kind);
    lemma_entry_stands_at_its_place(bindings, kind, i);
    assert forall|j: int|
        0 <= j < entries.len() && (#[trigger] entries[j]).function_name
            == bindings[i].name implies j == place_of(bindings, kind, i) by {
        let source = lemma_entry_has_a_source(bindings, kind, j);
        assert(bindings[source].name == bindings[i].name);
    }
}

/// No entry bears a name of the scripting environment, whatever the binding
/// under that name holds.
pub proof fn lemma_builtins_are_never_entries(bindings: Seq<BindingView>, kind: EntryKind)
    ensures
        forall|j: int|
            0 <= j < selected(bindings, kind).len() ==> !is_builtin_name(
                (#[trigger] selected(bindings, kind)[j]).function_name,
            ),
{
    assert forall|j: int| 0 <= j < selected(bindings, kind).len() implies !is_builtin_name(
        (#[trigger] selected(bindings, kind)[j]).function_name,
    ) by {
        let source = lemma_entry_has_a_source(bindings, kind, j);
    }
}

/// Every entry of a kind carries the tag of its kind.
pub proof fn lemma_entries_carry_their_tag(bindings: Seq<BindingView>, kind: EntryKind)
    ensures
        forall|j: int|
            0 <= j < selected(bindings, kind).len() ==> {
                let entry = #[trigger] selected(bindings, kind)[j];
                match kind {
                    EntryKind::Composed => entry.composed,
                    EntryKind::SingleOutput => !entry.composed && entry.path.len() > 0,
                }
            },
{
    assert forall|j: int| 0 <= j < selected(bindings, kind).len() implies {
        let entry = #[trigger] selected(bindings, kind)[j];
        match kind {
            EntryKind::Composed => entry.composed,
            EntryKind::SingleOutput => !entry.composed && entry.path.len() > 0,
        }
    } by {
        let source = lemma_entry_has_a_source(bindings, kind, j);
    }
}

/// Reads the bindings of the script's global scope, in the engine's order.
/// Symbols and the names of the environment are passed over; only of what
/// can be called are the tags read. Every name is read once: the engine
/// lists a key once, and a name that came again would be passed over. Fails
/// where the engine cannot list the bindings or read one of them or of its
/// tags.
pub fn inspect_globals(context: &mut Context) -> (found: Result<Vec<GlobalBinding>, String>)
    ensures
        found matches Err(message) ==> is_discovery_failure(message@),
        found matches Ok(bindings) ==> distinct_names(bindings.deep_view()),
        found matches Ok(bindings) ==> forall|i: int|
            0 <= i < bindings.len() ==> {
                let binding = (#[trigger] bindings[i])@;
                &&& !is_builtin_name(binding.name)
                &&& !binding.callable ==> binding.path.len() == 0 && binding.lang.len() == 0
                    && !binding.compose
            },
{
    let global = global_object(context);
    let keys = match own_keys(context, &global) {
        Some(Ok(keys)) => keys,
        Some(Err(message)) => {
            let text = followed_by("Failed to get property keys: ", message.as_str());
            assert(text@ == keys_failed_text(message@));
            return Err(text);
        },
        None => unreached(),
    };
    let mut bindings: Vec<GlobalBinding> = Vec::new();
    let mut i: usize = 0;
    while i < keys.len()
        invariant
            i <= keys.len(),
            value_shape(global) is Object,
            distinct_names(bindings.deep_view()),
            forall|k: int|
                0 <= k < bindings.len() ==> {
                    let binding = (#[trigger] bindings[k])@;
                    &&& !is_builtin_name(binding.name)
                    &&& !binding.callable ==> binding.path.len() == 0 && binding.lang.len() == 0
                        && !binding.compose
                },
        decreases keys.len() - i,
    {
        let key = &keys[i];
        i = i + 1;
        let name = match key_name(key) {
            Some(name) => name,
            None => {
                continue ;
            },
        };
        if is_builtin(name.as_str()) || is_read(&bindings, name.as_str()) {
            continue ;
        }
        let value = match get_by_key(context, &global, key) {
            Some(Ok(value)) => value,
            Some(Err(message)) => {
                let text = followed_by("Failed to get value: ", message.as_str());
                assert(text@ == value_failed_text(message@));
                return Err(text);
            },
            None => unreached(),
        };
        let binding = if is_callable(&value) {
            let path = match get_property(&value, "path", context) {
                Ok(path) => path,
                Err(message) => {
                    return Err(message);
                },
            };
            let lang = match get_property(&value, "lang", context) {
                Ok(lang) => lang,
                Err(message) => {
                    return Err(message);
                },
            };
            let compose = match has_property(&value, "compose", context) {
                Ok(compose) => compose,
                Err(message) => {
                    return Err(message);
                },
            };
            GlobalBinding { name, callable: true, path, lang, compose }
        } else {
            GlobalBinding {
                name,
                callable: false,
                path: String::new(),
                lang: String::new(),
                compose: false,
            }
        };
        let ghost before = bindings.deep_view();
        bindings.push(binding);
        proof {
            let after = bindings.deep_view();
            assert(after =~= before.push(binding@));
            assert forall|a: int, b: int|
                0 <= a < after.len() && 0 <= b < after.len() && a != b implies (
            #[trigger] after[a]).name != (#[trigger] after[b]).name by {
                if a < before.len() && b < before.len() {
                    assert(before[a].name != before[b].name);
                } else if a < before.len() {
                    assert(before[a].name != binding@.name);
                } else {
                    assert(before[b].name != binding@.name);
                }
            }
        }
    }
    Ok(bindings)
}

/// The entries of one kind that the script offers, in the engine's order:
/// those that `selected` takes from the bindings as they were read.
pub fn filter_functions_inside(context: &mut Context, kind: EntryKind) -> (found: Result<
    Vec<FunctionForExecute>,
    String,
>)
    ensures
        found matches Err(message) ==> is_discovery_failure(message@),
        found matches Ok(entries) ==> exists|bindings: Seq<BindingView>|
            distinct_names(bindings) && entries.deep_view() == #[trigger] selected(bindings, kind),
        found matches Ok(entries) ==> forall|j: int, k: int|
            0 <= j < k < entries.len() ==> (#[trigger] entries[j])@.function_name != (
            #[trigger] entries[k])@.function_name,
        found matches Ok(entries) ==> forall|j: int|
            0 <= j < entries.len() ==> {
                let entry = (#[trigger] entries[j])@;
                &&& !is_builtin_name(entry.function_name)
                &&& match kind {
                    EntryKind::Composed => entry.composed,
                    EntryKind::SingleOutput => !entry.composed && entry.path.len() > 0,
                }
            },
{
    match inspect_globals(context) {
        Ok(bindings) => {
            let entries = select_entries(&bindings, kind);
            proof {
                assert(entries.deep_view() == selected(bindings.deep_view(), kind));
                lemma_entries_bear_distinct_names(bindings.deep_view(), kind);
                assert forall|j: int, k: int| 0 <= j < k < entries.len() implies (
                #[trigger] entries[j])@.function_name != (#[trigger] entries[k])@.function_name by {
                    assert(entries[j]@ == entries.deep_view()[j]);
                    assert(entries[k]@ == entries.deep_view()[k]);
                }
                lemma_builtins_are_never_entries(bindings.deep_view(), kind);
                lemma_entries_carry_their_tag(bindings.deep_view(), kind);
                assert forall|j: int| 0 <= j < entries.len() implies {
                    let entry = (#[trigger] entries[j])@;
                    &&& !is_builtin_name(entry.function_name)
                    &&& match kind {
                        EntryKind::Composed => entry.composed,
                        EntryKind::SingleOutput => !entry.composed && entry.path.len() > 0,
                    }
                } by {
                    assert(entries[j]@ == entries.deep_view()[j]);
                }
            }
            Ok(entries)
        },
        Err(message) => Err(message),
    }
}

/// The single-output entries of the script: the functions with a non-empty
/// `path` and without `compose`.
pub fn find_exported_functions(context: &mut Context) -> (found: Result<
    Vec<FunctionForExecute>,
    String,
>)
    ensures
        found matches Err(message) ==> is_discovery_failure(message@),
        found matches Ok(entries) ==> exists|bindings: Seq<BindingView>|
            distinct_names(bindings) && entries.deep_view() == #[trigger] selected(
                bindings,
                EntryKind::SingleOutput,
            ),
        found matches Ok(entries) ==> forall|j: int, k: int|
            0 <= j < k < entries.len() ==> (#[trigger] entries[j])@.function_name != (
            #[trigger] entries[k])@.function_name,
        found matches Ok(entries) ==> forall|j: int|
            0 <= j < entries.len() ==> {
                let entry = (#[trigger] entries[j])@;
                &&& !is_builtin_name(entry.function_name)
                &&& !entry.composed
                &&& entry.path.len() > 0
            },
{
    filter_functions_inside(context, EntryKind::SingleOutput)
}

/// The composed entries of the script: the functions with `compose`.
pub fn find_composed_functions(context: &mut Context) -> (found: Result<
    Vec<FunctionForExecute>,
    String,
>)
    ensures
        found matches Err(message) ==> is_discovery_failure(message@),
        found matches Ok(entries) ==> exists|bindings: Seq<BindingView>|
            distinct_names(bindings) && entries.deep_view() == #[trigger] selected(
                bindings,
                EntryKind::Composed,
            ),
        found matches Ok(entries) ==> forall|j: int, k: int|
            0 <= j < k < entries.len() ==> (#[trigger] entries[j])@.function_name != (
            #[trigger] entries[k])@.function_name,
        found matches Ok(entries) ==> forall|j: int|
            0 <= j < entries.len() ==> {
                let entry = (#[trigger] entries[j])@;
                &&& !is_builtin_name(entry.function_name)
                &&& entry.composed
            },
{
    filter_functions_inside(context, EntryKind::Composed)
}

/// What is said where the engine cannot list the bindings.
pub open spec fn keys_failed_text(reason: Seq<char>) -> Seq<char> {
    "Failed to get property keys: "@ + reason
}

/// What is said where the engine cannot read a binding.
pub open spec fn value_failed_text(reason: Seq<char>) -> Seq<char> {
    "Failed to get value: "@ + reason
}

/// The messages with which discovery fails: the bindings could not be
/// listed, a binding could not be read, or a tag could not be read; each
/// with the engine's reason.
pub open spec fn is_discovery_failure(message: Seq<char>) -> bool {
    ||| exists|reason: Seq<char>| message == #[trigger] keys_failed_text(reason)
    ||| exists|reason: Seq<char>| message == #[trigger] value_failed_text(reason)
    ||| exists|reason: Seq<char>| message == #[trigger] property_failed_text(reason)
}

/// One of `bindings` bears `name`.
pub open spec fn is_read_name(bindings: Seq<BindingView>, name: Seq<char>) -> bool {
    exists|i: int| 0 <= i < bindings.len() && (#[trigger] bindings[i]).name == name
}

/// Whether one of `bindings` bears `name`.
pub fn is_read(bindings: &Vec<GlobalBinding>, name: &str) -> (yes: bool)
    ensures
        yes == is_read_name(bindings.deep_view(), name@),
{
    let mut i: usize = 0;
    while i < bindings.len()
        invariant
            i <= bindings.len(),
            forall|k: int| 0 <= k < i ==> (#[trigger] bindings.deep_view()[k]).name != name@,
        decreases bindings.len() - i,
    {
        if same_text(bindings[i].name.as_str(), name) {
            assert(bindings.deep_view()[i as int].name == name@);
            return true;
        }
        i = i + 1;
    }
    false
}

/// Where no two bindings bear the same name, no two entries do.
pub proof fn lemma_entries_bear_distinct_names(bindings: Seq<BindingView>, kind: EntryKind)
    requires
        distinct_names(bindings),
    ensures
        forall|j: int, k: int|
            0 <= j < k < selected(bindings, kind).len() ==> (#[trigger] selected(
                bindings,
                kind,
            )[j]).function_name != (#[trigger] selected(bindings, kind)[k]).function_name,
{
    let entries = selected(bindings, kind);
    assert forall|j: int, k: int| 0 <= j < k < entries.len() implies (
    #[trigger] entries[j]).function_name != (#[trigger] entries[k]).function_name by {
        let first = lemma_entry_has_a_source(bindings, kind, j);
        let second = lemma_entry_has_a_source(bindings, kind, k);
        assert(first != second);
    }
}

} // verus!
