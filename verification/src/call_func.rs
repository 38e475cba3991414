//! Calling a function of the script by its name.

use crate::engine::{
    call_value, get_by_key, global_object, named_key, text_value, value_shape,
};
use crate::js_convert_judge::{js_value_to_string, primitive_text_of};
use crate::text::followed_by;
use boa_engine::{Context, JsValue};
use vstd::prelude::*;
use vstd::string::*;

verus! {

/// What is said of a name that holds nothing to call.
pub open spec fn not_callable_text(func_name: Seq<char>) -> Seq<char> {
    func_name + " is not callable"@
}

/// The error for a name that holds nothing to call.
pub fn not_callable_message(func_name: &str) -> (message: String)
    ensures
        message@ == not_callable_text(func_name@),
{
    followed_by(func_name, " is not callable")
}

/// What is said of a name that the engine could not look up.
pub open spec fn lookup_failed_text(message: Seq<char>) -> Seq<char> {
    "Failed to get function: "@ + message
}

/// What was found under `func_name`, given what the engine answered: the
/// value, or why there is none.
pub fn lookup_outcome(func_name: &str, found: Option<Result<JsValue, String>>) -> (function:
    Result<JsValue, String>)
    ensures
        match found {
            Some(Ok(value)) => function == Ok::<JsValue, String>(value),
            Some(Err(message)) => function matches Err(text) && text@ == lookup_failed_text(
                message@,
            ),
            None => function matches Err(text) && text@ == not_callable_text(func_name@),
        },
{
    match found {
        Some(Ok(value)) => Ok(value),
        Some(Err(message)) => Err(followed_by("Failed to get function: ", message.as_str())),
        None => Err(not_callable_message(func_name)),
    }
}

/// How the call of `func_name` ended, given what the engine answered: what
/// was returned, the message of what was thrown, or that the name holds
/// nothing to call.
pub fn call_outcome(func_name: &str, called: Option<Result<JsValue, String>>) -> (returned:
    Result<JsValue, String>)
    ensures
        match called {
            Some(Ok(value)) => returned == Ok::<JsValue, String>(value),
            Some(Err(message)) => returned matches Err(text) && text@ == message@,
            None => returned matches Err(text) && text@ == not_callable_text(func_name@),
        },
{
    match called {
        Some(Ok(value)) => Ok(value),
        Some(Err(message)) => Err(message),
        None => Err(not_callable_message(func_name)),
    }
}

/// Calls the function that the script binds to `func_name`, with `content`
/// as its one argument and without a receiver, and hands back what it
/// returned. Fails where the name holds nothing to call, and with the
/// engine's message where the function throws.
pub fn invoke(context: &mut Context, func_name: &str, content: &str) -> (returned: Result<
    JsValue,
    String,
>) {
    let global = global_object(context);
    let found = get_by_key(context, &global, &named_key(func_name));
    match lookup_outcome(func_name, found) {
        Ok(function) => {
            let called = call_value(context, &function, &text_value(content));
            call_outcome(func_name, called)
        },
        Err(message) => Err(message),
    }
}

/// Calls the function `func_name` of the script with `content` and gives
/// what it returned as text, converted as the script itself would: the
/// text of some value, which is its `primitive_text_of` where that value is
/// `null`, `undefined`, a boolean, a number or a string.
pub fn call_function(context: &mut Context, func_name: &str, content: &str) -> (text: Result<
    String,
    String,
>)
    ensures
        text matches Ok(written) ==> exists|value: JsValue|
            (primitive_text_of(#[trigger] value_shape(value)) matches Some(primitive)
                ==> written@ == primitive),
{
    match invoke(context, func_name, content) {
        Ok(value) => Ok(js_value_to_string(&value)),
        Err(message) => Err(message),
    }
}

} // verus!
