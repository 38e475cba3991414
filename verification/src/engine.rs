//! The scripting engine, as far as this library calls it. Nothing in this
//! file is proved: each item states what the engine is trusted to do.
//!
//! What a call gives depends on the state of the script's environment, which
//! contracts cannot see, so of most results nothing is claimed: the
//! functions that use these calls are proved for whatever comes back. What
//! is claimed rests on one thing that never changes: the variant of a value,
//! and what a primitive value holds. The engine's object operations panic
//! while the object is mutably borrowed; this library holds no borrow of an
//! object between two calls.

use crate::js_convert_judge::{ShapeView, ValueShape};
use boa_engine::property::PropertyKey;
use boa_engine::{Context, JsString, JsValue, Source};
use vstd::prelude::*;

verus! {

/// `boa_engine::Context`: the environment in which one script runs. Nothing
/// is known of what it holds.
#[verifier::external_type_specification]
#[verifier::external_body]
pub struct ExContext(Context);

/// `boa_engine::JsValue`: a value of the script. Nothing is known of what it
/// holds.
#[verifier::external_type_specification]
#[verifier::external_body]
pub struct ExJsValue(JsValue);

/// `boa_engine::property::PropertyKey`: the key of a property. Nothing is
/// known of what it holds.
#[verifier::external_type_specification]
#[verifier::external_body]
pub struct ExPropertyKey(PropertyKey);

/// `Context::eval` on `Source::from_bytes(source)`: runs the script. The
/// error is the engine's message. Nothing is claimed of the outcome.
#[verifier::external_body]
pub(crate) fn evaluate(context: &mut Context, source: &str) -> Result<JsValue, String> {
    context.eval(Source::from_bytes(source)).map_err(|e| e.to_string())
}

/// `Context::global_object`, as a value. All that is claimed is that it is
/// an object.
#[verifier::external_body]
pub(crate) fn global_object(context: &Context) -> (global: JsValue)
    ensures
        value_shape(global) is Object,
{
    JsValue::from(context.global_object())
}

/// `JsObject::own_property_keys` on `object`: `None` where `object` is no
/// object, and only there; the error is the engine's message. Nothing is
/// claimed of the keys.
#[verifier::external_body]
pub(crate) fn own_keys(context: &mut Context, object: &JsValue) -> (keys: Option<
    Result<Vec<PropertyKey>, String>,
>)
    ensures
        keys is None <==> !(value_shape(*object) is Object),
{
    match object {
        JsValue::Object(o) => Some(o.own_property_keys(context).map_err(|e| e.to_string())),
        _ => None,
    }
}

/// The variant of a `PropertyKey`, as a name: a string key by
/// `JsString::to_std_string_escaped`, an index key by its number written in
/// decimal, and nothing for a symbol. Nothing is claimed of the text.
#[verifier::external_body]
pub(crate) fn key_name(key: &PropertyKey) -> Option<String> {
    match key {
        PropertyKey::String(name) => Some(name.to_std_string_escaped()),
        PropertyKey::Symbol(_) => None,
        PropertyKey::Index(index) => Some(index.get().to_string()),
    }
}

/// `PropertyKey::from` on `JsString::from(name)`: the key that `name`
/// denotes. Nothing is claimed of it.
#[verifier::external_body]
pub(crate) fn named_key(name: &str) -> PropertyKey {
    PropertyKey::from(JsString::from(name))
}

/// `JsObject::get` on `object`: `None` where `object` is no object, and only
/// there; the error is the engine's message. Nothing is claimed of the
/// value.
#[verifier::external_body]
pub(crate) fn get_by_key(context: &mut Context, object: &JsValue, key: &PropertyKey) -> (found:
    Option<Result<JsValue, String>>)
    ensures
        found is None <==> !(value_shape(*object) is Object),
{
    match object {
        JsValue::Object(o) => Some(o.get(key.clone(), context).map_err(|e| e.to_string())),
        _ => None,
    }
}

/// `JsObject::has_property` on `object`: `None` where `object` is no object,
/// and only there; the error is the engine's message. Nothing is claimed of
/// the answer.
#[verifier::external_body]
pub(crate) fn has_key(context: &mut Context, object: &JsValue, key: &PropertyKey) -> (present:
    Option<Result<bool, String>>)
    ensures
        present is None <==> !(value_shape(*object) is Object),
{
    match object {
        JsValue::Object(o) => Some(o.has_property(key.clone(), context).map_err(|e| e.to_string())),
        _ => None,
    }
}

/// `JsValue::is_callable`. All that is claimed is that only an object can
/// be called.
#[verifier::external_body]
pub(crate) fn is_callable(value: &JsValue) -> (callable: bool)
    ensures
        callable ==> value_shape(*value) is Object,
{
    value.is_callable()
}

/// `JsValue::from` on `JsString::from(text)`: the string value that holds
/// `text`, which is what `JsString::to_std_string_escaped` gives back of it.
#[verifier::external_body]
pub(crate) fn text_value(text: &str) -> (value: JsValue)
    ensures
        value_shape(value) == ShapeView::Text(text@),
{
    JsValue::from(JsString::from(text))
}

/// `JsObject::call` on what `JsValue::as_callable` gives of `callee`, with
/// no receiver and `argument` alone: `None` where `callee` cannot be
/// called, as nothing can that is no object; the error is the message of
/// what the script threw. Nothing is claimed of the value.
#[verifier::external_body]
pub(crate) fn call_value(context: &mut Context, callee: &JsValue, argument: &JsValue) -> (called:
    Option<Result<JsValue, String>>)
    ensures
        !(value_shape(*callee) is Object) ==> called is None,
{
    let arguments = [argument.clone()];
    match callee.as_callable() {
        Some(f) => Some(f.call(&JsValue::undefined(), &arguments, context).map_err(|e| e.to_string())),
        None => None,
    }
}

/// What the variants of `JsValue` give of a value: which variant it is,
/// what a boolean and an integer hold, what a string holds by
/// `JsString::to_std_string_escaped`, and of any other number the bits of
/// its binary form and the decimal form in which the standard library
/// writes it. A value is of one variant for good, and what a primitive
/// value holds never changes, so the same value gives the same shape
/// whenever it is asked.
pub uninterp spec fn value_shape(value: JsValue) -> ShapeView;

/// The match on the variants of `JsValue`: the shape of `value`. All that is
/// claimed is that it is the shape that `value_shape` names.
#[verifier::external_body]
pub(crate) fn shape_of(value: &JsValue) -> (shape: ValueShape)
    ensures
        shape@ == value_shape(*value),
{
    match value {
        JsValue::Null => ValueShape::Null,
        JsValue::Undefined => ValueShape::Undefined,
        JsValue::Boolean(b) => ValueShape::Boolean(*b),
        JsValue::String(text) => ValueShape::Text(text.to_std_string_escaped()),
        JsValue::Rational(r) => ValueShape::Rational { bits: r.to_bits(), decimal: r.to_string() },
        JsValue::Integer(i) => ValueShape::Integer(*i),
        JsValue::BigInt(_) => ValueShape::BigInt,
        JsValue::Object(_) => ValueShape::Object,
        JsValue::Symbol(_) => ValueShape::Symbol,
    }
}

/// `JsValue::display`, written to a text: the form in which the engine
/// shows a value. Nothing is claimed of the text.
#[verifier::external_body]
pub(crate) fn display_text(value: &JsValue) -> String {
    value.display().to_string()
}

/// `JsValue::as_number`, cast to an index: nothing where `value` is no
/// number. Nothing is claimed of the index.
#[verifier::external_body]
pub(crate) fn number_as_index(value: &JsValue) -> Option<usize> {
    match value.as_number() {
        Some(n) => Some(n as usize),
        None => None,
    }
}

} // verus!
