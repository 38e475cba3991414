//! How a value of the script is read: by its kind, and as text.

use crate::engine::{
    call_value, display_text, get_by_key, global_object, named_key, shape_of, value_shape,
};
use crate::text::{decimal_of, decimal_text};
use boa_engine::{Context, JsValue};
use vstd::prelude::*;
use vstd::string::*;

verus! {

/// A value of the script, as far as text conversion reads it.
#[derive(Debug, Clone, PartialEq, Eq)]
pub enum ValueShape {
    Undefined,
    Null,
    Boolean(bool),
    /// A number that the engine holds as an integer.
    Integer(i32),
    /// Any other number: the 64 bits of its binary form, and how it is
    /// written in decimal.
    Rational { bits: u64, decimal: String },
    /// A string, with what it holds.
    Text(String),
    BigInt,
    Symbol,
    /// An object: a plain one, an array or a function.
    Object,
}

/// A `ValueShape` as contracts see it.
pub enum ShapeView {
    Undefined,
    Null,
    Boolean(bool),
    Integer(i32),
    Rational { bits: u64, decimal: Seq<char> },
    Text(Seq<char>),
    BigInt,
    Symbol,
    Object,
}

impl View for ValueShape {
    type V = ShapeView;

    open spec fn view(&self) -> ShapeView {
        match self {
            ValueShape::Undefined => ShapeView::Undefined,
            ValueShape::Null => ShapeView::Null,
            ValueShape::Boolean(b) => ShapeView::Boolean(*b),
            ValueShape::Integer(i) => ShapeView::Integer(*i),
            ValueShape::Rational { bits, decimal } => ShapeView::Rational {
                bits: *bits,
                decimal: decimal@,
            },
            ValueShape::Text(text) => ShapeView::Text(text@),
            ValueShape::BigInt => ShapeView::BigInt,
            ValueShape::Symbol => ShapeView::Symbol,
            ValueShape::Object => ShapeView::Object,
        }
    }
}

/// The bits of a number without its sign bit.
pub open spec fn magnitude_bits(bits: u64) -> int {
    bits as int % 0x8000_0000_0000_0000
}

/// The bits of an infinity without its sign bit: the highest exponent, and
/// nothing behind it.
pub open spec fn infinity_bits() -> int {
    0x7ff0_0000_0000_0000
}

/// The bits are those of a value that is not a number: the highest exponent,
/// and something behind it.
pub open spec fn is_nan_bits(bits: u64) -> bool {
    magnitude_bits(bits) > infinity_bits()
}

/// The bits are those of an infinity.
pub open spec fn is_infinite_bits(bits: u64) -> bool {
    magnitude_bits(bits) == infinity_bits()
}

/// The sign bit is set.
pub open spec fn is_negative_bits(bits: u64) -> bool {
    bits >= 0x8000_0000_0000_0000
}

/// How a number with these bits is written: `NaN`, `Infinity` or
/// `-Infinity` where it is one of these, else in decimal.
pub open spec fn number_text(bits: u64, decimal: Seq<char>) -> Seq<char> {
    if is_nan_bits(bits) {
        "NaN"@
    } else if is_infinite_bits(bits) {
        if is_negative_bits(bits) {
            "-Infinity"@
        } else {
            "Infinity"@
        }
    } else {
        decimal
    }
}

/// The text of a value that is no object, symbol or big integer: a string
/// stands for itself, without quotes.
pub open spec fn primitive_text_of(shape: ShapeView) -> Option<Seq<char>> {
    match shape {
        ShapeView::Undefined => Some("undefined"@),
        ShapeView::Null => Some("null"@),
        ShapeView::Boolean(b) => Some(
            if b {
                "true"@
            } else {
                "false"@
            },
        ),
        ShapeView::Integer(i) => Some(decimal_text(i as int)),
        ShapeView::Rational { bits, decimal } => Some(number_text(bits, decimal)),
        ShapeView::Text(text) => Some(text),
        ShapeView::BigInt => None,
        ShapeView::Symbol => None,
        ShapeView::Object => None,
    }
}

/// The text of a string, and nothing for any other value.
pub open spec fn string_text_of(shape: ShapeView) -> Option<Seq<char>> {
    match shape {
        ShapeView::Text(text) => Some(text),
        _ => None,
    }
}

/// How a number is written, given its bits and its decimal form.
pub fn number_to_text(bits: u64, decimal: &str) -> (text: String)
    ensures
        text@ == number_text(bits, decimal@),
{
    let magnitude = bits % 0x8000_0000_0000_0000u64;
    if magnitude > 0x7ff0_0000_0000_0000u64 {
        String::from_str("NaN")
    } else if magnitude == 0x7ff0_0000_0000_0000u64 {
        if bits >= 0x8000_0000_0000_0000u64 {
            String::from_str("-Infinity")
        } else {
            String::from_str("Infinity")
        }
    } else {
        String::from_str(decimal)
    }
}

/// The text of a primitive value, as the script itself would convert it;
/// nothing for an object, a symbol or a big integer.
pub fn primitive_text(shape: &ValueShape) -> (text: Option<String>)
    ensures
        match text {
            Some(t) => primitive_text_of(shape@) == Some(t@),
            None => primitive_text_of(shape@).is_none(),
        },
{
    match shape {
        ValueShape::Undefined => Some(String::from_str("undefined")),
        ValueShape::Null => Some(String::from_str("null")),
        ValueShape::Boolean(b) => Some(
            if *b {
                String::from_str("true")
            } else {
                String::from_str("false")
            },
        ),
        ValueShape::Integer(i) => Some(decimal_of(*i as i64)),
        ValueShape::Rational { bits, decimal } => Some(number_to_text(*bits, decimal.as_str())),
        ValueShape::Text(text) => Some(text.clone()),
        ValueShape::BigInt => None,
        ValueShape::Symbol => None,
        ValueShape::Object => None,
    }
}

/// What a string holds; nothing for any other value.
pub fn string_text(shape: &ValueShape) -> (text: Option<String>)
    ensures
        match text {
            Some(t) => string_text_of(shape@) == Some(t@),
            None => string_text_of(shape@).is_none(),
        },
{
    match shape {
        ValueShape::Text(text) => Some(text.clone()),
        _ => None,
    }
}

/// `value` as text, converted as the script itself would convert it: a
/// string stands for itself, without quotes, and `null`, `undefined`, a
/// boolean and a number are written as `primitive_text_of` says. An object,
/// a symbol or a big integer is given in the form in which the engine
/// displays it.
pub fn js_value_to_string(value: &JsValue) -> (text: String)
    ensures
        primitive_text_of(value_shape(*value)) matches Some(primitive) ==> text@ == primitive,
{
    let shape = shape_of(value);
    match primitive_text(&shape) {
        Some(text) => text,
        None => display_text(value),
    }
}

/// What `value` holds where it is a string; else the form in which the
/// engine displays it.
pub fn extract_string(value: &JsValue) -> (text: String)
    ensures
        string_text_of(value_shape(*value)) matches Some(held) ==> text@ == held,
{
    let shape = shape_of(value);
    match string_text(&shape) {
        Some(text) => text,
        None => display_text(value),
    }
}

/// What the script's own `Array.isArray` says of a shape that it returned.
pub open spec fn array_verdict(answer: ShapeView) -> bool {
    answer == ShapeView::Boolean(true)
}

/// Reads the answer of `Array.isArray`.
pub fn is_true(answer: &ValueShape) -> (yes: bool)
    ensures
        yes == array_verdict(answer@),
{
    match answer {
        ValueShape::Boolean(b) => *b,
        _ => false,
    }
}

/// Whether `value` is an array, by asking `Array.isArray` of the script's
/// environment. Where that function cannot be found or called, or answers
/// with anything but `true`, the value counts as no array: it counts as an
/// array only on an answer that is `true`.
pub fn is_array(context: &mut Context, value: &JsValue) -> (array: bool)
    ensures
        array ==> exists|answer: JsValue| array_verdict(#[trigger] value_shape(answer)),
{
    let global = global_object(context);
    let array_constructor = match get_by_key(context, &global, &named_key("Array")) {
        Some(Ok(constructor)) => constructor,
        _ => {
            return false;
        },
    };
    let is_array_fn = match get_by_key(context, &array_constructor, &named_key("isArray")) {
        Some(Ok(function)) => function,
        _ => {
            return false;
        },
    };
    match call_value(context, &is_array_fn, value) {
        Some(Ok(answer)) => is_true(&shape_of(&answer)),
        _ => false,
    }
}

} // verus!
