//! Reading the tags that a function of the script carries.

use crate::engine::{get_by_key, has_key, named_key, shape_of, value_shape};
use crate::js_convert_judge::{string_text, string_text_of, ShapeView, ValueShape};
use crate::text::followed_by;
use boa_engine::{Context, JsValue};
use vstd::prelude::*;
use vstd::string::*;

verus! {

/// What a tag holds: the text of a string, and nothing for any other value.
pub open spec fn tag_text_of(shape: ShapeView) -> Seq<char> {
    match string_text_of(shape) {
        Some(text) => text,
        None => Seq::<char>::empty(),
    }
}

/// The text of a tag with this value: empty unless the value is a string.
pub fn tag_text(shape: &ValueShape) -> (text: String)
    ensures
        text@ == tag_text_of(shape@),
{
    match string_text(shape) {
        Some(text) => text,
        None => String::new(),
    }
}

/// The text of the property `name` of `object`: empty where the property is
/// missing or holds no string, and where `object` is no object. Fails where
/// the engine cannot read the property, with the engine's reason.
pub fn get_property(object: &JsValue, name: &str, context: &mut Context) -> (text: Result<
    String,
    String,
>)
    ensures
        !(value_shape(*object) is Object) ==> (text matches Ok(held) && held@.len() == 0),
        text matches Err(message) ==> exists|reason: Seq<char>|
            message@ == #[trigger] property_failed_text(reason),
{
    match get_by_key(context, object, &named_key(name)) {
        Some(Ok(value)) => Ok(tag_text(&shape_of(&value))),
        Some(Err(message)) => {
            let text = followed_by("Failed to get property: ", message.as_str());
            assert(text@ == property_failed_text(message@));
            Err(text)
        },
        None => Ok(String::new()),
    }
}

/// Whether `object` has a property `name`, whatever it holds; what is no
/// object has none. Fails where the engine cannot tell, with the engine's
/// reason.
pub fn has_property(object: &JsValue, name: &str, context: &mut Context) -> (present: Result<
    bool,
    String,
>)
    ensures
        !(value_shape(*object) is Object) ==> present == Ok::<bool, String>(false),
        present matches Err(message) ==> exists|reason: Seq<char>|
            message@ == #[trigger] property_failed_text(reason),
{
    match has_key(context, object, &named_key(name)) {
        Some(Ok(present)) => Ok(present),
        Some(Err(message)) => {
            let text = followed_by("Failed to get property: ", message.as_str());
            assert(text@ == property_failed_text(message@));
            Err(text)
        },
        None => Ok(false),
    }
}

/// What is said where the engine cannot read a property.
pub open spec fn property_failed_text(reason: Seq<char>) -> Seq<char> {
    "Failed to get property: "@ + reason
}

} // verus!
