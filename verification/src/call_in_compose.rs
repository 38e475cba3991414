//! Calling a composed function, and reading what it returned by its shape.
//!
//! An array gives the pairs of its elements: an element that is an array
//! gives one pair, of what stands at its places 0 and 1; an element that is
//! an object gives one pair for each of its own properties. An object gives
//! one pair for each of its own properties. Anything else is one text.

use crate::call_func::invoke;
use crate::data_struct::{FunctionReturnType, ReturnView, TextPairs};
use crate::engine::{
    get_by_key, key_name, named_key, number_as_index, own_keys, shape_of, value_shape,
};
use crate::js_convert_judge::{
    is_array, js_value_to_string, primitive_text_of, ShapeView, ValueShape,
};
use crate::text::{followed_by, decimal_of_index, decimal_text};
use boa_engine::{Context, JsValue};
use vstd::prelude::*;
use vstd::string::*;

verus! {

/// One element of a returned array, as far as classification reads it.
#[derive(Debug, Clone, PartialEq, Eq)]
pub enum ElementShape {
    /// An array: what stands at its places 0 and 1, as text.
    Pair { key: String, value: String },
    /// An object: its own properties with their values as text, in order.
    Record(Vec<(String, String)>),
    /// Neither an array nor an object.
    Unsupported,
}

/// An `ElementShape` as contracts see it.
pub enum ElementView {
    Pair { key: Seq<char>, value: Seq<char> },
    Record(TextPairs),
    Unsupported,
}

impl View for ElementShape {
    type V = ElementView;

    open spec fn view(&self) -> ElementView {
        match self {
            ElementShape::Pair { key, value } => ElementView::Pair { key: key@, value: value@ },
            ElementShape::Record(pairs) => ElementView::Record(pairs.deep_view()),
            ElementShape::Unsupported => ElementView::Unsupported,
        }
    }
}

impl DeepView for ElementShape {
    type V = ElementView;

    open spec fn deep_view(&self) -> ElementView {
        self@
    }
}

/// A returned value, as far as classification reads it.
#[derive(Debug, Clone, PartialEq, Eq)]
pub enum ReturnShape {
    /// An array, with its elements in order.
    List(Vec<ElementShape>),
    /// An object that is no array: its own properties with their values as
    /// text, in order.
    Record(Vec<(String, String)>),
    /// Anything else, as text.
    Scalar(String),
}

/// A `ReturnShape` as contracts see it.
pub enum ShapeOfReturn {
    List(Seq<ElementView>),
    Record(TextPairs),
    Scalar(Seq<char>),
}

impl View for ReturnShape {
    type V = ShapeOfReturn;

    open spec fn view(&self) -> ShapeOfReturn {
        match self {
            ReturnShape::List(elements) => ShapeOfReturn::List(elements.deep_view()),
            ReturnShape::Record(pairs) => ShapeOfReturn::Record(pairs.deep_view()),
            ReturnShape::Scalar(text) => ShapeOfReturn::Scalar(text@),
        }
    }
}

/// The three kinds of values that classification tells apart.
#[derive(Debug, Clone, Copy, PartialEq, Eq)]
pub enum ValueKind {
    /// An array, by the script's own judgement.
    Array,
    /// An object that is no array.
    Object,
    /// Anything else.
    Scalar,
}

/// The kind of a value, given whether the script takes it for an array and
/// what variant it is: the array test comes first, then the object test.
pub open spec fn kind_of(array: bool, shape: ShapeView) -> ValueKind {
    if array {
        ValueKind::Array
    } else if shape is Object {
        ValueKind::Object
    } else {
        ValueKind::Scalar
    }
}

/// The kind of a value, given whether the script takes it for an array and
/// what variant it is.
pub fn value_kind(array: bool, shape: &ValueShape) -> (kind: ValueKind)
    ensures
        kind == kind_of(array, shape@),
{
    if array {
        ValueKind::Array
    } else {
        match shape {
            ValueShape::Object => ValueKind::Object,
            _ => ValueKind::Scalar,
        }
    }
}

/// The pairs that one element gives.
pub open spec fn pairs_of(element: ElementView) -> TextPairs {
    match element {
        ElementView::Pair { key, value } => seq![(key, value)],
        ElementView::Record(pairs) => pairs,
        ElementView::Unsupported => TextPairs::empty(),
    }
}

/// The pairs of all elements, in the order of the elements and, within an
/// element, in its own order.
pub open spec fn flattened(elements: Seq<ElementView>) -> TextPairs
    decreases elements.len(),
{
    if elements.len() == 0 {
        TextPairs::empty()
    } else {
        flattened(elements.drop_last()) + pairs_of(elements.last())
    }
}

/// The place of the first element that is neither an array nor an object.
pub open spec fn first_unsupported(elements: Seq<ElementView>) -> Option<int>
    decreases elements.len(),
{
    if elements.len() == 0 {
        None
    } else {
        match first_unsupported(elements.drop_last()) {
            Some(i) => Some(i),
            None => if elements.last() is Unsupported {
                Some(elements.len() - 1)
            } else {
                None
            },
        }
    }
}

/// What is said of an element that is neither an array nor an object.
pub open spec fn unsupported_text(i: int) -> Seq<char> {
    "Item "@ + decimal_text(i) + " is neither an array nor an object"@
}

/// What a returned value is classified as: an array as the pairs of its
/// elements, unless one of them is unsupported; an object as its pairs;
/// anything else as text.
pub open spec fn classified(shape: ShapeOfReturn) -> Result<ReturnView, Seq<char>> {
    match shape {
        ShapeOfReturn::List(elements) => match first_unsupported(elements) {
            Some(i) => Err(unsupported_text(i)),
            None => Ok(ReturnView::Array2D(flattened(elements))),
        },
        ShapeOfReturn::Record(pairs) => Ok(ReturnView::Object(pairs)),
        ShapeOfReturn::Scalar(text) => Ok(ReturnView::String(text)),
    }
}

/// A `Result` of classification as contracts see it.
pub open spec fn result_view(result: Result<FunctionReturnType, String>) -> Result<
    ReturnView,
    Seq<char>,
> {
    match result {
        Ok(value) => Ok(value@),
        Err(message) => Err(message@),
    }
}

/// A copy of `pairs`.
pub fn copy_pairs(pairs: &Vec<(String, String)>) -> (copy: Vec<(String, String)>)
    ensures
        copy.deep_view() == pairs.deep_view(),
{
    let mut copy: Vec<(String, String)> = Vec::new();
    append_pairs(&mut copy, pairs);
    assert(copy.deep_view() =~= pairs.deep_view());
    copy
}

/// Writes a copy of `pairs` at the end of `out`.
pub fn append_pairs(out: &mut Vec<(String, String)>, pairs: &Vec<(String, String)>)
    ensures
        final(out).deep_view() == old(out).deep_view() + pairs.deep_view(),
{
    let ghost before = out.deep_view();
    let mut k: usize = 0;
    assert(pairs.deep_view().take(0) =~= TextPairs::empty());
    assert(out.deep_view() =~= before + pairs.deep_view().take(0));
    while k < pairs.len()
        invariant
            k <= pairs.len(),
            out.deep_view() == before + pairs.deep_view().take(k as int),
        decreases pairs.len() - k,
    {
        let ghost so_far = out.deep_view();
        out.push((pairs[k].0.clone(), pairs[k].1.clone()));
        assert(out.deep_view() =~= so_far.push(pairs.deep_view()[k as int]));
        assert(pairs.deep_view().take(k + 1) =~= pairs.deep_view().take(k as int).push(
            pairs.deep_view()[k as int],
        ));
        k = k + 1;
    }
    assert(pairs.deep_view().take(pairs.len() as int) =~= pairs.deep_view());
}

/// The error for element `i`, which is neither an array nor an object.
pub fn unsupported_message(i: usize) -> (message: String)
    ensures
        message@ == unsupported_text(i as int),
{
    let mut message = String::from_str("Item ");
    message.append(decimal_of_index(i).as_str());
    message.append(" is neither an array nor an object");
    message
}

/// Classifies a returned value by its shape.
pub fn classify(shape: &ReturnShape) -> (result: Result<FunctionReturnType, String>)
    ensures
        result_view(result) == classified(shape@),
{
    match shape {
        ReturnShape::List(elements) => {
            let ghost all = elements.deep_view();
            let mut pairs: Vec<(String, String)> = Vec::new();
            let mut i: usize = 0;
            assert(all.take(0) =~= Seq::<ElementView>::empty());
            assert(pairs.deep_view() =~= TextPairs::empty());
            while i < elements.len()
                invariant
                    i <= elements.len(),
                    all == elements.deep_view(),
                    shape@ == ShapeOfReturn::List(all),
                    first_unsupported(all.take(i as int)).is_none(),
                    pairs.deep_view() == flattened(all.take(i as int)),
                decreases elements.len() - i,
            {
                proof {
                    assert(all.take(i + 1).drop_last() =~= all.take(i as int));
                    assert(all.take(i + 1).last() == elements[i as int]@);
                }
                let ghost so_far = pairs.deep_view();
                match &elements[i] {
                    ElementShape::Pair { key, value } => {
                        pairs.push((key.clone(), value.clone()));
                        assert(pairs.deep_view() =~= so_far + seq![(key@, value@)]);
                    },
                    ElementShape::Record(found) => {
                        append_pairs(&mut pairs, found);
                    },
                    ElementShape::Unsupported => {
                        proof {
                            assert(all.take(i + 1).last() is Unsupported);
                            assert(first_unsupported(all.take(i + 1)) == Some(i as int));
                            lemma_first_unsupported_stays(all, i as int + 1);
                        }
                        return Err(unsupported_message(i));
                    },
                }
                i = i + 1;
            }
            assert(all.take(elements.len() as int) =~= all);
            Ok(FunctionReturnType::Array2D(pairs))
        },
        ReturnShape::Record(pairs) => Ok(FunctionReturnType::Object(copy_pairs(pairs))),
        ReturnShape::Scalar(text) => Ok(FunctionReturnType::String(text.clone())),
    }
}

/// The first unsupported element among the first `n` is the first among all.
pub proof fn lemma_first_unsupported_stays(elements: Seq<ElementView>, n: int)
    requires
        0 <= n <= elements.len(),
        first_unsupported(elements.take(n)).is_some(),
    ensures
        first_unsupported(elements) == first_unsupported(elements.take(n)),
    decreases elements.len(),
{
    if n == elements.len() {
        assert(elements.take(n) =~= elements);
    } else {
        let front = elements.drop_last();
        assert(front.take(n) =~= elements.take(n));
        lemma_first_unsupported_stays(front, n);
    }
}

/// The elements that are the pairs of `pairs`, one for one.
pub open spec fn as_pair_elements(pairs: TextPairs) -> Seq<ElementView> {
    Seq::new(pairs.len(), |i: int| ElementView::Pair { key: pairs[i].0, value: pairs[i].1 })
}

/// An array of pairs is classified as these very pairs, in their order.
pub proof fn lemma_array_of_pairs_round_trip(pairs: TextPairs)
    ensures
        classified(ShapeOfReturn::List(as_pair_elements(pairs))) == Ok::<ReturnView, Seq<char>>(
            ReturnView::Array2D(pairs),
        ),
    decreases pairs.len(),
{
    let elements = as_pair_elements(pairs);
    if pairs.len() == 0 {
        assert(flattened(elements) =~= pairs);
    } else {
        let front = pairs.drop_last();
        lemma_array_of_pairs_round_trip(front);
        assert(elements.drop_last() =~= as_pair_elements(front));
        assert(flattened(elements) =~= front + seq![pairs.last()]);
        assert(front + seq![pairs.last()] =~= pairs);
    }
}

/// An object is classified as its own pairs, and any other value as its
/// text.
pub proof fn lemma_object_and_scalar_round_trip(pairs: TextPairs, text: Seq<char>)
    ensures
        classified(ShapeOfReturn::Record(pairs)) == Ok::<ReturnView, Seq<char>>(
            ReturnView::Object(pairs),
        ),
        classified(ShapeOfReturn::Scalar(text)) == Ok::<ReturnView, Seq<char>>(
            ReturnView::String(text),
        ),
{
}

/// Reads the own properties of `object` whose keys are no symbols, each
/// with its value as text, in the engine's order. What is no object is
/// refused.
pub fn read_properties(context: &mut Context, object: &JsValue) -> (pairs: Result<
    Vec<(String, String)>,
    String,
>)
    ensures
        !(value_shape(*object) is Object) ==> (pairs matches Err(message) && message@
            == "Not an object"@),
{
    let keys = match own_keys(context, object) {
        Some(Ok(keys)) => keys,
        Some(Err(message)) => {
            return Err(followed_by("Failed to get keys: ", message.as_str()));
        },
        None => {
            return Err(String::from_str("Not an object"));
        },
    };
    let mut pairs: Vec<(String, String)> = Vec::new();
    let mut k: usize = 0;
    while k < keys.len()
        invariant
            k <= keys.len(),
        decreases keys.len() - k,
    {
        let key = &keys[k];
        k = k + 1;
        let name = match key_name(key) {
            Some(name) => name,
            None => {
                continue ;
            },
        };
        let value = match get_by_key(context, object, key) {
            Some(Ok(value)) => value,
            Some(Err(message)) => {
                let mut text = followed_by("Failed to get value for key ", name.as_str());
                text.append(": ");
                text.append(message.as_str());
                return Err(text);
            },
            None => {
                return Err(String::from_str("Not an object"));
            },
        };
        pairs.push((name, js_value_to_string(&value)));
    }
    Ok(pairs)
}

/// Reads what stands at `place` of `object`, as text. What is no object is
/// refused.
fn read_member(context: &mut Context, object: &JsValue, place: &str, i: usize) -> (text: Result<
    String,
    String,
>)
    ensures
        !(value_shape(*object) is Object) ==> (text matches Err(message) && message@
            == "Item is not an object"@),
{
    match get_by_key(context, object, &named_key(place)) {
        Some(Ok(value)) => Ok(js_value_to_string(&value)),
        Some(Err(message)) => {
            let mut text = followed_by("Failed to get member ", place);
            text.append(" at index ");
            text.append(decimal_of_index(i).as_str());
            text.append(": ");
            text.append(message.as_str());
            Err(text)
        },
        None => Err(String::from_str("Item is not an object")),
    }
}

/// Reads element `i` of a returned array: a pair, where the script takes
/// the element for an array; its properties, where it is another object;
/// and unsupported, where it is no object at all.
pub fn read_element(context: &mut Context, item: &JsValue, i: usize) -> (element: Result<
    ElementShape,
    String,
>)
    ensures
        element matches Ok(read) ==> (read is Unsupported <==> !(value_shape(*item) is Object)),
        !(value_shape(*item) is Object) ==> (element matches Err(message) ==> message@
            == "Item is not an object"@),
{
    let array = is_array(context, item);
    match value_kind(array, &shape_of(item)) {
        ValueKind::Array => {
            let key = match read_member(context, item, "0", i) {
                Ok(key) => key,
                Err(message) => {
                    return Err(message);
                },
            };
            let value = match read_member(context, item, "1", i) {
                Ok(value) => value,
                Err(message) => {
                    return Err(message);
                },
            };
            Ok(ElementShape::Pair { key, value })
        },
        ValueKind::Object => match read_properties(context, item) {
            Ok(pairs) => Ok(ElementShape::Record(pairs)),
            Err(message) => Err(message),
        },
        ValueKind::Scalar => Ok(ElementShape::Unsupported),
    }
}

/// Reads a returned array, element by element up to the first that is
/// neither an array nor an object, and classifies it. What is no object is
/// refused.
pub fn parse_2d_array(context: &mut Context, array: &JsValue) -> (result: Result<
    FunctionReturnType,
    String,
>)
    ensures
        result matches Ok(value) ==> value is Array2D,
        !(value_shape(*array) is Object) ==> (result matches Err(message) && message@
            == "Not an array object"@),
{
    let length_value = match get_by_key(context, array, &named_key("length")) {
        Some(Ok(value)) => value,
        Some(Err(message)) => {
            return Err(followed_by("Failed to get length: ", message.as_str()));
        },
        None => {
            return Err(String::from_str("Not an array object"));
        },
    };
    let length = match number_as_index(&length_value) {
        Some(length) => length,
        None => {
            return Err(String::from_str("Length is not a number"));
        },
    };
    let mut elements: Vec<ElementShape> = Vec::new();
    let mut i: usize = 0;
    while i < length
        invariant
            i <= length,
        decreases length - i,
    {
        let place = decimal_of_index(i);
        let item = match get_by_key(context, array, &named_key(place.as_str())) {
            Some(Ok(item)) => item,
            Some(Err(message)) => {
                let mut text = followed_by("Failed to get item ", place.as_str());
                text.append(": ");
                text.append(message.as_str());
                return Err(text);
            },
            None => {
                return Err(String::from_str("Not an array object"));
            },
        };
        let element = match read_element(context, &item, i) {
            Ok(element) => element,
            Err(message) => {
                return Err(message);
            },
        };
        let stop = match element {
            ElementShape::Unsupported => true,
            _ => false,
        };
        elements.push(element);
        if stop {
            break ;
        }
        i = i + 1;
    }
    classify(&ReturnShape::List(elements))
}

/// Reads a returned object and classifies it. What is no object is refused.
pub fn parse_object(context: &mut Context, obj: &JsValue) -> (result: Result<
    FunctionReturnType,
    String,
>)
    ensures
        result matches Ok(value) ==> value is Object,
        !(value_shape(*obj) is Object) ==> (result matches Err(message) && message@
            == "Not an object"@),
{
    match read_properties(context, obj) {
        Ok(pairs) => classify(&ReturnShape::Record(pairs)),
        Err(message) => Err(message),
    }
}

/// Reads and classifies what a composed function returned: an array, an
/// object, or anything else as text.
///
/// Only an object is classified as pairs, and only what is no object as
/// text: the text in which the script itself would write it, where it is
/// `null`, `undefined`, a boolean, a number or a string.
pub fn classify_result(context: &mut Context, result: &JsValue) -> (classified: Result<
    FunctionReturnType,
    String,
>)
    ensures
        classified matches Ok(value) ==> (value is String <==> !(value_shape(*result)
            is Object)),
        primitive_text_of(value_shape(*result)) matches Some(primitive) ==> (classified matches Ok(
            value,
        ) ==> value@ == ReturnView::String(primitive)),
        !(value_shape(*result) is Object) ==> (classified matches Err(message) ==> message@
            == "Not an array object"@),
{
    let array = is_array(context, result);
    match value_kind(array, &shape_of(result)) {
        ValueKind::Array => parse_2d_array(context, result),
        ValueKind::Object => parse_object(context, result),
        ValueKind::Scalar => classify(&ReturnShape::Scalar(js_value_to_string(result))),
    }
}

/// Calls the composed function `func_name` of the script with `content` and
/// classifies what it returned: as text exactly where the returned value is
/// no object, and as the text in which the script itself would write it
/// where it is `null`, `undefined`, a boolean, a number or a string.
pub fn call_function_typed(context: &mut Context, func_name: &str, content: &str) -> (result:
    Result<FunctionReturnType, String>)
    ensures
        result matches Ok(value) ==> exists|returned: JsValue|
            (value is String <==> !(#[trigger] value_shape(returned) is Object)) && (
            primitive_text_of(value_shape(returned)) matches Some(primitive) ==> value@
                == ReturnView::String(primitive)),
{
    match invoke(context, func_name, content) {
        Ok(value) => classify_result(context, &value),
        Err(message) => Err(message),
    }
}

} // verus!
