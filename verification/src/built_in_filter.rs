//! The names that belong to the scripting environment itself.

use crate::text::same_text;
use vstd::prelude::*;

verus! {

/// The names that the scripting environment binds on its own: the global
/// values, the namespaces, the constructors and the global functions. A
/// script's function under one of these names is never taken for an entry.
pub open spec fn builtin_names() -> Seq<Seq<char>> {
    seq![
        "globalThis"@,
        "Infinity"@,
        "NaN"@,
        "undefined"@,
        "Object"@,
        "Function"@,
        "Array"@,
        "Number"@,
        "Boolean"@,
        "String"@,
        "Symbol"@,
        "BigInt"@,
        "Math"@,
        "JSON"@,
        "Reflect"@,
        "Atomics"@,
        "Intl"@,
        "Temporal"@,
        "console"@,
        "Date"@,
        "RegExp"@,
        "Promise"@,
        "Proxy"@,
        "Map"@,
        "Set"@,
        "WeakMap"@,
        "WeakSet"@,
        "WeakRef"@,
        "FinalizationRegistry"@,
        "ArrayBuffer"@,
        "SharedArrayBuffer"@,
        "DataView"@,
        "Int8Array"@,
        "Uint8Array"@,
        "Uint8ClampedArray"@,
        "Int16Array"@,
        "Uint16Array"@,
        "Int32Array"@,
        "Uint32Array"@,
        "BigInt64Array"@,
        "BigUint64Array"@,
        "Float32Array"@,
        "Float64Array"@,
        "TypedArray"@,
        "Error"@,
        "AggregateError"@,
        "EvalError"@,
        "RangeError"@,
        "ReferenceError"@,
        "SyntaxError"@,
        "TypeError"@,
        "URIError"@,
        "eval"@,
        "isFinite"@,
        "isNaN"@,
        "parseFloat"@,
        "parseInt"@,
        "decodeURI"@,
        "decodeURIComponent"@,
        "encodeURI"@,
        "encodeURIComponent"@,
        "escape"@,
        "unescape"@,
    ]
}

/// Whether `name` belongs to the scripting environment.
pub open spec fn is_builtin_name(name: Seq<char>) -> bool {
    builtin_names().contains(name)
}

/// The names of `builtin_names`, in the same order.
fn builtin_list() -> (names: Vec<&'static str>)
    ensures
        names@.len() == builtin_names().len(),
        forall|i: int| 0 <= i < names@.len() ==> (#[trigger] names@[i])@ == builtin_names()[i],
{
    vec![
        "globalThis",
        "Infinity",
        "NaN",
        "undefined",
        "Object",
        "Function",
        "Array",
        "Number",
        "Boolean",
        "String",
        "Symbol",
        "BigInt",
        "Math",
        "JSON",
        "Reflect",
        "Atomics",
        "Intl",
        "Temporal",
        "console",
        "Date",
        "RegExp",
        "Promise",
        "Proxy",
        "Map",
        "Set",
        "WeakMap",
        "WeakSet",
        "WeakRef",
        "FinalizationRegistry",
        "ArrayBuffer",
        "SharedArrayBuffer",
        "DataView",
        "Int8Array",
        "Uint8Array",
        "Uint8ClampedArray",
        "Int16Array",
        "Uint16Array",
        "Int32Array",
        "Uint32Array",
        "BigInt64Array",
        "BigUint64Array",
        "Float32Array",
        "Float64Array",
        "TypedArray",
        "Error",
        "AggregateError",
        "EvalError",
        "RangeError",
        "ReferenceError",
        "SyntaxError",
        "TypeError",
        "URIError",
        "eval",
        "isFinite",
        "isNaN",
        "parseFloat",
        "parseInt",
        "decodeURI",
        "decodeURIComponent",
        "encodeURI",
        "encodeURIComponent",
        "escape",
        "unescape",
    ]
}

/// Whether `name` belongs to the scripting environment.
pub fn is_builtin(name: &str) -> (builtin: bool)
    ensures
        builtin == is_builtin_name(name@),
{
    let names = builtin_list();
    let mut i: usize = 0;
    while i < names.len()
        invariant
            i <= names.len(),
            names@.len() == builtin_names().len(),
            forall|k: int| 0 <= k < names@.len() ==> (#[trigger] names@[k])@ == builtin_names()[k],
            forall|k: int| 0 <= k < i ==> builtin_names()[k] != name@,
        decreases names.len() - i,
    {
        if same_text(names[i], name) {
            assert(builtin_names()[i as int] == name@);
            return true;
        }
        i = i + 1;
    }
    false
}

} // verus!
