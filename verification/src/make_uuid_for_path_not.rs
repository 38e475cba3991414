//! A file name for an output that names none: the function's name and an
//! identifier that no other output has.

use uuid::Uuid;
use vstd::prelude::*;
use vstd::string::*;

verus! {

/// One of the digits `0` to `9` and `a` to `f`.
pub open spec fn is_hex_digit(c: char) -> bool {
    ('0' <= c && c <= '9') || ('a' <= c && c <= 'f')
}

/// An identifier as it is generated: 32 hexadecimal digits in lower case.
pub open spec fn is_simple_id(id: Seq<char>) -> bool {
    &&& id.len() == 32
    &&& forall|i: int| 0 <= i < id.len() ==> is_hex_digit(#[trigger] id[i])
}

/// The file name made of a function's name and an identifier.
pub open spec fn synthesized(function_name: Seq<char>, id: Seq<char>) -> Seq<char> {
    function_name + seq!['_'] + id
}

/// `Uuid::new_v4`, written by `Uuid::simple`: a random identifier. Each call
/// gives another one; all that is claimed is its form, 32 hexadecimal digits
/// in lower case.
#[verifier::external_body]
fn fresh_simple_id() -> (id: String)
    ensures
        is_simple_id(id@),
{
    Uuid::new_v4().simple().to_string()
}

/// The file name made of `function_name` and `id`.
pub fn synthesized_name(function_name: &str, id: &str) -> (name: String)
    ensures
        name@ == synthesized(function_name@, id@),
{
    proof {
        reveal_strlit("_");
    }
    let mut name = String::from_str(function_name);
    name.append("_");
    name.append(id);
    assert(name@ =~= synthesized(function_name@, id@));
    name
}

/// A file name for an output of `function_name` that names none: the name,
/// an underscore and a fresh identifier.
pub fn make_uuid_for_path_not(function_name: &String) -> (name: String)
    ensures
        exists|id: Seq<char>| is_simple_id(id) && name@ == synthesized(function_name@, id),
{
    let id = fresh_simple_id();
    synthesized_name(function_name.as_str(), id.as_str())
}

} // verus!
