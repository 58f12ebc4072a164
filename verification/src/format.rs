//! Names for what is shown to the user.

use crate::json::{Json, JsonView};
use vstd::prelude::*;
use vstd::string::*;

verus! {

pub open spec fn json_type(v: JsonView) -> Seq<char> {
    match v {
        JsonView::Null => "null"@,
        JsonView::Bool(_) => "boolean"@,
        JsonView::Number(_) => "number"@,
        JsonView::Text(_) => "string"@,
        JsonView::Array(_) => "array"@,
        JsonView::Object(_) => "object"@,
    }
}

/// The name of a JSON value's type in one word.
pub fn json_type_name(v: &Json) -> (r: &'static str)
    ensures
        r@ == json_type(v@),
{
    match v {
        Json::Null => "null",
        Json::Bool(_) => "boolean",
        Json::Number(_) => "number",
        Json::Text(_) => "string",
        Json::Array(_) => "array",
        Json::Object(_) => "object",
    }
}

/// Each kind of value has a name of its own, which says nothing of what the
/// value holds.
pub proof fn law_kinds_have_names(v: JsonView)
    ensures
        v is Null ==> json_type(v) == "null"@,
        v is Bool ==> json_type(v) == "boolean"@,
        v is Number ==> json_type(v) == "number"@,
        v is Text ==> json_type(v) == "string"@,
        v is Array ==> json_type(v) == "array"@,
        v is Object ==> json_type(v) == "object"@,
{
}

} // verus!
