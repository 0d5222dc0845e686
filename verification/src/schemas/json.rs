//! A plain model of JSON values.

use crate::utils::IsEmpty;
use vstd::prelude::*;

verus! {

/// A JSON value. A number is kept as the text it is written with.
#[derive(Debug)]
pub enum JsonValue {
    Null,
    Bool(bool),
    Number(String),
    Text(String),
    Array(Vec<JsonValue>),
    Object(Vec<(String, JsonValue)>),
}

impl IsEmpty for JsonValue {
    /// `null`, the empty array, the empty string and the empty object are
    /// empty; booleans and numbers never are.
    open spec fn is_empty_spec(&self) -> bool {
        match self {
            JsonValue::Null => true,
            JsonValue::Array(a) => a@.len() == 0,
            JsonValue::Text(s) => s@.len() == 0,
            JsonValue::Object(o) => o@.len() == 0,
            _ => false,
        }
    }

    fn is_empty(&self) -> (r: bool) {
        match self {
            JsonValue::Null => true,
            JsonValue::Array(a) => a.len() == 0,
            JsonValue::Text(s) => s.as_str().is_empty(),
            JsonValue::Object(o) => o.len() == 0,
            _ => false,
        }
    }
}

} // verus!
