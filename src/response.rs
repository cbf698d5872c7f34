//! The response envelope: `{ code, data?, msg? }`.

use crate::json::{JsonModel, JsonValue};
use vstd::prelude::*;

verus! {

/// A response: a status code, and optionally data and a message.
#[derive(Debug)]
pub struct ApiResponse<T> {
    pub code: i32,
    pub data: Option<T>,
    pub msg: Option<String>,
}

impl<T> ApiResponse<T> {
    /// A success carrying data.
    pub fn success(data: T) -> (r: Self)
        ensures
            r.code == 200,
            r.data == Some(data),
            r.msg is None,
    {
        ApiResponse { code: 200, data: Some(data), msg: None }
    }
}

impl ApiResponse<JsonValue> {
    /// A failure carrying a message.
    pub fn error(msg: &str) -> (r: Self)
        ensures
            r.code == 500,
            r.data is None,
            r.msg matches Some(m) && m@ == msg@,
    {
        ApiResponse { code: 500, data: None, msg: Some(msg.to_string()) }
    }

    /// A success carrying null.
    pub fn success_empty() -> (r: Self)
        ensures
            r.code == 200,
            r.data matches Some(v) && v@ == JsonModel::Null,
            r.msg is None,
    {
        ApiResponse { code: 200, data: Some(JsonValue::Null), msg: None }
    }
}

/// The query of an identifier-based lookup: an optional identifier token.
#[derive(Debug)]
pub struct IdQuery {
    pub id: Option<String>,
}

} // verus!
