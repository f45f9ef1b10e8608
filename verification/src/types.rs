use crate::json::{member_contents, Json, JsonValue, Member, MemberValue, NumberValue};
use vstd::prelude::*;

verus! {

/// Code of an error response that stands for a body that is not valid JSON.
pub const PARSE_ERROR: i64 = -32700;

/// Code of an error response that stands for a failed exchange.
pub const INTERNAL_ERROR: i64 = -32603;

/// The content of an optional document.
pub open spec fn optional(value: Option<Json>) -> Option<JsonValue> {
    match value {
        Some(document) => Some(document@),
        None => None,
    }
}

/// A member value that is there for a reader: `null` counts as absent.
pub open spec fn present(value: Option<JsonValue>) -> Option<JsonValue> {
    match value {
        Some(JsonValue::Null) => None,
        other => other,
    }
}

/// The error object of a response.
#[derive(Debug, PartialEq, Eq)]
pub struct JsonRpcError {
    pub code: i64,
    pub message: String,
}

/// The mathematical content of a [`JsonRpcError`].
pub struct ErrorView {
    pub code: int,
    pub message: Seq<char>,
}

impl View for JsonRpcError {
    type V = ErrorView;

    open spec fn view(&self) -> ErrorView {
        ErrorView { code: self.code as int, message: self.message@ }
    }
}

impl ErrorView {
    /// The error that an object with an integer `code` and a string
    /// `message` describes.
    pub open spec fn from_json(document: JsonValue) -> Option<ErrorView> {
        match (document.member("code"@), document.member_text("message"@)) {
            (Some(JsonValue::Number(NumberValue::Integer(code))), Some(message)) => {
                if i64::MIN <= code <= i64::MAX {
                    Some(ErrorView { code, message })
                } else {
                    None
                }
            },
            _ => None,
        }
    }
}

/// A request to the peer.
#[derive(Debug, PartialEq, Eq)]
pub struct JsonRpcRequest {
    pub jsonrpc: String,
    pub id: Option<Json>,
    pub method: String,
    pub params: Option<Json>,
}

/// The mathematical content of a [`JsonRpcRequest`].
pub struct RequestView {
    pub jsonrpc: Seq<char>,
    pub id: Option<JsonValue>,
    pub method: Seq<char>,
    pub params: Option<JsonValue>,
}

impl View for JsonRpcRequest {
    type V = RequestView;

    open spec fn view(&self) -> RequestView {
        RequestView {
            jsonrpc: self.jsonrpc@,
            id: optional(self.id),
            method: self.method@,
            params: optional(self.params),
        }
    }
}

impl RequestView {
    /// The object that goes over the wire: `jsonrpc`, `id` (`null` where
    /// there is none), `method`, and `params` where there are any.
    pub open spec fn to_json(self) -> JsonValue {
        let head = seq![
            MemberValue { name: "jsonrpc"@, value: JsonValue::String(self.jsonrpc) },
            MemberValue {
                name: "id"@,
                value: match self.id {
                    Some(id) => id,
                    None => JsonValue::Null,
                },
            },
            MemberValue { name: "method"@, value: JsonValue::String(self.method) },
        ];
        match self.params {
            Some(params) => JsonValue::Object(head.push(MemberValue { name: "params"@, value: params })),
            None => JsonValue::Object(head),
        }
    }
}

/// A response of the peer, or one that stands for a failed exchange.
#[derive(Debug, PartialEq, Eq)]
pub struct JsonRpcResponse {
    pub jsonrpc: String,
    pub id: Option<Json>,
    pub result: Option<Json>,
    pub error: Option<JsonRpcError>,
}

/// The mathematical content of a [`JsonRpcResponse`].
pub struct ResponseView {
    pub jsonrpc: Seq<char>,
    pub id: Option<JsonValue>,
    pub result: Option<JsonValue>,
    pub error: Option<ErrorView>,
}

impl View for JsonRpcResponse {
    type V = ResponseView;

    open spec fn view(&self) -> ResponseView {
        ResponseView {
            jsonrpc: self.jsonrpc@,
            id: optional(self.id),
            result: optional(self.result),
            error: match self.error {
                Some(e) => Some(e@),
                None => None,
            },
        }
    }
}

/// Why a JSON document is no response.
#[derive(Debug, PartialEq, Eq, Clone, Copy)]
pub enum ShapeError {
    /// The document is not an object.
    NotAnObject,
    /// The object has no string member `jsonrpc`.
    MissingVersion,
    /// The member `error` is neither `null` nor an object with an integer
    /// `code` and a string `message`.
    MalformedError,
}

impl ShapeError {
    /// The text that describes this fault.
    pub open spec fn text(self) -> Seq<char> {
        match self {
            ShapeError::NotAnObject => "response is not a JSON object"@,
            ShapeError::MissingVersion => "response has no string member `jsonrpc`"@,
            ShapeError::MalformedError => "response has a malformed member `error`"@,
        }
    }

    /// The text that describes this fault.
    pub fn message(&self) -> (r: String)
        ensures
            r@ == self.text(),
    {
        match self {
            ShapeError::NotAnObject => "response is not a JSON object".to_owned(),
            ShapeError::MissingVersion => "response has no string member `jsonrpc`".to_owned(),
            ShapeError::MalformedError => "response has a malformed member `error`".to_owned(),
        }
    }
}

impl ResponseView {
    /// The response that carries the error `code` and `message` and no
    /// result.
    pub open spec fn failure(id: Option<JsonValue>, code: int, message: Seq<char>) -> ResponseView {
        ResponseView {
            jsonrpc: "2.0"@,
            id,
            result: None,
            error: Some(ErrorView { code, message }),
        }
    }

    /// A response never carries both a result and an error.
    pub open spec fn exclusive(self) -> bool {
        !(self.result is Some && self.error is Some)
    }

    /// The response that a JSON document describes. The document must be an
    /// object with a string member `jsonrpc`. The members `id`, `result` and
    /// `error` may be missing or `null`. An `error` that is there makes the
    /// response an error response, whatever `result` holds.
    pub open spec fn from_json(document: JsonValue) -> Result<ResponseView, ShapeError> {
        if !(document is Object) {
            Err(ShapeError::NotAnObject)
        } else {
            match document.member_text("jsonrpc"@) {
                Some(jsonrpc) => {
                    let id = present(document.member("id"@));
                    match present(document.member("error"@)) {
                        None => Ok(
                            ResponseView {
                                jsonrpc,
                                id,
                                result: present(document.member("result"@)),
                                error: None,
                            },
                        ),
                        Some(e) => match ErrorView::from_json(e) {
                            Some(error) => Ok(
                                ResponseView { jsonrpc, id, result: None, error: Some(error) },
                            ),
                            None => Err(ShapeError::MalformedError),
                        },
                    }
                },
                None => Err(ShapeError::MissingVersion),
            }
        }
    }
}

impl JsonRpcError {
    /// Reads an error object.
    pub fn from_json(document: &Json) -> (r: Option<JsonRpcError>)
        ensures
            match r {
                Some(e) => ErrorView::from_json(document@) == Some(e@),
                None => ErrorView::from_json(document@) is None,
            },
    {
        let code = match document.get("code") {
            Some(c) => match c.as_i64() {
                Some(code) => code,
                None => {
                    return None;
                },
            },
            None => {
                return None;
            },
        };
        match document.get_str("message") {
            Some(message) => Some(JsonRpcError { code, message: message.to_owned() }),
            None => None,
        }
    }
}

/// A copy of the member that is there and not `null`.
fn present_copy(member: Option<&Json>) -> (r: Option<Json>)
    ensures
        optional(r) == present(
            match member {
                Some(m) => Some(m@),
                None => None,
            },
        ),
{
    match member {
        Some(m) => {
            if m.is_null() {
                None
            } else {
                Some(m.clone())
            }
        },
        None => None,
    }
}

impl JsonRpcResponse {
    /// A response that carries an error and no result.
    pub fn error(id: Option<Json>, code: i64, message: String) -> (r: JsonRpcResponse)
        ensures
            r@ == ResponseView::failure(optional(id), code as int, message@),
    {
        JsonRpcResponse {
            jsonrpc: "2.0".to_owned(),
            id,
            result: None,
            error: Some(JsonRpcError { code, message }),
        }
    }

    /// Reads a response from a JSON document.
    pub fn from_json(document: &Json) -> (r: Result<JsonRpcResponse, ShapeError>)
        ensures
            match r {
                Ok(response) => ResponseView::from_json(document@) == Ok::<_, ShapeError>(
                    response@,
                ) && response@.exclusive(),
                Err(e) => ResponseView::from_json(document@) == Err::<ResponseView, _>(e),
            },
    {
        if !document.is_object() {
            return Err(ShapeError::NotAnObject);
        }
        let jsonrpc = match document.get_str("jsonrpc") {
            Some(version) => version.to_owned(),
            None => {
                return Err(ShapeError::MissingVersion);
            },
        };
        let id = present_copy(document.get("id"));
        match document.get("error") {
            Some(e) if !e.is_null() => match JsonRpcError::from_json(e) {
                Some(error) => Ok(JsonRpcResponse { jsonrpc, id, result: None, error: Some(error) }),
                None => Err(ShapeError::MalformedError),
            },
            _ => Ok(
                JsonRpcResponse {
                    jsonrpc,
                    id,
                    result: present_copy(document.get("result")),
                    error: None,
                },
            ),
        }
    }
}

impl JsonRpcRequest {
    /// The object that goes over the wire.
    pub fn to_json(&self) -> (r: Json)
        ensures
            r@ == self@.to_json(),
    {
        let mut members: Vec<Member> = Vec::new();
        members.push(Member { name: "jsonrpc".to_owned(), value: Json::String(self.jsonrpc.clone()) });
        members.push(
            Member {
                name: "id".to_owned(),
                value: match &self.id {
                    Some(id) => id.clone(),
                    None => Json::Null,
                },
            },
        );
        members.push(Member { name: "method".to_owned(), value: Json::String(self.method.clone()) });
        match &self.params {
            Some(params) => {
                members.push(Member { name: "params".to_owned(), value: params.clone() });
            },
            None => {},
        }
        assert(member_contents(members@) =~= self@.to_json()->Object_0);
        Json::object(members)
    }
}

} // verus!
