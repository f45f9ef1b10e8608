use crate::decode::{decode, tolerant, PayloadDecoder, ResponseDecoder};
use crate::json::{
    contents, json_parse, member_contents, Json, JsonNumber, JsonValue, Member, MemberValue,
    NumberValue,
};
use crate::sanitize::{is_control, lemma_sanitize_identity, sanitize};
use crate::text::same_text;
use crate::types::{
    optional, ErrorView, JsonRpcError, JsonRpcRequest, JsonRpcResponse, RequestView, ResponseView,
    INTERNAL_ERROR, PARSE_ERROR,
};
use vstd::prelude::*;
use vstd::string::*;

verus! {

/// Seconds after which an exchange with the peer is given up.
pub const REQUEST_TIMEOUT_SECS: u64 = 30;

/// How an exchange with the peer failed. Each case holds the text of the
/// underlying error.
#[derive(Debug, PartialEq, Eq)]
pub enum TransportError {
    /// The request could not be written as JSON.
    Serialize(String),
    /// No connection, a timeout, or another failure to deliver the request.
    Connect(String),
    /// The response arrived and its body could not be read.
    Read(String),
}

/// What an exchange with the peer brought: the body of the HTTP response,
/// whatever its status, or the failure.
#[derive(Debug, PartialEq, Eq)]
pub enum Reply {
    Body(String),
    Failed(TransportError),
}

/// The mathematical content of a [`Reply`].
pub enum ReplyView {
    Body(Seq<char>),
    SerializeFailed(Seq<char>),
    ConnectFailed(Seq<char>),
    ReadFailed(Seq<char>),
}

impl View for Reply {
    type V = ReplyView;

    open spec fn view(&self) -> ReplyView {
        match self {
            Reply::Body(body) => ReplyView::Body(body@),
            Reply::Failed(TransportError::Serialize(e)) => ReplyView::SerializeFailed(e@),
            Reply::Failed(TransportError::Connect(e)) => ReplyView::ConnectFailed(e@),
            Reply::Failed(TransportError::Read(e)) => ReplyView::ReadFailed(e@),
        }
    }
}

/// Why a tool call gave no value.
#[derive(Debug, PartialEq, Eq)]
pub enum CallError {
    /// The response carries an error: that of the peer, or the one that
    /// stands for a failed exchange or an undecodable body.
    Rpc(JsonRpcError),
    /// The response carries neither a result nor an error.
    NoResult,
}

/// The mathematical content of a [`CallError`].
pub enum CallErrorView {
    Rpc(ErrorView),
    NoResult,
}

impl View for CallError {
    type V = CallErrorView;

    open spec fn view(&self) -> CallErrorView {
        match self {
            CallError::Rpc(e) => CallErrorView::Rpc(e@),
            CallError::NoResult => CallErrorView::NoResult,
        }
    }
}

impl CallErrorView {
    /// The text that describes the failure to a user.
    pub open spec fn text(self) -> Seq<char> {
        match self {
            CallErrorView::Rpc(e) => e.message,
            CallErrorView::NoResult => "No result in response"@,
        }
    }
}

impl CallError {
    /// The text that describes the failure to a user: the message of the
    /// error, or `No result in response`.
    pub fn message(&self) -> (r: String)
        ensures
            r@ == self@.text(),
    {
        match self {
            CallError::Rpc(e) => e.message.clone(),
            CallError::NoResult => "No result in response".to_owned(),
        }
    }
}

/// The message of the response that stands for a request that could not be
/// written as JSON.
pub open spec fn serialize_failed_message(error: Seq<char>) -> Seq<char> {
    "Failed to serialize request: "@ + error
}

/// The advice that ends the message of every failure to reach the peer: the
/// peer must be running and reachable.
pub open spec fn reachability_advice() -> Seq<char> {
    ". Is Thunderbird running with the MCP extension?"@
}

/// The message of the response that stands for a request that could not be
/// delivered: what failed, then the advice.
pub open spec fn connect_failed_message(error: Seq<char>) -> Seq<char> {
    "Connection failed: "@ + error + reachability_advice()
}

/// The message of the response that stands for a body that could not be
/// read: what failed, then the advice.
pub open spec fn read_failed_message(error: Seq<char>) -> Seq<char> {
    "Failed to read response body: "@ + error + reachability_advice()
}

/// The response to a request with the identifier `id`, given what the
/// exchange brought: a body is decoded tolerantly, a failure becomes an
/// error response.
pub open spec fn response_to(id: Option<Json>, reply: ReplyView) -> ResponseView {
    match reply {
        ReplyView::Body(body) => tolerant(ResponseDecoder { id }, body),
        ReplyView::SerializeFailed(e) => ResponseView::failure(
            optional(id),
            PARSE_ERROR as int,
            serialize_failed_message(e),
        ),
        ReplyView::ConnectFailed(e) => ResponseView::failure(
            optional(id),
            INTERNAL_ERROR as int,
            connect_failed_message(e),
        ),
        ReplyView::ReadFailed(e) => ResponseView::failure(
            optional(id),
            INTERNAL_ERROR as int,
            read_failed_message(e),
        ),
    }
}

/// Whether `block` is a content block of kind `text`.
pub open spec fn is_text_block(block: JsonValue) -> bool {
    block.member_text("type"@) == Some("text"@)
}

/// The first of `blocks` that is of kind `text`.
pub open spec fn first_text_block(blocks: Seq<JsonValue>) -> Option<JsonValue>
    decreases blocks.len(),
{
    if blocks.len() == 0 {
        None
    } else if is_text_block(blocks[0]) {
        Some(blocks[0])
    } else {
        first_text_block(blocks.drop_first())
    }
}

/// The text payload inside a result: the string member `text` of the first
/// block of kind `text` in the array member `content`. Later blocks are not
/// looked at, whatever the first one holds.
pub open spec fn payload_text(result: JsonValue) -> Option<Seq<char>> {
    match result.member("content"@) {
        Some(JsonValue::Array(blocks)) => match first_text_block(blocks) {
            Some(block) => block.member_text("text"@),
            None => None,
        },
        _ => None,
    }
}

/// The answer inside a result: the tolerantly decoded text payload, or the
/// result itself where it holds no text payload.
pub open spec fn unwrapped(result: JsonValue) -> JsonValue {
    match payload_text(result) {
        Some(text) => tolerant(PayloadDecoder, text),
        None => result,
    }
}

/// What a tool call gives for a response: its error first, then the lack of a
/// result, then the answer inside the result.
pub open spec fn call_outcome(response: ResponseView) -> Result<JsonValue, CallErrorView> {
    match response.error {
        Some(e) => Err(CallErrorView::Rpc(e)),
        None => match response.result {
            Some(result) => Ok(unwrapped(result)),
            None => Err(CallErrorView::NoResult),
        },
    }
}

/// The parameters of a tool call: the object with the members `name` and
/// `arguments`.
pub open spec fn tool_params(name: Seq<char>, arguments: JsonValue) -> JsonValue {
    JsonValue::Object(
        seq![
            MemberValue { name: "name"@, value: JsonValue::String(name) },
            MemberValue { name: "arguments"@, value: arguments },
        ],
    )
}

/// The request that calls the tool `name` with `arguments`.
pub open spec fn tool_request_view(name: Seq<char>, arguments: JsonValue) -> RequestView {
    RequestView {
        jsonrpc: "2.0"@,
        id: Some(JsonValue::Number(NumberValue::Integer(1))),
        method: "tools/call"@,
        params: Some(tool_params(name, arguments)),
    }
}

/// Whatever the exchange brought, the response never holds both a result
/// and an error.
pub proof fn lemma_response_is_exclusive(id: Option<Json>, reply: ReplyView)
    ensures
        response_to(id, reply).exclusive(),
{
}

/// A failure to reach the peer, be it that the request was not delivered or
/// that the body of the response could not be read, gives an error response
/// that mirrors the identifier, holds no result, has the code
/// [`INTERNAL_ERROR`], and whose message ends with the advice that the peer
/// must be running and reachable.
pub proof fn lemma_transport_failure_advises(id: Option<Json>, reply: ReplyView)
    requires
        reply is ConnectFailed || reply is ReadFailed,
    ensures
        ({
            let response = response_to(id, reply);
            let advice = reachability_advice();
            &&& response.id == optional(id)
            &&& response.result is None
            &&& response.error is Some
            &&& response.error->0.code == -32603
            &&& response.error->0.message.len() >= advice.len()
            &&& response.error->0.message.skip(response.error->0.message.len() - advice.len())
                == advice
        }),
{
    let message = response_to(id, reply).error->0.message;
    let advice = reachability_advice();
    assert(message.skip(message.len() - advice.len()) =~= advice);
}

/// A request that could not be written as JSON gives an error response
/// with the code [`PARSE_ERROR`] that mirrors the identifier.
pub proof fn lemma_unwritten_request_is_parse_error(id: Option<Json>, error: Seq<char>)
    ensures
        response_to(id, ReplyView::SerializeFailed(error)) == ResponseView::failure(
            optional(id),
            -32700,
            "Failed to serialize request: "@ + error,
        ),
{
}

/// A body that parses to the JSON of a response is decoded to that
/// response as it came: what the repair would make of the body has no part
/// in it.
pub proof fn lemma_valid_body_is_its_response(id: Option<Json>, body: Seq<char>)
    requires
        json_parse(body) is Ok,
        ResponseView::from_json(json_parse(body)->Ok_0) is Ok,
    ensures
        response_to(id, ReplyView::Body(body)) == ResponseView::from_json(
            json_parse(body)->Ok_0,
        )->Ok_0,
{
}

/// A body that does not parse as it came, and after the repair parses to
/// the JSON of a response, is decoded to that response.
pub proof fn lemma_repaired_body_is_its_response(id: Option<Json>, body: Seq<char>)
    requires
        json_parse(body) is Err,
        json_parse(sanitize(body)) is Ok,
        ResponseView::from_json(json_parse(sanitize(body))->Ok_0) is Ok,
    ensures
        response_to(id, ReplyView::Body(body)) == ResponseView::from_json(
            json_parse(sanitize(body))->Ok_0,
        )->Ok_0,
{
}

/// The first block of kind `text` is the one that counts, whatever follows
/// it.
pub proof fn lemma_first_text_block_wins(blocks: Seq<JsonValue>, k: int)
    requires
        0 <= k < blocks.len(),
        forall|j: int| 0 <= j < k ==> !is_text_block(#[trigger] blocks[j]),
        is_text_block(blocks[k]),
    ensures
        first_text_block(blocks) == Some(blocks[k]),
    decreases k,
{
    if k > 0 {
        let rest = blocks.drop_first();
        assert forall|j: int| 0 <= j < k - 1 implies !is_text_block(#[trigger] rest[j]) by {
            assert(rest[j] == blocks[j + 1]);
        }
        lemma_first_text_block_wins(rest, k - 1);
    }
}

/// A text payload that is JSON is unwrapped to the document that it holds.
pub proof fn lemma_unwrap_json_payload(result: JsonValue, text: Seq<char>)
    requires
        payload_text(result) == Some(text),
        json_parse(text) is Ok,
    ensures
        unwrapped(result) == json_parse(text)->Ok_0,
{
}

/// A text payload that is no JSON, not even after repair, is unwrapped to
/// itself as a string, as it came.
pub proof fn lemma_unwrap_prose_payload(result: JsonValue, text: Seq<char>)
    requires
        payload_text(result) == Some(text),
        json_parse(text) is Err,
        json_parse(sanitize(text)) is Err,
    ensures
        unwrapped(result) == JsonValue::String(text),
{
}

/// A result without a text payload is unwrapped to itself.
pub proof fn lemma_unwrap_plain_result(result: JsonValue)
    requires
        payload_text(result) is None,
    ensures
        unwrapped(result) == result,
{
}

/// A tool call whose response holds a result with a text payload that is
/// JSON gives the document that the payload holds.
pub proof fn lemma_call_unwraps_json_payload(response: ResponseView, text: Seq<char>)
    requires
        response.error is None,
        response.result is Some,
        payload_text(response.result->0) == Some(text),
        json_parse(text) is Ok,
    ensures
        call_outcome(response) == Ok::<_, CallErrorView>(json_parse(text)->Ok_0),
{
}

/// A tool call whose response holds a result with a text payload that is
/// prose, that is, no JSON and free of control characters, gives the prose
/// as a string and does not fail: the repair leaves such a text as it is,
/// so the second attempt fails as the first did.
pub proof fn lemma_call_keeps_prose_payload(response: ResponseView, text: Seq<char>)
    requires
        response.error is None,
        response.result is Some,
        payload_text(response.result->0) == Some(text),
        forall|i: int| 0 <= i < text.len() ==> !is_control(#[trigger] text[i]),
        json_parse(text) is Err,
    ensures
        call_outcome(response) == Ok::<_, CallErrorView>(JsonValue::String(text)),
{
    lemma_sanitize_identity(text);
}

/// A tool call fails exactly where the response holds an error or no result
/// at all; the text payload never makes it fail.
pub proof fn lemma_call_fails_only_without_result(response: ResponseView)
    ensures
        call_outcome(response) is Ok <==> response.error is None && response.result is Some,
        response.error is Some ==> call_outcome(response) == Err::<JsonValue, _>(
            CallErrorView::Rpc(response.error->0),
        ),
{
}

/// The client's side of the exchange with the peer. It holds where the peer
/// is and how long an exchange may take, and decides what a reply means. The
/// exchange itself is the caller's.
pub struct ThunderbirdClient {
    url: String,
    timeout_secs: u64,
}

impl Default for ThunderbirdClient {
    fn default() -> (r: Self)
        ensures
            r.endpoint() == "http://localhost:8765/"@,
            r.timeout() == REQUEST_TIMEOUT_SECS,
    {
        ThunderbirdClient::new()
    }
}

impl ThunderbirdClient {
    /// Where requests go.
    pub closed spec fn endpoint(&self) -> Seq<char> {
        self.url@
    }

    /// Seconds after which an exchange is given up.
    pub closed spec fn timeout(&self) -> u64 {
        self.timeout_secs
    }

    /// The client of the peer on this machine.
    pub fn new() -> (r: Self)
        ensures
            r.endpoint() == "http://localhost:8765/"@,
            r.timeout() == REQUEST_TIMEOUT_SECS,
    {
        ThunderbirdClient {
            url: "http://localhost:8765/".to_owned(),
            timeout_secs: REQUEST_TIMEOUT_SECS,
        }
    }

    /// Where requests go.
    pub fn url(&self) -> (r: &str)
        ensures
            r@ == self.endpoint(),
    {
        self.url.as_str()
    }

    /// Seconds after which an exchange is given up.
    pub fn timeout_secs(&self) -> (r: u64)
        ensures
            r == self.timeout(),
    {
        self.timeout_secs
    }

    /// The request that calls the tool `name` with `arguments`.
    pub fn tool_request(name: &str, arguments: Json) -> (r: JsonRpcRequest)
        ensures
            r@ == tool_request_view(name@, arguments@),
    {
        let mut members: Vec<Member> = Vec::new();
        members.push(Member { name: "name".to_owned(), value: Json::String(name.to_owned()) });
        members.push(Member { name: "arguments".to_owned(), value: arguments });
        assert(member_contents(members@) =~= tool_params(name@, arguments@)->Object_0);
        let params = Json::object(members);
        JsonRpcRequest {
            jsonrpc: "2.0".to_owned(),
            id: Some(Json::Number(JsonNumber::Integer(1))),
            method: "tools/call".to_owned(),
            params: Some(params),
        }
    }

    /// The response to `request`, given what the exchange brought. A body
    /// is decoded as it is, then after repair; a body that is no response
    /// even then, and a failed exchange, give an error response that
    /// mirrors the identifier of the request. Where the peer was not
    /// reached, the message of that response advises that it must be running
    /// and reachable.
    pub fn send_raw(&self, request: &JsonRpcRequest, reply: Reply) -> (r: JsonRpcResponse)
        ensures
            r@ == response_to(request.id, reply@),
            r@.exclusive(),
    {
        proof {
            lemma_response_is_exclusive(request.id, reply@);
        }
        match reply {
            Reply::Body(body) => {
                let decoder = ResponseDecoder { id: request.id.clone() };
                decode(&decoder, body.as_str())
            },
            Reply::Failed(TransportError::Serialize(e)) => {
                let mut message = "Failed to serialize request: ".to_owned();
                message.append(e.as_str());
                JsonRpcResponse::error(request.id.clone(), PARSE_ERROR, message)
            },
            Reply::Failed(TransportError::Connect(e)) => {
                let mut message = "Connection failed: ".to_owned();
                message.append(e.as_str());
                message.append(". Is Thunderbird running with the MCP extension?");
                JsonRpcResponse::error(request.id.clone(), INTERNAL_ERROR, message)
            },
            Reply::Failed(TransportError::Read(e)) => {
                let mut message = "Failed to read response body: ".to_owned();
                message.append(e.as_str());
                message.append(". Is Thunderbird running with the MCP extension?");
                JsonRpcResponse::error(request.id.clone(), INTERNAL_ERROR, message)
            },
        }
    }

    /// The outcome of the tool call that `request` asks for, given what the
    /// exchange brought: the error of the response, or the answer inside its
    /// result. A failed exchange and an undecodable body come out as errors
    /// too, since [`ThunderbirdClient::send_raw`] turns them into error
    /// responses.
    pub fn call_tool(&self, request: &JsonRpcRequest, reply: Reply) -> (r: Result<Json, CallError>)
        ensures
            match r {
                Ok(value) => call_outcome(response_to(request.id, reply@)) == Ok::<
                    _,
                    CallErrorView,
                >(value@),
                Err(e) => call_outcome(response_to(request.id, reply@)) == Err::<JsonValue, _>(
                    e@,
                ),
            },
    {
        finish_call(self.send_raw(request, reply))
    }
}

/// What a tool call gives for a response.
pub fn finish_call(response: JsonRpcResponse) -> (r: Result<Json, CallError>)
    ensures
        match r {
            Ok(value) => call_outcome(response@) == Ok::<_, CallErrorView>(value@),
            Err(e) => call_outcome(response@) == Err::<JsonValue, _>(e@),
        },
{
    let JsonRpcResponse { jsonrpc: _, id: _, result, error } = response;
    match error {
        Some(e) => Err(CallError::Rpc(e)),
        None => match result {
            Some(result) => Ok(unwrap_result(result)),
            None => Err(CallError::NoResult),
        },
    }
}

/// The text payload inside a result.
pub fn find_payload(result: &Json) -> (r: Option<&str>)
    ensures
        match r {
            Some(text) => payload_text(result@) == Some(text@),
            None => payload_text(result@) is None,
        },
{
    let blocks = match result.get("content") {
        Some(content) => match content.as_array() {
            Some(blocks) => blocks,
            None => {
                return None;
            },
        },
        None => {
            return None;
        },
    };
    let ghost all = contents(blocks@);
    assert(all.skip(0) =~= all);
    let mut i: usize = 0;
    while i < blocks.len()
        invariant
            i <= blocks.len(),
            all == contents(blocks@),
            result@.member("content"@) == Some(JsonValue::Array(all)),
            first_text_block(all) == first_text_block(all.skip(i as int)),
        decreases blocks.len() - i,
    {
        let is_text = match blocks[i].get_str("type") {
            Some(kind) => same_text(kind, "text"),
            None => false,
        };
        assert(all.skip(i as int)[0] == blocks@[i as int]@);
        assert(is_text == is_text_block(blocks@[i as int]@));
        if is_text {
            return blocks[i].get_str("text");
        }
        assert(all.skip(i as int).drop_first() =~= all.skip(i + 1));
        i += 1;
    }
    None
}

/// The answer inside a result: the tolerantly decoded text payload, or the
/// result itself where it holds no text payload.
pub fn unwrap_result(result: Json) -> (r: Json)
    ensures
        r@ == unwrapped(result@),
{
    let decoded = match find_payload(&result) {
        Some(text) => Some(decode(&PayloadDecoder, text)),
        None => None,
    };
    match decoded {
        Some(value) => value,
        None => result,
    }
}

} // verus!
