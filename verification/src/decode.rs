use crate::json::{json_parse, Json, JsonValue};
use crate::sanitize::{sanitize, sanitize_json};
use crate::types::{optional, JsonRpcResponse, ResponseView, PARSE_ERROR};
use vstd::prelude::*;
use vstd::string::*;

verus! {

/// A strict decoder of text together with the value that stands in where
/// the text cannot be decoded, not even after repair.
pub trait StrictDecoder {
    /// What is decoded.
    type Output: View;

    /// What strict decoding makes of `text`: the content of a value, or the
    /// text of an error.
    spec fn strict_outcome(&self, text: Seq<char>) -> Result<<Self::Output as View>::V, Seq<char>>;

    /// The content of the value that stands in for the undecodable text
    /// `raw`, given the text of the last error.
    spec fn fallback_outcome(&self, raw: Seq<char>, error: Seq<char>) -> <Self::Output as View>::V;

    /// Decodes `text` strictly.
    fn strict_decode(&self, text: &str) -> (r: Result<Self::Output, String>)
        ensures
            match r {
                Ok(value) => self.strict_outcome(text@) == Ok::<_, Seq<char>>(value@),
                Err(error) => self.strict_outcome(text@) == Err::<<Self::Output as View>::V, _>(
                    error@,
                ),
            },
    ;

    /// Makes the value that stands in for `raw`. Never fails.
    fn fallback(&self, raw: &str, error: String) -> (r: Self::Output)
        ensures
            r@ == self.fallback_outcome(raw@, error@),
    ;
}

/// What tolerant decoding makes of `raw`: what strict decoding makes of it;
/// where that fails, what strict decoding makes of the repaired text; where
/// that fails too, the fallback for `raw` and the second error.
pub open spec fn tolerant<D: StrictDecoder>(decoder: D, raw: Seq<char>) -> <D::Output as View>::V {
    match decoder.strict_outcome(raw) {
        Ok(value) => value,
        Err(_) => match decoder.strict_outcome(sanitize(raw)) {
            Ok(value) => value,
            Err(error) => decoder.fallback_outcome(raw, error),
        },
    }
}

/// Decodes `raw` tolerantly: strictly first, then strictly after repair,
/// then by the fallback. The repair is not computed where the first attempt
/// succeeds.
pub fn decode<D: StrictDecoder>(decoder: &D, raw: &str) -> (r: D::Output)
    ensures
        r@ == tolerant(*decoder, raw@),
{
    match decoder.strict_decode(raw) {
        Ok(value) => value,
        Err(_) => {
            let repaired = sanitize_json(raw);
            match decoder.strict_decode(repaired.as_str()) {
                Ok(value) => value,
                Err(error) => decoder.fallback(raw, error),
            }
        },
    }
}

/// Text that strict decoding accepts is decoded as it is: what the repair
/// would make of it has no part in the outcome.
pub proof fn lemma_strict_success_stands<D: StrictDecoder>(decoder: D, raw: Seq<char>)
    requires
        decoder.strict_outcome(raw) is Ok,
    ensures
        decoder.strict_outcome(raw) == Ok::<_, Seq<char>>(tolerant(decoder, raw)),
{
}

/// Text that strict decoding accepts only after the repair is decoded as
/// repaired.
pub proof fn lemma_repair_is_second<D: StrictDecoder>(decoder: D, raw: Seq<char>)
    requires
        decoder.strict_outcome(raw) is Err,
        decoder.strict_outcome(sanitize(raw)) is Ok,
    ensures
        decoder.strict_outcome(sanitize(raw)) == Ok::<_, Seq<char>>(tolerant(decoder, raw)),
{
}

/// Text that strict decoding rejects before and after the repair gives the
/// fallback for the text as it came and the error of the second attempt.
pub proof fn lemma_fallback_is_last<D: StrictDecoder>(decoder: D, raw: Seq<char>)
    requires
        decoder.strict_outcome(raw) is Err,
        decoder.strict_outcome(sanitize(raw)) is Err,
    ensures
        tolerant(decoder, raw) == decoder.fallback_outcome(
            raw,
            decoder.strict_outcome(sanitize(raw))->Err_0,
        ),
{
}

/// Decodes the text payload of a content block into a JSON document. A
/// payload that is no JSON, not even after repair, stands for itself as a
/// string.
pub struct PayloadDecoder;

impl StrictDecoder for PayloadDecoder {
    type Output = Json;

    open spec fn strict_outcome(&self, text: Seq<char>) -> Result<JsonValue, Seq<char>> {
        json_parse(text)
    }

    open spec fn fallback_outcome(&self, raw: Seq<char>, error: Seq<char>) -> JsonValue {
        JsonValue::String(raw)
    }

    fn strict_decode(&self, text: &str) -> (r: Result<Json, String>) {
        Json::parse(text)
    }

    fn fallback(&self, raw: &str, error: String) -> (r: Json) {
        Json::String(raw.to_owned())
    }
}

/// Decodes the body of an HTTP response into a response to the request
/// with the identifier `id`. A body that is no response, not even after
/// repair, gives an error response with the code [`PARSE_ERROR`].
pub struct ResponseDecoder {
    pub id: Option<Json>,
}

/// The message of the error response that stands for an undecodable body.
pub open spec fn invalid_json_message(error: Seq<char>) -> Seq<char> {
    "Invalid JSON from Thunderbird: "@ + error
}

impl StrictDecoder for ResponseDecoder {
    type Output = JsonRpcResponse;

    open spec fn strict_outcome(&self, text: Seq<char>) -> Result<ResponseView, Seq<char>> {
        match json_parse(text) {
            Ok(document) => match ResponseView::from_json(document) {
                Ok(response) => Ok(response),
                Err(fault) => Err(fault.text()),
            },
            Err(error) => Err(error),
        }
    }

    open spec fn fallback_outcome(&self, raw: Seq<char>, error: Seq<char>) -> ResponseView {
        ResponseView::failure(optional(self.id), PARSE_ERROR as int, invalid_json_message(error))
    }

    fn strict_decode(&self, text: &str) -> (r: Result<JsonRpcResponse, String>) {
        match Json::parse(text) {
            Ok(document) => match JsonRpcResponse::from_json(&document) {
                Ok(response) => Ok(response),
                Err(fault) => Err(fault.message()),
            },
            Err(error) => Err(error),
        }
    }

    fn fallback(&self, raw: &str, error: String) -> (r: JsonRpcResponse) {
        let mut message = "Invalid JSON from Thunderbird: ".to_owned();
        message.append(error.as_str());
        JsonRpcResponse::error(self.id.clone(), PARSE_ERROR, message)
    }
}

/// A body that is no response before and after the repair gives an error
/// response: it mirrors the identifier, holds no result, has the code
/// [`PARSE_ERROR`], and its message ends with the text of the failure of the
/// second attempt.
pub proof fn lemma_undecodable_body_is_parse_error(id: Option<Json>, body: Seq<char>)
    requires
        (ResponseDecoder { id }).strict_outcome(body) is Err,
        (ResponseDecoder { id }).strict_outcome(sanitize(body)) is Err,
    ensures
        ({
            let response = tolerant(ResponseDecoder { id }, body);
            let failure = (ResponseDecoder { id }).strict_outcome(sanitize(body))->Err_0;
            &&& response.id == optional(id)
            &&& response.result is None
            &&& response.error is Some
            &&& response.error->0.code == -32700
            &&& response.error->0.message == "Invalid JSON from Thunderbird: "@ + failure
        }),
{
}

/// Whatever the body, the decoded response never holds both a result and
/// an error.
pub proof fn lemma_decoded_response_is_exclusive(id: Option<Json>, body: Seq<char>)
    ensures
        tolerant(ResponseDecoder { id }, body).exclusive(),
{
}

} // verus!
