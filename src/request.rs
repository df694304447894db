//! Requests: how an object is read as one, and how one is written out.
use vstd::prelude::*;

use crate::json::{
    id_string, id_text, json_accepts, json_document, json_model, json_printed, reads_envelope, Json, json_null, json_quoted, parse_json, print_json, quote_json,
    Envelope,
};
use crate::parse::{body_document, found_json_body, generate_request_headers, put_bytes, request_head_text, split_bytes};
use crate::response::{Error, ErrorModel};
use serde_json::Value;
use vstd::utf8::encode_utf8;

verus! {

/// A JSON-RPC 2.0 request. Its method is never empty.
#[derive(Debug, Clone)]
pub struct Request {
    jsonrpc: String,
    method: String,
    id: String,
    params: Value,
}

pub struct RequestModel {
    pub method: Seq<char>,
    pub id: Seq<char>,
    pub params: Value,
}

impl View for Request {
    type V = RequestModel;

    closed spec fn view(&self) -> RequestModel {
        RequestModel { method: self.method@, id: self.id@, params: self.params }
    }
}

/// A request or an error, as models.
pub open spec fn request_outcome(r: Result<Request, Error>) -> Result<RequestModel, ErrorModel> {
    match r {
        Ok(x) => Ok(x@),
        Err(e) => Err(e@),
    }
}

/// Why an object is no request, if it is none: a `result` or `error` member
/// marks a response; a missing, non-string or empty `method` is not found.
pub open spec fn request_error(e: Envelope) -> Option<ErrorModel> {
    let id = id_text(e.id);
    if e.result is Some || e.error is Some {
        Some(ErrorModel::InvalidRequest(""@, id))
    } else {
        match e.method {
            Some(m) => if m@.len() > 0 {
                None
            } else {
                Some(ErrorModel::MethodNotFound(""@, id))
            },
            None => Some(ErrorModel::MethodNotFound(""@, id)),
        }
    }
}

/// The request read from an object that is one: its method, its id, and its
/// `params` member where there is one, JSON null where there is none.
pub open spec fn request_fields(e: Envelope, q: RequestModel) -> bool {
    &&& e.method matches Some(m) && q.method == m@
    &&& q.id == id_text(e.id)
    &&& e.params matches Some(p) ==> q.params == p
    &&& e.params is None ==> json_model(q.params) == Json::Null
}

/// How an object reads as a request.
pub open spec fn request_of(e: Envelope, r: Result<RequestModel, ErrorModel>) -> bool {
    match request_error(e) {
        Some(err) => r == Err::<RequestModel, ErrorModel>(err),
        None => r matches Ok(q) && request_fields(e, q),
    }
}

/// `{"jsonrpc":"2.0","method":..,"id":..,"params":..}`
pub open spec fn request_body_text(method: Seq<char>, id: Seq<char>, params: Seq<u8>) -> Seq<u8> {
    encode_utf8("{\"jsonrpc\":\"2.0\",\"method\":"@) + json_quoted(method) + encode_utf8(",\"id\":"@)
        + json_quoted(id) + encode_utf8(",\"params\":"@) + params + encode_utf8("}"@)
}

/// A request body framed for the wire.
pub open spec fn request_frame(body: Seq<u8>) -> Seq<u8> {
    request_head_text("Hyperdrive_RPC_Request"@, body.len()) + body
}

impl Request {
    pub closed spec fn wf(&self) -> bool {
        self.jsonrpc@ == "2.0"@ && self.method@.len() > 0
    }

    pub fn new(method: String, id: String, params: Value) -> (r: Self)
        requires
            method@.len() > 0,
        ensures
            r.wf(),
            r@ == (RequestModel { method: method@, id: id@, params }),
    {
        let jsonrpc = "2.0".to_owned();
        Request { jsonrpc, method, id, params }
    }

    /// Reads an object, already taken apart, as a request.
    pub fn from_envelope(e: &Envelope) -> (r: Result<Self, Error>)
        ensures
            request_of(*e, request_outcome(r)),
            r matches Ok(q) ==> q.wf(),
    {
        let id = id_string(&e.id);
        if e.result.is_some() || e.error.is_some() {
            return Err(Error::InvalidRequest("".to_owned(), id));
        }
        match &e.method {
            Some(method) => {
                if method.as_str().is_empty() {
                    return Err(Error::MethodNotFound("".to_owned(), id));
                }
                let params = match &e.params {
                    Some(p) => p.clone(),
                    None => json_null(),
                };
                Ok(Request::new(method.clone(), id, params))
            },
            None => Err(Error::MethodNotFound("".to_owned(), id)),
        }
    }
    /// Reads a JSON value as a request.
    pub fn parse_from_json(value: Value) -> (r: Result<Self, Error>)
        ensures
            exists|e: Envelope| reads_envelope(json_model(value), e) && request_of(e, request_outcome(r)),
            r matches Ok(q) ==> q.wf(),
    {
        let e = Envelope::read(&value);
        Request::from_envelope(&e)
    }

    /// Reads a whole HTTP message as a request: the body after the first
    /// blank line, as JSON.
    pub fn parse(bytes: &[u8]) -> (r: Result<Self, Error>)
        ensures
            !found_json_body(bytes@) ==> request_outcome(r) == Err::<RequestModel, ErrorModel>(
                ErrorModel::ParseError(None),
            ),
            found_json_body(bytes@) ==> exists|j: Json, e: Envelope|
                body_document(bytes@, j) && reads_envelope(j, e) && request_of(e, request_outcome(r)),
            r matches Ok(q) ==> q.wf(),
    {
        match split_bytes(bytes) {
            Ok(value) => Request::parse_from_json(value),
            Err(e) => Err(e),
        }
    }

    /// Reads a JSON body as a request; text that is no JSON is a parse error.
    pub fn parse_from_json_bytes(bytes: &[u8]) -> (r: Result<Self, Error>)
        ensures
            !json_accepts(bytes@) ==> request_outcome(r) == Err::<RequestModel, ErrorModel>(
                ErrorModel::ParseError(None),
            ),
            json_document(bytes@) matches Some(j) ==> exists|e: Envelope| reads_envelope(j, e) && request_of(e, request_outcome(r)),
            r matches Ok(q) ==> q.wf(),
    {
        match parse_json(bytes) {
            Some(value) => Request::parse_from_json(value),
            None => Err(Error::ParseError(None)),
        }
    }

    /// The JSON body of this request, `params` printed by serde_json.
    pub fn to_json(&self) -> (r: Vec<u8>)
        ensures
            r@ == request_body_text(self@.method, self@.id, json_printed(json_model(self@.params))),
    {
        let mut out: Vec<u8> = Vec::new();
        put_bytes(&mut out, "{\"jsonrpc\":\"2.0\",\"method\":".as_bytes());
        let method = quote_json(self.method.as_str());
        put_bytes(&mut out, method.as_slice());
        put_bytes(&mut out, ",\"id\":".as_bytes());
        let id = quote_json(self.id.as_str());
        put_bytes(&mut out, id.as_slice());
        put_bytes(&mut out, ",\"params\":".as_bytes());
        let params = print_json(&self.params);
        put_bytes(&mut out, params.as_slice());
        put_bytes(&mut out, "}".as_bytes());
        out
    }

    /// The request framed for the wire: the head, whose `Content-Length` is
    /// the body's length, then the body.
    pub fn deparse(&self) -> (r: Vec<u8>)
        ensures
            r@ == request_frame(
                request_body_text(self@.method, self@.id, json_printed(json_model(self@.params))),
            ),
    {
        let body = self.to_json();
        let mut out = generate_request_headers("Hyperdrive_RPC_Request".to_owned(), body.len());
        put_bytes(&mut out, body.as_slice());
        out
    }

    pub fn method(&self) -> (r: &String)
        ensures
            r@ == self@.method,
    {
        &self.method
    }

    pub fn params(&self) -> (r: &Value)
        ensures
            *r == self@.params,
    {
        &self.params
    }

    pub fn id(&self) -> (r: &String)
        ensures
            r@ == self@.id,
    {
        &self.id
    }
}

/// An object that carries a `result` is never read as a request, whatever
/// else it holds: it is an invalid request.
pub proof fn lemma_result_is_no_request(e: Envelope)
    requires
        e.method is Some,
        e.result is Some,
    ensures
        forall|r: Result<RequestModel, ErrorModel>|
            request_of(e, r) <==> r == Err::<RequestModel, ErrorModel>(
                ErrorModel::InvalidRequest(""@, id_text(e.id)),
            ),
{
}

} // verus!
