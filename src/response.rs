//! Responses, the protocol's error set, and how both are written out.
use vstd::prelude::*;

use crate::decimal::{render_signed, signed_text};
use crate::json::{
    id_string, id_text, json_accepts, json_document, json_model, json_printed, reads_envelope, Json, json_quoted, parse_json, print_json, quote_json, Envelope, ErrorFields,
};
use crate::parse::{
    body_document, found_json_body, generate_response_headers, put_bytes, response_head_text, split_bytes,
};
use serde_json::Value;
use vstd::utf8::encode_utf8;

verus! {

/// A JSON-RPC response; it echoes the method of the request it answers.
#[derive(Debug, Clone)]
pub struct Response {
    jsonrpc: String,
    method: String,
    id: String,
    result: Value,
}

pub struct ResponseModel {
    pub method: Seq<char>,
    pub id: Seq<char>,
    pub result: Value,
}

impl View for Response {
    type V = ResponseModel;

    closed spec fn view(&self) -> ResponseModel {
        ResponseModel { method: self.method@, id: self.id@, result: self.result }
    }
}

/// The protocol-level errors. Each carries the method and id it concerns,
/// where they are known.
#[derive(Debug, Clone)]
pub enum Error {
    ParseError(Option<(String, String)>),
    MethodNotFound(String, String),
    InvalidRequest(String, String),
    InvalidResponse(String, String),
    ErrorResponse(String, String, i64, String),
}

pub enum ErrorModel {
    ParseError(Option<(Seq<char>, Seq<char>)>),
    MethodNotFound(Seq<char>, Seq<char>),
    InvalidRequest(Seq<char>, Seq<char>),
    InvalidResponse(Seq<char>, Seq<char>),
    ErrorResponse(Seq<char>, Seq<char>, i64, Seq<char>),
}

impl View for Error {
    type V = ErrorModel;

    open spec fn view(&self) -> ErrorModel {
        match self {
            Error::ParseError(None) => ErrorModel::ParseError(None),
            Error::ParseError(Some((m, i))) => ErrorModel::ParseError(Some((m@, i@))),
            Error::MethodNotFound(m, i) => ErrorModel::MethodNotFound(m@, i@),
            Error::InvalidRequest(m, i) => ErrorModel::InvalidRequest(m@, i@),
            Error::InvalidResponse(m, i) => ErrorModel::InvalidResponse(m@, i@),
            Error::ErrorResponse(m, i, c, s) => ErrorModel::ErrorResponse(m@, i@, *c, s@),
        }
    }
}

/// The JSON-RPC code of each error.
pub open spec fn error_code(e: ErrorModel) -> i64 {
    match e {
        ErrorModel::ParseError(_) => -32700i64,
        ErrorModel::MethodNotFound(_, _) => -32601i64,
        ErrorModel::InvalidRequest(_, _) => -32600i64,
        ErrorModel::InvalidResponse(_, _) => -32600i64,
        ErrorModel::ErrorResponse(_, _, code, _) => code,
    }
}

/// The JSON-RPC message of each error.
pub open spec fn error_message(e: ErrorModel) -> Seq<char> {
    match e {
        ErrorModel::ParseError(_) => "Parse error"@,
        ErrorModel::MethodNotFound(_, _) => "Method not found"@,
        ErrorModel::InvalidRequest(_, _) => "Invalid Request"@,
        ErrorModel::InvalidResponse(_, _) => "Invalid Response"@,
        ErrorModel::ErrorResponse(_, _, _, message) => message,
    }
}

/// The method and id an error concerns, when known.
pub open spec fn error_context(e: ErrorModel) -> Option<(Seq<char>, Seq<char>)> {
    match e {
        ErrorModel::ParseError(c) => c,
        ErrorModel::MethodNotFound(m, i) => Some((m, i)),
        ErrorModel::InvalidRequest(m, i) => Some((m, i)),
        ErrorModel::InvalidResponse(m, i) => Some((m, i)),
        ErrorModel::ErrorResponse(m, i, _, _) => Some((m, i)),
    }
}

/// `{"code":..,"message":..}`
pub open spec fn error_value_text(code: i64, message: Seq<char>) -> Seq<u8> {
    encode_utf8("{\"code\":"@) + signed_text(code as int) + encode_utf8(",\"message\":"@)
        + json_quoted(message) + encode_utf8("}"@)
}

/// `{"jsonrpc":"2.0","error":..}`
pub open spec fn error_only_text(error: Seq<u8>) -> Seq<u8> {
    encode_utf8("{\"jsonrpc\":\"2.0\",\"error\":"@) + error + encode_utf8("}"@)
}

/// `{"jsonrpc":"2.0","method":..,"id":..,"error":..}`
pub open spec fn error_response_text(method: Seq<char>, id: Seq<char>, error: Seq<u8>) -> Seq<u8> {
    encode_utf8("{\"jsonrpc\":\"2.0\",\"method\":"@) + json_quoted(method) + encode_utf8(",\"id\":"@)
        + json_quoted(id) + encode_utf8(",\"error\":"@) + error + encode_utf8("}"@)
}

/// The JSON body of an error: bare when no method and id are known.
pub open spec fn error_body_text(e: ErrorModel) -> Seq<u8> {
    let value = error_value_text(error_code(e), error_message(e));
    match error_context(e) {
        None => error_only_text(value),
        Some((m, i)) => error_response_text(m, i, value),
    }
}

/// `{"jsonrpc":"2.0","method":..,"id":..,"result":..}`
pub open spec fn response_body_text(method: Seq<char>, id: Seq<char>, result: Seq<u8>) -> Seq<u8> {
    encode_utf8("{\"jsonrpc\":\"2.0\",\"method\":"@) + json_quoted(method) + encode_utf8(",\"id\":"@)
        + json_quoted(id) + encode_utf8(",\"result\":"@) + result + encode_utf8("}"@)
}

/// A body framed for the wire: the response head, then the body.
pub open spec fn response_frame(body: Seq<u8>) -> Seq<u8> {
    response_head_text(body.len()) + body
}

/// A response or an error, as models.
pub open spec fn response_outcome(r: Result<Response, Error>) -> Result<ResponseModel, ErrorModel> {
    match r {
        Ok(x) => Ok(x@),
        Err(e) => Err(e@),
    }
}

/// How an object reads as a response: it needs a string `method`; a `result`
/// makes it a response, an `error` an error reply (code -32600 and message
/// "Invalid Request" where they are missing), and neither is invalid.
pub open spec fn response_of(e: Envelope) -> Result<ResponseModel, ErrorModel> {
    let id = id_text(e.id);
    match e.method {
        None => Err(ErrorModel::MethodNotFound(""@, id)),
        Some(m) => match e.result {
            Some(v) => Ok(ResponseModel { method: m@, id, result: v }),
            None => match e.error {
                Some(f) => Err(
                    ErrorModel::ErrorResponse(
                        m@,
                        id,
                        match f.code {
                            Some(c) => c,
                            None => -32600i64,
                        },
                        match f.message {
                            Some(t) => t@,
                            None => "Invalid Request"@,
                        },
                    ),
                ),
                None => Err(ErrorModel::InvalidResponse(m@, id)),
            },
        },
    }
}

impl Response {
    /// The protocol version is always 2.0.
    pub closed spec fn wf(&self) -> bool {
        self.jsonrpc@ == "2.0"@
    }

    pub fn new(method: String, id: String, result: Value) -> (r: Self)
        ensures
            r.wf(),
            r@ == (ResponseModel { method: method@, id: id@, result }),
    {
        let jsonrpc = "2.0".to_owned();
        Response { jsonrpc, method, id, result }
    }

    /// Reads an object, already taken apart, as a response.
    pub fn from_envelope(e: &Envelope) -> (r: Result<Self, Error>)
        ensures
            response_outcome(r) == response_of(*e),
            r matches Ok(s) ==> s.wf(),
    {
        let id = id_string(&e.id);
        match &e.method {
            None => Err(Error::MethodNotFound("".to_owned(), id)),
            Some(method) => match &e.result {
                Some(result) => Ok(Response::new(method.clone(), id, result.clone())),
                None => match &e.error {
                    Some(ErrorFields { code, message }) => {
                        let code = match code {
                            Some(c) => *c,
                            None => -32600i64,
                        };
                        let message = match message {
                            Some(t) => t.clone(),
                            None => "Invalid Request".to_owned(),
                        };
                        Err(Error::ErrorResponse(method.clone(), id, code, message))
                    },
                    None => Err(Error::InvalidResponse(method.clone(), id)),
                },
            },
        }
    }

    /// Reads a JSON value as a response.
    pub fn parse_from_json(value: Value) -> (r: Result<Self, Error>)
        ensures
            exists|e: Envelope| reads_envelope(json_model(value), e) && response_outcome(r) == response_of(e),
            r matches Ok(s) ==> s.wf(),
    {
        Response::from_envelope(&Envelope::read(&value))
    }

    /// Reads a JSON body as a response; text that is no JSON is a parse error.
    pub fn parse_from_json_bytes(bytes: &[u8]) -> (r: Result<Self, Error>)
        ensures
            !json_accepts(bytes@) ==> response_outcome(r) == Err::<ResponseModel, ErrorModel>(
                ErrorModel::ParseError(None),
            ),
            json_document(bytes@) matches Some(j) ==> exists|e: Envelope| reads_envelope(j, e) && response_outcome(r) == response_of(e),
            r matches Ok(s) ==> s.wf(),
    {
        match parse_json(bytes) {
            Some(value) => Response::parse_from_json(value),
            None => Err(Error::ParseError(None)),
        }
    }

    /// Reads a whole HTTP message as a response: the body after the first
    /// blank line, as JSON.
    pub fn parse(bytes: &[u8]) -> (r: Result<Self, Error>)
        ensures
            !found_json_body(bytes@) ==> response_outcome(r) == Err::<ResponseModel, ErrorModel>(
                ErrorModel::ParseError(None),
            ),
            found_json_body(bytes@) ==> exists|j: Json, e: Envelope|
                body_document(bytes@, j) && reads_envelope(j, e) && response_outcome(r) == response_of(e),
            r matches Ok(s) ==> s.wf(),
    {
        match split_bytes(bytes) {
            Ok(value) => Response::parse_from_json(value),
            Err(e) => Err(e),
        }
    }

    /// The JSON body of this response, `result` printed by serde_json.
    pub fn to_json(&self) -> (r: Vec<u8>)
        ensures
            r@ == response_body_text(self@.method, self@.id, json_printed(json_model(self@.result))),
    {
        let mut out: Vec<u8> = Vec::new();
        put_bytes(&mut out, "{\"jsonrpc\":\"2.0\",\"method\":".as_bytes());
        let method = quote_json(self.method.as_str());
        put_bytes(&mut out, method.as_slice());
        put_bytes(&mut out, ",\"id\":".as_bytes());
        let id = quote_json(self.id.as_str());
        put_bytes(&mut out, id.as_slice());
        put_bytes(&mut out, ",\"result\":".as_bytes());
        let result = print_json(&self.result);
        put_bytes(&mut out, result.as_slice());
        put_bytes(&mut out, "}".as_bytes());
        out
    }

    /// The response framed for the wire: the head, whose `Content-Length` is
    /// the body's length, then the body.
    pub fn deparse(&self) -> (r: Vec<u8>)
        ensures
            r@ == response_frame(
                response_body_text(self@.method, self@.id, json_printed(json_model(self@.result))),
            ),
    {
        let body = self.to_json();
        let mut out = generate_response_headers(body.len());
        put_bytes(&mut out, body.as_slice());
        out
    }

    pub fn result(&self) -> (r: &Value)
        ensures
            *r == self@.result,
    {
        &self.result
    }

    pub fn method(&self) -> (r: &String)
        ensures
            r@ == self@.method,
    {
        &self.method
    }

    pub fn id(&self) -> (r: &String)
        ensures
            r@ == self@.id,
    {
        &self.id
    }
}

/// The text of a JSON-RPC error object.
pub struct ErrorValue {
    pub code: i64,
    pub message: String,
}

impl ErrorValue {
    pub fn new(code: i64, message: String) -> (r: Self)
        ensures
            r.code == code,
            r.message@ == message@,
    {
        ErrorValue { code, message }
    }

    /// Writes `{"code":..,"message":..}`.
    pub fn to_json(&self) -> (r: Vec<u8>)
        ensures
            r@ == error_value_text(self.code, self.message@),
    {
        let mut out: Vec<u8> = Vec::new();
        put_bytes(&mut out, "{\"code\":".as_bytes());
        let code = render_signed(self.code);
        put_bytes(&mut out, code.as_slice());
        put_bytes(&mut out, ",\"message\":".as_bytes());
        let message = quote_json(self.message.as_str());
        put_bytes(&mut out, message.as_slice());
        put_bytes(&mut out, "}".as_bytes());
        out
    }
}

/// An error reply that names no method or id.
pub struct ErrorOnlyResponse {
    pub jsonrpc: String,
    pub error: ErrorValue,
}

impl ErrorOnlyResponse {
    pub fn new(error: ErrorValue) -> (r: Self)
        ensures
            r.jsonrpc@ == "2.0"@,
            r.error == error,
    {
        let jsonrpc = "2.0".to_owned();
        ErrorOnlyResponse { jsonrpc, error }
    }

    /// Writes `{"jsonrpc":"2.0","error":..}`.
    pub fn to_json(&self) -> (r: Vec<u8>)
        ensures
            r@ == error_only_text(error_value_text(self.error.code, self.error.message@)),
    {
        let mut out: Vec<u8> = Vec::new();
        put_bytes(&mut out, "{\"jsonrpc\":\"2.0\",\"error\":".as_bytes());
        let error = self.error.to_json();
        put_bytes(&mut out, error.as_slice());
        put_bytes(&mut out, "}".as_bytes());
        out
    }
}

/// An error reply that names the method and id it answers.
pub struct ErrorResponse {
    pub jsonrpc: String,
    pub method: String,
    pub id: String,
    pub error: ErrorValue,
}

impl ErrorResponse {
    pub fn new(method: String, id: String, error: ErrorValue) -> (r: Self)
        ensures
            r.jsonrpc@ == "2.0"@,
            r.method@ == method@,
            r.id@ == id@,
            r.error == error,
    {
        let jsonrpc = "2.0".to_owned();
        ErrorResponse { jsonrpc, method, id, error }
    }

    /// Writes `{"jsonrpc":"2.0","method":..,"id":..,"error":..}`.
    pub fn to_json(&self) -> (r: Vec<u8>)
        ensures
            r@ == error_response_text(
                self.method@,
                self.id@,
                error_value_text(self.error.code, self.error.message@),
            ),
    {
        let mut out: Vec<u8> = Vec::new();
        put_bytes(&mut out, "{\"jsonrpc\":\"2.0\",\"method\":".as_bytes());
        let method = quote_json(self.method.as_str());
        put_bytes(&mut out, method.as_slice());
        put_bytes(&mut out, ",\"id\":".as_bytes());
        let id = quote_json(self.id.as_str());
        put_bytes(&mut out, id.as_slice());
        put_bytes(&mut out, ",\"error\":".as_bytes());
        let error = self.error.to_json();
        put_bytes(&mut out, error.as_slice());
        put_bytes(&mut out, "}".as_bytes());
        out
    }
}

impl Error {
    /// The code and message of this error.
    pub fn error_value(&self) -> (r: ErrorValue)
        ensures
            r.code == error_code(self@),
            r.message@ == error_message(self@),
    {
        match self {
            Error::ParseError(_) => ErrorValue::new(-32700, "Parse error".to_owned()),
            Error::MethodNotFound(_, _) => ErrorValue::new(-32601, "Method not found".to_owned()),
            Error::InvalidRequest(_, _) => ErrorValue::new(-32600, "Invalid Request".to_owned()),
            Error::InvalidResponse(_, _) => ErrorValue::new(-32600, "Invalid Response".to_owned()),
            Error::ErrorResponse(_, _, code, message) => ErrorValue::new(*code, message.clone()),
        }
    }

    /// The JSON body of this error.
    pub fn to_json(&self) -> (r: Vec<u8>)
        ensures
            r@ == error_body_text(self@),
    {
        match self {
            Error::ParseError(None) => ErrorOnlyResponse::new(self.error_value()).to_json(),
            Error::ParseError(Some((method, id)))
            | Error::MethodNotFound(method, id)
            | Error::InvalidRequest(method, id)
            | Error::InvalidResponse(method, id)
            | Error::ErrorResponse(method, id, _, _) => ErrorResponse::new(
                method.clone(),
                id.clone(),
                self.error_value(),
            ).to_json(),
        }
    }

    /// The error framed for the wire, under a response head.
    pub fn deparse(&self) -> (r: Vec<u8>)
        ensures
            r@ == response_frame(error_body_text(self@)),
    {
        let body = self.to_json();
        let mut out = generate_response_headers(body.len());
        put_bytes(&mut out, body.as_slice());
        out
    }
}

} // verus!
