//! HTTP envelopes around JSON bodies: the heads written before outgoing
//! bodies, and the scan that finds where a body starts.
use vstd::prelude::*;

use crate::decimal::{decimal_text, render_unsigned};
use crate::json::{json_accepts, json_document, json_model, parse_json, Json};
use crate::response::{Error, ErrorModel};
use serde_json::Value;
use vstd::utf8::encode_utf8;

verus! {

/// Appends `src` to `dst`.
pub fn put_bytes(dst: &mut Vec<u8>, src: &[u8])
    ensures
        final(dst)@ == old(dst)@ + src@,
{
    let ghost start = dst@;
    let mut i: usize = 0;
    while i < src.len()
        invariant
            0 <= i <= src@.len(),
            dst@ == start + src@.subrange(0, i as int),
        decreases src@.len() - i,
    {
        dst.push(src[i]);
        proof {
            assert(src@.subrange(0, i + 1) == src@.subrange(0, i as int).push(src@[i as int]));
        }
        i = i + 1;
    }
    proof {
        assert(src@.subrange(0, src@.len() as int) == src@);
    }
}

/// The head written before an outgoing request body of `length` bytes.
pub open spec fn request_head_text(host: Seq<char>, length: nat) -> Seq<u8> {
    encode_utf8("POST / HTTP/1.1\r\nHost: "@) + encode_utf8(host)
        + encode_utf8("\r\nContent-Type: application/json\r\nContent-Length: "@)
        + decimal_text(length) + encode_utf8("\r\n\r\n"@)
}

/// The head written before an outgoing response or error body of `length`
/// bytes.
pub open spec fn response_head_text(length: nat) -> Seq<u8> {
    encode_utf8(
        "HTTP/1.1 200 OK\r\nServer: Tachion JSON-RPC\r\nContent-Type: application/json\r\nConnection: Closed\r\nContent-Length: "@,
    ) + decimal_text(length) + encode_utf8("\r\n\r\n"@)
}

/// Writes the head of a request whose body is `length` bytes long.
pub fn generate_request_headers(host: String, length: usize) -> (r: Vec<u8>)
    ensures
        r@ == request_head_text(host@, length as nat),
{
    let mut headers: Vec<u8> = Vec::new();
    put_bytes(&mut headers, "POST / HTTP/1.1\r\nHost: ".as_bytes());
    put_bytes(&mut headers, host.as_str().as_bytes());
    put_bytes(&mut headers, "\r\nContent-Type: application/json\r\nContent-Length: ".as_bytes());
    let digits = render_unsigned(length as u64);
    put_bytes(&mut headers, digits.as_slice());
    put_bytes(&mut headers, "\r\n\r\n".as_bytes());
    headers
}

/// Writes the head of a response whose body is `length` bytes long.
pub fn generate_response_headers(length: usize) -> (r: Vec<u8>)
    ensures
        r@ == response_head_text(length as nat),
{
    let mut headers: Vec<u8> = Vec::new();
    put_bytes(
        &mut headers,
        "HTTP/1.1 200 OK\r\nServer: Tachion JSON-RPC\r\nContent-Type: application/json\r\nConnection: Closed\r\nContent-Length: ".as_bytes(),
    );
    let digits = render_unsigned(length as u64);
    put_bytes(&mut headers, digits.as_slice());
    put_bytes(&mut headers, "\r\n\r\n".as_bytes());
    headers
}

pub open spec fn is_line_break(b: u8) -> bool {
    b == 13 || b == 10
}

/// Position `i` starts a body: the run of CR and LF bytes right before it is
/// exactly CR LF CR LF, and the byte at `i` is neither.
pub open spec fn marks_body(b: Seq<u8>, i: int) -> bool {
    &&& 4 <= i < b.len()
    &&& !is_line_break(b[i])
    &&& b.subrange(i - 4, i) == seq![13u8, 10, 13, 10]
    &&& (i == 4 || !is_line_break(b[i - 5]))
}

/// `i` is the first position that starts a body.
pub open spec fn is_first_mark(b: Seq<u8>, i: int) -> bool {
    marks_body(b, i) && forall|j: int| 0 <= j < i ==> !marks_body(b, j)
}

/// Finds the first position that starts a body.
pub fn body_start(b: &[u8]) -> (r: Option<usize>)
    ensures
        match r {
            Some(i) => is_first_mark(b@, i as int),
            None => forall|j: int| !marks_body(b@, j),
        },
{
    let mut i: usize = 4;
    if b.len() < 5 {
        return None;
    }
    while i < b.len()
        invariant
            4 <= i <= b@.len(),
            forall|j: int| 0 <= j < i ==> !marks_body(b@, j),
        decreases b@.len() - i,
    {
        let c = b[i];
        if c != 13 && c != 10 && b[i - 4] == 13 && b[i - 3] == 10 && b[i - 2] == 13 && b[i - 1] == 10
            && (i == 4 || (b[i - 5] != 13 && b[i - 5] != 10)) {
            proof {
                assert(b@.subrange(i - 4, i as int) =~= seq![13u8, 10, 13, 10]);
            }
            return Some(i);
        }
        proof {
            if b@.subrange(i - 4, i as int) == seq![13u8, 10, 13, 10] {
                assert(b@.subrange(i - 4, i as int)[0] == b@[i - 4]);
                assert(b@.subrange(i - 4, i as int)[1] == b@[i - 3]);
                assert(b@.subrange(i - 4, i as int)[2] == b@[i - 2]);
                assert(b@.subrange(i - 4, i as int)[3] == b@[i - 1]);
            }
        }
        i = i + 1;
    }
    None
}

/// The bytes hold a blank line, and what follows the first one is JSON.
pub open spec fn found_json_body(b: Seq<u8>) -> bool {
    exists|i: int| is_first_mark(b, i) && json_accepts(#[trigger] b.subrange(i, b.len() as int))
}

/// `j` is the JSON value that follows the first blank line of `b`.
pub open spec fn body_document(b: Seq<u8>, j: Json) -> bool {
    exists|i: int| is_first_mark(b, i) && json_document(#[trigger] b.subrange(i, b.len() as int)) == Some(j)
}

/// Finds the body after a head by scanning for the blank line, and parses it
/// as JSON.
pub fn split_bytes(bytes: &[u8]) -> (r: Result<Value, Error>)
    ensures
        r is Ok <==> found_json_body(bytes@),
        r matches Ok(v) ==> body_document(bytes@, json_model(v)),
        r matches Err(e) ==> e@ == ErrorModel::ParseError(None),
{
    match body_start(bytes) {
        Some(i) => {
            let body = vstd::slice::slice_subrange(bytes, i, bytes.len());
            match parse_json(body) {
                Some(v) => {
                    proof {
                        assert(is_first_mark(bytes@, i as int));
                        assert(json_document(bytes@.subrange(i as int, bytes@.len() as int)) == Some(json_model(v)));
                    }
                    Ok(v)
                },
                None => {
                    proof {
                        assert forall|k: int| is_first_mark(bytes@, k) implies !json_accepts(
                            #[trigger] bytes@.subrange(k, bytes@.len() as int),
                        ) by {
                            if k != i {
                                assert(!marks_body(bytes@, if k < i { k } else { i as int }) || k == i);
                            }
                        }
                    }
                    Err(Error::ParseError(None))
                },
            }
        },
        None => Err(Error::ParseError(None)),
    }
}

} // verus!
