//! The header inspector: decides whether a buffer holds a complete HTTP/1.1
//! head and, if so, how long the head is and how long a body it declares.
use vstd::prelude::*;

use crate::decimal::{parse_length, unsigned_text_value};

verus! {

/// How many header lines a head may carry.
pub const HEADER_CAPACITY: usize = 16;

/// One header line: its name and its raw value.
pub struct HeaderField {
    pub name: Vec<u8>,
    pub value: Vec<u8>,
}

/// What the start-line and header tokenizer made of a buffer.
pub enum HeadParse {
    Invalid,
    Partial,
    Complete { length: usize, version: u8, headers: Vec<HeaderField> },
}

/// The mathematical content of a `HeadParse`.
pub enum HeadModel {
    Invalid,
    Partial,
    Complete { length: nat, version: u8, headers: Seq<(Seq<u8>, Seq<u8>)> },
}

impl View for HeadParse {
    type V = HeadModel;

    open spec fn view(&self) -> HeadModel {
        match self {
            HeadParse::Invalid => HeadModel::Invalid,
            HeadParse::Partial => HeadModel::Partial,
            HeadParse::Complete { length, version, headers } => HeadModel::Complete {
                length: *length as nat,
                version: *version,
                headers: headers@.map_values(|h: HeaderField| (h.name@, h.value@)),
            },
        }
    }
}

/// What httparse's request parser reports for a buffer, given room for
/// `capacity` headers.
pub uninterp spec fn request_head_of(buf: Seq<u8>, capacity: nat) -> HeadModel;

/// What httparse's response parser reports for a buffer, given room for
/// `capacity` headers.
pub uninterp spec fn response_head_of(buf: Seq<u8>, capacity: nat) -> HeadModel;

/// Relies on httparse::Request::parse: tokenizes a request line and headers;
/// on completion it reports the offset of the body within `buf`.
#[verifier::external_body]
fn parse_request_head(buf: &[u8], capacity: usize) -> (r: HeadParse)
    ensures
        r@ == request_head_of(buf@, capacity as nat),
        r matches HeadParse::Complete { length, .. } ==> length <= buf@.len(),
{
    let mut slots = vec![httparse::EMPTY_HEADER; capacity];
    let mut req = httparse::Request::new(&mut slots);
    match req.parse(buf) {
        Err(_) => HeadParse::Invalid,
        Ok(httparse::Status::Partial) => HeadParse::Partial,
        Ok(httparse::Status::Complete(length)) => HeadParse::Complete {
            length,
            version: req.version.unwrap_or(0),
            headers: req.headers.iter().map(|h| HeaderField { name: h.name.as_bytes().to_vec(), value: h.value.to_vec() }).collect(),
        },
    }
}

/// Relies on httparse::Response::parse: tokenizes a status line and headers;
/// on completion it reports the offset of the body within `buf`.
#[verifier::external_body]
fn parse_response_head(buf: &[u8], capacity: usize) -> (r: HeadParse)
    ensures
        r@ == response_head_of(buf@, capacity as nat),
        r matches HeadParse::Complete { length, .. } ==> length <= buf@.len(),
{
    let mut slots = vec![httparse::EMPTY_HEADER; capacity];
    let mut res = httparse::Response::new(&mut slots);
    match res.parse(buf) {
        Err(_) => HeadParse::Invalid,
        Ok(httparse::Status::Partial) => HeadParse::Partial,
        Ok(httparse::Status::Complete(length)) => HeadParse::Complete {
            length,
            version: res.version.unwrap_or(0),
            headers: res.headers.iter().map(|h| HeaderField { name: h.name.as_bytes().to_vec(), value: h.value.to_vec() }).collect(),
        },
    }
}

/// The outcome of inspecting a buffer for an HTTP/1.1 head.
#[derive(PartialEq, Eq, Structural, Debug, Clone, Copy)]
pub enum Inspection {
    Complete { header_length: usize, version: u8, body_length: usize },
    Incomplete,
    Malformed,
}

/// The header name that declares the body length, matched case-sensitively.
pub open spec fn content_length_name() -> Seq<u8> {
    seq![67u8, 111, 110, 116, 101, 110, 116, 45, 76, 101, 110, 103, 116, 104]
}

/// The values of every `Content-Length` header, in order.
pub open spec fn content_length_values(hs: Seq<(Seq<u8>, Seq<u8>)>) -> Seq<Seq<u8>>
    decreases hs.len(),
{
    if hs.len() == 0 {
        seq![]
    } else {
        let rest = content_length_values(hs.drop_last());
        if hs.last().0 == content_length_name() {
            rest.push(hs.last().1)
        } else {
            rest
        }
    }
}

/// The decision taken on a tokenized head: exactly one `Content-Length`,
/// holding an unsigned integer, and protocol version 1.1.
pub open spec fn inspect_head(h: HeadModel) -> Inspection {
    match h {
        HeadModel::Invalid => Inspection::Malformed,
        HeadModel::Partial => Inspection::Incomplete,
        HeadModel::Complete { length, version, headers } => {
            let values = content_length_values(headers);
            if values.len() != 1 {
                Inspection::Malformed
            } else {
                match unsigned_text_value(values[0]) {
                    Some(n) => if n <= usize::MAX && version == 1 && length <= usize::MAX {
                        Inspection::Complete {
                            header_length: length as usize,
                            version: 1,
                            body_length: n as usize,
                        }
                    } else {
                        Inspection::Malformed
                    },
                    None => Inspection::Malformed,
                }
            }
        },
    }
}

/// The request reading is tried first; the response reading only when the
/// request reading fails.
pub open spec fn inspect_heads(req: HeadModel, res: HeadModel) -> Inspection {
    if req is Invalid {
        inspect_head(res)
    } else {
        inspect_head(req)
    }
}

/// What the inspector reports for a buffer.
pub open spec fn inspect_of(buf: Seq<u8>) -> Inspection {
    inspect_heads(
        request_head_of(buf, HEADER_CAPACITY as nat),
        response_head_of(buf, HEADER_CAPACITY as nat),
    )
}

proof fn lemma_content_length_count_grows(hs: Seq<(Seq<u8>, Seq<u8>)>, a: int, b: int)
    requires
        0 <= a <= b <= hs.len(),
    ensures
        content_length_values(hs.subrange(0, a)).len() <= content_length_values(hs.subrange(0, b)).len(),
        a < b && hs[b - 1].0 == content_length_name() ==> content_length_values(hs.subrange(0, a)).len()
            < content_length_values(hs.subrange(0, b)).len(),
    decreases b - a,
{
    if a < b {
        lemma_content_length_count_grows(hs, a, b - 1);
        assert(hs.subrange(0, b).drop_last() == hs.subrange(0, b - 1));
        assert(hs.subrange(0, b).last() == hs[b - 1]);
    }
}

/// A head with two `Content-Length` headers is malformed, whatever their
/// values: the body length is never picked from one of them.
pub proof fn lemma_repeated_content_length_rejected(
    length: nat,
    version: u8,
    headers: Seq<(Seq<u8>, Seq<u8>)>,
    i: int,
    j: int,
)
    requires
        0 <= i < j < headers.len(),
        headers[i].0 == content_length_name(),
        headers[j].0 == content_length_name(),
    ensures
        inspect_head(HeadModel::Complete { length, version, headers }) == Inspection::Malformed,
{
    lemma_content_length_count_grows(headers, 0, i + 1);
    lemma_content_length_count_grows(headers, i + 1, j + 1);
    lemma_content_length_count_grows(headers, j + 1, headers.len() as int);
    assert(headers.subrange(0, headers.len() as int) == headers);
}

fn bytes_equal(a: &[u8], b: &[u8]) -> (r: bool)
    ensures
        r == (a@ == b@),
{
    if a.len() != b.len() {
        return false;
    }
    let mut i: usize = 0;
    while i < a.len()
        invariant
            a@.len() == b@.len(),
            0 <= i <= a@.len(),
            forall|k: int| 0 <= k < i ==> a@[k] == b@[k],
        decreases a@.len() - i,
    {
        if a[i] != b[i] {
            return false;
        }
        i = i + 1;
    }
    proof {
        assert(a@ =~= b@);
    }
    true
}

/// Decides on a head that the tokenizer produced.
pub fn inspect_parsed(h: &HeadParse) -> (r: Inspection)
    ensures
        r == inspect_head(h@),
{
    match h {
        HeadParse::Invalid => Inspection::Malformed,
        HeadParse::Partial => Inspection::Incomplete,
        HeadParse::Complete { length, version, headers } => {
            let name: Vec<u8> = vec![67u8, 111, 110, 116, 101, 110, 116, 45, 76, 101, 110, 103, 116, 104];
            proof {
                assert(name@ =~= content_length_name());
            }
            let ghost hs = headers@.map_values(|h: HeaderField| (h.name@, h.value@));
            let mut count: usize = 0;
            let mut first: usize = 0;
            let mut i: usize = 0;
            while i < headers.len()
                invariant
                    0 <= i <= headers@.len(),
                    hs == headers@.map_values(|h: HeaderField| (h.name@, h.value@)),
                    name@ == content_length_name(),
                    count == content_length_values(hs.subrange(0, i as int)).len(),
                    count <= i,
                    count > 0 ==> first < i && content_length_values(hs.subrange(0, i as int))[0]
                        == headers@[first as int].value@,
                decreases headers@.len() - i,
            {
                let is_cl = bytes_equal(headers[i].name.as_slice(), name.as_slice());
                proof {
                    assert(hs.subrange(0, i + 1).drop_last() == hs.subrange(0, i as int));
                    assert(hs.subrange(0, i + 1).last() == hs[i as int]);
                }
                if is_cl {
                    if count == 0 {
                        first = i;
                    }
                    count = count + 1;
                }
                i = i + 1;
            }
            proof {
                assert(hs.subrange(0, headers@.len() as int) == hs);
            }
            if count != 1 {
                return Inspection::Malformed;
            }
            match parse_length(headers[first].value.as_slice()) {
                Some(n) => if *version == 1 {
                    Inspection::Complete { header_length: *length, version: 1, body_length: n }
                } else {
                    Inspection::Malformed
                },
                None => Inspection::Malformed,
            }
        },
    }
}

/// Inspects a buffer for a complete HTTP/1.1 head: request line first, then
/// status line.
pub fn inspect(buf: &[u8]) -> (r: Inspection)
    ensures
        r == inspect_of(buf@),
        r matches Inspection::Complete { header_length, .. } ==> header_length <= buf@.len(),
{
    let req = parse_request_head(buf, HEADER_CAPACITY);
    if let HeadParse::Invalid = req {
        let res = parse_response_head(buf, HEADER_CAPACITY);
        inspect_parsed(&res)
    } else {
        inspect_parsed(&req)
    }
}

} // verus!
