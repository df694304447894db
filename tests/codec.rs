use bytes::BytesMut;
use jsonrpc_http_codec::decimal::{parse_length, render_signed, render_unsigned};
use jsonrpc_http_codec::head::{inspect, Inspection};
use jsonrpc_http_codec::httpcodec::{HTTPCodec, HTTP};
use jsonrpc_http_codec::json::{Envelope, ErrorFields, IdField};
use jsonrpc_http_codec::parse::{body_start, generate_request_headers, generate_response_headers, split_bytes};
use jsonrpc_http_codec::response::{ErrorOnlyResponse, ErrorResponse, ErrorValue};
use jsonrpc_http_codec::{Error, Params, Request, Response};

fn text(b: &[u8]) -> String {
    String::from_utf8(b.to_vec()).unwrap()
}

fn frame(body: &str) -> Vec<u8> {
    format!("POST / HTTP/1.1\r\nHost: x\r\nContent-Length: {}\r\n\r\n{}", body.len(), body).into_bytes()
}

fn decode_whole(bytes: &[u8]) -> Option<HTTP> {
    let mut codec = HTTPCodec::new();
    let mut src = BytesMut::from(bytes);
    codec.decode(&mut src)
}

#[test]
fn empty_object_is_method_not_found() {
    let mut src = BytesMut::from(&b"POST / HTTP/1.1\r\nHost: x\r\nContent-Length: 2\r\n\r\n{}"[..]);
    let mut codec = HTTPCodec::new();
    match codec.decode(&mut src) {
        Some(HTTP::Error(Error::MethodNotFound(m, i))) => {
            assert_eq!(m, "");
            assert_eq!(i, " ");
        }
        other => panic!("unexpected {:?}", other),
    }
    assert!(src.is_empty());
}

#[test]
fn response_encoding_is_exact() {
    let r = Response::new("sum".to_string(), "7".to_string(), Params::from(3));
    let body = "{\"jsonrpc\":\"2.0\",\"method\":\"sum\",\"id\":\"7\",\"result\":3}";
    assert_eq!(text(&r.to_json()), body);
    let wire = text(&r.deparse());
    let expected = format!(
        "HTTP/1.1 200 OK\r\nServer: Tachion JSON-RPC\r\nContent-Type: application/json\r\nConnection: Closed\r\nContent-Length: {}\r\n\r\n{}",
        body.len(),
        body
    );
    assert_eq!(wire, expected);
    assert!(wire.contains("Content-Length: 52\r\n"));
}

#[test]
fn request_round_trips_through_the_codec() {
    let params: Params = serde_json::from_str("[1,\"two\",{\"three\":3.5}]").unwrap();
    let req = Request::new("add".to_string(), "42".to_string(), params.clone());
    let wire = req.deparse();
    assert!(text(&wire).starts_with("POST / HTTP/1.1\r\nHost: Hyperdrive_RPC_Request\r\n"));
    match decode_whole(&wire) {
        Some(HTTP::Request(q)) => {
            assert_eq!(q.method(), "add");
            assert_eq!(q.id(), "42");
            assert_eq!(q.params(), &params);
        }
        other => panic!("unexpected {:?}", other),
    }
    let back = Request::parse(&wire).unwrap();
    assert_eq!(back.method(), "add");
    assert_eq!(back.params(), &params);
}

#[test]
fn whole_message_in_one_call() {
    let mut codec = HTTPCodec::new();
    let mut src = BytesMut::from(frame("{\"method\":\"m\",\"id\":\"1\"}"));
    let first = codec.decode(&mut src);
    assert!(matches!(first, Some(HTTP::Request(_))));
    assert!(src.is_empty());
    let mut more = BytesMut::from(&b"anything"[..]);
    assert!(codec.decode(&mut more).is_none());
}

#[test]
fn byte_by_byte_matches_whole() {
    let mut wire = frame("{\"method\":\"m\",\"id\":5,\"params\":[1,2]}");
    wire.extend_from_slice(b"NEXT");
    let mut codec = HTTPCodec::new();
    let mut src = BytesMut::new();
    let mut delivered = Vec::new();
    for b in &wire {
        src.extend_from_slice(&[*b]);
        if let Some(m) = codec.decode(&mut src) {
            delivered.push(m);
        }
    }
    assert_eq!(delivered.len(), 1);
    match &delivered[0] {
        HTTP::Request(q) => {
            assert_eq!(q.method(), "m");
            assert_eq!(q.id(), "5");
            assert_eq!(q.params(), &serde_json::from_str::<Params>("[1,2]").unwrap());
        }
        other => panic!("unexpected {:?}", other),
    }
    assert_eq!(&src[..], &b"NEXT"[..]);
}

#[test]
fn split_header_and_body_chunks() {
    let wire = frame("{\"method\":\"split\"}");
    for cut in 1..wire.len() {
        let mut codec = HTTPCodec::new();
        let mut src = BytesMut::from(&wire[..cut]);
        let first = codec.decode(&mut src);
        assert!(first.is_none(), "cut {}", cut);
        src.extend_from_slice(&wire[cut..]);
        match codec.decode(&mut src) {
            Some(HTTP::Request(q)) => assert_eq!(q.method(), "split"),
            other => panic!("cut {}: unexpected {:?}", cut, other),
        }
    }
}

#[test]
fn short_body_stays_pending() {
    let mut codec = HTTPCodec::new();
    let mut src = BytesMut::from(&b"POST / HTTP/1.1\r\nContent-Length: 10\r\n\r\n{\"a\""[..]);
    assert!(codec.decode(&mut src).is_none());
    for _ in 0..3 {
        let mut more = BytesMut::from(&b":"[..]);
        assert!(codec.decode(&mut more).is_none());
    }
    let mut none = BytesMut::new();
    assert!(codec.decode(&mut none).is_none());
}

#[test]
fn method_with_result_is_invalid_request() {
    let r = Request::parse_from_json_bytes(b"{\"method\":\"sum\",\"id\":\"3\",\"result\":1}");
    match r {
        Err(Error::InvalidRequest(m, i)) => {
            assert_eq!(m, "");
            assert_eq!(i, "3");
        }
        other => panic!("unexpected {:?}", other),
    }
    let whole = decode_whole(&frame("{\"method\":\"sum\",\"id\":\"3\",\"result\":1}"));
    match whole {
        Some(HTTP::Response(s)) => {
            assert_eq!(s.method(), "sum");
            assert_eq!(s.result(), &Params::from(1));
        }
        other => panic!("unexpected {:?}", other),
    }
}

#[test]
fn two_content_lengths_are_a_parse_error() {
    let wire = b"POST / HTTP/1.1\r\nContent-Length: 2\r\nContent-Length: 2\r\n\r\n{}";
    assert_eq!(inspect(wire), Inspection::Malformed);
    assert!(matches!(decode_whole(wire), Some(HTTP::Error(Error::ParseError(None)))));
}

#[test]
fn inspection_outcomes() {
    assert_eq!(inspect(b"POST / HTTP/1.1\r\nHost: x\r\n"), Inspection::Incomplete);
    assert_eq!(inspect(b"POST / HTTP/1.0\r\nContent-Length: 0\r\n\r\n"), Inspection::Malformed);
    assert_eq!(inspect(b"POST / HTTP/1.1\r\n\r\n"), Inspection::Malformed);
    assert_eq!(inspect(b"POST / HTTP/1.1\r\nContent-Length: x1\r\n\r\n"), Inspection::Malformed);
    assert_eq!(inspect(b"POST / HTTP/1.1\r\ncontent-length: 1\r\n\r\n"), Inspection::Malformed);
    assert_eq!(inspect(b"\x01\x02 nonsense\r\n\r\n"), Inspection::Malformed);
    assert_eq!(
        inspect(b"HTTP/1.1 200 OK\r\nContent-Length: 7\r\n\r\n"),
        Inspection::Complete { header_length: 38, version: 1, body_length: 7 }
    );
    assert_eq!(
        inspect(b"POST / HTTP/1.1\r\nContent-Length: +3\r\n\r\nabc"),
        Inspection::Complete { header_length: 39, version: 1, body_length: 3 }
    );
}

#[test]
fn malformed_head_stops_the_codec() {
    let mut codec = HTTPCodec::new();
    let mut src = BytesMut::from(&b"GET / HTTP/1.0\r\nContent-Length: 0\r\n\r\n"[..]);
    assert!(matches!(codec.decode(&mut src), Some(HTTP::Error(Error::ParseError(None)))));
    let mut again = BytesMut::from(frame("{\"method\":\"m\"}"));
    assert!(codec.decode(&mut again).is_none());
}

#[test]
fn body_that_is_not_json() {
    assert!(matches!(decode_whole(&frame("nope")), Some(HTTP::Error(Error::ParseError(None)))));
}

#[test]
fn ids_are_stringified_or_defaulted() {
    let q = Request::parse_from_json_bytes(b"{\"method\":\"m\",\"id\":17}").unwrap();
    assert_eq!(q.id(), "17");
    assert_eq!(q.params(), &Params::Null);
    let q = Request::parse_from_json_bytes(b"{\"method\":\"m\",\"id\":-4}").unwrap();
    assert_eq!(q.id(), "-4");
    let q = Request::parse_from_json_bytes(b"{\"method\":\"m\",\"id\":1.5}").unwrap();
    assert_eq!(q.id(), "1.5");
    let s = Response::parse_from_json_bytes(b"{\"method\":\"m\",\"id\":8,\"result\":null}").unwrap();
    assert_eq!(s.id(), "8");
    assert_eq!(s.result(), &Params::Null);
    let q = Request::parse_from_json_bytes(b"{\"method\":\"m\",\"id\":[1]}").unwrap();
    assert_eq!(q.id(), " ");
    let q = Request::parse_from_json_bytes(b"{\"method\":\"m\"}").unwrap();
    assert_eq!(q.id(), " ");
}

#[test]
fn request_errors() {
    assert!(matches!(Request::parse_from_json_bytes(b"{\"id\":\"1\"}"), Err(Error::MethodNotFound(ref m, ref i)) if m.is_empty() && i == "1"));
    assert!(matches!(Request::parse_from_json_bytes(b"{\"method\":\"\"}"), Err(Error::MethodNotFound(_, _))));
    assert!(matches!(Request::parse_from_json_bytes(b"{\"method\":7}"), Err(Error::MethodNotFound(_, _))));
    assert!(matches!(Request::parse_from_json_bytes(b"{\"method\":\"m\",\"error\":{}}"), Err(Error::InvalidRequest(_, _))));
    assert!(matches!(Request::parse_from_json_bytes(b"{oops"), Err(Error::ParseError(None))));
}

#[test]
fn response_readings() {
    match Response::parse_from_json_bytes(b"{\"method\":\"m\",\"id\":\"2\",\"error\":{\"code\":-1,\"message\":\"bad\"}}") {
        Err(Error::ErrorResponse(m, i, c, s)) => {
            assert_eq!((m.as_str(), i.as_str(), c, s.as_str()), ("m", "2", -1, "bad"));
        }
        other => panic!("unexpected {:?}", other),
    }
    match Response::parse_from_json_bytes(b"{\"method\":\"m\",\"error\":5}") {
        Err(Error::ErrorResponse(_, _, c, s)) => {
            assert_eq!(c, -32600);
            assert_eq!(s, "Invalid Request");
        }
        other => panic!("unexpected {:?}", other),
    }
    assert!(matches!(Response::parse_from_json_bytes(b"{\"method\":\"m\"}"), Err(Error::InvalidResponse(_, _))));
    assert!(matches!(Response::parse_from_json_bytes(b"{\"id\":\"1\",\"result\":2}"), Err(Error::MethodNotFound(_, _))));
    assert!(matches!(Response::parse_from_json_bytes(b"]"), Err(Error::ParseError(None))));
    let whole = b"HTTP/1.1 200 OK\r\nContent-Length: 9\r\n\r\n{\"a\":1}";
    assert!(matches!(Response::parse(whole), Err(Error::MethodNotFound(_, _))));
    assert!(matches!(Response::parse(b"no blank line"), Err(Error::ParseError(None))));
}

#[test]
fn classification_prefers_error_replies() {
    let got = decode_whole(&frame("{\"method\":\"m\",\"id\":\"9\",\"error\":{\"code\":-5,\"message\":\"no\"}}"));
    assert!(matches!(got, Some(HTTP::Error(Error::ErrorResponse(_, _, -5, _)))));
    let got = decode_whole(&frame("{\"result\":1}"));
    assert!(matches!(got, Some(HTTP::Error(Error::InvalidRequest(_, _)))));
    let e = Envelope { id: IdField::Text("x".to_string()), method: None, params: None, result: None, error: Some(ErrorFields { code: None, message: None }) };
    assert!(matches!(jsonrpc_http_codec::httpcodec::classify(&e), HTTP::Error(Error::InvalidRequest(_, _))));
}

#[test]
fn error_codes_and_bodies() {
    let cases: Vec<(Error, i64, &str)> = vec![
        (Error::ParseError(None), -32700, "Parse error"),
        (Error::MethodNotFound("a".into(), "1".into()), -32601, "Method not found"),
        (Error::InvalidRequest("a".into(), "1".into()), -32600, "Invalid Request"),
        (Error::InvalidResponse("a".into(), "1".into()), -32600, "Invalid Response"),
        (Error::ErrorResponse("a".into(), "1".into(), 12, "custom".into()), 12, "custom"),
    ];
    for (e, code, message) in cases {
        let v = e.error_value();
        assert_eq!(v.code, code);
        assert_eq!(v.message, message);
    }
    assert_eq!(
        text(&Error::ParseError(None).to_json()),
        "{\"jsonrpc\":\"2.0\",\"error\":{\"code\":-32700,\"message\":\"Parse error\"}}"
    );
    assert_eq!(
        text(&Error::ParseError(Some(("m".into(), "i".into()))).to_json()),
        "{\"jsonrpc\":\"2.0\",\"method\":\"m\",\"id\":\"i\",\"error\":{\"code\":-32700,\"message\":\"Parse error\"}}"
    );
    assert_eq!(
        text(&Error::MethodNotFound("q\"x".into(), "1".into()).to_json()),
        "{\"jsonrpc\":\"2.0\",\"method\":\"q\\\"x\",\"id\":\"1\",\"error\":{\"code\":-32601,\"message\":\"Method not found\"}}"
    );
    let wire = text(&Error::InvalidResponse("a".into(), "b".into()).deparse());
    assert!(wire.starts_with("HTTP/1.1 200 OK\r\n"));
    assert!(wire.ends_with("\"message\":\"Invalid Response\"}}"));
    let only = ErrorOnlyResponse::new(ErrorValue::new(1, "one".into()));
    assert_eq!(text(&only.to_json()), "{\"jsonrpc\":\"2.0\",\"error\":{\"code\":1,\"message\":\"one\"}}");
    let full = ErrorResponse::new("m".into(), "2".into(), ErrorValue::new(i64::MIN, "min".into()));
    assert_eq!(
        text(&full.to_json()),
        "{\"jsonrpc\":\"2.0\",\"method\":\"m\",\"id\":\"2\",\"error\":{\"code\":-9223372036854775808,\"message\":\"min\"}}"
    );
}

#[test]
fn string_escapes_in_bodies() {
    let v = ErrorValue::new(0, "a\nb\u{1}\u{1f}\t\\é".into());
    assert_eq!(
        text(&v.to_json()),
        "{\"code\":0,\"message\":\"a\\nb\\u0001\\u001f\\t\\\\é\"}"
    );
}

#[test]
fn encode_appends_wire_form() {
    let mut codec = HTTPCodec::new();
    let mut dst = BytesMut::from(&b"prefix"[..]);
    codec.encode(HTTP::Error(Error::ParseError(None)), &mut dst);
    assert!(text(&dst).starts_with("prefixHTTP/1.1 200 OK"));
    let before = dst.clone();
    codec.encode(HTTP::NeedMore(1, 2, vec![3]), &mut dst);
    assert_eq!(dst, before);
    assert!(HTTP::NeedMore(0, 0, Vec::new()).deparse().is_empty());
}

#[test]
fn headers_are_exact() {
    assert_eq!(
        text(&generate_request_headers("h".to_string(), 12)),
        "POST / HTTP/1.1\r\nHost: h\r\nContent-Type: application/json\r\nContent-Length: 12\r\n\r\n"
    );
    assert_eq!(
        text(&generate_response_headers(0)),
        "HTTP/1.1 200 OK\r\nServer: Tachion JSON-RPC\r\nContent-Type: application/json\r\nConnection: Closed\r\nContent-Length: 0\r\n\r\n"
    );
}

#[test]
fn decimal_text_and_lengths() {
    assert_eq!(render_unsigned(0), b"0".to_vec());
    assert_eq!(render_unsigned(1234567890), b"1234567890".to_vec());
    assert_eq!(render_unsigned(u64::MAX), u64::MAX.to_string().into_bytes());
    assert_eq!(render_signed(-32700), b"-32700".to_vec());
    assert_eq!(parse_length(b"42"), Some(42));
    assert_eq!(parse_length(b"+7"), Some(7));
    assert_eq!(parse_length(b"007"), Some(7));
    assert_eq!(parse_length(b""), None);
    assert_eq!(parse_length(b"+"), None);
    assert_eq!(parse_length(b"-1"), None);
    assert_eq!(parse_length(b" 1"), None);
    assert_eq!(parse_length(b"99999999999999999999999"), None);
    assert_eq!(parse_length(usize::MAX.to_string().as_bytes()), Some(usize::MAX));
}

#[test]
fn body_scan() {
    assert_eq!(body_start(b"a\r\n\r\nb"), Some(5));
    assert_eq!(body_start(b"\r\n\r\nb"), Some(4));
    assert_eq!(body_start(b"a\n\r\n\r\nb"), None);
    assert_eq!(body_start(b"a\r\n\r\n"), None);
    assert_eq!(body_start(b"a\r\nx\r\n\r\n{"), Some(8));
    assert!(split_bytes(b"H\r\n\r\n{\"k\":1}").is_ok());
    assert!(matches!(split_bytes(b"H\r\n\r\n{"), Err(Error::ParseError(None))));
    assert!(matches!(split_bytes(b"H\r\n{}"), Err(Error::ParseError(None))));
}
