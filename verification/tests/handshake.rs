use clash_ws::error::{ProtocolError, SubProtocolError};
use clash_ws::handshake::{
    client_handshake, extract_subprotocols, verify_response, HandshakeAction, Refusal,
    RequestError, Round, WsResponse,
};
use http::header::{HeaderMap, HeaderName, HeaderValue};
use http::Request;

const KEY: &str = "dGhlIHNhbXBsZSBub25jZQ==";
const ACCEPT: &str = "s3pPLMBiTxaQ9kYGzzhZRbK+xOo=";

fn header(fields: &[(&str, &[u8])]) -> HeaderMap {
    let mut map = HeaderMap::new();
    for (name, value) in fields {
        map.append(
            HeaderName::from_bytes(name.as_bytes()).unwrap(),
            HeaderValue::from_bytes(value).unwrap(),
        );
    }
    map
}

fn request(more: &[(&str, &[u8])]) -> Request<()> {
    let mut request = Request::builder().uri("ws://example.com:80/chat?x=1").body(()).unwrap();
    let mut fields: Vec<(&str, &[u8])> = vec![
        ("Host", b"example.com"),
        ("Connection", b"Upgrade"),
        ("Upgrade", b"websocket"),
        ("Sec-WebSocket-Version", b"13"),
        ("Sec-WebSocket-Key", KEY.as_bytes()),
    ];
    fields.extend_from_slice(more);
    *request.headers_mut() = header(&fields);
    request
}

fn answer(more: &[(&str, &[u8])]) -> WsResponse {
    let mut fields: Vec<(&str, &[u8])> = vec![
        ("Upgrade", b"WebSocket"),
        ("connection", b"upgrade"),
        ("Sec-WebSocket-Accept", ACCEPT.as_bytes()),
    ];
    fields.extend_from_slice(more);
    WsResponse { status: 101, headers: header(&fields) }
}

fn without(name: &str) -> WsResponse {
    let mut response = answer(&[]);
    response.headers.remove(name);
    response
}

fn offer(list: &[&str]) -> Option<Vec<String>> {
    Some(list.iter().map(|item| item.to_string()).collect())
}

fn protocol(error: ProtocolError) -> Result<(), Refusal> {
    Err(Refusal::Protocol(error))
}

fn choice(error: SubProtocolError) -> Result<(), Refusal> {
    protocol(ProtocolError::SecWebSocketSubProtocolError(error))
}

#[test]
fn a_handshake_derives_the_accept_key() {
    let handshake = client_handshake(request(&[])).unwrap();
    assert_eq!(handshake.accept_key, ACCEPT);
    assert_eq!(handshake.subprotocols, None);
    let text = String::from_utf8(handshake.request).unwrap();
    assert!(text.starts_with("GET /chat?x=1 HTTP/1.1\r\nHost: example.com\r\n"));
    assert!(text.contains("\r\nSec-WebSocket-Key: dGhlIHNhbXBsZSBub25jZQ==\r\n"));
    assert!(text.ends_with("\r\n\r\n"));
}

#[test]
fn a_handshake_needs_all_its_fields() {
    for name in ["Host", "Connection", "Upgrade", "Sec-WebSocket-Version", "Sec-WebSocket-Key"] {
        let mut request = request(&[]);
        request.headers_mut().remove(name);
        assert!(matches!(client_handshake(request), Err(RequestError::Unusable(_))));
    }
    let mut not_text = request(&[]);
    not_text.headers_mut().insert("host", HeaderValue::from_bytes(&[200]).unwrap());
    assert!(matches!(client_handshake(not_text), Err(RequestError::Unusable(_))));
}

#[test]
fn a_handshake_needs_an_old_version_and_a_path() {
    let mut newer = request(&[]);
    *newer.version_mut() = http::Version::HTTP_2;
    assert!(matches!(client_handshake(newer), Err(RequestError::Unusable(_))));
    let mut older = request(&[]);
    *older.version_mut() = http::Version::HTTP_10;
    assert!(client_handshake(older).is_ok());
    let mut pathless = request(&[]);
    *pathless.uri_mut() = "example.com:80".parse().unwrap();
    assert!(matches!(client_handshake(pathless), Err(RequestError::Unusable(_))));
}

#[test]
fn only_the_first_key_counts() {
    let handshake = client_handshake(request(&[("sec-websocket-key", b"other")])).unwrap();
    assert_eq!(handshake.accept_key, ACCEPT);
}

#[test]
fn subprotocols_are_listed_with_commas() {
    assert_eq!(extract_subprotocols(&request(&[])).unwrap(), None);
    let listed = request(&[("Sec-WebSocket-Protocol", b" chat , super-chat,\tx y ,,")]);
    assert_eq!(
        extract_subprotocols(&listed).unwrap(),
        offer(&["chat", "super-chat", "x y", "", ""])
    );
    let empty = request(&[("sec-websocket-protocol", b"")]);
    assert_eq!(extract_subprotocols(&empty).unwrap(), offer(&[""]));
    let one = request(&[("Sec-WebSocket-Protocol", b"mqtt")]);
    assert_eq!(extract_subprotocols(&one).unwrap(), offer(&["mqtt"]));
    assert_eq!(client_handshake(one).unwrap().subprotocols, offer(&["mqtt"]));
}

#[test]
fn subprotocols_have_to_be_text() {
    let bad = request(&[("Sec-WebSocket-Protocol", &[b'a', 200])]);
    assert!(matches!(extract_subprotocols(&bad), Err(RequestError::NotText)));
    let mut bad = bad;
    bad.headers_mut().remove("host");
    assert!(matches!(client_handshake(bad), Err(RequestError::NotText)));
}

#[test]
fn a_proper_answer_is_accepted() {
    assert_eq!(verify_response(&answer(&[]), ACCEPT, &None), Ok(()));
    let chosen = answer(&[("Sec-WebSocket-Protocol", b"b")]);
    assert_eq!(verify_response(&chosen, ACCEPT, &offer(&["a", "b"])), Ok(()));
}

#[test]
fn an_answer_has_to_agree() {
    let mut response = answer(&[]);
    response.status = 200;
    assert_eq!(verify_response(&response, ACCEPT, &None), Err(Refusal::Status));
    assert_eq!(Refusal::Status.message(), Some("msg: websocket handshake failed"));
    assert_eq!(Refusal::NotText.message(), None);
}

#[test]
fn an_answer_has_to_name_the_upgrade() {
    let error = protocol(ProtocolError::MissingUpgradeWebSocketHeader);
    assert_eq!(verify_response(&without("upgrade"), ACCEPT, &None), error);
    let mut other = answer(&[]);
    other.headers.insert("upgrade", HeaderValue::from_static("h2c"));
    assert_eq!(verify_response(&other, ACCEPT, &None), error);
    other.headers.insert("upgrade", HeaderValue::from_bytes(b"websocket\xff").unwrap());
    assert_eq!(verify_response(&other, ACCEPT, &None), error);
}

#[test]
fn an_answer_has_to_name_the_connection() {
    let error = protocol(ProtocolError::MissingConnectionUpgradeHeader);
    assert_eq!(verify_response(&without("connection"), ACCEPT, &None), error);
    let mut other = answer(&[]);
    other.headers.insert("connection", HeaderValue::from_static("keep-alive, Upgrade"));
    assert_eq!(verify_response(&other, ACCEPT, &None), error);
}

#[test]
fn an_answer_has_to_know_the_key() {
    let error = protocol(ProtocolError::SecWebSocketAcceptKeyMismatch);
    assert_eq!(verify_response(&without("sec-websocket-accept"), ACCEPT, &None), error);
    assert_eq!(verify_response(&answer(&[]), "S3PPLMBITXAQ9KYGZZHZRBK+XOO=", &None), error);
    assert_eq!(verify_response(&answer(&[]), "", &None), error);
}

#[test]
fn a_subprotocol_is_chosen_from_the_offer() {
    assert_eq!(
        verify_response(&answer(&[]), ACCEPT, &offer(&["a"])),
        choice(SubProtocolError::NoSubProtocol)
    );
    let chosen = answer(&[("Sec-WebSocket-Protocol", b"b")]);
    assert_eq!(
        verify_response(&chosen, ACCEPT, &None),
        choice(SubProtocolError::ServerSentSubProtocolNoneRequested)
    );
    assert_eq!(
        verify_response(&chosen, ACCEPT, &offer(&["a", "B"])),
        choice(SubProtocolError::InvalidSubProtocol)
    );
    let bad = answer(&[("Sec-WebSocket-Protocol", &[200])]);
    assert_eq!(verify_response(&bad, ACCEPT, &offer(&["a"])), Err(Refusal::NotText));
}

#[test]
fn rounds_lead_to_an_open_connection() {
    let handshake = client_handshake(request(&[])).unwrap();
    assert_eq!(handshake.after_round(&Round::WouldBlock), HandshakeAction::Wait);
    assert_eq!(handshake.after_round(&Round::Incomplete), HandshakeAction::Continue);
    assert_eq!(handshake.after_round(&Round::DoneWriting), HandshakeAction::StartRead);
    assert_eq!(
        handshake.after_round(&Round::DoneReading(answer(&[]))),
        HandshakeAction::Finish
    );
    assert_eq!(
        handshake.after_round(&Round::DoneReading(without("upgrade"))),
        HandshakeAction::Refuse(Refusal::Protocol(ProtocolError::MissingUpgradeWebSocketHeader))
    );
}

#[test]
fn names_that_only_newer_versions_allow_do_not_matter() {
    let odd = HeaderName::from_lowercase(b"x\"y").unwrap();
    let mut response = answer(&[]);
    response.headers.insert(odd.clone(), HeaderValue::from_static("1"));
    assert_eq!(verify_response(&response, ACCEPT, &None), Ok(()));
    let mut asking = request(&[("Sec-WebSocket-Protocol", b"a, b")]);
    asking.headers_mut().insert(odd, HeaderValue::from_static("1"));
    assert_eq!(extract_subprotocols(&asking).unwrap(), offer(&["a", "b"]));
    let text = client_handshake(asking).unwrap().request;
    assert!(String::from_utf8(text).unwrap().contains("\r\nx\"y: 1\r\n"));
}

#[test]
fn lists_are_read_back() {
    for items in [vec!["a"], vec!["a", "b c", ""], vec!["", ""], vec!["chat", "chat"]] {
        let list = items.join(",");
        let asking = request(&[("Sec-WebSocket-Protocol", list.as_bytes())]);
        assert_eq!(extract_subprotocols(&asking).unwrap(), offer(&items));
    }
}
