use clash_ws::client::{check_status, Client, InvalidResponse, Plan};
use clash_ws::config::{default_ws_config, WebSocketConfig};
use clash_ws::error::ProtocolError;
use clash_ws::handshake::{
    client_handshake, HandshakeAction, Refusal, RequestError, Round, WsResponse,
};
use clash_ws::header_table::HeaderTable;
use clash_ws::text::write_decimal;
use http::header::{HeaderMap, HeaderValue};

fn table(fields: &[(&str, &str)]) -> HeaderTable {
    let mut table = HeaderTable::new();
    for (name, value) in fields {
        table.insert(name.to_string(), value.to_string());
    }
    table
}

fn client(fields: &[(&str, &str)], max_early_data: usize, early_data: &str) -> Client {
    Client::new(
        "example.com".to_string(),
        8080,
        "/ray".to_string(),
        table(fields),
        None,
        max_early_data,
        early_data.to_string(),
    )
}

fn values(request: &http::Request<()>, name: &str) -> Vec<String> {
    request
        .headers()
        .get_all(name)
        .iter()
        .map(|value| value.to_str().unwrap().to_string())
        .collect()
}

#[test]
fn a_request_asks_for_the_upgrade() {
    let request = client(&[], 0, "").req_with_key("SECRET").unwrap();
    assert_eq!(request.method(), "GET");
    assert_eq!(request.uri().to_string(), "ws://example.com:8080/ray");
    assert_eq!(request.version(), http::Version::HTTP_11);
    assert_eq!(request.headers().len(), 4);
    assert_eq!(values(&request, "connection"), ["Upgrade"]);
    assert_eq!(values(&request, "upgrade"), ["websocket"]);
    assert_eq!(values(&request, "sec-websocket-version"), ["13"]);
    assert_eq!(values(&request, "sec-websocket-key"), ["SECRET"]);
}

#[test]
fn configured_fields_come_after_the_fixed_ones() {
    let request = client(&[("Host", "cdn.example"), ("upgrade", "h2c")], 0, "")
        .req_with_key("SECRET")
        .unwrap();
    assert_eq!(values(&request, "host"), ["cdn.example"]);
    assert_eq!(values(&request, "upgrade"), ["websocket", "h2c"]);
    assert_eq!(request.headers().get("Upgrade").unwrap(), "websocket");
    let order: Vec<_> = request.headers().iter().map(|(name, _)| name.as_str()).collect();
    assert_eq!(
        order,
        ["connection", "upgrade", "upgrade", "sec-websocket-version", "sec-websocket-key", "host"]
    );
}

#[test]
fn early_data_leaves_a_placeholder() {
    let request = client(&[], 1, "Sec-WebSocket-Protocol").req_with_key("SECRET").unwrap();
    assert_eq!(values(&request, "sec-websocket-protocol"), ["xxoo"]);
    let request = client(&[("x-early", "mine")], 1, "X-Early").req_with_key("SECRET").unwrap();
    assert_eq!(values(&request, "x-early"), ["mine", "xxoo"]);
    let request = client(&[], 0, "X-Early").req_with_key("SECRET").unwrap();
    assert!(request.headers().get("x-early").is_none());
}

#[test]
fn the_order_of_configured_fields_does_not_matter() {
    let one = client(&[("a", "1"), ("b", "2")], 0, "").req_with_key("SECRET").unwrap();
    let two = client(&[("b", "2"), ("a", "1")], 0, "").req_with_key("SECRET").unwrap();
    for name in ["a", "b", "connection", "c"] {
        assert_eq!(one.headers().get(name), two.headers().get(name));
    }
}

#[test]
fn what_cannot_stand_in_a_request_is_refused() {
    assert!(client(&[("bad name", "x")], 0, "").req_with_key("SECRET").is_err());
    assert!(client(&[("", "x")], 0, "").req_with_key("SECRET").is_err());
    assert!(client(&[("good", "bad\nvalue")], 0, "").req_with_key("SECRET").is_err());
    assert!(client(&[], 1, "").req_with_key("SECRET").is_err());
    assert!(client(&[], 0, "").req_with_key("bad\u{7f}").is_err());
    assert!(client(&[("good", "\u{e9}\t")], 0, "").req_with_key("SECRET").is_ok());
    let nowhere = Client::new(
        "bad host".to_string(),
        1,
        "/".to_string(),
        HeaderTable::new(),
        None,
        0,
        String::new(),
    );
    assert!(nowhere.req().is_err());
}

#[test]
fn keys_are_fresh_and_well_formed() {
    let client = client(&[], 0, "");
    let mut keys = Vec::new();
    for _ in 0..4 {
        let request = client.req().unwrap();
        let key = request.headers().get("sec-websocket-key").unwrap().to_str().unwrap().to_string();
        assert_eq!(key.len(), 24);
        assert!(key.ends_with("=="));
        assert!(!keys.contains(&key));
        keys.push(key);
    }
}

#[test]
fn a_request_with_a_host_opens_a_handshake() {
    let with_host = client(&[("Host", "example.com")], 0, "");
    let handshake =
        client_handshake(with_host.req_with_key("dGhlIHNhbXBsZSBub25jZQ==").unwrap()).unwrap();
    assert_eq!(handshake.accept_key, "s3pPLMBiTxaQ9kYGzzhZRbK+xOo=");
    let without = client(&[], 0, "").req().unwrap();
    assert!(matches!(client_handshake(without), Err(RequestError::Unusable(_))));
}

#[test]
fn an_answer_to_another_request_is_refused() {
    let client = client(&[("Host", "example.com")], 1, "Sec-WebSocket-Protocol");
    let request = client.req_with_key("dGhlIHNhbXBsZSBub25jZQ==").unwrap();
    let handshake = client_handshake(request).unwrap();
    let other = client_handshake(client.req().unwrap()).unwrap();
    let mut headers = HeaderMap::new();
    headers.insert("upgrade", HeaderValue::from_static("websocket"));
    headers.insert("connection", HeaderValue::from_static("Upgrade"));
    headers.insert(
        "sec-websocket-accept",
        HeaderValue::from_static("s3pPLMBiTxaQ9kYGzzhZRbK+xOo="),
    );
    headers.insert("sec-websocket-protocol", HeaderValue::from_static("xxoo"));
    let round = Round::DoneReading(WsResponse { status: 101, headers });
    assert_eq!(handshake.after_round(&round), HandshakeAction::Finish);
    assert_eq!(
        other.after_round(&round),
        HandshakeAction::Refuse(Refusal::Protocol(ProtocolError::SecWebSocketAcceptKeyMismatch))
    );
}

#[test]
fn a_configuration_of_its_own_wins() {
    assert_eq!(client(&[], 0, "").ws_config(), default_ws_config());
    let mut config = WebSocketConfig::default();
    config.max_frame_size = Some(1);
    let client = Client::new(
        String::new(),
        0,
        String::new(),
        HeaderTable::new(),
        Some(config),
        0,
        String::new(),
    );
    assert_eq!(client.ws_config(), config);
}

#[test]
fn early_data_is_planned_where_it_is_allowed() {
    assert_eq!(client(&[], 0, "x-early").plan(), Plan::Direct);
    assert_eq!(
        client(&[], 2048, "x-early").plan(),
        Plan::EarlyData { header: "x-early".to_string(), limit: 2048 }
    );
}

#[test]
fn a_status_has_to_agree() {
    assert_eq!(check_status(101), Ok(()));
    assert_eq!(check_status(200), Err(InvalidResponse));
    assert_eq!(check_status(404).unwrap_err().message(), "invalid response");
}

#[test]
fn a_table_keeps_the_last_value_of_a_name() {
    let table = table(&[("a", "1"), ("b", "2"), ("a", "3"), ("A", "4")]);
    let entries: Vec<(&str, &str)> =
        table.entries().iter().map(|(name, value)| (name.as_str(), value.as_str())).collect();
    assert_eq!(entries, [("a", "3"), ("b", "2"), ("A", "4")]);
}

#[test]
fn ports_are_written_in_decimal() {
    for port in [0u16, 7, 10, 443, 8080, 65535] {
        assert_eq!(write_decimal(port), port.to_string());
    }
}

#[test]
fn a_header_has_room_for_thousands_of_fields() {
    let names: Vec<String> = (0..6549).map(|i| format!("x-{i}")).collect();
    let fields: Vec<(&str, &str)> = names.iter().map(|name| (name.as_str(), "1")).collect();
    let request = client(&fields, 1, "x-early").req_with_key("SECRET").unwrap();
    assert_eq!(request.headers().len(), 6554);
}
