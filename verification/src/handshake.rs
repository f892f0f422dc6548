//! The handshake that turns an HTTP connection into a WebSocket connection.

use http::header::HeaderMap;
use http::Request;
use tokio_tungstenite::tungstenite;
use vstd::prelude::*;
use vstd::utf8::encode_utf8;

use crate::error::{ProtocolError, SubProtocolError};
use crate::http_message::{
    ascii_text, field, first_value, header_fields, header_get, is_field_name, is_visible,
    law_text_keeps_its_bytes, request_fields, request_header, request_line, value_is, value_to_str,
};
use crate::text::{
    law_items_are_trimmed_parts, list_items, lower, read_list, split_on, texts, trim,
};

verus! {

/// The status that agrees to a change of protocols.
pub const SWITCHING_PROTOCOLS: u16 = 101;

/// An error of the crate `tungstenite`.
#[verifier::external_type_specification]
#[verifier::external_body]
pub struct ExTungsteniteError(tokio_tungstenite::tungstenite::Error);

/// Why a handshake could not be begun.
#[derive(Debug)]
pub enum RequestError {
    /// The list of subprotocols is not text.
    NotText,
    /// The request cannot ask for a WebSocket.
    Unusable(tungstenite::Error),
}

/// Why a server's answer was not accepted.
#[derive(Debug, Clone, Copy, PartialEq, Eq)]
pub enum Refusal {
    /// The server did not agree.
    Status,
    /// The server broke the protocol.
    Protocol(ProtocolError),
    /// The server's choice of a subprotocol is not text.
    NotText,
}

impl Refusal {
    /// The wording of the refusal that is neither the protocol's nor about text.
    pub open spec fn wording(self) -> Option<Seq<char>> {
        match self {
            Refusal::Status => Some("msg: websocket handshake failed"@),
            Refusal::Protocol(_) | Refusal::NotText => None,
        }
    }

    /// What the refusal says, unless the error in it speaks for itself.
    pub fn message(&self) -> (text: Option<&'static str>)
        ensures
            text is Some <==> self.wording() is Some,
            text matches Some(t) ==> Some(t@) == self.wording(),
    {
        match self {
            Refusal::Status => Some("msg: websocket handshake failed"),
            Refusal::Protocol(_) => None,
            Refusal::NotText => None,
        }
    }
}

/// A server's answer to the request, as far as the handshake reads it.
#[derive(Debug)]
pub struct WsResponse {
    /// The status.
    pub status: u16,
    /// The header.
    pub headers: HeaderMap,
}

/// A handshake that has begun.
#[derive(Debug)]
pub struct ClientHandshake {
    /// The request, as it goes over the wire.
    pub request: Vec<u8>,
    /// What the server has to answer to the request's key.
    pub accept_key: String,
    /// The subprotocols that the request offers, if it offers any.
    pub subprotocols: Option<Vec<String>>,
}

/// What one round of input or output on the socket came to.
#[derive(Debug)]
pub enum Round {
    /// The socket has to wait.
    WouldBlock,
    /// There is more of the same to do.
    Incomplete,
    /// The request has been written.
    DoneWriting,
    /// The answer has been read.
    DoneReading(WsResponse),
}

/// What the handshake does after a round.
#[derive(Debug, PartialEq, Eq)]
pub enum HandshakeAction {
    /// Wait for the socket.
    Wait,
    /// Do another round.
    Continue,
    /// Begin to read the answer, then do another round.
    StartRead,
    /// The connection is open.
    Finish,
    /// The connection is not to be used.
    Refuse(Refusal),
}

/// The text of a request, as `tungstenite::handshake::client::generate_request`
/// writes it, from the parts of its first line and from its fields.
pub uninterp spec fn upgrade_text(line: Seq<Seq<char>>, fields: Seq<(Seq<char>, Seq<u8>)>) -> Seq<
    u8,
>;

/// What `tungstenite::handshake::derive_accept_key` makes of a key.
pub uninterp spec fn derived_key(key: Seq<u8>) -> Seq<char>;

/// Whether there is a field of the given name and its value is text.
pub open spec fn has_text(fields: Seq<(Seq<char>, Seq<u8>)>, name: Seq<char>) -> bool {
    field(fields, name) matches Some(value) && is_visible(value)
}

/// Whether a request can ask for a WebSocket: it has a path, a version before
/// the second, and all the fields that such a request needs.
pub open spec fn can_upgrade(line: Seq<Seq<char>>, fields: Seq<(Seq<char>, Seq<u8>)>) -> bool {
    &&& line[3].len() > 0
    &&& line[4] == "HTTP/0.9"@ || line[4] == "HTTP/1.0"@ || line[4] == "HTTP/1.1"@
    &&& has_text(fields, "Host"@)
    &&& has_text(fields, "Connection"@)
    &&& has_text(fields, "Upgrade"@)
    &&& has_text(fields, "Sec-WebSocket-Version"@)
    &&& has_text(fields, "Sec-WebSocket-Key"@)
}

/// The subprotocols that a request with these fields offers; an error if its
/// list of them is not text.
pub open spec fn offered_by(fields: Seq<(Seq<char>, Seq<u8>)>) -> Result<
    Option<Seq<Seq<char>>>,
    (),
> {
    match field(fields, "Sec-WebSocket-Protocol"@) {
        None => Ok(None),
        Some(value) => if is_visible(value) {
            Ok(Some(list_items(ascii_text(value))))
        } else {
            Err(())
        },
    }
}

/// The strings in a vector, if there is one.
pub open spec fn offer_view(subprotocols: Option<Vec<String>>) -> Option<Seq<Seq<char>>> {
    match subprotocols {
        Some(list) => Some(texts(list@)),
        None => None,
    }
}

/// Whether a field has the expected text as its value, whatever the case of the
/// letters.
pub open spec fn says(
    fields: Seq<(Seq<char>, Seq<u8>)>,
    name: Seq<char>,
    expected: Seq<char>,
) -> bool {
    &&& field(fields, name) matches Some(value)
    &&& is_visible(value)
    &&& lower(ascii_text(value)) == lower(expected)
}

/// What is wrong with the server's choice of a subprotocol.
pub open spec fn choice_fault(choice: Option<Seq<u8>>, offer: Option<Seq<Seq<char>>>) -> Option<
    Refusal,
> {
    match (choice, offer) {
        (None, None) => None,
        (None, Some(_)) => Some(
            Refusal::Protocol(
                ProtocolError::SecWebSocketSubProtocolError(SubProtocolError::NoSubProtocol),
            ),
        ),
        (Some(_), None) => Some(
            Refusal::Protocol(
                ProtocolError::SecWebSocketSubProtocolError(
                    SubProtocolError::ServerSentSubProtocolNoneRequested,
                ),
            ),
        ),
        (Some(value), Some(list)) => if !is_visible(value) {
            Some(Refusal::NotText)
        } else if !list.contains(ascii_text(value)) {
            Some(
                Refusal::Protocol(
                    ProtocolError::SecWebSocketSubProtocolError(
                        SubProtocolError::InvalidSubProtocol,
                    ),
                ),
            )
        } else {
            None
        },
    }
}

/// What is wrong with an answer, if anything is.
pub open spec fn answer_fault(
    status: u16,
    fields: Seq<(Seq<char>, Seq<u8>)>,
    accept_key: Seq<char>,
    offer: Option<Seq<Seq<char>>>,
) -> Option<Refusal> {
    if status != SWITCHING_PROTOCOLS {
        Some(Refusal::Status)
    } else if !says(fields, "Upgrade"@, "websocket"@) {
        Some(Refusal::Protocol(ProtocolError::MissingUpgradeWebSocketHeader))
    } else if !says(fields, "Connection"@, "Upgrade"@) {
        Some(Refusal::Protocol(ProtocolError::MissingConnectionUpgradeHeader))
    } else if field(fields, "Sec-WebSocket-Accept"@) != Some(encode_utf8(accept_key)) {
        Some(Refusal::Protocol(ProtocolError::SecWebSocketAcceptKeyMismatch))
    } else {
        choice_fault(field(fields, "Sec-WebSocket-Protocol"@), offer)
    }
}

/// `tungstenite::handshake::client::generate_request`: the request as text, and
/// the key in it.  It succeeds for every request that can ask for a WebSocket,
/// and for no other.
#[verifier::external_body]
fn generate_request(request: Request<()>) -> (result: Result<(Vec<u8>, String), tungstenite::Error>)
    ensures
        result is Ok <==> can_upgrade(request_line(request), request_fields(request)),
        result matches Ok((text, key)) ==> {
            &&& text@ == upgrade_text(request_line(request), request_fields(request))
            &&& field(request_fields(request), "Sec-WebSocket-Key"@) matches Some(value)
                && key@ == ascii_text(value)
        },
{
    tungstenite::handshake::client::generate_request(request)
}

/// `tungstenite::handshake::derive_accept_key`: what a server answers to a key.
#[verifier::external_body]
fn derive_accept_key(key: &[u8]) -> (accept_key: String)
    ensures
        accept_key@ == derived_key(key@),
{
    tungstenite::handshake::derive_accept_key(key)
}

/// The names that are looked up are names of fields.
proof fn lemma_field_names()
    ensures
        is_field_name("Upgrade"@),
        is_field_name("Connection"@),
        is_field_name("Sec-WebSocket-Accept"@),
        is_field_name("Sec-WebSocket-Protocol"@),
{
    reveal_strlit("Upgrade");
    reveal_strlit("Connection");
    reveal_strlit("Sec-WebSocket-Accept");
    reveal_strlit("Sec-WebSocket-Protocol");
}

/// The subprotocols that a request offers.
pub fn extract_subprotocols(request: &Request<()>) -> (result: Result<
    Option<Vec<String>>,
    RequestError,
>)
    ensures
        match result {
            Ok(list) => offered_by(request_fields(*request)) == Ok::<_, ()>(offer_view(list)),
            Err(error) => error is NotText && offered_by(request_fields(*request)) is Err,
        },
{
    proof {
        lemma_field_names();
    }
    match header_get(request_header(request), "Sec-WebSocket-Protocol") {
        None => Ok(None),
        Some(value) => match value_to_str(value) {
            Ok(text) => {
                Ok(Some(read_list(text)))
            },
            Err(_) => Err(RequestError::NotText),
        },
    }
}

/// Begins a handshake: settles what goes over the wire and what has to come
/// back.
pub fn client_handshake(request: Request<()>) -> (result: Result<ClientHandshake, RequestError>)
    ensures
        ({
            let fields = request_fields(request);
            let line = request_line(request);
            match result {
                Ok(handshake) => {
                    &&& can_upgrade(line, fields)
                    &&& offered_by(fields) == Ok::<_, ()>(offer_view(handshake.subprotocols))
                    &&& handshake.request@ == upgrade_text(line, fields)
                    &&& handshake.accept_key@ == derived_key(
                        field(fields, "Sec-WebSocket-Key"@)->Some_0,
                    )
                },
                Err(RequestError::NotText) => offered_by(fields) is Err,
                Err(RequestError::Unusable(_)) => offered_by(fields) is Ok && !can_upgrade(
                    line,
                    fields,
                ),
            }
        }),
{
    let subprotocols = match extract_subprotocols(&request) {
        Ok(subprotocols) => subprotocols,
        Err(error) => return Err(error),
    };
    match generate_request(request) {
        Ok((text, key)) => {
            proof {
                law_text_keeps_its_bytes(
                    field(request_fields(request), "Sec-WebSocket-Key"@)->Some_0,
                );
            }
            let accept_key = derive_accept_key(key.as_str().as_bytes());
            Ok(ClientHandshake { request: text, accept_key, subprotocols })
        },
        Err(error) => Err(RequestError::Unusable(error)),
    }
}

/// Whether a field has the expected text as its value, whatever the case of the
/// letters.
fn header_says(headers: &HeaderMap, name: &str, expected: &str) -> (yes: bool)
    requires
        is_field_name(name@),
    ensures
        yes == says(header_fields(*headers), name@, expected@),
{
    match header_get(headers, name) {
        Some(value) => match value_to_str(value) {
            Ok(text) => text.eq_ignore_ascii_case(expected),
            Err(_) => false,
        },
        None => false,
    }
}

/// Whether a list holds a string.
fn lists(list: &Vec<String>, text: &str) -> (yes: bool)
    ensures
        yes == texts(list@).contains(text@),
{
    let wanted = text.to_owned();
    let mut i: usize = 0;
    while i < list.len()
        invariant
            i <= list.len(),
            wanted@ == text@,
            forall|j: int| 0 <= j < i ==> texts(list@)[j] != text@,
        decreases list.len() - i,
    {
        if list[i] == wanted {
            assert(texts(list@)[i as int] == text@);
            return true;
        }
        i += 1;
    }
    false
}

/// Whether a server's answer opens the connection.
pub fn verify_response(
    response: &WsResponse,
    accept_key: &str,
    subprotocols: &Option<Vec<String>>,
) -> (result: Result<(), Refusal>)
    ensures
        result == match answer_fault(
            response.status,
            header_fields(response.headers),
            accept_key@,
            offer_view(*subprotocols),
        ) {
            Some(fault) => Err(fault),
            None => Ok(()),
        },
{
    proof {
        lemma_field_names();
    }
    let headers = &response.headers;

    if response.status != SWITCHING_PROTOCOLS {
        return Err(Refusal::Status);
    }
    if !header_says(headers, "Upgrade", "websocket") {
        return Err(Refusal::Protocol(ProtocolError::MissingUpgradeWebSocketHeader));
    }
    if !header_says(headers, "Connection", "Upgrade") {
        return Err(Refusal::Protocol(ProtocolError::MissingConnectionUpgradeHeader));
    }
    let accepted = match header_get(headers, "Sec-WebSocket-Accept") {
        Some(value) => value_is(value, accept_key),
        None => false,
    };
    if !accepted {
        return Err(Refusal::Protocol(ProtocolError::SecWebSocketAcceptKeyMismatch));
    }
    match (header_get(headers, "Sec-WebSocket-Protocol"), subprotocols) {
        (None, None) => Ok(()),
        (None, Some(_)) => Err(
            Refusal::Protocol(
                ProtocolError::SecWebSocketSubProtocolError(SubProtocolError::NoSubProtocol),
            ),
        ),
        (Some(_), None) => Err(
            Refusal::Protocol(
                ProtocolError::SecWebSocketSubProtocolError(
                    SubProtocolError::ServerSentSubProtocolNoneRequested,
                ),
            ),
        ),
        (Some(value), Some(list)) => match value_to_str(value) {
            Err(_) => Err(Refusal::NotText),
            Ok(text) => if lists(list, text) {
                Ok(())
            } else {
                Err(
                    Refusal::Protocol(
                        ProtocolError::SecWebSocketSubProtocolError(
                            SubProtocolError::InvalidSubProtocol,
                        ),
                    ),
                )
            },
        },
    }
}

impl ClientHandshake {
    /// Decides what follows a round of input or output.
    pub fn after_round(&self, round: &Round) -> (action: HandshakeAction)
        ensures
            action == match *round {
                Round::WouldBlock => HandshakeAction::Wait,
                Round::Incomplete => HandshakeAction::Continue,
                Round::DoneWriting => HandshakeAction::StartRead,
                Round::DoneReading(response) => match answer_fault(
                    response.status,
                    header_fields(response.headers),
                    self.accept_key@,
                    offer_view(self.subprotocols),
                ) {
                    Some(fault) => HandshakeAction::Refuse(fault),
                    None => HandshakeAction::Finish,
                },
            },
    {
        match round {
            Round::WouldBlock => HandshakeAction::Wait,
            Round::Incomplete => HandshakeAction::Continue,
            Round::DoneWriting => HandshakeAction::StartRead,
            Round::DoneReading(response) => match verify_response(
                response,
                self.accept_key.as_str(),
                &self.subprotocols,
            ) {
                Ok(_) => HandshakeAction::Finish,
                Err(fault) => HandshakeAction::Refuse(fault),
            },
        }
    }
}

/// What an answer has to be to be accepted: the status that agrees, the two
/// fields that name the upgrade, the key that belongs to the request, and a
/// subprotocol that was offered exactly if some were.
pub proof fn law_accepted_answers(
    status: u16,
    fields: Seq<(Seq<char>, Seq<u8>)>,
    accept_key: Seq<char>,
    offer: Option<Seq<Seq<char>>>,
)
    ensures
        answer_fault(status, fields, accept_key, offer) is None <==> {
            &&& status == SWITCHING_PROTOCOLS
            &&& says(fields, "Upgrade"@, "websocket"@)
            &&& says(fields, "Connection"@, "Upgrade"@)
            &&& field(fields, "Sec-WebSocket-Accept"@) == Some(encode_utf8(accept_key))
            &&& field(fields, "Sec-WebSocket-Protocol"@) is Some <==> offer is Some
            &&& field(fields, "Sec-WebSocket-Protocol"@) matches Some(value) ==> {
                &&& is_visible(value)
                &&& offer->Some_0.contains(ascii_text(value))
            }
        },
{
}

/// Whether a field is there and is the expected text but for the case of its
/// letters.
pub open spec fn is_text(
    fields: Seq<(Seq<char>, Seq<u8>)>,
    name: Seq<char>,
    expected: Seq<char>,
) -> bool {
    &&& first_value(fields, lower(name)) matches Some(value)
    &&& is_visible(value)
    &&& lower(ascii_text(value)) == lower(expected)
}

/// A request offers subprotocols exactly if it has the field for them: the items
/// of its list, in order, each without the white space around it.  It is an
/// error exactly if that field is not text.
pub proof fn law_offers_are_read(
    request: Request<()>,
    result: Result<Option<Vec<String>>, RequestError>,
)
    requires
        call_ensures(extract_subprotocols, (&request,), result),
    ensures
        match first_value(request_fields(request), lower("Sec-WebSocket-Protocol"@)) {
            None => result is Ok && result->Ok_0 is None,
            Some(value) => if is_visible(value) {
                let parts = split_on(ascii_text(value), ',');
                &&& result matches Ok(Some(items))
                &&& items@.len() == parts.len()
                &&& forall|i: int|
                    0 <= i < parts.len() ==> (#[trigger] items@[i])@ == trim(parts[i])
            } else {
                result matches Err(error) && error is NotText
            },
        },
{
    if let Some(value) = first_value(
        request_fields(request),
        lower("Sec-WebSocket-Protocol"@),
    ) {
        if is_visible(value) {
            let items = result->Ok_0->Some_0;
            let parts = split_on(ascii_text(value), ',');
            law_items_are_trimmed_parts(ascii_text(value));
            assert(texts(items@).len() == items@.len());
            assert forall|i: int| 0 <= i < parts.len() implies (#[trigger] items@[i])@ == trim(
                parts[i],
            ) by {
                assert(texts(items@)[i] == items@[i]@);
                assert(list_items(ascii_text(value))[i] == trim(parts[i]));
            }
        }
    }
}

/// A handshake writes the request as it is, expects what follows from its key
/// and remembers what it offers.  It can be begun exactly if the offer can be
/// read and the request has a path, an old enough version and, as text, the five
/// fields that a request for a WebSocket needs.
pub proof fn law_handshakes_follow_their_request(
    request: Request<()>,
    result: Result<ClientHandshake, RequestError>,
    offer: Result<Option<Vec<String>>, RequestError>,
)
    requires
        call_ensures(client_handshake, (request,), result),
        call_ensures(extract_subprotocols, (&request,), offer),
    ensures
        ({
            let line = request_line(request);
            let fields = request_fields(request);
            let has = |name: Seq<char>|
                {
                    &&& first_value(fields, lower(name)) matches Some(value)
                    &&& is_visible(value)
                };
            let complete = {
                &&& line[3].len() > 0
                &&& line[4] == "HTTP/1.1"@ || line[4] == "HTTP/1.0"@ || line[4] == "HTTP/0.9"@
                &&& has("Host"@) && has("Connection"@) && has("Upgrade"@)
                &&& has("Sec-WebSocket-Version"@) && has("Sec-WebSocket-Key"@)
            };
            match result {
                Ok(handshake) => {
                    &&& complete
                    &&& offer matches Ok(offered)
                    &&& match (handshake.subprotocols, offered) {
                        (None, None) => true,
                        (Some(kept), Some(read)) => {
                            &&& kept@.len() == read@.len()
                            &&& forall|i: int|
                                0 <= i < read@.len() ==> (#[trigger] kept@[i])@ == read@[i]@
                        },
                        _ => false,
                    }
                    &&& handshake.request@ == upgrade_text(line, fields)
                    &&& handshake.accept_key@ == derived_key(
                        first_value(fields, lower("Sec-WebSocket-Key"@))->Some_0,
                    )
                },
                Err(RequestError::NotText) => offer is Err,
                Err(RequestError::Unusable(_)) => offer is Ok && !complete,
            }
        }),
{
    if let (Ok(handshake), Ok(offered)) = (result, offer) {
        if let (Some(kept), Some(read)) = (handshake.subprotocols, offered) {
            assert(texts(kept@).len() == kept@.len() && texts(read@).len() == read@.len());
            assert forall|i: int| 0 <= i < read@.len() implies (#[trigger] kept@[i])@
                == read@[i]@ by {
                assert(texts(kept@)[i] == kept@[i]@);
                assert(texts(read@)[i] == read@[i]@);
            }
        }
    }
}

/// An answer is accepted exactly if it agrees, with status 101, to an upgrade to
/// a WebSocket, carries the expected key, and chooses one of the offered
/// subprotocols, or none where none were offered.
pub proof fn law_right_answers_are_accepted(
    response: WsResponse,
    accept_key: &str,
    subprotocols: Option<Vec<String>>,
    result: Result<(), Refusal>,
)
    requires
        call_ensures(verify_response, (&response, accept_key, &subprotocols), result),
    ensures
        ({
            let fields = header_fields(response.headers);
            let choice = first_value(fields, lower("Sec-WebSocket-Protocol"@));
            result is Ok <==> {
                &&& response.status == 101
                &&& is_text(fields, "Upgrade"@, "websocket"@)
                &&& is_text(fields, "Connection"@, "Upgrade"@)
                &&& first_value(fields, lower("Sec-WebSocket-Accept"@)) == Some(
                    encode_utf8(accept_key@),
                )
                &&& match subprotocols {
                    None => choice is None,
                    Some(list) => {
                        &&& choice matches Some(value)
                        &&& is_visible(value)
                        &&& exists|i: int|
                            0 <= i < list@.len() && (#[trigger] list@[i])@ == ascii_text(value)
                    },
                }
            }
        }),
{
    let fields = header_fields(response.headers);
    if let (Some(value), Some(list)) = (
        first_value(fields, lower("Sec-WebSocket-Protocol"@)),
        subprotocols,
    ) {
        let chosen = ascii_text(value);
        if texts(list@).contains(chosen) {
            let i = choose|i: int| 0 <= i < texts(list@).len() && texts(list@)[i] == chosen;
            assert(list@[i]@ == chosen);
        }
        if exists|i: int| 0 <= i < list@.len() && (#[trigger] list@[i])@ == chosen {
            let i = choose|i: int| 0 <= i < list@.len() && (#[trigger] list@[i])@ == chosen;
            assert(texts(list@)[i] == chosen);
        }
    }
}

/// A wrong answer is refused for the first thing that is wrong with it: its
/// status, its upgrade, its connection, its key, or its choice of a subprotocol.
pub proof fn law_wrong_answers_are_refused_for_a_reason(
    response: WsResponse,
    accept_key: &str,
    subprotocols: Option<Vec<String>>,
    result: Result<(), Refusal>,
)
    requires
        call_ensures(verify_response, (&response, accept_key, &subprotocols), result),
    ensures
        ({
            let fields = header_fields(response.headers);
            let choice = first_value(fields, lower("Sec-WebSocket-Protocol"@));
            let broken = |error: ProtocolError|
                result == Err::<(), Refusal>(Refusal::Protocol(error));
            let choosing = |error: SubProtocolError|
                broken(ProtocolError::SecWebSocketSubProtocolError(error));
            if response.status != 101 {
                result == Err::<(), Refusal>(Refusal::Status)
            } else if !is_text(fields, "Upgrade"@, "websocket"@) {
                broken(ProtocolError::MissingUpgradeWebSocketHeader)
            } else if !is_text(fields, "Connection"@, "Upgrade"@) {
                broken(ProtocolError::MissingConnectionUpgradeHeader)
            } else if first_value(fields, lower("Sec-WebSocket-Accept"@)) != Some(
                encode_utf8(accept_key@),
            ) {
                broken(ProtocolError::SecWebSocketAcceptKeyMismatch)
            } else if choice is None && subprotocols is Some {
                choosing(SubProtocolError::NoSubProtocol)
            } else if choice is Some && subprotocols is None {
                choosing(SubProtocolError::ServerSentSubProtocolNoneRequested)
            } else if choice is Some && !is_visible(choice->Some_0) {
                result == Err::<(), Refusal>(Refusal::NotText)
            } else {
                result is Ok || choosing(SubProtocolError::InvalidSubProtocol)
            }
        }),
{
}

/// The handshake goes on until the answer has been read, and then ends as the
/// answer deserves.
pub proof fn law_rounds_lead_to_the_answer(
    handshake: ClientHandshake,
    accept_key: &str,
    response: WsResponse,
    verdict: Result<(), Refusal>,
    round: Round,
    action: HandshakeAction,
)
    requires
        call_ensures(ClientHandshake::after_round, (&handshake, &round), action),
        accept_key@ == handshake.accept_key@,
        call_ensures(
            verify_response,
            (&response, accept_key, &handshake.subprotocols),
            verdict,
        ),
    ensures
        match round {
            Round::WouldBlock => action is Wait,
            Round::Incomplete => action is Continue,
            Round::DoneWriting => action is StartRead,
            Round::DoneReading(read) => read == response ==> action == match verdict {
                Ok(_) => HandshakeAction::Finish,
                Err(refusal) => HandshakeAction::Refuse(refusal),
            },
        },
{
}

/// The refusal of an answer that does not agree has words of its own; the others
/// speak for themselves.
pub proof fn law_refusals_have_their_words(refusal: Refusal, text: Option<&'static str>)
    requires
        call_ensures(Refusal::message, (&refusal,), text),
    ensures
        refusal is Status ==> text is Some && text->Some_0@ == "msg: websocket handshake failed"@,
        refusal !is Status ==> text is None,
{
}

} // verus!
