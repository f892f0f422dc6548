//! What is configured for a WebSocket server, and the request that follows.

use http::request::Builder;
use http::Request;
use tokio_tungstenite::tungstenite;
use vstd::prelude::*;
use vstd::string::StringExecFns;
use vstd::utf8::{encode_utf8, is_ascii_chars, is_ascii_chars_encode_utf8};

use crate::config::{default_ws_config, transport_defaults, WebSocketConfig};
use crate::handshake::{
    answer_fault, can_upgrade, derived_key, has_text, offered_by, SWITCHING_PROTOCOLS,
};
use crate::header_table::{entries_view, HeaderTable};
use crate::http_message::{
    appended, ascii_text, builder_body, builder_failed, builder_fields, builder_header, builder_line,
    builder_method, builder_uri, field, first_value, is_field_name, is_field_value, is_token, is_visible,
    law_earlier_fields_win, law_fields_are_added_last, request_builder, request_fields, request_line,
    uri_parts, values_under, ROOMY,
};
use crate::text::{decimal, list_items, lower, write_decimal};

verus! {

/// A WebSocket server and how to speak to it.
#[derive(Debug)]
pub struct Client {
    server: String,
    port: u16,
    path: String,
    headers: HeaderTable,
    ws_config: Option<WebSocketConfig>,
    max_early_data: usize,
    early_data_header_name: String,
}

/// The mathematical value of a [`Client`].
#[verifier::ext_equal]
pub struct ClientView {
    /// The server's name.
    pub server: Seq<char>,
    /// The server's port.
    pub port: u16,
    /// The path of the WebSocket, with the slash before it.
    pub path: Seq<char>,
    /// Fields that every request gets, by name.
    pub headers: Seq<(Seq<char>, Seq<char>)>,
    /// How the connection is tuned, if that is configured.
    pub ws_config: Option<WebSocketConfig>,
    /// How many of the first bytes may travel in the request.
    pub max_early_data: usize,
    /// The field that they travel in.
    pub early_data_header_name: Seq<char>,
}

/// How a stream becomes a WebSocket.
#[derive(Debug, PartialEq, Eq)]
pub enum Plan {
    /// The request waits for the first bytes, of which it takes up to `limit`
    /// along in the field `header`.
    EarlyData { header: String, limit: usize },
    /// The request is sent at once.
    Direct,
}

/// That the server's answer did not agree to the change of protocols.
#[derive(Debug, Clone, Copy, PartialEq, Eq)]
pub struct InvalidResponse;

impl InvalidResponse {
    /// What the error says.
    pub fn message(&self) -> (text: &'static str)
        ensures
            text@ == "invalid response"@,
    {
        "invalid response"
    }
}

/// That the configuration cannot be made into a request.
#[derive(Debug)]
pub struct BuildError {
    /// What the crate `http` says of it.
    pub cause: http::Error,
}

impl ClientView {
    /// The URI of the WebSocket.
    pub open spec fn uri(self) -> Seq<char> {
        "ws://"@ + self.server + ":"@ + decimal(self.port as nat) + self.path
    }

    /// The fields of a request with the given key, as they are given one after
    /// the other.
    pub open spec fn given_fields(self, key: Seq<char>) -> Seq<(Seq<char>, Seq<char>)> {
        seq![
            ("Connection"@, "Upgrade"@),
            ("Upgrade"@, "websocket"@),
            ("Sec-WebSocket-Version"@, "13"@),
            ("Sec-WebSocket-Key"@, key),
        ] + self.headers + self.placeholder()
    }

    /// The field that stands for the first bytes until they are known.
    pub open spec fn placeholder(self) -> Seq<(Seq<char>, Seq<char>)> {
        if self.max_early_data > 0 {
            seq![(self.early_data_header_name, "xxoo"@)]
        } else {
            Seq::empty()
        }
    }

    /// Whether all that is configured can stand in a request.
    pub open spec fn well_configured(self) -> bool {
        &&& uri_parts(self.uri()) is Some
        &&& all_fields(self.headers)
        &&& all_fields(self.placeholder())
    }

    /// How many fields a request has.
    pub open spec fn field_count(self) -> nat {
        4 + self.headers.len() + self.placeholder().len()
    }

    /// The first line of the request.
    pub open spec fn first_line(self) -> Seq<Seq<char>> {
        let parts = uri_parts(self.uri())->Some_0;
        seq!["GET"@, parts.0, parts.1, parts.2, "HTTP/1.1"@]
    }
}

/// Whether all of these can be fields.
pub open spec fn all_fields(given: Seq<(Seq<char>, Seq<char>)>) -> bool {
    forall|i: int|
        0 <= i < given.len() ==> is_field_name((#[trigger] given[i]).0) && is_field_value(given[i].1)
}

/// The fields that result from giving these one after the other.
pub open spec fn collected(given: Seq<(Seq<char>, Seq<char>)>) -> Seq<(Seq<char>, Seq<u8>)>
    decreases given.len(),
{
    if given.len() == 0 {
        Seq::empty()
    } else {
        appended(
            collected(given.drop_last()),
            lower(given.last().0),
            encode_utf8(given.last().1),
        )
    }
}

/// Whether a text can be the key of a request: sixteen bytes in base 64.
pub open spec fn is_websocket_key(key: Seq<char>) -> bool {
    &&& key.len() == 24
    &&& key[22] == '=' && key[23] == '='
    &&& forall|i: int| 0 <= i < 22 ==> is_base64(#[trigger] key[i])
}

/// Whether a character is a digit of base 64.
pub open spec fn is_base64(c: char) -> bool {
    ||| 'A' <= c && c <= 'Z'
    ||| 'a' <= c && c <= 'z'
    ||| '0' <= c && c <= '9'
    ||| c == '+' || c == '/'
}

/// `tungstenite::handshake::client::generate_key`: sixteen random bytes in base
/// 64.
#[verifier::external_body]
fn generate_key() -> (key: String)
    ensures
        is_websocket_key(key@),
{
    tungstenite::handshake::client::generate_key()
}

/// Whether `builder` is what comes of giving these fields.  `line` is the first
/// line that it has, and `fit` says whether all that was given for it can be
/// used.
spec fn built(
    builder: Builder,
    given: Seq<(Seq<char>, Seq<char>)>,
    line: Seq<Seq<char>>,
    fit: bool,
) -> bool {
    &&& !builder_failed(builder) ==> {
        &&& fit
        &&& all_fields(given)
        &&& builder_fields(builder) == collected(given)
        &&& builder_line(builder) == line
    }
    &&& fit && all_fields(given) && given.len() <= ROOMY ==> !builder_failed(builder)
}

proof fn lemma_collected_len(given: Seq<(Seq<char>, Seq<char>)>)
    ensures
        collected(given).len() == given.len(),
    decreases given.len(),
{
    if given.len() > 0 {
        lemma_collected_len(given.drop_last());
        law_earlier_fields_win(
            collected(given.drop_last()),
            lower(given.last().0),
            encode_utf8(given.last().1),
            lower(given.last().0),
        );
    }
}

proof fn lemma_all_fields_concat(a: Seq<(Seq<char>, Seq<char>)>, b: Seq<(Seq<char>, Seq<char>)>)
    ensures
        all_fields(a + b) <==> all_fields(a) && all_fields(b),
{
    let both = a + b;
    if all_fields(both) {
        assert forall|i: int| 0 <= i < a.len() implies is_field_name((#[trigger] a[i]).0)
            && is_field_value(a[i].1) by {
            assert(both[i] == a[i]);
        }
        assert forall|i: int| 0 <= i < b.len() implies is_field_name((#[trigger] b[i]).0)
            && is_field_value(b[i].1) by {
            assert(both[a.len() + i] == b[i]);
        }
    }
    if all_fields(a) && all_fields(b) {
        assert forall|i: int| 0 <= i < both.len() implies is_field_name((#[trigger] both[i]).0)
            && is_field_value(both[i].1) by {
            if i < a.len() {
                assert(both[i] == a[i]);
            } else {
                assert(both[i] == b[i - a.len()]);
            }
        }
    }
}

/// The fields that every request has.
spec fn fixed_fields(key: Seq<char>) -> Seq<(Seq<char>, Seq<char>)> {
    seq![
        ("Connection"@, "Upgrade"@),
        ("Upgrade"@, "websocket"@),
        ("Sec-WebSocket-Version"@, "13"@),
        ("Sec-WebSocket-Key"@, key),
    ]
}

proof fn lemma_all_given(client: ClientView, key: Seq<char>)
    ensures
        all_fields(client.given_fields(key)) <==> {
            &&& all_fields(client.headers)
            &&& all_fields(client.placeholder())
            &&& is_field_value(key)
        },
        all_fields(client.given_fields(key)) ==> all_fields(fixed_fields(key)),
        client.given_fields(key).len() == client.field_count(),
{
    let fixed = fixed_fields(key);
    assert(all_fields(fixed) <==> is_field_value(key)) by {
        reveal_strlit("Connection");
        reveal_strlit("Upgrade");
        reveal_strlit("websocket");
        reveal_strlit("Sec-WebSocket-Version");
        reveal_strlit("13");
        reveal_strlit("Sec-WebSocket-Key");
        assert(fixed[3] == ("Sec-WebSocket-Key"@, key));
        assert(is_field_name("Connection"@) && is_field_value("Upgrade"@));
        assert(is_field_name("Upgrade"@) && is_field_value("websocket"@));
        assert(is_field_name("Sec-WebSocket-Version"@) && is_field_value("13"@));
        assert(is_field_name("Sec-WebSocket-Key"@));
    }
    lemma_all_fields_concat(fixed, client.headers);
    lemma_all_fields_concat(fixed + client.headers, client.placeholder());
}

proof fn lemma_key_is_value(key: Seq<char>)
    requires
        is_websocket_key(key),
    ensures
        is_field_value(key),
{
    assert forall|i: int| 0 <= i < key.len() implies (#[trigger] key[i] as u32 >= 32 && key[i] as u32
        != 127) || key[i] == '\t' by {
        if i < 22 {
            assert(is_base64(key[i]));
        } else {
            assert(i == 22 || i == 23);
        }
    }
}

/// Gives one more field.
fn give(
    builder: Builder,
    name: &str,
    value: &str,
    Ghost(given): Ghost<Seq<(Seq<char>, Seq<char>)>>,
    Ghost(line): Ghost<Seq<Seq<char>>>,
    Ghost(fit): Ghost<bool>,
) -> (result: Builder)
    requires
        built(builder, given, line, fit),
    ensures
        built(result, given.push((name@, value@)), line, fit),
{
    proof {
        let more = given.push((name@, value@));
        lemma_collected_len(given);
        assert(more.drop_last() =~= given);
        assert(all_fields(more) <==> all_fields(given) && is_field_name(name@) && is_field_value(
            value@,
        )) by {
            if all_fields(more) {
                assert(more[given.len() as int] == (name@, value@));
                assert forall|i: int| 0 <= i < given.len() implies is_field_name(
                    (#[trigger] given[i]).0,
                ) && is_field_value(given[i].1) by {
                    assert(more[i] == given[i]);
                }
            }
        }
    }
    builder_header(builder, name, value)
}

impl View for Client {
    type V = ClientView;

    closed spec fn view(&self) -> ClientView {
        ClientView {
            server: self.server@,
            port: self.port,
            path: self.path@,
            headers: self.headers@,
            ws_config: self.ws_config,
            max_early_data: self.max_early_data,
            early_data_header_name: self.early_data_header_name@,
        }
    }
}

impl Client {
    /// A server and how to speak to it.
    pub fn new(
        server: String,
        port: u16,
        path: String,
        headers: HeaderTable,
        ws_config: Option<WebSocketConfig>,
        max_early_data: usize,
        early_data_header_name: String,
    ) -> (client: Self)
        ensures
            client@ == (ClientView {
                server: server@,
                port,
                path: path@,
                headers: headers@,
                ws_config,
                max_early_data,
                early_data_header_name: early_data_header_name@,
            }),
    {
        Client {
            server,
            port,
            path,
            headers,
            ws_config,
            max_early_data,
            early_data_header_name,
        }
    }

    /// How the connection is tuned.
    pub fn ws_config(&self) -> (config: WebSocketConfig)
        ensures
            config == match self@.ws_config {
                Some(config) => config,
                None => transport_defaults(),
            },
    {
        match self.ws_config {
            Some(config) => config,
            None => default_ws_config(),
        }
    }

    /// The URI of the WebSocket.
    fn uri(&self) -> (uri: String)
        ensures
            uri@ == self@.uri(),
    {
        let mut uri = "ws://".to_owned();
        uri.append(self.server.as_str());
        uri.append(":");
        uri.append(write_decimal(self.port).as_str());
        uri.append(self.path.as_str());
        uri
    }

    /// The request that asks the server for a WebSocket, with a fresh key.
    ///
    /// It fails where what is configured cannot stand in a request.  Where more
    /// fields are configured than any server would read, whether the header has
    /// room for them is up to the crate `http`.
    pub fn req(&self) -> (result: Result<Request<()>, BuildError>)
        ensures
            match result {
                Ok(request) => {
                    &&& self@.well_configured()
                    &&& request_line(request) == self@.first_line()
                    &&& exists|key: Seq<char>| #[trigger]
                        is_websocket_key(key) && request_fields(request) == collected(
                            self@.given_fields(key),
                        )
                    &&& can_upgrade(request_line(request), request_fields(request)) <==> has_text(
                        request_fields(request),
                        "Host"@,
                    )
                },
                Err(_) => !self@.well_configured() || self@.field_count() > ROOMY,
            },
    {
        let key = generate_key();
        proof {
            lemma_key_is_value(key@);
            law_requests_need_a_host(self@, key@);
        }
        self.req_with_key(key.as_str())
    }

    /// The request that asks the server for a WebSocket, with the given key.
    pub fn req_with_key(&self, key: &str) -> (result: Result<Request<()>, BuildError>)
        ensures
            match result {
                Ok(request) => {
                    &&& self@.well_configured()
                    &&& is_field_value(key@)
                    &&& request_line(request) == self@.first_line()
                    &&& request_fields(request) == collected(self@.given_fields(key@))
                    &&& request_line(request)[1] == "ws"@
                    &&& request_line(request)[3].len() > 0
                },
                Err(_) => !self@.well_configured() || !is_field_value(key@) || self@.field_count()
                    > ROOMY,
            },
    {
        proof {
            lemma_all_given(self@, key@);
        }
        let ghost mut given: Seq<(Seq<char>, Seq<char>)> = Seq::empty();
        let ghost plain = seq!["GET"@, ""@, ""@, "/"@, "HTTP/1.1"@];
        proof {
            reveal_strlit("GET");
            assert(is_token("GET"@));
            assert(plain.update(0, "GET"@) =~= plain);
        }
        let builder = builder_method(request_builder(), "GET");
        let builder = give(
            builder,
            "Connection",
            "Upgrade",
            Ghost(given),
            Ghost(plain),
            Ghost(true),
        );
        proof {
            given = given.push(("Connection"@, "Upgrade"@));
        }
        let builder = give(
            builder,
            "Upgrade",
            "websocket",
            Ghost(given),
            Ghost(plain),
            Ghost(true),
        );
        proof {
            given = given.push(("Upgrade"@, "websocket"@));
        }
        let builder = give(
            builder,
            "Sec-WebSocket-Version",
            "13",
            Ghost(given),
            Ghost(plain),
            Ghost(true),
        );
        proof {
            given = given.push(("Sec-WebSocket-Version"@, "13"@));
        }
        let builder = give(
            builder,
            "Sec-WebSocket-Key",
            key,
            Ghost(given),
            Ghost(plain),
            Ghost(true),
        );
        proof {
            given = given.push(("Sec-WebSocket-Key"@, key@));
        }
        let ghost first = given;
        assert(first =~= fixed_fields(key@));
        let ghost fit = uri_parts(self@.uri()) is Some;
        let ghost line = self@.first_line();
        proof {
            let parts = uri_parts(self@.uri())->Some_0;
            assert(plain.update(1, parts.0).update(2, parts.1).update(3, parts.2) =~= line);
        }
        assert("ws://"@.is_prefix_of(self@.uri()));
        let mut builder = builder_uri(builder, self.uri());
        assert(!builder_failed(builder) ==> line[1] == "ws"@ && line[3].len() > 0);

        let entries = self.headers.entries();
        let mut i: usize = 0;
        while i < entries.len()
            invariant
                i <= entries.len(),
                self@.headers == entries_view(entries@),
                given == first + self@.headers.take(i as int),
                built(builder, given, line, fit),
                all_fields(first) && fit ==> line[1] == "ws"@ && line[3].len() > 0,
            decreases entries.len() - i,
        {
            let entry = &entries[i];
            builder = give(
                builder,
                entry.0.as_str(),
                entry.1.as_str(),
                Ghost(given),
                Ghost(line),
                Ghost(fit),
            );
            proof {
                given = given.push((entry.0@, entry.1@));
                assert(given =~= first + self@.headers.take(i + 1));
            }
            i += 1;
        }
        if self.max_early_data > 0 {
            builder = give(
                builder,
                self.early_data_header_name.as_str(),
                "xxoo",
                Ghost(given),
                Ghost(line),
                Ghost(fit),
            );
            proof {
                given = given.push((self.early_data_header_name@, "xxoo"@));
            }
        }
        proof {
            assert(given =~= self@.given_fields(key@));
        }
        match builder_body(builder) {
            Ok(request) => Ok(request),
            Err(cause) => Err(BuildError { cause }),
        }
    }

    /// How a stream to the server becomes a WebSocket.
    pub fn plan(&self) -> (plan: Plan)
        ensures
            match plan {
                Plan::EarlyData { header, limit } => {
                    &&& self@.max_early_data > 0
                    &&& header@ == self@.early_data_header_name
                    &&& limit == self@.max_early_data
                },
                Plan::Direct => self@.max_early_data == 0,
            },
    {
        if self.max_early_data > 0 {
            Plan::EarlyData {
                header: self.early_data_header_name.clone(),
                limit: self.max_early_data,
            }
        } else {
            Plan::Direct
        }
    }
}

/// Whether the status of the answer to a request agrees to the change of
/// protocols.
pub fn check_status(status: u16) -> (result: Result<(), InvalidResponse>)
    ensures
        result == if status == SWITCHING_PROTOCOLS {
            Ok(())
        } else {
            Err(InvalidResponse)
        },
{
    if status == SWITCHING_PROTOCOLS {
        Ok(())
    } else {
        Err(InvalidResponse)
    }
}

proof fn lemma_found_stays(
    given: Seq<(Seq<char>, Seq<char>)>,
    count: int,
    name: Seq<char>,
)
    requires
        0 <= count <= given.len(),
        first_value(collected(given.take(count)), name) is Some,
    ensures
        first_value(collected(given), name) == first_value(collected(given.take(count)), name),
    decreases given.len(),
{
    if count < given.len() {
        let front = given.drop_last();
        assert(front.take(count) =~= given.take(count));
        lemma_found_stays(front, count, name);
        law_earlier_fields_win(
            collected(front),
            lower(given.last().0),
            encode_utf8(given.last().1),
            name,
        );
    } else {
        assert(given.take(count) =~= given);
    }
}

proof fn lemma_not_given(given: Seq<(Seq<char>, Seq<char>)>, name: Seq<char>)
    requires
        forall|j: int| 0 <= j < given.len() ==> lower((#[trigger] given[j]).0) != name,
    ensures
        first_value(collected(given), name) is None,
    decreases given.len(),
{
    if given.len() > 0 {
        let front = given.drop_last();
        assert forall|j: int| 0 <= j < front.len() implies lower((#[trigger] front[j]).0) != name by {
            assert(front[j] == given[j]);
        }
        lemma_not_given(front, name);
        assert(lower(given[given.len() - 1].0) != name);
        law_earlier_fields_win(
            collected(front),
            lower(given.last().0),
            encode_utf8(given.last().1),
            name,
        );
    }
}

/// Under a name, a request shows the value that was given first, whatever was
/// given under that name later.
pub proof fn law_first_given_wins(given: Seq<(Seq<char>, Seq<char>)>, i: int)
    requires
        0 <= i < given.len(),
        forall|j: int| 0 <= j < i ==> lower((#[trigger] given[j]).0) != lower(given[i].0),
    ensures
        field(collected(given), given[i].0) == Some(encode_utf8(given[i].1)),
{
    let name = lower(given[i].0);
    let before = given.take(i);
    let upto = given.take(i + 1);
    assert forall|j: int| 0 <= j < before.len() implies lower((#[trigger] before[j]).0) != name by {
        assert(before[j] == given[j]);
    }
    lemma_not_given(before, name);
    assert(upto.drop_last() =~= before);
    assert(upto.last() == given[i]);
    law_earlier_fields_win(collected(before), name, encode_utf8(given[i].1), name);
    lemma_found_stays(given, i + 1, name);
}

/// Every request asks for the upgrade to a WebSocket and shows its key, whatever
/// fields are configured: those cannot get in the way of the ones that the
/// handshake needs.
pub proof fn law_requests_ask_for_the_upgrade(client: ClientView, key: Seq<char>)
    ensures
        ({
            let fields = collected(client.given_fields(key));
            &&& field(fields, "Connection"@) == Some(encode_utf8("Upgrade"@))
            &&& field(fields, "Upgrade"@) == Some(encode_utf8("websocket"@))
            &&& field(fields, "Sec-WebSocket-Version"@) == Some(encode_utf8("13"@))
            &&& field(fields, "Sec-WebSocket-Key"@) == Some(encode_utf8(key))
        }),
{
    let given = client.given_fields(key);
    reveal_strlit("Connection");
    reveal_strlit("Upgrade");
    reveal_strlit("Sec-WebSocket-Version");
    reveal_strlit("Sec-WebSocket-Key");
    assert(given[0] == ("Connection"@, "Upgrade"@));
    assert(given[1] == ("Upgrade"@, "websocket"@));
    assert(given[2] == ("Sec-WebSocket-Version"@, "13"@));
    assert(given[3] == ("Sec-WebSocket-Key"@, key));
    assert(lower("Connection"@).len() == 10);
    assert(lower("Upgrade"@).len() == 7);
    assert(lower("Sec-WebSocket-Version"@).len() == 21);
    assert(lower("Sec-WebSocket-Key"@).len() == 17);
    law_first_given_wins(given, 0);
    law_first_given_wins(given, 1);
    law_first_given_wins(given, 2);
    law_first_given_wins(given, 3);
}

/// A request can open a handshake exactly if its URI has a path and its
/// configuration names the host: all else that the handshake needs is there.
pub proof fn law_requests_need_a_host(client: ClientView, key: Seq<char>)
    requires
        is_websocket_key(key),
    ensures
        can_upgrade(client.first_line(), collected(client.given_fields(key))) <==> {
            &&& client.first_line()[3].len() > 0
            &&& has_text(collected(client.given_fields(key)), "Host"@)
        },
{
    law_requests_ask_for_the_upgrade(client, key);
    reveal_strlit("Upgrade");
    reveal_strlit("websocket");
    reveal_strlit("13");
    lemma_visible("Upgrade"@);
    lemma_visible("websocket"@);
    lemma_visible("13"@);
    assert forall|i: int| 0 <= i < key.len() implies ' ' <= #[trigger] key[i] && key[i] <= '~' by {
        if i < 22 {
            assert(is_base64(key[i]));
        } else {
            assert(i == 22 || i == 23);
        }
    }
    lemma_visible(key);
}

/// An answer is accepted only if it belongs to the request: it carries what
/// follows from the request's key, and it chooses a subprotocol exactly if the
/// request offers some, and then one of those.
pub proof fn law_answers_belong_to_the_request(
    client: ClientView,
    key: Seq<char>,
    offer: Option<Seq<Seq<char>>>,
    status: u16,
    answer: Seq<(Seq<char>, Seq<u8>)>,
)
    requires
        offered_by(collected(client.given_fields(key))) == Ok::<_, ()>(offer),
        answer_fault(
            status,
            answer,
            derived_key(
                field(collected(client.given_fields(key)), "Sec-WebSocket-Key"@)->Some_0,
            ),
            offer,
        ) is None,
    ensures
        status == SWITCHING_PROTOCOLS,
        field(answer, "Sec-WebSocket-Accept"@) == Some(
            encode_utf8(derived_key(encode_utf8(key))),
        ),
        field(answer, "Sec-WebSocket-Protocol"@) is Some <==> field(
            collected(client.given_fields(key)),
            "Sec-WebSocket-Protocol"@,
        ) is Some,
        field(answer, "Sec-WebSocket-Protocol"@) matches Some(choice) ==> list_items(
            ascii_text(
                field(
                    collected(client.given_fields(key)),
                    "Sec-WebSocket-Protocol"@,
                )->Some_0,
            ),
        ).contains(ascii_text(choice)),
{
    law_requests_ask_for_the_upgrade(client, key);
}

proof fn lemma_visible(text: Seq<char>)
    requires
        forall|i: int| 0 <= i < text.len() ==> ' ' <= #[trigger] text[i] && text[i] <= '~',
    ensures
        is_visible(encode_utf8(text)),
{
    assert(is_ascii_chars(text));
    is_ascii_chars_encode_utf8(text);
    assert forall|i: int| 0 <= i < encode_utf8(text).len() implies 32 <= #[trigger] encode_utf8(
        text,
    )[i] < 127 by {
        assert(text[i] as u8 == encode_utf8(text)[i]);
    }
}

/// Where early data is allowed, its field is in the request, to be filled in
/// later; its content is the placeholder unless the name is already taken.
pub proof fn law_early_data_has_its_field(client: ClientView, key: Seq<char>)
    requires
        client.max_early_data > 0,
    ensures
        ({
            let given = client.given_fields(key);
            let fields = collected(given);
            &&& field(fields, client.early_data_header_name) is Some
            &&& (forall|j: int|
                0 <= j < given.len() - 1 ==> lower((#[trigger] given[j]).0) != lower(
                    client.early_data_header_name,
                )) ==> field(fields, client.early_data_header_name) == Some(encode_utf8("xxoo"@))
        }),
{
    let given = client.given_fields(key);
    let last = given.len() - 1;
    assert(given[last] == (client.early_data_header_name, "xxoo"@));
    if forall|j: int|
        0 <= j < last ==> lower((#[trigger] given[j]).0) != lower(client.early_data_header_name) {
        law_first_given_wins(given, last);
    }
    assert(given.drop_last().push(given.last()) =~= given);
    law_earlier_fields_win(
        collected(given.drop_last()),
        lower(client.early_data_header_name),
        encode_utf8("xxoo"@),
        lower(client.early_data_header_name),
    );
}

proof fn lemma_found_in_either(
    a: Seq<(Seq<char>, Seq<char>)>,
    b: Seq<(Seq<char>, Seq<char>)>,
    name: Seq<char>,
)
    ensures
        first_value(collected(a + b), name) == match first_value(collected(a), name) {
            Some(value) => Some(value),
            None => first_value(collected(b), name),
        },
    decreases b.len(),
{
    if b.len() == 0 {
        assert(a + b =~= a);
    } else {
        let front = b.drop_last();
        lemma_found_in_either(a, front, name);
        assert((a + b).drop_last() =~= a + front);
        assert((a + b).last() == b.last());
        law_earlier_fields_win(
            collected(a + front),
            lower(b.last().0),
            encode_utf8(b.last().1),
            name,
        );
        law_earlier_fields_win(collected(front), lower(b.last().0), encode_utf8(b.last().1), name);
    }
}

/// Whether no name occurs twice, even if the case of the letters is left aside.
pub open spec fn distinct_in_any_case(given: Seq<(Seq<char>, Seq<char>)>) -> bool {
    forall|i: int, j: int|
        0 <= i < j < given.len() ==> lower((#[trigger] given[i]).0) != lower(
            (#[trigger] given[j]).0,
        )
}

proof fn lemma_found_by_name(given: Seq<(Seq<char>, Seq<char>)>, i: int)
    requires
        distinct_in_any_case(given),
        0 <= i < given.len(),
    ensures
        first_value(collected(given), lower(given[i].0)) == Some(encode_utf8(given[i].1)),
{
    assert forall|j: int| 0 <= j < i implies lower((#[trigger] given[j]).0) != lower(given[i].0) by {
    }
    law_first_given_wins(given, i);
}

/// The order of the configured fields does not matter: as long as their names
/// differ in more than the case of the letters, a request shows the same value
/// under every name.
pub proof fn law_order_of_fields_does_not_matter(
    client: ClientView,
    headers: Seq<(Seq<char>, Seq<char>)>,
    key: Seq<char>,
    name: Seq<char>,
)
    requires
        distinct_in_any_case(client.headers),
        distinct_in_any_case(headers),
        forall|entry: (Seq<char>, Seq<char>)|
            client.headers.contains(entry) <==> #[trigger] headers.contains(entry),
    ensures
        field(collected(client.given_fields(key)), name) == field(
            collected((ClientView { headers, ..client }).given_fields(key)),
            name,
        ),
{
    let other = ClientView { headers, ..client };
    let fixed = fixed_fields(key);
    let wanted = lower(name);
    lemma_found_in_either(fixed + client.headers, client.placeholder(), wanted);
    lemma_found_in_either(fixed, client.headers, wanted);
    lemma_found_in_either(fixed + headers, other.placeholder(), wanted);
    lemma_found_in_either(fixed, headers, wanted);
    assert(first_value(collected(client.headers), wanted) == first_value(
        collected(headers),
        wanted,
    )) by {
        if exists|i: int|
            0 <= i < client.headers.len() && lower((#[trigger] client.headers[i]).0) == wanted {
            let i = choose|i: int|
                0 <= i < client.headers.len() && lower((#[trigger] client.headers[i]).0) == wanted;
            let entry = client.headers[i];
            assert(headers.contains(entry));
            let j = choose|j: int| 0 <= j < headers.len() && headers[j] == entry;
            lemma_found_by_name(client.headers, i);
            lemma_found_by_name(headers, j);
        } else {
            lemma_not_given(client.headers, wanted);
            assert forall|j: int| 0 <= j < headers.len() implies lower((#[trigger] headers[j]).0)
                != wanted by {
                assert(headers.contains(headers[j]));
                let i = choose|i: int|
                    0 <= i < client.headers.len() && client.headers[i] == headers[j];
                assert(lower(client.headers[i].0) != wanted);
            }
            lemma_not_given(headers, wanted);
        }
    }
}

/// Names and values as fields: the names in small letters, the values as bytes.
pub open spec fn as_fields(given: Seq<(Seq<char>, Seq<char>)>) -> Seq<(Seq<char>, Seq<u8>)> {
    given.map_values(|entry: (Seq<char>, Seq<char>)| (lower(entry.0), encode_utf8(entry.1)))
}

/// A request has the fields that were given for it and no others: under every
/// name it has the given values, in order.
pub proof fn law_requests_have_what_was_given(given: Seq<(Seq<char>, Seq<char>)>, name: Seq<char>)
    ensures
        values_under(collected(given), name) == values_under(as_fields(given), name),
        collected(given).len() == given.len(),
    decreases given.len(),
{
    lemma_collected_len(given);
    if given.len() > 0 {
        let front = given.drop_last();
        law_requests_have_what_was_given(front, name);
        law_fields_are_added_last(
            collected(front),
            lower(given.last().0),
            encode_utf8(given.last().1),
            name,
        );
        assert(as_fields(given).drop_last() =~= as_fields(front));
    }
}

/// The text of a WebSocket's URI: a server, a port and a path.
pub open spec fn ws_uri(server: Seq<char>, port: u16, path: Seq<char>) -> Seq<char> {
    "ws://"@ + server + ":"@ + decimal(port as nat) + path
}

/// The fields of a request: the four that ask for the upgrade, those that are
/// configured and, where early data is allowed, a placeholder for it.
pub open spec fn fields_to_send(
    headers: Seq<(Seq<char>, Seq<char>)>,
    max_early_data: usize,
    early_data_header_name: Seq<char>,
    key: Seq<char>,
) -> Seq<(Seq<char>, Seq<char>)> {
    let upgrade = seq![
        ("Connection"@, "Upgrade"@),
        ("Upgrade"@, "websocket"@),
        ("Sec-WebSocket-Version"@, "13"@),
        ("Sec-WebSocket-Key"@, key),
    ];
    if max_early_data == 0 {
        upgrade + headers
    } else {
        upgrade + headers.push((early_data_header_name, "xxoo"@))
    }
}

/// Whether a request is the one for a URI, with these fields.
pub open spec fn is_request_for(
    request: Request<()>,
    uri: Seq<char>,
    given: Seq<(Seq<char>, Seq<char>)>,
) -> bool {
    &&& uri_parts(uri) matches Some(parts)
    &&& request_line(request) == seq!["GET"@, parts.0, parts.1, parts.2, "HTTP/1.1"@]
    &&& request_fields(request).len() == given.len()
    &&& forall|name: Seq<char>| #[trigger]
        values_under(request_fields(request), name) == values_under(as_fields(given), name)
}

/// Whether no request can be for this URI or have these fields, however few.
pub open spec fn is_unusable_text(uri: Seq<char>, given: Seq<(Seq<char>, Seq<char>)>) -> bool {
    ||| uri_parts(uri) is None
    ||| exists|i: int|
        0 <= i < given.len() && !(is_field_name((#[trigger] given[i]).0) && is_field_value(
            given[i].1,
        ))
}

/// Whether no request can be for this URI or have these fields, or there are so
/// many that a header may not have room for them.
pub open spec fn is_unusable(uri: Seq<char>, given: Seq<(Seq<char>, Seq<char>)>) -> bool {
    is_unusable_text(uri, given) || given.len() > 6554
}

/// A request says what the client was made with, all of it and nothing else: it
/// is for the configured server, port and path, whatever fields and whatever
/// early data are configured, and has the configured fields behind those that
/// ask for the upgrade.  There is one unless what was given cannot stand in it.
pub proof fn law_requests_say_what_is_configured(
    server: String,
    port: u16,
    path: String,
    headers: HeaderTable,
    ws_config: Option<WebSocketConfig>,
    max_early_data: usize,
    early_data_header_name: String,
    client: Client,
    key: &str,
    result: Result<Request<()>, BuildError>,
)
    requires
        call_ensures(
            Client::new,
            (server, port, path, headers, ws_config, max_early_data, early_data_header_name),
            client,
        ),
        call_ensures(Client::req_with_key, (&client, key), result),
    ensures
        ({
            let uri = ws_uri(server@, port, path@);
            let given = fields_to_send(headers@, max_early_data, early_data_header_name@, key@);
            match result {
                Ok(request) => is_request_for(request, uri, given) && !is_unusable_text(uri, given),
                Err(_) => is_unusable(uri, given),
            }
        }),
{
    let uri = ws_uri(server@, port, path@);
    let given = fields_to_send(headers@, max_early_data, early_data_header_name@, key@);
    lemma_what_is_sent(client@, key@);
    lemma_all_given(client@, key@);
    if let Ok(request) = result {
        assert forall|name: Seq<char>| #[trigger]
            values_under(request_fields(request), name) == values_under(as_fields(given), name) by {
            law_requests_have_what_was_given(given, name);
        }
        lemma_collected_len(given);
        assert(all_fields(given));
    }
}

proof fn lemma_what_is_sent(client: ClientView, key: Seq<char>)
    ensures
        client.uri() == ws_uri(client.server, client.port, client.path),
        client.given_fields(key) == fields_to_send(
            client.headers,
            client.max_early_data,
            client.early_data_header_name,
            key,
        ),
{
    assert(client.given_fields(key) =~= fields_to_send(
        client.headers,
        client.max_early_data,
        client.early_data_header_name,
        key,
    ));
}

/// A request with a key of its own is a request with some key of the right form,
/// and as any such request in all else.
pub proof fn law_fresh_requests_are_requests(
    server: String,
    port: u16,
    path: String,
    headers: HeaderTable,
    ws_config: Option<WebSocketConfig>,
    max_early_data: usize,
    early_data_header_name: String,
    client: Client,
    result: Result<Request<()>, BuildError>,
) -> (key: Seq<char>)
    requires
        call_ensures(
            Client::new,
            (server, port, path, headers, ws_config, max_early_data, early_data_header_name),
            client,
        ),
        call_ensures(Client::req, (&client,), result),
    ensures
        ({
            let uri = ws_uri(server@, port, path@);
            let given = fields_to_send(headers@, max_early_data, early_data_header_name@, key);
            match result {
                Ok(request) => is_websocket_key(key) && is_request_for(request, uri, given),
                Err(_) => is_unusable(uri, given),
            }
        }),
{
    let uri = ws_uri(server@, port, path@);
    if let Ok(request) = result {
        let key = choose|key: Seq<char>| #[trigger]
            is_websocket_key(key) && request_fields(request) == collected(
                client@.given_fields(key),
            );
        let given = fields_to_send(headers@, max_early_data, early_data_header_name@, key);
        lemma_what_is_sent(client@, key);
        assert forall|name: Seq<char>| #[trigger]
            values_under(request_fields(request), name) == values_under(as_fields(given), name) by {
            law_requests_have_what_was_given(given, name);
        }
        lemma_collected_len(given);
        key
    } else {
        let key = Seq::empty();
        lemma_what_is_sent(client@, key);
        lemma_all_given(client@, key);
        key
    }
}

/// The URI that a request is made from depends on the server, the port and the
/// path alone, says all three, and ends with the path.
pub proof fn law_uris_name_the_server_and_the_path(client: ClientView, other: ClientView)
    ensures
        client.uri() == "ws://"@ + client.server + ":"@ + decimal(client.port as nat) + client.path,
        client.path.is_suffix_of(client.uri()),
        ("ws://"@ + client.server + ":"@).is_prefix_of(client.uri()),
        client.server == other.server && client.port == other.port && client.path == other.path
            ==> client.uri() == other.uri(),
        client.server == other.server && client.port == other.port && client.uri() == other.uri()
            ==> client.path == other.path,
{
    let before = "ws://"@ + client.server + ":"@ + decimal(client.port as nat);
    assert(client.uri() == before + client.path);
    assert(client.uri().skip(before.len() as int) =~= client.path);
    if client.server == other.server && client.port == other.port && client.uri()
        == other.uri() {
        assert(other.uri() == before + other.path);
        assert(other.uri().skip(before.len() as int) =~= other.path);
    }
}

/// A client uses the tuning that it was made with, and the defaults only where
/// there is none.  It sends early data exactly if it was made to allow some: as
/// much as was allowed, in the field that was named.
pub proof fn law_clients_keep_their_configuration(
    server: String,
    port: u16,
    path: String,
    headers: HeaderTable,
    ws_config: Option<WebSocketConfig>,
    max_early_data: usize,
    early_data_header_name: String,
    client: Client,
    config: WebSocketConfig,
    default: WebSocketConfig,
    plan: Plan,
)
    requires
        call_ensures(
            Client::new,
            (server, port, path, headers, ws_config, max_early_data, early_data_header_name),
            client,
        ),
        call_ensures(Client::ws_config, (&client,), config),
        call_ensures(default_ws_config, (), default),
        call_ensures(Client::plan, (&client,), plan),
    ensures
        ws_config is Some ==> config == ws_config->Some_0,
        ws_config is None ==> config == default,
        max_early_data == 0 ==> plan is Direct,
        max_early_data > 0 ==> {
            &&& plan matches Plan::EarlyData { header, limit }
            &&& header@ == early_data_header_name@
            &&& limit == max_early_data
        },
{
}

/// The one status that agrees is 101; every other is an invalid response.
pub proof fn law_one_status_agrees(
    status: u16,
    result: Result<(), InvalidResponse>,
    error: InvalidResponse,
    text: &'static str,
)
    requires
        call_ensures(check_status, (status,), result),
        call_ensures(InvalidResponse::message, (&error,), text),
    ensures
        result is Ok <==> status == 101,
        text@ == "invalid response"@,
{
}

} // verus!
