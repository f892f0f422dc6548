//! The parts of the crate `http` that the handshake is made with.
//!
//! A request, and an answer's header, is a sequence of fields.  A field is a
//! name in small letters and the bytes of a value.  Fields of one name stand
//! together, in the order in which they were added.

use http::header::{HeaderMap, HeaderValue, ToStrError};
use http::request::Builder;
use http::Request;
use vstd::prelude::*;
use vstd::utf8::{encode_utf8, is_ascii_chars, is_ascii_chars_encode_utf8};

use crate::text::lower;

verus! {

/// A header: a multimap from names to values.
#[verifier::external_type_specification]
#[verifier::external_body]
#[verifier::reject_recursive_types(T)]
pub struct ExHeaderMap<T>(http::header::HeaderMap<T>);

/// The value of a field: a string of bytes.
#[verifier::external_type_specification]
#[verifier::external_body]
pub struct ExHeaderValue(http::header::HeaderValue);

/// A request.
#[verifier::external_type_specification]
#[verifier::external_body]
#[verifier::reject_recursive_types(T)]
pub struct ExRequest<T>(http::Request<T>);

/// A request that is being put together.
#[verifier::external_type_specification]
#[verifier::external_body]
pub struct ExBuilder(http::request::Builder);

/// Why a request could not be put together.
#[verifier::external_type_specification]
#[verifier::external_body]
pub struct ExHttpError(http::Error);

/// That a value is not text.
#[verifier::external_type_specification]
#[verifier::external_body]
pub struct ExToStrError(http::header::ToStrError);

/// The fields of a header, in the order in which they are walked.
pub uninterp spec fn header_fields(header: http::header::HeaderMap) -> Seq<(Seq<char>, Seq<u8>)>;

/// The bytes of a value.
pub uninterp spec fn value_bytes(value: http::header::HeaderValue) -> Seq<u8>;

/// The fields of a request.
pub uninterp spec fn request_fields(request: http::Request<()>) -> Seq<(Seq<char>, Seq<u8>)>;

/// The five parts of a request's first line: its method, the scheme, the
/// authority and the path with the query of its URI, and its version.  A part
/// that is missing is empty; no part that is there is.
pub uninterp spec fn request_line(request: http::Request<()>) -> Seq<Seq<char>>;

/// The fields that were given so far.
pub uninterp spec fn builder_fields(builder: http::request::Builder) -> Seq<(Seq<char>, Seq<u8>)>;

/// The first line as far as it was given, with the same parts.
pub uninterp spec fn builder_line(builder: http::request::Builder) -> Seq<Seq<char>>;

/// Whether something was given that no request can hold.
pub uninterp spec fn builder_failed(builder: http::request::Builder) -> bool;

/// What `Uri::try_from(String)` makes of a text: the scheme, the authority and
/// the path with the query, or nothing where the text is no URI.
pub uninterp spec fn uri_parts(text: Seq<char>) -> Option<(Seq<char>, Seq<char>, Seq<char>)>;

/// How many fields a header certainly has room for, whatever their names are.
pub const ROOMY: usize = 6554;

/// Whether a character may stand in a token.
pub open spec fn is_token_char(c: char) -> bool {
    ||| 'a' <= c && c <= 'z'
    ||| 'A' <= c && c <= 'Z'
    ||| '0' <= c && c <= '9'
    ||| c == '!' || c == '#' || c == '$' || c == '%' || c == '&' || c == '\'' || c == '*'
    ||| c == '+' || c == '-' || c == '.' || c == '^' || c == '_' || c == '`' || c == '|' || c == '~'
}

/// Whether a text is a token.
pub open spec fn is_token(text: Seq<char>) -> bool {
    &&& text.len() > 0
    &&& forall|i: int| 0 <= i < text.len() ==> is_token_char(#[trigger] text[i])
}

/// Whether a text is the name of a field.
pub open spec fn is_field_name(text: Seq<char>) -> bool {
    is_token(text) && text.len() <= 65535
}

/// Whether a text can be the value of a field.
pub open spec fn is_field_value(text: Seq<char>) -> bool {
    forall|i: int|
        0 <= i < text.len() ==> {
            ||| #[trigger] text[i] as u32 >= 32 && text[i] as u32 != 127
            ||| text[i] == '\t'
        }
}

/// Whether bytes are text: visible characters of the ASCII alphabet, spaces and
/// tabs.
pub open spec fn is_visible(bytes: Seq<u8>) -> bool {
    forall|i: int| 0 <= i < bytes.len() ==> 32 <= #[trigger] bytes[i] < 127 || bytes[i] == 9
}

/// Bytes of the ASCII alphabet as characters.
pub open spec fn ascii_text(bytes: Seq<u8>) -> Seq<char> {
    Seq::new(bytes.len(), |i: int| bytes[i] as char)
}

/// The value of the first field with the given name, in small letters.
pub open spec fn first_value(fields: Seq<(Seq<char>, Seq<u8>)>, name: Seq<char>) -> Option<Seq<u8>>
    decreases fields.len(),
{
    if fields.len() == 0 {
        None
    } else if fields[0].0 == name {
        Some(fields[0].1)
    } else {
        first_value(fields.drop_first(), name)
    }
}

/// The value of the first field with the given name, in any letters.
pub open spec fn field(fields: Seq<(Seq<char>, Seq<u8>)>, name: Seq<char>) -> Option<Seq<u8>> {
    first_value(fields, lower(name))
}

/// How many fields there are up to the last one with the given name; none if
/// there is no such field.
pub open spec fn end_of(fields: Seq<(Seq<char>, Seq<u8>)>, name: Seq<char>) -> int
    decreases fields.len(),
{
    if fields.len() == 0 {
        0
    } else if fields.last().0 == name {
        fields.len() as int
    } else {
        end_of(fields.drop_last(), name)
    }
}

/// The fields with one more, behind those of its name.
pub open spec fn appended(
    fields: Seq<(Seq<char>, Seq<u8>)>,
    name: Seq<char>,
    value: Seq<u8>,
) -> Seq<(Seq<char>, Seq<u8>)> {
    let end = end_of(fields, name);
    if end == 0 {
        fields.push((name, value))
    } else {
        fields.insert(end, (name, value))
    }
}

/// `HeaderMap::get`: the first value under `name`, whatever the case of its
/// letters.  The name has to be a token: a header can hold a name with a
/// quotation mark in it, and such a name is not found by its text.
#[verifier::external_body]
pub(crate) fn header_get<'a>(header: &'a HeaderMap, name: &str) -> (value: Option<&'a HeaderValue>)
    requires
        is_field_name(name@),
    ensures
        match field(header_fields(*header), name@) {
            Some(bytes) => value is Some && value_bytes(*value->Some_0) == bytes,
            None => value is None,
        },
{
    header.get(name)
}

/// `HeaderValue::to_str`: the value as a string, if its bytes are text.
#[verifier::external_body]
pub(crate) fn value_to_str(value: &HeaderValue) -> (text: Result<&str, ToStrError>)
    ensures
        text is Ok <==> is_visible(value_bytes(*value)),
        text matches Ok(t) ==> t@ == ascii_text(value_bytes(*value)),
{
    value.to_str()
}

/// `==` between a `HeaderValue` and a string: whether their bytes are the same.
#[verifier::external_body]
pub(crate) fn value_is(value: &HeaderValue, text: &str) -> (same: bool)
    ensures
        same == (value_bytes(*value) == encode_utf8(text@)),
{
    value == text
}

/// `Request::headers`: the header of a request.
#[verifier::external_body]
pub(crate) fn request_header(request: &Request<()>) -> (header: &HeaderMap)
    ensures
        header_fields(*header) == request_fields(*request),
{
    request.headers()
}

/// `Request::builder`: a `GET` for `/` in version 1.1, without fields.
#[verifier::external_body]
pub(crate) fn request_builder() -> (builder: Builder)
    ensures
        !builder_failed(builder),
        builder_fields(builder) == Seq::<(Seq<char>, Seq<u8>)>::empty(),
        builder_line(builder) == seq!["GET"@, ""@, ""@, "/"@, "HTTP/1.1"@],
{
    Request::builder()
}

/// `Builder::method`: sets the method, which has to be a token.
#[verifier::external_body]
pub(crate) fn builder_method(builder: Builder, method: &str) -> (result: Builder)
    ensures
        builder_failed(result) == (builder_failed(builder) || !is_token(method@)),
        !builder_failed(result) ==> {
            &&& builder_fields(result) == builder_fields(builder)
            &&& builder_line(result) == builder_line(builder).update(0, method@)
        },
{
    builder.method(method)
}

/// `Builder::uri`: sets the URI, which the text has to be.  A URI that begins
/// with the scheme `ws` has an authority, and a path that is at least a slash.
#[verifier::external_body]
pub(crate) fn builder_uri(builder: Builder, uri: String) -> (result: Builder)
    ensures
        builder_failed(result) == (builder_failed(builder) || uri_parts(uri@) is None),
        !builder_failed(result) ==> {
            &&& builder_fields(result) == builder_fields(builder)
            &&& builder_line(result) == builder_line(builder).update(
                1,
                uri_parts(uri@)->Some_0.0,
            ).update(2, uri_parts(uri@)->Some_0.1).update(3, uri_parts(uri@)->Some_0.2)
        },
        !builder_failed(result) && builder_line(builder).len() == 5 && "ws://"@.is_prefix_of(uri@)
            ==> {
            &&& builder_line(result)[1] == "ws"@
            &&& builder_line(result)[2].len() > 0
            &&& builder_line(result)[3].len() > 0
        },
{
    builder.uri(uri)
}

/// `Builder::header`: adds a field behind those of its name.  It fails where the
/// name or the value cannot be one.  It also fails where the header is full.
/// When that is depends on how the names were hashed and, in a header that looks
/// like an attack, on chance.  A header has at most 32768 slots, and may be full
/// once it holds a fifth of that number, so all that is claimed here is that one
/// with fewer fields is not.
#[verifier::external_body]
pub(crate) fn builder_header(builder: Builder, name: &str, value: &str) -> (result: Builder)
    ensures
        builder_failed(builder) ==> builder_failed(result),
        !builder_failed(result) ==> {
            &&& is_field_name(name@)
            &&& is_field_value(value@)
            &&& builder_fields(result) == appended(
                builder_fields(builder),
                lower(name@),
                encode_utf8(value@),
            )
            &&& builder_line(result) == builder_line(builder)
        },
        !builder_failed(builder) && is_field_name(name@) && is_field_value(value@)
            && builder_fields(builder).len() < ROOMY ==> !builder_failed(result),
{
    builder.header(name, value)
}

/// `Builder::body`: the request, unless something was given that none can hold.
#[verifier::external_body]
pub(crate) fn builder_body(builder: Builder) -> (request: Result<Request<()>, http::Error>)
    ensures
        request is Err <==> builder_failed(builder),
        request matches Ok(r) ==> {
            &&& request_fields(r) == builder_fields(builder)
            &&& request_line(r) == builder_line(builder)
        },
{
    builder.body(())
}

/// Text that is made of bytes has these bytes again.
pub proof fn law_text_keeps_its_bytes(bytes: Seq<u8>)
    requires
        is_visible(bytes),
    ensures
        encode_utf8(ascii_text(bytes)) == bytes,
{
    let text = ascii_text(bytes);
    assert(is_ascii_chars(text));
    is_ascii_chars_encode_utf8(text);
    assert forall|i: int| 0 <= i < bytes.len() implies encode_utf8(text)[i] == bytes[i] by {
        assert(text[i] as u8 == encode_utf8(text)[i]);
    }
    assert(encode_utf8(text) =~= bytes);
}

proof fn lemma_end_of(fields: Seq<(Seq<char>, Seq<u8>)>, name: Seq<char>)
    ensures
        0 <= end_of(fields, name) <= fields.len(),
        end_of(fields, name) > 0 ==> fields[end_of(fields, name) - 1].0 == name,
        forall|i: int| end_of(fields, name) <= i < fields.len() ==> (#[trigger] fields[i]).0 != name,
    decreases fields.len(),
{
    if fields.len() > 0 && fields.last().0 != name {
        let front = fields.drop_last();
        lemma_end_of(front, name);
        assert forall|i: int| end_of(fields, name) <= i < fields.len() implies (
        #[trigger] fields[i]).0 != name by {
            if i < fields.len() - 1 {
                assert(front[i] == fields[i]);
            }
        }
    }
}

proof fn lemma_first_value_at(fields: Seq<(Seq<char>, Seq<u8>)>, name: Seq<char>, at: int)
    requires
        0 <= at < fields.len(),
        fields[at].0 == name,
        forall|i: int| 0 <= i < at ==> (#[trigger] fields[i]).0 != name,
    ensures
        first_value(fields, name) == Some(fields[at].1),
    decreases at,
{
    if at > 0 {
        assert(fields[0].0 != name);
        let rest = fields.drop_first();
        assert forall|i: int| 0 <= i < at - 1 implies (#[trigger] rest[i]).0 != name by {
            assert(rest[i] == fields[i + 1]);
        }
        lemma_first_value_at(rest, name, at - 1);
    }
}

proof fn lemma_first_value_none(fields: Seq<(Seq<char>, Seq<u8>)>, name: Seq<char>)
    ensures
        first_value(fields, name) is None <==> forall|i: int|
            0 <= i < fields.len() ==> (#[trigger] fields[i]).0 != name,
    decreases fields.len(),
{
    if fields.len() > 0 {
        let rest = fields.drop_first();
        lemma_first_value_none(rest, name);
        if fields[0].0 != name {
            if first_value(fields, name) is None {
                assert forall|i: int| 0 <= i < fields.len() implies (#[trigger] fields[i]).0
                    != name by {
                    if i > 0 {
                        assert(rest[i - 1] == fields[i]);
                    }
                }
            } else {
                let j = choose|j: int| 0 <= j < rest.len() && (#[trigger] rest[j]).0 == name;
                assert(fields[j + 1].0 == name);
            }
        }
    }
}

proof fn lemma_first_index(fields: Seq<(Seq<char>, Seq<u8>)>, name: Seq<char>) -> (at: int)
    requires
        first_value(fields, name) is Some,
    ensures
        0 <= at < fields.len(),
        fields[at].0 == name,
        forall|i: int| 0 <= i < at ==> (#[trigger] fields[i]).0 != name,
        first_value(fields, name) == Some(fields[at].1),
    decreases fields.len(),
{
    if fields[0].0 == name {
        0
    } else {
        let rest = fields.drop_first();
        let at = lemma_first_index(rest, name) + 1;
        assert forall|i: int| 0 <= i < at implies (#[trigger] fields[i]).0 != name by {
            if i > 0 {
                assert(rest[i - 1] == fields[i]);
            }
        }
        at
    }
}

/// A field that is added never hides one that is there: it is found under its
/// name only if it is the first one of that name, and nothing else changes.
pub proof fn law_earlier_fields_win(
    fields: Seq<(Seq<char>, Seq<u8>)>,
    name: Seq<char>,
    value: Seq<u8>,
    other: Seq<char>,
)
    ensures
        first_value(appended(fields, name, value), other) == if other == name && first_value(
            fields,
            name,
        ) is None {
            Some(value)
        } else {
            first_value(fields, other)
        },
        appended(fields, name, value).len() == fields.len() + 1,
{
    lemma_end_of(fields, name);
    lemma_first_value_none(fields, name);
    lemma_first_value_none(fields, other);
    let end = end_of(fields, name);
    let after = appended(fields, name, value);
    lemma_first_value_none(after, other);
    if first_value(fields, other) is Some {
        let at = lemma_first_index(fields, other);
        if end == 0 || at < end {
            assert(after[at] == fields[at]);
            assert forall|i: int| 0 <= i < at implies (#[trigger] after[i]).0 != other by {
                assert(after[i] == fields[i]);
            }
            lemma_first_value_at(after, other, at);
        } else {
            assert(other != name);
            assert(after[at + 1] == fields[at]);
            assert forall|i: int| 0 <= i < at + 1 implies (#[trigger] after[i]).0 != other by {
                if i < end {
                    assert(after[i] == fields[i]);
                } else if i > end {
                    assert(after[i] == fields[i - 1]);
                }
            }
            lemma_first_value_at(after, other, at + 1);
        }
    } else if other == name {
        assert(end == 0) by {
            if end > 0 {
                assert(fields[end - 1].0 == name);
            }
        }
        assert(after == fields.push((name, value)));
        assert forall|i: int| 0 <= i < fields.len() implies (#[trigger] after[i]).0 != other by {
            assert(after[i] == fields[i]);
        }
        lemma_first_value_at(after, other, fields.len() as int);
    } else {
        assert forall|i: int| 0 <= i < after.len() implies (#[trigger] after[i]).0 != other by {
            if end == 0 {
                if i < fields.len() {
                    assert(after[i] == fields[i]);
                }
            } else if i < end {
                assert(after[i] == fields[i]);
            } else if i > end {
                assert(after[i] == fields[i - 1]);
            }
        }
    }
}

/// The values under a name, in order.
pub open spec fn values_under(fields: Seq<(Seq<char>, Seq<u8>)>, name: Seq<char>) -> Seq<Seq<u8>>
    decreases fields.len(),
{
    if fields.len() == 0 {
        Seq::empty()
    } else if fields.last().0 == name {
        values_under(fields.drop_last(), name).push(fields.last().1)
    } else {
        values_under(fields.drop_last(), name)
    }
}

proof fn lemma_values_concat(
    a: Seq<(Seq<char>, Seq<u8>)>,
    b: Seq<(Seq<char>, Seq<u8>)>,
    name: Seq<char>,
)
    ensures
        values_under(a + b, name) == values_under(a, name) + values_under(b, name),
    decreases b.len(),
{
    if b.len() == 0 {
        assert(a + b =~= a);
        assert(values_under(a, name) + values_under(b, name) =~= values_under(a, name));
    } else {
        let front = b.drop_last();
        lemma_values_concat(a, front, name);
        assert((a + b).drop_last() =~= a + front);
        assert((a + b).last() == b.last());
        assert(values_under(a + b, name) =~= values_under(a, name) + values_under(b, name));
    }
}

proof fn lemma_no_values(fields: Seq<(Seq<char>, Seq<u8>)>, name: Seq<char>)
    requires
        forall|i: int| 0 <= i < fields.len() ==> (#[trigger] fields[i]).0 != name,
    ensures
        values_under(fields, name).len() == 0,
    decreases fields.len(),
{
    if fields.len() > 0 {
        let front = fields.drop_last();
        assert forall|i: int| 0 <= i < front.len() implies (#[trigger] front[i]).0 != name by {
            assert(front[i] == fields[i]);
        }
        lemma_no_values(front, name);
        assert(fields[fields.len() - 1].0 != name);
    }
}

/// A field that is added comes last under its name, and nothing else changes.
pub proof fn law_fields_are_added_last(
    fields: Seq<(Seq<char>, Seq<u8>)>,
    name: Seq<char>,
    value: Seq<u8>,
    other: Seq<char>,
)
    ensures
        values_under(appended(fields, name, value), other) == if other == name {
            values_under(fields, name).push(value)
        } else {
            values_under(fields, other)
        },
{
    lemma_end_of(fields, name);
    let added = seq![(name, value)];
    let end = if end_of(fields, name) == 0 {
        fields.len() as int
    } else {
        end_of(fields, name)
    };
    let front = fields.take(end);
    let back = fields.skip(end);
    assert(front + back =~= fields);
    assert(appended(fields, name, value) =~= front + added + back);
    lemma_values_concat(front, back, other);
    lemma_values_concat(front, added, other);
    lemma_values_concat(front + added, back, other);
    assert(added.drop_last() =~= Seq::empty());
    assert(values_under(added.drop_last(), other) =~= Seq::empty());
    assert(values_under(added, other) =~= if other == name {
        seq![value]
    } else {
        Seq::empty()
    });
    if other == name {
        assert forall|i: int| 0 <= i < back.len() implies (#[trigger] back[i]).0 != name by {
            assert(back[i] == fields[end + i]);
        }
        lemma_no_values(back, name);
        assert(values_under(appended(fields, name, value), other) =~= values_under(
            fields,
            name,
        ).push(value));
    } else {
        assert(values_under(appended(fields, name, value), other) =~= values_under(fields, other));
    }
}

} // verus!
