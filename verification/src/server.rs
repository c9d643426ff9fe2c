//! The service's servers: the port they listen on, the messages they
//! answer with, and what the websocket loop does with each thing a
//! connection delivers.

use vstd::prelude::*;

use crate::codec::{json_escaped, json_quote, json_string_literal, json_unescape, law_json_escape_round_trip};
use crate::decimal::{parse_u16, parse_u16_spec};

verus! {

/// A reply of the HTTP server: either data or an error text.
pub struct ServerMsg<T> {
    data: Option<T>,
    error: Option<String>,
}

impl<T> ServerMsg<T> {
    /// The data and the error text of the reply.
    pub closed spec fn content(self) -> (Option<T>, Option<Seq<char>>) {
        (
            self.data,
            match self.error {
                Some(e) => Some(e@),
                None => None,
            },
        )
    }

    /// A reply carrying `data` and no error.
    pub fn data(data: T) -> (m: Self)
        ensures
            m.content() == (Some(data), None::<Seq<char>>),
    {
        ServerMsg { data: Some(data), error: None }
    }

    /// A reply carrying the error text `error` and no data.
    pub fn error(error: String) -> (m: Self)
        ensures
            m.content() == (None::<T>, Some(error@)),
    {
        ServerMsg { data: None, error: Some(error) }
    }

    /// The data and the error text, taken out of the reply.
    pub fn into_parts(self) -> (p: (Option<T>, Option<String>))
        ensures
            p.0 == self.content().0,
            p.1 matches Some(e) ==> self.content().1 == Some(e@),
            p.1 is None ==> self.content().1 is None,
    {
        (self.data, self.error)
    }

    /// A reply made of the given data and error text.
    pub fn from_parts(data: Option<T>, error: Option<String>) -> (m: Self)
        ensures
            m.content().0 == data,
            error matches Some(e) ==> m.content().1 == Some(e@),
            error is None ==> m.content().1 is None,
    {
        ServerMsg { data, error }
    }
}

/// A reply of the websocket server: either data or an error text.
pub struct HttpServerMsg<T> {
    data: Option<T>,
    error: Option<String>,
}

impl<T> HttpServerMsg<T> {
    /// The data and the error text of the reply.
    pub closed spec fn content(self) -> (Option<T>, Option<Seq<char>>) {
        (
            self.data,
            match self.error {
                Some(e) => Some(e@),
                None => None,
            },
        )
    }

    /// A reply carrying `data` and no error.
    pub fn data(data: T) -> (m: Self)
        ensures
            m.content() == (Some(data), None::<Seq<char>>),
    {
        HttpServerMsg { data: Some(data), error: None }
    }

    /// A reply carrying the error text `error` and no data.
    pub fn error(error: String) -> (m: Self)
        ensures
            m.content() == (None::<T>, Some(error@)),
    {
        HttpServerMsg { data: None, error: Some(error) }
    }

    /// The data and the error text, taken out of the reply.
    pub fn into_parts(self) -> (p: (Option<T>, Option<String>))
        ensures
            p.0 == self.content().0,
            p.1 matches Some(e) ==> self.content().1 == Some(e@),
            p.1 is None ==> self.content().1 is None,
    {
        (self.data, self.error)
    }

    /// A reply made of the given data and error text.
    pub fn from_parts(data: Option<T>, error: Option<String>) -> (m: Self)
        ensures
            m.content().0 == data,
            error matches Some(e) ==> m.content().1 == Some(e@),
            error is None ==> m.content().1 is None,
    {
        HttpServerMsg { data, error }
    }
}

/// The port text in effect: the configured value, else the default.
pub open spec fn port_text(configured: Option<Seq<char>>, default: Seq<char>) -> Seq<char> {
    match configured {
        Some(s) => s,
        None => default,
    }
}

/// The port the websocket server listens on: the configured `PORT` value
/// (`8080` when there is none), read as a `u16`; `None` when that text is
/// not a port number.
pub fn ws_port(configured: Option<&str>) -> (p: Option<u16>)
    ensures
        p == parse_u16_spec(port_text(
            match configured {
                Some(s) => Some(s@),
                None => None,
            },
            "8080"@,
        )),
        configured is None ==> p == Some(8080u16),
        configured matches Some(s) ==> p == parse_u16_spec(s@),
{
    proof {
        reveal_strlit("8080");
        crate::decimal::law_parse_of_decimal(8080);
        reveal_with_fuel(crate::decimal::decimal, 5);
        assert(crate::decimal::decimal(8080) =~= "8080"@);
    }
    match configured {
        Some(s) => parse_u16(s),
        None => parse_u16("8080"),
    }
}

/// The port the HTTP server listens on: the configured `PORT` value
/// (`6669` when there is none), read as a `u16`; `None` when that text is
/// not a port number.
pub fn http_port(configured: Option<&str>) -> (p: Option<u16>)
    ensures
        p == parse_u16_spec(port_text(
            match configured {
                Some(s) => Some(s@),
                None => None,
            },
            "6669"@,
        )),
        configured is None ==> p == Some(6669u16),
        configured matches Some(s) ==> p == parse_u16_spec(s@),
{
    proof {
        reveal_strlit("6669");
        crate::decimal::law_parse_of_decimal(6669);
        reveal_with_fuel(crate::decimal::decimal, 5);
        assert(crate::decimal::decimal(6669) =~= "6669"@);
    }
    match configured {
        Some(s) => parse_u16(s),
        None => parse_u16("6669"),
    }
}

/// A configured port text is the one read: whatever the default, the port
/// in effect is the configured text, so a configured port number is the
/// port listened on.
pub proof fn law_configured_port_is_used(s: Seq<char>, default: Seq<char>, n: u16)
    ensures
        port_text(Some(s), default) == s,
        parse_u16_spec(port_text(Some(crate::decimal::decimal(n as nat)), default)) == Some(n),
{
    crate::decimal::law_parse_of_decimal(n);
}

/// What a websocket connection delivered when it was polled.
#[derive(Clone, Copy, PartialEq, Eq, Structural, Debug)]
pub enum ReceiveEvent {
    /// A message arrived.
    Message,
    /// Nothing is waiting.
    Empty,
    /// The connection closed.
    Closed,
}

/// What the server does next with a connection.
#[derive(Clone, Copy, PartialEq, Eq, Structural, Debug)]
pub enum ConnectionStep {
    /// Answer with the current image and poll again.
    Reply,
    /// Stop polling this connection for now.
    Wait,
    /// Remove the connection and stop polling it.
    Close,
}

/// Every message is answered with the current image; an empty connection
/// is left until the next frame; a closed one is removed.
pub fn on_receive(event: ReceiveEvent) -> (step: ConnectionStep)
    ensures
        event == ReceiveEvent::Message ==> step == ConnectionStep::Reply,
        event == ReceiveEvent::Empty ==> step == ConnectionStep::Wait,
        event == ReceiveEvent::Closed ==> step == ConnectionStep::Close,
{
    match event {
        ReceiveEvent::Message => ConnectionStep::Reply,
        ReceiveEvent::Empty => ConnectionStep::Wait,
        ReceiveEvent::Closed => ConnectionStep::Close,
    }
}

/// The JSON text `{"image":<image as a JSON string>}`.
pub open spec fn image_reply_text(image: Seq<char>) -> Seq<char> {
    "{\"image\":"@ + json_string_literal(image) + "}"@
}

/// The reply to a websocket message: a JSON object whose `image` field is
/// the current image (its `data:` URL).
pub fn image_reply(image: &str) -> (reply: String)
    ensures
        reply@ == image_reply_text(image@),
{
    let quoted = json_quote(image);
    let mut reply = "{\"image\":".to_owned();
    match quoted {
        Ok(q) => {
            reply.append(q.as_str());
        },
        Err(_) => {},
    }
    reply.append("}");
    reply
}

/// The image text that a reply carries, read back as a JSON reader does:
/// the string between `{"image":"` and `"}`, unescaped.
pub open spec fn reply_image(reply: Seq<char>) -> Seq<char> {
    json_unescape(reply.subrange(10, reply.len() - 2))
}

/// The reply carries the image unchanged: it is the object
/// `{"image":"…"}`, and reading its `image` string back gives exactly the
/// image text that was sent; so different images give different replies.
pub proof fn law_reply_carries_image(image: Seq<char>, other: Seq<char>)
    ensures
        image_reply_text(image).len() >= 12,
        image_reply_text(image).subrange(0, 10) == seq!['{', '"', 'i', 'm', 'a', 'g', 'e', '"', ':', '"'],
        image_reply_text(image).subrange(
            image_reply_text(image).len() - 2,
            image_reply_text(image).len() as int,
        ) == seq!['"', '}'],
        reply_image(image_reply_text(image)) == image,
        image_reply_text(image) == image_reply_text(other) ==> image == other,
{
    reveal_strlit("{\"image\":");
    reveal_strlit("}");
    let r = image_reply_text(image);
    let e = json_escaped(image);
    assert(r =~= seq!['{', '"', 'i', 'm', 'a', 'g', 'e', '"', ':', '"'] + e + seq!['"', '}']);
    assert(r.subrange(0, 10) =~= seq!['{', '"', 'i', 'm', 'a', 'g', 'e', '"', ':', '"']);
    assert(r.subrange(r.len() - 2, r.len() as int) =~= seq!['"', '}']);
    assert(r.subrange(10, r.len() - 2) =~= e);
    law_json_escape_round_trip(image);
    let r2 = image_reply_text(other);
    let e2 = json_escaped(other);
    assert(r2 =~= seq!['{', '"', 'i', 'm', 'a', 'g', 'e', '"', ':', '"'] + e2 + seq!['"', '}']);
    assert(r2.subrange(10, r2.len() - 2) =~= e2);
    law_json_escape_round_trip(other);
}

/// Whether a shutdown signal stops the engine: only a received `true` does.
pub fn should_shutdown(signal: Option<bool>) -> (stop: bool)
    ensures
        stop == (signal == Some(true)),
{
    match signal {
        Some(true) => true,
        _ => false,
    }
}

} // verus!
