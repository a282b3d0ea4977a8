//! The websocket side of the `/quotes` service: the subscription message and
//! the decisions taken on each event of the quote stream.

use vstd::prelude::*;
use crate::error::AppError;
use crate::quotes::{
    all_keys_present, all_present, law_quote_update_keeps_quotes, message_update, update_data,
    QuoteBook, QuoteMessage, KEY_COUNT,
};
use crate::quotes::lowercase;
use crate::text::{occurs_in, text_contains};

verus! {

/// The quote stream of the Balanz web client.
pub fn websocket_url() -> (url: &'static str)
    ensures
        url@ == "wss://clientes.balanz.com/websocket"@,
{
    "wss://clientes.balanz.com/websocket"
}

/// A lower-case hexadecimal digit.
pub open spec fn hex_digit(n: int) -> char {
    seq!['0', '1', '2', '3', '4', '5', '6', '7', '8', '9', 'a', 'b', 'c', 'd', 'e', 'f'][n]
}

/// How JSON writes one character inside a string: quote, backslash and the
/// control characters are escaped, everything else stands as it is.
pub open spec fn json_escape(c: char) -> Seq<char> {
    if c == '"' {
        seq!['\\', '"']
    } else if c == '\\' {
        seq!['\\', '\\']
    } else if c == '\u{8}' {
        seq!['\\', 'b']
    } else if c == '\u{c}' {
        seq!['\\', 'f']
    } else if c == '\n' {
        seq!['\\', 'n']
    } else if c == '\r' {
        seq!['\\', 'r']
    } else if c == '\t' {
        seq!['\\', 't']
    } else if (c as int) < 0x20 {
        seq!['\\', 'u', '0', '0', hex_digit(c as int / 16), hex_digit(c as int % 16)]
    } else {
        seq![c]
    }
}

/// The escaped characters of a text.
pub open spec fn json_escaped(s: Seq<char>) -> Seq<char>
    decreases s.len(),
{
    if s.len() == 0 {
        seq![]
    } else {
        json_escaped(s.drop_last()) + json_escape(s.last())
    }
}

/// A text written as a JSON string.
pub open spec fn json_string(s: Seq<char>) -> Seq<char> {
    seq!['"'] + json_escaped(s) + seq!['"']
}

/// Writes a text as a JSON string with `serde_json` (`Value::String` shown
/// through `Display`). The contract claims serde_json's compact escaping:
/// `"` and `\` and the control characters below U+0020 are escaped, the
/// usual ones by letter and the others as `\u00xx`; all else is copied.
#[verifier::external_body]
fn json_string_literal(s: &str) -> (r: String)
    ensures
        r@ == json_string(s@),
{
    serde_json::Value::String(s.to_owned()).to_string()
}

/// The message that subscribes to the quote panel with an access token:
/// `{"panel":6,"token":<token as a JSON string>}`.
pub fn subscription_message(token: &str) -> (m: String)
    ensures
        m@ == "{\"panel\":6,\"token\":"@ + json_string(token@) + "}"@,
{
    let mut m = "{\"panel\":6,\"token\":".to_owned();
    let quoted = json_string_literal(token);
    m.append(quoted.as_str());
    m.append("}");
    m
}

/// The close reason with which the server refuses a token.
pub open spec fn bad_credentials_reason() -> Seq<char> {
    "Bad credentials"@
}

/// What the quote stream delivered, or that the deadline passed.
pub enum WsEvent<V> {
    /// A text frame; `None` when it is not JSON.
    Text(Option<QuoteMessage<V>>),
    /// A close frame, with its reason when it carries one.
    Close(Option<String>),
    /// A binary, ping, pong or raw frame.
    Other,
    /// The stream failed.
    StreamError(String),
    /// The stream ended.
    StreamEnded,
    /// The deadline for a complete set of quotes passed.
    TimedOut,
}

/// What to do after an event.
pub enum WsStep {
    /// Read the next event.
    Continue,
    /// Close the connection and answer with the quotes, all of them in.
    Finish,
    /// Answer with this error.
    Fail(AppError),
}

/// The step after an event when the stream goes on: finish once every quote
/// is in, else read on.
pub open spec fn step_for<V>(slots: Seq<Option<V>>) -> WsStep {
    if all_present(slots) {
        WsStep::Finish
    } else {
        WsStep::Continue
    }
}

/// The step when the stream stops (a normal close or its end): finish when
/// every quote is in, else fail, since the request asks for all of them.
pub open spec fn stop_step<V>(slots: Seq<Option<V>>) -> WsStep {
    if all_present(slots) {
        WsStep::Finish
    } else {
        WsStep::Fail(AppError::IncompleteQuotes)
    }
}

/// Gathers all required quotes from the stream. It finishes only with a
/// complete set; a refused token, a stream failure, the deadline, or a
/// close or end of the stream before the set is complete make it fail.
pub struct QuoteCollector<V> {
    pub data: QuoteBook<V>,
}

impl<V: Copy> QuoteCollector<V> {
    /// A collector with no quote yet.
    pub fn new() -> (c: Self)
        ensures
            c.data@ == Seq::new(KEY_COUNT as nat, |i: int| None::<V>),
    {
        QuoteCollector { data: QuoteBook::new() }
    }

    fn stop(&self) -> (step: WsStep)
        ensures
            step == stop_step(self.data@),
            self.data@.len() == KEY_COUNT,
    {
        if all_keys_present(&self.data) {
            WsStep::Finish
        } else {
            WsStep::Fail(AppError::IncompleteQuotes)
        }
    }

    /// Takes one event of the stream.
    pub fn on_event(&mut self, event: WsEvent<V>) -> (step: WsStep)
        ensures
            match event {
                WsEvent::Text(Some(m)) => final(self).data@ == message_update(old(self).data@, m)
                    && step == step_for(final(self).data@),
                WsEvent::Text(None) => final(self).data@ == old(self).data@ && step == step_for(
                    old(self).data@,
                ),
                WsEvent::Close(Some(reason)) => final(self).data@ == old(self).data@ && if occurs_in(
                    bad_credentials_reason(),
                    reason@,
                ) {
                    step == WsStep::Fail(AppError::WebSocketBadCredentials)
                } else {
                    step == stop_step(old(self).data@)
                },
                WsEvent::Close(None) => final(self).data@ == old(self).data@ && step == step_for(
                    old(self).data@,
                ),
                WsEvent::Other => final(self).data@ == old(self).data@ && step == step_for(
                    old(self).data@,
                ),
                WsEvent::StreamError(e) => final(self).data@ == old(self).data@ && step
                    == WsStep::Fail(AppError::WebSocket(e)),
                WsEvent::StreamEnded => final(self).data@ == old(self).data@ && step == stop_step(
                    old(self).data@,
                ),
                WsEvent::TimedOut => final(self).data@ == old(self).data@ && step == WsStep::Fail(
                    AppError::WebSocketTimeout,
                ),
            },
            (event is StreamEnded || (event matches WsEvent::Close(Some(reason)) && !occurs_in(
                bad_credentials_reason(),
                reason@,
            ))) ==> {
                &&& final(self).data@.len() == KEY_COUNT
                &&& (step == WsStep::Finish <==> forall|i: int|
                    0 <= i < KEY_COUNT ==> #[trigger] final(self).data@[i] is Some)
                &&& (step == WsStep::Fail(AppError::IncompleteQuotes) <==> exists|i: int|
                    0 <= i < KEY_COUNT && #[trigger] final(self).data@[i] is None)
            },
            (event is Text || event is Other || event matches WsEvent::Close(None)) ==> {
                &&& final(self).data@.len() == KEY_COUNT
                &&& (step == WsStep::Continue <==> exists|i: int|
                    0 <= i < KEY_COUNT && #[trigger] final(self).data@[i] is None)
                &&& (step == WsStep::Finish <==> forall|i: int|
                    0 <= i < KEY_COUNT ==> #[trigger] final(self).data@[i] is Some)
            },
    {
        match event {
            WsEvent::Text(Some(m)) => {
                update_data(&mut self.data, &m);
            },
            WsEvent::Text(None) => {},
            WsEvent::Close(Some(reason)) => {
                if text_contains(reason.as_str(), "Bad credentials") {
                    return WsStep::Fail(AppError::WebSocketBadCredentials);
                }
                return self.stop();
            },
            WsEvent::Close(None) => {},
            WsEvent::Other => {},
            WsEvent::StreamError(e) => {
                return WsStep::Fail(AppError::WebSocket(e));
            },
            WsEvent::StreamEnded => {
                return self.stop();
            },
            WsEvent::TimedOut => {
                return WsStep::Fail(AppError::WebSocketTimeout);
            },
        }
        if all_keys_present(&self.data) {
            WsStep::Finish
        } else {
            WsStep::Continue
        }
    }
}

/// Once every quote is in, the next quote message finishes the collection:
/// a message never takes a quote away.
pub proof fn law_complete_collection_finishes<V>(slots: Seq<Option<V>>, message: QuoteMessage<V>)
    requires
        slots.len() == KEY_COUNT,
        all_present(slots),
    ensures
        step_for(message_update(slots, message)) is Finish,
{
    if let (Some(plazo), Some(ticker), Some(pv), Some(pc)) = (
        message.plazo,
        message.ticker,
        message.pv,
        message.pc,
    ) {
        law_quote_update_keeps_quotes(slots, plazo@, lowercase(ticker@), pv, pc);
    }
}

/// The collection finishes only with a complete set of quotes: whatever
/// the event, a `Finish` step comes with every quote in.
pub proof fn law_finish_only_when_complete<V>(slots: Seq<Option<V>>)
    ensures
        step_for(slots) is Finish ==> all_present(slots),
        stop_step(slots) is Finish ==> all_present(slots),
{
}

/// While the stream goes on, the collection never fails on its own: after a
/// text frame, another frame or a close without reason it reads on exactly
/// when some required quote is still missing, and finishes exactly when all
/// of them are in.
pub proof fn law_step_reads_on_while_incomplete<V>(slots: Seq<Option<V>>)
    requires
        slots.len() == KEY_COUNT,
    ensures
        step_for(slots) == WsStep::Continue <==> exists|i: int|
            0 <= i < KEY_COUNT && #[trigger] slots[i] is None,
        step_for(slots) == WsStep::Finish <==> forall|i: int|
            0 <= i < KEY_COUNT ==> #[trigger] slots[i] is Some,
        !(step_for(slots) is Fail),
{
}

/// When the stream stops (a close that does not refuse the token, or the
/// end of the stream), the collection finishes exactly when all required
/// quotes are in, and otherwise fails as incomplete.
pub proof fn law_stop_finishes_iff_complete<V>(slots: Seq<Option<V>>)
    requires
        slots.len() == KEY_COUNT,
    ensures
        stop_step(slots) == WsStep::Finish <==> forall|i: int|
            0 <= i < KEY_COUNT ==> #[trigger] slots[i] is Some,
        stop_step(slots) == WsStep::Fail(AppError::IncompleteQuotes) <==> exists|i: int|
            0 <= i < KEY_COUNT && #[trigger] slots[i] is None,
{
}

} // verus!
