//! The `/` service: it logs in, subscribes to the quote panel and answers
//! with the quotes it gathered.

use vstd::prelude::*;
use crate::quotes::{
    bond_ticker, law_quote_update_slots, term_name_suffix, all_present, key_position, law_key_table_distinct, lemma_table_entries, required_keys, law_put_keeps_quotes, law_put_reads_back, lookup, put, QuoteBook,
    QuoteMessage, KEY_COUNT, all_keys_present,
};
use crate::balanz::auth::is_server_error;
use crate::balanz::ws::{bad_credentials_reason, json_string, subscription_message};
use crate::text::same_text;

verus! {

/// The text of an optional field, or the empty text when it is absent.
pub open spec fn text_or_empty(field: Option<String>) -> Seq<char> {
    match field {
        Some(s) => s@,
        None => ""@,
    }
}

/// The ask and bid names that a term and an exact (upper-case) ticker fill.
pub open spec fn legacy_keys(plazo: Seq<char>, ticker: Seq<char>) -> Option<(Seq<char>, Seq<char>)> {
    if plazo == "CI"@ {
        if ticker == "AL30"@ {
            Some(("al30_ask"@, "al30_bid"@))
        } else if ticker == "AL30D"@ {
            Some(("al30d_ask"@, "al30d_bid"@))
        } else if ticker == "GD30"@ {
            Some(("gd30_ask"@, "gd30_bid"@))
        } else if ticker == "GD30D"@ {
            Some(("gd30d_ask"@, "gd30d_bid"@))
        } else {
            None
        }
    } else if plazo == "24hs"@ {
        if ticker == "AL30"@ {
            Some(("al30_ask_24hs"@, "al30_bid_24hs"@))
        } else if ticker == "AL30D"@ {
            Some(("al30d_ask_24hs"@, "al30d_bid_24hs"@))
        } else if ticker == "GD30"@ {
            Some(("gd30_ask_24hs"@, "gd30_bid_24hs"@))
        } else if ticker == "GD30D"@ {
            Some(("gd30d_ask_24hs"@, "gd30d_bid_24hs"@))
        } else {
            None
        }
    } else {
        None
    }
}

/// The book after a message with the given term, ticker, ask and bid.
pub open spec fn legacy_update<V>(
    slots: Seq<Option<V>>,
    plazo: Seq<char>,
    ticker: Seq<char>,
    pv: V,
    pc: V,
) -> Seq<Option<V>> {
    match legacy_keys(plazo, ticker) {
        Some((ask, bid)) => put(put(slots, ask, pv), bid, pc),
        None => slots,
    }
}

/// Updates the book from a websocket message. A missing term or ticker
/// counts as the empty text, a missing price as `absent_price`; only the
/// four bonds, spelled in upper case, for the two terms are stored.
pub fn update_data<V: Copy>(data: &mut QuoteBook<V>, message: &QuoteMessage<V>, absent_price: V)
    ensures
        final(data)@ == legacy_update(
            old(data)@,
            text_or_empty(message.plazo),
            text_or_empty(message.ticker),
            message.pv.unwrap_or(absent_price),
            message.pc.unwrap_or(absent_price),
        ),
        forall|k: int|
            #![trigger collected_pair(k)]
            0 <= k < 8 && text_or_empty(message.plazo) == collected_pair(k).0 && text_or_empty(
                message.ticker,
            ) == collected_pair(k).1 ==> final(data)@ == old(data)@.update(
                2 * k,
                Some(message.pv.unwrap_or(absent_price)),
            ).update(2 * k + 1, Some(message.pc.unwrap_or(absent_price))),
{
    let plazo: &str = match &message.plazo {
        Some(s) => s.as_str(),
        None => "",
    };
    let ticker: &str = match &message.ticker {
        Some(s) => s.as_str(),
        None => "",
    };
    let pv = match message.pv {
        Some(v) => v,
        None => absent_price,
    };
    let pc = match message.pc {
        Some(v) => v,
        None => absent_price,
    };
    if same_text(plazo, "CI") {
        if same_text(ticker, "AL30") {
            data.insert("al30_ask", pv);
            data.insert("al30_bid", pc);
        } else if same_text(ticker, "AL30D") {
            data.insert("al30d_ask", pv);
            data.insert("al30d_bid", pc);
        } else if same_text(ticker, "GD30") {
            data.insert("gd30_ask", pv);
            data.insert("gd30_bid", pc);
        } else if same_text(ticker, "GD30D") {
            data.insert("gd30d_ask", pv);
            data.insert("gd30d_bid", pc);
        }
    } else if same_text(plazo, "24hs") {
        if same_text(ticker, "AL30") {
            data.insert("al30_ask_24hs", pv);
            data.insert("al30_bid_24hs", pc);
        } else if same_text(ticker, "AL30D") {
            data.insert("al30d_ask_24hs", pv);
            data.insert("al30d_bid_24hs", pc);
        } else if same_text(ticker, "GD30") {
            data.insert("gd30_ask_24hs", pv);
            data.insert("gd30_bid_24hs", pc);
        } else if same_text(ticker, "GD30D") {
            data.insert("gd30d_ask_24hs", pv);
            data.insert("gd30d_bid_24hs", pc);
        }
    }
    proof {
        assert forall|k: int|
            #![trigger collected_pair(k)]
            0 <= k < 8 && text_or_empty(message.plazo) == collected_pair(k).0 && text_or_empty(
                message.ticker,
            ) == collected_pair(k).1 implies legacy_update(
            old(data)@,
            text_or_empty(message.plazo),
            text_or_empty(message.ticker),
            message.pv.unwrap_or(absent_price),
            message.pc.unwrap_or(absent_price),
        ) == old(data)@.update(2 * k, Some(message.pv.unwrap_or(absent_price))).update(
            2 * k + 1,
            Some(message.pc.unwrap_or(absent_price)),
        ) by {
            law_pair_slots(
                old(data)@,
                k,
                message.pv.unwrap_or(absent_price),
                message.pc.unwrap_or(absent_price),
            );
        }
    }
}

/// The token the login answers with when the login service failed on its
/// side; the `/` endpoint then answers 503.
pub open spec fn temporary_error_token() -> Seq<char> {
    "__TEMPORARY_ERROR__"@
}

/// The token of a login whose nonce reply has status `status`: the
/// temporary-error token for a server error, else `None` and the login goes
/// on.
pub fn login_status_outcome(status: u16) -> (r: Option<String>)
    ensures
        is_server_error(status) ==> (r matches Some(t) && t@ == temporary_error_token()),
        !is_server_error(status) ==> r is None,
        500 <= status <= 599 ==> (r matches Some(t) && t@ == "__TEMPORARY_ERROR__"@),
        !(500 <= status <= 599) ==> r is None,
{
    if 500 <= status && status < 600 {
        Some("__TEMPORARY_ERROR__".to_owned())
    } else {
        None
    }
}

/// Whether `serde_json::from_str::<serde_json::Value>` accepts a text.
pub uninterp spec fn json_parses(text: Seq<char>) -> bool;

/// The `nonce` field of a JSON text, written back as compact JSON (`null`
/// when the field is absent or the text is not an object), as
/// `serde_json::Value`'s index and `Display` give it.
pub uninterp spec fn init_nonce_json(text: Seq<char>) -> Seq<char>;

/// Reads the body of the nonce reply with `serde_json::from_str`, picks its
/// `nonce` field with `Value`'s index (`Null` when absent) and writes that
/// field back with `Display`. The contract claims that a text comes back
/// exactly when the body parses as JSON, and that it is the named function
/// of the body; both depend on the body alone.
#[verifier::external_body]
fn init_reply_nonce(text: &str) -> (r: Option<String>)
    ensures
        r is Some == json_parses(text@),
        r matches Some(n) ==> n@ == init_nonce_json(text@),
{
    serde_json::from_str::<serde_json::Value>(text).ok().map(|v| v["nonce"].to_string())
}

/// The login goes on with the nonce of a reply that parsed; a reply that is
/// not JSON ends it with the empty token.
pub fn login_after_init(nonce: Option<String>) -> (r: Result<String, String>)
    ensures
        nonce is None ==> (r matches Err(t) && t@.len() == 0),
        nonce matches Some(n) ==> r == Ok::<String, String>(n),
{
    match nonce {
        Some(n) => Ok(n),
        None => Err(String::new()),
    }
}

/// The nonce with which the login goes on, as JSON text: the `nonce` field
/// of the body of the nonce reply (`null` when absent). A body that is not
/// JSON ends the login with the empty token.
pub fn nonce_of_init_reply(text: &str) -> (r: Result<String, String>)
    ensures
        r is Ok == json_parses(text@),
        r matches Ok(n) ==> n@ == init_nonce_json(text@),
        r matches Err(t) ==> t@.len() == 0,
{
    login_after_init(init_reply_nonce(text))
}

/// The access token of the login reply, or the empty text when it has none.
pub fn access_token_or_empty(token: Option<String>) -> (r: String)
    ensures
        r@ == text_or_empty(token),
{
    match token {
        Some(t) => t,
        None => "".to_owned(),
    }
}

/// The process-wide access token of the `/` endpoint: set once, by the
/// stored copy or the first login, and never replaced afterwards.
pub struct TokenCell {
    pub value: Option<String>,
}

/// What the `/` endpoint does to obtain its token.
pub enum CellStep {
    /// Subscribe with this token.
    Use(String),
    /// Log in, then hand the token to `after_login`.
    Login,
}

/// The step for a cell: a non-empty cached token is used, otherwise the
/// endpoint logs in.
pub open spec fn cell_step(cell: Option<String>) -> CellStep {
    match cell {
        Some(t) => if t@.len() != 0 {
            CellStep::Use(t)
        } else {
            CellStep::Login
        },
        None => CellStep::Login,
    }
}

impl TokenCell {
    /// An empty cell.
    pub fn new() -> (c: Self)
        ensures
            c.value is None,
    {
        TokenCell { value: None }
    }

    /// Stores `token` if the cell is still empty; returns whether it did.
    pub fn offer(&mut self, token: String) -> (stored: bool)
        ensures
            stored == old(self).value is None,
            final(self).value == match old(self).value {
                Some(t) => Some(t),
                None => Some(token),
            },
    {
        if self.value.is_none() {
            self.value = Some(token);
            true
        } else {
            false
        }
    }

    /// Offers the `value` of the stored token document, when it has a text
    /// one.
    pub fn offer_stored(&mut self, stored: Option<String>)
        ensures
            final(self).value == match (old(self).value, stored) {
                (Some(t), _) => Some(t),
                (None, Some(s)) => Some(s),
                (None, None) => None,
            },
    {
        match stored {
            Some(t) => {
                self.offer(t);
            },
            None => {},
        }
    }

    /// How to obtain the token now (see `cell_step`).
    pub fn step(&self) -> (s: CellStep)
        ensures
            s == cell_step(self.value),
            (self.value matches Some(t) && t@.len() != 0) ==> s == CellStep::Use(
                self.value->0,
            ),
            !(self.value matches Some(t) && t@.len() != 0) ==> s is Login,
    {
        match &self.value {
            Some(t) => if !t.as_str().is_empty() {
                CellStep::Use(t.clone())
            } else {
                CellStep::Login
            },
            None => CellStep::Login,
        }
    }

    /// Takes the token of a login. An empty cell keeps it, and it is used
    /// unless it is empty, in which case the endpoint logs in once more; a
    /// cell already set keeps its value and this token is used as it is.
    pub fn after_login(&mut self, token: String) -> (s: CellStep)
        ensures
            match old(self).value {
                None => final(self).value == Some(token) && s == cell_step(Some(token)),
                Some(t) => final(self).value == Some(t) && s == CellStep::Use(token),
            },
            old(self).value is None && token@.len() != 0 ==> s == CellStep::Use(token),
            old(self).value is None && token@.len() == 0 ==> s is Login,
            old(self).value is Some ==> s == CellStep::Use(token),
    {
        let kept = self.offer(token.clone());
        if kept && token.as_str().is_empty() {
            CellStep::Login
        } else {
            CellStep::Use(token)
        }
    }
}

/// Once the cell holds a token, no step replaces it (`offer`,
/// `offer_stored` and `after_login` each keep a set value): along any run of
/// them the value stays the first one set. A cached temporary-error token is
/// therefore used by every later request, which then answers 503.
pub proof fn law_cell_set_once(run: Seq<Option<String>>, start: int)
    requires
        0 <= start < run.len(),
        run[start] is Some,
        forall|i: int| 0 <= i < run.len() - 1 ==> (#[trigger] run[i] is Some ==> run[i + 1] == run[i]),
    ensures
        forall|i: int| start <= i < run.len() ==> #[trigger] run[i] == run[start],
        (run[start] matches Some(t) && t@ == temporary_error_token()) ==> forall|i: int|
            start <= i < run.len() ==> (cell_step(#[trigger] run[i]) matches CellStep::Use(u) && u@
                == temporary_error_token()),
    decreases run.len() - start,
{
    reveal_strlit("__TEMPORARY_ERROR__");
    if start + 1 < run.len() {
        assert(run[start] is Some ==> run[start + 1] == run[start]);
        law_cell_set_once(run, start + 1);
    }
}

/// An HTTP answer of the `/` endpoint other than the quotes.
pub struct Reply {
    pub status: u16,
    pub body: &'static str,
}

/// The answer when the login service failed on its side: 503.
pub fn unavailable_reply(token: &str) -> (r: Option<Reply>)
    ensures
        token@ == temporary_error_token() ==> (r matches Some(reply) && reply.status == 503
            && reply.body@ == "Temporary server error, please try again later."@),
        token@ != temporary_error_token() ==> r is None,
{
    if same_text(token, "__TEMPORARY_ERROR__") {
        Some(Reply { status: 503, body: "Temporary server error, please try again later." })
    } else {
        None
    }
}

/// Failed connections and refused tokens tolerated before giving up.
pub const MAX_RETRIES: u32 = 3;

/// Seconds to wait after a failed connection or a refused token.
pub const RETRY_DELAY_SECS: u64 = 10;

/// What the quote stream delivered.
pub enum RootEvent<V> {
    /// A text frame; `None` when it is not JSON.
    Text(Option<QuoteMessage<V>>),
    /// A close frame, with its reason when it carries one.
    Close(Option<String>),
    /// A binary, ping, pong or raw frame.
    Other,
    /// The stream failed.
    StreamError,
    /// The stream ended.
    StreamEnded,
}

/// What to do before the next connection.
pub enum RootAttempt {
    /// Connect and send this subscription message.
    Connect(String),
    /// Answer with this error.
    GiveUp(Reply),
}

/// What to do after an event of the stream.
pub enum RootStep {
    /// Read the next event.
    Continue,
    /// Answer 200 with the quotes gathered.
    Respond,
    /// Wait, log in again, hand over the new token and start the next attempt.
    PauseThenLogin(u64),
}

/// One request of the `/` endpoint, from the first connection to the answer.
pub struct RootSession<V> {
    /// Failed connections and refused tokens so far.
    pub retries: u32,
    /// A connection attempt is under way.
    pub in_attempt: bool,
    /// The access token to subscribe with.
    pub token: String,
    /// The quotes of the current connection.
    pub data: QuoteBook<V>,
    /// The price stored for a message without one.
    pub absent_price: V,
}

/// The retry count after a failed connection or a refused token: it grows
/// only while an attempt is under way, which the budget guarantees is below
/// `MAX_RETRIES`.
pub open spec fn counted_retry(retries: u32, in_attempt: bool) -> u32 {
    if in_attempt && retries < MAX_RETRIES {
        (retries + 1) as u32
    } else {
        retries
    }
}

/// The step after an event when the stream goes on: answer once every quote
/// is in.
pub open spec fn root_step_for<V>(slots: Seq<Option<V>>) -> RootStep {
    if all_present(slots) {
        RootStep::Respond
    } else {
        RootStep::Continue
    }
}

impl<V: Copy> RootSession<V> {
    /// A request that will subscribe with `token`.
    pub fn new(token: String, absent_price: V) -> (s: Self)
        ensures
            s.retries == 0,
            !s.in_attempt,
            s.token == token,
            s.absent_price == absent_price,
            s.data@ == Seq::new(KEY_COUNT as nat, |i: int| None::<V>),
    {
        RootSession { retries: 0, in_attempt: false, token, data: QuoteBook::new(), absent_price }
    }

    /// Gives up once `MAX_RETRIES` failures happened; otherwise starts an
    /// attempt with an empty book and the subscription message for the token.
    pub fn next_attempt(&mut self) -> (a: RootAttempt)
        ensures
            old(self).retries >= MAX_RETRIES ==> (a matches RootAttempt::GiveUp(reply)
                && reply.status == 500 && reply.body@ == "Failed after 3 retries"@),
            old(self).retries >= MAX_RETRIES ==> final(self).retries == old(self).retries
                && final(self).in_attempt == old(self).in_attempt && final(self).token == old(
                self,
            ).token && final(self).data@ == old(self).data@,
            old(self).retries < MAX_RETRIES ==> (a matches RootAttempt::Connect(m) && m@
                == "{\"panel\":6,\"token\":"@ + json_string(old(self).token@) + "}"@),
            old(self).retries < MAX_RETRIES ==> final(self).in_attempt && final(self).retries == old(
                self,
            ).retries && final(self).token == old(self).token && final(self).data@ == Seq::new(
                KEY_COUNT as nat,
                |i: int| None::<V>,
            ),
            final(self).absent_price == old(self).absent_price,
    {
        if self.retries >= MAX_RETRIES {
            return RootAttempt::GiveUp(Reply { status: 500, body: "Failed after 3 retries" });
        }
        self.in_attempt = true;
        self.data = QuoteBook::new();
        RootAttempt::Connect(subscription_message(self.token.as_str()))
    }

    /// A connection failed: it counts as a retry, and the next attempt waits
    /// `RETRY_DELAY_SECS`.
    pub fn connect_failed(&mut self) -> (delay_secs: u64)
        ensures
            delay_secs == RETRY_DELAY_SECS,
            final(self).retries == counted_retry(old(self).retries, old(self).in_attempt),
            !final(self).in_attempt,
            final(self).token == old(self).token,
            final(self).data@ == old(self).data@,
            final(self).absent_price == old(self).absent_price,
    {
        if self.in_attempt && self.retries < MAX_RETRIES {
            self.retries = self.retries + 1;
        }
        self.in_attempt = false;
        RETRY_DELAY_SECS
    }

    /// The token to subscribe with from now on.
    pub fn use_token(&mut self, token: String)
        ensures
            final(self).token == token,
            final(self).retries == old(self).retries,
            final(self).in_attempt == old(self).in_attempt,
            final(self).data@ == old(self).data@,
            final(self).absent_price == old(self).absent_price,
    {
        self.token = token;
    }

    /// Takes one event of the stream. A close with exactly the reason
    /// `Bad credentials` counts as a retry and asks for a new login; any
    /// other close, a failure or the end of the stream answers with the
    /// quotes gathered; otherwise the service answers once every quote is in.
    pub fn on_event(&mut self, event: RootEvent<V>) -> (step: RootStep)
        ensures
            final(self).token == old(self).token,
            final(self).absent_price == old(self).absent_price,
            match event {
                RootEvent::Text(Some(m)) => final(self).data@ == legacy_update(
                    old(self).data@,
                    text_or_empty(m.plazo),
                    text_or_empty(m.ticker),
                    m.pv.unwrap_or(old(self).absent_price),
                    m.pc.unwrap_or(old(self).absent_price),
                ) && step == root_step_for(final(self).data@) && final(self).retries == old(
                    self,
                ).retries && final(self).in_attempt == old(self).in_attempt,
                RootEvent::Close(Some(reason)) => final(self).data@ == old(self).data@ && if reason@
                    == bad_credentials_reason() {
                    step == RootStep::PauseThenLogin(RETRY_DELAY_SECS) && final(self).retries
                        == counted_retry(old(self).retries, old(self).in_attempt)
                        && !final(self).in_attempt
                } else {
                    step is Respond && final(self).retries == old(self).retries
                        && final(self).in_attempt == old(self).in_attempt
                },
                RootEvent::StreamError => final(self).data@ == old(self).data@ && step is Respond
                    && final(self).retries == old(self).retries && final(self).in_attempt == old(
                    self,
                ).in_attempt,
                RootEvent::StreamEnded => final(self).data@ == old(self).data@ && step is Respond
                    && final(self).retries == old(self).retries && final(self).in_attempt == old(
                    self,
                ).in_attempt,
                _ => final(self).data@ == old(self).data@ && step == root_step_for(old(self).data@)
                    && final(self).retries == old(self).retries && final(self).in_attempt == old(
                    self,
                ).in_attempt,
            },
            (event is Text || event is Other || event matches RootEvent::Close(None)) ==> {
                &&& final(self).data@.len() == KEY_COUNT
                &&& (step == RootStep::Respond <==> forall|i: int|
                    0 <= i < KEY_COUNT ==> #[trigger] final(self).data@[i] is Some)
                &&& (step == RootStep::Continue <==> exists|i: int|
                    0 <= i < KEY_COUNT && #[trigger] final(self).data@[i] is None)
            },
    {
        match event {
            RootEvent::Text(Some(m)) => {
                let absent = self.absent_price;
                update_data(&mut self.data, &m, absent);
            },
            RootEvent::Text(None) => {},
            RootEvent::Close(Some(reason)) => {
                if same_text(reason.as_str(), "Bad credentials") {
                    if self.in_attempt && self.retries < MAX_RETRIES {
                        self.retries = self.retries + 1;
                    }
                    self.in_attempt = false;
                    return RootStep::PauseThenLogin(RETRY_DELAY_SECS);
                }
                return RootStep::Respond;
            },
            RootEvent::Close(None) => {},
            RootEvent::Other => {},
            RootEvent::StreamError => {
                return RootStep::Respond;
            },
            RootEvent::StreamEnded => {
                return RootStep::Respond;
            },
        }
        if all_keys_present(&self.data) {
            RootStep::Respond
        } else {
            RootStep::Continue
        }
    }
}

/// The retry count after `n` failed attempts, each started by
/// `next_attempt` (so each under way when it failed).
pub open spec fn retries_after(n: nat) -> u32
    decreases n,
{
    if n == 0 {
        0
    } else {
        counted_retry(retries_after((n - 1) as nat), true)
    }
}

/// Each failed attempt counts once, so the endpoint connects for the first
/// `MAX_RETRIES` failures and gives up at the next attempt: after `n`
/// failures the count is `min(n, MAX_RETRIES)`.
pub proof fn law_gives_up_after_max_retries(n: nat)
    ensures
        n <= MAX_RETRIES ==> retries_after(n) == n,
        n >= MAX_RETRIES ==> retries_after(n) == MAX_RETRIES,
        retries_after(n) >= MAX_RETRIES <==> n >= MAX_RETRIES,
    decreases n,
{
    if n > 0 {
        law_gives_up_after_max_retries((n - 1) as nat);
    }
}

/// Once every quote is in, the next quote message answers the request: a
/// message never takes a quote away.
pub proof fn law_complete_session_responds<V>(
    slots: Seq<Option<V>>,
    message: QuoteMessage<V>,
    absent_price: V,
)
    requires
        slots.len() == KEY_COUNT,
        all_present(slots),
    ensures
        root_step_for(
            legacy_update(
                slots,
                text_or_empty(message.plazo),
                text_or_empty(message.ticker),
                message.pv.unwrap_or(absent_price),
                message.pc.unwrap_or(absent_price),
            ),
        ) is Respond,
{
    law_update_keeps_quotes(
        slots,
        text_or_empty(message.plazo),
        text_or_empty(message.ticker),
        message.pv.unwrap_or(absent_price),
        message.pc.unwrap_or(absent_price),
    );
}

/// The position of the ask quote that a term and an exact ticker fill:
/// `8 * term + 2 * bond`, the bid following it.
pub open spec fn legacy_slot(plazo: Seq<char>, ticker: Seq<char>) -> Option<int> {
    let term: Option<int> = if plazo == "CI"@ {
        Some(0)
    } else if plazo == "24hs"@ {
        Some(1)
    } else {
        None
    };
    let bond: Option<int> = if ticker == "AL30"@ {
        Some(0)
    } else if ticker == "AL30D"@ {
        Some(1)
    } else if ticker == "GD30"@ {
        Some(2)
    } else if ticker == "GD30D"@ {
        Some(3)
    } else {
        None
    };
    match (term, bond) {
        (Some(t), Some(b)) => Some(8 * t + 2 * b),
        _ => None,
    }
}

/// The term and ticker of the `k`-th of the eight pairs the `/` endpoint
/// collects (`k < 8`): spot first, then next day; AL30, AL30D, GD30, GD30D.
pub open spec fn collected_pair(k: int) -> (Seq<char>, Seq<char>) {
    let plazo = if k < 4 { "CI"@ } else { "24hs"@ };
    let b = k % 4;
    let ticker = if b == 0 {
        "AL30"@
    } else if b == 1 {
        "AL30D"@
    } else if b == 2 {
        "GD30"@
    } else {
        "GD30D"@
    };
    (plazo, ticker)
}

proof fn lemma_literals_differ()
    ensures
        "CI"@ != "24hs"@,
        "AL30"@ != "AL30D"@ && "AL30"@ != "GD30"@ && "AL30"@ != "GD30D"@,
        "AL30D"@ != "GD30"@ && "AL30D"@ != "GD30D"@ && "GD30"@ != "GD30D"@,
{
    reveal_strlit("CI");
    reveal_strlit("24hs");
    reveal_strlit("AL30");
    reveal_strlit("AL30D");
    reveal_strlit("GD30");
    reveal_strlit("GD30D");
    assert("CI"@.len() != "24hs"@.len());
    assert("AL30"@.len() != "AL30D"@.len());
    assert("GD30"@.len() != "GD30D"@.len());
    assert("AL30"@[0] != "GD30"@[0]);
    assert("AL30"@[0] != "GD30D"@[0]);
    assert("AL30D"@[0] != "GD30"@[0]);
    assert("AL30D"@[0] != "GD30D"@[0]);
}

/// The slot of a pair: its ask lands at `legacy_slot`, its bid right after;
/// other messages change nothing.
proof fn lemma_legacy_update_slots<V>(
    slots: Seq<Option<V>>,
    plazo: Seq<char>,
    ticker: Seq<char>,
    pv: V,
    pc: V,
)
    requires
        slots.len() == KEY_COUNT,
    ensures
        legacy_update(slots, plazo, ticker, pv, pc) == match legacy_slot(plazo, ticker) {
            Some(k) => slots.update(k, Some(pv)).update(k + 1, Some(pc)),
            None => slots,
        },
        legacy_slot(plazo, ticker) matches Some(k) ==> 0 <= k && k + 1 < KEY_COUNT && k % 2 == 0,
{
    law_key_table_distinct();
    lemma_literals_differ();
    lemma_legacy_keys_at_slot(plazo, ticker);
    let t = required_keys();
    if let Some(k) = legacy_slot(plazo, ticker) {
        assert(key_position(t[k]) == Some(k));
        assert(key_position(t[k + 1]) == Some(k + 1));
    }
}

/// The names a message fills are the table entries at its slot.
proof fn lemma_legacy_keys_at_slot(plazo: Seq<char>, ticker: Seq<char>)
    ensures
        legacy_keys(plazo, ticker) == match legacy_slot(plazo, ticker) {
            Some(k) => Some((required_keys()[k], required_keys()[k + 1])),
            None => None,
        },
        legacy_slot(plazo, ticker) matches Some(k) ==> 0 <= k && k + 1 < KEY_COUNT && k % 2 == 0,
{
    lemma_table_entries();
    lemma_literals_differ();
}

/// Messages for different pairs commute: whatever the order in which two
/// messages with different (term, ticker) arrive, the book ends the same.
pub proof fn law_update_commutes<V>(
    slots: Seq<Option<V>>,
    plazo1: Seq<char>,
    ticker1: Seq<char>,
    pv1: V,
    pc1: V,
    plazo2: Seq<char>,
    ticker2: Seq<char>,
    pv2: V,
    pc2: V,
)
    requires
        slots.len() == KEY_COUNT,
        (plazo1, ticker1) != (plazo2, ticker2),
    ensures
        legacy_update(legacy_update(slots, plazo1, ticker1, pv1, pc1), plazo2, ticker2, pv2, pc2)
            == legacy_update(
            legacy_update(slots, plazo2, ticker2, pv2, pc2),
            plazo1,
            ticker1,
            pv1,
            pc1,
        ),
{
    let s1 = legacy_update(slots, plazo1, ticker1, pv1, pc1);
    let s2 = legacy_update(slots, plazo2, ticker2, pv2, pc2);
    lemma_legacy_update_slots(slots, plazo1, ticker1, pv1, pc1);
    lemma_legacy_update_slots(slots, plazo2, ticker2, pv2, pc2);
    lemma_legacy_update_slots(s1, plazo2, ticker2, pv2, pc2);
    lemma_legacy_update_slots(s2, plazo1, ticker1, pv1, pc1);
    lemma_literals_differ();
    let a = legacy_update(s1, plazo2, ticker2, pv2, pc2);
    let b = legacy_update(s2, plazo1, ticker1, pv1, pc1);
    if let (Some(k1), Some(k2)) = (legacy_slot(plazo1, ticker1), legacy_slot(plazo2, ticker2)) {
        assert(k1 != k2);
        assert(a =~= b);
    }
}

/// The book after a run of messages, each a term, a ticker, an ask and a
/// bid, applied in order.
pub open spec fn legacy_fold<V>(
    slots: Seq<Option<V>>,
    messages: Seq<(Seq<char>, Seq<char>, V, V)>,
) -> Seq<Option<V>>
    decreases messages.len(),
{
    if messages.len() == 0 {
        slots
    } else {
        let m = messages.last();
        legacy_update(legacy_fold(slots, messages.drop_last()), m.0, m.1, m.2, m.3)
    }
}

/// Message `m` fills slot `i`.
pub open spec fn fills<V>(m: (Seq<char>, Seq<char>, V, V), i: int) -> bool {
    legacy_slot(m.0, m.1) matches Some(k) && (i == k || i == k + 1)
}

proof fn lemma_fold_filled<V>(slots: Seq<Option<V>>, messages: Seq<(Seq<char>, Seq<char>, V, V)>)
    requires
        slots.len() == KEY_COUNT,
    ensures
        legacy_fold(slots, messages).len() == KEY_COUNT,
        forall|i: int|
            0 <= i < KEY_COUNT ==> (#[trigger] legacy_fold(slots, messages)[i] is Some <==> (slots[i] is Some
                || exists|j: int| 0 <= j < messages.len() && fills(#[trigger] messages[j], i))),
    decreases messages.len(),
{
    if messages.len() > 0 {
        let prev = messages.drop_last();
        lemma_fold_filled(slots, prev);
        let m = messages.last();
        let before = legacy_fold(slots, prev);
        lemma_legacy_update_slots(before, m.0, m.1, m.2, m.3);
        assert forall|i: int| 0 <= i < KEY_COUNT implies (#[trigger] legacy_fold(slots, messages)[i] is Some
            <==> (slots[i] is Some || exists|j: int|
            0 <= j < messages.len() && fills(#[trigger] messages[j], i))) by {
            if exists|j: int| 0 <= j < messages.len() && fills(#[trigger] messages[j], i) {
                let j = choose|j: int| 0 <= j < messages.len() && fills(#[trigger] messages[j], i);
                if j < prev.len() {
                    assert(prev[j] == messages[j]);
                } else {
                    assert(messages[j] == m);
                }
            }
            if exists|j: int| 0 <= j < prev.len() && fills(#[trigger] prev[j], i) {
                let j = choose|j: int| 0 <= j < prev.len() && fills(#[trigger] prev[j], i);
                assert(messages[j] == prev[j]);
            }
            if fills(m, i) {
                assert(messages[messages.len() - 1] == m);
            }
        }
    }
}

/// The `k`-th collected pair occurs among the messages.
pub open spec fn pair_seen<V>(messages: Seq<(Seq<char>, Seq<char>, V, V)>, k: int) -> bool {
    exists|j: int|
        0 <= j < messages.len() && (#[trigger] messages[j]).0 == collected_pair(k).0
            && messages[j].1 == collected_pair(k).1
}

/// Starting from an empty book, a run of messages completes it exactly when
/// each of the eight (term, ticker) pairs of the `/` endpoint occurs in it.
pub proof fn law_complete_iff_all_pairs_seen<V>(messages: Seq<(Seq<char>, Seq<char>, V, V)>)
    ensures
        all_present(legacy_fold(Seq::new(KEY_COUNT as nat, |i: int| None::<V>), messages)) <==> forall|
            k: int,
        | 0 <= k < 8 ==> #[trigger] pair_seen(messages, k),
{
    let empty = Seq::new(KEY_COUNT as nat, |i: int| None::<V>);
    lemma_fold_filled(empty, messages);
    lemma_literals_differ();
    let after = legacy_fold(empty, messages);
    assert forall|k: int, j: int|
        #![trigger messages[j], collected_pair(k)]
        0 <= k < 8 && 0 <= j < messages.len() implies (fills(
        messages[j],
        2 * k,
    ) <==> (messages[j].0 == collected_pair(k).0 && messages[j].1 == collected_pair(k).1)) && (fills(
        messages[j],
        2 * k + 1,
    ) <==> (messages[j].0 == collected_pair(k).0 && messages[j].1 == collected_pair(k).1)) by {
        assert(k == 0 || k == 1 || k == 2 || k == 3 || k == 4 || k == 5 || k == 6 || k == 7);
    }
    if all_present(after) {
        assert forall|k: int| 0 <= k < 8 implies #[trigger] pair_seen(messages, k) by {
            assert(after[2 * k] is Some);
            let j = choose|j: int| 0 <= j < messages.len() && fills(#[trigger] messages[j], 2 * k);
            assert(fills(messages[j], 2 * k));
        }
    }
    if forall|k: int| 0 <= k < 8 ==> #[trigger] pair_seen(messages, k) {
        assert forall|i: int| 0 <= i < after.len() implies #[trigger] after[i] is Some by {
            let k = i / 2;
            assert(0 <= k < 8);
            assert(pair_seen(messages, k));
            let j = choose|j: int|
                0 <= j < messages.len() && (#[trigger] messages[j]).0 == collected_pair(k).0
                    && messages[j].1 == collected_pair(k).1;
            assert(fills(messages[j], 2 * k));
            assert(fills(messages[j], 2 * k + 1));
            assert(i == 2 * k || i == 2 * k + 1);
        }
    }
}

proof fn lemma_legacy_pair_distinct(plazo: Seq<char>, ticker: Seq<char>)
    ensures
        legacy_keys(plazo, ticker) matches Some((ask, bid)) ==> ask != bid && key_position(ask) is Some
            && key_position(bid) is Some,
{
    lemma_legacy_keys_at_slot(plazo, ticker);
    law_key_table_distinct();
}

/// After a message for one of the four bonds and a collected term, reading
/// its ask name gives the ask and reading its bid name gives the bid; any
/// other message leaves the book as it was.
pub proof fn law_update_reads_back<V>(
    slots: Seq<Option<V>>,
    plazo: Seq<char>,
    ticker: Seq<char>,
    pv: V,
    pc: V,
)
    requires
        slots.len() == KEY_COUNT,
    ensures
        legacy_keys(plazo, ticker) matches Some((ask, bid)) ==> {
            let after = legacy_update(slots, plazo, ticker, pv, pc);
            &&& lookup(after, ask) == Some(pv)
            &&& lookup(after, bid) == Some(pc)
        },
        legacy_keys(plazo, ticker) is None ==> legacy_update(slots, plazo, ticker, pv, pc) == slots,
{
    if let Some((ask, bid)) = legacy_keys(plazo, ticker) {
        lemma_legacy_pair_distinct(plazo, ticker);
        law_put_reads_back(slots, ask, pv);
        law_put_reads_back(put(slots, ask, pv), bid, pc);
    }
}

/// A message never removes a quote, so a complete book stays complete.
pub proof fn law_update_keeps_quotes<V>(
    slots: Seq<Option<V>>,
    plazo: Seq<char>,
    ticker: Seq<char>,
    pv: V,
    pc: V,
)
    requires
        slots.len() == KEY_COUNT,
    ensures
        forall|i: int|
            0 <= i < KEY_COUNT && slots[i] is Some ==> #[trigger] legacy_update(
                slots,
                plazo,
                ticker,
                pv,
                pc,
            )[i] is Some,
        all_present(slots) ==> all_present(legacy_update(slots, plazo, ticker, pv, pc)),
{
    if let Some((ask, bid)) = legacy_keys(plazo, ticker) {
        law_put_keeps_quotes(slots, ask, pv);
        law_put_reads_back(slots, ask, pv);
        law_put_keeps_quotes(put(slots, ask, pv), bid, pc);
    }
}

/// While the `/` request goes on, it answers from a text frame, another
/// frame or a close without reason only with a complete book: the step is
/// `Respond` exactly when all sixteen quotes, spot and next day, are in, and
/// `Continue` otherwise.
pub proof fn law_responds_only_when_complete<V>(slots: Seq<Option<V>>)
    requires
        slots.len() == KEY_COUNT,
    ensures
        root_step_for(slots) == RootStep::Respond <==> forall|i: int|
            0 <= i < KEY_COUNT ==> #[trigger] slots[i] is Some,
        root_step_for(slots) == RootStep::Continue <==> exists|i: int|
            0 <= i < KEY_COUNT && #[trigger] slots[i] is None,
{
}

/// A cell holding a non-empty token uses exactly that token, whatever its
/// length; only an empty or absent token leads to a login.
pub proof fn law_cell_uses_any_nonempty_token(token: String)
    ensures
        token@.len() != 0 ==> cell_step(Some(token)) == CellStep::Use(token),
        token@.len() == 0 ==> cell_step(Some(token)) is Login,
        cell_step(None) is Login,
{
}

/// The `k`-th collected pair (spot first, then next day; AL30, AL30D, GD30,
/// GD30D) stores the ask in slot `2 * k`, the table entry
/// `<lower-case ticker>_ask<suffix>`, and the bid in the next slot, the entry
/// `<lower-case ticker>_bid<suffix>`; nothing else changes. So 24hs/AL30 sets
/// `al30_ask_24hs` to the ask and `al30_bid_24hs` to the bid.
pub proof fn law_pair_slots<V>(slots: Seq<Option<V>>, k: int, pv: V, pc: V)
    requires
        slots.len() == KEY_COUNT,
        0 <= k < 8,
    ensures
        legacy_update(slots, collected_pair(k).0, collected_pair(k).1, pv, pc) == slots.update(
            2 * k,
            Some(pv),
        ).update(2 * k + 1, Some(pc)),
        required_keys()[2 * k] == bond_ticker(k % 4) + "_ask"@ + term_name_suffix(k / 4),
        required_keys()[2 * k + 1] == bond_ticker(k % 4) + "_bid"@ + term_name_suffix(k / 4),
{
    lemma_literals_differ();
    let (plazo, ticker) = collected_pair(k);
    lemma_legacy_update_slots(slots, plazo, ticker, pv, pc);
    assert(k == 0 || k == 1 || k == 2 || k == 3 || k == 4 || k == 5 || k == 6 || k == 7);
    assert(legacy_slot(plazo, ticker) == Some(2 * k));
    assert(8 * (k / 4) + 2 * (k % 4) == 2 * k);
    law_quote_update_slots(slots, k / 4, k % 4, pv, pc);
}

} // verus!
