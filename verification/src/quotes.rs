use vstd::prelude::*;
use crate::text::same_text;

verus! {

/// How many quotes a complete collection holds.
pub const KEY_COUNT: usize = 16;

/// The names of the quotes the service collects, in table order: for each
/// settlement term (spot, then 24 hours) and each bond, the ask then the bid.
pub open spec fn required_keys() -> Seq<Seq<char>> {
    seq![
        "al30_ask"@, "al30_bid"@, "al30d_ask"@, "al30d_bid"@,
        "gd30_ask"@, "gd30_bid"@, "gd30d_ask"@, "gd30d_bid"@,
        "al30_ask_24hs"@, "al30_bid_24hs"@, "al30d_ask_24hs"@, "al30d_bid_24hs"@,
        "gd30_ask_24hs"@, "gd30_bid_24hs"@, "gd30d_ask_24hs"@, "gd30d_bid_24hs"@,
    ]
}

/// The first position of `key` in the table of required keys, if it is one.
pub open spec fn key_position(key: Seq<char>) -> Option<int> {
    if exists|i: int| 0 <= i < KEY_COUNT && #[trigger] required_keys()[i] == key {
        Some(
            choose|i: int|
                0 <= i < KEY_COUNT && #[trigger] required_keys()[i] == key && forall|j: int|
                    0 <= j < i ==> required_keys()[j] != key,
        )
    } else {
        None
    }
}

/// A number read off the shape of a quote name: bit 3 for the next-day
/// suffix, bit 2 for a GD bond, bit 1 for a dollar (`d`) bond, bit 0 for a
/// bid. On the table it gives each name its own position.
pub open spec fn key_code(k: Seq<char>) -> int {
    let side = if k.len() == 8 || k.len() == 13 { k[5] } else { k[6] };
    (if k.len() >= 13 { 8int } else { 0int }) + (if k[0] == 'g' { 4int } else { 0int }) + (if k.len()
        == 9 || k.len() == 14 { 2int } else { 0int }) + (if side == 'b' { 1int } else { 0int })
}

/// The required names are pairwise different, and each stands at its own
/// position: `key_position(required_keys()[i]) == Some(i)`.
pub proof fn law_key_table_distinct()
    ensures
        forall|i: int, j: int|
            0 <= i < KEY_COUNT && 0 <= j < KEY_COUNT && i != j ==> #[trigger] required_keys()[i]
                != #[trigger] required_keys()[j],
        forall|i: int| 0 <= i < KEY_COUNT ==> key_position(#[trigger] required_keys()[i]) == Some(i),
{
    reveal_strlit("al30_ask");
    reveal_strlit("al30_bid");
    reveal_strlit("al30d_ask");
    reveal_strlit("al30d_bid");
    reveal_strlit("gd30_ask");
    reveal_strlit("gd30_bid");
    reveal_strlit("gd30d_ask");
    reveal_strlit("gd30d_bid");
    reveal_strlit("al30_ask_24hs");
    reveal_strlit("al30_bid_24hs");
    reveal_strlit("al30d_ask_24hs");
    reveal_strlit("al30d_bid_24hs");
    reveal_strlit("gd30_ask_24hs");
    reveal_strlit("gd30_bid_24hs");
    reveal_strlit("gd30d_ask_24hs");
    reveal_strlit("gd30d_bid_24hs");
    let t = required_keys();
    assert(key_code(t[0]) == 0 && key_code(t[1]) == 1 && key_code(t[2]) == 2 && key_code(t[3]) == 3);
    assert(key_code(t[4]) == 4 && key_code(t[5]) == 5 && key_code(t[6]) == 6 && key_code(t[7]) == 7);
    assert(key_code(t[8]) == 8 && key_code(t[9]) == 9 && key_code(t[10]) == 10 && key_code(t[11])
        == 11);
    assert(key_code(t[12]) == 12 && key_code(t[13]) == 13 && key_code(t[14]) == 14 && key_code(
        t[15],
    ) == 15);
    assert forall|i: int| 0 <= i < KEY_COUNT implies #[trigger] key_code(t[i]) == i by {
        assert(i == 0 || i == 1 || i == 2 || i == 3 || i == 4 || i == 5 || i == 6 || i == 7 || i
            == 8 || i == 9 || i == 10 || i == 11 || i == 12 || i == 13 || i == 14 || i == 15);
    }
    assert forall|i: int, j: int|
        0 <= i < KEY_COUNT && 0 <= j < KEY_COUNT && i != j implies #[trigger] t[i] != #[trigger] t[j] by {
        assert(key_code(t[i]) == i);
        assert(key_code(t[j]) == j);
    }
    assert forall|i: int| 0 <= i < KEY_COUNT implies key_position(#[trigger] t[i]) == Some(i) by {
        assert(t[i] == t[i]);
        let p = choose|p: int|
            0 <= p < KEY_COUNT && #[trigger] t[p] == t[i] && forall|j: int|
                0 <= j < p ==> t[j] != t[i];
        assert(key_position(t[i]) == Some(p));
        if p != i {
            assert(t[p] != t[i]);
        }
    }
}

/// The entries of the table of required names, one by one.
pub proof fn lemma_table_entries()
    ensures
        required_keys().len() == KEY_COUNT,
        required_keys()[0] == "al30_ask"@ && required_keys()[1] == "al30_bid"@,
        required_keys()[2] == "al30d_ask"@ && required_keys()[3] == "al30d_bid"@,
        required_keys()[4] == "gd30_ask"@ && required_keys()[5] == "gd30_bid"@,
        required_keys()[6] == "gd30d_ask"@ && required_keys()[7] == "gd30d_bid"@,
        required_keys()[8] == "al30_ask_24hs"@ && required_keys()[9] == "al30_bid_24hs"@,
        required_keys()[10] == "al30d_ask_24hs"@ && required_keys()[11] == "al30d_bid_24hs"@,
        required_keys()[12] == "gd30_ask_24hs"@ && required_keys()[13] == "gd30_bid_24hs"@,
        required_keys()[14] == "gd30d_ask_24hs"@ && required_keys()[15] == "gd30d_bid_24hs"@,
{
}

/// The name of the quote held at `position`.
pub fn key_name(position: usize) -> (name: &'static str)
    requires
        position < KEY_COUNT,
    ensures
        name@ == required_keys()[position as int],
{
    match position {
        0 => "al30_ask",
        1 => "al30_bid",
        2 => "al30d_ask",
        3 => "al30d_bid",
        4 => "gd30_ask",
        5 => "gd30_bid",
        6 => "gd30d_ask",
        7 => "gd30d_bid",
        8 => "al30_ask_24hs",
        9 => "al30_bid_24hs",
        10 => "al30d_ask_24hs",
        11 => "al30d_bid_24hs",
        12 => "gd30_ask_24hs",
        13 => "gd30_bid_24hs",
        14 => "gd30d_ask_24hs",
        _ => "gd30d_bid_24hs",
    }
}

/// Where `key` stands in the table of required keys, or `None` when the
/// service does not collect it.
pub fn key_index(key: &str) -> (r: Option<usize>)
    ensures
        match key_position(key@) {
            Some(p) => r == Some(p as usize),
            None => r is None,
        },
{
    let mut i: usize = 0;
    while i < KEY_COUNT
        invariant
            i <= KEY_COUNT,
            forall|j: int| 0 <= j < i ==> required_keys()[j] != key@,
        decreases KEY_COUNT - i,
    {
        if same_text(key_name(i), key) {
            assert(required_keys()[i as int] == key@);
            return Some(i);
        }
        i += 1;
    }
    None
}

/// The quotes collected so far, one slot per required key.
pub struct QuoteBook<V> {
    slots: Vec<Option<V>>,
}

impl<V> View for QuoteBook<V> {
    type V = Seq<Option<V>>;

    /// Slot `i` holds the quote named `required_keys()[i]`, if it arrived.
    closed spec fn view(&self) -> Seq<Option<V>> {
        self.slots@
    }
}

/// Every required quote is present.
pub open spec fn all_present<V>(slots: Seq<Option<V>>) -> bool {
    forall|i: int| 0 <= i < slots.len() ==> #[trigger] slots[i] is Some
}

/// `slots` with the quote named `key` set to `v`; unchanged when `key` is
/// not a required key.
pub open spec fn put<V>(slots: Seq<Option<V>>, key: Seq<char>, v: V) -> Seq<Option<V>> {
    match key_position(key) {
        Some(p) => slots.update(p, Some(v)),
        None => slots,
    }
}

impl<V> QuoteBook<V> {
    #[verifier::type_invariant]
    spec fn has_every_slot(&self) -> bool {
        self.slots@.len() == KEY_COUNT
    }
}

impl<V: Copy> QuoteBook<V> {
    /// A book with no quote yet.
    pub fn new() -> (book: Self)
        ensures
            book@ == Seq::new(KEY_COUNT as nat, |i: int| None::<V>),
    {
        let mut slots: Vec<Option<V>> = Vec::new();
        let mut i: usize = 0;
        while i < KEY_COUNT
            invariant
                i <= KEY_COUNT,
                slots@ == Seq::new(i as nat, |k: int| None::<V>),
            decreases KEY_COUNT - i,
        {
            slots.push(None);
            i += 1;
        }
        QuoteBook { slots }
    }

    /// The quote held at `position`.
    pub fn get(&self, position: usize) -> (r: Option<V>)
        requires
            position < KEY_COUNT,
        ensures
            r == self@[position as int],
            self@.len() == KEY_COUNT,
    {
        proof {
            use_type_invariant(self);
        }
        self.slots[position]
    }

    /// Stores `v` as the quote named `key`, if the service collects it.
    pub fn insert(&mut self, key: &str, v: V)
        ensures
            final(self)@ == put(old(self)@, key@, v),
            old(self)@.len() == KEY_COUNT,
            final(self)@.len() == KEY_COUNT,
    {
        proof {
            use_type_invariant(&*self);
        }
        match key_index(key) {
            Some(p) => {
                let mut taken = QuoteBook::new();
                std::mem::swap(self, &mut taken);
                proof {
                    use_type_invariant(&taken);
                }
                let QuoteBook { mut slots } = taken;
                slots.set(p, Some(v));
                *self = QuoteBook { slots };
            },
            None => {},
        }
    }
}

/// Whether every required quote has arrived.
pub fn all_keys_present<V: Copy>(data: &QuoteBook<V>) -> (r: bool)
    ensures
        r == all_present(data@),
        data@.len() == KEY_COUNT,
{
    proof {
        use_type_invariant(data);
    }
    let mut i: usize = 0;
    while i < KEY_COUNT
        invariant
            i <= KEY_COUNT,
            data@.len() == KEY_COUNT,
            forall|j: int| 0 <= j < i ==> #[trigger] data@[j] is Some,
        decreases KEY_COUNT - i,
    {
        if data.get(i).is_none() {
            return false;
        }
        i += 1;
    }
    true
}

/// The key suffix of a settlement term: spot (`CI`) has none, next day
/// (`24hs`) has `_24hs`; other terms are not collected.
pub open spec fn term_suffix(plazo: Seq<char>) -> Option<Seq<char>> {
    if plazo == "CI"@ {
        Some(""@)
    } else if plazo == "24hs"@ {
        Some("_24hs"@)
    } else {
        None
    }
}

/// The name of the ask quote of a (lower-case) ticker for a term suffix.
pub open spec fn ask_key(ticker: Seq<char>, suffix: Seq<char>) -> Seq<char> {
    ticker + "_ask"@ + suffix
}

/// The name of the bid quote of a (lower-case) ticker for a term suffix.
pub open spec fn bid_key(ticker: Seq<char>, suffix: Seq<char>) -> Seq<char> {
    ticker + "_bid"@ + suffix
}

/// The book after a quote of `ticker` for term `plazo` with ask `pv` and
/// bid `pc`: each of the two names is stored only if it is a required key.
pub open spec fn quote_update<V>(
    slots: Seq<Option<V>>,
    plazo: Seq<char>,
    ticker: Seq<char>,
    pv: V,
    pc: V,
) -> Seq<Option<V>> {
    match term_suffix(plazo) {
        Some(suffix) => put(put(slots, ask_key(ticker, suffix), pv), bid_key(ticker, suffix), pc),
        None => slots,
    }
}

/// The fields of a websocket quote message that the service reads; a field
/// is `None` when the message lacks it or it has another JSON type.
pub struct QuoteMessage<V> {
    /// Settlement term, `"CI"` or `"24hs"`.
    pub plazo: Option<String>,
    /// Bond ticker, such as `"AL30"`.
    pub ticker: Option<String>,
    /// Ask price, already scaled to the unit the service reports.
    pub pv: Option<V>,
    /// Bid price, already scaled to the unit the service reports.
    pub pc: Option<V>,
}

/// What `str::to_lowercase` gives for a text.
pub uninterp spec fn lowercase(s: Seq<char>) -> Seq<char>;

/// Calls `str::to_lowercase`, which maps each character to its Unicode
/// lower-case form. The contract only names the result: it is a function of
/// the text alone.
#[verifier::external_body]
fn to_lowercase(s: &str) -> (r: String)
    ensures
        r@ == lowercase(s@),
{
    s.to_lowercase()
}

/// Stores a quote whose ticker is already in lower case: the ask under
/// `<ticker>_ask<suffix>` and the bid under `<ticker>_bid<suffix>`, each
/// only when the service collects that name.
pub fn apply_quote<V: Copy>(data: &mut QuoteBook<V>, plazo: &str, ticker_lower: &str, pv: V, pc: V)
    ensures
        final(data)@ == quote_update(old(data)@, plazo@, ticker_lower@, pv, pc),
        forall|t: int, b: int|
            #![trigger term_name(t), bond_ticker(b)]
            0 <= t < 2 && 0 <= b < 4 && plazo@ == term_name(t) && ticker_lower@ == bond_ticker(b)
                ==> final(data)@ == old(data)@.update(8 * t + 2 * b, Some(pv)).update(
                8 * t + 2 * b + 1,
                Some(pc),
            ),
{
    proof {
        use_type_invariant(&*data);
        assert forall|t: int, b: int|
            #![trigger term_name(t), bond_ticker(b)]
            0 <= t < 2 && 0 <= b < 4 && plazo@ == term_name(t) && ticker_lower@ == bond_ticker(b)
                implies quote_update(old(data)@, plazo@, ticker_lower@, pv, pc) == old(data)@.update(
            8 * t + 2 * b,
            Some(pv),
        ).update(8 * t + 2 * b + 1, Some(pc)) by {
            law_quote_update_slots(old(data)@, t, b, pv, pc);
        }
    }
    let suffix: &str;
    if same_text(plazo, "CI") {
        suffix = "";
    } else if same_text(plazo, "24hs") {
        suffix = "_24hs";
    } else {
        return;
    }
    let mut ask = ticker_lower.to_owned();
    ask.append("_ask");
    ask.append(suffix);
    let mut bid = ticker_lower.to_owned();
    bid.append("_bid");
    bid.append(suffix);
    data.insert(ask.as_str(), pv);
    data.insert(bid.as_str(), pc);
}

/// The book after a websocket message: a message with a term, a ticker, an
/// ask and a bid stores its quotes under the lower-cased ticker; any other
/// message leaves the book as it is.
pub open spec fn message_update<V>(slots: Seq<Option<V>>, message: QuoteMessage<V>) -> Seq<Option<V>> {
    match (message.plazo, message.ticker, message.pv, message.pc) {
        (Some(plazo), Some(ticker), Some(pv), Some(pc)) => quote_update(
            slots,
            plazo@,
            lowercase(ticker@),
            pv,
            pc,
        ),
        _ => slots,
    }
}

/// Updates the book from a websocket message (see `message_update`).
pub fn update_data<V: Copy>(data: &mut QuoteBook<V>, message: &QuoteMessage<V>)
    ensures
        final(data)@ == message_update(old(data)@, *message),
{
    match (&message.plazo, &message.ticker, message.pv, message.pc) {
        (Some(plazo), Some(ticker), Some(pv), Some(pc)) => {
            let lower = to_lowercase(ticker.as_str());
            apply_quote(data, plazo.as_str(), lower.as_str(), pv, pc);
        },
        _ => {},
    }
}

/// The quote named `key` in `slots`; `None` for a name the service does not
/// collect.
pub open spec fn lookup<V>(slots: Seq<Option<V>>, key: Seq<char>) -> Option<V> {
    match key_position(key) {
        Some(p) => slots[p],
        None => None,
    }
}

proof fn lemma_key_position(key: Seq<char>)
    ensures
        key_position(key) matches Some(p) ==> 0 <= p < KEY_COUNT && required_keys()[p] == key,
{
}

/// Storing a quote under a collected name makes a read of that name give it
/// back, and leaves every other slot as it was.
pub proof fn law_put_reads_back<V>(slots: Seq<Option<V>>, key: Seq<char>, v: V)
    requires
        slots.len() == KEY_COUNT,
    ensures
        put(slots, key, v).len() == KEY_COUNT,
        key_position(key) is Some ==> lookup(put(slots, key, v), key) == Some(v),
        forall|i: int|
            0 <= i < KEY_COUNT && key_position(key) != Some(i) ==> #[trigger] put(slots, key, v)[i]
                == slots[i],
{
    lemma_key_position(key);
}

/// A quote, once stored, stays: storing another never empties a slot.
pub proof fn law_put_keeps_quotes<V>(slots: Seq<Option<V>>, key: Seq<char>, v: V)
    requires
        slots.len() == KEY_COUNT,
    ensures
        forall|i: int| 0 <= i < KEY_COUNT && slots[i] is Some ==> #[trigger] put(slots, key, v)[i] is Some,
        all_present(slots) ==> all_present(put(slots, key, v)),
{
    lemma_key_position(key);
}

proof fn lemma_ask_bid_differ(ticker: Seq<char>, suffix: Seq<char>)
    ensures
        ask_key(ticker, suffix) != bid_key(ticker, suffix),
{
    reveal_strlit("_ask");
    reveal_strlit("_bid");
    let i = ticker.len() as int + 1;
    assert(ask_key(ticker, suffix)[i] == 'a');
    assert(bid_key(ticker, suffix)[i] == 'b');
}

/// After a quote message for a collected term, reading its ask name gives
/// the ask and reading its bid name gives the bid, whenever the service
/// collects those names.
pub proof fn law_quote_update_reads_back<V>(
    slots: Seq<Option<V>>,
    plazo: Seq<char>,
    ticker: Seq<char>,
    pv: V,
    pc: V,
)
    requires
        slots.len() == KEY_COUNT,
    ensures
        term_suffix(plazo) matches Some(suffix) ==> {
            let after = quote_update(slots, plazo, ticker, pv, pc);
            &&& key_position(ask_key(ticker, suffix)) is Some ==> lookup(
                after,
                ask_key(ticker, suffix),
            ) == Some(pv)
            &&& key_position(bid_key(ticker, suffix)) is Some ==> lookup(
                after,
                bid_key(ticker, suffix),
            ) == Some(pc)
        },
        term_suffix(plazo) is None ==> quote_update(slots, plazo, ticker, pv, pc) == slots,
{
    if let Some(suffix) = term_suffix(plazo) {
        let ask = ask_key(ticker, suffix);
        let bid = bid_key(ticker, suffix);
        lemma_ask_bid_differ(ticker, suffix);
        lemma_key_position(ask);
        lemma_key_position(bid);
        law_put_reads_back(slots, ask, pv);
        law_put_reads_back(put(slots, ask, pv), bid, pc);
    }
}

/// The lower-case ticker of bond `b`, in table order: AL30, AL30D, GD30,
/// GD30D.
pub open spec fn bond_ticker(b: int) -> Seq<char> {
    if b == 0 {
        "al30"@
    } else if b == 1 {
        "al30d"@
    } else if b == 2 {
        "gd30"@
    } else {
        "gd30d"@
    }
}

/// The settlement term of index `t`, in table order: spot (`CI`), then next
/// day (`24hs`).
pub open spec fn term_name(t: int) -> Seq<char> {
    if t == 0 {
        "CI"@
    } else {
        "24hs"@
    }
}

/// The name suffix of the term of index `t`: none for spot, `_24hs` for
/// next day.
pub open spec fn term_name_suffix(t: int) -> Seq<char> {
    if t == 0 {
        ""@
    } else {
        "_24hs"@
    }
}

/// The table spelled out: the entry at `8 * t + 2 * b` is the ticker of bond
/// `b`, `_ask` and the suffix of term `t`; the entry after it has `_bid`.
proof fn lemma_table_spelled(t: int, b: int)
    requires
        0 <= t < 2,
        0 <= b < 4,
    ensures
        required_keys()[8 * t + 2 * b] == bond_ticker(b) + "_ask"@ + term_name_suffix(t),
        required_keys()[8 * t + 2 * b + 1] == bond_ticker(b) + "_bid"@ + term_name_suffix(t),
{
    reveal_strlit("al30");
    reveal_strlit("al30d");
    reveal_strlit("gd30");
    reveal_strlit("gd30d");
    reveal_strlit("_ask");
    reveal_strlit("_bid");
    reveal_strlit("");
    reveal_strlit("_24hs");
    lemma_table_entries();
    let k = 8 * t + 2 * b;
    let ask = bond_ticker(b) + "_ask"@ + term_name_suffix(t);
    let bid = bond_ticker(b) + "_bid"@ + term_name_suffix(t);
    if t == 0 {
        if b == 0 {
            reveal_strlit("al30_ask");
            reveal_strlit("al30_bid");
            assert(required_keys()[k] =~= ask);
            assert(required_keys()[k + 1] =~= bid);
        } else if b == 1 {
            reveal_strlit("al30d_ask");
            reveal_strlit("al30d_bid");
            assert(required_keys()[k] =~= ask);
            assert(required_keys()[k + 1] =~= bid);
        } else if b == 2 {
            reveal_strlit("gd30_ask");
            reveal_strlit("gd30_bid");
            assert(required_keys()[k] =~= ask);
            assert(required_keys()[k + 1] =~= bid);
        } else {
            reveal_strlit("gd30d_ask");
            reveal_strlit("gd30d_bid");
            assert(required_keys()[k] =~= ask);
            assert(required_keys()[k + 1] =~= bid);
        }
    } else {
        if b == 0 {
            reveal_strlit("al30_ask_24hs");
            reveal_strlit("al30_bid_24hs");
            assert(required_keys()[k] =~= ask);
            assert(required_keys()[k + 1] =~= bid);
        } else if b == 1 {
            reveal_strlit("al30d_ask_24hs");
            reveal_strlit("al30d_bid_24hs");
            assert(required_keys()[k] =~= ask);
            assert(required_keys()[k + 1] =~= bid);
        } else if b == 2 {
            reveal_strlit("gd30_ask_24hs");
            reveal_strlit("gd30_bid_24hs");
            assert(required_keys()[k] =~= ask);
            assert(required_keys()[k + 1] =~= bid);
        } else {
            reveal_strlit("gd30d_ask_24hs");
            reveal_strlit("gd30d_bid_24hs");
            assert(required_keys()[k] =~= ask);
            assert(required_keys()[k + 1] =~= bid);
        }
    }
}

/// A quote message for a collected term `t` and one of the four bonds `b`
/// (its ticker in lower case) stores the ask (`pv`) in the slot of the table
/// entry `<ticker>_ask<suffix>` and the bid (`pc`) in the next slot, the
/// entry `<ticker>_bid<suffix>`; nothing else changes. So 24hs/al30 sets
/// `al30_ask_24hs` to the ask and `al30_bid_24hs` to the bid.
pub proof fn law_quote_update_slots<V>(slots: Seq<Option<V>>, t: int, b: int, pv: V, pc: V)
    requires
        slots.len() == KEY_COUNT,
        0 <= t < 2,
        0 <= b < 4,
    ensures
        quote_update(slots, term_name(t), bond_ticker(b), pv, pc) == slots.update(
            8 * t + 2 * b,
            Some(pv),
        ).update(8 * t + 2 * b + 1, Some(pc)),
        required_keys()[8 * t + 2 * b] == bond_ticker(b) + "_ask"@ + term_name_suffix(t),
        required_keys()[8 * t + 2 * b + 1] == bond_ticker(b) + "_bid"@ + term_name_suffix(t),
        lookup(
            quote_update(slots, term_name(t), bond_ticker(b), pv, pc),
            bond_ticker(b) + "_ask"@ + term_name_suffix(t),
        ) == Some(pv),
        lookup(
            quote_update(slots, term_name(t), bond_ticker(b), pv, pc),
            bond_ticker(b) + "_bid"@ + term_name_suffix(t),
        ) == Some(pc),
{
    lemma_suffixes();
    lemma_table_spelled(t, b);
    law_key_table_distinct();
    let k = 8 * t + 2 * b;
    let rk = required_keys();
    assert(term_suffix(term_name(t)) == Some(term_name_suffix(t)));
    assert(ask_key(bond_ticker(b), term_name_suffix(t)) == rk[k]);
    assert(bid_key(bond_ticker(b), term_name_suffix(t)) == rk[k + 1]);
    assert(key_position(rk[k]) == Some(k));
    assert(key_position(rk[k + 1]) == Some(k + 1));
    let after = slots.update(k, Some(pv)).update(k + 1, Some(pc));
    assert(quote_update(slots, term_name(t), bond_ticker(b), pv, pc) == after);
}

proof fn lemma_suffixes()
    ensures
        ""@.len() == 0,
        "_24hs"@.len() == 5 && "_24hs"@[4] == 's',
        "_ask"@.len() == 4 && "_ask"@[1] == 'a' && "_ask"@[3] == 'k',
        "_bid"@.len() == 4 && "_bid"@[1] == 'b' && "_bid"@[3] == 'd',
        "CI"@ != "24hs"@,
{
    reveal_strlit("");
    reveal_strlit("_24hs");
    reveal_strlit("_ask");
    reveal_strlit("_bid");
    reveal_strlit("CI");
    reveal_strlit("24hs");
    assert("CI"@.len() != "24hs"@.len());
}

/// Two names built from a ticker, a side and a term suffix are equal only
/// when built from the same three parts.
proof fn lemma_names_differ(t1: Seq<char>, x1: Seq<char>, s1: Seq<char>, t2: Seq<char>, x2: Seq<char>, s2: Seq<char>)
    requires
        x1 == "_ask"@ || x1 == "_bid"@,
        x2 == "_ask"@ || x2 == "_bid"@,
        s1 == ""@ || s1 == "_24hs"@,
        s2 == ""@ || s2 == "_24hs"@,
        t1 + x1 + s1 == t2 + x2 + s2,
    ensures
        t1 == t2 && x1 == x2 && s1 == s2,
{
    lemma_suffixes();
    let k1 = t1 + x1 + s1;
    let k2 = t2 + x2 + s2;
    let n = k1.len();
    assert(k1[n - 1] == k2[n - 1]);
    if s1 != s2 {
        if s1 == ""@ {
            assert(k1[n - 1] == x1[3]);
            assert(k2[n - 1] == 's');
        } else {
            assert(k1[n - 1] == 's');
            assert(k2[n - 1] == x2[3]);
        }
    }
    assert(s1 == s2);
    assert((t1 + x1) =~= k1.subrange(0, n - s1.len()));
    assert((t2 + x2) =~= k2.subrange(0, n - s2.len()));
    assert(t1 + x1 == t2 + x2);
    assert(t1.len() == t2.len());
    assert(t1 =~= (t1 + x1).subrange(0, t1.len() as int));
    assert(t2 =~= (t2 + x2).subrange(0, t2.len() as int));
    let m = t1.len() as int;
    assert((t1 + x1)[m + 1] == x1[1]);
    assert((t2 + x2)[m + 1] == x2[1]);
}

proof fn lemma_put_commutes<V>(slots: Seq<Option<V>>, k1: Seq<char>, v1: V, k2: Seq<char>, v2: V)
    requires
        slots.len() == KEY_COUNT,
        k1 != k2,
    ensures
        put(put(slots, k1, v1), k2, v2) == put(put(slots, k2, v2), k1, v1),
{
    lemma_key_position(k1);
    lemma_key_position(k2);
    if let (Some(p1), Some(p2)) = (key_position(k1), key_position(k2)) {
        assert(p1 != p2);
        assert(put(put(slots, k1, v1), k2, v2) =~= put(put(slots, k2, v2), k1, v1));
    }
}

/// Messages for different (term, lower-case ticker) pairs commute: in
/// either order the book ends the same.
pub proof fn law_quote_update_commutes<V>(
    slots: Seq<Option<V>>,
    plazo1: Seq<char>,
    ticker1: Seq<char>,
    pv1: V,
    pc1: V,
    plazo2: Seq<char>,
    ticker2: Seq<char>,
    pv2: V,
    pc2: V,
)
    requires
        slots.len() == KEY_COUNT,
        (plazo1, ticker1) != (plazo2, ticker2),
    ensures
        quote_update(quote_update(slots, plazo1, ticker1, pv1, pc1), plazo2, ticker2, pv2, pc2)
            == quote_update(
            quote_update(slots, plazo2, ticker2, pv2, pc2),
            plazo1,
            ticker1,
            pv1,
            pc1,
        ),
{
    lemma_suffixes();
    if let (Some(s1), Some(s2)) = (term_suffix(plazo1), term_suffix(plazo2)) {
        let a1 = ask_key(ticker1, s1);
        let b1 = bid_key(ticker1, s1);
        let a2 = ask_key(ticker2, s2);
        let b2 = bid_key(ticker2, s2);
        if s1 == s2 {
            assert(plazo1 == plazo2);
            assert(ticker1 != ticker2);
        }
        if a1 == a2 {
            lemma_names_differ(ticker1, "_ask"@, s1, ticker2, "_ask"@, s2);
        }
        if a1 == b2 {
            lemma_names_differ(ticker1, "_ask"@, s1, ticker2, "_bid"@, s2);
        }
        if b1 == a2 {
            lemma_names_differ(ticker1, "_bid"@, s1, ticker2, "_ask"@, s2);
        }
        if b1 == b2 {
            lemma_names_differ(ticker1, "_bid"@, s1, ticker2, "_bid"@, s2);
        }
        lemma_ask_bid_differ(ticker1, s1);
        lemma_ask_bid_differ(ticker2, s2);
        let s0 = slots;
        law_put_reads_back(s0, a1, pv1);
        law_put_reads_back(put(s0, a1, pv1), b1, pc1);
        law_put_reads_back(s0, a2, pv2);
        law_put_reads_back(put(s0, a2, pv2), b2, pc2);
        // a1 b1 a2 b2  ->  a2 b2 a1 b1 by swapping neighbours
        lemma_put_commutes(put(s0, a1, pv1), b1, pc1, a2, pv2);
        lemma_put_commutes(s0, a1, pv1, a2, pv2);
        law_put_reads_back(put(s0, a2, pv2), a1, pv1);
        lemma_put_commutes(put(put(s0, a2, pv2), a1, pv1), b1, pc1, b2, pc2);
        law_put_reads_back(put(put(s0, a2, pv2), a1, pv1), b2, pc2);
        lemma_put_commutes(put(s0, a2, pv2), a1, pv1, b2, pc2);
    }
}

/// A quote message never removes a quote, so a complete book stays complete.
pub proof fn law_quote_update_keeps_quotes<V>(
    slots: Seq<Option<V>>,
    plazo: Seq<char>,
    ticker: Seq<char>,
    pv: V,
    pc: V,
)
    requires
        slots.len() == KEY_COUNT,
    ensures
        forall|i: int|
            0 <= i < KEY_COUNT && slots[i] is Some ==> #[trigger] quote_update(
                slots,
                plazo,
                ticker,
                pv,
                pc,
            )[i] is Some,
        all_present(slots) ==> all_present(quote_update(slots, plazo, ticker, pv, pc)),
{
    if let Some(suffix) = term_suffix(plazo) {
        let ask = ask_key(ticker, suffix);
        law_put_keeps_quotes(slots, ask, pv);
        law_put_reads_back(slots, ask, pv);
        law_put_keeps_quotes(put(slots, ask, pv), bid_key(ticker, suffix), pc);
    }
}

} // verus!
