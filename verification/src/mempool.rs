//! OrangeClock: Bitcoin network data shown during ATM idle time.
use vstd::prelude::*;
use vstd::std_specs::cmp::PartialEqSpecImpl;
use crate::text::{
    chars_of, join, lemma_split_join, push_char, range_equals, split, str_equals, trim,
    trim_range,
};

verus! {

broadcast use vstd::seq_lib::group_seq_properties;

// --- Configuration types ---

/// The fiat currency in which prices are shown.
#[derive(Clone, Copy, PartialEq, Eq, Structural, Debug)]
pub enum PriceCurrency {
    USD,
    EUR,
}

/// The currency a stored currency code selects: "EUR" selects EUR, anything
/// else USD.
pub open spec fn spec_currency_from(s: Seq<char>) -> PriceCurrency {
    if s == "EUR"@ {
        PriceCurrency::EUR
    } else {
        PriceCurrency::USD
    }
}

impl PriceCurrency {
    /// The currency's code.
    pub open spec fn code(self) -> Seq<char> {
        match self {
            PriceCurrency::USD => "USD"@,
            PriceCurrency::EUR => "EUR"@,
        }
    }

    pub fn from_str(s: &str) -> (c: Self)
        ensures
            c == spec_currency_from(s@),
    {
        if str_equals(s, "EUR") {
            PriceCurrency::EUR
        } else {
            PriceCurrency::USD
        }
    }

    pub fn as_str(&self) -> (s: &'static str)
        ensures
            s@ == self.code(),
    {
        match self {
            PriceCurrency::USD => "USD",
            PriceCurrency::EUR => "EUR",
        }
    }
}

/// Reading back a currency's code gives the currency.
pub proof fn law_currency_code_roundtrip(c: PriceCurrency)
    ensures
        spec_currency_from(c.code()) == c,
{
    reveal_strlit("USD");
    reveal_strlit("EUR");
    assert("USD"@[0] != "EUR"@[0]);
}

/// Which data rows the idle screen shows.
#[derive(Clone, Debug)]
pub struct DisplayItems {
    pub block_height: bool,
    pub price: bool,
    pub moscow_time: bool,
    pub fees: bool,
    pub halving_countdown: bool,
    pub difficulty_adjustment: bool,
    pub mempool_size: bool,
}

/// `names` followed by `name` when `on`.
pub open spec fn with_name(names: Seq<Seq<char>>, on: bool, name: Seq<char>) -> Seq<Seq<char>> {
    if on {
        names.push(name)
    } else {
        names
    }
}

/// The storage names of the enabled items, in the fixed order height, price,
/// moscow, fees, halving, difficulty, mempool.
pub open spec fn item_names(d: DisplayItems) -> Seq<Seq<char>> {
    with_name(
        with_name(
            with_name(
                with_name(
                    with_name(
                        with_name(
                            with_name(Seq::empty(), d.block_height, "height"@),
                            d.price,
                            "price"@,
                        ),
                        d.moscow_time,
                        "moscow"@,
                    ),
                    d.fees,
                    "fees"@,
                ),
                d.halving_countdown,
                "halving"@,
            ),
            d.difficulty_adjustment,
            "difficulty"@,
        ),
        d.mempool_size,
        "mempool"@,
    )
}

/// Whether one of the `pieces`, trimmed, is `name`.
pub open spec fn pieces_have(pieces: Seq<Seq<char>>, name: Seq<char>) -> bool {
    exists|i: int| 0 <= i < pieces.len() && trim(#[trigger] pieces[i]) == name
}

/// Whether one of the comma-separated tokens of `s`, trimmed, is `name`.
pub open spec fn has_token(s: Seq<char>, name: Seq<char>) -> bool {
    pieces_have(split(s, ','), name)
}

proof fn lemma_pieces_have_push(pieces: Seq<Seq<char>>, p: Seq<char>, name: Seq<char>)
    ensures
        pieces_have(pieces.push(p), name) == (pieces_have(pieces, name) || trim(p) == name),
{
    let q = pieces.push(p);
    if pieces_have(pieces, name) {
        let i = choose|i: int| 0 <= i < pieces.len() && trim(#[trigger] pieces[i]) == name;
        assert(q[i] == pieces[i]);
    }
    if trim(p) == name {
        assert(q[pieces.len() as int] == p);
    }
    if pieces_have(q, name) {
        let i = choose|i: int| 0 <= i < q.len() && trim(#[trigger] q[i]) == name;
        if i < pieces.len() {
            assert(q[i] == pieces[i]);
        }
    }
}

/// The items that a stored item list selects: each item whose name is one of
/// its comma-separated tokens (surrounding white space ignored).
pub open spec fn spec_items_from(s: Seq<char>) -> DisplayItems {
    DisplayItems {
        block_height: has_token(s, "height"@),
        price: has_token(s, "price"@),
        moscow_time: has_token(s, "moscow"@),
        fees: has_token(s, "fees"@),
        halving_countdown: has_token(s, "halving"@),
        difficulty_adjustment: has_token(s, "difficulty"@),
        mempool_size: has_token(s, "mempool"@),
    }
}

/// Appends `name` to the comma-separated list `out` of `names`.
fn push_item(out: &mut String, first: bool, name: &str, Ghost(names): Ghost<Seq<Seq<char>>>)
    requires
        old(out)@ == join(names, ','),
        first == (names.len() == 0),
    ensures
        final(out)@ == join(names.push(name@), ','),
{
    if !first {
        push_char(out, ',');
    }
    let piece = chars_of(name);
    let mut k: usize = 0;
    let ghost start = out@;
    while k < piece.len()
        invariant
            0 <= k <= piece.len(),
            out@ == start + piece@.take(k as int),
        decreases piece.len() - k,
    {
        push_char(out, piece[k]);
        assert(out@ =~= start + piece@.take(k + 1));
        k += 1;
    }
    assert(piece@.take(piece.len() as int) =~= piece@);
    let ghost q = names.push(name@);
    assert(q.drop_last() =~= names);
    if first {
        assert(start =~= Seq::<char>::empty());
        assert(out@ =~= name@);
    }
}

impl DisplayItems {
    /// The stored form: the names of the enabled items joined by commas.
    pub open spec fn items_string(self) -> Seq<char> {
        join(item_names(self), ',')
    }

    /// Serialize to comma-separated string for NVS storage
    pub fn to_items_string(&self) -> (s: String)
        ensures
            s@ == self.items_string(),
    {
        let mut out = String::new();
        let mut first = true;
        let ghost mut names: Seq<Seq<char>> = Seq::empty();
        if self.block_height {
            push_item(&mut out, first, "height", Ghost(names));
            first = false;
            proof {
                names = names.push("height"@);
            }
        }
        if self.price {
            push_item(&mut out, first, "price", Ghost(names));
            first = false;
            proof {
                names = names.push("price"@);
            }
        }
        if self.moscow_time {
            push_item(&mut out, first, "moscow", Ghost(names));
            first = false;
            proof {
                names = names.push("moscow"@);
            }
        }
        if self.fees {
            push_item(&mut out, first, "fees", Ghost(names));
            first = false;
            proof {
                names = names.push("fees"@);
            }
        }
        if self.halving_countdown {
            push_item(&mut out, first, "halving", Ghost(names));
            first = false;
            proof {
                names = names.push("halving"@);
            }
        }
        if self.difficulty_adjustment {
            push_item(&mut out, first, "difficulty", Ghost(names));
            first = false;
            proof {
                names = names.push("difficulty"@);
            }
        }
        if self.mempool_size {
            push_item(&mut out, first, "mempool", Ghost(names));
            first = false;
            proof {
                names = names.push("mempool"@);
            }
        }
        assert(names == item_names(*self));
        out
    }

    /// Deserialize from comma-separated string (exact token match)
    pub fn from_items_string(s: &str) -> (d: Self)
        ensures
            d == spec_items_from(s@),
    {
        let v = chars_of(s);
        let mut d = DisplayItems {
            block_height: false,
            price: false,
            moscow_time: false,
            fees: false,
            halving_countdown: false,
            difficulty_adjustment: false,
            mempool_size: false,
        };
        let ghost mut done: Seq<Seq<char>> = Seq::empty();
        let mut start: usize = 0;
        let mut i: usize = 0;
        while i < v.len()
            invariant
                0 <= start <= i <= v.len(),
                split(v@.take(i as int), ',') == done.push(v@.subrange(start as int, i as int)),
                d.tracks(done),
            decreases v.len() - i,
        {
            let ghost t = v@.take(i + 1);
            assert(t.drop_last() =~= v@.take(i as int));
            if v[i] == ',' {
                d.note(&v, start, i, Ghost(done));
                proof {
                    done = done.push(v@.subrange(start as int, i as int));
                    assert(v@.subrange(i + 1, i + 1) =~= Seq::<char>::empty());
                }
                start = i + 1;
            } else {
                assert(v@.subrange(start as int, i + 1) =~= v@.subrange(
                    start as int,
                    i as int,
                ).push(v@[i as int]));
            }
            i += 1;
        }
        d.note(&v, start, v.len(), Ghost(done));
        proof {
            let last = v@.subrange(start as int, v.len() as int);
            assert(v@.take(v.len() as int) =~= v@);
            let all = done.push(last);
            assert(split(s@, ',') == all);
            assert(d.block_height == has_token(s@, "height"@));
            assert(d.price == has_token(s@, "price"@));
            assert(d.moscow_time == has_token(s@, "moscow"@));
            assert(d.fees == has_token(s@, "fees"@));
            assert(d.halving_countdown == has_token(s@, "halving"@));
            assert(d.difficulty_adjustment == has_token(s@, "difficulty"@));
            assert(d.mempool_size == has_token(s@, "mempool"@));
        }
        d
    }

    /// Whether each flag is set exactly when one of the `pieces`, trimmed,
    /// names its item.
    pub open spec fn tracks(self, pieces: Seq<Seq<char>>) -> bool {
        &&& self.block_height == pieces_have(pieces, "height"@)
        &&& self.price == pieces_have(pieces, "price"@)
        &&& self.moscow_time == pieces_have(pieces, "moscow"@)
        &&& self.fees == pieces_have(pieces, "fees"@)
        &&& self.halving_countdown == pieces_have(pieces, "halving"@)
        &&& self.difficulty_adjustment == pieces_have(pieces, "difficulty"@)
        &&& self.mempool_size == pieces_have(pieces, "mempool"@)
    }

    /// Sets the flag of the item that the trimmed token `v[lo..hi]` names.
    fn note(&mut self, v: &Vec<char>, lo: usize, hi: usize, Ghost(pieces): Ghost<Seq<Seq<char>>>)
        requires
            lo <= hi <= v.len(),
            old(self).tracks(pieces),
        ensures
            final(self).tracks(pieces.push(v@.subrange(lo as int, hi as int))),
    {
        let (a, b) = trim_range(v, lo, hi);
        if range_equals(v, a, b, &chars_of("height")) {
            self.block_height = true;
        }
        if range_equals(v, a, b, &chars_of("price")) {
            self.price = true;
        }
        if range_equals(v, a, b, &chars_of("moscow")) {
            self.moscow_time = true;
        }
        if range_equals(v, a, b, &chars_of("fees")) {
            self.fees = true;
        }
        if range_equals(v, a, b, &chars_of("halving")) {
            self.halving_countdown = true;
        }
        if range_equals(v, a, b, &chars_of("difficulty")) {
            self.difficulty_adjustment = true;
        }
        if range_equals(v, a, b, &chars_of("mempool")) {
            self.mempool_size = true;
        }
        proof {
            let p = v@.subrange(lo as int, hi as int);
            lemma_pieces_have_push(pieces, p, "height"@);
            lemma_pieces_have_push(pieces, p, "price"@);
            lemma_pieces_have_push(pieces, p, "moscow"@);
            lemma_pieces_have_push(pieces, p, "fees"@);
            lemma_pieces_have_push(pieces, p, "halving"@);
            lemma_pieces_have_push(pieces, p, "difficulty"@);
            lemma_pieces_have_push(pieces, p, "mempool"@);
        }
    }

    /// A field-by-field copy.
    fn copy(&self) -> (d: Self)
        ensures
            d == *self,
    {
        DisplayItems {
            block_height: self.block_height,
            price: self.price,
            moscow_time: self.moscow_time,
            fees: self.fees,
            halving_countdown: self.halving_countdown,
            difficulty_adjustment: self.difficulty_adjustment,
            mempool_size: self.mempool_size,
        }
    }

    pub fn default_items() -> (d: Self)
        ensures
            d.block_height && d.price && !d.moscow_time && d.fees && !d.halving_countdown
                && !d.difficulty_adjustment && !d.mempool_size,
    {
        DisplayItems {
            block_height: true,
            price: true,
            moscow_time: false,
            fees: true,
            halving_countdown: false,
            difficulty_adjustment: false,
            mempool_size: false,
        }
    }

    pub fn needs_block_height(&self) -> (b: bool)
        ensures
            b == (self.block_height || self.halving_countdown),
    {
        self.block_height || self.halving_countdown
    }

    pub fn needs_prices(&self) -> (b: bool)
        ensures
            b == (self.price || self.moscow_time),
    {
        self.price || self.moscow_time
    }
}

} // verus!

verus! {

/// Whether `x` is the storage name of one of the items.
pub open spec fn is_item_name(x: Seq<char>) -> bool {
    ||| x == "height"@
    ||| x == "price"@
    ||| x == "moscow"@
    ||| x == "fees"@
    ||| x == "halving"@
    ||| x == "difficulty"@
    ||| x == "mempool"@
}

proof fn lemma_with_name(names: Seq<Seq<char>>, on: bool, name: Seq<char>, y: Seq<char>)
    ensures
        with_name(names, on, name).contains(y) == (names.contains(y) || (on && name == y)),
        (forall|i: int| 0 <= i < names.len() ==> is_item_name(#[trigger] names[i]))
            && is_item_name(name) ==> forall|i: int|
            0 <= i < with_name(names, on, name).len() ==> is_item_name(
                #[trigger] with_name(names, on, name)[i],
            ),
{
    if on {
        let q = names.push(name);
        assert(q[names.len() as int] == name);
        if names.contains(y) {
            let k = choose|k: int| 0 <= k < names.len() && names[k] == y;
            assert(q[k] == y);
        }
        if q.contains(y) {
            let k = choose|k: int| 0 <= k < q.len() && q[k] == y;
            if k < names.len() {
                assert(names[k] == y);
            }
        }
    }
}

proof fn lemma_item_name_facts(x: Seq<char>)
    requires
        is_item_name(x),
    ensures
        !x.contains(','),
        trim(x) == x,
        x.len() > 0,
{
    reveal_strlit("height");
    reveal_strlit("price");
    reveal_strlit("moscow");
    reveal_strlit("fees");
    reveal_strlit("halving");
    reveal_strlit("difficulty");
    reveal_strlit("mempool");
    assert(!x.contains(','));
    assert(crate::text::trim_start(x) == x);
    assert(crate::text::trim_end(x) == x);
}

/// The names in the fixed order, built up item by item.
proof fn lemma_names_contains(d: DisplayItems, y: Seq<char>)
    ensures
        item_names(d).contains(y) == ((d.block_height && y == "height"@) || (d.price && y
            == "price"@) || (d.moscow_time && y == "moscow"@) || (d.fees && y == "fees"@) || (
        d.halving_countdown && y == "halving"@) || (d.difficulty_adjustment && y
            == "difficulty"@) || (d.mempool_size && y == "mempool"@)),
        forall|i: int| 0 <= i < item_names(d).len() ==> is_item_name(#[trigger] item_names(d)[i]),
{
    let n0 = Seq::<Seq<char>>::empty();
    let n1 = with_name(n0, d.block_height, "height"@);
    let n2 = with_name(n1, d.price, "price"@);
    let n3 = with_name(n2, d.moscow_time, "moscow"@);
    let n4 = with_name(n3, d.fees, "fees"@);
    let n5 = with_name(n4, d.halving_countdown, "halving"@);
    let n6 = with_name(n5, d.difficulty_adjustment, "difficulty"@);
    lemma_with_name(n0, d.block_height, "height"@, y);
    lemma_with_name(n1, d.price, "price"@, y);
    lemma_with_name(n2, d.moscow_time, "moscow"@, y);
    lemma_with_name(n3, d.fees, "fees"@, y);
    lemma_with_name(n4, d.halving_countdown, "halving"@, y);
    lemma_with_name(n5, d.difficulty_adjustment, "difficulty"@, y);
    lemma_with_name(n6, d.mempool_size, "mempool"@, y);
}

/// A stored list of item names has the token `y` exactly when it lists `y`.
proof fn lemma_has_token_names(d: DisplayItems, y: Seq<char>)
    requires
        is_item_name(y),
    ensures
        has_token(d.items_string(), y) == item_names(d).contains(y),
{
    let names = item_names(d);
    lemma_names_contains(d, y);
    if names.len() == 0 {
        let e = Seq::<char>::empty();
        assert(d.items_string() == e);
        assert(split(e, ',') == seq![e]);
        assert(trim(e) == e) by {
            assert(crate::text::trim_start(e) == e);
            assert(crate::text::trim_end(e) == e);
        }
        lemma_item_name_facts(y);
        assert(!pieces_have(seq![e], y)) by {
            if pieces_have(seq![e], y) {
                let i = choose|i: int| 0 <= i < 1 && trim(#[trigger] seq![e][i]) == y;
                assert(seq![e][i] == e);
            }
        }
    } else {
        assert forall|i: int| 0 <= i < names.len() implies !(#[trigger] names[i]).contains(',')
            by {
            lemma_item_name_facts(names[i]);
        }
        lemma_split_join(names, ',');
        if names.contains(y) {
            let k = choose|k: int| 0 <= k < names.len() && names[k] == y;
            lemma_item_name_facts(names[k]);
            assert(trim(names[k]) == y);
        }
        if pieces_have(names, y) {
            let k = choose|k: int| 0 <= k < names.len() && trim(#[trigger] names[k]) == y;
            lemma_item_name_facts(names[k]);
            assert(names[k] == y);
        }
    }
}

/// The item names are pairwise different.
proof fn lemma_item_names_distinct()
    ensures
        "height"@ != "price"@,
        "height"@ != "moscow"@,
        "height"@ != "fees"@,
        "height"@ != "halving"@,
        "height"@ != "difficulty"@,
        "height"@ != "mempool"@,
        "price"@ != "moscow"@,
        "price"@ != "fees"@,
        "price"@ != "halving"@,
        "price"@ != "difficulty"@,
        "price"@ != "mempool"@,
        "moscow"@ != "fees"@,
        "moscow"@ != "halving"@,
        "moscow"@ != "difficulty"@,
        "moscow"@ != "mempool"@,
        "fees"@ != "halving"@,
        "fees"@ != "difficulty"@,
        "fees"@ != "mempool"@,
        "halving"@ != "difficulty"@,
        "halving"@ != "mempool"@,
        "difficulty"@ != "mempool"@,
{
    reveal_strlit("height");
    reveal_strlit("price");
    reveal_strlit("moscow");
    reveal_strlit("fees");
    reveal_strlit("halving");
    reveal_strlit("difficulty");
    reveal_strlit("mempool");
    assert("height"@[0] != "price"@[0]);
    assert("height"@[0] != "moscow"@[0]);
    assert("height"@[0] != "fees"@[0]);
    assert("height"@[1] != "halving"@[1]);
    assert("height"@[0] != "difficulty"@[0]);
    assert("height"@[0] != "mempool"@[0]);
    assert("price"@[0] != "moscow"@[0]);
    assert("price"@[0] != "fees"@[0]);
    assert("price"@[0] != "halving"@[0]);
    assert("price"@[0] != "difficulty"@[0]);
    assert("price"@[0] != "mempool"@[0]);
    assert("moscow"@[0] != "fees"@[0]);
    assert("moscow"@[0] != "halving"@[0]);
    assert("moscow"@[0] != "difficulty"@[0]);
    assert("moscow"@[1] != "mempool"@[1]);
    assert("fees"@[0] != "halving"@[0]);
    assert("fees"@[0] != "difficulty"@[0]);
    assert("fees"@[0] != "mempool"@[0]);
    assert("halving"@[0] != "difficulty"@[0]);
    assert("halving"@[0] != "mempool"@[0]);
    assert("difficulty"@[0] != "mempool"@[0]);
}

/// Storing the enabled items and reading the stored text back gives the same
/// items: `from_items_string(to_items_string(d)) == d`.
pub proof fn law_items_roundtrip(d: DisplayItems)
    ensures
        spec_items_from(d.items_string()) == d,
{
    reveal_strlit("height");
    reveal_strlit("price");
    reveal_strlit("moscow");
    reveal_strlit("fees");
    reveal_strlit("halving");
    reveal_strlit("difficulty");
    reveal_strlit("mempool");
    lemma_item_names_distinct();
    lemma_has_token_names(d, "height"@);
    lemma_has_token_names(d, "price"@);
    lemma_has_token_names(d, "moscow"@);
    lemma_has_token_names(d, "fees"@);
    lemma_has_token_names(d, "halving"@);
    lemma_has_token_names(d, "difficulty"@);
    lemma_has_token_names(d, "mempool"@);
}

} // verus!

verus! {

// --- Pure functions ---

/// Calculate blocks remaining until the next Bitcoin halving.
/// Halvings occur every 210,000 blocks.
pub fn blocks_until_halving(height: u64) -> (blocks: u64)
    requires
        (height / 210_000 + 1) * 210_000 <= u64::MAX,
    ensures
        blocks == (height / 210_000 + 1) * 210_000 - height,
        1 <= blocks <= 210_000,
        (height + blocks) % 210_000 == 0,
{
    let next_halving = ((height / 210_000) + 1) * 210_000;
    next_halving - height
}

/// Calculate Moscow Time: satoshis per 1 unit of fiat currency.
/// Moscow Time = 100,000,000 / fiat price
pub fn moscow_time(fiat_price: u64) -> (sats: u64)
    ensures
        sats == if fiat_price == 0 {
            0
        } else {
            100_000_000u64 / fiat_price
        },
{
    if fiat_price == 0 {
        return 0;
    }
    100_000_000 / fiat_price
}

} // verus!

verus! {

/// Default mempool.space fallback endpoint
pub const FALLBACK_ENDPOINT: &'static str = "mempool.emzy.de";

pub const DEFAULT_ENDPOINT: &'static str = "mempool.space";

/// The idle screen's settings.
#[derive(Clone)]
pub struct OrangeClockConfig {
    pub enabled: bool,
    pub wifi_ssid: String,
    pub wifi_password: String,
    pub mempool_endpoint: String,
    pub display_items: DisplayItems,
    pub price_currency: PriceCurrency,
}

// --- Fetched data ---

/// Data fetched from the mempool API. The difficulty figures are `f32`
/// values, held here by their IEEE-754 bit patterns (`f32::to_bits`); `==`
/// compares them as `f32` values.
#[derive(Clone, Debug)]
pub struct MempoolData {
    pub block_height: Option<u64>,
    pub price_usd: Option<u64>,
    pub price_eur: Option<u64>,
    pub fee_fastest: Option<u32>,
    pub fee_half_hour: Option<u32>,
    pub fee_hour: Option<u32>,
    pub difficulty_progress: Option<u32>,
    pub difficulty_change: Option<u32>,
    pub mempool_count: Option<u64>,
}

/// Whether the `f32` with bit pattern `x` is a NaN: all exponent bits set and
/// a non-zero fraction.
pub open spec fn f32_bits_nan(x: u32) -> bool {
    x & 0x7fff_ffff > 0x7f80_0000
}

/// Whether the `f32` values with bit patterns `a` and `b` are equal as IEEE-754
/// `==` compares them: a NaN equals nothing, +0 equals -0, and otherwise the
/// values are equal exactly when their bit patterns are.
pub open spec fn f32_bits_eq(a: u32, b: u32) -> bool {
    &&& !f32_bits_nan(a)
    &&& !f32_bits_nan(b)
    &&& (a == b || (a & 0x7fff_ffff == 0 && b & 0x7fff_ffff == 0))
}

/// `==` on two optional `f32` values given by their bit patterns.
pub open spec fn opt_f32_bits_eq(a: Option<u32>, b: Option<u32>) -> bool {
    match (a, b) {
        (None, None) => true,
        (Some(x), Some(y)) => f32_bits_eq(x, y),
        _ => false,
    }
}

/// Whether two fetched data sets are equal: every figure equal, the
/// difficulty figures compared as `f32` values.
pub open spec fn mempool_data_eq(a: MempoolData, b: MempoolData) -> bool {
    &&& a.block_height == b.block_height
    &&& a.price_usd == b.price_usd
    &&& a.price_eur == b.price_eur
    &&& a.fee_fastest == b.fee_fastest
    &&& a.fee_half_hour == b.fee_half_hour
    &&& a.fee_hour == b.fee_hour
    &&& opt_f32_bits_eq(a.difficulty_progress, b.difficulty_progress)
    &&& opt_f32_bits_eq(a.difficulty_change, b.difficulty_change)
    &&& a.mempool_count == b.mempool_count
}

/// `==` on two optional `f32` values given by their bit patterns.
fn opt_f32_bits_eq_exec(a: Option<u32>, b: Option<u32>) -> (r: bool)
    ensures
        r == opt_f32_bits_eq(a, b),
{
    match (a, b) {
        (None, None) => true,
        (Some(x), Some(y)) => {
            let xm = x & 0x7fff_ffff;
            let ym = y & 0x7fff_ffff;
            xm <= 0x7f80_0000 && ym <= 0x7f80_0000 && (x == y || (xm == 0 && ym == 0))
        },
        _ => false,
    }
}

/// `==` on two optional integers.
fn opt_u64_eq(a: Option<u64>, b: Option<u64>) -> (r: bool)
    ensures
        r == (a == b),
{
    match (a, b) {
        (None, None) => true,
        (Some(x), Some(y)) => x == y,
        _ => false,
    }
}

/// `==` on two optional integers.
fn opt_u32_eq(a: Option<u32>, b: Option<u32>) -> (r: bool)
    ensures
        r == (a == b),
{
    match (a, b) {
        (None, None) => true,
        (Some(x), Some(y)) => x == y,
        _ => false,
    }
}

impl PartialEq for MempoolData {
    fn eq(&self, other: &Self) -> (r: bool) {
        opt_u64_eq(self.block_height, other.block_height) && opt_u64_eq(
            self.price_usd,
            other.price_usd,
        ) && opt_u64_eq(self.price_eur, other.price_eur) && opt_u32_eq(
            self.fee_fastest,
            other.fee_fastest,
        ) && opt_u32_eq(self.fee_half_hour, other.fee_half_hour) && opt_u32_eq(
            self.fee_hour,
            other.fee_hour,
        ) && opt_f32_bits_eq_exec(self.difficulty_progress, other.difficulty_progress)
            && opt_f32_bits_eq_exec(self.difficulty_change, other.difficulty_change) && opt_u64_eq(
            self.mempool_count,
            other.mempool_count,
        )
    }
}

impl PartialEqSpecImpl for MempoolData {
    open spec fn obeys_eq_spec() -> bool {
        true
    }

    open spec fn eq_spec(&self, other: &Self) -> bool {
        mempool_data_eq(*self, *other)
    }
}

/// Whether no figure at all was fetched.
pub open spec fn spec_is_empty(d: MempoolData) -> bool {
    &&& d.block_height is None
    &&& d.price_usd is None
    &&& d.price_eur is None
    &&& d.fee_fastest is None
    &&& d.fee_half_hour is None
    &&& d.fee_hour is None
    &&& d.difficulty_progress is None
    &&& d.difficulty_change is None
    &&& d.mempool_count is None
}

impl Default for MempoolData {
    fn default() -> (d: Self)
        ensures
            spec_is_empty(d),
    {
        MempoolData {
            block_height: None,
            price_usd: None,
            price_eur: None,
            fee_fastest: None,
            fee_half_hour: None,
            fee_hour: None,
            difficulty_progress: None,
            difficulty_change: None,
            mempool_count: None,
        }
    }
}

impl MempoolData {
    /// Whether nothing was fetched (the value equals `MempoolData::default()`);
    /// such a result is not published to the display.
    pub fn is_empty(&self) -> (b: bool)
        ensures
            b == spec_is_empty(*self),
    {
        self.block_height.is_none() && self.price_usd.is_none() && self.price_eur.is_none()
            && self.fee_fastest.is_none() && self.fee_half_hour.is_none()
            && self.fee_hour.is_none() && self.difficulty_progress.is_none()
            && self.difficulty_change.is_none() && self.mempool_count.is_none()
    }
}

impl PriceCurrency {
    /// The fetched price in this currency.
    pub open spec fn spec_price_from(self, data: MempoolData) -> Option<u64> {
        match self {
            PriceCurrency::USD => data.price_usd,
            PriceCurrency::EUR => data.price_eur,
        }
    }

    pub fn price_from(&self, data: &MempoolData) -> (p: Option<u64>)
        ensures
            p == self.spec_price_from(*data),
    {
        match self {
            PriceCurrency::USD => data.price_usd,
            PriceCurrency::EUR => data.price_eur,
        }
    }
}

// --- API response models ---

/// The prices endpoint's answer (the fields that are used).
#[derive(Debug, Clone, Copy, PartialEq, Eq, Structural)]
pub struct PricesResponse {
    pub usd: u64,
    pub eur: u64,
}

/// The recommended-fees endpoint's answer (the fields that are used).
#[derive(Debug, Clone, Copy, PartialEq, Eq, Structural)]
pub struct FeesResponse {
    pub fastest_fee: u32,
    pub half_hour_fee: u32,
    pub hour_fee: u32,
}

/// The mempool endpoint's answer (the field that is used).
#[derive(Debug, Clone, Copy, PartialEq, Eq, Structural)]
pub struct MempoolStatsResponse {
    pub count: u64,
}

/// The block height that the tip-height endpoint's body `body` states: the
/// body, trimmed, parsed as a `u64`.
pub fn parse_block_height(body: &str) -> (h: Option<u64>)
    ensures
        h == crate::text::spec_parse_u64(trim(body@)),
{
    let v = chars_of(body);
    let (a, b) = trim_range(&v, 0, v.len());
    assert(v@.subrange(0, v.len() as int) =~= body@);
    crate::text::parse_u64_range(&v, a, b)
}

} // verus!

verus! {

// --- One round of fetching ---

/// A request of the mempool API, in the order in which a round asks them.
#[derive(Clone, Copy, PartialEq, Eq, Structural, Debug)]
pub enum MempoolQuery {
    BlockHeight,
    Prices,
    Fees,
    Difficulty,
    MempoolStats,
}

/// Which server a request goes to.
#[derive(Clone, Copy, PartialEq, Eq, Structural, Debug)]
pub enum Endpoint {
    /// The configured endpoint.
    Primary,
    /// [`FALLBACK_ENDPOINT`], asked when the configured endpoint failed.
    Fallback,
}

/// What the fetcher must do next.
#[derive(Clone, Copy, PartialEq, Eq, Structural, Debug)]
pub enum FetchAction {
    Request(MempoolQuery, Endpoint),
    Done,
}

/// The difficulty-adjustment endpoint's two figures, as the bit patterns of
/// their `f32` values (`f32::to_bits`).
#[derive(Debug, Clone, Copy, PartialEq, Eq, Structural)]
pub struct DifficultyFigures {
    pub progress_percent: u32,
    pub difficulty_change: u32,
}

/// The answer to one request; `None` when the request or its decoding failed.
#[derive(Clone, Copy, PartialEq, Eq, Structural, Debug)]
pub enum QueryOutcome {
    BlockHeight(Option<u64>),
    Prices(Option<PricesResponse>),
    Fees(Option<FeesResponse>),
    Difficulty(Option<DifficultyFigures>),
    MempoolStats(Option<MempoolStatsResponse>),
}

impl QueryOutcome {
    pub open spec fn query(self) -> MempoolQuery {
        match self {
            QueryOutcome::BlockHeight(_) => MempoolQuery::BlockHeight,
            QueryOutcome::Prices(_) => MempoolQuery::Prices,
            QueryOutcome::Fees(_) => MempoolQuery::Fees,
            QueryOutcome::Difficulty(_) => MempoolQuery::Difficulty,
            QueryOutcome::MempoolStats(_) => MempoolQuery::MempoolStats,
        }
    }

    pub open spec fn failed(self) -> bool {
        match self {
            QueryOutcome::BlockHeight(r) => r is None,
            QueryOutcome::Prices(r) => r is None,
            QueryOutcome::Fees(r) => r is None,
            QueryOutcome::Difficulty(r) => r is None,
            QueryOutcome::MempoolStats(r) => r is None,
        }
    }
}

impl MempoolQuery {
    /// The API path of the request.
    pub open spec fn spec_path(self) -> Seq<char> {
        match self {
            MempoolQuery::BlockHeight => "/api/blocks/tip/height"@,
            MempoolQuery::Prices => "/api/v1/prices"@,
            MempoolQuery::Fees => "/api/v1/fees/recommended"@,
            MempoolQuery::Difficulty => "/api/v1/difficulty-adjustment"@,
            MempoolQuery::MempoolStats => "/api/mempool"@,
        }
    }

    pub fn path(&self) -> (p: &'static str)
        ensures
            p@ == self.spec_path(),
    {
        match self {
            MempoolQuery::BlockHeight => "/api/blocks/tip/height",
            MempoolQuery::Prices => "/api/v1/prices",
            MempoolQuery::Fees => "/api/v1/fees/recommended",
            MempoolQuery::Difficulty => "/api/v1/difficulty-adjustment",
            MempoolQuery::MempoolStats => "/api/mempool",
        }
    }
}

/// The host a request goes to: the configured endpoint, or the fallback.
pub open spec fn spec_endpoint_host(config: OrangeClockConfig, e: Endpoint) -> Seq<char> {
    match e {
        Endpoint::Primary => config.mempool_endpoint@,
        Endpoint::Fallback => FALLBACK_ENDPOINT@,
    }
}

/// The HTTPS URL of `query` on the server `endpoint` of `config`.
pub fn query_url(config: &OrangeClockConfig, endpoint: Endpoint, query: MempoolQuery) -> (url:
    String)
    ensures
        url@ == "https://"@ + spec_endpoint_host(*config, endpoint) + query.spec_path(),
{
    let mut url = String::from_str("https://");
    match endpoint {
        Endpoint::Primary => url.append(config.mempool_endpoint.as_str()),
        Endpoint::Fallback => url.append(FALLBACK_ENDPOINT),
    }
    url.append(query.path());
    url
}

/// The request at position `k` of a round.
pub open spec fn stage_query(k: int) -> MempoolQuery {
    if k == 0 {
        MempoolQuery::BlockHeight
    } else if k == 1 {
        MempoolQuery::Prices
    } else if k == 2 {
        MempoolQuery::Fees
    } else if k == 3 {
        MempoolQuery::Difficulty
    } else {
        MempoolQuery::MempoolStats
    }
}

/// Whether the enabled items need the answer to `q`: the block height for
/// the height and the halving countdown, the prices for the price and Moscow
/// time, and each other request for its own item.
pub open spec fn query_needed(items: DisplayItems, q: MempoolQuery) -> bool {
    match q {
        MempoolQuery::BlockHeight => items.block_height || items.halving_countdown,
        MempoolQuery::Prices => items.price || items.moscow_time,
        MempoolQuery::Fees => items.fees,
        MempoolQuery::Difficulty => items.difficulty_adjustment,
        MempoolQuery::MempoolStats => items.mempool_size,
    }
}

/// The first position from `k` on whose request is needed; 5 when none is.
pub open spec fn next_needed(items: DisplayItems, k: int) -> int
    decreases 5 - k,
{
    if k >= 5 {
        5
    } else if query_needed(items, stage_query(k)) {
        k
    } else {
        next_needed(items, k + 1)
    }
}

/// `data` with the answer of `outcome` filled in (nothing when it failed).
pub open spec fn apply_outcome(data: MempoolData, outcome: QueryOutcome) -> MempoolData {
    match outcome {
        QueryOutcome::BlockHeight(Some(h)) => MempoolData { block_height: Some(h), ..data },
        QueryOutcome::Prices(Some(p)) => MempoolData {
            price_usd: Some(p.usd),
            price_eur: Some(p.eur),
            ..data
        },
        QueryOutcome::Fees(Some(f)) => MempoolData {
            fee_fastest: Some(f.fastest_fee),
            fee_half_hour: Some(f.half_hour_fee),
            fee_hour: Some(f.hour_fee),
            ..data
        },
        QueryOutcome::Difficulty(Some(d)) => MempoolData {
            difficulty_progress: Some(d.progress_percent),
            difficulty_change: Some(d.difficulty_change),
            ..data
        },
        QueryOutcome::MempoolStats(Some(s)) => MempoolData { mempool_count: Some(s.count), ..data },
        _ => data,
    }
}

/// Whether each figure of `data` is present only if the enabled items need it.
pub open spec fn only_needed(items: DisplayItems, data: MempoolData) -> bool {
    &&& data.block_height is Some ==> query_needed(items, MempoolQuery::BlockHeight)
    &&& (data.price_usd is Some || data.price_eur is Some) ==> query_needed(
        items,
        MempoolQuery::Prices,
    )
    &&& (data.fee_fastest is Some || data.fee_half_hour is Some || data.fee_hour is Some)
        ==> query_needed(items, MempoolQuery::Fees)
    &&& (data.difficulty_progress is Some || data.difficulty_change is Some) ==> query_needed(
        items,
        MempoolQuery::Difficulty,
    )
    &&& data.mempool_count is Some ==> query_needed(items, MempoolQuery::MempoolStats)
}

/// One round of fetching the idle-screen data: each request that the enabled
/// items need is asked of the primary endpoint, and of the fallback endpoint
/// when the primary one failed; the answers fill a [`MempoolData`].
pub struct FetchRound {
    items: DisplayItems,
    data: MempoolData,
    stage: u8,
    on_fallback: bool,
}

impl FetchRound {
    pub closed spec fn items(self) -> DisplayItems {
        self.items
    }

    pub closed spec fn data(self) -> MempoolData {
        self.data
    }

    /// The position of the pending request (5 once the round is over).
    pub closed spec fn stage(self) -> int {
        self.stage as int
    }

    /// Whether the pending request already failed at the primary endpoint.
    pub closed spec fn on_fallback(self) -> bool {
        self.on_fallback
    }

    pub open spec fn wf(self) -> bool {
        &&& 0 <= self.stage() <= 5
        &&& next_needed(self.items(), self.stage()) == self.stage()
        &&& self.on_fallback() ==> self.stage() < 5
        &&& only_needed(self.items(), self.data())
    }

    /// Requests still to be made, at most: two per remaining position.
    pub open spec fn remaining(self) -> int {
        2 * (5 - self.stage()) - (if self.on_fallback() {
            1int
        } else {
            0
        })
    }

    /// The request that comes next, or `Done`.
    pub open spec fn spec_next_action(self) -> FetchAction {
        if self.stage() >= 5 {
            FetchAction::Done
        } else {
            FetchAction::Request(
                stage_query(self.stage()),
                if self.on_fallback() {
                    Endpoint::Fallback
                } else {
                    Endpoint::Primary
                },
            )
        }
    }

    /// Starts a round for the enabled `items`.
    pub fn new(items: &DisplayItems) -> (r: Self)
        ensures
            r.wf(),
            r.items() == *items,
            spec_is_empty(r.data()),
            r.stage() == next_needed(*items, 0),
            !r.on_fallback(),
    {
        let stage = first_needed_from(items, 0);
        FetchRound { items: items.copy(), data: MempoolData::default(), stage, on_fallback: false }
    }

    pub fn next_action(&self) -> (a: FetchAction)
        requires
            self.wf(),
        ensures
            a == self.spec_next_action(),
    {
        if self.stage >= 5 {
            FetchAction::Done
        } else {
            let endpoint = if self.on_fallback {
                Endpoint::Fallback
            } else {
                Endpoint::Primary
            };
            FetchAction::Request(query_at(self.stage), endpoint)
        }
    }

    /// Takes the answer to the pending request. A failed answer from the
    /// primary endpoint makes the fallback endpoint the next one asked;
    /// otherwise the answer (if any) is recorded and the round moves on to
    /// the next needed request.
    pub fn record(&mut self, outcome: QueryOutcome)
        requires
            old(self).wf(),
            old(self).stage() < 5,
            outcome.query() == stage_query(old(self).stage()),
        ensures
            final(self).wf(),
            final(self).items() == old(self).items(),
            final(self).remaining() < old(self).remaining(),
            outcome.failed() && !old(self).on_fallback() ==> final(self).on_fallback()
                && final(self).stage() == old(self).stage() && final(self).data() == old(
                self,
            ).data(),
            !(outcome.failed() && !old(self).on_fallback()) ==> !final(self).on_fallback()
                && final(self).stage() == next_needed(old(self).items(), old(self).stage() + 1)
                && final(self).data() == apply_outcome(old(self).data(), outcome),
    {
        let failed = match outcome {
            QueryOutcome::BlockHeight(r) => r.is_none(),
            QueryOutcome::Prices(r) => r.is_none(),
            QueryOutcome::Fees(r) => r.is_none(),
            QueryOutcome::Difficulty(r) => r.is_none(),
            QueryOutcome::MempoolStats(r) => r.is_none(),
        };
        if failed && !self.on_fallback {
            self.on_fallback = true;
            return;
        }
        match outcome {
            QueryOutcome::BlockHeight(Some(h)) => {
                self.data.block_height = Some(h);
            },
            QueryOutcome::Prices(Some(p)) => {
                self.data.price_usd = Some(p.usd);
                self.data.price_eur = Some(p.eur);
            },
            QueryOutcome::Fees(Some(f)) => {
                self.data.fee_fastest = Some(f.fastest_fee);
                self.data.fee_half_hour = Some(f.half_hour_fee);
                self.data.fee_hour = Some(f.hour_fee);
            },
            QueryOutcome::Difficulty(Some(d)) => {
                self.data.difficulty_progress = Some(d.progress_percent);
                self.data.difficulty_change = Some(d.difficulty_change);
            },
            QueryOutcome::MempoolStats(Some(s)) => {
                self.data.mempool_count = Some(s.count);
            },
            _ => {},
        }
        self.on_fallback = false;
        self.stage = first_needed_from(&self.items, self.stage + 1);
    }

    /// The figures fetched so far.
    pub fn data_ref(&self) -> (d: &MempoolData)
        ensures
            *d == self.data(),
    {
        &self.data
    }

    /// Ends the round, giving the fetched figures.
    pub fn into_data(self) -> (d: MempoolData)
        ensures
            d == self.data(),
    {
        self.data
    }
}

/// The request at position `k` (below 5).
fn query_at(k: u8) -> (q: MempoolQuery)
    requires
        k < 5,
    ensures
        q == stage_query(k as int),
{
    if k == 0 {
        MempoolQuery::BlockHeight
    } else if k == 1 {
        MempoolQuery::Prices
    } else if k == 2 {
        MempoolQuery::Fees
    } else if k == 3 {
        MempoolQuery::Difficulty
    } else {
        MempoolQuery::MempoolStats
    }
}

/// The first position from `k` on whose request `items` need (5 when none).
fn first_needed_from(items: &DisplayItems, k: u8) -> (r: u8)
    requires
        k <= 5,
    ensures
        r as int == next_needed(*items, k as int),
        k <= r <= 5,
        next_needed(*items, r as int) == r as int,
    decreases 5 - k,
{
    if k >= 5 {
        return 5;
    }
    let needed = match query_at(k) {
        MempoolQuery::BlockHeight => items.block_height || items.halving_countdown,
        MempoolQuery::Prices => items.price || items.moscow_time,
        MempoolQuery::Fees => items.fees,
        MempoolQuery::Difficulty => items.difficulty_adjustment,
        MempoolQuery::MempoolStats => items.mempool_size,
    };
    if needed {
        k
    } else {
        first_needed_from(items, k + 1)
    }
}

} // verus!

verus! {

proof fn lemma_next_needed(items: DisplayItems, k: int)
    requires
        0 <= k <= 5,
    ensures
        k <= next_needed(items, k) <= 5,
        next_needed(items, k) < 5 ==> query_needed(items, stage_query(next_needed(items, k))),
        forall|j: int| k <= j < next_needed(items, k) ==> !query_needed(items, stage_query(j)),
    decreases 5 - k,
{
    if k < 5 && !query_needed(items, stage_query(k)) {
        lemma_next_needed(items, k + 1);
    }
}

/// A round asks only for what the enabled items need: every request it makes
/// is for a needed answer, and no needed request is skipped before it.
pub proof fn law_fetch_requests_needed(r: FetchRound, q: MempoolQuery, e: Endpoint)
    requires
        r.wf(),
        r.spec_next_action() == FetchAction::Request(q, e),
    ensures
        query_needed(r.items(), q),
        e == Endpoint::Fallback ==> r.on_fallback(),
{
    lemma_next_needed(r.items(), r.stage());
}

/// A round records only figures that the enabled items need, and while it
/// runs, the count of requests it may still make goes down at each answer.
pub proof fn law_fetch_fills_only_needed(r: FetchRound)
    requires
        r.wf(),
    ensures
        only_needed(r.items(), r.data()),
        r.remaining() >= 0,
        r.remaining() == 0 <==> r.spec_next_action() == FetchAction::Done,
{
}

/// A failed answer adds no figure: a round whose requests all fail ends with
/// no data, which is then not published.
pub proof fn law_failed_outcome_keeps_data(data: MempoolData, outcome: QueryOutcome)
    requires
        outcome.failed(),
    ensures
        apply_outcome(data, outcome) == data,
{
}


/// A successful answer sets exactly the figures it carries, each from its
/// own field of the answer, and leaves every other figure as it was.
pub proof fn law_outcome_sets_its_figures(data: MempoolData, outcome: QueryOutcome)
    ensures
        ({
            let d = apply_outcome(data, outcome);
            &&& d.block_height == (match outcome {
                QueryOutcome::BlockHeight(Some(h)) => Some(h),
                _ => data.block_height,
            })
            &&& d.price_usd == (match outcome {
                QueryOutcome::Prices(Some(p)) => Some(p.usd),
                _ => data.price_usd,
            })
            &&& d.price_eur == (match outcome {
                QueryOutcome::Prices(Some(p)) => Some(p.eur),
                _ => data.price_eur,
            })
            &&& d.fee_fastest == (match outcome {
                QueryOutcome::Fees(Some(f)) => Some(f.fastest_fee),
                _ => data.fee_fastest,
            })
            &&& d.fee_half_hour == (match outcome {
                QueryOutcome::Fees(Some(f)) => Some(f.half_hour_fee),
                _ => data.fee_half_hour,
            })
            &&& d.fee_hour == (match outcome {
                QueryOutcome::Fees(Some(f)) => Some(f.hour_fee),
                _ => data.fee_hour,
            })
            &&& d.difficulty_progress == (match outcome {
                QueryOutcome::Difficulty(Some(f)) => Some(f.progress_percent),
                _ => data.difficulty_progress,
            })
            &&& d.difficulty_change == (match outcome {
                QueryOutcome::Difficulty(Some(f)) => Some(f.difficulty_change),
                _ => data.difficulty_change,
            })
            &&& d.mempool_count == (match outcome {
                QueryOutcome::MempoolStats(Some(m)) => Some(m.count),
                _ => data.mempool_count,
            })
        }),
{
}

/// Data is empty exactly when it equals the data of a round that fetched
/// nothing (every figure absent), under `==` as the fetcher compares it.
pub proof fn law_empty_is_nothing_fetched(d: MempoolData)
    ensures
        spec_is_empty(d) <==> d == (MempoolData {
            block_height: None,
            price_usd: None,
            price_eur: None,
            fee_fastest: None,
            fee_half_hour: None,
            fee_hour: None,
            difficulty_progress: None,
            difficulty_change: None,
            mempool_count: None,
        }),
        spec_is_empty(d) <==> mempool_data_eq(
            d,
            (MempoolData {
                block_height: None,
                price_usd: None,
                price_eur: None,
                fee_fastest: None,
                fee_half_hour: None,
                fee_hour: None,
                difficulty_progress: None,
                difficulty_change: None,
                mempool_count: None,
            }),
        ),
{
}

/// Whatever a successful answer carries makes the data non-empty, so it is
/// published; a block height alone is enough.
pub proof fn law_answer_makes_data_published(data: MempoolData, outcome: QueryOutcome)
    requires
        !outcome.failed(),
    ensures
        !spec_is_empty(apply_outcome(data, outcome)),
{
}

/// Equal data have the same integer figures (block height, prices, fees,
/// mempool size), and the same difficulty figures present.
pub proof fn law_equal_data_same_figures(a: MempoolData, b: MempoolData)
    requires
        mempool_data_eq(a, b),
    ensures
        a.block_height == b.block_height,
        a.price_usd == b.price_usd,
        a.price_eur == b.price_eur,
        a.fee_fastest == b.fee_fastest,
        a.fee_half_hour == b.fee_half_hour,
        a.fee_hour == b.fee_hour,
        a.mempool_count == b.mempool_count,
        a.difficulty_progress is Some <==> b.difficulty_progress is Some,
        a.difficulty_change is Some <==> b.difficulty_change is Some,
        mempool_data_eq(b, a),
{
}

/// Data equals itself unless a difficulty figure is a NaN, and data sets
/// that differ only in a difficulty figure, neither a NaN nor a zero, are
/// equal exactly when those figures have the same bits.
pub proof fn law_data_equality_as_fields(a: MempoolData, x: u32, y: u32)
    ensures
        !(a.difficulty_progress matches Some(p) && f32_bits_nan(p)) && !(
        a.difficulty_change matches Some(c) && f32_bits_nan(c)) ==> mempool_data_eq(a, a),
        !f32_bits_nan(x) && !f32_bits_nan(y) && x & 0x7fff_ffff != 0 ==> (mempool_data_eq(
            MempoolData { difficulty_progress: Some(x), ..a },
            MempoolData { difficulty_progress: Some(y), ..a },
        ) == (x == y && !(a.difficulty_change matches Some(c) && f32_bits_nan(c)))),
        f32_bits_nan(x) ==> !mempool_data_eq(
            MempoolData { difficulty_change: Some(x), ..a },
            MempoolData { difficulty_change: Some(y), ..a },
        ),
{
}

/// Every enabled item gets the answer it is drawn from asked for (the block
/// height for the height and the halving countdown, the prices for the
/// price and the Moscow time), and nothing is asked for that no enabled item
/// uses.
pub proof fn law_round_asks_what_items_use(items: DisplayItems)
    ensures
        items.block_height ==> query_needed(items, MempoolQuery::BlockHeight),
        items.halving_countdown ==> query_needed(items, MempoolQuery::BlockHeight),
        items.price ==> query_needed(items, MempoolQuery::Prices),
        items.moscow_time ==> query_needed(items, MempoolQuery::Prices),
        items.fees ==> query_needed(items, MempoolQuery::Fees),
        items.difficulty_adjustment ==> query_needed(items, MempoolQuery::Difficulty),
        items.mempool_size ==> query_needed(items, MempoolQuery::MempoolStats),
        !items.block_height && !items.halving_countdown ==> !query_needed(
            items,
            MempoolQuery::BlockHeight,
        ),
        !items.price && !items.moscow_time ==> !query_needed(items, MempoolQuery::Prices),
        !items.fees ==> !query_needed(items, MempoolQuery::Fees),
        !items.difficulty_adjustment ==> !query_needed(items, MempoolQuery::Difficulty),
        !items.mempool_size ==> !query_needed(items, MempoolQuery::MempoolStats),
{
}

} // verus!
