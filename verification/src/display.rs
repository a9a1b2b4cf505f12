//! What the e-paper screens show: rotation setting, number formatting and the
//! rows of the idle ("OrangeClock") screen.
use vstd::prelude::*;
use crate::mempool::{
    blocks_until_halving, moscow_time, DisplayItems, MempoolData, PriceCurrency,
};
use crate::text::{decimal, decimal_digits, push_char, str_equals};

verus! {

/// The display rotation setting.
#[derive(Debug, Clone, Copy, PartialEq, Eq, Structural)]
pub enum Rotation {
    Rotate0,
    Rotate90,
    Rotate180,
    Rotate270,
}

/// The rotation a stored setting selects: "0", "90" and "180" select theirs,
/// anything else 270 degrees.
pub open spec fn spec_parse_rotation(s: Seq<char>) -> Rotation {
    if s == "0"@ {
        Rotation::Rotate0
    } else if s == "90"@ {
        Rotation::Rotate90
    } else if s == "180"@ {
        Rotation::Rotate180
    } else {
        Rotation::Rotate270
    }
}

pub fn parse_rotation(s: &str) -> (r: Rotation)
    ensures
        r == spec_parse_rotation(s@),
{
    if str_equals(s, "0") {
        Rotation::Rotate0
    } else if str_equals(s, "90") {
        Rotation::Rotate90
    } else if str_equals(s, "180") {
        Rotation::Rotate180
    } else {
        Rotation::Rotate270
    }
}

/// Digits grouped by three from the right, the groups separated by commas.
pub open spec fn group_thousands(s: Seq<char>) -> Seq<char>
    decreases s.len(),
{
    if s.len() <= 3 {
        s
    } else {
        group_thousands(s.take(s.len() - 3)).push(',') + s.skip(s.len() - 3)
    }
}

/// `n` in decimal with thousands separators (e.g. 890123 gives "890,123").
pub open spec fn spec_format_thousands(n: u64) -> Seq<char> {
    group_thousands(decimal(n as nat))
}

/// Appends the grouped form of `d[0..k]` to `out`.
fn push_grouped(out: &mut String, d: &Vec<char>, k: usize)
    requires
        k <= d.len(),
    ensures
        final(out)@ == old(out)@ + group_thousands(d@.take(k as int)),
    decreases k,
{
    if k <= 3 {
        push_chars(out, d, 0, k);
        assert(d@.subrange(0, k as int) =~= d@.take(k as int));
    } else {
        push_grouped(out, d, k - 3);
        push_char(out, ',');
        push_chars(out, d, k - 3, k);
        let ghost s = d@.take(k as int);
        assert(s.take(s.len() - 3) =~= d@.take(k - 3));
        assert(s.skip(s.len() - 3) =~= d@.subrange(k - 3, k as int));
    }
}

/// Appends `d[lo..hi]` to `out`.
fn push_chars(out: &mut String, d: &Vec<char>, lo: usize, hi: usize)
    requires
        lo <= hi <= d.len(),
    ensures
        final(out)@ == old(out)@ + d@.subrange(lo as int, hi as int),
{
    let ghost start = out@;
    let mut i: usize = lo;
    while i < hi
        invariant
            lo <= i <= hi <= d.len(),
            out@ == start + d@.subrange(lo as int, i as int),
        decreases hi - i,
    {
        push_char(out, d[i]);
        assert(out@ =~= start + d@.subrange(lo as int, i + 1));
        i += 1;
    }
}

/// Appends `n` with thousands separators to `out`.
fn push_thousands(out: &mut String, n: u64)
    ensures
        final(out)@ == old(out)@ + spec_format_thousands(n),
{
    let d = decimal_digits(n);
    push_grouped(out, &d, d.len());
    assert(d@.take(d.len() as int) =~= d@);
}

/// Format a number with thousands separator (e.g., 890123 → "890,123")
pub fn format_thousands(n: u64) -> (s: String)
    ensures
        s@ == spec_format_thousands(n),
{
    let mut s = String::new();
    push_thousands(&mut s, n);
    s
}

/// `s` without its commas.
pub open spec fn without_commas(s: Seq<char>) -> Seq<char>
    decreases s.len(),
{
    if s.len() == 0 {
        s
    } else if s.last() == ',' {
        without_commas(s.drop_last())
    } else {
        without_commas(s.drop_last()).push(s.last())
    }
}

proof fn lemma_without_commas_append(a: Seq<char>, b: Seq<char>)
    ensures
        without_commas(a + b) == without_commas(a) + without_commas(b),
    decreases b.len(),
{
    if b.len() == 0 {
        assert(a + b =~= a);
        assert(without_commas(a) + without_commas(b) =~= without_commas(a));
    } else {
        lemma_without_commas_append(a, b.drop_last());
        assert((a + b).drop_last() =~= a + b.drop_last());
        assert((a + b).last() == b.last());
        if b.last() != ',' {
            assert(without_commas(a) + without_commas(b.drop_last()).push(b.last())
                =~= (without_commas(a) + without_commas(b.drop_last())).push(b.last()));
        }
    }
}

proof fn lemma_without_commas_plain(s: Seq<char>)
    requires
        !s.contains(','),
    ensures
        without_commas(s) == s,
    decreases s.len(),
{
    if s.len() > 0 {
        assert(!s.drop_last().contains(',')) by {
            if s.drop_last().contains(',') {
                let k = choose|k: int| 0 <= k < s.drop_last().len() && s.drop_last()[k] == ',';
                assert(s[k] == ',');
            }
        }
        assert(s[s.len() - 1] == s.last());
        lemma_without_commas_plain(s.drop_last());
        assert(s.drop_last().push(s.last()) =~= s);
    }
}

proof fn lemma_group_without_commas(s: Seq<char>)
    requires
        !s.contains(','),
    ensures
        without_commas(group_thousands(s)) == s,
    decreases s.len(),
{
    if s.len() <= 3 {
        lemma_without_commas_plain(s);
    } else {
        let a = s.take(s.len() - 3);
        let b = s.skip(s.len() - 3);
        assert(!a.contains(',')) by {
            if a.contains(',') {
                let k = choose|k: int| 0 <= k < a.len() && a[k] == ',';
                assert(s[k] == ',');
            }
        }
        assert(!b.contains(',')) by {
            if b.contains(',') {
                let k = choose|k: int| 0 <= k < b.len() && b[k] == ',';
                assert(s[s.len() - 3 + k] == ',');
            }
        }
        lemma_group_without_commas(a);
        lemma_without_commas_append(group_thousands(a).push(','), b);
        assert(group_thousands(a).push(',').drop_last() =~= group_thousands(a));
        lemma_without_commas_plain(b);
        assert(a + b =~= s);
    }
}

/// The thousands separators are the only thing `format_thousands` adds:
/// without its commas the text is the plain decimal form of the number, and
/// below one thousand there is no separator at all.
pub proof fn law_format_thousands_digits(n: u64)
    ensures
        without_commas(spec_format_thousands(n)) == decimal(n as nat),
        n < 1000 ==> spec_format_thousands(n) == decimal(n as nat),
{
    crate::text::lemma_decimal_no_comma(n as nat);
    lemma_group_without_commas(decimal(n as nat));
    if n < 1000 {
        crate::text::lemma_decimal_short(n as nat);
    }
}

} // verus!

verus! {

/// What a row of the idle screen shows.
#[derive(Debug, Clone, Copy, PartialEq, Eq, Structural)]
pub enum OrangeClockItem {
    BlockHeight,
    PriceUsd,
    PriceEur,
    MoscowTime,
    Fees,
    HalvingCountdown,
    DifficultyAdjustment,
    MempoolSize,
}

/// A single row of OrangeClock display data.
pub struct OrangeClockRow {
    pub item: OrangeClockItem,
    pub text: String,
}

/// A row as its item and text.
pub open spec fn row_view(r: OrangeClockRow) -> (OrangeClockItem, Seq<char>) {
    (r.item, r.text@)
}

/// `rows` followed by the row (`item`, `text`) when `on`.
pub open spec fn with_row(
    rows: Seq<(OrangeClockItem, Seq<char>)>,
    on: bool,
    item: OrangeClockItem,
    text: Seq<char>,
) -> Seq<(OrangeClockItem, Seq<char>)> {
    if on {
        rows.push((item, text))
    } else {
        rows
    }
}

/// The item under which a price in `currency` is shown.
pub open spec fn price_item(currency: PriceCurrency) -> OrangeClockItem {
    match currency {
        PriceCurrency::USD => OrangeClockItem::PriceUsd,
        PriceCurrency::EUR => OrangeClockItem::PriceEur,
    }
}

/// Satoshis per unit of fiat at price `p` (zero for a zero price).
pub open spec fn spec_moscow_time(p: u64) -> u64 {
    if p == 0 {
        0
    } else {
        (100_000_000u64 / p) as u64
    }
}

/// Blocks left until the halving after height `h`.
pub open spec fn spec_blocks_until_halving(h: u64) -> u64 {
    ((h / 210_000 + 1) * 210_000 - h) as u64
}

/// Whether the halving countdown of `data` can be computed in 64 bits.
pub open spec fn halving_fits(items: DisplayItems, data: MempoolData) -> bool {
    items.halving_countdown && data.block_height is Some ==> (data.block_height.unwrap()
        / 210_000 + 1) * 210_000 <= u64::MAX
}

/// The rows the idle screen shows, in order: block height, price, Moscow
/// time, fees ("fastest/half-hour/hour"), halving countdown ("~" and the
/// blocks left), difficulty adjustment (the given text) and mempool size
/// ("Mempool N txs"); each when its item is enabled and its data was fetched.
pub open spec fn spec_orangeclock_rows(
    data: MempoolData,
    items: DisplayItems,
    currency: PriceCurrency,
    difficulty_text: Seq<char>,
) -> Seq<(OrangeClockItem, Seq<char>)> {
    let price = currency.spec_price_from(data);
    let r1 = with_row(
        Seq::empty(),
        items.block_height && data.block_height is Some,
        OrangeClockItem::BlockHeight,
        spec_format_thousands(data.block_height.unwrap()),
    );
    let r2 = with_row(
        r1,
        items.price && price is Some,
        price_item(currency),
        spec_format_thousands(price.unwrap()),
    );
    let r3 = with_row(
        r2,
        items.moscow_time && price is Some,
        OrangeClockItem::MoscowTime,
        spec_format_thousands(spec_moscow_time(price.unwrap())),
    );
    let r4 = with_row(
        r3,
        items.fees && data.fee_fastest is Some && data.fee_half_hour is Some && data.fee_hour is Some,
        OrangeClockItem::Fees,
        decimal(data.fee_fastest.unwrap() as nat).push('/') + decimal(
            data.fee_half_hour.unwrap() as nat,
        ).push('/') + decimal(data.fee_hour.unwrap() as nat),
    );
    let r5 = with_row(
        r4,
        items.halving_countdown && data.block_height is Some,
        OrangeClockItem::HalvingCountdown,
        seq!['~'] + spec_format_thousands(spec_blocks_until_halving(data.block_height.unwrap())),
    );
    let r6 = with_row(
        r5,
        items.difficulty_adjustment && data.difficulty_progress is Some
            && data.difficulty_change is Some,
        OrangeClockItem::DifficultyAdjustment,
        difficulty_text,
    );
    with_row(
        r6,
        items.mempool_size && data.mempool_count is Some,
        OrangeClockItem::MempoolSize,
        "Mempool "@ + spec_format_thousands(data.mempool_count.unwrap()) + " txs"@,
    )
}

/// Appends `n` in decimal to `out`.
fn push_decimal(out: &mut String, n: u64)
    ensures
        final(out)@ == old(out)@ + decimal(n as nat),
{
    let d = decimal_digits(n);
    push_chars(out, &d, 0, d.len());
    assert(d@.subrange(0, d.len() as int) =~= d@);
}

/// Pushes a row onto `rows`.
fn push_row(
    rows: &mut Vec<OrangeClockRow>,
    item: OrangeClockItem,
    text: String,
    Ghost(view): Ghost<Seq<(OrangeClockItem, Seq<char>)>>,
)
    requires
        old(rows)@.map_values(|r: OrangeClockRow| row_view(r)) == view,
    ensures
        final(rows)@.map_values(|r: OrangeClockRow| row_view(r)) == view.push((item, text@)),
{
    let ghost t = text@;
    rows.push(OrangeClockRow { item, text });
    assert(rows@.map_values(|r: OrangeClockRow| row_view(r)) =~= view.push((item, t)));
}

/// Build structured rows for OrangeClock display. The difficulty row's text
/// (the two percentages, formatted from their `f32` values) is given by the
/// caller.
pub fn orangeclock_rows(
    data: &MempoolData,
    items: &DisplayItems,
    currency: &PriceCurrency,
    difficulty_text: &str,
) -> (rows: Vec<OrangeClockRow>)
    requires
        halving_fits(*items, *data),
    ensures
        rows@.map_values(|r: OrangeClockRow| row_view(r)) == spec_orangeclock_rows(
            *data,
            *items,
            *currency,
            difficulty_text@,
        ),
{
    let mut rows: Vec<OrangeClockRow> = Vec::new();
    let ghost mut view: Seq<(OrangeClockItem, Seq<char>)> = Seq::empty();
    assert(rows@.map_values(|r: OrangeClockRow| row_view(r)) =~= view);
    let ghost price_s = currency.spec_price_from(*data);

    if items.block_height {
        if let Some(h) = data.block_height {
            push_row(&mut rows, OrangeClockItem::BlockHeight, format_thousands(h), Ghost(view));
            proof {
                view = view.push((OrangeClockItem::BlockHeight, spec_format_thousands(h)));
            }
        }
    }
    let price = currency.price_from(data);
    if items.price {
        let item = match currency {
            PriceCurrency::USD => OrangeClockItem::PriceUsd,
            PriceCurrency::EUR => OrangeClockItem::PriceEur,
        };
        if let Some(p) = price {
            push_row(&mut rows, item, format_thousands(p), Ghost(view));
            proof {
                view = view.push((item, spec_format_thousands(p)));
            }
        }
    }
    if items.moscow_time {
        if let Some(p) = price {
            let m = moscow_time(p);
            push_row(&mut rows, OrangeClockItem::MoscowTime, format_thousands(m), Ghost(view));
            proof {
                view = view.push((OrangeClockItem::MoscowTime, spec_format_thousands(m)));
            }
        }
    }
    if items.fees {
        match (data.fee_fastest, data.fee_half_hour, data.fee_hour) {
            (Some(h), Some(m), Some(l)) => {
                let mut text = String::new();
                push_decimal(&mut text, h as u64);
                push_char(&mut text, '/');
                push_decimal(&mut text, m as u64);
                push_char(&mut text, '/');
                push_decimal(&mut text, l as u64);
                let ghost t = decimal(h as nat).push('/') + decimal(m as nat).push('/') + decimal(
                    l as nat,
                );
                assert(text@ =~= t);
                push_row(&mut rows, OrangeClockItem::Fees, text, Ghost(view));
                proof {
                    view = view.push((OrangeClockItem::Fees, t));
                }
            },
            _ => {},
        }
    }
    if items.halving_countdown {
        if let Some(h) = data.block_height {
            let b = blocks_until_halving(h);
            let mut text = String::new();
            push_char(&mut text, '~');
            push_thousands(&mut text, b);
            let ghost t = seq!['~'] + spec_format_thousands(b);
            assert(text@ =~= t);
            push_row(&mut rows, OrangeClockItem::HalvingCountdown, text, Ghost(view));
            proof {
                view = view.push((OrangeClockItem::HalvingCountdown, t));
            }
        }
    }
    if items.difficulty_adjustment {
        if data.difficulty_progress.is_some() && data.difficulty_change.is_some() {
            let mut text = String::new();
            text.append(difficulty_text);
            assert(text@ =~= difficulty_text@);
            push_row(&mut rows, OrangeClockItem::DifficultyAdjustment, text, Ghost(view));
            proof {
                view = view.push((OrangeClockItem::DifficultyAdjustment, difficulty_text@));
            }
        }
    }
    if items.mempool_size {
        if let Some(count) = data.mempool_count {
            let mut text = String::new();
            text.append("Mempool ");
            push_thousands(&mut text, count);
            text.append(" txs");
            let ghost t = "Mempool "@ + spec_format_thousands(count) + " txs"@;
            assert(text@ =~= t);
            push_row(&mut rows, OrangeClockItem::MempoolSize, text, Ghost(view));
            proof {
                view = view.push((OrangeClockItem::MempoolSize, t));
            }
        }
    }
    rows
}

} // verus!

verus! {

/// `a / 2` as `i32` division computes it: rounded toward zero.
pub open spec fn half(a: int) -> int {
    if a >= 0 {
        a / 2
    } else {
        -((-a) / 2)
    }
}

/// The size of a screen and of the font and icons drawn on it.
#[derive(Debug, Clone, Copy, PartialEq, Eq, Structural)]
pub struct LayoutMetrics {
    pub screen_width: i32,
    pub screen_height: i32,
    pub char_width: i32,
    pub char_height: i32,
    /// The height of the icon size in use.
    pub icon_height: i32,
    /// The most rows that fit on the screen.
    pub max_rows: usize,
}

/// The size of one row's icon.
#[derive(Debug, Clone, Copy, PartialEq, Eq, Structural)]
pub struct IconDims {
    pub width: i32,
    pub height: i32,
}

/// Where a row is drawn: its icon's top-left corner, if it has an icon, and
/// the text's baseline start.
#[derive(Debug, Clone, Copy, PartialEq, Eq, Structural)]
pub struct RowPlacement {
    pub icon_x: i32,
    pub icon_y: i32,
    pub has_icon: bool,
    pub text_x: i32,
    pub text_y: i32,
}

/// Whether `v` is a value of `i32`.
pub open spec fn fits_i32(v: int) -> bool {
    i32::MIN <= v <= i32::MAX
}

/// Whether the sums shared by all rows stay within `i32` when `n` rows are
/// shown (nothing is computed when no row is shown).
pub open spec fn layout_head_fits(m: LayoutMetrics, n: int) -> bool {
    n > 0 ==> {
        &&& fits_i32(row_height(m))
        &&& n <= i32::MAX
        &&& fits_i32(n * row_height(m))
        &&& fits_i32(m.screen_height - n * row_height(m))
    }
}

/// The top of row `i` of `n` shown rows.
pub open spec fn row_top(m: LayoutMetrics, n: int, i: int) -> int {
    half(m.screen_height - n * row_height(m)) + i * row_height(m)
}

/// Whether every sum that places row `i` of `n` (with `chars` characters of
/// text and the given icon) stays within `i32`.
pub open spec fn row_fits(m: LayoutMetrics, n: int, i: int, chars: int, icon: Option<IconDims>) -> bool {
    let row_y = row_top(m, n, i);
    let tw = chars * m.char_width;
    &&& fits_i32(i * row_height(m))
    &&& fits_i32(row_y)
    &&& chars <= i32::MAX
    &&& fits_i32(tw)
    &&& (match icon {
        Some(d) => {
            let total = d.width + 6 + tw;
            let x = half(m.screen_width - total);
            &&& fits_i32(d.width + 6)
            &&& fits_i32(total)
            &&& fits_i32(m.screen_width - total)
            &&& fits_i32(x + d.width)
            &&& fits_i32(x + d.width + 6)
            &&& fits_i32(d.height + m.char_height)
            &&& fits_i32(row_y + half(d.height + m.char_height))
        },
        None => {
            &&& fits_i32(m.screen_width - tw)
            &&& fits_i32(m.icon_height + m.char_height)
            &&& fits_i32(row_y + half(m.icon_height + m.char_height))
        },
    })
}

/// Whether the layout of `rows` with `icons` can be computed in `i32`: every
/// sum the layout makes, for the rows that are shown, is an `i32` value.
pub open spec fn layout_fits(
    m: LayoutMetrics,
    rows: Seq<OrangeClockRow>,
    icons: Seq<Option<IconDims>>,
) -> bool {
    let n = shown_rows(m, rows.len() as int);
    &&& layout_head_fits(m, n)
    &&& forall|i: int|
        0 <= i < n ==> #[trigger] row_fits(m, n, i, rows[i].text@.len() as int, icons[i])
}

/// The number of rows that are drawn.
pub open spec fn shown_rows(m: LayoutMetrics, n: int) -> int {
    if n <= m.max_rows {
        n
    } else {
        m.max_rows as int
    }
}

/// The height of every row: the taller of icon and text, and 10 pixels.
pub open spec fn row_height(m: LayoutMetrics) -> int {
    (if m.icon_height >= m.char_height {
        m.icon_height as int
    } else {
        m.char_height as int
    }) + 10
}

/// The placement of row `i` of `n` shown rows, with `chars` characters of
/// text and the given icon: the rows are stacked from a start chosen so the
/// block is centred vertically, and each row is centred horizontally.
pub open spec fn spec_row_placement(
    m: LayoutMetrics,
    n: int,
    i: int,
    chars: int,
    icon: Option<IconDims>,
) -> RowPlacement {
    let row_y = row_top(m, n, i);
    let text_width = chars * m.char_width;
    match icon {
        Some(d) => {
            let x = half(m.screen_width - (d.width + 6 + text_width));
            RowPlacement {
                icon_x: x as i32,
                icon_y: row_y as i32,
                has_icon: true,
                text_x: (x + d.width + 6) as i32,
                text_y: (row_y + half(d.height + m.char_height)) as i32,
            }
        },
        None => {
            let x = half(m.screen_width - text_width);
            RowPlacement {
                icon_x: 0,
                icon_y: 0,
                has_icon: false,
                text_x: x as i32,
                text_y: (row_y + half(m.icon_height + m.char_height)) as i32,
            }
        },
    }
}

/// Halves as `i32` division does.
fn half_exec(a: i32) -> (r: i32)
    ensures
        r == half(a as int),
{
    a / 2
}

/// Halves as integer division does (rounding toward zero).
fn half_wide(a: i64) -> (r: i64)
    ensures
        r == half(a as int),
{
    a / 2
}

/// Whether `v` is a value of `i32`.
fn fits_i32_exec(v: i64) -> (b: bool)
    ensures
        b == fits_i32(v as int),
{
    -0x8000_0000i64 <= v && v <= 0x7fff_ffffi64
}

/// Whether row `i` of `n` can be placed in `i32` (see [`row_fits`]); the
/// shared sums are already known to fit.
fn row_in_range(
    m: &LayoutMetrics,
    n: i64,
    rh: i64,
    start_y: i64,
    i: usize,
    chars: usize,
    icon: Option<IconDims>,
) -> (b: bool)
    requires
        0 < n <= i32::MAX,
        i < n,
        rh == row_height(*m),
        fits_i32(rh as int),
        fits_i32(m.screen_height - n * row_height(*m)),
        start_y == half(m.screen_height - n * row_height(*m)),
    ensures
        b == row_fits(*m, n as int, i as int, chars as int, icon),
{
    let ii = i as i64;
    assert(-0x4000_0000_0000_0000 <= ii * rh <= 0x4000_0000_0000_0000) by (nonlinear_arith)
        requires
            0 <= ii <= 0x8000_0000,
            -0x8000_0000 <= rh <= 0x8000_0000,
    ;
    let irh = ii * rh;
    let row_y = start_y + irh;
    if !fits_i32_exec(irh) || !fits_i32_exec(row_y) || chars > 0x7fff_ffff {
        return false;
    }
    let cw = m.char_width as i64;
    let cc = chars as i64;
    assert(-0x4000_0000_0000_0000 <= cc * cw <= 0x4000_0000_0000_0000) by (nonlinear_arith)
        requires
            0 <= cc <= 0x8000_0000,
            -0x8000_0000 <= cw <= 0x8000_0000,
    ;
    let tw = cc * cw;
    if !fits_i32_exec(tw) {
        return false;
    }
    match icon {
        Some(d) => {
            let w6 = d.width as i64 + 6;
            let total = w6 + tw;
            let rest = m.screen_width as i64 - total;
            let x = half_wide(rest);
            let xw = x + d.width as i64;
            let xw6 = xw + 6;
            let hh = d.height as i64 + m.char_height as i64;
            let ty = row_y + half_wide(hh);
            fits_i32_exec(w6) && fits_i32_exec(total) && fits_i32_exec(rest) && fits_i32_exec(xw)
                && fits_i32_exec(xw6) && fits_i32_exec(hh) && fits_i32_exec(ty)
        },
        None => {
            let rest = m.screen_width as i64 - tw;
            let hh = m.icon_height as i64 + m.char_height as i64;
            let ty = row_y + half_wide(hh);
            fits_i32_exec(rest) && fits_i32_exec(hh) && fits_i32_exec(ty)
        },
    }
}

/// Whether the layout of `rows` with `icons` can be computed in `i32` (see
/// [`layout_fits`]), so that [`orangeclock_layout`] can be called.
pub fn layout_in_range(
    m: &LayoutMetrics,
    rows: &Vec<OrangeClockRow>,
    icons: &Vec<Option<IconDims>>,
) -> (b: bool)
    requires
        icons.len() == rows.len(),
    ensures
        b == layout_fits(*m, rows@, icons@),
{
    let n: usize = if rows.len() <= m.max_rows {
        rows.len()
    } else {
        m.max_rows
    };
    if n == 0 {
        return true;
    }
    let rh: i64 = if m.icon_height >= m.char_height {
        m.icon_height as i64
    } else {
        m.char_height as i64
    } + 10;
    if !fits_i32_exec(rh) || n > 0x7fff_ffff {
        return false;
    }
    let nn = n as i64;
    assert(-0x4000_0000_0000_0000 <= nn * rh <= 0x4000_0000_0000_0000) by (nonlinear_arith)
        requires
            0 <= nn <= 0x8000_0000,
            -0x8000_0000 <= rh <= 0x8000_0000,
    ;
    let total = nn * rh;
    let rest = m.screen_height as i64 - total;
    if !fits_i32_exec(total) || !fits_i32_exec(rest) {
        return false;
    }
    let start_y = half_wide(rest);
    let mut i: usize = 0;
    while i < n
        invariant
            0 <= i <= n <= rows.len(),
            n == shown_rows(*m, rows.len() as int),
            icons.len() == rows.len(),
            0 < nn <= i32::MAX,
            nn == n,
            rh == row_height(*m),
            fits_i32(rh as int),
            layout_head_fits(*m, n as int),
            start_y == half(m.screen_height - nn * row_height(*m)),
            forall|k: int|
                0 <= k < i ==> #[trigger] row_fits(
                    *m,
                    n as int,
                    k,
                    rows@[k].text@.len() as int,
                    icons@[k],
                ),
        decreases n - i,
    {
        let chars = rows[i].text.as_str().unicode_len();
        if !row_in_range(m, nn, rh, start_y, i, chars, icons[i]) {
            assert(!row_fits(*m, n as int, i as int, rows@[i as int].text@.len() as int, icons@[i as int]));
            return false;
        }
        i += 1;
    }
    true
}

/// Where the idle screen's rows go (at most `max_rows` of them); `icons`
/// gives each row's icon, if it has one. The rows are stacked and centred
/// on the screen as `i32` arithmetic places them, which requires every sum
/// to be an `i32` value.
pub fn orangeclock_layout(
    m: &LayoutMetrics,
    rows: &Vec<OrangeClockRow>,
    icons: &Vec<Option<IconDims>>,
) -> (placements: Vec<RowPlacement>)
    requires
        icons.len() == rows.len(),
        layout_fits(*m, rows@, icons@),
    ensures
        placements.len() == shown_rows(*m, rows.len() as int),
        forall|i: int|
            0 <= i < placements.len() ==> #[trigger] placements@[i] == spec_row_placement(
                *m,
                placements.len() as int,
                i,
                rows@[i].text@.len() as int,
                icons@[i],
            ),
{
    let n: usize = if rows.len() <= m.max_rows {
        rows.len()
    } else {
        m.max_rows
    };
    let mut placements: Vec<RowPlacement> = Vec::new();
    if n == 0 {
        return placements;
    }
    let rh: i32 = if m.icon_height >= m.char_height {
        m.icon_height
    } else {
        m.char_height
    } + 10;
    let total_height: i32 = n as i32 * rh;
    let start_y = half_exec(m.screen_height - total_height);
    let mut i: usize = 0;
    while i < n
        invariant
            0 <= i <= n <= rows.len(),
            n == shown_rows(*m, rows.len() as int),
            icons.len() == rows.len(),
            layout_fits(*m, rows@, icons@),
            rh == row_height(*m),
            start_y == half(m.screen_height - n * rh),
            placements.len() == i,
            forall|k: int|
                0 <= k < i ==> #[trigger] placements@[k] == spec_row_placement(
                    *m,
                    n as int,
                    k,
                    rows@[k].text@.len() as int,
                    icons@[k],
                ),
        decreases n - i,
    {
        let chars = rows[i].text.as_str().unicode_len();
        assert(row_fits(*m, n as int, i as int, rows@[i as int].text@.len() as int, icons@[i as int]));
        let row_y: i32 = start_y + i as i32 * rh;
        let text_width: i32 = chars as i32 * m.char_width;
        let p = match icons[i] {
            Some(d) => {
                let x = half_exec(m.screen_width - (d.width + 6 + text_width));
                RowPlacement {
                    icon_x: x,
                    icon_y: row_y,
                    has_icon: true,
                    text_x: x + d.width + 6,
                    text_y: row_y + half_exec(d.height + m.char_height),
                }
            },
            None => {
                let x = half_exec(m.screen_width - text_width);
                RowPlacement {
                    icon_x: 0,
                    icon_y: 0,
                    has_icon: false,
                    text_x: x,
                    text_y: row_y + half_exec(m.icon_height + m.char_height),
                }
            },
        };
        placements.push(p);
        i += 1;
    }
    placements
}

} // verus!

verus! {

/// The screen families, by how the QR code is placed on them.
#[derive(Debug, Clone, Copy, PartialEq, Eq, Structural)]
pub enum QrScreen {
    /// 1.54 inch, 200x200: centred in a 150 pixel square below a title line.
    Small1in54,
    /// 2.7 inch, 264x176: centred on the screen.
    Wide2in7,
    /// 2.13 inch, 250x122: against the right edge, 10 pixels in.
    Narrow2in13,
}

/// Where a QR code's top-left module goes and how large a module is.
#[derive(Debug, Clone, Copy, PartialEq, Eq, Structural)]
pub struct QrPlacement {
    pub start_x: i32,
    pub start_y: i32,
    pub module_size: i32,
}

/// The placement of a QR code of `qr_size` modules a side on `screen`.
pub open spec fn spec_qr_placement(screen: QrScreen, qr_size: int) -> QrPlacement {
    match screen {
        QrScreen::Small1in54 => QrPlacement {
            start_x: half(150 - qr_size * 3) as i32,
            start_y: (20 + half(150 - qr_size * 3)) as i32,
            module_size: 3,
        },
        QrScreen::Wide2in7 => QrPlacement {
            start_x: half(264 - qr_size * 3) as i32,
            start_y: half(176 - qr_size * 3) as i32,
            module_size: 3,
        },
        QrScreen::Narrow2in13 => QrPlacement {
            start_x: (240 - qr_size * 2) as i32,
            start_y: half(122 - qr_size * 2) as i32,
            module_size: 2,
        },
    }
}

/// The size of one QR module on `screen`, in pixels.
pub open spec fn qr_module_size(screen: QrScreen) -> int {
    match screen {
        QrScreen::Narrow2in13 => 2,
        _ => 3,
    }
}

/// Whether the placement of a QR code of `qr_size` modules a side on
/// `screen` can be computed in `i32`: the code's width in pixels is an `i32`
/// value (the other sums then are too).
pub open spec fn qr_size_fits(screen: QrScreen, qr_size: int) -> bool {
    qr_size * qr_module_size(screen) <= i32::MAX
}

/// Whether [`qr_placement`] can be called (see [`qr_size_fits`]).
pub fn qr_size_in_range(screen: QrScreen, qr_size: usize) -> (b: bool)
    ensures
        b == qr_size_fits(screen, qr_size as int),
{
    match screen {
        QrScreen::Narrow2in13 => qr_size <= 1073741823,
        _ => qr_size <= 715827882,
    }
}

/// Where the withdrawal QR code of `qr_size` modules a side is drawn.
pub fn qr_placement(screen: QrScreen, qr_size: usize) -> (p: QrPlacement)
    requires
        qr_size_fits(screen, qr_size as int),
    ensures
        p == spec_qr_placement(screen, qr_size as int),
{
    let q = qr_size as i32;
    match screen {
        QrScreen::Small1in54 => QrPlacement {
            start_x: half_exec(150 - q * 3),
            start_y: 20 + half_exec(150 - q * 3),
            module_size: 3,
        },
        QrScreen::Wide2in7 => QrPlacement {
            start_x: half_exec(264 - q * 3),
            start_y: half_exec(176 - q * 3),
            module_size: 3,
        },
        QrScreen::Narrow2in13 => QrPlacement {
            start_x: 240 - q * 2,
            start_y: half_exec(122 - q * 2),
            module_size: 2,
        },
    }
}

/// One square of a drawn QR code: its top-left corner, and whether it is dark.
#[derive(Debug, Clone, Copy, PartialEq, Eq, Structural)]
pub struct QrModule {
    pub x: i32,
    pub y: i32,
    pub dark: bool,
}

/// The square of the module in column `x` of row `y`.
pub open spec fn module_at(p: QrPlacement, x: int, y: int, dark: bool) -> QrModule {
    QrModule {
        x: (p.start_x + x * p.module_size) as i32,
        y: (p.start_y + y * p.module_size) as i32,
        dark,
    }
}

/// The squares of row `y`, left to right.
pub open spec fn row_modules(p: QrPlacement, row: Seq<bool>, y: int) -> Seq<QrModule>
    decreases row.len(),
{
    if row.len() == 0 {
        Seq::empty()
    } else {
        row_modules(p, row.drop_last(), y).push(
            module_at(p, row.len() - 1, y, row.last()),
        )
    }
}

/// The squares of the matrix, row by row from the top.
pub open spec fn matrix_modules(p: QrPlacement, m: Seq<Seq<bool>>) -> Seq<QrModule>
    decreases m.len(),
{
    if m.len() == 0 {
        Seq::empty()
    } else {
        matrix_modules(p, m.drop_last()) + row_modules(p, m.last(), m.len() - 1)
    }
}

/// Whether the square of the module in column `x` of row `y` is computed
/// in `i32`: the indices, their offsets and the coordinates are `i32` values.
pub open spec fn module_fits(p: QrPlacement, x: int, y: int) -> bool {
    &&& x <= i32::MAX
    &&& y <= i32::MAX
    &&& fits_i32(x * p.module_size)
    &&& fits_i32(y * p.module_size)
    &&& fits_i32(p.start_x + x * p.module_size)
    &&& fits_i32(p.start_y + y * p.module_size)
}

/// Whether every square of the matrix is computed in `i32`.
pub open spec fn modules_fit(p: QrPlacement, m: Seq<Seq<bool>>) -> bool {
    forall|y: int, x: int|
        0 <= y < m.len() && 0 <= x < m[y].len() ==> #[trigger] module_fits(p, x, y)
}

/// Whether the square of the module in column `x` of row `y` is computed in
/// `i32` (see [`module_fits`]).
fn module_in_range(p: &QrPlacement, x: usize, y: usize) -> (b: bool)
    ensures
        b == module_fits(*p, x as int, y as int),
{
    if x > 0x7fff_ffff || y > 0x7fff_ffff {
        return false;
    }
    let xx = x as i64;
    let yy = y as i64;
    let ms = p.module_size as i64;
    assert(-0x4000_0000_0000_0000 <= xx * ms <= 0x4000_0000_0000_0000) by (nonlinear_arith)
        requires
            0 <= xx <= 0x8000_0000,
            -0x8000_0000 <= ms <= 0x8000_0000,
    ;
    assert(-0x4000_0000_0000_0000 <= yy * ms <= 0x4000_0000_0000_0000) by (nonlinear_arith)
        requires
            0 <= yy <= 0x8000_0000,
            -0x8000_0000 <= ms <= 0x8000_0000,
    ;
    let dx = xx * ms;
    let dy = yy * ms;
    fits_i32_exec(dx) && fits_i32_exec(dy) && fits_i32_exec(p.start_x as i64 + dx)
        && fits_i32_exec(p.start_y as i64 + dy)
}

/// Whether [`qr_modules`] can be called for `matrix` at `p` (see
/// [`modules_fit`]).
pub fn qr_modules_in_range(matrix: &Vec<Vec<bool>>, p: &QrPlacement) -> (b: bool)
    ensures
        b == modules_fit(*p, matrix@.map_values(|r: Vec<bool>| r@)),
{
    let ghost m = matrix@.map_values(|r: Vec<bool>| r@);
    let mut y: usize = 0;
    while y < matrix.len()
        invariant
            m == matrix@.map_values(|r: Vec<bool>| r@),
            0 <= y <= matrix.len(),
            forall|yy: int, xx: int|
                0 <= yy < y && 0 <= xx < m[yy].len() ==> #[trigger] module_fits(*p, xx, yy),
        decreases matrix.len() - y,
    {
        let row = &matrix[y];
        assert(m[y as int] == row@);
        let mut x: usize = 0;
        while x < row.len()
            invariant
                m == matrix@.map_values(|r: Vec<bool>| r@),
                0 <= y < matrix.len(),
                row == &matrix@[y as int],
                m[y as int] == row@,
                0 <= x <= row.len(),
                forall|yy: int, xx: int|
                    0 <= yy < y && 0 <= xx < m[yy].len() ==> #[trigger] module_fits(*p, xx, yy),
                forall|xx: int| 0 <= xx < x ==> #[trigger] module_fits(*p, xx, y as int),
            decreases row.len() - x,
        {
            if !module_in_range(p, x, y) {
                return false;
            }
            x += 1;
        }
        y += 1;
    }
    true
}

/// The squares to draw for a QR matrix placed at `p`: every module, dark or
/// light, in rows from the top and each row from the left.
pub fn qr_modules(matrix: &Vec<Vec<bool>>, p: &QrPlacement) -> (mods: Vec<QrModule>)
    requires
        modules_fit(*p, matrix@.map_values(|r: Vec<bool>| r@)),
    ensures
        mods@ == matrix_modules(*p, matrix@.map_values(|r: Vec<bool>| r@)),
{
    let ghost m = matrix@.map_values(|r: Vec<bool>| r@);
    let mut mods: Vec<QrModule> = Vec::new();
    let mut y: usize = 0;
    while y < matrix.len()
        invariant
            m == matrix@.map_values(|r: Vec<bool>| r@),
            modules_fit(*p, m),
            0 <= y <= matrix.len(),
            mods@ == matrix_modules(*p, m.take(y as int)),
        decreases matrix.len() - y,
    {
        let row = &matrix[y];
        assert(m[y as int] == row@);
        let ghost before = mods@;
        let mut x: usize = 0;
        while x < row.len()
            invariant
                m == matrix@.map_values(|r: Vec<bool>| r@),
                modules_fit(*p, m),
                0 <= y < matrix.len(),
                row == &matrix@[y as int],
                m[y as int] == row@,
                0 <= x <= row.len(),
                before == matrix_modules(*p, m.take(y as int)),
                mods@ == before + row_modules(*p, row@.take(x as int), y as int),
            decreases row.len() - x,
        {
            assert(module_fits(*p, x as int, y as int));
            let md = QrModule {
                x: p.start_x + x as i32 * p.module_size,
                y: p.start_y + y as i32 * p.module_size,
                dark: row[x],
            };
            assert(row@.take(x + 1).drop_last() =~= row@.take(x as int));
            mods.push(md);
            x += 1;
        }
        assert(row@.take(x as int) =~= row@);
        assert(m.take(y + 1).drop_last() =~= m.take(y as int));
        y += 1;
    }
    assert(m.take(y as int) =~= m);
    mods
}

} // verus!

verus! {

/// The position of an item's row on the idle screen, counted from the top:
/// block height, price, Moscow time, fees, halving countdown, difficulty
/// adjustment, mempool size.
pub open spec fn item_rank(item: OrangeClockItem) -> int {
    match item {
        OrangeClockItem::BlockHeight => 0,
        OrangeClockItem::PriceUsd => 1,
        OrangeClockItem::PriceEur => 1,
        OrangeClockItem::MoscowTime => 2,
        OrangeClockItem::Fees => 3,
        OrangeClockItem::HalvingCountdown => 4,
        OrangeClockItem::DifficultyAdjustment => 5,
        OrangeClockItem::MempoolSize => 6,
    }
}

/// Whether some row of `rows` shows `item`.
pub open spec fn shows(rows: Seq<(OrangeClockItem, Seq<char>)>, item: OrangeClockItem) -> bool {
    exists|i: int| 0 <= i < rows.len() && (#[trigger] rows[i]).0 == item
}

/// Whether `row` shows what its item stands for: the block height and
/// prices with thousands separators, the Moscow time as satoshis per unit
/// of the chosen currency (100,000,000 divided by the price, or 0 for a zero
/// price), the three fees separated by '/', the halving countdown as "~" and
/// the blocks left to the next multiple of 210,000, the difficulty text as
/// given, and the mempool size as "Mempool N txs".
pub open spec fn row_text_ok(
    data: MempoolData,
    currency: PriceCurrency,
    difficulty_text: Seq<char>,
    row: (OrangeClockItem, Seq<char>),
) -> bool {
    let price = match currency {
        PriceCurrency::USD => data.price_usd,
        PriceCurrency::EUR => data.price_eur,
    };
    match row.0 {
        OrangeClockItem::BlockHeight => row.1 == spec_format_thousands(data.block_height.unwrap()),
        OrangeClockItem::PriceUsd => row.1 == spec_format_thousands(data.price_usd.unwrap()),
        OrangeClockItem::PriceEur => row.1 == spec_format_thousands(data.price_eur.unwrap()),
        OrangeClockItem::MoscowTime => if price.unwrap() == 0 {
            row.1 == spec_format_thousands(0)
        } else {
            row.1 == spec_format_thousands((100_000_000int / (price.unwrap() as int)) as u64)
        },
        OrangeClockItem::Fees => row.1 == decimal(data.fee_fastest.unwrap() as nat) + seq!['/']
            + decimal(data.fee_half_hour.unwrap() as nat) + seq!['/'] + decimal(
            data.fee_hour.unwrap() as nat,
        ),
        OrangeClockItem::HalvingCountdown => row.1 == seq!['~'] + spec_format_thousands(
            (210_000 - data.block_height.unwrap() % 210_000) as u64,
        ),
        OrangeClockItem::DifficultyAdjustment => row.1 == difficulty_text,
        OrangeClockItem::MempoolSize => row.1 == seq!['M', 'e', 'm', 'p', 'o', 'o', 'l', ' ']
            + spec_format_thousands(data.mempool_count.unwrap()) + seq![' ', 't', 'x', 's'],
    }
}

proof fn lemma_with_row_shows(
    r: Seq<(OrangeClockItem, Seq<char>)>,
    on: bool,
    it: OrangeClockItem,
    t: Seq<char>,
)
    ensures
        forall|x: OrangeClockItem|
            #[trigger] shows(with_row(r, on, it, t), x) <==> (shows(r, x) || (on && it == x)),
{
    let w = with_row(r, on, it, t);
    if on {
        assert(w == r.push((it, t)));
        assert forall|x: OrangeClockItem| shows(w, x) <==> (shows(r, x) || it == x) by {
            if shows(r, x) {
                let i = choose|i: int| 0 <= i < r.len() && (#[trigger] r[i]).0 == x;
                assert(w[i] == r[i]);
            }
            if it == x {
                assert(w[r.len() as int] == (it, t));
            }
            if shows(w, x) {
                let i = choose|i: int| 0 <= i < w.len() && (#[trigger] w[i]).0 == x;
                if i < r.len() {
                    assert(w[i] == r[i]);
                }
            }
        }
    }
}

proof fn lemma_with_row_rest(
    r: Seq<(OrangeClockItem, Seq<char>)>,
    on: bool,
    it: OrangeClockItem,
    t: Seq<char>,
    data: MempoolData,
    currency: PriceCurrency,
    difficulty_text: Seq<char>,
)
    requires
        forall|i: int, j: int| 0 <= i < j < r.len() ==> item_rank(r[i].0) < item_rank(r[j].0),
        forall|i: int| 0 <= i < r.len() ==> item_rank(#[trigger] r[i].0) < item_rank(it),
        forall|i: int| 0 <= i < r.len() ==> row_text_ok(data, currency, difficulty_text, #[trigger] r[i]),
        on ==> row_text_ok(data, currency, difficulty_text, (it, t)),
    ensures
        ({
            let w = with_row(r, on, it, t);
            &&& forall|i: int, j: int| 0 <= i < j < w.len() ==> item_rank(w[i].0) < item_rank(w[j].0)
            &&& forall|i: int| 0 <= i < w.len() ==> item_rank(#[trigger] w[i].0) <= item_rank(it)
            &&& forall|i: int| 0 <= i < w.len() ==> row_text_ok(data, currency, difficulty_text, #[trigger] w[i])
        }),
{
}

/// The idle screen shows a row for an item exactly when the item is enabled
/// and the figures it needs were fetched: the price and the Moscow time each
/// under their own setting, both from the price in the chosen currency.
pub proof fn law_rows_shown_when_enabled_and_fetched(
    data: MempoolData,
    items: DisplayItems,
    currency: PriceCurrency,
    difficulty_text: Seq<char>,
)
    ensures
        ({
            let rows = spec_orangeclock_rows(data, items, currency, difficulty_text);
            let price = match currency {
                PriceCurrency::USD => data.price_usd,
                PriceCurrency::EUR => data.price_eur,
            };
            &&& shows(rows, OrangeClockItem::BlockHeight) <==> (items.block_height
                && data.block_height is Some)
            &&& shows(rows, OrangeClockItem::PriceUsd) <==> (items.price && currency
                == PriceCurrency::USD && data.price_usd is Some)
            &&& shows(rows, OrangeClockItem::PriceEur) <==> (items.price && currency
                == PriceCurrency::EUR && data.price_eur is Some)
            &&& shows(rows, OrangeClockItem::MoscowTime) <==> (items.moscow_time && price is Some)
            &&& shows(rows, OrangeClockItem::Fees) <==> (items.fees && data.fee_fastest is Some
                && data.fee_half_hour is Some && data.fee_hour is Some)
            &&& shows(rows, OrangeClockItem::HalvingCountdown) <==> (items.halving_countdown
                && data.block_height is Some)
            &&& shows(rows, OrangeClockItem::DifficultyAdjustment) <==> (
            items.difficulty_adjustment && data.difficulty_progress is Some
                && data.difficulty_change is Some)
            &&& shows(rows, OrangeClockItem::MempoolSize) <==> (items.mempool_size
                && data.mempool_count is Some)
        }),
{
    lemma_rows_shown(data, items, currency, difficulty_text);
}

/// The rows come in the screen's fixed order, each item at most once.
pub proof fn law_rows_in_screen_order(
    data: MempoolData,
    items: DisplayItems,
    currency: PriceCurrency,
    difficulty_text: Seq<char>,
)
    ensures
        ({
            let rows = spec_orangeclock_rows(data, items, currency, difficulty_text);
            forall|i: int, j: int|
                0 <= i < j < rows.len() ==> item_rank(rows[i].0) < item_rank(rows[j].0)
        }),
{
    lemma_rows_ordered(data, items, currency, difficulty_text);
}

/// Every row shows what its item stands for (see [`row_text_ok`]).
pub proof fn law_row_texts(
    data: MempoolData,
    items: DisplayItems,
    currency: PriceCurrency,
    difficulty_text: Seq<char>,
)
    ensures
        ({
            let rows = spec_orangeclock_rows(data, items, currency, difficulty_text);
            forall|i: int|
                0 <= i < rows.len() ==> row_text_ok(data, currency, difficulty_text, #[trigger] rows[i])
        }),
{
    lemma_rows_ordered(data, items, currency, difficulty_text);
}

#[verifier::rlimit(40)]
proof fn lemma_rows_shown(
    data: MempoolData,
    items: DisplayItems,
    currency: PriceCurrency,
    difficulty_text: Seq<char>,
)
    ensures
        ({
            let rows = spec_orangeclock_rows(data, items, currency, difficulty_text);
            let price = match currency {
                PriceCurrency::USD => data.price_usd,
                PriceCurrency::EUR => data.price_eur,
            };
            &&& shows(rows, OrangeClockItem::BlockHeight) <==> (items.block_height
                && data.block_height is Some)
            &&& shows(rows, OrangeClockItem::PriceUsd) <==> (items.price && currency
                == PriceCurrency::USD && data.price_usd is Some)
            &&& shows(rows, OrangeClockItem::PriceEur) <==> (items.price && currency
                == PriceCurrency::EUR && data.price_eur is Some)
            &&& shows(rows, OrangeClockItem::MoscowTime) <==> (items.moscow_time && price is Some)
            &&& shows(rows, OrangeClockItem::Fees) <==> (items.fees && data.fee_fastest is Some
                && data.fee_half_hour is Some && data.fee_hour is Some)
            &&& shows(rows, OrangeClockItem::HalvingCountdown) <==> (items.halving_countdown
                && data.block_height is Some)
            &&& shows(rows, OrangeClockItem::DifficultyAdjustment) <==> (
            items.difficulty_adjustment && data.difficulty_progress is Some
                && data.difficulty_change is Some)
            &&& shows(rows, OrangeClockItem::MempoolSize) <==> (items.mempool_size
                && data.mempool_count is Some)
        }),
{
    let price = currency.spec_price_from(data);
    let e = Seq::<(OrangeClockItem, Seq<char>)>::empty();
    let on1 = items.block_height && data.block_height is Some;
    let t1 = spec_format_thousands(data.block_height.unwrap());
    lemma_with_row_shows(e, on1, OrangeClockItem::BlockHeight, t1);
    let r1 = with_row(e, on1, OrangeClockItem::BlockHeight, t1);
    let on2 = items.price && price is Some;
    let t2 = spec_format_thousands(price.unwrap());
    lemma_with_row_shows(r1, on2, price_item(currency), t2);
    let r2 = with_row(r1, on2, price_item(currency), t2);
    let on3 = items.moscow_time && price is Some;
    let t3 = spec_format_thousands(spec_moscow_time(price.unwrap()));
    lemma_with_row_shows(r2, on3, OrangeClockItem::MoscowTime, t3);
    let r3 = with_row(r2, on3, OrangeClockItem::MoscowTime, t3);
    let on4 = items.fees && data.fee_fastest is Some && data.fee_half_hour is Some
        && data.fee_hour is Some;
    let t4 = decimal(data.fee_fastest.unwrap() as nat).push('/') + decimal(
        data.fee_half_hour.unwrap() as nat,
    ).push('/') + decimal(data.fee_hour.unwrap() as nat);
    assert(t4 =~= decimal(data.fee_fastest.unwrap() as nat) + seq!['/'] + decimal(
        data.fee_half_hour.unwrap() as nat,
    ) + seq!['/'] + decimal(data.fee_hour.unwrap() as nat));
    lemma_with_row_shows(r3, on4, OrangeClockItem::Fees, t4);
    let r4 = with_row(r3, on4, OrangeClockItem::Fees, t4);
    let on5 = items.halving_countdown && data.block_height is Some;
    let h = data.block_height.unwrap();
    let t5 = seq!['~'] + spec_format_thousands(spec_blocks_until_halving(h));
    vstd::arithmetic::div_mod::lemma_fundamental_div_mod(h as int, 210_000);
    assert((h / 210_000 + 1) * 210_000 - h == 210_000 - h % 210_000);
    lemma_with_row_shows(r4, on5, OrangeClockItem::HalvingCountdown, t5);
    let r5 = with_row(r4, on5, OrangeClockItem::HalvingCountdown, t5);
    let on6 = items.difficulty_adjustment && data.difficulty_progress is Some
        && data.difficulty_change is Some;
    lemma_with_row_shows(r5, on6, OrangeClockItem::DifficultyAdjustment, difficulty_text);
    let r6 = with_row(r5, on6, OrangeClockItem::DifficultyAdjustment, difficulty_text);
    let on7 = items.mempool_size && data.mempool_count is Some;
    let t7 = "Mempool "@ + spec_format_thousands(data.mempool_count.unwrap()) + " txs"@;
    reveal_strlit("Mempool ");
    reveal_strlit(" txs");
    assert(t7 =~= seq!['M', 'e', 'm', 'p', 'o', 'o', 'l', ' '] + spec_format_thousands(
        data.mempool_count.unwrap(),
    ) + seq![' ', 't', 'x', 's']);
    lemma_with_row_shows(r6, on7, OrangeClockItem::MempoolSize, t7);
    let rows = with_row(r6, on7, OrangeClockItem::MempoolSize, t7);
    assert(rows == spec_orangeclock_rows(data, items, currency, difficulty_text));
    assert forall|x: OrangeClockItem| !shows(e, x) by {}
    assert(shows(rows, OrangeClockItem::BlockHeight) <==> on1);
    assert(shows(rows, OrangeClockItem::PriceUsd) <==> (items.price && currency
                == PriceCurrency::USD && data.price_usd is Some));
    assert(shows(rows, OrangeClockItem::PriceEur) <==> (items.price && currency
                == PriceCurrency::EUR && data.price_eur is Some));
    assert(shows(rows, OrangeClockItem::MoscowTime) <==> on3);
    assert(shows(rows, OrangeClockItem::Fees) <==> on4);
    assert(shows(rows, OrangeClockItem::HalvingCountdown) <==> on5);
    assert(shows(rows, OrangeClockItem::DifficultyAdjustment) <==> on6);
    assert(shows(rows, OrangeClockItem::MempoolSize) <==> on7);
}


proof fn lemma_rows_ordered(
    data: MempoolData,
    items: DisplayItems,
    currency: PriceCurrency,
    difficulty_text: Seq<char>,
)
    ensures
        ({
            let rows = spec_orangeclock_rows(data, items, currency, difficulty_text);
            &&& forall|i: int, j: int|
                0 <= i < j < rows.len() ==> item_rank(rows[i].0) < item_rank(rows[j].0)
            &&& forall|i: int|
                0 <= i < rows.len() ==> row_text_ok(data, currency, difficulty_text, #[trigger] rows[i])
        }),
{
    let price = currency.spec_price_from(data);
    let e = Seq::<(OrangeClockItem, Seq<char>)>::empty();
    let on1 = items.block_height && data.block_height is Some;
    let t1 = spec_format_thousands(data.block_height.unwrap());
    lemma_with_row_rest(e, on1, OrangeClockItem::BlockHeight, t1, data, currency, difficulty_text);
    let r1 = with_row(e, on1, OrangeClockItem::BlockHeight, t1);
    let on2 = items.price && price is Some;
    let t2 = spec_format_thousands(price.unwrap());
    lemma_with_row_rest(r1, on2, price_item(currency), t2, data, currency, difficulty_text);
    let r2 = with_row(r1, on2, price_item(currency), t2);
    let on3 = items.moscow_time && price is Some;
    let t3 = spec_format_thousands(spec_moscow_time(price.unwrap()));
    lemma_with_row_rest(r2, on3, OrangeClockItem::MoscowTime, t3, data, currency, difficulty_text);
    let r3 = with_row(r2, on3, OrangeClockItem::MoscowTime, t3);
    let on4 = items.fees && data.fee_fastest is Some && data.fee_half_hour is Some
        && data.fee_hour is Some;
    let t4 = decimal(data.fee_fastest.unwrap() as nat).push('/') + decimal(
        data.fee_half_hour.unwrap() as nat,
    ).push('/') + decimal(data.fee_hour.unwrap() as nat);
    assert(t4 =~= decimal(data.fee_fastest.unwrap() as nat) + seq!['/'] + decimal(
        data.fee_half_hour.unwrap() as nat,
    ) + seq!['/'] + decimal(data.fee_hour.unwrap() as nat));
    lemma_with_row_rest(r3, on4, OrangeClockItem::Fees, t4, data, currency, difficulty_text);
    let r4 = with_row(r3, on4, OrangeClockItem::Fees, t4);
    let on5 = items.halving_countdown && data.block_height is Some;
    let h = data.block_height.unwrap();
    let t5 = seq!['~'] + spec_format_thousands(spec_blocks_until_halving(h));
    vstd::arithmetic::div_mod::lemma_fundamental_div_mod(h as int, 210_000);
    assert((h / 210_000 + 1) * 210_000 - h == 210_000 - h % 210_000);
    lemma_with_row_rest(r4, on5, OrangeClockItem::HalvingCountdown, t5, data, currency, difficulty_text);
    let r5 = with_row(r4, on5, OrangeClockItem::HalvingCountdown, t5);
    let on6 = items.difficulty_adjustment && data.difficulty_progress is Some
        && data.difficulty_change is Some;
    lemma_with_row_rest(
        r5,
        on6,
        OrangeClockItem::DifficultyAdjustment,
        difficulty_text,
        data,
        currency,
        difficulty_text,
    );
    let r6 = with_row(r5, on6, OrangeClockItem::DifficultyAdjustment, difficulty_text);
    let on7 = items.mempool_size && data.mempool_count is Some;
    let t7 = "Mempool "@ + spec_format_thousands(data.mempool_count.unwrap()) + " txs"@;
    reveal_strlit("Mempool ");
    reveal_strlit(" txs");
    assert(t7 =~= seq!['M', 'e', 'm', 'p', 'o', 'o', 'l', ' '] + spec_format_thousands(
        data.mempool_count.unwrap(),
    ) + seq![' ', 't', 'x', 's']);
    lemma_with_row_rest(r6, on7, OrangeClockItem::MempoolSize, t7, data, currency, difficulty_text);
    let rows = with_row(r6, on7, OrangeClockItem::MempoolSize, t7);
    assert(rows == spec_orangeclock_rows(data, items, currency, difficulty_text));
}

} // verus!
