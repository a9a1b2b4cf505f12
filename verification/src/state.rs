use vstd::prelude::*;

verus! {

/// The ATM's top-level state; amounts are in cents.
#[derive(Debug, Clone, PartialEq, Eq, Structural)]
pub enum AppState {
    Idle,
    CountingCoins(u64),
    WithdrawReady(u64),
}

/// What ends a wait of the main loop.
#[derive(Debug, Clone, Copy, PartialEq, Eq, Structural)]
pub enum AtmEvent {
    /// A coin worth the given number of cents was accepted.
    CoinInserted(u64),
    /// The button was pressed.
    ButtonPressed,
    /// No coin came within the coin timeout while counting.
    CoinTimeout,
    /// The withdrawal QR code was shown for the whole display timeout.
    QrTimeout,
}

/// The state that follows `state` on `event`.
pub open spec fn spec_next_state(state: AppState, event: AtmEvent) -> AppState {
    match (state, event) {
        (AppState::Idle, AtmEvent::CoinInserted(c)) => AppState::CountingCoins(c),
        (AppState::Idle, _) => AppState::Idle,
        (AppState::CountingCoins(a), AtmEvent::CoinInserted(c)) => AppState::CountingCoins(
            (a + c) as u64,
        ),
        (AppState::CountingCoins(a), AtmEvent::ButtonPressed) => AppState::WithdrawReady(a),
        (AppState::CountingCoins(a), AtmEvent::CoinTimeout) => AppState::WithdrawReady(a),
        (AppState::CountingCoins(a), AtmEvent::QrTimeout) => AppState::CountingCoins(a),
        (AppState::WithdrawReady(_), AtmEvent::ButtonPressed) => AppState::Idle,
        (AppState::WithdrawReady(_), AtmEvent::QrTimeout) => AppState::Idle,
        (AppState::WithdrawReady(a), _) => AppState::WithdrawReady(a),
    }
}

/// Whether `event` can be applied to `state` without the amount overflowing.
pub open spec fn fits(state: AppState, event: AtmEvent) -> bool {
    match (state, event) {
        (AppState::CountingCoins(a), AtmEvent::CoinInserted(c)) => a + c <= u64::MAX,
        _ => true,
    }
}

impl AppState {
    /// The ATM's transition on `event`: a coin in Idle starts counting, coins
    /// add up while counting, the button or the coin timeout turn the total
    /// into a withdrawal, and the button or the QR timeout end a withdrawal.
    pub fn next(&self, event: AtmEvent) -> (next: AppState)
        requires
            fits(*self, event),
        ensures
            next == spec_next_state(*self, event),
    {
        match (self, event) {
            (AppState::Idle, AtmEvent::CoinInserted(c)) => AppState::CountingCoins(c),
            (AppState::Idle, _) => AppState::Idle,
            (AppState::CountingCoins(a), AtmEvent::CoinInserted(c)) => AppState::CountingCoins(
                *a + c,
            ),
            (AppState::CountingCoins(a), AtmEvent::ButtonPressed) => AppState::WithdrawReady(*a),
            (AppState::CountingCoins(a), AtmEvent::CoinTimeout) => AppState::WithdrawReady(*a),
            (AppState::CountingCoins(a), AtmEvent::QrTimeout) => AppState::CountingCoins(*a),
            (AppState::WithdrawReady(_), AtmEvent::ButtonPressed) => AppState::Idle,
            (AppState::WithdrawReady(_), AtmEvent::QrTimeout) => AppState::Idle,
            (AppState::WithdrawReady(a), _) => AppState::WithdrawReady(*a),
        }
    }
}

} // verus!

verus! {

/// The state reached from `state` through `events`, one transition each.
pub open spec fn run(state: AppState, events: Seq<AtmEvent>) -> AppState
    decreases events.len(),
{
    if events.len() == 0 {
        state
    } else {
        run(spec_next_state(state, events[0]), events.drop_first())
    }
}

/// The sum of the given coin values.
pub open spec fn coins_total(coins: Seq<u64>) -> int
    decreases coins.len(),
{
    if coins.len() == 0 {
        0
    } else {
        coins[0] + coins_total(coins.drop_first())
    }
}

/// The events of inserting the given coins, one after the other.
pub open spec fn insert_events(coins: Seq<u64>) -> Seq<AtmEvent> {
    coins.map_values(|c: u64| AtmEvent::CoinInserted(c))
}

proof fn lemma_coins_total_nonneg(coins: Seq<u64>)
    ensures
        coins_total(coins) >= 0,
    decreases coins.len(),
{
    if coins.len() > 0 {
        lemma_coins_total_nonneg(coins.drop_first());
    }
}

proof fn lemma_counting_run(a: u64, coins: Seq<u64>, finish: AtmEvent)
    requires
        a + coins_total(coins) <= u64::MAX,
        finish == AtmEvent::ButtonPressed || finish == AtmEvent::CoinTimeout,
    ensures
        run(AppState::CountingCoins(a), insert_events(coins).push(finish))
            == AppState::WithdrawReady((a + coins_total(coins)) as u64),
    decreases coins.len(),
{
    let evs = insert_events(coins).push(finish);
    if coins.len() == 0 {
        assert(evs[0] == finish);
        assert(evs.drop_first() =~= Seq::<AtmEvent>::empty());
        assert(run(AppState::WithdrawReady(a), evs.drop_first()) == AppState::WithdrawReady(a));
    } else {
        let rest = coins.drop_first();
        assert(evs[0] == AtmEvent::CoinInserted(coins[0]));
        assert(evs.drop_first() =~= insert_events(rest).push(finish));
        lemma_coins_total_nonneg(rest);
        lemma_counting_run((a + coins[0]) as u64, rest, finish);
    }
}

/// A deposit session: starting from Idle, inserting one or more coins and
/// then pressing the button (or letting the coin timeout run out) makes a
/// withdrawal of exactly the sum of the inserted coins.
pub proof fn law_deposit_total(coins: Seq<u64>, finish: AtmEvent)
    requires
        coins.len() > 0,
        coins_total(coins) <= u64::MAX,
        finish == AtmEvent::ButtonPressed || finish == AtmEvent::CoinTimeout,
    ensures
        run(AppState::Idle, insert_events(coins).push(finish)) == AppState::WithdrawReady(
            coins_total(coins) as u64,
        ),
{
    let evs = insert_events(coins).push(finish);
    let rest = coins.drop_first();
    assert(evs[0] == AtmEvent::CoinInserted(coins[0]));
    lemma_coins_total_nonneg(rest);
    assert(evs.drop_first() =~= insert_events(rest).push(finish));
    lemma_counting_run(coins[0], rest, finish);
}

/// A withdrawal ends, on the button or on the QR timeout, back in Idle.
pub proof fn law_withdrawal_returns_to_idle(amount: u64, event: AtmEvent)
    requires
        event == AtmEvent::ButtonPressed || event == AtmEvent::QrTimeout,
    ensures
        spec_next_state(AppState::WithdrawReady(amount), event) == AppState::Idle,
{
}

} // verus!

verus! {

/// The amount a state holds (none in Idle).
pub open spec fn held_amount(s: AppState) -> int {
    match s {
        AppState::Idle => 0,
        AppState::CountingCoins(a) => a as int,
        AppState::WithdrawReady(a) => a as int,
    }
}

/// What an event adds to the amount: a coin's value, nothing otherwise.
pub open spec fn coin_value(e: AtmEvent) -> int {
    match e {
        AtmEvent::CoinInserted(c) => c as int,
        _ => 0,
    }
}

/// No step loses or invents money: before a withdrawal, the amount grows by
/// exactly the inserted coin; a withdrawal keeps its amount until it ends,
/// and it ends only in Idle; only a coin leaves Idle, and a withdrawal is
/// only reached from counting, with the counted amount.
pub proof fn law_amount_conserved(s: AppState, e: AtmEvent)
    requires
        fits(s, e),
    ensures
        !(s is WithdrawReady) ==> held_amount(spec_next_state(s, e)) == held_amount(s)
            + coin_value(e),
        s is WithdrawReady ==> spec_next_state(s, e) == s || spec_next_state(s, e) is Idle,
        s is Idle && !(spec_next_state(s, e) is Idle) ==> e is CoinInserted,
        spec_next_state(s, e) is WithdrawReady && !(s is WithdrawReady) ==> s is CountingCoins
            && held_amount(spec_next_state(s, e)) == held_amount(s) && !(e is CoinInserted),
{
}

} // verus!
