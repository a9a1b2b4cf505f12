use offline_bitcoin_atm::state::{AppState, AtmEvent};

#[test]
fn test_state_variants() {
    let idle = AppState::Idle;
    let counting = AppState::CountingCoins(150);
    let withdraw = AppState::WithdrawReady(200);

    assert_eq!(idle, AppState::Idle);
    assert_eq!(counting, AppState::CountingCoins(150));
    assert_ne!(counting, AppState::CountingCoins(100));
    assert_ne!(withdraw.clone(), idle);
    assert_eq!(withdraw, AppState::WithdrawReady(200));
}

#[test]
fn test_state_clone() {
    let original = AppState::WithdrawReady(500);
    let cloned = original.clone();
    assert_eq!(original, cloned);
}

#[test]
fn test_state_debug() {
    let state = AppState::CountingCoins(42);
    let debug_str = format!("{:?}", state);
    assert!(debug_str.contains("CountingCoins"));
    assert!(debug_str.contains("42"));
}

#[test]
fn deposit_session_sums_coins() {
    let mut s = AppState::Idle;
    for c in [50u64, 100, 200] {
        s = s.next(AtmEvent::CoinInserted(c));
    }
    assert_eq!(s, AppState::CountingCoins(350));
    s = s.next(AtmEvent::ButtonPressed);
    assert_eq!(s, AppState::WithdrawReady(350));
    s = s.next(AtmEvent::CoinInserted(5));
    assert_eq!(s, AppState::WithdrawReady(350));
    s = s.next(AtmEvent::QrTimeout);
    assert_eq!(s, AppState::Idle);
}

#[test]
fn coin_timeout_leads_to_withdrawal() {
    let s = AppState::Idle.next(AtmEvent::CoinInserted(20));
    assert_eq!(s.next(AtmEvent::CoinTimeout), AppState::WithdrawReady(20));
    assert_eq!(AppState::Idle.next(AtmEvent::ButtonPressed), AppState::Idle);
    assert_eq!(AppState::WithdrawReady(20).next(AtmEvent::ButtonPressed), AppState::Idle);
}
