use offline_bitcoin_atm::coins::{pulses_to_cents, CoinInteraction, PulseCheck, PulseTracker, COIN_MAP};

#[test]
fn test_pulses_to_cents_valid_range() {
    assert_eq!(pulses_to_cents(2), Some(5)); // 5 cent
    assert_eq!(pulses_to_cents(3), Some(10)); // 10 cent
    assert_eq!(pulses_to_cents(4), Some(20)); // 20 cent
    assert_eq!(pulses_to_cents(5), Some(50)); // 50 cent
    assert_eq!(pulses_to_cents(6), Some(100)); // 1 euro
    assert_eq!(pulses_to_cents(7), Some(200)); // 2 euro
    assert_eq!(pulses_to_cents(8), Some(1)); // 1 cent
    assert_eq!(pulses_to_cents(9), Some(2)); // 2 cent
}

#[test]
fn test_pulses_to_cents_zero() {
    assert_eq!(pulses_to_cents(0), None);
}

#[test]
fn test_pulses_to_cents_one() {
    assert_eq!(pulses_to_cents(1), None);
}

#[test]
fn test_pulses_to_cents_out_of_range() {
    assert_eq!(pulses_to_cents(10), None);
    assert_eq!(pulses_to_cents(100), None);
    assert_eq!(pulses_to_cents(u32::MAX), None);
}

#[test]
fn test_coin_map_matches_hardware_spec() {
    // HX-616 coin acceptor pulse mapping
    assert_eq!(COIN_MAP, [0, 0, 5, 10, 20, 50, 100, 200, 1, 2]);
}

#[test]
fn test_coin_interaction_enum() {
    assert_eq!(CoinInteraction::Button, CoinInteraction::Button);
    assert_eq!(CoinInteraction::Coin(100), CoinInteraction::Coin(100));
    assert_ne!(CoinInteraction::Coin(100), CoinInteraction::Coin(200));
    assert_ne!(CoinInteraction::Coin(100), CoinInteraction::Button);
}

#[test]
fn pulse_train_is_decoded_after_quiet_timeout() {
    let mut t = PulseTracker::new();
    assert_eq!(t.observe(0, false), PulseCheck::NoPulses);
    assert_eq!(t.observe(2, false), PulseCheck::PulsesArrived { first: true });
    assert_eq!(t.last_pulse_snapshot(), 2);
    assert_eq!(t.observe(5, false), PulseCheck::PulsesArrived { first: false });
    assert_eq!(t.observe(5, false), PulseCheck::Waiting);
    assert_eq!(t.observe(5, true), PulseCheck::TrainComplete);
    assert_eq!(t.finish_train(6), (Some(100), false));
    assert_eq!(t.last_pulse_snapshot(), 0);
}

#[test]
fn invalid_pulse_train_reenables_acceptor() {
    let mut t = PulseTracker::new();
    assert_eq!(t.observe(1, false), PulseCheck::PulsesArrived { first: true });
    assert_eq!(t.observe(1, true), PulseCheck::TrainComplete);
    assert_eq!(t.finish_train(1), (None, true));
    assert_eq!(t.finish_train(12), (None, true));
    assert_eq!(t.last_pulse_snapshot(), 0);
}
