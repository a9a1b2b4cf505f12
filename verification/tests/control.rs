use offline_bitcoin_atm::control::{
    boot_button_opens_portal, clean_requested, idle_refresh_due, portal_needed_for_connection,
    pulse_train_quiet, qr_led_on, timeout_event, IdleScreen, PressBurst, PressStep,
};
use offline_bitcoin_atm::state::{AppState, AtmEvent};

#[test]
fn counting_times_out_after_six_minutes() {
    let s = AppState::CountingCoins(150);
    assert_eq!(timeout_event(&s, 0), None);
    assert_eq!(timeout_event(&s, 360), None);
    assert_eq!(timeout_event(&s, 361), Some(AtmEvent::CoinTimeout));
    assert_eq!(s.next(AtmEvent::CoinTimeout), AppState::WithdrawReady(150));
}

#[test]
fn withdrawal_times_out_after_ten_minutes() {
    let s = AppState::WithdrawReady(200);
    assert_eq!(timeout_event(&s, 600), None);
    assert_eq!(timeout_event(&s, 601), Some(AtmEvent::QrTimeout));
    assert_eq!(s.next(AtmEvent::QrTimeout), AppState::Idle);
}

#[test]
fn idle_never_times_out() {
    assert_eq!(timeout_event(&AppState::Idle, u64::MAX), None);
}

#[test]
fn twelve_hour_refresh() {
    assert!(!idle_refresh_due(43200));
    assert!(idle_refresh_due(43201));
}

#[test]
fn three_presses_clean_the_screen() {
    assert!(!clean_requested(1));
    assert!(!clean_requested(2));
    assert!(clean_requested(3));
    assert!(clean_requested(7));
}

#[test]
fn led_blinks_once_a_second() {
    assert!(qr_led_on(0));
    assert!(qr_led_on(499));
    assert!(!qr_led_on(500));
    assert!(!qr_led_on(999));
    assert!(qr_led_on(1000));
    assert!(qr_led_on(12_345));
    assert!(!qr_led_on(12_678));
}

#[test]
fn home_screen_holds_for_a_minute() {
    let mut s = IdleScreen::new();
    assert!(s.wants_data());
    assert!(!s.take_redraw());

    s.on_button(1_000);
    assert!(!s.wants_data());
    s.on_refresh();
    s.expire(60_999);
    assert!(!s.take_redraw());
    assert!(!s.wants_data());

    s.expire(61_000);
    assert!(s.wants_data());
    assert!(s.take_redraw());
    assert!(!s.take_redraw());
    assert_eq!(s, IdleScreen { atm_screen_until: None, needs_redraw: false });
}

#[test]
fn data_change_redraws_once() {
    let mut s = IdleScreen::new();
    s.on_data_changed();
    assert!(s.take_redraw());
    assert!(!s.take_redraw());
}

#[test]
fn button_drops_pending_redraw() {
    let mut s = IdleScreen::new();
    s.on_data_changed();
    s.on_button(5);
    assert_eq!(s, IdleScreen { atm_screen_until: Some(60_005), needs_redraw: false });
}

#[test]
fn pulse_train_complete_after_quiet_period() {
    assert!(!pulse_train_quiet(0));
    assert!(!pulse_train_quiet(199));
    assert!(pulse_train_quiet(200));
    assert!(pulse_train_quiet(5_000));
}

#[test]
fn boot_button_held_opens_portal() {
    assert!(boot_button_opens_portal(true, true));
    assert!(!boot_button_opens_portal(true, false));
    assert!(!boot_button_opens_portal(false, false));
}

#[test]
fn first_boot_opens_portal() {
    assert!(portal_needed_for_connection(false));
    assert!(!portal_needed_for_connection(true));
}

#[test]
fn press_burst_counts_within_window() {
    let mut b = PressBurst::new();
    assert_eq!(b.count, 1);
    assert_eq!(b.poll(500, false), PressStep::Released);
    assert_eq!(b.poll(600, true), PressStep::Pressed);
    assert_eq!(b.poll(1200, true), PressStep::Pressed);
    assert_eq!(b.count, 3);
    assert_eq!(b.poll(3999, false), PressStep::Released);
    assert_eq!(b.poll(4000, true), PressStep::Done(3));
    assert_eq!(b.count, 3);
    assert!(clean_requested(b.count));
}
