//! The main loop's decisions that depend on time and on the button: when a
//! state times out, when the screen is cleaned, how the button LED blinks
//! during a withdrawal, and when the idle ("OrangeClock") screen is redrawn.
use vstd::prelude::*;
use crate::state::{AppState, AtmEvent};

verus! {

/// Seconds after which the idle screen gets a full e-paper refresh.
pub const IDLE_REFRESH_SECS: u64 = 43200;

/// Seconds without a coin after which counting turns into a withdrawal.
pub const COIN_TIMEOUT_SECS: u64 = 360;

/// Seconds for which the withdrawal QR code stays on screen.
pub const QR_DISPLAY_TIMEOUT_SECS: u64 = 600;

/// Rapid button presses that ask for a screen clean.
pub const CLEAN_PRESS_THRESHOLD: u32 = 3;

/// Milliseconds for which the ATM home screen stays up after a button press
/// on the idle screen.
pub const ATM_SCREEN_TIMEOUT_MS: u64 = 60000;

/// The event that time alone raises in `state` after `elapsed_secs` in it.
pub open spec fn spec_timeout_event(state: AppState, elapsed_secs: u64) -> Option<AtmEvent> {
    match state {
        AppState::CountingCoins(_) => if elapsed_secs > COIN_TIMEOUT_SECS {
            Some(AtmEvent::CoinTimeout)
        } else {
            None
        },
        AppState::WithdrawReady(_) => if elapsed_secs > QR_DISPLAY_TIMEOUT_SECS {
            Some(AtmEvent::QrTimeout)
        } else {
            None
        },
        AppState::Idle => None,
    }
}

/// Counting times out after six minutes without a coin, a withdrawal after
/// ten minutes; Idle never times out.
pub fn timeout_event(state: &AppState, elapsed_secs: u64) -> (e: Option<AtmEvent>)
    ensures
        e == spec_timeout_event(*state, elapsed_secs),
{
    match state {
        AppState::CountingCoins(_) => if elapsed_secs > COIN_TIMEOUT_SECS {
            Some(AtmEvent::CoinTimeout)
        } else {
            None
        },
        AppState::WithdrawReady(_) => if elapsed_secs > QR_DISPLAY_TIMEOUT_SECS {
            Some(AtmEvent::QrTimeout)
        } else {
            None
        },
        AppState::Idle => None,
    }
}

/// Whether the idle screen is due for its twelve-hourly full refresh.
pub fn idle_refresh_due(elapsed_secs: u64) -> (b: bool)
    ensures
        b == (elapsed_secs > IDLE_REFRESH_SECS),
{
    elapsed_secs > IDLE_REFRESH_SECS
}

/// Whether a burst of `presses` rapid button presses asks for a screen clean.
pub fn clean_requested(presses: u32) -> (b: bool)
    ensures
        b == (presses >= CLEAN_PRESS_THRESHOLD),
{
    presses >= CLEAN_PRESS_THRESHOLD
}

/// Whether the button LED is lit `elapsed_ms` milliseconds into a withdrawal:
/// it blinks with a period of one second, lit for the first half.
pub fn qr_led_on(elapsed_ms: u64) -> (b: bool)
    ensures
        b == (elapsed_ms % 1000 < 500),
{
    elapsed_ms % 1000 < 500
}

/// What the idle screen is doing: whether the ATM home screen is up because
/// the button was pressed (and until when, in milliseconds), and whether the
/// idle data has to be drawn again.
#[derive(Debug, Clone, Copy, PartialEq, Eq, Structural)]
pub struct IdleScreen {
    pub atm_screen_until: Option<u64>,
    pub needs_redraw: bool,
}

/// The idle screen with nothing up and nothing pending.
pub open spec fn spec_idle_start() -> IdleScreen {
    IdleScreen { atm_screen_until: None, needs_redraw: false }
}

/// The idle screen after a button press at `now_ms`.
pub open spec fn spec_on_button(now_ms: u64) -> IdleScreen {
    IdleScreen {
        atm_screen_until: Some((now_ms + ATM_SCREEN_TIMEOUT_MS) as u64),
        needs_redraw: false,
    }
}

/// The idle screen at `now_ms`: once the home screen's time is up it is
/// dropped and the idle data is to be drawn again.
pub open spec fn spec_expire(s: IdleScreen, now_ms: u64) -> IdleScreen {
    match s.atm_screen_until {
        Some(until) => if now_ms >= until {
            IdleScreen { atm_screen_until: None, needs_redraw: true }
        } else {
            s
        },
        None => s,
    }
}

/// Whether a redraw happens now: one is pending and the home screen is not up.
pub open spec fn spec_redraw_due(s: IdleScreen) -> bool {
    s.needs_redraw && s.atm_screen_until is None
}

/// The idle screen once its data has to be drawn again.
pub open spec fn spec_pending(s: IdleScreen) -> IdleScreen {
    IdleScreen { needs_redraw: true, ..s }
}

/// The idle screen after the redraw decision.
pub open spec fn spec_after_redraw(s: IdleScreen) -> IdleScreen {
    if spec_redraw_due(s) {
        IdleScreen { needs_redraw: false, ..s }
    } else {
        s
    }
}

impl IdleScreen {
    /// The idle screen as it starts: the data (or the home screen) is drawn
    /// and nothing is pending.
    pub fn new() -> (s: Self)
        ensures
            s == spec_idle_start(),
    {
        IdleScreen { atm_screen_until: None, needs_redraw: false }
    }

    /// The button was pressed at `now_ms`: the home screen goes up for a minute
    /// and a pending redraw is dropped.
    pub fn on_button(&mut self, now_ms: u64)
        requires
            now_ms + ATM_SCREEN_TIMEOUT_MS <= u64::MAX,
        ensures
            *final(self) == spec_on_button(now_ms),
    {
        self.atm_screen_until = Some(now_ms + ATM_SCREEN_TIMEOUT_MS);
        self.needs_redraw = false;
    }

    /// The screen was refreshed (cleaned): the data has to be drawn again.
    pub fn on_refresh(&mut self)
        ensures
            *final(self) == spec_pending(*old(self)),
    {
        self.needs_redraw = true;
    }

    /// Time passed up to `now_ms`.
    pub fn expire(&mut self, now_ms: u64)
        ensures
            *final(self) == spec_expire(*old(self), now_ms),
    {
        if let Some(until) = self.atm_screen_until {
            if now_ms >= until {
                self.atm_screen_until = None;
                self.needs_redraw = true;
            }
        }
    }

    /// Whether the shared data is looked at: only while the home screen is
    /// not up.
    pub fn wants_data(&self) -> (b: bool)
        ensures
            b == (self.atm_screen_until is None),
    {
        self.atm_screen_until.is_none()
    }

    /// The shared data changed: it has to be drawn.
    pub fn on_data_changed(&mut self)
        ensures
            *final(self) == spec_pending(*old(self)),
    {
        self.needs_redraw = true;
    }

    /// Whether to draw now; a redraw that happens is no longer pending.
    pub fn take_redraw(&mut self) -> (draw: bool)
        ensures
            draw == spec_redraw_due(*old(self)),
            *final(self) == spec_after_redraw(*old(self)),
    {
        if self.needs_redraw && self.atm_screen_until.is_none() {
            self.needs_redraw = false;
            true
        } else {
            false
        }
    }
}

/// While the home screen shown by a button press has time left, the idle
/// screen is not redrawn, whether or not a redraw is pending.
pub proof fn law_home_screen_stays(s: IdleScreen, now_ms: u64)
    requires
        s.atm_screen_until matches Some(until) && now_ms < until,
    ensures
        !spec_redraw_due(spec_expire(s, now_ms)),
        spec_expire(s, now_ms) == s,
{
}

/// Once the home screen's minute is up, the idle data is drawn again.
pub proof fn law_home_screen_times_out(pressed_ms: u64, now_ms: u64)
    requires
        pressed_ms + ATM_SCREEN_TIMEOUT_MS <= now_ms,
    ensures
        spec_redraw_due(spec_expire(spec_on_button(pressed_ms), now_ms)),
        spec_after_redraw(spec_expire(spec_on_button(pressed_ms), now_ms)) == spec_idle_start(),
{
}

/// A redraw happens once: right after one, none is pending.
pub proof fn law_redraw_once(s: IdleScreen)
    ensures
        !spec_redraw_due(spec_after_redraw(s)),
{
}

/// Counting without a coin for more than the coin timeout leads to a
/// withdrawal of the counted amount, and a withdrawal that is left alone
/// for more than the QR timeout returns to Idle.
pub proof fn law_timeouts_end_states(amount: u64, elapsed_secs: u64)
    ensures
        elapsed_secs > COIN_TIMEOUT_SECS ==> spec_timeout_event(
            AppState::CountingCoins(amount),
            elapsed_secs,
        ) == Some(AtmEvent::CoinTimeout) && crate::state::spec_next_state(
            AppState::CountingCoins(amount),
            AtmEvent::CoinTimeout,
        ) == AppState::WithdrawReady(amount),
        elapsed_secs > QR_DISPLAY_TIMEOUT_SECS ==> spec_timeout_event(
            AppState::WithdrawReady(amount),
            elapsed_secs,
        ) == Some(AtmEvent::QrTimeout) && crate::state::spec_next_state(
            AppState::WithdrawReady(amount),
            AtmEvent::QrTimeout,
        ) == AppState::Idle,
        spec_timeout_event(AppState::Idle, elapsed_secs) is None,
{
}

} // verus!

verus! {

/// Milliseconds without a new pulse after which a pulse train is complete.
pub const PULSE_TIMEOUT_MS: u64 = 200;

/// Whether a pulse train whose count last changed `elapsed_ms` milliseconds
/// ago is complete.
pub fn pulse_train_quiet(elapsed_ms: u64) -> (b: bool)
    ensures
        b == (elapsed_ms >= PULSE_TIMEOUT_MS),
{
    elapsed_ms >= PULSE_TIMEOUT_MS
}

/// Whether the BOOT button opens the configuration portal at start-up: it
/// must be held when first read and still held after a short debounce.
pub fn boot_button_opens_portal(held: bool, still_held: bool) -> (b: bool)
    ensures
        b == (held && still_held),
{
    held && still_held
}

/// Whether the configuration portal opens because no LNbits connection is
/// stored yet (on the first boot, nothing is).
pub fn portal_needed_for_connection(connection_stored: bool) -> (b: bool)
    ensures
        b == !connection_stored,
{
    !connection_stored
}

} // verus!

verus! {

/// Milliseconds after the first press during which further presses count
/// towards the same burst.
pub const PRESS_WINDOW_MS: u64 = 4000;

/// What one poll of the button during a burst of presses means.
#[derive(Debug, Clone, Copy, PartialEq, Eq, Structural)]
pub enum PressStep {
    /// The window is over; the burst held this many presses.
    Done(u32),
    /// The button is down: one more press was counted (wait out its bounce).
    Pressed,
    /// The button is up: keep polling.
    Released,
}

/// A burst of rapid button presses being counted; the first press counts.
#[derive(Debug, Clone, Copy, PartialEq, Eq, Structural)]
pub struct PressBurst {
    pub count: u32,
}

/// The outcome of a poll at `elapsed_ms` after the first press, with the
/// button down or not.
pub open spec fn spec_press_step(b: PressBurst, elapsed_ms: u64, button_down: bool) -> (
    PressBurst,
    PressStep,
) {
    if elapsed_ms >= PRESS_WINDOW_MS {
        (b, PressStep::Done(b.count))
    } else if button_down {
        (PressBurst { count: (b.count + 1) as u32 }, PressStep::Pressed)
    } else {
        (b, PressStep::Released)
    }
}

impl PressBurst {
    /// A burst that starts with the press that was just seen.
    pub fn new() -> (b: Self)
        ensures
            b.count == 1,
    {
        PressBurst { count: 1 }
    }

    /// One poll of the button `elapsed_ms` milliseconds after the first
    /// press: the burst ends once the four-second window is over; before
    /// that, a button that is down adds a press.
    pub fn poll(&mut self, elapsed_ms: u64, button_down: bool) -> (step: PressStep)
        requires
            old(self).count < u32::MAX,
        ensures
            (*final(self), step) == spec_press_step(*old(self), elapsed_ms, button_down),
    {
        if elapsed_ms >= PRESS_WINDOW_MS {
            PressStep::Done(self.count)
        } else if button_down {
            self.count = self.count + 1;
            PressStep::Pressed
        } else {
            PressStep::Released
        }
    }
}

} // verus!

verus! {

/// The timing rules: a full refresh every 12 hours, counting times out after
/// 6 minutes without a coin, the QR code stays for 10 minutes, 3 presses
/// clean the screen, the home screen stays a minute, a pulse train ends
/// after 200 ms without a pulse, and presses count for 4 seconds.
pub proof fn law_timing_rules(elapsed_secs: u64, presses: u32, elapsed_ms: u64)
    ensures
        (elapsed_secs > IDLE_REFRESH_SECS) == (elapsed_secs > 12 * 60 * 60),
        (spec_timeout_event(AppState::CountingCoins(0), elapsed_secs) is Some) == (elapsed_secs
            > 6 * 60),
        (spec_timeout_event(AppState::WithdrawReady(0), elapsed_secs) is Some) == (elapsed_secs
            > 10 * 60),
        (presses >= CLEAN_PRESS_THRESHOLD) == (presses >= 3),
        ATM_SCREEN_TIMEOUT_MS == 60 * 1000,
        (elapsed_ms >= PULSE_TIMEOUT_MS) == (elapsed_ms >= 200),
        (elapsed_ms >= PRESS_WINDOW_MS) == (elapsed_ms >= 4 * 1000),
{
}

} // verus!
