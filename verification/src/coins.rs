use vstd::prelude::*;

verus! {

/// Cent value per pulse count of the HX-616 coin acceptor; index = pulses.
pub const COIN_MAP: [u64; 10] = [0, 0, 5, 10, 20, 50, 100, 200, 1, 2];

/// The coin table as a mathematical sequence.
pub open spec fn coin_table() -> Seq<u64> {
    seq![0u64, 0, 5, 10, 20, 50, 100, 200, 1, 2]
}

/// What a pulse count is worth: the table entry for counts from 2 to 9
/// whose entry is not zero, nothing otherwise.
pub open spec fn spec_pulses_to_cents(pulses: u32) -> Option<u64> {
    if 2 <= pulses && pulses < 10 && coin_table()[pulses as int] > 0 {
        Some(coin_table()[pulses as int])
    } else {
        None
    }
}

/// Convert pulse count to cent value. Returns None for invalid pulse counts.
pub fn pulses_to_cents(pulses: u32) -> (res: Option<u64>)
    ensures
        res == spec_pulses_to_cents(pulses),
{
    if pulses >= 2 && (pulses as usize) < COIN_MAP.len() {
        let val = COIN_MAP[pulses as usize];
        if val > 0 {
            Some(val)
        } else {
            None
        }
    } else {
        None
    }
}

} // verus!

verus! {

/// What the user did while the ATM waited: pressed the button, or inserted
/// a coin worth the given number of cents.
#[derive(Debug, Clone, Copy, PartialEq, Eq, Structural)]
pub enum CoinInteraction {
    Button,
    Coin(u64),
}

/// What one poll of the pulse counter means.
#[derive(Debug, Clone, Copy, PartialEq, Eq, Structural)]
pub enum PulseCheck {
    /// The counter is zero: no coin is being inserted.
    NoPulses,
    /// New pulses arrived since the last poll; `first` is true when they
    /// start a new pulse train (the acceptor must then stop accepting coins
    /// until the train has been decoded). The quiet timer restarts.
    PulsesArrived { first: bool },
    /// The count is unchanged but the quiet timeout has not run out yet.
    Waiting,
    /// The count stayed unchanged for the whole quiet timeout: the train is
    /// complete and the counter must be taken (and reset to zero).
    TrainComplete,
}

/// Decision state of the coin detector: the pulse count seen at the last poll.
pub struct PulseTracker {
    last_pulse_snapshot: u32,
}

impl PulseTracker {
    /// The pulse count seen at the last poll (zero when no train is running).
    pub closed spec fn snapshot(&self) -> u32 {
        self.last_pulse_snapshot
    }

    pub fn new() -> (t: Self)
        ensures
            t.snapshot() == 0,
    {
        PulseTracker { last_pulse_snapshot: 0 }
    }

    pub fn last_pulse_snapshot(&self) -> (n: u32)
        ensures
            n == self.snapshot(),
    {
        self.last_pulse_snapshot
    }

    /// One poll of the detector: `current` is the pulse counter's value and
    /// `quiet_timeout_elapsed` tells whether the quiet timeout has passed since
    /// the count last changed.
    pub fn observe(&mut self, current: u32, quiet_timeout_elapsed: bool) -> (check: PulseCheck)
        ensures
            current == 0 ==> check == PulseCheck::NoPulses && final(self).snapshot() == old(
                self,
            ).snapshot(),
            current != 0 && current != old(self).snapshot() ==> check == (PulseCheck::PulsesArrived {
                first: old(self).snapshot() == 0,
            }) && final(self).snapshot() == current,
            current != 0 && current == old(self).snapshot() ==> final(self).snapshot() == old(
                self,
            ).snapshot() && (if quiet_timeout_elapsed {
                check == PulseCheck::TrainComplete
            } else {
                check == PulseCheck::Waiting
            }),
    {
        if current == 0 {
            return PulseCheck::NoPulses;
        }
        if current != self.last_pulse_snapshot {
            let first = self.last_pulse_snapshot == 0;
            self.last_pulse_snapshot = current;
            return PulseCheck::PulsesArrived { first };
        }
        if quiet_timeout_elapsed {
            PulseCheck::TrainComplete
        } else {
            PulseCheck::Waiting
        }
    }

    /// Ends a complete pulse train of `pulses` pulses (the value the counter
    /// held when it was reset). Returns the coin's value, if the count is a
    /// valid one, and whether the acceptor must be re-enabled at once (it
    /// must, when the count was invalid, so that the ATM does not lock up).
    pub fn finish_train(&mut self, pulses: u32) -> (res: (Option<u64>, bool))
        ensures
            final(self).snapshot() == 0,
            res.0 == spec_pulses_to_cents(pulses),
            res.1 == (res.0 is None),
    {
        self.last_pulse_snapshot = 0;
        let cents = pulses_to_cents(pulses);
        let reaccept = cents.is_none();
        (cents, reaccept)
    }
}

} // verus!

verus! {

/// The coin acceptor's programming: 2 pulses are 5 cents, 3 are 10, 4 are
/// 20, 5 are 50, 6 are 1 euro, 7 are 2 euros, 8 are 1 cent and 9 are 2
/// cents; any other count is no coin.
pub proof fn law_coin_values(pulses: u32)
    ensures
        spec_pulses_to_cents(pulses) == (if pulses == 2 {
            Some(5u64)
        } else if pulses == 3 {
            Some(10u64)
        } else if pulses == 4 {
            Some(20u64)
        } else if pulses == 5 {
            Some(50u64)
        } else if pulses == 6 {
            Some(100u64)
        } else if pulses == 7 {
            Some(200u64)
        } else if pulses == 8 {
            Some(1u64)
        } else if pulses == 9 {
            Some(2u64)
        } else {
            None
        }),
{
}

} // verus!
