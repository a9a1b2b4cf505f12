//! The supported ESP32 boards and their wiring.
use vstd::prelude::*;
use crate::text::str_equals;

verus! {

#[derive(Debug, Clone, Copy, PartialEq, Eq, Structural)]
pub enum BoardType {
    Generic,
    Waveshare,
}

impl BoardType {
    /// "Waveshare" selects the Waveshare board, anything else the generic one.
    pub fn from_str(s: &str) -> (b: Self)
        ensures
            b == (if s@ == "Waveshare"@ {
                BoardType::Waveshare
            } else {
                BoardType::Generic
            }),
    {
        if str_equals(s, "Waveshare") {
            BoardType::Waveshare
        } else {
            BoardType::Generic
        }
    }
}

/// The GPIO numbers a board uses for each connection.
#[derive(Debug, Clone, Copy, PartialEq, Eq, Structural)]
pub struct BoardPinNumbers {
    pub coin: u8,
    pub mosfet: u8,
    pub button: u8,
    pub button_led: u8,
    pub sclk: u8,
    pub mosi: u8,
    pub cs: u8,
    pub dc: u8,
    pub rst: u8,
    pub busy: u8,
}

/// The wiring of each board: the coin acceptor, MOSFET and button are wired
/// alike (17, 16, 32, LED 21); the display's SPI and control lines differ.
pub open spec fn spec_pin_numbers(board: BoardType) -> BoardPinNumbers {
    match board {
        BoardType::Generic => BoardPinNumbers {
            coin: 17,
            mosfet: 16,
            button: 32,
            button_led: 21,
            sclk: 18,
            mosi: 23,
            cs: 26,
            dc: 25,
            rst: 33,
            busy: 27,
        },
        BoardType::Waveshare => BoardPinNumbers {
            coin: 17,
            mosfet: 16,
            button: 32,
            button_led: 21,
            sclk: 13,
            mosi: 14,
            cs: 15,
            dc: 27,
            rst: 26,
            busy: 25,
        },
    }
}

impl BoardPinNumbers {
    /// The GPIO numbers of `board`.
    pub fn for_board(board: BoardType) -> (p: Self)
        ensures
            p == spec_pin_numbers(board),
    {
        match board {
            BoardType::Generic => BoardPinNumbers {
                coin: 17,
                mosfet: 16,
                button: 32,
                button_led: 21,
                sclk: 18,
                mosi: 23,
                cs: 26,
                dc: 25,
                rst: 33,
                busy: 27,
            },
            BoardType::Waveshare => BoardPinNumbers {
                coin: 17,
                mosfet: 16,
                button: 32,
                button_led: 21,
                sclk: 13,
                mosi: 14,
                cs: 15,
                dc: 27,
                rst: 26,
                busy: 25,
            },
        }
    }
}

/// No board wires two connections to the same GPIO.
pub proof fn law_board_pins_distinct(board: BoardType)
    ensures
        ({
            let p = spec_pin_numbers(board);
            let s = seq![p.coin, p.mosfet, p.button, p.button_led, p.sclk, p.mosi, p.cs, p.dc, p.rst, p.busy];
            forall|i: int, j: int| 0 <= i < j < 10 ==> s[i] != s[j]
        }),
{
}

} // verus!
