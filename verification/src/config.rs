//! The stored forms of the ATM's settings and the configuration portal's form.
use vstd::prelude::*;
use crate::mempool::{
    law_currency_code_roundtrip, law_items_roundtrip, spec_currency_from, spec_items_from,
    DisplayItems, OrangeClockConfig, PriceCurrency, DEFAULT_ENDPOINT,
};
use crate::text::str_equals;

verus! {

pub const DEFAULT_DISPLAY_TYPE: &'static str = "GxEPD2_150_BN";

pub const DEFAULT_BOARD_TYPE: &'static str = "Generic";

pub const DEFAULT_ROTATION: &'static str = "270";

/// The stored value of the idle screen's enabled flag.
pub fn enabled_flag(enabled: bool) -> (s: &'static str)
    ensures
        s@ == (if enabled {
            "1"@
        } else {
            "0"@
        }),
{
    if enabled {
        "1"
    } else {
        "0"
    }
}

/// Whether a stored enabled flag enables the idle screen: only "1" does.
pub fn is_enabled_flag(stored: &str) -> (b: bool)
    ensures
        b == (stored@ == "1"@),
{
    str_equals(stored, "1")
}

/// The text of an optional stored value.
pub open spec fn opt_view(o: Option<String>) -> Option<Seq<char>> {
    match o {
        Some(s) => Some(s@),
        None => None,
    }
}

/// An idle-screen configuration as plain values: enabled, Wi-Fi name,
/// Wi-Fi password, endpoint, items, currency.
pub type OrangeClockView = (bool, Seq<char>, Seq<char>, Seq<char>, DisplayItems, PriceCurrency);

pub open spec fn oc_view(c: OrangeClockConfig) -> OrangeClockView {
    (c.enabled, c.wifi_ssid@, c.wifi_password@, c.mempool_endpoint@, c.display_items, c.price_currency)
}

/// The configuration that enabled stored settings describe: a missing
/// password is empty, a missing or empty endpoint is the default endpoint, a
/// missing item list gives the default items, a missing currency is USD.
pub open spec fn spec_from_stored(
    wifi_ssid: Seq<char>,
    wifi_password: Option<Seq<char>>,
    mempool_endpoint: Option<Seq<char>>,
    items: Option<Seq<char>>,
    currency: Option<Seq<char>>,
) -> OrangeClockView {
    (
        true,
        wifi_ssid,
        match wifi_password {
            Some(p) => p,
            None => Seq::empty(),
        },
        match mempool_endpoint {
            Some(e) => if e.len() > 0 {
                e
            } else {
                "mempool.space"@
            },
            None => "mempool.space"@,
        },
        match items {
            Some(s) => spec_items_from(s),
            None => DisplayItems {
                block_height: true,
                price: true,
                moscow_time: false,
                fees: true,
                halving_countdown: false,
                difficulty_adjustment: false,
                mempool_size: false,
            },
        },
        match currency {
            Some(c) => spec_currency_from(c),
            None => PriceCurrency::USD,
        },
    )
}

impl OrangeClockConfig {
    /// The configuration read back from stored settings whose enabled flag is
    /// set and whose Wi-Fi name is present.
    pub fn from_stored(
        wifi_ssid: String,
        wifi_password: Option<String>,
        mempool_endpoint: Option<String>,
        items: Option<String>,
        currency: Option<String>,
    ) -> (c: OrangeClockConfig)
        ensures
            oc_view(c) == spec_from_stored(
                wifi_ssid@,
                opt_view(wifi_password),
                opt_view(mempool_endpoint),
                opt_view(items),
                opt_view(currency),
            ),
    {
        let wifi_password = match wifi_password {
            Some(p) => p,
            None => String::new(),
        };
        let mempool_endpoint = match mempool_endpoint {
            Some(e) if e.as_str().unicode_len() > 0 => e,
            _ => {
                let mut d = String::new();
                d.append(DEFAULT_ENDPOINT);
                d
            },
        };
        let display_items = match items {
            Some(s) => DisplayItems::from_items_string(s.as_str()),
            None => DisplayItems::default_items(),
        };
        let price_currency = match currency {
            Some(s) => PriceCurrency::from_str(s.as_str()),
            None => PriceCurrency::USD,
        };
        OrangeClockConfig {
            enabled: true,
            wifi_ssid,
            wifi_password,
            mempool_endpoint,
            display_items,
            price_currency,
        }
    }
}

/// Storing an idle-screen configuration and reading it back gives it again:
/// the stored flag of an enabled configuration enables it, that of a
/// disabled one does not, and an enabled one with a non-empty endpoint comes
/// back with the same Wi-Fi name, password, endpoint, items and currency.
pub proof fn law_orangeclock_persist_roundtrip(c: OrangeClockConfig)
    ensures
        (if c.enabled {
            "1"@
        } else {
            "0"@
        }) == "1"@ <==> c.enabled,
        c.enabled && c.mempool_endpoint@.len() > 0 ==> spec_from_stored(
            c.wifi_ssid@,
            Some(c.wifi_password@),
            Some(c.mempool_endpoint@),
            Some(c.display_items.items_string()),
            Some(c.price_currency.code()),
        ) == oc_view(c),
{
    reveal_strlit("1");
    reveal_strlit("0");
    assert("1"@[0] != "0"@[0]);
    law_items_roundtrip(c.display_items);
    law_currency_code_roundtrip(c.price_currency);
}

} // verus!
