use offline_bitcoin_atm::board::{BoardPinNumbers, BoardType};
use offline_bitcoin_atm::config::{
    enabled_flag, is_enabled_flag, DEFAULT_BOARD_TYPE, DEFAULT_DISPLAY_TYPE, DEFAULT_ROTATION,
};
use offline_bitcoin_atm::mempool::{DisplayItems, OrangeClockConfig, PriceCurrency};
use offline_bitcoin_atm::portal::{parse_form_value, PortalSettings};

#[test]
fn enabled_flag_roundtrip() {
    assert_eq!(enabled_flag(true), "1");
    assert_eq!(enabled_flag(false), "0");
    assert!(is_enabled_flag(enabled_flag(true)));
    assert!(!is_enabled_flag(enabled_flag(false)));
    assert!(!is_enabled_flag("true"));
}

#[test]
fn orangeclock_config_from_stored_defaults() {
    let c = OrangeClockConfig::from_stored("home".to_string(), None, Some(String::new()), None, None);
    assert!(c.enabled);
    assert_eq!(c.wifi_ssid, "home");
    assert_eq!(c.wifi_password, "");
    assert_eq!(c.mempool_endpoint, "mempool.space");
    assert_eq!(c.display_items.to_items_string(), "height,price,fees");
    assert_eq!(c.price_currency, PriceCurrency::USD);
}

#[test]
fn orangeclock_config_persist_roundtrip() {
    let items = DisplayItems::from_items_string("moscow,halving");
    let c = OrangeClockConfig::from_stored(
        "net".to_string(),
        Some("pw".to_string()),
        Some("mempool.example".to_string()),
        Some(items.to_items_string()),
        Some(PriceCurrency::EUR.as_str().to_string()),
    );
    assert_eq!(c.wifi_password, "pw");
    assert_eq!(c.mempool_endpoint, "mempool.example");
    assert_eq!(c.display_items.to_items_string(), "moscow,halving");
    assert_eq!(c.price_currency, PriceCurrency::EUR);
    let again = OrangeClockConfig::from_stored(
        c.wifi_ssid.clone(),
        Some(c.wifi_password.clone()),
        Some(c.mempool_endpoint.clone()),
        Some(c.display_items.to_items_string()),
        Some(c.price_currency.as_str().to_string()),
    );
    assert_eq!(again.display_items.to_items_string(), c.display_items.to_items_string());
    assert_eq!(again.mempool_endpoint, c.mempool_endpoint);
}

#[test]
fn form_values_are_decoded() {
    let body = "device_string=https%3A%2F%2Fx%2Fapi%2Cs%2CEUR&display_type=GxEPD2_270&rotation=9+0";
    assert_eq!(parse_form_value(body, "device_string").as_deref(), Some("https://x/api,s,EUR"));
    assert_eq!(parse_form_value(body, "display_type").as_deref(), Some("GxEPD2_270"));
    assert_eq!(parse_form_value(body, "rotation").as_deref(), Some("9 0"));
    assert_eq!(parse_form_value(body, "board_type"), None);
    assert_eq!(parse_form_value("a=1&a=2", "a").as_deref(), Some("1"));
    assert_eq!(parse_form_value("xa=1&a=", "a").as_deref(), Some(""));
    assert_eq!(parse_form_value("", "a"), None);
    assert_eq!(parse_form_value("k=%ZZ%41", "k").as_deref(), Some("%ZZA"));
    assert_eq!(parse_form_value("k=%FF", "k").as_deref(), Some("\u{FFFD}"));
}

#[test]
fn portal_settings_defaults() {
    let s = PortalSettings::from_form("device_string=abc&board_type=Waveshare");
    assert_eq!(s.device_string, "abc");
    assert_eq!(s.board_type, "Waveshare");
    assert_eq!(s.display_type, DEFAULT_DISPLAY_TYPE);
    assert_eq!(s.rotation, DEFAULT_ROTATION);
    let empty = PortalSettings::from_form("");
    assert_eq!(empty.device_string, "");
    assert_eq!(empty.board_type, DEFAULT_BOARD_TYPE);
}

#[test]
fn board_selection_and_pins() {
    assert_eq!(BoardType::from_str("Waveshare"), BoardType::Waveshare);
    assert_eq!(BoardType::from_str("Generic"), BoardType::Generic);
    assert_eq!(BoardType::from_str("waveshare"), BoardType::Generic);
    let g = BoardPinNumbers::for_board(BoardType::Generic);
    assert_eq!((g.coin, g.mosfet, g.button, g.button_led), (17, 16, 32, 21));
    assert_eq!((g.sclk, g.mosi, g.cs, g.dc, g.rst, g.busy), (18, 23, 26, 25, 33, 27));
    let w = BoardPinNumbers::for_board(BoardType::Waveshare);
    assert_eq!((w.sclk, w.mosi, w.cs, w.dc, w.rst, w.busy), (13, 14, 15, 27, 26, 25));
}

#[test]
fn form_value_plus_before_escapes() {
    let body = "board_type=Generic&device_string=a%2Cb+c%2B1&rotation=90";
    assert_eq!(parse_form_value(body, "device_string").as_deref(), Some("a,b c+1"));
    assert_eq!(parse_form_value(body, "rotation").as_deref(), Some("90"));
    assert_eq!(parse_form_value(body, "display_type"), None);
}

#[test]
fn portal_saves_only_valid_device_strings() {
    let ok = PortalSettings::from_form(
        "device_string=https%3A%2F%2Fx.lnbits.com%2Ffossa%2Fapi%2Fv1%2Flnurl%2Fabc%2Csecret%2CEUR&rotation=90",
    )
    .to_save()
    .unwrap();
    assert_eq!(ok.connection.base_url, "https://x.lnbits.com/fossa/api/v1/lnurl/abc");
    assert_eq!(ok.connection.page_base_url, "https://x.lnbits.com/fossa/atm?lightning=");
    assert_eq!(ok.connection.atm_secret, "secret");
    assert_eq!(ok.connection.currency, "EUR");
    assert_eq!(ok.rotation, "90");
    assert_eq!(ok.display_type, DEFAULT_DISPLAY_TYPE);
    assert_eq!(ok.board_type, DEFAULT_BOARD_TYPE);

    let bad = PortalSettings::from_form("device_string=nocommas&rotation=90").to_save();
    assert_eq!(
        bad.err(),
        Some("Device string must contain exactly 3 comma-separated parts: base_url,secret,currency")
    );
    let no_api = PortalSettings::from_form("device_string=https%3A%2F%2Fx%2Cs%2CEUR").to_save();
    assert_eq!(no_api.err(), Some("'api' not found in base URL"));
}
