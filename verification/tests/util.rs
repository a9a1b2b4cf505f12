use offline_bitcoin_atm::util::{generate_qrcode, LNBitsConnection};

// --- QR code generation tests ---

#[test]
fn test_generate_qrcode_returns_square_matrix() {
    let matrix = generate_qrcode("LNURL1TEST").unwrap();
    assert!(!matrix.is_empty());
    // QR version 6 = 41x41 modules
    assert_eq!(matrix.len(), 41);
    for row in &matrix {
        assert_eq!(row.len(), 41);
    }
}

#[test]
fn test_generate_qrcode_contains_both_colors() {
    let matrix = generate_qrcode("LNURL1TEST").unwrap();
    let has_dark = matrix.iter().any(|row| row.iter().any(|&v| v));
    let has_light = matrix.iter().any(|row| row.iter().any(|&v| !v));
    assert!(has_dark, "QR matrix should contain dark modules");
    assert!(has_light, "QR matrix should contain light modules");
}

#[test]
fn test_generate_qrcode_deterministic() {
    let m1 = generate_qrcode("LNURL1SAME").unwrap();
    let m2 = generate_qrcode("LNURL1SAME").unwrap();
    assert_eq!(m1, m2);
}

#[test]
fn test_generate_qrcode_different_input_different_output() {
    let m1 = generate_qrcode("LNURL1AAA").unwrap();
    let m2 = generate_qrcode("LNURL1BBB").unwrap();
    assert_ne!(m1, m2);
}

#[test]
fn qrcode_too_long_data_is_refused() {
    let long = "A".repeat(2000);
    assert!(generate_qrcode(&long).is_err());
}

#[test]
fn qrcode_finder_pattern_corner_is_dark() {
    let matrix = generate_qrcode("LNURL1TEST").unwrap();
    // The three finder patterns have dark corners.
    assert!(matrix[0][0]);
    assert!(matrix[0][40]);
    assert!(matrix[40][0]);
    // The separator next to the top-left finder pattern is light.
    assert!(!matrix[7][7]);
}

// --- LNBitsConnection parsing tests ---

#[test]
fn test_from_device_string_valid() {
    let conn = LNBitsConnection::from_device_string(
        "https://example.com/fossa/api/v1/lnurl/abc123,mysecretkey,EUR",
    )
    .unwrap();
    assert_eq!(conn.base_url, "https://example.com/fossa/api/v1/lnurl/abc123");
    assert_eq!(conn.atm_secret, "mysecretkey");
    assert_eq!(conn.currency, "EUR");
    assert_eq!(conn.page_base_url, "https://example.com/fossa/atm?lightning=");
}

#[test]
fn test_from_device_string_missing_parts() {
    assert!(LNBitsConnection::from_device_string("onlyonepart").is_err());
    assert!(LNBitsConnection::from_device_string("two,parts").is_err());
}

#[test]
fn test_from_device_string_empty_url() {
    assert!(LNBitsConnection::from_device_string(",secret,EUR").is_err());
}

#[test]
fn test_from_device_string_empty_secret() {
    assert!(LNBitsConnection::from_device_string("https://example.com/api/v1,,EUR").is_err());
}

#[test]
fn test_from_device_string_empty_currency() {
    assert!(LNBitsConnection::from_device_string("https://example.com/api/v1,secret,").is_err());
}

#[test]
fn test_from_device_string_no_api_in_url() {
    assert!(LNBitsConnection::from_device_string("https://example.com/v1/lnurl,secret,EUR").is_err());
}

#[test]
fn test_from_device_string_trims_whitespace() {
    let conn =
        LNBitsConnection::from_device_string(" https://example.com/api/v1/lnurl , secret , USD ")
            .unwrap();
    assert_eq!(conn.base_url, "https://example.com/api/v1/lnurl");
    assert_eq!(conn.atm_secret, "secret");
    assert_eq!(conn.currency, "USD");
}

#[test]
fn device_string_error_messages() {
    assert_eq!(
        LNBitsConnection::from_device_string("two,parts").unwrap_err(),
        "Device string must contain exactly 3 comma-separated parts: base_url,secret,currency"
    );
    assert_eq!(
        LNBitsConnection::from_device_string("  ,secret,EUR").unwrap_err(),
        "Base URL cannot be empty"
    );
    assert_eq!(
        LNBitsConnection::from_device_string("https://x/api, \t,EUR").unwrap_err(),
        "ATM secret cannot be empty"
    );
    assert_eq!(
        LNBitsConnection::from_device_string("https://x/api,s,\u{3000}").unwrap_err(),
        "Currency cannot be empty"
    );
    assert_eq!(
        LNBitsConnection::from_device_string("https://x/v1,s,EUR").unwrap_err(),
        "'api' not found in base URL"
    );
}

#[test]
fn device_string_third_part_keeps_commas() {
    let conn = LNBitsConnection::from_device_string("https://h/x/api/y,sec,EUR,extra").unwrap();
    assert_eq!(conn.currency, "EUR,extra");
    assert_eq!(conn.page_base_url, "https://h/x/atm?lightning=");
}

#[test]
fn device_string_uses_first_api() {
    let conn = LNBitsConnection::from_device_string("https://api.host/fossa/api/v1,s,USD").unwrap();
    assert_eq!(conn.page_base_url, "https://atm?lightning=");
}
