use vstd::prelude::*;
use qrcode::types::QrError;
use crate::text::{chars_of, find_char, find_char_in, find_str, find_str_in, splitn, string_from_range, trim, trim_range};

verus! {

/// Connection details of an LNbits FOSSA ATM device.
#[derive(Debug)]
pub struct LNBitsConnection {
    pub base_url: String,
    pub page_base_url: String,
    pub atm_secret: String,
    pub currency: String,
}

/// What the device string `s` configures: the base URL, the ATM page base URL,
/// the secret and the currency; or the message of the first rule it breaks.
///
/// The string is split at its first two commas; each of the three parts is
/// trimmed and must not be empty, and the base URL must contain "api". The
/// page base URL is the base URL up to its first "api", then "atm?lightning=".
pub open spec fn spec_device_string(s: Seq<char>) -> Result<
    (Seq<char>, Seq<char>, Seq<char>, Seq<char>),
    Seq<char>,
> {
    let parts = splitn(s, 3, ',');
    if parts.len() != 3 {
        Err(
            "Device string must contain exactly 3 comma-separated parts: base_url,secret,currency"@,
        )
    } else {
        let base = trim(parts[0]);
        let secret = trim(parts[1]);
        let currency = trim(parts[2]);
        if base.len() == 0 {
            Err("Base URL cannot be empty"@)
        } else if secret.len() == 0 {
            Err("ATM secret cannot be empty"@)
        } else if currency.len() == 0 {
            Err("Currency cannot be empty"@)
        } else {
            match find_str(base, "api"@) {
                None => Err("'api' not found in base URL"@),
                Some(p) => Ok((base, base.take(p) + "atm?lightning="@, secret, currency)),
            }
        }
    }
}

impl LNBitsConnection {
    /// The connection's four fields as text.
    pub open spec fn parts(&self) -> (Seq<char>, Seq<char>, Seq<char>, Seq<char>) {
        (self.base_url@, self.page_base_url@, self.atm_secret@, self.currency@)
    }

    /// split lnbits device string into base_url, secret and currency
    /// e.g. https://XXXX.lnbits.com/fossa/api/v1/lnurl/XXXXX,XXXXXXXXXXXXXXXXXXXXXX,USD
    pub fn from_device_string(device_string: &str) -> (res: Result<Self, &'static str>)
        ensures
            match res {
                Ok(c) => spec_device_string(device_string@) == Ok::<_, Seq<char>>(c.parts()),
                Err(e) => spec_device_string(device_string@) == Err::<
                    (Seq<char>, Seq<char>, Seq<char>, Seq<char>),
                    _,
                >(e@),
            },
    {
        let v = chars_of(device_string);
        let n = v.len();
        let ghost s = v@;
        assert(v@.subrange(0, n as int) =~= s);
        let first = find_char_in(&v, 0, n, ',');
        let i1 = match first {
            None => {
                return Err(
                    "Device string must contain exactly 3 comma-separated parts: base_url,secret,currency",
                );
            },
            Some(i) => i,
        };
        let second = find_char_in(&v, i1 + 1, n, ',');
        assert(s.skip(i1 + 1) =~= v@.subrange(i1 + 1, n as int));
        let i2 = match second {
            None => {
                let ghost rest = s.skip(i1 + 1);
                assert(find_char(s, ',') == Some(i1 as int));
                assert(splitn(rest, 2, ',') == seq![rest]);
                assert(splitn(s, 3, ',') =~= seq![s.take(i1 as int), s.skip(i1 + 1)]);
                return Err(
                    "Device string must contain exactly 3 comma-separated parts: base_url,secret,currency",
                );
            },
            Some(i) => i,
        };
        let ghost rest = s.skip(i1 + 1);
        let ghost j = i2 - (i1 + 1);
        assert(find_char(s, ',') == Some(i1 as int));
        assert(find_char(rest, ',') == Some(j));
        assert(splitn(rest.skip(j + 1), 1, ',') == seq![rest.skip(j + 1)]);
        assert(splitn(rest, 2, ',') == seq![rest.take(j)] + splitn(rest.skip(j + 1), 1, ','));
        assert(splitn(s, 3, ',') == seq![s.take(i1 as int)] + splitn(rest, 2, ','));
        assert(rest.take(i2 - (i1 + 1)) =~= v@.subrange(i1 + 1, i2 as int));
        assert(rest.skip(i2 - (i1 + 1) + 1) =~= v@.subrange(i2 + 1, n as int));
        assert(s.take(i1 as int) =~= v@.subrange(0, i1 as int));
        assert(splitn(s, 3, ',') =~= seq![
            v@.subrange(0, i1 as int),
            v@.subrange(i1 + 1, i2 as int),
            v@.subrange(i2 + 1, n as int),
        ]);
        let (b0, b1) = trim_range(&v, 0, i1);
        let (s0, s1) = trim_range(&v, i1 + 1, i2);
        let (c0, c1) = trim_range(&v, i2 + 1, n);
        if b0 == b1 {
            return Err("Base URL cannot be empty");
        }
        if s0 == s1 {
            return Err("ATM secret cannot be empty");
        }
        if c0 == c1 {
            return Err("Currency cannot be empty");
        }
        let api = chars_of("api");
        let found = find_str_in(&v, b0, b1, &api);
        let api_pos = match found {
            None => {
                return Err("'api' not found in base URL");
            },
            Some(p) => p,
        };
        let base_url = string_from_range(&v, b0, b1);
        let mut page_base_url = string_from_range(&v, b0, b0 + api_pos);
        assert(v@.subrange(b0 as int, (b0 + api_pos) as int) =~= v@.subrange(
            b0 as int,
            b1 as int,
        ).take(api_pos as int));
        page_base_url.append("atm?lightning=");
        let atm_secret = string_from_range(&v, s0, s1);
        let currency = string_from_range(&v, c0, c1);
        let ghost parts = splitn(s, 3, ',');
        assert(trim(parts[0]) == base_url@);
        assert(trim(parts[1]) == atm_secret@);
        assert(trim(parts[2]) == currency@);
        assert(find_str(base_url@, "api"@) == Some(api_pos as int));
        assert(page_base_url@ == base_url@.take(api_pos as int) + "atm?lightning="@);
        Ok(LNBitsConnection { base_url, page_base_url, atm_secret, currency })
    }
}

} // verus!

verus! {

/// Why a QR code could not be made (the variants of `qrcode::types::QrError`).
#[derive(Debug, Clone, Copy, PartialEq, Eq, Structural)]
pub enum QrCodeError {
    DataTooLong,
    InvalidVersion,
    UnsupportedCharacterSet,
    InvalidEciDesignator,
    InvalidCharacter,
}

/// What `qrcode::QrCode::with_version(data, Version::Normal(6), EcLevel::L)`
/// gives for the UTF-8 bytes of `data`: the modules row by row (dark = true),
/// or the error.
pub uninterp spec fn qr_v6_low(data: Seq<char>) -> Result<Seq<bool>, QrCodeError>;

/// Calls `qrcode::QrCode::with_version(data.as_bytes(), Version::Normal(6),
/// EcLevel::L)`
/// and reads the code's width and its modules (`to_colors`, row by row, dark
/// as true). Claimed: the outcome is a function of `data`; a version-6 code is
/// 41 modules wide (`Version::width` is 4 * 6 + 17) and has 41 * 41 modules
/// (the canvas is `width * width`); an error comes back as its variant.
/// Which data fit and which modules are dark is left unsaid.
#[verifier::external_body]
fn encode_qr_v6_low(data: &str) -> (r: Result<(usize, Vec<bool>), QrCodeError>)
    ensures
        match r {
            Ok((width, modules)) => width == 41 && modules@.len() == 41 * 41 && qr_v6_low(data@)
                == Ok::<Seq<bool>, QrCodeError>(modules@),
            Err(e) => qr_v6_low(data@) == Err::<Seq<bool>, QrCodeError>(e),
        },
{
    match qrcode::QrCode::with_version(data.as_bytes(), qrcode::Version::Normal(6), qrcode::EcLevel::L) {
        Ok(code) => Ok((code.width(), code.into_colors().into_iter().map(|c| c.select(true, false)).collect())),
        Err(QrError::DataTooLong) => Err(QrCodeError::DataTooLong),
        Err(QrError::InvalidVersion) => Err(QrCodeError::InvalidVersion),
        Err(QrError::UnsupportedCharacterSet) => Err(QrCodeError::UnsupportedCharacterSet),
        Err(QrError::InvalidEciDesignator) => Err(QrCodeError::InvalidEciDesignator),
        Err(QrError::InvalidCharacter) => Err(QrCodeError::InvalidCharacter),
    }
}

/// Generates a QR code from the given data string
/// Returns a 2D vector of booleans where true = black pixel, false = white pixel
pub fn generate_qrcode(data: &str) -> (res: Result<Vec<Vec<bool>>, QrCodeError>)
    ensures
        match res {
            Ok(matrix) => {
                &&& qr_v6_low(data@) is Ok
                &&& matrix.len() == 41
                &&& forall|y: int| 0 <= y < 41 ==> (#[trigger] matrix@[y])@.len() == 41
                &&& forall|y: int, x: int|
                    0 <= y < 41 && 0 <= x < 41 ==> #[trigger] matrix@[y]@[x] == qr_v6_low(
                        data@,
                    ).unwrap()[y * 41 + x]
            },
            Err(e) => qr_v6_low(data@) == Err::<Seq<bool>, QrCodeError>(e),
        },
{
    let (width, modules) = match encode_qr_v6_low(data) {
        Ok(m) => m,
        Err(e) => return Err(e),
    };
    let ghost colors = modules@;
    let mut matrix: Vec<Vec<bool>> = Vec::new();
    let mut y: usize = 0;
    while y < width
        invariant
            width == 41,
            modules@ == colors,
            colors.len() == 41 * 41,
            0 <= y <= width,
            matrix.len() == y,
            forall|r: int| 0 <= r < y ==> (#[trigger] matrix@[r])@.len() == 41,
            forall|r: int, x: int|
                0 <= r < y && 0 <= x < 41 ==> #[trigger] matrix@[r]@[x] == colors[r * 41 + x],
        decreases width - y,
    {
        let mut row: Vec<bool> = Vec::new();
        let mut x: usize = 0;
        while x < width
            invariant
                width == 41,
                modules@ == colors,
                colors.len() == 41 * 41,
                0 <= y < 41,
                0 <= x <= width,
                row.len() == x,
                forall|c: int| 0 <= c < x ==> row@[c] == colors[y * 41 + c],
            decreases width - x,
        {
            assert(y * 41 + x < 41 * 41) by (nonlinear_arith)
                requires
                    y < 41,
                    x < 41,
            ;
            row.push(modules[y * width + x]);
            x += 1;
        }
        matrix.push(row);
        y += 1;
    }
    Ok(matrix)
}

} // verus!

verus! {

/// What a valid device string configures is clean: the base URL, secret and
/// currency are non-empty and have no surrounding white space, the base URL
/// contains "api", and the page base URL is the part of the base URL before
/// its first "api" followed by "atm?lightning=".
pub proof fn law_device_string_fields(s: Seq<char>)
    requires
        spec_device_string(s) is Ok,
    ensures
        ({
            let (base, page, secret, currency) = spec_device_string(s)->Ok_0;
            &&& base.len() > 0 && secret.len() > 0 && currency.len() > 0
            &&& trim(base) == base && trim(secret) == secret && trim(currency) == currency
            &&& find_str(base, "api"@) is Some
            &&& page == base.take(find_str(base, "api"@).unwrap()) + "atm?lightning="@
        }),
{
    let parts = splitn(s, 3, ',');
    crate::text::lemma_trim_idempotent(parts[0]);
    crate::text::lemma_trim_idempotent(parts[1]);
    crate::text::lemma_trim_idempotent(parts[2]);
}

} // verus!
