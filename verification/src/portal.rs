//! The configuration portal's form handling: reading the submitted
//! URL-encoded values.
use vstd::prelude::*;
use crate::config::{DEFAULT_BOARD_TYPE, DEFAULT_DISPLAY_TYPE, DEFAULT_ROTATION};
use crate::text::{chars_of, range_equals, split, string_from_range};
use crate::util::{spec_device_string, LNBitsConnection};

verus! {

/// The text that `percent_encoding::percent_decode_str(s).decode_utf8_lossy()`
/// gives for `s`.
pub uninterp spec fn percent_decoded_lossy(s: Seq<char>) -> Seq<char>;

/// Calls `percent_encoding::percent_decode_str(s).decode_utf8_lossy()`.
/// Claimed: the result is a function of `s` alone, and text without '%' comes
/// back unchanged (only "%" and two hex digits is decoded, and the bytes of a
/// `str` are valid UTF-8, which lossy decoding keeps). What the decoding gives
/// for text with '%' (hex decoding, then U+FFFD for invalid UTF-8) is left
/// unsaid.
#[verifier::external_body]
fn percent_decode_lossy(s: &str) -> (r: String)
    ensures
        r@ == percent_decoded_lossy(s@),
        !s@.contains('%') ==> r@ == s@,
{
    percent_encoding::percent_decode_str(s).decode_utf8_lossy().into_owned()
}

/// `s` with each '+' replaced by a space.
pub open spec fn plus_to_space(s: Seq<char>) -> Seq<char> {
    s.map_values(|c: char| if c == '+' { ' ' } else { c })
}

/// Whether `s` begins with `p`.
pub open spec fn starts_with(s: Seq<char>, p: Seq<char>) -> bool {
    p.len() <= s.len() && s.take(p.len() as int) == p
}

/// What follows `p` in the first of `pairs` that begins with `p`.
pub open spec fn first_prefixed(pairs: Seq<Seq<char>>, p: Seq<char>) -> Option<Seq<char>>
    decreases pairs.len(),
{
    if pairs.len() == 0 {
        None
    } else if starts_with(pairs[0], p) {
        Some(pairs[0].skip(p.len() as int))
    } else {
        first_prefixed(pairs.drop_first(), p)
    }
}

/// A raw form value decoded: its '+' read as spaces, then its
/// percent-escapes decoded; a value without '%' has nothing more to decode.
pub open spec fn form_decoded(v: Seq<char>) -> Seq<char> {
    if v.contains('%') {
        percent_decoded_lossy(plus_to_space(v))
    } else {
        plus_to_space(v)
    }
}

/// The value of `key` in the URL-encoded form `body`: the first '&'-separated
/// pair that begins with `key=` gives it, decoded by [`form_decoded`].
pub open spec fn spec_form_value(body: Seq<char>, key: Seq<char>) -> Option<Seq<char>> {
    match first_prefixed(split(body, '&'), key.push('=')) {
        Some(v) => Some(form_decoded(v)),
        None => None,
    }
}

proof fn lemma_first_prefixed_push(pairs: Seq<Seq<char>>, last: Seq<char>, p: Seq<char>)
    requires
        first_prefixed(pairs, p) is None,
    ensures
        first_prefixed(pairs.push(last), p) == first_prefixed(seq![last], p),
    decreases pairs.len(),
{
    if pairs.len() > 0 {
        assert(pairs.push(last).drop_first() =~= pairs.drop_first().push(last));
        assert(pairs.push(last)[0] == pairs[0]);
        lemma_first_prefixed_push(pairs.drop_first(), last, p);
    } else {
        assert(pairs.push(last) =~= seq![last]);
    }
}

/// A `String` of `v[lo..hi]` with each '+' replaced by a space.
fn plus_decoded(v: &Vec<char>, lo: usize, hi: usize) -> (s: String)
    requires
        lo <= hi <= v.len(),
    ensures
        s@ == plus_to_space(v@.subrange(lo as int, hi as int)),
{
    let mut w: Vec<char> = Vec::new();
    let mut i: usize = lo;
    while i < hi
        invariant
            lo <= i <= hi <= v.len(),
            w@ == plus_to_space(v@.subrange(lo as int, i as int)),
        decreases hi - i,
    {
        let c = v[i];
        if c == '+' {
            w.push(' ');
        } else {
            w.push(c);
        }
        assert(w@ =~= plus_to_space(v@.subrange(lo as int, i + 1)));
        i += 1;
    }
    let s = string_from_range(&w, 0, w.len());
    assert(w@.subrange(0, w.len() as int) =~= w@);
    s
}

/// The decoded value for what `first_prefixed` found, if anything.
pub open spec fn decoded_value(found: Option<Seq<char>>) -> Option<Seq<char>> {
    match found {
        Some(v) => Some(form_decoded(v)),
        None => None,
    }
}

proof fn lemma_first_prefixed_push_found(pairs: Seq<Seq<char>>, last: Seq<char>, p: Seq<char>)
    requires
        first_prefixed(pairs, p) is Some,
    ensures
        first_prefixed(pairs.push(last), p) == first_prefixed(pairs, p),
    decreases pairs.len(),
{
    assert(pairs.push(last)[0] == pairs[0]);
    if !starts_with(pairs[0], p) {
        assert(pairs.push(last).drop_first() =~= pairs.drop_first().push(last));
        lemma_first_prefixed_push_found(pairs.drop_first(), last, p);
    }
}

/// Looks at the pair `v[start..end]`: when no earlier pair gave the value
/// and this one begins with `prefix`, its decoded rest becomes the value.
fn take_pair(
    v: &Vec<char>,
    start: usize,
    end: usize,
    prefix: &Vec<char>,
    result: &mut Option<String>,
    Ghost(done): Ghost<Seq<Seq<char>>>,
)
    requires
        start <= end <= v.len(),
        opt_text(*old(result)) == decoded_value(first_prefixed(done, prefix@)),
    ensures
        opt_text(*final(result)) == decoded_value(
            first_prefixed(done.push(v@.subrange(start as int, end as int)), prefix@),
        ),
{
    let ghost piece = v@.subrange(start as int, end as int);
    let ghost p = prefix@;
    if result.is_some() {
        proof {
            lemma_first_prefixed_push_found(done, piece, p);
        }
        return;
    }
    let plen = prefix.len();
    let matched = end - start >= plen && range_equals(v, start, start + plen, prefix);
    proof {
        lemma_first_prefixed_push(done, piece, p);
        assert(seq![piece][0] == piece);
        assert(seq![piece].drop_first() =~= Seq::<Seq<char>>::empty());
        if end - start >= plen {
            assert(piece.take(plen as int) =~= v@.subrange(start as int, start + plen));
        }
    }
    if matched {
        let value = plus_decoded(v, start + plen, end);
        assert(piece.skip(plen as int) =~= v@.subrange(start + plen, end as int));
        assert(starts_with(piece, p));
        assert(first_prefixed(seq![piece], p) == Some(piece.skip(plen as int)));
        let decoded = percent_decode_lossy(value.as_str());
        proof {
            let raw = piece.skip(plen as int);
            if !raw.contains('%') {
                assert forall|k: int| 0 <= k < value@.len() implies value@[k] != '%' by {
                    assert(raw[k] != '%');
                }
                assert(!value@.contains('%'));
            }
        }
        *result = Some(decoded);
    } else {
        assert(!starts_with(piece, p));
        assert(first_prefixed(Seq::<Seq<char>>::empty(), p) is None);
        assert(first_prefixed(seq![piece], p) is None);
    }
}

/// Parse a value from URL-encoded form data (key=value&key2=value2)
pub fn parse_form_value(body: &str, key: &str) -> (r: Option<String>)
    ensures
        opt_text(r) == spec_form_value(body@, key@),
{
    let v = chars_of(body);
    let mut prefix = chars_of(key);
    prefix.push('=');
    let ghost mut done: Seq<Seq<char>> = Seq::empty();
    let mut result: Option<String> = None;
    let mut start: usize = 0;
    let mut i: usize = 0;
    assert(v@.take(0) =~= Seq::<char>::empty());
    assert(v@.subrange(0, 0) =~= Seq::<char>::empty());
    while i < v.len()
        invariant
            0 <= start <= i <= v.len(),
            split(v@.take(i as int), '&') == done.push(v@.subrange(start as int, i as int)),
            opt_text(result) == decoded_value(first_prefixed(done, prefix@)),
        decreases v.len() - i,
    {
        assert(v@.take(i + 1).drop_last() =~= v@.take(i as int));
        if v[i] == '&' {
            take_pair(&v, start, i, &prefix, &mut result, Ghost(done));
            proof {
                done = done.push(v@.subrange(start as int, i as int));
                assert(v@.subrange(i + 1, i + 1) =~= Seq::<char>::empty());
            }
            start = i + 1;
        } else {
            assert(v@.subrange(start as int, i + 1) =~= v@.subrange(start as int, i as int).push(
                v@[i as int],
            ));
        }
        i += 1;
    }
    take_pair(&v, start, v.len(), &prefix, &mut result, Ghost(done));
    proof {
        assert(v@.take(v.len() as int) =~= v@);
        done = done.push(v@.subrange(start as int, v.len() as int));
        assert(prefix@ == key@.push('='));
    }
    result
}

/// The text of an optional `String`.
pub open spec fn opt_text(o: Option<String>) -> Option<Seq<char>> {
    match o {
        Some(s) => Some(s@),
        None => None,
    }
}

} // verus!

verus! {

/// The text of `o`, or `default` when there is none.
pub open spec fn or_default(o: Option<Seq<char>>, default: Seq<char>) -> Seq<char> {
    match o {
        Some(v) => v,
        None => default,
    }
}

/// The settings submitted through the configuration portal.
pub struct PortalSettings {
    pub device_string: String,
    pub display_type: String,
    pub board_type: String,
    pub rotation: String,
}

/// `o`, or a copy of `default` when it is `None`.
fn value_or(o: Option<String>, default: &str) -> (s: String)
    ensures
        s@ == or_default(opt_text(o), default@),
{
    match o {
        Some(v) => v,
        None => {
            let mut s = String::new();
            s.append(default);
            s
        },
    }
}

impl PortalSettings {
    /// The settings that the submitted form `body` holds: each value as the
    /// form gives it, the device string empty and the others their defaults
    /// when the form lacks them.
    pub fn from_form(body: &str) -> (s: Self)
        ensures
            s.device_string@ == or_default(
                spec_form_value(body@, "device_string"@),
                Seq::empty(),
            ),
            s.display_type@ == or_default(
                spec_form_value(body@, "display_type"@),
                DEFAULT_DISPLAY_TYPE@,
            ),
            s.board_type@ == or_default(spec_form_value(body@, "board_type"@), DEFAULT_BOARD_TYPE@),
            s.rotation@ == or_default(spec_form_value(body@, "rotation"@), DEFAULT_ROTATION@),
    {
        let device_string = match parse_form_value(body, "device_string") {
            Some(v) => v,
            None => String::new(),
        };
        let display_type = value_or(parse_form_value(body, "display_type"), DEFAULT_DISPLAY_TYPE);
        let board_type = value_or(parse_form_value(body, "board_type"), DEFAULT_BOARD_TYPE);
        let rotation = value_or(parse_form_value(body, "rotation"), DEFAULT_ROTATION);
        PortalSettings { device_string, display_type, board_type, rotation }
    }
}


/// What a portal submission stores: the connection its device string
/// configures, and the display, board and rotation settings.
pub struct PortalSave {
    pub connection: LNBitsConnection,
    pub display_type: String,
    pub board_type: String,
    pub rotation: String,
}

impl PortalSettings {
    /// What to store for these settings: everything, when the device string
    /// is valid; nothing, and the device string's error, when it is not.
    pub fn to_save(self) -> (r: Result<PortalSave, &'static str>)
        ensures
            match r {
                Ok(save) => {
                    &&& spec_device_string(self.device_string@) == Ok::<_, Seq<char>>(
                        save.connection.parts(),
                    )
                    &&& save.display_type@ == self.display_type@
                    &&& save.board_type@ == self.board_type@
                    &&& save.rotation@ == self.rotation@
                },
                Err(e) => spec_device_string(self.device_string@) == Err::<
                    (Seq<char>, Seq<char>, Seq<char>, Seq<char>),
                    _,
                >(e@),
            },
    {
        match LNBitsConnection::from_device_string(self.device_string.as_str()) {
            Ok(connection) => Ok(
                PortalSave {
                    connection,
                    display_type: self.display_type,
                    board_type: self.board_type,
                    rotation: self.rotation,
                },
            ),
            Err(e) => Err(e),
        }
    }
}

} // verus!
