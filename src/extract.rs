use vstd::prelude::*;
use vstd::string::*;
use crate::common::ParseError;
use crate::text::{
    ascii_upper, ascii_uppered, hex_digit_value, index_from, is_ascii_text, is_hex_digit,
    all_hex, chars_of, find, find_from, hex_u16, hex_value, lemma_four_hex_digits_fit, last_segment, last_segment_of, lemma_find_from, nul_prefix,
    parse_hex_u16, text_before_nul,
};

verus! {

/// What `String::from_utf16_lossy` returns for the code units `units`.
pub uninterp spec fn utf16_lossy_of(units: Seq<u16>) -> Seq<char>;

/// What `str::to_uppercase` returns for the characters `s`.
pub uninterp spec fn upper_of(s: Seq<char>) -> Seq<char>;

/// Relies on `String::from_utf16_lossy`: the decoded text depends on the code units alone,
/// and where no unit is a surrogate, each unit is the character of that code point.
#[verifier::external_body]
fn decode_utf16_lossy(units: &Vec<u16>) -> (r: String)
    ensures
        r@ == utf16_lossy_of(units@),
        no_surrogates(units@) ==> plain_units_text(units@, r@),
{
    String::from_utf16_lossy(units.as_slice())
}

/// Relies on `str::to_uppercase`: the uppercase form depends on the characters alone,
/// and maps each ASCII letter to its uppercase letter and other ASCII characters to themselves.
#[verifier::external_body]
fn uppercase(s: &str) -> (r: String)
    ensures
        r@ == upper_of(s@),
        is_ascii_text(s@) ==> ascii_uppered(s@, r@),
{
    s.to_uppercase()
}

/// No code unit of `u` is a UTF-16 surrogate.
pub open spec fn no_surrogates(u: Seq<u16>) -> bool {
    forall|i: int| 0 <= i < u.len() ==> !(0xD800 <= #[trigger] u[i] && u[i] <= 0xDFFF)
}

/// `t` holds, one for one, the characters whose code points are the units `u`.
pub open spec fn plain_units_text(u: Seq<u16>, t: Seq<char>) -> bool {
    t.len() == u.len() && forall|i: int| 0 <= i < u.len() ==> (#[trigger] t[i] as u32) == u[i] as u32
}

/// The first index at or after `i` that holds a zero unit.
pub open spec fn zero_index_from(u: Seq<u16>, i: int) -> Option<int>
    decreases u.len() - i,
{
    if i < 0 || i >= u.len() {
        None
    } else if u[i] == 0 {
        Some(i)
    } else {
        zero_index_from(u, i + 1)
    }
}

/// The code units before the first zero unit; all of `u` where there is none.
pub open spec fn units_before_zero(u: Seq<u16>) -> Seq<u16> {
    match zero_index_from(u, 0) {
        Some(k) => u.subrange(0, k),
        None => u,
    }
}

/// `n` zero units.
pub open spec fn zero_units(n: nat) -> Seq<u16> {
    Seq::new(n, |i: int| 0u16)
}

/// `n` zero bytes.
pub open spec fn zero_bytes(n: nat) -> Seq<u8> {
    Seq::new(n, |i: int| 0u8)
}

/// Where the units hold no surrogate, the text that they hold before the first NUL
/// is the units before the first zero unit, one character each.
pub proof fn lemma_plain_text_of_units(u: Seq<u16>, t: Seq<char>)
    requires
        plain_units_text(u, t),
    ensures
        plain_units_text(units_before_zero(u), nul_prefix(t)),
{
    lemma_same_zero_index(u, t, 0);
}

proof fn lemma_same_zero_index(u: Seq<u16>, t: Seq<char>, i: int)
    requires
        plain_units_text(u, t),
        0 <= i,
    ensures
        zero_index_from(u, i) == index_from(t, '\0', i),
        zero_index_from(u, i) matches Some(k) ==> 0 <= k < u.len(),
    decreases u.len() - i,
{
    if i < u.len() {
        assert(t[i] as u32 == u[i] as u32);
        vstd::utf8::char_u32_cast(t[i], t[i] as u32);
        vstd::utf8::char_u32_cast('\0', 0u32);
        assert((t[i] == '\0') == (u[i] == 0));
        if u[i] != 0 {
            lemma_same_zero_index(u, t, i + 1);
        }
    }
}

/// Units without a zero, followed by any number of zero units, are cut back to themselves.
pub proof fn lemma_units_stop_at_zero(t: Seq<u16>, pad: nat)
    requires
        forall|i: int| 0 <= i < t.len() ==> #[trigger] t[i] != 0,
    ensures
        units_before_zero(t + zero_units(pad)) == t,
{
    let u = t + zero_units(pad);
    if pad == 0 {
        assert(u =~= t);
        lemma_no_zero_from(u, 0);
    } else {
        assert forall|i: int| 0 <= i <= t.len() implies zero_index_from(u, i) == Some(
            t.len() as int,
        ) by {
            lemma_zero_index_down(u, t.len() as int, i);
        }
        assert(u.subrange(0, t.len() as int) =~= t);
    }
}

proof fn lemma_no_zero_from(u: Seq<u16>, i: int)
    requires
        0 <= i,
        forall|j: int| 0 <= j < u.len() ==> #[trigger] u[j] != 0,
    ensures
        zero_index_from(u, i) is None,
    decreases u.len() - i,
{
    if i < u.len() {
        lemma_no_zero_from(u, i + 1);
    }
}

proof fn lemma_zero_index_down(u: Seq<u16>, k: int, i: int)
    requires
        0 <= i <= k < u.len(),
        u[k] == 0,
        forall|j: int| 0 <= j < k ==> u[j] != 0,
    ensures
        zero_index_from(u, i) == Some(k),
    decreases k - i,
{
    if i < k {
        lemma_zero_index_down(u, k, i + 1);
    }
}

/// A byte buffer of even length padded with zero bytes, two to a unit, holds its
/// own units followed by zero units.
pub proof fn lemma_le_units_padded(b: Seq<u8>, pad: nat)
    requires
        b.len() % 2 == 0,
    ensures
        le_units(b + zero_bytes(2 * pad)) == le_units(b) + zero_units(pad),
{
    let c = b + zero_bytes(2 * pad);
    assert(c.len() / 2 == b.len() / 2 + pad);
    assert forall|i: int| 0 <= i < c.len() / 2 implies #[trigger] le_units(c)[i] == (le_units(b)
        + zero_units(pad))[i] by {
        if i < b.len() / 2 {
            assert(c[2 * i] == b[2 * i] && c[2 * i + 1] == b[2 * i + 1]);
        } else {
            assert(c[2 * i] == 0 && c[2 * i + 1] == 0);
        }
    }
    assert(le_units(c) =~= le_units(b) + zero_units(pad));
}

/// The digits of an identifier, without its `0x` prefix if it has one.
pub open spec fn id_digits(s: Seq<char>) -> Seq<char> {
    if s.len() >= 2 && s[0] == '0' && s[1] == 'x' {
        s.subrange(2, s.len() as int)
    } else {
        s
    }
}

/// The 16-bit identifier that `s` writes in hexadecimal, optionally after `0x`.
pub open spec fn id_value(s: Seq<char>) -> Result<u16, ParseError> {
    match hex_u16(id_digits(s)) {
        Some(v) => Ok(v),
        None => Err(ParseError),
    }
}

/// The identifier written by the four characters after the first `marker` in `s`.
pub open spec fn marked_id(s: Seq<char>, marker: Seq<char>) -> Option<u16> {
    match find_from(s, marker, 0) {
        Some(i) => if i + marker.len() + 4 <= s.len() {
            hex_u16(s.subrange(i + marker.len(), i + marker.len() + 4))
        } else {
            None
        },
        None => None,
    }
}

/// The vendor and product IDs that follow the first `VID_` and the first `PID_` of `s`.
pub open spec fn vid_pid_of(s: Seq<char>) -> Result<(u16, u16), ParseError> {
    match (marked_id(s, "VID_"@), marked_id(s, "PID_"@)) {
        (Some(v), Some(p)) => Ok((v, p)),
        _ => Err(ParseError),
    }
}

/// The code units that a byte buffer holds, two bytes each, least significant first;
/// an odd last byte is left out.
pub open spec fn le_units(b: Seq<u8>) -> Seq<u16> {
    Seq::new(b.len() / 2, |i: int| (b[2 * i] + 256 * b[2 * i + 1]) as u16)
}

/// The text that a buffer of UTF-16 code units holds before its first NUL.
pub open spec fn text_of_units(units: Seq<u16>) -> Seq<char> {
    nul_prefix(utf16_lossy_of(units))
}

/// A run of hexadecimal digits, with or without a `0x` prefix, parses to its value
/// when that value fits in 16 bits; digits with a character that is not a
/// hexadecimal digit, or with a larger value, do not parse.
pub proof fn lemma_id_parse(digits: Seq<char>, prefixed: bool)
    requires
        !prefixed ==> !(digits.len() >= 2 && digits[0] == '0' && digits[1] == 'x'),
    ensures
        ({
            let text = if prefixed {
                seq!['0', 'x'] + digits
            } else {
                digits
            };
            if digits.len() > 0 && all_hex(digits) && hex_value(digits) <= 0xFFFF {
                id_value(text) == Ok::<u16, ParseError>(hex_value(digits) as u16)
            } else {
                id_value(text) == Err::<u16, ParseError>(ParseError)
            }
        }),
{
    if prefixed {
        let text = seq!['0', 'x'] + digits;
        assert(text.subrange(2, text.len() as int) =~= digits);
    }
}

/// Where the first `VID_` and the first `PID_` are each followed by four
/// hexadecimal digits, the IDs read are the values of those digits; where either
/// marker is missing, no IDs are read.
pub proof fn lemma_vid_pid(s: Seq<char>, i: int, j: int)
    requires
        find_from(s, "VID_"@, 0) == Some(i) || find_from(s, "VID_"@, 0) is None,
        find_from(s, "PID_"@, 0) == Some(j) || find_from(s, "PID_"@, 0) is None,
        find_from(s, "VID_"@, 0) is Some ==> i + 8 <= s.len() && all_hex(s.subrange(i + 4, i + 8)),
        find_from(s, "PID_"@, 0) is Some ==> j + 8 <= s.len() && all_hex(s.subrange(j + 4, j + 8)),
    ensures
        find_from(s, "VID_"@, 0) is Some && find_from(s, "PID_"@, 0) is Some ==> vid_pid_of(s)
            == Ok::<(u16, u16), ParseError>(
            (
                hex_value(s.subrange(i + 4, i + 8)) as u16,
                hex_value(s.subrange(j + 4, j + 8)) as u16,
            ),
        ),
        find_from(s, "VID_"@, 0) is None || find_from(s, "PID_"@, 0) is None ==> vid_pid_of(s)
            is Err,
{
    reveal_strlit("VID_");
    reveal_strlit("PID_");
    lemma_find_from(s, "VID_"@, 0);
    lemma_find_from(s, "PID_"@, 0);
    if find_from(s, "VID_"@, 0) is Some && find_from(s, "PID_"@, 0) is Some {
        lemma_four_hex_digits_fit(s.subrange(i + 4, i + 8));
        lemma_four_hex_digits_fit(s.subrange(j + 4, j + 8));
    }
}

/// Hardware IDs that differ only in the case of ASCII letters give the same IDs,
/// whatever their ASCII-uppercased forms are.
pub proof fn lemma_vid_pid_case_insensitive(a: Seq<char>, b: Seq<char>, ua: Seq<char>, ub: Seq<char>)
    requires
        a.len() == b.len(),
        forall|i: int| 0 <= i < a.len() ==> ascii_upper(#[trigger] a[i]) == ascii_upper(b[i]),
        ascii_uppered(a, ua),
        ascii_uppered(b, ub),
    ensures
        ua == ub,
        vid_pid_of(ua) == vid_pid_of(ub),
{
    assert(ua =~= ub);
}

/// The hexadecimal digit, in lowercase, of a value below 16.
pub open spec fn hex_char(d: nat) -> char {
    if d < 10 {
        (('0' as u32) + d) as char
    } else {
        (('a' as u32) + d - 10) as char
    }
}

/// The lowercase hexadecimal spelling of `v`, most significant digit first.
pub open spec fn hex_spelling(v: nat) -> Seq<char>
    decreases v,
{
    if v < 16 {
        seq![hex_char(v)]
    } else {
        hex_spelling(v / 16).push(hex_char(v % 16))
    }
}

proof fn lemma_hex_char(d: nat)
    requires
        d < 16,
    ensures
        is_hex_digit(hex_char(d)),
        hex_digit_value(hex_char(d)) == d,
{
    let c = hex_char(d);
    if d < 10 {
        vstd::utf8::char_u32_cast(c, ('0' as u32 + d) as u32);
    } else {
        vstd::utf8::char_u32_cast(c, ('a' as u32 + d - 10) as u32);
    }
}

/// The hexadecimal spelling of a value reads back as that value.
pub proof fn lemma_hex_spelling(v: nat)
    ensures
        hex_spelling(v).len() > 0,
        all_hex(hex_spelling(v)),
        hex_value(hex_spelling(v)) == v,
    decreases v,
{
    if v < 16 {
        lemma_hex_char(v);
        let s = hex_spelling(v);
        assert(s.drop_last() =~= Seq::<char>::empty());
        assert(hex_value(s.drop_last()) == 0);
        assert(s.last() == hex_char(v));
    } else {
        lemma_hex_spelling(v / 16);
        lemma_hex_char(v % 16);
        let s = hex_spelling(v);
        assert(s.drop_last() =~= hex_spelling(v / 16));
        assert(s.last() == hex_char(v % 16));
        assert(hex_value(s) == hex_value(hex_spelling(v / 16)) * 16 + hex_digit_value(s.last()));
        assert((v / 16) * 16 + v % 16 == v);
        assert forall|i: int| 0 <= i < s.len() implies is_hex_digit(#[trigger] s[i]) by {
            if i < s.len() - 1 {
                assert(s[i] == hex_spelling(v / 16)[i]);
            }
        }
    }
}

/// Every 16-bit value, spelt in hexadecimal with or without `0x`, parses back to itself.
pub proof fn lemma_every_id_parses_back(v: u16)
    ensures
        id_value(hex_spelling(v as nat)) == Ok::<u16, ParseError>(v),
        id_value(seq!['0', 'x'] + hex_spelling(v as nat)) == Ok::<u16, ParseError>(v),
{
    let s = hex_spelling(v as nat);
    lemma_hex_spelling(v as nat);
    assert(is_hex_digit(s[0]));
    if s.len() >= 2 {
        assert(is_hex_digit(s[1]));
    }
    lemma_id_parse(s, false);
    lemma_id_parse(s, true);
}

/// Parses a vendor or product ID written in hexadecimal, optionally prefixed with `0x`.
pub fn get_pid_or_vid(id: &str) -> (r: Result<u16, ParseError>)
    ensures
        r == id_value(id@),
{
    let cs = chars_of(id);
    let start: usize = if cs.len() >= 2 && cs[0] == '0' && cs[1] == 'x' {
        2
    } else {
        0
    };
    assert(id_digits(id@) == cs@.subrange(start as int, cs@.len() as int));
    match parse_hex_u16(&cs, start, cs.len()) {
        Some(v) => Ok(v),
        None => Err(ParseError),
    }
}

/// The identifier written by the four characters after the first `marker` in `s`.
fn marked_id_in(s: &Vec<char>, marker: &Vec<char>) -> (r: Option<u16>)
    ensures
        r == marked_id(s@, marker@),
{
    match find(s, marker) {
        Some(i) => {
            proof {
                lemma_find_from(s@, marker@, 0);
            }
            let n = s.len();
            let from = i + marker.len();
            if from <= n && 4 <= n - from {
                parse_hex_u16(s, from, from + 4)
            } else {
                None
            }
        },
        None => None,
    }
}

/// Reads the vendor and product IDs out of an already uppercased hardware ID,
/// from the four hexadecimal digits after `VID_` and after `PID_`.
pub fn vid_pid_from_uppercase(id: &str) -> (r: Result<(u16, u16), ParseError>)
    ensures
        r == vid_pid_of(id@),
{
    let cs = chars_of(id);
    let vid_marker = chars_of("VID_");
    let pid_marker = chars_of("PID_");
    match (marked_id_in(&cs, &vid_marker), marked_id_in(&cs, &pid_marker)) {
        (Some(v), Some(p)) => Ok((v, p)),
        _ => Err(ParseError),
    }
}

/// The code units of a byte buffer, two bytes each, least significant first.
pub fn units_from_bytes(buf: &Vec<u8>) -> (r: Vec<u16>)
    ensures
        r@ == le_units(buf@),
{
    let len = buf.len();
    let n = len / 2;
    let mut r: Vec<u16> = Vec::new();
    let mut i: usize = 0;
    while i < n
        invariant
            len == buf@.len(),
            n == buf@.len() / 2,
            i <= n,
            r@ == le_units(buf@).subrange(0, i as int),
        decreases n - i,
    {
        assert(2 * i + 1 < len);
        let lo = buf[2 * i] as u16;
        let hi = buf[2 * i + 1] as u16;
        r.push(lo + 256 * hi);
        assert(r@ =~= le_units(buf@).subrange(0, i + 1));
        i = i + 1;
    }
    assert(r@ =~= le_units(buf@));
    r
}

/// Decodes a buffer of UTF-16 code units, replacing what is not valid UTF-16,
/// and keeps the text before the first NUL.
pub fn string_from_buf_u16(buf: Vec<u16>) -> (r: String)
    ensures
        r@ == text_of_units(buf@),
        no_surrogates(buf@) ==> plain_units_text(units_before_zero(buf@), r@),
{
    let out = decode_utf16_lossy(&buf);
    proof {
        if no_surrogates(buf@) {
            lemma_plain_text_of_units(buf@, out@);
        }
    }
    text_before_nul(out.as_str())
}

/// Decodes a byte buffer that holds UTF-16 code units, least significant byte first,
/// and keeps the text before the first NUL.
pub fn string_from_buf_u8(buf: Vec<u8>) -> (r: String)
    ensures
        r@ == text_of_units(le_units(buf@)),
        no_surrogates(le_units(buf@)) ==> plain_units_text(units_before_zero(le_units(buf@)), r@),
{
    string_from_buf_u16(units_from_bytes(&buf))
}

/// The serial number in a device instance ID: its text after the last backslash.
pub fn extract_serial_number(buf: Vec<u16>) -> (r: Option<String>)
    ensures
        r matches Some(s) && s@ == last_segment_of(text_of_units(buf@)),
{
    let id = string_from_buf_u16(buf);
    Some(last_segment(id.as_str()))
}

/// Reads the vendor and product IDs out of a hardware ID buffer.
pub fn extract_vid_pid(buf: Vec<u8>) -> (r: Result<(u16, u16), ParseError>)
    ensures
        r == vid_pid_of(upper_of(text_of_units(le_units(buf@)))),
{
    let id = uppercase(string_from_buf_u8(buf).as_str());
    vid_pid_from_uppercase(id.as_str())
}

} // verus!
