use vstd::prelude::*;
use vstd::string::*;

verus! {

/// A hexadecimal digit, in either case.
pub open spec fn is_hex_digit(c: char) -> bool {
    ('0' <= c && c <= '9') || ('a' <= c && c <= 'f') || ('A' <= c && c <= 'F')
}

/// The value of a hexadecimal digit.
pub open spec fn hex_digit_value(c: char) -> nat {
    if '0' <= c && c <= '9' {
        (c as u32 - '0' as u32) as nat
    } else if 'a' <= c && c <= 'f' {
        (c as u32 - 'a' as u32 + 10) as nat
    } else {
        (c as u32 - 'A' as u32 + 10) as nat
    }
}

/// Every character of `s` is a hexadecimal digit.
pub open spec fn all_hex(s: Seq<char>) -> bool {
    forall|i: int| 0 <= i < s.len() ==> is_hex_digit(#[trigger] s[i])
}

/// The number that the hexadecimal digits `s` write, most significant first.
pub open spec fn hex_value(s: Seq<char>) -> nat
    decreases s.len(),
{
    if s.len() == 0 {
        0
    } else {
        hex_value(s.drop_last()) * 16 + hex_digit_value(s.last())
    }
}

/// The 16-bit number that `s` writes in hexadecimal, if `s` is a non-empty
/// run of hexadecimal digits whose value fits in 16 bits.
pub open spec fn hex_u16(s: Seq<char>) -> Option<u16> {
    if s.len() > 0 && all_hex(s) && hex_value(s) <= 0xFFFF {
        Some(hex_value(s) as u16)
    } else {
        None
    }
}

/// The number that the decimal digits `s` write, most significant first.
pub open spec fn dec_value(s: Seq<char>) -> nat
    decreases s.len(),
{
    if s.len() == 0 {
        0
    } else {
        dec_value(s.drop_last()) * 10 + (s.last() as u32 - '0' as u32) as nat
    }
}

/// Every character of `s` is a decimal digit.
pub open spec fn all_dec(s: Seq<char>) -> bool {
    forall|i: int| 0 <= i < s.len() ==> '0' <= #[trigger] s[i] && s[i] <= '9'
}

/// The byte that `s` writes in decimal, after an optional `+`.
pub open spec fn dec_u8(s: Seq<char>) -> Option<u8> {
    let d = if s.len() > 0 && s[0] == '+' {
        s.subrange(1, s.len() as int)
    } else {
        s
    };
    if d.len() > 0 && all_dec(d) && dec_value(d) <= 0xFF {
        Some(dec_value(d) as u8)
    } else {
        None
    }
}

/// The first index at or after `i` where `pat` occurs in `s`.
pub open spec fn find_from(s: Seq<char>, pat: Seq<char>, i: int) -> Option<int>
    decreases s.len() + 1 - i,
{
    if i < 0 || i + pat.len() > s.len() {
        None
    } else if s.subrange(i, i + pat.len()) == pat {
        Some(i)
    } else {
        find_from(s, pat, i + 1)
    }
}

/// The first index at or after `i` that holds the character `c`.
pub open spec fn index_from(s: Seq<char>, c: char, i: int) -> Option<int>
    decreases s.len() - i,
{
    if i < 0 || i >= s.len() {
        None
    } else if s[i] == c {
        Some(i)
    } else {
        index_from(s, c, i + 1)
    }
}

/// The last index below `n` that holds the character `c`.
pub open spec fn last_index_below(s: Seq<char>, c: char, n: int) -> Option<int>
    decreases n,
{
    if n <= 0 {
        None
    } else if s[n - 1] == c {
        Some(n - 1)
    } else {
        last_index_below(s, c, n - 1)
    }
}

/// The text before the first NUL character; all of `s` where there is none.
pub open spec fn nul_prefix(s: Seq<char>) -> Seq<char> {
    match index_from(s, '\0', 0) {
        Some(k) => s.subrange(0, k),
        None => s,
    }
}

/// The text after the last backslash; all of `s` where there is none.
pub open spec fn last_segment_of(s: Seq<char>) -> Seq<char> {
    match last_index_below(s, '\\', s.len() as int) {
        Some(k) => s.subrange(k + 1, s.len() as int),
        None => s,
    }
}

/// Every character of `s` is ASCII.
pub open spec fn is_ascii_text(s: Seq<char>) -> bool {
    forall|i: int| 0 <= i < s.len() ==> (#[trigger] s[i] as u32) < 128
}

/// The lowercase form of an ASCII character.
pub open spec fn ascii_lower(c: char) -> char {
    if 'A' <= c && c <= 'Z' {
        ((c as u32) + 32) as char
    } else {
        c
    }
}

/// The uppercase form of an ASCII character.
pub open spec fn ascii_upper(c: char) -> char {
    if 'a' <= c && c <= 'z' {
        ((c as u32) - 32) as char
    } else {
        c
    }
}

/// `l` is `s` with each ASCII letter lowercased.
pub open spec fn ascii_lowered(s: Seq<char>, l: Seq<char>) -> bool {
    l.len() == s.len() && forall|i: int| 0 <= i < s.len() ==> #[trigger] l[i] == ascii_lower(s[i])
}

/// `u` is `s` with each ASCII letter uppercased.
pub open spec fn ascii_uppered(s: Seq<char>, u: Seq<char>) -> bool {
    u.len() == s.len() && forall|i: int| 0 <= i < s.len() ==> #[trigger] u[i] == ascii_upper(s[i])
}

/// `s` holds no NUL character.
pub open spec fn no_nul(s: Seq<char>) -> bool {
    forall|i: int| 0 <= i < s.len() ==> s[i] != '\0'
}

/// Where the first occurrence of `pat` from `i` on stands.
pub proof fn lemma_find_from(s: Seq<char>, pat: Seq<char>, i: int)
    requires
        0 <= i,
    ensures
        find_from(s, pat, i) matches Some(k) ==> i <= k && k + pat.len() <= s.len()
            && s.subrange(k, k + pat.len()) == pat,
    decreases s.len() + 1 - i,
{
    if i + pat.len() <= s.len() && s.subrange(i, i + pat.len()) != pat {
        lemma_find_from(s, pat, i + 1);
    }
}

/// No NUL from `i` on means no index of one.
pub proof fn lemma_index_from_none(s: Seq<char>, c: char, i: int)
    requires
        0 <= i,
        forall|j: int| i <= j < s.len() ==> s[j] != c,
    ensures
        index_from(s, c, i) is None,
    decreases s.len() - i,
{
    if i < s.len() {
        lemma_index_from_none(s, c, i + 1);
    }
}

/// Text without a NUL character is kept whole.
pub proof fn lemma_clean_text_unchanged(s: Seq<char>)
    requires
        no_nul(s),
    ensures
        nul_prefix(s) == s,
        nul_prefix(nul_prefix(s)) == nul_prefix(s),
{
    lemma_index_from_none(s, '\0', 0);
}

/// Text followed by a NUL and any padding is cut back to the text.
pub proof fn lemma_text_stops_at_nul(s: Seq<char>, pad: Seq<char>)
    requires
        no_nul(s),
    ensures
        nul_prefix(s + seq!['\0'] + pad) == s,
{
    let t = s + seq!['\0'] + pad;
    assert forall|i: int| 0 <= i <= s.len() implies index_from(t, '\0', i) == Some(
        s.len() as int,
    ) by {
        lemma_index_from_down(t, s.len() as int, i);
    }
    assert(t.subrange(0, s.len() as int) =~= s);
}

/// The first NUL of `t` from `i` on, where none stands before `k` and one stands at `k`.
proof fn lemma_index_from_down(t: Seq<char>, k: int, i: int)
    requires
        0 <= i <= k < t.len(),
        t[k] == '\0',
        forall|j: int| 0 <= j < k ==> t[j] != '\0',
    ensures
        index_from(t, '\0', i) == Some(k),
    decreases k - i,
{
    if i < k {
        lemma_index_from_down(t, k, i + 1);
    }
}

/// The value of `n` hexadecimal digits is below `16` to the `n`; four digits fit in 16 bits.
pub proof fn lemma_four_hex_digits_fit(s: Seq<char>)
    requires
        s.len() == 4,
        all_hex(s),
    ensures
        hex_value(s) <= 0xFFFF,
{
    let s3 = s.drop_last();
    let s2 = s3.drop_last();
    let s1 = s2.drop_last();
    assert(s1.drop_last().len() == 0);
    assert(hex_digit_value(s[0]) < 16 && hex_digit_value(s[1]) < 16);
    assert(hex_digit_value(s[2]) < 16 && hex_digit_value(s[3]) < 16);
    assert(s1.last() == s[0] && s2.last() == s[1] && s3.last() == s[2]);
    assert(hex_value(s1.drop_last()) == 0);
    assert(hex_value(s1) < 16);
    assert(hex_value(s2) < 256);
    assert(hex_value(s3) < 4096);
}

/// The characters of `s`, one by one.
pub fn chars_of(s: &str) -> (r: Vec<char>)
    ensures
        r@ == s@,
{
    let n = s.unicode_len();
    let mut r: Vec<char> = Vec::new();
    let mut i: usize = 0;
    while i < n
        invariant
            n == s@.len(),
            i <= n,
            r@ == s@.subrange(0, i as int),
        decreases n - i,
    {
        r.push(s.get_char(i));
        i = i + 1;
    }
    assert(r@ =~= s@);
    r
}

/// The value of `c` as a hexadecimal digit.
fn hex_digit(c: char) -> (r: Option<u32>)
    ensures
        r is Some <==> is_hex_digit(c),
        r is Some ==> r->0 == hex_digit_value(c) && r->0 < 16,
{
    if '0' <= c && c <= '9' {
        Some(c as u32 - '0' as u32)
    } else if 'a' <= c && c <= 'f' {
        Some(c as u32 - 'a' as u32 + 10)
    } else if 'A' <= c && c <= 'F' {
        Some(c as u32 - 'A' as u32 + 10)
    } else {
        None
    }
}

/// Parses `s[start..end]` as a 16-bit hexadecimal number.
pub fn parse_hex_u16(s: &Vec<char>, start: usize, end: usize) -> (r: Option<u16>)
    requires
        start <= end <= s@.len(),
    ensures
        r == hex_u16(s@.subrange(start as int, end as int)),
{
    if start == end {
        return None;
    }
    // The value read so far, held at 0x10000 once it is past 16 bits.
    let mut v: u32 = 0;
    let mut i: usize = start;
    while i < end
        invariant
            start <= i <= end <= s@.len(),
            all_hex(s@.subrange(start as int, i as int)),
            v == if hex_value(s@.subrange(start as int, i as int)) < 0x10000 {
                hex_value(s@.subrange(start as int, i as int))
            } else {
                0x10000
            },
        decreases end - i,
    {
        let ghost before = s@.subrange(start as int, i as int);
        let ghost after = s@.subrange(start as int, i + 1);
        assert(after.drop_last() =~= before);
        match hex_digit(s[i]) {
            None => {
                assert(!is_hex_digit(after[i - start]));
                return None;
            },
            Some(d) => {
                let w: u32 = v * 16 + d;
                v = if w >= 0x10000 { 0x10000 } else { w };
                assert(all_hex(after)) by {
                    assert forall|j: int| 0 <= j < after.len() implies is_hex_digit(after[j]) by {
                        if j < before.len() {
                            assert(after[j] == before[j]);
                        }
                    }
                }
            },
        }
        i = i + 1;
    }
    if v <= 0xFFFF {
        Some(v as u16)
    } else {
        None
    }
}

/// Parses a byte written in decimal, after an optional `+`.
pub fn parse_u8(text: &str) -> (r: Option<u8>)
    ensures
        r == dec_u8(text@),
{
    let s = chars_of(text);
    let end = s.len();
    let start: usize = if end > 0 && s[0] == '+' {
        1
    } else {
        0
    };
    assert(s@.subrange(start as int, end as int) == if s@.len() > 0 && s@[0] == '+' {
        s@.subrange(1, s@.len() as int)
    } else {
        s@
    });
    if start == end {
        return None;
    }
    // The value read so far, held at 0x100 once it is past 8 bits.
    let mut v: u32 = 0;
    let mut i: usize = start;
    while i < end
        invariant
            start <= i <= end == s@.len(),
            s@ == text@,
            start == (if s@.len() > 0 && s@[0] == '+' { 1int } else { 0int }),
            all_dec(s@.subrange(start as int, i as int)),
            v == if dec_value(s@.subrange(start as int, i as int)) < 0x100 {
                dec_value(s@.subrange(start as int, i as int))
            } else {
                0x100
            },
        decreases end - i,
    {
        let ghost before = s@.subrange(start as int, i as int);
        let ghost after = s@.subrange(start as int, i + 1);
        assert(after.drop_last() =~= before);
        let c = s[i];
        if !('0' <= c && c <= '9') {
            assert(s@.subrange(start as int, end as int)[i - start] == c);
            assert(!all_dec(s@.subrange(start as int, end as int)));
            return None;
        }
        let w: u32 = v * 10 + (c as u32 - '0' as u32);
        v = if w >= 0x100 { 0x100 } else { w };
        assert(all_dec(after)) by {
            assert forall|j: int| 0 <= j < after.len() implies '0' <= after[j] && after[j] <= '9' by {
                if j < before.len() {
                    assert(after[j] == before[j]);
                }
            }
        }
        i = i + 1;
    }
    if v <= 0xFF {
        Some(v as u8)
    } else {
        None
    }
}

/// Whether `pat` occurs in `s` at index `i`.
fn occurs_at(s: &Vec<char>, pat: &Vec<char>, i: usize) -> (r: bool)
    requires
        i + pat@.len() <= s@.len(),
    ensures
        r == (s@.subrange(i as int, i + pat@.len()) == pat@),
{
    let mut k: usize = 0;
    while k < pat.len()
        invariant
            i + pat@.len() <= s@.len(),
            s@.len() == s.len(),
            k <= pat@.len(),
            s@.subrange(i as int, i + k) == pat@.subrange(0, k as int),
        decreases pat@.len() - k,
    {
        if s[i + k] != pat[k] {
            assert(s@.subrange(i as int, i + pat@.len())[k as int] != pat@[k as int]);
            return false;
        }
        assert(s@.subrange(i as int, i + k + 1) =~= s@.subrange(i as int, i + k).push(s@[i + k]));
        assert(pat@.subrange(0, k + 1) =~= pat@.subrange(0, k as int).push(pat@[k as int]));
        k = k + 1;
    }
    assert(pat@.subrange(0, k as int) =~= pat@);
    true
}

/// The first index where `pat` occurs in `s`.
pub fn find(s: &Vec<char>, pat: &Vec<char>) -> (r: Option<usize>)
    ensures
        r matches Some(i) ==> find_from(s@, pat@, 0) == Some(i as int),
        r is None ==> find_from(s@, pat@, 0) is None,
{
    if pat.len() > s.len() {
        return None;
    }
    let last = s.len() - pat.len();
    let mut i: usize = 0;
    while i <= last
        invariant
            last == s@.len() - pat@.len(),
            i <= last + 1,
            find_from(s@, pat@, 0) == find_from(s@, pat@, i as int),
        decreases last + 1 - i,
    {
        if occurs_at(s, pat, i) {
            return Some(i);
        }
        if i == last {
            assert(find_from(s@, pat@, i + 1) is None);
            return None;
        }
        i = i + 1;
    }
    None
}

/// The first index that holds `c`.
fn index_of(s: &Vec<char>, c: char) -> (r: Option<usize>)
    ensures
        r matches Some(i) ==> index_from(s@, c, 0) == Some(i as int) && i < s@.len(),
        r is None ==> index_from(s@, c, 0) is None,
{
    let mut i: usize = 0;
    while i < s.len()
        invariant
            i <= s@.len(),
            index_from(s@, c, 0) == index_from(s@, c, i as int),
        decreases s@.len() - i,
    {
        if s[i] == c {
            return Some(i);
        }
        i = i + 1;
    }
    None
}

/// The last index that holds `c`.
fn last_index_of(s: &Vec<char>, c: char) -> (r: Option<usize>)
    ensures
        r matches Some(i) ==> last_index_below(s@, c, s@.len() as int) == Some(i as int)
            && i < s@.len(),
        r is None ==> last_index_below(s@, c, s@.len() as int) is None,
{
    let mut n: usize = s.len();
    while n > 0
        invariant
            n <= s@.len(),
            last_index_below(s@, c, s@.len() as int) == last_index_below(s@, c, n as int),
        decreases n,
    {
        if s[n - 1] == c {
            return Some(n - 1);
        }
        n = n - 1;
    }
    None
}

/// The text of `s` before its first NUL character.
pub fn text_before_nul(s: &str) -> (r: String)
    ensures
        r@ == nul_prefix(s@),
{
    let cs = chars_of(s);
    match index_of(&cs, '\0') {
        Some(k) => s.substring_char(0, k).to_owned(),
        None => s.to_owned(),
    }
}

/// The text of `s` after its last backslash.
pub fn last_segment(s: &str) -> (r: String)
    ensures
        r@ == last_segment_of(s@),
{
    let cs = chars_of(s);
    let n = cs.len();
    match last_index_of(&cs, '\\') {
        Some(k) => s.substring_char(k + 1, n).to_owned(),
        None => s.to_owned(),
    }
}

} // verus!
