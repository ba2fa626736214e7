//! Character-sequence utilities shared by the parsers and formatters.
//!
//! All textual logic in this crate is specified over `Seq<char>` (the view
//! of `String` and `&str`).  The executable side works on `Vec<char>`;
//! two trusted wrappers move between `Vec<char>` and `String`.

use vstd::prelude::*;

verus! {

/// Relies on `str::chars` / `Iterator::collect`: the characters of a
/// string slice, in order.
#[verifier::external_body]
pub fn chars_of(s: &str) -> (v: Vec<char>)
    ensures
        v@ == s@,
{
    s.chars().collect()
}

/// Relies on `String::from_iter` over `char`: a string made of exactly
/// the given characters, in order.
#[verifier::external_body]
pub fn string_of(v: &Vec<char>) -> (s: String)
    ensures
        s@ == v@,
{
    v.iter().collect()
}

/// The whitespace characters recognised by the trimming helpers
/// (the ASCII subset of Rust's whitespace definition).
pub open spec fn is_space(c: char) -> bool {
    c == ' ' || c == '\t' || c == '\n' || c == '\r' || c == '\u{b}' || c == '\u{c}'
}

pub fn is_space_char(c: char) -> (r: bool)
    ensures
        r == is_space(c),
{
    c == ' ' || c == '\t' || c == '\n' || c == '\r' || c == '\u{b}' || c == '\u{c}'
}

/// Number of leading whitespace characters.
pub open spec fn leading_spaces(s: Seq<char>) -> int
    decreases s.len(),
{
    if s.len() == 0 || !is_space(s[0]) {
        0
    } else {
        1 + leading_spaces(s.drop_first())
    }
}

/// Number of trailing whitespace characters.
pub open spec fn trailing_spaces(s: Seq<char>) -> int
    decreases s.len(),
{
    if s.len() == 0 || !is_space(s[s.len() - 1]) {
        0
    } else {
        1 + trailing_spaces(s.drop_last())
    }
}

proof fn lemma_leading_spaces_bound(s: Seq<char>)
    ensures
        0 <= leading_spaces(s) <= s.len(),
        forall|i: int| 0 <= i < leading_spaces(s) ==> is_space(s[i]),
        leading_spaces(s) < s.len() ==> !is_space(s[leading_spaces(s)]),
    decreases s.len(),
{
    if s.len() > 0 && is_space(s[0]) {
        lemma_leading_spaces_bound(s.drop_first());
        assert forall|i: int| 0 <= i < leading_spaces(s) implies is_space(s[i]) by {
            if i > 0 {
                assert(s.drop_first()[i - 1] == s[i]);
            }
        }
    }
}

proof fn lemma_trailing_spaces_bound(s: Seq<char>)
    ensures
        0 <= trailing_spaces(s) <= s.len(),
        forall|i: int| s.len() - trailing_spaces(s) <= i < s.len() ==> is_space(s[i]),
        trailing_spaces(s) < s.len() ==> !is_space(s[s.len() - trailing_spaces(s) - 1]),
    decreases s.len(),
{
    if s.len() > 0 && is_space(s[s.len() - 1]) {
        lemma_trailing_spaces_bound(s.drop_last());
        assert forall|i: int| s.len() - trailing_spaces(s) <= i < s.len() implies is_space(
            s[i],
        ) by {
            if i < s.len() - 1 {
                assert(s.drop_last()[i] == s[i]);
            }
        }
    }
}

/// The sequence with leading and trailing whitespace removed.
pub open spec fn spec_trim(s: Seq<char>) -> Seq<char> {
    if leading_spaces(s) == s.len() {
        Seq::empty()
    } else {
        s.subrange(leading_spaces(s), s.len() - trailing_spaces(s))
    }
}

/// Trim whitespace from both ends of a character sequence.
pub fn trim_chars(s: &Vec<char>) -> (r: Vec<char>)
    ensures
        r@ == spec_trim(s@),
{
    proof {
        lemma_leading_spaces_bound(s@);
        lemma_trailing_spaces_bound(s@);
    }
    let mut start: usize = 0;
    while start < s.len() && is_space_char(s[start])
        invariant
            0 <= start <= s@.len(),
            forall|i: int| 0 <= i < start ==> is_space(s@[i]),
            start <= leading_spaces(s@),
        decreases s@.len() - start,
    {
        proof {
            lemma_leading_spaces_prefix(s@, start as int);
        }
        start = start + 1;
    }
    proof {
        lemma_leading_spaces_exact(s@, start as int);
    }
    if start == s.len() {
        let r: Vec<char> = Vec::new();
        assert(r@ =~= spec_trim(s@));
        return r;
    }
    let mut end: usize = s.len();
    while end > start && is_space_char(s[end - 1])
        invariant
            start <= end <= s@.len(),
            start < s@.len(),
            !is_space(s@[start as int]),
            forall|i: int| end <= i < s@.len() ==> is_space(s@[i]),
            s@.len() - end <= trailing_spaces(s@),
        decreases end,
    {
        proof {
            lemma_trailing_spaces_suffix(s@, s@.len() - end);
        }
        end = end - 1;
    }
    proof {
        lemma_trailing_spaces_exact(s@, s@.len() - end);
        lemma_leading_spaces_bound(s@);
        lemma_trailing_spaces_bound(s@);
    }
    let mut r: Vec<char> = Vec::new();
    let mut i: usize = start;
    while i < end
        invariant
            start <= i <= end <= s@.len(),
            r@ == s@.subrange(start as int, i as int),
        decreases end - i,
    {
        r.push(s[i]);
        assert(r@ =~= s@.subrange(start as int, i + 1 as int));
        i = i + 1;
    }
    assert(r@ =~= spec_trim(s@));
    r
}

proof fn lemma_leading_spaces_prefix(s: Seq<char>, k: int)
    requires
        0 <= k < s.len(),
        forall|i: int| 0 <= i < k ==> is_space(s[i]),
        is_space(s[k]),
    ensures
        leading_spaces(s) >= k + 1,
    decreases k,
{
    if k > 0 {
        assert(is_space(s[0]));
        assert(forall|i: int| 0 <= i < k - 1 ==> is_space(s.drop_first()[i]));
        assert(s.drop_first()[k - 1] == s[k]);
        lemma_leading_spaces_prefix(s.drop_first(), k - 1);
    } else {
        assert(is_space(s[0]));
        lemma_leading_spaces_bound(s.drop_first());
    }
}

proof fn lemma_leading_spaces_exact(s: Seq<char>, k: int)
    requires
        0 <= k <= s.len(),
        forall|i: int| 0 <= i < k ==> is_space(s[i]),
        k < s.len() ==> !is_space(s[k]),
    ensures
        leading_spaces(s) == k,
    decreases k,
{
    if k == 0 {
    } else {
        assert(is_space(s[0]));
        assert(forall|i: int| 0 <= i < k - 1 ==> is_space(s.drop_first()[i]));
        assert(k - 1 < s.drop_first().len() ==> !is_space(s.drop_first()[k - 1]));
        lemma_leading_spaces_exact(s.drop_first(), k - 1);
    }
}

proof fn lemma_trailing_spaces_suffix(s: Seq<char>, k: int)
    requires
        0 <= k < s.len(),
        forall|i: int| s.len() - k <= i < s.len() ==> is_space(s[i]),
        is_space(s[s.len() - k - 1]),
    ensures
        trailing_spaces(s) >= k + 1,
    decreases k,
{
    if k > 0 {
        assert(is_space(s[s.len() - 1]));
        assert(forall|i: int|
            s.drop_last().len() - (k - 1) <= i < s.drop_last().len() ==> is_space(
                s.drop_last()[i],
            ));
        assert(s.drop_last()[s.drop_last().len() - (k - 1) - 1] == s[s.len() - k - 1]);
        lemma_trailing_spaces_suffix(s.drop_last(), k - 1);
    } else {
        assert(is_space(s[s.len() - 1]));
        lemma_trailing_spaces_bound(s.drop_last());
    }
}

proof fn lemma_trailing_spaces_exact(s: Seq<char>, k: int)
    requires
        0 <= k <= s.len(),
        forall|i: int| s.len() - k <= i < s.len() ==> is_space(s[i]),
        k < s.len() ==> !is_space(s[s.len() - k - 1]),
    ensures
        trailing_spaces(s) == k,
    decreases k,
{
    if k == 0 {
    } else {
        assert(is_space(s[s.len() - 1]));
        assert(forall|i: int|
            s.drop_last().len() - (k - 1) <= i < s.drop_last().len() ==> is_space(
                s.drop_last()[i],
            ));
        assert(k - 1 < s.drop_last().len() ==> !is_space(
            s.drop_last()[s.drop_last().len() - (k - 1) - 1],
        ));
        lemma_trailing_spaces_exact(s.drop_last(), k - 1);
    }
}

/// True for an ASCII decimal digit.
pub open spec fn is_digit(c: char) -> bool {
    '0' <= c && c <= '9'
}

pub fn is_digit_char(c: char) -> (r: bool)
    ensures
        r == is_digit(c),
{
    let u = c as u32;
    48 <= u && u <= 57
}

/// Numeric value of a digit character.
pub open spec fn digit_val(c: char) -> int {
    c as int - 48
}

/// The decimal digit character for `d` (`d < 10`).
pub open spec fn digit_char(d: int) -> char {
    ((48 + d) as u8) as char
}

/// Decimal digit string of a natural number, most significant first.
pub open spec fn dec_digits(n: nat) -> Seq<char>
    decreases n,
{
    if n < 10 {
        seq![digit_char(n as int)]
    } else {
        dec_digits(n / 10) + seq![digit_char((n % 10) as int)]
    }
}

/// Append the decimal representation of `n` to `v`.
pub fn push_dec_u64(v: &mut Vec<char>, n: u64)
    ensures
        final(v)@ == old(v)@ + dec_digits(n as nat),
    decreases n,
{
    if n < 10 {
        let c = ((48 + n) as u8) as char;
        v.push(c);
        assert(v@ =~= old(v)@ + dec_digits(n as nat));
    } else {
        push_dec_u64(v, n / 10);
        let c = ((48 + (n % 10)) as u8) as char;
        v.push(c);
        assert(v@ =~= old(v)@ + dec_digits(n as nat));
    }
}

/// The decimal representation of `n` as a `String`.
pub fn u64_to_string(n: u64) -> (s: String)
    ensures
        s@ == dec_digits(n as nat),
{
    let mut v: Vec<char> = Vec::new();
    push_dec_u64(&mut v, n);
    string_of(&v)
}

/// Value of a digit sequence read as a decimal number (no sign, no bound).
pub open spec fn dec_value(s: Seq<char>) -> int
    decreases s.len(),
{
    if s.len() == 0 {
        0
    } else {
        dec_value(s.drop_last()) * 10 + digit_val(s[s.len() - 1])
    }
}

/// True when every character of `s` is a decimal digit.
pub open spec fn all_digits(s: Seq<char>) -> bool {
    forall|i: int| 0 <= i < s.len() ==> is_digit(s[i])
}

/// What `str::parse::<u64>` accepts, restricted to the forms this crate
/// meets: an optional leading `+`, then one or more digits, with a value
/// that fits the target width.
pub open spec fn spec_parse_u64(s: Seq<char>, bound: int) -> Option<u64> {
    let digits = if s.len() > 0 && s[0] == '+' {
        s.drop_first()
    } else {
        s
    };
    if digits.len() > 0 && all_digits(digits) && dec_value(digits) < bound {
        Some(dec_value(digits) as u64)
    } else {
        None
    }
}

proof fn lemma_dec_value_bounds(s: Seq<char>)
    requires
        forall|i: int| 0 <= i < s.len() ==> is_digit(s[i]),
    ensures
        dec_value(s) >= 0,
    decreases s.len(),
{
    if s.len() > 0 {
        lemma_dec_value_bounds(s.drop_last());
    }
}

/// Parse a digit sequence as in `str::parse`, failing on any value of
/// `bound` or above.  `bound` picks the integer width (for example
/// `0x1_0000` for `u16`).
pub fn parse_u64_bounded(s: &Vec<char>, bound: u64) -> (r: Option<u64>)
    requires
        1 <= bound <= 0x1_0000_0000,
    ensures
        r == spec_parse_u64(s@, bound as int),
        r is Some ==> r->0 < bound,
{
    let ghost all = s@;
    let mut start: usize = 0;
    if s.len() > 0 && s[0] == '+' {
        start = 1;
    }
    let ghost digits = if all.len() > 0 && all[0] == '+' {
        all.drop_first()
    } else {
        all
    };
    assert(digits =~= all.subrange(start as int, all.len() as int));
    if start == s.len() {
        return None;
    }
    let mut acc: u64 = 0;
    let mut i: usize = start;
    while i < s.len()
        invariant
            start <= i <= all.len(),
            start < all.len(),
            start <= 1,
            1 <= bound <= 0x1_0000_0000,
            all.len() > 0 && all[0] == '+' ==> start == 1,
            !(all.len() > 0 && all[0] == '+') ==> start == 0,
            digits =~= all.subrange(start as int, all.len() as int),
            s@ == all,
            forall|j: int| start <= j < i ==> is_digit(all[j]),
            acc == dec_value(all.subrange(start as int, i as int)),
            acc < bound,
        decreases all.len() - i,
    {
        let c = s[i];
        if !is_digit_char(c) {
            proof {
                let sd = if all.len() > 0 && all[0] == '+' {
                    all.drop_first()
                } else {
                    all
                };
                assert(sd =~= all.subrange(start as int, all.len() as int));
                assert(sd == digits);
                assert(0 <= i - start < sd.len());
                assert(!is_digit(sd[i - start]));
                assert(!all_digits(sd));
                assert(spec_parse_u64(all, bound as int) is None);
            }
            return None;
        }
        let d = (c as u32 as u64) - 48;
        let next = acc * 10 + d;
        proof {
            let sub = all.subrange(start as int, i + 1 as int);
            assert(sub.drop_last() =~= all.subrange(start as int, i as int));
            assert(sub[sub.len() - 1] == all[i as int]);
        }
        if next >= bound {
            // every longer digit prefix is at least as large, so the full
            // digit string cannot fit the bound either
            proof {
                let sd = if all.len() > 0 && all[0] == '+' {
                    all.drop_first()
                } else {
                    all
                };
                assert(sd =~= all.subrange(start as int, all.len() as int));
                assert(sd == digits);
                lemma_prefix_value_monotonic(all, start as int, i + 1);
                if all_digits(sd) {
                    assert forall|j: int| start <= j < all.len() implies is_digit(all[j]) by {
                        assert(sd[j - start] == all[j]);
                    }
                    assert(dec_value(all.subrange(start as int, i + 1)) <= dec_value(
                        all.subrange(start as int, all.len() as int),
                    ));
                    assert(dec_value(sd) >= bound);
                }
                assert(all_digits(sd) ==> dec_value(sd) >= bound);
                assert(spec_parse_u64(all, bound as int) is None);
            }
            return None;
        }
        acc = next;
        i = i + 1;
    }
    proof {
        assert(all.subrange(start as int, all.len() as int) =~= digits);
    }
    Some(acc)
}

/// A digit string's value only grows as digits are appended.
proof fn lemma_prefix_value_monotonic(all: Seq<char>, start: int, end: int)
    requires
        0 <= start <= end <= all.len(),
        forall|j: int| start <= j < end ==> is_digit(all[j]),
    ensures
        forall|k: int|
            end <= k <= all.len() && (forall|j: int| start <= j < k ==> is_digit(all[j]))
                ==> dec_value(all.subrange(start, end)) <= dec_value(all.subrange(start, k)),
    decreases all.len() - end,
{
    if end < all.len() {
        lemma_prefix_value_monotonic_step(all, start, end);
        if is_digit(all[end]) {
            lemma_prefix_value_monotonic(all, start, end + 1);
        }
    }
}

proof fn lemma_prefix_value_monotonic_step(all: Seq<char>, start: int, end: int)
    requires
        0 <= start <= end < all.len(),
        forall|j: int| start <= j < end ==> is_digit(all[j]),
    ensures
        is_digit(all[end]) ==> dec_value(all.subrange(start, end)) <= dec_value(
            all.subrange(start, end + 1),
        ),
{
    if is_digit(all[end]) {
        let sub = all.subrange(start, end + 1);
        assert(sub.drop_last() =~= all.subrange(start, end));
        lemma_dec_value_bounds(all.subrange(start, end));
        assert(dec_value(sub) == dec_value(all.subrange(start, end)) * 10 + digit_val(all[end]));
    }
}

/// `str::parse::<u16>`-style parsing of a character sequence.
pub fn parse_u16_chars(s: &Vec<char>) -> (r: Option<u16>)
    ensures
        r is Some <==> spec_parse_u64(s@, 0x1_0000) is Some,
        r is Some ==> r->0 == spec_parse_u64(s@, 0x1_0000)->0,
{
    match parse_u64_bounded(s, 0x1_0000) {
        Some(n) => Some(n as u16),
        None => None,
    }
}

/// `str::parse::<u32>`-style parsing of a character sequence.
pub fn parse_u32_chars(s: &Vec<char>) -> (r: Option<u32>)
    ensures
        r is Some <==> spec_parse_u64(s@, 0x1_0000_0000) is Some,
        r is Some ==> r->0 == spec_parse_u64(s@, 0x1_0000_0000)->0,
{
    match parse_u64_bounded(s, 0x1_0000_0000) {
        Some(n) => Some(n as u32),
        None => None,
    }
}

/// True for a hexadecimal digit of either case.
pub open spec fn is_hex_digit(c: char) -> bool {
    is_digit(c) || ('a' <= c && c <= 'f') || ('A' <= c && c <= 'F')
}

/// Numeric value of a hexadecimal digit.
pub open spec fn hex_digit_val(c: char) -> int {
    if is_digit(c) {
        digit_val(c)
    } else if 'a' <= c && c <= 'f' {
        c as int - 87
    } else {
        c as int - 55
    }
}

/// Value of a hex digit sequence.
pub open spec fn hex_value(s: Seq<char>) -> int
    decreases s.len(),
{
    if s.len() == 0 {
        0
    } else {
        hex_value(s.drop_last()) * 16 + hex_digit_val(s[s.len() - 1])
    }
}

/// True when every character of `s` is a hexadecimal digit.
pub open spec fn all_hex_digits(s: Seq<char>) -> bool {
    forall|i: int| 0 <= i < s.len() ==> is_hex_digit(s[i])
}

/// Hexadecimal digit test on a character.
pub fn is_hex_digit_char(c: char) -> (r: bool)
    ensures
        r == is_hex_digit(c),
{
    let u = c as u32;
    (48 <= u && u <= 57) || (97 <= u && u <= 102) || (65 <= u && u <= 70)
}

/// Numeric value of a hexadecimal digit character.
pub fn hex_digit_val_char(c: char) -> (r: u64)
    requires
        is_hex_digit(c),
    ensures
        r == hex_digit_val(c),
{
    let u = c as u32;
    if u <= 57 {
        (u - 48) as u64
    } else if u >= 97 {
        (u - 87) as u64
    } else {
        (u - 55) as u64
    }
}

/// What `from_str_radix` with base 16 accepts: an optional leading `+`,
/// then one or more hex digits, with a value that fits the bound.
pub open spec fn spec_parse_hex(s: Seq<char>, bound: int) -> Option<u64> {
    let digits = if s.len() > 0 && s[0] == '+' {
        s.drop_first()
    } else {
        s
    };
    if digits.len() > 0 && all_hex_digits(digits) && hex_value(digits) < bound {
        Some(hex_value(digits) as u64)
    } else {
        None
    }
}

proof fn lemma_hex_value_nonneg(s: Seq<char>)
    requires
        all_hex_digits(s),
    ensures
        hex_value(s) >= 0,
    decreases s.len(),
{
    if s.len() > 0 {
        assert(forall|i: int| 0 <= i < s.drop_last().len() ==> is_hex_digit(s.drop_last()[i]));
        lemma_hex_value_nonneg(s.drop_last());
    }
}

/// A hex string's value only grows as digits are appended.
proof fn lemma_hex_prefix_monotonic(all: Seq<char>, start: int, end: int)
    requires
        0 <= start <= end <= all.len(),
        forall|j: int| start <= j < end ==> is_hex_digit(all[j]),
    ensures
        forall|k: int|
            end <= k <= all.len() && (forall|j: int| start <= j < k ==> is_hex_digit(all[j]))
                ==> hex_value(all.subrange(start, end)) <= hex_value(all.subrange(start, k)),
    decreases all.len() - end,
{
    if end < all.len() {
        if is_hex_digit(all[end]) {
            let sub = all.subrange(start, end + 1);
            assert(sub.drop_last() =~= all.subrange(start, end));
            assert(forall|i: int|
                0 <= i < all.subrange(start, end).len() ==> is_hex_digit(
                    #[trigger] all.subrange(start, end)[i],
                ));
            lemma_hex_value_nonneg(all.subrange(start, end));
            assert(hex_value(sub) == hex_value(all.subrange(start, end)) * 16 + hex_digit_val(
                all[end],
            ));
            lemma_hex_prefix_monotonic(all, start, end + 1);
        }
    }
}

/// Parse a hex digit sequence as `from_str_radix` does, failing on any
/// value of `bound` or above.
pub fn parse_hex_bounded(s: &Vec<char>, bound: u64) -> (r: Option<u64>)
    requires
        1 <= bound <= 0x1_0000_0000,
    ensures
        r == spec_parse_hex(s@, bound as int),
{
    let ghost all = s@;
    let mut start: usize = 0;
    if s.len() > 0 && s[0] == '+' {
        start = 1;
    }
    let ghost digits = if all.len() > 0 && all[0] == '+' {
        all.drop_first()
    } else {
        all
    };
    assert(digits =~= all.subrange(start as int, all.len() as int));
    if start == s.len() {
        return None;
    }
    let mut acc: u64 = 0;
    let mut i: usize = start;
    while i < s.len()
        invariant
            start <= i <= all.len(),
            start < all.len(),
            start <= 1,
            1 <= bound <= 0x1_0000_0000,
            all.len() > 0 && all[0] == '+' ==> start == 1,
            !(all.len() > 0 && all[0] == '+') ==> start == 0,
            digits =~= all.subrange(start as int, all.len() as int),
            s@ == all,
            forall|j: int| start <= j < i ==> is_hex_digit(all[j]),
            acc == hex_value(all.subrange(start as int, i as int)),
            acc < bound,
        decreases all.len() - i,
    {
        let c = s[i];
        if !is_hex_digit_char(c) {
            proof {
                let sd = if all.len() > 0 && all[0] == '+' {
                    all.drop_first()
                } else {
                    all
                };
                assert(sd =~= all.subrange(start as int, all.len() as int));
                assert(sd == digits);
                assert(!is_hex_digit(sd[i - start]));
                assert(!all_hex_digits(sd));
                assert(spec_parse_hex(all, bound as int) is None);
            }
            return None;
        }
        let d: u64 = hex_digit_val_char(c);
        let next = acc * 16 + d;
        proof {
            let sub = all.subrange(start as int, i + 1 as int);
            assert(sub.drop_last() =~= all.subrange(start as int, i as int));
            assert(sub[sub.len() - 1] == all[i as int]);
        }
        if next >= bound {
            proof {
                let sd = if all.len() > 0 && all[0] == '+' {
                    all.drop_first()
                } else {
                    all
                };
                assert(sd =~= all.subrange(start as int, all.len() as int));
                assert(sd == digits);
                lemma_hex_prefix_monotonic(all, start as int, i + 1);
                if all_hex_digits(sd) {
                    assert forall|j: int| start <= j < all.len() implies is_hex_digit(
                        all[j],
                    ) by {
                        assert(sd[j - start] == all[j]);
                    }
                    assert(hex_value(all.subrange(start as int, i + 1)) <= hex_value(
                        all.subrange(start as int, all.len() as int),
                    ));
                    assert(hex_value(sd) >= bound);
                }
                assert(all_hex_digits(sd) ==> hex_value(sd) >= bound);
                assert(spec_parse_hex(all, bound as int) is None);
            }
            return None;
        }
        acc = next;
        i = i + 1;
    }
    proof {
        assert(all.subrange(start as int, all.len() as int) =~= digits);
    }
    Some(acc)
}

/// Split a character sequence at every occurrence of `sep`.
/// An empty input yields one empty field, as `str::split` does.
pub open spec fn spec_split(s: Seq<char>, sep: char) -> Seq<Seq<char>>
    decreases s.len(),
{
    if s.len() == 0 {
        seq![Seq::empty()]
    } else {
        let rest = spec_split(s.drop_last(), sep);
        if s[s.len() - 1] == sep {
            rest + seq![Seq::<char>::empty()]
        } else {
            rest.update(rest.len() - 1, rest[rest.len() - 1] + seq![s[s.len() - 1]])
        }
    }
}

pub proof fn lemma_spec_split_len(s: Seq<char>, sep: char)
    ensures
        spec_split(s, sep).len() >= 1,
    decreases s.len(),
{
    if s.len() > 0 {
        lemma_spec_split_len(s.drop_last(), sep);
    }
}

/// Split a character vector on a separator character.
pub fn split_chars(s: &Vec<char>, sep: char) -> (r: Vec<Vec<char>>)
    ensures
        r.deep_view() == spec_split(s@, sep),
{
    let mut r: Vec<Vec<char>> = Vec::new();
    let empty: Vec<char> = Vec::new();
    r.push(empty);
    assert(r.deep_view() =~~= spec_split(s@.take(0), sep));
    let mut i: usize = 0;
    while i < s.len()
        invariant
            0 <= i <= s@.len(),
            r.deep_view() == spec_split(s@.take(i as int), sep),
            r@.len() >= 1,
        decreases s@.len() - i,
    {
        let ghost pre = s@.take(i as int);
        let ghost prev = r.deep_view();
        proof {
            lemma_spec_split_len(pre, sep);
            assert(s@.take(i + 1).drop_last() =~= pre);
            assert(s@.take(i + 1)[i as int] == s@[i as int]);
        }
        if s[i] == sep {
            let empty2: Vec<char> = Vec::new();
            r.push(empty2);
            assert(r.deep_view() =~~= spec_split(s@.take(i + 1), sep));
        } else {
            let last = r.len() - 1;
            let c = s[i];
            let mut field = r.remove(last);
            field.push(c);
            r.push(field);
            proof {
                let post = spec_split(s@.take(i + 1), sep);
                assert(post =~~= prev.update(
                    prev.len() - 1,
                    prev[prev.len() - 1] + seq![s@[i as int]],
                ));
                assert(r.deep_view() =~~= post);
            }
        }
        i = i + 1;
    }
    proof {
        assert(s@.take(s@.len() as int) =~= s@);
    }
    r
}

/// Split on `'\n'` as `str::lines` does: a trailing `'\r'` is removed from
/// each piece, and a final empty piece after a terminating newline is not
/// reported.
pub open spec fn spec_lines(s: Seq<char>) -> Seq<Seq<char>> {
    let raw = spec_split(s, '\n');
    let pieces = if raw.len() > 0 && raw[raw.len() - 1].len() == 0 && s.len() > 0 {
        raw.drop_last()
    } else {
        raw
    };
    pieces.map_values(|p: Seq<char>| strip_cr(p))
}

/// Remove one trailing carriage return, if present.
pub open spec fn strip_cr(p: Seq<char>) -> Seq<char> {
    if p.len() > 0 && p[p.len() - 1] == '\r' {
        p.drop_last()
    } else {
        p
    }
}

/// The deep view of a vector of character vectors, element by element.
pub proof fn lemma_nested_view(r: &Vec<Vec<char>>)
    ensures
        r.deep_view().len() == r@.len(),
        forall|j: int| 0 <= j < r@.len() ==> r.deep_view()[j] == r@[j]@,
{
    assert forall|j: int| 0 <= j < r@.len() implies r.deep_view()[j] == r@[j]@ by {
        assert(r@[j].deep_view() =~= r@[j]@);
    }
}

/// Split a character vector into lines, as `str::lines` does.
pub fn lines_of(s: &Vec<char>) -> (r: Vec<Vec<char>>)
    ensures
        r@.len() == spec_lines(s@).len(),
        forall|j: int| 0 <= j < r@.len() ==> r@[j]@ == spec_lines(s@)[j],
{
    let raw = split_chars(s, '\n');
    proof {
        lemma_spec_split_len(s@, '\n');
        lemma_nested_view(&raw);
    }
    let mut pieces = raw;
    if s.len() > 0 && pieces[pieces.len() - 1].len() == 0 {
        let last = pieces.len() - 1;
        let _ = pieces.remove(last);
    }
    // each kept piece, stripped of a trailing carriage return, is the line
    proof {
        let target = spec_lines(s@);
        assert(target.len() == pieces@.len());
        assert forall|j: int| 0 <= j < pieces@.len() implies target[j] == strip_cr(
            pieces@[j]@,
        ) by {
            assert(pieces@[j]@ == spec_split(s@, '\n')[j]);
        }
    }
    let ghost target = spec_lines(s@);
    let mut r: Vec<Vec<char>> = Vec::new();
    let mut i: usize = 0;
    while i < pieces.len()
        invariant
            0 <= i <= pieces@.len(),
            pieces@.len() == target.len(),
            forall|j: int| 0 <= j < pieces@.len() ==> target[j] == strip_cr(pieces@[j]@),
            r@.len() == i,
            forall|j: int| 0 <= j < i ==> r@[j]@ == target[j],
        decreases pieces@.len() - i,
    {
        let mut line = pieces[i].clone();
        if line.len() > 0 && line[line.len() - 1] == '\r' {
            let _ = line.pop();
        }
        assert(line@ =~= strip_cr(pieces@[i as int]@));
        r.push(line);
        i = i + 1;
    }
    r
}

/// Decimal digit string of an integer, with a sign for negatives.
pub open spec fn dec_digits_int(n: int) -> Seq<char> {
    if n < 0 {
        seq!['-'] + dec_digits((-n) as nat)
    } else {
        dec_digits(n as nat)
    }
}

/// Append the decimal representation of a signed number to `v`.
pub fn push_dec_i64(v: &mut Vec<char>, n: i64)
    ensures
        final(v)@ == old(v)@ + dec_digits_int(n as int),
{
    if n < 0 {
        v.push('-');
        let ghost sofar = v@;
        let m: u64 = (-(n as i128)) as u64;
        push_dec_u64(v, m);
        assert(v@ =~= old(v)@ + dec_digits_int(n as int));
    } else {
        push_dec_u64(v, n as u64);
    }
}

/// Leftmost, non-overlapping replacement of a non-empty pattern, as
/// `str::replace` performs it.
pub open spec fn spec_replace(s: Seq<char>, pat: Seq<char>, sub: Seq<char>) -> Seq<char>
    decreases s.len(),
{
    if pat.len() == 0 || s.len() < pat.len() {
        s
    } else if s.take(pat.len() as int) == pat {
        sub + spec_replace(s.skip(pat.len() as int), pat, sub)
    } else {
        seq![s[0]] + spec_replace(s.drop_first(), pat, sub)
    }
}

/// True when `pat` occurs in `s` at position `i`.
fn match_at(s: &Vec<char>, pat: &Vec<char>, i: usize) -> (r: bool)
    requires
        i <= s@.len(),
    ensures
        r == (i + pat@.len() <= s@.len() && s@.subrange(i as int, i + pat@.len()) == pat@),
{
    if pat.len() > s.len() - i {
        return false;
    }
    let slen: usize = s.len();
    let mut j: usize = 0;
    while j < pat.len()
        invariant
            0 <= j <= pat@.len(),
            i + pat@.len() <= slen,
            slen == s@.len(),
            forall|l: int| 0 <= l < j ==> s@[i + l] == pat@[l],
        decreases pat@.len() - j,
    {
        if s[i + j] != pat[j] {
            assert(s@.subrange(i as int, i + pat@.len())[j as int] != pat@[j as int]);
            return false;
        }
        j = j + 1;
    }
    proof {
        assert(s@.subrange(i as int, i + pat@.len()) =~= pat@);
    }
    true
}

/// Replace every occurrence of a non-empty pattern, leftmost first.
#[verifier::rlimit(30)]
pub fn replace_chars(s: &Vec<char>, pat: &Vec<char>, sub: &Vec<char>) -> (r: Vec<char>)
    requires
        pat@.len() > 0,
    ensures
        r@ == spec_replace(s@, pat@, sub@),
{
    let mut out: Vec<char> = Vec::new();
    let mut i: usize = 0;
    assert(s@.skip(0) =~= s@);
    while i < s.len()
        invariant
            0 <= i <= s@.len(),
            pat@.len() > 0,
            spec_replace(s@, pat@, sub@) == out@ + spec_replace(s@.skip(i as int), pat@, sub@),
        decreases s@.len() - i,
    {
        let ghost rem = s@.skip(i as int);
        if match_at(s, pat, i) {
            proof {
                assert(rem.take(pat@.len() as int) =~= s@.subrange(i as int, i + pat@.len()));
                assert(rem.skip(pat@.len() as int) =~= s@.skip(i + pat@.len()));
            }
            let mut j: usize = 0;
            let ghost mid = out@;
            while j < sub.len()
                invariant
                    0 <= j <= sub@.len(),
                    out@ == mid + sub@.take(j as int),
                decreases sub@.len() - j,
            {
                out.push(sub[j]);
                assert(out@ =~= mid + sub@.take(j + 1));
                j = j + 1;
            }
            proof {
                assert(sub@.take(sub@.len() as int) =~= sub@);
                assert(spec_replace(rem, pat@, sub@) == sub@ + spec_replace(
                    s@.skip(i + pat@.len()),
                    pat@,
                    sub@,
                ));
            }
            i = i + pat.len();
        } else {
            proof {
                if rem.len() >= pat@.len() {
                    assert(rem.take(pat@.len() as int) =~= s@.subrange(
                        i as int,
                        i + pat@.len(),
                    ));
                    assert(rem.take(pat@.len() as int) != pat@);
                    assert(rem.drop_first() =~= s@.skip(i + 1));
                    assert(rem[0] == s@[i as int]);
                    assert(spec_replace(rem, pat@, sub@) == seq![s@[i as int]] + spec_replace(
                        s@.skip(i + 1),
                        pat@,
                        sub@,
                    ));
                } else {
                    assert(spec_replace(rem, pat@, sub@) == rem);
                    assert(s@.skip(i + 1).len() < pat@.len());
                    assert(spec_replace(s@.skip(i + 1), pat@, sub@) == s@.skip(i + 1));
                    assert(rem =~= seq![s@[i as int]] + s@.skip(i + 1));
                }
            }
            out.push(s[i]);
            i = i + 1;
        }
    }
    proof {
        assert(s@.skip(s@.len() as int) =~= Seq::<char>::empty());
        assert(spec_replace(Seq::<char>::empty(), pat@, sub@) == Seq::<char>::empty());
        assert(out@ =~= out@ + Seq::<char>::empty());
    }
    out
}

/// Append the characters of a string slice to a vector.
pub fn append_str(v: &mut Vec<char>, s: &str)
    ensures
        final(v)@ == old(v)@ + s@,
{
    let cs = chars_of(s);
    let mut i: usize = 0;
    while i < cs.len()
        invariant
            0 <= i <= cs@.len(),
            cs@ == s@,
            v@ == old(v)@ + cs@.take(i as int),
        decreases cs@.len() - i,
    {
        v.push(cs[i]);
        assert(v@ =~= old(v)@ + cs@.take(i + 1));
        i = i + 1;
    }
    proof {
        assert(cs@.take(cs@.len() as int) =~= cs@);
    }
}

/// ASCII lowercase of one character.
pub open spec fn lower_char(c: char) -> char {
    if 'A' <= c && c <= 'Z' {
        ((c as int + 32) as u8) as char
    } else {
        c
    }
}

/// ASCII uppercase of one character.
pub open spec fn upper_char(c: char) -> char {
    if 'a' <= c && c <= 'z' {
        ((c as int - 32) as u8) as char
    } else {
        c
    }
}

/// ASCII lowercase of a sequence.
pub open spec fn spec_to_lower(s: Seq<char>) -> Seq<char> {
    Seq::new(s.len(), |i: int| lower_char(s[i]))
}

/// ASCII uppercase of a sequence.
pub open spec fn spec_to_upper(s: Seq<char>) -> Seq<char> {
    Seq::new(s.len(), |i: int| upper_char(s[i]))
}

/// Lowercase the ASCII letters of a character vector.
pub fn to_lower_chars(s: &Vec<char>) -> (r: Vec<char>)
    ensures
        r@ == spec_to_lower(s@),
{
    let mut r: Vec<char> = Vec::new();
    let mut i: usize = 0;
    while i < s.len()
        invariant
            0 <= i <= s@.len(),
            r@.len() == i,
            forall|j: int| 0 <= j < i ==> r@[j] == lower_char(s@[j]),
        decreases s@.len() - i,
    {
        let c = s[i];
        let u = c as u32;
        if 65 <= u && u <= 90 {
            r.push(((u + 32) as u8) as char);
        } else {
            r.push(c);
        }
        i = i + 1;
    }
    proof {
        assert(r@ =~= spec_to_lower(s@));
    }
    r
}

/// Uppercase the ASCII letters of a character vector.
pub fn to_upper_chars(s: &Vec<char>) -> (r: Vec<char>)
    ensures
        r@ == spec_to_upper(s@),
{
    let mut r: Vec<char> = Vec::new();
    let mut i: usize = 0;
    while i < s.len()
        invariant
            0 <= i <= s@.len(),
            r@.len() == i,
            forall|j: int| 0 <= j < i ==> r@[j] == upper_char(s@[j]),
        decreases s@.len() - i,
    {
        let c = s[i];
        let u = c as u32;
        if 97 <= u && u <= 122 {
            r.push(((u - 32) as u8) as char);
        } else {
            r.push(c);
        }
        i = i + 1;
    }
    proof {
        assert(r@ =~= spec_to_upper(s@));
    }
    r
}

/// First position where `pat` occurs in `s`, if any.
pub open spec fn spec_find(s: Seq<char>, pat: Seq<char>) -> Option<int>
    decreases s.len(),
{
    if s.len() < pat.len() {
        None
    } else if s.take(pat.len() as int) == pat {
        Some(0)
    } else if s.len() == 0 {
        None
    } else {
        match spec_find(s.drop_first(), pat) {
            Some(i) => Some(i + 1),
            None => None,
        }
    }
}

/// Find the first occurrence of a pattern.
pub fn find_subseq(s: &Vec<char>, pat: &Vec<char>) -> (r: Option<usize>)
    ensures
        match r {
            Some(i) => spec_find(s@, pat@) == Some(i as int) && i + pat@.len() <= s@.len()
                && s@.subrange(i as int, i + pat@.len()) == pat@,
            None => spec_find(s@, pat@) is None,
        },
{
    if pat.len() == 0 {
        proof {
            assert(s@.take(0) =~= pat@);
            assert(s@.subrange(0, 0) =~= pat@);
        }
        return Some(0);
    }
    let mut i: usize = 0;
    proof {
        assert(s@.skip(0) =~= s@);
    }
    while pat.len() <= s.len() - i
        invariant
            0 <= i <= s@.len(),
            pat@.len() > 0,
            spec_find(s@, pat@) == (match spec_find(s@.skip(i as int), pat@) {
                Some(k) => Some(k + i),
                None => None::<int>,
            }),
        decreases s@.len() - i,
    {
        let ghost rem = s@.skip(i as int);
        if match_at(s, pat, i) {
            proof {
                assert(rem.take(pat@.len() as int) =~= s@.subrange(i as int, i + pat@.len()));
                assert(spec_find(rem, pat@) == Some(0int));
            }
            return Some(i);
        }
        proof {
            assert(rem.take(pat@.len() as int) =~= s@.subrange(i as int, i + pat@.len()));
            assert(rem.drop_first() =~= s@.skip(i + 1));
            assert(spec_find(rem, pat@) == (match spec_find(s@.skip(i + 1), pat@) {
                Some(k) => Some(k + 1),
                None => None::<int>,
            }));
        }
        i = i + 1;
    }
    proof {
        let rem = s@.skip(i as int);
        assert(rem.len() < pat@.len());
        assert(spec_find(rem, pat@) is None);
    }
    None
}

/// True when `pat` occurs somewhere in `s`.
pub fn contains_subseq(s: &Vec<char>, pat: &Vec<char>) -> (r: bool)
    ensures
        r == (spec_find(s@, pat@) is Some),
{
    match find_subseq(s, pat) {
        Some(_) => true,
        None => false,
    }
}

/// Equality of two string slices, decided character by character.
pub fn str_eq(a: &str, b: &str) -> (r: bool)
    ensures
        r == (a@ == b@),
{
    let va = chars_of(a);
    let vb = chars_of(b);
    if va.len() != vb.len() {
        return false;
    }
    let mut i: usize = 0;
    while i < va.len()
        invariant
            0 <= i <= va@.len(),
            va@.len() == vb@.len(),
            va@ == a@,
            vb@ == b@,
            forall|j: int| 0 <= j < i ==> va@[j] == vb@[j],
        decreases va@.len() - i,
    {
        if va[i] != vb[i] {
            return false;
        }
        i = i + 1;
    }
    proof {
        assert(a@ =~= b@);
    }
    true
}

/// The deep view of a vector of strings, element by element.
pub proof fn lemma_string_vec_view(v: &Vec<String>)
    ensures
        v.deep_view().len() == v@.len(),
        forall|j: int| 0 <= j < v@.len() ==> #[trigger] v.deep_view()[j] == v@[j]@,
{
    assert forall|j: int| 0 <= j < v@.len() implies #[trigger] v.deep_view()[j] == v@[j]@ by {
        assert(v@[j].deep_view() == v@[j]@);
    }
}

/// True when `pre` is a prefix of `s`.
pub open spec fn starts_with(s: Seq<char>, pre: Seq<char>) -> bool {
    pre.len() <= s.len() && s.subrange(0, pre.len() as int) == pre
}

/// Prefix test on character vectors.
pub fn starts_with_chars(s: &Vec<char>, pre: &Vec<char>) -> (r: bool)
    ensures
        r == starts_with(s@, pre@),
{
    if pre.len() > s.len() {
        assert(!starts_with(s@, pre@));
        return false;
    }
    let mut i: usize = 0;
    while i < pre.len()
        invariant
            0 <= i <= pre@.len() <= s@.len(),
            forall|j: int| 0 <= j < i ==> s@[j] == pre@[j],
        decreases pre@.len() - i,
    {
        if s[i] != pre[i] {
            assert(s@.subrange(0, pre@.len() as int)[i as int] != pre@[i as int]);
            return false;
        }
        i = i + 1;
    }
    assert(s@.subrange(0, pre@.len() as int) =~= pre@);
    true
}

} // verus!
