//! Character-level text helpers shared by the parsers and argument builders:
//! conversion between `&str`, `String` and character vectors, decimal
//! formatting and parsing, and prefix / suffix / substring tests.
use vstd::prelude::*;
use vstd::string::*;

verus! {

// ─── Specifications ─────────────────────────────────────────────────────────

/// View of a list of string slices as character sequences.
pub open spec fn spec_strs(v: Seq<&str>) -> Seq<Seq<char>> {
    v.map_values(|s: &str| s@)
}

/// View of a list of strings as character sequences.
pub open spec fn spec_strings(v: Seq<String>) -> Seq<Seq<char>> {
    v.map_values(|s: String| s@)
}

/// Name for the result of `str::to_lowercase`: Unicode lowercase mapping.
pub uninterp spec fn spec_lowercase(s: Seq<char>) -> Seq<char>;

/// Whether `p` is a prefix of `s`.
pub open spec fn spec_starts_with(s: Seq<char>, p: Seq<char>) -> bool {
    p.len() <= s.len() && s.subrange(0, p.len() as int) == p
}

/// Whether `p` is a suffix of `s`.
pub open spec fn spec_ends_with(s: Seq<char>, p: Seq<char>) -> bool {
    p.len() <= s.len() && s.subrange(s.len() - p.len(), s.len() as int) == p
}

/// Whether `p` occurs in `s` starting at position `k`.
pub open spec fn spec_occurs_at(s: Seq<char>, p: Seq<char>, k: int) -> bool {
    0 <= k && k + p.len() <= s.len() && s.subrange(k, k + p.len()) == p
}

/// Whether `p` occurs anywhere in `s`.
pub open spec fn spec_contains(s: Seq<char>, p: Seq<char>) -> bool {
    exists|k: int| #[trigger] spec_occurs_at(s, p, k)
}

/// Whether `c` is an ASCII decimal digit.
pub open spec fn spec_is_digit(c: char) -> bool {
    '0' <= c && c <= '9'
}

/// Numeric value of an ASCII digit.
pub open spec fn spec_digit_value(c: char) -> nat {
    ((c as int) - ('0' as int)) as nat
}

/// Whether every character of `s` is an ASCII digit.
pub open spec fn spec_all_digits(s: Seq<char>) -> bool {
    forall|i: int| 0 <= i < s.len() ==> spec_is_digit(#[trigger] s[i])
}

/// Value of a sequence of ASCII digits read as a decimal number.
pub open spec fn spec_decimal_value(s: Seq<char>) -> nat
    decreases s.len(),
{
    if s.len() == 0 {
        0
    } else {
        spec_decimal_value(s.drop_last()) * 10 + spec_digit_value(s.last())
    }
}

/// Unsigned decimal syntax as read by the standard integer parsers: an
/// optional `+` followed by at least one ASCII digit.
pub open spec fn spec_parse_unsigned(s: Seq<char>) -> Option<nat> {
    let digits = if s.len() > 0 && s[0] == '+' {
        s.subrange(1, s.len() as int)
    } else {
        s
    };
    if digits.len() > 0 && spec_all_digits(digits) {
        Some(spec_decimal_value(digits))
    } else {
        None
    }
}

/// Decimal rendering of a natural number (no leading zeros; `0` for zero).
pub open spec fn spec_decimal(n: nat) -> Seq<char>
    decreases n,
{
    if n < 10 {
        seq![spec_digit_char(n)]
    } else {
        spec_decimal(n / 10).push(spec_digit_char(n % 10))
    }
}

/// The ASCII digit for a value below ten.
pub open spec fn spec_digit_char(d: nat) -> char {
    (d + ('0' as nat)) as char
}

// ─── Conversions ────────────────────────────────────────────────────────────

/// Appends one character to a `String` (`String::push`).
#[verifier::external_body]
pub(crate) fn push_char(s: &mut String, c: char)
    ensures
        final(s)@ == old(s)@.push(c),
{
    s.push(c);
}

/// Whether every character of `s` is ASCII.
pub open spec fn spec_is_ascii(s: Seq<char>) -> bool {
    forall|i: int| 0 <= i < s.len() ==> (#[trigger] s[i] as int) < 128
}

/// Character-wise ASCII lowercase of `s`.
pub open spec fn spec_ascii_lowercase(s: Seq<char>) -> Seq<char> {
    s.map_values(|c: char| spec_ascii_lower(c))
}

/// `str::to_lowercase`: the Unicode lowercase form of `s`, as a function of
/// `s` alone (named `spec_lowercase`). Of its content only the ASCII case
/// is stated: on ASCII text it lowercases `A`-`Z` and keeps every other
/// character.
#[verifier::external_body]
pub(crate) fn to_lowercase(s: &str) -> (r: String)
    ensures
        r@ == spec_lowercase(s@),
        spec_is_ascii(s@) ==> r@ == spec_ascii_lowercase(s@),
{
    s.to_lowercase()
}

/// The characters of `s`, in order.
pub fn chars_of(s: &str) -> (v: Vec<char>)
    ensures
        v@ == s@,
{
    let n = s.unicode_len();
    let mut v: Vec<char> = Vec::new();
    let mut i: usize = 0;
    while i < n
        invariant
            n == s@.len(),
            i <= n,
            v@ == s@.subrange(0, i as int),
        decreases n - i,
    {
        v.push(s.get_char(i));
        i = i + 1;
    }
    v
}

/// A `String` holding exactly the given characters.
pub fn string_from_chars(cs: &[char]) -> (r: String)
    ensures
        r@ == cs@,
{
    let mut r = String::new();
    let mut i: usize = 0;
    while i < cs.len()
        invariant
            i <= cs@.len(),
            r@ == cs@.subrange(0, i as int),
        decreases cs@.len() - i,
    {
        push_char(&mut r, cs[i]);
        i = i + 1;
    }
    r
}

/// Appends a string slice.
pub fn push_str(s: &mut String, t: &str)
    ensures
        final(s)@ == old(s)@ + t@,
{
    s.append(t);
}

/// Owned copy of a string slice.
pub fn owned(t: &str) -> (r: String)
    ensures
        r@ == t@,
{
    String::from_str(t)
}

// ─── Comparisons ────────────────────────────────────────────────────────────

/// Whether two character sequences are equal.
pub fn chars_eq(a: &[char], b: &[char]) -> (r: bool)
    ensures
        r == (a@ == b@),
{
    if a.len() != b.len() {
        return false;
    }
    let mut i: usize = 0;
    while i < a.len()
        invariant
            a@.len() == b@.len(),
            i <= a@.len(),
            a@.subrange(0, i as int) == b@.subrange(0, i as int),
        decreases a@.len() - i,
    {
        if a[i] != b[i] {
            assert(a@[i as int] != b@[i as int]);
            return false;
        }
        assert(a@.subrange(0, i + 1) == a@.subrange(0, i as int).push(a@[i as int]));
        assert(b@.subrange(0, i + 1) == b@.subrange(0, i as int).push(b@[i as int]));
        i = i + 1;
    }
    assert(a@ == a@.subrange(0, a@.len() as int));
    assert(b@ == b@.subrange(0, b@.len() as int));
    true
}

/// Whether `p` occurs in `s` at position `k`.
pub fn occurs_at(s: &[char], p: &[char], k: usize) -> (r: bool)
    ensures
        r == spec_occurs_at(s@, p@, k as int),
{
    if k > s.len() || s.len() - k < p.len() {
        return false;
    }
    let slen = s.len();
    let mut i: usize = 0;
    while i < p.len()
        invariant
            slen == s@.len(),
            k + p@.len() <= s@.len(),
            i <= p@.len(),
            s@.subrange(k as int, k + i) == p@.subrange(0, i as int),
        decreases p@.len() - i,
    {
        if s[k + i] != p[i] {
            assert(s@.subrange(k as int, k + p@.len())[i as int] != p@[i as int]);
            return false;
        }
        assert(s@.subrange(k as int, k + i + 1) == s@.subrange(k as int, k + i).push(
            s@[k + i],
        ));
        assert(p@.subrange(0, i + 1) == p@.subrange(0, i as int).push(p@[i as int]));
        i = i + 1;
    }
    assert(p@ == p@.subrange(0, p@.len() as int));
    true
}

/// Whether `s` starts with `p`.
pub fn starts_with(s: &[char], p: &[char]) -> (r: bool)
    ensures
        r == spec_starts_with(s@, p@),
{
    occurs_at(s, p, 0)
}

/// Whether `s` ends with `p`.
pub fn ends_with(s: &[char], p: &[char]) -> (r: bool)
    ensures
        r == spec_ends_with(s@, p@),
{
    if p.len() > s.len() {
        return false;
    }
    occurs_at(s, p, s.len() - p.len())
}

/// Whether `p` occurs in `s`.
pub fn contains(s: &[char], p: &[char]) -> (r: bool)
    ensures
        r == spec_contains(s@, p@),
{
    if p.len() > s.len() {
        assert forall|k: int| !#[trigger] spec_occurs_at(s@, p@, k) by {}
        return false;
    }
    let last = s.len() - p.len();
    let mut k: usize = 0;
    loop
        invariant
            last == s@.len() - p@.len(),
            k <= last,
            forall|m: int| 0 <= m < k ==> !#[trigger] spec_occurs_at(s@, p@, m),
        ensures
            forall|m: int| 0 <= m <= last ==> !#[trigger] spec_occurs_at(s@, p@, m),
        decreases last - k,
    {
        if occurs_at(s, p, k) {
            return true;
        }
        if k == last {
            break;
        }
        k = k + 1;
    }
    assert forall|m: int| !#[trigger] spec_occurs_at(s@, p@, m) by {
        if 0 <= m <= last {
        }
    }
    false
}

/// Whether `s` contains the character `c`.
pub fn contains_char(s: &[char], c: char) -> (r: bool)
    ensures
        r == s@.contains(c),
{
    let mut i: usize = 0;
    while i < s.len()
        invariant
            i <= s@.len(),
            forall|m: int| 0 <= m < i ==> s@[m] != c,
        decreases s@.len() - i,
    {
        if s[i] == c {
            return true;
        }
        i = i + 1;
    }
    false
}

// ─── Decimal numbers ────────────────────────────────────────────────────────

proof fn lemma_decimal_value_push(s: Seq<char>, c: char)
    ensures
        spec_decimal_value(s.push(c)) == spec_decimal_value(s) * 10 + spec_digit_value(c),
{
    assert(s.push(c).drop_last() == s);
}

/// Parses an unsigned decimal number (optional `+`, then digits) that does
/// not exceed `max`; `None` for any other text or for a larger value.
pub fn parse_unsigned(s: &[char], max: u64) -> (r: Option<u64>)
    ensures
        r matches Some(v) ==> spec_parse_unsigned(s@) == Some(v as nat) && v <= max,
        r is None ==> spec_parse_unsigned(s@) is None || spec_parse_unsigned(s@).unwrap() > max,
{
    let start: usize = if s.len() > 0 && s[0] == '+' {
        1
    } else {
        0
    };
    let ghost digits = if s@.len() > 0 && s@[0] == '+' {
        s@.subrange(1, s@.len() as int)
    } else {
        s@
    };
    assert(digits == s@.subrange(start as int, s@.len() as int));
    if start >= s.len() {
        assert(digits.len() == 0);
        return None;
    }
    let mut value: u64 = 0;
    let mut i: usize = start;
    while i < s.len()
        invariant
            start <= i <= s@.len(),
            digits == s@.subrange(start as int, s@.len() as int),
            digits == (if s@.len() > 0 && s@[0] == '+' {
                s@.subrange(1, s@.len() as int)
            } else {
                s@
            }),
            spec_all_digits(s@.subrange(start as int, i as int)),
            value == spec_decimal_value(s@.subrange(start as int, i as int)),
            value <= max,
        decreases s@.len() - i,
    {
        let c = s[i];
        if !('0' <= c && c <= '9') {
            assert(!spec_is_digit(digits[i - start]));
            assert(!spec_all_digits(digits));
            proof { reveal_parse(s@, digits); }
            return None;
        }
        let d = (c as u64) - ('0' as u64);
        proof {
            assert(s@.subrange(start as int, i + 1) == s@.subrange(start as int, i as int).push(
                c,
            ));
            lemma_decimal_value_push(s@.subrange(start as int, i as int), c);
        }
        if d > max || value > (max - d) / 10 {
            proof {
                assert(value * 10 + d > max) by (nonlinear_arith)
                    requires
                        d > max || value > (max - d) / 10,
                        d <= 9,
                ;
                lemma_decimal_prefix_monotone(digits, (i + 1 - start) as int);
                assert(digits.subrange(0, (i + 1 - start) as int) == s@.subrange(
                    start as int,
                    i + 1,
                ));
                reveal_parse(s@, digits);
            }
            return None;
        }
        assert(value * 10 + d <= max) by (nonlinear_arith)
            requires
                value <= (max - d) / 10,
                d <= max,
        ;
        value = value * 10 + d;
        i = i + 1;
    }
    Some(value)
}

proof fn reveal_parse(s: Seq<char>, digits: Seq<char>)
    requires
        digits == (if s.len() > 0 && s[0] == '+' {
            s.subrange(1, s.len() as int)
        } else {
            s
        }),
    ensures
        spec_parse_unsigned(s) == (if digits.len() > 0 && spec_all_digits(digits) {
            Some(spec_decimal_value(digits))
        } else {
            None
        }),
{
}

proof fn lemma_decimal_prefix_monotone(s: Seq<char>, k: int)
    requires
        0 <= k <= s.len(),
        spec_all_digits(s.subrange(0, k)),
    ensures
        spec_all_digits(s) ==> spec_decimal_value(s.subrange(0, k)) <= spec_decimal_value(s),
    decreases s.len() - k,
{
    if k < s.len() && spec_all_digits(s) {
        lemma_decimal_prefix_monotone(s, k + 1);
        assert(s.subrange(0, k + 1).drop_last() == s.subrange(0, k));
        assert(spec_decimal_value(s.subrange(0, k + 1)) == spec_decimal_value(s.subrange(0, k))
            * 10 + spec_digit_value(s[k]));
        assert(spec_decimal_value(s.subrange(0, k)) <= spec_decimal_value(s.subrange(0, k)) * 10
            + spec_digit_value(s[k])) by (nonlinear_arith);
    } else if k == s.len() {
        assert(s.subrange(0, k) == s);
    }
}

/// Appends the decimal rendering of `n`.
pub fn push_decimal(out: &mut String, n: u64)
    ensures
        final(out)@ == old(out)@ + spec_decimal(n as nat),
    decreases n,
{
    if n < 10 {
        push_char(out, digit_char(n));
    } else {
        push_decimal(out, n / 10);
        push_char(out, digit_char(n % 10));
        assert(spec_decimal(n as nat) == spec_decimal((n / 10) as nat).push(spec_digit_char(
            (n % 10) as nat,
        )));
    }
}

fn digit_char(d: u64) -> (c: char)
    requires
        d < 10,
    ensures
        c == spec_digit_char(d as nat),
{
    if d == 0 {
        '0'
    } else if d == 1 {
        '1'
    } else if d == 2 {
        '2'
    } else if d == 3 {
        '3'
    } else if d == 4 {
        '4'
    } else if d == 5 {
        '5'
    } else if d == 6 {
        '6'
    } else if d == 7 {
        '7'
    } else if d == 8 {
        '8'
    } else {
        '9'
    }
}

/// Decimal rendering of `n` as a new `String`.
pub fn decimal_string(n: u64) -> (r: String)
    ensures
        r@ == spec_decimal(n as nat),
{
    let mut r = String::new();
    push_decimal(&mut r, n);
    r
}

// ─── Lists of words ─────────────────────────────────────────────────────────

/// Whether `s` equals one of the words of `list`.
pub fn is_one_of(s: &[char], list: &[&str]) -> (r: bool)
    ensures
        r == spec_strs(list@).contains(s@),
{
    let mut i: usize = 0;
    while i < list.len()
        invariant
            i <= list@.len(),
            forall|j: int| 0 <= j < i ==> list@[j]@ != s@,
        decreases list@.len() - i,
    {
        let w = chars_of(list[i]);
        if chars_eq(w.as_slice(), s) {
            assert(spec_strs(list@)[i as int] == s@);
            return true;
        }
        i = i + 1;
    }
    proof {
        if spec_strs(list@).contains(s@) {
            let j = choose|j: int| 0 <= j < spec_strs(list@).len() && spec_strs(list@)[j] == s@;
            assert(list@[j]@ == s@);
        }
    }
    false
}

/// Whether `s` starts with one of the words of `list`.
pub fn starts_with_one_of(s: &[char], list: &[&str]) -> (r: bool)
    ensures
        r == exists|j: int| 0 <= j < list@.len() && spec_starts_with(s@, #[trigger] list@[j]@),
{
    let mut i: usize = 0;
    while i < list.len()
        invariant
            i <= list@.len(),
            forall|j: int| 0 <= j < i ==> !spec_starts_with(s@, #[trigger] list@[j]@),
        decreases list@.len() - i,
    {
        let w = chars_of(list[i]);
        if starts_with(s, w.as_slice()) {
            return true;
        }
        i = i + 1;
    }
    false
}

/// Whether one of the words of `list` occurs in `s`.
pub fn contains_one_of(s: &[char], list: &[&str]) -> (r: bool)
    ensures
        r == exists|j: int| 0 <= j < list@.len() && spec_contains(s@, #[trigger] list@[j]@),
{
    let mut i: usize = 0;
    while i < list.len()
        invariant
            i <= list@.len(),
            forall|j: int| 0 <= j < i ==> !spec_contains(s@, #[trigger] list@[j]@),
        decreases list@.len() - i,
    {
        let w = chars_of(list[i]);
        if contains(s, w.as_slice()) {
            return true;
        }
        i = i + 1;
    }
    false
}


// ─── Whitespace ─────────────────────────────────────────────────────────────

/// The Unicode `White_Space` characters, as `char::is_whitespace` reads them.
pub open spec fn spec_is_whitespace(c: char) -> bool {
    ||| '\u{9}' <= c && c <= '\u{d}'
    ||| c == ' '
    ||| c == '\u{85}'
    ||| c == '\u{a0}'
    ||| c == '\u{1680}'
    ||| '\u{2000}' <= c && c <= '\u{200a}'
    ||| c == '\u{2028}'
    ||| c == '\u{2029}'
    ||| c == '\u{202f}'
    ||| c == '\u{205f}'
    ||| c == '\u{3000}'
}

/// Whether every character of `s` is whitespace (so that trimming leaves
/// nothing).
pub open spec fn spec_is_blank(s: Seq<char>) -> bool {
    forall|i: int| 0 <= i < s.len() ==> spec_is_whitespace(#[trigger] s[i])
}

/// Index of the first non-whitespace character at or after `i` (the length
/// when there is none).
pub open spec fn spec_first_non_ws(s: Seq<char>, i: int) -> int
    decreases s.len() - i,
{
    if i < 0 || i >= s.len() {
        s.len() as int
    } else if !spec_is_whitespace(s[i]) {
        i
    } else {
        spec_first_non_ws(s, i + 1)
    }
}

/// One past the last non-whitespace character before `j` (zero when there
/// is none).
pub open spec fn spec_end_non_ws(s: Seq<char>, j: int) -> int
    decreases j,
{
    if j <= 0 || j > s.len() {
        0
    } else if !spec_is_whitespace(s[j - 1]) {
        j
    } else {
        spec_end_non_ws(s, j - 1)
    }
}

/// `s` without leading and trailing whitespace (`str::trim`).
pub open spec fn spec_trim(s: Seq<char>) -> Seq<char> {
    let a = spec_first_non_ws(s, 0);
    if a >= s.len() {
        Seq::empty()
    } else {
        s.subrange(a, spec_end_non_ws(s, s.len() as int))
    }
}

/// `char::is_whitespace`.
pub fn is_whitespace(c: char) -> (r: bool)
    ensures
        r == spec_is_whitespace(c),
{
    ('\u{9}' <= c && c <= '\u{d}') || c == ' ' || c == '\u{85}' || c == '\u{a0}' || c
        == '\u{1680}' || ('\u{2000}' <= c && c <= '\u{200a}') || c == '\u{2028}' || c
        == '\u{2029}' || c == '\u{202f}' || c == '\u{205f}' || c == '\u{3000}'
}

/// Whether `s` holds only whitespace.
pub fn is_blank(s: &[char]) -> (r: bool)
    ensures
        r == spec_is_blank(s@),
{
    let mut i: usize = 0;
    while i < s.len()
        invariant
            i <= s@.len(),
            forall|k: int| 0 <= k < i ==> spec_is_whitespace(#[trigger] s@[k]),
        decreases s@.len() - i,
    {
        if !is_whitespace(s[i]) {
            return false;
        }
        i = i + 1;
    }
    true
}

proof fn lemma_first_non_ws_bounds(s: Seq<char>, i: int)
    requires
        0 <= i <= s.len(),
    ensures
        i <= spec_first_non_ws(s, i) <= s.len(),
        spec_first_non_ws(s, i) < s.len() ==> !spec_is_whitespace(s[spec_first_non_ws(s, i)]),
        forall|k: int| i <= k < spec_first_non_ws(s, i) ==> spec_is_whitespace(#[trigger] s[k]),
    decreases s.len() - i,
{
    if i < s.len() && spec_is_whitespace(s[i]) {
        lemma_first_non_ws_bounds(s, i + 1);
    }
}

proof fn lemma_end_non_ws_bounds(s: Seq<char>, j: int)
    requires
        0 <= j <= s.len(),
    ensures
        0 <= spec_end_non_ws(s, j) <= j,
        spec_end_non_ws(s, j) > 0 ==> !spec_is_whitespace(s[spec_end_non_ws(s, j) - 1]),
        forall|k: int| spec_end_non_ws(s, j) <= k < j ==> spec_is_whitespace(#[trigger] s[k]),
    decreases j,
{
    if j > 0 && spec_is_whitespace(s[j - 1]) {
        lemma_end_non_ws_bounds(s, j - 1);
    }
}

/// `str::trim` on a character slice.
pub fn trim_chars(s: &[char]) -> (r: Vec<char>)
    ensures
        r@ == spec_trim(s@),
{
    let n = s.len();
    let mut a: usize = 0;
    while a < n && is_whitespace(s[a])
        invariant
            n == s@.len(),
            a <= n,
            spec_first_non_ws(s@, 0) == spec_first_non_ws(s@, a as int),
        decreases n - a,
    {
        a = a + 1;
    }
    if a >= n {
        return Vec::new();
    }
    let mut b: usize = n;
    while b > 0 && is_whitespace(s[b - 1])
        invariant
            n == s@.len(),
            b <= n,
            spec_end_non_ws(s@, n as int) == spec_end_non_ws(s@, b as int),
        decreases b,
    {
        b = b - 1;
    }
    proof {
        lemma_first_non_ws_bounds(s@, 0);
        lemma_end_non_ws_bounds(s@, n as int);
        assert(a as int == spec_first_non_ws(s@, 0));
        assert(b as int == spec_end_non_ws(s@, n as int));
        if b <= a {
            assert(!spec_is_whitespace(s@[a as int]));
            assert(false);
        }
    }
    let mut r: Vec<char> = Vec::new();
    let mut i: usize = a;
    while i < b
        invariant
            a <= i <= b <= n,
            n == s@.len(),
            r@ == s@.subrange(a as int, i as int),
        decreases b - i,
    {
        r.push(s[i]);
        i = i + 1;
    }
    r
}

// ─── Signed numbers and optional values ─────────────────────────────────────

/// Decimal rendering of a signed number, with a leading `-` when negative.
pub open spec fn spec_signed_decimal(v: int) -> Seq<char> {
    if v < 0 {
        seq!['-'] + spec_decimal((-v) as nat)
    } else {
        spec_decimal(v as nat)
    }
}

/// `{:?}` of an `Option<i32>`: `Some(<n>)` or `None`.
pub open spec fn spec_debug_opt_i32(v: Option<i32>) -> Seq<char> {
    match v {
        Some(x) => "Some("@ + spec_signed_decimal(x as int) + ")"@,
        None => "None"@,
    }
}

/// Appends the decimal rendering of a signed number.
pub fn push_signed_decimal(out: &mut String, v: i32)
    ensures
        final(out)@ == old(out)@ + spec_signed_decimal(v as int),
{
    if v < 0 {
        push_char(out, '-');
        let m: u64 = (0i64 - (v as i64)) as u64;
        push_decimal(out, m);
        assert(final(out)@ =~= old(out)@ + spec_signed_decimal(v as int));
    } else {
        push_decimal(out, v as u64);
    }
}

/// Appends `{:?}` of an `Option<i32>`.
pub fn push_debug_opt_i32(out: &mut String, v: Option<i32>)
    ensures
        final(out)@ == old(out)@ + spec_debug_opt_i32(v),
{
    match v {
        Some(x) => {
            push_str(out, "Some(");
            push_signed_decimal(out, x);
            push_str(out, ")");
            assert(final(out)@ =~= old(out)@ + spec_debug_opt_i32(v));
        },
        None => {
            push_str(out, "None");
        },
    }
}


// ─── ASCII case ─────────────────────────────────────────────────────────────

/// ASCII lowercase of one character; other characters are unchanged.
pub open spec fn spec_ascii_lower(c: char) -> char {
    if 'A' <= c && c <= 'Z' {
        ((c as int) + 32) as char
    } else {
        c
    }
}

/// `str::eq_ignore_ascii_case`: equal lengths and equal characters up to
/// ASCII case.
pub open spec fn spec_eq_ignore_ascii_case(a: Seq<char>, b: Seq<char>) -> bool {
    a.len() == b.len() && forall|i: int|
        0 <= i < a.len() ==> spec_ascii_lower(#[trigger] a[i]) == spec_ascii_lower(b[i])
}

/// ASCII lowercase of one character.
pub fn ascii_lower(c: char) -> (r: char)
    ensures
        r == spec_ascii_lower(c),
{
    if 'A' <= c && c <= 'Z' {
        let code: u32 = c as u32 + 32;
        proof {
            assert(code < 0xD800);
        }
        char_from_ascii_code(code)
    } else {
        c
    }
}

fn char_from_ascii_code(code: u32) -> (c: char)
    requires
        'a' as u32 <= code <= 'z' as u32,
    ensures
        c as u32 == code,
{
    let b: u8 = code as u8;
    b as char
}

/// Whether two texts are equal up to ASCII case.
pub fn eq_ignore_ascii_case(a: &[char], b: &[char]) -> (r: bool)
    ensures
        r == spec_eq_ignore_ascii_case(a@, b@),
{
    if a.len() != b.len() {
        return false;
    }
    let mut i: usize = 0;
    while i < a.len()
        invariant
            a@.len() == b@.len(),
            i <= a@.len(),
            forall|k: int| 0 <= k < i ==> spec_ascii_lower(#[trigger] a@[k]) == spec_ascii_lower(b@[k]),
        decreases a@.len() - i,
    {
        if ascii_lower(a[i]) != ascii_lower(b[i]) {
            return false;
        }
        i = i + 1;
    }
    true
}

} // verus!
