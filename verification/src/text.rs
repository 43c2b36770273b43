//! Text helpers: concatenation, ASCII case folding, and decimal numerals.

use vstd::prelude::*;
use vstd::std_specs::iter::IteratorSpec;

verus! {

/// `c` with the letters `A` to `Z` replaced by `a` to `z`.
pub open spec fn lower_char(c: char) -> char {
    if 'A' <= c && c <= 'Z' {
        ((c as u8) + 32) as u8 as char
    } else {
        c
    }
}

/// `c` with the letters `a` to `z` replaced by `A` to `Z`.
pub open spec fn upper_char(c: char) -> char {
    if 'a' <= c && c <= 'z' {
        ((c as u8) - 32) as u8 as char
    } else {
        c
    }
}

/// `s` in ASCII lower case.
pub open spec fn lower(s: Seq<char>) -> Seq<char> {
    s.map_values(|c: char| lower_char(c))
}

/// `s` in ASCII upper case.
pub open spec fn upper(s: Seq<char>) -> Seq<char> {
    s.map_values(|c: char| upper_char(c))
}

/// Whether two texts agree up to ASCII letter case.
pub open spec fn folds_to(a: Seq<char>, b: Seq<char>) -> bool {
    lower(a) == lower(b)
}

/// Whether every character is one of `0` to `9`.
pub open spec fn all_digits(s: Seq<char>) -> bool {
    forall|i: int| 0 <= i < s.len() ==> '0' <= #[trigger] s[i] && s[i] <= '9'
}

/// The number a sequence of digits denotes in base ten.
pub open spec fn digits_value(s: Seq<char>) -> int
    decreases s.len(),
{
    if s.len() == 0 {
        0
    } else {
        10 * digits_value(s.drop_last()) + (s.last() as int - '0' as int)
    }
}

/// What an unsigned numeral denotes: digits, optionally behind a plus sign.
pub open spec fn unsigned_value(s: Seq<char>) -> Option<int> {
    let body = if s.len() > 0 && s[0] == '+' {
        s.skip(1)
    } else {
        s
    };
    if body.len() > 0 && all_digits(body) {
        Some(digits_value(body))
    } else {
        None
    }
}

/// What a signed numeral denotes: digits, optionally behind a sign.
pub open spec fn signed_value(s: Seq<char>) -> Option<int> {
    if s.len() > 0 && s[0] == '-' {
        let body = s.skip(1);
        if body.len() > 0 && all_digits(body) {
            Some(-digits_value(body))
        } else {
            None
        }
    } else {
        unsigned_value(s)
    }
}

/// The numeral of one digit.
pub open spec fn digit_text(d: int) -> Seq<char> {
    if d == 0 {
        "0"@
    } else if d == 1 {
        "1"@
    } else if d == 2 {
        "2"@
    } else if d == 3 {
        "3"@
    } else if d == 4 {
        "4"@
    } else if d == 5 {
        "5"@
    } else if d == 6 {
        "6"@
    } else if d == 7 {
        "7"@
    } else if d == 8 {
        "8"@
    } else {
        "9"@
    }
}

/// The shortest base-ten numeral of a natural number.
pub open spec fn nat_text(n: nat) -> Seq<char>
    decreases n,
{
    if n < 10 {
        digit_text(n as int)
    } else {
        nat_text(n / 10) + digit_text((n % 10) as int)
    }
}

/// The shortest base-ten numeral of an integer.
pub open spec fn int_text(i: int) -> Seq<char> {
    if i < 0 {
        "-"@ + nat_text((-i) as nat)
    } else {
        nat_text(i as nat)
    }
}

/// `String::push`: the character is appended.
pub assume_specification[ std::string::String::push ](s: &mut std::string::String, c: char)
    ensures
        final(s)@ == old(s)@.push(c),
;

/// The characters of a text.
pub(crate) fn chars_of(s: &str) -> (r: Vec<char>)
    ensures
        r@ == s@,
{
    broadcast use vstd::string::axiom_spec_iter, vstd::string::next_postcondition;

    let mut rest = s.chars();
    let mut out: Vec<char> = Vec::new();
    loop
        invariant
            rest.decrease() is Some,
            out@ + rest.remaining() =~= s@,
        decreases rest.decrease()->0,
    {
        match rest.next() {
            Some(c) => {
                out.push(c);
            },
            None => {
                return out;
            },
        }
    }
}

fn lowered(c: char) -> (r: char)
    ensures
        r == lower_char(c),
{
    if 'A' <= c && c <= 'Z' {
        ((c as u8) + 32) as char
    } else {
        c
    }
}

fn uppered(c: char) -> (r: char)
    ensures
        r == upper_char(c),
{
    if 'a' <= c && c <= 'z' {
        ((c as u8) - 32) as char
    } else {
        c
    }
}

/// Whether two texts hold the same characters.
pub(crate) fn same_text(a: &str, b: &str) -> (r: bool)
    ensures
        r == (a@ == b@),
{
    let x = chars_of(a);
    let y = chars_of(b);
    if x.len() != y.len() {
        return false;
    }
    let mut i: usize = 0;
    while i < x.len()
        invariant
            i <= x@.len(),
            x@ == a@,
            y@ == b@,
            x@.len() == y@.len(),
            forall|k: int| 0 <= k < i ==> x@[k] == y@[k],
        decreases x@.len() - i,
    {
        if x[i] != y[i] {
            return false;
        }
        i = i + 1;
    }
    assert(x@ =~= y@);
    true
}

/// Whether two texts agree up to ASCII letter case.
pub(crate) fn same_folded(a: &str, b: &str) -> (r: bool)
    ensures
        r == folds_to(a@, b@),
{
    let x = chars_of(a);
    let y = chars_of(b);
    if x.len() != y.len() {
        assert(lower(a@).len() != lower(b@).len());
        return false;
    }
    let mut i: usize = 0;
    while i < x.len()
        invariant
            i <= x@.len(),
            x@ == a@,
            y@ == b@,
            x@.len() == y@.len(),
            forall|k: int| 0 <= k < i ==> lower(a@)[k] == lower(b@)[k],
        decreases x@.len() - i,
    {
        if lowered(x[i]) != lowered(y[i]) {
            assert(lower(a@)[i as int] != lower(b@)[i as int]);
            return false;
        }
        i = i + 1;
    }
    assert(lower(a@) =~= lower(b@));
    true
}

/// A text in ASCII lower case.
pub(crate) fn to_lower(s: &str) -> (r: String)
    ensures
        r@ == lower(s@),
{
    let c = chars_of(s);
    let mut out = String::new();
    let mut i: usize = 0;
    while i < c.len()
        invariant
            i <= c@.len(),
            c@ == s@,
            out@ =~= lower(s@).take(i as int),
        decreases c@.len() - i,
    {
        out.push(lowered(c[i]));
        i = i + 1;
    }
    assert(lower(s@).take(i as int) =~= lower(s@));
    out
}

/// A text in ASCII upper case.
pub(crate) fn to_upper(s: &str) -> (r: String)
    ensures
        r@ == upper(s@),
{
    let c = chars_of(s);
    let mut out = String::new();
    let mut i: usize = 0;
    while i < c.len()
        invariant
            i <= c@.len(),
            c@ == s@,
            out@ =~= upper(s@).take(i as int),
        decreases c@.len() - i,
    {
        out.push(uppered(c[i]));
        i = i + 1;
    }
    assert(upper(s@).take(i as int) =~= upper(s@));
    out
}

/// More digits denote no smaller a number.
proof fn lemma_digits_grow(s: Seq<char>, n: int)
    requires
        0 <= n <= s.len(),
        all_digits(s),
    ensures
        0 <= digits_value(s.take(n)) <= digits_value(s),
    decreases s.len(),
{
    if n == s.len() {
        assert(s.take(n) =~= s);
        if n > 0 {
            assert(s[n - 1] == s.last());
            lemma_digits_grow(s.drop_last(), n - 1);
        }
    } else {
        assert(s.last() == s[s.len() - 1]);
        assert(s.take(n) =~= s.drop_last().take(n));
        lemma_digits_grow(s.drop_last(), n);
    }
}

/// What the digits from a position on denote, if `u64` can hold it.
fn magnitude(c: &Vec<char>, from: usize) -> (r: Option<u64>)
    requires
        from <= c@.len(),
    ensures
        ({
            let body = c@.skip(from as int);
            match r {
                Some(n) => body.len() > 0 && all_digits(body) && digits_value(body) == n,
                None => body.len() > 0 && all_digits(body) ==> digits_value(body) > u64::MAX,
            }
        }),
{
    let ghost body = c@.skip(from as int);
    if from == c.len() {
        return None;
    }
    let mut value: u64 = 0;
    let mut i: usize = from;
    while i < c.len()
        invariant
            from <= i <= c@.len(),
            from < c@.len(),
            body == c@.skip(from as int),
            all_digits(body.take(i - from)),
            value == digits_value(body.take(i - from)),
        decreases c@.len() - i,
    {
        let x = c[i];
        assert(body[i - from] == x);
        if x < '0' || x > '9' {
            return None;
        }
        let d: u64 = ((x as u32) - ('0' as u32)) as u64;
        let ghost next = body.take(i - from + 1);
        assert(next.drop_last() =~= body.take(i - from));
        assert(next.last() == x);
        let wide: u128 = (value as u128) * 10 + (d as u128);
        assert(digits_value(next) == wide);
        if wide > (u64::MAX as u128) {
            proof {
                if all_digits(body) {
                    lemma_digits_grow(body, i - from + 1);
                }
            }
            return None;
        }
        value = wide as u64;
        i = i + 1;
    }
    assert(body.take(i - from) =~= body);
    Some(value)
}

/// What an unsigned numeral denotes, if it is one and `u64` can hold that.
pub(crate) fn parse_u64(s: &str) -> (r: Option<u64>)
    ensures
        r matches Some(n) ==> unsigned_value(s@) == Some(n as int),
        r is None ==> (unsigned_value(s@) matches Some(n) ==> n > u64::MAX),
{
    let c = chars_of(s);
    if c.len() > 0 && c[0] == '+' {
        magnitude(&c, 1)
    } else {
        assert(c@.skip(0) =~= s@);
        magnitude(&c, 0)
    }
}

/// What a signed numeral denotes, if it is one and `i64` can hold that.
pub(crate) fn parse_i64(s: &str) -> (r: Option<i64>)
    ensures
        r matches Some(n) ==> signed_value(s@) == Some(n as int),
        r is None ==> (signed_value(s@) matches Some(n) ==> n < i64::MIN || n > i64::MAX),
{
    let c = chars_of(s);
    if c.len() > 0 && c[0] == '-' {
        return match magnitude(&c, 1) {
            Some(m) => {
                let i: i128 = -(m as i128);
                if i < i64::MIN as i128 {
                    None
                } else {
                    Some(i as i64)
                }
            },
            None => None,
        };
    }
    match parse_u64(s) {
        Some(m) => if m > i64::MAX as u64 {
            None
        } else {
            Some(m as i64)
        },
        None => None,
    }
}

/// Whether every character of a text is a digit.
pub(crate) fn is_all_digits(s: &str) -> (r: bool)
    ensures
        r == all_digits(s@),
{
    let n: usize = s.unicode_len();
    let mut i: usize = 0;
    while i < n
        invariant
            n == s@.len(),
            i <= n,
            forall|j: int| 0 <= j < i ==> '0' <= #[trigger] s@[j] && s@[j] <= '9',
        decreases n - i,
    {
        let c = s.get_char(i);
        if c < '0' || c > '9' {
            return false;
        }
        i = i + 1;
    }
    true
}

fn digit(d: u64) -> (r: &'static str)
    requires
        d < 10,
    ensures
        r@ == digit_text(d as int),
{
    if d == 0 {
        "0"
    } else if d == 1 {
        "1"
    } else if d == 2 {
        "2"
    } else if d == 3 {
        "3"
    } else if d == 4 {
        "4"
    } else if d == 5 {
        "5"
    } else if d == 6 {
        "6"
    } else if d == 7 {
        "7"
    } else if d == 8 {
        "8"
    } else {
        "9"
    }
}

/// The numeral of an unsigned number.
pub fn unsigned_text(n: u64) -> (r: String)
    ensures
        r@ == nat_text(n as nat),
    decreases n,
{
    if n < 10 {
        String::from_str(digit(n))
    } else {
        unsigned_text(n / 10).concat(digit(n % 10))
    }
}

/// The numeral of a count.
pub fn count_text(n: usize) -> (r: String)
    ensures
        r@ == nat_text(n as nat),
{
    unsigned_text(n as u64)
}

/// The numeral of a signed number.
pub fn signed_text(i: i64) -> (r: String)
    ensures
        r@ == int_text(i as int),
{
    if i < 0 {
        let m: u64 = (-(i as i128)) as u64;
        String::from_str("-").concat(unsigned_text(m).as_str())
    } else {
        unsigned_text(i as u64)
    }
}

/// An owned copy of a text.
pub(crate) fn owned(s: &str) -> (r: String)
    ensures
        r@ == s@,
{
    String::from_str(s)
}

/// Two texts, one after the other.
pub(crate) fn cat2(a: &str, b: &str) -> (r: String)
    ensures
        r@ == a@ + b@,
{
    String::from_str(a).concat(b)
}

/// Three texts, one after the other.
pub(crate) fn cat3(a: &str, b: &str, c: &str) -> (r: String)
    ensures
        r@ == a@ + b@ + c@,
{
    String::from_str(a).concat(b).concat(c)
}

/// Four texts, one after the other.
pub(crate) fn cat4(a: &str, b: &str, c: &str, d: &str) -> (r: String)
    ensures
        r@ == a@ + b@ + c@ + d@,
{
    String::from_str(a).concat(b).concat(c).concat(d)
}

/// Five texts, one after the other.
pub(crate) fn cat5(a: &str, b: &str, c: &str, d: &str, e: &str) -> (r: String)
    ensures
        r@ == a@ + b@ + c@ + d@ + e@,
{
    String::from_str(a).concat(b).concat(c).concat(d).concat(e)
}

/// Six texts, one after the other.
pub(crate) fn cat6(a: &str, b: &str, c: &str, d: &str, e: &str, f: &str) -> (r: String)
    ensures
        r@ == a@ + b@ + c@ + d@ + e@ + f@,
{
    String::from_str(a).concat(b).concat(c).concat(d).concat(e).concat(f)
}

/// Seven texts, one after the other.
pub(crate) fn cat7(a: &str, b: &str, c: &str, d: &str, e: &str, f: &str, g: &str) -> (r: String)
    ensures
        r@ == a@ + b@ + c@ + d@ + e@ + f@ + g@,
{
    String::from_str(a).concat(b).concat(c).concat(d).concat(e).concat(f).concat(g)
}

/// Whether a character is Unicode white space.
pub open spec fn is_space(c: char) -> bool {
    ('\t' <= c && c <= '\r') || c == ' ' || c == '\u{85}' || c == '\u{a0}' || c == '\u{1680}' || (
    '\u{2000}' <= c && c <= '\u{200a}') || c == '\u{2028}' || c == '\u{2029}' || c == '\u{202f}' || c
        == '\u{205f}' || c == '\u{3000}'
}

/// The first position from `i` on that is not white space.
pub open spec fn first_solid(s: Seq<char>, i: int) -> int
    decreases s.len() - i,
{
    if i < 0 || i >= s.len() || !is_space(s[i]) {
        i
    } else {
        first_solid(s, i + 1)
    }
}

/// The end of what is left of the first `n` characters without white space at the end, but not
/// below `low`.
pub open spec fn last_solid(s: Seq<char>, low: int, n: int) -> int
    decreases n,
{
    if n <= low || n <= 0 || n > s.len() || !is_space(s[n - 1]) {
        n
    } else {
        last_solid(s, low, n - 1)
    }
}

/// A text without white space at both ends.
pub open spec fn trimmed(s: Seq<char>) -> Seq<char> {
    let from = first_solid(s, 0);
    s.subrange(from, last_solid(s, from, s.len() as int))
}

fn is_space_char(c: char) -> (r: bool)
    ensures
        r == is_space(c),
{
    (c >= '\t' && c <= '\r') || c == ' ' || c == '\u{85}' || c == '\u{a0}' || c == '\u{1680}' || (c
        >= '\u{2000}' && c <= '\u{200a}') || c == '\u{2028}' || c == '\u{2029}' || c == '\u{202f}' || c
        == '\u{205f}' || c == '\u{3000}'
}

/// A text without white space at both ends.
pub(crate) fn trim(s: &str) -> (r: &str)
    ensures
        r@ == trimmed(s@),
{
    let n: usize = s.unicode_len();
    let mut from: usize = 0;
    while from < n && is_space_char(s.get_char(from))
        invariant
            n == s@.len(),
            from <= n,
            first_solid(s@, 0) == first_solid(s@, from as int),
        decreases n - from,
    {
        from = from + 1;
    }
    let mut to: usize = n;
    while to > from && is_space_char(s.get_char(to - 1))
        invariant
            n == s@.len(),
            from <= to <= n,
            last_solid(s@, from as int, n as int) == last_solid(s@, from as int, to as int),
        decreases to,
    {
        to = to - 1;
    }
    s.substring_char(from, to)
}

/// `str::from_utf8`: the text that the bytes encode, if they encode one.
#[verifier::external_body]
pub(crate) fn text_of_bytes(b: &Vec<u8>) -> (r: Option<String>)
    ensures
        r is Some <==> vstd::utf8::valid_utf8(b@),
        r matches Some(t) ==> t@ == vstd::utf8::decode_utf8(b@),
{
    std::str::from_utf8(b).ok().map(String::from)
}

/// The numeral of a number below sixteen in base sixteen.
pub open spec fn hex_digit_text(d: int) -> Seq<char> {
    if d < 10 {
        digit_text(d)
    } else if d == 10 {
        "A"@
    } else if d == 11 {
        "B"@
    } else if d == 12 {
        "C"@
    } else if d == 13 {
        "D"@
    } else if d == 14 {
        "E"@
    } else {
        "F"@
    }
}

/// The first `n` bytes in base sixteen, two digits each.
pub open spec fn hex_text(b: Seq<u8>, n: int) -> Seq<char>
    decreases n,
{
    if n <= 0 || n > b.len() {
        Seq::empty()
    } else {
        hex_text(b, n - 1) + hex_digit_text(b[n - 1] as int / 16) + hex_digit_text(
            b[n - 1] as int % 16,
        )
    }
}

fn hex_digit(d: u8) -> (r: &'static str)
    requires
        d < 16,
    ensures
        r@ == hex_digit_text(d as int),
{
    if d < 10 {
        digit(d as u64)
    } else if d == 10 {
        "A"
    } else if d == 11 {
        "B"
    } else if d == 12 {
        "C"
    } else if d == 13 {
        "D"
    } else if d == 14 {
        "E"
    } else {
        "F"
    }
}

/// Bytes in base sixteen, two digits each.
pub(crate) fn bytes_hex(b: &Vec<u8>) -> (r: String)
    ensures
        r@ == hex_text(b@, b@.len() as int),
{
    let mut out = String::new();
    let mut i: usize = 0;
    while i < b.len()
        invariant
            i <= b.len(),
            out@ == hex_text(b@, i as int),
        decreases b.len() - i,
    {
        out.append(hex_digit(b[i] / 16));
        out.append(hex_digit(b[i] % 16));
        i = i + 1;
    }
    out
}

/// Whether a text holds a character.
pub(crate) fn contains_char(s: &str, c: char) -> (r: bool)
    ensures
        r == s@.contains(c),
{
    let n: usize = s.unicode_len();
    let mut i: usize = 0;
    while i < n
        invariant
            n == s@.len(),
            i <= n,
            forall|j: int| 0 <= j < i ==> s@[j] != c,
        decreases n - i,
    {
        if s.get_char(i) == c {
            assert(s@[i as int] == c);
            return true;
        }
        i = i + 1;
    }
    false
}

/// What a base-sixteen digit denotes, if it is one.
pub open spec fn hex_value(c: u8) -> Option<int> {
    if 48 <= c <= 57 {
        Some(c - 48)
    } else if 65 <= c <= 70 {
        Some(c - 55)
    } else if 97 <= c <= 102 {
        Some(c - 87)
    } else {
        None
    }
}

/// What two characters denote in base sixteen; the first may be a plus sign.
pub open spec fn hex_pair(a: u8, b: u8) -> Option<int> {
    match (hex_value(a), hex_value(b)) {
        (Some(x), Some(y)) => Some(16 * x + y),
        (None, Some(y)) => if a == 43 {
            Some(y)
        } else {
            None
        },
        _ => None,
    }
}

/// The bytes that pairs of base-sixteen digits denote from position `i` on, behind `acc`.
pub open spec fn hex_bytes(s: Seq<u8>, i: int, acc: Seq<u8>) -> Option<Seq<u8>>
    decreases s.len() - i,
{
    if i < 0 || i + 1 >= s.len() {
        Some(acc)
    } else {
        match hex_pair(s[i], s[i + 1]) {
            Some(v) => hex_bytes(s, i + 2, acc.push(v as u8)),
            None => None,
        }
    }
}

fn hex_of(c: u8) -> (r: Option<u8>)
    ensures
        match r {
            Some(v) => v < 16 && hex_value(c) == Some(v as int),
            None => hex_value(c) is None,
        },
{
    if 48 <= c && c <= 57 {
        Some(c - 48)
    } else if 65 <= c && c <= 70 {
        Some(c - 55)
    } else if 97 <= c && c <= 102 {
        Some(c - 87)
    } else {
        None
    }
}

/// The bytes that pairs of base-sixteen digits denote, if every pair does.
pub(crate) fn parse_hex(s: &Vec<u8>) -> (r: Option<Vec<u8>>)
    ensures
        match r {
            Some(v) => hex_bytes(s@, 0, Seq::empty()) == Some(v@),
            None => hex_bytes(s@, 0, Seq::empty()) is None,
        },
{
    let mut out: Vec<u8> = Vec::new();
    let mut i: usize = 0;
    while s.len() >= 2 && i < s.len() - 1
        invariant
            i <= s.len(),
            hex_bytes(s@, 0, Seq::empty()) == hex_bytes(s@, i as int, out@),
        decreases s.len() - i,
    {
        let v: u8 = match (hex_of(s[i]), hex_of(s[i + 1])) {
            (Some(x), Some(y)) => 16 * x + y,
            (None, Some(y)) => {
                if s[i] == 43 {
                    y
                } else {
                    return None;
                }
            },
            _ => {
                return None;
            },
        };
        out.push(v);
        i = i + 2;
    }
    Some(out)
}

} // verus!
