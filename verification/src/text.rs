//! Character-level helpers shared by the parsers of this crate: decimal
//! formatting and parsing, and conversions between `str`, `String` and
//! sequences of characters or bytes.
use vstd::prelude::*;

verus! {

/// The character of a decimal digit `d < 10`.
pub open spec fn digit_char(d: nat) -> char {
    (d + 48) as char
}

/// The value of a character that is a decimal digit.
pub open spec fn digit_value(c: char) -> nat {
    (c as int - 48) as nat
}

pub open spec fn is_digit(c: char) -> bool {
    '0' <= c && c <= '9'
}

pub open spec fn all_digits(s: Seq<char>) -> bool {
    forall|i: int| 0 <= i < s.len() ==> is_digit(#[trigger] s[i])
}

/// The decimal representation of `n`, without leading zeros, as `format!("{}", n)` writes it.
pub open spec fn decimal(n: nat) -> Seq<char>
    decreases n,
{
    if n < 10 {
        seq![digit_char(n)]
    } else {
        decimal(n / 10).push(digit_char(n % 10))
    }
}

/// The number that a sequence of decimal digits denotes.
pub open spec fn digits_value(s: Seq<char>) -> nat
    decreases s.len(),
{
    if s.len() == 0 {
        0
    } else {
        digits_value(s.drop_last()) * 10 + digit_value(s.last())
    }
}

proof fn lemma_digit_round_trip(d: nat)
    requires
        d < 10,
    ensures
        digit_value(digit_char(d)) == d,
        is_digit(digit_char(d)),
{
    assert(((d + 48) as char) as int == d + 48);
}

/// The decimal representation of `n` is a nonempty run of digits that denotes `n`.
pub proof fn lemma_decimal_digits(n: nat)
    ensures
        decimal(n).len() >= 1,
        all_digits(decimal(n)),
        digits_value(decimal(n)) == n,
    decreases n,
{
    let d = (n % 10) as nat;
    lemma_digit_round_trip(d);
    if n >= 10 {
        lemma_decimal_digits(n / 10);
        let s = decimal(n);
        assert(s.drop_last() =~= decimal(n / 10));
        assert(s.last() == digit_char(d));
        assert(digits_value(s) == digits_value(s.drop_last()) * 10 + digit_value(s.last()));
        vstd::arithmetic::div_mod::lemma_fundamental_div_mod(n as int, 10);
        assert(all_digits(s)) by {
            assert forall|i: int| 0 <= i < s.len() implies is_digit(#[trigger] s[i]) by {
                if i < s.len() - 1 {
                    assert(s[i] == decimal(n / 10)[i]);
                }
            }
        }
        assert(digits_value(s) == n);
    } else {
        let s = decimal(n);
        assert(s.drop_last() =~= Seq::<char>::empty());
        vstd::arithmetic::div_mod::lemma_small_mod(n, 10);
        assert(s.last() == digit_char(d));
        assert(digits_value(s) == digits_value(s.drop_last()) * 10 + digit_value(s.last()));
        assert(digits_value(s) == n);
    }
}

/// What `str::parse` gives for an unsigned integer type whose largest value is `max`:
/// an optional `+`, then at least one decimal digit and nothing else, and a value that fits.
pub open spec fn parse_unsigned(s: Seq<char>, max: nat) -> Option<nat> {
    let digits = if s.len() > 0 && s[0] == '+' { s.drop_first() } else { s };
    if digits.len() == 0 || !all_digits(digits) {
        None
    } else if digits_value(digits) <= max {
        Some(digits_value(digits))
    } else {
        None
    }
}

/// What `str::parse` gives for a signed integer type with range `min ..= max`:
/// an optional sign, then at least one decimal digit and nothing else, and a value that fits.
pub open spec fn parse_signed(s: Seq<char>, min: int, max: int) -> Option<int> {
    let negative = s.len() > 0 && s[0] == '-';
    let digits = if s.len() > 0 && (s[0] == '+' || s[0] == '-') { s.drop_first() } else { s };
    if digits.len() == 0 || !all_digits(digits) {
        None
    } else {
        let v: int = if negative { -digits_value(digits) } else { digits_value(digits) as int };
        if min <= v && v <= max {
            Some(v)
        } else {
            None
        }
    }
}

/// A byte read as the character with the same code (what `b as char` gives).
pub open spec fn byte_char(b: u8) -> char {
    b as char
}

pub open spec fn bytes_as_chars(s: Seq<u8>) -> Seq<char> {
    s.map_values(|b: u8| byte_char(b))
}

/// Characters read as bytes (what `c as u8` gives for characters below 256).
pub open spec fn chars_as_bytes(s: Seq<char>) -> Seq<u8> {
    s.map_values(|c: char| c as u8)
}

pub open spec fn is_ascii_char(c: char) -> bool {
    (c as u32) < 128
}

pub open spec fn all_ascii(s: Seq<char>) -> bool {
    forall|i: int| 0 <= i < s.len() ==> is_ascii_char(#[trigger] s[i])
}

proof fn lemma_digits_value_prefix(s: Seq<char>, k: int)
    requires
        0 <= k <= s.len(),
    ensures
        digits_value(s.subrange(0, k)) <= digits_value(s),
    decreases s.len(),
{
    if k < s.len() {
        lemma_digits_value_prefix(s.drop_last(), k);
        assert(s.drop_last().subrange(0, k) =~= s.subrange(0, k));
    } else {
        assert(s.subrange(0, k) =~= s);
    }
}

proof fn lemma_digits_value_step(s: Seq<char>, i: int)
    requires
        0 <= i < s.len(),
    ensures
        digits_value(s.subrange(0, i + 1)) == digits_value(s.subrange(0, i)) * 10 + digit_value(
            s[i],
        ),
{
    assert(s.subrange(0, i + 1).drop_last() =~= s.subrange(0, i));
}

/// A number written in decimal reads back as itself, wherever it fits.
pub proof fn law_decimal_parses_back(n: nat, max: nat)
    requires
        n <= max,
    ensures
        parse_unsigned(decimal(n), max) == Some(n),
{
    lemma_decimal_digits(n);
    assert(is_digit(decimal(n)[0]));
}

/// Parses an unsigned decimal number, as `str::parse` does for an unsigned
/// integer type whose largest value is `max`.
pub fn parse_unsigned_chars(s: &[char], max: u128) -> (r: Option<u128>)
    requires
        max >= 9,
    ensures
        r matches Some(v) ==> parse_unsigned(s@, max as nat) == Some(v as nat),
        r is None ==> parse_unsigned(s@, max as nat) is None,
{
    let start: usize = if s.len() > 0 && s[0] == '+' { 1 } else { 0 };
    let ghost digits = if s@.len() > 0 && s@[0] == '+' { s@.drop_first() } else { s@ };
    assert(digits =~= s@.subrange(start as int, s@.len() as int));
    if start == s.len() {
        return None;
    }
    let mut v: u128 = 0;
    let mut i: usize = start;
    while i < s.len()
        invariant
            start <= i <= s.len(),
            digits == (if s@.len() > 0 && s@[0] == '+' { s@.drop_first() } else { s@ }),
            digits =~= s@.subrange(start as int, s@.len() as int),
            all_digits(digits.subrange(0, i - start)),
            v as nat == digits_value(digits.subrange(0, i - start)),
            v <= max,
            max >= 9,
        decreases s.len() - i,
    {
        let c = s[i];
        if !('0' <= c && c <= '9') {
            assert(!is_digit(digits[i - start]));
            return None;
        }
        let d: u128 = ((c as u32) - 48) as u128;
        proof {
            lemma_digits_value_step(digits, i - start);
            assert(digits.subrange(0, i - start + 1).drop_last() =~= digits.subrange(0, i - start));
        }
        if v > (max - d) / 10 {
            proof {
                assert(v * 10 + d > max) by (nonlinear_arith)
                    requires
                        v > (max - d) / 10,
                        d <= 9,
                        max >= 9,
                ;
                lemma_digits_value_prefix(digits, i - start + 1);
            }
            return None;
        }
        assert(v * 10 + d <= max) by (nonlinear_arith)
            requires
                v <= (max - d) / 10,
                d <= 9,
                max >= 9,
        ;
        v = v * 10 + d;
        i = i + 1;
        assert(all_digits(digits.subrange(0, i - start)));
    }
    assert(digits.subrange(0, i - start) =~= digits);
    Some(v)
}


/// Parses a signed decimal number, as `str::parse` does for a signed
/// integer type whose values are `min ..= max`.
pub fn parse_signed_chars(s: &[char], min: i128, max: i128) -> (r: Option<i128>)
    requires
        min == -max - 1,
        max >= 9,
    ensures
        r matches Some(v) ==> parse_signed(s@, min as int, max as int) == Some(v as int),
        r is None ==> parse_signed(s@, min as int, max as int) is None,
{
    let n = s.len();
    let negative = n > 0 && s[0] == '-';
    let signed = n > 0 && (s[0] == '+' || s[0] == '-');
    let start: usize = if signed { 1 } else { 0 };
    let mut digits: Vec<char> = Vec::new();
    let mut i: usize = start;
    while i < n
        invariant
            start <= i <= n,
            n == s@.len(),
            digits@ == s@.subrange(start as int, i as int),
        decreases n - i,
    {
        digits.push(s[i]);
        i = i + 1;
    }
    let ghost d = if s@.len() > 0 && (s@[0] == '+' || s@[0] == '-') { s@.drop_first() } else { s@ };
    assert(digits@ =~= d);
    if digits.len() > 0 && digits[0] == '+' {
        assert(!is_digit(d[0]));
        return None;
    }
    let limit: u128 = if negative { (max as u128) + 1 } else { max as u128 };
    match parse_unsigned_chars(digits.as_slice(), limit) {
        None => None,
        Some(m) => {
            if negative {
                if m == limit {
                    Some(min)
                } else {
                    Some(0 - (m as i128))
                }
            } else {
                Some(m as i128)
            }
        },
    }
}

/// The characters of a string slice.
pub fn str_chars(s: &str) -> (r: Vec<char>)
    ensures
        r@ == s@,
{
    let mut r: Vec<char> = Vec::new();
    for c in it: s.chars()
        invariant
            r@ == it.seq().take(it.index() as int),
            it.seq() == s@,
    {
        r.push(c);
    }
    assert(r@ =~= s@);
    r
}

/// `String::push`: appends a character.
#[verifier::external_body]
fn push_char(s: &mut String, c: char)
    ensures
        final(s)@ == old(s)@.push(c),
{
    s.push(c)
}

/// Builds a `String` from its characters.
pub fn string_from_chars(cs: &[char]) -> (r: String)
    ensures
        r@ == cs@,
{
    let mut r = String::new();
    let mut i: usize = 0;
    while i < cs.len()
        invariant
            i <= cs@.len(),
            r@ == cs@.subrange(0, i as int),
        decreases cs.len() - i,
    {
        push_char(&mut r, cs[i]);
        assert(cs@.subrange(0, i + 1) =~= cs@.subrange(0, i as int).push(cs@[i as int]));
        i = i + 1;
    }
    assert(cs@.subrange(0, i as int) =~= cs@);
    r
}

/// Whether two character sequences are equal.
pub fn chars_eq(a: &[char], b: &[char]) -> (r: bool)
    ensures
        r == (a@ == b@),
{
    if a.len() != b.len() {
        return false;
    }
    let mut i: usize = 0;
    while i < a.len()
        invariant
            a.len() == b.len(),
            i <= a.len(),
            a@.subrange(0, i as int) == b@.subrange(0, i as int),
        decreases a.len() - i,
    {
        if a[i] != b[i] {
            assert(a@[i as int] != b@[i as int]);
            return false;
        }
        assert(a@.subrange(0, i + 1) =~= a@.subrange(0, i as int).push(a@[i as int]));
        assert(b@.subrange(0, i + 1) =~= b@.subrange(0, i as int).push(b@[i as int]));
        i = i + 1;
    }
    assert(a@ =~= a@.subrange(0, i as int));
    assert(b@ =~= b@.subrange(0, i as int));
    true
}

/// Whether two string slices hold the same characters.
pub fn str_eq(a: &str, b: &str) -> (r: bool)
    ensures
        r == (a@ == b@),
{
    let ca = str_chars(a);
    let cb = str_chars(b);
    chars_eq(ca.as_slice(), cb.as_slice())
}

/// The decimal digits of `n`, as `format!("{}", n)` writes them.
pub fn decimal_chars(n: u64) -> (r: Vec<char>)
    ensures
        r@ == decimal(n as nat),
    decreases n,
{
    let d: u8 = (n % 10) as u8;
    let c: char = (48u8 + d) as char;
    assert(c == digit_char((n % 10) as nat));
    if n < 10 {
        let mut v: Vec<char> = Vec::new();
        v.push(c);
        assert(v@ =~= seq![digit_char(n as nat)]);
        v
    } else {
        let mut v = decimal_chars(n / 10);
        v.push(c);
        v
    }
}

/// `format!("{}", n)`.
pub fn decimal_string(n: u64) -> (r: String)
    ensures
        r@ == decimal(n as nat),
{
    let v = decimal_chars(n);
    string_from_chars(v.as_slice())
}

/// `std::str::from_utf8`: the bytes read as UTF-8, where they are valid UTF-8.
#[verifier::external_body]
pub(crate) fn utf8_str(v: &[u8]) -> (r: Option<&str>)
    ensures
        r is Some <==> vstd::utf8::valid_utf8(v@),
        r matches Some(s) ==> s@ == vstd::utf8::decode_utf8(v@),
{
    std::str::from_utf8(v).ok()
}

/// Appends the characters of `s` to `out`.
pub fn push_str_chars(out: &mut Vec<char>, s: &str)
    ensures
        final(out)@ == old(out)@ + s@,
{
    let cs = str_chars(s);
    let mut i: usize = 0;
    while i < cs.len()
        invariant
            i <= cs@.len(),
            cs@ == s@,
            out@ == old(out)@ + cs@.subrange(0, i as int),
        decreases cs.len() - i,
    {
        out.push(cs[i]);
        assert(cs@.subrange(0, i + 1) =~= cs@.subrange(0, i as int).push(cs@[i as int]));
        i = i + 1;
    }
    assert(cs@.subrange(0, i as int) =~= cs@);
}

/// The characters of `a` followed by those of `b`, as a `String`.
pub fn concat_strs(a: &str, b: &str) -> (r: String)
    ensures
        r@ == a@ + b@,
{
    let mut v: Vec<char> = Vec::new();
    push_str_chars(&mut v, a);
    push_str_chars(&mut v, b);
    assert(v@ =~= a@ + b@);
    string_from_chars(v.as_slice())
}

/// Whether `c` is white space (the Unicode `White_Space` property, as
/// `char::is_whitespace` reads it).
pub open spec fn is_space(c: char) -> bool {
    c == '\t' || c == '\n' || c == '\x0B' || c == '\x0C' || c == '\r' || c == ' ' || c == '\u{85}'
        || c == '\u{A0}' || c == '\u{1680}' || ('\u{2000}' <= c && c <= '\u{200A}') || c == '\u{2028}'
        || c == '\u{2029}' || c == '\u{202F}' || c == '\u{205F}' || c == '\u{3000}'
}

/// Whether `c` is `[` or `]`.
pub open spec fn is_bracket(c: char) -> bool {
    c == '[' || c == ']'
}

/// `s` without the characters at its start and end for which `p` holds.
pub open spec fn trim_by(s: Seq<char>, p: spec_fn(char) -> bool) -> Seq<char> {
    trim_end_by(trim_start_by(s, p), p)
}

pub open spec fn trim_start_by(s: Seq<char>, p: spec_fn(char) -> bool) -> Seq<char>
    decreases s.len(),
{
    if s.len() > 0 && p(s[0]) {
        trim_start_by(s.drop_first(), p)
    } else {
        s
    }
}

pub open spec fn trim_end_by(s: Seq<char>, p: spec_fn(char) -> bool) -> Seq<char>
    decreases s.len(),
{
    if s.len() > 0 && p(s.last()) {
        trim_end_by(s.drop_last(), p)
    } else {
        s
    }
}

/// `str::trim`: `s` without white space at its start and end.
pub open spec fn trimmed(s: Seq<char>) -> Seq<char> {
    trim_by(s, |c: char| is_space(c))
}

/// `s` without `[` and `]` at its start and end.
pub open spec fn unbracketed(s: Seq<char>) -> Seq<char> {
    trim_by(s, |c: char| is_bracket(c))
}

/// The ASCII lower case of `c`.
pub open spec fn ascii_lower(c: char) -> char {
    if 'A' <= c && c <= 'Z' {
        ((c as u32) + 32) as char
    } else {
        c
    }
}

/// Whether `a` and `b` are equal but for the case of ASCII letters.
pub open spec fn eq_ignore_case(a: Seq<char>, b: Seq<char>) -> bool {
    a.len() == b.len() && forall|i: int| 0 <= i < a.len() ==> ascii_lower(#[trigger] a[i]) == ascii_lower(b[i])
}

/// The index of the first `c` in `s`.
pub open spec fn first_index(s: Seq<char>, c: char) -> Option<int>
    decreases s.len(),
{
    if s.len() == 0 {
        None
    } else if s[0] == c {
        Some(0)
    } else {
        match first_index(s.drop_first(), c) {
            Some(i) => Some(i + 1),
            None => None,
        }
    }
}

/// A line without the carriage return that ends it.
pub open spec fn without_cr(l: Seq<char>) -> Seq<char> {
    if l.len() > 0 && l.last() == '\r' {
        l.drop_last()
    } else {
        l
    }
}

/// `str::lines`: the lines of `s`, each ended by `\n` or `\r\n` but the
/// last, which may end without either; no line follows a final `\n`.
pub open spec fn text_lines(s: Seq<char>) -> Seq<Seq<char>>
    decreases s.len(),
{
    if s.len() == 0 {
        Seq::empty()
    } else {
        match first_index(s, '\n') {
            None => seq![s],
            Some(i) => if 0 <= i < s.len() {
                seq![without_cr(s.subrange(0, i))] + text_lines(s.subrange(i + 1, s.len() as int))
            } else {
                seq![s]
            },
        }
    }
}

pub proof fn lemma_first_index_bounds(s: Seq<char>, c: char)
    ensures
        match first_index(s, c) {
            Some(i) => 0 <= i < s.len() && s[i] == c && forall|j: int| 0 <= j < i ==> s[j] != c,
            None => forall|j: int| 0 <= j < s.len() ==> s[j] != c,
        },
    decreases s.len(),
{
    if s.len() > 0 {
        lemma_first_index_bounds(s.drop_first(), c);
        if s[0] != c {
            assert forall|j: int| 1 <= j < s.len() implies s[j] == s.drop_first()[j - 1] by {}
        }
    }
}

/// The first index of `c` in `cs`.
pub fn index_of(cs: &[char], c: char) -> (r: Option<usize>)
    ensures
        match r {
            Some(i) => first_index(cs@, c) == Some(i as int),
            None => first_index(cs@, c) is None,
        },
{
    proof {
        lemma_first_index_bounds(cs@, c);
    }
    let mut i: usize = 0;
    while i < cs.len()
        invariant
            i <= cs@.len(),
            forall|j: int| 0 <= j < i ==> cs@[j] != c,
            match first_index(cs@, c) {
                Some(k) => 0 <= k < cs@.len() && cs@[k] == c && forall|j: int| 0 <= j < k ==> cs@[j] != c,
                None => forall|j: int| 0 <= j < cs@.len() ==> cs@[j] != c,
            },
        decreases cs.len() - i,
    {
        if cs[i] == c {
            proof {
                if let Some(k) = first_index(cs@, c) {
                    assert(k == i);
                }
            }
            return Some(i);
        }
        i = i + 1;
    }
    None
}

/// Whether `c` is white space.
pub fn char_is_space(c: char) -> (r: bool)
    ensures
        r == is_space(c),
{
    c == '\t' || c == '\n' || c == '\x0B' || c == '\x0C' || c == '\r' || c == ' ' || c == '\u{85}'
        || c == '\u{A0}' || c == '\u{1680}' || ('\u{2000}' <= c && c <= '\u{200A}') || c == '\u{2028}'
        || c == '\u{2029}' || c == '\u{202F}' || c == '\u{205F}' || c == '\u{3000}'
}

proof fn lemma_trim_start_suffix(s: Seq<char>, p: spec_fn(char) -> bool, i: int)
    requires
        0 <= i <= s.len(),
        forall|j: int| 0 <= j < i ==> p(s[j]),
    ensures
        trim_start_by(s, p) == trim_start_by(s.subrange(i, s.len() as int), p),
    decreases i,
{
    if i > 0 {
        assert(s.drop_first().subrange(i - 1, s.drop_first().len() as int) =~= s.subrange(i, s.len() as int));
        lemma_trim_start_suffix(s.drop_first(), p, i - 1);
    } else {
        assert(s.subrange(0, s.len() as int) =~= s);
    }
}

proof fn lemma_trim_end_prefix(s: Seq<char>, p: spec_fn(char) -> bool, i: int)
    requires
        0 <= i <= s.len(),
        forall|j: int| i <= j < s.len() ==> p(s[j]),
    ensures
        trim_end_by(s, p) == trim_end_by(s.subrange(0, i), p),
    decreases s.len() - i,
{
    if i < s.len() {
        assert(s.drop_last().subrange(0, i) =~= s.subrange(0, i));
        lemma_trim_end_prefix(s.drop_last(), p, i);
    } else {
        assert(s.subrange(0, i) =~= s);
    }
}

/// Whether `c` is trimmed: white space (`space`) or a bracket (`!space`).
fn trimmed_char(c: char, space: bool) -> (r: bool)
    ensures
        r == (if space { is_space(c) } else { is_bracket(c) }),
{
    if space {
        char_is_space(c)
    } else {
        c == '[' || c == ']'
    }
}

/// The characters of `cs` without those at its start and end that are
/// white space (`space`) or brackets (`!space`).
pub fn trim_chars(cs: &[char], space: bool) -> (r: Vec<char>)
    ensures
        space ==> r@ == trimmed(cs@),
        !space ==> r@ == unbracketed(cs@),
{
    let ghost p = if space { |c: char| is_space(c) } else { |c: char| is_bracket(c) };
    let mut a: usize = 0;
    while a < cs.len() && trimmed_char(cs[a], space)
        invariant
            a <= cs@.len(),
            p == (if space { |c: char| is_space(c) } else { |c: char| is_bracket(c) }),
            forall|j: int| 0 <= j < a ==> p(cs@[j]),
        decreases cs.len() - a,
    {
        a = a + 1;
    }
    proof {
        lemma_trim_start_suffix(cs@, p, a as int);
    }
    let ghost rest = cs@.subrange(a as int, cs@.len() as int);
    assert(trim_start_by(rest, p) == rest);
    let mut b: usize = cs.len();
    while b > a && trimmed_char(cs[b - 1], space)
        invariant
            a <= b <= cs@.len(),
            p == (if space { |c: char| is_space(c) } else { |c: char| is_bracket(c) }),
            forall|j: int| b <= j < cs@.len() ==> p(cs@[j]),
        decreases b,
    {
        b = b - 1;
    }
    proof {
        let k = (b - a) as int;
        assert forall|j: int| k <= j < rest.len() implies p(rest[j]) by {
            assert(rest[j] == cs@[j + a]);
        }
        lemma_trim_end_prefix(rest, p, k);
        assert(rest.subrange(0, k) =~= cs@.subrange(a as int, b as int));
    }
    let mut r: Vec<char> = Vec::new();
    let mut i: usize = a;
    while i < b
        invariant
            a <= i <= b,
            b <= cs@.len(),
            r@ == cs@.subrange(a as int, i as int),
        decreases b - i,
    {
        r.push(cs[i]);
        assert(cs@.subrange(a as int, i + 1) =~= cs@.subrange(a as int, i as int).push(cs@[i as int]));
        i = i + 1;
    }
    proof {
        let s2 = cs@.subrange(a as int, b as int);
        if b > a {
            assert(!p(s2.last()));
        }
        assert(trim_end_by(s2, p) == s2);
    }
    r
}

/// Whether `a` and `b` are equal but for the case of ASCII letters.
pub fn chars_eq_ignore_case(a: &[char], b: &[char]) -> (r: bool)
    ensures
        r == eq_ignore_case(a@, b@),
{
    if a.len() != b.len() {
        return false;
    }
    let mut i: usize = 0;
    while i < a.len()
        invariant
            a@.len() == b@.len(),
            i <= a@.len(),
            forall|j: int| 0 <= j < i ==> ascii_lower(#[trigger] a@[j]) == ascii_lower(b@[j]),
        decreases a.len() - i,
    {
        let x = a[i];
        let y = b[i];
        let lx = if 'A' <= x && x <= 'Z' { ((x as u32) + 32) as u8 as char } else { x };
        let ly = if 'A' <= y && y <= 'Z' { ((y as u32) + 32) as u8 as char } else { y };
        assert(lx == ascii_lower(x));
        assert(ly == ascii_lower(y));
        if lx != ly {
            return false;
        }
        i = i + 1;
    }
    true
}

/// The lines of `s`, as `str::lines` gives them.
pub fn lines_of(s: &str) -> (r: Vec<Vec<char>>)
    ensures
        r@.len() == text_lines(s@).len(),
        forall|i: int| 0 <= i < r@.len() ==> (#[trigger] r@[i])@ == text_lines(s@)[i],
{
    let cs = str_chars(s);
    let mut r: Vec<Vec<char>> = Vec::new();
    let mut start: usize = 0;
    assert(cs@.subrange(0, cs@.len() as int) =~= cs@);
    while start < cs.len()
        invariant
            cs@ == s@,
            start <= cs@.len(),
            text_lines(s@) == r@.map_values(|v: Vec<char>| v@) + text_lines(cs@.subrange(start as int, cs@.len() as int)),
        decreases cs.len() - start,
    {
        let ghost rest = cs@.subrange(start as int, cs@.len() as int);
        let mut end: usize = start;
        while end < cs.len() && cs[end] != '\n'
            invariant
                start <= end <= cs@.len(),
                forall|j: int| start <= j < end ==> cs@[j] != '\n',
            decreases cs.len() - end,
        {
            end = end + 1;
        }
        proof {
            lemma_first_index_bounds(rest, '\n');
            match first_index(rest, '\n') {
                Some(k) => {
                    assert(rest[k] == cs@[start + k]);
                    if start + k < end {
                        assert(cs@[start + k] != '\n');
                    }
                    if end < cs@.len() {
                        assert(rest[end - start] == '\n');
                    }
                    assert(k == end - start);
                },
                None => {
                    if end < cs@.len() {
                        assert(rest[end - start] == '\n');
                    }
                },
            }
        }
        let mut line: Vec<char> = Vec::new();
        let mut i: usize = start;
        let stop: usize = if end < cs.len() && end > start && cs[end - 1] == '\r' { end - 1 } else { end };
        while i < stop
            invariant
                start <= i <= stop,
                stop <= cs@.len(),
                line@ == cs@.subrange(start as int, i as int),
            decreases stop - i,
        {
            line.push(cs[i]);
            assert(cs@.subrange(start as int, i + 1) =~= cs@.subrange(start as int, i as int).push(cs@[i as int]));
            i = i + 1;
        }
        let ghost before = r@.map_values(|v: Vec<char>| v@);
        r.push(line);
        proof {
            assert(r@.map_values(|v: Vec<char>| v@) =~= before.push(line@));
            if end < cs@.len() {
                assert(rest.subrange(0, end - start) =~= cs@.subrange(start as int, end as int));
                assert(rest.subrange(end - start + 1, rest.len() as int) =~= cs@.subrange(end + 1, cs@.len() as int));
                assert(line@ == without_cr(rest.subrange(0, end - start)));
                assert(seq![without_cr(rest.subrange(0, end - start))] + text_lines(cs@.subrange(end + 1, cs@.len() as int))
                    == text_lines(rest));
            } else {
                assert(line@ =~= rest);
                assert(cs@.subrange(cs@.len() as int, cs@.len() as int) =~= Seq::<char>::empty());
            }
        }
        start = if end < cs.len() { end + 1 } else { end };
    }
    proof {
        assert(cs@.subrange(start as int, cs@.len() as int) =~= Seq::<char>::empty());
        assert(text_lines(s@) =~= r@.map_values(|v: Vec<char>| v@));
    }
    r
}
} // verus!
