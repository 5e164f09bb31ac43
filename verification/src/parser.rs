//! Framing of FIX messages in a stream of bytes.
use vstd::prelude::*;

use crate::text::{
    bytes_as_chars, chars_as_bytes, decimal, is_digit, law_decimal_parses_back,
    lemma_decimal_digits, parse_unsigned, parse_unsigned_chars, utf8_str,
};

verus! {

/// A buffer of bytes received from a counterparty, from which whole FIX
/// messages are cut as they become complete.
pub struct Parser {
    buffer: Vec<u8>,
}

/// The errors of the parser. The parser never fails: no function of this
/// crate returns this error.
#[derive(Debug)]
pub enum ParserError {
    InvalidMessage,
}

/// `8=`, the start of every FIX message.
pub open spec fn begin_pattern() -> Seq<u8> {
    seq![56u8, 61u8]
}

/// `<SOH>9=`, the start of the BodyLength field.
pub open spec fn body_length_pattern() -> Seq<u8> {
    seq![1u8, 57u8, 61u8]
}

/// `<SOH>10=`, the start of the CheckSum field.
pub open spec fn checksum_pattern() -> Seq<u8> {
    seq![1u8, 49u8, 48u8, 61u8]
}

/// Whether `pat` occurs at `i` in `s` with at least one byte of `s` after it.
pub open spec fn occurs_at(s: Seq<u8>, pat: Seq<u8>, i: int) -> bool {
    0 <= i && i + pat.len() < s.len() && s.subrange(i, i + pat.len()) == pat
}

/// The search for `pat` in `s` from index `i` on: the first index at which
/// `pat` occurs followed by at least one more byte.
pub open spec fn find_from(s: Seq<u8>, pat: Seq<u8>, i: int) -> Option<int>
    decreases s.len() - i,
{
    if i < 0 || i >= s.len() || pat.len() >= s.len() - i {
        None
    } else if s.subrange(i, i + pat.len()) == pat {
        Some(i)
    } else {
        find_from(s, pat, i + 1)
    }
}

pub open spec fn find_pattern(s: Seq<u8>, pat: Seq<u8>) -> Option<int> {
    find_from(s, pat, 0)
}

/// The first index of byte `b` in `s`.
pub open spec fn find_byte_from(s: Seq<u8>, b: u8, i: int) -> Option<int>
    decreases s.len() - i,
{
    if i < 0 || i >= s.len() {
        None
    } else if s[i] == b {
        Some(i)
    } else {
        find_byte_from(s, b, i + 1)
    }
}

pub open spec fn find_byte(s: Seq<u8>, b: u8) -> Option<int> {
    find_byte_from(s, b, 0)
}

/// The BodyLength field of a buffer: the index just after the field and its value.
pub open spec fn spec_extract_length(buf: Seq<u8>) -> Option<(int, nat)> {
    match find_pattern(buf, body_length_pattern()) {
        None => None,
        Some(i) => {
            let start = i + 3;
            match find_byte(buf.subrange(start, buf.len() as int), 1u8) {
                None => None,
                Some(j) => {
                    let end = start + j;
                    match parse_unsigned(bytes_as_chars(buf.subrange(start, end)), usize::MAX as nat) {
                        None => None,
                        Some(v) => Some((end + 1, v)),
                    }
                },
            }
        },
    }
}

/// The buffer from the first `8=` on, or the whole buffer where there is none.
pub open spec fn from_begin(buf: Seq<u8>) -> Seq<u8> {
    if buf.len() < 2 {
        buf
    } else {
        match find_pattern(buf, begin_pattern()) {
            None => buf,
            Some(p) => buf.subrange(p, buf.len() as int),
        }
    }
}

/// Reading a message loses and reorders nothing from the first `8=` on:
/// the message cut off, followed by what stays, ends the buffer; a message
/// begins with `8=`.
pub proof fn law_read_fix_keeps_bytes(buf: Seq<u8>)
    ensures
        ({
            let (m, rest) = spec_read_fix(buf);
            let kept = match m {
                Some(x) => x + rest,
                None => rest,
            };
            &&& kept.len() <= buf.len()
            &&& kept == buf.subrange(buf.len() - kept.len(), buf.len() as int)
            &&& m matches Some(x) ==> x.len() >= 2 && x.subrange(0, 2) == begin_pattern()
        }),
{
    if buf.len() >= 2 {
        match find_pattern(buf, begin_pattern()) {
            None => {
                assert(buf.subrange(0, buf.len() as int) =~= buf);
            },
            Some(p) => {
                lemma_find_from_bounds(buf, begin_pattern(), 0);
                let b = buf.subrange(p, buf.len() as int);
                lemma_extract_length_bounds(b);
                if let Some((l, bl)) = spec_extract_length(b) {
                    let pos = bl + l;
                    if b.len() >= pos {
                        let c = b.subrange(pos - 1, b.len() as int);
                        lemma_find_from_bounds(c, checksum_pattern(), 0);
                        if let Some(f) = find_pattern(c, checksum_pattern()) {
                            let pos2 = f + pos - 1 + 4;
                            lemma_find_byte_bounds(b.subrange(pos2, b.len() as int), 1u8, 0);
                            if let Some(g) = find_byte(b.subrange(pos2, b.len() as int), 1u8) {
                                let end = pos2 + g + 1;
                                assert(0 <= end <= b.len());
                                assert(b.subrange(0, end) + b.subrange(end, b.len() as int) =~= b);
                                assert(b.subrange(0, 2) =~= buf.subrange(p, p + 2));
                                assert(end >= 2);
                                assert(b.subrange(0, end).subrange(0, 2) =~= b.subrange(0, 2));
                            }
                        }
                    }
                }
                let (m, rest) = spec_read_fix(buf);
                if m is None {
                    assert(rest =~= b);
                }
            },
        }
    } else {
        assert(buf.subrange(0, buf.len() as int) =~= buf);
    }
}

/// A message as it is framed on the wire: `8=`, the version, `<SOH>9=`, the
/// body length `n` in decimal, `<SOH>`, the body (whose `n` bytes end with
/// the `<SOH>` of its last field), `10=`, the checksum and `<SOH>`.
pub open spec fn framed(version: Seq<u8>, n: nat, body: Seq<u8>, checksum: Seq<u8>) -> Seq<u8> {
    begin_pattern() + version + body_length_pattern() + chars_as_bytes(decimal(n)) + seq![1u8] + body
        + seq![49u8, 48u8, 61u8] + checksum + seq![1u8]
}

proof fn lemma_find_from_at(s: Seq<u8>, pat: Seq<u8>, i: int, k: int)
    requires
        0 <= i <= k,
        k + pat.len() < s.len(),
        pat.len() > 0,
        s.subrange(k, k + pat.len()) == pat,
        forall|j: int| i <= j < k ==> s[j] != pat[0],
    ensures
        find_from(s, pat, i) == Some(k),
    decreases k - i,
{
    if i < k {
        assert(s.subrange(i, i + pat.len())[0] == s[i]);
        lemma_find_from_at(s, pat, i + 1, k);
    }
}

proof fn lemma_find_byte_at(s: Seq<u8>, b: u8, i: int, k: int)
    requires
        0 <= i <= k < s.len(),
        s[k] == b,
        forall|j: int| i <= j < k ==> s[j] != b,
    ensures
        find_byte_from(s, b, i) == Some(k),
    decreases k - i,
{
    if i < k {
        lemma_find_byte_at(s, b, i + 1, k);
    }
}

/// The bytes of a decimal number are digits, and read back as its characters.
proof fn lemma_decimal_bytes(n: nat)
    ensures
        chars_as_bytes(decimal(n)).len() == decimal(n).len() >= 1,
        forall|j: int| 0 <= j < decimal(n).len() ==> 48 <= #[trigger] chars_as_bytes(decimal(n))[j] <= 57,
        bytes_as_chars(chars_as_bytes(decimal(n))) == decimal(n),
{
    lemma_decimal_digits(n);
    let d = decimal(n);
    assert forall|j: int| 0 <= j < d.len() implies 48 <= #[trigger] chars_as_bytes(d)[j] <= 57 && (
    chars_as_bytes(d)[j] as char) == d[j] by {
        assert(is_digit(d[j]));
    }
    assert(bytes_as_chars(chars_as_bytes(d)) =~= d);
}

/// A framed message written to the stream is cut back whole, and what
/// follows it stays: where the version holds no `<SOH>`, the body is the
/// `n` bytes announced and ends with `<SOH>`, the checksum holds no
/// `<SOH>`, and `n` fits in `usize`.
#[verifier::spinoff_prover]
#[verifier::rlimit(50)]
pub proof fn law_framed_message_reads_back(
    version: Seq<u8>,
    n: nat,
    body: Seq<u8>,
    checksum: Seq<u8>,
    rest: Seq<u8>,
)
    requires
        !version.contains(1u8),
        body.len() == n,
        n >= 1,
        body.last() == 1u8,
        !checksum.contains(1u8),
        n <= usize::MAX,
    ensures
        spec_read_fix(framed(version, n, body, checksum) + rest) == (
        Some(framed(version, n, body, checksum)),
        rest,
        ),
{
    let m = framed(version, n, body, checksum);
    let buf = m + rest;
    let d = chars_as_bytes(decimal(n));
    lemma_decimal_bytes(n);
    let a0: int = version.len() + 2int;
    let start: int = a0 + 3;
    let end: int = start + d.len();
    let l: int = end + 1;
    let pos: int = l + n;
    let pos2: int = pos + 3;
    let mend: int = pos2 + checksum.len() + 1;
    assert(m.len() == mend);
    // Where each part stands in the buffer.
    assert forall|j: int| 0 <= j < version.len() implies buf[2 + j] == version[j] by {}
    assert forall|j: int| 0 <= j < d.len() implies buf[start + j] == d[j] by {}
    assert forall|j: int| 0 <= j < n implies buf[l + j] == body[j] by {}
    assert forall|j: int| 0 <= j < checksum.len() implies buf[pos2 + j] == checksum[j] by {}
    assert forall|j: int| 0 <= j < rest.len() implies buf[mend + j] == rest[j] by {}
    assert(buf[0] == 56u8 && buf[1] == 61u8);
    assert(buf[a0] == 1u8 && buf[a0 + 1] == 57u8 && buf[a0 + 2] == 61u8);
    assert(buf[end] == 1u8);
    assert(buf[pos - 1] == 1u8);
    assert(buf[pos] == 49u8 && buf[pos + 1] == 48u8 && buf[pos + 2] == 61u8);
    assert(buf[mend - 1] == 1u8);
    // The message begins the buffer.
    assert(buf.subrange(0, 2) =~= begin_pattern());
    lemma_find_from_at(buf, begin_pattern(), 0, 0);
    let b = buf.subrange(0, buf.len() as int);
    assert(b =~= buf);
    // The body length.
    assert(buf.subrange(a0, a0 + 3) =~= body_length_pattern());
    assert forall|j: int| 0 <= j < a0 implies buf[j] != body_length_pattern()[0] by {
        if j >= 2 {
            if buf[j] == 1u8 {
                assert(version[j - 2] == 1u8);
                assert(version.contains(1u8));
            }
        }
    }
    lemma_find_from_at(buf, body_length_pattern(), 0, a0);
    let t = buf.subrange(start, buf.len() as int);
    assert forall|j: int| 0 <= j < d.len() implies t[j] != 1u8 by {
        assert(t[j] == d[j]);
    }
    lemma_find_byte_at(t, 1u8, 0, d.len() as int);
    assert(buf.subrange(start, end) =~= d);
    law_decimal_parses_back(n, usize::MAX as nat);
    assert(spec_extract_length(b) == Some((l, n)));
    // The checksum field right after the body.
    let c = b.subrange(pos - 1, b.len() as int);
    assert(c.subrange(0, 4) =~= checksum_pattern());
    lemma_find_from_at(c, checksum_pattern(), 0, 0);
    let u = b.subrange(pos2, b.len() as int);
    assert forall|j: int| 0 <= j < checksum.len() implies u[j] != 1u8 by {
        assert(u[j] == checksum[j]);
        if checksum[j] == 1u8 {
            assert(checksum.contains(1u8));
        }
    }
    lemma_find_byte_at(u, 1u8, 0, checksum.len() as int);
    assert(b.subrange(0, mend) =~= m);
    assert(b.subrange(mend, b.len() as int) =~= rest);
}

/// Whether the end of the body that the BodyLength field announces is an index that fits in `usize`.
pub open spec fn read_fix_fits(buf: Seq<u8>) -> bool {
    match spec_extract_length(from_begin(buf)) {
        Some((l, bl)) => bl + l <= usize::MAX,
        None => true,
    }
}

/// What `read_fix` does to a buffer: the message it cuts off, if any, and the buffer it leaves.
pub open spec fn spec_read_fix(buf: Seq<u8>) -> (Option<Seq<u8>>, Seq<u8>) {
    if buf.len() < 2 {
        (None, buf)
    } else {
        match find_pattern(buf, begin_pattern()) {
            None => (None, buf),
            Some(p) => {
                let b = buf.subrange(p, buf.len() as int);
                match spec_extract_length(b) {
                    None => (None, b),
                    Some((l, bl)) => {
                        let pos = bl + l;
                        if b.len() < pos {
                            (None, b)
                        } else {
                            match find_pattern(b.subrange(pos - 1, b.len() as int), checksum_pattern()) {
                                None => (None, b),
                                Some(f) => {
                                    let pos2 = f + pos - 1 + 4;
                                    match find_byte(b.subrange(pos2, b.len() as int), 1u8) {
                                        None => (None, b),
                                        Some(g) => {
                                            let end = pos2 + g + 1;
                                            (Some(b.subrange(0, end)), b.subrange(end, b.len() as int))
                                        },
                                    }
                                },
                            }
                        }
                    },
                }
            },
        }
    }
}

proof fn lemma_find_from_bounds(s: Seq<u8>, pat: Seq<u8>, i: int)
    ensures
        find_from(s, pat, i) matches Some(k) ==> i <= k && occurs_at(s, pat, k),
    decreases s.len() - i,
{
    if i < 0 || i >= s.len() || pat.len() >= s.len() - i {
    } else if s.subrange(i, i + pat.len()) == pat {
    } else {
        lemma_find_from_bounds(s, pat, i + 1);
    }
}

proof fn lemma_find_byte_bounds(s: Seq<u8>, b: u8, i: int)
    ensures
        find_byte_from(s, b, i) matches Some(k) ==> i <= k < s.len() && s[k] == b,
    decreases s.len() - i,
{
    if i < 0 || i >= s.len() {
    } else if s[i] == b {
    } else {
        lemma_find_byte_bounds(s, b, i + 1);
    }
}

/// Whether `pat` stands in `s` at index `i`.
fn matches_at(s: &[u8], i: usize, pat: &[u8]) -> (r: bool)
    requires
        i + pat@.len() <= s@.len(),
    ensures
        r == (s@.subrange(i as int, i + pat@.len()) == pat@),
{
    let mut k: usize = 0;
    while k < pat.len()
        invariant
            i + pat@.len() <= s@.len(),
            i + pat.len() <= s.len(),
            k <= pat@.len(),
            s@.subrange(i as int, i + k) == pat@.subrange(0, k as int),
        decreases pat.len() - k,
    {
        if s[i + k] != pat[k] {
            assert(s@.subrange(i as int, i + pat@.len())[k as int] != pat@[k as int]);
            return false;
        }
        assert(s@.subrange(i as int, i + k + 1) =~= s@.subrange(i as int, i + k).push(s@[i + k]));
        assert(pat@.subrange(0, k + 1) =~= pat@.subrange(0, k as int).push(pat@[k as int]));
        k = k + 1;
    }
    assert(pat@.subrange(0, k as int) =~= pat@);
    true
}

/// The first index at which `pat` occurs in `s` with at least one more byte after it.
pub fn find_subslice(s: &[u8], pat: &[u8]) -> (r: Option<usize>)
    ensures
        r matches Some(k) ==> find_pattern(s@, pat@) == Some(k as int),
        r is None ==> find_pattern(s@, pat@) is None,
{
    let mut index: usize = 0;
    while index < s.len()
        invariant
            index <= s@.len(),
            find_pattern(s@, pat@) == find_from(s@, pat@, index as int),
        decreases s.len() - index,
    {
        if pat.len() >= s.len() - index {
            return None;
        }
        if matches_at(s, index, pat) {
            return Some(index);
        }
        index = index + 1;
    }
    None
}

/// The first index of byte `b` in `s`.
pub fn find_byte_index(s: &[u8], b: u8) -> (r: Option<usize>)
    ensures
        r matches Some(k) ==> find_byte(s@, b) == Some(k as int),
        r is None ==> find_byte(s@, b) is None,
{
    let mut index: usize = 0;
    while index < s.len()
        invariant
            index <= s@.len(),
            find_byte(s@, b) == find_byte_from(s@, b, index as int),
        decreases s.len() - index,
    {
        if s[index] == b {
            return Some(index);
        }
        index = index + 1;
    }
    None
}

/// Reads the bytes of `s` as characters.
fn bytes_to_chars(s: &[u8]) -> (r: Vec<char>)
    ensures
        r@ == bytes_as_chars(s@),
{
    let mut r: Vec<char> = Vec::new();
    let mut i: usize = 0;
    while i < s.len()
        invariant
            i <= s@.len(),
            r@ == bytes_as_chars(s@.subrange(0, i as int)),
        decreases s.len() - i,
    {
        r.push(s[i] as char);
        assert(bytes_as_chars(s@.subrange(0, i + 1)) =~= bytes_as_chars(s@.subrange(0, i as int)).push(s@[i as int] as char));
        i = i + 1;
    }
    assert(s@.subrange(0, i as int) =~= s@);
    r
}

/// Finds the BodyLength field (`<SOH>9=<n><SOH>`) of a buffer.
///
/// Returns the index just after the field and the length it announces, or
/// `None` where there is no such field or its value is not a number that fits in `usize`.
pub fn extract_length(buffer: &[u8]) -> (r: Option<(usize, usize)>)
    ensures
        r matches Some((a, b)) ==> spec_extract_length(buffer@) == Some((a as int, b as nat)),
        r is None ==> spec_extract_length(buffer@) is None,
{
    let pat_arr: [u8; 3] = [1u8, 57u8, 61u8];
    let pat: &[u8] = &pat_arr;
    assert(pat@ =~= body_length_pattern());
    let i = match find_subslice(buffer, pat) {
        Some(i) => i,
        None => return None,
    };
    proof {
        lemma_find_from_bounds(buffer@, body_length_pattern(), 0);
        assert(occurs_at(buffer@, body_length_pattern(), i as int));
        assert(body_length_pattern().len() == 3);
        assert(i + 3 < buffer.len());
    }
    let start = i + 3;
    let rest = vstd::slice::slice_subrange(buffer, start, buffer.len());
    let j = match find_byte_index(rest, 1u8) {
        Some(j) => j,
        None => return None,
    };
    proof {
        lemma_find_byte_bounds(rest@, 1u8, 0);
    }
    let end = start + j;
    let digits = vstd::slice::slice_subrange(buffer, start, end);
    let chars = bytes_to_chars(digits);
    match parse_unsigned_chars(chars.as_slice(), usize::MAX as u128) {
        Some(v) => Some((end + 1, v as usize)),
        None => None,
    }
}

/// Removes the first `n` bytes of `v` and returns them.
fn take_front(v: &mut Vec<u8>, n: usize) -> (r: Vec<u8>)
    requires
        n <= old(v)@.len(),
    ensures
        r@ == old(v)@.subrange(0, n as int),
        final(v)@ == old(v)@.subrange(n as int, old(v)@.len() as int),
{
    let mut rest = v.split_off(n);
    std::mem::swap(v, &mut rest);
    rest
}

/// Cuts the first complete FIX message off the buffer.
///
/// Drops whatever precedes the first `8=`, then uses the BodyLength field to
/// find the CheckSum field that closes the message. Returns the message with
/// its closing `<SOH>`, or `None` where no complete message is there yet.
pub fn read_fix(buffer: &mut Vec<u8>) -> (r: Option<Vec<u8>>)
    requires
        read_fix_fits(old(buffer)@),
    ensures
        ({
            let (m, rest) = spec_read_fix(old(buffer)@);
            &&& final(buffer)@ == rest
            &&& r matches Some(v) ==> m == Some(v@)
            &&& r is None ==> m is None
        }),
{
    if buffer.len() < 2 {
        return None;
    }
    let begin_arr: [u8; 2] = [56u8, 61u8];
    let begin: &[u8] = &begin_arr;
    assert(begin@ =~= begin_pattern());
    let pos = match find_subslice(buffer.as_slice(), begin) {
        Some(p) => p,
        None => return None,
    };
    proof {
        lemma_find_from_bounds(buffer@, begin_pattern(), 0);
    }
    let _dropped = take_front(buffer, pos);
    let ghost b = buffer@;
    let (len, body_len) = match extract_length(buffer.as_slice()) {
        Some(x) => x,
        None => return None,
    };
    proof {
        lemma_extract_length_bounds(b);
    }
    let pos = body_len + len;
    if buffer.len() < pos {
        return None;
    }
    let tail = vstd::slice::slice_subrange(buffer.as_slice(), pos - 1, buffer.as_slice().len());
    let checksum_arr: [u8; 4] = [1u8, 49u8, 48u8, 61u8];
    let checksum: &[u8] = &checksum_arr;
    assert(checksum@ =~= checksum_pattern());
    let found = match find_subslice(tail, checksum) {
        Some(f) => f,
        None => return None,
    };
    proof {
        lemma_find_from_bounds(tail@, checksum_pattern(), 0);
    }
    let pos2 = found + pos - 1 + 4;
    let tail2 = vstd::slice::slice_subrange(buffer.as_slice(), pos2, buffer.as_slice().len());
    let g = match find_byte_index(tail2, 1u8) {
        Some(g) => g,
        None => return None,
    };
    proof {
        lemma_find_byte_bounds(tail2@, 1u8, 0);
    }
    let end = pos2 + g + 1;
    Some(take_front(buffer, end))
}

proof fn lemma_extract_length_bounds(buf: Seq<u8>)
    ensures
        spec_extract_length(buf) matches Some((l, bl)) ==> 1 <= l <= buf.len(),
{
    lemma_find_from_bounds(buf, body_length_pattern(), 0);
    if let Some(i) = find_pattern(buf, body_length_pattern()) {
        lemma_find_byte_bounds(buf.subrange(i + 3, buf.len() as int), 1u8, 0);
    }
}

/// The BeginString value of a buffer: the text between the first `8=` and the `<SOH>` after it.
pub open spec fn spec_read_version(buf: Seq<u8>) -> Option<Seq<u8>> {
    match find_pattern(buf, begin_pattern()) {
        None => None,
        Some(p) => match find_byte(buf.subrange(p, buf.len() as int), 1u8) {
            None => None,
            Some(e) => if p + 2 <= e { Some(buf.subrange(p + 2, e)) } else { None },
        },
    }
}

/// Whether `read_version` runs to its end on `buf`: the `<SOH>` that ends the
/// BeginString value must be there, at an index of the slice that starts at
/// `8=` that is not before the value itself.
pub open spec fn read_version_defined(buf: Seq<u8>) -> bool {
    match find_pattern(buf, begin_pattern()) {
        None => true,
        Some(p) => match find_byte(buf.subrange(p, buf.len() as int), 1u8) {
            None => false,
            Some(e) => p + 2 <= e,
        },
    }
}

/// The BeginString value of the first message in a buffer, where it is valid UTF-8.
///
/// The index of the closing `<SOH>` is taken relative to the `8=`, as the
/// buffer's first bytes are expected to be the message's.
pub fn read_version(buffer: &[u8]) -> (r: Option<&str>)
    requires
        read_version_defined(buffer@),
    ensures
        r matches Some(v) ==> spec_read_version(buffer@) matches Some(b) && vstd::utf8::valid_utf8(b)
            && v@ == vstd::utf8::decode_utf8(b),
        r is None ==> spec_read_version(buffer@) is None || !(spec_read_version(buffer@) matches Some(b) && vstd::utf8::valid_utf8(b)),
{
    let begin_arr: [u8; 2] = [56u8, 61u8];
    let begin: &[u8] = &begin_arr;
    assert(begin@ =~= begin_pattern());
    let pos = match find_subslice(buffer, begin) {
        Some(p) => p,
        None => return None,
    };
    proof {
        lemma_find_from_bounds(buffer@, begin_pattern(), 0);
    }
    let tail = vstd::slice::slice_subrange(buffer, pos, buffer.len());
    let end = match find_byte_index(tail, 1u8) {
        Some(e) => e,
        None => return None,
    };
    proof {
        lemma_find_byte_bounds(tail@, 1u8, 0);
    }
    utf8_str(vstd::slice::slice_subrange(buffer, pos + 2, end))
}

impl View for Parser {
    type V = Seq<u8>;

    closed spec fn view(&self) -> Seq<u8> {
        self.buffer@
    }
}

impl Parser {
    /// A parser with an empty buffer.
    pub fn new() -> (r: Parser)
        ensures
            r.view() == Seq::<u8>::empty(),
    {
        Parser { buffer: Vec::new() }
    }

    /// The bytes received and not yet cut off as a message.
    pub fn buffer(&self) -> (r: &Vec<u8>)
        ensures
            r@ == self.view(),
    {
        &self.buffer
    }

    /// Whether `read_fix_message` can run on the present buffer: the end of
    /// the body that the buffer announces is an index that fits in `usize`.
    pub fn can_read(&self) -> (r: bool)
        ensures
            r == read_fix_fits(self.view()),
    {
        if self.buffer.len() < 2 {
            return true;
        }
        let begin_arr: [u8; 2] = [56u8, 61u8];
        let begin: &[u8] = &begin_arr;
        assert(begin@ =~= begin_pattern());
        let pos = match find_subslice(self.buffer.as_slice(), begin) {
            Some(p) => p,
            None => {
                return match extract_length(self.buffer.as_slice()) {
                    Some((l, bl)) => bl <= usize::MAX - l,
                    None => true,
                };
            },
        };
        proof {
            lemma_find_from_bounds(self.buffer@, begin_pattern(), 0);
        }
        let tail = vstd::slice::slice_subrange(self.buffer.as_slice(), pos, self.buffer.as_slice().len());
        match extract_length(tail) {
            Some((l, bl)) => bl <= usize::MAX - l,
            None => true,
        }
    }

    /// Cuts the next complete message off the buffer, as `read_fix` does.
    pub fn read_fix_message(&mut self) -> (r: Result<Option<Vec<u8>>, ParserError>)
        requires
            read_fix_fits(old(self).view()),
        ensures
            ({
                let (m, rest) = spec_read_fix(old(self).view());
                &&& final(self).view() == rest
                &&& r matches Ok(Some(v)) ==> m == Some(v@)
                &&& r matches Ok(None) ==> m is None
                &&& r is Ok
            }),
    {
        Ok(read_fix(&mut self.buffer))
    }

    /// Appends received bytes to the buffer.
    pub fn add_to_stream(&mut self, read: &[u8])
        ensures
            final(self).view() == old(self).view() + read@,
    {
        let mut i: usize = 0;
        let ghost start = self.buffer@;
        while i < read.len()
            invariant
                i <= read@.len(),
                self.buffer@ == start + read@.subrange(0, i as int),
            decreases read.len() - i,
        {
            self.buffer.push(read[i]);
            assert(start + read@.subrange(0, i + 1) =~= (start + read@.subrange(0, i as int)).push(read@[i as int]));
            i = i + 1;
        }
        assert(read@.subrange(0, i as int) =~= read@);
    }
}

impl Default for Parser {
    fn default() -> (r: Parser)
        ensures
            r.view() == Seq::<u8>::empty(),
    {
        Parser::new()
    }
}

} // verus!
