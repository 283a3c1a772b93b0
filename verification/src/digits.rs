//! Numbers as text: decimal port numbers and hexadecimal bytes.

use vstd::prelude::*;
use vstd::utf8::{encode_utf8, is_ascii_chars, is_char_boundary};

verus! {

/// The digit with the value `d`, in upper case.
pub open spec fn upper_digit(d: int) -> char {
    if d < 10 {
        (48 + d) as char
    } else {
        (55 + d) as char
    }
}

/// The digit with the value `d`, in lower case.
pub open spec fn lower_digit(d: int) -> char {
    if d < 10 {
        (48 + d) as char
    } else {
        (87 + d) as char
    }
}

/// `n` in decimal, without leading zeros.
pub open spec fn decimal(n: nat) -> Seq<char>
    decreases n,
{
    if n < 10 {
        seq![upper_digit(n as int)]
    } else {
        decimal(n / 10).push(upper_digit((n % 10) as int))
    }
}

/// Each byte as two lower-case hexadecimal digits.
pub open spec fn hex_lower(bytes: Seq<u8>) -> Seq<char> {
    Seq::new(
        2 * bytes.len(),
        |i: int|
            lower_digit(
                if i % 2 == 0 {
                    bytes[i / 2] as int / 16
                } else {
                    bytes[i / 2] as int % 16
                },
            ),
    )
}

/// Each byte as two upper-case hexadecimal digits.
pub open spec fn hex_upper(bytes: Seq<u8>) -> Seq<char> {
    Seq::new(
        2 * bytes.len(),
        |i: int|
            upper_digit(
                if i % 2 == 0 {
                    bytes[i / 2] as int / 16
                } else {
                    bytes[i / 2] as int % 16
                },
            ),
    )
}

/// The text of one digit.
fn digit_text(d: u8) -> (res: &'static str)
    requires
        d < 16,
    ensures
        res@ == seq![upper_digit(d as int)],
{
    let all: &'static str = "0123456789ABCDEF";
    proof {
        reveal_strlit("0123456789ABCDEF");
        assert(d == 0 || d == 1 || d == 2 || d == 3 || d == 4 || d == 5 || d == 6 || d == 7 || d
            == 8 || d == 9 || d == 10 || d == 11 || d == 12 || d == 13 || d == 14 || d == 15);
        assert(all@[d as int] == upper_digit(d as int));
    }
    let at: usize = d as usize;
    let res = all.substring_char(at, at + 1);
    proof {
        assert(res@ =~= seq![upper_digit(d as int)]);
    }
    res
}

/// `n` in decimal.
pub fn decimal_text(n: u64) -> (res: String)
    ensures
        res@ == decimal(n as nat),
    decreases n,
{
    if n < 10 {
        digit_text(n as u8).to_owned()
    } else {
        let mut res = decimal_text(n / 10);
        let last = digit_text((n % 10) as u8);
        res.append(last);
        proof {
            assert(res@ =~= decimal((n / 10) as nat).push(upper_digit((n % 10) as int)));
        }
        res
    }
}

/// Each byte as two upper-case hexadecimal digits.
pub fn hex_encode(bytes: &[u8]) -> (res: String)
    ensures
        res@ == hex_upper(bytes@),
{
    let mut res: String = String::new();
    let mut i: usize = 0;
    proof {
        assert(hex_upper(bytes@.take(0)) =~= res@);
    }
    while i < bytes.len()
        invariant
            i <= bytes.len(),
            res@ == hex_upper(bytes@.take(i as int)),
        decreases bytes.len() - i,
    {
        let byte: u8 = bytes[i];
        let ghost before = res@;
        res.append(digit_text(byte / 16));
        res.append(digit_text(byte % 16));
        i += 1;
        proof {
            assert(hex_upper(bytes@.take(i as int)) =~= before + seq![
                upper_digit(byte as int / 16),
                upper_digit(byte as int % 16),
            ]);
            assert(res@ =~= hex_upper(bytes@.take(i as int)));
        }
    }
    proof {
        assert(bytes@.take(i as int) =~= bytes@);
    }
    res
}

/// Whether `c` is a decimal digit.
pub open spec fn is_digit(c: char) -> bool {
    48 <= c as int <= 57
}

/// The number that the decimal digits of `s` write.
pub open spec fn decimal_value(s: Seq<char>) -> nat
    decreases s.len(),
{
    if s.len() == 0 {
        0
    } else {
        (10 * decimal_value(s.drop_last()) + (s.last() as int - 48)) as nat
    }
}

/// `s` without one leading plus sign.
pub open spec fn without_plus(s: Seq<char>) -> Seq<char> {
    if s.len() > 0 && s[0] == '+' {
        s.drop_first()
    } else {
        s
    }
}

/// The port number that `s` writes: one digit or more, with an optional plus sign before them.
pub open spec fn port_value(s: Seq<char>) -> Option<u16> {
    let digits = without_plus(s);
    if digits.len() > 0 && (forall|i: int| 0 <= i < digits.len() ==> is_digit(#[trigger] digits[i]))
        && decimal_value(digits) <= u16::MAX {
        Some(decimal_value(digits) as u16)
    } else {
        None
    }
}

/// The value of a decimal digit.
fn digit_of(c: char) -> (res: Option<u32>)
    ensures
        match res {
            Some(d) => is_digit(c) && d == c as int - 48,
            None => !is_digit(c),
        },
{
    let code: u32 = c as u32;
    if 48 <= code && code <= 57 {
        Some(code - 48)
    } else {
        None
    }
}

/// The port number that `s` writes.
pub fn parse_port(s: &str) -> (res: Option<u16>)
    ensures
        res == port_value(s@),
{
    let chars = crate::text::characters(s);
    let len = chars.len();
    let start: usize = if len > 0 && chars[0] == '+' {
        1
    } else {
        0
    };
    let ghost digits = s@.skip(start as int);
    proof {
        assert(digits =~= without_plus(s@));
    }
    if start == len {
        return None;
    }
    let mut value: u32 = 0;
    let mut over: bool = false;
    let mut i: usize = start;
    while i < len
        invariant
            start <= i <= len,
            len == chars.len(),
            chars@ == s@,
            digits == s@.skip(start as int),
            digits == without_plus(s@),
            forall|k: int| 0 <= k < i - start ==> is_digit(#[trigger] digits[k]),
            over ==> decimal_value(digits.take(i - start)) > u16::MAX,
            !over ==> value == decimal_value(digits.take(i - start)) && value <= u16::MAX,
        decreases len - i,
    {
        proof {
            assert(digits[i - start] == chars@[i as int]);
            assert(digits.take(i - start + 1).drop_last() =~= digits.take(i - start));
        }
        let digit: u32 = match digit_of(chars[i]) {
            Some(d) => d,
            None => {
                return None;
            },
        };
        if !over {
            value = 10 * value + digit;
            over = value > 65535;
        }
        i += 1;
    }
    proof {
        assert(digits.take(len - start) =~= digits);
    }
    if over {
        None
    } else {
        Some(value as u16)
    }
}

/// Reading a port number gives back what writing it in decimal wrote.
pub proof fn decimal_round_trips(n: nat)
    ensures
        decimal_value(decimal(n)) == n,
        decimal(n).len() > 0,
        forall|i: int| 0 <= i < decimal(n).len() ==> is_digit(#[trigger] decimal(n)[i]),
        n <= u16::MAX ==> port_value(decimal(n)) == Some(n as u16),
    decreases n,
{
    if n < 10 {
        assert(decimal(n).drop_last() =~= seq![]);
        assert(decimal_value(seq![]) == 0);
    } else {
        decimal_round_trips(n / 10);
        assert(decimal(n).drop_last() =~= decimal(n / 10));
    }
    assert(is_digit(decimal(n)[0]));
}

/// Why a text is not hexadecimal.
#[derive(Debug, Clone, Copy, PartialEq, Eq, Structural)]
pub enum HexError {
    /// It has an odd number of bytes.
    OddLength,
    /// Two of its bytes do not write a number.
    InvalidDigit,
}

/// The value of one hexadecimal digit, in either case.
pub open spec fn digit_value(b: u8) -> Option<int> {
    if 48 <= b <= 57 {
        Some(b - 48)
    } else if 65 <= b <= 70 {
        Some(b - 55)
    } else if 97 <= b <= 102 {
        Some(b - 87)
    } else {
        None
    }
}

/// The byte that two bytes of text write: two digits, or a plus sign and one digit.
pub open spec fn pair_value(x: u8, y: u8) -> Option<u8> {
    match (digit_value(x), digit_value(y)) {
        (Some(high), Some(low)) => Some((16 * high + low) as u8),
        (None, Some(low)) => if x == 43 {
            Some(low as u8)
        } else {
            None
        },
        _ => None,
    }
}

/// The byte that the pair with the number `k` writes.
pub open spec fn pair_at(b: Seq<u8>, k: int) -> Option<u8> {
    pair_value(b[2 * k], b[2 * k + 1])
}

/// The first `k` pairs of `b` all write a byte.
pub open spec fn pairs_read(b: Seq<u8>, k: int) -> bool {
    forall|j: int| 0 <= j < k ==> #[trigger] pair_at(b, j) is Some
}

/// The pair with the number `k` ends where a character of the text ends.
pub open spec fn ends_character(b: Seq<u8>, k: int) -> bool {
    is_char_boundary(b, 2 * k + 2)
}

/// The bytes that the hexadecimal `text` writes.
pub open spec fn hex_read(text: Seq<char>) -> Result<Seq<u8>, HexError> {
    let b = encode_utf8(text);
    if b.len() % 2 != 0 {
        Err(HexError::OddLength)
    } else if pairs_read(b, b.len() as int / 2) {
        Ok(Seq::new(b.len() / 2, |k: int| pair_at(b, k)->0))
    } else {
        Err(HexError::InvalidDigit)
    }
}

/// `text` falls apart into characters at every pair that is looked at: up to the first pair that
/// writes no byte, no character straddles two pairs.
pub open spec fn hex_sliceable(text: Seq<char>) -> bool {
    let b = encode_utf8(text);
    b.len() % 2 == 0 ==> forall|k: int|
        0 <= 2 * k < b.len() && pairs_read(b, k) ==> #[trigger] ends_character(b, k)
}

/// The value of one hexadecimal digit.
fn read_digit(b: u8) -> (res: Option<u8>)
    ensures
        match res {
            Some(v) => v < 16 && digit_value(b) == Some(v as int),
            None => digit_value(b) is None,
        },
{
    if 48 <= b && b <= 57 {
        Some(b - 48)
    } else if 65 <= b && b <= 70 {
        Some(b - 55)
    } else if 97 <= b && b <= 102 {
        Some(b - 87)
    } else {
        None
    }
}

/// The byte that two bytes of text write.
fn read_pair(x: u8, y: u8) -> (res: Option<u8>)
    ensures
        res == pair_value(x, y),
{
    let low: u8 = match read_digit(y) {
        Some(v) => v,
        None => {
            return None;
        },
    };
    match read_digit(x) {
        Some(high) => Some(16 * high + low),
        None => if x == 43 {
            Some(low)
        } else {
            None
        },
    }
}

/// The bytes that a hexadecimal text writes.
pub fn hex_decode(input: &str) -> (res: Result<Vec<u8>, HexError>)
    requires
        hex_sliceable(input@),
    ensures
        match res {
            Ok(bytes) => hex_read(input@) == Ok::<Seq<u8>, HexError>(bytes@),
            Err(e) => hex_read(input@) == Err::<Seq<u8>, HexError>(e),
        },
{
    let b: &[u8] = input.as_bytes();
    if b.len() % 2 != 0 {
        return Err(HexError::OddLength);
    }
    let mut res: Vec<u8> = Vec::new();
    let pairs: usize = b.len() / 2;
    let mut k: usize = 0;
    while k < pairs
        invariant
            b@ == encode_utf8(input@),
            pairs == b.len() / 2,
            b.len() % 2 == 0,
            k <= pairs,
            res@.len() == k,
            pairs_read(b@, k as int),
            forall|j: int| 0 <= j < k ==> #[trigger] res@[j] == pair_at(b@, j)->0,
        decreases pairs - k,
    {
        match read_pair(b[2 * k], b[2 * k + 1]) {
            Some(v) => {
                res.push(v);
            },
            None => {
                proof {
                    assert(pair_at(b@, k as int) is None);
                }
                return Err(HexError::InvalidDigit);
            },
        }
        k += 1;
    }
    proof {
        assert(res@ =~= hex_read(input@)->Ok_0);
    }
    Ok(res)
}

/// Whether `hex_decode` can look at `input`.
pub fn is_hex_sliceable(input: &str) -> (res: bool)
    ensures
        res == hex_sliceable(input@),
{
    let b: &[u8] = input.as_bytes();
    if b.len() % 2 != 0 {
        return true;
    }
    let pairs: usize = b.len() / 2;
    let mut k: usize = 0;
    while k < pairs
        invariant
            b@ == encode_utf8(input@),
            pairs == b.len() / 2,
            b.len() % 2 == 0,
            k <= pairs,
            pairs_read(b@, k as int),
            forall|j: int| 0 <= j < k ==> #[trigger] ends_character(b@, j),
        decreases pairs - k,
    {
        if !input.is_char_boundary(2 * k + 2) {
            proof {
                assert(!ends_character(b@, k as int));
            }
            return false;
        }
        if read_pair(b[2 * k], b[2 * k + 1]).is_none() {
            proof {
                assert(ends_character(b@, k as int));
                assert forall|j: int|
                    0 <= 2 * j < b@.len() && pairs_read(
                        b@,
                        j,
                    ) implies #[trigger] ends_character(b@, j) by {
                    if j > k {
                        assert(pair_at(b@, k as int) is Some);
                    }
                }
            }
            return true;
        }
        k += 1;
    }
    true
}

/// Reading hexadecimal gives back what `hex_encode` wrote.
pub proof fn hex_round_trips(bytes: Seq<u8>)
    ensures
        hex_sliceable(hex_upper(bytes)),
        hex_read(hex_upper(bytes)) == Ok::<Seq<u8>, HexError>(bytes),
{
    let text = hex_upper(bytes);
    let b = encode_utf8(text);
    assert(is_ascii_chars(text));
    vstd::utf8::is_ascii_chars_encode_utf8(text);
    assert(b.len() == 2 * bytes.len());
    assert forall|j: int| 0 <= j < bytes.len() implies pair_at(b, j) == Some(bytes[j]) by {
        assert(b[2 * j] == text[2 * j] as u8);
        assert(b[2 * j + 1] == text[2 * j + 1] as u8);
    }
    assert(hex_read(text)->Ok_0 =~= bytes);
    assert forall|k: int| 0 <= 2 * k < b.len() && pairs_read(
        b,
        k,
    ) implies #[trigger] ends_character(b, k) by {
        vstd::utf8::encode_utf8_valid_utf8(text);
        if 2 * k + 2 == b.len() {
            vstd::utf8::is_char_boundary_start_end_of_seq(b);
        } else {
            vstd::utf8::is_char_boundary_iff_not_is_continuation_byte(b, 2 * k + 2);
            assert(b[2 * k + 2] == text[2 * k + 2] as u8);
        }
    }
}

/// A number is written without leading zeros.
pub proof fn decimal_has_no_leading_zero(n: nat)
    ensures
        decimal(n).len() > 1 ==> decimal(n)[0] != '0',
        n > 0 ==> decimal(n)[0] != '0',
        n == 0 ==> decimal(n) == seq!['0'],
    decreases n,
{
    if n >= 10 {
        decimal_has_no_leading_zero(n / 10);
        decimal_round_trips(n / 10);
        assert(decimal(n)[0] == decimal(n / 10)[0]);
    }
}

/// A port number is read behind any number of zeros, or behind a plus sign.
pub proof fn port_is_the_number_that_is_written(zeros: nat, n: u16)
    ensures
        port_value(Seq::new(zeros, |i: int| '0') + decimal(n as nat)) == Some(n),
        port_value(seq!['+'] + decimal(n as nat)) == Some(n),
{
    let digits = decimal(n as nat);
    decimal_round_trips(n as nat);
    let padded = Seq::new(zeros, |i: int| '0') + digits;
    lemma_leading_zeros(zeros, digits);
    assert(without_plus(padded) == padded) by {
        if zeros == 0 {
            assert(padded[0] == digits[0]);
            assert(is_digit(digits[0]));
        } else {
            assert(padded[0] == '0');
        }
    }
    assert forall|i: int| 0 <= i < padded.len() implies is_digit(#[trigger] padded[i]) by {
        if i >= zeros {
            assert(padded[i] == digits[i - zeros]);
        }
    }
    assert(padded.len() > 0);
    let signed = seq!['+'] + digits;
    assert(signed.drop_first() =~= digits);
    assert(without_plus(signed) == digits);
}

proof fn lemma_leading_zeros(zeros: nat, digits: Seq<char>)
    ensures
        decimal_value(Seq::new(zeros, |i: int| '0') + digits) == decimal_value(digits),
    decreases zeros + digits.len(),
{
    let all = Seq::new(zeros, |i: int| '0') + digits;
    if digits.len() > 0 {
        assert(all.drop_last() =~= Seq::new(zeros, |i: int| '0') + digits.drop_last());
        assert(all.last() == digits.last());
        lemma_leading_zeros(zeros, digits.drop_last());
    } else if zeros > 0 {
        let fewer = (zeros - 1) as nat;
        assert(all.drop_last() =~= Seq::new(fewer, |i: int| '0') + digits);
        assert(all.last() == '0');
        lemma_leading_zeros(fewer, digits);
    } else {
        assert(all =~= digits);
    }
}

/// A text with anything but digits behind an optional plus sign is no port number, nor is an empty
/// one, nor a number beyond 65535.
pub proof fn other_texts_are_no_port(text: Seq<char>, at: int, n: nat)
    requires
        n > 65535,
    ensures
        0 < at < text.len() && !('0' <= text[at] && text[at] <= '9') ==> port_value(text) is None,
        text.len() > 0 && text[0] != '+' && !('0' <= text[0] && text[0] <= '9') ==> port_value(text)
            is None,
        port_value(seq![]) is None,
        port_value(seq!['+']) is None,
        port_value(decimal(n)) is None,
{
    if 0 < at < text.len() && !('0' <= text[at] && text[at] <= '9') {
        let digits = without_plus(text);
        if text[0] == '+' {
            assert(digits[at - 1] == text[at]);
            assert(!is_digit(digits[at - 1]));
        } else {
            assert(!is_digit(digits[at]));
        }
    }
    if text.len() > 0 && text[0] != '+' && !('0' <= text[0] && text[0] <= '9') {
        assert(!is_digit(without_plus(text)[0]));
    }
    assert(seq!['+'].drop_first() =~= seq![]);
    decimal_round_trips(n);
    assert(is_digit(decimal(n)[0]));
}

/// Hexadecimal writes each byte on its own, two digits to a byte, high digit first.
pub proof fn hex_writes_each_byte(left: Seq<u8>, byte: u8, right: Seq<u8>)
    ensures
        hex_upper(left + right) == hex_upper(left) + hex_upper(right),
        hex_upper(seq![byte]).len() == 2,
        digit_value(hex_upper(seq![byte])[0] as u8) == Some(byte as int / 16),
        digit_value(hex_upper(seq![byte])[1] as u8) == Some(byte as int % 16),
        hex_lower(left + right) == hex_lower(left) + hex_lower(right),
        digit_value(hex_lower(seq![byte])[0] as u8) == Some(byte as int / 16),
        digit_value(hex_lower(seq![byte])[1] as u8) == Some(byte as int % 16),
{
    let all = left + right;
    let n = 2 * left.len() as int;
    assert forall|i: int| 0 <= i < 2 * all.len() implies #[trigger] hex_upper(all)[i] == (hex_upper(
        left,
    ) + hex_upper(right))[i] && hex_lower(all)[i] == (hex_lower(left) + hex_lower(right))[i] by {
        if i >= n {
            assert((i - n) / 2 == i / 2 - left.len());
            assert((i - n) % 2 == i % 2);
            assert(all[i / 2] == right[(i - n) / 2]);
        } else {
            assert(all[i / 2] == left[i / 2]);
        }
    }
    assert(hex_upper(all) =~= hex_upper(left) + hex_upper(right));
    assert(hex_lower(all) =~= hex_lower(left) + hex_lower(right));
}

/// Reading hexadecimal gives back the bytes whichever case its digits have.
pub proof fn hex_is_read_in_either_case(bytes: Seq<u8>)
    ensures
        hex_read(hex_lower(bytes)) == Ok::<Seq<u8>, HexError>(bytes),
        hex_read(hex_upper(bytes)) == Ok::<Seq<u8>, HexError>(bytes),
{
    hex_round_trips(bytes);
    let text = hex_lower(bytes);
    let b = encode_utf8(text);
    assert(is_ascii_chars(text));
    vstd::utf8::is_ascii_chars_encode_utf8(text);
    assert(b.len() == 2 * bytes.len());
    assert forall|j: int| 0 <= j < bytes.len() implies pair_at(b, j) == Some(bytes[j]) by {
        assert(b[2 * j] == text[2 * j] as u8);
        assert(b[2 * j + 1] == text[2 * j + 1] as u8);
    }
    assert(hex_read(text)->Ok_0 =~= bytes);
}

/// A text of an odd number of bytes is refused for that, whatever its characters are.
pub proof fn an_odd_text_is_no_hexadecimal(text: Seq<char>)
    ensures
        hex_read(text) == Err::<Seq<u8>, HexError>(HexError::OddLength) <==> encode_utf8(text).len()
            % 2 == 1,
        hex_read(text) matches Ok(bytes) ==> encode_utf8(text).len() == 2 * bytes.len(),
{
}

} // verus!
