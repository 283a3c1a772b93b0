//! Unpadded URL-safe base64, as a relation between bytes and text.

use vstd::prelude::*;

verus! {

/// The symbol with the value `v`: `A`-`Z`, `a`-`z`, `0`-`9`, `-`, `_`.
pub open spec fn base64_symbol(v: int) -> char {
    if v < 26 {
        (65 + v) as char
    } else if v < 52 {
        (71 + v) as char
    } else if v < 62 {
        (v - 4) as char
    } else if v == 62 {
        '-'
    } else {
        '_'
    }
}

/// The byte at `i`, or zero behind the last one.
pub open spec fn byte_or_zero(bytes: Seq<u8>, i: int) -> int {
    if i < bytes.len() {
        bytes[i] as int
    } else {
        0
    }
}

/// The six bits of `bytes` that symbol `i` stands for: four symbols to every three bytes.
pub open spec fn base64_bits(bytes: Seq<u8>, i: int) -> int {
    let j = 3 * (i / 4);
    if i % 4 == 0 {
        byte_or_zero(bytes, j) / 4
    } else if i % 4 == 1 {
        16 * (byte_or_zero(bytes, j) % 4) + byte_or_zero(bytes, j + 1) / 16
    } else if i % 4 == 2 {
        4 * (byte_or_zero(bytes, j + 1) % 16) + byte_or_zero(bytes, j + 2) / 64
    } else {
        byte_or_zero(bytes, j + 2) % 64
    }
}

/// `bytes` in unpadded URL-safe base64.
pub open spec fn base64_text(bytes: Seq<u8>) -> Seq<char> {
    Seq::new((4 * bytes.len() + 2) / 3, |i: int| base64_symbol(base64_bits(bytes, i)))
}

/// The bytes of which `text` is the unpadded URL-safe base64, if there are any.
pub open spec fn base64_bytes(text: Seq<char>) -> Option<Seq<u8>> {
    if exists|bytes: Seq<u8>| base64_text(bytes) == text {
        Some(choose|bytes: Seq<u8>| base64_text(bytes) == text)
    } else {
        None
    }
}

proof fn lemma_bits_range(bytes: Seq<u8>, i: int)
    requires
        0 <= i,
    ensures
        0 <= base64_bits(bytes, i) < 64,
{
}

proof fn lemma_symbol_injective(v: int, w: int)
    requires
        0 <= v < 64,
        0 <= w < 64,
        base64_symbol(v) == base64_symbol(w),
    ensures
        v == w,
{
}

/// Different bytes have different base64 texts.
pub proof fn base64_injective(a: Seq<u8>, b: Seq<u8>)
    requires
        base64_text(a) == base64_text(b),
    ensures
        a == b,
{
    let n = a.len() as int;
    let m = b.len() as int;
    assert(base64_text(a).len() == (4 * n + 2) / 3);
    assert(base64_text(b).len() == (4 * m + 2) / 3);
    assert(n == m);
    assert forall|i: int| 0 <= i < base64_text(a).len() implies base64_bits(a, i) == base64_bits(
        b,
        i,
    ) by {
        lemma_bits_range(a, i);
        lemma_bits_range(b, i);
        assert(base64_text(a)[i] == base64_symbol(base64_bits(a, i)));
        assert(base64_text(b)[i] == base64_symbol(base64_bits(b, i)));
        lemma_symbol_injective(base64_bits(a, i), base64_bits(b, i));
    }
    assert forall|j: int| 0 <= j < a.len() implies a[j] == b[j] by {
        let i = 4 * (j / 3);
        let k = 3 * (j / 3);
        if j % 3 == 0 {
            assert(base64_bits(a, i) == base64_bits(b, i));
            assert(base64_bits(a, i + 1) == base64_bits(b, i + 1));
        } else if j % 3 == 1 {
            assert(base64_bits(a, i + 1) == base64_bits(b, i + 1));
            assert(base64_bits(a, i + 2) == base64_bits(b, i + 2));
        } else {
            assert(base64_bits(a, i + 2) == base64_bits(b, i + 2));
            assert(base64_bits(a, i + 3) == base64_bits(b, i + 3));
        }
    }
    assert(a =~= b);
}

/// Reading base64 gives back the bytes that were written.
pub proof fn base64_round_trips(bytes: Seq<u8>)
    ensures
        base64_bytes(base64_text(bytes)) == Some(bytes),
{
    let text = base64_text(bytes);
    let read = choose|read: Seq<u8>| base64_text(read) == text;
    assert(base64_text(read) == text);
    base64_injective(read, bytes);
}

} // verus!
