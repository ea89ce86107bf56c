//! Uppercase hex rendering of digest fields.
//!
//! The hash string renders checksum and length bytes with their nibbles
//! swapped (low nibble first) and the ratio and body bytes in normal order;
//! body bytes are emitted last-byte first.  These quirks are part of the
//! fixed interchange format and are reproduced exactly.

use vstd::prelude::*;
use vstd::string::StringExecFns;

verus! {

/// The uppercase hex digit of a nibble.
pub open spec fn hex_digit(n: nat) -> char {
    if n == 0 {
        '0'
    } else if n == 1 {
        '1'
    } else if n == 2 {
        '2'
    } else if n == 3 {
        '3'
    } else if n == 4 {
        '4'
    } else if n == 5 {
        '5'
    } else if n == 6 {
        '6'
    } else if n == 7 {
        '7'
    } else if n == 8 {
        '8'
    } else if n == 9 {
        '9'
    } else if n == 10 {
        'A'
    } else if n == 11 {
        'B'
    } else if n == 12 {
        'C'
    } else if n == 13 {
        'D'
    } else if n == 14 {
        'E'
    } else {
        'F'
    }
}

/// A byte as two hex digits, high nibble first.
pub open spec fn hex_pair(b: nat) -> Seq<char> {
    seq![hex_digit(b / 16 % 16), hex_digit(b % 16)]
}

/// A byte as two hex digits, low nibble first.
pub open spec fn hex_pair_swapped(b: nat) -> Seq<char> {
    seq![hex_digit(b % 16), hex_digit(b / 16 % 16)]
}

/// Bytes rendered in order, each as a nibble-swapped hex pair.
pub open spec fn swapped_hex_of(bytes: Seq<u8>) -> Seq<char>
    decreases bytes.len(),
{
    if bytes.len() == 0 {
        Seq::<char>::empty()
    } else {
        swapped_hex_of(bytes.drop_last()) + hex_pair_swapped(bytes.last() as nat)
    }
}

/// Bytes rendered in reverse order, each as a normal hex pair.
pub open spec fn reversed_hex_of(bytes: Seq<u8>) -> Seq<char>
    decreases bytes.len(),
{
    if bytes.len() == 0 {
        Seq::<char>::empty()
    } else {
        hex_pair(bytes.last() as nat) + reversed_hex_of(bytes.drop_last())
    }
}

/// Peeling the first byte off a reverse rendering moves its pair to the end.
pub proof fn lemma_reversed_hex_cons(bytes: Seq<u8>)
    requires
        bytes.len() > 0,
    ensures
        reversed_hex_of(bytes) == reversed_hex_of(bytes.drop_first()) + hex_pair(
            bytes.first() as nat,
        ),
    decreases bytes.len(),
{
    if bytes.len() == 1 {
        assert(bytes.drop_last() =~= bytes.drop_first());
        assert(reversed_hex_of(bytes) =~= reversed_hex_of(bytes.drop_first()) + hex_pair(
            bytes.first() as nat,
        ));
    } else {
        lemma_reversed_hex_cons(bytes.drop_last());
        assert(bytes.drop_last().drop_first() =~= bytes.drop_first().drop_last());
        assert(bytes.drop_first().last() == bytes.last());
        assert(reversed_hex_of(bytes) =~= reversed_hex_of(bytes.drop_first()) + hex_pair(
            bytes.first() as nat,
        ));
    }
}

/// A swapped rendering is twice as long as its bytes and holds, for byte
/// `i`, its low nibble's digit at position `2 i` and its high nibble's digit
/// right after.
pub proof fn lemma_swapped_hex_index(bytes: Seq<u8>, i: int)
    requires
        0 <= i < bytes.len(),
    ensures
        swapped_hex_of(bytes).len() == 2 * bytes.len(),
        swapped_hex_of(bytes)[2 * i] == hex_digit(bytes[i] as nat % 16),
        swapped_hex_of(bytes)[2 * i + 1] == hex_digit(bytes[i] as nat / 16 % 16),
    decreases bytes.len(),
{
    lemma_swapped_hex_len(bytes);
    if i < bytes.len() - 1 {
        lemma_swapped_hex_index(bytes.drop_last(), i);
        lemma_swapped_hex_len(bytes.drop_last());
    }
}

/// A swapped rendering is twice as long as its bytes.
pub proof fn lemma_swapped_hex_len(bytes: Seq<u8>)
    ensures
        swapped_hex_of(bytes).len() == 2 * bytes.len(),
    decreases bytes.len(),
{
    if bytes.len() > 0 {
        lemma_swapped_hex_len(bytes.drop_last());
    }
}

/// A reverse rendering is twice as long as its bytes.
pub proof fn lemma_reversed_hex_len(bytes: Seq<u8>)
    ensures
        reversed_hex_of(bytes).len() == 2 * bytes.len(),
    decreases bytes.len(),
{
    if bytes.len() > 0 {
        lemma_reversed_hex_len(bytes.drop_last());
    }
}

/// A reverse rendering holds, at pair `k`, the normal hex pair of the byte
/// `k` positions from the end.
pub proof fn lemma_reversed_hex_index(bytes: Seq<u8>, k: int)
    requires
        0 <= k < bytes.len(),
    ensures
        reversed_hex_of(bytes).len() == 2 * bytes.len(),
        reversed_hex_of(bytes)[2 * k] == hex_digit(
            bytes[bytes.len() - 1 - k] as nat / 16 % 16,
        ),
        reversed_hex_of(bytes)[2 * k + 1] == hex_digit(bytes[bytes.len() - 1 - k] as nat % 16),
    decreases k,
{
    lemma_reversed_hex_len(bytes);
    if k > 0 {
        lemma_reversed_hex_len(bytes.drop_last());
        lemma_reversed_hex_index(bytes.drop_last(), k - 1);
    }
}

/// The single-character string of a hex digit.
fn hex_digit_str(n: u8) -> (s: &'static str)
    requires
        n < 16,
    ensures
        s@ =~= seq![hex_digit(n as nat)],
{
    proof {
        reveal_strlit("0");
        reveal_strlit("1");
        reveal_strlit("2");
        reveal_strlit("3");
        reveal_strlit("4");
        reveal_strlit("5");
        reveal_strlit("6");
        reveal_strlit("7");
        reveal_strlit("8");
        reveal_strlit("9");
        reveal_strlit("A");
        reveal_strlit("B");
        reveal_strlit("C");
        reveal_strlit("D");
        reveal_strlit("E");
        reveal_strlit("F");
    }
    match n {
        0 => "0",
        1 => "1",
        2 => "2",
        3 => "3",
        4 => "4",
        5 => "5",
        6 => "6",
        7 => "7",
        8 => "8",
        9 => "9",
        10 => "A",
        11 => "B",
        12 => "C",
        13 => "D",
        14 => "E",
        _ => "F",
    }
}

/// Appends a byte as two hex digits, high nibble first.
pub fn push_hex_pair(out: &mut String, b: u8)
    ensures
        final(out)@ == old(out)@ + hex_pair(b as nat),
{
    out.append(hex_digit_str(b / 16));
    out.append(hex_digit_str(b % 16));
    proof {
        assert(out@ =~= old(out)@ + hex_pair(b as nat));
    }
}

/// Appends a byte as two hex digits, low nibble first.
pub fn push_hex_pair_swapped(out: &mut String, b: u8)
    ensures
        final(out)@ == old(out)@ + hex_pair_swapped(b as nat),
{
    out.append(hex_digit_str(b % 16));
    out.append(hex_digit_str(b / 16));
    proof {
        assert(out@ =~= old(out)@ + hex_pair_swapped(b as nat));
    }
}

} // verus!
