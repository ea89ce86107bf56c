//! Decoding a hash string back into a structured digest.
//!
//! `spec_decode` is the mathematical inverse of the encoder: it strips the
//! version prefix, classifies the configuration by the string's length,
//! undoes the nibble swaps and the body reversal, and rejects strings of the
//! wrong shape (`InvalidHashValue`) or with non-hex characters
//! (`ParseHexFailed`).  `lemma_decode_inverts_encode` proves that decoding a
//! rendered digest returns exactly the digest's fields.

use vstd::prelude::*;
use crate::builder::Version;
use crate::digest::{DigestState, spec_hash_chars, Tlsh};
use crate::encode::{
    hex_digit,
    hex_pair,
    hex_pair_swapped,
    lemma_reversed_hex_index,
    lemma_reversed_hex_len,
    lemma_swapped_hex_index,
    lemma_swapped_hex_len,
    reversed_hex_of,
    swapped_hex_of,
};
use crate::builder::spec_ver_prefix;
use crate::error::TlshError;
use vstd::string::StrSliceExecFns;

verus! {

/// The value of an uppercase hex digit, or 16 for any other character.
pub open spec fn nib(c: char) -> nat {
    if c == '0' {
        0
    } else if c == '1' {
        1
    } else if c == '2' {
        2
    } else if c == '3' {
        3
    } else if c == '4' {
        4
    } else if c == '5' {
        5
    } else if c == '6' {
        6
    } else if c == '7' {
        7
    } else if c == '8' {
        8
    } else if c == '9' {
        9
    } else if c == 'A' {
        10
    } else if c == 'B' {
        11
    } else if c == 'C' {
        12
    } else if c == 'D' {
        13
    } else if c == 'E' {
        14
    } else if c == 'F' {
        15
    } else {
        16
    }
}

/// The character is an uppercase hex digit.
pub open spec fn is_hex(c: char) -> bool {
    nib(c) < 16
}

/// The byte whose normal hex pair sits at pair position `i`.
pub open spec fn byte_at(s: Seq<char>, i: int) -> nat {
    nib(s[2 * i]) * 16 + nib(s[2 * i + 1])
}

/// The byte whose nibble-swapped hex pair sits at pair position `i`.
pub open spec fn byte_at_swapped(s: Seq<char>, i: int) -> nat {
    nib(s[2 * i + 1]) * 16 + nib(s[2 * i])
}

/// The bookkeeping a decoder carries: how the prefix was recognized, how the
/// remaining length classified the configuration, and how the body relates
/// to the whole string.
spec fn frame_ok(
    s: Seq<char>,
    start: int,
    blen: int,
    cs_len: int,
    code_size: int,
    ver: Version,
    body: Seq<char>,
) -> bool {
    &&& start == (if has_version_prefix(s) {
        2int
    } else {
        0int
    })
    &&& ver == (if start == 2 {
        Version::Version4
    } else {
        Version::Original
    })
    &&& body == decode_body(s)
    &&& blen == body.len()
    &&& (blen == 70 || blen == 74 || blen == 134 || blen == 138)
    &&& cs_len == (if blen == 70 || blen == 134 {
        1int
    } else {
        3int
    })
    &&& code_size == (if blen < 100 {
        32int
    } else {
        64int
    })
    &&& s.len() == start + blen
    &&& 2 * cs_len + 4 + 2 * code_size == blen
}

/// A hash string starts with the current-format prefix.
pub open spec fn has_version_prefix(s: Seq<char>) -> bool {
    s.len() >= 2 && s[0] == 'T' && s[1] == '1'
}

/// The hash string without its version prefix.
pub open spec fn decode_body(s: Seq<char>) -> Seq<char> {
    if has_version_prefix(s) {
        s.skip(2)
    } else {
        s
    }
}

/// Some character is not an uppercase hex digit.
pub open spec fn has_bad_char(body: Seq<char>) -> bool {
    exists|i: int| 0 <= i < body.len() && !is_hex(#[trigger] body[i])
}

/// Decoding a hash string: strip the `T1` prefix if present, classify the
/// configuration by the remaining length, reject non-hex characters, and
/// read the fields back, undoing the nibble swaps and the body reversal.
pub open spec fn spec_decode(s: Seq<char>) -> Result<DigestState, TlshError> {
    let ver = if has_version_prefix(s) {
        Version::Version4
    } else {
        Version::Original
    };
    let body = decode_body(s);
    if body.len() != 70 && body.len() != 74 && body.len() != 134 && body.len() != 138 {
        Err(TlshError::InvalidHashValue)
    } else if has_bad_char(body) {
        Err(TlshError::ParseHexFailed)
    } else {
        let cs_len: int = if body.len() == 70 || body.len() == 134 {
            1
        } else {
            3
        };
        let code_size: int = if body.len() < 100 {
            32
        } else {
            64
        };
        Ok(
            DigestState {
                ver,
                checksum: Seq::new(cs_len as nat, |i: int| byte_at_swapped(body, i) as u8),
                len_code: byte_at_swapped(body, cs_len),
                q1ratio: nib(body[2 * cs_len + 2]),
                q2ratio: nib(body[2 * cs_len + 3]),
                codes: Seq::new(
                    code_size as nat,
                    |i: int| byte_at(body.skip(2 * cs_len + 4), code_size - 1 - i) as u8,
                ),
            },
        )
    }
}

/// Under a valid decoder frame, one non-hex character makes the whole
/// string decode to `ParseHexFailed`.
proof fn lemma_decode_err_hex(
    s: Seq<char>,
    start: int,
    blen: int,
    cs_len: int,
    code_size: int,
    ver: Version,
    body: Seq<char>,
    w: int,
)
    requires
        frame_ok(s, start, blen, cs_len, code_size, ver, body),
        0 <= w < body.len(),
        !is_hex(body[w]),
    ensures
        spec_decode(s) == Err::<DigestState, TlshError>(TlshError::ParseHexFailed),
{
    assert(has_bad_char(body));
}

/// Reading back the digit of a nibble gives the nibble.
proof fn lemma_nib_hex_digit(n: nat)
    requires
        n < 16,
    ensures
        nib(hex_digit(n)) == n,
{
}

/// Decoding inverts encoding: the hash string of any well-formed digest
/// decodes back to exactly that digest.
#[verifier::rlimit(100)]
pub proof fn lemma_decode_inverts_encode(d: DigestState)
    requires
        d.wf(),
    ensures
        spec_decode(spec_hash_chars(d)) == Ok::<DigestState, TlshError>(d),
{
    let s = spec_hash_chars(d);
    let pre = spec_ver_prefix(d.ver);
    let cs = d.checksum.len() as int;
    let n = d.codes.len() as int;
    let rb = d.q1ratio * 16 + d.q2ratio;
    let b1 = swapped_hex_of(d.checksum);
    let b2 = hex_pair_swapped(d.len_code);
    let b3 = hex_pair(rb);
    let b4 = reversed_hex_of(d.codes);
    lemma_swapped_hex_len(d.checksum);
    lemma_reversed_hex_len(d.codes);

    let body = b1 + b2 + b3 + b4;
    assert(body.len() == 2 * cs + 4 + 2 * n);

    // The string is the prefix followed by the body, and the prefix is
    // recognized correctly: a legacy string starts with a hex digit, never
    // with the prefix letter.
    lemma_swapped_hex_index(d.checksum, 0);
    assert(b1[0] == hex_digit(d.checksum[0] as nat % 16));
    assert(body[0] == b1[0]);
    match d.ver {
        Version::Original => {
            assert(s =~= body);
            assert(s[0] != 'T');
        },
        Version::Version4 => {
            assert(s[0] == 'T' && s[1] == '1');
            assert(s.skip(2) =~= body);
        },
    }

    // Every character of the body is a hex digit.
    assert forall|i: int| 0 <= i < body.len() implies is_hex(#[trigger] body[i]) by {
        if i < 2 * cs {
            lemma_swapped_hex_index(d.checksum, i / 2);
            if i % 2 == 0 {
                lemma_nib_hex_digit(d.checksum[i / 2] as nat % 16);
            } else {
                lemma_nib_hex_digit(d.checksum[i / 2] as nat / 16 % 16);
            }
        } else if i < 2 * cs + 2 {
            assert(body[i] == b2[i - 2 * cs]);
            lemma_nib_hex_digit(d.len_code % 16);
            lemma_nib_hex_digit(d.len_code / 16 % 16);
        } else if i < 2 * cs + 4 {
            assert(body[i] == b3[i - 2 * cs - 2]);
            lemma_nib_hex_digit(rb / 16 % 16);
            lemma_nib_hex_digit(rb % 16);
        } else {
            let k = (i - (2 * cs + 4)) / 2;
            lemma_reversed_hex_index(d.codes, k);
            assert(body[i] == b4[i - (2 * cs + 4)]);
            if (i - (2 * cs + 4)) % 2 == 0 {
                assert(body[i] == b4[2 * k]);
                lemma_nib_hex_digit(d.codes[n - 1 - k] as nat / 16 % 16);
            } else {
                assert(body[i] == b4[2 * k + 1]);
                lemma_nib_hex_digit(d.codes[n - 1 - k] as nat % 16);
            }
        }
    }

    // The checksum bytes decode back.
    assert(Seq::new(cs as nat, |i: int| byte_at_swapped(body, i) as u8) =~= d.checksum) by {
        assert forall|i: int| 0 <= i < cs implies byte_at_swapped(body, i) as u8
            == d.checksum[i] by {
            lemma_swapped_hex_index(d.checksum, i);
            assert(body[2 * i] == b1[2 * i]);
            assert(body[2 * i + 1] == b1[2 * i + 1]);
            lemma_nib_hex_digit(d.checksum[i] as nat % 16);
            lemma_nib_hex_digit(d.checksum[i] as nat / 16 % 16);
        }
    }

    // The length code decodes back.
    assert(body[2 * cs] == b2[0]);
    assert(body[2 * cs + 1] == b2[1]);
    lemma_nib_hex_digit(d.len_code % 16);
    lemma_nib_hex_digit(d.len_code / 16 % 16);
    assert(byte_at_swapped(body, cs) == d.len_code);

    // The ratio nibbles decode back.
    assert(body[2 * cs + 2] == b3[0]);
    assert(body[2 * cs + 3] == b3[1]);
    lemma_nib_hex_digit(rb / 16 % 16);
    lemma_nib_hex_digit(rb % 16);
    assert(rb / 16 == d.q1ratio);
    assert(rb % 16 == d.q2ratio);

    // The body bytes decode back, undoing the reversal.
    let tail = body.skip(2 * cs + 4);
    assert(tail =~= b4);
    assert(Seq::new(n as nat, |i: int| byte_at(tail, n - 1 - i) as u8) =~= d.codes) by {
        assert forall|i: int| 0 <= i < n implies byte_at(tail, n - 1 - i) as u8 == d.codes[i] by {
            lemma_reversed_hex_index(d.codes, n - 1 - i);
            lemma_nib_hex_digit(d.codes[i] as nat / 16 % 16);
            lemma_nib_hex_digit(d.codes[i] as nat % 16);
        }
    }
}

/// The hex value of the character at position `i`, or 16 if it is not an
/// uppercase hex digit.
fn nibble_at(s: &str, i: usize) -> (v: u8)
    requires
        i < s@.len(),
    ensures
        v == nib(s@[i as int]),
{
    let c = s.get_char(i);
    match c {
        '0' => 0,
        '1' => 1,
        '2' => 2,
        '3' => 3,
        '4' => 4,
        '5' => 5,
        '6' => 6,
        '7' => 7,
        '8' => 8,
        '9' => 9,
        'A' => 10,
        'B' => 11,
        'C' => 12,
        'D' => 13,
        'E' => 14,
        'F' => 15,
        _ => 16,
    }
}

impl Tlsh {
    /// Parses a hash string back into a digest, exactly as `spec_decode`
    /// reads it: the inverse of `hash` on every well-formed digest.
    pub fn from_hash(s: &str) -> (r: Result<Tlsh, TlshError>)
        ensures
            r matches Ok(d) ==> d.wf() && spec_decode(s@) == Ok::<DigestState, TlshError>(d@),
            r matches Err(e) ==> spec_decode(s@) == Err::<DigestState, TlshError>(e),
    {
        let n = s.unicode_len();
        let has_prefix = n >= 2 && s.get_char(0) == 'T' && s.get_char(1) == '1';
        let start: usize = if has_prefix {
            2
        } else {
            0
        };
        let ver = if has_prefix {
            Version::Version4
        } else {
            Version::Original
        };
        let ghost body = if has_prefix {
            s@.skip(2)
        } else {
            s@
        };

        let blen = n - start;
        if !(blen == 70 || blen == 74 || blen == 134 || blen == 138) {
            return Err(TlshError::InvalidHashValue);
        }
        let cs_len: usize = if blen == 70 || blen == 134 {
            1
        } else {
            3
        };
        let code_size: usize = if blen < 100 {
            32
        } else {
            64
        };
        proof {
            assert(frame_ok(
                s@,
                start as int,
                blen as int,
                cs_len as int,
                code_size as int,
                ver,
                body,
            ));
        }

        let mut checksum: Vec<u8> = Vec::new();
        let mut i: usize = 0;
        while i < cs_len
            invariant
                i <= cs_len <= 3,
                frame_ok(s@, start as int, blen as int, cs_len as int, code_size as int, ver, body),
                checksum@.len() == i,
                forall|k: int|
                    0 <= k < i ==> is_hex(#[trigger] body[2 * k]) && is_hex(body[2 * k + 1])
                        && checksum@[k] == byte_at_swapped(body, k) as u8,
            decreases cs_len - i,
        {
            let lo = nibble_at(s, start + 2 * i);
            let hi = nibble_at(s, start + 2 * i + 1);
            proof {
                assert(body[2 * i] == s@[start + 2 * i]);
                assert(body[2 * i + 1] == s@[start + 2 * i + 1]);
            }
            if lo >= 16 || hi >= 16 {
                proof {
                    let w: int = if lo >= 16 {
                        2 * i
                    } else {
                        2 * i + 1
                    };
                    lemma_decode_err_hex(
                        s@,
                        start as int,
                        blen as int,
                        cs_len as int,
                        code_size as int,
                        ver,
                        body,
                        w,
                    );
                }
                return Err(TlshError::ParseHexFailed);
            }
            let ghost cs_old = checksum@;
            checksum.push(hi * 16 + lo);
            proof {
                assert(is_hex(body[2 * i]));
                assert(is_hex(body[2 * i + 1]));
                assert(checksum@[i as int] == byte_at_swapped(body, i as int) as u8);
                assert forall|k: int|
                    0 <= k < i + 1 implies is_hex(#[trigger] body[2 * k]) && is_hex(
                    body[2 * k + 1],
                ) && checksum@[k] == byte_at_swapped(body, k) as u8 by {
                    if k < i {
                        assert(is_hex(body[2 * k]) && is_hex(body[2 * k + 1]) && cs_old[k]
                            == byte_at_swapped(body, k) as u8);
                        assert(checksum@[k] == cs_old[k]);
                    }
                }
            }
            i = i + 1;
        }

        let lo = nibble_at(s, start + 2 * cs_len);
        let hi = nibble_at(s, start + 2 * cs_len + 1);
        proof {
            assert(body[2 * cs_len] == s@[start + 2 * cs_len]);
            assert(body[2 * cs_len + 1] == s@[start + 2 * cs_len + 1]);
        }
        if lo >= 16 || hi >= 16 {
            proof {
                let w: int = if lo >= 16 {
                    2 * cs_len as int
                } else {
                    2 * cs_len + 1
                };
                lemma_decode_err_hex(
                    s@,
                    start as int,
                    blen as int,
                    cs_len as int,
                    code_size as int,
                    ver,
                    body,
                    w,
                );
            }
            return Err(TlshError::ParseHexFailed);
        }
        let len_code: usize = (hi as usize) * 16 + (lo as usize);

        let q1n = nibble_at(s, start + 2 * cs_len + 2);
        let q2n = nibble_at(s, start + 2 * cs_len + 3);
        proof {
            assert(body[2 * cs_len + 2] == s@[start + 2 * cs_len + 2]);
            assert(body[2 * cs_len + 3] == s@[start + 2 * cs_len + 3]);
        }
        if q1n >= 16 || q2n >= 16 {
            proof {
                let w: int = if q1n >= 16 {
                    2 * cs_len + 2
                } else {
                    2 * cs_len + 3
                };
                lemma_decode_err_hex(
                    s@,
                    start as int,
                    blen as int,
                    cs_len as int,
                    code_size as int,
                    ver,
                    body,
                    w,
                );
            }
            return Err(TlshError::ParseHexFailed);
        }

        let offset = start + 2 * cs_len + 4;
        let mut rev: Vec<u8> = Vec::new();
        let mut k: usize = 0;
        while k < code_size
            invariant
                k <= code_size <= 64,
                frame_ok(s@, start as int, blen as int, cs_len as int, code_size as int, ver, body),
                offset == start + 2 * cs_len + 4,
                rev@.len() == k,
                forall|j: int|
                    0 <= j < k ==> is_hex(#[trigger] body[2 * cs_len + 4 + 2 * j]) && is_hex(
                        body[2 * cs_len + 4 + 2 * j + 1],
                    ) && rev@[j] == byte_at(body.skip(2 * cs_len + 4), j) as u8,
            decreases code_size - k,
        {
            let chi = nibble_at(s, offset + 2 * k);
            let clo = nibble_at(s, offset + 2 * k + 1);
            proof {
                assert(body[2 * cs_len + 4 + 2 * k] == s@[start + 2 * cs_len + 4 + 2 * k]);
                assert(body[2 * cs_len + 4 + 2 * k + 1] == s@[start + 2 * cs_len + 4 + 2 * k + 1]);
            }
            if chi >= 16 || clo >= 16 {
                proof {
                    let w: int = if chi >= 16 {
                        2 * cs_len + 4 + 2 * k
                    } else {
                        2 * cs_len + 4 + 2 * k + 1
                    };
                    lemma_decode_err_hex(
                        s@,
                        start as int,
                        blen as int,
                        cs_len as int,
                        code_size as int,
                        ver,
                        body,
                        w,
                    );
                }
                return Err(TlshError::ParseHexFailed);
            }
            let ghost rev_old = rev@;
            rev.push(chi * 16 + clo);
            proof {
                let tail = body.skip(2 * cs_len + 4);
                assert(tail[2 * k] == body[2 * cs_len + 4 + 2 * k]);
                assert(tail[2 * k + 1] == body[2 * cs_len + 4 + 2 * k + 1]);
                assert(is_hex(body[2 * cs_len + 4 + 2 * k]));
                assert(is_hex(body[2 * cs_len + 4 + 2 * k + 1]));
                assert(rev@[k as int] == byte_at(tail, k as int) as u8);
                assert forall|j: int|
                    0 <= j < k + 1 implies is_hex(#[trigger] body[2 * cs_len + 4 + 2 * j])
                    && is_hex(body[2 * cs_len + 4 + 2 * j + 1]) && rev@[j] == byte_at(
                    body.skip(2 * cs_len + 4),
                    j,
                ) as u8 by {
                    if j < k {
                        assert(is_hex(body[2 * cs_len + 4 + 2 * j]) && is_hex(
                            body[2 * cs_len + 4 + 2 * j + 1],
                        ) && rev_old[j] == byte_at(body.skip(2 * cs_len + 4), j) as u8);
                        assert(rev@[j] == rev_old[j]);
                    }
                }
            }
            k = k + 1;
        }

        let mut codes: Vec<u8> = Vec::new();
        let mut j: usize = 0;
        while j < code_size
            invariant
                j <= code_size == rev@.len(),
                frame_ok(s@, start as int, blen as int, cs_len as int, code_size as int, ver, body),
                offset == start + 2 * cs_len + 4,
                codes@.len() == j,
                forall|m: int|
                    0 <= m < j ==> #[trigger] codes@[m] == rev@[code_size - 1 - m],
            decreases code_size - j,
        {
            codes.push(rev[code_size - 1 - j]);
            j = j + 1;
        }

        let d = Tlsh::from_parts(ver, checksum, len_code, q1n as u32, q2n as u32, codes);
        proof {
            assert forall|ii: int| 0 <= ii < body.len() implies is_hex(#[trigger] body[ii]) by {
                if ii < 2 * cs_len {
                    let kk = ii / 2;
                    assert(is_hex(body[2 * kk]) && is_hex(body[2 * kk + 1]));
                } else if ii >= 2 * cs_len + 4 {
                    let jj = (ii - (2 * cs_len + 4)) / 2;
                    assert(0 <= jj < code_size);
                    assert(is_hex(body[2 * cs_len + 4 + 2 * jj]));
                    assert(is_hex(body[2 * cs_len + 4 + 2 * jj + 1]));
                }
            }
            let sd = spec_decode(s@);
            let cs = cs_len as int;
            assert(d@.checksum =~= Seq::new(cs as nat, |ii: int| byte_at_swapped(body, ii) as u8));
            assert forall|ii: int| 0 <= ii < code_size implies #[trigger] codes@[ii] == byte_at(
                body.skip(2 * cs + 4),
                code_size - 1 - ii,
            ) as u8 by {
                let jx = code_size - 1 - ii;
                assert(is_hex(body[2 * cs_len + 4 + 2 * jx]));
                assert(rev@[jx] == byte_at(body.skip(2 * cs_len + 4), jx) as u8);
                assert(codes@[ii] == rev@[code_size - 1 - ii]);
            }
            assert(d@.codes =~= Seq::new(
                code_size as nat,
                |ii: int| byte_at(body.skip(2 * cs + 4), code_size - 1 - ii) as u8,
            ));
            assert(sd == Ok::<DigestState, TlshError>(d@));
        }
        Ok(d)
    }
}

} // verus!
