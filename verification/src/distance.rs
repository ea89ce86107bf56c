//! The pairwise distance between two digests.
//!
//! The distance sums four independent contributions: a convex penalty on the
//! circular difference of the length codes (only when requested), one point
//! if the leading checksum bytes differ, a convex penalty on the circular
//! difference of each quantile ratio, and the dominant body term: for every
//! aligned pair of two-bit symbols, their absolute difference, counted as
//! six when the symbols are the extremes 0 and 3.

use vstd::prelude::*;
use crate::digest::{DigestState, Tlsh};

verus! {

/// Circular distance between `a` and `b` on a cycle of size `m`.
pub open spec fn mod_diff(a: int, b: int, m: int) -> int {
    let d = if a >= b {
        a - b
    } else {
        b - a
    };
    if d < m - d {
        d
    } else {
        m - d
    }
}

/// The length contribution: tolerate a one-bucket difference, multiply
/// anything larger by twelve.
pub open spec fn length_distance(a: int, b: int) -> int {
    let ld = mod_diff(a, b, 256);
    if ld <= 1 {
        ld
    } else {
        ld * 12
    }
}

/// The contribution of one quantile ratio: tolerate a difference of one,
/// charge twelve per further step.
pub open spec fn ratio_distance(a: int, b: int) -> int {
    let qd = mod_diff(a, b, 16);
    if qd <= 1 {
        qd
    } else {
        (qd - 1) * 12
    }
}

/// Distance between two two-bit symbols: their absolute difference, with the
/// full swing of three counted as six.
pub open spec fn sym_diff(x: int, y: int) -> int {
    let d = if x >= y {
        x - y
    } else {
        y - x
    };
    if d == 3 {
        6
    } else {
        d
    }
}

/// Distance between two packed body bytes: the sum over their four symbol
/// positions.
pub open spec fn byte_distance(x: u8, y: u8) -> int {
    sym_diff(x as int % 4, y as int % 4) + sym_diff(x as int / 4 % 4, y as int / 4 % 4) + sym_diff(
        x as int / 16 % 4,
        y as int / 16 % 4,
    ) + sym_diff(x as int / 64 % 4, y as int / 64 % 4)
}

/// Distance between two equally long bodies: the sum over aligned byte pairs.
pub open spec fn body_distance(a: Seq<u8>, b: Seq<u8>) -> int
    decreases a.len(),
{
    if a.len() == 0 || a.len() != b.len() {
        0
    } else {
        byte_distance(a.last(), b.last()) + body_distance(a.drop_last(), b.drop_last())
    }
}

/// The whole distance between two digests.
pub open spec fn spec_diff(a: DigestState, b: DigestState, include_len: bool) -> int {
    (if include_len {
        length_distance(a.len_code as int, b.len_code as int)
    } else {
        0
    }) + (if a.checksum[0] == b.checksum[0] {
        0int
    } else {
        1int
    }) + ratio_distance(a.q1ratio as int, b.q1ratio as int) + ratio_distance(
        a.q2ratio as int,
        b.q2ratio as int,
    ) + body_distance(a.codes, b.codes)
}

/// Circular distance between two values below `m`.
fn mod_diff_exec(a: usize, b: usize, m: usize) -> (d: usize)
    requires
        a < m,
        b < m,
    ensures
        d == mod_diff(a as int, b as int, m as int),
        d <= m / 2,
{
    let d = if a >= b {
        a - b
    } else {
        b - a
    };
    if d < m - d {
        d
    } else {
        m - d
    }
}

/// Distance between two two-bit symbols.
fn sym_diff_exec(x: u8, y: u8) -> (d: usize)
    requires
        x < 4,
        y < 4,
    ensures
        d == sym_diff(x as int, y as int),
        d <= 6,
{
    let d = if x >= y {
        x - y
    } else {
        y - x
    };
    if d == 3 {
        6
    } else {
        d as usize
    }
}

/// Distance between two packed body bytes.
fn byte_distance_exec(x: u8, y: u8) -> (d: usize)
    ensures
        d == byte_distance(x, y),
        d <= 24,
{
    sym_diff_exec(x % 4, y % 4) + sym_diff_exec(x / 4 % 4, y / 4 % 4) + sym_diff_exec(
        x / 16 % 4,
        y / 16 % 4,
    ) + sym_diff_exec(x / 64 % 4, y / 64 % 4)
}

impl Tlsh {
    /// The distance between this digest and `other`, optionally charging for
    /// the difference in stream length.  The two digests must come from the
    /// same configuration: equal checksum widths and equal body lengths.
    pub fn diff(&self, other: &Tlsh, include_len: bool) -> (d: usize)
        requires
            self.wf(),
            other.wf(),
            self@.checksum.len() == other@.checksum.len(),
            self@.codes.len() == other@.codes.len(),
        ensures
            d == spec_diff(self@, other@, include_len),
    {
        proof {
            self.lemma_fields();
            other.lemma_fields();
        }
        let mut d: usize = 0;

        if include_len {
            let ld = mod_diff_exec(self.len_code, other.len_code, 256);
            d = if ld <= 1 {
                ld
            } else {
                ld * 12
            };
        }

        if self.checksum[0] != other.checksum[0] {
            d = d + 1;
        }

        let q1d = mod_diff_exec(self.q1ratio as usize, other.q1ratio as usize, 16);
        d = d + (if q1d <= 1 {
            q1d
        } else {
            (q1d - 1) * 12
        });
        let q2d = mod_diff_exec(self.q2ratio as usize, other.q2ratio as usize, 16);
        d = d + (if q2d <= 1 {
            q2d
        } else {
            (q2d - 1) * 12
        });

        let ghost head = d as int;
        let n = self.codes.len();
        let mut ii: usize = 0;
        while ii < n
            invariant
                ii <= n == self.codes@.len(),
                n == other.codes@.len(),
                n <= 64,
                head <= 3000,
                d == head + body_distance(
                    self.codes@.take(ii as int),
                    other.codes@.take(ii as int),
                ),
                d <= head + 24 * ii,
            decreases n - ii,
        {
            let bd = byte_distance_exec(self.codes[ii], other.codes[ii]);
            proof {
                lemma_body_distance_bound(
                    self.codes@.take(ii as int),
                    other.codes@.take(ii as int),
                );
                assert(self.codes@.take(ii + 1 as int).drop_last() =~= self.codes@.take(ii as int));
                assert(other.codes@.take(ii + 1 as int).drop_last() =~= other.codes@.take(
                    ii as int,
                ));
            }
            d = d + bd;
            ii = ii + 1;
        }
        proof {
            self.lemma_fields();
            other.lemma_fields();
            assert(self.codes@.take(n as int) =~= self.codes@);
            assert(other.codes@.take(n as int) =~= other.codes@);
        }

        d
    }
}

/// A digest is at distance zero from itself, with or without the length
/// contribution.
pub proof fn lemma_diff_self(d: DigestState, include_len: bool)
    requires
        d.wf(),
    ensures
        spec_diff(d, d, include_len) == 0,
{
    lemma_body_distance_self(d.codes);
}

proof fn lemma_body_distance_self(a: Seq<u8>)
    ensures
        body_distance(a, a) == 0,
    decreases a.len(),
{
    if a.len() > 0 {
        lemma_body_distance_self(a.drop_last());
    }
}

/// The distance is symmetric in its two digests.
pub proof fn lemma_diff_symmetric(a: DigestState, b: DigestState, include_len: bool)
    ensures
        spec_diff(a, b, include_len) == spec_diff(b, a, include_len),
{
    lemma_body_distance_symmetric(a.codes, b.codes);
}

proof fn lemma_body_distance_symmetric(a: Seq<u8>, b: Seq<u8>)
    ensures
        body_distance(a, b) == body_distance(b, a),
    decreases a.len(),
{
    if a.len() > 0 && a.len() == b.len() {
        lemma_body_distance_symmetric(a.drop_last(), b.drop_last());
    }
}

/// When the length codes differ, including the length contribution never
/// shrinks the distance: the length penalty is non-negative.
pub proof fn lemma_diff_len_monotone(a: DigestState, b: DigestState)
    requires
        a.wf(),
        b.wf(),
        a.len_code != b.len_code,
    ensures
        spec_diff(a, b, true) >= spec_diff(a, b, false),
{
}

/// The body distance never exceeds twenty-four per byte pair.
proof fn lemma_body_distance_bound(a: Seq<u8>, b: Seq<u8>)
    ensures
        0 <= body_distance(a, b) <= 24 * a.len(),
    decreases a.len(),
{
    if a.len() != 0 && a.len() == b.len() {
        lemma_body_distance_bound(a.drop_last(), b.drop_last());
        lemma_byte_distance_bound(a.last(), b.last());
    }
}

/// One byte pair contributes between zero and twenty-four.
proof fn lemma_byte_distance_bound(x: u8, y: u8)
    ensures
        0 <= byte_distance(x, y) <= 24,
{
}

} // verus!
