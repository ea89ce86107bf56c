//! The finalized digest and its canonical hex rendering.
//!
//! A `Tlsh` is immutable once produced: a format tag, the checksum bytes, a
//! one-byte length code, two four-bit quantile ratios and the packed
//! two-bit-per-bucket body codes.  `spec_build` says exactly which digest a
//! builder state finalizes to, and `spec_hash_chars` exactly which characters
//! its hash string holds.

use vstd::prelude::*;
use crate::builder::{BuilderState, Version, spec_ver_prefix};
use crate::encode::{
    hex_pair,
    hex_pair_swapped,
    lemma_reversed_hex_cons,
    push_hex_pair,
    push_hex_pair_swapped,
    reversed_hex_of,
    swapped_hex_of,
};
use crate::error::TlshError;
use crate::length::spec_length_code;
use crate::quartiles::spec_quartiles;
use vstd::string::StringExecFns;

verus! {

/// The abstract value of a finalized digest.
pub struct DigestState {
    /// Format version the hash string is rendered under.
    pub ver: Version,
    /// Checksum bytes (one, or three chained).
    pub checksum: Seq<u8>,
    /// The one-byte code of the stream length.
    pub len_code: nat,
    /// `floor(q1 * 100 / q3) mod 16`.
    pub q1ratio: nat,
    /// `floor(q2 * 100 / q3) mod 16`.
    pub q2ratio: nat,
    /// Packed body: one byte per four buckets, two bits per bucket.
    pub codes: Seq<u8>,
}

impl DigestState {
    /// Structural well-formedness of a digest.
    pub open spec fn wf(self) -> bool {
        &&& (self.checksum.len() == 1 || self.checksum.len() == 3)
        &&& (self.codes.len() == 32 || self.codes.len() == 64)
        &&& self.q1ratio < 16
        &&& self.q2ratio < 16
        &&& self.len_code < 256
    }
}

/// The two-bit quantization symbol of one bucket count against the three
/// quartile thresholds, compared strictly.
pub open spec fn spec_symbol(c: u32, q1: u32, q2: u32, q3: u32) -> u8 {
    if q3 < c {
        3
    } else if q2 < c {
        2
    } else if q1 < c {
        1
    } else {
        0
    }
}

/// One packed body byte: the symbols of four consecutive buckets, the first
/// in the two lowest bits.
pub open spec fn spec_code_byte(buckets: Seq<u32>, q1: u32, q2: u32, q3: u32, ii: int) -> u8 {
    (spec_symbol(buckets[4 * ii], q1, q2, q3) + 4 * spec_symbol(buckets[4 * ii + 1], q1, q2, q3)
        + 16 * spec_symbol(buckets[4 * ii + 2], q1, q2, q3) + 64 * spec_symbol(
        buckets[4 * ii + 3],
        q1,
        q2,
        q3,
    )) as u8
}

/// The whole packed body for `code_size` groups of four buckets.
pub open spec fn spec_codes(buckets: Seq<u32>, q1: u32, q2: u32, q3: u32, code_size: int) -> Seq<
    u8,
> {
    Seq::new(code_size as nat, |ii: int| spec_code_byte(buckets, q1, q2, q3, ii))
}

/// The digest a builder state finalizes to: quartiles of the histogram,
/// failure on a degenerate third quartile or an over-long stream, otherwise
/// the quantized body, length code, ratios and checksum copy.
pub open spec fn spec_build(st: BuilderState) -> Result<DigestState, TlshError> {
    let qs = spec_quartiles(st.buckets, st.bucket_count as int);
    let q1 = qs.0;
    let q2 = qs.1;
    let q3 = qs.2;
    if q3 == 0 {
        Err(TlshError::DegenerateHistogram)
    } else {
        match spec_length_code(st.data_len as u64) {
            Option::None => Err(TlshError::DataLenOverflow),
            Option::Some(lc) => Ok(
                DigestState {
                    ver: st.ver,
                    checksum: if st.checksum_len == 1 {
                        seq![st.checksum]
                    } else {
                        st.checksum_array
                    },
                    len_code: lc as nat,
                    q1ratio: ((q1 as nat) * 100 / (q3 as nat)) % 16,
                    q2ratio: ((q2 as nat) * 100 / (q3 as nat)) % 16,
                    codes: spec_codes(st.buckets, q1, q2, q3, st.bucket_count as int / 4),
                },
            ),
        }
    }
}

/// The characters of a digest's hash string: the version prefix, the
/// nibble-swapped checksum and length bytes, the ratio byte, and the body
/// bytes in reverse order.
pub open spec fn spec_hash_chars(d: DigestState) -> Seq<char> {
    spec_ver_prefix(d.ver) + swapped_hex_of(d.checksum) + hex_pair_swapped(d.len_code)
        + hex_pair(d.q1ratio * 16 + d.q2ratio) + reversed_hex_of(d.codes)
}

/// A finalized digest.  Its abstract value (`view`) is a `DigestState`; the
/// digest never changes after construction.
#[derive(Clone, Debug, Hash)]
pub struct Tlsh {
    pub(crate) ver: Version,
    pub(crate) checksum: Vec<u8>,
    pub(crate) len_code: usize,
    pub(crate) q1ratio: u32,
    pub(crate) q2ratio: u32,
    pub(crate) codes: Vec<u8>,
}

/// Two byte vectors hold the same bytes.
fn bytes_eq(a: &Vec<u8>, b: &Vec<u8>) -> (r: bool)
    ensures
        r == (a@ == b@),
{
    if a.len() != b.len() {
        proof {
            assert(a@.len() != b@.len());
        }
        return false;
    }
    let n = a.len();
    let mut ii: usize = 0;
    while ii < n
        invariant
            ii <= n == a@.len() == b@.len(),
            forall|k: int| 0 <= k < ii ==> a@[k] == #[trigger] b@[k],
        decreases n - ii,
    {
        if a[ii] != b[ii] {
            return false;
        }
        ii = ii + 1;
    }
    proof {
        assert(a@ =~= b@);
    }
    true
}

impl PartialEq for Tlsh {
    /// Two digests are equal exactly when every compared field is equal:
    /// equality is a pure function of the digest's fields.
    fn eq(&self, other: &Tlsh) -> (r: bool) {
        let r = self.ver == other.ver && bytes_eq(&self.checksum, &other.checksum)
            && self.len_code == other.len_code && self.q1ratio == other.q1ratio
            && self.q2ratio == other.q2ratio && bytes_eq(&self.codes, &other.codes);
        proof {
            if r {
                assert(self@ =~= other@);
            }
        }
        r
    }
}

impl vstd::std_specs::cmp::PartialEqSpecImpl for Tlsh {
    open spec fn obeys_eq_spec() -> bool {
        true
    }

    open spec fn eq_spec(&self, other: &Tlsh) -> bool {
        self@ == other@
    }
}

impl View for Tlsh {
    type V = DigestState;

    closed spec fn view(&self) -> DigestState {
        DigestState {
            ver: self.ver,
            checksum: self.checksum@,
            len_code: self.len_code as nat,
            q1ratio: self.q1ratio as nat,
            q2ratio: self.q2ratio as nat,
            codes: self.codes@,
        }
    }
}

impl Tlsh {
    /// A digest's concrete fields agree with its abstract value.
    pub open spec fn wf(&self) -> bool {
        self@.wf()
    }

    /// The digest's abstract value is exactly its fields.
    pub(crate) proof fn lemma_fields(&self)
        ensures
            self@ == (DigestState {
                ver: self.ver,
                checksum: self.checksum@,
                len_code: self.len_code as nat,
                q1ratio: self.q1ratio as nat,
                q2ratio: self.q2ratio as nat,
                codes: self.codes@,
            }),
    {
    }

    /// Assembles a digest from already-validated parts.
    pub(crate) fn from_parts(
        ver: Version,
        checksum: Vec<u8>,
        len_code: usize,
        q1ratio: u32,
        q2ratio: u32,
        codes: Vec<u8>,
    ) -> (r: Tlsh)
        ensures
            r@ == (DigestState {
                ver,
                checksum: checksum@,
                len_code: len_code as nat,
                q1ratio: q1ratio as nat,
                q2ratio: q2ratio as nat,
                codes: codes@,
            }),
    {
        Tlsh { ver, checksum, len_code, q1ratio, q2ratio, codes }
    }

    /// Renders the digest as its canonical uppercase hex string.
    pub fn hash(&self) -> (s: String)
        requires
            self.wf(),
        ensures
            s@ == spec_hash_chars(self@),
    {
        let mut out = String::new();
        out.append(self.ver.ver());
        let ghost pre0 = spec_ver_prefix(self@.ver);
        proof {
            assert(out@ =~= pre0);
        }

        let mut ii: usize = 0;
        let cn = self.checksum.len();
        while ii < cn
            invariant
                ii <= cn == self.checksum@.len(),
                out@ == pre0 + swapped_hex_of(self.checksum@.take(ii as int)),
            decreases cn - ii,
        {
            push_hex_pair_swapped(&mut out, self.checksum[ii]);
            proof {
                assert(self.checksum@.take(ii + 1 as int).drop_last() =~= self.checksum@.take(
                    ii as int,
                ));
                assert(out@ =~= pre0 + swapped_hex_of(self.checksum@.take(ii + 1 as int)));
            }
            ii = ii + 1;
        }
        let ghost pre1 = pre0 + swapped_hex_of(self@.checksum);
        proof {
            assert(self.checksum@.take(cn as int) =~= self.checksum@);
        }

        push_hex_pair_swapped(&mut out, self.len_code as u8);
        let ghost pre2 = pre1 + hex_pair_swapped(self@.len_code);
        proof {
            assert(out@ =~= pre2);
        }

        let ratio_byte = (self.q1ratio as u8) * 16 + (self.q2ratio as u8);
        push_hex_pair(&mut out, ratio_byte);
        let ghost pre3 = pre2 + hex_pair(self@.q1ratio * 16 + self@.q2ratio);
        proof {
            assert(out@ =~= pre3);
        }

        let n = self.codes.len();
        let mut jj: usize = 0;
        while jj < n
            invariant
                jj <= n == self.codes@.len(),
                out@ == pre3 + reversed_hex_of(self.codes@.skip(n - jj)),
            decreases n - jj,
        {
            push_hex_pair(&mut out, self.codes[n - 1 - jj]);
            proof {
                let tail = self.codes@.skip(n - jj - 1);
                assert(tail.len() > 0);
                lemma_reversed_hex_cons(tail);
                assert(tail.drop_first() =~= self.codes@.skip(n - jj));
                assert(tail.first() == self.codes@[n - 1 - jj]);
                assert(out@ =~= pre3 + reversed_hex_of(self.codes@.skip(n - jj - 1)));
            }
            jj = jj + 1;
        }
        proof {
            assert(self.codes@.skip(0) =~= self.codes@);
            assert(out@ =~= spec_hash_chars(self@));
        }

        out
    }
}

} // verus!
