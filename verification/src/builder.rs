//! Streaming accumulation of histogram, checksum and window state.
//!
//! A `TlshBuilder` consumes a byte stream in chunks of any size.  Its whole
//! behaviour is modelled by the spec-level state machine `process_bytes`: the
//! builder's state after any sequence of `update` / `update_from` calls is
//! the fold of `process_byte` over the bytes fed so far, independent of how
//! the stream was split into chunks.

use vstd::prelude::*;
use crate::digest::{DigestState, Tlsh, spec_build, spec_code_byte, spec_codes, spec_symbol};
use crate::error::TlshError;
use crate::length::{l_capturing, lemma_length_code_props};
use crate::quartiles::find_quartiles;
use crate::tables::spec_b_mapping;
use crate::tables::b_mapping;

verus! {

/// Number of buckets kept by the histogram for the widest configuration.
pub const BUCKET_SIZE: usize = 256;

/// Size of the sliding window over the most recent input bytes.
pub const WINDOW_SIZE: usize = 5;

/// How many histogram buckets a digest quantizes.
#[derive(Clone, Copy, Debug, Hash, PartialEq, Eq, Structural)]
pub enum BucketKind {
    /// 128 buckets: the compact digest.
    Bucket128,
    /// 256 buckets: the wide digest.
    Bucket256,
}

impl BucketKind {
    /// Returns the number of buckets.
    pub fn bucket_count(&self) -> (n: usize)
        ensures
            n == spec_bucket_count(*self),
    {
        match self {
            BucketKind::Bucket128 => 128,
            BucketKind::Bucket256 => 256,
        }
    }
}

/// The number of buckets selected by a `BucketKind`.
pub open spec fn spec_bucket_count(b: BucketKind) -> nat {
    match b {
        BucketKind::Bucket128 => 128,
        BucketKind::Bucket256 => 256,
    }
}

/// How many checksum bytes a digest carries.
#[derive(Clone, Copy, Debug, Hash, PartialEq, Eq, Structural)]
pub enum ChecksumKind {
    /// One checksum byte.
    OneByte,
    /// Three chained checksum bytes, for a lower collision rate.
    ThreeByte,
}

impl ChecksumKind {
    /// Returns the length of the checksum in bytes.
    pub fn checksum_len(&self) -> (n: usize)
        ensures
            n == spec_checksum_len(*self),
    {
        match self {
            ChecksumKind::OneByte => 1,
            ChecksumKind::ThreeByte => 3,
        }
    }
}

/// The checksum width selected by a `ChecksumKind`.
pub open spec fn spec_checksum_len(c: ChecksumKind) -> nat {
    match c {
        ChecksumKind::OneByte => 1,
        ChecksumKind::ThreeByte => 3,
    }
}

/// The hash-string format version.
#[derive(Clone, Copy, Debug, Hash, PartialEq, Eq, Structural)]
pub enum Version {
    /// Original format: no prefix on the hash string.
    Original,
    /// Current format: the hash string starts with `T1`.
    Version4,
}

impl Version {
    /// The prefix this version puts in front of a hash string.
    pub fn ver(&self) -> (s: &'static str)
        ensures
            s@ == spec_ver_prefix(*self),
    {
        proof {
            reveal_strlit("");
            reveal_strlit("T1");
        }
        match self {
            Version::Original => "",
            Version::Version4 => "T1",
        }
    }
}

/// The hash-string prefix of a format version.
pub open spec fn spec_ver_prefix(v: Version) -> Seq<char> {
    match v {
        Version::Original => Seq::<char>::empty(),
        Version::Version4 => seq!['T', '1'],
    }
}

/// The abstract state of a builder: its configuration and everything the
/// stream fed so far has accumulated.
pub struct BuilderState {
    /// Number of meaningful histogram buckets (128 or 256).
    pub bucket_count: nat,
    /// Checksum width in bytes (1 or 3).
    pub checksum_len: nat,
    /// Format version the finalized digest will carry.
    pub ver: Version,
    /// The 256 histogram counters (only the first `bucket_count` meaningful).
    pub buckets: Seq<u32>,
    /// The single-byte rolling checksum.
    pub checksum: u8,
    /// The chained checksum bytes (length `checksum_len`).
    pub checksum_array: Seq<u8>,
    /// The five most recent input bytes, indexed by stream position mod 5.
    pub window: Seq<u8>,
    /// Total number of bytes fed across all updates.
    pub data_len: nat,
}

impl BuilderState {
    /// Structural well-formedness: configuration in range, buffers sized.
    pub open spec fn wf(self) -> bool {
        &&& (self.bucket_count == 128 || self.bucket_count == 256)
        &&& (self.checksum_len == 1 || self.checksum_len == 3)
        &&& self.buckets.len() == 256
        &&& self.checksum_array.len() == self.checksum_len
        &&& self.window.len() == 5
    }
}

/// The zeroed state a freshly constructed (or reset) builder is in.
pub open spec fn init_state(bucket_count: nat, checksum_len: nat, ver: Version) -> BuilderState {
    BuilderState {
        bucket_count: bucket_count,
        checksum_len: checksum_len,
        ver: ver,
        buckets: Seq::new(256, |i: int| 0u32),
        checksum: 0,
        checksum_array: Seq::new(checksum_len, |i: int| 0u8),
        window: Seq::new(5, |i: int| 0u8),
        data_len: 0,
    }
}

/// A histogram counter after one more hit; counters wrap at the integer
/// boundary rather than fail, so feeding bytes never errors.
pub open spec fn wrap_inc(c: u32) -> u32 {
    if c == u32::MAX {
        0
    } else {
        (c + 1) as u32
    }
}

/// The histogram after one hit on bucket `r`.
pub open spec fn bump(b: Seq<u32>, r: u8) -> Seq<u32> {
    b.update(r as int, wrap_inc(b[r as int]))
}

/// Re-hash the chained checksum bytes from slot `k` upward: each slot is
/// salted with its predecessor's already-updated value.
pub open spec fn chain_step(arr: Seq<u8>, k: int, x: u8, y: u8) -> Seq<u8>
    decreases arr.len() - k,
{
    if k < 1 || k >= arr.len() {
        arr
    } else {
        chain_step(arr.update(k, spec_b_mapping(arr[k - 1], x, y, arr[k])), k + 1, x, y)
    }
}

/// One step of the stream state machine: store the byte into the window and,
/// once four earlier bytes exist, fold it into the checksum and six salted
/// triplet buckets.
pub open spec fn process_byte(st: BuilderState, b: u8) -> BuilderState {
    let j0 = st.data_len % 5;
    let j1 = (j0 + 4) % 5;
    let j2 = (j0 + 3) % 5;
    let j3 = (j0 + 2) % 5;
    let j4 = (j0 + 1) % 5;
    let w = st.window.update(j0 as int, b);
    if st.data_len >= 4 {
        let c = spec_b_mapping(0, w[j0 as int], w[j1 as int], st.checksum);
        let arr = if st.checksum_len > 1 {
            chain_step(st.checksum_array.update(0, c), 1, w[j0 as int], w[j1 as int])
        } else {
            st.checksum_array
        };
        let b1 = bump(st.buckets, spec_b_mapping(2, w[j0 as int], w[j1 as int], w[j2 as int]));
        let b2 = bump(b1, spec_b_mapping(3, w[j0 as int], w[j1 as int], w[j3 as int]));
        let b3 = bump(b2, spec_b_mapping(5, w[j0 as int], w[j2 as int], w[j3 as int]));
        let b4 = bump(b3, spec_b_mapping(7, w[j0 as int], w[j2 as int], w[j4 as int]));
        let b5 = bump(b4, spec_b_mapping(11, w[j0 as int], w[j1 as int], w[j4 as int]));
        let b6 = bump(b5, spec_b_mapping(13, w[j0 as int], w[j3 as int], w[j4 as int]));
        BuilderState {
            buckets: b6,
            checksum: c,
            checksum_array: arr,
            window: w,
            data_len: st.data_len + 1,
            ..st
        }
    } else {
        BuilderState { window: w, data_len: st.data_len + 1, ..st }
    }
}

/// The stream state machine folded over a whole byte sequence.
pub open spec fn process_bytes(st: BuilderState, bytes: Seq<u8>) -> BuilderState
    decreases bytes.len(),
{
    if bytes.len() == 0 {
        st
    } else {
        process_byte(process_bytes(st, bytes.drop_last()), bytes.last())
    }
}

/// Processing a byte keeps the configuration, the buffer sizes and the
/// byte-count bookkeeping intact.
pub proof fn lemma_process_byte_wf(st: BuilderState, b: u8)
    requires
        st.wf(),
    ensures
        process_byte(st, b).wf(),
        process_byte(st, b).bucket_count == st.bucket_count,
        process_byte(st, b).checksum_len == st.checksum_len,
        process_byte(st, b).ver == st.ver,
        process_byte(st, b).data_len == st.data_len + 1,
{
    lemma_chain_step_len(st.checksum_array.update(0, 0u8), 1, 0, 0);
    let j0 = st.data_len % 5;
    let w = st.window.update(j0 as int, b);
    if st.data_len >= 4 && st.checksum_len > 1 {
        let c = spec_b_mapping(0, w[j0 as int], w[((j0 + 4) % 5) as int], st.checksum);
        lemma_chain_step_len(
            st.checksum_array.update(0, c),
            1,
            w[j0 as int],
            w[((j0 + 4) % 5) as int],
        );
    }
}

proof fn lemma_chain_step_len(arr: Seq<u8>, k: int, x: u8, y: u8)
    ensures
        chain_step(arr, k, x, y).len() == arr.len(),
    decreases arr.len() - k,
{
    if 1 <= k < arr.len() {
        lemma_chain_step_len(arr.update(k, spec_b_mapping(arr[k - 1], x, y, arr[k])), k + 1, x, y);
    }
}

/// Processing a whole sequence keeps well-formedness and advances the byte
/// count by the sequence's length.
pub proof fn lemma_process_bytes_wf(st: BuilderState, bytes: Seq<u8>)
    requires
        st.wf(),
    ensures
        process_bytes(st, bytes).wf(),
        process_bytes(st, bytes).bucket_count == st.bucket_count,
        process_bytes(st, bytes).checksum_len == st.checksum_len,
        process_bytes(st, bytes).ver == st.ver,
        process_bytes(st, bytes).data_len == st.data_len + bytes.len(),
    decreases bytes.len(),
{
    if bytes.len() > 0 {
        lemma_process_bytes_wf(st, bytes.drop_last());
        lemma_process_byte_wf(process_bytes(st, bytes.drop_last()), bytes.last());
    }
}

/// Chunk-boundary invariance: feeding `a` then `b` reaches the same state as
/// feeding their concatenation in one piece, so a stream may be split into
/// chunks arbitrarily without changing the digest.
pub proof fn lemma_process_bytes_concat(st: BuilderState, a: Seq<u8>, b: Seq<u8>)
    ensures
        process_bytes(st, a + b) == process_bytes(process_bytes(st, a), b),
    decreases b.len(),
{
    if b.len() == 0 {
        assert(a + b =~= a);
    } else {
        lemma_process_bytes_concat(st, a, b.drop_last());
        assert((a + b).drop_last() =~= a + b.drop_last());
        assert((a + b).last() == b.last());
    }
}

/// A sequence of chunks, joined back into one stream.
pub open spec fn concat_all(chunks: Seq<Seq<u8>>) -> Seq<u8>
    decreases chunks.len(),
{
    if chunks.len() == 0 {
        Seq::<u8>::empty()
    } else {
        concat_all(chunks.drop_last()) + chunks.last()
    }
}

/// The state after feeding a sequence of chunks one by one.
pub open spec fn process_chunks(st: BuilderState, chunks: Seq<Seq<u8>>) -> BuilderState
    decreases chunks.len(),
{
    if chunks.len() == 0 {
        st
    } else {
        process_bytes(process_chunks(st, chunks.drop_last()), chunks.last())
    }
}

/// Chunk-boundary invariance for any number of chunks: feeding a stream
/// through arbitrarily many update calls reaches exactly the state of
/// feeding the whole stream at once, so both finalize to the same digest.
pub proof fn lemma_process_chunks_concat(st: BuilderState, chunks: Seq<Seq<u8>>)
    ensures
        process_chunks(st, chunks) == process_bytes(st, concat_all(chunks)),
    decreases chunks.len(),
{
    if chunks.len() > 0 {
        lemma_process_chunks_concat(st, chunks.drop_last());
        lemma_process_bytes_concat(st, concat_all(chunks.drop_last()), chunks.last());
    }
}

/// A builder accumulating one logical byte stream.
///
/// The abstract value of a builder (its `view`) is a `BuilderState`; every
/// mutating operation states, in terms of `process_bytes`, exactly which
/// state it moves the builder to.
#[derive(Clone, Debug, Hash)]
pub struct TlshBuilder {
    buckets: Vec<u32>,
    bucket_count: usize,
    checksum: u8,
    checksum_array: Vec<u8>,
    checksum_len: usize,
    code_size: usize,
    data_len: usize,
    slide_window: Vec<u8>,
    ver: Version,
}

impl View for TlshBuilder {
    type V = BuilderState;

    closed spec fn view(&self) -> BuilderState {
        BuilderState {
            bucket_count: self.bucket_count as nat,
            checksum_len: self.checksum_len as nat,
            ver: self.ver,
            buckets: self.buckets@,
            checksum: self.checksum,
            checksum_array: self.checksum_array@,
            window: self.slide_window@,
            data_len: self.data_len as nat,
        }
    }
}

impl TlshBuilder {
    /// The builder's buffers agree with its configuration.
    pub closed spec fn wf(&self) -> bool {
        &&& self@.wf()
        &&& self.code_size == self.bucket_count / 4
    }

    /// Constructs a zeroed builder for the given bucket width, checksum
    /// width and format version.
    pub fn new(bucket: BucketKind, checksum: ChecksumKind, ver: Version) -> (r: TlshBuilder)
        ensures
            r.wf(),
            r@ == init_state(spec_bucket_count(bucket), spec_checksum_len(checksum), ver),
    {
        let bucket_count = bucket.bucket_count();
        let checksum_len = checksum.checksum_len();
        let r = TlshBuilder {
            buckets: vec![0u32; BUCKET_SIZE],
            bucket_count,
            checksum: 0,
            checksum_array: vec![0u8; checksum_len],
            checksum_len,
            code_size: bucket_count / 4,
            data_len: 0,
            slide_window: vec![0u8; WINDOW_SIZE],
            ver,
        };
        proof {
            assert(r@.buckets =~= init_state(r@.bucket_count, r@.checksum_len, ver).buckets);
            assert(r@.checksum_array =~= init_state(
                r@.bucket_count,
                r@.checksum_len,
                ver,
            ).checksum_array);
            assert(r@.window =~= init_state(r@.bucket_count, r@.checksum_len, ver).window);
        }
        r
    }

    /// Returns all mutable state to the zeroed initial state while keeping
    /// the configuration, so the builder can accumulate a fresh stream.
    pub fn reset(&mut self)
        requires
            old(self).wf(),
        ensures
            final(self).wf(),
            final(self)@ == init_state(
                old(self)@.bucket_count,
                old(self)@.checksum_len,
                old(self)@.ver,
            ),
    {
        self.buckets = vec![0u32; BUCKET_SIZE];
        self.checksum = 0;
        self.checksum_array = vec![0u8; self.checksum_len];
        self.data_len = 0;
        self.slide_window = vec![0u8; WINDOW_SIZE];
        proof {
            let st = init_state(self@.bucket_count, self@.checksum_len, self@.ver);
            assert(self@.buckets =~= st.buckets);
            assert(self@.checksum_array =~= st.checksum_array);
            assert(self@.window =~= st.window);
        }
    }

    /// One hit on bucket `r`, wrapping at the counter's integer boundary.
    fn bump_bucket(&mut self, r: u8)
        requires
            old(self).wf(),
        ensures
            final(self).wf(),
            final(self)@ == (BuilderState { buckets: bump(old(self)@.buckets, r), ..old(self)@ }),
    {
        let ri = r as usize;
        let c = self.buckets[ri];
        let c2 = if c == u32::MAX {
            0
        } else {
            c + 1
        };
        self.buckets[ri] = c2;
    }

    /// Feed one byte of the stream: store it into the sliding window and,
    /// past the four-byte cold start, fold it into checksum and histogram.
    fn feed_byte(&mut self, b: u8)
        requires
            old(self).wf(),
            old(self)@.data_len < usize::MAX,
        ensures
            final(self).wf(),
            final(self)@ == process_byte(old(self)@, b),
    {
        let j0 = self.data_len % WINDOW_SIZE;
        let j1 = (j0 + 4) % WINDOW_SIZE;
        let j2 = (j0 + 3) % WINDOW_SIZE;
        let j3 = (j0 + 2) % WINDOW_SIZE;
        let j4 = (j0 + 1) % WINDOW_SIZE;

        self.slide_window[j0] = b;

        if self.data_len >= 4 {
            let w0 = self.slide_window[j0];
            let w1 = self.slide_window[j1];
            let w2 = self.slide_window[j2];
            let w3 = self.slide_window[j3];
            let w4 = self.slide_window[j4];

            self.checksum = b_mapping(0, w0, w1, self.checksum);

            if self.checksum_len > 1 {
                self.checksum_array[0] = self.checksum;
                let ghost st0 = self@;
                let ghost arr1 = self.checksum_array@;
                let mut kk: usize = 1;
                while kk < self.checksum_len
                    invariant
                        self.wf(),
                        1 <= kk <= self.checksum_len == self.checksum_array@.len(),
                        self@ == (BuilderState { checksum_array: self@.checksum_array, ..st0 }),
                        chain_step(self.checksum_array@, kk as int, w0, w1) == chain_step(
                            arr1,
                            1,
                            w0,
                            w1,
                        ),
                    decreases self.checksum_len - kk,
                {
                    let v = b_mapping(
                        self.checksum_array[kk - 1],
                        w0,
                        w1,
                        self.checksum_array[kk],
                    );
                    self.checksum_array[kk] = v;
                    kk = kk + 1;
                }
            }

            self.bump_bucket(b_mapping(2, w0, w1, w2));
            self.bump_bucket(b_mapping(3, w0, w1, w3));
            self.bump_bucket(b_mapping(5, w0, w2, w3));
            self.bump_bucket(b_mapping(7, w0, w2, w4));
            self.bump_bucket(b_mapping(11, w0, w1, w4));
            self.bump_bucket(b_mapping(13, w0, w3, w4));
        }

        self.data_len = self.data_len + 1;
    }

    /// Reads `len` bytes of `data` starting at `offset` and feeds them to
    /// the stream: the builder ends in exactly the state the stream model
    /// assigns to those bytes, whatever earlier calls fed.
    pub fn update_from(&mut self, data: &[u8], offset: usize, len: usize)
        requires
            old(self).wf(),
            offset + len <= data@.len(),
            old(self)@.data_len + len <= usize::MAX,
        ensures
            final(self).wf(),
            final(self)@ == process_bytes(
                old(self)@,
                data@.subrange(offset as int, offset + len),
            ),
    {
        let total = data.len();
        proof {
            assert(offset + len <= total);
            assert(data@.subrange(offset as int, offset as int) =~= Seq::<u8>::empty());
        }
        let mut ii: usize = offset;
        while ii < offset + len
            invariant
                offset <= ii <= offset + len,
                offset + len <= data@.len() <= usize::MAX,
                old(self).wf(),
                self.wf(),
                old(self)@.data_len + len <= usize::MAX,
                self@ == process_bytes(old(self)@, data@.subrange(offset as int, ii as int)),
            decreases offset + len - ii,
        {
            proof {
                lemma_process_bytes_wf(
                    old(self)@,
                    data@.subrange(offset as int, ii as int),
                );
            }
            let b = data[ii];
            self.feed_byte(b);
            proof {
                assert(data@.subrange(offset as int, ii + 1 as int).drop_last() =~= data@.subrange(
                    offset as int,
                    ii as int,
                ));
                assert(data@.subrange(offset as int, ii + 1 as int).last() == data@[ii as int]);
            }
            ii = ii + 1;
        }
    }

    /// The bucket count's quantization symbol against the three quartiles.
    fn symbol(c: u32, q1: u32, q2: u32, q3: u32) -> (s: u8)
        ensures
            s == spec_symbol(c, q1, q2, q3),
            s <= 3,
    {
        if q3 < c {
            3
        } else if q2 < c {
            2
        } else if q1 < c {
            1
        } else {
            0
        }
    }

    /// Finalizes the accumulated state into a digest, exactly as
    /// `spec_build` maps the builder's abstract state to a digest or to the
    /// error that makes finalizing impossible.  The builder is unchanged and
    /// may keep accumulating.
    pub fn build(&self) -> (r: Result<Tlsh, TlshError>)
        requires
            self.wf(),
        ensures
            r matches Ok(d) ==> d.wf() && spec_build(self@) == Ok::<DigestState, TlshError>(d@),
            r matches Err(e) ==> spec_build(self@) == Err::<DigestState, TlshError>(e),
    {
        let qs = find_quartiles(&self.buckets, self.bucket_count);
        let q1 = qs.0;
        let q2 = qs.1;
        let q3 = qs.2;

        if q3 == 0 {
            return Err(TlshError::DegenerateHistogram);
        }

        let lc = match l_capturing(self.data_len as u64) {
            Ok(l) => l,
            Err(e) => {
                return Err(e);
            },
        };
        proof {
            lemma_length_code_props(self.data_len as u64);
        }

        let code_size = self.code_size;
        let mut codes: Vec<u8> = Vec::new();
        let mut ii: usize = 0;
        while ii < code_size
            invariant
                self.wf(),
                ii <= code_size == self.bucket_count / 4,
                4 * code_size <= self.buckets@.len(),
                codes@ == spec_codes(self.buckets@, q1, q2, q3, ii as int),
            decreases code_size - ii,
        {
            let s0 = Self::symbol(self.buckets[4 * ii], q1, q2, q3);
            let s1 = Self::symbol(self.buckets[4 * ii + 1], q1, q2, q3);
            let s2 = Self::symbol(self.buckets[4 * ii + 2], q1, q2, q3);
            let s3 = Self::symbol(self.buckets[4 * ii + 3], q1, q2, q3);
            let h = s0 + 4 * s1 + 16 * s2 + 64 * s3;
            codes.push(h);
            proof {
                assert(h == spec_code_byte(self.buckets@, q1, q2, q3, ii as int));
                assert(codes@ =~= spec_codes(self.buckets@, q1, q2, q3, ii + 1 as int));
            }
            ii = ii + 1;
        }

        let mut checksum: Vec<u8> = Vec::new();
        if self.checksum_len == 1 {
            checksum.push(self.checksum);
            proof {
                assert(checksum@ =~= seq![self@.checksum]);
            }
        } else {
            let mut kk: usize = 0;
            while kk < self.checksum_len
                invariant
                    self.wf(),
                    kk <= self.checksum_len == self.checksum_array@.len(),
                    checksum@ == self.checksum_array@.take(kk as int),
                decreases self.checksum_len - kk,
            {
                checksum.push(self.checksum_array[kk]);
                proof {
                    assert(checksum@ =~= self.checksum_array@.take(kk + 1 as int));
                }
                kk = kk + 1;
            }
            proof {
                assert(checksum@ =~= self@.checksum_array);
            }
        }

        let q1r = ((q1 as u64) * 100 / (q3 as u64) % 16) as u32;
        let q2r = ((q2 as u64) * 100 / (q3 as u64) % 16) as u32;

        let d = Tlsh::from_parts(self.ver, checksum, lc, q1r, q2r, codes);
        proof {
            assert(spec_build(self@) == Ok::<DigestState, TlshError>(d@));
        }
        Ok(d)
    }

    /// Feeds a whole slice to the stream, equal to `update_from` over the
    /// slice's full range.
    pub fn update(&mut self, data: &[u8])
        requires
            old(self).wf(),
            old(self)@.data_len + data@.len() <= usize::MAX,
        ensures
            final(self).wf(),
            final(self)@ == process_bytes(old(self)@, data@),
    {
        let n = data.len();
        self.update_from(data, 0, n);
        proof {
            assert(data@.subrange(0, data@.len() as int) =~= data@);
        }
    }
}

} // verus!
