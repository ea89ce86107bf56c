//! Mapping a raw stream length to its one-byte length code.
//!
//! The length code of a stream is the index of the smallest entry of
//! `TOP_VAL` that is at least the stream's byte count; streams longer than
//! the last boundary have no code and are rejected.

use vstd::prelude::*;
use crate::error::TlshError;
use crate::tables::{TOP_VAL, TOP_VAL_LEN, lemma_top_val_lt};

verus! {

/// The smallest index `i` in `i0..170` with `len <= TOP_VAL[i]`, if any.
pub open spec fn length_code_from(len: u64, i0: int) -> Option<int>
    decreases 170 - i0,
{
    if i0 < 0 || i0 >= 170 {
        None
    } else if len <= TOP_VAL[i0] {
        Some(i0)
    } else {
        length_code_from(len, i0 + 1)
    }
}

/// The length code of a stream of `len` bytes: the smallest index whose
/// boundary is at least `len`, or `None` when the stream is too long.
pub open spec fn spec_length_code(len: u64) -> Option<int> {
    length_code_from(len, 0)
}

proof fn lemma_length_code_from_props(len: u64, i0: int)
    requires
        0 <= i0 <= 170,
    ensures
        match length_code_from(len, i0) {
            Some(i) => i0 <= i < 170 && len <= TOP_VAL[i] && (forall|j: int|
                i0 <= j < i ==> len > #[trigger] TOP_VAL[j]),
            None => forall|j: int| i0 <= j < 170 ==> len > #[trigger] TOP_VAL[j],
        },
    decreases 170 - i0,
{
    if i0 < 170 && len > TOP_VAL[i0] {
        lemma_length_code_from_props(len, i0 + 1);
    }
}

/// What the length code means: it is the unique index whose boundary reaches
/// `len` while every earlier boundary falls short, and it is absent exactly
/// when even the last boundary falls short.
pub proof fn lemma_length_code_props(len: u64)
    ensures
        match spec_length_code(len) {
            Some(i) => 0 <= i < 170 && len <= TOP_VAL[i] && (forall|j: int|
                0 <= j < i ==> len > #[trigger] TOP_VAL[j]),
            None => forall|j: int| 0 <= j < 170 ==> len > #[trigger] TOP_VAL[j],
        },
{
    lemma_length_code_from_props(len, 0);
}

/// Binary search for the length code of a stream of `len` bytes.
///
/// Returns the smallest index whose `TOP_VAL` boundary is at least `len`,
/// and fails exactly when `len` exceeds the last boundary.
pub fn l_capturing(len: u64) -> (r: Result<usize, TlshError>)
    ensures
        match r {
            Ok(i) => spec_length_code(len) == Some(i as int),
            Err(e) => spec_length_code(len) is None && e == TlshError::DataLenOverflow,
        },
{
    proof {
        lemma_length_code_props(len);
    }
    let ghost a = spec_length_code(len);

    let mut top: usize = TOP_VAL_LEN;
    let mut bottom: usize = 0;
    let mut idx: usize = top / 2;

    while idx < TOP_VAL_LEN
        invariant
            bottom <= top <= 170,
            idx == (bottom + top) / 2,
            a == spec_length_code(len),
            a matches Some(i) ==> bottom <= i && i <= top,
            a is None ==> top == 170,
            bottom == 0 || TOP_VAL[bottom - 1] < len,
            bottom == 0 ==> (top == 170 || top == 84 || top == 41 || top == 19 || top == 8
                || top == 3 || top == 0),
        decreases top - bottom,
    {
        proof {
            lemma_length_code_props(len);
        }
        if idx == 0 {
            return Ok(idx);
        }

        if len <= TOP_VAL[idx] && len > TOP_VAL[idx - 1] {
            proof {
                match a {
                    Some(i) => {
                        if i < idx - 1 {
                            lemma_top_val_lt(i, idx - 1);
                        } else if i > idx {
                            assert(len > TOP_VAL[idx as int]);
                        }
                    },
                    None => {
                        assert(len > TOP_VAL[idx as int]);
                    },
                }
            }
            return Ok(idx);
        }

        if len < TOP_VAL[idx] {
            proof {
                match a {
                    Some(i) => {
                        if i >= idx {
                            assert(len > TOP_VAL[idx - 1]);
                        }
                    },
                    None => {
                        assert(len > TOP_VAL[idx as int]);
                    },
                }
            }
            top = idx - 1;
        } else {
            proof {
                lemma_top_val_lt(idx - 1, idx as int);
                if let Some(i) = a {
                    if i < idx {
                        lemma_top_val_lt(i, idx as int);
                    }
                }
            }
            bottom = idx + 1;
        }

        idx = (bottom + top) / 2;
    }

    Err(TlshError::DataLenOverflow)
}

} // verus!
