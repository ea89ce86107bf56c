//! Quartile cut points of the bucket histogram.
//!
//! The quantization thresholds of a digest are the 25th, 50th and 75th
//! percentile values of the first `bucket_count` histogram counters, defined
//! as the values a full ascending sort would place at the corresponding
//! indices.  The implementation sorts a copy of the histogram and reads the
//! three positions; the contract ties the result to the mathematical sort of
//! the histogram's contents.

use vstd::prelude::*;
use vstd::relations::{sorted_by, total_ordering};
use vstd::seq_lib::lemma_sorted_unique;

verus! {

/// The ascending order on bucket counters.
pub open spec fn bucket_le() -> spec_fn(u32, u32) -> bool {
    |x: u32, y: u32| x <= y
}

/// The first `n` buckets in ascending order.
pub open spec fn sorted_buckets(buckets: Seq<u32>, n: int) -> Seq<u32> {
    buckets.take(n).sort_by(bucket_le())
}

/// The three quartile cut points of the first `n` buckets: the values at the
/// 25%, 50% and 75% positions of the fully sorted histogram.
pub open spec fn spec_quartiles(buckets: Seq<u32>, n: int) -> (u32, u32, u32) {
    let s = sorted_buckets(buckets, n);
    let q = n / 4;
    (s[q - 1], s[2 * q - 1], s[3 * q - 1])
}

proof fn lemma_bucket_le_total()
    ensures
        total_ordering(bucket_le()),
{
    assert(total_ordering(bucket_le())) by {
        assert forall|x: u32, y: u32| #[trigger] bucket_le()(x, y) || #[trigger] bucket_le()(
            y,
            x,
        ) by {
        }
    }
}

/// Computes the quartile cut points `(q1, q2, q3)` of the first
/// `bucket_count` counters of `buckets`: exactly the values a full sort
/// would place at one, two and three quarters of the way through.
pub fn find_quartiles(buckets: &Vec<u32>, bucket_count: usize) -> (r: (u32, u32, u32))
    requires
        bucket_count % 4 == 0,
        4 <= bucket_count <= buckets@.len(),
    ensures
        r == spec_quartiles(buckets@, bucket_count as int),
{
    let n = bucket_count;
    let ghost orig = buckets@.take(n as int);

    let mut arr: Vec<u32> = Vec::new();
    let mut i: usize = 0;
    while i < n
        invariant
            i <= n <= buckets@.len(),
            arr@ == buckets@.take(i as int),
        decreases n - i,
    {
        arr.push(buckets[i]);
        proof {
            assert(buckets@.take(i + 1 as int) =~= buckets@.take(i as int).push(buckets@[i as int]));
        }
        i = i + 1;
    }

    let mut i: usize = 1;
    while i < n
        invariant
            1 <= i <= n == arr@.len(),
            orig == buckets@.take(n as int),
            arr@.to_multiset() == orig.to_multiset(),
            forall|a: int, b: int| 0 <= a < b < i ==> #[trigger] arr@[a] <= #[trigger] arr@[b],
        decreases n - i,
    {
        let mut j: usize = i;
        while j > 0 && arr[j - 1] > arr[j]
            invariant
                j <= i < n == arr@.len(),
                orig == buckets@.take(n as int),
                arr@.to_multiset() == orig.to_multiset(),
                forall|a: int, b: int|
                    0 <= a < b <= i && b != j ==> #[trigger] arr@[a] <= #[trigger] arr@[b],
            decreases j,
        {
            let ghost before = arr@;
            let x = arr[j - 1];
            let y = arr[j];
            arr[j - 1] = y;
            arr[j] = x;
            proof {
                broadcast use vstd::seq_lib::to_multiset_update;
                broadcast use vstd::seq_lib::group_to_multiset_ensures;
                broadcast use vstd::multiset::group_multiset_axioms;

                assert(before.contains(x)) by {
                    assert(before[j - 1] == x);
                }
                assert(before.contains(y)) by {
                    assert(before[j as int] == y);
                }
                assert(before.to_multiset().count(x) > 0);
                assert(arr@ == before.update(j - 1, y).update(j as int, x));
                assert(arr@.to_multiset() =~= before.to_multiset());
            }
            j = j - 1;
        }
        i = i + 1;
    }
    proof {
        lemma_bucket_le_total();
        orig.lemma_sort_by_ensures(bucket_le());
        assert(sorted_by(arr@, bucket_le()));
        lemma_sorted_unique(arr@, orig.sort_by(bucket_le()), bucket_le());
        assert(arr@ =~= sorted_buckets(buckets@, n as int));
    }

    let q = n / 4;
    (arr[q - 1], arr[2 * q - 1], arr[3 * q - 1])
}

} // verus!
