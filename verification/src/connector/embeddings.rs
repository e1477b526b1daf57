//! Embedding batches: how inputs are split into requests, and how the vectors
//! of a reply are matched back to the inputs they belong to.

use vstd::prelude::*;
use vstd::string::StringExecFns;
use crate::domain::error::OpenAiError;
use crate::text::{decimal, push_decimal};

verus! {

/// The batches of a list of `len` inputs, from input `start` on: consecutive
/// ranges of `size` inputs, the last one possibly shorter.
pub open spec fn batches_from(start: nat, len: nat, size: nat) -> Seq<(nat, nat)>
    decreases len - start,
{
    if start >= len || size == 0 {
        Seq::empty()
    } else if start + size >= len {
        seq![(start, len)]
    } else {
        seq![(start, start + size)] + batches_from(start + size, len, size)
    }
}

/// The half-open ranges of the batches, as plain pairs.
pub open spec fn range_views(v: Seq<(usize, usize)>) -> Seq<(nat, nat)> {
    v.map_values(|r: (usize, usize)| (r.0 as nat, r.1 as nat))
}

/// The input ranges sent one request each, in order, for `len` inputs and
/// `batch_size` inputs per request. A zero batch size makes no progress.
pub fn batch_bounds(len: usize, batch_size: usize) -> (r: Vec<(usize, usize)>)
    requires
        batch_size > 0,
    ensures
        range_views(r@) == batches_from(0, len as nat, batch_size as nat),
        r@.len() == 0 <==> len == 0,
        r@.len() > 0 ==> r@[0].0 == 0 && r@.last().1 == len,
        forall|k: int| 0 <= k < r@.len() - 1 ==> (#[trigger] r@[k]).1 - r@[k].0 == batch_size,
        forall|k: int| 0 <= k < r@.len() - 1 ==> #[trigger] r@[k].1 == r@[k + 1].0,
        forall|k: int| 0 <= k < r@.len() ==> (#[trigger] r@[k]).0 < r@[k].1 <= r@[k].0 + batch_size,
{
    let mut r: Vec<(usize, usize)> = Vec::new();
    let mut start: usize = 0;
    assert(range_views(r@) + batches_from(0, len as nat, batch_size as nat) == batches_from(
        0,
        len as nat,
        batch_size as nat,
    ));
    while start < len
        invariant
            batch_size > 0,
            range_views(r@) + batches_from(start as nat, len as nat, batch_size as nat)
                == batches_from(0, len as nat, batch_size as nat),
        decreases len - start,
    {
        let ghost before = r@;
        if len - start <= batch_size {
            r.push((start, len));
            assert(range_views(r@) == range_views(before).push((start as nat, len as nat)));
            assert(batches_from(len as nat, len as nat, batch_size as nat) == Seq::<
                (nat, nat),
            >::empty());
            start = len;
        } else {
            r.push((start, start + batch_size));
            assert(range_views(r@) == range_views(before).push(
                (start as nat, (start + batch_size) as nat),
            ));
            start = start + batch_size;
        }
    }
    assert(batches_from(start as nat, len as nat, batch_size as nat) == Seq::<(nat, nat)>::empty());
    proof {
        law_batches_partition(0, len as nat, batch_size as nat);
        let b = batches_from(0, len as nat, batch_size as nat);
        assert(range_views(r@) == b);
        assert forall|k: int| 0 <= k < r@.len() implies #[trigger] b[k] == (r@[k].0 as nat, r@[k].1 as nat) by {}
        if r@.len() > 0 {
            assert(b[0] == (r@[0].0 as nat, r@[0].1 as nat));
            assert(b.last() == (r@.last().0 as nat, r@.last().1 as nat));
        }
        assert forall|k: int| 0 <= k < r@.len() - 1 implies #[trigger] r@[k].1 == r@[k + 1].0 by {
            assert(b[k] == (r@[k].0 as nat, r@[k].1 as nat));
            assert(b[k + 1] == (r@[k + 1].0 as nat, r@[k + 1].1 as nat));
        }
        assert forall|k: int| 0 <= k < r@.len() - 1 implies (#[trigger] r@[k]).1 - r@[k].0 == batch_size by {
            assert(b[k] == (r@[k].0 as nat, r@[k].1 as nat));
        }
        assert forall|k: int| 0 <= k < r@.len() implies (#[trigger] r@[k]).0 < r@[k].1 <= r@[k].0 + batch_size by {
            assert(b[k] == (r@[k].0 as nat, r@[k].1 as nat));
        }
    }
    r
}

/// Law: the batches cover every input exactly once, in order. They are
/// consecutive, non-empty, and together span `start..len`; every batch but the
/// last holds exactly `size` inputs, and the last at most `size`.
pub proof fn law_batches_partition(start: nat, len: nat, size: nat)
    requires
        size > 0,
        start <= len,
    ensures
        ({
            let b = batches_from(start, len, size);
            &&& b.len() == 0 <==> start == len
            &&& b.len() > 0 ==> b[0].0 == start && b.last().1 == len
            &&& forall|k: int| 0 <= k < b.len() ==> (#[trigger] b[k]).0 < b[k].1 <= b[k].0 + size
            &&& forall|k: int| 0 <= k < b.len() - 1 ==> #[trigger] b[k].1 == b[k + 1].0
            &&& forall|k: int| 0 <= k < b.len() - 1 ==> (#[trigger] b[k]).1 - b[k].0 == size
        }),
    decreases len - start,
{
    let b = batches_from(start, len, size);
    if start < len && start + size < len {
        law_batches_partition(start + size, len, size);
        let rest = batches_from(start + size, len, size);
        assert forall|k: int| 0 <= k < b.len() - 1 implies #[trigger] b[k].1 == b[k + 1].0 by {
            if k > 0 {
                assert(b[k] == rest[k - 1]);
                assert(b[k + 1] == rest[k]);
            }
        }
        assert forall|k: int| 0 <= k < b.len() implies (#[trigger] b[k]).0 < b[k].1 <= b[k].0 + size by {
            if k > 0 {
                assert(b[k] == rest[k - 1]);
            }
        }
        assert forall|k: int| 0 <= k < b.len() - 1 implies (#[trigger] b[k]).1 - b[k].0 == size by {
            if k > 0 {
                assert(b[k] == rest[k - 1]);
            }
        }
    }
}

/// How many entries of `s` equal `v`.
pub open spec fn occurrences(s: Seq<usize>, v: nat) -> nat
    decreases s.len(),
{
    if s.len() == 0 {
        0
    } else {
        occurrences(s.drop_last(), v) + if s.last() as nat == v {
            1nat
        } else {
            0nat
        }
    }
}

/// The indexes of a reply map one-to-one onto the inputs: each input position
/// is named exactly once.
pub open spec fn one_to_one(s: Seq<usize>) -> bool {
    forall|k: nat| k < s.len() ==> #[trigger] occurrences(s, k) == 1
}

/// The first input position from `k` on that is not named exactly once, or
/// the length when there is none.
pub open spec fn first_unmatched_from(s: Seq<usize>, k: nat) -> nat
    decreases s.len() - k,
{
    if k >= s.len() {
        s.len()
    } else if occurrences(s, k) != 1 {
        k
    } else {
        first_unmatched_from(s, k + 1)
    }
}

/// The smallest index in `s` above `k`.
pub open spec fn min_above(s: Seq<usize>, k: nat) -> Option<nat>
    decreases s.len(),
{
    if s.len() == 0 {
        None
    } else {
        let rest = min_above(s.drop_last(), k);
        let x = s.last() as nat;
        if x > k && (rest matches Some(m) ==> x < m) {
            Some(x)
        } else {
            rest
        }
    }
}

/// Where sorting the indexes first departs from `0, 1, 2, ...`: the position,
/// and the index found there. When position `k` is first named other than
/// once, an unnamed `k` shows the next larger index at position `k`, and a
/// repeated `k` shows `k` again at position `k + 1`.
pub open spec fn discrepancy(s: Seq<usize>) -> (nat, nat) {
    let k = first_unmatched_from(s, 0);
    if occurrences(s, k) == 0 {
        (
            k,
            match min_above(s, k) {
                Some(x) => x,
                None => k,
            },
        )
    } else {
        (k + 1, k)
    }
}

/// What is reported when a reply has a vector count other than the input count.
pub open spec fn count_mismatch_message(expected: nat, got: nat) -> Seq<char> {
    "expected "@ + decimal(expected) + " embeddings, got "@ + decimal(got)
}

/// What is reported when the indexes of a reply do not map one-to-one.
pub open spec fn index_mismatch_message(position: nat, got: nat) -> Seq<char> {
    "embedding indexes do not map one-to-one onto the inputs (expected "@ + decimal(position)
        + " at this position, got "@ + decimal(got) + ")"@
}

/// Match the vectors of a reply to the `expected` inputs of its request, by the
/// `index` each vector carries (replies need not be in input order).
///
/// On success `order[k]` is the position in the reply of the vector for input
/// `k`. A count other than `expected`, or indexes that do not name each input
/// exactly once, is a decode error: a silent misalignment would pair inputs
/// with the wrong vectors.
pub fn order_by_index(indices: &Vec<usize>, expected: usize) -> (r: Result<Vec<usize>, OpenAiError>)
    ensures
        indices@.len() != expected ==> (r matches Err(OpenAiError::Decode(m)) && m@
            == count_mismatch_message(expected as nat, indices@.len())),
        indices@.len() == expected && one_to_one(indices@) ==> (r matches Ok(order) && order@.len()
            == expected && forall|k: int|
            0 <= k < expected ==> #[trigger] order@[k] < expected && indices@[order@[k] as int]
                == k),
        indices@.len() == expected && !one_to_one(indices@) ==> (r matches Err(
            OpenAiError::Decode(m),
        ) && m@ == index_mismatch_message(discrepancy(indices@).0, discrepancy(indices@).1)),
{
    let n = indices.len();
    if n != expected {
        let mut m = String::from_str("expected ");
        push_decimal(&mut m, expected as u64);
        let mut m = m.concat(" embeddings, got ");
        push_decimal(&mut m, n as u64);
        return Err(OpenAiError::Decode(m));
    }
    let mut counts: Vec<usize> = vec![0; n];
    let mut first: Vec<usize> = vec![0; n];
    let mut p: usize = 0;
    while p < n
        invariant
            n == indices.len(),
            p <= n,
            counts@.len() == n,
            first@.len() == n,
            forall|k: int|
                0 <= k < n ==> #[trigger] counts@[k] == occurrences(indices@.take(p as int), k as nat),
            forall|k: int|
                0 <= k < n ==> counts@[k] > 0 ==> #[trigger] first@[k] < p && indices@[first@[k] as int]
                    == k,
            forall|k: int| 0 <= k < n ==> counts@[k] <= p,
        decreases n - p,
    {
        let v = indices[p];
        proof {
            assert(indices@.take(p + 1).drop_last() == indices@.take(p as int));
        }
        if v < n {
            if counts[v] == 0 {
                first.set(v, p);
            }
            let c = counts[v];
            counts.set(v, c + 1);
        }
        p = p + 1;
    }
    assert(indices@.take(n as int) == indices@);
    let mut k: usize = 0;
    while k < n
        invariant
            n == indices.len(),
            k <= n,
            counts@.len() == n,
            forall|j: int| 0 <= j < n ==> #[trigger] counts@[j] == occurrences(indices@, j as nat),
            forall|j: nat| j < k ==> #[trigger] occurrences(indices@, j) == 1,
            first_unmatched_from(indices@, 0) == first_unmatched_from(indices@, k as nat),
        ensures
            k < n ==> counts@[k as int] != 1,
        decreases n - k,
    {
        if counts[k] != 1 {
            break;
        }
        k = k + 1;
    }
    if k == n {
        proof {
            assert forall|j: nat| j < indices@.len() implies #[trigger] occurrences(indices@, j)
                == 1 by {}
        }
        return Ok(first);
    }
    let position = k;
    let got = if counts[k] == 0 {
        let mut best: Option<usize> = None;
        let mut q: usize = 0;
        while q < n
            invariant
                n == indices.len(),
                q <= n,
                match (best, min_above(indices@.take(q as int), k as nat)) {
                    (Some(b), Some(m)) => b as nat == m,
                    (None, None) => true,
                    _ => false,
                },
            decreases n - q,
        {
            let x = indices[q];
            proof {
                assert(indices@.take(q + 1).drop_last() == indices@.take(q as int));
            }
            if x > k {
                match best {
                    Some(b) => if x < b {
                        best = Some(x);
                    },
                    None => {
                        best = Some(x);
                    },
                }
            }
            q = q + 1;
        }
        assert(indices@.take(n as int) == indices@);
        match best {
            Some(b) => b,
            None => k,
        }
    } else {
        k
    };
    let position = if counts[k] == 0 {
        position
    } else {
        position + 1
    };
    let mut m = String::from_str(
        "embedding indexes do not map one-to-one onto the inputs (expected ",
    );
    push_decimal(&mut m, position as u64);
    let mut m = m.concat(" at this position, got ");
    push_decimal(&mut m, got as u64);
    let m = m.concat(")");
    proof {
        assert(first_unmatched_from(indices@, k as nat) == k);
        assert(!one_to_one(indices@)) by {
            assert(occurrences(indices@, k as nat) != 1);
        }
    }
    Err(OpenAiError::Decode(m))
}

} // verus!
verus! {

/// What is reported when a single-input request comes back without a vector.
pub open spec fn no_vectors_message() -> Seq<char> {
    "embedding response contained no vectors"@
}

/// The first vector of a reply, or a decode error when there is none.
pub fn first_vector<T>(vectors: Vec<T>) -> (r: Result<T, OpenAiError>)
    ensures
        vectors@.len() > 0 ==> r == Ok::<T, OpenAiError>(vectors@[0]),
        vectors@.len() == 0 ==> (r matches Err(OpenAiError::Decode(m)) && m@
            == no_vectors_message()),
{
    let mut vectors = vectors;
    if vectors.len() > 0 {
        Ok(vectors.remove(0))
    } else {
        Err(OpenAiError::decode("embedding response contained no vectors"))
    }
}

} // verus!

verus! {

proof fn lemma_occurs(s: Seq<usize>, k: nat, p: int)
    requires
        0 <= p < s.len(),
        s[p] as nat == k,
    ensures
        occurrences(s, k) >= 1,
    decreases s.len(),
{
    if p < s.len() - 1 {
        assert(s.drop_last()[p] == s[p]);
        lemma_occurs(s.drop_last(), k, p);
    }
}

proof fn lemma_unique_occurrence(s: Seq<usize>, k: nat, p: int, q: int)
    requires
        occurrences(s, k) == 1,
        0 <= p < s.len(),
        0 <= q < s.len(),
        s[p] as nat == k,
        s[q] as nat == k,
    ensures
        p == q,
    decreases s.len(),
{
    let last = s.len() - 1;
    if s[last] as nat == k {
        if p != last {
            assert(s.drop_last()[p] == s[p]);
            lemma_occurs(s.drop_last(), k, p);
        }
        if q != last {
            assert(s.drop_last()[q] == s[q]);
            lemma_occurs(s.drop_last(), k, q);
        }
    } else {
        assert(s.drop_last()[p] == s[p]);
        assert(s.drop_last()[q] == s[q]);
        lemma_unique_occurrence(s.drop_last(), k, p, q);
    }
}

/// The indexes of a reply's entries.
pub open spec fn entry_indices<T>(entries: Seq<(usize, T)>) -> Seq<usize> {
    entries.map_values(|e: (usize, T)| e.0)
}

/// Put the payloads of a reply's entries, each tagged with the index of the
/// input it belongs to, into input order: the result's `k`-th payload is the
/// one tagged `k`. Fails as `order_by_index` does when the tags do not name
/// each of the `expected` inputs exactly once.
pub fn arrange_by_index<T>(entries: Vec<(usize, T)>, expected: usize) -> (r: Result<
    Vec<T>,
    OpenAiError,
>)
    ensures
        entries@.len() != expected ==> (r matches Err(OpenAiError::Decode(m)) && m@
            == count_mismatch_message(expected as nat, entries@.len())),
        entries@.len() == expected && one_to_one(entry_indices(entries@)) ==> (r matches Ok(v)
            && v@.len() == expected && forall|p: int|
            0 <= p < expected ==> entries@[p].0 < expected && v@[#[trigger] entries@[p].0 as int]
                == entries@[p].1),
        entries@.len() == expected && !one_to_one(entry_indices(entries@)) ==> (r matches Err(
            OpenAiError::Decode(m),
        ) && m@ == index_mismatch_message(
            discrepancy(entry_indices(entries@)).0,
            discrepancy(entry_indices(entries@)).1,
        )),
{
    let ghost all = entries@;
    let mut indices: Vec<usize> = Vec::new();
    let mut slots: Vec<Option<T>> = Vec::new();
    for e in it: entries.into_iter()
        invariant
            it.seq() == all,
            indices@ == entry_indices(all.take(it.index() as int)),
            slots@.len() == it.index(),
            forall|p: int| 0 <= p < it.index() ==> #[trigger] slots@[p] == Some(all[p].1),
    {
        let (i, x) = e;
        indices.push(i);
        slots.push(Some(x));
        assert(entry_indices(all.take(it.index() + 1)) == entry_indices(
            all.take(it.index() as int),
        ).push(i));
    }
    assert(all.take(all.len() as int) == all);
    let order = match order_by_index(&indices, expected) {
        Ok(order) => order,
        Err(e) => return Err(e),
    };
    let n = expected;
    let mut out: Vec<T> = Vec::new();
    let mut k: usize = 0;
    while k < n
        invariant
            n == expected == indices@.len() == slots@.len() == all.len() == order@.len(),
            indices@ == entry_indices(all),
            one_to_one(indices@),
            forall|j: int| 0 <= j < n ==> #[trigger] order@[j] < n && indices@[order@[j] as int] == j,
            k <= n,
            out@.len() == k,
            forall|j: int| 0 <= j < k ==> #[trigger] out@[j] == all[order@[j] as int].1,
            forall|p: int|
                0 <= p < n ==> #[trigger] slots@[p] == if indices@[p] < k {
                    None
                } else {
                    Some(all[p].1)
                },
        decreases n - k,
    {
        let p = order[k];
        let mut taken: Option<T> = None;
        slots.set_and_swap(p, &mut taken);
        proof {
            assert forall|q: int| 0 <= q < n && q != p implies indices@[q] != k by {
                if indices@[q] == k {
                    assert(occurrences(indices@, k as nat) == 1);
                    lemma_unique_occurrence(indices@, k as nat, q, p as int);
                }
            }
            assert forall|q: int|
                0 <= q < n implies #[trigger] slots@[q] == if indices@[q] < k + 1 {
                None
            } else {
                Some(all[q].1)
            } by {
                if q != p {
                    assert(indices@[q] != k);
                }
            }
        }
        match taken {
            Some(x) => {
                out.push(x);
            },
            None => {},
        }
        k = k + 1;
    }
    proof {
        law_one_to_one_is_a_permutation(indices@);
        assert forall|p: int| 0 <= p < expected implies all[p].0 < expected && out@[
            #[trigger] all[p].0 as int] == all[p].1 by {
            let j = all[p].0 as int;
            assert(indices@[p] == all[p].0);
            assert(indices@[order@[j] as int] == j);
            assert(occurrences(indices@, j as nat) == 1);
            lemma_unique_occurrence(indices@, j as nat, p, order@[j] as int);
        }
    }
    Ok(out)
}

} // verus!

verus! {

/// How many entries of `s` are below `m`.
pub open spec fn count_below(s: Seq<usize>, m: nat) -> nat
    decreases s.len(),
{
    if s.len() == 0 {
        0
    } else {
        count_below(s.drop_last(), m) + if (s.last() as nat) < m {
            1nat
        } else {
            0nat
        }
    }
}

/// The occurrences of `0..m` in `s`, added up.
pub open spec fn occurrences_below(s: Seq<usize>, m: nat) -> nat
    decreases m,
{
    if m == 0 {
        0
    } else {
        occurrences_below(s, (m - 1) as nat) + occurrences(s, (m - 1) as nat)
    }
}

proof fn lemma_occurrences_below(s: Seq<usize>, m: nat)
    ensures
        occurrences_below(s, m) == count_below(s, m),
    decreases s.len(), m,
{
    if m > 0 {
        lemma_occurrences_below(s, (m - 1) as nat);
    }
    if s.len() > 0 {
        lemma_occurrences_below(s.drop_last(), m);
        lemma_occurrences_below_step(s, m);
    }
}

proof fn lemma_occurrences_below_step(s: Seq<usize>, m: nat)
    requires
        s.len() > 0,
    ensures
        occurrences_below(s, m) == occurrences_below(s.drop_last(), m) + if (s.last() as nat) < m {
            1nat
        } else {
            0nat
        },
    decreases m,
{
    if m > 0 {
        lemma_occurrences_below_step(s, (m - 1) as nat);
    }
}

proof fn lemma_count_below_full(s: Seq<usize>, m: nat)
    requires
        count_below(s, m) == s.len(),
    ensures
        forall|p: int| 0 <= p < s.len() ==> (#[trigger] s[p] as nat) < m,
    decreases s.len(),
{
    if s.len() > 0 {
        lemma_count_below_le(s.drop_last(), m);
        lemma_count_below_full(s.drop_last(), m);
        assert forall|p: int| 0 <= p < s.len() implies (#[trigger] s[p] as nat) < m by {
            if p < s.len() - 1 {
                assert(s.drop_last()[p] == s[p]);
            }
        }
    }
}

proof fn lemma_count_below_le(s: Seq<usize>, m: nat)
    ensures
        count_below(s, m) <= s.len(),
    decreases s.len(),
{
    if s.len() > 0 {
        lemma_count_below_le(s.drop_last(), m);
    }
}

/// Law: indexes that name each input exactly once are exactly the input
/// positions, each once: every one of them is a position below the count.
pub proof fn law_one_to_one_is_a_permutation(s: Seq<usize>)
    requires
        one_to_one(s),
    ensures
        forall|p: int| 0 <= p < s.len() ==> (#[trigger] s[p] as nat) < s.len(),
        forall|p: int, q: int| 0 <= p < q < s.len() ==> s[p] != s[q],
{
    assert forall|m: nat| m <= s.len() implies #[trigger] occurrences_below(s, m) == m by {
        lemma_occurrences_below_all(s, m);
    }
    lemma_occurrences_below(s, s.len());
    lemma_count_below_full(s, s.len());
    assert forall|p: int, q: int| 0 <= p < q < s.len() implies s[p] != s[q] by {
        if s[p] == s[q] {
            lemma_unique_occurrence(s, s[p] as nat, p, q);
        }
    }
}

proof fn lemma_occurrences_below_all(s: Seq<usize>, m: nat)
    requires
        one_to_one(s),
        m <= s.len(),
    ensures
        occurrences_below(s, m) == m,
    decreases m,
{
    if m > 0 {
        lemma_occurrences_below_all(s, (m - 1) as nat);
        assert(occurrences(s, (m - 1) as nat) == 1);
    }
}

} // verus!
