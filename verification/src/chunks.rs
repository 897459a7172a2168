//! Cutting a sequence into chunks of bounded size.

use vstd::prelude::*;

verus! {

/// Number of chunks that `len` items make: `len / size`, rounded up.
pub open spec fn chunk_count(len: nat, size: nat) -> nat
    recommends
        size > 0,
{
    ((len + size - 1) / (size as int)) as nat
}

/// Where chunk `k` starts, which is also where chunk `k - 1` ends.
pub open spec fn chunk_start(k: int, len: nat, size: nat) -> int {
    if k * size < len {
        k * size
    } else {
        len as int
    }
}

/// Chunk `k` of `s`.
pub open spec fn chunk_of<T>(s: Seq<T>, size: nat, k: int) -> Seq<T> {
    s.subrange(chunk_start(k, s.len(), size), chunk_start(k + 1, s.len(), size))
}

/// The chunks of `s`, in order.
pub open spec fn chunks_of<T>(s: Seq<T>, size: nat) -> Seq<Seq<T>> {
    Seq::new(chunk_count(s.len(), size), |k: int| chunk_of(s, size, k))
}

/// `count` is the number of chunks if `count` chunks reach the end and one
/// fewer do not.
pub proof fn lemma_chunk_count_unique(len: nat, size: nat, count: nat)
    requires
        size > 0,
        count * size >= len,
        count > 0 ==> (count - 1) * size < len,
    ensures
        count == chunk_count(len, size),
{
    let x = len + size - 1;
    if count == 0 {
        assert(len == 0);
        assert(x / (size as int) == 0) by (nonlinear_arith)
            requires
                0 <= x < size,
        ;
    } else {
        assert((count - 1) * size == count * size - size) by (nonlinear_arith);
        assert((count + 1) * size == count * size + size) by (nonlinear_arith);
        assert(x / (size as int) == count) by (nonlinear_arith)
            requires
                size > 0,
                count * size <= x,
                x < (count + 1) * size,
        ;
    }
}

/// The chunk boundaries rise from 0 to `len`, by at most `size` a step.
pub proof fn lemma_chunk_start(k: int, len: nat, size: nat)
    requires
        size > 0,
        0 <= k,
    ensures
        0 <= chunk_start(k, len, size) <= chunk_start(k + 1, len, size) <= len,
        chunk_start(k + 1, len, size) - chunk_start(k, len, size) <= size,
        chunk_start(0, len, size) == 0,
        k < chunk_count(len, size) ==> chunk_start(k, len, size) == k * size && chunk_start(
            k,
            len,
            size,
        ) < chunk_start(k + 1, len, size),
        k + 1 < chunk_count(len, size) ==> chunk_start(k + 1, len, size) == (k + 1) * size,
        k >= chunk_count(len, size) ==> chunk_start(k, len, size) == len,
{
    let c = chunk_count(len, size);
    let x = len + size - 1;
    assert((k + 1) * size == k * size + size) by (nonlinear_arith);
    assert(0 <= k * size) by (nonlinear_arith)
        requires
            0 <= k,
            size > 0,
    ;
    assert(c * size >= len && (c > 0 ==> (c - 1) * size < len)) by (nonlinear_arith)
        requires
            size > 0,
            c == x / (size as int),
            x == len + size - 1,
    ;
    if k < c {
        assert(k * size <= (c - 1) * size) by (nonlinear_arith)
            requires
                k <= c - 1,
                size > 0,
        ;
    }
    if k + 1 < c {
        assert((k + 1) * size <= (c - 1) * size) by (nonlinear_arith)
            requires
                k + 1 <= c - 1,
                size > 0,
        ;
    }
    if k >= c {
        assert(k * size >= c * size) by (nonlinear_arith)
            requires
                k >= c,
                size > 0,
        ;
    }
}

/// Every chunk holds at least one item and at most `size`; all but the last
/// hold exactly `size`.
pub proof fn lemma_chunk_len<T>(s: Seq<T>, size: nat, k: int)
    requires
        size > 0,
        0 <= k < chunk_count(s.len(), size),
    ensures
        0 < chunk_of(s, size, k).len() <= size,
        k + 1 < chunk_count(s.len(), size) ==> chunk_of(s, size, k).len() == size,
{
    lemma_chunk_start(k, s.len(), size);
    assert((k + 1) * size == k * size + size) by (nonlinear_arith);
}

/// The first `k` chunks, one after the other, are the items before chunk `k`.
proof fn lemma_chunks_prefix<T>(s: Seq<T>, size: nat, k: int)
    requires
        size > 0,
        0 <= k <= chunk_count(s.len(), size),
    ensures
        chunks_of(s, size).take(k).flatten() == s.take(chunk_start(k, s.len(), size)),
    decreases k,
{
    let all = chunks_of(s, size);
    lemma_chunk_start(k, s.len(), size);
    if k == 0 {
        assert(all.take(0) =~= Seq::<Seq<T>>::empty());
        assert(s.take(0) =~= all.take(0).flatten());
    } else {
        lemma_chunks_prefix(s, size, k - 1);
        lemma_chunk_start(k - 1, s.len(), size);
        assert(all.take(k) =~= all.take(k - 1).push(all[k - 1]));
        all.take(k - 1).lemma_flatten_push(all[k - 1]);
        assert(s.take(chunk_start(k, s.len(), size)) =~= s.take(
            chunk_start(k - 1, s.len(), size),
        ) + chunk_of(s, size, k - 1));
    }
}

/// The chunks, one after the other, are the sequence itself: nothing is left
/// out, nothing occurs twice, and the order is kept.
pub proof fn lemma_chunks_flatten<T>(s: Seq<T>, size: nat)
    requires
        size > 0,
    ensures
        chunks_of(s, size).flatten() == s,
        chunks_of(s, size).len() == chunk_count(s.len(), size),
{
    let all = chunks_of(s, size);
    let c = chunk_count(s.len(), size) as int;
    lemma_chunks_prefix(s, size, c);
    lemma_chunk_start(c, s.len(), size);
    assert(all.take(c) =~= all);
    assert(s.take(s.len() as int) =~= s);
}

/// Cuts `items` into chunks of `size` items, the last one holding what is
/// left.
pub fn split_chunks<T>(items: Vec<T>, size: usize) -> (chunks: Vec<Vec<T>>)
    requires
        size > 0,
    ensures
        chunks@.len() == chunk_count(items@.len(), size as nat),
        forall|k: int|
            0 <= k < chunks@.len() ==> (#[trigger] chunks@[k])@ == chunk_of(
                items@,
                size as nat,
                k,
            ),
{
    let ghost all = items@;
    assert(all.len() == items.len());
    let mut chunks: Vec<Vec<T>> = Vec::new();
    let mut rest = items;
    proof {
        lemma_chunk_start(0, all.len(), size as nat);
        assert(rest@ =~= all.skip(0));
    }
    while rest.len() > 0
        invariant
            size > 0,
            all.len() <= usize::MAX,
            chunks@.len() > 0 ==> (chunks@.len() - 1) * size < all.len(),
            rest@ == all.skip(chunk_start(chunks@.len() as int, all.len(), size as nat)),
            rest@.len() > 0 ==> chunk_start(chunks@.len() as int, all.len(), size as nat)
                == chunks@.len() * size,
            forall|k: int|
                0 <= k < chunks@.len() ==> (#[trigger] chunks@[k])@ == chunk_of(
                    all,
                    size as nat,
                    k,
                ),
        decreases rest@.len(),
    {
        let ghost k = chunks@.len() as int;
        proof {
            lemma_chunk_start(k, all.len(), size as nat);
            lemma_chunk_start(k + 1, all.len(), size as nat);
            assert((k + 1) * size == k * size + size) by (nonlinear_arith);
        }
        let tail = if rest.len() > size {
            rest.split_off(size)
        } else {
            Vec::new()
        };
        assert(rest@ =~= chunk_of(all, size as nat, k));
        assert(tail@ =~= all.skip(chunk_start(k + 1, all.len(), size as nat)));
        chunks.push(rest);
        rest = tail;
    }
    proof {
        let count = chunks@.len();
        lemma_chunk_start(count as int, all.len(), size as nat);
        if chunk_start(count as int, all.len(), size as nat) != count * size {
            assert(count * size >= all.len());
        }
        lemma_chunk_count_unique(all.len(), size as nat, count);
    }
    chunks
}

} // verus!
