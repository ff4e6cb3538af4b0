//! Arrays of fixed-size records on the wire.

use vstd::prelude::*;

verus! {

/// The wire forms of the records of `v`, one after the other.
pub open spec fn records_bytes<T>(v: Seq<T>, enc: spec_fn(T) -> Seq<u8>) -> Seq<u8>
    decreases v.len(),
{
    if v.len() == 0 {
        Seq::empty()
    } else {
        records_bytes(v.drop_last(), enc) + enc(v.last())
    }
}

/// Every record has a wire form of `k` bytes.
pub open spec fn fixed_size<T>(enc: spec_fn(T) -> Seq<u8>, k: int) -> bool {
    forall|x: T| (#[trigger] enc(x)).len() == k
}

/// An array of `n` records of `k` bytes each takes `k * n` bytes.
pub proof fn lemma_records_len<T>(v: Seq<T>, enc: spec_fn(T) -> Seq<u8>, k: int)
    requires
        fixed_size(enc, k),
    ensures
        records_bytes(v, enc).len() == k * v.len(),
    decreases v.len(),
{
    if v.len() > 0 {
        lemma_records_len(v.drop_last(), enc, k);
        assert(enc(v.last()).len() == k);
        assert(k * (v.len() - 1) + k == k * v.len()) by (nonlinear_arith);
    } else {
        assert(k * 0 == 0) by (nonlinear_arith);
    }
}

/// Record `i` of an array stands at byte `k * i` of its wire form.
pub proof fn lemma_records_chunk<T>(v: Seq<T>, enc: spec_fn(T) -> Seq<u8>, k: int, i: int)
    requires
        fixed_size(enc, k),
        0 <= i < v.len(),
        0 <= k,
    ensures
        0 <= k * i,
        k * i + k <= records_bytes(v, enc).len(),
        records_bytes(v, enc).subrange(k * i, k * i + k) == enc(v[i]),
    decreases v.len(),
{
    let init = v.drop_last();
    let n = v.len() as int;
    lemma_records_len(v, enc, k);
    lemma_records_len(init, enc, k);
    assert(enc(v.last()).len() == k);
    assert(0 <= k * i && k * i + k <= k * n) by (nonlinear_arith)
        requires
            0 <= i < n,
            0 <= k,
    ;
    if i == n - 1 {
        assert(records_bytes(v, enc).subrange(k * i, k * i + k) =~= enc(v[i]));
    } else {
        lemma_records_chunk(init, enc, k, i);
        assert(k * i + k <= k * (n - 1)) by (nonlinear_arith)
            requires
                0 <= i < n - 1,
                0 <= k,
        ;
        assert(records_bytes(v, enc).subrange(k * i, k * i + k) =~= records_bytes(
            init,
            enc,
        ).subrange(k * i, k * i + k));
        assert(init[i] == v[i]);
    }
}

/// The wire form of the first `i + 1` records is that of the first `i`
/// followed by record `i`.
pub proof fn lemma_records_step<T>(v: Seq<T>, enc: spec_fn(T) -> Seq<u8>, i: int)
    requires
        0 <= i < v.len(),
    ensures
        records_bytes(v.take(i + 1), enc) == records_bytes(v.take(i), enc) + enc(v[i]),
{
    assert(v.take(i + 1).drop_last() =~= v.take(i));
    assert(v.take(i + 1).last() == v[i]);
}

} // verus!
