use vstd::prelude::*;

verus! {

/// XOR-accumulates the pairwise differences of two equally long byte
/// sequences over the first `n` positions.
pub open spec fn diff_acc(a: Seq<u8>, b: Seq<u8>, n: int) -> u8
    decreases n,
{
    if n <= 0 {
        0u8
    } else {
        diff_acc(a, b, n - 1) | (a[n - 1] ^ b[n - 1])
    }
}

proof fn lemma_diff_acc_zero(a: Seq<u8>, b: Seq<u8>, n: int)
    requires
        0 <= n <= a.len(),
        a.len() == b.len(),
    ensures
        (diff_acc(a, b, n) == 0) <==> (forall|i: int| 0 <= i < n ==> a[i] == b[i]),
    decreases n,
{
    if n > 0 {
        lemma_diff_acc_zero(a, b, n - 1);
        let acc = diff_acc(a, b, n - 1);
        let x = a[n - 1];
        let y = b[n - 1];
        assert((acc | (x ^ y)) == 0 <==> (acc == 0 && x == y)) by (bit_vector);
    }
}

/// Compares two byte strings without exiting early on the first difference:
/// every byte of equally long inputs is visited.
///
/// Returns `true` exactly when both inputs are the same byte sequence.
pub fn constant_time_eq(a: &[u8], b: &[u8]) -> (r: bool)
    ensures
        r == (a@ == b@),
{
    if a.len() != b.len() {
        return false;
    }
    let mut acc: u8 = 0;
    let mut i: usize = 0;
    while i < a.len()
        invariant
            a.len() == b.len(),
            0 <= i <= a.len(),
            acc == diff_acc(a@, b@, i as int),
        decreases a.len() - i,
    {
        acc = acc | (a[i] ^ b[i]);
        i = i + 1;
    }
    proof {
        lemma_diff_acc_zero(a@, b@, a@.len() as int);
        if acc == 0 {
            assert(a@ =~= b@);
        }
    }
    acc == 0
}

/// The comparison does not depend on the order of its inputs: the
/// differences it accumulates are the same either way.
pub proof fn lemma_diff_acc_symmetric(a: Seq<u8>, b: Seq<u8>, n: int)
    requires
        0 <= n <= a.len(),
        a.len() == b.len(),
    ensures
        diff_acc(a, b, n) == diff_acc(b, a, n),
    decreases n,
{
    if n > 0 {
        lemma_diff_acc_symmetric(a, b, n - 1);
        let x = a[n - 1];
        let y = b[n - 1];
        assert(x ^ y == y ^ x) by (bit_vector);
    }
}

} // verus!
