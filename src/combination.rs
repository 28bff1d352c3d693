//! Linear combinations of vectors.
use crate::error::DimensionMismatch;
use crate::scalar::Scalar;
use crate::vector::{add_seq, scale_seq, Vector};
use vstd::prelude::*;

verus! {

/// The elements of each vector of `u`.
pub open spec fn views<K>(u: Seq<Vector<K>>) -> Seq<Seq<K>> {
    u.map_values(|v: Vector<K>| v@)
}

/// The length of the first of `vs`, zero where there is none.
pub open spec fn first_len<K>(vs: Seq<Seq<K>>) -> nat {
    if vs.len() == 0 {
        0
    } else {
        vs[0].len()
    }
}

/// As many coefficients as vectors, and all vectors of one length.
pub open spec fn combinable<K>(vs: Seq<Seq<K>>, cs: Seq<K>) -> bool {
    &&& vs.len() == cs.len()
    &&& forall|i: int| 0 <= i < vs.len() ==> #[trigger] vs[i].len() == first_len(vs)
}

/// `n` zeros, to which the first `k` vectors of `vs`, each scaled by its
/// coefficient in `cs`, are added in order.
pub open spec fn combination_prefix<K: Scalar>(
    vs: Seq<Seq<K>>,
    cs: Seq<K>,
    n: nat,
    k: nat,
) -> Seq<K>
    decreases k,
{
    if k == 0 {
        Seq::new(n, |i: int| K::spec_zero())
    } else {
        add_seq(
            combination_prefix(vs, cs, n, (k - 1) as nat),
            scale_seq(vs[k - 1], cs[k - 1]),
        )
    }
}

/// The sum of all of `vs`, each scaled by its coefficient in `cs`, added
/// in order to zeros as long as the first vector.
pub open spec fn combination<K: Scalar>(vs: Seq<Seq<K>>, cs: Seq<K>) -> Seq<K> {
    combination_prefix(vs, cs, first_len(vs), vs.len())
}

/// The sum of `u[i] * coefs[i]`, each vector scaled in turn and added to a
/// vector of zeros, in order. There must be at least one vector, as many
/// coefficients as vectors, and all vectors must have one size; otherwise
/// the call fails with `DimensionMismatch`. With no vectors the size of the
/// result is unknown, so that call fails too.
pub fn linear_combination<K: Scalar>(u: &[Vector<K>], coefs: &[K]) -> (r: Result<
    Vector<K>,
    DimensionMismatch,
>)
    ensures
        r is Ok <==> (u@.len() > 0 && combinable(views(u@), coefs@)),
        r matches Ok(v) ==> v@ == combination(views(u@), coefs@),
        u@.len() == 0 ==> r is Err,
{
    let k = u.len();
    if k != coefs.len() {
        return Err(DimensionMismatch);
    }
    if k == 0 {
        return Err(DimensionMismatch);
    }
    let n = u[0].size();
    let mut i: usize = 0;
    while i < k
        invariant
            k == u@.len() == coefs@.len(),
            k > 0,
            n == u@[0]@.len(),
            0 <= i <= k,
            forall|j: int| 0 <= j < i ==> #[trigger] u@[j]@.len() == n,
        decreases k - i,
    {
        if u[i].size() != n {
            assert(views(u@)[i as int].len() != first_len(views(u@)));
            return Err(DimensionMismatch);
        }
        i += 1;
    }
    assert(combinable(views(u@), coefs@)) by {
        assert forall|j: int| 0 <= j < k implies #[trigger] views(u@)[j].len() == first_len(
            views(u@),
        ) by {
            assert(u@[j]@.len() == n);
        }
    }
    let mut result: Vector<K> = Vector::zeros(n);
    let mut i: usize = 0;
    while i < k
        invariant
            k == u@.len() == coefs@.len(),
            k > 0,
            n == first_len(views(u@)),
            forall|j: int| 0 <= j < k ==> #[trigger] u@[j]@.len() == n,
            0 <= i <= k,
            result@ == combination_prefix(views(u@), coefs@, n as nat, i as nat),
            result@.len() == n,
        decreases k - i,
    {
        let mut w = u[i].clone();
        w.scl(coefs[i]);
        let _ = result.add_mut(&w);
        i += 1;
    }
    Ok(result)
}

} // verus!
