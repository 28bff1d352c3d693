//! Vectors: fixed-length sequences of scalars.
use crate::error::DimensionMismatch;
use crate::scalar::Scalar;
use vstd::prelude::*;

verus! {

/// The element-wise sum of `u` and `v`, as long as `u`.
pub open spec fn add_seq<K: Scalar>(u: Seq<K>, v: Seq<K>) -> Seq<K> {
    Seq::new(u.len(), |i: int| K::spec_plus(u[i], v[i]))
}

/// The element-wise difference of `u` and `v`, as long as `u`.
pub open spec fn sub_seq<K: Scalar>(u: Seq<K>, v: Seq<K>) -> Seq<K> {
    Seq::new(u.len(), |i: int| K::spec_minus(u[i], v[i]))
}

/// Every element of `u` multiplied by `a`.
pub open spec fn scale_seq<K: Scalar>(u: Seq<K>, a: K) -> Seq<K> {
    Seq::new(u.len(), |i: int| K::spec_times(u[i], a))
}

/// The sum of the first `n` products `u[i] * v[i]`, added from the left to
/// zero.
pub open spec fn dot_prefix<K: Scalar>(u: Seq<K>, v: Seq<K>, n: nat) -> K
    decreases n,
{
    if n == 0 {
        K::spec_zero()
    } else {
        K::spec_plus(dot_prefix(u, v, (n - 1) as nat), K::spec_times(u[n - 1], v[n - 1]))
    }
}

/// The dot product of `u` and `v`: all the products, added from the left.
pub open spec fn dot_seq<K: Scalar>(u: Seq<K>, v: Seq<K>) -> K {
    dot_prefix(u, v, u.len())
}

/// A vector: its elements, in coordinate order.
#[derive(Debug)]
pub struct Vector<K> {
    pub e: Vec<K>,
}

impl<K> View for Vector<K> {
    type V = Seq<K>;

    open spec fn view(&self) -> Seq<K> {
        self.e@
    }
}

impl<K> Vector<K> {
    /// A vector of the elements of `e`, in order.
    pub fn new(e: Vec<K>) -> (r: Self)
        ensures
            r@ == e@,
    {
        Vector { e }
    }

    /// The elements.
    pub fn e(&self) -> (r: &[K])
        ensures
            r@ == self@,
    {
        self.e.as_slice()
    }

    /// Replaces the elements by those of `e`.
    pub fn set_e(&mut self, e: Vec<K>)
        ensures
            final(self)@ == e@,
    {
        self.e = e;
    }

    /// The elements, to change in place.
    pub fn e_mut(&mut self) -> (r: &mut Vec<K>)
        ensures
            *r == old(self).e,
            final(self).e == *final(r),
    {
        &mut self.e
    }

    /// The number of elements.
    pub fn size(&self) -> (r: usize)
        ensures
            r == self@.len(),
    {
        self.e.len()
    }
}

impl<K: Scalar> Vector<K> {
    /// Adds `v` to this vector element by element; vectors of different
    /// sizes are refused and this one is left as it was.
    pub fn add_mut(&mut self, v: &Vector<K>) -> (r: Result<(), DimensionMismatch>)
        ensures
            r is Ok <==> old(self)@.len() == v@.len(),
            r is Ok ==> final(self)@ == add_seq(old(self)@, v@),
            r is Err ==> final(self)@ == old(self)@,
    {
        let n = self.e.len();
        if n != v.e.len() {
            return Err(DimensionMismatch);
        }
        let mut i: usize = 0;
        while i < n
            invariant
                n == self@.len() == old(self)@.len() == v@.len(),
                0 <= i <= n,
                forall|j: int| 0 <= j < i ==> self@[j] == K::spec_plus(old(self)@[j], v@[j]),
                forall|j: int| i <= j < n ==> self@[j] == old(self)@[j],
            decreases n - i,
        {
            let x = self.e[i].plus(v.e[i]);
            self.e.set(i, x);
            i += 1;
        }
        assert(self@ =~= add_seq(old(self)@, v@));
        Ok(())
    }

    /// Subtracts `v` from this vector element by element; vectors of
    /// different sizes are refused and this one is left as it was.
    pub fn sub_mut(&mut self, v: &Vector<K>) -> (r: Result<(), DimensionMismatch>)
        ensures
            r is Ok <==> old(self)@.len() == v@.len(),
            r is Ok ==> final(self)@ == sub_seq(old(self)@, v@),
            r is Err ==> final(self)@ == old(self)@,
    {
        let n = self.e.len();
        if n != v.e.len() {
            return Err(DimensionMismatch);
        }
        let mut i: usize = 0;
        while i < n
            invariant
                n == self@.len() == old(self)@.len() == v@.len(),
                0 <= i <= n,
                forall|j: int| 0 <= j < i ==> self@[j] == K::spec_minus(old(self)@[j], v@[j]),
                forall|j: int| i <= j < n ==> self@[j] == old(self)@[j],
            decreases n - i,
        {
            let x = self.e[i].minus(v.e[i]);
            self.e.set(i, x);
            i += 1;
        }
        assert(self@ =~= sub_seq(old(self)@, v@));
        Ok(())
    }

    /// Multiplies every element by `a`.
    pub fn scl(&mut self, a: K)
        ensures
            final(self)@ == scale_seq(old(self)@, a),
    {
        let n = self.e.len();
        let mut i: usize = 0;
        while i < n
            invariant
                n == self@.len() == old(self)@.len(),
                0 <= i <= n,
                forall|j: int| 0 <= j < i ==> self@[j] == K::spec_times(old(self)@[j], a),
                forall|j: int| i <= j < n ==> self@[j] == old(self)@[j],
            decreases n - i,
        {
            let x = self.e[i].times(a);
            self.e.set(i, x);
            i += 1;
        }
        assert(self@ =~= scale_seq(old(self)@, a));
    }

    /// The dot product, the products of matching elements added from the
    /// left to zero; vectors of different sizes are refused.
    pub fn dot(&self, v: &Vector<K>) -> (r: Result<K, DimensionMismatch>)
        ensures
            r is Ok <==> self@.len() == v@.len(),
            r is Ok ==> r == Ok::<K, DimensionMismatch>(dot_seq(self@, v@)),
    {
        let n = self.e.len();
        if n != v.e.len() {
            return Err(DimensionMismatch);
        }
        let mut acc = K::zero();
        let mut i: usize = 0;
        while i < n
            invariant
                n == self@.len() == v@.len(),
                0 <= i <= n,
                acc == dot_prefix(self@, v@, i as nat),
            decreases n - i,
        {
            acc = acc.plus(self.e[i].times(v.e[i]));
            i += 1;
        }
        Ok(acc)
    }

    /// A vector of `n` zeros.
    pub fn zeros(n: usize) -> (r: Vector<K>)
        ensures
            r@ == Seq::new(n as nat, |i: int| K::spec_zero()),
    {
        let mut e: Vec<K> = Vec::new();
        let mut i: usize = 0;
        while i < n
            invariant
                0 <= i <= n,
                e@ == Seq::new(i as nat, |j: int| K::spec_zero()),
            decreases n - i,
        {
            e.push(K::zero());
            i += 1;
            assert(e@ =~= Seq::new(i as nat, |j: int| K::spec_zero()));
        }
        Vector { e }
    }
}

/// A copy of the elements of `s`, in order.
pub(crate) fn copy_slice<K: Copy>(s: &[K]) -> (r: Vec<K>)
    ensures
        r@ == s@,
{
    let mut e: Vec<K> = Vec::new();
    let mut i: usize = 0;
    while i < s.len()
        invariant
            0 <= i <= s@.len(),
            e@ == s@.subrange(0, i as int),
        decreases s@.len() - i,
    {
        e.push(s[i]);
        i += 1;
        assert(e@ =~= s@.subrange(0, i as int));
    }
    assert(e@ =~= s@);
    e
}

impl<K: Copy> Clone for Vector<K> {
    fn clone(&self) -> (r: Vector<K>)
        ensures
            r@ == self@,
    {
        Vector { e: copy_slice(self.e.as_slice()) }
    }
}

impl<K> From<Vec<K>> for Vector<K> {
    fn from(value: Vec<K>) -> (r: Vector<K>)
        ensures
            r@ == value@,
    {
        Vector { e: value }
    }
}

impl<K> vstd::std_specs::convert::FromSpecImpl<Vec<K>> for Vector<K> {
    open spec fn obeys_from_spec() -> bool {
        true
    }

    open spec fn from_spec(v: Vec<K>) -> Vector<K> {
        Vector { e: v }
    }
}

impl<K: Copy, const N: usize> From<[K; N]> for Vector<K> {
    fn from(value: [K; N]) -> (r: Vector<K>)
        ensures
            r@ == value@,
    {
        Vector { e: copy_slice(value.as_slice()) }
    }
}

/// The copy holds a new `Vec`, which no spec function can name: what `from`
/// returns is stated by its own `ensures`.
impl<K: Copy, const N: usize> vstd::std_specs::convert::FromSpecImpl<[K; N]> for Vector<K> {
    open spec fn obeys_from_spec() -> bool {
        false
    }

    open spec fn from_spec(v: [K; N]) -> Vector<K> {
        arbitrary()
    }
}

impl<K: Copy> From<&[K]> for Vector<K> {
    fn from(value: &[K]) -> (r: Vector<K>)
        ensures
            r@ == value@,
    {
        Vector { e: copy_slice(value) }
    }
}

/// As for arrays, what `from` returns is stated by its own `ensures`.
impl<K: Copy> vstd::std_specs::convert::FromSpecImpl<&[K]> for Vector<K> {
    open spec fn obeys_from_spec() -> bool {
        false
    }

    open spec fn from_spec(v: &[K]) -> Vector<K> {
        arbitrary()
    }
}

/// `u + v` is `add_mut` on `u`, for vectors of one size.
impl<K: Scalar> core::ops::Add for Vector<K> {
    type Output = Vector<K>;

    fn add(self, rhs: Vector<K>) -> (r: Vector<K>)
        ensures
            r@ == add_seq(self@, rhs@),
    {
        let mut r = self;
        let _ = r.add_mut(&rhs);
        r
    }
}

/// The sum is a new `Vec`, which no spec function can name: `add` states
/// it in its own `ensures`.
impl<K: Scalar> vstd::std_specs::ops::AddSpecImpl for Vector<K> {
    open spec fn obeys_add_spec() -> bool {
        false
    }

    open spec fn add_req(self, rhs: Vector<K>) -> bool {
        self@.len() == rhs@.len()
    }

    open spec fn add_spec(self, rhs: Vector<K>) -> Vector<K> {
        arbitrary()
    }
}

/// `u - v` is `sub_mut` on `u`, for vectors of one size.
impl<K: Scalar> core::ops::Sub for Vector<K> {
    type Output = Vector<K>;

    fn sub(self, rhs: Vector<K>) -> (r: Vector<K>)
        ensures
            r@ == sub_seq(self@, rhs@),
    {
        let mut r = self;
        let _ = r.sub_mut(&rhs);
        r
    }
}

/// As for `+`, `sub` states its result in its own `ensures`.
impl<K: Scalar> vstd::std_specs::ops::SubSpecImpl for Vector<K> {
    open spec fn obeys_sub_spec() -> bool {
        false
    }

    open spec fn sub_req(self, rhs: Vector<K>) -> bool {
        self@.len() == rhs@.len()
    }

    open spec fn sub_spec(self, rhs: Vector<K>) -> Vector<K> {
        arbitrary()
    }
}

/// `u * a` is `scl` on `u`.
impl<K: Scalar> core::ops::Mul<K> for Vector<K> {
    type Output = Vector<K>;

    fn mul(self, rhs: K) -> (r: Vector<K>)
        ensures
            r@ == scale_seq(self@, rhs),
    {
        let mut r = self;
        r.scl(rhs);
        r
    }
}

/// As for `+`, `mul` states its result in its own `ensures`.
impl<K: Scalar> vstd::std_specs::ops::MulSpecImpl<K> for Vector<K> {
    open spec fn obeys_mul_spec() -> bool {
        false
    }

    open spec fn mul_req(self, rhs: K) -> bool {
        true
    }

    open spec fn mul_spec(self, rhs: K) -> Vector<K> {
        arbitrary()
    }
}

/// `u += v` is `add_mut`, for vectors of one size.
impl<K: Scalar> core::ops::AddAssign for Vector<K> {
    fn add_assign(&mut self, rhs: Vector<K>)
        requires
            old(self)@.len() == rhs@.len(),
        ensures
            final(self)@ == add_seq(old(self)@, rhs@),
    {
        let _ = self.add_mut(&rhs);
    }
}

/// `u -= v` is `sub_mut`, for vectors of one size.
impl<K: Scalar> core::ops::SubAssign for Vector<K> {
    fn sub_assign(&mut self, rhs: Vector<K>)
        requires
            old(self)@.len() == rhs@.len(),
        ensures
            final(self)@ == sub_seq(old(self)@, rhs@),
    {
        let _ = self.sub_mut(&rhs);
    }
}

/// `u *= a` is `scl`.
impl<K: Scalar> core::ops::MulAssign<K> for Vector<K> {
    fn mul_assign(&mut self, rhs: K)
        ensures
            final(self)@ == scale_seq(old(self)@, rhs),
    {
        self.scl(rhs);
    }
}

/// Adding `v` to `u` and then subtracting `v` gives `u` back.
pub proof fn law_add_sub_round_trip<K: Scalar>(u: Vector<K>, v: Vector<K>)
    requires
        u@.len() == v@.len(),
    ensures
        sub_seq(add_seq(u@, v@), v@) == u@,
{
    assert forall|i: int| 0 <= i < u@.len() implies sub_seq(add_seq(u@, v@), v@)[i] == u@[i] by {
        K::lemma_plus_minus(u@[i], v@[i]);
    }
    assert(sub_seq(add_seq(u@, v@), v@) =~= u@);
}

/// Scaling by one leaves a vector as it is.
pub proof fn law_scale_by_one<K: Scalar>(u: Vector<K>)
    ensures
        scale_seq(u@, K::spec_one()) == u@,
{
    assert forall|i: int| 0 <= i < u@.len() implies scale_seq(u@, K::spec_one())[i] == u@[i] by {
        K::lemma_times_one(u@[i]);
    }
    assert(scale_seq(u@, K::spec_one()) =~= u@);
}

/// Scaling by `a` and then by `b` is scaling by `a * b`.
pub proof fn law_scale_twice<K: Scalar>(u: Vector<K>, a: K, b: K)
    ensures
        scale_seq(scale_seq(u@, a), b) == scale_seq(u@, K::spec_times(a, b)),
{
    assert forall|i: int| 0 <= i < u@.len() implies scale_seq(scale_seq(u@, a), b)[i] == scale_seq(
        u@,
        K::spec_times(a, b),
    )[i] by {
        K::lemma_times_associative(u@[i], a, b);
    }
    assert(scale_seq(scale_seq(u@, a), b) =~= scale_seq(u@, K::spec_times(a, b)));
}

proof fn lemma_dot_prefix_symmetric<K: Scalar>(u: Seq<K>, v: Seq<K>, n: nat)
    requires
        n <= u.len(),
        n <= v.len(),
    ensures
        dot_prefix(u, v, n) == dot_prefix(v, u, n),
    decreases n,
{
    if n > 0 {
        lemma_dot_prefix_symmetric(u, v, (n - 1) as nat);
        K::lemma_times_commutative(u[n - 1], v[n - 1]);
    }
}

/// The dot product does not depend on the order of its operands.
pub proof fn law_dot_symmetric<K: Scalar>(u: Vector<K>, v: Vector<K>)
    requires
        u@.len() == v@.len(),
    ensures
        dot_seq(u@, v@) == dot_seq(v@, u@),
{
    lemma_dot_prefix_symmetric(u@, v@, u@.len());
}

} // verus!
