//! Matrices: sequences of column vectors of one length.
use crate::error::DimensionMismatch;
use crate::scalar::Scalar;
use crate::vector::{add_seq, copy_slice, scale_seq, sub_seq, Vector};
use vstd::prelude::*;

verus! {

/// `a` and `b` have as many columns, and each column of `a` is as long as
/// the column of `b` at its place.
pub open spec fn columns_agree<K>(a: Seq<Seq<K>>, b: Seq<Seq<K>>) -> bool {
    &&& a.len() == b.len()
    &&& forall|j: int| 0 <= j < a.len() ==> #[trigger] a[j].len() == b[j].len()
}

/// The number of columns, and the length of the first column (zero where
/// there is none).
pub open spec fn shape_of<K>(a: Seq<Seq<K>>) -> (nat, nat) {
    (a.len(), if a.len() == 0 { 0 } else { a[0].len() })
}

/// Every column is as long as the first.
pub open spec fn rectangular<K>(a: Seq<Seq<K>>) -> bool {
    forall|j: int| 0 <= j < a.len() ==> #[trigger] a[j].len() == shape_of(a).1
}

/// The column-wise sum of `a` and `b`.
pub open spec fn add_cols<K: Scalar>(a: Seq<Seq<K>>, b: Seq<Seq<K>>) -> Seq<Seq<K>> {
    Seq::new(a.len(), |j: int| add_seq(a[j], b[j]))
}

/// The column-wise difference of `a` and `b`.
pub open spec fn sub_cols<K: Scalar>(a: Seq<Seq<K>>, b: Seq<Seq<K>>) -> Seq<Seq<K>> {
    Seq::new(a.len(), |j: int| sub_seq(a[j], b[j]))
}

/// Every column of `a` scaled by `x`.
pub open spec fn scale_cols<K: Scalar>(a: Seq<Seq<K>>, x: K) -> Seq<Seq<K>> {
    Seq::new(a.len(), |j: int| scale_seq(a[j], x))
}

/// For rectangular matrices, columns agree exactly where shapes are equal.
pub proof fn lemma_agree_iff_same_shape<K>(a: Seq<Seq<K>>, b: Seq<Seq<K>>)
    requires
        rectangular(a),
        rectangular(b),
    ensures
        columns_agree(a, b) <==> shape_of(a) == shape_of(b),
{
    if a.len() == b.len() && a.len() > 0 {
        if shape_of(a) == shape_of(b) {
            assert forall|j: int| 0 <= j < a.len() implies #[trigger] a[j].len() == b[j].len() by {
                assert(a[j].len() == shape_of(a).1);
                assert(b[j].len() == shape_of(b).1);
            }
        }
        if columns_agree(a, b) {
            assert(a[0].len() == b[0].len());
        }
    }
}

/// A matrix: its columns, in order. A well-formed matrix has columns of one
/// length.
#[derive(Debug)]
pub struct Matrix<K> {
    pub m: Vector<Vector<K>>,
}

impl<K> View for Matrix<K> {
    type V = Seq<Seq<K>>;

    open spec fn view(&self) -> Seq<Seq<K>> {
        self.m@.map_values(|c: Vector<K>| c@)
    }
}

impl<K> Matrix<K> {
    /// Every column has the length of the first.
    pub open spec fn wf(&self) -> bool {
        rectangular(self@)
    }

    /// A matrix of the columns of `m`, in order.
    pub fn new(m: Vector<Vector<K>>) -> (r: Self)
        ensures
            r.m == m,
    {
        Matrix { m }
    }

    /// The number of columns, and the length of the first column (zero
    /// where there is none).
    pub fn shape(&self) -> (r: (usize, usize))
        ensures
            (r.0 as nat, r.1 as nat) == shape_of(self@),
    {
        let cols = self.m.e.len();
        if cols == 0 {
            (0, 0)
        } else {
            (cols, self.m.e[0].size())
        }
    }

    /// The columns.
    pub fn m(&self) -> (r: &Vector<Vector<K>>)
        ensures
            *r == self.m,
    {
        &self.m
    }

    /// The columns, to change in place.
    pub fn m_mut(&mut self) -> (r: &mut Vector<Vector<K>>)
        ensures
            *r == old(self).m,
            final(self).m == *final(r),
    {
        &mut self.m
    }

    /// Replaces the columns by those of `m`.
    pub fn set_m(&mut self, m: Vector<Vector<K>>)
        ensures
            final(self).m == m,
    {
        self.m = m;
    }

    /// Whether `columns_agree` holds of the two matrices.
    fn agrees_with(&self, other: &Matrix<K>) -> (r: bool)
        ensures
            r == columns_agree(self@, other@),
    {
        let n = self.m.e.len();
        if n != other.m.e.len() {
            return false;
        }
        let mut j: usize = 0;
        while j < n
            invariant
                n == self@.len() == other@.len(),
                0 <= j <= n,
                forall|k: int| 0 <= k < j ==> #[trigger] self@[k].len() == other@[k].len(),
            decreases n - j,
        {
            if self.m.e[j].size() != other.m.e[j].size() {
                assert(self@[j as int].len() != other@[j as int].len());
                return false;
            }
            j += 1;
        }
        true
    }
}

impl<K: Scalar> Matrix<K> {
    /// Adds `other` column by column. Matrices whose columns do not agree
    /// are refused, and this one is left as it was; for well-formed
    /// matrices that is when their shapes differ.
    pub fn add_mut(&mut self, other: &Matrix<K>) -> (r: Result<(), DimensionMismatch>)
        ensures
            r is Ok <==> columns_agree(old(self)@, other@),
            old(self).wf() && other.wf() ==> (r is Ok <==> shape_of(old(self)@) == shape_of(
                other@,
            )),
            r is Ok ==> final(self)@ == add_cols(old(self)@, other@),
            r is Err ==> *final(self) == *old(self),
    {
        proof {
            if old(self).wf() && other.wf() {
                lemma_agree_iff_same_shape(old(self)@, other@);
            }
        }
        if !self.agrees_with(other) {
            return Err(DimensionMismatch);
        }
        let n = self.m.e.len();
        let mut j: usize = 0;
        while j < n
            invariant
                n == self@.len() == old(self)@.len() == other@.len(),
                columns_agree(old(self)@, other@),
                0 <= j <= n,
                forall|k: int| 0 <= k < j ==> self@[k] == add_seq(old(self)@[k], other@[k]),
                forall|k: int| j <= k < n ==> self@[k] == old(self)@[k],
            decreases n - j,
        {
            let ghost before = self@;
            let _ = self.m.e[j].add_mut(&other.m.e[j]);
            assert(self@ =~= before.update(j as int, add_seq(before[j as int], other@[j as int])));
            j += 1;
        }
        assert(self@ =~= add_cols(old(self)@, other@));
        Ok(())
    }

    /// Subtracts `other` column by column. Matrices whose columns do not
    /// agree are refused, and this one is left as it was; for well-formed
    /// matrices that is when their shapes differ.
    pub fn sub_mut(&mut self, other: &Matrix<K>) -> (r: Result<(), DimensionMismatch>)
        ensures
            r is Ok <==> columns_agree(old(self)@, other@),
            old(self).wf() && other.wf() ==> (r is Ok <==> shape_of(old(self)@) == shape_of(
                other@,
            )),
            r is Ok ==> final(self)@ == sub_cols(old(self)@, other@),
            r is Err ==> *final(self) == *old(self),
    {
        proof {
            if old(self).wf() && other.wf() {
                lemma_agree_iff_same_shape(old(self)@, other@);
            }
        }
        if !self.agrees_with(other) {
            return Err(DimensionMismatch);
        }
        let n = self.m.e.len();
        let mut j: usize = 0;
        while j < n
            invariant
                n == self@.len() == old(self)@.len() == other@.len(),
                columns_agree(old(self)@, other@),
                0 <= j <= n,
                forall|k: int| 0 <= k < j ==> self@[k] == sub_seq(old(self)@[k], other@[k]),
                forall|k: int| j <= k < n ==> self@[k] == old(self)@[k],
            decreases n - j,
        {
            let ghost before = self@;
            let _ = self.m.e[j].sub_mut(&other.m.e[j]);
            assert(self@ =~= before.update(j as int, sub_seq(before[j as int], other@[j as int])));
            j += 1;
        }
        assert(self@ =~= sub_cols(old(self)@, other@));
        Ok(())
    }

    /// Multiplies every element of every column by `a`.
    pub fn scl(&mut self, a: K)
        ensures
            final(self)@ == scale_cols(old(self)@, a),
    {
        let n = self.m.e.len();
        let mut j: usize = 0;
        while j < n
            invariant
                n == self@.len() == old(self)@.len(),
                0 <= j <= n,
                forall|k: int| 0 <= k < j ==> self@[k] == scale_seq(old(self)@[k], a),
                forall|k: int| j <= k < n ==> self@[k] == old(self)@[k],
            decreases n - j,
        {
            let ghost before = self@;
            self.m.e[j].scl(a);
            assert(self@ =~= before.update(j as int, scale_seq(before[j as int], a)));
            j += 1;
        }
        assert(self@ =~= scale_cols(old(self)@, a));
    }
}

impl<K: Copy> Clone for Matrix<K> {
    fn clone(&self) -> (r: Matrix<K>)
        ensures
            r@ == self@,
    {
        let n = self.m.e.len();
        let mut cols: Vec<Vector<K>> = Vec::new();
        let mut j: usize = 0;
        while j < n
            invariant
                n == self@.len(),
                0 <= j <= n,
                cols@.len() == j,
                forall|k: int| 0 <= k < j ==> #[trigger] cols@[k]@ == self@[k],
            decreases n - j,
        {
            cols.push(self.m.e[j].clone());
            j += 1;
        }
        let r = Matrix { m: Vector { e: cols } };
        assert(r@ =~= self@);
        r
    }
}

/// Each inner `Vec` becomes one column, in order.
impl<K: Copy> From<Vec<Vec<K>>> for Matrix<K> {
    fn from(value: Vec<Vec<K>>) -> (r: Matrix<K>)
        ensures
            r@.len() == value@.len(),
            forall|j: int| 0 <= j < value@.len() ==> #[trigger] r@[j] == value@[j]@,
    {
        let n = value.len();
        let mut cols: Vec<Vector<K>> = Vec::new();
        let mut j: usize = 0;
        while j < n
            invariant
                n == value@.len(),
                0 <= j <= n,
                cols@.len() == j,
                forall|k: int| 0 <= k < j ==> #[trigger] cols@[k]@ == value@[k]@,
            decreases n - j,
        {
            cols.push(Vector { e: copy_slice(value[j].as_slice()) });
            j += 1;
        }
        Matrix { m: Vector { e: cols } }
    }
}

/// The copy holds new `Vec`s, which no spec function can name: what `from`
/// returns is stated by its own `ensures`.
impl<K: Copy> vstd::std_specs::convert::FromSpecImpl<Vec<Vec<K>>> for Matrix<K> {
    open spec fn obeys_from_spec() -> bool {
        false
    }

    open spec fn from_spec(v: Vec<Vec<K>>) -> Matrix<K> {
        arbitrary()
    }
}

/// Each inner array becomes one column, in order.
impl<K: Copy, const N1: usize, const N2: usize> From<[[K; N1]; N2]> for Matrix<K> {
    fn from(value: [[K; N1]; N2]) -> (r: Matrix<K>)
        ensures
            r@.len() == N2,
            forall|j: int| 0 <= j < N2 ==> #[trigger] r@[j] == value@[j]@,
    {
        let mut cols: Vec<Vector<K>> = Vec::new();
        let mut j: usize = 0;
        while j < N2
            invariant
                0 <= j <= N2,
                value@.len() == N2,
                cols@.len() == j,
                forall|k: int| 0 <= k < j ==> #[trigger] cols@[k]@ == value@[k]@,
            decreases N2 - j,
        {
            let col: [K; N1] = value[j];
            cols.push(Vector { e: copy_slice(col.as_slice()) });
            j += 1;
        }
        Matrix { m: Vector { e: cols } }
    }
}

/// As for nested `Vec`s, what `from` returns is stated by its own `ensures`.
impl<K: Copy, const N1: usize, const N2: usize> vstd::std_specs::convert::FromSpecImpl<[[K; N1]; N2]> for Matrix<K> {
    open spec fn obeys_from_spec() -> bool {
        false
    }

    open spec fn from_spec(v: [[K; N1]; N2]) -> Matrix<K> {
        arbitrary()
    }
}

/// `a[j]` is column `j`.
impl<K> core::ops::Index<usize> for Matrix<K> {
    type Output = Vector<K>;

    fn index(&self, index: usize) -> (r: &Vector<K>)
        ensures
            *r == self.m@[index as int],
    {
        &self.m.e[index]
    }
}

impl<K> vstd::std_specs::core::IndexSpecImpl<usize> for Matrix<K> {
    open spec fn index_req(&self, index: &usize) -> bool {
        *index < self.m@.len()
    }
}

/// `a[j]` is column `j`, to change in place.
impl<K> core::ops::IndexMut<usize> for Matrix<K> {
    fn index_mut(&mut self, index: usize) -> (r: &mut Vector<K>)
        requires
            index < old(self).m@.len(),
        ensures
            *r == old(self).m@[index as int],
            final(self).m@ == old(self).m@.update(index as int, *final(r)),
    {
        &mut self.m.e[index]
    }
}

/// `a + b` is `add_mut` on `a`, for matrices whose columns agree.
impl<K: Scalar> core::ops::Add for Matrix<K> {
    type Output = Matrix<K>;

    fn add(self, rhs: Matrix<K>) -> (r: Matrix<K>)
        ensures
            r@ == add_cols(self@, rhs@),
    {
        let mut r = self;
        let _ = r.add_mut(&rhs);
        r
    }
}

/// The sum holds new columns, which no spec function can name: `add`
/// states it in its own `ensures`.
impl<K: Scalar> vstd::std_specs::ops::AddSpecImpl for Matrix<K> {
    open spec fn obeys_add_spec() -> bool {
        false
    }

    open spec fn add_req(self, rhs: Matrix<K>) -> bool {
        columns_agree(self@, rhs@)
    }

    open spec fn add_spec(self, rhs: Matrix<K>) -> Matrix<K> {
        arbitrary()
    }
}

/// `a - b` is `sub_mut` on `a`, for matrices whose columns agree.
impl<K: Scalar> core::ops::Sub for Matrix<K> {
    type Output = Matrix<K>;

    fn sub(self, rhs: Matrix<K>) -> (r: Matrix<K>)
        ensures
            r@ == sub_cols(self@, rhs@),
    {
        let mut r = self;
        let _ = r.sub_mut(&rhs);
        r
    }
}

/// As for `+`, `sub` states its result in its own `ensures`.
impl<K: Scalar> vstd::std_specs::ops::SubSpecImpl for Matrix<K> {
    open spec fn obeys_sub_spec() -> bool {
        false
    }

    open spec fn sub_req(self, rhs: Matrix<K>) -> bool {
        columns_agree(self@, rhs@)
    }

    open spec fn sub_spec(self, rhs: Matrix<K>) -> Matrix<K> {
        arbitrary()
    }
}

/// `a * x` is `scl` on `a`.
impl<K: Scalar> core::ops::Mul<K> for Matrix<K> {
    type Output = Matrix<K>;

    fn mul(self, rhs: K) -> (r: Matrix<K>)
        ensures
            r@ == scale_cols(self@, rhs),
    {
        let mut r = self;
        r.scl(rhs);
        r
    }
}

/// As for `+`, `mul` states its result in its own `ensures`.
impl<K: Scalar> vstd::std_specs::ops::MulSpecImpl<K> for Matrix<K> {
    open spec fn obeys_mul_spec() -> bool {
        false
    }

    open spec fn mul_req(self, rhs: K) -> bool {
        true
    }

    open spec fn mul_spec(self, rhs: K) -> Matrix<K> {
        arbitrary()
    }
}

/// `a += b` is `add_mut`, for matrices whose columns agree.
impl<K: Scalar> core::ops::AddAssign for Matrix<K> {
    fn add_assign(&mut self, rhs: Matrix<K>)
        requires
            columns_agree(old(self)@, rhs@),
        ensures
            final(self)@ == add_cols(old(self)@, rhs@),
    {
        let _ = self.add_mut(&rhs);
    }
}

/// `a -= b` is `sub_mut`, for matrices whose columns agree.
impl<K: Scalar> core::ops::SubAssign for Matrix<K> {
    fn sub_assign(&mut self, rhs: Matrix<K>)
        requires
            columns_agree(old(self)@, rhs@),
        ensures
            final(self)@ == sub_cols(old(self)@, rhs@),
    {
        let _ = self.sub_mut(&rhs);
    }
}

/// `a *= x` is `scl`.
impl<K: Scalar> core::ops::MulAssign<K> for Matrix<K> {
    fn mul_assign(&mut self, rhs: K)
        ensures
            final(self)@ == scale_cols(old(self)@, rhs),
    {
        self.scl(rhs);
    }
}

} // verus!
