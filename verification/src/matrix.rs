//! Sparse matrices, dense vectors, and the evaluation engine.
//!
//! A sparse matrix is an ordered sequence of rows, each row an
//! unordered list of `(wire, coefficient)` entries; zero coefficients
//! are never stored. `prod` multiplies a matrix by the implicit
//! assignment vector `z = (1, x, w)` without materializing either in
//! dense form. Dense vectors carry the elementwise algebra that the
//! satisfiability checks need.

use vstd::arithmetic::div_mod::{
    lemma_mod_add_multiples_vanish, lemma_mod_self_0, lemma_small_mod,
};
use vstd::prelude::*;

use crate::field::{
    f_add, f_mul, f_neg, f_sub, fp_add, fp_eq, fp_is_reduced, fp_mul, fp_one, fp_order, fp_reduced,
    fp_sub, fp_val, fp_zero,
};
use crate::wire::{resolve, wire_ok, Wire};

verus! {

/// One stored entry of a sparse matrix: a wire and its coefficient.
/// Callers keep zero coefficients out; the engine does not re-check.
#[derive(Clone, Copy, Debug)]
pub struct Element(pub Wire, pub jub_jub::Fp);

impl View for Element {
    type V = (Wire, nat);

    open spec fn view(&self) -> (Wire, nat) {
        (self.0, fp_val(self.1))
    }
}

impl Element {
    /// The entry as a wire / coefficient pair: the stored fields
    /// themselves, returned by value.
    pub fn get(&self) -> (r: (Wire, jub_jub::Fp))
        ensures
            r == (self.0, self.1),
    {
        (self.0, self.1)
    }
}

/// The view of one row: its entries as wire / canonical-value pairs.
pub open spec fn row_view(row: Seq<Element>) -> Seq<(Wire, nat)> {
    row.map_values(|e: Element| e@)
}

/// The value of a row under an assignment: the field sum, in storage
/// order, of `coefficient * resolve(wire)` over the stored entries.
pub open spec fn row_value(row: Seq<(Wire, nat)>, x: Seq<nat>, w: Seq<nat>) -> nat
    decreases row.len(),
{
    if row.len() == 0 {
        0
    } else {
        f_add(
            row_value(row.drop_last(), x, w),
            f_mul(row.last().1, resolve(row.last().0, x, w)),
        )
    }
}

/// The matrix-vector product `M · z` as a sequence of `m` row values.
pub open spec fn mat_vec_prod(mx: Seq<Seq<(Wire, nat)>>, m: nat, x: Seq<nat>, w: Seq<nat>) -> Seq<
    nat,
> {
    Seq::new(m, |i: int| row_value(mx[i], x, w))
}

/// Every wire of the matrix resolves inside vectors of the given lengths.
pub open spec fn matrix_wires_ok(mx: Seq<Seq<(Wire, nat)>>, lx: nat, lw: nat) -> bool {
    forall|i: int, j: int|
        0 <= i < mx.len() && 0 <= j < mx[i].len() ==> wire_ok((#[trigger] mx[i][j]).0, lx, lw)
}

/// A row's value is a canonical field value: it lies below the order.
pub proof fn lemma_row_value_lt_order(row: Seq<(Wire, nat)>, x: Seq<nat>, w: Seq<nat>)
    ensures
        row_value(row, x, w) < crate::field::fp_order(),
    decreases row.len(),
{
    if row.len() != 0 {
        lemma_row_value_lt_order(row.drop_last(), x, w);
    }
}

/// A matrix stored as per-row lists of nonzero entries; the implicit
/// row count must match the structure's declared `m`.
#[derive(Clone, Debug)]
pub struct SparseMatrix(pub Vec<Vec<Element>>);

impl View for SparseMatrix {
    type V = Seq<Seq<(Wire, nat)>>;

    open spec fn view(&self) -> Seq<Seq<(Wire, nat)>> {
        self.0@.map_values(|row: Vec<Element>| row_view(row@))
    }
}

/// Structural identity of two sparse matrices: the same rows, entry
/// for entry, down to the stored field elements.
pub open spec fn same_entries(a: SparseMatrix, b: SparseMatrix) -> bool {
    &&& a.0@.len() == b.0@.len()
    &&& forall|i: int| 0 <= i < a.0@.len() ==> (#[trigger] a.0@[i])@ == b.0@[i]@
}

impl SparseMatrix {
    /// Every stored coefficient is a reduced field element.
    pub open spec fn reduced(self) -> bool {
        forall|i: int, j: int|
            0 <= i < self.0@.len() && 0 <= j < self.0@[i]@.len() ==> fp_reduced(
                (#[trigger] self.0@[i]@[j]).1,
            )
    }

    /// Run-time test of [`SparseMatrix::reduced`], for elements that
    /// entered through the public fields.
    pub fn is_reduced(&self) -> (r: bool)
        ensures
            r == self.reduced(),
    {
        let rows = self.0.len();
        let mut i: usize = 0;
        while i < rows
            invariant
                i <= rows,
                rows == self.0@.len(),
                forall|k: int, j: int|
                    0 <= k < i && 0 <= j < self.0@[k]@.len() ==> fp_reduced(
                        (#[trigger] self.0@[k]@[j]).1,
                    ),
            decreases rows - i,
        {
            let row: &Vec<Element> = &self.0[i];
            let mut j: usize = 0;
            while j < row.len()
                invariant
                    j <= row@.len(),
                    0 <= i < self.0@.len(),
                    row@ == self.0@[i as int]@,
                    forall|jj: int|
                        0 <= jj < j ==> fp_reduced((#[trigger] self.0@[i as int]@[jj]).1),
                decreases row@.len() - j,
            {
                if !fp_is_reduced(&row[j].1) {
                    assert(!fp_reduced(self.0@[i as int]@[j as int].1));
                    return false;
                }
                j = j + 1;
            }
            i = i + 1;
        }
        true
    }

    /// Multiply the matrix by the implicit assignment `z = (1, x, w)`:
    /// a dense vector of length `m` whose entry `i` is the field sum of
    /// `coefficient * resolve(wire)` over the entries stored in row `i`.
    pub fn prod(&self, m: usize, x: &DenseVectors, w: &DenseVectors) -> (r: DenseVectors)
        requires
            self@.len() == m,
            matrix_wires_ok(self@, x@.len(), w@.len()),
            self.reduced(),
            x.reduced(),
            w.reduced(),
        ensures
            r@ == mat_vec_prod(self@, m as nat, x@, w@),
            r.reduced(),
    {
        let mut out: Vec<jub_jub::Fp> = Vec::new();
        let mut i: usize = 0;
        while i < m
            invariant
                i <= m,
                self@.len() == m,
                matrix_wires_ok(self@, x@.len(), w@.len()),
                self.reduced(),
                x.reduced(),
                w.reduced(),
                out@.len() == i,
                forall|k: int|
                    0 <= k < i ==> fp_val(#[trigger] out@[k]) == row_value(self@[k], x@, w@),
                forall|k: int| 0 <= k < i ==> fp_reduced(#[trigger] out@[k]),
            decreases m - i,
        {
            let row: &Vec<Element> = &self.0[i];
            let mut sum = fp_zero();
            let mut j: usize = 0;
            while j < row.len()
                invariant
                    j <= row@.len(),
                    0 <= i < self@.len(),
                    self@.len() == self.0@.len(),
                    matrix_wires_ok(self@, x@.len(), w@.len()),
                    self.reduced(),
                    x.reduced(),
                    w.reduced(),
                    row@ == self.0@[i as int]@,
                    row_view(row@) == self@[i as int],
                    x@.len() == x.0@.len(),
                    w@.len() == w.0@.len(),
                    fp_val(sum) == row_value(self@[i as int].take(j as int), x@, w@),
                    fp_reduced(sum),
                decreases row@.len() - j,
            {
                let e: &Element = &row[j];
                assert(e == self.0@[i as int]@[j as int]);
                assert(fp_reduced(self.0@[i as int]@[j as int].1));
                assert(e@ == self@[i as int][j as int]);
                assert(wire_ok(self@[i as int][j as int].0, x@.len(), w@.len()));
                let value: jub_jub::Fp = match e.0 {
                    Wire::One => fp_one(),
                    Wire::Instance(k) => x.0[k],
                    Wire::Witness(k) => w.0[k],
                };
                assert(fp_val(value) == resolve(e@.0, x@, w@));
                assert(fp_reduced(value));
                let term = fp_mul(&e.1, &value);
                sum = fp_add(&sum, &term);
                proof {
                    let full = self@[i as int];
                    assert(full.take(j + 1).drop_last() =~= full.take(j as int));
                    assert(full.take(j + 1).last() == full[j as int]);
                }
                j = j + 1;
            }
            proof {
                assert(self@[i as int].take(row@.len() as int) =~= self@[i as int]);
            }
            out.push(sum);
            i = i + 1;
        }
        let r = DenseVectors(out);
        proof {
            assert(r@ =~= mat_vec_prod(self@, m as nat, x@, w@));
        }
        r
    }

    /// Whether the matrix has exactly `m` rows and every stored wire
    /// resolves inside vectors of lengths `lx` and `lw`.
    pub fn well_shaped(&self, m: usize, lx: usize, lw: usize) -> (r: bool)
        ensures
            r == (self@.len() == m && matrix_wires_ok(self@, lx as nat, lw as nat)),
    {
        if self.0.len() != m {
            return false;
        }
        let rows = self.0.len();
        let mut i: usize = 0;
        while i < rows
            invariant
                i <= rows,
                rows == self.0@.len(),
                rows == self@.len(),
                forall|k: int, j: int|
                    0 <= k < i && 0 <= j < self@[k].len() ==> wire_ok(
                        (#[trigger] self@[k][j]).0,
                        lx as nat,
                        lw as nat,
                    ),
            decreases rows - i,
        {
            let row: &Vec<Element> = &self.0[i];
            let mut j: usize = 0;
            while j < row.len()
                invariant
                    j <= row@.len(),
                    0 <= i < self@.len(),
                    row_view(row@) == self@[i as int],
                    forall|jj: int|
                        0 <= jj < j ==> wire_ok(
                            (#[trigger] self@[i as int][jj]).0,
                            lx as nat,
                            lw as nat,
                        ),
                decreases row@.len() - j,
            {
                let e: &Element = &row[j];
                assert(e@ == self@[i as int][j as int]);
                let ok: bool = match e.0 {
                    Wire::One => true,
                    Wire::Instance(k) => k < lx,
                    Wire::Witness(k) => k < lw,
                };
                assert(ok == wire_ok(self@[i as int][j as int].0, lx as nat, lw as nat));
                if !ok {
                    return false;
                }
                j = j + 1;
            }
            i = i + 1;
        }
        true
    }

    /// A structurally identical copy of the matrix: the same entries,
    /// field elements included.
    pub fn duplicate(&self) -> (r: SparseMatrix)
        ensures
            same_entries(r, *self),
            r@ == self@,
    {
        let rows = self.0.len();
        let mut out: Vec<Vec<Element>> = Vec::new();
        let mut i: usize = 0;
        while i < rows
            invariant
                i <= rows,
                rows == self.0@.len(),
                out@.len() == i,
                forall|k: int| 0 <= k < i ==> (#[trigger] out@[k])@ == self.0@[k]@,
            decreases rows - i,
        {
            let row: &Vec<Element> = &self.0[i];
            let mut out_row: Vec<Element> = Vec::new();
            let mut j: usize = 0;
            while j < row.len()
                invariant
                    j <= row@.len(),
                    0 <= i < self.0@.len(),
                    row@ == self.0@[i as int]@,
                    out_row@ =~= row@.take(j as int),
                decreases row@.len() - j,
            {
                out_row.push(row[j]);
                j = j + 1;
            }
            proof {
                assert(out_row@ =~= self.0@[i as int]@);
            }
            out.push(out_row);
            i = i + 1;
        }
        let r = SparseMatrix(out);
        proof {
            assert(same_entries(r, *self));
            assert(r@ =~= self@);
        }
        r
    }
}

/// The all-zero sequence of length `m`.
pub open spec fn zero_seq(m: nat) -> Seq<nat> {
    Seq::new(m, |i: int| 0nat)
}

/// The all-one sequence of length `m`: the Hadamard identity.
pub open spec fn one_seq(m: nat) -> Seq<nat> {
    Seq::new(m, |i: int| 1nat)
}

/// Elementwise field addition.
pub open spec fn add_seq(u: Seq<nat>, v: Seq<nat>) -> Seq<nat> {
    Seq::new(u.len(), |i: int| f_add(u[i], v[i]))
}

/// Elementwise field subtraction.
pub open spec fn sub_seq(u: Seq<nat>, v: Seq<nat>) -> Seq<nat> {
    Seq::new(u.len(), |i: int| f_sub(u[i], v[i]))
}

/// Elementwise (Hadamard) field multiplication.
pub open spec fn had_seq(u: Seq<nat>, v: Seq<nat>) -> Seq<nat> {
    Seq::new(u.len(), |i: int| f_mul(u[i], v[i]))
}

/// Multiplication of every entry by the scalar `c`.
pub open spec fn scale_seq(u: Seq<nat>, c: nat) -> Seq<nat> {
    Seq::new(u.len(), |i: int| f_mul(u[i], c))
}

/// An ordered sequence of field elements of fixed length, with the
/// elementwise algebra the satisfiability checks need. Two dense
/// vectors are equal exactly when all positions are equal.
#[derive(Clone, Debug)]
pub struct DenseVectors(pub Vec<jub_jub::Fp>);

impl View for DenseVectors {
    type V = Seq<nat>;

    open spec fn view(&self) -> Seq<nat> {
        self.0@.map_values(|e: jub_jub::Fp| fp_val(e))
    }
}

impl DenseVectors {
    /// Every entry is a reduced field element.
    pub open spec fn reduced(self) -> bool {
        forall|i: int| 0 <= i < self.0@.len() ==> fp_reduced(#[trigger] self.0@[i])
    }

    /// Run-time test of [`DenseVectors::reduced`], for elements that
    /// entered through the public field.
    pub fn is_reduced(&self) -> (r: bool)
        ensures
            r == self.reduced(),
    {
        let n = self.0.len();
        let mut i: usize = 0;
        while i < n
            invariant
                i <= n,
                n == self.0@.len(),
                forall|k: int| 0 <= k < i ==> fp_reduced(#[trigger] self.0@[k]),
            decreases n - i,
        {
            if !fp_is_reduced(&self.0[i]) {
                assert(!fp_reduced(self.0@[i as int]));
                return false;
            }
            i = i + 1;
        }
        true
    }

    /// The number of entries.
    pub fn len(&self) -> (r: usize)
        ensures
            r == self@.len(),
    {
        self.0.len()
    }

    /// The all-zero vector of length `m`.
    pub fn zero(m: usize) -> (r: DenseVectors)
        ensures
            r@ == zero_seq(m as nat),
            r.reduced(),
    {
        let mut out: Vec<jub_jub::Fp> = Vec::new();
        let mut i: usize = 0;
        while i < m
            invariant
                i <= m,
                out@.len() == i,
                forall|k: int| 0 <= k < i ==> fp_val(#[trigger] out@[k]) == 0,
                forall|k: int| 0 <= k < i ==> fp_reduced(#[trigger] out@[k]),
            decreases m - i,
        {
            out.push(fp_zero());
            i = i + 1;
        }
        let r = DenseVectors(out);
        proof {
            assert(r@ =~= zero_seq(m as nat));
        }
        r
    }

    /// The all-one vector of length `m`: the identity of the Hadamard
    /// product.
    pub fn identity(m: usize) -> (r: DenseVectors)
        ensures
            r@ == one_seq(m as nat),
            r.reduced(),
    {
        let mut out: Vec<jub_jub::Fp> = Vec::new();
        let mut i: usize = 0;
        while i < m
            invariant
                i <= m,
                out@.len() == i,
                forall|k: int| 0 <= k < i ==> fp_val(#[trigger] out@[k]) == 1,
                forall|k: int| 0 <= k < i ==> fp_reduced(#[trigger] out@[k]),
            decreases m - i,
        {
            out.push(fp_one());
            i = i + 1;
        }
        let r = DenseVectors(out);
        proof {
            assert(r@ =~= one_seq(m as nat));
        }
        r
    }

    /// Elementwise sum of two vectors of equal length.
    pub fn add(&self, rhs: &DenseVectors) -> (r: DenseVectors)
        requires
            self@.len() == rhs@.len(),
            self.reduced(),
            rhs.reduced(),
        ensures
            r@ == add_seq(self@, rhs@),
            r.reduced(),
    {
        let n = self.0.len();
        let mut out: Vec<jub_jub::Fp> = Vec::new();
        let mut i: usize = 0;
        while i < n
            invariant
                i <= n,
                n == self@.len(),
                self@.len() == rhs@.len(),
                n == self.0@.len(),
                n == rhs.0@.len(),
                out@.len() == i,
                self.reduced(),
                rhs.reduced(),
                forall|k: int|
                    0 <= k < i ==> fp_val(#[trigger] out@[k]) == f_add(self@[k], rhs@[k]),
                forall|k: int| 0 <= k < i ==> fp_reduced(#[trigger] out@[k]),
            decreases n - i,
        {
            out.push(fp_add(&self.0[i], &rhs.0[i]));
            i = i + 1;
        }
        let r = DenseVectors(out);
        proof {
            assert(r@ =~= add_seq(self@, rhs@));
        }
        r
    }

    /// Elementwise difference of two vectors of equal length.
    pub fn sub(&self, rhs: &DenseVectors) -> (r: DenseVectors)
        requires
            self@.len() == rhs@.len(),
            self.reduced(),
            rhs.reduced(),
        ensures
            r@ == sub_seq(self@, rhs@),
            r.reduced(),
    {
        let n = self.0.len();
        let mut out: Vec<jub_jub::Fp> = Vec::new();
        let mut i: usize = 0;
        while i < n
            invariant
                i <= n,
                n == self@.len(),
                self@.len() == rhs@.len(),
                n == self.0@.len(),
                n == rhs.0@.len(),
                out@.len() == i,
                self.reduced(),
                rhs.reduced(),
                forall|k: int|
                    0 <= k < i ==> fp_val(#[trigger] out@[k]) == f_sub(self@[k], rhs@[k]),
                forall|k: int| 0 <= k < i ==> fp_reduced(#[trigger] out@[k]),
            decreases n - i,
        {
            out.push(fp_sub(&self.0[i], &rhs.0[i]));
            i = i + 1;
        }
        let r = DenseVectors(out);
        proof {
            assert(r@ =~= sub_seq(self@, rhs@));
        }
        r
    }

    /// Hadamard product: the elementwise product of two vectors of
    /// equal length. The result has the same length, and its entry `i`
    /// is the field product of the operands' entries `i`.
    pub fn hadamard(&self, rhs: &DenseVectors) -> (r: DenseVectors)
        requires
            self@.len() == rhs@.len(),
            self.reduced(),
            rhs.reduced(),
        ensures
            r@ == had_seq(self@, rhs@),
            r.reduced(),
            r@.len() == self@.len(),
            forall|k: int| 0 <= k < self@.len() ==> r@[k] == f_mul(self@[k], rhs@[k]),
    {
        let n = self.0.len();
        let mut out: Vec<jub_jub::Fp> = Vec::new();
        let mut i: usize = 0;
        while i < n
            invariant
                i <= n,
                n == self@.len(),
                self@.len() == rhs@.len(),
                n == self.0@.len(),
                n == rhs.0@.len(),
                out@.len() == i,
                self.reduced(),
                rhs.reduced(),
                forall|k: int|
                    0 <= k < i ==> fp_val(#[trigger] out@[k]) == f_mul(self@[k], rhs@[k]),
                forall|k: int| 0 <= k < i ==> fp_reduced(#[trigger] out@[k]),
            decreases n - i,
        {
            out.push(fp_mul(&self.0[i], &rhs.0[i]));
            i = i + 1;
        }
        let r = DenseVectors(out);
        proof {
            assert(r@ =~= had_seq(self@, rhs@));
        }
        r
    }

    /// Multiplication of every entry by the scalar `c`.
    pub fn scale(&self, c: &jub_jub::Fp) -> (r: DenseVectors)
        requires
            self.reduced(),
            fp_reduced(*c),
        ensures
            r@ == scale_seq(self@, fp_val(*c)),
            r.reduced(),
    {
        let n = self.0.len();
        let mut out: Vec<jub_jub::Fp> = Vec::new();
        let mut i: usize = 0;
        while i < n
            invariant
                i <= n,
                n == self@.len(),
                n == self.0@.len(),
                out@.len() == i,
                self.reduced(),
                fp_reduced(*c),
                forall|k: int|
                    0 <= k < i ==> fp_val(#[trigger] out@[k]) == f_mul(self@[k], fp_val(*c)),
                forall|k: int| 0 <= k < i ==> fp_reduced(#[trigger] out@[k]),
            decreases n - i,
        {
            out.push(fp_mul(&self.0[i], c));
            i = i + 1;
        }
        let r = DenseVectors(out);
        proof {
            assert(r@ =~= scale_seq(self@, fp_val(*c)));
        }
        r
    }

    /// Position-by-position field equality of two vectors of equal
    /// length.
    pub fn equals(&self, rhs: &DenseVectors) -> (r: bool)
        requires
            self@.len() == rhs@.len(),
        ensures
            r == (self@ == rhs@),
    {
        let n = self.0.len();
        let mut i: usize = 0;
        while i < n
            invariant
                i <= n,
                n == self@.len(),
                self@.len() == rhs@.len(),
                n == self.0@.len(),
                n == rhs.0@.len(),
                forall|k: int| 0 <= k < i ==> self@[k] == rhs@[k],
            decreases n - i,
        {
            if !fp_eq(&self.0[i], &rhs.0[i]) {
                assert(self@[i as int] != rhs@[i as int]);
                return false;
            }
            i = i + 1;
        }
        proof {
            assert(self@ =~= rhs@);
        }
        true
    }

    /// Whether every entry is the additive identity.
    pub fn is_zero(&self) -> (r: bool)
        ensures
            r == (self@ == zero_seq(self@.len())),
    {
        let n = self.0.len();
        let mut i: usize = 0;
        while i < n
            invariant
                i <= n,
                n == self@.len(),
                n == self.0@.len(),
                forall|k: int| 0 <= k < i ==> self@[k] == 0,
            decreases n - i,
        {
            let z = fp_zero();
            if !fp_eq(&self.0[i], &z) {
                assert(self@[i as int] != zero_seq(self@.len())[i as int]);
                return false;
            }
            i = i + 1;
        }
        proof {
            assert(self@ =~= zero_seq(self@.len()));
        }
        true
    }

    /// An entrywise identical copy of the vector: the same field
    /// elements, position by position.
    pub fn duplicate(&self) -> (r: DenseVectors)
        ensures
            r.0@ == self.0@,
            r@ == self@,
    {
        let n = self.0.len();
        let mut out: Vec<jub_jub::Fp> = Vec::new();
        let mut i: usize = 0;
        while i < n
            invariant
                i <= n,
                n == self.0@.len(),
                out@ =~= self.0@.take(i as int),
            decreases n - i,
        {
            out.push(self.0[i]);
            i = i + 1;
        }
        let r = DenseVectors(out);
        proof {
            assert(r.0@ =~= self.0@);
        }
        r
    }
}

/// Structurally identical matrices agree on reduced-ness.
pub proof fn lemma_same_entries_reduced(a: SparseMatrix, b: SparseMatrix)
    requires
        same_entries(a, b),
        b.reduced(),
    ensures
        a.reduced(),
{
    assert forall|i: int, j: int|
        0 <= i < a.0@.len() && 0 <= j < a.0@[i]@.len() implies fp_reduced(
        (#[trigger] a.0@[i]@[j]).1,
    ) by {
        assert(a.0@[i]@ == b.0@[i]@);
        assert(fp_reduced(b.0@[i]@[j].1));
    }
}

/// Additive zero absorption: summing the all-zero vector with any
/// vector of canonical field values yields the vector unchanged.
pub proof fn lemma_zero_add_identity(v: Seq<nat>)
    requires
        forall|i: int| 0 <= i < v.len() ==> v[i] < fp_order(),
    ensures
        add_seq(zero_seq(v.len()), v) == v,
{
    assert forall|i: int| 0 <= i < v.len() implies add_seq(zero_seq(v.len()), v)[i] == v[i] by {
        lemma_small_mod(v[i], fp_order());
    }
    assert(add_seq(zero_seq(v.len()), v) =~= v);
}

/// Scaling by the multiplicative identity returns the vector
/// unchanged, entry for entry, for canonical field values.
pub proof fn lemma_scale_one_identity(v: Seq<nat>)
    requires
        forall|i: int| 0 <= i < v.len() ==> v[i] < fp_order(),
    ensures
        scale_seq(v, 1) == v,
{
    assert forall|i: int| 0 <= i < v.len() implies scale_seq(v, 1)[i] == v[i] by {
        lemma_small_mod(v[i], fp_order());
    }
    assert(scale_seq(v, 1) =~= v);
}

/// The all-one vector is the identity of the Hadamard product — the
/// seed of the per-multiset fold — for canonical field values.
pub proof fn lemma_hadamard_one_identity(v: Seq<nat>)
    requires
        forall|i: int| 0 <= i < v.len() ==> v[i] < fp_order(),
    ensures
        had_seq(one_seq(v.len()), v) == v,
{
    assert forall|i: int| 0 <= i < v.len() implies had_seq(one_seq(v.len()), v)[i] == v[i] by {
        assert(one_seq(v.len())[i] == 1);
        assert(had_seq(one_seq(v.len()), v)[i] == f_mul(1, v[i]));
        lemma_small_mod(v[i], fp_order());
        assert(f_mul(1, v[i]) == v[i]);
    }
    assert(had_seq(one_seq(v.len()), v) =~= v);
}

/// Subtraction exactly inverts addition: `(u + v) - v == u` entry for
/// entry, for canonical field values — field arithmetic is exact.
pub proof fn lemma_sub_inverts_add(u: Seq<nat>, v: Seq<nat>)
    requires
        u.len() == v.len(),
        forall|i: int| 0 <= i < u.len() ==> u[i] < fp_order(),
        forall|i: int| 0 <= i < v.len() ==> v[i] < fp_order(),
    ensures
        sub_seq(add_seq(u, v), v) == u,
{
    let p = fp_order();
    assert forall|i: int| 0 <= i < u.len() implies sub_seq(add_seq(u, v), v)[i] == u[i] by {
        let a = u[i];
        let b = v[i];
        lemma_small_mod(a, p);
        lemma_small_mod(b, p);
        let s = f_add(a, b);
        if b == 0 {
            lemma_mod_self_0(p as int);
            assert(f_neg(b) == 0);
            assert(s == a);
            assert(f_add(s, 0) == a);
        } else {
            lemma_small_mod((p - b) as nat, p);
            assert(f_neg(b) == (p - b) as nat);
            if a + b < p {
                lemma_small_mod((a + b) as nat, p);
                assert(s == a + b);
                lemma_mod_add_multiples_vanish(a as int, p as int);
                assert(f_add(s, (p - b) as nat) == a);
            } else {
                lemma_mod_add_multiples_vanish((a + b - p) as int, p as int);
                lemma_small_mod((a + b - p) as nat, p);
                assert(s == a + b - p);
                assert(f_add(s, (p - b) as nat) == a);
            }
        }
    }
    assert(sub_seq(add_seq(u, v), v) =~= u);
}

} // verus!
