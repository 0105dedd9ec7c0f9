//! Rank-1 Constraint Systems.
//!
//! An R1CS holds three sparse matrices `A`, `B`, `C` with `m` rows
//! each; an assignment `z = (1, x, w)` satisfies it when
//! `(A·z) ∘ (B·z) = C·z` position by position. `to_ccs` repackages the
//! structure as the equivalent `t = 3, q = 2` CCS.

use vstd::prelude::*;

use crate::ccs::{lemma_r1cs_embedding, Ccs};
use crate::field::{f_neg, fp_neg, fp_one, fp_reduced};
use crate::matrix::{
    had_seq, lemma_same_entries_reduced, mat_vec_prod, matrix_wires_ok, same_entries, DenseVectors,
    SparseMatrix,
};

verus! {

/// A Rank-1 Constraint System together with an assignment.
#[derive(Clone, Debug)]
pub struct R1cs {
    /// Row count of `A`, `B` and `C`.
    pub m: usize,
    /// Declared total variable count; advisory only.
    pub n: usize,
    /// Length of the public instance vector.
    pub l: usize,
    /// The left matrix.
    pub a: SparseMatrix,
    /// The right matrix.
    pub b: SparseMatrix,
    /// The output matrix.
    pub c: SparseMatrix,
    /// The public instance vector.
    pub x: DenseVectors,
    /// The private witness vector.
    pub w: DenseVectors,
}

impl R1cs {
    /// Structural well-formedness: `A`, `B`, `C` have exactly `m` rows,
    /// every wire resolves inside `x` or `w`, and `l` is the instance
    /// length.
    pub open spec fn wf(self) -> bool {
        &&& self.a@.len() == self.m
        &&& self.b@.len() == self.m
        &&& self.c@.len() == self.m
        &&& matrix_wires_ok(self.a@, self.x@.len(), self.w@.len())
        &&& matrix_wires_ok(self.b@, self.x@.len(), self.w@.len())
        &&& matrix_wires_ok(self.c@, self.x@.len(), self.w@.len())
        &&& self.l == self.x@.len()
    }

    /// Every field element of the system — matrix coefficients,
    /// instance and witness entries — is in reduced form, as the
    /// trusted arithmetic layer demands.
    pub open spec fn reduced(self) -> bool {
        &&& self.a.reduced()
        &&& self.b.reduced()
        &&& self.c.reduced()
        &&& self.x.reduced()
        &&& self.w.reduced()
    }

    /// Run-time test of [`R1cs::reduced`], for elements that entered
    /// through the public fields.
    pub fn is_reduced(&self) -> (r: bool)
        ensures
            r == self.reduced(),
    {
        self.a.is_reduced() && self.b.is_reduced() && self.c.is_reduced() && self.x.is_reduced()
            && self.w.is_reduced()
    }

    /// The product `A · z`.
    pub open spec fn az(self) -> Seq<nat> {
        mat_vec_prod(self.a@, self.m as nat, self.x@, self.w@)
    }

    /// The product `B · z`.
    pub open spec fn bz(self) -> Seq<nat> {
        mat_vec_prod(self.b@, self.m as nat, self.x@, self.w@)
    }

    /// The product `C · z`.
    pub open spec fn cz(self) -> Seq<nat> {
        mat_vec_prod(self.c@, self.m as nat, self.x@, self.w@)
    }

    /// The R1CS relation: `(A·z) ∘ (B·z) = C·z`.
    pub open spec fn sat(self) -> bool {
        had_seq(self.az(), self.bz()) == self.cz()
    }

    /// Assemble an R1CS after validating its shape: `None` exactly
    /// when some matrix has a row count other than `m` or a wire
    /// outside the assignment, or `l` is not the instance length.
    pub fn new(
        m: usize,
        n: usize,
        l: usize,
        a: SparseMatrix,
        b: SparseMatrix,
        c: SparseMatrix,
        x: DenseVectors,
        w: DenseVectors,
    ) -> (r: Option<R1cs>)
        ensures
            (r is Some) <==> (R1cs { m, n, l, a, b, c, x, w }).wf(),
            (r is Some) ==> r->Some_0 == (R1cs { m, n, l, a, b, c, x, w }),
    {
        let lx = x.len();
        let lw = w.len();
        if l != lx {
            return None;
        }
        if !a.well_shaped(m, lx, lw) {
            return None;
        }
        if !b.well_shaped(m, lx, lw) {
            return None;
        }
        if !c.well_shaped(m, lx, lw) {
            return None;
        }
        Some(R1cs { m, n, l, a, b, c, x, w })
    }

    /// Decide the R1CS relation for the stored assignment: compute
    /// `A·z`, `B·z`, `C·z`, Hadamard-combine the first two, and compare
    /// with the third position by position.
    pub fn is_sat(&self) -> (r: bool)
        requires
            self.wf(),
            self.reduced(),
        ensures
            r == self.sat(),
    {
        let az = self.a.prod(self.m, &self.x, &self.w);
        let bz = self.b.prod(self.m, &self.x, &self.w);
        let cz = self.c.prod(self.m, &self.x, &self.w);
        let azbz = az.hadamard(&bz);
        azbz.equals(&cz)
    }

    /// Repackage the structure as a CCS: matrices `[A, B, C]`,
    /// multisets `[[0, 1], [2]]`, constants `[1, -1]`, and the same
    /// `m`, instance and witness. No field computation is involved,
    /// and the resulting CCS is satisfied exactly when the R1CS is.
    pub fn to_ccs(&self) -> (r: Ccs)
        requires
            self.wf(),
        ensures
            r.wf(),
            r.m == self.m,
            r.matrices@.len() == 3,
            same_entries(r.matrices@[0], self.a),
            same_entries(r.matrices@[1], self.b),
            same_entries(r.matrices@[2], self.c),
            r.x.0@ == self.x.0@,
            r.w.0@ == self.w.0@,
            r.x@ == self.x@,
            r.w@ == self.w@,
            r.mats() == seq![self.a@, self.b@, self.c@],
            r.msets() == seq![seq![0usize, 1usize], seq![2usize]],
            r.consts() == seq![1nat, f_neg(1)],
            fp_reduced(r.constants@[0]),
            fp_reduced(r.constants@[1]),
            self.reduced() ==> r.reduced(),
            r.sat() == self.sat(),
    {
        let mut matrices: Vec<SparseMatrix> = Vec::new();
        matrices.push(self.a.duplicate());
        matrices.push(self.b.duplicate());
        matrices.push(self.c.duplicate());
        let mut s0: Vec<usize> = Vec::new();
        s0.push(0);
        s0.push(1);
        let mut s1: Vec<usize> = Vec::new();
        s1.push(2);
        let mut multisets: Vec<Vec<usize>> = Vec::new();
        multisets.push(s0);
        multisets.push(s1);
        let one = fp_one();
        let neg_one = fp_neg(&one);
        let mut constants: Vec<jub_jub::Fp> = Vec::new();
        constants.push(one);
        constants.push(neg_one);
        let x = self.x.duplicate();
        let w = self.w.duplicate();
        let r = Ccs { m: self.m, matrices, multisets, constants, x, w };
        proof {
            assert(r.mats() =~= seq![self.a@, self.b@, self.c@]);
            assert(r.msets() =~~= seq![seq![0usize, 1usize], seq![2usize]]);
            assert(r.consts() =~= seq![1nat, f_neg(1)]);
            assert forall|i: int| 0 <= i < r.matrices@.len() implies (#[trigger] r.mats()[i]).len()
                == r.m && matrix_wires_ok(r.mats()[i], r.x@.len(), r.w@.len()) by {
                assert(r.mats()[0] == self.a@ && r.mats()[1] == self.b@ && r.mats()[2]
                    == self.c@);
            }
            assert(r.wf());
            if self.reduced() {
                lemma_same_entries_reduced(r.matrices@[0], self.a);
                lemma_same_entries_reduced(r.matrices@[1], self.b);
                lemma_same_entries_reduced(r.matrices@[2], self.c);
                assert forall|i: int|
                    0 <= i < r.matrices@.len() implies (#[trigger] r.matrices@[i]).reduced() by {
                    assert(r.matrices@[0].reduced() && r.matrices@[1].reduced()
                        && r.matrices@[2].reduced());
                }
                assert forall|i: int|
                    0 <= i < r.x.0@.len() implies fp_reduced(#[trigger] r.x.0@[i]) by {
                    assert(fp_reduced(self.x.0@[i]));
                }
                assert forall|i: int|
                    0 <= i < r.w.0@.len() implies fp_reduced(#[trigger] r.w.0@[i]) by {
                    assert(fp_reduced(self.w.0@[i]));
                }
                assert(r.reduced());
            }
            lemma_r1cs_embedding(self.a@, self.b@, self.c@, self.m as nat, self.x@, self.w@);
        }
        r
    }
}

/// The satisfiability verdict is deterministic: `is_sat` promises a
/// boolean equal to the predicate `sat`, a function of the system
/// alone, so two runs cannot disagree, however the three independent
/// matrix products are scheduled.
pub proof fn lemma_is_sat_deterministic(s: R1cs, r1: bool, r2: bool)
    requires
        r1 == s.sat(),
        r2 == s.sat(),
    ensures
        r1 == r2,
{
}

} // verus!
