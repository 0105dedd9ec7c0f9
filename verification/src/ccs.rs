//! Customizable Constraint Systems.
//!
//! A CCS holds `t` sparse matrices, `q` multisets (each an ordered
//! sequence of matrix indices) and `q` scalar constants. An assignment
//! satisfies it when the sum over `i` of
//! `constants[i] · (∘_{j ∈ multisets[i]} matrices[j] · z)` is the
//! all-zero vector. R1CS is the `t = 3, q = 2` special case.

use vstd::arithmetic::div_mod::{
    lemma_mod_add_multiples_vanish, lemma_mod_multiples_vanish, lemma_mod_self_0, lemma_small_mod,
};
use vstd::prelude::*;

use crate::field::{f_add, f_mul, f_neg, fp_is_reduced, fp_order, fp_reduced, fp_val};
use crate::matrix::{
    add_seq, had_seq, lemma_row_value_lt_order, mat_vec_prod, matrix_wires_ok, one_seq, scale_seq,
    zero_seq, DenseVectors, SparseMatrix,
};
use crate::wire::Wire;

verus! {

/// The Hadamard product, in order, of `matrices[j] · z` over the
/// indices `j` of one multiset, starting from the all-one vector.
pub open spec fn multiset_prod(
    mats: Seq<Seq<Seq<(Wire, nat)>>>,
    s: Seq<usize>,
    m: nat,
    x: Seq<nat>,
    w: Seq<nat>,
) -> Seq<nat>
    decreases s.len(),
{
    if s.len() == 0 {
        one_seq(m)
    } else {
        had_seq(
            multiset_prod(mats, s.drop_last(), m, x, w),
            mat_vec_prod(mats[s.last() as int], m, x, w),
        )
    }
}

/// The sum of the first `k` scaled multiset products, starting from
/// the all-zero vector.
pub open spec fn ccs_sum(
    mats: Seq<Seq<Seq<(Wire, nat)>>>,
    msets: Seq<Seq<usize>>,
    consts: Seq<nat>,
    k: int,
    m: nat,
    x: Seq<nat>,
    w: Seq<nat>,
) -> Seq<nat>
    decreases k,
{
    if k <= 0 {
        zero_seq(m)
    } else {
        add_seq(
            ccs_sum(mats, msets, consts, k - 1, m, x, w),
            scale_seq(multiset_prod(mats, msets[k - 1], m, x, w), consts[k - 1]),
        )
    }
}

pub proof fn lemma_multiset_prod_len(
    mats: Seq<Seq<Seq<(Wire, nat)>>>,
    s: Seq<usize>,
    m: nat,
    x: Seq<nat>,
    w: Seq<nat>,
)
    ensures
        multiset_prod(mats, s, m, x, w).len() == m,
    decreases s.len(),
{
    if s.len() != 0 {
        lemma_multiset_prod_len(mats, s.drop_last(), m, x, w);
    }
}

pub proof fn lemma_ccs_sum_len(
    mats: Seq<Seq<Seq<(Wire, nat)>>>,
    msets: Seq<Seq<usize>>,
    consts: Seq<nat>,
    k: int,
    m: nat,
    x: Seq<nat>,
    w: Seq<nat>,
)
    ensures
        ccs_sum(mats, msets, consts, k, m, x, w).len() == m,
    decreases k,
{
    if k > 0 {
        lemma_ccs_sum_len(mats, msets, consts, k - 1, m, x, w);
    }
}

/// A Customizable Constraint System together with an assignment.
#[derive(Clone, Debug)]
pub struct Ccs {
    /// Row count of every matrix.
    pub m: usize,
    /// The `t` matrices.
    pub matrices: Vec<SparseMatrix>,
    /// The `q` multisets: ordered sequences of indices into `matrices`.
    pub multisets: Vec<Vec<usize>>,
    /// The `q` scalar constants, one per multiset.
    pub constants: Vec<jub_jub::Fp>,
    /// The public instance vector.
    pub x: DenseVectors,
    /// The private witness vector.
    pub w: DenseVectors,
}

impl Ccs {
    /// The matrices as sequences of rows of wire / value pairs.
    pub open spec fn mats(self) -> Seq<Seq<Seq<(Wire, nat)>>> {
        self.matrices@.map_values(|mm: SparseMatrix| mm@)
    }

    /// The multisets as sequences of indices.
    pub open spec fn msets(self) -> Seq<Seq<usize>> {
        self.multisets@.map_values(|s: Vec<usize>| s@)
    }

    /// The constants as canonical field values.
    pub open spec fn consts(self) -> Seq<nat> {
        self.constants@.map_values(|e: jub_jub::Fp| fp_val(e))
    }

    /// Structural well-formedness: every matrix has `m` rows and
    /// resolvable wires, every multiset is nonempty and indexes into
    /// the matrix collection, and there is one constant per multiset.
    pub open spec fn wf(self) -> bool {
        &&& self.multisets@.len() == self.constants@.len()
        &&& forall|i: int|
            0 <= i < self.matrices@.len() ==> (#[trigger] self.mats()[i]).len() == self.m
        &&& forall|i: int|
            0 <= i < self.matrices@.len() ==> matrix_wires_ok(
                #[trigger] self.mats()[i],
                self.x@.len(),
                self.w@.len(),
            )
        &&& forall|i: int| 0 <= i < self.multisets@.len() ==> (#[trigger] self.msets()[i]).len() >= 1
        &&& forall|i: int, j: int|
            0 <= i < self.multisets@.len() && 0 <= j < self.msets()[i].len() ==> (
            #[trigger] self.msets()[i][j]) < self.matrices@.len()
    }

    /// Every field element of the system — matrix coefficients,
    /// constants, instance and witness entries — is in reduced form,
    /// as the trusted arithmetic layer demands.
    pub open spec fn reduced(self) -> bool {
        &&& forall|i: int| 0 <= i < self.matrices@.len() ==> (#[trigger] self.matrices@[i]).reduced()
        &&& forall|i: int| 0 <= i < self.constants@.len() ==> fp_reduced(#[trigger] self.constants@[i])
        &&& self.x.reduced()
        &&& self.w.reduced()
    }

    /// Run-time test of [`Ccs::reduced`], for elements that entered
    /// through the public fields.
    pub fn is_reduced(&self) -> (r: bool)
        ensures
            r == self.reduced(),
    {
        let t = self.matrices.len();
        let mut i: usize = 0;
        while i < t
            invariant
                i <= t,
                t == self.matrices@.len(),
                forall|k: int| 0 <= k < i ==> (#[trigger] self.matrices@[k]).reduced(),
            decreases t - i,
        {
            if !self.matrices[i].is_reduced() {
                return false;
            }
            i = i + 1;
        }
        let q = self.constants.len();
        let mut i: usize = 0;
        while i < q
            invariant
                i <= q,
                q == self.constants@.len(),
                forall|k: int| 0 <= k < i ==> fp_reduced(#[trigger] self.constants@[k]),
            decreases q - i,
        {
            if !fp_is_reduced(&self.constants[i]) {
                return false;
            }
            i = i + 1;
        }
        self.x.is_reduced() && self.w.is_reduced()
    }

    /// The CCS relation: the weighted sum of Hadamard products over
    /// all `q` multisets is the all-zero vector.
    pub open spec fn sat(self) -> bool {
        ccs_sum(
            self.mats(),
            self.msets(),
            self.consts(),
            self.msets().len() as int,
            self.m as nat,
            self.x@,
            self.w@,
        ) == zero_seq(self.m as nat)
    }

    /// Assemble a CCS after validating its shape: `None` exactly when
    /// some matrix has a row count other than `m` or a wire outside
    /// the assignment, some multiset is empty or indexes outside the
    /// matrix collection, or the constants do not pair up with the
    /// multisets.
    pub fn new(
        m: usize,
        matrices: Vec<SparseMatrix>,
        multisets: Vec<Vec<usize>>,
        constants: Vec<jub_jub::Fp>,
        x: DenseVectors,
        w: DenseVectors,
    ) -> (r: Option<Ccs>)
        ensures
            (r is Some) <==> (Ccs { m, matrices, multisets, constants, x, w }).wf(),
            (r is Some) ==> r->Some_0 == (Ccs { m, matrices, multisets, constants, x, w }),
    {
        let ghost cand = Ccs { m, matrices, multisets, constants, x, w };
        if multisets.len() != constants.len() {
            return None;
        }
        let t = matrices.len();
        let mut i: usize = 0;
        while i < t
            invariant
                i <= t,
                t == matrices@.len(),
                cand == (Ccs { m, matrices, multisets, constants, x, w }),
                forall|k: int| 0 <= k < i ==> (#[trigger] cand.mats()[k]).len() == m,
                forall|k: int|
                    0 <= k < i ==> matrix_wires_ok(#[trigger] cand.mats()[k], x@.len(), w@.len()),
            decreases t - i,
        {
            if !matrices[i].well_shaped(m, x.len(), w.len()) {
                proof {
                    assert(cand.mats()[i as int] == matrices@[i as int]@);
                    assert(!cand.wf());
                }
                return None;
            }
            i = i + 1;
        }
        let q = multisets.len();
        let mut i: usize = 0;
        while i < q
            invariant
                i <= q,
                q == multisets@.len(),
                t == matrices@.len(),
                cand == (Ccs { m, matrices, multisets, constants, x, w }),
                forall|k: int| 0 <= k < i ==> (#[trigger] cand.msets()[k]).len() >= 1,
                forall|k: int, j: int|
                    0 <= k < i && 0 <= j < cand.msets()[k].len() ==> (#[trigger] cand.msets()[k][j])
                        < t,
            decreases q - i,
        {
            let s: &Vec<usize> = &multisets[i];
            if s.len() == 0 {
                proof {
                    assert(cand.msets()[i as int] == multisets@[i as int]@);
                    assert(!cand.wf());
                }
                return None;
            }
            let mut j: usize = 0;
            while j < s.len()
                invariant
                    j <= s@.len(),
                    0 <= i < multisets@.len(),
                    t == matrices@.len(),
                    cand == (Ccs { m, matrices, multisets, constants, x, w }),
                    s@ == cand.msets()[i as int],
                    forall|k: int| 0 <= k < j ==> (#[trigger] s@[k]) < t,
                decreases s@.len() - j,
            {
                if s[j] >= t {
                    proof {
                        assert(cand.msets()[i as int][j as int] == s@[j as int]);
                        assert(!cand.wf());
                    }
                    return None;
                }
                j = j + 1;
            }
            i = i + 1;
        }
        Some(Ccs { m, matrices, multisets, constants, x, w })
    }

    /// Decide the CCS relation for the stored assignment: for each
    /// multiset, Hadamard-combine the matrix products, scale by the
    /// paired constant, sum the terms, and compare with zero.
    pub fn is_sat(&self) -> (r: bool)
        requires
            self.wf(),
            self.reduced(),
        ensures
            r == self.sat(),
    {
        let q = self.multisets.len();
        let mut total = DenseVectors::zero(self.m);
        let mut i: usize = 0;
        while i < q
            invariant
                i <= q,
                self.wf(),
                self.reduced(),
                q == self.multisets@.len(),
                total.reduced(),
                total@ == ccs_sum(
                    self.mats(),
                    self.msets(),
                    self.consts(),
                    i as int,
                    self.m as nat,
                    self.x@,
                    self.w@,
                ),
            decreases q - i,
        {
            let s: &Vec<usize> = &self.multisets[i];
            let mut acc = DenseVectors::identity(self.m);
            let mut j: usize = 0;
            while j < s.len()
                invariant
                    j <= s@.len(),
                    self.wf(),
                    self.reduced(),
                    0 <= i < self.multisets@.len(),
                    s@ == self.msets()[i as int],
                    acc.reduced(),
                    acc@ == multiset_prod(
                        self.mats(),
                        s@.take(j as int),
                        self.m as nat,
                        self.x@,
                        self.w@,
                    ),
                decreases s@.len() - j,
            {
                proof {
                    lemma_multiset_prod_len(
                        self.mats(),
                        s@.take(j as int),
                        self.m as nat,
                        self.x@,
                        self.w@,
                    );
                }
                let idx = s[j];
                proof {
                    assert(self.msets()[i as int][j as int] == s@[j as int]);
                    assert(idx < self.matrices@.len());
                    assert(self.mats()[idx as int] == self.matrices@[idx as int]@);
                    assert(self.mats()[idx as int].len() == self.m);
                    assert(matrix_wires_ok(self.mats()[idx as int], self.x@.len(), self.w@.len()));
                    assert(self.matrices@[idx as int].reduced());
                }
                let mat: &SparseMatrix = &self.matrices[idx];
                let mz = mat.prod(self.m, &self.x, &self.w);
                acc = acc.hadamard(&mz);
                proof {
                    assert(s@.take(j + 1).drop_last() =~= s@.take(j as int));
                    assert(s@.take(j + 1).last() == s@[j as int]);
                }
                j = j + 1;
            }
            proof {
                assert(s@.take(s@.len() as int) =~= s@);
                lemma_multiset_prod_len(self.mats(), s@, self.m as nat, self.x@, self.w@);
                lemma_ccs_sum_len(
                    self.mats(),
                    self.msets(),
                    self.consts(),
                    i as int,
                    self.m as nat,
                    self.x@,
                    self.w@,
                );
            }
            proof {
                assert(fp_reduced(self.constants@[i as int]));
            }
            let term = acc.scale(&self.constants[i]);
            total = total.add(&term);
            i = i + 1;
        }
        proof {
            lemma_ccs_sum_len(
                self.mats(),
                self.msets(),
                self.consts(),
                q as int,
                self.m as nat,
                self.x@,
                self.w@,
            );
        }
        total.is_zero()
    }
}

/// The satisfiability verdict is deterministic: `is_sat` promises a
/// boolean equal to the predicate `sat`, a function of the system
/// alone, so two runs cannot disagree, however the independent
/// per-multiset products are scheduled.
pub proof fn lemma_is_sat_deterministic(s: Ccs, r1: bool, r2: bool)
    requires
        r1 == s.sat(),
        r2 == s.sat(),
    ensures
        r1 == r2,
{
}

/// One row of the embedding, on canonical values `h` and `c`: the
/// two-term sum `1·h + (-1)·c` vanishes in the field exactly when
/// `h == c`.
proof fn lemma_row_term(h: nat, c: nat)
    requires
        h < fp_order(),
        c < fp_order(),
    ensures
        (f_add(f_add(0, f_mul(h, 1)), f_mul(c, f_neg(1))) == 0) <==> (h == c),
{
    let p = fp_order();
    lemma_small_mod(h, p);
    lemma_small_mod(1, p);
    lemma_small_mod((p - 1) as nat, p);
    assert(f_neg(1) == (p - 1) as nat);
    assert(f_mul(h, 1) == h);
    assert(f_add(0, h) == h);
    let pi = p as int;
    let ci = c as int;
    assert(((p - 1) as nat) == pi - 1);
    assert(ci * (pi - 1) == pi * ci + (-ci)) by (nonlinear_arith);
    assert(c * ((p - 1) as nat) == pi * ci + (-ci));
    lemma_mod_multiples_vanish(ci, -ci, pi);
    assert(f_mul(c, f_neg(1)) == (-ci) % pi);
    if c == 0 {
        lemma_small_mod(0, p);
        assert(f_mul(c, f_neg(1)) == 0);
        assert(f_add(h, 0) == h);
    } else {
        lemma_mod_add_multiples_vanish(-ci, pi);
        lemma_small_mod((p - c) as nat, p);
        assert((pi + (-ci)) % pi == (-ci) % pi);
        assert(f_mul(c, f_neg(1)) == (p - c) as nat);
        if h == c {
            lemma_mod_self_0(p as int);
            assert(f_add(h, (p - c) as nat) == 0);
        } else if h < c {
            lemma_small_mod((h + p - c) as nat, p);
            assert(f_add(h, (p - c) as nat) != 0);
        } else {
            lemma_mod_add_multiples_vanish((h - c) as int, p as int);
            lemma_small_mod((h - c) as nat, p);
            assert(f_add(h, (p - c) as nat) == (h - c) as nat);
        }
    }
}

/// Scalar-constant embedding: a CCS built from matrices `{A, B, C}`
/// with multisets `{[0, 1], [2]}` and constants `{1, -1}` is satisfied
/// exactly when `(A·z) ∘ (B·z) = C·z`. The constants implement
/// "subtract", the multisets "multiply, then combine".
pub proof fn lemma_r1cs_embedding(
    a: Seq<Seq<(Wire, nat)>>,
    b: Seq<Seq<(Wire, nat)>>,
    c: Seq<Seq<(Wire, nat)>>,
    m: nat,
    x: Seq<nat>,
    w: Seq<nat>,
)
    ensures
        (ccs_sum(
            seq![a, b, c],
            seq![seq![0usize, 1usize], seq![2usize]],
            seq![1nat, f_neg(1)],
            2,
            m,
            x,
            w,
        ) == zero_seq(m)) <==> (had_seq(mat_vec_prod(a, m, x, w), mat_vec_prod(b, m, x, w))
            == mat_vec_prod(c, m, x, w)),
{
    let mats = seq![a, b, c];
    let msets = seq![seq![0usize, 1usize], seq![2usize]];
    let consts = seq![1nat, f_neg(1)];
    let az = mat_vec_prod(a, m, x, w);
    let bz = mat_vec_prod(b, m, x, w);
    let cz = mat_vec_prod(c, m, x, w);

    let empty = Seq::<usize>::empty();
    let s0 = seq![0usize];
    let s01 = seq![0usize, 1usize];
    let s2 = seq![2usize];
    assert(s01.drop_last() =~= s0);
    assert(s0.drop_last() =~= empty);
    assert(s2.drop_last() =~= empty);
    assert(s01.last() == 1usize && s0.last() == 0usize && s2.last() == 2usize);
    assert(mats[0] == a && mats[1] == b && mats[2] == c);
    assert(multiset_prod(mats, empty, m, x, w) == one_seq(m));
    let g0 = multiset_prod(mats, s0, m, x, w);
    assert(g0 == had_seq(one_seq(m), az));
    let h0 = multiset_prod(mats, s01, m, x, w);
    assert(h0 == had_seq(g0, bz));
    let h1 = multiset_prod(mats, s2, m, x, w);
    assert(h1 == had_seq(one_seq(m), cz));

    assert(msets[0] == s01 && msets[1] == s2 && consts[0] == 1nat && consts[1] == f_neg(1));
    let t0 = ccs_sum(mats, msets, consts, 0, m, x, w);
    assert(t0 == zero_seq(m));
    let t1 = ccs_sum(mats, msets, consts, 1, m, x, w);
    assert(t1 == add_seq(t0, scale_seq(h0, 1)));
    let total = ccs_sum(mats, msets, consts, 2, m, x, w);
    assert(total == add_seq(t1, scale_seq(h1, f_neg(1))));
    assert(total.len() == m);

    assert forall|k: int| 0 <= k < m implies (total[k] == 0) <==> (had_seq(az, bz)[k] == cz[k]) by {
        lemma_row_value_lt_order(a[k], x, w);
        lemma_row_value_lt_order(b[k], x, w);
        lemma_row_value_lt_order(c[k], x, w);
        let p = fp_order();
        assert(p > 0);
        lemma_small_mod(az[k], p);
        lemma_small_mod(cz[k], p);
        assert(g0[k] == f_mul(1, az[k]));
        assert(f_mul(1, az[k]) == az[k]);
        assert(h0[k] == f_mul(g0[k], bz[k]));
        assert(h1[k] == f_mul(1, cz[k]));
        assert(h1[k] == cz[k]);
        let hh = f_mul(az[k], bz[k]);
        assert(hh < p);
        lemma_row_term(hh, cz[k]);
        assert(total[k] == f_add(f_add(0, f_mul(hh, 1)), f_mul(cz[k], f_neg(1))));
    }

    if had_seq(az, bz) == cz {
        assert(total =~= zero_seq(m));
    }
    if total == zero_seq(m) {
        assert forall|k: int| 0 <= k < m implies had_seq(az, bz)[k] == cz[k] by {
            assert(total[k] == 0);
        }
        assert(had_seq(az, bz) =~= cz);
    }
}

} // verus!
