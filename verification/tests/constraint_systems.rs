use ccs::matrix::{DenseVectors, Element, SparseMatrix};
use ccs::wire::Wire;
use ccs::{Ccs, R1cs};
use jub_jub::Fp;

fn fe(v: u64) -> Fp {
    Fp::from(v)
}

fn entry(w: Wire, coeff: u64) -> Element {
    Element(w, fe(coeff))
}

/// The relation `y = x^3 + x + 5` over `m = 4` rows, instance `[x]`
/// and witness `[x^2, x^3, x^3 + x]`:
///   row 0: x * x = x^2
///   row 1: x^2 * x = x^3
///   row 2: (x^3 + x) * 1 = x^3 + x
///   row 3: (x^3 + x + 5) * 1 = y
fn example_r1cs(input: u64) -> R1cs {
    let x2 = input * input;
    let x3 = x2 * input;
    let y = x3 + input + 5;
    let a = SparseMatrix(vec![
        vec![entry(Wire::Instance(0), 1)],
        vec![entry(Wire::Witness(0), 1)],
        vec![entry(Wire::Witness(1), 1), entry(Wire::Instance(0), 1)],
        vec![entry(Wire::Witness(2), 1), entry(Wire::One, 5)],
    ]);
    let b = SparseMatrix(vec![
        vec![entry(Wire::Instance(0), 1)],
        vec![entry(Wire::Instance(0), 1)],
        vec![entry(Wire::One, 1)],
        vec![entry(Wire::One, 1)],
    ]);
    let c = SparseMatrix(vec![
        vec![entry(Wire::Witness(0), 1)],
        vec![entry(Wire::Witness(1), 1)],
        vec![entry(Wire::Witness(2), 1)],
        vec![entry(Wire::One, y)],
    ]);
    let x = DenseVectors(vec![fe(input)]);
    let w = DenseVectors(vec![fe(x2), fe(x3), fe(x3 + input)]);
    R1cs { m: 4, n: 5, l: 1, a, b, c, x, w }
}

#[test]
fn r1cs_test() {
    for i in 1..10 {
        let r1cs = example_r1cs(i);
        assert!(r1cs.is_sat())
    }
}

#[test]
fn ccs_test() {
    for i in 1..10 {
        let r1cs = example_r1cs(i);
        assert!(r1cs.to_ccs().is_sat())
    }
}

#[test]
fn cubic_scenario_holds_for_input_three() {
    let r1cs = example_r1cs(3);
    assert!(r1cs.is_sat());
    assert!(r1cs.to_ccs().is_sat());
}

#[test]
fn cubic_scenario_rejects_tampered_witness() {
    // Replacing x^3 + x with x^3 + x + 1 breaks both predicates.
    let mut r1cs = example_r1cs(3);
    r1cs.w = DenseVectors(vec![fe(9), fe(27), fe(31)]);
    assert!(!r1cs.is_sat());
    assert!(!r1cs.to_ccs().is_sat());
    // So does changing any other single witness entry.
    let mut r1cs = example_r1cs(3);
    r1cs.w = DenseVectors(vec![fe(10), fe(27), fe(30)]);
    assert!(!r1cs.is_sat());
    assert!(!r1cs.to_ccs().is_sat());
    let mut r1cs = example_r1cs(3);
    r1cs.w = DenseVectors(vec![fe(9), fe(28), fe(30)]);
    assert!(!r1cs.is_sat());
    assert!(!r1cs.to_ccs().is_sat());
}

#[test]
fn hadamard_elementwise_products() {
    let u = DenseVectors(vec![fe(2), fe(3), fe(4)]);
    let v = DenseVectors(vec![fe(5), fe(7), fe(9)]);
    let h = u.hadamard(&v);
    assert_eq!(h.len(), 3);
    assert_eq!(h.0[0], fe(10));
    assert_eq!(h.0[1], fe(21));
    assert_eq!(h.0[2], fe(36));
}

#[test]
fn zero_vector_absorbed_by_sum() {
    let v = DenseVectors(vec![fe(5), fe(0), fe(123456789)]);
    let sum = DenseVectors::zero(3).add(&v);
    assert_eq!(sum.0[0], fe(5));
    assert_eq!(sum.0[1], fe(0));
    assert_eq!(sum.0[2], fe(123456789));
    assert!(sum.equals(&v));
}

#[test]
fn vector_sub_and_scale() {
    let u = DenseVectors(vec![fe(7), fe(9)]);
    let v = DenseVectors(vec![fe(3), fe(9)]);
    let d = u.sub(&v);
    assert_eq!(d.0[0], fe(4));
    assert_eq!(d.0[1], fe(0));
    let s = u.scale(&fe(2));
    assert_eq!(s.0[0], fe(14));
    assert_eq!(s.0[1], fe(18));
}

#[test]
fn vector_algebra_identities() {
    let v = DenseVectors(vec![fe(4), fe(0), fe(77)]);
    // Scaling by one and Hadamard with the all-one vector are identities.
    assert!(v.scale(&Fp::one()).equals(&v));
    assert!(DenseVectors::identity(3).hadamard(&v).equals(&v));
    // Subtraction inverts addition.
    let u = DenseVectors(vec![fe(9), fe(1), fe(2)]);
    assert!(u.add(&v).sub(&v).equals(&u));
}

#[test]
fn vector_equality_and_zero_test() {
    let u = DenseVectors(vec![fe(1), fe(2)]);
    let v = DenseVectors(vec![fe(1), fe(3)]);
    assert!(!u.equals(&v));
    assert!(u.equals(&u.duplicate()));
    assert!(DenseVectors::zero(4).is_zero());
    assert!(!u.is_zero());
    assert!(DenseVectors::zero(0).is_zero());
}

#[test]
fn sparse_product_resolves_wires_and_coefficients() {
    // Rows: [5·1], [2·x0 + 3·w1], [] over x = [7], w = [11, 13].
    let m = SparseMatrix(vec![
        vec![entry(Wire::One, 5)],
        vec![entry(Wire::Instance(0), 2), entry(Wire::Witness(1), 3)],
        vec![],
    ]);
    let x = DenseVectors(vec![fe(7)]);
    let w = DenseVectors(vec![fe(11), fe(13)]);
    let r = m.prod(3, &x, &w);
    assert_eq!(r.len(), 3);
    assert_eq!(r.0[0], fe(5));
    assert_eq!(r.0[1], fe(2 * 7 + 3 * 13));
    assert_eq!(r.0[2], fe(0));
}

#[test]
fn element_get_returns_pair() {
    let e = entry(Wire::Witness(2), 9);
    let (wire, coeff) = e.get();
    assert_eq!(wire, Wire::Witness(2));
    assert_eq!(coeff, fe(9));
}

#[test]
fn manual_embedding_matches_r1cs_verdict() {
    // A CCS with matrices {A, B, C}, multisets {[0, 1], [2]} and
    // constants {1, -1} gives the same verdict as the R1CS.
    for input in [3u64, 4] {
        for tamper in [false, true] {
            let mut r1cs = example_r1cs(input);
            if tamper {
                r1cs.w = DenseVectors(vec![fe(1), fe(2), fe(3)]);
            }
            let expected = r1cs.is_sat();
            let ccs = Ccs::new(
                4,
                vec![r1cs.a.duplicate(), r1cs.b.duplicate(), r1cs.c.duplicate()],
                vec![vec![0, 1], vec![2]],
                vec![Fp::one(), -Fp::one()],
                r1cs.x.duplicate(),
                r1cs.w.duplicate(),
            )
            .unwrap();
            assert_eq!(ccs.is_sat(), expected);
        }
    }
}

#[test]
fn to_ccs_shape() {
    let ccs = example_r1cs(2).to_ccs();
    assert_eq!(ccs.m, 4);
    assert_eq!(ccs.matrices.len(), 3);
    assert_eq!(ccs.multisets, vec![vec![0, 1], vec![2]]);
    assert_eq!(ccs.constants, vec![Fp::one(), -Fp::one()]);
}

#[test]
fn repeated_evaluation_is_deterministic() {
    let r1cs = example_r1cs(5);
    let first = r1cs.is_sat();
    let second = r1cs.is_sat();
    assert_eq!(first, second);
    let ccs = r1cs.to_ccs();
    assert_eq!(ccs.is_sat(), ccs.is_sat());
    assert_eq!(first, ccs.is_sat());
}

#[test]
fn r1cs_new_validates_shape() {
    let good = example_r1cs(2);
    let made = R1cs::new(
        4,
        5,
        1,
        good.a.duplicate(),
        good.b.duplicate(),
        good.c.duplicate(),
        good.x.duplicate(),
        good.w.duplicate(),
    );
    assert!(made.is_some());
    assert!(made.unwrap().is_sat());

    // Row count differs from m.
    let bad = R1cs::new(
        3,
        5,
        1,
        good.a.duplicate(),
        good.b.duplicate(),
        good.c.duplicate(),
        good.x.duplicate(),
        good.w.duplicate(),
    );
    assert!(bad.is_none());

    // A wire points outside the witness vector.
    let mut a = good.a.duplicate();
    a.0[0] = vec![entry(Wire::Witness(3), 1)];
    let bad = R1cs::new(
        4,
        5,
        1,
        a,
        good.b.duplicate(),
        good.c.duplicate(),
        good.x.duplicate(),
        good.w.duplicate(),
    );
    assert!(bad.is_none());

    // The declared instance length is wrong.
    let bad = R1cs::new(
        4,
        5,
        2,
        good.a.duplicate(),
        good.b.duplicate(),
        good.c.duplicate(),
        good.x.duplicate(),
        good.w.duplicate(),
    );
    assert!(bad.is_none());
}

#[test]
fn ccs_new_validates_shape() {
    let r1cs = example_r1cs(2);
    let mats = || {
        vec![r1cs.a.duplicate(), r1cs.b.duplicate(), r1cs.c.duplicate()]
    };
    let consts = || vec![Fp::one(), -Fp::one()];

    // A multiset index outside the matrix collection.
    let bad = Ccs::new(
        4,
        mats(),
        vec![vec![0, 3], vec![2]],
        consts(),
        r1cs.x.duplicate(),
        r1cs.w.duplicate(),
    );
    assert!(bad.is_none());

    // An empty multiset.
    let bad = Ccs::new(
        4,
        mats(),
        vec![vec![], vec![2]],
        consts(),
        r1cs.x.duplicate(),
        r1cs.w.duplicate(),
    );
    assert!(bad.is_none());

    // Constants that do not pair up with the multisets.
    let bad = Ccs::new(
        4,
        mats(),
        vec![vec![0, 1], vec![2]],
        vec![Fp::one()],
        r1cs.x.duplicate(),
        r1cs.w.duplicate(),
    );
    assert!(bad.is_none());

    // The well-formed shape is accepted.
    let good = Ccs::new(
        4,
        mats(),
        vec![vec![0, 1], vec![2]],
        consts(),
        r1cs.x.duplicate(),
        r1cs.w.duplicate(),
    );
    assert!(good.is_some());
}

// The modulus of the Jubjub scalar field, as jub-jub stores it:
// little-endian limbs. `Fp::from` on raw limbs does not reduce, so
// this builds the non-reduced representative of zero.
const MODULUS_LIMBS: [u64; 4] = [
    0xd0970e5ed6f72cb7,
    0xa6682093ccc81082,
    0x06673b0101343b00,
    0x0e7db4ea6533afa9,
];

#[test]
fn reduced_check_accepts_ordinary_elements() {
    let v = DenseVectors(vec![fe(0), fe(5), Fp::one(), -Fp::one()]);
    assert!(v.is_reduced());
    let r1cs = example_r1cs(3);
    assert!(r1cs.is_reduced());
    assert!(r1cs.a.is_reduced());
    assert!(r1cs.to_ccs().is_reduced());
}

#[test]
fn reduced_check_rejects_raw_limbs() {
    let raw = Fp::from(MODULUS_LIMBS);
    let v = DenseVectors(vec![fe(1), raw]);
    assert!(!v.is_reduced());
    let m = SparseMatrix(vec![vec![Element(Wire::One, raw)]]);
    assert!(!m.is_reduced());
}

#[test]
fn equality_compares_canonical_values() {
    // The raw modulus limbs and the zero element carry the same
    // canonical value, though their limbs differ.
    let raw = Fp::from(MODULUS_LIMBS);
    let u = DenseVectors(vec![raw]);
    let z = DenseVectors::zero(1);
    assert!(u.equals(&z));
    assert!(u.is_zero());
}

#[test]
fn empty_system_is_satisfied() {
    let empty = SparseMatrix(vec![]);
    let r1cs = R1cs::new(
        0,
        0,
        0,
        empty.duplicate(),
        empty.duplicate(),
        empty.duplicate(),
        DenseVectors(vec![]),
        DenseVectors(vec![]),
    )
    .unwrap();
    assert!(r1cs.is_sat());
    assert!(r1cs.to_ccs().is_sat());
}
