//! The field-arithmetic collaborator.
//!
//! Every scalar in a constraint system is an element of the Jubjub
//! scalar field, `jub_jub::Fp`. This crate never computes in that
//! field itself: each operation is a thin trusted wrapper around the
//! `jub-jub` implementation, whose contract describes the result as
//! modular arithmetic on the element's canonical integer value.
//!
//! `jub_jub::Fp` stores a Montgomery-form limb array, and its public
//! raw-limb constructor (`From<[u64; 4]>`) and byte decoders accept
//! limbs at or above the modulus. The limb arithmetic is correct only
//! below the modulus, so the arithmetic wrappers require operands in
//! that reduced form ([`fp_reduced`]) and promise it of every result;
//! [`fp_is_reduced`] is the run-time test that admits foreign
//! elements into that discipline. Equality goes through the canonical
//! byte encoding and so is unconditional.

use vstd::prelude::*;

use zkstd::common::SigUtils;

verus! {

/// The order of the Jubjub scalar field: the modulus that
/// `jub_jub::Fp` computes with (its `MODULUS` limbs, read as one
/// little-endian 256-bit integer).
pub open spec fn fp_order() -> nat {
    0x0e7db4ea6533afa906673b0101343b00a6682093ccc81082d0970e5ed6f72cb7nat
}

/// The canonical integer value of a field element: the integer below
/// [`fp_order`] that `jub_jub::Fp::to_bytes` encodes little-endian
/// (the Montgomery representation reduced back to normal form).
pub uninterp spec fn fp_val(e: jub_jub::Fp) -> nat;

/// Whether the element is in reduced form: its limbs, read as one
/// 256-bit integer, lie below the modulus, so it is the one
/// representative of its value that `jub_jub`'s own operations
/// produce. Only the raw-limb constructor `From<[u64; 4]>` and the
/// byte decoders can build an element without this property, and the
/// limb arithmetic is exact only with it.
pub uninterp spec fn fp_reduced(e: jub_jub::Fp) -> bool;

#[verifier::external_type_specification]
#[verifier::external_body]
pub struct ExFp(jub_jub::Fp);

/// Addition in the field, on canonical values.
pub open spec fn f_add(a: nat, b: nat) -> nat {
    (a + b) % fp_order()
}

/// Multiplication in the field, on canonical values.
pub open spec fn f_mul(a: nat, b: nat) -> nat {
    (a * b) % fp_order()
}

/// Additive inverse in the field, on canonical values.
pub open spec fn f_neg(a: nat) -> nat {
    (((fp_order() - (a % fp_order())) as int) % (fp_order() as int)) as nat
}

/// Subtraction in the field, on canonical values.
pub open spec fn f_sub(a: nat, b: nat) -> nat {
    f_add(a, f_neg(b))
}

/// Relies on `jub_jub::Fp::zero`: the additive identity, all-zero
/// limbs, canonical value 0.
#[verifier::external_body]
pub(crate) fn fp_zero() -> (r: jub_jub::Fp)
    ensures
        fp_val(r) == 0,
        fp_reduced(r),
{
    jub_jub::Fp::zero()
}

/// Relies on `jub_jub::Fp::one`: the multiplicative identity, the
/// reduced Montgomery constant `R`, canonical value 1.
#[verifier::external_body]
pub(crate) fn fp_one() -> (r: jub_jub::Fp)
    ensures
        fp_val(r) == 1,
        fp_reduced(r),
{
    jub_jub::Fp::one()
}

/// Relies on `Add for jub_jub::Fp` (zkstd's 256-bit modular `add`):
/// on reduced operands, canonical values add modulo the field order
/// and the conditional final subtraction keeps the result reduced.
/// On raw unreduced limbs the top carry would be lost, so reduced
/// operands are required.
#[verifier::external_body]
pub(crate) fn fp_add(a: &jub_jub::Fp, b: &jub_jub::Fp) -> (r: jub_jub::Fp)
    requires
        fp_reduced(*a),
        fp_reduced(*b),
    ensures
        fp_val(r) == f_add(fp_val(*a), fp_val(*b)),
        fp_val(r) < fp_order(),
        fp_reduced(r),
{
    a + b
}

/// Relies on `Sub for jub_jub::Fp` (zkstd's 256-bit modular `sub`):
/// on reduced operands, canonical values subtract modulo the field
/// order and the result stays reduced. A single add-back of the
/// modulus cannot compensate unreduced limbs, so reduced operands are
/// required.
#[verifier::external_body]
pub(crate) fn fp_sub(a: &jub_jub::Fp, b: &jub_jub::Fp) -> (r: jub_jub::Fp)
    requires
        fp_reduced(*a),
        fp_reduced(*b),
    ensures
        fp_val(r) == f_sub(fp_val(*a), fp_val(*b)),
        fp_val(r) < fp_order(),
        fp_reduced(r),
{
    a - b
}

/// Relies on `Mul for jub_jub::Fp` (zkstd's Montgomery `mul`): on
/// reduced operands the product stays within the Montgomery
/// reduction's input bound, so canonical values multiply modulo the
/// field order and the result is reduced.
#[verifier::external_body]
pub(crate) fn fp_mul(a: &jub_jub::Fp, b: &jub_jub::Fp) -> (r: jub_jub::Fp)
    requires
        fp_reduced(*a),
        fp_reduced(*b),
    ensures
        fp_val(r) == f_mul(fp_val(*a), fp_val(*b)),
        fp_val(r) < fp_order(),
        fp_reduced(r),
{
    a * b
}

/// Relies on `Neg for jub_jub::Fp` (zkstd's `neg`, which its source
/// documents for operands below the modulus): on a reduced operand it
/// is the additive inverse modulo the field order, reduced.
#[verifier::external_body]
pub(crate) fn fp_neg(a: &jub_jub::Fp) -> (r: jub_jub::Fp)
    requires
        fp_reduced(*a),
    ensures
        fp_val(r) == f_neg(fp_val(*a)),
        fp_val(r) < fp_order(),
        fp_reduced(r),
{
    -*a
}

/// Relies on `jub_jub::Fp::to_bytes`: the canonical little-endian
/// encoding of an element's value, obtained through a full Montgomery
/// reduction, so two elements encode equal bytes exactly when their
/// canonical values are equal — whatever limbs they carry.
#[verifier::external_body]
pub(crate) fn fp_eq(a: &jub_jub::Fp, b: &jub_jub::Fp) -> (r: bool)
    ensures
        r == (fp_val(*a) == fp_val(*b)),
{
    a.to_bytes() == b.to_bytes()
}

/// Relies on `jub_jub::Fp::to_bytes` and `jub_jub::Fp::from_bytes`:
/// the round trip reduces and lands on the unique reduced
/// representative of the element's value, so it returns the element
/// itself exactly when the element was reduced. The encoding is
/// always below the modulus, so a positive answer also bounds the
/// canonical value.
#[verifier::external_body]
pub(crate) fn fp_is_reduced(e: &jub_jub::Fp) -> (r: bool)
    ensures
        r == fp_reduced(*e),
        r ==> fp_val(*e) < fp_order(),
{
    match jub_jub::Fp::from_bytes(e.to_bytes()) {
        Some(canonical) => canonical == *e,
        None => false,
    }
}

} // verus!
