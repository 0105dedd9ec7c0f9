//! References to the slots of the implicit assignment vector.

use vstd::prelude::*;

verus! {

/// A reference to one scalar slot of the assignment `z = (1, x, w)`:
/// the implicit constant `1`, an entry of the public instance vector
/// `x`, or an entry of the private witness vector `w`.
#[derive(Clone, Copy, Debug, PartialEq, Eq, Structural)]
pub enum Wire {
    One,
    Instance(usize),
    Witness(usize),
}

/// Whether a wire resolves inside instance and witness vectors of the
/// given lengths.
pub open spec fn wire_ok(t: Wire, lx: nat, lw: nat) -> bool {
    match t {
        Wire::One => true,
        Wire::Instance(i) => (i as nat) < lx,
        Wire::Witness(i) => (i as nat) < lw,
    }
}

/// The canonical value a wire stands for, given the instance and
/// witness vectors as sequences of canonical values.
pub open spec fn resolve(t: Wire, x: Seq<nat>, w: Seq<nat>) -> nat {
    match t {
        Wire::One => 1,
        Wire::Instance(i) => x[i as int],
        Wire::Witness(i) => w[i as int],
    }
}

} // verus!
