//! The free variables of the sensor model.

use vstd::prelude::*;

verus! {

/// One point of the three-dimensional search space. Each field is the
/// binary32 bit pattern of the quantity.
#[derive(Debug, Clone, Copy, PartialEq, Eq, Structural)]
pub struct Variables {
    /// Concentration of ions in the electrolyte [molarity].
    pub concentration: u32,
    /// Electrical resistance of the wet channel in its off state [ohm].
    pub resistance: u32,
    /// Saturation of the water in the system [dimensionless].
    pub saturation: u32,
}

} // verus!
