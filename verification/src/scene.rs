//! Fail-fast scene validation.
//!
//! Malformed scene data is a precondition violation, not a runtime error;
//! the one part of it the integer core can check is the material indices:
//! every primitive must name an existing material, and the background
//! material must exist, or shading would read past the material table. The
//! geometric conditions (unit normals, positive radii) live with the
//! floating-point front end.

use vstd::prelude::*;

use crate::hit::BACKGROUND_MATERIAL;

verus! {

/// True exactly when every listed material index names one of
/// `material_count` materials.
pub fn materials_in_range(material_count: usize, material_ids: &Vec<usize>) -> (ok: bool)
    ensures
        ok == forall|i: int|
            0 <= i < material_ids@.len() ==> (#[trigger] material_ids@[i]) < material_count,
{
    let mut k: usize = 0;
    while k < material_ids.len()
        invariant
            k <= material_ids@.len(),
            forall|i: int| 0 <= i < k ==> (#[trigger] material_ids@[i]) < material_count,
        decreases material_ids@.len() - k,
    {
        if material_ids[k] >= material_count {
            return false;
        }
        k = k + 1;
    }
    true
}

/// True exactly when a material table of `material_count` entries holds the
/// background material, the one every ray that escapes the scene hits.
pub fn has_background_material(material_count: usize) -> (ok: bool)
    ensures
        ok == (BACKGROUND_MATERIAL < material_count),
{
    BACKGROUND_MATERIAL < material_count
}

} // verus!
