use crate::geometry::geometry::Geometry;
use crate::material::material::Material;
use crate::resource::resource::ResourceId;
use vstd::prelude::*;

verus! {

/// Something to draw: a geometry and the material it is drawn with.
pub struct Mesh {
    geometry: ResourceId<Geometry>,
    material: ResourceId<Material>,
}

impl View for Mesh {
    type V = (nat, nat);

    /// The indices of the geometry and of the material.
    closed spec fn view(&self) -> (nat, nat) {
        (self.geometry@, self.material@)
    }
}

impl Mesh {
    pub fn new(geometry: ResourceId<Geometry>, material: ResourceId<Material>) -> (mesh: Self)
        ensures
            mesh@ == (geometry@, material@),
    {
        Mesh { geometry, material }
    }

    pub fn borrow_geometry(&self) -> (geometry: &ResourceId<Geometry>)
        ensures
            geometry@ == self@.0,
    {
        &self.geometry
    }

    pub fn borrow_material(&self) -> (material: &ResourceId<Material>)
        ensures
            material@ == self@.1,
    {
        &self.material
    }
}

} // verus!
