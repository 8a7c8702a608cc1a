use crate::math::matrix4::IDENTITY;
use crate::math::scalar::ONE;
use crate::math::scalar::Scalar;
use crate::math::scalar::ZERO;
use vstd::prelude::*;

verus! {

/// An element of a scene that is known by a number: its place among the
/// other objects and its transform.
pub struct Object {
    children_ids: Vec<usize>,
    id: usize,
    matrix: [Scalar; 16],
    parent_id: Option<usize>,
    position: [Scalar; 3],
    _quaternion: [Scalar; 4],
    rotation: [Scalar; 3],
    scale: [Scalar; 3],
}

/// What an [`Object`] holds.
pub struct ObjectView {
    pub id: usize,
    pub parent_id: Option<usize>,
    pub children_ids: Seq<usize>,
    pub position: [Scalar; 3],
    /// The rotation as Euler angles.
    pub rotation: [Scalar; 3],
    pub scale: [Scalar; 3],
    /// The rotation as a quaternion.
    pub quaternion: [Scalar; 4],
    pub matrix: [Scalar; 16],
}

impl View for Object {
    type V = ObjectView;

    closed spec fn view(&self) -> ObjectView {
        ObjectView {
            id: self.id,
            parent_id: self.parent_id,
            children_ids: self.children_ids@,
            position: self.position,
            rotation: self.rotation,
            scale: self.scale,
            quaternion: self._quaternion,
            matrix: self.matrix,
        }
    }
}

impl Object {
    /// An object without parent or children, at the origin, unrotated and
    /// unscaled.
    pub fn new(id: usize) -> (object: Self)
        ensures
            object@ == (ObjectView {
                id,
                parent_id: None,
                children_ids: Seq::empty(),
                position: [ZERO, ZERO, ZERO],
                rotation: [ZERO, ZERO, ZERO],
                scale: [ONE, ONE, ONE],
                quaternion: [ZERO, ZERO, ZERO, ONE],
                matrix: IDENTITY,
            }),
    {
        Object {
            children_ids: Vec::new(),
            id,
            matrix: IDENTITY,
            parent_id: None,
            position: [ZERO, ZERO, ZERO],
            _quaternion: [ZERO, ZERO, ZERO, ONE],
            rotation: [ZERO, ZERO, ZERO],
            scale: [ONE, ONE, ONE],
        }
    }

    pub fn get_id(&self) -> (id: usize)
        ensures
            id == self@.id,
    {
        self.id
    }

    pub fn get_parent_id(&self) -> (parent_id: Option<usize>)
        ensures
            parent_id == self@.parent_id,
    {
        self.parent_id
    }

    pub fn borrow_children_ids(&self) -> (children_ids: &Vec<usize>)
        ensures
            children_ids@ == self@.children_ids,
    {
        &self.children_ids
    }

    pub fn borrow_position(&self) -> (position: &[Scalar; 3])
        ensures
            *position == self@.position,
    {
        &self.position
    }

    pub fn borrow_rotation(&self) -> (rotation: &[Scalar; 3])
        ensures
            *rotation == self@.rotation,
    {
        &self.rotation
    }

    pub fn borrow_scale(&self) -> (scale: &[Scalar; 3])
        ensures
            *scale == self@.scale,
    {
        &self.scale
    }

    pub fn borrow_matrix(&self) -> (matrix: &[Scalar; 16])
        ensures
            *matrix == self@.matrix,
    {
        &self.matrix
    }
}

} // verus!
