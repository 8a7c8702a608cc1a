use crate::math::scalar::Scalar;
use vstd::prelude::*;

verus! {

/// A camera with a perspective projection.
pub struct PerspectiveCamera {
    aspect: Scalar,
    far: Scalar,
    fovy: Scalar,
    near: Scalar,
    projection_matrix: [Scalar; 16],
    projection_matrix_inverse: [Scalar; 16],
}

/// What a [`PerspectiveCamera`] holds.
pub struct PerspectiveCameraView {
    /// The vertical field of view.
    pub fovy: Scalar,
    /// The ratio of width to height.
    pub aspect: Scalar,
    pub near: Scalar,
    pub far: Scalar,
    pub projection_matrix: [Scalar; 16],
    pub projection_matrix_inverse: [Scalar; 16],
}

impl View for PerspectiveCamera {
    type V = PerspectiveCameraView;

    closed spec fn view(&self) -> PerspectiveCameraView {
        PerspectiveCameraView {
            fovy: self.fovy,
            aspect: self.aspect,
            near: self.near,
            far: self.far,
            projection_matrix: self.projection_matrix,
            projection_matrix_inverse: self.projection_matrix_inverse,
        }
    }
}

/// The matrices of `camera` are derived from its parameters:
/// `make_perspective` gave the projection, `invert` its inverse.
pub open spec fn projected<P, I>(
    camera: PerspectiveCameraView,
    make_perspective: &P,
    invert: &I,
) -> bool where
    P: Fn(Scalar, Scalar, Scalar, Scalar) -> [Scalar; 16],
    I: Fn([Scalar; 16]) -> [Scalar; 16],
 {
    &&& make_perspective.ensures(
        (camera.fovy, camera.aspect, camera.near, camera.far),
        camera.projection_matrix,
    )
    &&& invert.ensures((camera.projection_matrix,), camera.projection_matrix_inverse)
}

impl PerspectiveCamera {
    /// A camera with the given parameters and the matrices derived from
    /// them. The arithmetic is the caller's: `make_perspective` and
    /// `invert`.
    pub fn new<P, I>(
        fovy: Scalar,
        aspect: Scalar,
        near: Scalar,
        far: Scalar,
        make_perspective: &P,
        invert: &I,
    ) -> (camera: Self) where
        P: Fn(Scalar, Scalar, Scalar, Scalar) -> [Scalar; 16],
        I: Fn([Scalar; 16]) -> [Scalar; 16],

        requires
            forall|fovy: Scalar, aspect: Scalar, near: Scalar, far: Scalar|
                make_perspective.requires((fovy, aspect, near, far)),
            forall|matrix: [Scalar; 16]| invert.requires((matrix,)),
        ensures
            camera@.fovy == fovy,
            camera@.aspect == aspect,
            camera@.near == near,
            camera@.far == far,
            projected(camera@, make_perspective, invert),
    {
        let projection_matrix = make_perspective(fovy, aspect, near, far);
        let projection_matrix_inverse = invert(projection_matrix);
        PerspectiveCamera { aspect, far, fovy, near, projection_matrix, projection_matrix_inverse }
    }

    /// Changes the ratio of width to height and derives the matrices anew.
    pub fn set_aspect<P, I>(&mut self, aspect: Scalar, make_perspective: &P, invert: &I) -> (camera:
        &mut Self) where
        P: Fn(Scalar, Scalar, Scalar, Scalar) -> [Scalar; 16],
        I: Fn([Scalar; 16]) -> [Scalar; 16],

        requires
            forall|fovy: Scalar, aspect: Scalar, near: Scalar, far: Scalar|
                make_perspective.requires((fovy, aspect, near, far)),
            forall|matrix: [Scalar; 16]| invert.requires((matrix,)),
        ensures
            camera@.fovy == old(self)@.fovy,
            camera@.aspect == aspect,
            camera@.near == old(self)@.near,
            camera@.far == old(self)@.far,
            projected(camera@, make_perspective, invert),
            *final(self) == *final(camera),
    {
        self.aspect = aspect;
        self.update_projection_matrix(make_perspective, invert);
        self
    }

    /// Derives the projection matrix and its inverse from the parameters.
    pub fn update_projection_matrix<P, I>(&mut self, make_perspective: &P, invert: &I) where
        P: Fn(Scalar, Scalar, Scalar, Scalar) -> [Scalar; 16],
        I: Fn([Scalar; 16]) -> [Scalar; 16],

        requires
            forall|fovy: Scalar, aspect: Scalar, near: Scalar, far: Scalar|
                make_perspective.requires((fovy, aspect, near, far)),
            forall|matrix: [Scalar; 16]| invert.requires((matrix,)),
        ensures
            final(self)@.fovy == old(self)@.fovy,
            final(self)@.aspect == old(self)@.aspect,
            final(self)@.near == old(self)@.near,
            final(self)@.far == old(self)@.far,
            projected(final(self)@, make_perspective, invert),
    {
        self.projection_matrix = make_perspective(self.fovy, self.aspect, self.near, self.far);
        self.projection_matrix_inverse = invert(self.projection_matrix);
    }

    pub fn borrow_projection_matrix(&self) -> (matrix: &[Scalar; 16])
        ensures
            *matrix == self@.projection_matrix,
    {
        &self.projection_matrix
    }

    pub fn borrow_projection_matrix_inverse(&self) -> (matrix: &[Scalar; 16])
        ensures
            *matrix == self@.projection_matrix_inverse,
    {
        &self.projection_matrix_inverse
    }
}

} // verus!
