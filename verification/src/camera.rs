//! The perspective camera: viewport, position, orientation, and the
//! projection of world points onto the 2D canvas.

use vstd::prelude::*;

use crate::math::Angle;
use crate::math::Euler;

use crate::math::div_trunc;
use crate::math::div_trunc_i64;

use crate::math::lemma_mul_mag;
use crate::math::mat3xv3_mul;
use crate::math::mat3xv3_mul_spec;
use crate::math::mat_rotation;
use crate::math::mat_rotation_spec;
use crate::math::vec3_sub;
use crate::math::vec3_sub_spec;
use crate::math::MAT_LIMIT;
use crate::types::COORD_LIMIT;
use crate::types::Mat3;
use crate::types::ONE;
use crate::types::Point2;
use crate::types::VIEW_LIMIT;
use crate::types::Vec3;

verus! {

/// The `ONE`-scaled sine of the default camera pitch of -0.4 radians.
pub const DEFAULT_PITCH_SIN: i64 = -389_418;

/// The `ONE`-scaled cosine of the default camera pitch of -0.4 radians.
pub const DEFAULT_PITCH_COS: i64 = 921_061;

/// A perspective camera.
///
/// `projection` is derived data: it always equals the rotation matrix for
/// the current `theta`. Every mutator of `theta` recomputes it, so the
/// matrix can never go stale.
#[derive(Clone, Copy, PartialEq, Eq, Structural, Debug)]
pub struct Camera {
    /// Viewport width, in pixels.
    pub width: i64,
    /// Viewport height, in pixels.
    pub height: i64,
    /// Position of the camera in world units.
    pub r: Vec3,
    /// Orientation as Euler angles.
    pub theta: Euler,
    /// The rotation matrix for `theta`, kept in step with it.
    pub projection: Mat3,
    /// Focal distance: a point at depth `screen` is drawn at unit scale.
    pub screen: i64,
}

impl Camera {
    /// Well-formedness: a positive, bounded viewport and focal distance, a
    /// bounded position, sound angles, and a projection matrix that
    /// matches `theta`.
    pub open spec fn wf(self) -> bool {
        &&& 0 < self.width <= VIEW_LIMIT
        &&& 0 < self.height <= VIEW_LIMIT
        &&& 0 < self.screen <= VIEW_LIMIT
        &&& self.r.in_range(COORD_LIMIT as int)
        &&& self.theta.wf()
        &&& self.projection == mat_rotation_spec(self.theta)
        &&& self.projection.in_range(MAT_LIMIT as int)
    }

    /// The default camera's pitch: -0.4 radians about the X axis, as
    /// its `ONE`-scaled sine and cosine.
    pub open spec fn default_pitch_spec() -> Angle {
        Angle { sin: DEFAULT_PITCH_SIN, cos: DEFAULT_PITCH_COS }
    }

    /// The default camera's orientation: pitched -0.4 radians, level
    /// about the other axes.
    pub open spec fn default_theta_spec() -> Euler {
        Euler {
            x: Camera::default_pitch_spec(),
            y: Angle::identity_spec(),
            z: Angle::identity_spec(),
        }
    }

    /// The default camera's value: 250 units behind and 200 below the
    /// origin, pitched -0.4 radians so that it faces the scene, with a
    /// square 200-pixel viewport and a focal distance of 300.
    pub open spec fn default_spec() -> Camera {
        Camera {
            width: 200,
            height: 200,
            r: Vec3 { x: 0, y: (-200) as i64, z: (-250) as i64 },
            theta: Camera::default_theta_spec(),
            screen: 300,
            projection: mat_rotation_spec(Camera::default_theta_spec()),
        }
    }

    /// A camera looking at the scene from just behind and below the
    /// origin, pitched -0.4 radians, with a square 200-pixel viewport.
    pub fn default() -> (c: Camera)
        ensures
            c == Camera::default_spec(),
            c.wf(),
    {
        proof {
            assert(DEFAULT_PITCH_SIN * DEFAULT_PITCH_SIN + DEFAULT_PITCH_COS * DEFAULT_PITCH_COS
                <= ONE * ONE) by (nonlinear_arith)
                requires
                    DEFAULT_PITCH_SIN == -389_418,
                    DEFAULT_PITCH_COS == 921_061,
                    ONE == 1_000_000,
            ;
        }
        let mut camera = Camera {
            width: 200,
            height: 200,
            r: Vec3 { x: 0, y: -200, z: -250 },
            theta: Euler {
                x: Angle { sin: DEFAULT_PITCH_SIN, cos: DEFAULT_PITCH_COS },
                y: Angle::identity(),
                z: Angle::identity(),
            },
            screen: 300,
            projection: Mat3 {
                x: Vec3 { x: 0, y: 0, z: 0 },
                y: Vec3 { x: 0, y: 0, z: 0 },
                z: Vec3 { x: 0, y: 0, z: 0 },
            },
        };
        camera.update_projection();
        camera
    }

    /// Recomputes the projection matrix from the current `theta`.
    pub fn update_projection(&mut self)
        requires
            old(self).theta.wf(),
        ensures
            *final(self) == (Camera {
                projection: mat_rotation_spec(old(self).theta),
                ..*old(self)
            }),
            final(self).projection.in_range(MAT_LIMIT as int),
    {
        self.projection = mat_rotation(self.theta);
    }

    /// Where `point` lands on the canvas: the camera-space offset
    /// `d = projection * (point - r)`, scaled by `screen / d.z` and
    /// centred on the viewport. A point on or behind the camera plane
    /// (`d.z <= 0`) has no projection; the draw path skips it.
    pub open spec fn projected_spec(self, point: Vec3) -> Option<Point2> {
        let d = mat3xv3_mul_spec(self.projection, vec3_sub_spec(point, self.r));
        if d.z <= 0 {
            None
        } else {
            Some(
                Point2 {
                    x: (div_trunc(self.screen * d.x, d.z as int) + self.width / 2) as i64,
                    y: (div_trunc(self.screen * d.y, d.z as int) + self.height / 2) as i64,
                },
            )
        }
    }

    /// Projects a world point to canvas coordinates, or `None` for a
    /// point on or behind the camera plane.
    pub fn projected(&self, point: Vec3) -> (r: Option<Point2>)
        requires
            self.wf(),
            point.in_range(COORD_LIMIT as int),
        ensures
            r == self.projected_spec(point),
    {
        let dr = vec3_sub(point, self.r);
        let d = mat3xv3_mul(self.projection, dr);
        if d.z <= 0 {
            None
        } else {
            proof {
                lemma_mul_mag(self.screen as int, d.x as int, VIEW_LIMIT as int, 108 * COORD_LIMIT
                    as int);
                lemma_mul_mag(self.screen as int, d.y as int, VIEW_LIMIT as int, 108 * COORD_LIMIT
                    as int);
                crate::math::lemma_div_trunc_mag(
                    self.screen * d.x,
                    d.z as int,
                    (VIEW_LIMIT as int) * (108 * COORD_LIMIT as int),
                );
                crate::math::lemma_div_trunc_mag(
                    self.screen * d.y,
                    d.z as int,
                    (VIEW_LIMIT as int) * (108 * COORD_LIMIT as int),
                );
            }
            let half_w = ((self.width as u64) / 2) as i64;
            let half_h = ((self.height as u64) / 2) as i64;
            let bx = div_trunc_i64(self.screen * d.x, d.z) + half_w;
            let by = div_trunc_i64(self.screen * d.y, d.z) + half_h;
            Some(Point2 { x: bx, y: by })
        }
    }

    /// Turns the camera by `delta` (composed axis by axis onto `theta`)
    /// and refreshes the projection matrix.
    pub fn rotate(&mut self, delta: Euler)
        requires
            old(self).wf(),
            delta.wf(),
    ensures
            *final(self) == (Camera {
                theta: old(self).theta.plus_spec(delta),
                projection: mat_rotation_spec(old(self).theta.plus_spec(delta)),
                ..*old(self)
            }),
            final(self).wf(),
    {
        self.theta = self.theta.plus(delta);
        self.update_projection();
    }

    /// Replaces the orientation outright (for pointer-driven look
    /// control) and refreshes the projection matrix.
    pub fn orient(&mut self, theta: Euler)
        requires
            old(self).wf(),
            theta.wf(),
        ensures
            *final(self) == (Camera {
                theta,
                projection: mat_rotation_spec(theta),
                ..*old(self)
            }),
            final(self).wf(),
    {
        self.theta = theta;
        self.update_projection();
    }

    /// Moves the camera by `delta`.
    pub fn trans(&mut self, delta: Vec3)
        requires
            old(self).wf(),
            delta.in_range(COORD_LIMIT as int),
            vec3_add_wf(old(self).r, delta),
        ensures
            *final(self) == (Camera {
                r: crate::math::vec3_add_spec(old(self).r, delta),
                ..*old(self)
            }),
            final(self).r.x == old(self).r.x + delta.x,
            final(self).r.y == old(self).r.y + delta.y,
            final(self).r.z == old(self).r.z + delta.z,
            final(self).wf(),
    {
        self.r = crate::math::vec3_add(self.r, delta);
    }

    /// Places the camera at `r`.
    pub fn put(&mut self, r: Vec3)
        requires
            old(self).wf(),
            r.in_range(COORD_LIMIT as int),
        ensures
            *final(self) == (Camera { r, ..*old(self) }),
            final(self).wf(),
    {
        self.r = r;
    }

    /// Sets the viewport size. The projection matrix does not depend on
    /// the viewport, so it stays valid.
    pub fn resize(&mut self, width: i64, height: i64)
        requires
            old(self).wf(),
            0 < width <= VIEW_LIMIT,
            0 < height <= VIEW_LIMIT,
        ensures
            *final(self) == (Camera { width, height, ..*old(self) }),
            final(self).wf(),
    {
        self.width = width;
        self.height = height;
    }
}

/// The yaw for a pointer at `x` on a viewport `width` wide: the look
/// range spans 6 radians across the width, `ONE`-scaled radians out.
pub open spec fn pointer_yaw_spec(x: int, width: int) -> int {
    div_trunc((x - width / 2) * (6 * ONE), width)
}

/// The pitch for a pointer at `y` on a viewport `height` tall: 2
/// radians down the height, negated so that moving down looks down.
/// The narrower vertical range than the horizontal 6 is a design
/// choice, not an accident.
pub open spec fn pointer_pitch_spec(y: int, height: int) -> int {
    -div_trunc((y - height / 2) * (2 * ONE), height)
}

/// Maps a pointer position to the camera look angles, as `ONE`-scaled
/// radians `(pitch, yaw)`. The host turns each into its (sine, cosine)
/// pair before orienting the camera.
pub fn pointer_angles(x: i64, y: i64, width: i64, height: i64) -> (r: (i64, i64))
    requires
        0 < width <= VIEW_LIMIT,
        0 < height <= VIEW_LIMIT,
        -VIEW_LIMIT <= x <= VIEW_LIMIT,
        -VIEW_LIMIT <= y <= VIEW_LIMIT,
    ensures
        r.0 == pointer_pitch_spec(y as int, height as int),
        r.1 == pointer_yaw_spec(x as int, width as int),
{
    let half_w = ((width as u64) / 2) as i64;
    let half_h = ((height as u64) / 2) as i64;
    proof {
        assert(half_w == width / 2 && half_h == height / 2);
        lemma_mul_mag((x - half_w) as int, 6 * ONE as int, 2 * VIEW_LIMIT as int, 6 * ONE as int);
        lemma_mul_mag((y - half_h) as int, 2 * ONE as int, 2 * VIEW_LIMIT as int, 2 * ONE as int);
        crate::math::lemma_div_trunc_mag(
            (x - half_w) * (6 * ONE),
            width as int,
            (2 * VIEW_LIMIT as int) * (6 * ONE as int),
        );
        crate::math::lemma_div_trunc_mag(
            (y - half_h) * (2 * ONE),
            height as int,
            (2 * VIEW_LIMIT as int) * (2 * ONE as int),
        );
    }
    let yaw = div_trunc_i64((x - half_w) * (6 * ONE), width);
    let pitch = -div_trunc_i64((y - half_h) * (2 * ONE), height);
    (pitch, yaw)
}

/// The translated camera position stays within the coordinate bounds.
pub open spec fn vec3_add_wf(a: Vec3, b: Vec3) -> bool {
    &&& -COORD_LIMIT <= a.x + b.x <= COORD_LIMIT
    &&& -COORD_LIMIT <= a.y + b.y <= COORD_LIMIT
    &&& -COORD_LIMIT <= a.z + b.z <= COORD_LIMIT
}

} // verus!
