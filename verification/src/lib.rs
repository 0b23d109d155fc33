//! A software 3D-to-2D rendering core on fixed-point integer arithmetic.
//!
//! The crate holds a scene of meshes (an indexed vertex/face topology),
//! projects it through a configurable perspective camera, depth-orders
//! the faces for occlusion (painter's algorithm), and produces filled,
//! flat-shaded polygon or wireframe draw commands for a 2D canvas.
//! All quantities are integers: world coordinates are whole units, while
//! trigonometric values, matrix entries and colour channels are scaled
//! by `types::ONE`. The host supplies sines and cosines (as
//! `math::Angle` values) and performs the actual window and canvas I/O.

pub mod camera;
pub mod lights;
pub mod math;
pub mod mesh;
pub mod types;
pub mod world;
