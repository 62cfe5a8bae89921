//! Collision-free velocities for agents that share space: the core that
//! does not depend on how coordinates are represented.
//!
//! An agent that must avoid its neighbours is given one half-space of
//! velocities per neighbour and looks for the velocity nearest to the one
//! that it prefers inside all of them and inside its speed limit. The
//! search is a cascade over dimensions: a violated constraint sends it to
//! the constraint's boundary, where the same problem is posed one dimension
//! lower; where the problem in space has no solution, it is posed again
//! with slack in four dimensions, so that some velocity is always found.
//!
//! The arithmetic of points, planes and spheres is not part of this crate.
//! Shapes enter through traits: `Vec2Operations`, `Vec3Operations` and
//! `Vec4Operations` for the point queries, the intersection traits for
//! cutting a shape with a line, a plane or a hyperplane, and the `Operations`
//! traits of half-planes, planes and hyperplanes for the constraints
//! themselves. Every method of these traits comes with a specification
//! function and promises that its result is the value of that function and
//! nothing else; the contracts of the crate are stated over those functions
//! and hold for any geometry.
//!
//! What is proved:
//!
//! - `incremental_optimization_2d`, `incremental_optimization_3d` and
//!   `incremental_optimization_4d` return exactly the outcome that the
//!   constraints, taken in order, lead to (`optimum_2d`, `optimum_3d`,
//!   `optimum_4d`), and `optimize_velocity_3d` returns a velocity for
//!   every input.
//! - Constraints that the velocity satisfies do not move it; a further
//!   constraint never makes an infeasible problem feasible; the outcome
//!   after some constraints does not depend on the later ones.
//! - An earlier constraint that is parallel to the one that the velocity
//!   is moved onto is not passed over: it is asked about the point moved
//!   to, and the problem is infeasible where it excludes that point.
//! - In exact geometry a feasible outcome satisfies every constraint, an
//!   infeasible one every constraint before the one that could not be met,
//!   and the velocity of either lies in the bounding shape; the velocity
//!   that `optimize_velocity_3d` returns is within the speed limit. What
//!   exact geometry means is spelled out (`geometry_is_exact_2d`,
//!   `geometry_is_exact_3d`, `geometry_is_exact_4d`) as conditions on the
//!   bounding shape, on the constraints and on the segments and sections
//!   that the optimization builds from them, and on nothing else.
//! - `SampleGrid::construct_vo_mesh` returns exactly `mesh`, the triangles
//!   of each sample in turn, and the mesh has no corner that was not
//!   sampled.
//! - `Matrix` reads the same entries before and after transposition, with
//!   rows and columns exchanged, and composite shapes (`Collider`,
//!   `AVOBoundary`) answer as the shape that they hold.

pub mod avo_boundary;
pub mod colliders;
pub mod half_plane;
pub mod hyperplane;
pub mod line_segment_2d;
pub mod matrix;
pub mod plane;
pub mod points;
pub mod ray_2d;
pub mod solver_2d;
pub mod solver_3d;
pub mod solver_4d;
pub mod sphere;
pub mod velocity_space;
pub mod vo_mesh;

pub use avo_boundary::AVOBoundary;
pub use half_plane::HalfPlaneOperations;
pub use hyperplane::{HyperplaneIntersecionShape, HyperplaneIntersection, HyperplaneOperations};
pub use line_segment_2d::LineSegment2DOperations;
pub use matrix::Matrix;
pub use plane::{PlaneIntersecion, PlaneIntersecionShape, PlaneOperations};
pub use points::{Vec2Operations, Vec3Operations, Vec4Operations};
pub use ray_2d::{Ray2DIntersection, Ray2DIntersectionResult};
pub use solver_2d::{incremental_optimization_2d, MaximumVelocityShape2D, OptimizationResult2D};
pub use solver_3d::{incremental_optimization_3d, MaximumVelocityShape3D, OptimizationResult3D};
pub use solver_4d::{incremental_optimization_4d, MaximumVelocityShape4D, OptimizationResult4D};
pub use sphere::{SphereIntersection, SphereIntersectionShape};
pub use velocity_space::{optimize_velocity_3d, VelocitySpace};
pub use vo_mesh::SampleGrid;
