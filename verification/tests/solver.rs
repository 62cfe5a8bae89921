//! The optimization cascade run on a Euclidean geometry in single
//! precision.

use std::f32::consts::PI;

use bevy_math::{Mat3, Vec2, Vec3, Vec4, Vec4Swizzles};
use orca::colliders::Collider;
use orca::line_segment_2d::{clip_max, clip_min, settle};
use orca::solver_2d::clip_segment;
use orca::{
    incremental_optimization_2d, incremental_optimization_3d, incremental_optimization_4d,
    optimize_velocity_3d, HalfPlaneOperations, HyperplaneIntersection, HyperplaneOperations,
    LineSegment2DOperations, OptimizationResult2D, OptimizationResult3D, OptimizationResult4D,
    PlaneIntersecion, PlaneOperations, Ray2DIntersection, Ray2DIntersectionResult,
    Vec2Operations, Vec3Operations, Vec4Operations, VelocitySpace,
};

// ---------------------------------------------------------------------------
// A Euclidean geometry in single precision for the solver to work on.
// ---------------------------------------------------------------------------

const EPSILON: f32 = 0.0001;

#[derive(Clone, Debug)]
struct Ray2D {
    origin: Vec2,
    direction: Vec2,
}

impl Ray2D {
    fn new(origin: Vec2, direction: Vec2) -> Self {
        Self { origin, direction }
    }
}

#[derive(Clone, Debug)]
struct LineSegment2D {
    origin: Vec2,
    direction: Vec2,
    t_min: f32,
    t_max: f32,
}

impl LineSegment2D {
    fn new(origin: Vec2, direction: Vec2, t_min: f32, t_max: f32) -> Self {
        Self { origin, direction, t_min, t_max }
    }
}

impl Vec2Operations for LineSegment2D {
    type Point = Vec2;
    type Scalar = f32;

    fn contains(&self, pt: Vec2) -> bool {
        let relative_pt = pt - self.origin;
        let t = relative_pt.dot(self.direction);
        if t < self.t_min || t > self.t_max {
            return false;
        }
        let projected_pt = t * self.direction;
        (projected_pt - relative_pt).length_squared() < EPSILON
    }

    fn constrain(&self, pt: Vec2) -> Vec2 {
        let relative_pt = pt - self.origin;
        let t = relative_pt.dot(self.direction).clamp(self.t_min, self.t_max);
        self.origin + self.direction * t
    }

    fn closest_point_and_normal(&self, pt: Vec2) -> (Vec2, Vec2) {
        let relative_pt = pt - self.origin;
        let t = relative_pt.dot(self.direction).clamp(self.t_min, self.t_max);
        let projected_pt = t * self.direction;
        let mut normal = self.direction.perp();
        if (relative_pt - projected_pt).dot(normal) < 0.0 {
            normal = -normal;
        }
        (self.origin + projected_pt, normal)
    }

    fn signed_distance(&self, pt: Vec2) -> f32 {
        let relative_pt = pt - self.origin;
        let t = relative_pt.dot(self.direction).clamp(self.t_min, self.t_max);
        (self.origin + self.direction * t - pt).length()
    }

    fn spec_contains(&self, pt: Vec2) -> bool {
        <Self as Vec2Operations>::contains(self, pt)
    }

    fn spec_constrain(&self, pt: Vec2) -> Vec2 {
        <Self as Vec2Operations>::constrain(self, pt)
    }

    fn spec_closest_point_and_normal(&self, pt: Vec2) -> (Vec2, Vec2) {
        <Self as Vec2Operations>::closest_point_and_normal(self, pt)
    }

    fn spec_signed_distance(&self, pt: Vec2) -> f32 {
        <Self as Vec2Operations>::signed_distance(self, pt)
    }
}

impl LineSegment2DOperations for LineSegment2D {
    type Ray = Ray2D;

    fn new(line: &Ray2D, t_min: f32, t_max: f32) -> Self {
        LineSegment2D::new(line.origin, line.direction, t_min, t_max)
    }

    fn to_ray(&self) -> Ray2D {
        Ray2D::new(self.origin, self.direction)
    }

    fn t_min(&self) -> f32 {
        self.t_min
    }

    fn t_max(&self) -> f32 {
        self.t_max
    }

    fn start(&self) -> Vec2 {
        self.origin + self.direction * self.t_min
    }

    fn end(&self) -> Vec2 {
        self.origin + self.direction * self.t_max
    }

    fn precedes(a: f32, b: f32) -> bool {
        a < b
    }

    fn nearly_equal(a: f32, b: f32) -> bool {
        (a - b).abs() < EPSILON
    }

    fn mean(a: f32, b: f32) -> f32 {
        (a + b) / 2.0
    }

    fn spec_new(line: &Ray2D, t_min: f32, t_max: f32) -> Self {
        <Self as LineSegment2DOperations>::new(line, t_min, t_max)
    }

    fn spec_to_ray(&self) -> Ray2D {
        <Self as LineSegment2DOperations>::to_ray(self)
    }

    fn spec_t_min(&self) -> f32 {
        <Self as LineSegment2DOperations>::t_min(self)
    }

    fn spec_t_max(&self) -> f32 {
        <Self as LineSegment2DOperations>::t_max(self)
    }

    fn spec_start(&self) -> Vec2 {
        <Self as LineSegment2DOperations>::start(self)
    }

    fn spec_end(&self) -> Vec2 {
        <Self as LineSegment2DOperations>::end(self)
    }

    fn spec_precedes(a: f32, b: f32) -> bool {
        <Self as LineSegment2DOperations>::precedes(a, b)
    }

    fn spec_nearly_equal(a: f32, b: f32) -> bool {
        <Self as LineSegment2DOperations>::nearly_equal(a, b)
    }

    fn spec_mean(a: f32, b: f32) -> f32 {
        <Self as LineSegment2DOperations>::mean(a, b)
    }
}

impl Ray2DIntersection for Ray2D {
    type Ray = Ray2D;
    type Parameter = f32;
    type Segment = LineSegment2D;

    fn intersect(&self, ray: &Ray2D) -> Ray2DIntersectionResult<f32, LineSegment2D> {
        let point = self.origin;
        let direction = self.direction;
        let other_point = ray.origin;
        let other_direction = ray.direction;

        if (direction.x * other_direction.y - direction.y * other_direction.x).abs() <= EPSILON {
            return Ray2DIntersectionResult::Empty;
        }
        if other_direction.x.abs() <= EPSILON {
            Ray2DIntersectionResult::Point((other_point.x - point.x) / direction.x)
        } else if other_direction.y.abs() <= EPSILON {
            Ray2DIntersectionResult::Point((other_point.y - point.y) / direction.y)
        } else if other_direction.x.abs() > other_direction.y.abs() {
            let slope = other_direction.y / other_direction.x;
            let y_intercept = other_point.y - slope * other_point.x;
            let denominator = direction.x * slope - direction.y;
            if denominator.abs() <= EPSILON {
                return Ray2DIntersectionResult::Empty;
            }
            Ray2DIntersectionResult::Point(-(slope * point.x - point.y + y_intercept) / denominator)
        } else {
            let slope = other_direction.x / other_direction.y;
            let x_intercept = other_point.x - slope * other_point.y;
            let denominator = direction.y * slope - direction.x;
            if denominator.abs() <= EPSILON {
                return Ray2DIntersectionResult::Empty;
            }
            Ray2DIntersectionResult::Point(-(slope * point.y - point.x + x_intercept) / denominator)
        }
    }

    fn spec_intersect(&self, ray: &Ray2D) -> Ray2DIntersectionResult<f32, LineSegment2D> {
        <Self as Ray2DIntersection>::intersect(self, ray)
    }
}

#[derive(Clone, Debug)]
struct HalfPlane {
    normal: Vec2,
    point: Vec2,
}

impl HalfPlane {
    fn new(point: Vec2, normal: Vec2) -> Self {
        Self { normal: normal.normalize(), point }
    }
}

impl Vec2Operations for HalfPlane {
    type Point = Vec2;
    type Scalar = f32;

    fn contains(&self, pt: Vec2) -> bool {
        self.signed_distance(pt) >= -EPSILON
    }

    fn constrain(&self, pt: Vec2) -> Vec2 {
        let signed_distance = self.signed_distance(pt);
        if signed_distance >= -EPSILON {
            pt
        } else {
            pt - self.normal * signed_distance
        }
    }

    fn closest_point_and_normal(&self, pt: Vec2) -> (Vec2, Vec2) {
        let signed_distance = self.signed_distance(pt);
        if signed_distance >= -EPSILON {
            (pt, self.normal)
        } else {
            (pt - self.normal * signed_distance, self.normal)
        }
    }

    fn signed_distance(&self, pt: Vec2) -> f32 {
        self.normal.dot(pt - self.point)
    }

    fn spec_contains(&self, pt: Vec2) -> bool {
        <Self as Vec2Operations>::contains(self, pt)
    }

    fn spec_constrain(&self, pt: Vec2) -> Vec2 {
        <Self as Vec2Operations>::constrain(self, pt)
    }

    fn spec_closest_point_and_normal(&self, pt: Vec2) -> (Vec2, Vec2) {
        <Self as Vec2Operations>::closest_point_and_normal(self, pt)
    }

    fn spec_signed_distance(&self, pt: Vec2) -> f32 {
        <Self as Vec2Operations>::signed_distance(self, pt)
    }
}

impl HalfPlaneOperations for HalfPlane {
    type Plane = Plane;
    type Ray = Ray2D;
    type Segment = LineSegment2D;

    fn from_plane_intersection(plane: &Plane, other: &Plane) -> Option<Self> {
        let d1 = plane.normal.dot(plane.origin);
        let d2 = other.normal.dot(other.origin);
        let normals_dot = plane.normal.dot(other.normal);
        let denominator = 1.0 - normals_dot.powi(2);
        if (denominator).abs() < EPSILON {
            return None;
        }
        let k1 = (d1 - d2 * normals_dot) / denominator;
        let k2 = (d2 - d1 * normals_dot) / denominator;
        let pt = plane.normal * k1 + other.normal * k2;
        let cross = plane.normal.cross(other.normal);
        let pt2 = pt + cross;
        let plane_pt = plane.project_2d(pt);
        let plane_pt2 = plane.project_2d(pt2);
        Some(Self::new(plane_pt, (plane_pt - plane_pt2).normalize().perp()))
    }

    fn boundary(&self) -> Ray2D {
        Ray2D::new(self.point, self.normal.perp())
    }

    fn spec_from_plane_intersection(plane: &Plane, other: &Plane) -> Option<Self> {
        <Self as HalfPlaneOperations>::from_plane_intersection(plane, other)
    }

    fn spec_boundary(&self) -> Ray2D {
        <Self as HalfPlaneOperations>::boundary(self)
    }
}

struct Circle {
    radius: f32,
    origin: Vec2,
}

impl Circle {
    fn new(radius: f32, origin: Vec2) -> Self {
        Self { radius, origin }
    }
}

impl Vec2Operations for Circle {
    type Point = Vec2;
    type Scalar = f32;

    fn contains(&self, pt: Vec2) -> bool {
        (pt - self.origin).length_squared() <= self.radius * self.radius
    }

    fn constrain(&self, pt: Vec2) -> Vec2 {
        let relative_pt = pt - self.origin;
        if relative_pt.length_squared() > self.radius * self.radius {
            self.origin + relative_pt.normalize() * self.radius
        } else {
            pt
        }
    }

    fn closest_point_and_normal(&self, pt: Vec2) -> (Vec2, Vec2) {
        let normal = (pt - self.origin).normalize();
        (self.origin + normal * self.radius, normal)
    }

    fn signed_distance(&self, pt: Vec2) -> f32 {
        (pt - self.origin).length() - self.radius
    }

    fn spec_contains(&self, pt: Vec2) -> bool {
        <Self as Vec2Operations>::contains(self, pt)
    }

    fn spec_constrain(&self, pt: Vec2) -> Vec2 {
        <Self as Vec2Operations>::constrain(self, pt)
    }

    fn spec_closest_point_and_normal(&self, pt: Vec2) -> (Vec2, Vec2) {
        <Self as Vec2Operations>::closest_point_and_normal(self, pt)
    }

    fn spec_signed_distance(&self, pt: Vec2) -> f32 {
        <Self as Vec2Operations>::signed_distance(self, pt)
    }
}

impl Ray2DIntersection for Circle {
    type Ray = Ray2D;
    type Parameter = f32;
    type Segment = LineSegment2D;

    fn intersect(&self, ray: &Ray2D) -> Ray2DIntersectionResult<f32, LineSegment2D> {
        let point = ray.origin - self.origin;
        let direction = ray.direction;
        let radius = self.radius;
        let dr = direction.length();
        let x1 = point.x;
        let y1 = point.y;
        let x2 = point.x + direction.x;
        let y2 = point.y + direction.y;
        let d = x1 * y2 - x2 * y1;
        let discriminant = radius * radius * dr * dr - d * d;

        if discriminant < 0.0 {
            return Ray2DIntersectionResult::Empty;
        }
        if discriminant < EPSILON {
            let t = if direction.x.abs() < direction.y.abs() {
                let y = -d * direction.x / (dr * dr);
                (y - y1) / direction.y
            } else {
                let x = d * direction.y / (dr * dr);
                (x - x1) / direction.x
            };
            Ray2DIntersectionResult::Point(t)
        } else {
            let ta = if direction.x.abs() < direction.y.abs() {
                let ya = -d * direction.x + direction.y.abs() * discriminant.sqrt() / (dr * dr);
                (ya - y1) / direction.y
            } else {
                let xa = (d * direction.y
                    + direction.y.signum() * direction.x * discriminant.sqrt())
                    / (dr * dr);
                (xa - x1) / direction.x
            };
            let tb = if direction.x.abs() < direction.y.abs() {
                let yb = -d * direction.x - direction.y.abs() * discriminant.sqrt() / (dr * dr);
                (yb - y1) / direction.y
            } else {
                let xb = (d * direction.y
                    - direction.y.signum() * direction.x * discriminant.sqrt())
                    / (dr * dr);
                (xb - x1) / direction.x
            };
            Ray2DIntersectionResult::LineSegment(LineSegment2D {
                origin: ray.origin,
                direction: ray.direction,
                t_min: ta.min(tb),
                t_max: ta.max(tb),
            })
        }
    }

    fn spec_intersect(&self, ray: &Ray2D) -> Ray2DIntersectionResult<f32, LineSegment2D> {
        <Self as Ray2DIntersection>::intersect(self, ray)
    }
}

#[derive(Clone, Debug)]
struct Plane {
    normal: Vec3,
    origin: Vec3,
    u_direction: Vec3,
    v_direction: Vec3,
}

impl Plane {
    fn new(origin: Vec3, normal: Vec3) -> Self {
        let normal = normal.normalize();
        let basis = {
            let x_dot = Vec3::X.dot(normal).abs();
            let y_dot = Vec3::Y.dot(normal).abs();
            let z_dot = Vec3::Z.dot(normal).abs();
            if x_dot < y_dot && x_dot < z_dot {
                Vec3::X
            } else if y_dot < z_dot {
                Vec3::Y
            } else {
                Vec3::Z
            }
        };
        let u_direction = normal.cross(basis).normalize();
        let v_direction = normal.cross(u_direction).normalize();
        Self { normal, origin, u_direction, v_direction }
    }
}

impl Vec3Operations for Plane {
    type Point = Vec3;
    type Scalar = f32;

    fn contains(&self, pt: Vec3) -> bool {
        self.signed_distance(pt) >= -EPSILON
    }

    fn constrain(&self, pt: Vec3) -> Vec3 {
        if self.contains(pt) {
            return pt;
        }
        let t = self.normal.dot(self.origin) - self.normal.dot(pt);
        pt + self.normal * t
    }

    fn closest_point_and_normal(&self, pt: Vec3) -> (Vec3, Vec3) {
        let t = self.normal.dot(self.origin) - self.normal.dot(pt);
        (pt + self.normal * t, self.normal)
    }

    fn signed_distance(&self, pt: Vec3) -> f32 {
        self.normal.dot(pt - self.origin)
    }

    fn spec_contains(&self, pt: Vec3) -> bool {
        <Self as Vec3Operations>::contains(self, pt)
    }

    fn spec_constrain(&self, pt: Vec3) -> Vec3 {
        <Self as Vec3Operations>::constrain(self, pt)
    }

    fn spec_closest_point_and_normal(&self, pt: Vec3) -> (Vec3, Vec3) {
        <Self as Vec3Operations>::closest_point_and_normal(self, pt)
    }

    fn spec_signed_distance(&self, pt: Vec3) -> f32 {
        <Self as Vec3Operations>::signed_distance(self, pt)
    }
}

impl PlaneOperations for Plane {
    type Point2 = Vec2;
    type Hyperplane = Hyperplane;
    type HalfPlane = HalfPlane;

    fn from_hyperplane_intersection(plane: &Hyperplane, other: &Hyperplane) -> Option<Self> {
        let normal_x = plane.u_direction.dot(other.normal);
        let normal_y = plane.v_direction.dot(other.normal);
        let normal_z = plane.w_direction.dot(other.normal);
        let d2 = other.origin.dot(other.normal);
        let d_result = d2 - plane.origin.dot(other.normal);
        if normal_x.abs() < EPSILON && normal_y.abs() < EPSILON && normal_z.abs() < EPSILON {
            return None;
        }
        let normal = Vec3::new(normal_x, normal_y, normal_z).normalize();
        let origin = d_result * normal;
        Some(Self::new(origin, normal))
    }

    fn project_2d(&self, p: Vec3) -> Vec2 {
        let u = self.u_direction.dot(p - self.origin);
        let v = self.v_direction.dot(p - self.origin);
        Vec2::new(u, v)
    }

    fn project_3d(&self, p: Vec2) -> Vec3 {
        Vec3::new(
            self.origin.x + p.x * self.u_direction.x + p.y * self.v_direction.x,
            self.origin.y + p.x * self.u_direction.y + p.y * self.v_direction.y,
            self.origin.z + p.x * self.u_direction.z + p.y * self.v_direction.z,
        )
    }

    fn spec_from_hyperplane_intersection(plane: &Hyperplane, other: &Hyperplane) -> Option<Self> {
        <Self as PlaneOperations>::from_hyperplane_intersection(plane, other)
    }

    fn spec_project_2d(&self, p: Vec3) -> Vec2 {
        <Self as PlaneOperations>::project_2d(self, p)
    }

    fn spec_project_3d(&self, p: Vec2) -> Vec3 {
        <Self as PlaneOperations>::project_3d(self, p)
    }
}

#[derive(Clone, Debug)]
struct Sphere {
    radius: f32,
    origin: Vec3,
}

impl Sphere {
    fn new(radius: f32, origin: Vec3) -> Self {
        Self { radius, origin }
    }
}

impl Vec3Operations for Sphere {
    type Point = Vec3;
    type Scalar = f32;

    fn contains(&self, pt: Vec3) -> bool {
        (pt - self.origin).length_squared() <= self.radius * self.radius
    }

    fn constrain(&self, pt: Vec3) -> Vec3 {
        let relative_pt = pt - self.origin;
        if relative_pt.length_squared() <= self.radius * self.radius {
            return pt;
        }
        self.origin + relative_pt.normalize() * self.radius
    }

    fn closest_point_and_normal(&self, pt: Vec3) -> (Vec3, Vec3) {
        let relative_pt = pt - self.origin;
        if relative_pt.length_squared() <= self.radius * self.radius {
            return (pt, relative_pt.normalize());
        }
        (self.origin + relative_pt.normalize() * self.radius, relative_pt.normalize())
    }

    fn signed_distance(&self, pt: Vec3) -> f32 {
        (pt - self.origin).length() - self.radius
    }

    fn spec_contains(&self, pt: Vec3) -> bool {
        <Self as Vec3Operations>::contains(self, pt)
    }

    fn spec_constrain(&self, pt: Vec3) -> Vec3 {
        <Self as Vec3Operations>::constrain(self, pt)
    }

    fn spec_closest_point_and_normal(&self, pt: Vec3) -> (Vec3, Vec3) {
        <Self as Vec3Operations>::closest_point_and_normal(self, pt)
    }

    fn spec_signed_distance(&self, pt: Vec3) -> f32 {
        <Self as Vec3Operations>::signed_distance(self, pt)
    }
}

impl PlaneIntersecion for Sphere {
    type Plane = Plane;
    type Section = Circle;

    fn intersect(&self, plane: &Plane) -> Option<Circle> {
        let (plane_pt, _) = plane.closest_point_and_normal(self.origin);
        let origin_distance = (plane_pt - self.origin).length();
        if origin_distance > self.radius {
            return None;
        }
        let radius = (self.radius * self.radius - origin_distance * origin_distance).sqrt();
        Some(Circle::new(radius, plane.project_2d(plane_pt)))
    }

    fn spec_intersect(&self, plane: &Plane) -> Option<Circle> {
        <Self as PlaneIntersecion>::intersect(self, plane)
    }
}

#[derive(Clone, Debug)]
struct Hyperplane {
    normal: Vec4,
    origin: Vec4,
    u_direction: Vec4,
    v_direction: Vec4,
    w_direction: Vec4,
}

impl Hyperplane {
    fn new(origin: Vec4, normal: Vec4) -> Self {
        let normal = normal.normalize();
        let basis = {
            let x_dot = Vec4::X.dot(normal).abs();
            let y_dot = Vec4::Y.dot(normal).abs();
            let z_dot = Vec4::Z.dot(normal).abs();
            let w_dot = Vec4::W.dot(normal).abs();
            if x_dot > y_dot && x_dot > z_dot && x_dot > w_dot {
                [Vec4::Y, Vec4::Z, Vec4::W]
            } else if y_dot > z_dot && y_dot > w_dot {
                [Vec4::X, Vec4::Z, Vec4::W]
            } else if z_dot > w_dot {
                [Vec4::X, Vec4::Y, Vec4::W]
            } else {
                [Vec4::X, Vec4::Y, Vec4::Z]
            }
        };
        let u_direction = (basis[0] - normal * normal.dot(basis[0])).normalize();
        let v_direction =
            (basis[1] - normal * normal.dot(basis[1]) - u_direction * u_direction.dot(basis[1]))
                .normalize();
        let w_direction = (basis[2]
            - normal * normal.dot(basis[2])
            - u_direction * u_direction.dot(basis[2])
            - v_direction * v_direction.dot(basis[2]))
        .normalize();
        Self { normal, origin, u_direction, v_direction, w_direction }
    }
}

impl Vec4Operations for Hyperplane {
    type Point = Vec4;
    type Scalar = f32;

    fn contains(&self, pt: Vec4) -> bool {
        self.normal.dot(pt - self.origin) >= -EPSILON
    }

    fn constrain(&self, pt: Vec4) -> Vec4 {
        if self.contains(pt) {
            return pt;
        }
        let t = self.normal.dot(self.origin) - self.normal.dot(pt);
        pt + self.normal * t
    }

    fn signed_distance(&self, pt: Vec4) -> f32 {
        self.normal.dot(pt - self.origin)
    }

    fn spec_contains(&self, pt: Vec4) -> bool {
        <Self as Vec4Operations>::contains(self, pt)
    }

    fn spec_constrain(&self, pt: Vec4) -> Vec4 {
        <Self as Vec4Operations>::constrain(self, pt)
    }

    fn spec_signed_distance(&self, pt: Vec4) -> f32 {
        <Self as Vec4Operations>::signed_distance(self, pt)
    }
}

impl HyperplaneOperations for Hyperplane {
    type Point3 = Vec3;
    type Plane = Plane;

    fn project_3d(&self, p: Vec4) -> Vec3 {
        let u = (p - self.origin).dot(self.u_direction);
        let v = (p - self.origin).dot(self.v_direction);
        let w = (p - self.origin).dot(self.w_direction);
        Vec3::new(u, v, w)
    }

    fn project_4d(&self, p: Vec3) -> Vec4 {
        self.origin + self.u_direction * p.x + self.v_direction * p.y + self.w_direction * p.z
    }

    fn spec_project_3d(&self, p: Vec4) -> Vec3 {
        <Self as HyperplaneOperations>::project_3d(self, p)
    }

    fn spec_project_4d(&self, p: Vec3) -> Vec4 {
        <Self as HyperplaneOperations>::project_4d(self, p)
    }
}

#[derive(Clone, Debug)]
struct Spherinder {
    origin: Vec4,
    radius: f32,
}

impl Spherinder {
    fn new(origin: Vec4, radius: f32) -> Self {
        Self { origin, radius }
    }
}

impl Vec4Operations for Spherinder {
    type Point = Vec4;
    type Scalar = f32;

    fn contains(&self, pt: Vec4) -> bool {
        (pt - self.origin).xyz().length_squared() <= self.radius * self.radius
    }

    fn constrain(&self, pt: Vec4) -> Vec4 {
        let relative_pt = pt - self.origin;
        let xyz = relative_pt.xyz();
        let w = relative_pt.w;
        if xyz.length_squared() < self.radius * self.radius {
            return pt;
        }
        let new_xyz = xyz.normalize() * self.radius;
        self.origin + Vec4::new(new_xyz.x, new_xyz.y, new_xyz.z, w)
    }

    fn signed_distance(&self, pt: Vec4) -> f32 {
        (pt - self.origin).xyz().length() - self.radius
    }

    fn spec_contains(&self, pt: Vec4) -> bool {
        <Self as Vec4Operations>::contains(self, pt)
    }

    fn spec_constrain(&self, pt: Vec4) -> Vec4 {
        <Self as Vec4Operations>::constrain(self, pt)
    }

    fn spec_signed_distance(&self, pt: Vec4) -> f32 {
        <Self as Vec4Operations>::signed_distance(self, pt)
    }
}

impl HyperplaneIntersection for Spherinder {
    type Hyperplane = Hyperplane;
    type Section = SpherinderHyperplaneIntersecion;

    fn intersect(&self, plane: &Hyperplane) -> Option<SpherinderHyperplaneIntersecion> {
        Some(SpherinderHyperplaneIntersecion { spherinder: self.clone(), hyperplane: plane.clone() })
    }

    fn spec_intersect(&self, plane: &Hyperplane) -> Option<SpherinderHyperplaneIntersecion> {
        <Self as HyperplaneIntersection>::intersect(self, plane)
    }
}

struct SpherinderHyperplaneIntersecion {
    spherinder: Spherinder,
    hyperplane: Hyperplane,
}

impl Vec3Operations for SpherinderHyperplaneIntersecion {
    type Point = Vec3;
    type Scalar = f32;

    fn contains(&self, pt: Vec3) -> bool {
        self.spherinder.contains(self.hyperplane.project_4d(pt))
    }

    fn constrain(&self, pt: Vec3) -> Vec3 {
        let d4_point = self.hyperplane.project_4d(pt);
        let constrained4d = self.spherinder.constrain(d4_point);
        if self.hyperplane.normal.w.abs() < EPSILON {
            self.hyperplane.project_3d(constrained4d)
        } else {
            let d = self.hyperplane.normal.dot(self.hyperplane.origin);
            let w = (d - self.hyperplane.normal.xyz().dot(constrained4d.xyz()))
                / self.hyperplane.normal.w;
            self.hyperplane.project_3d(Vec4::new(
                constrained4d.x,
                constrained4d.y,
                constrained4d.z,
                w,
            ))
        }
    }

    fn closest_point_and_normal(&self, pt: Vec3) -> (Vec3, Vec3) {
        let closest = self.constrain(pt);
        (closest, (pt - closest).normalize_or_zero())
    }

    fn signed_distance(&self, pt: Vec3) -> f32 {
        self.spherinder.signed_distance(self.hyperplane.project_4d(pt))
    }

    fn spec_contains(&self, pt: Vec3) -> bool {
        <Self as Vec3Operations>::contains(self, pt)
    }

    fn spec_constrain(&self, pt: Vec3) -> Vec3 {
        <Self as Vec3Operations>::constrain(self, pt)
    }

    fn spec_closest_point_and_normal(&self, pt: Vec3) -> (Vec3, Vec3) {
        <Self as Vec3Operations>::closest_point_and_normal(self, pt)
    }

    fn spec_signed_distance(&self, pt: Vec3) -> f32 {
        <Self as Vec3Operations>::signed_distance(self, pt)
    }
}

impl PlaneIntersecion for SpherinderHyperplaneIntersecion {
    type Plane = Plane;
    type Section = SpherinderHyperplanePlaneIntersection;

    fn intersect(&self, plane: &Plane) -> Option<SpherinderHyperplanePlaneIntersection> {
        let a1 = self.hyperplane.w_direction.xyz().length_squared();
        let a2 = self.hyperplane.v_direction.xyz().length_squared();
        let a3 = self.hyperplane.u_direction.xyz().length_squared();
        let a4 = 2.0 * self.hyperplane.w_direction.xyz().dot(self.hyperplane.v_direction.xyz());
        let a5 = 2.0 * self.hyperplane.w_direction.xyz().dot(self.hyperplane.u_direction.xyz());
        let a6 = 2.0 * self.hyperplane.v_direction.xyz().dot(self.hyperplane.u_direction.xyz());
        let a7 = 2.0 * self.hyperplane.w_direction.xyz().dot(self.hyperplane.origin.xyz());
        let a8 = 2.0 * self.hyperplane.v_direction.xyz().dot(self.hyperplane.origin.xyz());
        let a9 = 2.0 * self.hyperplane.u_direction.xyz().dot(self.hyperplane.origin.xyz());
        let a10 = self.hyperplane.origin.xyz().length_squared()
            - self.spherinder.radius * self.spherinder.radius;

        let px_0 = plane.origin.x;
        let py_0 = plane.origin.y;
        let pz_0 = plane.origin.z;
        let px_u = plane.u_direction.x;
        let py_u = plane.u_direction.y;
        let pz_u = plane.u_direction.z;
        let px_v = plane.v_direction.x;
        let py_v = plane.v_direction.y;
        let pz_v = plane.v_direction.z;

        let a = a3 * px_v.powi(2)
            + a6 * px_v * py_v
            + a2 * py_v.powi(2)
            + a5 * px_v * pz_v
            + a4 * py_v * pz_v
            + a1 * pz_v.powi(2);
        let b = 2.0 * a3 * px_u * px_v
            + a6 * px_v * py_u
            + a6 * px_u * py_v
            + 2.0 * a2 * py_u * py_v
            + a5 * px_v * pz_u
            + a4 * py_v * pz_u
            + a5 * px_u * pz_v
            + a4 * py_u * pz_v
            + 2.0 * a1 * pz_u * pz_v;
        let c = a3 * px_u.powi(2)
            + a6 * px_u * py_u
            + a2 * py_u.powi(2)
            + a5 * px_u * pz_u
            + a4 * py_u * pz_u
            + a1 * pz_u.powi(2);
        let d = 2.0 * a3 * px_0 * px_v
            + a6 * px_v * py_0
            + a6 * px_0 * py_v
            + 2.0 * a2 * py_0 * py_v
            + a5 * px_v * pz_0
            + a4 * py_v * pz_0
            + a5 * px_0 * pz_v
            + a4 * py_0 * pz_v
            + 2.0 * a1 * pz_0 * pz_v
            + a9 * px_v
            + a8 * py_v
            + a7 * pz_v;
        let e = 2.0 * a3 * px_0 * px_u
            + a6 * px_u * py_0
            + a6 * px_0 * py_u
            + 2.0 * a2 * py_0 * py_u
            + a5 * px_u * pz_0
            + a4 * py_u * pz_0
            + a5 * px_0 * pz_u
            + a4 * py_0 * pz_u
            + 2.0 * a1 * pz_0 * pz_u
            + a9 * px_u
            + a8 * py_u
            + a7 * pz_u;
        let f = a3 * px_0.powi(2)
            + a6 * px_0 * py_0
            + a2 * py_0.powi(2)
            + a5 * px_0 * pz_0
            + a4 * py_0 * pz_0
            + a1 * pz_0.powi(2)
            + a9 * px_0
            + a8 * py_0
            + a7 * pz_0
            + a10;

        let determinant = b.powi(2) - 4.0 * a * c;
        let center = Vec2::new(
            (2.0 * a * e - b * d) / determinant,
            (2.0 * c * d - b * e) / determinant,
        );
        let theta_angle = 0.5 * (-b).atan2(a - c) + PI / 2.0;
        let translation = Mat3::from_translation(Vec2::new(center.x, center.y));
        let rotation = Mat3::from_angle(theta_angle);
        let transform = translation * rotation;

        let k = 2.0 * (a * e.powi(2) + c * d.powi(2) - b * d * e + determinant * f);
        let h = ((a - c).powi(2) + b.powi(2)).sqrt();
        let i = k * ((a + c) + h);
        let j = k * ((a + c) - h);

        if determinant.abs() < EPSILON || i < 0.0 || j < 0.0 {
            return None;
        }

        let semi_minor_axis = -(i).sqrt() / determinant;
        let semi_major_axis = -(j).sqrt() / determinant;

        Some(SpherinderHyperplanePlaneIntersection {
            semi_major_axis,
            semi_minor_axis,
            transform,
            transform_inv: transform.inverse(),
        })
    }

    fn spec_intersect(&self, plane: &Plane) -> Option<SpherinderHyperplanePlaneIntersection> {
        <Self as PlaneIntersecion>::intersect(self, plane)
    }
}

struct SpherinderHyperplanePlaneIntersection {
    semi_major_axis: f32,
    semi_minor_axis: f32,
    transform: Mat3,
    transform_inv: Mat3,
}

impl SpherinderHyperplanePlaneIntersection {
    fn level(&self, pt: Vec2) -> f32 {
        let pt_ellipse_space = self.transform_inv.transform_point2(pt);
        pt_ellipse_space.x.powi(2) / self.semi_major_axis.powi(2)
            + pt_ellipse_space.y.powi(2) / self.semi_minor_axis.powi(2)
    }

    fn on_boundary(&self, pt: Vec2) -> Vec2 {
        let pt_ellipse_space = self.transform_inv.transform_point2(pt);
        let angle = pt_ellipse_space.y.atan2(pt_ellipse_space.x);
        let x = self.semi_major_axis * angle.cos();
        let y = self.semi_minor_axis * angle.sin();
        self.transform.transform_point2(Vec2::new(x, y))
    }
}

impl Vec2Operations for SpherinderHyperplanePlaneIntersection {
    type Point = Vec2;
    type Scalar = f32;

    fn contains(&self, pt: Vec2) -> bool {
        self.level(pt) <= 1.0
    }

    fn constrain(&self, pt: Vec2) -> Vec2 {
        if self.level(pt) <= 1.0 {
            pt
        } else {
            self.on_boundary(pt)
        }
    }

    fn closest_point_and_normal(&self, pt: Vec2) -> (Vec2, Vec2) {
        let closest = self.on_boundary(pt);
        let center = self.transform.transform_point2(Vec2::ZERO);
        (closest, (closest - center).normalize_or_zero())
    }

    fn signed_distance(&self, pt: Vec2) -> f32 {
        let distance = (self.on_boundary(pt) - pt).length();
        if self.level(pt) <= 1.0 {
            -distance
        } else {
            distance
        }
    }

    fn spec_contains(&self, pt: Vec2) -> bool {
        <Self as Vec2Operations>::contains(self, pt)
    }

    fn spec_constrain(&self, pt: Vec2) -> Vec2 {
        <Self as Vec2Operations>::constrain(self, pt)
    }

    fn spec_closest_point_and_normal(&self, pt: Vec2) -> (Vec2, Vec2) {
        <Self as Vec2Operations>::closest_point_and_normal(self, pt)
    }

    fn spec_signed_distance(&self, pt: Vec2) -> f32 {
        <Self as Vec2Operations>::signed_distance(self, pt)
    }
}

impl Ray2DIntersection for SpherinderHyperplanePlaneIntersection {
    type Ray = Ray2D;
    type Parameter = f32;
    type Segment = LineSegment2D;

    fn intersect(&self, ray: &Ray2D) -> Ray2DIntersectionResult<f32, LineSegment2D> {
        let origin = ray.origin;
        let direction = ray.direction;
        let origin_ellipse_space = self.transform_inv.transform_point2(origin);
        let direction_ellipse_space = self.transform_inv.transform_vector2(direction);

        let a = self.semi_major_axis;
        let b = self.semi_minor_axis;
        let a_sq = a.powi(2);
        let b_sq = b.powi(2);
        let x0 = origin_ellipse_space.x;
        let y0 = origin_ellipse_space.y;
        let dx = direction_ellipse_space.x;
        let dy = direction_ellipse_space.y;
        let dx_sq = dx.powi(2);
        let dy_sq = dy.powi(2);
        let x0_sq = x0.powi(2);
        let y0_sq = y0.powi(2);

        let k =
            b_sq * dx_sq + a_sq * dy_sq - dy_sq * x0_sq + 2.0 * dx * dy * x0 * y0 - dx_sq * y0_sq;
        if k < 0.0 {
            return Ray2DIntersectionResult::Empty;
        }
        let denominator = b_sq * dx_sq + a_sq * dy_sq;
        if denominator.abs() < EPSILON {
            return Ray2DIntersectionResult::Empty;
        }
        let h = b_sq * dx * x0 + a_sq * dy * y0;
        if k.abs() < EPSILON {
            Ray2DIntersectionResult::Point(-h / denominator)
        } else {
            let t1 = (-h + k.sqrt() * a * b) / denominator;
            let t2 = (-h - k.sqrt() * a * b) / denominator;
            Ray2DIntersectionResult::LineSegment(LineSegment2D {
                origin,
                direction,
                t_min: t2.min(t1),
                t_max: t2.max(t1),
            })
        }
    }

    fn spec_intersect(&self, ray: &Ray2D) -> Ray2DIntersectionResult<f32, LineSegment2D> {
        <Self as Ray2DIntersection>::intersect(self, ray)
    }
}

/// Ordinary space, with the slack and the starting coordinate that the
/// relaxed problem uses along the fourth axis.
struct Euclidean;

impl VelocitySpace for Euclidean {
    type Speed = f32;
    type Plane = Plane;
    type Hyperplane = Hyperplane;
    type Disk = Circle;
    type Ball = Sphere;
    type Slice = SpherinderHyperplanePlaneIntersection;
    type Solid = SpherinderHyperplaneIntersecion;
    type Spherinder = Spherinder;

    fn ball(maximum_velocity: f32) -> Sphere {
        Sphere::new(maximum_velocity, Vec3::ZERO)
    }

    fn spherinder(maximum_velocity: f32) -> Spherinder {
        Spherinder::new(Vec4::ZERO, maximum_velocity)
    }

    fn relax(plane: &Plane) -> Hyperplane {
        Hyperplane::new(
            Vec4::new(plane.origin.x, plane.origin.y, plane.origin.z, 0.0),
            Vec4::new(plane.normal.x, plane.normal.y, plane.normal.z, 0.2),
        )
    }

    fn extend(velocity: Vec3) -> Vec4 {
        Vec4::new(velocity.x, velocity.y, velocity.z, -1000.0)
    }

    fn truncate(velocity: Vec4) -> Vec3 {
        velocity.truncate()
    }

    fn spec_ball(maximum_velocity: f32) -> Sphere {
        <Self as VelocitySpace>::ball(maximum_velocity)
    }

    fn spec_spherinder(maximum_velocity: f32) -> Spherinder {
        <Self as VelocitySpace>::spherinder(maximum_velocity)
    }

    fn spec_relax(plane: &Plane) -> Hyperplane {
        <Self as VelocitySpace>::relax(plane)
    }

    fn spec_extend(velocity: Vec3) -> Vec4 {
        <Self as VelocitySpace>::extend(velocity)
    }

    fn spec_truncate(velocity: Vec4) -> Vec3 {
        <Self as VelocitySpace>::truncate(velocity)
    }
}

// ---------------------------------------------------------------------------
// The planar solver.
// ---------------------------------------------------------------------------

fn triangle() -> Vec<HalfPlane> {
    vec![
        HalfPlane::new(Vec2::new(0.0, -1.0), Vec2::new(0.0, 1.0)),
        HalfPlane::new(Vec2::new(-1.0, 0.0), Vec2::new(1.0, 0.0)),
        HalfPlane::new(Vec2::new(1.0, 1.0), Vec2::new(-1.0, -1.0)),
    ]
}

#[test]
fn planar_optimum_lies_on_the_nearest_triangle_edge() {
    let half_planes = triangle();
    let bounds = Circle::new(10.0, Vec2::ZERO);

    let result = incremental_optimization_2d(Vec2::new(2.0, 2.0), &bounds, &half_planes);

    let OptimizationResult2D::Feasible { optimal_velocity } = result else {
        panic!("a triangle around the origin is feasible: {result:?}");
    };
    assert!((optimal_velocity - Vec2::new(1.0, 1.0)).length() < 1e-4);
    assert!(half_planes[2].signed_distance(optimal_velocity).abs() < 1e-4);
    for half_plane in &half_planes {
        assert!(half_plane.contains(optimal_velocity));
    }
}

#[test]
fn planar_optimum_stops_at_a_triangle_corner() {
    let half_planes = triangle();
    let bounds = Circle::new(10.0, Vec2::ZERO);

    let result = incremental_optimization_2d(Vec2::new(5.0, 0.0), &bounds, &half_planes);

    let OptimizationResult2D::Feasible { optimal_velocity } = result else {
        panic!("a triangle around the origin is feasible: {result:?}");
    };
    assert!((optimal_velocity - Vec2::new(3.0, -1.0)).length() < 1e-3);
}

#[test]
fn planar_preferred_velocity_inside_every_half_plane_is_kept() {
    let half_planes = triangle();
    let bounds = Circle::new(10.0, Vec2::ZERO);
    let preferred = Vec2::new(0.25, -0.5);

    let result = incremental_optimization_2d(preferred, &bounds, &half_planes);

    assert!(
        matches!(result, OptimizationResult2D::Feasible { optimal_velocity } if optimal_velocity == preferred)
    );
}

#[test]
fn planar_preferred_velocity_is_first_pulled_into_the_bounds() {
    let bounds = Circle::new(2.0, Vec2::ZERO);
    let no_half_planes: Vec<HalfPlane> = Vec::new();

    let result = incremental_optimization_2d(Vec2::new(0.0, 8.0), &bounds, &no_half_planes);

    assert!(
        matches!(result, OptimizationResult2D::Feasible { optimal_velocity } if optimal_velocity == Vec2::new(0.0, 2.0))
    );
}

#[test]
fn planar_opposing_half_planes_are_infeasible() {
    let half_planes = vec![
        HalfPlane::new(Vec2::new(1.0, 0.0), Vec2::new(1.0, 0.0)),
        HalfPlane::new(Vec2::new(-1.0, 0.0), Vec2::new(-1.0, 0.0)),
    ];
    let bounds = Circle::new(10.0, Vec2::ZERO);

    let result = incremental_optimization_2d(Vec2::ZERO, &bounds, &half_planes);

    // The first half-plane moves the velocity to its boundary; the second
    // cannot be met there, and that velocity is handed back.
    assert!(
        matches!(result, OptimizationResult2D::Infeasible { last_optimal_velocity } if (last_optimal_velocity - Vec2::new(1.0, 0.0)).length() < 1e-4)
    );
}

#[test]
fn planar_half_plane_outside_the_bounds_is_infeasible() {
    let half_planes = vec![HalfPlane::new(Vec2::new(5.0, 0.0), Vec2::new(1.0, 0.0))];
    let bounds = Circle::new(1.0, Vec2::ZERO);

    let result = incremental_optimization_2d(Vec2::new(0.5, 0.0), &bounds, &half_planes);

    assert!(
        matches!(result, OptimizationResult2D::Infeasible { last_optimal_velocity } if last_optimal_velocity == Vec2::new(0.5, 0.0))
    );
}

#[test]
fn bounding_circle_covers_a_stretch_of_a_line_through_it() {
    let circle = Circle::new(5.0, Vec2::ZERO);
    let line = Ray2D::new(Vec2::new(0.0, 3.0), Vec2::new(1.0, 0.0));

    let (t_min, t_max) = orca::MaximumVelocityShape2D::get_bounds_on_line(&circle, &line).unwrap();

    assert!((t_min + 4.0).abs() < 1e-4);
    assert!((t_max - 4.0).abs() < 1e-4);
    assert_eq!(
        orca::MaximumVelocityShape2D::constrain(&circle, Vec2::new(10.0, 0.0)),
        Vec2::new(5.0, 0.0)
    );
}

#[test]
fn bounding_circle_touches_a_tangent_in_one_point() {
    let circle = Circle::new(5.0, Vec2::ZERO);
    let line = Ray2D::new(Vec2::new(2.0, 5.0), Vec2::new(1.0, 0.0));

    let (t_min, t_max) = orca::MaximumVelocityShape2D::get_bounds_on_line(&circle, &line).unwrap();

    assert_eq!(t_min, t_max);
    assert!((t_min + 2.0).abs() < 1e-4);
}

#[test]
fn bounding_circle_has_no_bounds_on_a_line_that_misses_it() {
    let circle = Circle::new(5.0, Vec2::ZERO);
    let line = Ray2D::new(Vec2::new(0.0, 6.0), Vec2::new(1.0, 0.0));

    assert!(orca::MaximumVelocityShape2D::get_bounds_on_line(&circle, &line).is_none());
}

fn span() -> (Ray2D, LineSegment2D) {
    let line = Ray2D::new(Vec2::ZERO, Vec2::new(1.0, 0.0));
    let segment = LineSegment2D::new(line.origin, line.direction, -4.0, 4.0);
    (line, segment)
}

fn bounds(segment: Option<LineSegment2D>) -> Option<(f32, f32)> {
    segment.map(|segment| (segment.t_min, segment.t_max))
}

#[test]
fn bound_moves_inwards_only() {
    let (_, segment) = span();

    assert_eq!(bounds(clip_min(&segment, 1.0)), Some((1.0, 4.0)));
    assert_eq!(bounds(clip_max(&segment, 1.0)), Some((-4.0, 1.0)));
    assert_eq!(bounds(clip_min(&segment, -4.0)), None);
    assert_eq!(bounds(clip_min(&segment, -5.0)), None);
    assert_eq!(bounds(clip_max(&segment, 4.0)), None);
    assert_eq!(bounds(clip_max(&segment, 5.0)), None);
    // Beyond the far end the start may go: what is left is inverted, and
    // settling it gives nothing.
    let inverted = clip_min(&segment, 6.0).unwrap();
    assert_eq!((inverted.t_min, inverted.t_max), (6.0, 4.0));
    assert!(settle(&inverted).is_none());
}

#[test]
fn bounds_that_all_but_coincide_are_merged() {
    let line = Ray2D::new(Vec2::ZERO, Vec2::new(1.0, 0.0));

    let reversed = LineSegment2D::new(line.origin, line.direction, 1.00005, 1.0);
    let (t_min, t_max) = bounds(settle(&reversed)).unwrap();
    assert_eq!(t_min, t_max);
    assert!((t_min - 1.000025).abs() < 1e-6);

    let plain = LineSegment2D::new(line.origin, line.direction, 1.0, 2.0);
    assert_eq!(bounds(settle(&plain)), Some((1.0, 2.0)));

    let inverted = LineSegment2D::new(line.origin, line.direction, 2.0, 1.0);
    assert_eq!(bounds(settle(&inverted)), None);
}

#[test]
fn half_plane_that_holds_both_ends_leaves_the_segment() {
    let (line, segment) = span();
    let half_plane = HalfPlane::new(Vec2::new(-10.0, 0.0), Vec2::new(1.0, 0.0));

    assert_eq!(bounds(clip_segment(segment, &line, &half_plane)), Some((-4.0, 4.0)));
}

#[test]
fn half_plane_that_excludes_the_start_moves_it_to_the_crossing() {
    let (line, segment) = span();
    let half_plane = HalfPlane::new(Vec2::new(1.0, 0.0), Vec2::new(1.0, 0.0));

    assert_eq!(bounds(clip_segment(segment, &line, &half_plane)), Some((1.0, 4.0)));
}

#[test]
fn half_plane_that_excludes_the_end_moves_it_to_the_crossing() {
    let (line, segment) = span();
    let half_plane = HalfPlane::new(Vec2::new(1.0, 0.0), Vec2::new(-1.0, 0.0));

    assert_eq!(bounds(clip_segment(segment, &line, &half_plane)), Some((-4.0, 1.0)));
}

#[test]
fn half_plane_beyond_the_segment_leaves_nothing() {
    let (line, segment) = span();
    let half_plane = HalfPlane::new(Vec2::new(6.0, 0.0), Vec2::new(1.0, 0.0));

    // Both ends are excluded: the crossing raises the start beyond the end.
    assert_eq!(bounds(clip_segment(segment, &line, &half_plane)), None);
}

#[test]
fn half_plane_along_the_line_that_excludes_it_leaves_nothing() {
    let (line, segment) = span();
    let half_plane = HalfPlane::new(Vec2::new(0.0, 1.0), Vec2::new(0.0, 1.0));

    // The boundary runs along the line and never crosses it.
    assert_eq!(bounds(clip_segment(segment, &line, &half_plane)), None);
}

// ---------------------------------------------------------------------------
// The spatial solver and the fallback.
// ---------------------------------------------------------------------------

#[test]
fn bounding_ball_is_cut_by_a_plane_into_a_disk() {
    let ball = Sphere::new(5.0, Vec3::ZERO);
    let plane = Plane::new(Vec3::new(0.0, 3.0, 0.0), Vec3::new(0.0, 1.0, 0.0));

    let disk = orca::MaximumVelocityShape3D::project_on_plane(&ball, &plane).unwrap();

    assert!((disk.radius - 4.0).abs() < 1e-4);
    assert!(disk.origin.length() < 1e-4);
    assert_eq!(
        orca::MaximumVelocityShape3D::constrain(&ball, Vec3::new(0.0, 0.0, 10.0)),
        Vec3::new(0.0, 0.0, 5.0)
    );
}

#[test]
fn bounding_ball_is_missed_by_a_plane_beyond_it() {
    let ball = Sphere::new(5.0, Vec3::ZERO);
    let plane = Plane::new(Vec3::new(0.0, 6.0, 0.0), Vec3::new(0.0, 1.0, 0.0));

    assert!(orca::MaximumVelocityShape3D::project_on_plane(&ball, &plane).is_none());
}

#[test]
fn bounding_spherinder_is_cut_by_every_hyperplane() {
    let spherinder = Spherinder::new(Vec4::ZERO, 2.0);
    let hyperplane = Hyperplane::new(Vec4::ZERO, Vec4::new(1.0, 0.0, 0.0, 0.2));

    assert!(orca::MaximumVelocityShape4D::project_on_hyperplane(&spherinder, &hyperplane).is_some());
    assert_eq!(
        orca::MaximumVelocityShape4D::constrain(&spherinder, Vec4::new(4.0, 0.0, 0.0, -7.0)),
        Vec4::new(2.0, 0.0, 0.0, -7.0)
    );
}

#[test]
fn spatial_optimum_satisfies_every_plane() {
    let planes = vec![
        Plane::new(Vec3::new(0.5, 0.0, 0.0), Vec3::new(1.0, 0.0, 0.0)),
        Plane::new(Vec3::new(0.0, 0.5, 0.0), Vec3::new(0.0, 1.0, 0.0)),
        Plane::new(Vec3::new(0.0, 0.0, 0.5), Vec3::new(0.0, 0.0, 1.0)),
    ];
    let bounds = Sphere::new(5.0, Vec3::ZERO);

    let result = incremental_optimization_3d(Vec3::new(-1.0, -1.0, -1.0), &bounds, &planes);

    let OptimizationResult3D::Feasible { optimal_velocity } = result else {
        panic!("three orthogonal half-spaces meet inside the ball: {result:?}");
    };
    for plane in &planes {
        assert!(plane.contains(optimal_velocity));
    }
    assert!((optimal_velocity - Vec3::new(0.5, 0.5, 0.5)).length() < 1e-3);
}

#[test]
fn spatial_preferred_velocity_inside_every_plane_is_kept() {
    let planes = vec![
        Plane::new(Vec3::new(-1.0, 0.0, 0.0), Vec3::new(1.0, 0.0, 0.0)),
        Plane::new(Vec3::new(0.0, -1.0, 0.0), Vec3::new(0.0, 1.0, 0.0)),
    ];
    let bounds = Sphere::new(5.0, Vec3::ZERO);
    let preferred = Vec3::new(1.0, 2.0, 3.0);

    let result = incremental_optimization_3d(preferred, &bounds, &planes);

    assert!(
        matches!(result, OptimizationResult3D::Feasible { optimal_velocity } if optimal_velocity == preferred)
    );
    assert_eq!(optimize_velocity_3d::<Euclidean>(preferred, 5.0, &planes), preferred);
}

fn contradictory_planes() -> Vec<Plane> {
    vec![
        Plane::new(Vec3::new(3.0, 0.0, 0.0), Vec3::new(1.0, 0.0, 0.0)),
        Plane::new(Vec3::new(-3.0, 0.0, 0.0), Vec3::new(-1.0, 0.0, 0.0)),
        Plane::new(Vec3::new(0.0, 3.0, 0.0), Vec3::new(0.0, 1.0, 0.0)),
        Plane::new(Vec3::new(0.0, -3.0, 0.0), Vec3::new(0.0, -1.0, 0.0)),
    ]
}

#[test]
fn spatial_planes_beyond_the_ball_are_infeasible() {
    let planes = contradictory_planes();
    let bounds = Sphere::new(1.0, Vec3::ZERO);

    let result = incremental_optimization_3d(Vec3::new(0.5, 0.0, 0.0), &bounds, &planes);

    assert!(
        matches!(result, OptimizationResult3D::Infeasible { last_optimal_velocity } if last_optimal_velocity == Vec3::new(0.5, 0.0, 0.0))
    );
}

#[test]
fn fallback_returns_a_finite_velocity_for_contradictory_planes() {
    let planes = contradictory_planes();

    let velocity = optimize_velocity_3d::<Euclidean>(Vec3::new(0.5, 0.0, 0.0), 1.0, &planes);

    assert!(velocity.is_finite(), "not finite: {velocity:?}");
}

#[test]
fn fallback_returns_a_finite_velocity_for_two_opposing_planes() {
    let planes = vec![
        Plane::new(Vec3::new(2.0, 0.0, 0.0), Vec3::new(1.0, 0.0, 0.0)),
        Plane::new(Vec3::new(-2.0, 0.0, 0.0), Vec3::new(-1.0, 0.0, 0.0)),
    ];

    let velocity = optimize_velocity_3d::<Euclidean>(Vec3::ZERO, 1.0, &planes);

    assert!(velocity.is_finite(), "not finite: {velocity:?}");
}

#[test]
fn fallback_without_planes_returns_the_constrained_preference() {
    let no_planes: Vec<Plane> = Vec::new();

    let velocity = optimize_velocity_3d::<Euclidean>(Vec3::new(0.0, 0.0, 4.0), 2.0, &no_planes);

    assert_eq!(velocity, Vec3::new(0.0, 0.0, 2.0));
}

#[test]
fn relaxed_problem_is_solved_in_four_dimensions() {
    let hyperplanes: Vec<Hyperplane> =
        contradictory_planes().iter().map(Euclidean::relax).collect();
    let bounds = Euclidean::spherinder(1.0);

    let result = incremental_optimization_4d(
        Euclidean::extend(Vec3::new(0.5, 0.0, 0.0)),
        &bounds,
        &hyperplanes,
    );

    let velocity = match result {
        OptimizationResult4D::Feasible { optimal_velocity } => optimal_velocity,
        OptimizationResult4D::Infeasible { last_optimal_velocity } => last_optimal_velocity,
    };
    assert!(velocity.is_finite(), "not finite: {velocity:?}");
    assert_eq!(
        optimize_velocity_3d::<Euclidean>(Vec3::new(0.5, 0.0, 0.0), 1.0, &contradictory_planes()),
        velocity.truncate()
    );
}


#[test]
fn plane_of_an_agent_far_away_keeps_the_preferred_velocity() {
    // The plane that two agents of radius 1 at (-10, 0, 0) and (10, 0, 0), closing in at
    // unit speed each, give the first of them for a time horizon of 5.
    let plane = Plane::new(Vec3::new(1.8, 0.0, 0.0), Vec3::new(-1.0, 0.0, 0.0));
    let preferred = Vec3::new(1.0, 0.0, 0.0);

    assert!(plane.normal.dot(preferred - plane.origin) >= 0.0);
    assert!(plane.contains(preferred));
    assert_eq!(optimize_velocity_3d::<Euclidean>(preferred, 2.0, &[plane]), preferred);
}

#[test]
fn plane_across_the_closing_axis_stops_the_approach() {
    // Two agents head on along the first axis: a plane across that axis
    // through the origin of velocity space forbids any approach.
    let plane = Plane::new(Vec3::ZERO, Vec3::new(-1.0, 0.0, 0.0));
    let preferred = Vec3::new(1.0, 0.0, 0.0);

    let velocity = optimize_velocity_3d::<Euclidean>(preferred, 2.0, &[plane.clone()]);

    assert!(velocity.x.abs() < 1e-4, "still closing in: {velocity:?}");
    assert!(plane.contains(velocity));
}

#[test]
fn opposing_parallel_planes_inside_the_ball_are_infeasible() {
    // The first plane moves the velocity onto itself. The second is
    // parallel to it and leaves nothing to cut its boundary with; the first
    // holds no point of that boundary, so there is nowhere to move to.
    let planes = vec![
        Plane::new(Vec3::new(1.0, 0.0, 0.0), Vec3::new(1.0, 0.0, 0.0)),
        Plane::new(Vec3::new(-1.0, 0.0, 0.0), Vec3::new(-1.0, 0.0, 0.0)),
    ];
    let bounds = Sphere::new(10.0, Vec3::ZERO);

    let result = incremental_optimization_3d(Vec3::ZERO, &bounds, &planes);

    assert!(
        matches!(result, OptimizationResult3D::Infeasible { last_optimal_velocity } if (last_optimal_velocity - Vec3::new(1.0, 0.0, 0.0)).length() < 1e-4),
        "{result:?}"
    );
}

#[test]
fn earlier_parallel_plane_that_excludes_the_later_one_is_not_passed_over() {
    let planes = vec![
        Plane::new(Vec3::new(-0.5, 0.0, 0.0), Vec3::new(1.0, 0.0, 0.0)),
        Plane::new(Vec3::new(-0.7, 0.0, 0.0), Vec3::new(-1.0, 0.0, 0.0)),
    ];
    let bounds = Sphere::new(1.0, Vec3::ZERO);

    let result = incremental_optimization_3d(Vec3::ZERO, &bounds, &planes);

    assert!(
        matches!(result, OptimizationResult3D::Infeasible { last_optimal_velocity } if last_optimal_velocity == Vec3::ZERO),
        "{result:?}"
    );
    let velocity = optimize_velocity_3d::<Euclidean>(Vec3::ZERO, 1.0, &planes);
    assert!(velocity.is_finite(), "not finite: {velocity:?}");
    assert!(velocity.length() <= 1.0 + 1e-4, "too fast: {velocity:?}");
}

#[test]
fn earlier_parallel_plane_that_holds_the_later_one_lets_the_velocity_move() {
    let planes = vec![
        Plane::new(Vec3::new(-0.5, 0.0, 0.0), Vec3::new(1.0, 0.0, 0.0)),
        Plane::new(Vec3::new(0.3, 0.0, 0.0), Vec3::new(1.0, 0.0, 0.0)),
    ];
    let bounds = Sphere::new(1.0, Vec3::ZERO);

    let result = incremental_optimization_3d(Vec3::ZERO, &bounds, &planes);

    let OptimizationResult3D::Feasible { optimal_velocity } = result else {
        panic!("the second half-space lies within the first: {result:?}");
    };
    assert!((optimal_velocity - Vec3::new(0.3, 0.0, 0.0)).length() < 1e-4);
    for plane in &planes {
        assert!(plane.contains(optimal_velocity));
    }
}

#[test]
fn earlier_parallel_hyperplane_that_excludes_the_later_one_is_not_passed_over() {
    let hyperplanes = vec![
        Hyperplane::new(Vec4::new(-0.5, 0.0, 0.0, 0.0), Vec4::new(1.0, 0.0, 0.0, 0.0)),
        Hyperplane::new(Vec4::new(-0.7, 0.0, 0.0, 0.0), Vec4::new(-1.0, 0.0, 0.0, 0.0)),
    ];
    let bounds = Spherinder::new(Vec4::ZERO, 1.0);

    let result = incremental_optimization_4d(Vec4::ZERO, &bounds, &hyperplanes);

    assert!(
        matches!(result, OptimizationResult4D::Infeasible { last_optimal_velocity } if last_optimal_velocity == Vec4::ZERO),
        "{result:?}"
    );
}

#[test]
fn velocity_found_is_within_the_bounds() {
    let half_planes = triangle();
    let circle = Circle::new(2.5, Vec2::ZERO);
    for preferred in [Vec2::new(9.0, 9.0), Vec2::new(5.0, 0.0), Vec2::new(-7.0, 1.0)] {
        let velocity = match incremental_optimization_2d(preferred, &circle, &half_planes) {
            OptimizationResult2D::Feasible { optimal_velocity } => optimal_velocity,
            OptimizationResult2D::Infeasible { last_optimal_velocity } => last_optimal_velocity,
        };
        assert!(velocity.length() <= 2.5 + 1e-4, "outside the disk: {velocity:?}");
    }

    let planes = vec![
        Plane::new(Vec3::new(0.5, 0.0, 0.0), Vec3::new(1.0, 0.0, 0.0)),
        Plane::new(Vec3::new(0.0, 0.5, 0.0), Vec3::new(0.0, 1.0, 0.0)),
        Plane::new(Vec3::new(0.0, 0.0, 0.5), Vec3::new(0.0, 0.0, 1.0)),
    ];
    let ball = Sphere::new(1.0, Vec3::ZERO);
    for preferred in [Vec3::new(-9.0, -9.0, -9.0), Vec3::new(0.0, 0.0, 4.0), Vec3::ZERO] {
        let velocity = match incremental_optimization_3d(preferred, &ball, &planes) {
            OptimizationResult3D::Feasible { optimal_velocity } => optimal_velocity,
            OptimizationResult3D::Infeasible { last_optimal_velocity } => last_optimal_velocity,
        };
        assert!(velocity.length() <= 1.0 + 1e-4, "outside the ball: {velocity:?}");
        let returned = optimize_velocity_3d::<Euclidean>(preferred, 1.0, &planes);
        assert!(returned.length() <= 1.0 + 1e-4, "too fast: {returned:?}");
    }
}

#[test]
fn velocity_of_the_relaxed_problem_is_within_the_speed_limit() {
    for preferred in [Vec3::new(0.5, 0.0, 0.0), Vec3::new(0.0, 7.0, 0.0), Vec3::ZERO] {
        let velocity = optimize_velocity_3d::<Euclidean>(preferred, 1.0, &contradictory_planes());

        assert!(velocity.is_finite(), "not finite: {velocity:?}");
        assert!(velocity.length() <= 1.0 + 1e-3, "too fast: {velocity:?}");
    }
}

#[test]
fn one_more_plane_frees_no_velocity() {
    let mut planes = vec![
        Plane::new(Vec3::new(0.5, 0.0, 0.0), Vec3::new(1.0, 0.0, 0.0)),
        Plane::new(Vec3::new(0.0, 0.5, 0.0), Vec3::new(0.0, 1.0, 0.0)),
    ];
    let bounds = Sphere::new(5.0, Vec3::ZERO);
    let preferred = Vec3::new(-1.0, -1.0, -1.0);
    let shorter = incremental_optimization_3d(preferred, &bounds, &planes);

    planes.push(Plane::new(Vec3::new(0.0, 0.0, 0.5), Vec3::new(0.0, 0.0, 1.0)));
    let longer = incremental_optimization_3d(preferred, &bounds, &planes);

    let OptimizationResult3D::Feasible { optimal_velocity } = longer else {
        panic!("three orthogonal half-spaces meet inside the ball: {longer:?}");
    };
    assert!(matches!(shorter, OptimizationResult3D::Feasible { .. }));
    for plane in &planes {
        assert!(plane.contains(optimal_velocity));
    }
    assert!(optimal_velocity.length() <= 5.0 + 1e-4);
}

#[test]
fn added_plane_that_the_optimum_satisfies_changes_nothing() {
    let mut planes = vec![
        Plane::new(Vec3::new(0.5, 0.0, 0.0), Vec3::new(1.0, 0.0, 0.0)),
        Plane::new(Vec3::new(0.0, 0.5, 0.0), Vec3::new(0.0, 1.0, 0.0)),
    ];
    let bounds = Sphere::new(5.0, Vec3::ZERO);
    let preferred = Vec3::new(-1.0, -1.0, 0.25);
    let OptimizationResult3D::Feasible { optimal_velocity: before } =
        incremental_optimization_3d(preferred, &bounds, &planes)
    else {
        panic!("two orthogonal half-spaces meet inside the ball");
    };

    planes.push(Plane::new(Vec3::new(0.0, 0.0, -1.0), Vec3::new(0.0, 0.0, 1.0)));
    assert!(planes[2].contains(before));
    let after = incremental_optimization_3d(preferred, &bounds, &planes);

    assert!(
        matches!(after, OptimizationResult3D::Feasible { optimal_velocity } if optimal_velocity == before)
    );
}

#[test]
fn added_plane_never_makes_an_infeasible_problem_feasible() {
    let mut planes = contradictory_planes();
    let bounds = Sphere::new(1.0, Vec3::ZERO);
    let preferred = Vec3::new(0.5, 0.0, 0.0);
    let OptimizationResult3D::Infeasible { last_optimal_velocity: before } =
        incremental_optimization_3d(preferred, &bounds, &planes)
    else {
        panic!("planes beyond the ball are infeasible");
    };

    planes.push(Plane::new(Vec3::ZERO, Vec3::new(0.0, 0.0, 1.0)));
    let after = incremental_optimization_3d(preferred, &bounds, &planes);

    assert!(
        matches!(after, OptimizationResult3D::Infeasible { last_optimal_velocity } if last_optimal_velocity == before)
    );
}

#[test]
fn constrained_preference_is_as_good_as_the_preference() {
    let planes = vec![Plane::new(Vec3::new(0.0, 0.5, 0.0), Vec3::new(0.0, 1.0, 0.0))];
    let bounds = Sphere::new(2.0, Vec3::ZERO);
    let preferred = Vec3::new(0.0, -8.0, 0.0);
    let constrained = bounds.constrain(preferred);
    assert_eq!(bounds.constrain(constrained), constrained);

    let from_preferred = incremental_optimization_3d(preferred, &bounds, &planes);
    let from_constrained = incremental_optimization_3d(constrained, &bounds, &planes);

    let (
        OptimizationResult3D::Feasible { optimal_velocity: first },
        OptimizationResult3D::Feasible { optimal_velocity: second },
    ) = (from_preferred, from_constrained)
    else {
        panic!("a half-space through the ball is feasible");
    };
    assert_eq!(first, second);
    assert!((first - Vec3::new(0.0, 0.5, 0.0)).length() < 1e-4);
}

#[test]
fn constraining_twice_is_constraining_once() {
    let circle = Circle::new(2.0, Vec2::new(1.0, -1.0));
    for velocity in [Vec2::ZERO, Vec2::new(8.0, 0.0), Vec2::new(-3.0, 4.0), Vec2::new(1.0, -1.0)] {
        let once = orca::MaximumVelocityShape2D::constrain(&circle, velocity);
        let twice = orca::MaximumVelocityShape2D::constrain(&circle, once);
        assert!((twice - once).length() < 1e-6);
    }

    let sphere = Sphere::new(2.0, Vec3::new(1.0, 0.0, -1.0));
    let collider: Collider<Sphere, Sphere> = Collider::Sphere(sphere.clone());
    for velocity in [Vec3::ZERO, Vec3::new(8.0, 0.0, 0.0), Vec3::new(-3.0, 4.0, 5.0)] {
        let once = orca::MaximumVelocityShape3D::constrain(&sphere, velocity);
        let twice = orca::MaximumVelocityShape3D::constrain(&sphere, once);
        assert!((twice - once).length() < 1e-6);
        let once = collider.constrain(velocity);
        assert!((collider.constrain(once) - once).length() < 1e-6);
    }

    let spherinder = Spherinder::new(Vec4::ZERO, 2.0);
    for velocity in
        [Vec4::ZERO, Vec4::new(8.0, 0.0, 0.0, 3.0), Vec4::new(-3.0, 4.0, 5.0, -1000.0)]
    {
        let once = orca::MaximumVelocityShape4D::constrain(&spherinder, velocity);
        let twice = orca::MaximumVelocityShape4D::constrain(&spherinder, once);
        assert!((twice - once).length() < 1e-6);
    }
}

#[test]
fn bounds_that_meet_in_one_point_leave_that_point() {
    // On the boundary of the third half-plane the first two leave the one
    // point where their own boundaries cross it.
    let half_planes = vec![
        HalfPlane::new(Vec2::new(1.0, 0.0), Vec2::new(1.0, 0.0)),
        HalfPlane::new(Vec2::new(1.0, 0.0), Vec2::new(-1.0, 0.0)),
        HalfPlane::new(Vec2::new(0.0, 1.0), Vec2::new(0.0, 1.0)),
    ];
    let bounds = Circle::new(10.0, Vec2::ZERO);

    let result = incremental_optimization_2d(Vec2::ZERO, &bounds, &half_planes);

    let OptimizationResult2D::Feasible { optimal_velocity } = result else {
        panic!("the three half-planes share a ray: {result:?}");
    };
    assert!((optimal_velocity - Vec2::new(1.0, 1.0)).length() < 1e-4);
}
