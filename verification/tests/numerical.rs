use lvdt_pose::isometry::Isometry;
use lvdt_pose::measurement::Measurement;
use lvdt_pose::plane::Plane;
use lvdt_pose::vector::{Point2, Point3};
use nalgebra as na;

/// One unit of length is a millionth.
fn units(value: f64) -> i64 {
    (value * 1e6).round() as i64
}

fn float_point(p: &Point3) -> na::Point3<f64> {
    na::Point3::new(p.x as f64 / 1e6, p.y as f64 / 1e6, p.z as f64 / 1e6)
}

fn unit_normal(plane: &Plane) -> na::UnitVector3<f64> {
    let n = plane.normal();
    na::Unit::new_normalize(na::Vector3::new(n.x as f64, n.y as f64, n.z as f64))
}

/// The motion between two planes, computed in floating point from their unit
/// normals and their last points.
fn numerical(source: &Plane, target: &Plane) -> na::Isometry3<f64> {
    let n1 = unit_normal(source);
    let n2 = unit_normal(target);
    let axis = n1.cross(&n2);
    let angle = n1.dot(&n2).clamp(-1.0, 1.0).acos();
    let rotation = na::UnitQuaternion::from_scaled_axis(axis * angle);
    let translation = na::Translation3::from(
        float_point(&target.points()[2]) - rotation * float_point(&source.points()[2]),
    );
    na::Isometry3::from_parts(translation, rotation)
}

/// The motion that an exact description stands for.
fn evaluated(isometry: &Isometry) -> na::Isometry3<f64> {
    match isometry {
        Isometry::Translation(t) => {
            na::Isometry3::translation(t.x as f64 / 1e6, t.y as f64 / 1e6, t.z as f64 / 1e6)
        }
        Isometry::Rotation { axis, dot, source, target } => {
            let axis = na::Vector3::new(axis.x as f64, axis.y as f64, axis.z as f64);
            let h = axis.norm().hypot(*dot as f64);
            let angle = (*dot as f64 / h).clamp(-1.0, 1.0).acos();
            let rotation = na::UnitQuaternion::from_scaled_axis(axis / h * angle);
            let translation =
                na::Translation3::from(float_point(target) - rotation * float_point(source));
            na::Isometry3::from_parts(translation, rotation)
        }
    }
}

fn reference() -> Plane {
    Plane::from_xy(&[
        Point2 { x: units(0.0), y: units(0.0) },
        Point2 { x: units(0.0), y: units(10.0) },
        Point2 { x: units(10.0), y: units(0.0) },
    ])
    .unwrap()
}

fn readings() -> Vec<Measurement> {
    vec![
        Measurement(units(1.0), units(1.0), units(1.0)),
        Measurement(units(1.0), units(1.0), units(1.3)),
        Measurement(units(1.2), units(1.0), units(1.0)),
        Measurement(units(1.3), units(1.3), units(1.3)),
        Measurement(units(-0.4), units(2.5), units(0.7)),
        Measurement(units(0.0), units(9.0), units(-9.0)),
    ]
}

#[test]
fn description_agrees_with_the_numerical_formula() {
    for a in readings() {
        for b in readings() {
            let source = reference().new_reading(&a).unwrap();
            let target = reference().new_reading(&b).unwrap();
            let exact = evaluated(&source.isometry_from(&target).unwrap());
            let float = numerical(&source, &target);
            assert!((exact.translation.vector - float.translation.vector).norm() < 1e-9);
            assert!(exact.rotation.angle_to(&float.rotation) < 1e-9);
        }
    }
}

#[test]
fn evaluated_motion_meets_the_anchor() {
    for a in readings() {
        for b in readings() {
            let source = reference().new_reading(&a).unwrap();
            let target = reference().new_reading(&b).unwrap();
            let motion = evaluated(&source.isometry_from(&target).unwrap());
            let moved = motion * float_point(&source.points()[2]);
            assert!((moved - float_point(&target.points()[2])).norm() < 1e-9);
        }
    }
}

#[test]
fn unit_normal_has_length_one() {
    for a in readings() {
        let plane = reference().new_reading(&a).unwrap();
        assert!((unit_normal(&plane).norm() - 1.0).abs() < 1e-9);
    }
}

#[test]
fn one_moved_sensor_numerically() {
    let baseline = reference().new_reading(&Measurement(units(1.0), units(1.0), units(1.0))).unwrap();
    let normal = unit_normal(&baseline);
    assert!((normal.into_inner() - na::Vector3::new(0.0, 0.0, 1.0)).norm() < 1e-12);

    let sample = reference().new_reading(&Measurement(units(1.0), units(1.0), units(1.3))).unwrap();
    let motion = evaluated(&baseline.isometry_from(&sample).unwrap());
    assert!((motion.translation.vector.z - 0.3).abs() < 0.02);
    let tilt = motion.rotation.angle();
    assert!(tilt > 1e-6 && tilt < 1e-2);
}

#[test]
fn angles_and_translation_rebuild_the_motion() {
    for a in readings() {
        for b in readings() {
            let source = reference().new_reading(&a).unwrap();
            let target = reference().new_reading(&b).unwrap();
            let motion = evaluated(&source.isometry_from(&target).unwrap());
            let (roll, pitch, yaw) = motion.rotation.euler_angles();
            let rebuilt = na::Isometry3::from_parts(
                motion.translation,
                na::UnitQuaternion::from_euler_angles(roll, pitch, yaw),
            );
            let moved = rebuilt * float_point(&source.points()[2]);
            assert!((moved - float_point(&target.points()[2])).norm() < 1e-9);
        }
    }
}
