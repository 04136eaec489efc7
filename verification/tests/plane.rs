use lvdt_pose::error::Error;
use lvdt_pose::isometry::Isometry;
use lvdt_pose::measurement::Measurement;
use lvdt_pose::plane::{CartesianCoefficients, Plane, COORD_LIMIT};
use lvdt_pose::vector::{Point2, Point3, Vector3};

/// One unit of length is a millionth.
fn units(value: f64) -> i64 {
    (value * 1e6).round() as i64
}

fn layout() -> [Point2; 3] {
    [
        Point2 { x: units(0.0), y: units(0.0) },
        Point2 { x: units(0.0), y: units(10.0) },
        Point2 { x: units(10.0), y: units(0.0) },
    ]
}

#[test]
fn from_xy_puts_the_points_at_height_zero() {
    let plane = Plane::from_xy(&layout()).unwrap();
    assert_eq!(
        plane.points(),
        [
            Point3 { x: 0, y: 0, z: 0 },
            Point3 { x: 0, y: 10_000_000, z: 0 },
            Point3 { x: 10_000_000, y: 0, z: 0 },
        ]
    );
}

#[test]
fn normal_is_the_cross_product_of_the_edges() {
    // (c - a) x (b - a) = (10, 0, 0) x (0, 10, 0) = (0, 0, 100)
    let plane = Plane::from_xy(&layout()).unwrap();
    assert_eq!(plane.normal(), Vector3 { x: 0, y: 0, z: 100_000_000_000_000 });
}

#[test]
fn normal_of_a_tilted_plane() {
    // a = (1, 2, 3), b = (4, 6, 8), c = (7, 5, 2)
    // (6, 3, -1) x (3, 4, 5) = (3*5 + 1*4, -1*3 - 6*5, 6*4 - 3*3) = (19, -33, 15)
    let plane = Plane::new([
        Point3 { x: 1, y: 2, z: 3 },
        Point3 { x: 4, y: 6, z: 8 },
        Point3 { x: 7, y: 5, z: 2 },
    ])
    .unwrap();
    assert_eq!(plane.normal(), Vector3 { x: 19, y: -33, z: 15 });
}

#[test]
fn normal_is_never_zero() {
    let plane = Plane::from_xy(&layout()).unwrap();
    let heights = [-3_000_000, 0, 1, 250_000, 9_999_999];
    for a in heights {
        for b in heights {
            for c in heights {
                let reading = plane.new_reading(&Measurement(a, b, c)).unwrap();
                assert_ne!(reading.normal(), Vector3 { x: 0, y: 0, z: 0 });
            }
        }
    }
}

#[test]
fn from_vec_reads_pairs_of_x_and_y() {
    let plane = Plane::from_vec(&[1, 2, 3, 4, 5, 7]).unwrap();
    assert_eq!(
        plane.points(),
        [Point3 { x: 1, y: 2, z: 0 }, Point3 { x: 3, y: 4, z: 0 }, Point3 { x: 5, y: 7, z: 0 }]
    );
    // (4, 5, 0) x (2, 2, 0) = (0, 0, 4*2 - 5*2)
    assert_eq!(plane.normal(), Vector3 { x: 0, y: 0, z: -2 });
}

#[test]
fn from_vec_agrees_with_from_xy() {
    let by_pairs = Plane::from_xy(&layout()).unwrap();
    let by_values = Plane::from_vec(&[0, 0, 0, 10_000_000, 10_000_000, 0]).unwrap();
    assert_eq!(by_pairs, by_values);
}

#[test]
fn collinear_points_are_refused() {
    let on_a_line = Plane::new([
        Point3 { x: 0, y: 0, z: 0 },
        Point3 { x: 1, y: 1, z: 1 },
        Point3 { x: 2, y: 2, z: 2 },
    ]);
    assert_eq!(on_a_line, Err(Error::DegenerateFrame));
    let flat = Plane::from_vec(&[1, 2, 3, 4, 5, 6]);
    assert_eq!(flat, Err(Error::DegenerateFrame));
    let twice_the_same = Plane::from_xy(&[
        Point2 { x: 3, y: 3 },
        Point2 { x: 3, y: 3 },
        Point2 { x: 9, y: 1 },
    ]);
    assert_eq!(twice_the_same, Err(Error::DegenerateFrame));
}

#[test]
fn coordinates_beyond_the_limit_are_refused() {
    assert_eq!(COORD_LIMIT, 536_870_912);
    let at_the_limit = Plane::from_vec(&[0, 0, 0, COORD_LIMIT, -COORD_LIMIT, 0]);
    assert!(at_the_limit.is_ok());
    let beyond = Plane::from_vec(&[0, 0, 0, COORD_LIMIT + 1, 10, 0]);
    assert_eq!(beyond, Err(Error::OutOfRange));
    let far_and_collinear = Plane::from_vec(&[0, 0, i64::MAX, 0, i64::MIN, 0]);
    assert_eq!(far_and_collinear, Err(Error::OutOfRange));
}

#[test]
fn normal_at_the_limit_is_exact() {
    // (c - a) x (b - a) with edges (2L, 2L, 2L) and (0, 2L, 0), L = 2^29:
    // (2L*0 - 2L*2L, 2L*0 - 2L*0, 2L*2L - 2L*0) = (-2^60, 0, 2^60)
    let l = COORD_LIMIT;
    let plane = Plane::new([
        Point3 { x: -l, y: -l, z: -l },
        Point3 { x: -l, y: l, z: -l },
        Point3 { x: l, y: l, z: l },
    ])
    .unwrap();
    let big: i128 = 1 << 60;
    assert_eq!(plane.normal(), Vector3 { x: -big, y: 0, z: big });
}

#[test]
fn from_layout_wants_six_values() {
    let plane = Plane::from_layout(&[0, 0, 0, 10, 10, 0]).unwrap();
    assert_eq!(plane, Plane::from_vec(&[0, 0, 0, 10, 10, 0]).unwrap());
    assert_eq!(Plane::from_layout(&[]), Err(Error::MalformedLayout(0)));
    assert_eq!(Plane::from_layout(&[0, 0, 0, 10, 10]), Err(Error::MalformedLayout(5)));
    assert_eq!(Plane::from_layout(&[0, 0, 0, 10, 10, 0, 4]), Err(Error::MalformedLayout(7)));
    assert_eq!(Plane::from_layout(&[0, 0, 1, 1, 2, 2]), Err(Error::DegenerateFrame));
}

#[test]
fn new_reading_replaces_the_heights_only() {
    let plane = Plane::from_xy(&layout()).unwrap();
    let reading = plane.new_reading(&Measurement(units(1.0), units(1.2), units(1.3))).unwrap();
    assert_eq!(
        reading.points(),
        [
            Point3 { x: 0, y: 0, z: 1_000_000 },
            Point3 { x: 0, y: 10_000_000, z: 1_200_000 },
            Point3 { x: 10_000_000, y: 0, z: 1_300_000 },
        ]
    );
    // (10, 0, 0.3) x (0, 10, 0.2) = (0*0.2 - 0.3*10, 0.3*0 - 10*0.2, 100) = (-3, -2, 100)
    assert_eq!(
        reading.normal(),
        Vector3 { x: -3_000_000_000_000, y: -2_000_000_000_000, z: 100_000_000_000_000 }
    );
    // the plane that was read from is unchanged
    assert_eq!(plane, Plane::from_xy(&layout()).unwrap());
}

#[test]
fn new_reading_forgets_earlier_heights() {
    let plane = Plane::from_xy(&layout()).unwrap();
    let first = plane.new_reading(&Measurement(5, 6, 7)).unwrap();
    let second = first.new_reading(&Measurement(1, 2, 3)).unwrap();
    assert_eq!(second, plane.new_reading(&Measurement(1, 2, 3)).unwrap());
}

#[test]
fn new_reading_refuses_heights_beyond_the_limit() {
    let plane = Plane::from_xy(&layout()).unwrap();
    assert!(plane.new_reading(&Measurement(COORD_LIMIT, -COORD_LIMIT, 0)).is_ok());
    assert_eq!(plane.new_reading(&Measurement(0, 0, COORD_LIMIT + 1)), Err(Error::OutOfRange));
    assert_eq!(plane.new_reading(&Measurement(i64::MIN, 0, 0)), Err(Error::OutOfRange));
}

#[test]
fn new_reading_can_degenerate_a_plane_that_stands_upright() {
    // The XY positions lie on one line; only the heights keep the points apart.
    let upright = Plane::new([
        Point3 { x: 0, y: 0, z: 0 },
        Point3 { x: 1, y: 1, z: 5 },
        Point3 { x: 2, y: 2, z: 0 },
    ])
    .unwrap();
    assert_eq!(upright.new_reading(&Measurement(0, 1, 2)), Err(Error::DegenerateFrame));
    assert!(upright.new_reading(&Measurement(0, 1, 3)).is_ok());
}

fn shift(x: i128, y: i128, z: i128) -> Isometry {
    Isometry::Translation(Vector3 { x, y, z })
}

#[test]
fn a_translation_moves_every_point_and_keeps_the_normal() {
    let plane = Plane::from_xy(&layout()).unwrap().new_reading(&Measurement(1, 2, 3)).unwrap();
    let moved = plane.apply_isometry(&shift(10, -20, 30)).unwrap();
    assert_eq!(
        moved.points(),
        [
            Point3 { x: 10, y: -20, z: 31 },
            Point3 { x: 10, y: 9_999_980, z: 32 },
            Point3 { x: 10_000_010, y: -20, z: 33 },
        ]
    );
    assert_eq!(moved.normal(), plane.normal());
}

#[test]
fn a_translation_is_refused_when_it_leaves_the_range() {
    let plane = Plane::from_vec(&[0, 0, 0, COORD_LIMIT, COORD_LIMIT, 0]).unwrap();
    assert_eq!(plane.apply_isometry(&shift(1, 0, 0)), Err(Error::OutOfRange));
    assert_eq!(plane.apply_isometry(&shift(0, 0, i128::MAX)), Err(Error::OutOfRange));
    assert_eq!(plane.apply_isometry(&shift(0, i128::MIN, 0)), Err(Error::OutOfRange));
    assert!(plane.apply_isometry(&shift(-1, -1, COORD_LIMIT as i128)).is_ok());
    // from one corner of the range to the opposite one
    let l = COORD_LIMIT;
    let corner = Plane::from_vec(&[l, l, l, l - 1, l - 1, l]).unwrap();
    let across = corner.apply_isometry(&shift(1 - 2 * l as i128, 1 - 2 * l as i128, 0)).unwrap();
    assert_eq!(across, Plane::from_vec(&[1 - l, 1 - l, 1 - l, -l, -l, 1 - l]).unwrap());
    assert_eq!(
        corner.apply_isometry(&shift(-2 * l as i128, 1 - 2 * l as i128, 0)),
        Err(Error::OutOfRange)
    );
}

#[test]
fn a_rotation_is_not_applied() {
    let level = Plane::from_xy(&layout()).unwrap();
    let tilted = level.new_reading(&Measurement(0, 0, 5)).unwrap();
    let rotation = level.isometry_from(&tilted).unwrap();
    assert!(matches!(rotation, Isometry::Rotation { .. }));
    assert_eq!(level.apply_isometry(&rotation), Err(Error::RotationNotExact));
}

#[test]
fn cartesian_coefficients_of_a_tilted_plane() {
    // normal (19, -33, 15), first point (1, 2, 3): d = 19 - 66 + 45 = -2
    let plane = Plane::new([
        Point3 { x: 1, y: 2, z: 3 },
        Point3 { x: 4, y: 6, z: 8 },
        Point3 { x: 7, y: 5, z: 2 },
    ])
    .unwrap();
    let c = plane.cartesian_coefficients();
    assert_eq!(c, CartesianCoefficients { a: 19, b: -33, c: 15, d: -2 });
}

#[test]
fn every_point_satisfies_the_plane_equation() {
    let plane = Plane::from_xy(&layout())
        .unwrap()
        .new_reading(&Measurement(units(1.0), units(1.05), units(1.3)))
        .unwrap();
    let c = plane.cartesian_coefficients();
    for p in plane.points() {
        assert_eq!(c.a * p.x as i128 + c.b * p.y as i128 + c.c * p.z as i128, c.d);
    }
}
