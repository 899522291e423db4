use polygon_winding::foundation::{is_close, Point, SCALE};
use polygon_winding::linear_algebra::{
    calc_winding_number, determine_winding_number_adjustment, Adjustment, BoundarySituation,
};
use polygon_winding::shape_factory::make_rectangle;

/// A decimal value in scalar units.
fn fx(v: f64) -> i64 {
    (v * SCALE as f64).round() as i64
}

fn pt(x: f64, y: f64) -> Point {
    Point { x: fx(x), y: fx(y) }
}

fn u_shape() -> Vec<Point> {
    vec![
        pt(0., 0.),
        pt(10., 0.),
        pt(10., 12.),
        pt(5., 12.),
        pt(5., 3.),
        pt(3., 3.),
        pt(3., 12.),
        pt(0., 12.),
    ]
}

#[test]
fn test_normal() {
    let given_point = pt(2., 3.);
    assert_eq!(pt(-3., 2.), given_point.normal());
}

#[test]
fn test_dot() {
    let given_point = pt(2., 3.);
    assert!(is_close(fx(2.), given_point.dot(&pt(1., 0.))));
    assert!(is_close(fx(3.), given_point.dot(&pt(0., 1.))));

    assert!(is_close(fx(0.), given_point.dot(&given_point.normal())));
}

#[test]
fn test_boundary_situation() {
    // a negative dot product with the normal is inside, a positive one outside
    let given_boundary = pt(0., 1.);
    assert_eq!(BoundarySituation::Outside, given_boundary.situate(&pt(-1., 0.5)));
    assert_eq!(BoundarySituation::On, given_boundary.situate(&pt(0., 0.5)));
    assert_eq!(BoundarySituation::Inside, given_boundary.situate(&pt(1., 0.5)));
}

#[test]
fn test_calc_empty_shape_winding_number() {
    assert_eq!(0, calc_winding_number(&pt(0., 0.), &vec![]));
    assert_eq!(0, calc_winding_number(&pt(0., 0.), &vec![pt(1., 1.)]));
}

#[test]
fn test_calc_rectangle_winding_number() {
    let given_shape = make_rectangle(fx(12.), fx(10.));
    // inside the shape; the rectangle runs counterclockwise, which counts as -1
    assert_eq!(-1, calc_winding_number(&pt(0., 0.), &given_shape.to_vec()));

    // outside the shape
    assert_eq!(0, calc_winding_number(&pt(11., 5.), &given_shape.to_vec()));
    assert_eq!(0, calc_winding_number(&pt(-11., 5.), &given_shape.to_vec()));

    // on the shape boundary
    assert_eq!(0, calc_winding_number(&pt(6., 5.), &given_shape.to_vec()));
    assert_eq!(0, calc_winding_number(&pt(-6., 5.), &given_shape.to_vec()));
}

#[test]
fn test_calc_concave_poly_winding_number() {
    let given_shape = u_shape();
    // inside the shape
    assert_eq!(-1, calc_winding_number(&pt(4., 2.), &given_shape));

    // outside the shape
    assert_eq!(0, calc_winding_number(&pt(11., 5.), &given_shape));
    assert_eq!(0, calc_winding_number(&pt(-1., 5.), &given_shape));

    // on the shape boundary
    assert_eq!(0, calc_winding_number(&pt(10., 12.), &given_shape));
    assert_eq!(0, calc_winding_number(&pt(0., 0.), &given_shape));
}

#[test]
fn empty_and_single_vertex_polygons_wind_nowhere() {
    for p in [pt(0., 0.), pt(1., 1.), pt(-3.5, 7.25)] {
        assert_eq!(0, calc_winding_number(&p, &vec![]));
        assert_eq!(0, calc_winding_number(&p, &vec![pt(1., 1.)]));
        assert_eq!(0, calc_winding_number(&p, &vec![p]));
    }
}

#[test]
fn rectangles_of_several_sizes() {
    for (w, h) in [(12., 10.), (2., 2.), (100., 200.), (0.5, 3.), (1000., 0.25)] {
        let shape = make_rectangle(fx(w), fx(h)).to_vec();
        assert_eq!(1, calc_winding_number(&pt(0., 0.), &shape).abs());
        assert_eq!(0, calc_winding_number(&pt(w, h / 2.), &shape));
        assert_eq!(0, calc_winding_number(&pt(w, 0.), &shape));
        assert_eq!(0, calc_winding_number(&pt(0., h), &shape));
        // midpoints of the edges; the bottom edge lies along the test line
        // itself, where only the vertical edges are crossed, and counts as inside
        assert_eq!(1, calc_winding_number(&pt(0., -h / 2.), &shape).abs());
        assert_eq!(0, calc_winding_number(&pt(w / 2., 0.), &shape));
        assert_eq!(0, calc_winding_number(&pt(0., h / 2.), &shape));
        assert_eq!(0, calc_winding_number(&pt(-w / 2., 0.), &shape));
    }
}

#[test]
fn u_shape_notch_is_outside() {
    let shape = u_shape();
    assert_eq!(0, calc_winding_number(&pt(4., 5.), &shape));
    assert_eq!(-1, calc_winding_number(&pt(1., 5.), &shape));
    assert_eq!(-1, calc_winding_number(&pt(7., 5.), &shape));
}

#[test]
fn reversing_a_polygon_negates_its_winding_number() {
    let square = make_rectangle(fx(4.), fx(4.)).to_vec();
    let mut reversed = square.clone();
    reversed.reverse();
    assert_eq!(-1, calc_winding_number(&pt(0.5, 0.5), &square));
    assert_eq!(1, calc_winding_number(&pt(0.5, 0.5), &reversed));
    assert_eq!(0, calc_winding_number(&pt(3., 0.5), &reversed));
    assert_eq!(0, calc_winding_number(&pt(2., 0.5), &reversed));

    let mut u_reversed = u_shape();
    u_reversed.reverse();
    assert_eq!(1, calc_winding_number(&pt(4., 2.), &u_reversed));
    assert_eq!(0, calc_winding_number(&pt(4., 5.), &u_reversed));
}

#[test]
fn a_vector_is_never_on_its_own_normal() {
    for p in [pt(2., 3.), pt(-1., 0.), pt(0., 0.01), pt(-7.5, -2.25)] {
        assert_eq!(0, p.dot(&p.normal()));
        assert_ne!(BoundarySituation::On, p.situate(&p.normal()));
        assert_eq!(BoundarySituation::Outside, p.situate(&p.normal()));
    }
    // squared length 1.44e-6, above the tolerance of 1e-6
    let short = Point { x: 1200, y: 0 };
    assert_eq!(BoundarySituation::Outside, short.situate(&short.normal()));
    // vectors too short to tell sides apart
    let at_tolerance = Point { x: 1000, y: 0 };
    assert_eq!(BoundarySituation::On, at_tolerance.situate(&at_tolerance.normal()));
    let tiny = Point { x: 1, y: 0 };
    assert_eq!(BoundarySituation::On, tiny.situate(&tiny.normal()));
}

#[test]
fn side_is_judged_on_the_exact_product() {
    let reference = Point { x: 0, y: fx(1.5) };
    // exact products of 1.5e-6 and 1e-6 with the normal
    assert_eq!(BoundarySituation::Inside, reference.situate(&Point { x: 1, y: 0 }));
    assert_eq!(BoundarySituation::Outside, reference.situate(&Point { x: -1, y: 0 }));
    assert_eq!(BoundarySituation::On, Point { x: 0, y: fx(1.) }.situate(&Point { x: 1, y: 0 }));
    // a point a millionth beside an edge 1.5 long is counted, not on it
    let edge_start = pt(0., -0.75);
    let edge_end = pt(0., 0.75);
    assert_eq!(
        Adjustment::Increment,
        determine_winding_number_adjustment(&edge_start, &edge_end, &Point { x: 1, y: 0 })
    );
    assert_eq!(
        Adjustment::OnBoundary,
        determine_winding_number_adjustment(&pt(0., -0.5), &pt(0., 0.5), &Point { x: 1, y: 0 })
    );
}

#[test]
fn far_coordinates_are_classified() {
    let far = 1i64 << 61;
    let square = vec![
        Point { x: -far, y: -far },
        Point { x: far, y: -far },
        Point { x: far, y: far },
        Point { x: -far, y: far },
    ];
    assert_eq!(-1, calc_winding_number(&Point { x: 0, y: 0 }, &square));
    assert_eq!(0, calc_winding_number(&Point { x: far, y: 0 }, &square));
    assert_eq!(0, calc_winding_number(&Point { x: -far - 5, y: 0 }, &square));
}

#[test]
fn subtract_and_dot_values() {
    let d = pt(5., 7.).subtract(&pt(2., 10.));
    assert_eq!(fx(3.), d.x);
    assert_eq!(fx(-3.), d.y);
    assert_eq!(fx(-1.5), pt(1.5, 2.).dot(&pt(-3., 1.5)));
    // the fraction below a millionth is dropped toward zero
    assert_eq!(0, Point { x: 1, y: 0 }.dot(&Point { x: 999_999, y: 0 }));
    assert_eq!(-1, Point { x: -1, y: 0 }.dot(&Point { x: 1_999_999, y: 0 }));
    assert_eq!(-1_999_999, Point { x: -1, y: 0 }.dot_wide(&Point { x: 1_999_999, y: 0 }));
    assert_eq!(-(1i128 << 124), Point { x: 1 << 62, y: 0 }.dot_wide(&Point { x: -(1 << 62), y: 0 }));
}

#[test]
fn edge_adjustments() {
    let p = pt(0., 0.);
    assert_eq!(Adjustment::Increment, determine_winding_number_adjustment(&pt(-1., -1.), &pt(-1., 1.), &p));
    assert_eq!(Adjustment::Skip, determine_winding_number_adjustment(&pt(1., -1.), &pt(1., 1.), &p));
    assert_eq!(Adjustment::Skip, determine_winding_number_adjustment(&pt(1., 1.), &pt(1., -1.), &p));
    assert_eq!(Adjustment::Decrement, determine_winding_number_adjustment(&pt(-1., 1.), &pt(-1., -1.), &p));
    assert_eq!(Adjustment::OnBoundary, determine_winding_number_adjustment(&pt(0., -1.), &pt(0., 1.), &p));
    assert_eq!(Adjustment::Skip, determine_winding_number_adjustment(&pt(-1., 1.), &pt(1., 2.), &p));
    assert_eq!(Adjustment::Skip, determine_winding_number_adjustment(&pt(-1., -1.), &pt(1., -2.), &p));
}
