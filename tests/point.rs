use olive_rs::{EvenF, Point, PointF};

#[test]
fn even_f_normalises_offset() {
    let e = EvenF::new(3, -300);
    assert_eq!(e.n, 1);
    assert_eq!(e.off, 212);
    assert_eq!(e.to_f(), 3 * 256 - 300);

    let e = EvenF::new(-2, 1000);
    assert_eq!(e.n, 1);
    assert_eq!(e.off, 232);

    let e = EvenF::new(5, 0);
    assert_eq!((e.n, e.off), (5, 0));

    let e = EvenF::new(0, -1);
    assert_eq!((e.n, e.off), (-1, 255));
}

#[test]
fn even_f_rounding() {
    let e = EvenF::new(2, 128);
    assert_eq!(e.floor(), 2);
    assert_eq!(e.ceil(), 3);
    assert_eq!(e.round(), 3);
    let e = EvenF::new(2, 127);
    assert_eq!(e.round(), 2);
    let e = EvenF::new(-1, 0);
    assert_eq!((e.floor(), e.ceil(), e.round()), (-1, -1, -1));
    let e = EvenF::new(-1, 64);
    assert_eq!((e.floor(), e.ceil(), e.round()), (-1, 0, -1));
}

#[test]
fn even_f_arithmetic_does_not_drift() {
    let mut e = EvenF::zero();
    for _ in 0..1000 {
        e = e.add_f(3);
    }
    assert_eq!(e.to_f(), 3000);
    assert_eq!(e.floor(), 11);
    let a = EvenF::new(1, 200);
    let b = EvenF::new(2, 100);
    assert_eq!(a.add(b).to_f(), 456 + 612);
    assert_eq!(a.sub(b).to_f(), 456 - 612);
    assert_eq!(a.f_to(b), 612 - 456);
}

#[test]
fn point_f_vectors() {
    let p = PointF::from_int(1, 2);
    let q = PointF::from_float(3, 128, -1, -64);
    assert_eq!(p.f_to(q), (2 * 256 + 128, -3 * 256 - 64));
    assert_eq!(q.x().floor(), 3);
    assert_eq!(q.y().floor(), -2);
}

#[test]
fn point_conversions() {
    let p = PointF::from(Point { x: -3, y: 4 });
    assert_eq!(p.x().to_f(), -3 * 256);
    assert_eq!(p.y().to_f(), 4 * 256);
    assert_eq!(PointF::from_float(1, 127, 2, 128).round(), Point { x: 1, y: 3 });
    assert_eq!(PointF::from_float(-1, -129, 0, 0).round(), Point { x: -2, y: 0 });
}
