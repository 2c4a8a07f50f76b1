use sdf_font::rectangle::Rectangle;
use sdf_font::scalar::Scalar;

fn s(x: f32) -> Scalar {
    Scalar { bits: x.to_bits() }
}

fn rect(px: f32, py: f32, dx: f32, dy: f32) -> Rectangle {
    Rectangle { position: (s(px), s(py)), dimensions: (s(dx), s(dy)) }
}

#[test]
fn scalar_addition_is_single_precision() {
    assert_eq!(s(1.5).plus(s(2.25)), s(3.75));
    assert_eq!(s(0.1).plus(s(0.2)), s(0.1f32 + 0.2f32));
    assert_eq!(s(-1.0).plus(s(1.0)), s(0.0));
    assert_eq!(s(12.1).plus(s(12.1)), s(2.0 * 12.1));
}

#[test]
fn edges() {
    let r = rect(1.5, -2.25, 3.5, 4.75);
    assert_eq!(r.left(), s(1.5));
    assert_eq!(r.bottom(), s(-2.25));
    assert_eq!(r.right(), s(1.5 + 3.5));
    assert_eq!(r.top(), s(-2.25 + 4.75));
}

#[test]
fn translated_moves_edges_keeps_dimensions() {
    let r = rect(1.5, -2.25, 3.5, 4.75);
    let v = (s(0.5), s(2.0));
    let t = r.translated(v);
    assert_eq!(t.left(), s(1.5 + 0.5));
    assert_eq!(t.bottom(), s(-2.25 + 2.0));
    assert_eq!(t.dimensions, r.dimensions);
}

#[test]
fn vertices_in_fixed_order() {
    let r = rect(1.0, 2.0, 3.0, 4.0);
    let corners = r.vertices();
    assert_eq!(corners.len(), 4);
    assert_eq!(corners[0], (s(1.0), s(2.0)));
    assert_eq!(corners[1], (s(1.0), s(6.0)));
    assert_eq!(corners[2], (s(4.0), s(6.0)));
    assert_eq!(corners[3], (s(4.0), s(2.0)));
}
