use trivalibs::fvec::Vec3Bits;
use trivalibs::fvec::f32_gt;
use trivalibs::fvec::f32_lt;
use trivalibs::fvec::v3_add;
use trivalibs::fvec::v3_cross;
use trivalibs::fvec::v3_div;
use trivalibs::fvec::v3_dot;
use trivalibs::fvec::v3_length;
use trivalibs::fvec::v3_normalize;
use trivalibs::fvec::v3_normalize_or_zero;
use trivalibs::fvec::v3_sub;
use trivalibs::normal::face_normal_of;
use trivalibs::normal::vertex_normal_of;

fn bits(x: f32, y: f32, z: f32) -> Vec3Bits {
    Vec3Bits { x: x.to_bits(), y: y.to_bits(), z: z.to_bits() }
}

fn floats(v: Vec3Bits) -> (f32, f32, f32) {
    (f32::from_bits(v.x), f32::from_bits(v.y), f32::from_bits(v.z))
}

#[test]
fn vector_arithmetic_matches_componentwise_floats() {
    let a = bits(1.5, -2.0, 4.0);
    let b = bits(0.5, 3.0, -1.0);
    assert_eq!(floats(v3_add(a, b)), (2.0, 1.0, 3.0));
    assert_eq!(floats(v3_sub(a, b)), (1.0, -5.0, 5.0));
    assert_eq!(floats(v3_div(bits(2.0, 4.0, 8.0), 2.0f32.to_bits())), (1.0, 2.0, 4.0));
    assert_eq!(f32::from_bits(v3_dot(bits(1.0, 2.0, 3.0), bits(4.0, 5.0, 6.0))), 32.0);
    assert_eq!(f32::from_bits(v3_length(bits(3.0, 4.0, 0.0))), 5.0);
}

#[test]
fn cross_products_follow_the_right_hand_rule() {
    let x = bits(1.0, 0.0, 0.0);
    let y = bits(0.0, 1.0, 0.0);
    assert_eq!(floats(v3_cross(x, y)), (0.0, 0.0, 1.0));
    assert_eq!(floats(v3_cross(y, x)), (0.0, 0.0, -1.0));
}

#[test]
fn normalize_scales_to_unit_length() {
    assert_eq!(floats(v3_normalize(bits(0.0, 0.0, 9.0))), (0.0, 0.0, 1.0));
    assert_eq!(floats(v3_normalize_or_zero(bits(4.0, 0.0, 0.0))), (1.0, 0.0, 0.0));
    // an unnormalizable vector yields the zero vector, not a failure
    assert_eq!(floats(v3_normalize_or_zero(bits(0.0, 0.0, 0.0))), (0.0, 0.0, 0.0));
}

#[test]
fn float_comparisons_order_by_value() {
    assert!(f32_lt(1.0f32.to_bits(), 2.0f32.to_bits()));
    assert!(!f32_lt(2.0f32.to_bits(), 1.0f32.to_bits()));
    assert!(f32_lt((-3.0f32).to_bits(), 1e-4f32.to_bits()));
    assert!(f32_gt(0.99995f32.to_bits(), 0.9999f32.to_bits()));
    assert!(!f32_gt(0.5f32.to_bits(), 0.9999f32.to_bits()));
}

#[test]
fn face_normal_of_matches_the_cross_product_convention() {
    let n = face_normal_of(bits(0.0, 0.0, 0.0), bits(1.0, 0.0, 0.0), bits(1.0, 1.0, 0.0), None);
    assert_eq!(floats(n), (0.0, 0.0, 1.0));
    // reversing the winding flips the sign
    let m = face_normal_of(bits(0.0, 0.0, 0.0), bits(1.0, 1.0, 0.0), bits(1.0, 0.0, 0.0), None);
    assert_eq!(floats(m), (0.0, 0.0, -1.0));
}

#[test]
fn vertex_normal_of_averages_and_normalizes() {
    let ns = vec![bits(0.0, 0.0, 1.0), bits(0.0, 0.0, 1.0), bits(0.0, 0.0, 1.0)];
    assert_eq!(floats(vertex_normal_of(&ns)), (0.0, 0.0, 1.0));
    // opposing normals cancel to the zero vector
    let cancel = vec![bits(0.0, 0.0, 1.0), bits(0.0, 0.0, -1.0)];
    assert_eq!(floats(vertex_normal_of(&cancel)), (0.0, 0.0, 0.0));
    let empty: Vec<Vec3Bits> = vec![];
    assert_eq!(floats(vertex_normal_of(&empty)), (0.0, 0.0, 0.0));
}
