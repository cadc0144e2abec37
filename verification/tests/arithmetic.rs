//! Scalars, group elements and Lagrange coefficients on fixed values.
use frost::group::RistrettoPoint;
use frost::helpers::get_lagrange_coeff;
use frost::scalar::Scalar;

/// The 32 bytes that a hexadecimal string writes.
fn bytes_of(text: &str) -> [u8; 32] {
    let mut bytes = [0u8; 32];
    bytes.copy_from_slice(&hex::decode(text).unwrap());
    bytes
}

/// A small multiple of the basepoint.
fn multiple(k: u32) -> RistrettoPoint {
    RistrettoPoint::mul_base(&Scalar::from_u32(k))
}

const ORDER_MINUS_ONE: &str = "ecd3f55c1a631258d69cf7a2def9de1400000000000000000000000000000010";
const ORDER_MINUS_TWO: &str = "ebd3f55c1a631258d69cf7a2def9de1400000000000000000000000000000010";

#[test]
fn scalar_zero_is_all_zeros() {
    assert_eq!(Scalar::zero().to_bytes(), [0u8; 32]);
    assert!(Scalar::zero() == Scalar::from_u32(0));
}

#[test]
fn scalar_from_u32_is_little_endian() {
    let mut expected = [0u8; 32];
    expected[..4].copy_from_slice(&[0x04, 0x03, 0x02, 0x01]);
    assert_eq!(Scalar::from_u32(0x01020304).to_bytes(), expected);
    let mut largest = [0u8; 32];
    largest[..4].copy_from_slice(&[0xff; 4]);
    assert_eq!(Scalar::from_u32(u32::MAX).to_bytes(), largest);
}

#[test]
fn scalar_bytes_are_reduced() {
    let above = bytes_of("efd3f55c1a631258d69cf7a2def9de1400000000000000000000000000000010");
    assert!(Scalar::from_bytes_mod_order(above) == Scalar::from_u32(2));
    assert_eq!(
        Scalar::from_bytes_mod_order([0xff; 32]).to_bytes(),
        bytes_of("1c95988d7431ecd670cf7d73f45befc6feffffffffffffffffffffffffffff0f")
    );
    assert_eq!(
        Scalar::from_bytes_mod_order(bytes_of(ORDER_MINUS_ONE)).to_bytes(),
        bytes_of(ORDER_MINUS_ONE)
    );
}

#[test]
fn scalar_subtraction_wraps_below_zero() {
    let difference = Scalar::zero().sub(&Scalar::from_u32(1));
    assert_eq!(difference.to_bytes(), bytes_of(ORDER_MINUS_ONE));
    let difference = Scalar::from_u32(5).sub(&Scalar::from_u32(7));
    assert_eq!(difference.to_bytes(), bytes_of(ORDER_MINUS_TWO));
    assert!(Scalar::from_u32(7).sub(&Scalar::from_u32(5)) == Scalar::from_u32(2));
}

#[test]
fn scalar_addition_wraps_at_the_order() {
    let largest = Scalar::from_bytes_mod_order(bytes_of(ORDER_MINUS_ONE));
    assert!(largest.add(&Scalar::from_u32(1)) == Scalar::zero());
    assert!(largest.add(&Scalar::from_u32(3)) == Scalar::from_u32(2));
    assert!(Scalar::from_u32(40).add(&Scalar::from_u32(2)) == Scalar::from_u32(42));
}

#[test]
fn scalar_multiplication_wraps_at_the_order() {
    let largest = Scalar::from_bytes_mod_order(bytes_of(ORDER_MINUS_ONE));
    assert!(largest.mul(&largest) == Scalar::from_u32(1));
    assert_eq!(largest.mul(&Scalar::from_u32(2)).to_bytes(), bytes_of(ORDER_MINUS_TWO));
    assert!(Scalar::from_u32(6).mul(&Scalar::from_u32(7)) == Scalar::from_u32(42));
    assert!(Scalar::from_u32(6).mul(&Scalar::zero()) == Scalar::zero());
}

#[test]
fn scalar_inverse_multiplies_to_one() {
    let half = Scalar::from_u32(2).invert();
    assert_eq!(
        half.to_bytes(),
        bytes_of("f7e97a2e8d31092c6bce7b51ef7c6f0a00000000000000000000000000000008")
    );
    let x = Scalar::from_u32(123_456_789);
    assert!(x.mul(&x.invert()) == Scalar::from_u32(1));
    assert!(Scalar::from_u32(1).invert() == Scalar::from_u32(1));
}

#[test]
fn scalar_products_of_nonzero_scalars_are_nonzero() {
    let mut rng = rand::thread_rng();
    for _ in 0..20 {
        let a = Scalar::random(&mut rng);
        let b = Scalar::random(&mut rng);
        assert!(a.mul(&b) != Scalar::zero());
    }
}

#[test]
fn scalar_random_is_reduced_and_varies() {
    let mut rng = rand::thread_rng();
    let a = Scalar::random(&mut rng);
    let b = Scalar::random(&mut rng);
    assert!(a != b);
    assert!(Scalar::from_bytes_mod_order(a.to_bytes()) == a);
    assert_eq!(Scalar::from_bytes_mod_order(b.to_bytes()).to_bytes(), b.to_bytes());
}

#[test]
fn point_identity_is_all_zeros() {
    assert_eq!(RistrettoPoint::identity().to_bytes(), [0u8; 32]);
    assert!(RistrettoPoint::identity() == multiple(0));
    assert!(RistrettoPoint::identity() != multiple(1));
}

#[test]
fn point_multiples_of_the_basepoint_have_known_encodings() {
    assert_eq!(
        multiple(1).to_bytes(),
        bytes_of("e2f2ae0a6abc4e71a884a961c500515f58e30b6aa582dd8db6a65945e08d2d76")
    );
    assert_eq!(
        multiple(2).to_bytes(),
        bytes_of("6a493210f7499cd17fecb510ae0cea23a110e8d5b901f8acadd3095c73a3b919")
    );
    assert_eq!(
        multiple(1).to_bytes(),
        curve25519_dalek::constants::RISTRETTO_BASEPOINT_COMPRESSED.to_bytes()
    );
}

#[test]
fn point_sum_adds_the_scalars() {
    assert!(multiple(2).add(&multiple(3)) == multiple(5));
    assert!(multiple(2).add(&RistrettoPoint::identity()) == multiple(2));
    assert_eq!(multiple(1).add(&multiple(1)).to_bytes(), multiple(2).to_bytes());
}

#[test]
fn point_difference_subtracts_the_scalars() {
    assert!(multiple(5).sub(&multiple(3)) == multiple(2));
    assert!(multiple(5).sub(&multiple(5)) == RistrettoPoint::identity());
    let minus_one = Scalar::from_bytes_mod_order(bytes_of(ORDER_MINUS_ONE));
    assert!(multiple(2).sub(&multiple(3)) == RistrettoPoint::mul_base(&minus_one));
}

#[test]
fn point_multiple_multiplies_the_scalars() {
    assert!(multiple(6).mul(&Scalar::from_u32(7)) == multiple(42));
    assert!(multiple(6).mul(&Scalar::zero()) == RistrettoPoint::identity());
    assert!(multiple(6).mul(&Scalar::from_u32(1)) == multiple(6));
}

#[test]
fn point_encodings_are_read_back() {
    let p = multiple(1234);
    assert!(RistrettoPoint::from_bytes(p.to_bytes()) == Some(p));
    assert!(RistrettoPoint::from_bytes([0u8; 32]) == Some(RistrettoPoint::identity()));
}

#[test]
fn point_bad_encodings_are_refused() {
    assert!(RistrettoPoint::from_bytes([0xff; 32]).is_none());
    // An odd encoding stands for no element.
    let mut bytes = [0u8; 32];
    bytes[0] = 1;
    assert!(RistrettoPoint::from_bytes(bytes).is_none());
}

#[test]
fn lagrange_coefficients_at_zero() {
    let indices = vec![1, 2, 3];
    let minus_three = Scalar::zero().sub(&Scalar::from_u32(3));
    assert!(get_lagrange_coeff(0, 1, &indices).unwrap() == Scalar::from_u32(3));
    assert!(get_lagrange_coeff(0, 2, &indices).unwrap() == minus_three);
    assert!(get_lagrange_coeff(0, 3, &indices).unwrap() == Scalar::from_u32(1));
}

#[test]
fn lagrange_coefficients_that_are_fractions() {
    let indices = vec![2, 5, 9];
    let first = bytes_of("24d5909fba32273143cdfe848dda1f4c92244992244992244992244992244902");
    let second = bytes_of("f5e97a2e8d31092c6bce7b51ef7c6f0a00000000000000000000000000000008");
    let third = bytes_of("d514ea8ed2fee1fa27017dcc61a24fbe6ddbb66ddbb66ddbb66ddbb66ddbb605");
    assert_eq!(get_lagrange_coeff(0, 2, &indices).unwrap().to_bytes(), first);
    assert_eq!(get_lagrange_coeff(0, 5, &indices).unwrap().to_bytes(), second);
    assert_eq!(get_lagrange_coeff(0, 9, &indices).unwrap().to_bytes(), third);
}

#[test]
fn lagrange_coefficients_away_from_zero() {
    let indices = vec![1, 2, 3];
    assert!(get_lagrange_coeff(7, 1, &indices).unwrap() == Scalar::from_u32(10));
    assert!(get_lagrange_coeff(1, 1, &indices).unwrap() == Scalar::from_u32(1));
    assert!(get_lagrange_coeff(2, 1, &indices).unwrap() == Scalar::zero());
}

#[test]
fn lagrange_coefficient_among_one_or_none_is_one() {
    assert!(get_lagrange_coeff(0, 4, &vec![4]).unwrap() == Scalar::from_u32(1));
    assert!(get_lagrange_coeff(0, 4, &vec![]).unwrap() == Scalar::from_u32(1));
}

#[test]
fn lagrange_coefficients_of_the_extreme_indices() {
    let indices = vec![0, u32::MAX];
    assert!(get_lagrange_coeff(0, u32::MAX, &indices).unwrap() == Scalar::zero());
    assert!(get_lagrange_coeff(0, 0, &indices).unwrap() == Scalar::from_u32(1));
}

#[test]
fn lagrange_coefficients_add_up_to_one() {
    let indices = vec![3, 1, 8, 20, 4_000_000_000];
    let total = indices.iter().fold(Scalar::zero(), |acc, i| {
        acc.add(&get_lagrange_coeff(0, *i, &indices).unwrap())
    });
    assert!(total == Scalar::from_u32(1));
}
