use tracer::math::Vector;

fn fx(x: f64) -> i128 {
    (x * 65536.0).round() as i128
}

#[test]
fn sum_of_vectors_test() {
    let v1 = Vector::new(fx(3.0), fx(2.0), fx(1.0));
    let v2 = Vector::new(fx(7.0), fx(4.0), fx(3.0));
    assert_eq!(v1.add(v2), Vector::new(fx(10.0), fx(6.0), fx(4.0)));
}

#[test]
fn subtraction_of_vectors_test() {
    let v1 = Vector::new(fx(3.0), fx(2.0), fx(1.0));
    let v2 = Vector::new(fx(7.0), fx(4.0), fx(3.0));
    assert_eq!(v1.sub(v2), Vector::new(fx(-4.0), fx(-2.0), fx(-2.0)));
}

#[test]
fn multiplication_vector_by_scalar_test() {
    let v1 = Vector::new(fx(3.0), fx(2.0), fx(1.0));
    assert_eq!(v1.scale(fx(3.0)), Vector::new(fx(9.0), fx(6.0), fx(3.0)));
}

#[test]
fn division_vector_by_scalar_test() {
    let v1 = Vector::new(fx(3.0), fx(2.0), fx(1.0));
    assert_eq!(v1.div_by(fx(2.0)), Vector::new(fx(1.5), fx(1.0), fx(0.5)));
}

#[test]
fn dot_product_test() {
    let v1 = Vector::new(fx(3.0), fx(2.0), fx(1.0));
    let v2 = Vector::new(fx(7.0), fx(4.0), fx(3.0));
    assert_eq!(Vector::dot_product(v1, v2), fx(32.0));
}

#[test]
fn cross_product_test() {
    let v1 = Vector::new(fx(3.0), fx(2.0), fx(1.0));
    let v2 = Vector::new(fx(7.0), fx(4.0), fx(3.0));
    assert_eq!(
        Vector::cross_product(v1, v2),
        Vector::new(fx(2.0), fx(-2.0), fx(-2.0))
    );
}

#[test]
fn normalization_of_vector_test() {
    let v1 = Vector::new(fx(2.0), fx(0.0), fx(0.0));
    assert_eq!(v1.normalize(), Vector::new(fx(1.0), fx(0.0), fx(0.0)));
}

#[test]
fn magnitude_of_vector() {
    let v1 = Vector::new(fx(2.0), fx(2.0), fx(1.0));
    assert_eq!(v1.magnitude(), fx(3.0));
}

#[test]
fn dot_product_is_symmetric() {
    let v1 = Vector::new(fx(1.25), fx(-2.5), fx(0.75));
    let v2 = Vector::new(fx(-3.0), fx(0.5), fx(4.0));
    assert_eq!(Vector::dot_product(v1, v2), Vector::dot_product(v2, v1));
}

#[test]
fn cross_product_is_antisymmetric() {
    let v1 = Vector::new(fx(1.25), fx(-2.5), fx(0.75));
    let v2 = Vector::new(fx(-3.0), fx(0.5), fx(4.0));
    assert_eq!(Vector::cross_product(v1, v2), Vector::cross_product(v2, v1).neg());
}

#[test]
fn normalized_vector_has_unit_magnitude() {
    let v = Vector::new(fx(3.0), fx(2.0), fx(1.0));
    let m = v.normalize().magnitude();
    assert!(65536 - 5 <= m && m <= 65536 + 2);
}
