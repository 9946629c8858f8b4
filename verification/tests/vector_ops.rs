use devotee::vector::Vector;

#[test]
fn new_split_accessors() {
    let v = Vector::new(3i32, -4i32);
    assert_eq!(v.x(), 3);
    assert_eq!(v.y(), -4);
    assert_eq!(*v.x_ref(), 3);
    assert_eq!(*v.y_ref(), -4);
    assert_eq!(v.split(), (3, -4));
    let w: Vector<i32> = Vector::from((7, 8));
    assert_eq!(w.split(), (7, 8));
}

#[test]
fn mutable_accessors() {
    let mut v = Vector::new(1i32, 2i32);
    *v.x_mut() = 10;
    *v.y_mut() = 20;
    assert_eq!(v.split(), (10, 20));
}

#[test]
fn map_applies_to_both_components() {
    let v = Vector::new(3i32, 5i32);
    let doubled = v.map(|c: i32| c.wrapping_mul(2));
    assert_eq!(doubled.split(), (6, 10));
}

#[test]
fn add_sub_componentwise() {
    let a = Vector::new(1i32, 2i32);
    let b = Vector::new(30i32, -40i32);
    assert_eq!(a.add(b).split(), (31, -38));
    assert_eq!(a.sub(b).split(), (-29, 42));
    let mut c = a;
    c.add_assign(b);
    assert_eq!(c.split(), (31, -38));
    c.sub_assign(b);
    assert_eq!(c.split(), (1, 2));
}

#[test]
fn scalar_mul_div() {
    let a = Vector::new(6i32, -9i32);
    assert_eq!(a.mul(3).split(), (18, -27));
    assert_eq!(a.div(3).split(), (2, -3));
    let mut b = a;
    b.mul_assign(2);
    assert_eq!(b.split(), (12, -18));
    b.div_assign(2);
    assert_eq!(b.split(), (6, -9));
}

#[test]
fn div_truncates_toward_zero() {
    assert_eq!(Vector::new(7i32, -7i32).div(2).split(), (3, -3));
    assert_eq!(Vector::new(7i32, -7i32).div(-2).split(), (-3, 3));
    assert_eq!(Vector::new(1i32, -1i32).div(3).split(), (0, 0));
}

#[test]
fn neg_negates_both() {
    assert_eq!(Vector::new(4i32, -5i32).neg().split(), (-4, 5));
}

#[test]
fn dot_product_exact() {
    let a = Vector::new(2i32, 3i32);
    let b = Vector::new(5i32, -7i32);
    assert_eq!(a.dot(b), 2 * 5 + 3 * (-7));
}

#[test]
fn add_then_sub_returns_original() {
    let a = Vector::new(12i32, -34i32);
    let b = Vector::new(56i32, 78i32);
    assert_eq!(a.add(b).sub(b), a);
}

#[test]
fn mul_then_div_returns_original() {
    let a = Vector::new(12i32, -34i32);
    assert_eq!(a.mul(5).div(5), a);
    assert_eq!(a.mul(-3).div(-3), a);
}

#[test]
fn dot_commutes() {
    let a = Vector::new(2i32, -9i32);
    let b = Vector::new(11i32, 4i32);
    assert_eq!(a.dot(b), b.dot(a));
}
