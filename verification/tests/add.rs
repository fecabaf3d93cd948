use header_vec::HeaderVec;

fn hv<H, T>(head: H, items: Vec<T>) -> HeaderVec<H, T> {
    HeaderVec::from_iter(head, items)
}

#[test]
fn add_range() {
    let mut v = hv("foo", vec![4, 5]);
    v.extend((6..=9).collect::<Vec<_>>());
    assert_eq!(v, hv("foo", vec![4, 5, 6, 7, 8, 9]));
}

#[test]
fn add_array() {
    let mut v = hv("foo", vec![1, 2]);
    v.extend([3, 4, 5].iter().copied().collect::<Vec<_>>());
    assert_eq!(v, hv("foo", vec![1, 2, 3, 4, 5]));
}

#[test]
fn add_vec() {
    let x: Box<[i32]> = Box::new([3, 4, 5]);
    let mut v = hv("foo", vec![1, 2]);
    v.extend(x.into_vec());
    assert_eq!(v, hv("foo", vec![1, 2, 3, 4, 5]));
}

#[test]
fn add_assign_range() {
    let mut v = hv("foo", vec![4, 5]);
    v.extend((6..=9).collect::<Vec<_>>());
    assert_eq!(v, hv("foo", vec![4, 5, 6, 7, 8, 9]));
}

#[test]
fn add_assign_iter() {
    let mut v = hv("foo", vec![1, 2]);
    v.extend([3, 4, 5].iter().copied().collect::<Vec<_>>());
    assert_eq!(v, hv("foo", vec![1, 2, 3, 4, 5]));
}

#[test]
fn add_assign_vec() {
    let mut v = hv("foo", vec![1, 2]);
    let x: Box<[i32]> = Box::new([3, 4, 5]);
    v.extend(x.into_vec());
    assert_eq!(v, hv("foo", vec![1, 2, 3, 4, 5]));
}

#[test]
fn extend() {
    let mut v = hv("foo", vec![1, 2]);
    v.extend((1..=3).collect::<Vec<_>>());
    assert_eq!(v, hv("foo", vec![1, 2, 1, 2, 3]));
}

#[test]
fn extend_from_slice() {
    let mut v = hv("foo", vec![1, 2, 3]);
    v.extend_from_slice(&[4, 5, 6]);
    assert_eq!(v, hv("foo", vec![1, 2, 3, 4, 5, 6]));
}
