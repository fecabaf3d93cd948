use header_vec::HeaderVec;
use std::cmp::Ordering;

fn hv<H, T>(head: H, items: Vec<T>) -> HeaderVec<H, T> {
    HeaderVec::from_iter(head, items)
}

#[test]
fn eq() {
    let foo_empty: HeaderVec<_, i32> = hv("foo", vec![]);
    assert_eq!(hv("foo", vec![1, 2, 3]), hv("foo", vec![1, 2, 3]));
    assert_eq!(foo_empty, foo_empty);
    assert_eq!(
        hv("foo", vec![1, 2]),
        HeaderVec::from_box(hv("foo", vec![1, 2]).into_box())
    );
    assert_eq!(
        HeaderVec::from_box(hv("foo", vec![1, 2]).into_box()),
        hv("foo", vec![1, 2])
    );
    assert_eq!(
        hv("foo", vec![1, 2]).into_box(),
        hv("foo", vec![1, 2]).into_box()
    );
}

#[test]
fn ne() {
    let foo_empty: HeaderVec<_, i32> = hv("foo", vec![]);
    let bar_empty: HeaderVec<_, i32> = hv("bar", vec![]);
    assert_ne!(hv("foo", vec![1, 2, 3]), hv("foo", vec![2, 2, 3]));
    assert_ne!(hv("foo", vec![1, 2]), hv("foo", vec![1, 2, 3]));
    assert_ne!(foo_empty, hv("foo", vec![1]));
    assert_ne!(hv("foo", vec![1, 2]), hv("foo", vec![]));
    assert_ne!(
        hv("foo", vec![1, 2, 3]),
        HeaderVec::from_box(hv("foo", vec![2, 3]).into_box())
    );
    assert_ne!(
        HeaderVec::from_box(hv("foo", vec![1, 2, 3]).into_box()),
        hv("foo", vec![2, 3])
    );
    assert_ne!(
        hv("foo", vec![1, 2, 3]).into_box(),
        hv("foo", vec![2, 3]).into_box()
    );

    assert_ne!(hv("foo", vec![1, 2, 3]), hv("bar", vec![1, 2, 3]));
    assert_ne!(foo_empty, bar_empty);
}

fn both_ways<H: PartialOrd, T: PartialOrd>(
    a: &HeaderVec<H, T>,
    b: &HeaderVec<H, T>,
    fwd: Option<Ordering>,
    back: Option<Ordering>,
) {
    assert_eq!(a.partial_cmp(b), fwd);
    assert_eq!(b.partial_cmp(a), back);
}

#[test]
fn ord() {
    let a_empty: HeaderVec<_, i32> = hv("a", vec![]);
    let b_empty: HeaderVec<_, i32> = hv("b", vec![]);
    assert_eq!(a_empty.partial_cmp(&a_empty), Some(Ordering::Equal));
    both_ways(
        &a_empty,
        &b_empty,
        Some(Ordering::Less),
        Some(Ordering::Greater),
    );

    both_ways(
        &hv("a", vec![1, 2]),
        &hv("a", vec![1, 2]),
        Some(Ordering::Equal),
        Some(Ordering::Equal),
    );
    both_ways(
        &hv("a", vec![1, 2]),
        &hv("b", vec![1, 2]),
        Some(Ordering::Less),
        Some(Ordering::Greater),
    );
    both_ways(
        &hv("a", vec![1, 2]),
        &hv("b", vec![1, 2, 3]),
        Some(Ordering::Less),
        Some(Ordering::Greater),
    );
    both_ways(
        &hv("a", vec![1, 2]),
        &hv("a", vec![1, 3]),
        Some(Ordering::Less),
        Some(Ordering::Greater),
    );
    both_ways(
        &hv("a", vec![1, 2]),
        &hv("a", vec![1, 2, 3]),
        Some(Ordering::Less),
        Some(Ordering::Greater),
    );

    both_ways(
        &hv(1.0f32, vec![1, 2]),
        &hv(1.0f32, vec![1, 2]),
        Some(Ordering::Equal),
        Some(Ordering::Equal),
    );
    both_ways(
        &hv(1.0f32, vec![1, 2]),
        &hv(1.0f32, vec![1, 3]),
        Some(Ordering::Less),
        Some(Ordering::Greater),
    );
    both_ways(
        &hv(1.0f32, vec![1, 2]),
        &hv(2.0f32, vec![1, 2]),
        Some(Ordering::Less),
        Some(Ordering::Greater),
    );

    both_ways(
        &hv(f32::NAN, vec![1, 2]),
        &hv(f32::NAN, vec![1, 2]),
        None,
        None,
    );
    both_ways(&hv(1.0f32, vec![1, 2]), &hv(f32::NAN, vec![1, 2]), None, None);
    both_ways(
        &hv("foo", vec![1.0f32, 2.0]),
        &hv("foo", vec![1.0f32, 2.0]),
        Some(Ordering::Equal),
        Some(Ordering::Equal),
    );
    both_ways(
        &hv("foo", vec![1.0f32, 2.0]),
        &hv("foo", vec![1.0f32, 3.0]),
        Some(Ordering::Less),
        Some(Ordering::Greater),
    );
    both_ways(
        &hv("foo", vec![1.0f32, 2.0]),
        &hv("foo", vec![1.0f32, 2.0, 3.0]),
        Some(Ordering::Less),
        Some(Ordering::Greater),
    );
}
