use header_vec::HeaderVec;

fn hv<H, T>(head: H, items: Vec<T>) -> HeaderVec<H, T> {
    HeaderVec::from_iter(head, items)
}

fn hv_rep<H, T: Clone>(head: H, val: T, n: usize) -> HeaderVec<H, T> {
    let mut v = HeaderVec::with_capacity(head, n);
    v.resize(n, val);
    v
}

#[test]
fn remove() {
    let mut v = hv("foo", vec![1, 2, 3, 4, 5]);
    assert_eq!(v.remove(3), Some(4));
    assert_eq!(v, hv("foo", vec![1, 2, 3, 5]));
    assert_eq!(v.remove(1), Some(2));
    assert_eq!(v, hv("foo", vec![1, 3, 5]));
    assert_eq!(v.remove(2), Some(5));
    assert_eq!(v, hv("foo", vec![1, 3]));
    assert_eq!(v.remove(0), Some(1));
    assert_eq!(v, hv("foo", vec![3]));
    assert_eq!(v.remove(0), Some(3));
    assert_eq!(v, hv("foo", vec![]));
}

#[test]
fn swap_remove() {
    let mut v = hv("foo", vec![1, 2, 3, 4, 5]);
    assert_eq!(v.swap_remove(2), Some(3));
    assert_eq!(v, hv("foo", vec![1, 2, 5, 4]));
    assert_eq!(v.swap_remove(7), None);
    assert_eq!(v, hv("foo", vec![1, 2, 5, 4]));
}

#[test]
fn swap_remove_zst() {
    let mut v = hv_rep("foo", (), 5);
    assert_eq!(v.swap_remove(2), Some(()));
    assert_eq!(v, hv_rep("foo", (), 4));
    assert_eq!(v.swap_remove(7), None);
    assert_eq!(v, hv_rep("foo", (), 4));
}

#[test]
fn remove_zst() {
    fn inner_test<H: Copy + std::fmt::Debug + Eq>(h: H) {
        let mut v = hv_rep(h, (), 5);
        assert_eq!(v.remove(3), Some(()));
        assert_eq!(v, hv_rep(h, (), 4));
        assert_eq!(v.remove(10), None);
        assert_eq!(v, hv_rep(h, (), 4));
        assert_eq!(v.remove(4), None);
        assert_eq!(v, hv_rep(h, (), 4));
        assert_eq!(v.remove(3), Some(()));
        assert_eq!(v, hv_rep(h, (), 3));
        assert_eq!(v.remove(0), Some(()));
        assert_eq!(v, hv_rep(h, (), 2));
        assert_eq!(v.remove(1), Some(()));
        assert_eq!(v, hv_rep(h, (), 1));
        assert_eq!(v.remove(0), Some(()));
        assert_eq!(v, hv(h, vec![]));
    }

    // with non-zero-sized header
    inner_test([1, 2, 3]);
    // with zero-sized header
    inner_test(());
}

#[test]
fn remove_from_empty() {
    let mut v = HeaderVec::<_, i32>::new("foo");
    assert_eq!(v.remove(0), None);
    assert_eq!(v, hv("foo", vec![]));
    assert_eq!(v.remove(1), None);
    assert_eq!(v, hv("foo", vec![]));
    assert_eq!(v.remove(8), None);
    assert_eq!(v, hv("foo", vec![]));
}

#[test]
fn pop() {
    let mut v = hv("foo", vec![1, 2, 3, 4, 5]);
    assert_eq!(v.pop(), Some(5));
    assert_eq!(v, hv("foo", vec![1, 2, 3, 4]));
    assert_eq!(v.pop(), Some(4));
    assert_eq!(v, hv("foo", vec![1, 2, 3]));
    assert_eq!(v.pop(), Some(3));
    assert_eq!(v, hv("foo", vec![1, 2]));
    assert_eq!(v.pop(), Some(2));
    assert_eq!(v, hv("foo", vec![1]));
    assert_eq!(v.pop(), Some(1));
    assert_eq!(v, hv("foo", vec![]));
    assert_eq!(v.pop(), None);
    assert_eq!(v, hv("foo", vec![]));
}

#[test]
fn pop_zst() {
    fn inner_test<H: Copy + std::fmt::Debug + Eq>(h: H) {
        let mut v = hv_rep(h, (), 5);
        assert_eq!(v.pop(), Some(()));
        assert_eq!(v, hv_rep(h, (), 4));
        assert_eq!(v.pop(), Some(()));
        assert_eq!(v, hv_rep(h, (), 3));
        assert_eq!(v.pop(), Some(()));
        assert_eq!(v, hv_rep(h, (), 2));
        assert_eq!(v.pop(), Some(()));
        assert_eq!(v, hv_rep(h, (), 1));
        assert_eq!(v.pop(), Some(()));
        assert_eq!(v, hv_rep(h, (), 0));
        assert_eq!(v.pop(), None);
        assert_eq!(v, hv_rep(h, (), 0));
    }

    // with non-zero-sized header
    inner_test([1, 2, 3, 4, 5]);
    // with zero-sized header
    inner_test(());
}
