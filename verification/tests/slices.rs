use dst_vec::DSTVec;

#[test]
fn test_it_works() {
    let mut slices = DSTVec::<Vec<i32>>::new();
    slices.push(vec![1, 2, 3]);
    slices.push(vec![4, 5, 6, 7]);
    slices.push(vec![]);
    slices.push(vec![-1]);

    let mut iter = slices.iter();
    assert!(
        std::iter::from_fn(|| iter.next()).collect::<Vec<_>>()
            == [vec![1, 2, 3], vec![4, 5, 6, 7], vec![], vec![-1]]
    );
}
