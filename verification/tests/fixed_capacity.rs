use fixed_capacity_vec::AsFixedCapacityVec;

#[test]
fn test_extend() {
    let mut vec = Vec::new();
    {
        let items: Vec<i32> = std::iter::repeat(9).take(3).collect();
        let mut buffer = vec.with_fixed_capacity(4);
        buffer.extend(&items);
    }
    assert_eq!(&vec[..], &[9, 9, 9]);
}

#[test]
fn test_push_whole_capacity() {
    let mut vec: Vec<u32> = Vec::new();
    {
        let mut extend = vec.with_fixed_capacity(4);
        extend.push(10);
        extend.push(11);
        extend.push(12);
        extend.push(13);
        assert_eq!(extend.additional_cap(), 0);
    }
    assert_eq!(&vec[..], &[10, 11, 12, 13]);
}

#[test]
fn test_push_over_capacity_refused() {
    let mut vec = Vec::new();
    vec.push(1);
    {
        let mut extend = vec.with_fixed_capacity(1);
        extend.push(0);
        assert_eq!(extend.try_push(7), Some(7));
        assert_eq!(extend.as_slice(), &[0]);
    }
    assert_eq!(&vec[..], &[1, 0]);
}

#[test]
fn test_atomic_batch_admission() {
    let mut vec: Vec<i32> = Vec::new();
    {
        let mut extend = vec.with_fixed_capacity(2);
        assert!(!extend.try_extend_from_slice(&[1, 2, 3]));
        assert_eq!(extend.as_slice(), &[]);
        assert!(extend.try_extend_from_slice(&[1, 2]));
        assert_eq!(extend.as_slice(), &[1, 2]);
    }
    assert_eq!(&vec[..], &[1, 2]);
}

#[test]
fn test_per_element_admission() {
    let mut vec: Vec<i32> = Vec::new();
    {
        let mut extend = vec.with_fixed_capacity(2);
        assert_eq!(extend.try_extend(&[2, 2, 2]), 2);
    }
    assert_eq!(&vec[..], &[2, 2]);
}

#[test]
fn test_round_trip() {
    let mut vec = vec![1, 2, 3, 4];
    {
        let mut extend_end = vec.with_fixed_capacity(5);
        extend_end.push(4);
        assert_eq!(extend_end.as_slice(), &[4]);
        assert_eq!(extend_end.read_view(), &[1, 2, 3, 4]);
        let content = extend_end.read_view().to_vec();
        extend_end.extend_from_slice(&content);
        assert_eq!(extend_end.as_slice(), &[4, 1, 2, 3, 4]);
        assert_eq!(extend_end.additional_cap(), 0);
    }
    assert_eq!(&vec[..], &[1, 2, 3, 4, 4, 1, 2, 3, 4]);
}

#[test]
fn test_round_trip_short_reservation() {
    let mut vec = vec![1, 2, 3, 4];
    {
        let mut extend_end = vec.with_fixed_capacity(2);
        extend_end.push(4);
        let content = extend_end.read_view().to_vec();
        assert!(!extend_end.try_extend_from_slice(&content));
        assert_eq!(extend_end.as_slice(), &[4]);
    }
    assert_eq!(&vec[..], &[1, 2, 3, 4, 4]);
}

#[test]
fn test_extend_from_read_view_twice() {
    let mut vec = Vec::new();
    vec.push(1);
    vec.push(2);
    {
        let mut extent = vec.with_fixed_capacity(4);
        let old_data = extent.read_view().to_vec();
        extent.extend_from_slice(&old_data);
        extent.extend_from_slice(&old_data);
    }
    assert_eq!(vec, &[1, 2, 1, 2, 1, 2]);
}

#[test]
fn test_views_cover_disjoint_ranges() {
    let mut vec = vec![7u8, 8];
    {
        let mut extend = vec.with_fixed_capacity(3);
        extend.push(9);
        assert_eq!(extend.read_view(), &[7, 8]);
        assert_eq!(extend.as_slice(), &[9]);
        assert_eq!(extend.additional_cap(), 2);
    }
    assert_eq!(&vec[..], &[7, 8, 9]);
}

#[test]
fn test_set_rewrites_write_view_only() {
    let mut vec = vec![1];
    {
        let mut extend = vec.with_fixed_capacity(2);
        extend.push(5);
        extend.push(6);
        extend.set(0, 50);
        assert_eq!(extend.read_view(), &[1]);
        assert_eq!(extend.as_slice(), &[50, 6]);
    }
    assert_eq!(&vec[..], &[1, 50, 6]);
}

#[test]
fn test_split_of_nonempty_with_zero_capacity() {
    let mut vec = vec![3, 4];
    {
        let mut extend = vec.with_fixed_capacity(0);
        assert_eq!(extend.additional_cap(), 0);
        assert_eq!(extend.try_push(5), Some(5));
        assert_eq!(extend.read_view(), &[3, 4]);
        assert_eq!(extend.as_slice(), &[]);
    }
    assert_eq!(&vec[..], &[3, 4]);
}
