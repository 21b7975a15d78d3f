use dst_vec::layout::padding_for;
use dst_vec::{Blob, DSTVec};

fn blob(size: usize, align: usize) -> Blob<u8> {
    Blob::new(vec![0xAB; size], align, 0)
}

#[test]
fn padding_is_zero_on_a_multiple() {
    assert_eq!(padding_for(0, 8), 0);
    assert_eq!(padding_for(16, 4), 0);
    assert_eq!(padding_for(16, 16), 0);
    assert_eq!(padding_for(5, 1), 0);
}

#[test]
fn padding_reaches_the_next_multiple() {
    assert_eq!(padding_for(13, 4), 3);
    assert_eq!(padding_for(1, 8), 7);
    assert_eq!(padding_for(17, 16), 15);
    assert_eq!(padding_for(9, 3), 0);
    assert_eq!(padding_for(10, 3), 2);
}

#[test]
fn padding_next_to_the_largest_offset() {
    assert_eq!(padding_for(usize::MAX, 1), 0);
    assert_eq!(padding_for(usize::MAX - 1, 2), 0);
    assert_eq!(padding_for(usize::MAX - 2, 2), 1);
}

#[test]
fn offsets_are_least_multiples_behind_the_mark() {
    let mut vec = DSTVec::<Blob<u8>>::new();
    let steps: [(usize, usize, usize, usize); 7] = [
        // size, align, expected offset, expected used bytes afterwards
        (1, 1, 0, 1),
        (4, 4, 4, 8),
        (3, 1, 8, 11),
        (8, 8, 16, 24),
        (0, 16, 32, 32),
        (2, 2, 32, 34),
        (5, 3, 36, 41),
    ];
    for (index, &(size, align, offset, used)) in steps.iter().enumerate() {
        vec.push(blob(size, align));
        assert_eq!(vec.len(), index + 1);
        assert_eq!(vec.offset(index), offset);
        assert_eq!(vec.used_bytes(), used);
        assert_eq!(offset % align, 0);
    }
    for (index, &(_, _, offset, _)) in steps.iter().enumerate() {
        assert_eq!(vec.offset(index), offset);
    }
}

#[test]
fn no_padding_when_the_mark_is_aligned() {
    let mut vec = DSTVec::<Blob<u8>>::new();
    vec.push(blob(8, 4));
    assert_eq!(vec.used_bytes(), 8);
    vec.push(blob(4, 8));
    assert_eq!(vec.offset(1), 8);
    assert_eq!(vec.used_bytes(), 12);
    vec.push(blob(1, 4));
    assert_eq!(vec.offset(2), 12);
    assert_eq!(vec.used_bytes(), 13);
}

#[test]
fn an_empty_element_shares_its_offset_with_the_next() {
    let mut vec = DSTVec::<Vec<i32>>::new();
    vec.push(vec![7]);
    vec.push(vec![]);
    vec.push(vec![8, 9]);
    assert_eq!(vec.offset(0), 0);
    assert_eq!(vec.offset(1), 4);
    assert_eq!(vec.offset(2), 4);
    assert_eq!(vec.used_bytes(), 12);
}
