use dst_vec::arena::Arena;

#[test]
fn a_new_arena_holds_nothing() {
    let arena = Arena::new();
    assert_eq!(arena.capacity(), 0);
    assert!(arena.base().is_empty());
}

#[test]
fn reserve_takes_the_requirement_when_the_double_falls_short() {
    let mut arena = Arena::new();
    arena.reserve(0, 3);
    assert_eq!(arena.capacity(), 3);
    arena.reserve(3, 100);
    assert_eq!(arena.capacity(), 103);
}

#[test]
fn reserve_doubles_when_the_double_suffices() {
    let mut arena = Arena::new();
    arena.reserve(0, 3);
    arena.reserve(3, 1);
    assert_eq!(arena.capacity(), 6);
    arena.reserve(6, 6);
    assert_eq!(arena.capacity(), 12);
}

#[test]
fn reserve_leaves_a_sufficient_arena_alone() {
    let mut arena = Arena::new();
    arena.reserve(0, 10);
    arena.reserve(4, 6);
    assert_eq!(arena.capacity(), 10);
    arena.reserve(10, 0);
    assert_eq!(arena.capacity(), 10);
}

#[test]
fn write_changes_only_its_range() {
    let mut arena = Arena::new();
    arena.reserve(0, 8);
    arena.write(0, &[1, 2, 3, 4, 5, 6, 7, 8]);
    arena.write(2, &[30, 40, 50]);
    assert_eq!(arena.base(), &[1, 2, 30, 40, 50, 6, 7, 8]);
    arena.write(8, &[]);
    assert_eq!(arena.base(), &[1, 2, 30, 40, 50, 6, 7, 8]);
}

#[test]
fn growth_keeps_the_used_bytes() {
    let mut arena = Arena::new();
    arena.reserve(0, 4);
    arena.write(0, &[9, 8, 7, 6]);
    arena.reserve(4, 1);
    assert_eq!(arena.capacity(), 8);
    assert_eq!(&arena.base()[..4], &[9, 8, 7, 6]);
    arena.reserve(4, 1000);
    assert_eq!(arena.capacity(), 1004);
    assert_eq!(&arena.base()[..4], &[9, 8, 7, 6]);
}
