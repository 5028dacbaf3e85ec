use arena::arena::Arena;

#[test]
fn append_non_unique() {
    let mut arena: Arena<u8> = Arena::new();
    let t1 = arena.append(0);
    let t2 = arena.append(0);
    assert!(t1 != t2);
    assert!(arena.index(t1) == arena.index(t2));
}

#[test]
fn append_unique() {
    let mut arena: Arena<u8> = Arena::new();
    let t1 = arena.append(0);
    let t2 = arena.append(1);
    assert!(t1 != t2);
    assert!(arena.index(t1) != arena.index(t2));
}

#[test]
fn fetch_or_append_non_unique() {
    let mut arena: Arena<u8> = Arena::new();
    let t1 = arena.fetch_or_append(0);
    let t2 = arena.fetch_or_append(0);
    assert!(t1 == t2);
    assert!(arena.index(t1) == arena.index(t2))
}

#[test]
fn fetch_or_append_unique() {
    let mut arena: Arena<u8> = Arena::new();
    let t1 = arena.fetch_or_append(0);
    let t2 = arena.fetch_or_append(1);
    assert!(t1 != t2);
    assert!(arena.index(t1) != arena.index(t2));
}

#[test]
fn new_arena_is_empty() {
    let arena: Arena<u8> = Arena::new();
    assert_eq!(arena.len(), 0);
    let arena: Arena<String> = Arena::default();
    assert_eq!(arena.len(), 0);
}

#[test]
fn append_scenario() {
    let mut arena: Arena<u8> = Arena::new();
    let h1 = arena.append(0);
    let h2 = arena.append(1);
    let h3 = arena.append(0);
    assert!(h1 != h2);
    assert!(h2 != h3);
    assert!(h1 != h3);
    assert_eq!(arena.len(), 3);
    assert_eq!(*arena.index(h1), 0);
    assert_eq!(*arena.index(h2), 1);
    assert_eq!(*arena.index(h3), 0);
    assert!(arena.index(h1) == arena.index(h3));
}

#[test]
fn fetch_or_append_scenario() {
    let mut arena: Arena<u8> = Arena::new();
    let h1 = arena.fetch_or_append(0);
    let h2 = arena.fetch_or_append(1);
    let h3 = arena.fetch_or_append(0);
    assert!(h1 == h3);
    assert!(h1 != h2);
    assert_eq!(arena.len(), 2);
    assert_eq!(*arena.index(h1), 0);
    assert_eq!(*arena.index(h2), 1);
}

#[test]
fn fetch_or_append_finds_first_match() {
    let mut arena: Arena<u8> = Arena::new();
    let first = arena.append(7);
    let _second = arena.append(7);
    let found = arena.fetch_or_append(7);
    assert!(found == first);
    assert_eq!(found.index(), 0);
    assert_eq!(arena.len(), 2);
}

#[test]
fn handles_encode_insertion_order() {
    let mut arena: Arena<u32> = Arena::new();
    let mut previous = None;
    for value in [10, 20, 30, 20] {
        let h = arena.append(value);
        if let Some(p) = previous {
            assert!(h.index() == p + 1);
        } else {
            assert_eq!(h.index(), 0);
        }
        previous = Some(h.index());
    }
    assert_eq!(arena.len(), 4);
}

#[test]
fn iter_pairs_each_element_with_its_handle() {
    let mut arena: Arena<u8> = Arena::new();
    let h1 = arena.append(5);
    let h2 = arena.append(6);
    let h3 = arena.append(5);
    let pairs = arena.iter();
    assert_eq!(pairs.len(), 3);
    let expected = [(h1, 5u8), (h2, 6u8), (h3, 5u8)];
    for (i, (h, v)) in pairs.into_iter().enumerate() {
        assert!(h == expected[i].0);
        assert_eq!(h.index(), i);
        assert_eq!(*v, expected[i].1);
        assert_eq!(*arena.index(h), expected[i].1);
    }
}

#[test]
fn existing_handles_survive_later_insertions() {
    let mut arena: Arena<u16> = Arena::new();
    let h = arena.append(300);
    for value in 0..100u16 {
        arena.append(value);
        arena.fetch_or_append(value);
    }
    assert_eq!(*arena.index(h), 300);
    assert_eq!(h.index(), 0);
}
