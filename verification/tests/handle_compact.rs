use arena::arena::{Arena, Handle};

#[test]
fn handle_ser() {
    let handle: Handle<()> = Handle::from_compact("Handle(4294967295)").unwrap();
    let handle_ser = handle.to_compact();
    assert_eq!(handle_ser, "Handle(4294967295)");
}

#[test]
fn handle_de() {
    type TestHandle = Handle<()>;
    let handle_de: TestHandle = TestHandle::from_compact("Handle(4294967295)").unwrap();
    assert_eq!(handle_de.index(), u32::MAX as usize - 1);
}

#[test]
fn handle_ser_de() {
    type TestHandle = Handle<()>;
    let handle: TestHandle = TestHandle::from_compact("Handle(4294967295)").unwrap();
    let handle_ser = handle.to_compact();
    let handle_ser_de: TestHandle = TestHandle::from_compact(&handle_ser).unwrap();
    assert_eq!(handle_ser_de, handle);
}

#[test]
fn appended_handle_serializes_one_based() {
    let mut arena: Arena<u8> = Arena::new();
    let h1 = arena.append(9);
    let h2 = arena.append(8);
    assert_eq!(h1.to_compact(), "Handle(1)");
    assert_eq!(h2.to_compact(), "Handle(2)");
}

#[test]
fn compact_round_trips_through_text() {
    for raw in [1u32, 2, 9, 10, 11, 99, 100, 12345, 4294967294, 4294967295] {
        let text = format!("Handle({})", raw);
        let h: Handle<u8> = Handle::from_compact(&text).unwrap();
        assert_eq!(h.index(), raw as usize - 1);
        assert_eq!(h.to_compact(), text);
    }
}

#[test]
fn compact_rejects_zero_index() {
    assert!(Handle::<u8>::from_compact("Handle(0)").is_none());
}

#[test]
fn compact_rejects_malformed_text() {
    for text in [
        "",
        "Handle()",
        "Handle(",
        "Handle(1",
        "1",
        "handle(1)",
        "Handle[1]",
        "Handle(12a)",
        "Handle( 1)",
        "Handle(-1)",
        "Handle(01)",
        "Handle(4294967296)",
        "Handle(99999999999999999999)",
    ] {
        assert!(Handle::<u8>::from_compact(text).is_none(), "accepted {:?}", text);
    }
}
