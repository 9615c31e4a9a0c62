use balancebeam::proxy::forwarded::extend_header_value;

#[test]
fn absent_header_becomes_the_address() {
    assert_eq!(extend_header_value(None, b"1.2.3.4"), b"1.2.3.4".to_vec());
}

#[test]
fn existing_chain_is_kept_and_extended() {
    assert_eq!(
        extend_header_value(Some(b"9.9.9.9"), b"1.2.3.4"),
        b"9.9.9.9, 1.2.3.4".to_vec()
    );
    let twice = extend_header_value(Some(b"9.9.9.9, 8.8.8.8"), b"::1");
    assert_eq!(twice, b"9.9.9.9, 8.8.8.8, ::1".to_vec());
}

#[test]
fn empty_parts_are_kept_as_they_are() {
    assert_eq!(extend_header_value(Some(b""), b"1.2.3.4"), b", 1.2.3.4".to_vec());
    assert_eq!(extend_header_value(Some(b"a"), b""), b"a, ".to_vec());
    assert_eq!(extend_header_value(None, b""), Vec::<u8>::new());
}
