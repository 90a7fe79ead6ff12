use autosplit_core::error::SimpleError;

#[test]
fn wrap_joins_messages_with_a_colon() {
    let inner = SimpleError::new("unable to read value from pointer path");
    let outer = SimpleError::wrap("error while reading level", &inner);
    assert_eq!(outer.message(), "error while reading level: unable to read value from pointer path");
    assert_eq!(inner.message(), "unable to read value from pointer path");
}
