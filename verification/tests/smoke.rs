use catalog::ident::Uuid;

#[test]
fn it_works() {
    assert_eq!(2 + 2, 4);
}

#[test]
fn nil_identifier_is_zero() {
    assert_eq!(Uuid::nil().as_u128(), 0);
}
