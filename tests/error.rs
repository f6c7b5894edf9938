use mew::{ErrorKind, Location, MewError};

#[test]
fn constructors_without_place_use_unknown_location() {
    let cases = [
        (MewError::syntax("s".to_string()), ErrorKind::Syntax),
        (MewError::runtime("r".to_string()), ErrorKind::Runtime),
        (MewError::type_error("t".to_string()), ErrorKind::Type),
        (MewError::name("n".to_string()), ErrorKind::Name),
    ];
    for (e, k) in cases.iter() {
        assert_eq!(e.kind(), *k);
        assert_eq!(e.location(), Some(Location::unknown()));
    }
    assert_eq!(MewError::type_error("t".to_string()).message(), "t");
}

#[test]
fn constructors_with_place_keep_it() {
    let at = Location::new(3, 7);
    let cases = [
        (MewError::syntax_at("s".to_string(), at), ErrorKind::Syntax),
        (MewError::runtime_at("r".to_string(), at), ErrorKind::Runtime),
        (MewError::type_error_at("t".to_string(), at), ErrorKind::Type),
        (MewError::name_at("n".to_string(), at), ErrorKind::Name),
    ];
    for (e, k) in cases.iter() {
        assert_eq!(e.kind(), *k);
        assert_eq!(e.location(), Some(at));
    }
}

#[test]
fn io_errors_have_no_place() {
    let e = MewError::IO("no such file".to_string());
    assert_eq!(e.kind(), ErrorKind::IO);
    assert_eq!(e.location(), None);
    assert_eq!(e.message(), "no such file");
}

#[test]
fn unknown_location_is_zero_zero() {
    let u = Location::unknown();
    assert_eq!((u.line, u.column), (0, 0));
    assert_eq!(Location::new(1, 2).column, 2);
}
