use bmw::error::{err, from_foreign, map_err, prefix_of, ErrKind, Error, ErrorKind, ForeignError};

#[test]
fn test_ekinds() {
    let e: Error = err(ErrKind::Configuration, "anything");
    let _err_kind = e.kind();
    let raw: Error = ErrorKind::Configuration("configuration error".to_string()).into();
    #[allow(unused_variables)]
    let same = matches!(raw.kind(), _err_kind);
    assert!(same);
}

#[test]
fn err_carries_kind_and_message() {
    let e = err(ErrKind::Log, "log not initialized");
    assert_eq!(e.kind().kind_name(), ErrKind::Log);
    assert_eq!(e.kind().message_string(), "log not initialized".to_string());
    assert_eq!(e.inner(), "Log Error: log not initialized".to_string());
}

#[test]
fn map_err_joins_message_and_cause() {
    let e = map_err(ErrKind::Configuration, "caused by", "No such file or directory (os error 2)");
    assert!(matches!(e.kind(), ErrorKind::Configuration(_)));
    assert_eq!(
        e.kind().message_string(),
        "caused by: No such file or directory (os error 2)".to_string()
    );
    let e = map_err(ErrKind::IO, "", "x");
    assert_eq!(e.kind().message_string(), ": x".to_string());
}

#[test]
fn errors_equal_by_kind_and_message() {
    let x = err(ErrKind::Poison, "");
    let y = err(ErrKind::IllegalArgument, "");
    let z = err(ErrKind::Poison, "");
    assert!(x != y);
    assert!(x == z);
}

#[test]
fn foreign_errors_convert() {
    let e = from_foreign(ForeignError::TryFromInt, "out of range integral type conversion attempted");
    assert_eq!(e.kind().kind_name(), ErrKind::Misc);
    assert_eq!(
        e.kind().message_string(),
        "TryFromIntError: out of range integral type conversion attempted".to_string()
    );
    let e = from_foreign(ForeignError::Io, "No such file or directory (os error 2)");
    assert_eq!(e.kind().kind_name(), ErrKind::IO);
    assert_eq!(e.inner().get(0..10).unwrap(), "IO Error: ");
    let e = from_foreign(ForeignError::Utf8, "invalid utf-8");
    assert_eq!(e.kind().kind_name(), ErrKind::Utf8);
    let e = from_foreign(ForeignError::Recv, "receiving on a closed channel");
    assert_eq!(e.kind().kind_name(), ErrKind::IllegalState);
    let e = from_foreign(ForeignError::Layout, "invalid parameters to Layout::from_size_align");
    assert_eq!(e.kind().kind_name(), ErrKind::Alloc);
    assert_eq!(prefix_of(ErrKind::Poison), "Poison Error: ".to_string());
}
