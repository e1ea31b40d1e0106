use arena_builder::error::GenericError;

#[test]
fn from_str_has_message_and_no_source() {
    let err = GenericError::from("plain");
    assert_eq!(err.description(), "plain");
    assert!(err.source().is_none());
    assert_eq!(err.to_text(), "plain");
}

#[test]
fn from_string_has_message_and_no_source() {
    let err = GenericError::from(String::from("owned"));
    assert_eq!(err.description(), "owned");
    assert!(err.source().is_none());
    assert_eq!(err.to_text(), "owned");
}

#[test]
fn with_source_keeps_message_and_chains_text() {
    let err = GenericError::from("outer").with_source(GenericError::from("inner"));
    assert_eq!(err.description(), "outer");
    assert_eq!(err.source().unwrap().description(), "inner");
    assert_eq!(err.to_text(), "outer: inner");
}

#[test]
fn with_source_replaces_an_earlier_source() {
    let err = GenericError::from("outer")
        .with_source(GenericError::from("first"))
        .with_source(GenericError::from("second"));
    assert_eq!(err.to_text(), "outer: second");
}

#[test]
fn text_follows_the_whole_chain() {
    let inner = GenericError::from("middle").with_source(GenericError::from("root"));
    let err = GenericError::from("top").with_source(inner);
    assert_eq!(err.to_text(), "top: middle: root");
    assert_eq!(err.source().unwrap().to_text(), "middle: root");
}

#[test]
fn caused_by_holds_the_displayed_cause() {
    let err = GenericError::caused_by("wrapped", &42u32);
    assert_eq!(err.description(), "wrapped");
    assert_eq!(err.source().unwrap().description(), "42");
    assert!(err.source().unwrap().source().is_none());
    assert_eq!(err.to_text(), "wrapped: 42");
}

#[test]
fn about_names_its_subject() {
    let err = GenericError::about("file.txt", ": open failed", &"gone");
    assert_eq!(err.to_text(), "file.txt: open failed: gone");
}

#[test]
fn from_io_error() {
    let io = std::io::Error::new(std::io::ErrorKind::Other, "disk on fire");
    let err = GenericError::from(io);
    assert_eq!(err.description(), "i/o error");
    assert_eq!(err.to_text(), "i/o error: disk on fire");
}

#[test]
fn from_parse_int_error() {
    let parse = "x".parse::<u8>().unwrap_err();
    let err = GenericError::from(parse);
    assert_eq!(err.description(), "can't parse integer");
    assert_eq!(err.to_text(), "can't parse integer: invalid digit found in string");
}

#[test]
fn from_try_from_int_error() {
    let convert = u8::try_from(300u32).unwrap_err();
    let err = GenericError::from(convert);
    assert_eq!(err.description(), "can't convert integer");
    assert!(err.to_text().starts_with("can't convert integer: "));
    assert!(err.source().is_some());
}

#[test]
fn from_recv_error() {
    let (sender, receiver) = std::sync::mpsc::channel::<u8>();
    drop(sender);
    let err = GenericError::from(receiver.recv().unwrap_err());
    assert_eq!(err.description(), "mpsc receive failed");
    assert_eq!(err.to_text(), "mpsc receive failed: receiving on a closed channel");
}

#[test]
fn from_send_error() {
    let (sender, receiver) = std::sync::mpsc::channel::<u8>();
    drop(receiver);
    let err = GenericError::from(sender.send(1).unwrap_err());
    assert_eq!(err.description(), "mpsc send failed");
    assert_eq!(err.to_text(), "mpsc send failed: sending on a closed channel");
}

#[test]
fn with_cause_holds_the_cause_as_given() {
    let err = GenericError::with_cause("a.txt", ": read failed", "bad sector");
    assert_eq!(err.description(), "a.txt: read failed");
    assert_eq!(err.source().unwrap().description(), "bad sector");
    assert!(err.source().unwrap().source().is_none());
}
