use sg_to_csv::error::{ErrorKind, ExportError};

#[test]
fn every_kind_has_its_label() {
    assert_eq!(ErrorKind::InvalidIdentifier.label(), "invalid identifier");
    assert_eq!(ErrorKind::ConnectionError.label(), "connection error");
    assert_eq!(ErrorKind::CatalogQueryFailed.label(), "catalog query failed");
    assert_eq!(ErrorKind::SinkOpenFailed.label(), "sink open failed");
    assert_eq!(ErrorKind::IoError.label(), "i/o error");
    assert_eq!(ErrorKind::StreamError.label(), "stream error");
    assert_eq!(ErrorKind::FinalizeError.label(), "finalize error");
}

#[test]
fn description_is_label_colon_message() {
    let error = ExportError::new(ErrorKind::StreamError, String::from("connection reset"));
    assert_eq!(error.describe(), "stream error: connection reset");
    assert_eq!(error.kind, ErrorKind::StreamError);
    assert_eq!(error.message, "connection reset");
}

#[test]
fn description_of_an_empty_message() {
    let error = ExportError::new(ErrorKind::IoError, String::new());
    assert_eq!(error.describe(), "i/o error: ");
}

#[test]
fn clone_keeps_kind_and_message() {
    let error = ExportError::new(ErrorKind::FinalizeError, String::from("trailer"));
    assert_eq!(error.clone(), error);
}
