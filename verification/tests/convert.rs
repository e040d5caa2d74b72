use graphml2mm::convert;
use graphml2mm::graph::reader::ReaderError;
use graphml2mm::graph::FieldMissingError;

#[test]
fn convert_scenario_test() {
    let content = r#"<graphml><graph id="G"><node id="A"/><node id="D"/><edge id="da" source="D" target="A"/></graph></graphml>"#;
    let out = convert(content.as_bytes()).unwrap();
    assert_eq!(
        out,
        "%%MatrixMarket matrix coordinate real general\n2 2 1     \nD A 1.0\n"
    );
}

#[test]
fn convert_is_deterministic_test() {
    let content = r#"<graphml><graph id="G"><node id="A"/><node id="D"/><edge id="da" source="D" target="A"/></graph></graphml>"#;
    let first = convert(content.as_bytes()).unwrap();
    let second = convert(content.as_bytes()).unwrap();
    assert_eq!(first, second);
}

#[test]
fn convert_propagates_reader_error_test() {
    let content = r#"<graphml><edge id="da" target="A"/></graphml>"#;
    let err = convert(content.as_bytes()).unwrap_err();
    assert_eq!(
        err,
        ReaderError::GraphEventError(FieldMissingError::EdgeError(
            Some("da".to_string()),
            None,
            Some("A".to_string()),
        ))
    );
}
