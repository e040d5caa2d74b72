use graphml2mm::graph::reader::{get_value_from_attrs, graphml_reader, ReaderError};
use graphml2mm::graph::{FieldMissingError, GraphEvent};
use std::collections::HashMap;

fn assert_result(content: String, exp: Vec<GraphEvent>) {
    let events = graphml_reader(content.as_bytes()).unwrap();
    assert_eq!(&events, &exp);
}

fn assert_error(content: String, exp: ReaderError) {
    let err = graphml_reader(content.as_bytes()).unwrap_err();
    assert_eq!(err, exp);
}

#[test]
fn graphml_test() {
    let content = String::from(
        r#"
    <?xml version="1.0" encoding="UTF-8"?>
        <graphml>
        <graph id="G" edgedefault="undirected">
        <node id="A"/>
        <node id="D"/>
        <edge id="da" source="D" target="A"/>
        </graph>
        </graphml>"#,
    );
    let exp = vec![
        GraphEvent::Node { id: "A".to_string() },
        GraphEvent::Node { id: "D".to_string() },
        GraphEvent::Edge {
            id: "da".to_string(),
            source: "D".to_string(),
            target: "A".to_string(),
            attrs: HashMap::new(),
        },
    ];
    assert_result(content, exp);
}

#[test]
fn graphml_no_node_id_test() {
    let content = String::from(
        r#"
    <?xml version="1.0" encoding="UTF-8"?>
        <graphml>
        <graph id="G" edgedefault="undirected">
        <node/>
        <node id="D"/>
        <edge id="da" source="D" target="A"/>
        </graph>
        </graphml>"#,
    );
    assert_error(
        content,
        ReaderError::GraphEventError(FieldMissingError::NodeError(None)),
    );
}

#[test]
fn graphml_no_egde_source_test() {
    let content = String::from(
        r#"
    <?xml version="1.0" encoding="UTF-8"?>
        <graphml>
        <graph id="G" edgedefault="undirected">
        <edge id="da" target="A"/>
        </graph>
        </graphml>"#,
    );
    assert_error(
        content,
        ReaderError::GraphEventError(FieldMissingError::EdgeError(
            Some("da".to_string()),
            None,
            Some("A".to_string()),
        )),
    );
}

#[test]
fn empty_graphml_test() {
    let content = String::from(
        r#"
    <?xml version="1.0" encoding="UTF-8"?>
        <graphml>
        <graph id="G" edgedefault="undirected">
        </graph>
            </graphml>"#,
    );
    let exp = vec![];
    assert_result(content, exp);
}

#[test]
fn no_graphml_test() {
    let content = String::from(
        r#"
        <?xml version="1.0" encoding="UTF-8"?>
        <foo/>"#,
    );
    let exp = vec![];
    assert_result(content, exp);
}

#[test]
fn no_xml_error_test() {
    let content = String::from(
        r#"
        oo/>"#,
    );
    assert_error(
        content,
        ReaderError::XMLError(
            "2:9 Unexpected characters outside the root element: o".to_string(),
        ),
    );
}

#[test]
fn graphml_edge_missing_all_test() {
    let content = String::from(r#"<graphml><graph id="G"><edge/></graph></graphml>"#);
    assert_error(
        content,
        ReaderError::GraphEventError(FieldMissingError::EdgeError(None, None, None)),
    );
}

#[test]
fn graphml_fail_fast_discards_earlier_events_test() {
    // Valid nodes precede the bad element, a valid edge follows it: nothing
    // from either side survives.
    let content = String::from(
        r#"<graphml><graph id="G">
        <node id="A"/>
        <node/>
        <edge id="ab" source="A" target="B"/>
        </graph></graphml>"#,
    );
    assert_error(
        content,
        ReaderError::GraphEventError(FieldMissingError::NodeError(None)),
    );
}

#[test]
fn graphml_edge_quote_entity_test() {
    // A quote reaches a field value through an entity; the echoed error
    // carries it raw, and the diagnostic escapes it.
    let content = String::from(r#"<graphml><edge id="a&quot;b" target="A"/></graphml>"#);
    let err = graphml_reader(content.as_bytes()).unwrap_err();
    assert_eq!(
        err,
        ReaderError::GraphEventError(FieldMissingError::EdgeError(
            Some("a\"b".to_string()),
            None,
            Some("A".to_string()),
        ))
    );
    match err {
        ReaderError::GraphEventError(f) => assert_eq!(
            f.message(),
            "edge: missing field(s) [id: Some(\"a\\\"b\"), source: None, target: Some(\"A\")]"
        ),
        ReaderError::XMLError(_) => unreachable!(),
    }
}

#[test]
fn reader_error_description_test() {
    let err = ReaderError::GraphEventError(FieldMissingError::NodeError(None));
    assert_eq!(err.description(), "encountered a validation error");
    assert_eq!(err.cause(), Some(&FieldMissingError::NodeError(None)));
    let syntax = ReaderError::XMLError("1:1 broken".to_string());
    assert_eq!(syntax.description(), "1:1 broken");
    assert!(syntax.cause().is_none());
}

#[test]
fn reader_error_from_test() {
    let err = ReaderError::from(FieldMissingError::NodeError(None));
    assert_eq!(err, ReaderError::GraphEventError(FieldMissingError::NodeError(None)));
}

#[test]
fn attr_lookup_last_wins_test() {
    let attrs = vec![
        ("id".to_string(), "first".to_string()),
        ("other".to_string(), "x".to_string()),
        ("id".to_string(), "last".to_string()),
    ];
    assert_eq!(get_value_from_attrs("id", &attrs), Some("last".to_string()));
    assert_eq!(get_value_from_attrs("other", &attrs), Some("x".to_string()));
    assert_eq!(get_value_from_attrs("missing", &attrs), None);
}
