use graphml2mm::graph::{FieldMissingError, GraphEvent};
use std::collections::HashMap;

#[test]
fn node_test() {
    let node = GraphEvent::new_node(Some("A".to_string()));
    assert_eq!(node.unwrap(), GraphEvent::Node { id: "A".to_string() });
}

#[test]
fn node_err_test() {
    let node = GraphEvent::new_node(None);
    assert_eq!(node.unwrap_err(), FieldMissingError::NodeError(None));
}

#[test]
fn edge_test() {
    let edge = GraphEvent::new_edge(
        Some("A".to_string()),
        Some("B".to_string()),
        Some("C".to_string()),
        None,
    );
    assert_eq!(
        edge.unwrap(),
        GraphEvent::Edge {
            id: "A".to_string(),
            source: "B".to_string(),
            target: "C".to_string(),
            attrs: HashMap::new()
        }
    );
}

#[test]
fn edge_err_test() {
    let edge = GraphEvent::new_edge(None, None, None, None);
    assert_eq!(edge.unwrap_err(), FieldMissingError::EdgeError(None, None, None));
}

#[test]
fn edge_err_no_id_test() {
    let edge = GraphEvent::new_edge(None, Some("B".to_string()), Some("C".to_string()), None);
    assert_eq!(
        edge.unwrap_err(),
        FieldMissingError::EdgeError(None, Some("B".to_string()), Some("C".to_string()))
    );
}

#[test]
fn edge_with_attrs_test() {
    let mut attrs = HashMap::new();
    attrs.insert("weight".to_string(), "2".to_string());
    let edge = GraphEvent::new_edge(
        Some("A".to_string()),
        Some("B".to_string()),
        Some("C".to_string()),
        Some(attrs.clone()),
    );
    assert_eq!(
        edge.unwrap(),
        GraphEvent::Edge {
            id: "A".to_string(),
            source: "B".to_string(),
            target: "C".to_string(),
            attrs
        }
    );
}

#[test]
fn edge_err_all_combinations_test() {
    // Every combination with at least one of id/source/target missing echoes
    // back exactly which fields were present.
    let vals = ["i", "s", "t"];
    for mask in 0..7 {
        let pick = |bit: usize, v: &str| {
            if mask & (1 << bit) != 0 {
                Some(v.to_string())
            } else {
                None
            }
        };
        let id = pick(0, vals[0]);
        let source = pick(1, vals[1]);
        let target = pick(2, vals[2]);
        let edge = GraphEvent::new_edge(id.clone(), source.clone(), target.clone(), None);
        assert_eq!(edge.unwrap_err(), FieldMissingError::EdgeError(id, source, target));
    }
}

#[test]
fn node_err_message_test() {
    let err = FieldMissingError::NodeError(None);
    assert_eq!(err.message(), "node: missing id field");
}

#[test]
fn edge_err_message_test() {
    let err = FieldMissingError::EdgeError(
        Some("da".to_string()),
        None,
        Some("A".to_string()),
    );
    assert_eq!(
        err.message(),
        "edge: missing field(s) [id: Some(\"da\"), source: None, target: Some(\"A\")]"
    );
}

#[test]
fn edge_err_message_escapes_like_debug_test() {
    // A present value is spliced in with debug-style escaping: quotes,
    // backslashes and control characters never appear raw.
    let samples = [
        "plain",
        "a\"b",
        "back\\slash",
        "line\nbreak",
        "tab\tcr\r",
        "nul\0",
        "esc\u{1b}",
        "del\u{7f}",
        "c1\u{9f}",
        "acc\u{e9}nt",
    ];
    for v in samples {
        let err = FieldMissingError::EdgeError(Some(v.to_string()), None, Some(v.to_string()));
        let expected = format!(
            "edge: missing field(s) [id: {:?}, source: {:?}, target: {:?}]",
            Some(v.to_string()),
            None::<String>,
            Some(v.to_string()),
        );
        assert_eq!(err.message(), expected);
    }
}

#[test]
fn field_err_description_test() {
    let err = FieldMissingError::NodeError(None);
    assert_eq!(err.description(), "Missing field while parsing");
    assert!(err.cause().is_none());
}
