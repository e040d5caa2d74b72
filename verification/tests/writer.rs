use graphml2mm::graph::writer::mm_writer;
use graphml2mm::graph::GraphEvent;
use std::collections::HashMap;

fn edge(id: &str, source: &str, target: &str) -> GraphEvent {
    GraphEvent::Edge {
        id: id.to_string(),
        source: source.to_string(),
        target: target.to_string(),
        attrs: HashMap::new(),
    }
}

fn node(id: &str) -> GraphEvent {
    GraphEvent::Node { id: id.to_string() }
}

#[test]
fn write_simple() {
    let events = vec![
        edge("1", "1", "2"),
        edge("2", "2", "3"),
        node("1"),
        node("2"),
        node("3"),
    ];
    let s = mm_writer(&events);
    assert_eq!(
        String::from("%%MatrixMarket matrix coordinate real general\n3 3 2     \n1 2 1.0\n2 3 1.0\n"),
        s
    );
}

#[test]
fn write_empty() {
    let s = mm_writer(&vec![]);
    assert_eq!(
        String::from("%%MatrixMarket matrix coordinate real general\n0 0 0     \n"),
        s
    );
}

#[test]
fn write_header_fills_placeholder_exactly() {
    // 100 nodes and 12 edges give the header "100 100 12": ten characters,
    // exactly the reserved width, leaving the line terminator untouched.
    let mut events = Vec::new();
    for i in 0..100 {
        events.push(node(&i.to_string()));
    }
    for i in 0..12 {
        events.push(edge(&i.to_string(), "1", "2"));
    }
    let s = mm_writer(&events);
    let mut expected = String::from("%%MatrixMarket matrix coordinate real general\n100 100 12\n");
    for _ in 0..12 {
        expected.push_str("1 2 1.0\n");
    }
    assert_eq!(expected, s);
}

#[test]
fn write_header_overflow_overwrites_following_bytes() {
    // 100 nodes and 123 edges need eleven header characters, one more than
    // the reserved width: the byte after the placeholder — the line
    // terminator — is overwritten, as seeking back and writing would do.
    let mut events = Vec::new();
    for i in 0..100 {
        events.push(node(&i.to_string()));
    }
    for i in 0..123 {
        events.push(edge(&i.to_string(), "1", "2"));
    }
    let s = mm_writer(&events);
    let mut expected = String::from("%%MatrixMarket matrix coordinate real general\n100 100 123");
    for _ in 0..123 {
        expected.push_str("1 2 1.0\n");
    }
    assert_eq!(expected, s);
}

#[test]
fn write_keeps_edge_order_and_raw_labels() {
    let events = vec![
        node("7"),
        edge("a", "7", "9"),
        node("9"),
        edge("b", "9", "7"),
    ];
    let s = mm_writer(&events);
    assert_eq!(
        String::from("%%MatrixMarket matrix coordinate real general\n2 2 2     \n7 9 1.0\n9 7 1.0\n"),
        s
    );
}
