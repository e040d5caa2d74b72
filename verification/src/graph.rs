//! Graph events and the validation errors of their fallible constructors.

use vstd::prelude::*;
use vstd::string::{StrSliceExecFns, StringExecFns};
use std::collections::HashMap;

pub mod reader;
pub mod writer;

verus! {

/// Mathematical shape of a graph event: identifiers as character sequences,
/// custom attributes as a map.
pub enum GraphEventView {
    Node { id: Seq<char> },
    Edge { id: Seq<char>, source: Seq<char>, target: Seq<char>, attrs: Map<Seq<char>, Seq<char>> },
}

/// Mathematical shape of a field-presence error, echoing what was supplied.
pub enum FieldMissingErrorView {
    NodeError(Option<Seq<char>>),
    EdgeError(Option<Seq<char>>, Option<Seq<char>>, Option<Seq<char>>),
}

/// Which required fields were absent when an event was constructed.
#[derive(Debug, PartialEq)]
pub enum FieldMissingError {
    /// A node lacked its `id`; carries whatever was supplied for it.
    NodeError(Option<String>),
    /// An edge lacked `id`, `source` or `target`; carries each field as given.
    EdgeError(Option<String>, Option<String>, Option<String>),
}

impl View for FieldMissingError {
    type V = FieldMissingErrorView;

    open spec fn view(&self) -> FieldMissingErrorView {
        match self {
            FieldMissingError::NodeError(id) => FieldMissingErrorView::NodeError(id.deep_view()),
            FieldMissingError::EdgeError(id, source, target) => FieldMissingErrorView::EdgeError(
                id.deep_view(),
                source.deep_view(),
                target.deep_view(),
            ),
        }
    }
}

/// A validated graph event: every required field is present by construction.
#[derive(Debug, PartialEq)]
pub enum GraphEvent {
    Node { id: String },
    Edge { id: String, source: String, target: String, attrs: HashMap<String, String> },
}

impl View for GraphEvent {
    type V = GraphEventView;

    open spec fn view(&self) -> GraphEventView {
        match self {
            GraphEvent::Node { id } => GraphEventView::Node { id: id@ },
            GraphEvent::Edge { id, source, target, attrs } => GraphEventView::Edge {
                id: id@,
                source: source@,
                target: target@,
                attrs: attrs.deep_view(),
            },
        }
    }
}

impl DeepView for GraphEvent {
    type V = GraphEventView;

    open spec fn deep_view(&self) -> GraphEventView {
        self.view()
    }
}

/// What `GraphEvent::new_node` returns for each possible `id`.
pub open spec fn new_node_spec(id: Option<Seq<char>>) -> Result<GraphEventView, FieldMissingErrorView> {
    match id {
        Some(i) => Ok(GraphEventView::Node { id: i }),
        None => Err(FieldMissingErrorView::NodeError(None)),
    }
}

/// What `GraphEvent::new_edge` returns for each combination of supplied fields.
pub open spec fn new_edge_spec(
    id: Option<Seq<char>>,
    source: Option<Seq<char>>,
    target: Option<Seq<char>>,
    attrs: Option<Map<Seq<char>, Seq<char>>>,
) -> Result<GraphEventView, FieldMissingErrorView> {
    match (id, source, target) {
        (Some(i), Some(s), Some(t)) => Ok(
            GraphEventView::Edge {
                id: i,
                source: s,
                target: t,
                attrs: match attrs {
                    Some(m) => m,
                    None => Map::empty(),
                },
            },
        ),
        _ => Err(FieldMissingErrorView::EdgeError(id, source, target)),
    }
}

/// The view of a constructor's result.
pub open spec fn event_result_view(r: Result<GraphEvent, FieldMissingError>) -> Result<
    GraphEventView,
    FieldMissingErrorView,
> {
    match r {
        Ok(e) => Ok(e@),
        Err(f) => Err(f@),
    }
}

impl GraphEvent {
    /// Builds a node event; fails when `id` is absent.
    pub fn new_node(id: Option<String>) -> (r: Result<GraphEvent, FieldMissingError>)
        ensures
            event_result_view(r) == new_node_spec(id.deep_view()),
    {
        match id {
            Some(id) => Ok(GraphEvent::Node { id }),
            None => Err(FieldMissingError::NodeError(None)),
        }
    }

    /// Builds an edge event; fails whenever any of `id`, `source`, `target` is
    /// absent, echoing back exactly which of the three were supplied.  A missing
    /// `attrs` is never an error: it is replaced by an empty mapping.
    pub fn new_edge(
        id: Option<String>,
        source: Option<String>,
        target: Option<String>,
        attrs: Option<HashMap<String, String>>,
    ) -> (r: Result<GraphEvent, FieldMissingError>)
        ensures
            event_result_view(r) == new_edge_spec(
                id.deep_view(),
                source.deep_view(),
                target.deep_view(),
                attrs.deep_view(),
            ),
    {
        match (id, source, target, attrs) {
            (Some(id), Some(source), Some(target), None) => {
                let attrs: HashMap<String, String> = HashMap::new();
                proof {
                    broadcast use vstd::std_specs::hash::lemma_hashmap_deepview_dom;

                    assert(attrs.deep_view().dom() =~= Set::<Seq<char>>::empty());
                    assert(attrs.deep_view() =~= Map::<Seq<char>, Seq<char>>::empty());
                }
                Ok(GraphEvent::Edge { id, source, target, attrs })
            },
            (Some(id), Some(source), Some(target), Some(attrs)) => Ok(
                GraphEvent::Edge { id, source, target, attrs },
            ),
            (id, source, target, _) => Err(FieldMissingError::EdgeError(id, source, target)),
        }
    }
}

/// The character of a single lowercase hexadecimal digit.
pub open spec fn hex_digit(d: nat) -> char {
    if d == 0 {
        '0'
    } else if d == 1 {
        '1'
    } else if d == 2 {
        '2'
    } else if d == 3 {
        '3'
    } else if d == 4 {
        '4'
    } else if d == 5 {
        '5'
    } else if d == 6 {
        '6'
    } else if d == 7 {
        '7'
    } else if d == 8 {
        '8'
    } else if d == 9 {
        '9'
    } else if d == 10 {
        'a'
    } else if d == 11 {
        'b'
    } else if d == 12 {
        'c'
    } else if d == 13 {
        'd'
    } else if d == 14 {
        'e'
    } else {
        'f'
    }
}

/// The lowercase hexadecimal rendering of `n`, without leading zeros.
pub open spec fn hex_str(n: nat) -> Seq<char>
    decreases n,
{
    if n < 16 {
        seq![hex_digit(n)]
    } else {
        hex_str(n / 16).push(hex_digit(n % 16))
    }
}

/// Whether `c` is a control character, which a diagnostic must not splice in
/// raw.
pub open spec fn is_control_char(c: char) -> bool {
    (c as nat) < 32 || (127 <= c as nat && c as nat <= 159)
}

/// How one character of a spliced field value is rendered, in the style of
/// debug formatting: quotes and backslashes are escaped, the usual control
/// characters by letter, the remaining control characters by their
/// hexadecimal code; everything else stands unchanged.
pub open spec fn escaped_char(c: char) -> Seq<char> {
    if c == '"' {
        seq!['\\', '"']
    } else if c == '\\' {
        seq!['\\', '\\']
    } else if c == '\n' {
        seq!['\\', 'n']
    } else if c == '\r' {
        seq!['\\', 'r']
    } else if c == '\t' {
        seq!['\\', 't']
    } else if c == '\0' {
        seq!['\\', '0']
    } else if is_control_char(c) {
        seq!['\\', 'u', '{'] + hex_str(c as nat) + seq!['}']
    } else {
        seq![c]
    }
}

/// The rendering of a whole value between the quotes of `Some("...")`.
pub open spec fn escaped_str(s: Seq<char>) -> Seq<char>
    decreases s.len(),
{
    if s.len() == 0 {
        Seq::empty()
    } else {
        escaped_str(s.drop_last()) + escaped_char(s.last())
    }
}

/// The text that renders an optional field for diagnostics: a present value
/// is spliced in escaped, as debug formatting would show it.
pub open spec fn opt_text(o: Option<Seq<char>>) -> Seq<char> {
    match o {
        None => "None"@,
        Some(s) => "Some(\""@ + escaped_str(s) + "\")"@,
    }
}

/// The diagnostic line of a field-presence error.
pub open spec fn field_missing_message(e: FieldMissingErrorView) -> Seq<char> {
    match e {
        FieldMissingErrorView::NodeError(_) => "node: missing id field"@,
        FieldMissingErrorView::EdgeError(id, source, target) => "edge: missing field(s) [id: "@
            + opt_text(id) + ", source: "@ + opt_text(source) + ", target: "@ + opt_text(target)
            + "]"@,
    }
}

fn append_hex_digit(out: &mut String, d: u32)
    requires
        d < 16,
    ensures
        final(out)@ == old(out)@.push(hex_digit(d as nat)),
{
    let text: &str = if d == 0 {
        "0"
    } else if d == 1 {
        "1"
    } else if d == 2 {
        "2"
    } else if d == 3 {
        "3"
    } else if d == 4 {
        "4"
    } else if d == 5 {
        "5"
    } else if d == 6 {
        "6"
    } else if d == 7 {
        "7"
    } else if d == 8 {
        "8"
    } else if d == 9 {
        "9"
    } else if d == 10 {
        "a"
    } else if d == 11 {
        "b"
    } else if d == 12 {
        "c"
    } else if d == 13 {
        "d"
    } else if d == 14 {
        "e"
    } else {
        "f"
    };
    proof {
        reveal_strlit("0");
        reveal_strlit("1");
        reveal_strlit("2");
        reveal_strlit("3");
        reveal_strlit("4");
        reveal_strlit("5");
        reveal_strlit("6");
        reveal_strlit("7");
        reveal_strlit("8");
        reveal_strlit("9");
        reveal_strlit("a");
        reveal_strlit("b");
        reveal_strlit("c");
        reveal_strlit("d");
        reveal_strlit("e");
        reveal_strlit("f");
        assert(text@ =~= seq![hex_digit(d as nat)]);
    }
    out.append(text);
    proof {
        assert(out@ =~= old(out)@.push(hex_digit(d as nat)));
    }
}

fn append_escaped(out: &mut String, s: &str)
    ensures
        final(out)@ == old(out)@ + escaped_str(s@),
{
    let len = s.unicode_len();
    let mut i: usize = 0;
    proof {
        assert(escaped_str(s@.take(0)) =~= Seq::<char>::empty());
        assert(out@ =~= old(out)@ + escaped_str(s@.take(0)));
    }
    while i < len
        invariant
            i <= len,
            len == s@.len(),
            out@ == old(out)@ + escaped_str(s@.take(i as int)),
        decreases len - i,
    {
        proof {
            assert(s@.take(i + 1).drop_last() =~= s@.take(i as int));
            assert(s@.take(i + 1).last() == s@[i as int]);
        }
        let c = s.get_char(i);
        if c == '"' {
            out.append("\\\"");
            proof {
                reveal_strlit("\\\"");
                assert(out@ =~= old(out)@ + escaped_str(s@.take(i + 1)));
            }
        } else if c == '\\' {
            out.append("\\\\");
            proof {
                reveal_strlit("\\\\");
                assert(out@ =~= old(out)@ + escaped_str(s@.take(i + 1)));
            }
        } else if c == '\n' {
            out.append("\\n");
            proof {
                reveal_strlit("\\n");
                assert(out@ =~= old(out)@ + escaped_str(s@.take(i + 1)));
            }
        } else if c == '\r' {
            out.append("\\r");
            proof {
                reveal_strlit("\\r");
                assert(out@ =~= old(out)@ + escaped_str(s@.take(i + 1)));
            }
        } else if c == '\t' {
            out.append("\\t");
            proof {
                reveal_strlit("\\t");
                assert(out@ =~= old(out)@ + escaped_str(s@.take(i + 1)));
            }
        } else if c == '\0' {
            out.append("\\0");
            proof {
                reveal_strlit("\\0");
                assert(out@ =~= old(out)@ + escaped_str(s@.take(i + 1)));
            }
        } else {
            let code = c as u32;
            if code < 32 || (127 <= code && code <= 159) {
                out.append("\\u{");
                if code >= 16 {
                    append_hex_digit(out, code / 16);
                    append_hex_digit(out, code % 16);
                    proof {
                        assert((code / 16) as nat == (code as nat) / 16);
                        assert((code % 16) as nat == (code as nat) % 16);
                        assert((code as nat) / 16 < 16);
                        assert(hex_str((code as nat) / 16) =~= seq![hex_digit((code as nat) / 16)]);
                        assert(hex_str(code as nat) == hex_str((code as nat) / 16).push(
                            hex_digit((code as nat) % 16),
                        ));
                        assert(hex_str(code as nat) =~= seq![
                            hex_digit((code / 16) as nat),
                            hex_digit((code % 16) as nat),
                        ]);
                    }
                } else {
                    append_hex_digit(out, code);
                }
                out.append("}");
                proof {
                    reveal_strlit("\\u{");
                    reveal_strlit("}");
                    assert(out@ =~= old(out)@ + escaped_str(s@.take(i + 1)));
                }
            } else {
                let piece = s.substring_char(i, i + 1);
                out.append(piece);
                proof {
                    assert(piece@ =~= seq![s@[i as int]]);
                    assert(out@ =~= old(out)@ + escaped_str(s@.take(i + 1)));
                }
            }
        }
        i += 1;
    }
    proof {
        assert(s@.take(len as int) =~= s@);
    }
}

fn append_opt(out: &mut String, o: &Option<String>)
    ensures
        final(out)@ == old(out)@ + opt_text(o.deep_view()),
{
    match o {
        None => out.append("None"),
        Some(s) => {
            out.append("Some(\"");
            append_escaped(out, s.as_str());
            out.append("\")");
            proof {
                assert(out@ =~= old(out)@ + opt_text(o.deep_view()));
            }
        },
    }
}

impl FieldMissingError {
    /// The stable, human-readable line distinguishing the failure kind and
    /// showing each field's presence.
    pub fn message(&self) -> (r: String)
        ensures
            r@ == field_missing_message(self@),
    {
        match self {
            FieldMissingError::NodeError(_) => "node: missing id field".to_owned(),
            FieldMissingError::EdgeError(id, source, target) => {
                let mut r = "edge: missing field(s) [id: ".to_owned();
                append_opt(&mut r, id);
                r.append(", source: ");
                append_opt(&mut r, source);
                r.append(", target: ");
                append_opt(&mut r, target);
                r.append("]");
                proof {
                    assert(r@ =~= field_missing_message(self@));
                }
                r
            },
        }
    }

    /// The common short description of this error layer.
    pub fn description(&self) -> (r: String)
        ensures
            r@ == "Missing field while parsing"@,
    {
        "Missing field while parsing".to_owned()
    }

    /// A field-presence error wraps no further error.
    pub fn cause(&self) -> (r: Option<&FieldMissingError>)
        ensures
            r is None,
    {
        None
    }
}

} // verus!
