//! Streaming GraphML reader: XML parse events in, validated graph events out.
//!
//! The scan over start elements is verified; pulling parse events out of the
//! byte stream is the one trusted step, and its result is named so that the
//! reader's contract pins the whole translation down.

use vstd::prelude::*;
use vstd::string::StrSliceExecFns;
use crate::graph::{
    new_edge_spec, new_node_spec, FieldMissingError, FieldMissingErrorView, GraphEvent,
    GraphEventView,
};

verus! {

/// Spec shape of one start element: its local name and, per attribute in
/// document order, the attribute's local name and value.
pub type StartView = (Seq<char>, Seq<(Seq<char>, Seq<char>)>);

/// Mathematical shape of a reader failure.
pub enum ReaderErrorView {
    XMLError(Seq<char>),
    GraphEventError(FieldMissingErrorView),
}

/// Why the reader gave up: the document was not well-formed XML, or an
/// element failed event validation.
#[derive(Debug, PartialEq)]
pub enum ReaderError {
    /// The underlying parser's message, verbatim.
    XMLError(String),
    /// The wrapped construction failure.
    GraphEventError(FieldMissingError),
}

impl View for ReaderError {
    type V = ReaderErrorView;

    open spec fn view(&self) -> ReaderErrorView {
        match self {
            ReaderError::XMLError(msg) => ReaderErrorView::XMLError(msg@),
            ReaderError::GraphEventError(f) => ReaderErrorView::GraphEventError(f@),
        }
    }
}

impl From<FieldMissingError> for ReaderError {
    fn from(err: FieldMissingError) -> (r: ReaderError) {
        ReaderError::GraphEventError(err)
    }
}

impl vstd::std_specs::convert::FromSpecImpl<FieldMissingError> for ReaderError {
    open spec fn obeys_from_spec() -> bool {
        true
    }

    open spec fn from_spec(err: FieldMissingError) -> ReaderError {
        ReaderError::GraphEventError(err)
    }
}

impl ReaderError {
    /// The stable description of this error layer: the parser's message for a
    /// syntax failure, a fixed line for a validation failure.
    pub fn description(&self) -> (r: String)
        ensures
            r@ == reader_description(self@),
    {
        match self {
            ReaderError::XMLError(desc) => desc.clone(),
            ReaderError::GraphEventError(_) => "encountered a validation error".to_owned(),
        }
    }

    /// The wrapped validation failure, if any: a syntax error has no cause.
    pub fn cause(&self) -> (r: Option<&FieldMissingError>)
        ensures
            match self@ {
                ReaderErrorView::GraphEventError(f) => r matches Some(c) && c@ == f,
                ReaderErrorView::XMLError(_) => r is None,
            },
    {
        match self {
            ReaderError::GraphEventError(err) => Some(err),
            ReaderError::XMLError(_) => None,
        }
    }
}

/// What `ReaderError::description` returns for each failure.
pub open spec fn reader_description(e: ReaderErrorView) -> Seq<char> {
    match e {
        ReaderErrorView::XMLError(desc) => desc,
        ReaderErrorView::GraphEventError(_) => "encountered a validation error"@,
    }
}

/// The start elements that the XML parser finds in the given bytes, in
/// document order, together with the message of the well-formedness error
/// that ended the scan, if one did.  A parse failure ends the stream, so
/// every listed element precedes the error in the document.
pub uninterp spec fn xml_scan_of(input: Seq<u8>) -> (
    Seq<(Seq<char>, Seq<(Seq<char>, Seq<char>)>)>,
    Option<Seq<char>>,
);

/// Relies on xml's `EventReader`: iterated to completion it yields the
/// document's parse events in order, each start element carrying its name and
/// attribute list; a well-formedness failure is yielded once, rendered as
/// `line:column message`, and ends the iteration.
#[verifier::external_body]
fn scan_xml(input: &[u8]) -> (r: (Vec<(String, Vec<(String, String)>)>, Option<String>))
    ensures
        r.deep_view() == xml_scan_of(input@),
{
    let mut starts = Vec::new();
    let mut error = None;
    for event in xml::reader::EventReader::new(input) {
        match event {
            Ok(xml::reader::XmlEvent::StartElement { name, attributes, .. }) => {
                let attrs = attributes.into_iter().map(|a| (a.name.local_name, a.value)).collect();
                starts.push((name.local_name, attrs));
            },
            Ok(_) => {},
            Err(e) => error = Some(e.to_string()),
        }
    }
    (starts, error)
}

/// Whether two string slices hold the same characters.
pub fn str_eq(a: &str, b: &str) -> (r: bool)
    ensures
        r == (a@ == b@),
{
    let a_len = a.unicode_len();
    let b_len = b.unicode_len();
    if a_len != b_len {
        return false;
    }
    let mut i: usize = 0;
    while i < a_len
        invariant
            i <= a_len,
            a_len == a@.len(),
            a_len == b@.len(),
            forall|j: int| 0 <= j < i ==> a@[j] == b@[j],
        decreases a_len - i,
    {
        if a.get_char(i) != b.get_char(i) {
            return false;
        }
        i += 1;
    }
    proof {
        assert(a@ =~= b@);
    }
    true
}

/// The value of the last attribute whose local name matches `key`, if any:
/// a linear scan where the last occurrence wins.
pub open spec fn attr_lookup(attrs: Seq<(Seq<char>, Seq<char>)>, key: Seq<char>) -> Option<
    Seq<char>,
>
    decreases attrs.len(),
{
    if attrs.len() == 0 {
        None
    } else if attrs.last().0 == key {
        Some(attrs.last().1)
    } else {
        attr_lookup(attrs.drop_last(), key)
    }
}

/// Looks up `val` among the attributes; on duplicates the last match wins.
pub fn get_value_from_attrs(val: &str, attrs: &Vec<(String, String)>) -> (r: Option<String>)
    ensures
        r.deep_view() == attr_lookup(attrs.deep_view(), val@),
{
    let mut ret: Option<String> = None;
    let mut i: usize = 0;
    while i < attrs.len()
        invariant
            i <= attrs.len(),
            ret.deep_view() == attr_lookup(attrs.deep_view().take(i as int), val@),
        decreases attrs.len() - i,
    {
        proof {
            assert(attrs.deep_view().take(i + 1).drop_last() =~= attrs.deep_view().take(i as int));
            assert(attrs.deep_view().take(i + 1).last() == attrs.deep_view()[i as int]);
        }
        if str_eq(attrs[i].0.as_str(), val) {
            ret = Some(attrs[i].1.clone());
        }
        i += 1;
    }
    proof {
        assert(attrs.deep_view().take(attrs.len() as int) =~= attrs.deep_view());
    }
    ret
}

/// What one start element contributes to the scan: a validated event, a
/// validation failure, or nothing when the element is not recognized.
pub open spec fn element_action(e: StartView) -> Option<
    Result<GraphEventView, FieldMissingErrorView>,
> {
    if e.0 == "node"@ {
        Some(new_node_spec(attr_lookup(e.1, "id"@)))
    } else if e.0 == "edge"@ {
        Some(
            new_edge_spec(
                attr_lookup(e.1, "id"@),
                attr_lookup(e.1, "source"@),
                attr_lookup(e.1, "target"@),
                None,
            ),
        )
    } else {
        None
    }
}

/// The events collected from the start elements in document order, or the
/// first validation failure: fail-fast, never a partial sequence.
pub open spec fn scan_spec(elems: Seq<StartView>) -> Result<
    Seq<GraphEventView>,
    FieldMissingErrorView,
>
    decreases elems.len(),
{
    if elems.len() == 0 {
        Ok(Seq::empty())
    } else {
        match scan_spec(elems.drop_last()) {
            Err(f) => Err(f),
            Ok(evs) => match element_action(elems.last()) {
                None => Ok(evs),
                Some(Ok(ev)) => Ok(evs.push(ev)),
                Some(Err(f)) => Err(f),
            },
        }
    }
}

/// The reader's outcome over the parser's findings: the first validation
/// failure wins; otherwise a parse failure is reported with its message;
/// otherwise all collected events.
pub open spec fn read_spec(starts: Seq<StartView>, xml_err: Option<Seq<char>>) -> Result<
    Seq<GraphEventView>,
    ReaderErrorView,
> {
    match scan_spec(starts) {
        Err(f) => Err(ReaderErrorView::GraphEventError(f)),
        Ok(evs) => match xml_err {
            Some(msg) => Err(ReaderErrorView::XMLError(msg)),
            None => Ok(evs),
        },
    }
}

/// The view of the reader's result.
pub open spec fn reader_result_view(r: Result<Vec<GraphEvent>, ReaderError>) -> Result<
    Seq<GraphEventView>,
    ReaderErrorView,
> {
    match r {
        Ok(v) => Ok(v.deep_view()),
        Err(e) => Err(e@),
    }
}

/// An element that fails validation aborts the whole scan with its error,
/// whatever stands before or after it.
pub proof fn lemma_scan_fail_fast(elems: Seq<StartView>, k: int, f: FieldMissingErrorView)
    requires
        0 <= k < elems.len(),
        scan_spec(elems.take(k)) is Ok,
        element_action(elems[k]) == Some(Err::<GraphEventView, FieldMissingErrorView>(f)),
    ensures
        scan_spec(elems) == Err::<Seq<GraphEventView>, FieldMissingErrorView>(f),
    decreases elems.len(),
{
    if elems.len() == k + 1 {
        assert(elems.drop_last() =~= elems.take(k));
    } else {
        assert(elems.drop_last().take(k) =~= elems.take(k));
        lemma_scan_fail_fast(elems.drop_last(), k, f);
    }
}

/// A `node` element that lacks an `id` attribute aborts the scan with the
/// node validation error carrying no value, provided every element before it
/// scanned cleanly — events from elements before or after it are all
/// discarded, whatever the parser reported at the end.
pub proof fn lemma_node_missing_id_fails(elems: Seq<StartView>, k: int)
    requires
        0 <= k < elems.len(),
        scan_spec(elems.take(k)) is Ok,
        elems[k].0 == "node"@,
        attr_lookup(elems[k].1, "id"@) is None,
    ensures
        forall|xml_err: Option<Seq<char>>|
            read_spec(elems, xml_err) == Err::<Seq<GraphEventView>, ReaderErrorView>(
                ReaderErrorView::GraphEventError(FieldMissingErrorView::NodeError(None)),
            ),
{
    lemma_scan_fail_fast(elems, k, FieldMissingErrorView::NodeError(None));
}

/// An `edge` element missing any of `id`, `source`, `target` aborts the scan
/// with a validation error echoing back exactly which of the three were
/// present and which were absent, provided every element before it scanned
/// cleanly.
pub proof fn lemma_edge_missing_field_fails(elems: Seq<StartView>, k: int)
    requires
        0 <= k < elems.len(),
        scan_spec(elems.take(k)) is Ok,
        elems[k].0 == "edge"@,
        attr_lookup(elems[k].1, "id"@) is None || attr_lookup(elems[k].1, "source"@) is None
            || attr_lookup(elems[k].1, "target"@) is None,
    ensures
        scan_spec(elems) == Err::<Seq<GraphEventView>, FieldMissingErrorView>(
            FieldMissingErrorView::EdgeError(
                attr_lookup(elems[k].1, "id"@),
                attr_lookup(elems[k].1, "source"@),
                attr_lookup(elems[k].1, "target"@),
            ),
        ),
{
    reveal_strlit("node");
    reveal_strlit("edge");
    assert("node"@[0] != "edge"@[0]);
    assert("node"@ != "edge"@);
    lemma_scan_fail_fast(
        elems,
        k,
        FieldMissingErrorView::EdgeError(
            attr_lookup(elems[k].1, "id"@),
            attr_lookup(elems[k].1, "source"@),
            attr_lookup(elems[k].1, "target"@),
        ),
    );
}

/// When the parser reports a well-formedness failure and no element before it
/// failed validation, the reader returns the syntax error carrying the
/// parser's message, and keeps no events.
pub proof fn lemma_syntax_error_keeps_no_events(starts: Seq<StartView>, msg: Seq<char>)
    requires
        scan_spec(starts) is Ok,
    ensures
        read_spec(starts, Some(msg)) == Err::<Seq<GraphEventView>, ReaderErrorView>(
            ReaderErrorView::XMLError(msg),
        ),
{
}

/// A document none of whose elements is a `node` or an `edge` yields the
/// empty event sequence, and — when the parser reported no failure — no
/// error: absence of recognized elements is not a validation failure.
pub proof fn lemma_unrecognized_elements_yield_nothing(elems: Seq<StartView>)
    requires
        forall|i: int| 0 <= i < elems.len() ==> elems[i].0 != "node"@ && elems[i].0 != "edge"@,
    ensures
        scan_spec(elems) == Ok::<Seq<GraphEventView>, FieldMissingErrorView>(Seq::empty()),
        read_spec(elems, None) == Ok::<Seq<GraphEventView>, ReaderErrorView>(Seq::empty()),
    decreases elems.len(),
{
    if elems.len() > 0 {
        assert(forall|i: int|
            0 <= i < elems.drop_last().len() ==> elems.drop_last()[i].0 != "node"@
                && elems.drop_last()[i].0 != "edge"@);
        lemma_unrecognized_elements_yield_nothing(elems.drop_last());
    }
}

/// Translates the parser's findings into the reader's outcome: scans the
/// start elements in document order, validating `node` and `edge` elements
/// and ignoring all others, aborting at the first failure.
pub fn scan_elements(
    elems: &Vec<(String, Vec<(String, String)>)>,
    xml_err: Option<String>,
) -> (r: Result<Vec<GraphEvent>, ReaderError>)
    ensures
        reader_result_view(r) == read_spec(elems.deep_view(), xml_err.deep_view()),
{
    let mut events: Vec<GraphEvent> = Vec::new();
    let mut i: usize = 0;
    proof {
        assert(elems.deep_view().take(0) =~= Seq::<StartView>::empty());
        assert(events.deep_view() =~= Seq::<GraphEventView>::empty());
    }
    while i < elems.len()
        invariant
            i <= elems.len(),
            scan_spec(elems.deep_view().take(i as int)) == Ok::<_, FieldMissingErrorView>(
                events.deep_view(),
            ),
        decreases elems.len() - i,
    {
        proof {
            assert(elems.deep_view().take(i + 1).drop_last() =~= elems.deep_view().take(i as int));
            assert(elems.deep_view().take(i + 1).last() == elems.deep_view()[i as int]);
        }
        let ghost pre_events = events.deep_view();
        let elem = &elems[i];
        if str_eq(elem.0.as_str(), "node") {
            let node = GraphEvent::new_node(get_value_from_attrs("id", &elem.1));
            match node {
                Ok(node) => {
                    events.push(node);
                    proof {
                        assert(events.deep_view() =~= pre_events.push(node@));
                    }
                },
                Err(err) => {
                    proof {
                        lemma_scan_fail_fast(elems.deep_view(), i as int, err@);
                    }
                    return Err(ReaderError::from(err));
                },
            }
        } else if str_eq(elem.0.as_str(), "edge") {
            let edge = GraphEvent::new_edge(
                get_value_from_attrs("id", &elem.1),
                get_value_from_attrs("source", &elem.1),
                get_value_from_attrs("target", &elem.1),
                None,
            );
            match edge {
                Ok(edge) => {
                    events.push(edge);
                    proof {
                        assert(events.deep_view() =~= pre_events.push(edge@));
                    }
                },
                Err(err) => {
                    proof {
                        lemma_scan_fail_fast(elems.deep_view(), i as int, err@);
                    }
                    return Err(ReaderError::from(err));
                },
            }
        }
        i += 1;
    }
    proof {
        assert(elems.deep_view().take(elems.len() as int) =~= elems.deep_view());
    }
    match xml_err {
        Some(msg) => Err(ReaderError::XMLError(msg)),
        None => Ok(events),
    }
}

/// Reads a GraphML document: either the complete ordered sequence of graph
/// events, or the first error — a validation failure of some element, else
/// the parser's own complaint.  Never a partial sequence.
pub fn graphml_reader(input: &[u8]) -> (r: Result<Vec<GraphEvent>, ReaderError>)
    ensures
        reader_result_view(r) == read_spec(xml_scan_of(input@).0, xml_scan_of(input@).1),
{
    let (elems, err) = scan_xml(input);
    proof {
        assert(elems.deep_view() == xml_scan_of(input@).0);
        assert(err.deep_view() == xml_scan_of(input@).1);
    }
    scan_elements(&elems, err)
}

} // verus!
