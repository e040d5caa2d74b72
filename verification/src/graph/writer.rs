//! MatrixMarket writer: an event sequence in, the file's text out.
//!
//! The file is built in a single forward pass.  The dimension header is only
//! known after the whole sequence has been consumed, so a fixed-width
//! placeholder is written first and overwritten at the end — the in-memory
//! equivalent of seeking back in the sink.

use vstd::prelude::*;
use vstd::string::{StrSliceExecFns, StringExecFns};
use crate::graph::{GraphEvent, GraphEventView};

verus! {

/// Width in characters of the placeholder reserved for the dimension header.
pub const DUMMY_HEADER_WIDTH: usize = 10;

/// The fixed first line of every file, without its line terminator.
pub open spec fn file_header() -> Seq<char> {
    "%%MatrixMarket matrix coordinate real general"@
}

/// A line terminator.
pub open spec fn newline() -> Seq<char> {
    "\n"@
}

/// A run of `n` filler spaces.
pub open spec fn spaces(n: nat) -> Seq<char> {
    Seq::new(n, |i: int| ' ')
}

/// The character of a single decimal digit.
pub open spec fn dec_digit(d: nat) -> char {
    if d == 0 {
        '0'
    } else if d == 1 {
        '1'
    } else if d == 2 {
        '2'
    } else if d == 3 {
        '3'
    } else if d == 4 {
        '4'
    } else if d == 5 {
        '5'
    } else if d == 6 {
        '6'
    } else if d == 7 {
        '7'
    } else if d == 8 {
        '8'
    } else {
        '9'
    }
}

/// The decimal rendering of `n`, without sign or leading zeros.
pub open spec fn dec_str(n: nat) -> Seq<char>
    decreases n,
{
    if n < 10 {
        seq![dec_digit(n)]
    } else {
        dec_str(n / 10).push(dec_digit(n % 10))
    }
}

/// The dimension header text `<rows> <cols> <entries>`.
pub open spec fn dim_header(rows: nat, columns: nat, entries: nat) -> Seq<char> {
    dec_str(rows) + " "@ + dec_str(columns) + " "@ + dec_str(entries)
}

/// The line emitted for one edge: its raw endpoint identifiers and the fixed
/// unit weight.
pub open spec fn edge_line(source: Seq<char>, target: Seq<char>) -> Seq<char> {
    source + " "@ + target + " 1.0"@ + newline()
}

/// The edge lines of the event sequence, in document order; nodes emit
/// nothing.
pub open spec fn body_lines(events: Seq<GraphEventView>) -> Seq<char>
    decreases events.len(),
{
    if events.len() == 0 {
        Seq::empty()
    } else {
        body_lines(events.drop_last()) + match events.last() {
            GraphEventView::Edge { source, target, .. } => edge_line(source, target),
            GraphEventView::Node { .. } => Seq::empty(),
        }
    }
}

/// How many node events the sequence holds.
pub open spec fn node_count(events: Seq<GraphEventView>) -> nat
    decreases events.len(),
{
    if events.len() == 0 {
        0
    } else {
        node_count(events.drop_last()) + match events.last() {
            GraphEventView::Node { .. } => 1nat,
            GraphEventView::Edge { .. } => 0nat,
        }
    }
}

/// How many edge events the sequence holds.
pub open spec fn edge_count(events: Seq<GraphEventView>) -> nat
    decreases events.len(),
{
    if events.len() == 0 {
        0
    } else {
        edge_count(events.drop_last()) + match events.last() {
            GraphEventView::Edge { .. } => 1nat,
            GraphEventView::Node { .. } => 0nat,
        }
    }
}

/// `buf` with `text` written over it starting at `at`: bytes past the end of
/// `buf` extend it.  This is what overwriting at a seek position does.
pub open spec fn patch(buf: Seq<char>, at: int, text: Seq<char>) -> Seq<char>
    recommends
        0 <= at <= buf.len(),
{
    if at + text.len() <= buf.len() {
        buf.subrange(0, at) + text + buf.subrange(at + text.len(), buf.len() as int)
    } else {
        buf.subrange(0, at) + text
    }
}

/// The whole file text for the given event sequence: the fixed header line, a
/// placeholder line of filler spaces, one line per edge in document order —
/// and then the dimension header, with the node count on both axes, written
/// over the placeholder.
pub open spec fn mm_spec(events: Seq<GraphEventView>) -> Seq<char> {
    let pre = file_header() + newline() + spaces(DUMMY_HEADER_WIDTH as nat) + newline()
        + body_lines(events);
    patch(
        pre,
        file_header().len() + 1 as int,
        dim_header(node_count(events), node_count(events), edge_count(events)),
    )
}

/// Appends a line terminator.
pub fn write_line_end(writer: &mut String)
    ensures
        final(writer)@ == old(writer)@ + newline(),
{
    writer.append("\n");
}

/// Appends `line` and a line terminator.
pub fn writeln(writer: &mut String, line: &str)
    ensures
        final(writer)@ == old(writer)@ + line@ + newline(),
{
    writer.append(line);
    write_line_end(writer);
    proof {
        assert(writer@ =~= old(writer)@ + line@ + newline());
    }
}

/// Appends the fixed first line of the file.
pub fn writeln_file_header(writer: &mut String)
    ensures
        final(writer)@ == old(writer)@ + file_header() + newline(),
{
    writeln(writer, "%%MatrixMarket matrix coordinate real general");
}

/// Appends the placeholder: `size` filler spaces and a line terminator.
pub fn writeln_dummy_header(writer: &mut String, size: usize)
    ensures
        final(writer)@ == old(writer)@ + spaces(size as nat) + newline(),
{
    let mut j: usize = 0;
    proof {
        assert(writer@ =~= old(writer)@ + spaces(0));
    }
    while j < size
        invariant
            j <= size,
            writer@ == old(writer)@ + spaces(j as nat),
        decreases size - j,
    {
        writer.append(" ");
        proof {
            reveal_strlit(" ");
            assert(writer@ =~= old(writer)@ + spaces((j + 1) as nat));
        }
        j += 1;
    }
    write_line_end(writer);
}

/// Appends the character of the decimal digit `d`.
fn append_digit(out: &mut String, d: usize)
    requires
        d < 10,
    ensures
        final(out)@ == old(out)@.push(dec_digit(d as nat)),
{
    let text: &str = if d == 0 {
        "0"
    } else if d == 1 {
        "1"
    } else if d == 2 {
        "2"
    } else if d == 3 {
        "3"
    } else if d == 4 {
        "4"
    } else if d == 5 {
        "5"
    } else if d == 6 {
        "6"
    } else if d == 7 {
        "7"
    } else if d == 8 {
        "8"
    } else {
        "9"
    };
    proof {
        reveal_strlit("0");
        reveal_strlit("1");
        reveal_strlit("2");
        reveal_strlit("3");
        reveal_strlit("4");
        reveal_strlit("5");
        reveal_strlit("6");
        reveal_strlit("7");
        reveal_strlit("8");
        reveal_strlit("9");
        assert(text@ =~= seq![dec_digit(d as nat)]);
    }
    out.append(text);
    proof {
        assert(out@ =~= old(out)@.push(dec_digit(d as nat)));
    }
}

/// The digit characters of `ds`, last element first.
spec fn rev_digit_chars(ds: Seq<usize>) -> Seq<char>
    decreases ds.len(),
{
    if ds.len() == 0 {
        Seq::empty()
    } else {
        seq![dec_digit(ds.last() as nat)] + rev_digit_chars(ds.drop_last())
    }
}

/// Renders `n` in decimal.
pub fn usize_to_string(n: usize) -> (r: String)
    ensures
        r@ == dec_str(n as nat),
{
    let mut digits: Vec<usize> = Vec::new();
    let mut m: usize = n;
    proof {
        assert(rev_digit_chars(digits@) =~= Seq::<char>::empty());
        assert(dec_str(n as nat) =~= dec_str(n as nat) + rev_digit_chars(digits@));
    }
    while m >= 10
        invariant
            forall|j: int| 0 <= j < digits@.len() ==> digits@[j] < 10,
            dec_str(n as nat) == dec_str(m as nat) + rev_digit_chars(digits@),
        decreases m,
    {
        let ghost pre = digits@;
        let d = m % 10;
        digits.push(d);
        proof {
            assert(digits@.drop_last() =~= pre);
            assert(rev_digit_chars(digits@) =~= seq![dec_digit(d as nat)] + rev_digit_chars(pre));
            assert(dec_str(m as nat) == dec_str((m / 10) as nat).push(dec_digit(d as nat)));
            assert(dec_str((m / 10) as nat) + rev_digit_chars(digits@) =~= dec_str(m as nat)
                + rev_digit_chars(pre));
        }
        m = m / 10;
    }
    let ghost pre = digits@;
    digits.push(m);
    proof {
        assert(digits@.drop_last() =~= pre);
        assert(rev_digit_chars(digits@) =~= seq![dec_digit(m as nat)] + rev_digit_chars(pre));
        assert(dec_str(m as nat) =~= seq![dec_digit(m as nat)]);
        assert(dec_str(n as nat) =~= rev_digit_chars(digits@));
    }
    let mut r = String::new();
    let mut k: usize = digits.len();
    proof {
        assert(digits@.take(k as int) =~= digits@);
        assert(r@ + rev_digit_chars(digits@.take(k as int)) =~= dec_str(n as nat));
    }
    while k > 0
        invariant
            k <= digits@.len(),
            forall|j: int| 0 <= j < digits@.len() ==> digits@[j] < 10,
            r@ + rev_digit_chars(digits@.take(k as int)) == dec_str(n as nat),
        decreases k,
    {
        proof {
            assert(digits@.take(k as int).drop_last() =~= digits@.take(k - 1));
            assert(digits@.take(k as int).last() == digits@[k - 1]);
        }
        append_digit(&mut r, digits[k - 1]);
        k -= 1;
        proof {
            assert(r@ + rev_digit_chars(digits@.take(k as int)) =~= dec_str(n as nat));
        }
    }
    proof {
        assert(digits@.take(0) =~= Seq::<usize>::empty());
        assert(r@ =~= dec_str(n as nat));
    }
    r
}

/// Writes the dimension header over the buffer at position `at`, as seeking
/// there and writing would: following characters are untouched unless the
/// header runs past the buffer's end.
pub fn write_header(writer: &mut String, at: usize, rows: usize, columns: usize, entries: usize)
    requires
        at <= old(writer)@.len(),
    ensures
        final(writer)@ == patch(
            old(writer)@,
            at as int,
            dim_header(rows as nat, columns as nat, entries as nat),
        ),
{
    let mut text = usize_to_string(rows);
    text.append(" ");
    let columns_text = usize_to_string(columns);
    text.append(columns_text.as_str());
    text.append(" ");
    let entries_text = usize_to_string(entries);
    text.append(entries_text.as_str());
    proof {
        assert(text@ =~= dim_header(rows as nat, columns as nat, entries as nat));
    }
    let n = writer.as_str().unicode_len();
    let text_len = text.as_str().unicode_len();
    let mut patched = writer.as_str().substring_char(0, at).to_owned();
    patched.append(text.as_str());
    if text_len <= n - at {
        let tail = writer.as_str().substring_char(at + text_len, n);
        patched.append(tail);
    }
    *writer = patched;
    proof {
        assert(writer@ =~= patch(
            old(writer)@,
            at as int,
            dim_header(rows as nat, columns as nat, entries as nat),
        ));
    }
}

/// Renders the event sequence as a MatrixMarket "coordinate real general"
/// file: one line per edge in document order, unit weights, and a dimension
/// header that uses the node count for both axes, written over the reserved
/// placeholder once the counts are known.
pub fn mm_writer(events: &Vec<GraphEvent>) -> (r: String)
    ensures
        r@ == mm_spec(events.deep_view()),
{
    let mut out = String::new();
    writeln_file_header(&mut out);
    let header_position = out.as_str().unicode_len();
    proof {
        reveal_strlit("\n");
        assert(header_position == file_header().len() + 1);
    }
    writeln_dummy_header(&mut out, DUMMY_HEADER_WIDTH);
    let mut entries: usize = 0;
    let mut nodes: usize = 0;
    let mut i: usize = 0;
    proof {
        assert(events.deep_view().take(0) =~= Seq::<GraphEventView>::empty());
        assert(out@ =~= file_header() + newline() + spaces(DUMMY_HEADER_WIDTH as nat) + newline()
            + body_lines(events.deep_view().take(0)));
    }
    while i < events.len()
        invariant
            i <= events.len(),
            nodes <= i,
            entries <= i,
            header_position == file_header().len() + 1,
            nodes == node_count(events.deep_view().take(i as int)),
            entries == edge_count(events.deep_view().take(i as int)),
            out@ == file_header() + newline() + spaces(DUMMY_HEADER_WIDTH as nat) + newline()
                + body_lines(events.deep_view().take(i as int)),
        decreases events.len() - i,
    {
        proof {
            assert(events.deep_view().take(i + 1).drop_last() =~= events.deep_view().take(i as int));
            assert(events.deep_view().take(i + 1).last() == events.deep_view()[i as int]);
        }
        match &events[i] {
            GraphEvent::Edge { id: _, source, target, attrs: _ } => {
                entries = entries + 1;
                let mut line = source.clone();
                line.append(" ");
                line.append(target.as_str());
                line.append(" 1.0");
                writeln(&mut out, line.as_str());
                proof {
                    assert(out@ =~= file_header() + newline() + spaces(DUMMY_HEADER_WIDTH as nat)
                        + newline() + body_lines(events.deep_view().take(i + 1)));
                }
            },
            GraphEvent::Node { id: _ } => {
                nodes = nodes + 1;
                proof {
                    assert(body_lines(events.deep_view().take(i + 1)) =~= body_lines(
                        events.deep_view().take(i as int),
                    ));
                }
            },
        }
        i += 1;
    }
    proof {
        assert(events.deep_view().take(events.len() as int) =~= events.deep_view());
    }
    write_header(&mut out, header_position, nodes, nodes, entries);
    out
}

/// With counts whose header fits the reserved width, the file reads: the
/// fixed first line; the dimension header `N N E` (node count on both axes)
/// padded with the placeholder's remaining spaces; then exactly the edge
/// lines, one per edge, in document order.
pub proof fn lemma_mm_layout(events: Seq<GraphEventView>)
    requires
        dim_header(node_count(events), node_count(events), edge_count(events)).len()
            <= DUMMY_HEADER_WIDTH,
    ensures
        mm_spec(events) == file_header() + newline() + dim_header(
            node_count(events),
            node_count(events),
            edge_count(events),
        ) + spaces(
            (DUMMY_HEADER_WIDTH - dim_header(
                node_count(events),
                node_count(events),
                edge_count(events),
            ).len()) as nat,
        ) + newline() + body_lines(events),
{
    reveal_strlit("\n");
    let text = dim_header(node_count(events), node_count(events), edge_count(events));
    let pre = file_header() + newline() + spaces(DUMMY_HEADER_WIDTH as nat) + newline()
        + body_lines(events);
    let at = file_header().len() + 1;
    assert(at + text.len() <= pre.len());
    assert(pre.subrange(0, at as int) =~= file_header() + newline());
    assert(pre.subrange(at + text.len() as int, pre.len() as int) =~= spaces(
        (DUMMY_HEADER_WIDTH - text.len()) as nat,
    ) + newline() + body_lines(events));
    assert(mm_spec(events) =~= file_header() + newline() + text + spaces(
        (DUMMY_HEADER_WIDTH - text.len()) as nat,
    ) + newline() + body_lines(events));
}

} // verus!
