//! The text of the chat screen: the header, the transcript laid out in
//! rows, the scrolling limits and the input box.

use vstd::prelude::*;
use crate::app::{Line, LineView, line_views};
use crate::seqs::lemma_map_push;
use crate::text::{lines, owned, push_char, push_decimal, push_str, split_lines, views, decimal};

verus! {

/// How a row of the transcript is drawn.
#[derive(Debug, PartialEq, Eq, Structural, Clone, Copy)]
pub enum RowStyle {
    /// The `you` label, bold cyan.
    UserLabel,
    /// The `agent` label, bold magenta.
    AgentLabel,
    /// A line of a message, plain.
    Body,
    /// Tool activity, dark gray italic.
    Tool,
    /// An error, red.
    Error,
    /// A status line, dim blue.
    System,
    /// The empty row after each entry.
    Separator,
}

/// One row of the transcript.
#[derive(Debug)]
pub struct Row {
    pub style: RowStyle,
    pub text: String,
}

/// A row as plain data.
pub struct RowView {
    pub style: RowStyle,
    pub text: Seq<char>,
}

impl View for Row {
    type V = RowView;

    open spec fn view(&self) -> RowView {
        RowView { style: self.style, text: self.text@ }
    }
}

/// The views of a list of rows.
pub open spec fn row_views(v: Seq<Row>) -> Seq<RowView> {
    v.map_values(|r: Row| r@)
}

/// The rows of a message's text: each of its lines, indented by two spaces.
pub open spec fn body_rows(text: Seq<char>) -> Seq<RowView> {
    lines(text).map_values(|l: Seq<char>| RowView { style: RowStyle::Body, text: "  "@ + l })
}

/// The rows of one transcript entry, followed by an empty row.
pub open spec fn entry_rows(line: LineView) -> Seq<RowView> {
    let rows = match line {
        LineView::User(t) => seq![RowView { style: RowStyle::UserLabel, text: "you  "@ }]
            + body_rows(t),
        LineView::Assistant(t) => seq![RowView { style: RowStyle::AgentLabel, text: "agent"@ }]
            + body_rows(t),
        LineView::Tool(t) => seq![RowView { style: RowStyle::Tool, text: "  "@ + t }],
        LineView::Error(t) => seq![RowView { style: RowStyle::Error, text: "  error: "@ + t }],
        LineView::System(t) => seq![RowView { style: RowStyle::System, text: "  "@ + t }],
    };
    rows.push(RowView { style: RowStyle::Separator, text: seq![] })
}

/// The rows of the first `n` entries of a transcript.
pub open spec fn transcript_rows_upto(t: Seq<LineView>, n: int) -> Seq<RowView>
    decreases n,
{
    if n <= 0 {
        seq![]
    } else {
        transcript_rows_upto(t, n - 1) + entry_rows(t[n - 1])
    }
}

/// The rows of a whole transcript.
pub open spec fn transcript_rows_of(t: Seq<LineView>) -> Seq<RowView> {
    transcript_rows_upto(t, t.len() as int)
}

fn push_row(rows: &mut Vec<Row>, style: RowStyle, text: String)
    ensures
        row_views(final(rows)@) == row_views(old(rows)@).push(RowView { style, text: text@ }),
{
    let row = Row { style, text };
    let ghost before = rows@;
    rows.push(row);
    proof {
        lemma_map_push(before, row, |r: Row| r@);
    }
}

fn push_indented(rows: &mut Vec<Row>, style: RowStyle, prefix: &str, text: &str)
    ensures
        row_views(final(rows)@) == row_views(old(rows)@).push(
            RowView { style, text: prefix@ + text@ },
        ),
{
    let mut t = owned(prefix);
    push_str(&mut t, text);
    push_row(rows, style, t);
}

fn push_body_rows(rows: &mut Vec<Row>, text: &str)
    ensures
        row_views(final(rows)@) == row_views(old(rows)@) + body_rows(text@),
{
    let ls = split_lines(text);
    let ghost start = row_views(rows@);
    let ghost lv = views(ls@);
    let ghost f = |l: Seq<char>| RowView { style: RowStyle::Body, text: "  "@ + l };
    let mut i: usize = 0;
    while i < ls.len()
        invariant
            i <= ls.len(),
            lv == views(ls@),
            lv == lines(text@),
            f == (|l: Seq<char>| RowView { style: RowStyle::Body, text: "  "@ + l }),
            row_views(rows@) == start + lv.subrange(0, i as int).map_values(f),
        decreases ls.len() - i,
    {
        assert(lv[i as int] == ls@[i as int]@);
        push_indented(rows, RowStyle::Body, "  ", ls[i].as_str());
        proof {
            assert(lv.subrange(0, i + 1) == lv.subrange(0, i as int).push(lv[i as int]));
            lemma_map_push(lv.subrange(0, i as int), lv[i as int], f);
        }
        i = i + 1;
    }
    assert(lv.subrange(0, lv.len() as int) == lv);
}

/// The rows of a transcript: for each entry, a `you` or `agent` label and
/// the lines of the message, or a single tool, error or status row; then an
/// empty row.
pub fn transcript_rows(transcript: &Vec<Line>) -> (r: Vec<Row>)
    ensures
        row_views(r@) == transcript_rows_of(line_views(transcript@)),
{
    let ghost tv = line_views(transcript@);
    let mut rows: Vec<Row> = Vec::new();
    assert(row_views(rows@) =~= seq![]);
    let mut i: usize = 0;
    while i < transcript.len()
        invariant
            i <= transcript.len(),
            tv == line_views(transcript@),
            row_views(rows@) == transcript_rows_upto(tv, i as int),
        decreases transcript.len() - i,
    {
        let ghost before = row_views(rows@);
        assert(tv[i as int] == transcript@[i as int]@);
        match &transcript[i] {
            Line::User(t) => {
                push_row(&mut rows, RowStyle::UserLabel, owned("you  "));
                push_body_rows(&mut rows, t.as_str());
            },
            Line::Assistant(t) => {
                push_row(&mut rows, RowStyle::AgentLabel, owned("agent"));
                push_body_rows(&mut rows, t.as_str());
            },
            Line::Tool(t) => {
                push_indented(&mut rows, RowStyle::Tool, "  ", t.as_str());
            },
            Line::Error(t) => {
                push_indented(&mut rows, RowStyle::Error, "  error: ", t.as_str());
            },
            Line::System(t) => {
                push_indented(&mut rows, RowStyle::System, "  ", t.as_str());
            },
        }
        push_row(&mut rows, RowStyle::Separator, String::new());
        assert(row_views(rows@) =~= before + entry_rows(tv[i as int]));
        i = i + 1;
    }
    rows
}

/// The width available inside the bordered transcript box: two columns
/// less than the box, at least one.
pub fn inner_width(width: u16) -> (r: u16)
    ensures
        r == if width >= 3 {
            width - 2
        } else {
            1
        },
{
    let w = width.saturating_sub(2);
    if w < 1 {
        1
    } else {
        w
    }
}

/// The scroll offset actually shown: the one asked for, but never past the
/// point where the last of `total` wrapped rows reaches the bottom of a box
/// `height` rows high, two of them borders.
pub fn clamp_scroll(scroll: u16, total: usize, height: u16) -> (r: u16)
    ensures
        r == clamped_scroll(scroll, total, height),
{
    let viewport = height.saturating_sub(2);
    let max_scroll = total.saturating_sub(viewport as usize);
    if (scroll as usize) > max_scroll {
        max_scroll as u16
    } else {
        scroll
    }
}

/// The number of rows that ratatui's `Paragraph::line_count` gives for a
/// paragraph of these lines, wrapped without trimming at `width` columns,
/// in a block bordered all round with this title: the wrapped rows plus the
/// block's top and bottom rows.
pub uninterp spec fn bordered_line_count(lines: Seq<Seq<char>>, title: Seq<char>, width: u16) -> usize;

/// The texts of a list of rows.
pub open spec fn row_texts(rows: Seq<Row>) -> Seq<Seq<char>> {
    rows.map_values(|r: Row| r.text@)
}

/// How many rows the transcript box needs. Trusted: builds a ratatui
/// `Paragraph` of the rows' texts, wrapped without trimming, in a block
/// bordered all round with `title`, and calls `Paragraph::line_count`; the
/// contract only names its result, a function of the texts, the title and
/// the width.
#[verifier::external_body]
fn rendered_rows(rows: &Vec<Row>, title: &str, width: u16) -> (n: usize)
    ensures
        n == bordered_line_count(row_texts(rows@), title@, width),
{
    let lines: Vec<ratatui::text::Line> = rows.iter().map(
        |r| ratatui::text::Line::from(ratatui::text::Span::raw(r.text.as_str())),
    ).collect();
    ratatui::widgets::Paragraph::new(lines)
        .block(ratatui::widgets::Block::default().borders(ratatui::widgets::Borders::ALL).title(title))
        .wrap(ratatui::widgets::Wrap { trim: false })
        .line_count(width)
}

/// The scroll offset shown for a transcript in a box `width` columns wide
/// and `height` rows high, when `scroll` is asked for: clamped so that the
/// last row is never scrolled past the bottom.
pub open spec fn history_scroll_of(
    transcript: Seq<LineView>,
    scroll: u16,
    width: u16,
    height: u16,
) -> int {
    let total = bordered_line_count(
        transcript_rows_of(transcript).map_values(|r: RowView| r.text),
        " Conversation "@,
        if width >= 3 {
            (width - 2) as u16
        } else {
            1
        },
    );
    clamped_scroll(scroll, total, height)
}

/// The scroll offset `clamp_scroll` gives: the smaller of the offset asked
/// for and the last one that still fills the box.
pub open spec fn clamped_scroll(scroll: u16, total: usize, height: u16) -> int {
    let viewport = if height >= 2 {
        height - 2
    } else {
        0
    };
    let max = if total >= viewport {
        total - viewport
    } else {
        0
    };
    if scroll > max {
        max
    } else {
        scroll as int
    }
}

/// The scroll offset shown for the transcript: the rows it is laid out in
/// are counted as ratatui wraps them, and the asked-for offset is clamped.
pub fn history_scroll(transcript: &Vec<Line>, scroll: u16, width: u16, height: u16) -> (r: u16)
    ensures
        r == history_scroll_of(line_views(transcript@), scroll, width, height),
{
    let rows = transcript_rows(transcript);
    let total = rendered_rows(&rows, conversation_title(), inner_width(width));
    assert(row_texts(rows@) =~= transcript_rows_of(line_views(transcript@)).map_values(
        |r: RowView| r.text,
    ));
    clamp_scroll(scroll, total, height)
}

/// The header's title.
pub fn header_title() -> (r: &'static str)
    ensures
        r@ == " Codey AI Agent "@,
{
    " Codey AI Agent "
}

/// The header's count of the tools the model is offered, with the
/// separators before it and before the status.
pub fn header_tools(tool_count: usize) -> (r: String)
    ensures
        r@ == "· "@ + decimal(tool_count as nat) + " tool(s) · "@,
{
    let mut r = owned("· ");
    push_decimal(&mut r, tool_count as u64);
    push_str(&mut r, " tool(s) · ");
    r
}

/// The header line as read: title, tool count and status.
pub open spec fn header_line(tool_count: usize, processing: bool) -> Seq<char> {
    " Codey AI Agent "@ + "· "@ + decimal(tool_count as nat) + " tool(s) · "@ + if processing {
        " thinking... "@
    } else {
        "  ready  "@
    }
}

/// The header line as read: ` Codey AI Agent · <n> tool(s) · ` followed by
/// the status.
pub fn header_text(tool_count: usize, processing: bool) -> (r: String)
    ensures
        r@ == header_line(tool_count, processing),
{
    let mut r = owned(header_title());
    let tools = header_tools(tool_count);
    push_str(&mut r, tools.as_str());
    push_str(&mut r, header_status(processing));
    r
}

/// The header's status: busy while a turn runs, ready otherwise.
pub fn header_status(processing: bool) -> (r: &'static str)
    ensures
        r@ == if processing {
            " thinking... "@
        } else {
            "  ready  "@
        },
{
    if processing {
        " thinking... "
    } else {
        "  ready  "
    }
}

/// The title of the transcript box.
pub fn conversation_title() -> (r: &'static str)
    ensures
        r@ == " Conversation "@,
{
    " Conversation "
}

/// The title of the input box: it says to wait while a turn runs.
pub fn input_title(processing: bool) -> (r: &'static str)
    ensures
        r@ == if processing {
            " Message (waiting for agent...) "@
        } else {
            " Message (Enter to send, Esc to quit) "@
        },
{
    if processing {
        " Message (waiting for agent...) "
    } else {
        " Message (Enter to send, Esc to quit) "
    }
}

/// The input box's text: the input followed by the cursor `▏`.
pub fn input_text(input: &str) -> (r: String)
    ensures
        r@ == input@.push('\u{258f}'),
{
    let mut r = owned(input);
    push_char(&mut r, '\u{258f}');
    r
}

} // verus!
