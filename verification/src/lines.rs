//! Styled lines of text as plain data, field for field what a terminal library
//! draws.

use vstd::prelude::*;

verus! {

/// A colour of the terminal.
#[derive(Debug, Clone, Copy, PartialEq, Eq)]
pub enum Color {
    Reset,
    Black,
    Red,
    Green,
    Yellow,
    Blue,
    Magenta,
    Cyan,
    Gray,
    DarkGray,
    LightRed,
    LightGreen,
    LightYellow,
    LightBlue,
    LightMagenta,
    LightCyan,
    White,
    Rgb(u8, u8, u8),
    Indexed(u8),
}

/// Where a line stands in its area.
#[derive(Debug, Clone, Copy, PartialEq, Eq)]
pub enum Alignment {
    Left,
    Center,
    Right,
}

/// The modifier bit of bold text.
pub const BOLD: u16 = 1;

/// The modifier bit of dim text.
pub const DIM: u16 = 2;

/// The modifier bit of italic text.
pub const ITALIC: u16 = 4;

/// How text looks: colours, modifiers that it adds and modifiers that it takes
/// away.
#[derive(Debug, Clone, Copy, PartialEq, Eq)]
pub struct Style {
    pub fg: Option<Color>,
    pub bg: Option<Color>,
    pub underline_color: Option<Color>,
    pub add_modifier: u16,
    pub sub_modifier: u16,
}

/// Text in one style.
#[derive(Debug, PartialEq, Eq)]
pub struct Span {
    pub style: Style,
    pub content: String,
}

/// A line: spans one behind the other.
#[derive(Debug, PartialEq, Eq)]
pub struct Line {
    pub style: Style,
    pub alignment: Option<Alignment>,
    pub spans: Vec<Span>,
}

/// The mathematical view of a `Span`.
#[verifier::ext_equal]
pub struct SpanView {
    pub style: Style,
    pub content: Seq<char>,
}

/// The mathematical view of a `Line`.
#[verifier::ext_equal]
pub struct LineView {
    pub style: Style,
    pub alignment: Option<Alignment>,
    pub spans: Seq<SpanView>,
}

impl DeepView for Span {
    type V = SpanView;

    open spec fn deep_view(&self) -> SpanView {
        SpanView { style: self.style, content: self.content@ }
    }
}

impl DeepView for Line {
    type V = LineView;

    open spec fn deep_view(&self) -> LineView {
        LineView { style: self.style, alignment: self.alignment, spans: self.spans.deep_view() }
    }
}

/// The style with foreground `fg` and the modifiers `add`, and nothing else.
pub open spec fn look(fg: Option<Color>, add: u16) -> Style {
    Style { fg, bg: None, underline_color: None, add_modifier: add, sub_modifier: 0 }
}

/// `content` with foreground `fg` and the modifiers `add`.
pub open spec fn styled(content: Seq<char>, fg: Option<Color>, add: u16) -> SpanView {
    SpanView { style: look(fg, add), content }
}

/// `content` without any style.
pub open spec fn raw(content: Seq<char>) -> SpanView {
    styled(content, None, 0)
}

/// The line of `spans`, without a style or an alignment of its own.
pub open spec fn line_of(spans: Seq<SpanView>) -> LineView {
    LineView { style: look(None, 0), alignment: None, spans }
}

/// The empty line.
pub open spec fn blank() -> LineView {
    line_of(Seq::empty())
}

impl Span {
    /// `content` with foreground `fg` and the modifiers `add`.
    pub fn styled(content: &str, fg: Option<Color>, add: u16) -> (r: Span)
        ensures
            r.deep_view() == styled(content@, fg, add),
    {
        Span {
            style: Style { fg, bg: None, underline_color: None, add_modifier: add, sub_modifier: 0 },
            content: content.to_string(),
        }
    }

    /// `content` without any style.
    pub fn raw(content: &str) -> (r: Span)
        ensures
            r.deep_view() == raw(content@),
    {
        Span::styled(content, None, 0)
    }

    /// A span with the same text and style.
    pub fn duplicate(&self) -> (r: Span)
        ensures
            r.deep_view() == self.deep_view(),
    {
        Span { style: self.style, content: self.content.clone() }
    }
}

impl Line {
    /// The line of `spans`.
    pub fn of(spans: Vec<Span>) -> (r: Line)
        ensures
            r.deep_view() == line_of(spans.deep_view()),
    {
        Line {
            style: Style {
                fg: None,
                bg: None,
                underline_color: None,
                add_modifier: 0,
                sub_modifier: 0,
            },
            alignment: None,
            spans,
        }
    }

    /// The empty line.
    pub fn blank() -> (r: Line)
        ensures
            r.deep_view() == blank(),
    {
        let spans: Vec<Span> = Vec::new();
        assert(spans.deep_view() == Seq::<SpanView>::empty());
        Line::of(spans)
    }

    /// The line of one span.
    pub fn one(span: Span) -> (r: Line)
        ensures
            r.deep_view() == line_of(seq![span.deep_view()]),
    {
        let spans = vec![span];
        assert(spans.deep_view() == seq![span.deep_view()]);
        Line::of(spans)
    }

    /// A line with the same spans, style and alignment.
    pub fn duplicate(&self) -> (r: Line)
        ensures
            r.deep_view() == self.deep_view(),
    {
        let mut spans: Vec<Span> = Vec::new();
        for i in 0..self.spans.len()
            invariant
                spans.deep_view() == self.spans.deep_view().take(i as int),
        {
            let ghost before = spans.deep_view();
            spans.push(self.spans[i].duplicate());
            assert(spans.deep_view() == before.push(self.spans@[i as int].deep_view()));
        }
        assert(spans.deep_view() == self.spans.deep_view());
        Line { style: self.style, alignment: self.alignment, spans }
    }
}

/// Appends the lines of `more` to `out`.
pub fn extend(out: &mut Vec<Line>, more: &Vec<Line>)
    ensures
        final(out).deep_view() == old(out).deep_view() + more.deep_view(),
{
    let ghost start = out.deep_view();
    for i in 0..more.len()
        invariant
            out.deep_view() == start + more.deep_view().take(i as int),
    {
        let ghost before = out.deep_view();
        out.push(more[i].duplicate());
        assert(out.deep_view() == before.push(more@[i as int].deep_view()));
        assert(more.deep_view().take(i + 1) == more.deep_view().take(i as int).push(
            more@[i as int].deep_view(),
        ));
    }
    assert(more.deep_view().take(more@.len() as int) == more.deep_view());
}

/// A copy of `lines`.
pub fn duplicate(lines: &Vec<Line>) -> (r: Vec<Line>)
    ensures
        r.deep_view() == lines.deep_view(),
{
    let mut r: Vec<Line> = Vec::new();
    assert(r.deep_view() == Seq::<LineView>::empty());
    extend(&mut r, lines);
    assert(r.deep_view() == lines.deep_view());
    r
}

/// A span has the text, the foreground and the modifiers that it is made with, and
/// no other look; a line has the spans that it is made of, and no look of its own.
pub proof fn law_looks(content: Seq<char>, fg: Option<Color>, add: u16, spans: Seq<SpanView>)
    ensures
        ({
            let plain = Style {
                fg: None,
                bg: None,
                underline_color: None,
                add_modifier: 0,
                sub_modifier: 0,
            };
            &&& styled(content, fg, add).content == content
            &&& styled(content, fg, add).style == (Style { fg, add_modifier: add, ..plain })
            &&& raw(content).content == content
            &&& raw(content).style == plain
            &&& line_of(spans).spans == spans
            &&& line_of(spans).style == plain
            &&& line_of(spans).alignment is None
            &&& blank().spans.len() == 0
            &&& blank().style == plain
            &&& blank().alignment is None
        }),
{
}

/// The views of spans and lines leave nothing out.
pub proof fn law_views_whole(span: Span, line: Line)
    ensures
        span.deep_view().content == span.content@,
        span.deep_view().style == span.style,
        line.deep_view().style == line.style,
        line.deep_view().alignment == line.alignment,
        line.deep_view().spans.len() == line.spans@.len(),
        forall|i: int|
            0 <= i < line.spans@.len() ==> #[trigger] line.deep_view().spans[i]
                == line.spans@[i].deep_view(),
{
}

/// The modifier bits: one each, those of bold, dim and italic text.
pub proof fn law_modifiers()
    ensures
        BOLD == 1,
        DIM == 2,
        ITALIC == 4,
{
}

} // verus!
