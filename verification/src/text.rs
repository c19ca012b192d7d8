//! Styled text: spans, lines, and the descriptors they are parsed from.

use vstd::prelude::*;

use crate::strutil::{chars_to_string, str_eq};
use crate::style::{parse_style, spec_resolve_style, Style, StyleInput};
use crate::width::{min_width, spec_text_width, text_width};

verus! {

/// Horizontal alignment of a line or paragraph.
#[derive(Clone, Copy, Debug, PartialEq, Eq, Structural)]
pub enum Alignment {
    Left,
    Center,
    Right,
}

/// The alignment a token names; anything else is left.
pub open spec fn spec_alignment_of(t: Option<String>) -> Alignment {
    match t {
        Option::None => Alignment::Left,
        Option::Some(s) => if s@ == "center"@ {
            Alignment::Center
        } else if s@ == "right"@ {
            Alignment::Right
        } else {
            Alignment::Left
        },
    }
}

/// Parses an alignment token.
pub fn parse_alignment(t: &Option<String>) -> (r: Alignment)
    ensures
        r == spec_alignment_of(*t),
{
    match t {
        Option::None => Alignment::Left,
        Option::Some(s) => {
            if str_eq(s.as_str(), "center") {
                Alignment::Center
            } else if str_eq(s.as_str(), "right") {
                Alignment::Right
            } else {
                Alignment::Left
            }
        },
    }
}

/// A styled fragment of one line.
#[derive(Clone, Debug)]
pub struct Span {
    pub content: String,
    pub style: Style,
}

/// One line of styled text.
#[derive(Clone, Debug)]
pub struct Line {
    pub spans: Vec<Span>,
    pub alignment: Alignment,
    pub style: Style,
}

/// The glyphs of a line, all spans joined.
pub open spec fn spec_line_chars(spans: Seq<Span>) -> Seq<char>
    decreases spans.len(),
{
    if spans.len() == 0 {
        Seq::empty()
    } else {
        spec_line_chars(spans.drop_last()) + spans.last().content@
    }
}

/// The display width of a line.
pub open spec fn spec_line_width(spans: Seq<Span>) -> int {
    spec_text_width(spec_line_chars(spans))
}

/// Computes a line's display width (saturating at `usize::MAX`).
pub fn line_display_width(line: &Line) -> (r: usize)
    ensures
        r == min_width(spec_line_width(line.spans@)),
{
    let joined = line_chars(line);
    text_width(joined.as_str())
}

/// Joins a line's spans into one string.
pub fn line_chars(line: &Line) -> (r: String)
    ensures
        r@ == spec_line_chars(line.spans@),
{
    let mut out = String::new();
    let mut i: usize = 0;
    while i < line.spans.len()
        invariant
            i <= line.spans@.len(),
            out@ == spec_line_chars(line.spans@.subrange(0, i as int)),
        decreases line.spans@.len() - i,
    {
        out.append(line.spans[i].content.as_str());
        proof {
            let pre = line.spans@.subrange(0, i as int + 1);
            assert(pre.drop_last() =~= line.spans@.subrange(0, i as int));
            assert(pre.last() == line.spans@[i as int]);
        }
        i = i + 1;
    }
    proof {
        assert(line.spans@.subrange(0, line.spans@.len() as int) =~= line.spans@);
    }
    out
}

/// A span descriptor: content and an optional style.
#[derive(Clone, Debug)]
pub struct SpanInput {
    pub content: String,
    pub style: Option<StyleInput>,
}

/// One entry of a line descriptor: bare text or a styled span.
#[derive(Clone, Debug)]
pub enum SpanItem {
    Text(String),
    Styled(SpanInput),
}

/// A line descriptor: its spans, with optional alignment and style.
#[derive(Clone, Debug)]
pub struct LineInput {
    pub spans: Vec<SpanItem>,
    pub alignment: Option<String>,
    pub style: Option<StyleInput>,
}

/// One entry of a multi-line text descriptor.
#[derive(Clone, Debug)]
pub enum LineItem {
    Text(String),
    Line(LineInput),
    Span(SpanInput),
}

/// A text descriptor: absent, a plain string (split on newlines), one
/// span, one line, or a list of lines.
#[derive(Clone, Debug)]
pub enum TextInput {
    Absent,
    Plain(String),
    Span(SpanInput),
    Line(LineInput),
    Lines(Vec<LineItem>),
}

/// A plain string split at newlines; the result always holds at least
/// one (possibly empty) line.
pub open spec fn spec_split_lines(s: Seq<char>) -> Seq<Seq<char>>
    decreases s.len(),
{
    if s.len() == 0 {
        seq![Seq::empty()]
    } else if s.last() == '\n' {
        spec_split_lines(s.drop_last()).push(Seq::empty())
    } else {
        let r = spec_split_lines(s.drop_last());
        r.update(r.len() - 1, r.last().push(s.last()))
    }
}

pub proof fn lemma_split_lines_nonempty(s: Seq<char>)
    ensures
        spec_split_lines(s).len() >= 1,
    decreases s.len(),
{
    if s.len() > 0 {
        lemma_split_lines_nonempty(s.drop_last());
    }
}

/// Splits a string at newlines.
pub fn split_lines(s: &str) -> (r: Vec<String>)
    ensures
        r@.map_values(|t: String| t@) == spec_split_lines(s@),
{
    let len = s.unicode_len();
    let mut done: Vec<String> = Vec::new();
    let mut cur: Vec<char> = Vec::new();
    let mut i: usize = 0;
    while i < len
        invariant
            len == s@.len(),
            i <= len,
            spec_split_lines(s@.subrange(0, i as int)) == done@.map_values(|t: String| t@).push(
                cur@,
            ),
        decreases len - i,
    {
        let c = s.get_char(i);
        proof {
            let pre = s@.subrange(0, i as int + 1);
            assert(pre.drop_last() =~= s@.subrange(0, i as int));
            assert(pre.last() == s@[i as int]);
            lemma_split_lines_nonempty(s@.subrange(0, i as int));
        }
        if c == '\n' {
            let finished = chars_to_string(&cur);
            done.push(finished);
            cur = Vec::new();
            proof {
                assert(done@.map_values(|t: String| t@) =~= done@.map_values(
                    |t: String| t@,
                ));
                assert(spec_split_lines(s@.subrange(0, i as int + 1)) =~= done@.map_values(
                    |t: String| t@,
                ).push(cur@));
            }
        } else {
            let mut next = cur;
            next.push(c);
            cur = next;
            proof {
                let prev = spec_split_lines(s@.subrange(0, i as int));
                let now = spec_split_lines(s@.subrange(0, i as int + 1));
                assert(now =~= done@.map_values(|t: String| t@).push(cur@));
            }
        }
        i = i + 1;
    }
    let finished = chars_to_string(&cur);
    done.push(finished);
    proof {
        assert(s@.subrange(0, s@.len() as int) =~= s@);
        assert(done@.map_values(|t: String| t@) =~= spec_split_lines(s@));
    }
    done
}

/// Is `sp` what the line entry `it` parses to?
pub open spec fn spec_item_parsed(it: SpanItem, sp: Span) -> bool {
    match it {
        SpanItem::Text(t) => sp.content@ == t@ && sp.style == Style::spec_default(),
        SpanItem::Styled(si) => sp.content@ == si.content@ && sp.style == spec_resolve_style(
            si.style,
        ),
    }
}

/// The glyphs a line descriptor's entries join to.
pub open spec fn spec_line_input_chars(spans: Seq<SpanItem>) -> Seq<char>
    decreases spans.len(),
{
    if spans.len() == 0 {
        Seq::empty()
    } else {
        spec_line_input_chars(spans.drop_last()) + (match spans.last() {
            SpanItem::Text(t) => t@,
            SpanItem::Styled(si) => si.content@,
        })
    }
}

/// Spans parsed entry for entry join to the same glyphs as their
/// descriptors.
pub proof fn lemma_parsed_line_chars(items: Seq<SpanItem>, spans: Seq<Span>)
    requires
        items.len() == spans.len(),
        forall|i: int| 0 <= i < items.len() ==> #[trigger] spec_item_parsed(items[i], spans[i]),
    ensures
        spec_line_chars(spans) == spec_line_input_chars(items),
    decreases items.len(),
{
    if items.len() > 0 {
        lemma_parsed_line_chars(items.drop_last(), spans.drop_last());
        assert(spec_item_parsed(items[items.len() - 1], spans[items.len() - 1]));
        assert(spec_line_chars(spans) =~= spec_line_input_chars(items));
    }
}

/// The glyphs of one entry of a multi-line descriptor.
pub open spec fn spec_line_item_chars(it: LineItem) -> Seq<char> {
    match it {
        LineItem::Text(t) => t@,
        LineItem::Line(li) => spec_line_input_chars(li.spans@),
        LineItem::Span(si) => si.content@,
    }
}

/// The glyph rows a whole text descriptor denotes, one sequence per
/// line; always at least one row.
pub open spec fn spec_text_lines(input: TextInput) -> Seq<Seq<char>> {
    match input {
        TextInput::Absent => seq![Seq::<char>::empty()],
        TextInput::Plain(s) => spec_split_lines(s@),
        TextInput::Span(si) => seq![si.content@],
        TextInput::Line(li) => seq![spec_line_input_chars(li.spans@)],
        TextInput::Lines(items) => if items@.len() == 0 {
            seq![Seq::<char>::empty()]
        } else {
            items@.map_values(|it: LineItem| spec_line_item_chars(it))
        },
    }
}

/// The joined glyphs of a one-span line are that span's content.
pub proof fn lemma_line_chars_single(spans: Seq<Span>)
    requires
        spans.len() == 1,
    ensures
        spec_line_chars(spans) == spans[0].content@,
{
    assert(spans.drop_last() =~= Seq::<Span>::empty());
    assert(spec_line_chars(Seq::<Span>::empty()) =~= Seq::<char>::empty());
    assert(spec_line_chars(spans) =~= spans[0].content@);
}

/// Parses one span descriptor.
pub fn parse_span(input: &SpanInput) -> (r: Span)
    ensures
        r.content@ == input.content@,
        r.style == spec_resolve_style(input.style),
{
    Span { content: input.content.clone(), style: parse_style(&input.style) }
}

/// Parses one line descriptor: bare text entries become unstyled spans.
pub fn parse_line(input: &LineInput) -> (r: Line)
    ensures
        r.spans@.len() == input.spans@.len(),
        forall|i: int|
            0 <= i < input.spans@.len() ==> #[trigger] spec_item_parsed(
                input.spans@[i],
                r.spans@[i],
            ),
        r.alignment == spec_alignment_of(input.alignment),
        r.style == spec_resolve_style(input.style),
        spec_line_chars(r.spans@) == spec_line_input_chars(input.spans@),
{
    let mut spans: Vec<Span> = Vec::new();
    let mut i: usize = 0;
    while i < input.spans.len()
        invariant
            i <= input.spans@.len(),
            spans@.len() == i,
            forall|j: int|
                0 <= j < i ==> #[trigger] spec_item_parsed(input.spans@[j], spans@[j]),
        decreases input.spans@.len() - i,
    {
        match &input.spans[i] {
            SpanItem::Text(t) => {
                spans.push(Span { content: t.clone(), style: Style::new_default() });
            },
            SpanItem::Styled(si) => {
                spans.push(parse_span(si));
            },
        }
        proof {
            assert(spec_item_parsed(input.spans@[i as int], spans@[i as int]));
        }
        i = i + 1;
    }
    proof {
        lemma_parsed_line_chars(input.spans@, spans@);
    }
    Line {
        spans,
        alignment: parse_alignment(&input.alignment),
        style: parse_style(&input.style),
    }
}

/// A single unstyled line over the given content.
fn plain_line(content: String) -> (r: Line)
    ensures
        r.spans@.len() == 1,
        r.spans@[0].content@ == content@,
        r.spans@[0].style == Style::spec_default(),
        r.alignment == Alignment::Left,
        r.style == Style::spec_default(),
{
    let mut spans: Vec<Span> = Vec::new();
    spans.push(Span { content, style: Style::new_default() });
    Line { spans, alignment: Alignment::Left, style: Style::new_default() }
}

/// Parses a text descriptor into lines. An absent descriptor is one
/// empty line; a plain string is split at newlines; a list keeps its
/// order, each entry becoming one line.
pub fn parse_text(input: &TextInput) -> (r: Vec<Line>)
    ensures
        r@.len() >= 1,
        r@.len() == spec_text_lines(*input).len(),
        forall|i: int|
            0 <= i < r@.len() ==> #[trigger] spec_line_chars(r@[i].spans@) == spec_text_lines(
                *input,
            )[i],
{
    match input {
        TextInput::Absent => {
            let mut out: Vec<Line> = Vec::new();
            let l = plain_line(String::new());
            proof {
                lemma_line_chars_single(l.spans@);
                assert(spec_line_chars(l.spans@) =~= Seq::<char>::empty());
            }
            out.push(l);
            out
        },
        TextInput::Plain(s) => {
            let pieces = split_lines(s.as_str());
            let mut out: Vec<Line> = Vec::new();
            let mut i: usize = 0;
            while i < pieces.len()
                invariant
                    i <= pieces@.len(),
                    out@.len() == i,
                    pieces@.map_values(|t: String| t@) == spec_split_lines(s@),
                    forall|j: int|
                        0 <= j < i ==> #[trigger] spec_line_chars(out@[j].spans@)
                            == spec_split_lines(s@)[j],
                decreases pieces@.len() - i,
            {
                let l = plain_line(pieces[i].clone());
                proof {
                    lemma_line_chars_single(l.spans@);
                }
                out.push(l);
                i = i + 1;
            }
            proof {
                lemma_split_lines_nonempty(s@);
            }
            out
        },
        TextInput::Span(si) => {
            let sp = parse_span(si);
            let mut spans: Vec<Span> = Vec::new();
            spans.push(sp);
            let mut out: Vec<Line> = Vec::new();
            proof {
                lemma_line_chars_single(spans@);
            }
            out.push(Line { spans, alignment: Alignment::Left, style: Style::new_default() });
            out
        },
        TextInput::Line(li) => {
            let mut out: Vec<Line> = Vec::new();
            out.push(parse_line(li));
            out
        },
        TextInput::Lines(items) => {
            let mut out: Vec<Line> = Vec::new();
            let mut i: usize = 0;
            while i < items.len()
                invariant
                    i <= items@.len(),
                    out@.len() == i,
                    forall|j: int|
                        0 <= j < i ==> #[trigger] spec_line_chars(out@[j].spans@)
                            == spec_line_item_chars(items@[j]),
                decreases items@.len() - i,
            {
                match &items[i] {
                    LineItem::Text(t) => {
                        let l = plain_line(t.clone());
                        proof {
                            lemma_line_chars_single(l.spans@);
                        }
                        out.push(l);
                    },
                    LineItem::Line(li) => {
                        out.push(parse_line(li));
                    },
                    LineItem::Span(si) => {
                        let sp = parse_span(si);
                        let mut spans: Vec<Span> = Vec::new();
                        spans.push(sp);
                        proof {
                            lemma_line_chars_single(spans@);
                        }
                        out.push(
                            Line {
                                spans,
                                alignment: Alignment::Left,
                                style: Style::new_default(),
                            },
                        );
                    },
                }
                i = i + 1;
            }
            if out.len() == 0 {
                let l = plain_line(String::new());
                proof {
                    lemma_line_chars_single(l.spans@);
                }
                out.push(l);
            }
            out
        },
    }
}

} // verus!
