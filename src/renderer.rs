//! What a frame shows, as plain values: which lines, split into spans that
//! are or are not selected, and the cursor's shape. Drawing is left to the
//! terminal layer.
use vstd::prelude::*;
use crate::buffer::{sel_range, CursorMode};
use crate::document::Document;
use crate::text::{
    lemma_line_in_text, line_count, line_len_chars, line_start_char, rope_len_lines,
    rope_line_len_chars, rope_line_to_char,
};

verus! {

/// The size of the text area, in columns and lines.
#[derive(Debug, Default, Clone, Copy, PartialEq, Eq, Structural)]
pub struct Viewport {
    pub width: usize,
    pub height: usize,
}

impl Viewport {
    pub fn update(&mut self, width: usize, height: usize)
        ensures
            final(self).width == width,
            final(self).height == height,
    {
        self.width = width;
        self.height = height;
    }
}

/// How the terminal draws the cursor.
#[derive(Debug, Clone, Copy, PartialEq, Eq, Structural)]
pub enum CursorShape {
    BlinkingBar,
    BlinkingBlock,
}

/// The cursor on screen.
#[derive(Debug, Clone, Copy, PartialEq, Eq, Structural)]
pub struct Cursor {
    pub x: u16,
    pub y: u16,
    pub mode: CursorMode,
}

impl Cursor {
    /// A bar in insert mode, a block otherwise.
    pub fn shape(&self) -> (r: CursorShape)
        ensures
            r == (if self.mode == CursorMode::Insert {
                CursorShape::BlinkingBar
            } else {
                CursorShape::BlinkingBlock
            }),
    {
        match self.mode {
            CursorMode::Insert => CursorShape::BlinkingBar,
            CursorMode::Normal | CursorMode::Visual => CursorShape::BlinkingBlock,
        }
    }
}

/// What the event loop does after an event.
#[derive(Debug, Clone, Copy, PartialEq, Eq, Structural)]
pub enum EventOutcome {
    Render,
    Ignore,
    Exit,
}

/// A run of chars of one line, `start..end` from the line's start.
#[derive(Debug, Clone, Copy, PartialEq, Eq, Structural)]
pub struct Span {
    pub start: usize,
    pub end: usize,
    pub selected: bool,
}

/// One shown line: its index in the text and its spans.
#[derive(Debug)]
pub struct Row {
    pub index: usize,
    pub spans: Vec<Span>,
}

pub open spec fn one_span(start: nat, end: nat, selected: bool) -> Seq<Span> {
    if start < end {
        seq![Span { start: start as usize, end: end as usize, selected }]
    } else {
        Seq::empty()
    }
}

pub open spec fn sat_sub(a: nat, b: nat) -> nat {
    if a >= b {
        (a - b) as nat
    } else {
        0
    }
}

pub open spec fn min_nat(a: nat, b: nat) -> nat {
    if a <= b {
        a
    } else {
        b
    }
}

/// The spans of a line of `line_len` chars that starts at char `line_idx`,
/// of which `max_len` are shown: the whole line unselected, unless the
/// selection `start..end` is not empty and meets the shown chars; then the
/// parts before, inside and after it, empty parts left out.
pub open spec fn line_spans(line_idx: nat, max_len: nat, line_len: nat, sel: Option<(usize, usize)>) -> Seq<
    Span,
> {
    match sel {
        Some((a, b)) if a != b && a <= line_idx + max_len && line_idx <= b => {
            let s0 = min_nat(sat_sub(a as nat, line_idx), max_len);
            let s1 = min_nat(sat_sub(b as nat, line_idx), max_len);
            one_span(0, s0, false) + one_span(s0, s1, true) + one_span(s1, line_len, false)
        },
        _ => one_span(0, line_len, false),
    }
}

fn push_span(v: &mut Vec<Span>, start: usize, end: usize, selected: bool)
    ensures
        final(v)@ == old(v)@ + one_span(start as nat, end as nat, selected),
{
    if start < end {
        v.push(Span { start, end, selected });
    } else {
        proof {
            assert(old(v)@ + Seq::<Span>::empty() =~= old(v)@);
        }
    }
}

/// Reads a document to lay out a frame.
pub struct Renderer<'a> {
    pub doc: &'a Document,
}

/// The spans of line `index` of `s` in a viewport `width` columns wide.
pub open spec fn row_spans(s: Seq<char>, index: nat, width: nat, sel: Option<(usize, usize)>) -> Seq<
    Span,
> {
    let len = line_len_chars(s, index) as nat;
    line_spans(line_start_char(s, index), min_nat(width, len), len, sel)
}

pub open spec fn shown_range(d: Document) -> Option<(usize, usize)> {
    match d.buf.selection {
        Some(x) => Some(sel_range(x)),
        None => None,
    }
}

/// How many lines a viewport `height` lines high shows of `lines`, from
/// line `top` on.
pub open spec fn shown_count(lines: nat, top: nat, height: nat) -> nat {
    if top >= lines {
        0
    } else {
        min_nat((lines - top) as nat, height)
    }
}

impl<'a> Renderer<'a> {
    /// The spans of one shown line; see `line_spans`.
    pub fn line(line_idx: usize, max_len: usize, line_len: usize, selection: Option<(usize, usize)>) -> (r:
        Vec<Span>)
        requires
            max_len <= line_len,
            selection matches Some((a, b)) ==> a <= b,
        ensures
            r@ == line_spans(line_idx as nat, max_len as nat, line_len as nat, selection),
    {
        let mut v: Vec<Span> = Vec::new();
        let overlap = match selection {
            Some((a, b)) => a != b && (a <= line_idx || a - line_idx <= max_len) && line_idx <= b,
            None => false,
        };
        if overlap {
            let (a, b) = selection.unwrap();
            let s0 = if a >= line_idx { a - line_idx } else { 0 };
            let s0 = if s0 <= max_len { s0 } else { max_len };
            let s1 = if b >= line_idx { b - line_idx } else { 0 };
            let s1 = if s1 <= max_len { s1 } else { max_len };
            push_span(&mut v, 0, s0, false);
            push_span(&mut v, s0, s1, true);
            push_span(&mut v, s1, line_len, false);
            proof {
                assert(v@ =~= line_spans(line_idx as nat, max_len as nat, line_len as nat, selection));
            }
        } else {
            push_span(&mut v, 0, line_len, false);
            proof {
                assert(v@ =~= line_spans(line_idx as nat, max_len as nat, line_len as nat, selection));
            }
        }
        v
    }

    pub fn new(doc: &'a Document) -> (r: Renderer<'a>)
        ensures
            r.doc == doc,
    {
        Renderer { doc }
    }

    /// The lines shown in a `width` by `height` viewport: from the first
    /// visible line on, at most `height` of them, none past the text.
    pub fn rows(&self, width: usize, height: usize) -> (r: Vec<Row>)
        ensures
            r@.len() == shown_count(line_count(self.doc.buf.chars()), self.doc.buf.vscroll as nat, height as nat),
            forall|y: int|
                0 <= y < r@.len() ==> (#[trigger] r@[y]).index == self.doc.buf.vscroll + y,
            forall|y: int|
                0 <= y < r@.len() ==> (#[trigger] r@[y]).spans@ == row_spans(
                    self.doc.buf.chars(),
                    (self.doc.buf.vscroll + y) as nat,
                    width as nat,
                    shown_range(*self.doc),
                ),
    {
        let buf = &self.doc.buf;
        let ghost s = buf.chars();
        let lines = rope_len_lines(&buf.text);
        let selection = match buf.selection {
            Some(x) => Some(x.range()),
            None => None,
        };
        let top = buf.vscroll;
        let mut rows: Vec<Row> = Vec::new();
        let mut y: usize = 0;
        while y < height && top < lines && y < lines - top
            invariant
                lines == line_count(s),
                s == buf.chars(),
                selection == shown_range(*self.doc),
                y <= height,
                top == buf.vscroll,
                top < lines ==> y <= lines - top,
                top >= lines ==> y == 0,
                rows@.len() == y,
                forall|k: int|
                    0 <= k < y ==> (#[trigger] rows@[k]).index == top + k,
                forall|k: int|
                    0 <= k < y ==> (#[trigger] rows@[k]).spans@ == row_spans(
                        s,
                        (top + k) as nat,
                        width as nat,
                        selection,
                    ),
            decreases height - y,
        {
            let index = top + y;
            proof {
                lemma_line_in_text(s, index as nat);
            }
            let start = rope_line_to_char(&buf.text, index);
            let len = rope_line_len_chars(&buf.text, index);
            let max_len = if width <= len { width } else { len };
            let spans = Self::line(start, max_len, len, selection);
            rows.push(Row { index, spans });
            y = y + 1;
        }
        rows
    }
}

} // verus!
