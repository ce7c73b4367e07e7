//! The cursor model: a text store, a position in it, the editing mode, the
//! first visible line and an optional selection.
use vstd::prelude::*;
use crate::text::{
    chars_before_byte, lemma_byte_len_ge_len, lemma_chars_before_byte, lemma_count_le_len, rope_byte_to_char,
    byte_len, line_count, line_len_bytes, line_start_byte, newlines_before_byte, rope_chars,
    lemma_line_of_byte, rope_byte_to_line, rope_from_str, rope_len_bytes, rope_len_chars,
    rope_len_lines, rope_line_len_bytes, rope_line_to_byte,
};

verus! {

/// A place in the text: a line and a byte offset inside that line.
#[derive(Debug, Default, Clone, Copy, PartialEq, Eq, Structural)]
pub struct Position {
    pub index: usize,
    pub offset: usize,
}

impl Position {
    pub fn new(index: usize, offset: usize) -> (r: Position)
        ensures
            r.index == index,
            r.offset == offset,
    {
        Position { index, offset }
    }

    pub fn as_pair(&self) -> (r: (usize, usize))
        ensures
            r == (self.index, self.offset),
    {
        (self.index, self.offset)
    }
}

impl From<(usize, usize)> for Position {
    fn from(pos: (usize, usize)) -> (r: Position) {
        Position { index: pos.0, offset: pos.1 }
    }
}

impl vstd::std_specs::convert::FromSpecImpl<(usize, usize)> for Position {
    open spec fn obeys_from_spec() -> bool {
        true
    }

    open spec fn from_spec(pos: (usize, usize)) -> Position {
        Position { index: pos.0, offset: pos.1 }
    }
}

/// The editing mode, which decides the cursor's shape.
#[derive(Debug, Clone, Copy, PartialEq, Eq, Hash, Structural)]
pub enum CursorMode {
    Insert,
    Normal,
    Visual,
}

impl CursorMode {
    /// The mode's name in lower case.
    pub fn name(&self) -> (r: &'static str)
        ensures
            r@ == mode_name(*self),
    {
        match self {
            CursorMode::Insert => "insert",
            CursorMode::Normal => "normal",
            CursorMode::Visual => "visual",
        }
    }
}

pub open spec fn mode_name(m: CursorMode) -> Seq<char> {
    match m {
        CursorMode::Insert => "insert"@,
        CursorMode::Normal => "normal"@,
        CursorMode::Visual => "visual"@,
    }
}

/// A selection in char indices: the anchor stays, the head moves.
#[derive(Debug, Clone, Copy, PartialEq, Eq, Structural)]
pub struct Selection {
    pub anchor: usize,
    pub head: usize,
}

impl Selection {
    pub fn new(anchor: usize) -> (r: Selection)
        ensures
            r.anchor == anchor,
            r.head == anchor,
    {
        Selection { anchor, head: anchor }
    }

    pub fn anchor(&self) -> (r: usize)
        ensures
            r == self.anchor,
    {
        self.anchor
    }

    pub fn head(&self) -> (r: usize)
        ensures
            r == self.head,
    {
        self.head
    }

    /// The two ends, lower first.
    pub fn range(&self) -> (r: (usize, usize))
        ensures
            r == sel_range(*self),
    {
        if self.anchor <= self.head {
            (self.anchor, self.head)
        } else {
            (self.head, self.anchor)
        }
    }

    /// The chars covered in a text of `len_chars` chars: a selection that grew
    /// forward also takes the char under its head.
    pub fn extended_range(&self, len_chars: usize) -> (r: (usize, usize))
        ensures
            r == sel_extended(*self, len_chars as nat),
    {
        let (start, end) = self.range();
        if self.head > self.anchor {
            let e = if end < len_chars { end + 1 } else { len_chars };
            (start, e)
        } else {
            (start, end)
        }
    }
}

pub open spec fn sel_range(s: Selection) -> (usize, usize) {
    if s.anchor <= s.head {
        (s.anchor, s.head)
    } else {
        (s.head, s.anchor)
    }
}

pub open spec fn sel_extended(s: Selection, len: nat) -> (usize, usize) {
    let (start, end) = sel_range(s);
    if s.head > s.anchor {
        (start, if end < len { (end + 1) as usize } else { len as usize })
    } else {
        (start, end)
    }
}

/// A position that points into the text: its line exists and its byte
/// offset does not pass the end.
pub open spec fn pos_valid(s: Seq<char>, p: Position) -> bool {
    p.index < line_count(s) && line_start_byte(s, p.index as nat) + p.offset <= byte_len(s)
}

/// Absolute byte offset of a position.
pub open spec fn abs_of(s: Seq<char>, p: Position) -> nat {
    line_start_byte(s, p.index as nat) + p.offset as nat
}

/// The position of absolute byte offset `b`.
pub open spec fn pos_of(s: Seq<char>, b: nat) -> Position {
    let i = newlines_before_byte(s, b);
    Position { index: i as usize, offset: (b - line_start_byte(s, i)) as usize }
}

/// Char index of the cursor: the char that holds its byte.
pub open spec fn cursor_char(b: Buffer) -> nat {
    chars_before_byte(b.chars(), abs_of(b.chars(), b.pos))
}

/// Turning a byte offset of the text into a position and back gives the
/// offset again, and the position is valid (for a text whose length fits
/// a `usize`, as every stored text does).
pub proof fn lemma_position_round_trip(s: Seq<char>, b: nat)
    requires
        b <= byte_len(s),
        byte_len(s) <= usize::MAX,
    ensures
        pos_valid(s, pos_of(s, b)),
        abs_of(s, pos_of(s, b)) == b,
{
    lemma_line_of_byte(s, b);
    lemma_count_le_len(s);
    lemma_byte_len_ge_len(s);
}

/// Text, cursor, mode, scroll and selection of one document.
pub struct Buffer {
    pub text: ropey::Rope,
    pub pos: Position,
    pub mode: CursorMode,
    pub vscroll: usize,
    pub selection: Option<Selection>,
}

/// Relies on `ropey::Rope::new`: an empty rope.
#[verifier::external_body]
fn rope_new() -> (r: ropey::Rope)
    ensures
        rope_chars(r) == Seq::<char>::empty(),
{
    ropey::Rope::new()
}

impl Default for Buffer {
    fn default() -> (r: Buffer)
        ensures
            r.chars().len() == 0,
            r.pos == (Position { index: 0, offset: 0 }),
            r.mode == CursorMode::Normal,
            r.vscroll == 0,
            r.selection.is_none(),
    {
        Buffer::new()
    }
}

impl Buffer {
    /// The characters of the text.
    pub open spec fn chars(&self) -> Seq<char> {
        rope_chars(self.text)
    }

    /// The cursor points into the text.
    pub open spec fn wf(&self) -> bool {
        pos_valid(self.chars(), self.pos)
    }

    /// An empty text in normal mode, the cursor at its start.
    pub fn new() -> (r: Buffer)
        ensures
            r.chars().len() == 0,
            r.pos == (Position { index: 0, offset: 0 }),
            r.mode == CursorMode::Normal,
            r.vscroll == 0,
            r.selection.is_none(),
            r.wf(),
    {
        let text = rope_new();
        proof {
            assert(rope_chars(text).take(0) =~= rope_chars(text));
        }
        Buffer {
            text,
            pos: Position { index: 0, offset: 0 },
            mode: CursorMode::Normal,
            vscroll: 0,
            selection: None,
        }
    }

    /// A buffer that holds `text`, the cursor at its start.
    pub fn from_text(text: &str) -> (r: Buffer)
        ensures
            r.chars() == text@,
            r.pos == (Position { index: 0, offset: 0 }),
            r.mode == CursorMode::Normal,
            r.vscroll == 0,
            r.selection.is_none(),
            r.wf(),
    {
        let mut b = Buffer::new();
        b.text = rope_from_str(text);
        proof {
            assert(b.chars().take(0) =~= Seq::<char>::empty());
        }
        b
    }

    pub fn set_text(&mut self, text: ropey::Rope)
        ensures
            final(self).chars() == rope_chars(text),
            final(self).pos == old(self).pos,
            final(self).mode == old(self).mode,
            final(self).vscroll == old(self).vscroll,
            final(self).selection == old(self).selection,
    {
        self.text = text;
    }

    pub fn pos(&self) -> (r: (usize, usize))
        ensures
            r == (self.pos.index, self.pos.offset),
    {
        (self.pos.index, self.pos.offset)
    }

    pub fn set_pos(&mut self, pos: (usize, usize))
        ensures
            final(self).pos == (Position { index: pos.0, offset: pos.1 }),
            final(self).chars() == old(self).chars(),
            final(self).mode == old(self).mode,
            final(self).vscroll == old(self).vscroll,
            final(self).selection == old(self).selection,
    {
        self.pos = Position::from(pos);
    }

    /// Absolute byte offset of the cursor.
    pub fn byte_pos(&self) -> (r: usize)
        requires
            self.wf(),
        ensures
            r == abs_of(self.chars(), self.pos),
    {
        let _ = rope_len_bytes(&self.text);
        self.pos.offset + rope_line_to_byte(&self.text, self.pos.index)
    }

    /// Whether the cursor points into the text.
    pub fn pos_is_valid(&self) -> (r: bool)
        ensures
            r == pos_valid(self.chars(), self.pos),
    {
        let lines = rope_len_lines(&self.text);
        if self.pos.index >= lines {
            return false;
        }
        let start = rope_line_to_byte(&self.text, self.pos.index);
        let len = rope_len_bytes(&self.text);
        start <= len && self.pos.offset <= len - start
    }

    /// Char index of the cursor, within the text.
    pub fn char_pos(&self) -> (c: usize)
        requires
            self.wf(),
        ensures
            c == cursor_char(*self),
            c <= self.chars().len(),
    {
        let b = self.byte_pos();
        proof {
            lemma_chars_before_byte(self.chars(), b as nat);
        }
        rope_byte_to_char(&self.text, b)
    }

    /// The position of absolute byte offset `pos`: its line, and its byte
    /// offset from the start of that line. An offset past the end of the text
    /// is taken as the end.
    pub fn cursor_pos(&self, pos: usize) -> (r: Position)
        ensures
            r == pos_of(
                self.chars(),
                if pos <= byte_len(self.chars()) { pos as nat } else { byte_len(self.chars()) },
            ),
            pos_valid(self.chars(), r),
            pos <= byte_len(self.chars()) ==> abs_of(self.chars(), r) == pos,
    {
        let len = rope_len_bytes(&self.text);
        let pos = if pos <= len { pos } else { len };
        proof {
            lemma_line_of_byte(self.chars(), pos as nat);
        }
        let index = rope_byte_to_line(&self.text, pos);
        let start = rope_line_to_byte(&self.text, index);
        Position { index, offset: pos - start }
    }

    pub fn vscroll(&self) -> (r: usize)
        ensures
            r == self.vscroll,
    {
        self.vscroll
    }

    /// Scrolls as little as brings the cursor's line into a window of `max`
    /// lines.
    pub fn update_vscroll(&mut self, max: usize)
        requires
            max > 0,
        ensures
            final(self).vscroll <= final(self).pos.index,
            final(self).pos.index < final(self).vscroll + max,
            old(self).vscroll <= old(self).pos.index < old(self).vscroll + max ==> final(self).vscroll == old(self).vscroll,
            old(self).pos.index < old(self).vscroll ==> final(self).vscroll == old(self).pos.index,
            old(self).pos.index >= old(self).vscroll + max ==> final(self).vscroll == old(self).pos.index - max + 1,
            final(self).pos == old(self).pos,
            final(self).chars() == old(self).chars(),
            final(self).mode == old(self).mode,
            final(self).selection == old(self).selection,
    {
        let index = self.pos.index;
        if index < self.vscroll {
            self.vscroll = index;
        } else if index - self.vscroll >= max {
            self.vscroll = index - max + 1;
        }
    }

    /// Bytes of line `index`, its line break included.
    pub fn len_bytes(&self, index: usize) -> (r: usize)
        requires
            index < line_count(self.chars()),
        ensures
            r == line_len_bytes(self.chars(), index as nat),
    {
        rope_line_len_bytes(&self.text, index)
    }

    pub fn len_lines(&self) -> (r: usize)
        ensures
            r == line_count(self.chars()),
    {
        rope_len_lines(&self.text)
    }

    pub fn len_chars(&self) -> (r: usize)
        ensures
            r == self.chars().len(),
    {
        rope_len_chars(&self.text)
    }

    pub fn is_insert(&self) -> (r: bool)
        ensures
            r == (self.mode == CursorMode::Insert),
    {
        self.mode == CursorMode::Insert
    }

    pub fn mode(&self) -> (r: CursorMode)
        ensures
            r == self.mode,
    {
        self.mode
    }

    pub fn set_mode(&mut self, mode: CursorMode)
        ensures
            final(self).mode == mode,
            final(self).pos == old(self).pos,
            final(self).chars() == old(self).chars(),
            final(self).vscroll == old(self).vscroll,
            final(self).selection == old(self).selection,
    {
        self.mode = mode;
    }

    pub fn selection(&self) -> (r: Option<Selection>)
        ensures
            r == self.selection,
    {
        self.selection
    }

    /// Starts a selection at char `anchor`; an existing one stays as it is.
    pub fn new_selection(&mut self, anchor: usize)
        ensures
            final(self).selection == (if old(self).selection.is_none() {
                Some(Selection { anchor, head: anchor })
            } else {
                old(self).selection
            }),
            final(self).pos == old(self).pos,
            final(self).chars() == old(self).chars(),
            final(self).mode == old(self).mode,
            final(self).vscroll == old(self).vscroll,
    {
        if self.selection.is_none() {
            self.selection = Some(Selection::new(anchor));
        }
    }

    /// Moves the head of the selection, if there is one, to char `head`.
    pub fn update_selection(&mut self, head: usize)
        ensures
            final(self).selection == (match old(self).selection {
                Some(s) => Some(Selection { anchor: s.anchor, head }),
                None => None,
            }),
            final(self).pos == old(self).pos,
            final(self).chars() == old(self).chars(),
            final(self).mode == old(self).mode,
            final(self).vscroll == old(self).vscroll,
    {
        if let Some(s) = self.selection {
            self.selection = Some(Selection { anchor: s.anchor, head });
        }
    }

    pub fn clear_selection(&mut self)
        ensures
            final(self).selection.is_none(),
            final(self).pos == old(self).pos,
            final(self).chars() == old(self).chars(),
            final(self).mode == old(self).mode,
            final(self).vscroll == old(self).vscroll,
    {
        self.selection = None;
    }
}

} // verus!
