//! Cursor movement, one step at a time, clamped at the ends of the text.
use vstd::prelude::*;
use crate::buffer::{pos_valid, Buffer, CursorMode, Position};
use crate::text::{lemma_line_in_text, line_count, line_len_bytes, rope_len_lines, rope_line_len_bytes};

verus! {

/// One byte on, or to the start of the next line past the end of this one.
/// In insert mode the cursor may rest just past a line's last byte; in the
/// other modes it stops on that byte.
pub open spec fn forward_of(s: Seq<char>, p: Position, mode: CursorMode) -> Position {
    let limit = if mode == CursorMode::Insert {
        line_len_bytes(s, p.index as nat)
    } else {
        line_len_bytes(s, p.index as nat) - 1
    };
    if p.offset < limit {
        Position { offset: (p.offset + 1) as usize, ..p }
    } else if p.index + 1 < line_count(s) {
        Position { index: (p.index + 1) as usize, offset: 0 }
    } else {
        p
    }
}

/// One byte back, or to the end of the previous line from the start of this one.
pub open spec fn back_of(s: Seq<char>, p: Position) -> Position {
    if p.offset > 0 {
        Position { offset: (p.offset - 1) as usize, ..p }
    } else if p.index > 0 {
        Position {
            index: (p.index - 1) as usize,
            offset: line_len_bytes(s, (p.index - 1) as nat) as usize,
        }
    } else {
        p
    }
}

pub open spec fn min_of(a: int, b: int) -> int {
    if a <= b {
        a
    } else {
        b
    }
}

/// One line up, the offset cut to that line's length.
pub open spec fn up_of(s: Seq<char>, p: Position) -> Position {
    if p.index > 0 {
        Position {
            index: (p.index - 1) as usize,
            offset: min_of(p.offset as int, line_len_bytes(s, (p.index - 1) as nat)) as usize,
        }
    } else {
        p
    }
}

/// One line down, the offset cut to that line's length.
pub open spec fn down_of(s: Seq<char>, p: Position) -> Position {
    if p.index + 1 < line_count(s) {
        Position {
            index: (p.index + 1) as usize,
            offset: min_of(p.offset as int, line_len_bytes(s, (p.index + 1) as nat)) as usize,
        }
    } else {
        p
    }
}

/// Only the cursor changes, to `p`, which is valid.
pub open spec fn moved_to(b0: Buffer, b1: Buffer, p: Position) -> bool {
    &&& b1.pos == p
    &&& b1.chars() == b0.chars()
    &&& b1.vscroll == b0.vscroll
    &&& b1.selection == b0.selection
    &&& b1.wf()
}

pub fn move_forward(buf: &mut Buffer)
    requires
        old(buf).wf(),
    ensures
        moved_to(*old(buf), *final(buf), forward_of(old(buf).chars(), old(buf).pos, old(buf).mode)),
        final(buf).mode == old(buf).mode,
        final(buf).mode != CursorMode::Insert && (old(buf).pos.offset < line_len_bytes(
            old(buf).chars(),
            old(buf).pos.index as nat,
        ) || line_len_bytes(old(buf).chars(), old(buf).pos.index as nat) == 0) ==> (
        final(buf).pos.offset < line_len_bytes(final(buf).chars(), final(buf).pos.index as nat)
            || line_len_bytes(final(buf).chars(), final(buf).pos.index as nat) == 0),
{
    let ghost s = buf.chars();
    proof {
        lemma_line_in_text(s, buf.pos.index as nat);
        lemma_line_in_text(s, buf.pos.index as nat + 1);
    }
    let len = rope_line_len_bytes(&buf.text, buf.pos.index);
    let lines = rope_len_lines(&buf.text);
    let limit = match buf.mode {
        CursorMode::Insert => len,
        _ => if len > 0 { len - 1 } else { 0 },
    };
    if buf.pos.offset < limit {
        buf.pos.offset = buf.pos.offset + 1;
    } else if buf.pos.index < lines - 1 {
        buf.pos = Position { index: buf.pos.index + 1, offset: 0 };
    }
}

pub fn move_back(buf: &mut Buffer)
    requires
        old(buf).wf(),
    ensures
        moved_to(*old(buf), *final(buf), back_of(old(buf).chars(), old(buf).pos)),
        final(buf).mode == old(buf).mode,
{
    let ghost s = buf.chars();
    if buf.pos.offset > 0 {
        buf.pos.offset = buf.pos.offset - 1;
    } else if buf.pos.index > 0 {
        proof {
            lemma_line_in_text(s, (buf.pos.index - 1) as nat);
        }
        let index = buf.pos.index - 1;
        let offset = rope_line_len_bytes(&buf.text, index);
        buf.pos = Position { index, offset };
    }
}

pub fn move_up(buf: &mut Buffer)
    requires
        old(buf).wf(),
    ensures
        moved_to(*old(buf), *final(buf), up_of(old(buf).chars(), old(buf).pos)),
        final(buf).mode == old(buf).mode,
{
    let ghost s = buf.chars();
    if buf.pos.index > 0 {
        proof {
            lemma_line_in_text(s, (buf.pos.index - 1) as nat);
        }
        let index = buf.pos.index - 1;
        let len = rope_line_len_bytes(&buf.text, index);
        let offset = if buf.pos.offset < len { buf.pos.offset } else { len };
        buf.pos = Position { index, offset };
    }
}

pub fn move_down(buf: &mut Buffer)
    requires
        old(buf).wf(),
    ensures
        moved_to(*old(buf), *final(buf), down_of(old(buf).chars(), old(buf).pos)),
        final(buf).mode == old(buf).mode,
{
    let ghost s = buf.chars();
    let lines = rope_len_lines(&buf.text);
    if buf.pos.index < lines - 1 {
        proof {
            lemma_line_in_text(s, (buf.pos.index + 1) as nat);
        }
        let index = buf.pos.index + 1;
        let len = rope_line_len_bytes(&buf.text, index);
        let offset = if buf.pos.offset < len { buf.pos.offset } else { len };
        buf.pos = Position { index, offset };
    }
}

/// Insert mode, the cursor past the last byte of its line.
pub fn insert_mode_line_end(buf: &mut Buffer)
    requires
        old(buf).wf(),
    ensures
        moved_to(
            *old(buf),
            *final(buf),
            Position {
                offset: line_len_bytes(old(buf).chars(), old(buf).pos.index as nat) as usize,
                ..old(buf).pos
            },
        ),
        final(buf).mode == CursorMode::Insert,
{
    proof {
        lemma_line_in_text(buf.chars(), buf.pos.index as nat);
    }
    buf.pos.offset = rope_line_len_bytes(&buf.text, buf.pos.index);
    buf.mode = CursorMode::Insert;
}

/// Insert mode, the cursor at the start of its line.
pub fn insert_mode_line_start(buf: &mut Buffer)
    requires
        old(buf).wf(),
    ensures
        moved_to(*old(buf), *final(buf), Position { offset: 0, ..old(buf).pos }),
        final(buf).mode == CursorMode::Insert,
{
    proof {
        lemma_line_in_text(buf.chars(), buf.pos.index as nat);
    }
    buf.pos.offset = 0;
    buf.mode = CursorMode::Insert;
}

} // verus!
