//! Line selection, and the text that a selection covers.
use vstd::prelude::*;
use crate::buffer::{cursor_char, sel_extended, Buffer, Position, Selection};
use crate::command::movement::{down_of, move_down};
use crate::document::Document;
use crate::text::{
    char_to_byte_of, lemma_byte_len_mono, lemma_line_in_text, line_len_chars, line_start_byte,
    line_start_char, rope_char_to_byte, rope_len_chars, rope_line_len_chars, rope_line_to_byte,
    rope_line_to_char, rope_slice_string,
};

verus! {

/// Offset of the last char of line `i` from the line's start (0 for an empty line).
pub open spec fn last_char_ofs(s: Seq<char>, i: nat) -> nat {
    if line_len_chars(s, i) > 0 {
        (line_len_chars(s, i) - 1) as nat
    } else {
        0
    }
}

/// Where `select_line` takes its line from: the next one when the cursor
/// already stands on the last char of its own.
pub open spec fn select_from(b: Buffer) -> Position {
    let s = b.chars();
    let i = b.pos.index as nat;
    if cursor_char(b) == line_start_char(s, i) + last_char_ofs(s, i) {
        down_of(s, b.pos)
    } else {
        b.pos
    }
}

/// Offset of the last char of line `i`, and the line's first char index.
fn line_last_char(buf: &Buffer, i: usize) -> (r: (usize, usize))
    requires
        i < crate::text::line_count(buf.chars()),
    ensures
        r.0 == line_start_char(buf.chars(), i as nat),
        r.1 == last_char_ofs(buf.chars(), i as nat),
        r.0 + r.1 <= buf.chars().len(),
        r.0 + r.1 < buf.chars().len() || line_len_chars(buf.chars(), i as nat) == 0,
{
    proof {
        lemma_line_in_text(buf.chars(), i as nat);
    }
    let start = rope_line_to_char(&buf.text, i);
    let len = rope_line_len_chars(&buf.text, i);
    let ofs = if len > 0 { len - 1 } else { 0 };
    (start, ofs)
}

/// Selects the cursor's line up to its last char, or the next line when the
/// cursor is already on that char; a selection that exists keeps its anchor.
/// The cursor goes to the selection's head.
pub fn select_line(doc: &mut Document)
    requires
        old(doc).buf.wf(),
    ensures
        ({
            let b0 = old(doc).buf;
            let s = b0.chars();
            let i = select_from(b0).index as nat;
            let start = line_start_char(s, i);
            let end = start + last_char_ofs(s, i);
            let anchor = match b0.selection {
                Some(x) => x.anchor as nat,
                None => start,
            };
            &&& final(doc).buf.selection == Some(
                Selection { anchor: anchor as usize, head: end as usize },
            )
            &&& final(doc).buf.pos == (Position {
                index: i as usize,
                offset: (char_to_byte_of(s, end) - line_start_byte(s, i)) as usize,
            })
        }),
        final(doc).buf.chars() == old(doc).buf.chars(),
        final(doc).buf.mode == old(doc).buf.mode,
        final(doc).buf.vscroll == old(doc).buf.vscroll,
        final(doc).buf.wf(),
        final(doc).history == old(doc).history,
        old(doc).wf() ==> final(doc).wf() && final(doc).origin_text() == old(doc).origin_text(),
{
    let ghost s = doc.buf.chars();
    let _ = rope_len_chars(&doc.buf.text);
    let c0 = doc.buf.char_pos();
    let (ls, lo) = line_last_char(&doc.buf, doc.buf.pos.index);
    if c0 == ls + lo {
        move_down(&mut doc.buf);
    }
    let i = doc.buf.pos.index;
    let (start, ofs) = line_last_char(&doc.buf, i);
    let end = start + ofs;
    doc.buf.new_selection(start);
    doc.buf.update_selection(end);
    let eb = rope_char_to_byte(&doc.buf.text, end);
    let sb = rope_line_to_byte(&doc.buf.text, i);
    proof {
        lemma_byte_len_mono(s, start as int, end as int);
        lemma_byte_len_mono(s, end as int, s.len() as int);
        assert(s.take(s.len() as int) =~= s);
    }
    doc.buf.pos = Position { index: i, offset: eb - sb };
}

/// The text that the selection covers, with the char under a forward head
/// included; `None` without a selection. Ends past the text are cut to it.
pub fn selected_text(buf: &Buffer) -> (r: Option<String>)
    ensures
        match buf.selection {
            None => r.is_none(),
            Some(x) => {
                let n = buf.chars().len();
                let (a, b) = sel_extended(x, n);
                let lo = if a <= n { a as int } else { n as int };
                let hi = if b <= n { b as int } else { n as int };
                &&& r.is_some()
                &&& r.unwrap()@ == buf.chars().subrange(lo, if lo <= hi { hi } else { lo })
            },
        },
{
    match buf.selection {
        None => None,
        Some(x) => {
            let n = rope_len_chars(&buf.text);
            let (a, b) = x.extended_range(n);
            let lo = if a <= n { a } else { n };
            let hi = if b <= n { b } else { n };
            let hi = if lo <= hi { hi } else { lo };
            Some(rope_slice_string(&buf.text, lo, hi))
        },
    }
}

} // verus!
