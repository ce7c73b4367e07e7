//! Edits at the cursor: each changes the text, records the change, then
//! moves the cursor.
use vstd::prelude::*;
use crate::buffer::{pos_valid, cursor_char, lemma_position_round_trip, pos_of, Buffer, CursorMode};
use crate::command::history as record;
use crate::document::Document;
use crate::history::{lemma_push_delete, lemma_push_insert, pushed, ChangeKind, Edit};
use crate::text::{
    char_to_byte_of, lemma_byte_len_mono, lemma_char_byte_round_trip, lemma_count_insert, lemma_line_in_text, line_start_byte,
    line_start_char, rope_char, rope_char_to_byte, rope_insert_char, rope_len_bytes, rope_len_chars, rope_len_lines,
    rope_line_to_byte, rope_line_to_char, rope_remove,
};

verus! {

/// Only text, cursor and history changed; the rest of the buffer stays.
pub open spec fn keeps_view(b0: Buffer, b1: Buffer) -> bool {
    &&& b1.vscroll == b0.vscroll
    &&& b1.selection == b0.selection
    &&& b1.wf()
}

/// Puts the cursor on char `c`.
fn place_at_char(buf: &mut Buffer, c: usize)
    requires
        c <= old(buf).chars().len(),
    ensures
        final(buf).pos == pos_of(old(buf).chars(), char_to_byte_of(old(buf).chars(), c as nat)),
        cursor_char(*final(buf)) == c,
        final(buf).chars() == old(buf).chars(),
        final(buf).mode == old(buf).mode,
        keeps_view(*old(buf), *final(buf)),
{
    let b = rope_char_to_byte(&buf.text, c);
    let _ = rope_len_bytes(&buf.text);
    proof {
        let t = buf.chars();
        lemma_byte_len_mono(t, c as int, t.len() as int);
        assert(t.take(t.len() as int) =~= t);
        lemma_position_round_trip(t, b as nat);
        lemma_char_byte_round_trip(t, c as nat);
    }
    buf.pos = buf.cursor_pos(b);
}

/// Types `ch` at the cursor; the cursor goes past it.
pub fn insert_char(doc: &mut Document, ch: char)
    requires
        old(doc).buf.wf(),
    ensures
        ({
            let s = old(doc).buf.chars();
            let c = cursor_char(old(doc).buf);
            let t = final(doc).buf.chars();
            &&& t == s.insert(c as int, ch)
            &&& final(doc).history.done_edits() == pushed(
                old(doc).history.done_edits(),
                ChangeKind::Insert,
                c,
                ch,
                true,
            )
            &&& final(doc).history.undone_edits() == Seq::<Edit>::empty()
            &&& final(doc).buf.pos == pos_of(t, char_to_byte_of(t, c + 1))
            &&& cursor_char(final(doc).buf) == c + 1
        }),
        final(doc).buf.mode == old(doc).buf.mode,
        keeps_view(old(doc).buf, final(doc).buf),
        old(doc).wf() ==> final(doc).wf() && final(doc).origin_text() == old(doc).origin_text(),
{
    let ghost s = doc.buf.chars();
    let ghost d = doc.history.done_edits();
    let c = doc.buf.char_pos();
    rope_insert_char(&mut doc.buf.text, c, ch);
    record::insert_char(ch, c, &mut doc.history);
    proof {
        if old(doc).wf() {
            lemma_push_insert(s, d, c as nat, ch, true);
        }
    }
    let _ = rope_len_chars(&doc.buf.text);
    place_at_char(&mut doc.buf, c + 1);
}

/// Breaks the line at the cursor; the cursor goes to the start of the new line.
pub fn new_line(doc: &mut Document)
    requires
        old(doc).buf.wf(),
    ensures
        ({
            let s = old(doc).buf.chars();
            let c = cursor_char(old(doc).buf);
            let t = final(doc).buf.chars();
            &&& t == s.insert(c as int, '\n')
            &&& final(doc).history.done_edits() == pushed(
                old(doc).history.done_edits(),
                ChangeKind::Insert,
                c,
                '\n',
                true,
            )
            &&& final(doc).history.undone_edits() == Seq::<Edit>::empty()
            &&& final(doc).buf.pos == pos_of(t, char_to_byte_of(t, c + 1))
            &&& cursor_char(final(doc).buf) == c + 1
        }),
        final(doc).buf.mode == old(doc).buf.mode,
        keeps_view(old(doc).buf, final(doc).buf),
        old(doc).wf() ==> final(doc).wf() && final(doc).origin_text() == old(doc).origin_text(),
{
    insert_char(doc, '\n');
}

/// Deletes the char under the cursor, if there is one; the deletion is a
/// step of its own. The cursor stays where it was while it still points into
/// the text, else it goes to where the deleted char stood.
pub fn delete_char(doc: &mut Document)
    requires
        old(doc).buf.wf(),
    ensures
        ({
            let s = old(doc).buf.chars();
            let c = cursor_char(old(doc).buf);
            let t = final(doc).buf.chars();
            if c < s.len() {
                &&& t == s.remove(c as int)
                &&& final(doc).history.done_edits() == pushed(
                    old(doc).history.done_edits(),
                    ChangeKind::Delete,
                    c,
                    s[c as int],
                    false,
                )
                &&& final(doc).history.undone_edits() == Seq::<Edit>::empty()
                &&& final(doc).buf.pos == if pos_valid(t, old(doc).buf.pos) {
                    old(doc).buf.pos
                } else {
                    pos_of(t, char_to_byte_of(t, c))
                }
            } else {
                &&& t == s
                &&& final(doc).history == old(doc).history
                &&& final(doc).buf.pos == old(doc).buf.pos
            }
        }),
        final(doc).buf.mode == old(doc).buf.mode,
        keeps_view(old(doc).buf, final(doc).buf),
        old(doc).wf() ==> final(doc).wf() && final(doc).origin_text() == old(doc).origin_text(),
{
    let ghost s = doc.buf.chars();
    let c = doc.buf.char_pos();
    let n = rope_len_chars(&doc.buf.text);
    if c < n {
        let ch = rope_char(&doc.buf.text, c);
        rope_remove(&mut doc.buf.text, c, c + 1);
        proof {
            assert(s.take(c as int) + s.skip(c + 1) =~= s.remove(c as int));
        }
        record::delete_char_inplace(ch, c, &mut doc.history);
        proof {
            if old(doc).wf() {
                lemma_push_delete(s, old(doc).history.done_edits(), c as nat, false);
            }
        }
        if !doc.buf.pos_is_valid() {
            place_at_char(&mut doc.buf, c);
        }
    }
}

/// Deletes the char before the cursor, if there is one; the cursor goes
/// where it stood.
pub fn delete_char_backspace(doc: &mut Document)
    requires
        old(doc).buf.wf(),
    ensures
        ({
            let s = old(doc).buf.chars();
            let c = cursor_char(old(doc).buf);
            let t = final(doc).buf.chars();
            if c > 0 {
                &&& t == s.remove(c - 1)
                &&& final(doc).history.done_edits() == pushed(
                    old(doc).history.done_edits(),
                    ChangeKind::Delete,
                    (c - 1) as nat,
                    s[c - 1],
                    true,
                )
                &&& final(doc).history.undone_edits() == Seq::<Edit>::empty()
                &&& final(doc).buf.pos == pos_of(t, char_to_byte_of(t, (c - 1) as nat))
                &&& cursor_char(final(doc).buf) == c - 1
            } else {
                &&& t == s
                &&& final(doc).history == old(doc).history
                &&& final(doc).buf.pos == old(doc).buf.pos
            }
        }),
        final(doc).buf.mode == old(doc).buf.mode,
        keeps_view(old(doc).buf, final(doc).buf),
        old(doc).wf() ==> final(doc).wf() && final(doc).origin_text() == old(doc).origin_text(),
{
    let ghost s = doc.buf.chars();
    let c = doc.buf.char_pos();
    if c > 0 {
        let ch = rope_char(&doc.buf.text, c - 1);
        rope_remove(&mut doc.buf.text, c - 1, c);
        proof {
            assert(s.take(c - 1) + s.skip(c as int) =~= s.remove(c - 1));
        }
        record::delete_char(ch, c - 1, &mut doc.history);
        proof {
            if old(doc).wf() {
                lemma_push_delete(s, old(doc).history.done_edits(), (c - 1) as nat, true);
            }
        }
        place_at_char(&mut doc.buf, c - 1);
    }
}

/// Opens an empty line below the cursor's line and enters insert mode on it.
pub fn insert_mode_line_next(doc: &mut Document)
    requires
        old(doc).buf.wf(),
    ensures
        ({
            let s = old(doc).buf.chars();
            let i = old(doc).buf.pos.index;
            let c = line_start_char(s, (i + 1) as nat);
            let t = final(doc).buf.chars();
            &&& t == s.insert(c as int, '\n')
            &&& final(doc).history.done_edits() == pushed(
                old(doc).history.done_edits(),
                ChangeKind::Insert,
                c,
                '\n',
                true,
            )
            &&& final(doc).history.undone_edits() == Seq::<Edit>::empty()
            &&& final(doc).buf.pos == pos_of(t, line_start_byte(t, (i + 1) as nat))
        }),
        final(doc).buf.mode == CursorMode::Insert,
        keeps_view(old(doc).buf, final(doc).buf),
        old(doc).wf() ==> final(doc).wf() && final(doc).origin_text() == old(doc).origin_text(),
{
    let ghost s = doc.buf.chars();
    let i = doc.buf.pos.index;
    let _ = rope_len_lines(&doc.buf.text);
    proof {
        lemma_line_in_text(s, i as nat);
    }
    let c = rope_line_to_char(&doc.buf.text, i + 1);
    rope_insert_char(&mut doc.buf.text, c, '\n');
    record::insert_char('\n', c, &mut doc.history);
    proof {
        if old(doc).wf() {
            lemma_push_insert(s, old(doc).history.done_edits(), c as nat, '\n', true);
        }
    }
    proof {
        lemma_count_insert(s, c as int, '\n');
        lemma_line_in_text(doc.buf.chars(), i as nat);
    }
    let b = rope_line_to_byte(&doc.buf.text, i + 1);
    doc.buf.pos = doc.buf.cursor_pos(b);
    doc.buf.mode = CursorMode::Insert;
}

/// Opens an empty line above the cursor's line and enters insert mode on it.
pub fn insert_mode_line_prev(doc: &mut Document)
    requires
        old(doc).buf.wf(),
    ensures
        ({
            let s = old(doc).buf.chars();
            let i = old(doc).buf.pos.index;
            let c = line_start_char(s, i as nat);
            let t = final(doc).buf.chars();
            &&& t == s.insert(c as int, '\n')
            &&& final(doc).history.done_edits() == pushed(
                old(doc).history.done_edits(),
                ChangeKind::Insert,
                c,
                '\n',
                true,
            )
            &&& final(doc).history.undone_edits() == Seq::<Edit>::empty()
            &&& final(doc).buf.pos == pos_of(t, line_start_byte(t, i as nat))
        }),
        final(doc).buf.mode == CursorMode::Insert,
        keeps_view(old(doc).buf, final(doc).buf),
        old(doc).wf() ==> final(doc).wf() && final(doc).origin_text() == old(doc).origin_text(),
{
    let ghost s = doc.buf.chars();
    let i = doc.buf.pos.index;
    proof {
        lemma_line_in_text(s, i as nat);
    }
    let c = rope_line_to_char(&doc.buf.text, i);
    rope_insert_char(&mut doc.buf.text, c, '\n');
    record::insert_char('\n', c, &mut doc.history);
    proof {
        if old(doc).wf() {
            lemma_push_insert(s, old(doc).history.done_edits(), c as nat, '\n', true);
        }
    }
    proof {
        lemma_count_insert(s, c as int, '\n');
        lemma_line_in_text(doc.buf.chars(), i as nat);
    }
    let b = rope_line_to_byte(&doc.buf.text, i);
    doc.buf.pos = doc.buf.cursor_pos(b);
    doc.buf.mode = CursorMode::Insert;
}

} // verus!
