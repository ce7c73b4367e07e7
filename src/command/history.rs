//! Recording edits, and undo and redo on a document.
use vstd::prelude::*;
use crate::buffer::{pos_of, pos_valid};
use crate::document::Document;
use crate::history::{
    lemma_redo_keeps_origin, lemma_undo_keeps_origin,
    fits_apply, fits_revert, pushed, redo_target, redone_by, undone_by, ChangeKind, Edit, Finish, History,
};
use crate::text::{rope_len_chars, char_to_byte_of, lemma_byte_len_mono, rope_char_to_byte, rope_chars};

verus! {

/// Records a typed char, which later typing just past it may join.
pub fn insert_char(ch: char, pos: usize, history: &mut History)
    ensures
        final(history).done_edits() == pushed(
            old(history).done_edits(),
            ChangeKind::Insert,
            pos as nat,
            ch,
            true,
        ),
        final(history).undone_edits() == Seq::<Edit>::empty(),
{
    history.push(ChangeKind::Insert, pos, ch, Finish::Keep);
}

/// Records a char deleted before the cursor, which a later backspace just
/// before it may join.
pub fn delete_char(ch: char, pos: usize, history: &mut History)
    ensures
        final(history).done_edits() == pushed(
            old(history).done_edits(),
            ChangeKind::Delete,
            pos as nat,
            ch,
            true,
        ),
        final(history).undone_edits() == Seq::<Edit>::empty(),
{
    history.push(ChangeKind::Delete, pos, ch, Finish::Keep);
}

/// Records a char deleted under the cursor: a step of its own, closed at once.
pub fn delete_char_inplace(ch: char, pos: usize, history: &mut History)
    ensures
        final(history).done_edits() == pushed(
            old(history).done_edits(),
            ChangeKind::Delete,
            pos as nat,
            ch,
            false,
        ),
        final(history).undone_edits() == Seq::<Edit>::empty(),
{
    history.push(ChangeKind::Delete, pos, ch, Finish::Commit);
}

/// Takes back the last change and puts the cursor where it started.
pub fn undo(doc: &mut Document)
    requires
        old(doc).buf.wf(),
    ensures
        final(doc).buf.wf(),
        final(doc).buf.mode == old(doc).buf.mode,
        final(doc).buf.vscroll == old(doc).buf.vscroll,
        final(doc).buf.selection == old(doc).buf.selection,
        ({
            let d = old(doc).history.done_edits();
            let s = old(doc).buf.chars();
            if d.len() > 0 && fits_revert(s, d.last()) {
                final(doc).buf.pos == pos_of(
                    final(doc).buf.chars(),
                    char_to_byte_of(final(doc).buf.chars(), d.last().pos),
                )
            } else {
                final(doc).buf.pos == old(doc).buf.pos
            }
        }),
        undone_by(old(doc).history, old(doc).buf.chars(), final(doc).history, final(doc).buf.chars()),
        old(doc).wf() ==> final(doc).wf() && final(doc).origin_text() == old(doc).origin_text(),
        old(doc).wf() && old(doc).history.done_edits().len() > 0 ==> final(doc).history.done_edits().len()
            == old(doc).history.done_edits().len() - 1,
{
    let ghost d0 = *old(doc);
    if let Some(c) = doc.history.undo(&mut doc.buf.text) {
        let b = rope_char_to_byte(&doc.buf.text, c);
        proof {
            let t = doc.buf.chars();
            lemma_byte_len_mono(t, c as int, t.len() as int);
            assert(t.take(t.len() as int) =~= t);
        }
        doc.buf.pos = doc.buf.cursor_pos(b);
    }
    proof {
        if d0.wf() {
            lemma_undo_keeps_origin(d0.history, d0.buf.chars(), doc.history, doc.buf.chars());
        }
    }
}

/// Makes again the change undone last and puts the cursor where the redo
/// leaves it.
pub fn redo(doc: &mut Document)
    requires
        old(doc).buf.wf(),
    ensures
        final(doc).buf.wf(),
        final(doc).buf.mode == old(doc).buf.mode,
        final(doc).buf.vscroll == old(doc).buf.vscroll,
        final(doc).buf.selection == old(doc).buf.selection,
        redone_by(old(doc).history, old(doc).buf.chars(), final(doc).history, final(doc).buf.chars()),
        ({
            let u = old(doc).history.undone_edits();
            let s = old(doc).buf.chars();
            if u.len() > 0 && fits_apply(s, u.last()) {
                final(doc).buf.pos == pos_of(
                    final(doc).buf.chars(),
                    char_to_byte_of(final(doc).buf.chars(), redo_target(u.last())),
                )
            } else {
                final(doc).buf.pos == old(doc).buf.pos
            }
        }),
        old(doc).wf() ==> final(doc).wf() && final(doc).origin_text() == old(doc).origin_text(),
        old(doc).wf() && old(doc).history.undone_edits().len() > 0 ==> final(doc).history.undone_edits().len()
            == old(doc).history.undone_edits().len() - 1,
{
    let ghost d0 = *old(doc);
    let ghost u = old(doc).history.undone_edits();
    let ghost s = old(doc).buf.chars();
    if let Some(c) = doc.history.redo(&mut doc.buf.text) {
        let b = rope_char_to_byte(&doc.buf.text, c);
        let _ = rope_len_chars(&doc.buf.text);
        proof {
            assert(redo_target(u.last()) <= doc.buf.chars().len());
            let t = doc.buf.chars();
            lemma_byte_len_mono(t, c as int, t.len() as int);
            assert(t.take(t.len() as int) =~= t);
        }
        doc.buf.pos = doc.buf.cursor_pos(b);
    }
    proof {
        if d0.wf() {
            lemma_redo_keeps_origin(d0.history, d0.buf.chars(), doc.history, doc.buf.chars());
        }
    }
}

} // verus!
