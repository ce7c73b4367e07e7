//! A document: one buffer and its history.
use vstd::prelude::*;
use crate::buffer::Buffer;
use crate::history::{origin, tracks, Edit, History};

verus! {

pub struct Document {
    pub buf: Buffer,
    pub history: History,
}

impl Document {
    /// The cursor points into the text, and the history describes how the
    /// text came about.
    pub open spec fn wf(&self) -> bool {
        self.buf.wf() && tracks(self.history, self.buf.chars())
    }

    /// The text before any change that can still be undone.
    pub open spec fn origin_text(&self) -> Seq<char> {
        origin(self.buf.chars(), self.history.done_edits())
    }

    /// A document over `text`, the cursor at its start and no history.
    pub fn from_text(text: &str) -> (r: Document)
        ensures
            r.buf.chars() == text@,
            r.buf.pos.index == 0,
            r.buf.pos.offset == 0,
            r.buf.selection.is_none(),
            r.buf.wf(),
            r.history.done_edits() == Seq::<Edit>::empty(),
            r.history.undone_edits() == Seq::<Edit>::empty(),
            r.wf(),
            r.origin_text() == text@,
    {
        Document { buf: Buffer::from_text(text), history: History::new() }
    }

    pub fn buf(&self) -> (r: &Buffer)
        ensures
            r == &self.buf,
    {
        &self.buf
    }
}

/// Once every recorded change is undone, the text is the one the document
/// started from.
pub proof fn lemma_all_undone_is_origin(doc: Document)
    requires
        doc.history.done_edits().len() == 0,
    ensures
        doc.buf.chars() == doc.origin_text(),
{
}

} // verus!
