//! Undo and redo: a stack of changes that can be undone and one of changes
//! that can be redone, with consecutive typing merged into one change.
use vstd::prelude::*;
use crate::text::{rope_chars, rope_insert_char, rope_len_chars, rope_remove};

verus! {

#[derive(Debug, Clone, Copy, PartialEq, Eq, Structural)]
pub enum ChangeKind {
    Insert,
    Delete,
}

/// Whether a new change may still absorb the next one (`Keep`) or is closed
/// at once (`Commit`).
#[derive(Debug, Clone, Copy, PartialEq, Eq, Structural)]
pub enum Finish {
    Keep,
    Commit,
}

/// One undo step: chars inserted or deleted at a char index.
#[derive(Debug)]
pub struct Change {
    pub kind: ChangeKind,
    pub pos: usize,
    pub content: Vec<char>,
    pub open: bool,
}

/// What a change stands for.
pub ghost struct Edit {
    pub kind: ChangeKind,
    pub pos: nat,
    pub content: Seq<char>,
    pub open: bool,
}

impl View for Change {
    type V = Edit;

    open spec fn view(&self) -> Edit {
        Edit { kind: self.kind, pos: self.pos as nat, content: self.content@, open: self.open }
    }
}

pub open spec fn edits(v: Seq<Change>) -> Seq<Edit> {
    v.map_values(|c: Change| c@)
}

/// The text after the change is made.
pub open spec fn apply_edit(s: Seq<char>, e: Edit) -> Seq<char> {
    match e.kind {
        ChangeKind::Insert => s.take(e.pos as int) + e.content + s.skip(e.pos as int),
        ChangeKind::Delete => s.take(e.pos as int) + s.skip((e.pos + e.content.len()) as int),
    }
}

/// The text after the change is taken back.
pub open spec fn revert_edit(s: Seq<char>, e: Edit) -> Seq<char> {
    match e.kind {
        ChangeKind::Insert => s.take(e.pos as int) + s.skip((e.pos + e.content.len()) as int),
        ChangeKind::Delete => s.take(e.pos as int) + e.content + s.skip(e.pos as int),
    }
}

/// The change can be made on `s`.
pub open spec fn fits_apply(s: Seq<char>, e: Edit) -> bool {
    match e.kind {
        ChangeKind::Insert => e.pos <= s.len(),
        ChangeKind::Delete => e.pos + e.content.len() <= s.len(),
    }
}

/// The change can be taken back on `s`.
pub open spec fn fits_revert(s: Seq<char>, e: Edit) -> bool {
    match e.kind {
        ChangeKind::Insert => e.pos + e.content.len() <= s.len(),
        ChangeKind::Delete => e.pos <= s.len(),
    }
}

/// Where the cursor goes after a redo.
pub open spec fn redo_target(e: Edit) -> nat {
    match e.kind {
        ChangeKind::Insert => e.pos + e.content.len(),
        ChangeKind::Delete => e.pos,
    }
}

/// A char at `pos` continues the open change `top`: typing goes on just past
/// it, a backspace deletes the char just before it.
pub open spec fn continues(top: Edit, kind: ChangeKind, pos: nat) -> bool {
    top.open && top.kind == kind && match kind {
        ChangeKind::Insert => pos == top.pos + top.content.len(),
        ChangeKind::Delete => pos + 1 == top.pos,
    }
}

/// `top` with the char `ch` at `pos` added.
pub open spec fn merged(top: Edit, pos: nat, ch: char) -> Edit {
    match top.kind {
        ChangeKind::Insert => Edit { content: top.content.push(ch), ..top },
        ChangeKind::Delete => Edit { pos, content: seq![ch] + top.content, ..top },
    }
}

/// The undo stack after a char `ch` is recorded at `pos`.
pub open spec fn pushed(done: Seq<Edit>, kind: ChangeKind, pos: nat, ch: char, keep: bool) -> Seq<
    Edit,
> {
    if done.len() > 0 && keep && continues(done.last(), kind, pos) {
        done.drop_last().push(merged(done.last(), pos, ch))
    } else {
        let closed = if done.len() > 0 {
            done.drop_last().push(Edit { open: false, ..done.last() })
        } else {
            done
        };
        closed.push(Edit { kind, pos, content: seq![ch], open: keep })
    }
}

/// Taking back the changes of `d`, most recent first, works step by step
/// on `s`: each fits the text it meets, and an insertion finds its chars
/// where it put them.
pub open spec fn replays(s: Seq<char>, d: Seq<Edit>) -> bool
    decreases d.len(),
{
    if d.len() == 0 {
        true
    } else {
        let e = d.last();
        &&& fits_revert(s, e)
        &&& e.kind == ChangeKind::Insert ==> s.subrange(e.pos as int, (e.pos + e.content.len()) as int)
            == e.content
        &&& replays(revert_edit(s, e), d.drop_last())
    }
}

/// The text before any change of `d` was made.
pub open spec fn origin(s: Seq<char>, d: Seq<Edit>) -> Seq<char>
    decreases d.len(),
{
    if d.len() == 0 {
        s
    } else {
        origin(revert_edit(s, d.last()), d.drop_last())
    }
}

/// Making the changes of `u` again, most recently undone first, works step
/// by step on `s`: each fits the text it meets, and a deletion finds the
/// chars it removes.
pub open spec fn redoable(s: Seq<char>, u: Seq<Edit>) -> bool
    decreases u.len(),
{
    if u.len() == 0 {
        true
    } else {
        let e = u.last();
        &&& fits_apply(s, e)
        &&& e.kind == ChangeKind::Delete ==> s.subrange(e.pos as int, (e.pos + e.content.len()) as int)
            == e.content
        &&& redoable(apply_edit(s, e), u.drop_last())
    }
}

/// The history describes how text `s` came about: every recorded change can
/// be undone, and every undone one redone, in order.
pub open spec fn tracks(h: History, s: Seq<char>) -> bool {
    replays(s, h.done_edits()) && redoable(s, h.undone_edits())
}

/// What an undo returns: where the last change started, when there is one
/// and it fits the text.
pub open spec fn undo_result(d: Seq<Edit>, s: Seq<char>) -> Option<usize> {
    if d.len() > 0 && fits_revert(s, d.last()) {
        Some(d.last().pos as usize)
    } else {
        None
    }
}

/// An undo took history `h0` and text `s0` to `h1` and `s1`: the last change
/// is taken back and moves to the redo stack; or, when there is none
/// or it does not fit, nothing changes.
pub open spec fn undone_by(h0: History, s0: Seq<char>, h1: History, s1: Seq<char>) -> bool {
    let d = h0.done_edits();
    if d.len() > 0 && fits_revert(s0, d.last()) {
        &&& s1 == revert_edit(s0, d.last())
        &&& h1.done_edits() == d.drop_last()
        &&& h1.undone_edits() == h0.undone_edits().push(d.last())
    } else {
        &&& s1 == s0
        &&& h1.done_edits() == d
        &&& h1.undone_edits() == h0.undone_edits()
    }
}

/// What a redo returns: where the cursor goes, when there is a change to redo
/// and it fits the text.
pub open spec fn redo_result(u: Seq<Edit>, s: Seq<char>) -> Option<usize> {
    if u.len() > 0 && fits_apply(s, u.last()) {
        Some(redo_target(u.last()) as usize)
    } else {
        None
    }
}

/// A redo took history `h0` and text `s0` to `h1` and `s1`: the change undone
/// last is made again and moves back to the undo stack; or, when there is
/// none or it does not fit, nothing changes.
pub open spec fn redone_by(h0: History, s0: Seq<char>, h1: History, s1: Seq<char>) -> bool {
    let u = h0.undone_edits();
    if u.len() > 0 && fits_apply(s0, u.last()) {
        &&& s1 == apply_edit(s0, u.last())
        &&& h1.undone_edits() == u.drop_last()
        &&& h1.done_edits() == h0.done_edits().push(u.last())
    } else {
        &&& s1 == s0
        &&& h1.done_edits() == h0.done_edits()
        &&& h1.undone_edits() == u
    }
}

/// Changes that can be undone, most recent last, and changes that can be
/// redone, most recently undone last.
pub struct History {
    pub done: Vec<Change>,
    pub undone: Vec<Change>,
}

/// Puts `content` into the text at char `pos`, one char at a time.
fn insert_chars(text: &mut ropey::Rope, pos: usize, content: &Vec<char>)
    requires
        pos <= rope_chars(*old(text)).len(),
    ensures
        rope_chars(*final(text)) == rope_chars(*old(text)).take(pos as int) + content@
            + rope_chars(*old(text)).skip(pos as int),
{
    let ghost s = rope_chars(*text);
    let mut k: usize = 0;
    while k < content.len()
        invariant
            k <= content.len(),
            pos <= s.len(),
            rope_chars(*text) == s.take(pos as int) + content@.take(k as int) + s.skip(pos as int),
        decreases content.len() - k,
    {
        let n = rope_len_chars(text);
        let ghost before = rope_chars(*text);
        rope_insert_char(text, pos + k, content[k]);
        proof {
            assert(content@.take(k as int + 1) =~= content@.take(k as int).push(content@[k as int]));
            assert(before.insert(pos + k, content@[k as int]) =~= s.take(pos as int)
                + content@.take(k as int + 1) + s.skip(pos as int));
        }
        k = k + 1;
    }
    proof {
        assert(content@.take(k as int) =~= content@);
    }
}

impl History {
    pub open spec fn done_edits(&self) -> Seq<Edit> {
        edits(self.done@)
    }

    pub open spec fn undone_edits(&self) -> Seq<Edit> {
        edits(self.undone@)
    }

    pub fn new() -> (r: History)
        ensures
            r.done_edits() == Seq::<Edit>::empty(),
            r.undone_edits() == Seq::<Edit>::empty(),
    {
        let r = History { done: Vec::new(), undone: Vec::new() };
        proof {
            assert(r.done_edits() =~= Seq::<Edit>::empty());
            assert(r.undone_edits() =~= Seq::<Edit>::empty());
        }
        r
    }

    /// Records the char `ch` inserted or deleted at char index `pos`: it
    /// extends the open change on top when it continues it and `finish` is
    /// `Keep`, else it closes that change and starts its own. The redo stack
    /// is emptied.
    pub fn push(&mut self, kind: ChangeKind, pos: usize, ch: char, finish: Finish)
        ensures
            final(self).done_edits() == pushed(
                old(self).done_edits(),
                kind,
                pos as nat,
                ch,
                finish == Finish::Keep,
            ),
            final(self).undone_edits() == Seq::<Edit>::empty(),
    {
        let ghost d = old(self).done_edits();
        self.undone = Vec::new();
        let keep = match finish {
            Finish::Keep => true,
            Finish::Commit => false,
        };
        let fresh = Change { kind, pos, content: vec![ch], open: keep };
        proof {
            assert(fresh.content@ =~= seq![ch]);
        }
        if self.done.len() > 0 {
            let mut top = self.done.pop().unwrap();
            proof {
                assert(edits(self.done@) =~= d.drop_last());
            }
            let same_kind = match (top.kind, kind) {
                (ChangeKind::Insert, ChangeKind::Insert) => true,
                (ChangeKind::Delete, ChangeKind::Delete) => true,
                _ => false,
            };
            let adjacent = match kind {
                ChangeKind::Insert => pos >= top.pos && pos - top.pos == top.content.len(),
                ChangeKind::Delete => top.pos > 0 && top.pos - 1 == pos,
            };
            if keep && top.open && same_kind && adjacent {
                match kind {
                    ChangeKind::Insert => {
                        top.content.push(ch);
                    },
                    ChangeKind::Delete => {
                        top.content.insert(0, ch);
                        top.pos = pos;
                        proof {
                            assert(top.content@ =~= seq![ch] + old(self).done@.last().content@);
                        }
                    },
                }
                self.done.push(top);
                proof {
                    assert(self.done_edits() =~= pushed(d, kind, pos as nat, ch, keep));
                }
                return;
            }
            top.open = false;
            self.done.push(top);
            proof {
                assert(!(keep && continues(d.last(), kind, pos as nat)));
                assert(edits(self.done@) =~= d.drop_last().push(Edit { open: false, ..d.last() }));
            }
        } else {
            proof {
                assert(edits(self.done@) =~= d);
            }
        }
        let ghost closed = edits(self.done@);
        self.done.push(fresh);
        proof {
            assert(edits(self.done@) =~= closed.push(fresh@));
        }
        proof {
            assert(self.done_edits() =~= pushed(d, kind, pos as nat, ch, keep));
            assert(self.undone_edits() =~= Seq::<Edit>::empty());
        }
    }

    /// Takes back the most recent change, when there is one and it fits the
    /// text, and moves it to the redo stack. Returns the char index
    /// where it started.
    pub fn undo(&mut self, text: &mut ropey::Rope) -> (r: Option<usize>)
        ensures
            r == undo_result(old(self).done_edits(), rope_chars(*old(text))),
            undone_by(*old(self), rope_chars(*old(text)), *final(self), rope_chars(*final(text))),
    {
        let ghost d = old(self).done_edits();
        let ghost u = old(self).undone_edits();
        let ghost s = rope_chars(*text);
        if self.done.len() == 0 {
            return None;
        }
        let top = self.done.pop().unwrap();
        proof {
            assert(edits(self.done@) =~= d.drop_last());
        }
        let n = rope_len_chars(text);
        let fits = match top.kind {
            ChangeKind::Insert => top.pos <= n && top.content.len() <= n - top.pos,
            ChangeKind::Delete => top.pos <= n,
        };
        if !fits {
            self.done.push(top);
            proof {
                assert(edits(self.done@) =~= d);
            }
            return None;
        }
        match top.kind {
            ChangeKind::Insert => {
                rope_remove(text, top.pos, top.pos + top.content.len());
            },
            ChangeKind::Delete => {
                insert_chars(text, top.pos, &top.content);
            },
        }
        let pos = top.pos;
        self.undone.push(top);
        proof {
            assert(edits(self.undone@) =~= u.push(d.last()));
        }
        Some(pos)
    }

    /// Makes again the change undone last, when there is one and it fits the
    /// text, and moves it back to the undo stack. Returns the char index where
    /// the cursor goes: past inserted chars, or where chars were deleted.
    pub fn redo(&mut self, text: &mut ropey::Rope) -> (r: Option<usize>)
        ensures
            r == redo_result(old(self).undone_edits(), rope_chars(*old(text))),
            redone_by(*old(self), rope_chars(*old(text)), *final(self), rope_chars(*final(text))),
    {
        let ghost d = old(self).done_edits();
        let ghost u = old(self).undone_edits();
        if self.undone.len() == 0 {
            return None;
        }
        let top = self.undone.pop().unwrap();
        proof {
            assert(edits(self.undone@) =~= u.drop_last());
        }
        let n = rope_len_chars(text);
        let fits = match top.kind {
            ChangeKind::Insert => top.pos <= n,
            ChangeKind::Delete => top.pos <= n && top.content.len() <= n - top.pos,
        };
        if !fits {
            self.undone.push(top);
            proof {
                assert(edits(self.undone@) =~= u);
            }
            return None;
        }
        let target = match top.kind {
            ChangeKind::Insert => {
                insert_chars(text, top.pos, &top.content);
                let _ = rope_len_chars(text);
                proof {
                    assert(rope_chars(*text).len() == n + top.content.len());
                }
                top.pos + top.content.len()
            },
            ChangeKind::Delete => {
                rope_remove(text, top.pos, top.pos + top.content.len());
                top.pos
            },
        };
        self.done.push(top);
        proof {
            assert(edits(self.done@) =~= d.push(u.last()));
        }
        Some(target)
    }
}

/// Taking back a change that was just made restores the text: for an
/// insertion always, for a deletion when it recorded the chars it removed.
pub proof fn lemma_undo_restores(s: Seq<char>, e: Edit)
    requires
        fits_apply(s, e),
        e.kind == ChangeKind::Delete ==> s.subrange(e.pos as int, (e.pos + e.content.len()) as int)
            == e.content,
    ensures
        fits_revert(apply_edit(s, e), e),
        revert_edit(apply_edit(s, e), e) == s,
{
    let t = apply_edit(s, e);
    let p = e.pos as int;
    let q = (e.pos + e.content.len()) as int;
    match e.kind {
        ChangeKind::Insert => {
            assert(t.take(p) =~= s.take(p));
            assert(t.skip(q) =~= s.skip(p));
            assert(s.take(p) + s.skip(p) =~= s);
        },
        ChangeKind::Delete => {
            assert(t.take(p) =~= s.take(p));
            assert(t.skip(p) =~= s.skip(q));
            assert(s.take(p) + e.content + s.skip(q) =~= s);
        },
    }
}

/// Making again a change that was just taken back restores the text: for a
/// deletion always, for an insertion when its chars stood where it put them.
pub proof fn lemma_redo_restores(t: Seq<char>, e: Edit)
    requires
        fits_revert(t, e),
        e.kind == ChangeKind::Insert ==> t.subrange(e.pos as int, (e.pos + e.content.len()) as int)
            == e.content,
    ensures
        fits_apply(revert_edit(t, e), e),
        apply_edit(revert_edit(t, e), e) == t,
{
    let s = revert_edit(t, e);
    let p = e.pos as int;
    let q = (e.pos + e.content.len()) as int;
    match e.kind {
        ChangeKind::Insert => {
            assert(s.take(p) =~= t.take(p));
            assert(s.skip(p) =~= t.skip(q));
            assert(t.take(p) + e.content + t.skip(q) =~= t);
        },
        ChangeKind::Delete => {
            assert(s.take(p) =~= t.take(p));
            assert(s.skip(q) =~= t.skip(p));
            assert(t.take(p) + t.skip(p) =~= t);
        },
    }
}

/// A char typed just past an open insertion is undone with it: making the
/// merged change equals making the two one after the other.
pub proof fn lemma_typing_merges(s: Seq<char>, e: Edit, ch: char)
    requires
        e.kind == ChangeKind::Insert,
        fits_apply(s, e),
    ensures
        apply_edit(s, merged(e, e.pos + e.content.len(), ch)) == apply_edit(
            apply_edit(s, e),
            Edit { kind: ChangeKind::Insert, pos: e.pos + e.content.len(), content: seq![ch], open: true },
        ),
{
    let t = apply_edit(s, e);
    let q = e.pos + e.content.len();
    assert(t.take(q as int) =~= s.take(e.pos as int) + e.content);
    assert(t.skip(q as int) =~= s.skip(e.pos as int));
    assert(apply_edit(s, merged(e, q, ch)) =~= apply_edit(
        t,
        Edit { kind: ChangeKind::Insert, pos: q, content: seq![ch], open: true },
    ));
}

/// A backspace just before an open deletion is undone with it: making the
/// merged change equals making the two one after the other.
pub proof fn lemma_backspace_merges(s: Seq<char>, e: Edit, ch: char)
    requires
        e.kind == ChangeKind::Delete,
        e.pos >= 1,
        fits_apply(s, e),
    ensures
        apply_edit(s, merged(e, (e.pos - 1) as nat, ch)) == apply_edit(
            apply_edit(s, e),
            Edit { kind: ChangeKind::Delete, pos: (e.pos - 1) as nat, content: seq![ch], open: true },
        ),
{
    let t = apply_edit(s, e);
    let p = e.pos - 1;
    assert(t.take(p) =~= s.take(p));
    assert(t.skip(p + 1) =~= s.skip((e.pos + e.content.len()) as int));
    assert(apply_edit(s, merged(e, p as nat, ch)) =~= apply_edit(
        t,
        Edit { kind: ChangeKind::Delete, pos: p as nat, content: seq![ch], open: true },
    ));
}

/// Three chars typed one after the other, each just past the one before,
/// make a single undo step, and taking that step back removes all three.
pub proof fn lemma_typing_run_is_one_step(
    s: Seq<char>,
    d: Seq<Edit>,
    c: nat,
    a: char,
    b: char,
    x: char,
)
    requires
        c <= s.len(),
        d.len() == 0 || !continues(d.last(), ChangeKind::Insert, c),
    ensures
        ({
            let d1 = pushed(d, ChangeKind::Insert, c, a, true);
            let d2 = pushed(d1, ChangeKind::Insert, c + 1, b, true);
            let d3 = pushed(d2, ChangeKind::Insert, c + 2, x, true);
            let t = s.insert(c as int, a).insert(c + 1 as int, b).insert(c + 2 as int, x);
            &&& d3.len() == d.len() + 1
            &&& d3.last().content == seq![a, b, x]
            &&& fits_revert(t, d3.last())
            &&& revert_edit(t, d3.last()) == s
        }),
{
    let d1 = pushed(d, ChangeKind::Insert, c, a, true);
    let d2 = pushed(d1, ChangeKind::Insert, c + 1, b, true);
    let d3 = pushed(d2, ChangeKind::Insert, c + 2, x, true);
    assert(d1.last().content =~= seq![a]);
    assert(d2.last().content =~= seq![a, b]);
    assert(d3.last().content =~= seq![a, b, x]);
    let t = s.insert(c as int, a).insert(c + 1 as int, b).insert(c + 2 as int, x);
    assert(t =~= s.take(c as int) + seq![a, b, x] + s.skip(c as int));
    assert(t.take(c as int) =~= s.take(c as int));
    assert(t.skip(c + 3 as int) =~= s.skip(c as int));
    assert(s.take(c as int) + s.skip(c as int) =~= s);
}

/// A char typed anywhere but just past the one before starts an undo step of
/// its own.
pub proof fn lemma_moved_typing_is_two_steps(d: Seq<Edit>, c: nat, p: nat, a: char, b: char)
    requires
        p != c + 1,
        d.len() == 0 || !continues(d.last(), ChangeKind::Insert, c),
    ensures
        pushed(pushed(d, ChangeKind::Insert, c, a, true), ChangeKind::Insert, p, b, true).len()
            == d.len() + 2,
{
}

/// A char typed at `c` that starts a step of its own is taken back by the
/// next undo, which restores the text and returns `c`.
pub proof fn lemma_undo_after_typing(s: Seq<char>, d: Seq<Edit>, c: nat, ch: char)
    requires
        c <= s.len(),
        d.len() == 0 || !continues(d.last(), ChangeKind::Insert, c),
    ensures
        ({
            let e = pushed(d, ChangeKind::Insert, c, ch, true).last();
            let t = s.insert(c as int, ch);
            &&& e.pos == c
            &&& fits_revert(t, e)
            &&& revert_edit(t, e) == s
        }),
{
    let e = pushed(d, ChangeKind::Insert, c, ch, true).last();
    let t = s.insert(c as int, ch);
    assert(t.take(c as int) =~= s.take(c as int));
    assert(t.skip(c + 1 as int) =~= s.skip(c as int));
    assert(s.take(c as int) + s.skip(c as int) =~= s);
}

/// A char deleted in place at `c` is a step of its own, taken back by the
/// next undo, which restores the text and returns `c`.
pub proof fn lemma_undo_after_delete_inplace(s: Seq<char>, d: Seq<Edit>, c: nat)
    requires
        c < s.len(),
    ensures
        ({
            let e = pushed(d, ChangeKind::Delete, c, s[c as int], false).last();
            let t = s.remove(c as int);
            &&& e.pos == c
            &&& fits_revert(t, e)
            &&& revert_edit(t, e) == s
        }),
{
    let e = pushed(d, ChangeKind::Delete, c, s[c as int], false).last();
    let t = s.remove(c as int);
    assert(e.content =~= seq![s[c as int]]);
    assert(t.take(c as int) + e.content + t.skip(c as int) =~= s);
}

proof fn lemma_close_top(s: Seq<char>, d: Seq<Edit>)
    requires
        d.len() > 0,
    ensures
        replays(s, d.drop_last().push(Edit { open: false, ..d.last() })) == replays(s, d),
        origin(s, d.drop_last().push(Edit { open: false, ..d.last() })) == origin(s, d),
{
    let c = d.drop_last().push(Edit { open: false, ..d.last() });
    assert(c.drop_last() =~= d.drop_last());
}

/// Recording an insertion of `ch` at `c` next to making it keeps the history
/// describing the text, and keeps the text it started from.
pub proof fn lemma_push_insert(s: Seq<char>, d: Seq<Edit>, c: nat, ch: char, keep: bool)
    requires
        replays(s, d),
        c <= s.len(),
    ensures
        replays(s.insert(c as int, ch), pushed(d, ChangeKind::Insert, c, ch, keep)),
        origin(s.insert(c as int, ch), pushed(d, ChangeKind::Insert, c, ch, keep)) == origin(s, d),
{
    let t = s.insert(c as int, ch);
    let p = pushed(d, ChangeKind::Insert, c, ch, keep);
    if d.len() > 0 && keep && continues(d.last(), ChangeKind::Insert, c) {
        let e = d.last();
        let m = merged(e, c, ch);
        assert(p.drop_last() =~= d.drop_last());
        assert(t.subrange(e.pos as int, (m.pos + m.content.len()) as int) =~= m.content);
        assert(revert_edit(t, m) =~= revert_edit(s, e));
    } else {
        let closed = if d.len() > 0 {
            d.drop_last().push(Edit { open: false, ..d.last() })
        } else {
            d
        };
        if d.len() > 0 {
            lemma_close_top(s, d);
        }
        assert(p.drop_last() =~= closed);
        let f = p.last();
        assert(t.subrange(c as int, c + 1 as int) =~= f.content);
        assert(revert_edit(t, f) =~= s);
    }
}

/// Recording the deletion of char `c` of `s` next to making it keeps the
/// history describing the text, and keeps the text it started from.
pub proof fn lemma_push_delete(s: Seq<char>, d: Seq<Edit>, c: nat, keep: bool)
    requires
        replays(s, d),
        c < s.len(),
    ensures
        replays(s.remove(c as int), pushed(d, ChangeKind::Delete, c, s[c as int], keep)),
        origin(s.remove(c as int), pushed(d, ChangeKind::Delete, c, s[c as int], keep)) == origin(
            s,
            d,
        ),
{
    let ch = s[c as int];
    let t = s.remove(c as int);
    let p = pushed(d, ChangeKind::Delete, c, ch, keep);
    if d.len() > 0 && keep && continues(d.last(), ChangeKind::Delete, c) {
        let e = d.last();
        let m = merged(e, c, ch);
        assert(p.drop_last() =~= d.drop_last());
        assert(revert_edit(t, m) =~= revert_edit(s, e));
    } else {
        let closed = if d.len() > 0 {
            d.drop_last().push(Edit { open: false, ..d.last() })
        } else {
            d
        };
        if d.len() > 0 {
            lemma_close_top(s, d);
        }
        assert(p.drop_last() =~= closed);
        let f = p.last();
        assert(f.content =~= seq![ch]);
        assert(revert_edit(t, f) =~= s);
    }
}

/// An undo on a history that describes its text always takes a step back:
/// the history still describes the new text, which came from the same
/// origin, and one fewer change is left to undo.
pub proof fn lemma_undo_keeps_origin(h0: History, s0: Seq<char>, h1: History, s1: Seq<char>)
    requires
        tracks(h0, s0),
        undone_by(h0, s0, h1, s1),
    ensures
        tracks(h1, s1),
        origin(s1, h1.done_edits()) == origin(s0, h0.done_edits()),
        h0.done_edits().len() > 0 ==> h1.done_edits().len() == h0.done_edits().len() - 1,
{
    let d = h0.done_edits();
    let u = h0.undone_edits();
    if d.len() > 0 {
        let e = d.last();
        lemma_redo_restores(s0, e);
        let n = h1.undone_edits();
        assert(n.drop_last() =~= u);
        if e.kind == ChangeKind::Delete {
            assert(s1.subrange(e.pos as int, (e.pos + e.content.len()) as int) =~= e.content);
        }
    }
}

/// A redo on a history that describes its text always makes a step again,
/// and the history still describes the new text, from the same origin.
pub proof fn lemma_redo_keeps_origin(h0: History, s0: Seq<char>, h1: History, s1: Seq<char>)
    requires
        tracks(h0, s0),
        redone_by(h0, s0, h1, s1),
    ensures
        tracks(h1, s1),
        origin(s1, h1.done_edits()) == origin(s0, h0.done_edits()),
        h0.undone_edits().len() > 0 ==> h1.undone_edits().len() == h0.undone_edits().len() - 1,
{
    let d = h0.done_edits();
    let u = h0.undone_edits();
    if u.len() > 0 {
        let e = u.last();
        lemma_undo_restores(s0, e);
        let n = h1.done_edits();
        assert(n.drop_last() =~= d);
        if e.kind == ChangeKind::Insert {
            assert(s1.subrange(e.pos as int, (e.pos + e.content.len()) as int) =~= e.content);
        }
    }
}

/// An undo followed by a redo gives back the text and both stacks.
pub proof fn lemma_undo_then_redo(
    h0: History,
    s0: Seq<char>,
    h1: History,
    s1: Seq<char>,
    h2: History,
    s2: Seq<char>,
)
    requires
        tracks(h0, s0),
        h0.done_edits().len() > 0,
        undone_by(h0, s0, h1, s1),
        redone_by(h1, s1, h2, s2),
    ensures
        s2 == s0,
        h2.done_edits() == h0.done_edits(),
        h2.undone_edits() == h0.undone_edits(),
{
    let d = h0.done_edits();
    lemma_redo_restores(s0, d.last());
    assert(h1.undone_edits().drop_last() =~= h0.undone_edits());
    assert(d.drop_last().push(d.last()) =~= d);
}

/// With nothing left to undo, the text is the one the history started from.
pub proof fn lemma_nothing_to_undo_is_origin(h: History, s: Seq<char>)
    requires
        h.done_edits().len() == 0,
    ensures
        origin(s, h.done_edits()) == s,
{
}

} // verus!
