use duzzy_core::buffer::{Buffer, CursorMode, Position, Selection};
use duzzy_core::command::history::{redo, undo};
use duzzy_core::command::movement::{
    insert_mode_line_end, insert_mode_line_start, move_back, move_down, move_forward, move_up,
};
use duzzy_core::command::select::{select_line, selected_text};
use duzzy_core::command::transform::{
    delete_char, delete_char_backspace, insert_char, insert_mode_line_next, insert_mode_line_prev,
    new_line,
};
use duzzy_core::document::Document;
use duzzy_core::history::{ChangeKind, Finish, History};
use duzzy_core::renderer::{Cursor, CursorShape, Renderer, Span, Viewport};
use ropey::Rope;

fn text_of(doc: &Document) -> String {
    doc.buf.text.to_string()
}

#[test]
fn test_cursor_macro() {
    let mut buf = Buffer::new();

    let (i, o) = buf.pos();
    buf.set_pos((i + 5, o));
    assert_eq!((5, 0), buf.pos());

    let (i, o) = buf.pos();
    buf.set_pos((i, o + 10));
    assert_eq!((5, 10), buf.pos());

    buf.set_pos((15, 20));
    assert_eq!((15, 20), buf.pos());
}

#[test]
fn test_cursor_pos() {
    let mut buf = Buffer::new();
    buf.set_text(Rope::from_str("text\n\ntext"));

    let pos = buf.cursor_pos(10);
    buf.set_pos(pos.as_pair());
    assert_eq!((2, 4), buf.pos());
}

#[test]
fn test_select_line() {
    let mut doc = Document::from_text("");
    let buf = &mut doc.buf;

    let text = Rope::from("test\ntest");

    buf.set_pos((0, 2));
    buf.set_text(text);

    select_line(&mut doc);

    assert_eq!(doc.buf().pos(), (0, 4));
    assert_eq!(doc.buf().selection().map(|s| s.range()), Some((0, 4)));

    select_line(&mut doc);

    assert_eq!(doc.buf().pos(), (1, 3));
    assert_eq!(doc.buf().selection().map(|s| s.range()), Some((0, 8)));
}

#[test]
fn test_renderer_lines() {
    let mut doc = Document::from_text("ab\ncd\nef");
    doc.buf.vscroll = 1;
    let rows = Renderer::new(&doc).rows(80, 5);
    assert_eq!(rows.len(), 2);
    assert_eq!(rows[0].index, 1);
    assert_eq!(rows[1].index, 2);
}

#[test]
fn position_round_trip_every_offset() {
    let buf = Buffer::from_text("ab\n\u{e9}x\n\ny");
    for b in 0..=buf.text.len_bytes() {
        let p = buf.cursor_pos(b);
        let mut probe = Buffer::from_text("ab\n\u{e9}x\n\ny");
        probe.set_pos(p.as_pair());
        assert_eq!(probe.byte_pos(), b);
    }
}

#[test]
fn cursor_pos_at_end_of_document_is_last_line() {
    let buf = Buffer::from_text("ab\ncd");
    assert_eq!(buf.cursor_pos(5), Position::new(1, 2));
    assert_eq!(buf.cursor_pos(3), Position::new(1, 0));
    assert_eq!(buf.cursor_pos(2), Position::new(0, 2));
}

#[test]
fn selection_backward_is_not_extended() {
    let mut sel = Selection::new(10);
    sel.head = 4;
    assert_eq!(sel.range(), (4, 10));
    assert_eq!(sel.extended_range(100), (4, 10));
}

#[test]
fn selection_forward_takes_head_char() {
    let mut sel = Selection::new(4);
    sel.head = 10;
    assert_eq!(sel.range(), (4, 10));
    assert_eq!(sel.extended_range(100), (4, 11));
    assert_eq!(sel.extended_range(10), (4, 10));
}

#[test]
fn selected_text_forward_and_none() {
    let mut buf = Buffer::from_text("hello world");
    assert_eq!(selected_text(&buf), None);
    buf.new_selection(0);
    buf.update_selection(4);
    assert_eq!(selected_text(&buf), Some("hello".to_string()));
    buf.new_selection(9);
    assert_eq!(buf.selection().map(|s| s.anchor()), Some(0));
}

#[test]
fn selected_text_multibyte() {
    let mut buf = Buffer::from_text("a\u{e9}\u{1F600}b");
    buf.new_selection(3);
    buf.update_selection(1);
    assert_eq!(selected_text(&buf), Some("\u{e9}\u{1F600}".to_string()));
}

#[test]
fn vscroll_scrolls_down_minimally() {
    let mut buf = Buffer::from_text("0\n1\n2\n3\n4\n5\n6\n7\n8\n9");
    buf.set_pos((7, 0));
    buf.update_vscroll(3);
    assert_eq!(buf.vscroll(), 5);
    buf.set_pos((6, 0));
    buf.update_vscroll(3);
    assert_eq!(buf.vscroll(), 5);
    buf.set_pos((2, 0));
    buf.update_vscroll(3);
    assert_eq!(buf.vscroll(), 2);
}

#[test]
fn movement_clamps_at_ends() {
    let mut buf = Buffer::from_text("ab\nc");
    move_back(&mut buf);
    assert_eq!(buf.pos(), (0, 0));
    move_up(&mut buf);
    assert_eq!(buf.pos(), (0, 0));
    move_forward(&mut buf);
    move_forward(&mut buf);
    assert_eq!(buf.pos(), (0, 2));
    move_down(&mut buf);
    assert_eq!(buf.pos(), (1, 1));
    move_forward(&mut buf);
    assert_eq!(buf.pos(), (1, 1));
    move_down(&mut buf);
    assert_eq!(buf.pos(), (1, 1));
    move_back(&mut buf);
    move_back(&mut buf);
    assert_eq!(buf.pos(), (0, 3));
    move_up(&mut buf);
    assert_eq!(buf.pos(), (0, 3));
}

#[test]
fn forward_wraps_to_next_line() {
    let mut buf = Buffer::from_text("a\nb");
    buf.set_pos((0, 2));
    move_forward(&mut buf);
    assert_eq!(buf.pos(), (1, 0));
}

#[test]
fn insert_mode_line_edges() {
    let mut buf = Buffer::from_text("abc\nd");
    insert_mode_line_end(&mut buf);
    assert_eq!(buf.pos(), (0, 4));
    assert!(buf.is_insert());
    buf.set_mode(CursorMode::Normal);
    insert_mode_line_start(&mut buf);
    assert_eq!(buf.pos(), (0, 0));
    assert_eq!(buf.mode(), CursorMode::Insert);
}

#[test]
fn typing_run_is_one_undo_step() {
    let mut doc = Document::from_text("xy");
    doc.buf.set_pos((0, 1));
    insert_char(&mut doc, 'a');
    insert_char(&mut doc, 'b');
    insert_char(&mut doc, 'c');
    assert_eq!(text_of(&doc), "xabcy");
    assert_eq!(doc.buf.pos(), (0, 4));
    assert_eq!(doc.history.done.len(), 1);
    undo(&mut doc);
    assert_eq!(text_of(&doc), "xy");
    assert_eq!(doc.buf.pos(), (0, 1));
    redo(&mut doc);
    assert_eq!(text_of(&doc), "xabcy");
    assert_eq!(doc.buf.pos(), (0, 4));
}

#[test]
fn typing_after_move_is_two_undo_steps() {
    let mut doc = Document::from_text("xy");
    insert_char(&mut doc, 'a');
    move_forward(&mut doc.buf);
    insert_char(&mut doc, 'b');
    assert_eq!(text_of(&doc), "axby");
    assert_eq!(doc.history.done.len(), 2);
    undo(&mut doc);
    assert_eq!(text_of(&doc), "axy");
    undo(&mut doc);
    assert_eq!(text_of(&doc), "xy");
    undo(&mut doc);
    assert_eq!(text_of(&doc), "xy");
}

#[test]
fn undo_all_then_redo_all() {
    let mut doc = Document::from_text("one\ntwo");
    doc.buf.set_pos((0, 3));
    new_line(&mut doc);
    insert_char(&mut doc, 'z');
    delete_char_backspace(&mut doc);
    delete_char_backspace(&mut doc);
    delete_char(&mut doc);
    let end = text_of(&doc);
    let end_pos = doc.buf.pos();
    let steps = doc.history.done.len();
    for _ in 0..steps {
        undo(&mut doc);
    }
    assert_eq!(text_of(&doc), "one\ntwo");
    for _ in 0..steps {
        redo(&mut doc);
    }
    assert_eq!(text_of(&doc), end);
    assert_eq!(doc.buf.pos().0, end_pos.0);
}

#[test]
fn new_edit_clears_redo() {
    let mut doc = Document::from_text("");
    insert_char(&mut doc, 'a');
    undo(&mut doc);
    assert_eq!(doc.history.undone.len(), 1);
    insert_char(&mut doc, 'b');
    assert_eq!(doc.history.undone.len(), 0);
    redo(&mut doc);
    assert_eq!(text_of(&doc), "b");
}

#[test]
fn backspace_run_merges_and_restores() {
    let mut doc = Document::from_text("abcd");
    doc.buf.set_pos((0, 3));
    delete_char_backspace(&mut doc);
    delete_char_backspace(&mut doc);
    assert_eq!(text_of(&doc), "ad");
    assert_eq!(doc.history.done.len(), 1);
    undo(&mut doc);
    assert_eq!(text_of(&doc), "abcd");
    assert_eq!(doc.buf.pos(), (0, 1));
}

#[test]
fn backspace_at_start_does_nothing() {
    let mut doc = Document::from_text("ab");
    delete_char_backspace(&mut doc);
    assert_eq!(text_of(&doc), "ab");
    assert_eq!(doc.history.done.len(), 0);
}

#[test]
fn forward_delete_is_never_merged() {
    let mut doc = Document::from_text("abc");
    delete_char(&mut doc);
    delete_char(&mut doc);
    assert_eq!(text_of(&doc), "c");
    assert_eq!(doc.history.done.len(), 2);
    undo(&mut doc);
    assert_eq!(text_of(&doc), "bc");
}

#[test]
fn delete_at_end_does_nothing() {
    let mut doc = Document::from_text("ab");
    doc.buf.set_pos((0, 2));
    delete_char(&mut doc);
    assert_eq!(text_of(&doc), "ab");
}

#[test]
fn open_lines_below_and_above() {
    let mut doc = Document::from_text("ab\ncd");
    insert_mode_line_next(&mut doc);
    assert_eq!(text_of(&doc), "ab\n\ncd");
    assert_eq!(doc.buf.pos(), (1, 0));
    assert!(doc.buf.is_insert());

    let mut doc = Document::from_text("ab");
    insert_mode_line_next(&mut doc);
    assert_eq!(text_of(&doc), "ab\n");
    assert_eq!(doc.buf.pos(), (1, 0));

    let mut doc = Document::from_text("ab\ncd");
    doc.buf.set_pos((1, 1));
    insert_mode_line_prev(&mut doc);
    assert_eq!(text_of(&doc), "ab\n\ncd");
    assert_eq!(doc.buf.pos(), (1, 0));
    assert_eq!(doc.buf.mode(), CursorMode::Insert);
}

#[test]
fn insert_multibyte_moves_past_it() {
    let mut doc = Document::from_text("ab");
    doc.buf.set_pos((0, 1));
    insert_char(&mut doc, '\u{e9}');
    assert_eq!(text_of(&doc), "a\u{e9}b");
    assert_eq!(doc.buf.pos(), (0, 3));
}

#[test]
fn history_push_rules() {
    let mut h = History::new();
    h.push(ChangeKind::Insert, 0, 'a', Finish::Keep);
    h.push(ChangeKind::Insert, 1, 'b', Finish::Keep);
    assert_eq!(h.done.len(), 1);
    assert_eq!(h.done[0].content, vec!['a', 'b']);
    h.push(ChangeKind::Insert, 2, 'c', Finish::Commit);
    assert_eq!(h.done.len(), 2);
    assert!(!h.done[0].open);
    h.push(ChangeKind::Delete, 5, 'x', Finish::Keep);
    h.push(ChangeKind::Delete, 4, 'y', Finish::Keep);
    assert_eq!(h.done.len(), 3);
    assert_eq!(h.done[2].pos, 4);
    assert_eq!(h.done[2].content, vec!['y', 'x']);
}

#[test]
fn line_spans_split_selection() {
    assert_eq!(
        Renderer::line(10, 5, 6, Some((12, 13))),
        vec![
            Span { start: 0, end: 2, selected: false },
            Span { start: 2, end: 3, selected: true },
            Span { start: 3, end: 6, selected: false },
        ]
    );
    assert_eq!(Renderer::line(10, 5, 6, None), vec![Span { start: 0, end: 6, selected: false }]);
    assert_eq!(Renderer::line(10, 5, 6, Some((30, 40))), vec![Span { start: 0, end: 6, selected: false }]);
    assert_eq!(Renderer::line(10, 5, 6, Some((12, 12))), vec![Span { start: 0, end: 6, selected: false }]);
    assert_eq!(
        Renderer::line(10, 5, 6, Some((0, 40))),
        vec![Span { start: 0, end: 5, selected: true }, Span { start: 5, end: 6, selected: false }]
    );
    assert_eq!(Renderer::line(0, 0, 0, None), vec![]);
}

#[test]
fn renderer_rows_carry_selection() {
    let mut doc = Document::from_text("ab\ncd");
    doc.buf.new_selection(1);
    doc.buf.update_selection(4);
    let rows = Renderer::new(&doc).rows(80, 10);
    assert_eq!(rows.len(), 2);
    assert_eq!(
        rows[0].spans,
        vec![Span { start: 0, end: 1, selected: false }, Span { start: 1, end: 3, selected: true }]
    );
    assert_eq!(
        rows[1].spans,
        vec![Span { start: 0, end: 1, selected: true }, Span { start: 1, end: 2, selected: false }]
    );
}

#[test]
fn cursor_shape_and_viewport() {
    let c = Cursor { x: 0, y: 0, mode: CursorMode::Insert };
    assert_eq!(c.shape(), CursorShape::BlinkingBar);
    let c = Cursor { x: 0, y: 0, mode: CursorMode::Visual };
    assert_eq!(c.shape(), CursorShape::BlinkingBlock);
    let mut v = Viewport::default();
    v.update(80, 24);
    assert_eq!((v.width, v.height), (80, 24));
    assert_eq!(CursorMode::Normal.name(), "normal");
}

#[test]
fn line_lengths() {
    let buf = Buffer::from_text("ab\n\u{e9}\n");
    assert_eq!(buf.len_lines(), 3);
    assert_eq!(buf.len_bytes(0), 3);
    assert_eq!(buf.len_bytes(1), 3);
    assert_eq!(buf.len_bytes(2), 0);
    assert_eq!(buf.len_chars(), 5);
}

#[test]
fn cursor_pos_past_end_clamps() {
    let buf = Buffer::from_text("ab\ncd");
    assert_eq!(buf.cursor_pos(99), Position::new(1, 2));
}

#[test]
fn forward_stops_on_last_byte_outside_insert_mode() {
    let mut buf = Buffer::from_text("a");
    move_forward(&mut buf);
    assert_eq!(buf.pos(), (0, 0));
    buf.set_mode(CursorMode::Insert);
    move_forward(&mut buf);
    assert_eq!(buf.pos(), (0, 1));

    let mut buf = Buffer::from_text("ab\ncd");
    buf.set_pos((0, 1));
    move_forward(&mut buf);
    assert_eq!(buf.pos(), (0, 2));
    move_forward(&mut buf);
    assert_eq!(buf.pos(), (1, 0));
}

#[test]
fn delete_char_keeps_cursor() {
    let mut doc = Document::from_text("ab\ncd");
    doc.buf.set_pos((0, 3));
    delete_char(&mut doc);
    assert_eq!(text_of(&doc), "ab\nd");
    assert_eq!(doc.buf.pos(), (0, 3));

    let mut doc = Document::from_text("a\u{e9}");
    doc.buf.set_mode(CursorMode::Insert);
    doc.buf.set_pos((0, 2));
    delete_char(&mut doc);
    assert_eq!(text_of(&doc), "a");
    assert_eq!(doc.buf.pos(), (0, 1));
}

#[test]
fn undo_then_redo_restores_stacks() {
    let mut doc = Document::from_text("xy");
    insert_char(&mut doc, 'a');
    delete_char(&mut doc);
    let done = doc.history.done.len();
    undo(&mut doc);
    redo(&mut doc);
    assert_eq!(text_of(&doc), "ay");
    assert_eq!(doc.history.done.len(), done);
    assert_eq!(doc.history.undone.len(), 0);
}
