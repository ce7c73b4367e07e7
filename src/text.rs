//! The text store: a `ropey::Rope` seen as a sequence of characters, with the
//! byte and line arithmetic that the editor's positions rest on.
//!
//! The rope is built without ropey's `cr_lines` and `unicode_lines` features,
//! so `'\n'` is the only line break.
use vstd::prelude::*;

verus! {

#[verifier::external_type_specification]
#[verifier::external_body]
pub struct ExRope(ropey::Rope);

/// The characters that a rope holds, in order.
pub uninterp spec fn rope_chars(r: ropey::Rope) -> Seq<char>;

/// Number of bytes of `c` in UTF-8.
pub open spec fn char_width(c: char) -> nat {
    let u = c as u32;
    if u < 0x80 {
        1
    } else if u < 0x800 {
        2
    } else if u < 0x10000 {
        3
    } else {
        4
    }
}

/// Number of bytes of `s` in UTF-8.
pub open spec fn byte_len(s: Seq<char>) -> nat
    decreases s.len(),
{
    if s.len() == 0 {
        0
    } else {
        byte_len(s.drop_last()) + char_width(s.last())
    }
}

/// Number of line breaks in `s`.
pub open spec fn count_newlines(s: Seq<char>) -> nat
    decreases s.len(),
{
    if s.len() == 0 {
        0
    } else {
        count_newlines(s.drop_last()) + if s.last() == '\n' { 1nat } else { 0nat }
    }
}

/// Number of lines of `s`: one more than its line breaks.
pub open spec fn line_count(s: Seq<char>) -> nat {
    count_newlines(s) + 1
}

/// Char index at which line `i` starts: just past the `i`-th line break
/// (`s.len()` for `i == line_count(s)`).
pub open spec fn line_start_char(s: Seq<char>, i: nat) -> nat
    decreases s.len(),
{
    if i == 0 || s.len() == 0 {
        0
    } else if count_newlines(s.drop_last()) >= i {
        line_start_char(s.drop_last(), i)
    } else {
        s.len()
    }
}

/// Byte offset at which line `i` starts.
pub open spec fn line_start_byte(s: Seq<char>, i: nat) -> nat {
    byte_len(s.take(line_start_char(s, i) as int))
}

/// Byte offset of char index `c`.
pub open spec fn char_to_byte_of(s: Seq<char>, c: nat) -> nat {
    byte_len(s.take(c as int))
}

/// Number of bytes of line `i`, its line break included.
pub open spec fn line_len_bytes(s: Seq<char>, i: nat) -> int {
    line_start_byte(s, i + 1) - line_start_byte(s, i)
}

/// Number of chars of line `i`, its line break included.
pub open spec fn line_len_chars(s: Seq<char>, i: nat) -> int {
    line_start_char(s, i + 1) - line_start_char(s, i)
}

/// Line of byte offset `b`: the line breaks that start before `b`.
pub open spec fn newlines_before_byte(s: Seq<char>, b: nat) -> nat
    decreases s.len(),
{
    if s.len() == 0 {
        0
    } else if byte_len(s.drop_last()) < b {
        count_newlines(s)
    } else {
        newlines_before_byte(s.drop_last(), b)
    }
}

/// Char index of byte offset `b`: the chars that end at or before `b`.
pub open spec fn chars_before_byte(s: Seq<char>, b: nat) -> nat
    decreases s.len(),
{
    if s.len() == 0 {
        0
    } else if byte_len(s) <= b {
        s.len()
    } else {
        chars_before_byte(s.drop_last(), b)
    }
}

pub proof fn lemma_take_drop_last(s: Seq<char>, k: int)
    requires
        s.len() > 0,
        0 <= k <= s.len() - 1,
    ensures
        s.drop_last().take(k) == s.take(k),
{
    assert(s.drop_last().take(k) =~= s.take(k));
}

/// Bytes grow with the prefix taken.
pub proof fn lemma_byte_len_mono(s: Seq<char>, a: int, b: int)
    requires
        0 <= a <= b <= s.len(),
    ensures
        byte_len(s.take(a)) <= byte_len(s.take(b)),
    decreases b,
{
    if a < b {
        let t = s.take(b);
        assert(t.drop_last() =~= s.take(b - 1));
        lemma_byte_len_mono(s, a, b - 1);
    }
}

pub proof fn lemma_byte_len_ge_len(s: Seq<char>)
    ensures
        byte_len(s) >= s.len(),
    decreases s.len(),
{
    if s.len() > 0 {
        lemma_byte_len_ge_len(s.drop_last());
    }
}

pub proof fn lemma_line_start_bound(s: Seq<char>, i: nat)
    ensures
        line_start_char(s, i) <= s.len(),
        i > count_newlines(s) && i > 0 ==> line_start_char(s, i) == s.len(),
    decreases s.len(),
{
    if i != 0 && s.len() != 0 && count_newlines(s.drop_last()) >= i {
        lemma_line_start_bound(s.drop_last(), i);
    }
}

pub proof fn lemma_line_start_mono(s: Seq<char>, i: nat, j: nat)
    requires
        i <= j,
    ensures
        line_start_char(s, i) <= line_start_char(s, j),
    decreases s.len(),
{
    lemma_line_start_bound(s, i);
    lemma_line_start_bound(s, j);
    if i != 0 && s.len() != 0 {
        if count_newlines(s.drop_last()) >= j {
            lemma_line_start_mono(s.drop_last(), i, j);
        }
    }
}

/// Every line lies inside the text.
pub proof fn lemma_line_in_text(s: Seq<char>, i: nat)
    ensures
        line_start_byte(s, i) <= line_start_byte(s, i + 1),
        line_start_byte(s, i + 1) <= byte_len(s),
        line_start_char(s, i) <= line_start_char(s, i + 1),
        line_start_char(s, i + 1) <= s.len(),
{
    lemma_line_start_mono(s, i, i + 1);
    lemma_line_start_bound(s, i + 1);
    lemma_byte_len_mono(s, line_start_char(s, i) as int, line_start_char(s, i + 1) as int);
    lemma_byte_len_mono(s, line_start_char(s, i + 1) as int, s.len() as int);
    assert(s.take(s.len() as int) =~= s);
}

proof fn lemma_newlines_before_bound(s: Seq<char>, b: nat)
    ensures
        newlines_before_byte(s, b) <= count_newlines(s),
    decreases s.len(),
{
    if s.len() != 0 && !(byte_len(s.drop_last()) < b) {
        lemma_newlines_before_bound(s.drop_last(), b);
    }
}

/// The line that holds byte `b` starts at or before `b`.
pub proof fn lemma_line_of_byte(s: Seq<char>, b: nat)
    requires
        b <= byte_len(s),
    ensures
        newlines_before_byte(s, b) < line_count(s),
        line_start_byte(s, newlines_before_byte(s, b)) <= b,
    decreases s.len(),
{
    lemma_newlines_before_bound(s, b);
    let n = newlines_before_byte(s, b);
    if s.len() == 0 {
        assert(s.take(0) =~= Seq::<char>::empty());
    } else {
        let p = s.drop_last();
        if byte_len(p) < b {
            if s.last() == '\n' {
                assert(s.take(s.len() as int) =~= s);
            } else {
                lemma_line_start_bound(p, n);
                lemma_take_drop_last(s, line_start_char(p, n) as int);
                lemma_byte_len_mono(p, line_start_char(p, n) as int, p.len() as int);
                assert(p.take(p.len() as int) =~= p);
            }
        } else {
            lemma_line_of_byte(p, b);
            lemma_newlines_before_bound(p, b);
            lemma_line_start_bound(p, n);
            lemma_take_drop_last(s, line_start_char(p, n) as int);
        }
    }
}

/// The char index of a byte offset never overshoots it.
pub proof fn lemma_chars_before_byte(s: Seq<char>, b: nat)
    requires
        b <= byte_len(s),
    ensures
        chars_before_byte(s, b) <= s.len(),
        char_to_byte_of(s, chars_before_byte(s, b)) <= b,
    decreases s.len(),
{
    if s.len() == 0 {
        assert(s.take(0) =~= Seq::<char>::empty());
    } else if byte_len(s) <= b {
        assert(s.take(s.len() as int) =~= s);
    } else {
        let p = s.drop_last();
        if byte_len(p) <= b {
            if p.len() > 0 {
                assert(p.take(p.len() as int) =~= p);
            } else {
                assert(p.take(0) =~= p);
            }
        } else {
            lemma_chars_before_byte(p, b);
        }
        lemma_take_drop_last(s, chars_before_byte(p, b) as int);
    }
}

pub proof fn lemma_count_le_len(s: Seq<char>)
    ensures
        count_newlines(s) <= s.len(),
    decreases s.len(),
{
    if s.len() > 0 {
        lemma_count_le_len(s.drop_last());
    }
}

/// The char index of the byte offset of char `k` is `k`.
pub proof fn lemma_char_byte_round_trip(s: Seq<char>, k: nat)
    requires
        k <= s.len(),
    ensures
        chars_before_byte(s, char_to_byte_of(s, k)) == k,
    decreases s.len(),
{
    let b = char_to_byte_of(s, k);
    if k == s.len() {
        assert(s.take(k as int) =~= s);
    } else {
        let p = s.drop_last();
        lemma_byte_len_mono(s, k as int, p.len() as int);
        assert(s.take(p.len() as int) =~= p);
        lemma_take_drop_last(s, k as int);
        lemma_char_byte_round_trip(p, k);
    }
}

/// Inserting a char adds a line exactly when the char is a line break.
pub proof fn lemma_count_insert(s: Seq<char>, k: int, ch: char)
    requires
        0 <= k <= s.len(),
    ensures
        count_newlines(s.insert(k, ch)) == count_newlines(s) + if ch == '\n' { 1nat } else { 0nat },
    decreases s.len(),
{
    let t = s.insert(k, ch);
    if k == s.len() {
        assert(t.drop_last() =~= s);
    } else {
        assert(t.drop_last() =~= s.drop_last().insert(k, ch));
        lemma_count_insert(s.drop_last(), k, ch);
    }
}

/// Relies on `ropey::Rope::from_str`: the rope holds the chars of `text`.
#[verifier::external_body]
pub(crate) fn rope_from_str(text: &str) -> (r: ropey::Rope)
    ensures
        rope_chars(r) == text@,
{
    ropey::Rope::from_str(text)
}

/// Relies on `ropey::Rope::len_chars`.
#[verifier::external_body]
pub(crate) fn rope_len_chars(r: &ropey::Rope) -> (n: usize)
    ensures
        n == rope_chars(*r).len(),
{
    r.len_chars()
}

/// Relies on `ropey::Rope::len_bytes`.
#[verifier::external_body]
pub(crate) fn rope_len_bytes(r: &ropey::Rope) -> (n: usize)
    ensures
        n == byte_len(rope_chars(*r)),
{
    r.len_bytes()
}

/// Relies on `ropey::Rope::len_lines`: one more than the line breaks.
#[verifier::external_body]
pub(crate) fn rope_len_lines(r: &ropey::Rope) -> (n: usize)
    ensures
        n == line_count(rope_chars(*r)),
{
    r.len_lines()
}

/// Relies on `ropey::Rope::line_to_byte`, which panics past `len_lines()`.
#[verifier::external_body]
pub(crate) fn rope_line_to_byte(r: &ropey::Rope, i: usize) -> (b: usize)
    requires
        i <= line_count(rope_chars(*r)),
    ensures
        b == line_start_byte(rope_chars(*r), i as nat),
{
    r.line_to_byte(i)
}

/// Relies on `ropey::Rope::line_to_char`, which panics past `len_lines()`.
#[verifier::external_body]
pub(crate) fn rope_line_to_char(r: &ropey::Rope, i: usize) -> (c: usize)
    requires
        i <= line_count(rope_chars(*r)),
    ensures
        c == line_start_char(rope_chars(*r), i as nat),
{
    r.line_to_char(i)
}

/// Relies on `ropey::Rope::byte_to_line`: the line breaks before byte `b`.
#[verifier::external_body]
pub(crate) fn rope_byte_to_line(r: &ropey::Rope, b: usize) -> (i: usize)
    requires
        b <= byte_len(rope_chars(*r)),
    ensures
        i == newlines_before_byte(rope_chars(*r), b as nat),
{
    r.byte_to_line(b)
}

/// Relies on `ropey::Rope::byte_to_char`: the char that holds byte `b`.
#[verifier::external_body]
pub(crate) fn rope_byte_to_char(r: &ropey::Rope, b: usize) -> (c: usize)
    requires
        b <= byte_len(rope_chars(*r)),
    ensures
        c == chars_before_byte(rope_chars(*r), b as nat),
{
    r.byte_to_char(b)
}

/// Relies on `ropey::Rope::char_to_byte`: the bytes of the chars before `c`.
#[verifier::external_body]
pub(crate) fn rope_char_to_byte(r: &ropey::Rope, c: usize) -> (b: usize)
    requires
        c <= rope_chars(*r).len(),
    ensures
        b == char_to_byte_of(rope_chars(*r), c as nat),
{
    r.char_to_byte(c)
}

/// Relies on `ropey::Rope::line` and `RopeSlice::len_bytes`: the bytes of
/// line `i`, its line break included.
#[verifier::external_body]
pub(crate) fn rope_line_len_bytes(r: &ropey::Rope, i: usize) -> (n: usize)
    requires
        i < line_count(rope_chars(*r)),
    ensures
        n == line_len_bytes(rope_chars(*r), i as nat),
{
    r.line(i).len_bytes()
}

/// Relies on `ropey::Rope::line` and `RopeSlice::len_chars`: the chars of
/// line `i`, its line break included.
#[verifier::external_body]
pub(crate) fn rope_line_len_chars(r: &ropey::Rope, i: usize) -> (n: usize)
    requires
        i < line_count(rope_chars(*r)),
    ensures
        n == line_len_chars(rope_chars(*r), i as nat),
{
    r.line(i).len_chars()
}

/// Relies on `ropey::Rope::insert_char`, which panics past `len_chars()`.
#[verifier::external_body]
pub(crate) fn rope_insert_char(r: &mut ropey::Rope, c: usize, ch: char)
    requires
        c <= rope_chars(*old(r)).len(),
    ensures
        rope_chars(*final(r)) == rope_chars(*old(r)).insert(c as int, ch),
{
    r.insert_char(c, ch)
}

/// Relies on `ropey::Rope::remove`: the chars in `start..end` leave.
#[verifier::external_body]
pub(crate) fn rope_remove(r: &mut ropey::Rope, start: usize, end: usize)
    requires
        start <= end <= rope_chars(*old(r)).len(),
    ensures
        rope_chars(*final(r)) == rope_chars(*old(r)).take(start as int) + rope_chars(
            *old(r),
        ).skip(end as int),
{
    r.remove(start..end)
}

/// Relies on `ropey::Rope::slice` and its `to_string`: the chars in
/// `start..end`.
#[verifier::external_body]
pub(crate) fn rope_slice_string(r: &ropey::Rope, start: usize, end: usize) -> (t: String)
    requires
        start <= end <= rope_chars(*r).len(),
    ensures
        t@ == rope_chars(*r).subrange(start as int, end as int),
{
    r.slice(start..end).to_string()
}

/// Relies on `ropey::Rope::char`, which panics past the last char.
#[verifier::external_body]
pub(crate) fn rope_char(r: &ropey::Rope, c: usize) -> (ch: char)
    requires
        c < rope_chars(*r).len(),
    ensures
        ch == rope_chars(*r)[c as int],
{
    r.char(c)
}

} // verus!
