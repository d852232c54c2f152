//! A single-line text field: cursor, selection, IME composition and the
//! blink flag, without the window around them.
//!
//! Indices in the public API are char indices. Byte offsets are what text
//! layout speaks; UTF-16 offsets are what the platform's input method
//! speaks. Both convert here.

use crate::keys::Modifiers;
use crate::text::{char_vec, string_from_chars};
use core::ops::Range;
use vstd::prelude::*;

verus! {

/// The most characters a field holds, so every byte and UTF-16 offset of
/// its text fits in a `usize`.
pub open spec fn max_chars() -> nat {
    (usize::MAX / 4) as nat
}

/// Newlines never enter a single-line field.
pub open spec fn is_newline(c: char) -> bool {
    c == '\n' || c == '\r'
}

/// `s` without its `\n` and `\r` characters, in order.
pub open spec fn strip_newlines(s: Seq<char>) -> Seq<char>
    decreases s.len(),
{
    if s.len() == 0 {
        s
    } else if is_newline(s.last()) {
        strip_newlines(s.drop_last())
    } else {
        strip_newlines(s.drop_last()).push(s.last())
    }
}

/// UTF-16 code units of `c`.
pub open spec fn utf16_width(c: char) -> nat {
    if (c as u32) < 0x10000 {
        1
    } else {
        2
    }
}

/// UTF-8 bytes of `c`.
pub open spec fn utf8_width(c: char) -> nat {
    if (c as u32) < 0x80 {
        1
    } else if (c as u32) < 0x800 {
        2
    } else if (c as u32) < 0x10000 {
        3
    } else {
        4
    }
}

/// UTF-16 offset of char index `k` in `s`.
pub open spec fn utf16_offset(s: Seq<char>, k: nat) -> nat
    decreases k,
{
    if k == 0 || k > s.len() {
        0
    } else {
        utf16_offset(s, (k - 1) as nat) + utf16_width(s[k - 1])
    }
}

/// Byte offset of char index `k` in `s`, UTF-8.
pub open spec fn utf8_offset(s: Seq<char>, k: nat) -> nat
    decreases k,
{
    if k == 0 || k > s.len() {
        0
    } else {
        utf8_offset(s, (k - 1) as nat) + utf8_width(s[k - 1])
    }
}

/// The first char index at or after `i` whose UTF-16 offset reaches `u`,
/// or the length when none does.
pub open spec fn char_at_utf16_from(s: Seq<char>, u: nat, i: nat) -> nat
    decreases s.len() - i,
{
    if i >= s.len() {
        s.len()
    } else if utf16_offset(s, i) >= u {
        i
    } else {
        char_at_utf16_from(s, u, i + 1)
    }
}

/// The char index of UTF-16 offset `u`: the first char that starts at or
/// past `u`, or the length.
pub open spec fn char_at_utf16(s: Seq<char>, u: nat) -> nat {
    char_at_utf16_from(s, u, 0)
}

/// Byte offset of char index `ch`; past the end, the text's byte length.
pub open spec fn byte_of(s: Seq<char>, ch: nat) -> nat {
    if ch < s.len() {
        utf8_offset(s, ch)
    } else {
        utf8_offset(s, s.len())
    }
}

/// `b` is the byte offset of some char boundary of `s`.
pub open spec fn is_boundary(s: Seq<char>, b: nat) -> bool {
    exists|k: nat| k <= s.len() && utf8_offset(s, k) == b
}

/// The char index whose byte offset is `b`.
pub open spec fn char_at_byte(s: Seq<char>, b: nat) -> nat {
    choose|k: nat| k <= s.len() && utf8_offset(s, k) == b
}

/// The field taken as plain values.
pub struct TextInputView {
    pub text: Seq<char>,
    pub cursor: nat,
    pub anchor: Option<nat>,
    pub marked: Option<(nat, nat)>,
    pub cursor_on: bool,
    pub dragging: bool,
}

/// The selection, normalized; `None` when there is none or it is empty.
pub open spec fn spec_selection(v: TextInputView) -> Option<(nat, nat)> {
    match v.anchor {
        Some(a) => if a != v.cursor {
            if a < v.cursor {
                Some((a, v.cursor))
            } else {
                Some((v.cursor, a))
            }
        } else {
            None
        },
        None => None,
    }
}

/// The range an edit at the cursor replaces: the selection, or the empty
/// range at the cursor.
pub open spec fn edit_range(v: TextInputView) -> (nat, nat) {
    match spec_selection(v) {
        Some(r) => r,
        None => (v.cursor, v.cursor),
    }
}

/// Splice `ins`, newlines removed, over chars `start..end`; the cursor lands
/// after it and both the selection and the composition are dropped.
pub open spec fn spec_replace(v: TextInputView, start: nat, end: nat, ins: Seq<char>) -> TextInputView {
    let s = strip_newlines(ins);
    TextInputView {
        text: v.text.subrange(0, start as int) + s + v.text.subrange(end as int, v.text.len() as int),
        cursor: start + s.len(),
        anchor: None,
        marked: None,
        ..v
    }
}

/// After any edit or move the cursor shows.
pub open spec fn touched(v: TextInputView) -> TextInputView {
    TextInputView { cursor_on: true, ..v }
}

pub open spec fn spec_insert(v: TextInputView, ins: Seq<char>) -> TextInputView {
    touched(spec_replace(v, edit_range(v).0, edit_range(v).1, ins))
}

pub open spec fn spec_backspace(v: TextInputView) -> TextInputView {
    match spec_selection(v) {
        Some((s, e)) => touched(spec_replace(v, s, e, Seq::empty())),
        None => if v.cursor > 0 {
            touched(spec_replace(v, (v.cursor - 1) as nat, v.cursor, Seq::empty()))
        } else {
            touched(v)
        },
    }
}

pub open spec fn spec_delete(v: TextInputView) -> TextInputView {
    match spec_selection(v) {
        Some((s, e)) => touched(spec_replace(v, s, e, Seq::empty())),
        None => if v.cursor < v.text.len() {
            touched(spec_replace(v, v.cursor, v.cursor + 1, Seq::empty()))
        } else {
            touched(v)
        },
    }
}

/// Move the cursor to `to`, clamped to the text. With `extend` the
/// selection keeps (or gains) its anchor; without, it collapses.
pub open spec fn spec_move_to(v: TextInputView, to: nat, extend: bool) -> TextInputView {
    touched(
        TextInputView {
            anchor: if extend {
                match v.anchor {
                    Some(a) => Some(a),
                    None => Some(v.cursor),
                }
            } else {
                None
            },
            cursor: if to < v.text.len() {
                to
            } else {
                v.text.len()
            },
            ..v
        },
    )
}

pub open spec fn spec_left(v: TextInputView, extend: bool) -> TextInputView {
    match spec_selection(v) {
        Some((s, _)) if !extend => spec_move_to(v, s, false),
        _ => spec_move_to(
            v,
            if v.cursor > 0 {
                (v.cursor - 1) as nat
            } else {
                0
            },
            extend,
        ),
    }
}

pub open spec fn spec_right(v: TextInputView, extend: bool) -> TextInputView {
    match spec_selection(v) {
        Some((_, e)) if !extend => spec_move_to(v, e, false),
        _ => spec_move_to(v, v.cursor + 1, extend),
    }
}

pub open spec fn spec_select_all(v: TextInputView) -> TextInputView {
    touched(TextInputView { anchor: Some(0), cursor: v.text.len(), ..v })
}

/// The range an input-method replacement covers: the one it names (in
/// UTF-16), else the composition, else the selection, else the cursor.
pub open spec fn ime_range(v: TextInputView, range: Option<(nat, nat)>) -> (nat, nat) {
    match range {
        Some((a, b)) => (char_at_utf16(v.text, a), char_at_utf16(v.text, b)),
        None => match v.marked {
            Some(m) => m,
            None => edit_range(v),
        },
    }
}

pub open spec fn spec_replace_text_in_range(
    v: TextInputView,
    range: Option<(nat, nat)>,
    ins: Seq<char>,
) -> TextInputView {
    let r = ime_range(v, range);
    touched(spec_replace(v, r.0, r.1, ins))
}

pub open spec fn spec_replace_and_mark(
    v: TextInputView,
    range: Option<(nat, nat)>,
    ins: Seq<char>,
    selected: Option<(nat, nat)>,
) -> TextInputView {
    let r = ime_range(v, range);
    let v1 = spec_replace(v, r.0, r.1, ins);
    let marked = strip_newlines(ins);
    let v2 = TextInputView { marked: Some((r.0, v1.cursor)), ..v1 };
    match selected {
        Some((a, b)) => touched(
            TextInputView {
                anchor: if a != b {
                    Some(r.0 + char_at_utf16(marked, a))
                } else {
                    None
                },
                cursor: r.0 + char_at_utf16(marked, b),
                ..v2
            },
        ),
        None => touched(v2),
    }
}

/// The char index a click at byte offset `b` lands on.
pub open spec fn click_index(v: TextInputView, b: nat) -> nat {
    if v.text.len() == 0 {
        0
    } else {
        char_at_byte(v.text, b)
    }
}

/// Indices stay inside the text, and the text stays short enough for its
/// offsets to fit.
pub open spec fn input_wf(v: TextInputView) -> bool {
    &&& v.text.len() <= max_chars()
    &&& v.cursor <= v.text.len()
    &&& v.anchor matches Some(a) ==> a <= v.text.len()
    &&& v.marked matches Some(m) ==> m.0 <= m.1 <= v.text.len()
}

/// The selection the platform asks for, in UTF-16, and whether the cursor
/// sits at its start.
#[derive(Debug, PartialEq, Eq)]
pub struct Utf16Selection {
    pub range: Range<usize>,
    pub reversed: bool,
}

/// What a key did.
#[derive(Debug, Clone, PartialEq, Eq)]
pub enum KeyOutcome {
    /// Not the field's key: Enter, Esc, printable keys and anything with
    /// Control or Alt.
    Ignored,
    /// The field consumed it.
    Handled,
    /// The field consumed it and this text goes to the clipboard.
    Copied(String),
}

/// The editing commands a key maps to.
#[derive(Debug, Clone, Copy, PartialEq, Eq, Structural)]
pub enum KeyAction {
    Backspace,
    Delete,
    Left(bool),
    Right(bool),
    Home(bool),
    End(bool),
    SelectAll,
    Copy,
    Cut,
    Paste,
}

/// The entity behind one field. Indices are chars.
pub struct TextInput {
    text: String,
    cursor: usize,
    /// Other end of the selection, when one exists. `cursor` is the head.
    anchor: Option<usize>,
    /// IME composition in progress, underlined, replaced on commit.
    marked: Option<Range<usize>>,
    cursor_on: bool,
    dragging: bool,
}

impl View for TextInput {
    type V = TextInputView;

    closed spec fn view(&self) -> TextInputView {
        TextInputView {
            text: self.text@,
            cursor: self.cursor as nat,
            anchor: match self.anchor {
                Some(a) => Some(a as nat),
                None => None,
            },
            marked: match self.marked {
                Some(m) => Some((m.start as nat, m.end as nat)),
                None => None,
            },
            cursor_on: self.cursor_on,
            dragging: self.dragging,
        }
    }
}

proof fn lemma_strip_newlines(s: Seq<char>)
    ensures
        strip_newlines(s).len() <= s.len(),
        forall|i: int| 0 <= i < strip_newlines(s).len() ==> !is_newline(#[trigger] strip_newlines(s)[i]),
    decreases s.len(),
{
    if s.len() > 0 {
        lemma_strip_newlines(s.drop_last());
    }
}

pub(crate) proof fn lemma_offsets_grow(s: Seq<char>, j: nat, k: nat)
    requires
        j <= k <= s.len(),
    ensures
        utf16_offset(s, j) + (k - j) <= utf16_offset(s, k) <= utf16_offset(s, j) + 2 * (k - j),
        utf8_offset(s, j) + (k - j) <= utf8_offset(s, k) <= utf8_offset(s, j) + 4 * (k - j),
    decreases k - j,
{
    if j < k {
        lemma_offsets_grow(s, j, (k - 1) as nat);
    }
}

proof fn lemma_char_at_utf16_from(s: Seq<char>, u: nat, i: nat)
    requires
        i <= s.len(),
    ensures
        i <= char_at_utf16_from(s, u, i) <= s.len(),
        char_at_utf16_from(s, u, i) < s.len() ==> utf16_offset(s, char_at_utf16_from(s, u, i)) >= u,
        forall|j: nat| i <= j < char_at_utf16_from(s, u, i) ==> utf16_offset(s, j) < u,
    decreases s.len() - i,
{
    if i < s.len() && utf16_offset(s, i) < u {
        lemma_char_at_utf16_from(s, u, i + 1);
    }
}

/// The char index of a UTF-16 offset lies inside the text and only grows
/// with the offset.
pub proof fn lemma_char_at_utf16_monotone(s: Seq<char>, a: nat, b: nat)
    requires
        a <= b,
    ensures
        char_at_utf16(s, a) <= char_at_utf16(s, b) <= s.len(),
{
    lemma_char_at_utf16_from(s, a, 0);
    lemma_char_at_utf16_from(s, b, 0);
    let x = char_at_utf16(s, a);
    let y = char_at_utf16(s, b);
    if y < x {
        assert(utf16_offset(s, y) >= b);
        assert(utf16_offset(s, y) < a);
    }
}

/// A char index taken to UTF-16 and back is the same index: the platform's
/// offsets and the field's agree.
pub proof fn lemma_utf16_round_trip(s: Seq<char>, k: nat)
    requires
        k <= s.len(),
    ensures
        char_at_utf16(s, utf16_offset(s, k)) == k,
{
    let u = utf16_offset(s, k);
    lemma_char_at_utf16_from(s, u, 0);
    let x = char_at_utf16(s, u);
    if x < k {
        lemma_offsets_grow(s, x, k);
        assert(utf16_offset(s, x) >= u);
        if x + 1 <= k {
            lemma_offsets_grow(s, x + 1, k);
            lemma_offsets_grow(s, x, x + 1);
        }
    }
    if x > k {
        assert(utf16_offset(s, k) < u);
    }
}

proof fn lemma_replace_wf(v: TextInputView, start: nat, end: nat, ins: Seq<char>)
    requires
        input_wf(v),
        start <= end <= v.text.len(),
        v.text.len() - (end - start) + ins.len() <= max_chars(),
    ensures
        input_wf(spec_replace(v, start, end, ins)),
        spec_replace(v, start, end, ins).text.len() == v.text.len() - (end - start)
            + strip_newlines(ins).len(),
{
    lemma_strip_newlines(ins);
}

/// The empty string.
fn nothing() -> (r: &'static str)
    ensures
        r@ == Seq::<char>::empty(),
{
    let e = "";
    proof {
        reveal_strlit("");
    }
    assert(e@ =~= Seq::<char>::empty());
    e
}

/// Characters of `s` with the newlines removed.
fn strip(s: &str) -> (r: Vec<char>)
    ensures
        r@ == strip_newlines(s@),
{
    let chars = char_vec(s);
    let mut out: Vec<char> = Vec::new();
    let mut i: usize = 0;
    while i < chars.len()
        invariant
            chars@ == s@,
            i <= chars@.len(),
            out@ == strip_newlines(chars@.subrange(0, i as int)),
        decreases chars@.len() - i,
    {
        let c = chars[i];
        proof {
            let next = chars@.subrange(0, i + 1);
            assert(next.drop_last() =~= chars@.subrange(0, i as int));
            assert(next.last() == c);
        }
        if c != '\n' && c != '\r' {
            out.push(c);
        }
        i = i + 1;
    }
    assert(chars@.subrange(0, chars@.len() as int) =~= s@);
    out
}

fn utf16_width_of(c: char) -> (r: usize)
    ensures
        r == utf16_width(c),
{
    if (c as u32) < 0x10000 {
        1
    } else {
        2
    }
}

fn utf8_width_of(c: char) -> (r: usize)
    ensures
        r == utf8_width(c),
{
    let x = c as u32;
    if x < 0x80 {
        1
    } else if x < 0x800 {
        2
    } else if x < 0x10000 {
        3
    } else {
        4
    }
}

/// UTF-16 offset of char index `ch`, `ch` clamped to the text.
fn utf16_of(chars: &Vec<char>, ch: usize) -> (r: usize)
    requires
        chars@.len() <= max_chars(),
    ensures
        r == utf16_offset(chars@, if ch < chars@.len() { ch as nat } else { chars@.len() }),
{
    let end = if ch < chars.len() {
        ch
    } else {
        chars.len()
    };
    let mut seen: usize = 0;
    let mut i: usize = 0;
    while i < end
        invariant
            end <= chars@.len() <= max_chars(),
            i <= end,
            seen == utf16_offset(chars@, i as nat),
        decreases end - i,
    {
        proof {
            lemma_offsets_grow(chars@, 0, (i + 1) as nat);
        }
        seen = seen + utf16_width_of(chars[i]);
        i = i + 1;
    }
    seen
}

/// Byte offset of char index `ch`, `ch` clamped to the text.
pub(crate) fn byte_of_index(chars: &Vec<char>, ch: usize) -> (r: usize)
    requires
        chars@.len() <= max_chars(),
    ensures
        r == byte_of(chars@, ch as nat),
{
    let end = if ch < chars.len() {
        ch
    } else {
        chars.len()
    };
    let mut seen: usize = 0;
    let mut i: usize = 0;
    while i < end
        invariant
            end <= chars@.len() <= max_chars(),
            i <= end,
            seen == utf8_offset(chars@, i as nat),
        decreases end - i,
    {
        proof {
            lemma_offsets_grow(chars@, 0, (i + 1) as nat);
        }
        seen = seen + utf8_width_of(chars[i]);
        i = i + 1;
    }
    seen
}

/// The char index of UTF-16 offset `u` in `chars`.
fn index_of_utf16(chars: &Vec<char>, u: usize) -> (r: usize)
    requires
        chars@.len() <= max_chars(),
    ensures
        r == char_at_utf16(chars@, u as nat),
        r <= chars@.len(),
{
    proof {
        lemma_char_at_utf16_from(chars@, u as nat, 0);
    }
    let mut seen: usize = 0;
    let mut i: usize = 0;
    while i < chars.len()
        invariant
            chars@.len() <= max_chars(),
            i <= chars@.len(),
            seen == utf16_offset(chars@, i as nat),
            char_at_utf16(chars@, u as nat) == char_at_utf16_from(chars@, u as nat, i as nat),
        decreases chars@.len() - i,
    {
        if seen >= u {
            return i;
        }
        proof {
            lemma_offsets_grow(chars@, 0, (i + 1) as nat);
        }
        seen = seen + utf16_width_of(chars[i]);
        i = i + 1;
    }
    chars.len()
}

/// The char index whose byte offset is `b`, a boundary of `chars`.
pub(crate) fn index_of_byte(chars: &Vec<char>, b: usize) -> (r: usize)
    requires
        chars@.len() <= max_chars(),
        is_boundary(chars@, b as nat),
    ensures
        r == char_at_byte(chars@, b as nat),
        r <= chars@.len(),
        utf8_offset(chars@, r as nat) == b,
{
    let ghost k = char_at_byte(chars@, b as nat);
    proof {
        lemma_offsets_grow(chars@, 0, chars@.len());
    }
    let mut seen: usize = 0;
    let mut i: usize = 0;
    while i < chars.len()
        invariant
            chars@.len() <= max_chars(),
            k == char_at_byte(chars@, b as nat),
            k <= chars@.len(),
            utf8_offset(chars@, k) == b,
            i <= k,
            seen == utf8_offset(chars@, i as nat),
        decreases chars@.len() - i,
    {
        if seen >= b {
            proof {
                if i < k {
                    lemma_offsets_grow(chars@, i as nat, k);
                    assert(false);
                }
            }
            assert(i as nat == k);
            return i;
        }
        proof {
            if k == i {
            }
            lemma_offsets_grow(chars@, 0, (i + 1) as nat);
            lemma_offsets_grow(chars@, (i + 1) as nat, k);
        }
        seen = seen + utf8_width_of(chars[i]);
        i = i + 1;
    }
    i
}

impl TextInput {
    /// Indices inside the text, the text short enough for its offsets.
    pub open spec fn wf(&self) -> bool {
        input_wf(self@)
    }

    /// An empty field with the cursor showing.
    pub fn new() -> (r: TextInput)
        ensures
            r@ == (TextInputView {
                text: Seq::empty(),
                cursor: 0,
                anchor: None,
                marked: None,
                cursor_on: true,
                dragging: false,
            }),
            r.wf(),
    {
        TextInput {
            text: String::new(),
            cursor: 0,
            anchor: None,
            marked: None,
            cursor_on: true,
            dragging: false,
        }
    }

    pub fn text(&self) -> (r: &str)
        ensures
            r@ == self@.text,
    {
        self.text.as_str()
    }

    /// Cursor position in chars.
    pub fn cursor(&self) -> (r: usize)
        ensures
            r == self@.cursor,
    {
        self.cursor
    }

    /// Selected char range, normalized; `None` when empty.
    pub fn selection(&self) -> (r: Option<Range<usize>>)
        ensures
            match spec_selection(self@) {
                Some((s, e)) => r matches Some(x) && x.start == s && x.end == e,
                None => r is None,
            },
    {
        match self.anchor {
            Some(a) => if a != self.cursor {
                if a < self.cursor {
                    Some(a..self.cursor)
                } else {
                    Some(self.cursor..a)
                }
            } else {
                None
            },
            None => None,
        }
    }

    /// False during the off half of a blink. Resets to true on any edit.
    pub fn cursor_visible(&self) -> (r: bool)
        ensures
            r == self@.cursor_on,
    {
        self.cursor_on
    }

    /// Whether a mouse drag that started in the field is in progress.
    pub fn dragging(&self) -> (r: bool)
        ensures
            r == self@.dragging,
    {
        self.dragging
    }

    /// The selected text; `None` without a selection.
    pub fn selected_text(&self) -> (r: Option<String>)
        requires
            self.wf(),
        ensures
            match spec_selection(self@) {
                Some((s, e)) => r matches Some(t) && t@ == self@.text.subrange(s as int, e as int),
                None => r is None,
            },
    {
        match self.selection() {
            Some(r) => {
                let chars = char_vec(self.text.as_str());
                Some(string_from_chars(chars.as_slice(), r.start, r.end))
            },
            None => None,
        }
    }

    /// Splice `s` over the char range `start..end`; cursor lands after `s`.
    /// Newlines never enter a single-line field.
    fn replace(&mut self, start: usize, end: usize, s: &str)
        requires
            old(self).wf(),
            start <= end <= old(self)@.text.len(),
            old(self)@.text.len() - (end - start) + s@.len() <= max_chars(),
        ensures
            final(self)@ == spec_replace(old(self)@, start as nat, end as nat, s@),
            final(self).wf(),
    {
        proof {
            lemma_replace_wf(self@, start as nat, end as nat, s@);
        }
        let chars = char_vec(self.text.as_str());
        let ins = strip(s);
        let mut out: Vec<char> = Vec::new();
        let mut i: usize = 0;
        while i < start
            invariant
                chars@ == old(self)@.text,
                i <= start <= end <= chars@.len(),
                out@ == chars@.subrange(0, i as int),
            decreases start - i,
        {
            out.push(chars[i]);
            i = i + 1;
            assert(out@ =~= chars@.subrange(0, i as int));
        }
        let mut j: usize = 0;
        while j < ins.len()
            invariant
                chars@ == old(self)@.text,
                start <= end <= chars@.len(),
                out@ == chars@.subrange(0, start as int) + ins@.subrange(0, j as int),
                j <= ins@.len(),
            decreases ins@.len() - j,
        {
            out.push(ins[j]);
            j = j + 1;
            assert(out@ =~= chars@.subrange(0, start as int) + ins@.subrange(0, j as int));
        }
        let mut k: usize = end;
        while k < chars.len()
            invariant
                chars@ == old(self)@.text,
                start <= end <= k <= chars@.len(),
                out@ == chars@.subrange(0, start as int) + ins@ + chars@.subrange(end as int, k as int),
            decreases chars@.len() - k,
        {
            out.push(chars[k]);
            k = k + 1;
            assert(out@ =~= chars@.subrange(0, start as int) + ins@ + chars@.subrange(
                end as int,
                k as int,
            ));
        }
        assert(ins@.subrange(0, ins@.len() as int) =~= ins@);
        let total = out.len();
        self.text = string_from_chars(out.as_slice(), 0, total);
        assert(out@.subrange(0, total as int) =~= out@);
        self.cursor = start + ins.len();
        self.anchor = None;
        self.marked = None;
    }

    /// Show the cursor; every edit and move does.
    fn touch(&mut self)
        ensures
            final(self)@ == touched(old(self)@),
    {
        self.cursor_on = true;
    }

    /// Replace the contents and put the cursor at the end.
    pub fn set_text(&mut self, text: String)
        requires
            old(self).wf(),
            text@.len() <= max_chars(),
        ensures
            final(self).wf(),
            final(self)@ == touched(
                TextInputView {
                    text: text@,
                    cursor: text@.len(),
                    anchor: None,
                    marked: None,
                    ..old(self)@
                },
            ),
    {
        let n = char_vec(text.as_str()).len();
        self.text = text;
        self.cursor = n;
        self.anchor = None;
        self.marked = None;
        self.touch();
    }

    /// Insert at the cursor, replacing the selection if one exists.
    pub fn insert(&mut self, s: &str)
        requires
            old(self).wf(),
            old(self)@.text.len() + s@.len() <= max_chars(),
        ensures
            final(self).wf(),
            final(self)@ == spec_insert(old(self)@, s@),
    {
        let (start, end) = match self.selection() {
            Some(r) => (r.start, r.end),
            None => (self.cursor, self.cursor),
        };
        self.replace(start, end, s);
        self.touch();
    }

    /// Delete the selection, or the char before the cursor.
    pub fn backspace(&mut self)
        requires
            old(self).wf(),
        ensures
            final(self).wf(),
            final(self)@ == spec_backspace(old(self)@),
    {
        match self.selection() {
            Some(r) => self.replace(r.start, r.end, nothing()),
            None => {
                if self.cursor > 0 {
                    self.replace(self.cursor - 1, self.cursor, nothing());
                }
            },
        }
        self.touch();
    }

    /// Delete the selection, or the char after the cursor.
    pub fn delete(&mut self)
        requires
            old(self).wf(),
        ensures
            final(self).wf(),
            final(self)@ == spec_delete(old(self)@),
    {
        let n = self.len();
        match self.selection() {
            Some(r) => self.replace(r.start, r.end, nothing()),
            None => {
                if self.cursor < n {
                    self.replace(self.cursor, self.cursor + 1, nothing());
                }
            },
        }
        self.touch();
    }

    /// Move the cursor to `to`. With `extend`, the selection grows from where
    /// it was; without, a selection collapses.
    pub fn move_to(&mut self, to: usize, extend: bool)
        requires
            old(self).wf(),
        ensures
            final(self).wf(),
            final(self)@ == spec_move_to(old(self)@, to as nat, extend),
    {
        if extend {
            if self.anchor.is_none() {
                self.anchor = Some(self.cursor);
            }
        } else {
            self.anchor = None;
        }
        let n = self.len();
        self.cursor = if to < n {
            to
        } else {
            n
        };
        self.touch();
    }

    pub fn left(&mut self, extend: bool)
        requires
            old(self).wf(),
        ensures
            final(self).wf(),
            final(self)@ == spec_left(old(self)@, extend),
    {
        match self.selection() {
            Some(r) if !extend => self.move_to(r.start, false),
            _ => self.move_to(self.cursor.saturating_sub(1), extend),
        }
    }

    pub fn right(&mut self, extend: bool)
        requires
            old(self).wf(),
        ensures
            final(self).wf(),
            final(self)@ == spec_right(old(self)@, extend),
    {
        match self.selection() {
            Some(r) if !extend => self.move_to(r.end, false),
            _ => self.move_to(self.cursor + 1, extend),
        }
    }

    pub fn home(&mut self, extend: bool)
        requires
            old(self).wf(),
        ensures
            final(self).wf(),
            final(self)@ == spec_move_to(old(self)@, 0, extend),
    {
        self.move_to(0, extend);
    }

    pub fn end(&mut self, extend: bool)
        requires
            old(self).wf(),
        ensures
            final(self).wf(),
            final(self)@ == spec_move_to(old(self)@, old(self)@.text.len(), extend),
    {
        let n = self.len();
        self.move_to(n, extend);
    }

    pub fn select_all(&mut self)
        requires
            old(self).wf(),
        ensures
            final(self).wf(),
            final(self)@ == spec_select_all(old(self)@),
    {
        self.anchor = Some(0);
        self.cursor = self.len();
        self.touch();
    }

    /// The text a copy puts on the clipboard: the selection, if any.
    pub fn copy(&self) -> (r: Option<String>)
        requires
            self.wf(),
        ensures
            match spec_selection(self@) {
                Some((s, e)) => r matches Some(t) && t@ == self@.text.subrange(s as int, e as int),
                None => r is None,
            },
    {
        self.selected_text()
    }

    /// Remove the selection and hand back its text for the clipboard.
    /// Without a selection nothing changes.
    pub fn cut(&mut self) -> (r: Option<String>)
        requires
            old(self).wf(),
        ensures
            final(self).wf(),
            match spec_selection(old(self)@) {
                Some((s, e)) => r matches Some(t) && t@ == old(self)@.text.subrange(s as int, e as int)
                    && final(self)@ == touched(spec_replace(old(self)@, s, e, Seq::empty())),
                None => r is None && final(self)@ == old(self)@,
            },
    {
        match self.selection() {
            Some(r) => {
                let copied = self.selected_text();
                self.replace(r.start, r.end, nothing());
                self.touch();
                copied
            },
            None => None,
        }
    }

    /// Insert what the clipboard holds, if it holds text.
    pub fn paste(&mut self, clipboard: Option<&str>)
        requires
            old(self).wf(),
            clipboard matches Some(t) ==> old(self)@.text.len() + t@.len() <= max_chars(),
        ensures
            final(self).wf(),
            final(self)@ == match clipboard {
                Some(t) => spec_insert(old(self)@, t@),
                None => old(self)@,
            },
    {
        if let Some(t) = clipboard {
            self.insert(t);
        }
    }

    /// Apply one editing command. Copy and cut hand back the clipboard text;
    /// paste inserts `clipboard`.
    pub fn apply(&mut self, action: KeyAction, clipboard: Option<&str>) -> (r: KeyOutcome)
        requires
            old(self).wf(),
            clipboard matches Some(t) ==> old(self)@.text.len() + t@.len() <= max_chars(),
        ensures
            final(self).wf(),
            final(self)@ == spec_apply(old(self)@, action, match clipboard {
                Some(t) => Some(t@),
                None => None,
            }),
            match action {
                KeyAction::Copy | KeyAction::Cut => match spec_selection(old(self)@) {
                    Some((s, e)) => r matches KeyOutcome::Copied(t) && t@ == old(self)@.text.subrange(
                        s as int,
                        e as int,
                    ),
                    None => r == KeyOutcome::Handled,
                },
                _ => r == KeyOutcome::Handled,
            },
    {
        match action {
            KeyAction::Backspace => self.backspace(),
            KeyAction::Delete => self.delete(),
            KeyAction::Left(shift) => self.left(shift),
            KeyAction::Right(shift) => self.right(shift),
            KeyAction::Home(shift) => self.home(shift),
            KeyAction::End(shift) => self.end(shift),
            KeyAction::SelectAll => self.select_all(),
            KeyAction::Copy => {
                return match self.copy() {
                    Some(t) => KeyOutcome::Copied(t),
                    None => KeyOutcome::Handled,
                };
            },
            KeyAction::Cut => {
                return match self.cut() {
                    Some(t) => KeyOutcome::Copied(t),
                    None => KeyOutcome::Handled,
                };
            },
            KeyAction::Paste => self.paste(clipboard),
        }
        KeyOutcome::Handled
    }

    /// Apply one key. `Ignored` means the field did not consume it: Enter,
    /// Esc and printable keys (text arrives through the input-method path),
    /// and any key with Control or Alt held.
    pub fn handle_key(&mut self, key: &str, modifiers: Modifiers, clipboard: Option<&str>) -> (r: KeyOutcome)
        requires
            old(self).wf(),
            clipboard matches Some(t) ==> old(self)@.text.len() + t@.len() <= max_chars(),
        ensures
            final(self).wf(),
            match spec_key_action(key@, modifiers) {
                None => r == KeyOutcome::Ignored && final(self)@ == old(self)@,
                Some(a) => final(self)@ == spec_apply(old(self)@, a, match clipboard {
                    Some(t) => Some(t@),
                    None => None,
                }) && r != KeyOutcome::Ignored,
            },
    {
        match key_action(key, modifiers) {
            None => KeyOutcome::Ignored,
            Some(action) => self.apply(action, clipboard),
        }
    }

    /// Length in chars.
    fn len(&self) -> (r: usize)
        ensures
            r == self@.text.len(),
    {
        char_vec(self.text.as_str()).len()
    }

    /// Toggle the cursor for the blink timer.
    pub fn blink(&mut self)
        ensures
            final(self)@ == (TextInputView { cursor_on: !old(self)@.cursor_on, ..old(self)@ }),
    {
        self.cursor_on = !self.cursor_on;
    }

    /// The field lost focus: the blink stops with the cursor shown.
    pub fn stop_blink(&mut self)
        ensures
            final(self)@ == touched(old(self)@),
    {
        self.cursor_on = true;
    }

    /// Byte offset of char index `ch`; past the end, the byte length.
    pub fn byte(&self, ch: usize) -> (r: usize)
        requires
            self.wf(),
        ensures
            r == byte_of(self@.text, ch as nat),
    {
        let chars = char_vec(self.text.as_str());
        byte_of_index(&chars, ch)
    }

    /// Char index of the boundary at byte offset `b`.
    pub fn char_at_byte(&self, b: usize) -> (r: usize)
        requires
            self.wf(),
            is_boundary(self@.text, b as nat),
        ensures
            r == char_at_byte(self@.text, b as nat),
            r <= self@.text.len(),
    {
        let chars = char_vec(self.text.as_str());
        index_of_byte(&chars, b)
    }

    /// UTF-16 offset of char index `ch`, clamped to the text.
    pub fn utf16(&self, ch: usize) -> (r: usize)
        requires
            self.wf(),
        ensures
            r == utf16_offset(self@.text, if ch < self@.text.len() { ch as nat } else { self@.text.len() }),
    {
        let chars = char_vec(self.text.as_str());
        utf16_of(&chars, ch)
    }

    /// Char index of UTF-16 offset `u`.
    pub fn char_at_utf16(&self, u: usize) -> (r: usize)
        requires
            self.wf(),
        ensures
            r == char_at_utf16(self@.text, u as nat),
            r <= self@.text.len(),
    {
        let chars = char_vec(self.text.as_str());
        index_of_utf16(&chars, u)
    }

    /// The text of a UTF-16 range, and that range moved to char boundaries.
    pub fn text_for_range(&self, range: Range<usize>) -> (r: (String, Range<usize>))
        requires
            self.wf(),
            char_at_utf16(self@.text, range.start as nat) <= char_at_utf16(self@.text, range.end as nat),
        ensures
            ({
                let s = char_at_utf16(self@.text, range.start as nat);
                let e = char_at_utf16(self@.text, range.end as nat);
                &&& r.0@ == self@.text.subrange(s as int, e as int)
                &&& r.1.start == utf16_offset(self@.text, s)
                &&& r.1.end == utf16_offset(self@.text, e)
            }),
    {
        let chars = char_vec(self.text.as_str());
        let s = index_of_utf16(&chars, range.start);
        let e = index_of_utf16(&chars, range.end);
        proof {
            lemma_char_at_utf16_monotone(chars@, range.end as nat, range.end as nat);
        }
        let text = string_from_chars(chars.as_slice(), s, e);
        let adjusted = utf16_of(&chars, s)..utf16_of(&chars, e);
        (text, adjusted)
    }

    /// The selection, or the cursor, in UTF-16, and whether the anchor lies
    /// after the cursor.
    pub fn selected_text_range(&self) -> (r: Utf16Selection)
        requires
            self.wf(),
        ensures
            r.range.start == utf16_offset(self@.text, edit_range(self@).0),
            r.range.end == utf16_offset(self@.text, edit_range(self@).1),
            r.reversed == (self@.anchor matches Some(a) && a > self@.cursor),
    {
        let chars = char_vec(self.text.as_str());
        let (s, e) = match self.selection() {
            Some(r) => (r.start, r.end),
            None => (self.cursor, self.cursor),
        };
        let reversed = match self.anchor {
            Some(a) => a > self.cursor,
            None => false,
        };
        Utf16Selection { range: utf16_of(&chars, s)..utf16_of(&chars, e), reversed }
    }

    /// The composition in progress, in UTF-16.
    pub fn marked_text_range(&self) -> (r: Option<Range<usize>>)
        requires
            self.wf(),
        ensures
            match self@.marked {
                Some(m) => r matches Some(x) && x.start == utf16_offset(self@.text, m.0) && x.end
                    == utf16_offset(self@.text, m.1),
                None => r is None,
            },
    {
        match &self.marked {
            Some(m) => {
                let chars = char_vec(self.text.as_str());
                Some(utf16_of(&chars, m.start)..utf16_of(&chars, m.end))
            },
            None => None,
        }
    }

    /// Drop the composition, keeping its text.
    pub fn unmark_text(&mut self)
        requires
            old(self).wf(),
        ensures
            final(self).wf(),
            final(self)@ == (TextInputView { marked: None, ..old(self)@ }),
    {
        self.marked = None;
    }

    /// The char range an input-method edit covers.
    fn ime_range(&self, range: Option<Range<usize>>) -> (r: (usize, usize))
        requires
            self.wf(),
            range matches Some(x) ==> char_at_utf16(self@.text, x.start as nat) <= char_at_utf16(
                self@.text,
                x.end as nat,
            ),
        ensures
            r.0 == ime_range(self@, to_pair(range)).0,
            r.1 == ime_range(self@, to_pair(range)).1,
            r.0 <= r.1 <= self@.text.len(),
    {
        match range {
            Some(x) => {
                let chars = char_vec(self.text.as_str());
                proof {
                    lemma_char_at_utf16_monotone(chars@, x.end as nat, x.end as nat);
                }
                (index_of_utf16(&chars, x.start), index_of_utf16(&chars, x.end))
            },
            None => match &self.marked {
                Some(m) => (m.start, m.end),
                None => match self.selection() {
                    Some(s) => (s.start, s.end),
                    None => (self.cursor, self.cursor),
                },
            },
        }
    }

    /// Commit `text` from the input method over `range` (UTF-16), or over
    /// the composition, the selection or the cursor.
    pub fn replace_text_in_range(&mut self, range: Option<Range<usize>>, text: &str)
        requires
            old(self).wf(),
            range matches Some(x) ==> char_at_utf16(old(self)@.text, x.start as nat) <= char_at_utf16(
                old(self)@.text,
                x.end as nat,
            ),
            old(self)@.text.len() + text@.len() <= max_chars(),
        ensures
            final(self).wf(),
            final(self)@ == spec_replace_text_in_range(old(self)@, to_pair(range), text@),
    {
        let (s, e) = self.ime_range(range);
        self.replace(s, e, text);
        self.touch();
    }

    /// Place a composition: `text` replaces the range as in
    /// `replace_text_in_range` and becomes the marked text; `selected`, in
    /// UTF-16 relative to it, places the selection inside it.
    pub fn replace_and_mark_text_in_range(
        &mut self,
        range: Option<Range<usize>>,
        text: &str,
        selected: Option<Range<usize>>,
    )
        requires
            old(self).wf(),
            range matches Some(x) ==> char_at_utf16(old(self)@.text, x.start as nat) <= char_at_utf16(
                old(self)@.text,
                x.end as nat,
            ),
            old(self)@.text.len() + text@.len() <= max_chars(),
        ensures
            final(self).wf(),
            final(self)@ == spec_replace_and_mark(old(self)@, to_pair(range), text@, to_pair(selected)),
    {
        let (s, e) = self.ime_range(range);
        self.replace(s, e, text);
        let end = self.cursor;
        self.marked = Some(s..end);
        proof {
            lemma_strip_newlines(text@);
        }
        if let Some(sel) = selected {
            let marked = strip(text);
            let a = index_of_utf16(&marked, sel.start);
            let b = index_of_utf16(&marked, sel.end);
            self.anchor = if sel.start != sel.end {
                Some(s + a)
            } else {
                None
            };
            self.cursor = s + b;
        }
        self.touch();
    }

    /// A press at byte offset `at` of the laid-out text: move there, with
    /// shift extending, and start a drag.
    pub fn mouse_down(&mut self, at: usize, shift: bool)
        requires
            old(self).wf(),
            old(self)@.text.len() > 0 ==> is_boundary(old(self)@.text, at as nat),
        ensures
            final(self).wf(),
            final(self)@ == (TextInputView {
                dragging: true,
                ..spec_move_to(old(self)@, click_index(old(self)@, at as nat), shift)
            }),
    {
        let n = self.len();
        let ch = if n == 0 {
            0
        } else {
            self.char_at_byte(at)
        };
        self.move_to(ch, shift);
        self.dragging = true;
    }

    /// The pointer moved to byte offset `at`: during a drag the selection
    /// follows it.
    pub fn mouse_move(&mut self, at: usize)
        requires
            old(self).wf(),
            old(self)@.dragging && old(self)@.text.len() > 0 ==> is_boundary(old(self)@.text, at as nat),
        ensures
            final(self).wf(),
            final(self)@ == if old(self)@.dragging && click_index(old(self)@, at as nat) != old(self)@.cursor {
                spec_move_to(old(self)@, click_index(old(self)@, at as nat), true)
            } else {
                old(self)@
            },
    {
        if !self.dragging {
            return;
        }
        let n = self.len();
        let ch = if n == 0 {
            0
        } else {
            self.char_at_byte(at)
        };
        if ch != self.cursor {
            self.move_to(ch, true);
        }
    }

    /// The button came up: a drag ends.
    pub fn mouse_up(&mut self)
        ensures
            final(self)@ == (TextInputView { dragging: false, ..old(self)@ }),
    {
        self.dragging = false;
    }
}

/// A `Range` taken as a pair of naturals.
pub open spec fn to_pair(r: Option<Range<usize>>) -> Option<(nat, nat)> {
    match r {
        Some(x) => Some((x.start as nat, x.end as nat)),
        None => None,
    }
}

/// What an editing command does to the field; `clipboard` is what a paste
/// reads.
pub open spec fn spec_apply(v: TextInputView, a: KeyAction, clipboard: Option<Seq<char>>) -> TextInputView {
    match a {
        KeyAction::Backspace => spec_backspace(v),
        KeyAction::Delete => spec_delete(v),
        KeyAction::Left(s) => spec_left(v, s),
        KeyAction::Right(s) => spec_right(v, s),
        KeyAction::Home(s) => spec_move_to(v, 0, s),
        KeyAction::End(s) => spec_move_to(v, v.text.len(), s),
        KeyAction::SelectAll => spec_select_all(v),
        KeyAction::Copy => v,
        KeyAction::Cut => match spec_selection(v) {
            Some((s, e)) => touched(spec_replace(v, s, e, Seq::empty())),
            None => v,
        },
        KeyAction::Paste => match clipboard {
            Some(t) => spec_insert(v, t),
            None => v,
        },
    }
}

/// The command a key names. Control or Alt: none. With the platform key
/// (⌘): arrows jump to the ends, A C X V select all, copy, cut, paste.
/// Without it: Backspace, Delete, arrows, Home, End. Shift extends moves.
pub open spec fn spec_key_action(key: Seq<char>, m: Modifiers) -> Option<KeyAction> {
    if m.control || m.alt {
        None
    } else if !m.platform && key == "backspace"@ {
        Some(KeyAction::Backspace)
    } else if !m.platform && key == "delete"@ {
        Some(KeyAction::Delete)
    } else if !m.platform && key == "left"@ {
        Some(KeyAction::Left(m.shift))
    } else if !m.platform && key == "right"@ {
        Some(KeyAction::Right(m.shift))
    } else if key == "home"@ || (m.platform && key == "left"@) {
        Some(KeyAction::Home(m.shift))
    } else if key == "end"@ || (m.platform && key == "right"@) {
        Some(KeyAction::End(m.shift))
    } else if m.platform && key == "a"@ {
        Some(KeyAction::SelectAll)
    } else if m.platform && key == "c"@ {
        Some(KeyAction::Copy)
    } else if m.platform && key == "x"@ {
        Some(KeyAction::Cut)
    } else if m.platform && key == "v"@ {
        Some(KeyAction::Paste)
    } else {
        None
    }
}

/// The command a key names, as `spec_key_action` says.
pub fn key_action(key: &str, m: Modifiers) -> (r: Option<KeyAction>)
    ensures
        r == spec_key_action(key@, m),
{
    if m.control || m.alt {
        return None;
    }
    let cmd = m.platform;
    if !cmd && crate::text::str_eq(key, "backspace") {
        Some(KeyAction::Backspace)
    } else if !cmd && crate::text::str_eq(key, "delete") {
        Some(KeyAction::Delete)
    } else if !cmd && crate::text::str_eq(key, "left") {
        Some(KeyAction::Left(m.shift))
    } else if !cmd && crate::text::str_eq(key, "right") {
        Some(KeyAction::Right(m.shift))
    } else if crate::text::str_eq(key, "home") || (cmd && crate::text::str_eq(key, "left")) {
        Some(KeyAction::Home(m.shift))
    } else if crate::text::str_eq(key, "end") || (cmd && crate::text::str_eq(key, "right")) {
        Some(KeyAction::End(m.shift))
    } else if cmd && crate::text::str_eq(key, "a") {
        Some(KeyAction::SelectAll)
    } else if cmd && crate::text::str_eq(key, "c") {
        Some(KeyAction::Copy)
    } else if cmd && crate::text::str_eq(key, "x") {
        Some(KeyAction::Cut)
    } else if cmd && crate::text::str_eq(key, "v") {
        Some(KeyAction::Paste)
    } else {
        None
    }
}


/// Whether a text holds no line break.
pub open spec fn single_line(s: Seq<char>) -> bool {
    forall|i: int| 0 <= i < s.len() ==> !is_newline(#[trigger] s[i])
}

/// The field stays on one line: text typed, pasted or composed into a
/// one-line text leaves it one line, whatever the inserted text holds.
pub proof fn lemma_replace_keeps_single_line(v: TextInputView, start: nat, end: nat, ins: Seq<char>)
    requires
        input_wf(v),
        single_line(v.text),
        start <= end <= v.text.len(),
    ensures
        single_line(spec_replace(v, start, end, ins).text),
{
    lemma_strip_newlines(ins);
    let s = strip_newlines(ins);
    let a = v.text.subrange(0, start as int);
    let b = v.text.subrange(end as int, v.text.len() as int);
    let t = a + s + b;
    assert forall|i: int| 0 <= i < t.len() implies !is_newline(#[trigger] t[i]) by {
        if i < a.len() {
            assert(t[i] == v.text[i]);
        } else if i < a.len() + s.len() {
            assert(t[i] == s[i - a.len()]);
        } else {
            assert(t[i] == v.text[i - a.len() - s.len() + end]);
        }
    }
}

/// Backspace at the start of the text, with nothing selected, changes no
/// text; Delete at the end likewise.
pub proof fn lemma_edits_at_the_ends_are_noops(v: TextInputView)
    requires
        input_wf(v),
        spec_selection(v) is None,
    ensures
        v.cursor == 0 ==> spec_backspace(v).text == v.text && spec_backspace(v).cursor == 0,
        v.cursor == v.text.len() ==> spec_delete(v).text == v.text && spec_delete(v).cursor
            == v.cursor,
{
}

/// Typing replaces the selection: the text before and after it stays, the
/// typed text (without newlines) lands between, the cursor after it, and
/// nothing stays selected.
pub proof fn lemma_typing_replaces_selection(v: TextInputView, ins: Seq<char>)
    requires
        input_wf(v),
        spec_selection(v) is Some,
    ensures
        ({
            let (s, e) = spec_selection(v).unwrap();
            let w = spec_insert(v, ins);
            &&& w.text == v.text.subrange(0, s as int) + strip_newlines(ins) + v.text.subrange(
                e as int,
                v.text.len() as int,
            )
            &&& w.cursor == s + strip_newlines(ins).len()
            &&& spec_selection(w) is None
        }),
{
}

/// Left without Shift collapses a selection to its start; Right to its end.
pub proof fn lemma_arrows_collapse_selection(v: TextInputView)
    requires
        input_wf(v),
        spec_selection(v) is Some,
    ensures
        spec_left(v, false).cursor == spec_selection(v).unwrap().0,
        spec_right(v, false).cursor == spec_selection(v).unwrap().1,
        spec_selection(spec_left(v, false)) is None,
        spec_selection(spec_right(v, false)) is None,
{
}

/// An arrow moves one character. With nothing selected, or with Shift,
/// Right moves the cursor one character forward and Left one back,
/// stopping at the ends; Shift keeps the anchor where the selection
/// started, else nothing stays selected. Home and End go to the ends.
/// The text never changes.
pub proof fn lemma_arrows_move_one_char(v: TextInputView, extend: bool)
    requires
        input_wf(v),
    ensures
        spec_selection(v) is None || extend ==> {
            &&& v.cursor < v.text.len() ==> spec_right(v, extend).cursor == v.cursor + 1
            &&& v.cursor == v.text.len() ==> spec_right(v, extend).cursor == v.cursor
            &&& v.cursor > 0 ==> spec_left(v, extend).cursor + 1 == v.cursor
            &&& v.cursor == 0 ==> spec_left(v, extend).cursor == 0
        },
        extend ==> spec_right(v, true).anchor == Some(
            match v.anchor {
                Some(a) => a,
                None => v.cursor,
            },
        ),
        extend ==> spec_left(v, true).anchor == Some(
            match v.anchor {
                Some(a) => a,
                None => v.cursor,
            },
        ),
        !extend ==> spec_right(v, false).anchor is None && spec_left(v, false).anchor is None,
        spec_right(v, extend).text == v.text,
        spec_left(v, extend).text == v.text,
        spec_apply(v, KeyAction::Home(extend), None).cursor == 0,
        spec_apply(v, KeyAction::End(extend), None).cursor == v.text.len(),
        spec_apply(v, KeyAction::Home(extend), None).text == v.text,
        spec_apply(v, KeyAction::End(extend), None).text == v.text,
{
}

/// Backspace with nothing selected removes the character before the
/// cursor, Delete the one after it; every other character keeps its
/// order and the cursor stays between the same neighbours.
pub proof fn lemma_erase_removes_one_char(v: TextInputView)
    requires
        input_wf(v),
        spec_selection(v) is None,
    ensures
        v.cursor > 0 ==> {
            let w = spec_backspace(v);
            &&& w.text.len() + 1 == v.text.len()
            &&& w.cursor + 1 == v.cursor
            &&& forall|i: int| 0 <= i < v.cursor - 1 ==> w.text[i] == v.text[i]
            &&& forall|i: int| v.cursor - 1 <= i < w.text.len() ==> w.text[i] == v.text[i + 1]
        },
        v.cursor < v.text.len() ==> {
            let w = spec_delete(v);
            &&& w.text.len() + 1 == v.text.len()
            &&& w.cursor == v.cursor
            &&& forall|i: int| 0 <= i < v.cursor ==> w.text[i] == v.text[i]
            &&& forall|i: int| v.cursor <= i < w.text.len() ==> w.text[i] == v.text[i + 1]
        },
{
}

/// Typing with nothing selected inserts at the cursor: the text grows by
/// what was typed, which sits right at the old cursor, with the text
/// before it unchanged and the text after it shifted; the cursor ends
/// after it.
pub proof fn lemma_typing_inserts_at_cursor(v: TextInputView, ins: Seq<char>)
    requires
        input_wf(v),
        spec_selection(v) is None,
        forall|i: int| 0 <= i < ins.len() ==> !is_newline(#[trigger] ins[i]),
    ensures
        ({
            let w = spec_insert(v, ins);
            &&& w.text.len() == v.text.len() + ins.len()
            &&& w.cursor == v.cursor + ins.len()
            &&& forall|i: int| 0 <= i < v.cursor ==> w.text[i] == v.text[i]
            &&& forall|i: int| 0 <= i < ins.len() ==> w.text[v.cursor + i] == ins[i]
            &&& forall|i: int| v.cursor <= i < v.text.len() ==> w.text[i + ins.len()] == v.text[i]
        }),
{
    lemma_strip_plain(ins);
    let w = spec_insert(v, ins);
    assert(w.text == v.text.subrange(0, v.cursor as int) + ins + v.text.subrange(
        v.cursor as int,
        v.text.len() as int,
    ));
}

/// Text without newlines is left as it is.
proof fn lemma_strip_plain(s: Seq<char>)
    requires
        forall|i: int| 0 <= i < s.len() ==> !is_newline(#[trigger] s[i]),
    ensures
        strip_newlines(s) == s,
    decreases s.len(),
{
    if s.len() > 0 {
        let f = s.drop_last();
        assert forall|i: int| 0 <= i < f.len() implies !is_newline(#[trigger] f[i]) by {
            assert(f[i] == s[i]);
        }
        lemma_strip_plain(f);
        assert(!is_newline(s[s.len() - 1]));
        assert(f.push(s.last()) =~= s);
    }
}

/// The arrow keys: without ⌘, Right and Left move by a character, with
/// Shift extending; with ⌘ they jump to the ends. Control or Alt leaves
/// every key to the application.
pub proof fn lemma_arrow_keys(m: Modifiers)
    ensures
        !m.control && !m.alt && !m.platform ==> spec_key_action("right"@, m) == Some(
            KeyAction::Right(m.shift),
        ) && spec_key_action("left"@, m) == Some(KeyAction::Left(m.shift)),
        !m.control && !m.alt && m.platform ==> spec_key_action("right"@, m) == Some(
            KeyAction::End(m.shift),
        ) && spec_key_action("left"@, m) == Some(KeyAction::Home(m.shift)),
        m.control || m.alt ==> spec_key_action("right"@, m) is None && spec_key_action("left"@, m)
            is None,
{
    reveal_strlit("right");
    reveal_strlit("left");
    reveal_strlit("backspace");
    reveal_strlit("delete");
    reveal_strlit("home");
    reveal_strlit("end");
    assert("right"@[0] != "backspace"@[0]);
    assert("right"@[0] != "delete"@[0]);
    assert("right"@[0] != "left"@[0]);
    assert("right"@[0] != "home"@[0]);
    assert("right"@[0] != "end"@[0]);
    assert("left"@[0] != "backspace"@[0]);
    assert("left"@[0] != "delete"@[0]);
    assert("left"@[0] != "home"@[0]);
    assert("left"@[0] != "end"@[0]);
}

proof fn lemma_encode_len_push(a: Seq<char>, c: char)
    ensures
        vstd::utf8::encode_utf8(a.push(c)).len() == vstd::utf8::encode_utf8(a).len()
            + vstd::utf8::encode_scalar(c as u32).len(),
    decreases a.len(),
{
    let b = a.push(c);
    if a.len() == 0 {
        assert(b.drop_first() =~= Seq::<char>::empty());
        assert(b[0] == c);
        assert(vstd::utf8::encode_utf8(Seq::<char>::empty()).len() == 0);
        assert(vstd::utf8::encode_utf8(b) == vstd::utf8::encode_scalar(c as u32)
            + vstd::utf8::encode_utf8(b.drop_first()));
    } else {
        assert(b.drop_first() =~= a.drop_first().push(c));
        assert(b[0] == a[0]);
        lemma_encode_len_push(a.drop_first(), c);
    }
}

proof fn lemma_scalar_width(c: char)
    ensures
        vstd::utf8::encode_scalar(c as u32).len() == utf8_width(c),
{
    broadcast use vstd::utf8::char_is_scalar;

    assert(vstd::utf8::is_scalar(c as u32));
}

proof fn lemma_prefix_bytes(s: Seq<char>, k: nat)
    requires
        k <= s.len(),
    ensures
        utf8_offset(s, k) == vstd::utf8::encode_utf8(s.subrange(0, k as int)).len(),
    decreases k,
{
    if k > 0 {
        lemma_prefix_bytes(s, (k - 1) as nat);
        assert(s.subrange(0, k as int) =~= s.subrange(0, k - 1).push(s[k - 1]));
        lemma_encode_len_push(s.subrange(0, k - 1), s[k - 1]);
        lemma_scalar_width(s[k - 1]);
    } else {
        assert(s.subrange(0, 0) =~= Seq::<char>::empty());
    }
}

/// Byte offsets are UTF-8's: the offset of char `k` is the length of the
/// UTF-8 encoding of the chars before it, so the offset past the last
/// char is the text's byte length.
pub proof fn lemma_byte_offsets_are_utf8(s: Seq<char>, k: nat)
    requires
        k <= s.len(),
    ensures
        utf8_offset(s, k) == vstd::utf8::encode_utf8(s.subrange(0, k as int)).len(),
        utf8_offset(s, s.len()) == vstd::utf8::encode_utf8(s).len(),
{
    lemma_prefix_bytes(s, k);
    lemma_prefix_bytes(s, s.len());
    assert(s.subrange(0, s.len() as int) =~= s);
}

/// The editing keys: without ⌘, Backspace and Delete erase; Home and End
/// go to the ends, Shift extending; with ⌘, A, C, X and V select all,
/// copy, cut and paste, and without it those letters are left to the
/// input method. Control or Alt leaves every key alone.
pub proof fn lemma_editing_keys(m: Modifiers)
    ensures
        !m.control && !m.alt && !m.platform ==> spec_key_action("backspace"@, m) == Some(
            KeyAction::Backspace,
        ) && spec_key_action("delete"@, m) == Some(KeyAction::Delete),
        !m.control && !m.alt ==> spec_key_action("home"@, m) == Some(KeyAction::Home(m.shift))
            && spec_key_action("end"@, m) == Some(KeyAction::End(m.shift)),
        !m.control && !m.alt && m.platform ==> spec_key_action("a"@, m) == Some(KeyAction::SelectAll)
            && spec_key_action("c"@, m) == Some(KeyAction::Copy) && spec_key_action("x"@, m) == Some(
            KeyAction::Cut,
        ) && spec_key_action("v"@, m) == Some(KeyAction::Paste),
        !m.platform ==> spec_key_action("a"@, m) is None && spec_key_action("c"@, m) is None
            && spec_key_action("x"@, m) is None && spec_key_action("v"@, m) is None,
        m.control || m.alt ==> spec_key_action("backspace"@, m) is None && spec_key_action(
            "home"@,
            m,
        ) is None && spec_key_action("a"@, m) is None,
{
    reveal_strlit("backspace");
    reveal_strlit("delete");
    reveal_strlit("left");
    reveal_strlit("right");
    reveal_strlit("home");
    reveal_strlit("end");
    reveal_strlit("a");
    reveal_strlit("c");
    reveal_strlit("x");
    reveal_strlit("v");
    assert("backspace"@[0] != "delete"@[0]);
    assert("backspace"@[0] != "left"@[0]);
    assert("backspace"@[0] != "right"@[0]);
    assert("backspace"@[0] != "home"@[0]);
    assert("backspace"@[0] != "end"@[0]);
    assert("backspace"@[0] != "a"@[0]);
    assert("backspace"@[0] != "c"@[0]);
    assert("backspace"@[0] != "x"@[0]);
    assert("backspace"@[0] != "v"@[0]);
    assert("delete"@[0] != "backspace"@[0]);
    assert("delete"@[0] != "left"@[0]);
    assert("delete"@[0] != "right"@[0]);
    assert("delete"@[0] != "home"@[0]);
    assert("delete"@[0] != "end"@[0]);
    assert("delete"@[0] != "a"@[0]);
    assert("delete"@[0] != "c"@[0]);
    assert("delete"@[0] != "x"@[0]);
    assert("delete"@[0] != "v"@[0]);
    assert("home"@[0] != "backspace"@[0]);
    assert("home"@[0] != "delete"@[0]);
    assert("home"@[0] != "left"@[0]);
    assert("home"@[0] != "right"@[0]);
    assert("home"@[0] != "end"@[0]);
    assert("home"@[0] != "a"@[0]);
    assert("home"@[0] != "c"@[0]);
    assert("home"@[0] != "x"@[0]);
    assert("home"@[0] != "v"@[0]);
    assert("end"@[0] != "backspace"@[0]);
    assert("end"@[0] != "delete"@[0]);
    assert("end"@[0] != "left"@[0]);
    assert("end"@[0] != "right"@[0]);
    assert("end"@[0] != "home"@[0]);
    assert("end"@[0] != "a"@[0]);
    assert("end"@[0] != "c"@[0]);
    assert("end"@[0] != "x"@[0]);
    assert("end"@[0] != "v"@[0]);
    assert("a"@[0] != "backspace"@[0]);
    assert("a"@[0] != "delete"@[0]);
    assert("a"@[0] != "left"@[0]);
    assert("a"@[0] != "right"@[0]);
    assert("a"@[0] != "home"@[0]);
    assert("a"@[0] != "end"@[0]);
    assert("a"@[0] != "c"@[0]);
    assert("a"@[0] != "x"@[0]);
    assert("a"@[0] != "v"@[0]);
    assert("c"@[0] != "backspace"@[0]);
    assert("c"@[0] != "delete"@[0]);
    assert("c"@[0] != "left"@[0]);
    assert("c"@[0] != "right"@[0]);
    assert("c"@[0] != "home"@[0]);
    assert("c"@[0] != "end"@[0]);
    assert("c"@[0] != "a"@[0]);
    assert("c"@[0] != "x"@[0]);
    assert("c"@[0] != "v"@[0]);
    assert("x"@[0] != "backspace"@[0]);
    assert("x"@[0] != "delete"@[0]);
    assert("x"@[0] != "left"@[0]);
    assert("x"@[0] != "right"@[0]);
    assert("x"@[0] != "home"@[0]);
    assert("x"@[0] != "end"@[0]);
    assert("x"@[0] != "a"@[0]);
    assert("x"@[0] != "c"@[0]);
    assert("x"@[0] != "v"@[0]);
    assert("v"@[0] != "backspace"@[0]);
    assert("v"@[0] != "delete"@[0]);
    assert("v"@[0] != "left"@[0]);
    assert("v"@[0] != "right"@[0]);
    assert("v"@[0] != "home"@[0]);
    assert("v"@[0] != "end"@[0]);
    assert("v"@[0] != "a"@[0]);
    assert("v"@[0] != "c"@[0]);
    assert("v"@[0] != "x"@[0]);
}

/// Select-all selects the whole text; cut then removes exactly the
/// selection and leaves the cursor where it was.
pub proof fn lemma_select_all_and_cut(v: TextInputView)
    requires
        input_wf(v),
    ensures
        v.text.len() > 0 ==> spec_selection(spec_select_all(v)) == Some((0nat, v.text.len())),
        spec_select_all(v).text == v.text,
        spec_selection(v) matches Some((s, e)) ==> {
            let w = spec_apply(v, KeyAction::Cut, None);
            &&& w.text.len() + (e - s) == v.text.len()
            &&& w.cursor == s
            &&& forall|i: int| 0 <= i < s ==> w.text[i] == v.text[i]
            &&& forall|i: int| s <= i < w.text.len() ==> w.text[i] == v.text[i + (e - s)]
        },
        spec_apply(v, KeyAction::Copy, None) == v,
{
    if let Some((s, e)) = spec_selection(v) {
        assert(strip_newlines(Seq::<char>::empty()) == Seq::<char>::empty());
    }
}

/// Pasted or committed text loses exactly its line breaks: what enters
/// the field is the text with every `\n` and `\r` taken out and every
/// other character kept, in order.
pub proof fn lemma_strip_drops_only_newlines(s: Seq<char>)
    ensures
        strip_newlines(s) == s.filter(|c: char| !(c == '\n' || c == '\r')),
    decreases s.len(),
{
    reveal(Seq::filter);
    if s.len() > 0 {
        lemma_strip_drops_only_newlines(s.drop_last());
    }
}

/// A composition is marked over exactly the text it put in: the marked
/// range starts where the replacement began and ends after the inserted
/// text, which stands there without its line breaks.
pub proof fn lemma_composition_marks_its_text(
    v: TextInputView,
    range: Option<(nat, nat)>,
    ins: Seq<char>,
)
    requires
        input_wf(v),
        ime_range(v, range).0 <= ime_range(v, range).1 <= v.text.len(),
    ensures
        ({
            let r = ime_range(v, range);
            let w = spec_replace_and_mark(v, range, ins, None);
            let t = strip_newlines(ins);
            &&& w.marked == Some((r.0, r.0 + t.len()))
            &&& w.text.subrange(r.0 as int, (r.0 + t.len()) as int) == t
            &&& w.cursor == r.0 + t.len()
        }),
{
    let r = ime_range(v, range);
    let w = spec_replace_and_mark(v, range, ins, None);
    let t = strip_newlines(ins);
    assert(w.text.subrange(r.0 as int, (r.0 + t.len()) as int) =~= t);
}

} // verus!
