//! Text you can select with the mouse and copy. One selection is shared by
//! any number of text elements, so only one holds a selection at a time.
//! Drag to select, double-click for a word. Positions are byte offsets into
//! the element's text, at character boundaries; the application maps the
//! mouse to them and paints the highlight.

use crate::text::{char_vec, string_from_chars};
use crate::text_input::{
    byte_of, byte_of_index, char_at_byte, index_of_byte, is_boundary, lemma_offsets_grow,
    max_chars,
};
use std::ops::Range;
use vstd::prelude::*;
use vstd::std_specs::cmp::PartialEqSpec;

verus! {

/// Whether `char::is_alphanumeric` holds of `c`: Unicode's Alphabetic or
/// Numeric property.
pub uninterp spec fn is_alphanumeric(c: char) -> bool;

/// An ASCII letter or digit.
pub open spec fn is_ascii_alnum(c: char) -> bool {
    ('a' <= c && c <= 'z') || ('A' <= c && c <= 'Z') || ('0' <= c && c <= '9')
}

/// `char::is_alphanumeric`, named: the Unicode tables are std's. Within
/// ASCII, where Alphabetic is the letters and Numeric the digits, it
/// holds exactly of letters and digits.
#[verifier::external_body]
fn alphanumeric(c: char) -> (r: bool)
    ensures
        r == is_alphanumeric(c),
        (c as u32) < 128 ==> (r <==> is_ascii_alnum(c)),
{
    c.is_alphanumeric()
}

/// A character a double-click takes as part of a word.
pub open spec fn is_word(c: char) -> bool {
    is_alphanumeric(c) || c == '_'
}

fn word_char(c: char) -> (r: bool)
    ensures
        r == is_word(c),
{
    c == '_' || alphanumeric(c)
}

/// The first character of the run of word characters that ends at char
/// index `k`: `k` itself when the character before is not a word character.
pub open spec fn word_start(s: Seq<char>, k: nat) -> nat
    decreases k,
{
    if 0 < k && k <= s.len() && is_word(s[k - 1]) {
        word_start(s, (k - 1) as nat)
    } else {
        k
    }
}

/// The end of the run of word characters that starts at char index `k`.
pub open spec fn word_end(s: Seq<char>, k: nat) -> nat
    decreases s.len() - k,
{
    if k < s.len() && is_word(s[k as int]) {
        word_end(s, k + 1)
    } else {
        k
    }
}

proof fn lemma_word_start_bound(s: Seq<char>, k: nat)
    requires
        k <= s.len(),
    ensures
        word_start(s, k) <= k,
    decreases k,
{
    if 0 < k && is_word(s[k - 1]) {
        lemma_word_start_bound(s, (k - 1) as nat);
    }
}

proof fn lemma_word_end_bound(s: Seq<char>, k: nat)
    requires
        k <= s.len(),
    ensures
        k <= word_end(s, k) <= s.len(),
    decreases s.len() - k,
{
    if k < s.len() && is_word(s[k as int]) {
        lemma_word_end_bound(s, k + 1);
    }
}

/// Word boundaries around byte offset `at`, for double-click: the run of
/// word characters (alphanumeric or `_`) on both sides of it, as bytes.
/// Between two non-word characters the range is empty at `at`.
pub fn word_at(text: &str, at: usize) -> (r: Range<usize>)
    requires
        text@.len() <= max_chars(),
        is_boundary(text@, at as nat),
    ensures
        r.start == byte_of(text@, word_start(text@, char_at_byte(text@, at as nat))),
        r.end == byte_of(text@, word_end(text@, char_at_byte(text@, at as nat))),
{
    let chars = char_vec(text);
    let k = index_of_byte(&chars, at);
    let ghost s = chars@;
    let mut start = k;
    while start > 0 && word_char(chars[start - 1])
        invariant
            s == chars@,
            start <= k <= s.len(),
            word_start(s, k as nat) == word_start(s, start as nat),
        decreases start,
    {
        start = start - 1;
    }
    let mut end = k;
    while end < chars.len() && word_char(chars[end])
        invariant
            s == chars@,
            k <= end <= s.len(),
            word_end(s, k as nat) == word_end(s, end as nat),
        decreases s.len() - end,
    {
        end = end + 1;
    }
    let from = byte_of_index(&chars, start);
    let to = byte_of_index(&chars, end);
    from..to
}

/// The text between two byte boundaries `from <= to`.
fn text_between(text: &str, from: usize, to: usize) -> (r: String)
    requires
        text@.len() <= max_chars(),
        is_boundary(text@, from as nat),
        is_boundary(text@, to as nat),
        from <= to,
    ensures
        char_at_byte(text@, from as nat) <= char_at_byte(text@, to as nat) <= text@.len(),
        r@ == text@.subrange(
            char_at_byte(text@, from as nat) as int,
            char_at_byte(text@, to as nat) as int,
        ),
{
    let chars = char_vec(text);
    let a = index_of_byte(&chars, from);
    let b = index_of_byte(&chars, to);
    proof {
        if b < a {
            lemma_offsets_grow(chars@, b as nat, a as nat);
        }
    }
    string_from_chars(chars.as_slice(), a, b)
}

/// Which element holds the selection, and where in its text.
pub struct Selection<Id> {
    owner: Option<Id>,
    anchor: usize,
    head: usize,
    dragging: bool,
    /// The selected text, kept here so a copy needs no access to the element.
    text: String,
}

/// A selection taken as plain values.
pub struct SelectionView<Id> {
    pub owner: Option<Id>,
    pub anchor: nat,
    pub head: nat,
    pub dragging: bool,
    pub text: Seq<char>,
}

impl<Id> View for Selection<Id> {
    type V = SelectionView<Id>;

    closed spec fn view(&self) -> SelectionView<Id> {
        SelectionView {
            owner: self.owner,
            anchor: self.anchor as nat,
            head: self.head as nat,
            dragging: self.dragging,
            text: self.text@,
        }
    }
}

/// The selected byte range, lower end first.
pub open spec fn spec_range<Id>(v: SelectionView<Id>) -> (nat, nat) {
    if v.anchor <= v.head {
        (v.anchor, v.head)
    } else {
        (v.head, v.anchor)
    }
}

/// The characters of `text` between byte boundaries `from` and `to`.
pub open spec fn between(text: Seq<char>, from: nat, to: nat) -> Seq<char> {
    text.subrange(char_at_byte(text, from) as int, char_at_byte(text, to) as int)
}

/// Whether the owner is `Some` id equal, by `Id`'s own `==`, to `id`.
pub open spec fn owned_by<Id: PartialEq>(owner: Option<Id>, id: Id) -> bool {
    match owner {
        Some(o) => o.eq_spec(&id),
        None => false,
    }
}

/// The state after a press at byte `at` in element `id` showing `text`: a
/// double-click takes the word there, a single click starts a drag at `at`.
pub open spec fn after_press<Id>(id: Id, text: Seq<char>, at: nat, click_count: nat) -> SelectionView<Id> {
    let k = char_at_byte(text, at);
    let (anchor, head) = if click_count >= 2 {
        (byte_of(text, word_start(text, k)), byte_of(text, word_end(text, k)))
    } else {
        (at, at)
    };
    let v = SelectionView { owner: Some(id), anchor, head, dragging: click_count < 2, text: Seq::empty() };
    SelectionView { text: between(text, spec_range(v).0, spec_range(v).1), ..v }
}

/// The selection after the pointer moves to `head` over the element `id`
/// showing `text`: while that element drags, the head follows and the
/// text is what lies between anchor and head; otherwise nothing changes.
pub open spec fn after_move<Id: PartialEq>(
    v: SelectionView<Id>,
    id: Id,
    text: Seq<char>,
    head: nat,
) -> SelectionView<Id> {
    if v.dragging && owned_by(v.owner, id) && head != v.head {
        let w = SelectionView { head, ..v };
        SelectionView { text: between(text, spec_range(w).0, spec_range(w).1), ..w }
    } else {
        v
    }
}

impl<Id: PartialEq> Selection<Id> {
    /// Nothing selected.
    pub fn new() -> (r: Self)
        ensures
            r@ == (SelectionView::<Id> {
                owner: None,
                anchor: 0,
                head: 0,
                dragging: false,
                text: Seq::empty(),
            }),
    {
        Selection { owner: None, anchor: 0, head: 0, dragging: false, text: String::new() }
    }

    /// The selected text, if any. Empty selections read as `None`.
    pub fn text(&self) -> (r: Option<&str>)
        ensures
            match r {
                Some(t) => t@ == self@.text && self@.text.len() > 0,
                None => self@.text.len() == 0,
            },
    {
        let t = self.text.as_str();
        if t.is_empty() {
            None
        } else {
            Some(t)
        }
    }

    /// Drop the selection.
    pub fn clear(&mut self)
        ensures
            final(self)@ == (SelectionView { owner: None, text: Seq::empty(), ..old(self)@ }),
    {
        self.owner = None;
        self.text = String::new();
    }

    /// Byte range within the owner's text, lower end first.
    pub fn range(&self) -> (r: Range<usize>)
        ensures
            (r.start as nat, r.end as nat) == spec_range(self@),
    {
        if self.anchor <= self.head {
            self.anchor..self.head
        } else {
            self.head..self.anchor
        }
    }

    fn owns(&self, id: &Id) -> (r: bool)
        requires
            Id::obeys_eq_spec(),
        ensures
            r == owned_by(self@.owner, *id),
    {
        match &self.owner {
            Some(o) => o == id,
            None => false,
        }
    }

    /// The range to highlight in element `id`: the selection, when `id`
    /// holds a non-empty one.
    pub fn range_in(&self, id: &Id) -> (r: Option<Range<usize>>)
        requires
            Id::obeys_eq_spec(),
        ensures
            match r {
                Some(g) => owned_by(self@.owner, *id) && self@.anchor != self@.head && (
                g.start as nat,
                g.end as nat,
                ) == spec_range(self@),
                None => !owned_by(self@.owner, *id) || self@.anchor == self@.head,
            },
    {
        if self.owns(id) && self.anchor != self.head {
            Some(self.range())
        } else {
            None
        }
    }

    /// A press at byte `at` of element `id`, whose text is `text`. A
    /// double-click selects the word there; a single click starts a drag.
    pub fn mouse_down(&mut self, id: Id, text: &str, at: usize, click_count: usize)
        requires
            text@.len() <= max_chars(),
            is_boundary(text@, at as nat),
        ensures
            final(self)@ == after_press(id, text@, at as nat, click_count as nat),
    {
        let (anchor, head) = if click_count >= 2 {
            let w = word_at(text, at);
            (w.start, w.end)
        } else {
            (at, at)
        };
        proof {
            let s = text@;
            let k = char_at_byte(s, at as nat);
            lemma_word_start_bound(s, k);
            lemma_word_end_bound(s, k);
            lemma_offsets_grow(s, word_start(s, k), word_end(s, k));
            lemma_offsets_grow(s, word_start(s, k), s.len());
            lemma_offsets_grow(s, word_end(s, k), s.len());
            assert(is_boundary(s, byte_of(s, word_start(s, k))));
            assert(is_boundary(s, byte_of(s, word_end(s, k))));
        }
        self.owner = Some(id);
        self.anchor = anchor;
        self.head = head;
        self.dragging = click_count < 2;
        let r = self.range();
        self.text = text_between(text, r.start, r.end);
    }

    /// The pointer moved to byte `head` of element `id`, whose text is
    /// `text`. While `id` drags the selection, a new head extends it to
    /// there; returns whether anything changed.
    pub fn mouse_move(&mut self, id: &Id, text: &str, head: usize) -> (changed: bool)
        requires
            Id::obeys_eq_spec(),
            text@.len() <= max_chars(),
            is_boundary(text@, head as nat),
            old(self)@.dragging && owned_by(old(self)@.owner, *id) ==> is_boundary(
                text@,
                old(self)@.anchor,
            ),
        ensures
            changed == (old(self)@.dragging && owned_by(old(self)@.owner, *id) && head
                != old(self)@.head),
            final(self)@ == after_move(old(self)@, *id, text@, head as nat),
    {
        if !self.dragging || !self.owns(id) {
            return false;
        }
        if head == self.head {
            return false;
        }
        self.head = head;
        let r = self.range();
        self.text = text_between(text, r.start, r.end);
        true
    }

    /// The button came up: a drag ends. Returns whether one was running.
    pub fn mouse_up(&mut self) -> (ended: bool)
        ensures
            ended == old(self)@.dragging,
            final(self)@ == (SelectionView { dragging: false, ..old(self)@ }),
    {
        let ended = self.dragging;
        self.dragging = false;
        ended
    }
}

/// Only one element holds the selection: a press in one element takes it
/// from whichever held it, so that one highlights nothing.
pub proof fn lemma_press_takes_ownership<Id: PartialEq>(
    id: Id,
    other: Id,
    text: Seq<char>,
    at: nat,
    clicks: nat,
)
    requires
        !id.eq_spec(&other),
    ensures
        after_press(id, text, at, clicks).owner == Some(id),
        !owned_by(after_press(id, text, at, clicks).owner, other),
{
}

/// A single click selects nothing yet and starts a drag; a double-click
/// selects a word and does not drag.
pub proof fn lemma_click_kinds<Id>(id: Id, text: Seq<char>, at: nat)
    ensures
        after_press(id, text, at, 1).anchor == at,
        after_press(id, text, at, 1).head == at,
        after_press(id, text, at, 1).dragging,
        !after_press(id, text, at, 2).dragging,
{
}

/// The selection shows what its owner displays: when some element owns
/// it, its text is that element's `text` between anchor and head.
pub open spec fn shows<Id>(v: SelectionView<Id>, text: Seq<char>) -> bool {
    v.owner is Some ==> v.text == between(text, spec_range(v).0, spec_range(v).1)
}

/// Whatever the events, the selected text is the owner's text between
/// anchor and head: a fresh selection and a cleared one own nothing; a
/// press in an element makes it hold for that element's text; a move over
/// the owner, with the owner's text, and a release keep it; a move over
/// another element changes nothing.
pub proof fn lemma_selection_shows_owner_text<Id: PartialEq>(
    v: SelectionView<Id>,
    id: Id,
    text: Seq<char>,
    at: nat,
    clicks: nat,
    head: nat,
)
    ensures
        shows(
            SelectionView::<Id> { owner: None, anchor: 0, head: 0, dragging: false, text: Seq::empty() },
            text,
        ),
        shows(SelectionView { owner: None, text: Seq::empty(), ..v }, text),
        shows(after_press(id, text, at, clicks), text),
        shows(v, text) ==> shows(after_move(v, id, text, head), text),
        !owned_by(v.owner, id) ==> after_move(v, id, text, head) == v,
        shows(v, text) ==> shows(SelectionView { dragging: false, ..v }, text),
{
}

/// A double-click selects the whole run of word characters around the
/// click: every character between its ends is a word character, and the
/// characters just outside it, where there are any, are not.
pub proof fn lemma_word_is_maximal_run(s: Seq<char>, k: nat)
    requires
        k <= s.len(),
    ensures
        word_start(s, k) <= k <= word_end(s, k) <= s.len(),
        forall|i: int| word_start(s, k) <= i < word_end(s, k) ==> is_word(#[trigger] s[i]),
        word_start(s, k) > 0 ==> !is_word(s[word_start(s, k) - 1]),
        word_end(s, k) < s.len() ==> !is_word(s[word_end(s, k) as int]),
{
    lemma_word_start_run(s, k);
    lemma_word_end_run(s, k);
}

proof fn lemma_word_start_run(s: Seq<char>, k: nat)
    requires
        k <= s.len(),
    ensures
        word_start(s, k) <= k,
        forall|i: int| word_start(s, k) <= i < k ==> is_word(#[trigger] s[i]),
        word_start(s, k) > 0 ==> !is_word(s[word_start(s, k) - 1]),
    decreases k,
{
    if 0 < k && is_word(s[k - 1]) {
        lemma_word_start_run(s, (k - 1) as nat);
    }
}

proof fn lemma_word_end_run(s: Seq<char>, k: nat)
    requires
        k <= s.len(),
    ensures
        k <= word_end(s, k) <= s.len(),
        forall|i: int| k <= i < word_end(s, k) ==> is_word(#[trigger] s[i]),
        word_end(s, k) < s.len() ==> !is_word(s[word_end(s, k) as int]),
    decreases s.len() - k,
{
    if k < s.len() && is_word(s[k as int]) {
        lemma_word_end_run(s, k + 1);
    }
}

/// The highlighted range runs from the smaller of anchor and head to the
/// larger, whichever way the drag went.
pub proof fn lemma_range_is_ordered<Id>(v: SelectionView<Id>)
    ensures
        spec_range(v).0 <= spec_range(v).1,
        (spec_range(v).0 == v.anchor && spec_range(v).1 == v.head) || (spec_range(v).0 == v.head
            && spec_range(v).1 == v.anchor),
        spec_range(v) == spec_range(SelectionView { anchor: v.head, head: v.anchor, ..v }),
{
}

} // verus!
