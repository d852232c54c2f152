//! Files handed to the app from outside: Finder "Open With", a drop on the
//! dock icon, `open -a`, a URL scheme, and `argv`. One stream, delivered to
//! a view's handler.
//!
//! macOS can deliver a file before the first window exists, so anything
//! that arrives early is held in an [`Inbox`] until a handler is set. URLs
//! arrive percent-encoded (`my%20data.csv`); [`url_to_path`] decodes them.

use crate::paths::{path_from_string, path_text};
use std::path::PathBuf;
use vstd::prelude::*;
use vstd::string::StringSliceAdditionalSpecFns;
use vstd::utf8::{decode_utf8, valid_utf8};

verus! {

/// The value of an ASCII hex digit.
pub open spec fn hex_digit(b: u8) -> Option<nat> {
    if 48 <= b && b <= 57 {
        Some((b - 48) as nat)
    } else if 97 <= b && b <= 102 {
        Some((b - 87) as nat)
    } else if 65 <= b && b <= 70 {
        Some((b - 55) as nat)
    } else {
        None
    }
}

/// Two bytes read as a base-16 `u8` the way `u8::from_str_radix` reads
/// them: an optional leading `+`, then digits.
pub open spec fn hex_pair(x: u8, y: u8) -> Option<u8> {
    if x == 43 {
        match hex_digit(y) {
            Some(d) => Some(d as u8),
            None => None,
        }
    } else {
        match (hex_digit(x), hex_digit(y)) {
            (Some(a), Some(b)) => Some((a * 16 + b) as u8),
            _ => None,
        }
    }
}

/// A byte that continues a multi-byte UTF-8 character.
pub open spec fn is_continuation(b: u8) -> bool {
    0x80 <= b && b < 0xc0
}

/// Percent-decoding of `b` from byte `i` on: `%` and two hex digits
/// become one byte; anything else stays as it is.
pub open spec fn percent_decode_from(b: Seq<u8>, i: nat) -> Seq<u8>
    decreases b.len() - i,
{
    if i >= b.len() {
        Seq::empty()
    } else if b[i as int] == 37 && i + 2 < b.len() && hex_pair(b[i + 1 as int], b[i + 2 as int]) is Some {
        seq![hex_pair(b[i + 1 as int], b[i + 2 as int])->0] + percent_decode_from(b, i + 3)
    } else {
        seq![b[i as int]] + percent_decode_from(b, i + 1)
    }
}

/// The decoder would cut a multi-byte character: a `%` whose two
/// following bytes end inside one. The two bytes after `%` are read as
/// text, which only works on character boundaries.
pub open spec fn percent_decode_cuts(b: Seq<u8>, i: nat) -> bool
    decreases b.len() - i,
{
    if i >= b.len() {
        false
    } else if b[i as int] == 37 && i + 2 < b.len() && i + 3 < b.len() && is_continuation(
        b[i + 3 as int],
    ) {
        true
    } else if b[i as int] == 37 && i + 2 < b.len() && hex_pair(b[i + 1 as int], b[i + 2 as int]) is Some {
        percent_decode_cuts(b, i + 3)
    } else {
        percent_decode_cuts(b, i + 1)
    }
}

/// The bytes of `file://`.
pub open spec fn file_scheme() -> Seq<u8> {
    seq![102u8, 105u8, 108u8, 101u8, 58u8, 47u8, 47u8]
}

/// The URL names a file: its bytes start with `file://`.
pub open spec fn is_file_url(bytes: Seq<u8>) -> bool {
    bytes.len() >= 7 && bytes.subrange(0, 7) == file_scheme()
}

/// The URL can be decoded without cutting a character.
pub open spec fn url_decodable(url: &str) -> bool {
    is_file_url(url.spec_bytes()) ==> !percent_decode_cuts(url.spec_bytes().skip(7), 0)
}

fn hex_digit_of(b: u8) -> (r: Option<u8>)
    ensures
        match hex_digit(b) {
            Some(d) => r == Some(d as u8),
            None => r is None,
        },
{
    if 48 <= b && b <= 57 {
        Some(b - 48)
    } else if 97 <= b && b <= 102 {
        Some(b - 87)
    } else if 65 <= b && b <= 70 {
        Some(b - 55)
    } else {
        None
    }
}

fn hex_pair_of(x: u8, y: u8) -> (r: Option<u8>)
    ensures
        r == hex_pair(x, y),
{
    if x == 43 {
        hex_digit_of(y)
    } else {
        match (hex_digit_of(x), hex_digit_of(y)) {
            (Some(a), Some(b)) => Some(a * 16 + b),
            _ => None,
        }
    }
}

/// `String::from_utf8`: the string the bytes encode, or `None` when they
/// are not UTF-8.
#[verifier::external_body]
pub(crate) fn string_from_utf8(bytes: Vec<u8>) -> (r: Option<String>)
    ensures
        match r {
            Some(s) => valid_utf8(bytes@) && s@ == decode_utf8(bytes@),
            None => !valid_utf8(bytes@),
        },
{
    String::from_utf8(bytes).ok()
}

/// Whether [`url_to_path`] can decode `url`. Every URL the platform hands
/// over is ASCII and can; a raw multi-byte character right after a `%`
/// and one more byte cannot.
pub fn is_decodable(url: &str) -> (r: bool)
    ensures
        r == url_decodable(url),
{
    let bytes = url.as_bytes();
    if !starts_with_file(bytes) {
        return true;
    }
    let n = bytes.len();
    let ghost rest = bytes@.skip(7);
    let mut i: usize = 7;
    while i < n
        invariant
            n == bytes@.len(),
            bytes@ == url.spec_bytes(),
            is_file_url(bytes@),
            7 <= i,
            rest == bytes@.skip(7),
            percent_decode_cuts(rest, 0) == percent_decode_cuts(rest, (i - 7) as nat),
        decreases n - i,
    {
        let j: Ghost<nat> = Ghost((i - 7) as nat);
        assert(rest[j@ as int] == bytes@[i as int]);
        if bytes[i] == 37 && n - i > 2 {
            assert(rest[j@ + 1 as int] == bytes@[i + 1]);
            assert(rest[j@ + 2 as int] == bytes@[i + 2]);
            if n - i > 3 && 0x80 <= bytes[i + 3] && bytes[i + 3] < 0xc0 {
                assert(rest[j@ + 3 as int] == bytes@[i + 3]);
                assert(percent_decode_cuts(rest, j@));
                return false;
            }
            if n - i > 3 {
                assert(rest[j@ + 3 as int] == bytes@[i + 3]);
            }
            if hex_pair_of(bytes[i + 1], bytes[i + 2]).is_some() {
                i = i + 3;
            } else {
                i = i + 1;
            }
        } else {
            i = i + 1;
        }
    }
    true
}

fn starts_with_file(bytes: &[u8]) -> (r: bool)
    ensures
        r == is_file_url(bytes@),
{
    if bytes.len() < 7 {
        return false;
    }
    let r = bytes[0] == 102 && bytes[1] == 105 && bytes[2] == 108 && bytes[3] == 101 && bytes[4]
        == 58 && bytes[5] == 47 && bytes[6] == 47;
    if r {
        assert(bytes@.subrange(0, 7) =~= file_scheme());
    } else {
        assert(bytes@.subrange(0, 7) != file_scheme()) by {
            if bytes@.subrange(0, 7) == file_scheme() {
                assert(bytes@.subrange(0, 7)[0] == bytes@[0]);
                assert(bytes@.subrange(0, 7)[1] == bytes@[1]);
                assert(bytes@.subrange(0, 7)[2] == bytes@[2]);
                assert(bytes@.subrange(0, 7)[3] == bytes@[3]);
                assert(bytes@.subrange(0, 7)[4] == bytes@[4]);
                assert(bytes@.subrange(0, 7)[5] == bytes@[5]);
                assert(bytes@.subrange(0, 7)[6] == bytes@[6]);
            }
        }
    }
    r
}

/// `file:///Users/x/my%20data.csv` → `/Users/x/my data.csv`. Other schemes
/// pass through as-is so a custom URL scheme still reaches the handler.
/// `None` when the decoded bytes are not UTF-8.
pub fn url_to_path(url: &str) -> (r: Option<PathBuf>)
    requires
        url_decodable(url),
    ensures
        is_file_url(url.spec_bytes()) ==> {
            let decoded = percent_decode_from(url.spec_bytes().skip(7), 0);
            match r {
                Some(p) => valid_utf8(decoded) && path_text(p) == decode_utf8(decoded),
                None => !valid_utf8(decoded),
            }
        },
        !is_file_url(url.spec_bytes()) ==> (r matches Some(p) && path_text(p) == url@),
{
    let bytes = url.as_bytes();
    if !starts_with_file(bytes) {
        return Some(path_from_string(String::from_str(url)));
    }
    let n = bytes.len();
    let ghost rest = bytes@.skip(7);
    let mut out: Vec<u8> = Vec::new();
    let mut i: usize = 7;
    while i < n
        invariant
            n == bytes@.len(),
            7 <= i,
            rest == bytes@.skip(7),
            !percent_decode_cuts(rest, (i - 7) as nat),
            out@ + percent_decode_from(rest, (i - 7) as nat) == percent_decode_from(rest, 0),
        decreases n - i,
    {
        let j: Ghost<nat> = Ghost((i - 7) as nat);
        assert(rest[j@ as int] == bytes@[i as int]);
        if bytes[i] == 37 && n - i > 2 {
            assert(rest[j@ + 1 as int] == bytes@[i + 1]);
            assert(rest[j@ + 2 as int] == bytes@[i + 2]);
            if n - i > 3 {
                assert(rest[j@ + 3 as int] == bytes@[i + 3]);
            }
            if let Some(b) = hex_pair_of(bytes[i + 1], bytes[i + 2]) {
                out.push(b);
                i = i + 3;
                assert(out@ + percent_decode_from(rest, (i - 7) as nat) =~= percent_decode_from(rest, 0));
                continue;
            }
        }
        out.push(bytes[i]);
        i = i + 1;
        assert(out@ + percent_decode_from(rest, (i - 7) as nat) =~= percent_decode_from(rest, 0));
    }
    assert(out@ =~= percent_decode_from(rest, 0));
    match string_from_utf8(out) {
        Some(s) => Some(path_from_string(s)),
        None => None,
    }
}

/// Paths that arrived before anyone could take them, and whether a
/// handler and the app are there to take new ones.
pub struct Inbox {
    buffered: Vec<PathBuf>,
    ready: bool,
    has_handler: bool,
}

/// An inbox taken as plain values.
pub struct InboxView {
    pub buffered: Seq<PathBuf>,
    pub ready: bool,
    pub has_handler: bool,
}

impl View for Inbox {
    type V = InboxView;

    closed spec fn view(&self) -> InboxView {
        InboxView { buffered: self.buffered@, ready: self.ready, has_handler: self.has_handler }
    }
}

/// The inbox after `paths` arrive, and what goes to the handler now: with
/// a handler and the app running they go straight through; otherwise they
/// wait. An empty list changes nothing.
pub open spec fn delivered(v: InboxView, paths: Seq<PathBuf>) -> (InboxView, Option<Seq<PathBuf>>) {
    if paths.len() == 0 {
        (v, None)
    } else if v.ready && v.has_handler {
        (v, Some(paths))
    } else {
        (InboxView { buffered: v.buffered + paths, ..v }, None)
    }
}

/// The inbox after a view registers its handler, and what waited, handed
/// over once.
pub open spec fn handled(v: InboxView) -> (InboxView, Option<Seq<PathBuf>>) {
    (
        InboxView { buffered: Seq::empty(), has_handler: true, ..v },
        if v.buffered.len() == 0 {
            None
        } else {
            Some(v.buffered)
        },
    )
}

impl Inbox {
    /// `initial` waiting (the paths on the command line), no handler, the
    /// app not yet running.
    pub fn new(initial: Vec<PathBuf>) -> (r: Inbox)
        ensures
            r@ == (InboxView { buffered: initial@, ready: false, has_handler: false }),
    {
        Inbox { buffered: initial, ready: false, has_handler: false }
    }

    /// How many paths wait for a handler.
    pub fn buffered_len(&self) -> (r: usize)
        ensures
            r == self@.buffered.len(),
    {
        self.buffered.len()
    }

    /// The app runs: a handler can be reached from now on.
    pub fn set_ready(&mut self)
        ensures
            final(self)@ == (InboxView { ready: true, ..old(self)@ }),
    {
        self.ready = true;
    }

    /// Paths arrive. With a handler and the app running they go straight
    /// to the handler (returned); otherwise they wait. Nothing happens for
    /// an empty list.
    pub fn deliver(&mut self, paths: Vec<PathBuf>) -> (r: Option<Vec<PathBuf>>)
        ensures
            final(self)@ == delivered(old(self)@, paths@).0,
            match delivered(old(self)@, paths@).1 {
                Some(p) => r matches Some(q) && q@ == p,
                None => r is None,
            },
    {
        if paths.len() == 0 {
            return None;
        }
        if self.ready && self.has_handler {
            Some(paths)
        } else {
            let mut paths = paths;
            self.buffered.append(&mut paths);
            None
        }
    }

    /// A view registers its handler. What waited is handed over once, and
    /// the inbox is empty afterwards.
    pub fn set_handler(&mut self) -> (r: Option<Vec<PathBuf>>)
        ensures
            final(self)@ == handled(old(self)@).0,
            match handled(old(self)@).1 {
                Some(p) => r matches Some(q) && q@ == p,
                None => r is None,
            },
    {
        self.has_handler = true;
        let mut taken: Vec<PathBuf> = Vec::new();
        std::mem::swap(&mut taken, &mut self.buffered);
        if taken.len() == 0 {
            None
        } else {
            Some(taken)
        }
    }
}

/// Files that arrive before a view exists reach it: whatever waited and
/// whatever arrived before the handler, in order, is handed over when the
/// handler registers, and nothing is handed over before.
pub proof fn lemma_early_paths_reach_the_handler(v: InboxView, a: Seq<PathBuf>, b: Seq<PathBuf>)
    requires
        !v.has_handler,
    ensures
        delivered(v, a).1 is None,
        delivered(delivered(v, a).0, b).1 is None,
        handled(delivered(delivered(v, a).0, b).0).1 == (if (v.buffered + a + b).len() == 0 {
            None
        } else {
            Some(v.buffered + a + b)
        }),
        handled(delivered(delivered(v, a).0, b).0).0.buffered.len() == 0,
{
    let w = delivered(delivered(v, a).0, b).0;
    assert(w.buffered =~= v.buffered + a + b);
}

/// Once the app runs with a handler, arrivals go straight through and
/// nothing waits.
pub proof fn lemma_live_paths_pass_through(v: InboxView, paths: Seq<PathBuf>)
    requires
        v.ready,
        v.has_handler,
        paths.len() > 0,
    ensures
        delivered(v, paths) == (v, Some(paths)),
{
}

/// Hex digits read as `u8::from_str_radix(_, 16)` reads them: `0`..`9`
/// are 0..9, and `a`..`f` and `A`..`F` alike are 10..15; no other byte is
/// a digit.
pub proof fn lemma_hex_digits_ignore_case(b: u8)
    ensures
        48 <= b <= 57 ==> hex_digit(b) == Some((b - 48) as nat),
        97 <= b <= 102 ==> hex_digit(b) == Some((b - 97 + 10) as nat),
        65 <= b <= 70 ==> hex_digit(b) == Some((b - 65 + 10) as nat),
        97 <= b <= 102 ==> hex_digit(b) == hex_digit((b - 32) as u8),
        !(48 <= b <= 57 || 97 <= b <= 102 || 65 <= b <= 70) ==> hex_digit(b) is None,
{
}

/// A percent escape is read case-insensitively: `%c3` and `%C3` are the
/// same byte, `0xc3`; two hex digits give sixteen times the first plus
/// the second.
pub proof fn lemma_percent_escape_value(x: u8, y: u8)
    requires
        x != 43,
        hex_digit(x) is Some,
        hex_digit(y) is Some,
    ensures
        hex_pair(x, y) == Some((hex_digit(x)->0 * 16 + hex_digit(y)->0) as u8),
        hex_digit(x)->0 * 16 + hex_digit(y)->0 < 256,
        97 <= x <= 102 ==> hex_pair(x, y) == hex_pair((x - 32) as u8, y),
        97 <= y <= 102 ==> hex_pair(x, y) == hex_pair(x, (y - 32) as u8),
        hex_pair(99, 51) == Some(0xc3u8) && hex_pair(67, 51) == Some(0xc3u8),
{
}

/// Percent-decoding leaves text without `%` as it is, turns `%` and two
/// hex digits into the one byte they spell, and leaves a `%` that starts
/// no escape in place; what follows is decoded the same way.
pub proof fn lemma_percent_decoding(b: Seq<u8>, i: nat)
    requires
        i <= b.len(),
    ensures
        (forall|k: int| i <= k < b.len() ==> #[trigger] b[k] != 37) ==> percent_decode_from(b, i)
            == b.skip(i as int),
        i + 2 < b.len() && b[i as int] == 37 && b[i + 1 as int] != 43 && hex_digit(b[i + 1 as int]) is Some && hex_digit(
            b[i + 2 as int],
        ) is Some ==> percent_decode_from(b, i) == seq![
            (hex_digit(b[i + 1 as int])->0 * 16 + hex_digit(b[i + 2 as int])->0) as u8,
        ] + percent_decode_from(b, i + 3),
        i < b.len() && b[i as int] != 37 ==> percent_decode_from(b, i) == seq![b[i as int]]
            + percent_decode_from(b, i + 1),
    decreases b.len() - i,
{
    if i < b.len() {
        lemma_percent_decoding(b, i + 1);
        if forall|k: int| i <= k < b.len() ==> #[trigger] b[k] != 37 {
            assert(forall|k: int| i + 1 <= k < b.len() ==> #[trigger] b[k] != 37);
            assert(b.skip(i as int) =~= seq![b[i as int]] + b.skip(i + 1 as int));
        }
    } else {
        assert(b.skip(i as int) =~= Seq::<u8>::empty());
    }
}

} // verus!
