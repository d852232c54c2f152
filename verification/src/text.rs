//! Small string helpers shared by the modules: the few std calls on
//! strings that vstd leaves unspecified, and verified loops built on them.

use vstd::prelude::*;
use vstd::std_specs::iter::IteratorSpec;

verus! {

/// The characters of `s`, in order, read off `str::chars`.
pub(crate) fn char_vec(s: &str) -> (v: Vec<char>)
    ensures
        v@ == s@,
{
    broadcast use vstd::string::axiom_spec_iter, vstd::string::next_postcondition;

    let mut it = s.chars();
    let mut out: Vec<char> = Vec::new();
    loop
        invariant
            out@ + it.remaining() == s@,
            it.decrease() is Some,
        ensures
            out@ == s@,
        decreases it.decrease()->0,
    {
        match it.next() {
            Some(c) => {
                out.push(c);
            },
            None => {
                assert(it.remaining().len() == 0);
                break;
            },
        }
    }
    out
}

/// `String::push`: appends one character.
#[verifier::external_body]
pub(crate) fn string_push(s: &mut String, c: char)
    ensures
        final(s)@ == old(s)@.push(c),
{
    s.push(c)
}

/// A `String` holding exactly the characters `chars[from..to]`.
pub fn string_from_chars(chars: &[char], from: usize, to: usize) -> (s: String)
    requires
        from <= to <= chars@.len(),
    ensures
        s@ == chars@.subrange(from as int, to as int),
{
    let mut s = String::new();
    let mut i = from;
    while i < to
        invariant
            from <= i <= to <= chars@.len(),
            s@ == chars@.subrange(from as int, i as int),
        decreases to - i,
    {
        string_push(&mut s, chars[i]);
        i = i + 1;
        assert(s@ =~= chars@.subrange(from as int, i as int));
    }
    s
}

/// Whether two strings hold the same characters.
pub fn str_eq(a: &str, b: &str) -> (r: bool)
    ensures
        r == (a@ == b@),
{
    let x = char_vec(a);
    let y = char_vec(b);
    if x.len() != y.len() {
        return false;
    }
    let mut i: usize = 0;
    while i < x.len()
        invariant
            x@ == a@,
            y@ == b@,
            x@.len() == y@.len(),
            i <= x@.len(),
            forall|k: int| 0 <= k < i ==> x@[k] == y@[k],
        decreases x@.len() - i,
    {
        if x[i] != y[i] {
            return false;
        }
        i = i + 1;
    }
    assert(a@ =~= b@);
    true
}

/// Whether `hay` holds `needle` as a contiguous run of characters.
pub open spec fn seq_contains_at(hay: Seq<char>, needle: Seq<char>, at: int) -> bool {
    0 <= at && at + needle.len() <= hay.len() && hay.subrange(at, at + needle.len()) == needle
}

pub open spec fn seq_contains(hay: Seq<char>, needle: Seq<char>) -> bool {
    exists|at: int| seq_contains_at(hay, needle, at)
}

/// `str::contains` for a string needle: some window of `hay` equals `needle`.
pub fn str_contains(hay: &str, needle: &str) -> (r: bool)
    ensures
        r == seq_contains(hay@, needle@),
{
    let h = char_vec(hay);
    let n = char_vec(needle);
    if n.len() > h.len() {
        assert forall|at: int| !seq_contains_at(hay@, needle@, at) by {}
        return false;
    }
    let mut at: usize = 0;
    while at <= h.len() - n.len()
        invariant
            h@ == hay@,
            n@ == needle@,
            n@.len() <= h@.len(),
            at <= h@.len() - n@.len() + 1,
            forall|k: int| 0 <= k < at ==> !seq_contains_at(hay@, needle@, k),
        decreases h@.len() - n@.len() + 1 - at,
    {
        let mut j: usize = 0;
        let mut same = true;
        while j < n.len()
            invariant
                h@ == hay@,
                n@ == needle@,
                at + n@.len() <= h@.len(),
                h@.len() <= usize::MAX,
                j <= n@.len(),
                same == (forall|k: int| 0 <= k < j ==> h@[at + k] == n@[k]),
            decreases n@.len() - j,
        {
            if h[at + j] != n[j] {
                same = false;
            }
            j = j + 1;
        }
        if same {
            assert(hay@.subrange(at as int, at + needle@.len()) =~= needle@);
            assert(seq_contains_at(hay@, needle@, at as int));
            return true;
        }
        assert(!seq_contains_at(hay@, needle@, at as int)) by {
            if hay@.subrange(at as int, at + needle@.len()) == needle@ {
                assert forall|k: int| 0 <= k < n@.len() implies h@[at + k] == #[trigger] n@[k] by {
                    assert(hay@.subrange(at as int, at + needle@.len())[k] == n@[k]);
                }
            }
        }
        at = at + 1;
    }
    assert forall|k: int| !seq_contains_at(hay@, needle@, k) by {
        if 0 <= k && k < at {
        }
    }
    false
}


/// The decimal digit `d` as a character.
pub open spec fn digit_char(d: nat) -> char {
    if d == 0 { '0' } else if d == 1 { '1' } else if d == 2 { '2' } else if d == 3 { '3' }
    else if d == 4 { '4' } else if d == 5 { '5' } else if d == 6 { '6' } else if d == 7 { '7' }
    else if d == 8 { '8' } else { '9' }
}

/// `n` written in decimal, most significant digit first, no leading zeros.
pub open spec fn decimal(n: nat) -> Seq<char>
    decreases n,
{
    if n < 10 {
        seq![digit_char(n)]
    } else {
        decimal(n / 10).push(digit_char(n % 10))
    }
}

fn digit(d: usize) -> (c: char)
    requires
        d < 10,
    ensures
        c == digit_char(d as nat),
{
    if d == 0 { '0' } else if d == 1 { '1' } else if d == 2 { '2' } else if d == 3 { '3' }
    else if d == 4 { '4' } else if d == 5 { '5' } else if d == 6 { '6' } else if d == 7 { '7' }
    else if d == 8 { '8' } else { '9' }
}

/// Appends `n` in decimal, as `{}` formats it.
pub fn push_decimal(out: &mut String, n: usize)
    ensures
        final(out)@ == old(out)@ + decimal(n as nat),
    decreases n,
{
    if n >= 10 {
        push_decimal(out, n / 10);
    }
    string_push(out, digit(n % 10));
    assert(out@ =~= old(out)@ + decimal(n as nat));
}

/// The number that ASCII digits spell, most significant first.
pub open spec fn digits_value(s: Seq<char>) -> int
    decreases s.len(),
{
    if s.len() == 0 {
        0
    } else {
        digits_value(s.drop_last()) * 10 + (s.last() as int - 48)
    }
}

proof fn lemma_digit_char(d: nat)
    requires
        d < 10,
    ensures
        digit_char(d) as int == 48 + d,
{
    assert('0' as int == 48 && '1' as int == 49 && '2' as int == 50 && '3' as int == 51 && '4' as int
        == 52 && '5' as int == 53 && '6' as int == 54 && '7' as int == 55 && '8' as int == 56 && '9' as int
        == 57);
}

/// `decimal(n)` is `n` written in base ten: only the digits `0`..`9`,
/// no leading zero unless `n` is 0, and read back it is `n`.
pub proof fn lemma_decimal_reads_back(n: nat)
    ensures
        decimal(n).len() > 0,
        decimal(n).len() == 1 <==> n < 10,
        forall|i: int| 0 <= i < decimal(n).len() ==> '0' <= #[trigger] decimal(n)[i] <= '9',
        decimal(n).len() > 1 ==> decimal(n)[0] != '0',
        digits_value(decimal(n)) == n,
    decreases n,
{
    lemma_digit_char(n % 10);
    if n < 10 {
        assert(decimal(n) == seq![digit_char(n)]);
        assert(decimal(n).drop_last() =~= Seq::<char>::empty());
        assert(digits_value(Seq::<char>::empty()) == 0);
        assert(digits_value(decimal(n)) == digit_char(n) as int - 48);
    } else {
        lemma_decimal_reads_back(n / 10);
        let p = decimal(n / 10);
        assert(decimal(n) == p.push(digit_char(n % 10)));
        assert(decimal(n).drop_last() =~= p);
        assert forall|i: int| 0 <= i < decimal(n).len() implies '0' <= #[trigger] decimal(n)[i] <= '9' by {
            if i < p.len() {
                assert(decimal(n)[i] == p[i]);
            }
        }
        assert(decimal(n)[0] == p[0]);
        if n / 10 < 10 {
            lemma_digit_char(n / 10);
            assert(p == seq![digit_char(n / 10)]);
            assert(p[0] as int != 48);
            assert('0' as int == 48);
            assert(p[0] != '0');
        }
        assert(decimal(n).last() == digit_char(n % 10));
        assert(digits_value(decimal(n)) == digits_value(p) * 10 + (digit_char(n % 10) as int - 48));
        assert(n == (n / 10) * 10 + n % 10);
        assert(digits_value(decimal(n)) == (n / 10) * 10 + n % 10);
        assert(decimal(n).len() > 1 && decimal(n)[0] != '0');
    }
}

} // verus!
