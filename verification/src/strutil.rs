//! Small string-building and character helpers shared by the parser, the
//! validator, and the event encoders.

use vstd::prelude::*;
use vstd::string::{StrSliceExecFns, StringExecFns};

verus! {

/// Character-for-character string equality.
pub fn str_eq(a: &str, b: &str) -> (r: bool)
    ensures
        r == (a@ == b@),
{
    let sa = String::from_str(a);
    let sb = String::from_str(b);
    sa == sb
}

/// The character for a single decimal digit.
pub open spec fn digit_char(d: nat) -> char {
    (((d % 10) + 0x30) as u8) as char
}

/// Decimal rendering of a natural number, most significant digit first.
pub open spec fn dec_digits(n: nat) -> Seq<char>
    decreases n,
{
    if n < 10 {
        seq![digit_char(n)]
    } else {
        dec_digits(n / 10).push(digit_char(n % 10))
    }
}

/// Relies on String::push: appends the given character to the end of the string.
#[verifier::external_body]
pub fn push_char(s: &mut String, c: char)
    ensures
        final(s)@ == old(s)@.push(c),
{
    s.push(c)
}

fn digit_to_char(d: usize) -> (c: char)
    requires
        d < 10,
    ensures
        c == digit_char(d as nat),
{
    ((d as u8) + 0x30) as char
}

/// Renders a number in decimal, without sign or padding.
pub fn usize_to_string(n: usize) -> (s: String)
    ensures
        s@ == dec_digits(n as nat),
{
    let mut digits: Vec<char> = Vec::new();
    let mut m = n;
    proof {
        assert(dec_digits(n as nat) + Seq::<char>::empty() =~= dec_digits(n as nat));
    }
    while m >= 10
        invariant
            dec_digits(n as nat) == dec_digits(m as nat) + digits@,
        decreases m,
    {
        let ghost pre = digits@;
        let d = m % 10;
        let c = digit_to_char(d);
        digits.insert(0, c);
        proof {
            assert(digits@ =~= seq![c] + pre);
            assert(dec_digits(m as nat) == dec_digits(m as nat / 10).push(digit_char(
                m as nat % 10,
            )));
            assert(dec_digits(m as nat / 10).push(c) + pre =~= dec_digits(m as nat / 10) + (seq![c]
                + pre));
        }
        m = m / 10;
    }
    let ghost pre = digits@;
    let c = digit_to_char(m);
    digits.insert(0, c);
    proof {
        assert(digits@ =~= seq![c] + pre);
        assert(dec_digits(m as nat) =~= seq![c]);
        assert(dec_digits(n as nat) =~= digits@);
    }
    let mut s = String::new();
    let mut i: usize = 0;
    while i < digits.len()
        invariant
            i <= digits@.len(),
            s@ == digits@.take(i as int),
        decreases digits@.len() - i,
    {
        push_char(&mut s, digits[i]);
        i = i + 1;
        proof {
            assert(digits@.take(i as int) =~= digits@.take(i - 1).push(digits@[i - 1]));
        }
    }
    proof {
        assert(digits@.take(digits@.len() as int) =~= digits@);
    }
    s
}

/// Statement-level whitespace: the Unicode `White_Space` characters.
pub open spec fn is_ws(c: char) -> bool {
    ||| 0x09 <= (c as u32) <= 0x0d
    ||| (c as u32) == 0x20
    ||| (c as u32) == 0x85
    ||| (c as u32) == 0xa0
    ||| (c as u32) == 0x1680
    ||| 0x2000 <= (c as u32) <= 0x200a
    ||| (c as u32) == 0x2028
    ||| (c as u32) == 0x2029
    ||| (c as u32) == 0x202f
    ||| (c as u32) == 0x205f
    ||| (c as u32) == 0x3000
}

pub fn is_ws_char(c: char) -> (r: bool)
    ensures
        r == is_ws(c),
{
    let u = c as u32;
    (0x09 <= u && u <= 0x0d) || u == 0x20 || u == 0x85 || u == 0xa0 || u == 0x1680 || (0x2000 <= u
        && u <= 0x200a) || u == 0x2028 || u == 0x2029 || u == 0x202f || u == 0x205f || u == 0x3000
}

/// UTF-8 byte width of one character.
pub open spec fn char_width(c: char) -> int {
    if (c as u32) < 0x80 {
        1
    } else if (c as u32) < 0x800 {
        2
    } else if (c as u32) < 0x10000 {
        3
    } else {
        4
    }
}

/// UTF-8 byte length of a character sequence.
pub open spec fn width_of(s: Seq<char>) -> int
    decreases s.len(),
{
    if s.len() == 0 {
        0
    } else {
        char_width(s[0]) + width_of(s.drop_first())
    }
}

pub proof fn lemma_width_of_concat(a: Seq<char>, b: Seq<char>)
    ensures
        width_of(a + b) == width_of(a) + width_of(b),
    decreases a.len(),
{
    if a.len() == 0 {
        assert(a + b =~= b);
    } else {
        assert((a + b).drop_first() =~= a.drop_first() + b);
        assert((a + b)[0] == a[0]);
        lemma_width_of_concat(a.drop_first(), b);
    }
}

/// Each character takes between one and four bytes.
pub proof fn lemma_width_of_bounds(s: Seq<char>)
    ensures
        s.len() <= width_of(s) <= 4 * s.len(),
    decreases s.len(),
{
    if s.len() != 0 {
        lemma_width_of_bounds(s.drop_first());
    }
}

pub proof fn lemma_width_of_take_succ(s: Seq<char>, i: int)
    requires
        0 <= i < s.len(),
    ensures
        width_of(s.take(i + 1)) == width_of(s.take(i)) + char_width(s[i]),
{
    assert(s.take(i + 1) =~= s.take(i) + seq![s[i]]);
    lemma_width_of_concat(s.take(i), seq![s[i]]);
    assert(width_of(seq![s[i]]) == char_width(s[i])) by {
        assert(seq![s[i]].drop_first() =~= Seq::<char>::empty());
        assert(width_of(Seq::<char>::empty()) == 0);
        assert(seq![s[i]][0] == s[i]);
    }
}

/// The byte width of a subrange, as a difference of prefix widths.
pub proof fn lemma_width_of_subrange(s: Seq<char>, a: int, b: int)
    requires
        0 <= a <= b <= s.len(),
    ensures
        width_of(s.subrange(a, b)) == width_of(s.take(b)) - width_of(s.take(a)),
{
    assert(s.take(b) =~= s.take(a) + s.subrange(a, b));
    lemma_width_of_concat(s.take(a), s.subrange(a, b));
}

fn char_width_exec(c: char) -> (r: usize)
    ensures
        r == char_width(c),
{
    let u = c as u32;
    if u < 0x80 {
        1
    } else if u < 0x800 {
        2
    } else if u < 0x10000 {
        3
    } else {
        4
    }
}

/// Prefix byte widths of a character sequence: entry `i` is the byte width
/// of the first `i` characters; the result has one more entry than `chars`.
pub fn prefix_widths(chars: &Vec<char>) -> (w: Vec<usize>)
    requires
        chars@.len() < 0x1000_0000,
    ensures
        w@.len() == chars@.len() + 1,
        forall|i: int| 0 <= i <= chars@.len() ==> #[trigger] w@[i] == width_of(chars@.take(i)),
{
    let mut w: Vec<usize> = Vec::new();
    w.push(0);
    proof {
        assert(chars@.take(0) =~= Seq::<char>::empty());
    }
    let mut i: usize = 0;
    while i < chars.len()
        invariant
            i <= chars@.len(),
            chars@.len() < 0x1000_0000,
            w@.len() == i + 1,
            forall|j: int| 0 <= j <= i ==> #[trigger] w@[j] == width_of(chars@.take(j)),
        decreases chars@.len() - i,
    {
        proof {
            lemma_width_of_bounds(chars@.take(i as int));
            lemma_width_of_take_succ(chars@, i as int);
        }
        let cw = char_width_exec(chars[i]);
        let last = w[i];
        w.push(last + cw);
        i = i + 1;
    }
    w
}

/// The characters of a string, in order.
pub fn chars_of(s: &str) -> (v: Vec<char>)
    ensures
        v@ == s@,
{
    let n = s.unicode_len();
    let mut v: Vec<char> = Vec::new();
    let mut i: usize = 0;
    while i < n
        invariant
            n == s@.len(),
            i <= n,
            v@ == s@.take(i as int),
        decreases n - i,
    {
        let c = s.get_char(i);
        v.push(c);
        proof {
            assert(s@.take(i + 1) =~= s@.take(i as int).push(s@[i as int]));
        }
        i = i + 1;
    }
    proof {
        assert(s@.take(n as int) =~= s@);
    }
    v
}

/// Copies a character sequence into a fresh string.
pub fn string_from_chars(chars: &Vec<char>) -> (s: String)
    ensures
        s@ == chars@,
{
    let mut s = String::new();
    let mut i: usize = 0;
    while i < chars.len()
        invariant
            i <= chars@.len(),
            s@ == chars@.take(i as int),
        decreases chars@.len() - i,
    {
        push_char(&mut s, chars[i]);
        i = i + 1;
        proof {
            assert(chars@.take(i as int) =~= chars@.take(i - 1).push(chars@[i - 1]));
        }
    }
    proof {
        assert(chars@.take(chars@.len() as int) =~= chars@);
    }
    s
}

/// Appends a character range of `chars` to `s`.
pub fn append_char_range(s: &mut String, chars: &Vec<char>, from: usize, to: usize)
    requires
        from <= to <= chars@.len(),
    ensures
        final(s)@ == old(s)@ + chars@.subrange(from as int, to as int),
{
    let mut i: usize = from;
    while i < to
        invariant
            from <= i <= to <= chars@.len(),
            s@ == old(s)@ + chars@.subrange(from as int, i as int),
        decreases to - i,
    {
        push_char(s, chars[i]);
        i = i + 1;
        proof {
            assert(chars@.subrange(from as int, i as int) =~= chars@.subrange(
                from as int,
                i - 1,
            ).push(chars@[i - 1]));
            assert(old(s)@ + chars@.subrange(from as int, i as int) =~= (old(s)@ + chars@.subrange(
                from as int,
                i - 1,
            )).push(chars@[i - 1]));
        }
    }
}

} // verus!
