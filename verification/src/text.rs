//! Text as sequences of characters: the vocabulary that the contracts of the other modules use, and
//! the functions that compute it.

use vstd::prelude::*;
use vstd::utf8::*;

verus! {

// ---------------------------------------------------------------------------------------------
// Characters
// ---------------------------------------------------------------------------------------------

/// The characters with the Unicode property `White_Space`.
pub open spec fn is_space(c: char) -> bool {
    let n = c as u32;
    ||| 0x9 <= n <= 0xd
    ||| n == 0x20
    ||| n == 0x85
    ||| n == 0xa0
    ||| n == 0x1680
    ||| 0x2000 <= n <= 0x200a
    ||| n == 0x2028
    ||| n == 0x2029
    ||| n == 0x202f
    ||| n == 0x205f
    ||| n == 0x3000
}

/// The characters of the Unicode category `Cc`.
pub open spec fn is_control(c: char) -> bool {
    let n = c as u32;
    n <= 0x1f || 0x7f <= n <= 0x9f
}

/// ASCII letters and digits.
pub open spec fn is_alnum(c: char) -> bool {
    ||| '0' <= c <= '9'
    ||| 'A' <= c <= 'Z'
    ||| 'a' <= c <= 'z'
}

pub open spec fn lower_char(c: char) -> char {
    if 'A' <= c <= 'Z' {
        (c as u8 + 32) as char
    } else {
        c
    }
}

/// The number of bytes of a character in UTF-8.
pub open spec fn utf8_units(c: char) -> nat {
    let n = c as u32;
    if n < 0x80 {
        1
    } else if n < 0x800 {
        2
    } else if n < 0x1_0000 {
        3
    } else {
        4
    }
}

/// The number of code units of a character in UTF-16.
pub open spec fn utf16_units(c: char) -> nat {
    if (c as u32) < 0x1_0000 {
        1
    } else {
        2
    }
}

pub fn space(c: char) -> (r: bool)
    ensures
        r == is_space(c),
{
    let n: u32 = c as u32;
    (0x9 <= n && n <= 0xd) || n == 0x20 || n == 0x85 || n == 0xa0 || n == 0x1680 || (0x2000 <= n
        && n <= 0x200a) || n == 0x2028 || n == 0x2029 || n == 0x202f || n == 0x205f || n == 0x3000
}

pub fn control(c: char) -> (r: bool)
    ensures
        r == is_control(c),
{
    let n: u32 = c as u32;
    n <= 0x1f || (0x7f <= n && n <= 0x9f)
}

pub fn alnum(c: char) -> (r: bool)
    ensures
        r == is_alnum(c),
{
    ('0' <= c && c <= '9') || ('A' <= c && c <= 'Z') || ('a' <= c && c <= 'z')
}

pub fn ascii_lower(c: char) -> (r: char)
    ensures
        r == lower_char(c),
{
    if 'A' <= c && c <= 'Z' {
        (c as u8 + 32) as char
    } else {
        c
    }
}

pub fn char_utf8(c: char) -> (r: usize)
    ensures
        r == utf8_units(c),
{
    let n: u32 = c as u32;
    if n < 0x80 {
        1
    } else if n < 0x800 {
        2
    } else if n < 0x1_0000 {
        3
    } else {
        4
    }
}

pub fn char_utf16(c: char) -> (r: usize)
    ensures
        r == utf16_units(c),
{
    if (c as u32) < 0x1_0000 {
        1
    } else {
        2
    }
}

// ---------------------------------------------------------------------------------------------
// Between strings and vectors of characters
// ---------------------------------------------------------------------------------------------

/// `String::push` appends one character.
pub assume_specification[ String::push ](s: &mut String, c: char)
    ensures
        final(s)@ == old(s)@.push(c),
;

pub fn chars(s: &str) -> (v: Vec<char>)
    ensures
        v@ == s@,
{
    let mut v: Vec<char> = Vec::new();
    for c in it: s.chars()
        invariant
            it.seq() == s@,
            v@ == s@.take(it.index()),
    {
        v.push(c);
    }
    assert(s@.take(s@.len() as int) == s@);
    v
}

/// The text of the characters from `start` up to `end`.
pub fn slice(v: &Vec<char>, start: usize, end: usize) -> (s: String)
    requires
        start <= end <= v@.len(),
    ensures
        s@ == v@.subrange(start as int, end as int),
{
    let mut s = String::new();
    for i in start..end
        invariant
            start <= i <= end <= v@.len(),
            s@ == v@.subrange(start as int, i as int),
    {
        s.push(v[i]);
        assert(v@.subrange(start as int, i + 1) =~= v@.subrange(start as int, i as int).push(
            v@[i as int],
        ));
    }
    s
}

pub fn string(v: &Vec<char>) -> (s: String)
    ensures
        s@ == v@,
{
    let s = slice(v, 0, v.len());
    assert(v@.subrange(0, v@.len() as int) =~= v@);
    s
}

/// The views of a sequence of strings.
pub open spec fn texts(v: Seq<String>) -> Seq<Seq<char>> {
    Seq::new(v.len(), |i: int| v[i]@)
}

pub proof fn lemma_texts_push(v: Seq<String>, s: String)
    ensures
        texts(v.push(s)) == texts(v).push(s@),
{
    assert(texts(v.push(s)) =~= texts(v).push(s@));
}

/// Whether two texts are equal.
pub fn same(a: &str, b: &str) -> (r: bool)
    ensures
        r == (a@ == b@),
{
    let x = a.as_bytes();
    let y = b.as_bytes();
    proof {
        encode_utf8_decode_utf8(a@);
        encode_utf8_decode_utf8(b@);
    }
    if x.len() != y.len() {
        return false;
    }
    let n: usize = x.len();
    for i in 0..n
        invariant
            n == x@.len(),
            n == y@.len(),
            x@ == encode_utf8(a@),
            y@ == encode_utf8(b@),
            forall|j: int| 0 <= j < i ==> x@[j] == y@[j],
    {
        if x[i] != y[i] {
            return false;
        }
    }
    assert(x@ =~= y@);
    true
}

// ---------------------------------------------------------------------------------------------
// Lengths
// ---------------------------------------------------------------------------------------------

/// The length in bytes of a text in UTF-8.
pub open spec fn utf8_len(s: Seq<char>) -> nat
    decreases s.len(),
{
    if s.len() == 0 {
        0
    } else {
        utf8_len(s.drop_last()) + utf8_units(s.last())
    }
}

/// The length in code units of a text in UTF-16.
pub open spec fn utf16_len(s: Seq<char>) -> nat
    decreases s.len(),
{
    if s.len() == 0 {
        0
    } else {
        utf16_len(s.drop_last()) + utf16_units(s.last())
    }
}

pub proof fn lemma_utf8_concat(a: Seq<char>, b: Seq<char>)
    ensures
        utf8_len(a + b) == utf8_len(a) + utf8_len(b),
    decreases b.len(),
{
    if b.len() == 0 {
        assert(a + b =~= a);
    } else {
        assert((a + b).drop_last() =~= a + b.drop_last());
        lemma_utf8_concat(a, b.drop_last());
    }
}

pub proof fn lemma_utf16_concat(a: Seq<char>, b: Seq<char>)
    ensures
        utf16_len(a + b) == utf16_len(a) + utf16_len(b),
    decreases b.len(),
{
    if b.len() == 0 {
        assert(a + b =~= a);
    } else {
        assert((a + b).drop_last() =~= a + b.drop_last());
        lemma_utf16_concat(a, b.drop_last());
    }
}

pub proof fn lemma_utf16_push(a: Seq<char>, c: char)
    ensures
        utf16_len(a.push(c)) == utf16_len(a) + utf16_units(c),
        utf8_len(a.push(c)) == utf8_len(a) + utf8_units(c),
{
    assert(a.push(c).drop_last() =~= a);
}

/// A text is at least as long in UTF-8 as in characters and as in UTF-16.
pub proof fn lemma_length_order(s: Seq<char>)
    ensures
        s.len() <= utf16_len(s) <= utf8_len(s),
    decreases s.len(),
{
    if s.len() > 0 {
        lemma_length_order(s.drop_last());
    }
}

pub proof fn lemma_utf16_mono(s: Seq<char>, i: int, j: int)
    requires
        0 <= i <= j <= s.len(),
    ensures
        utf16_len(s.take(i)) <= utf16_len(s.take(j)),
        utf8_len(s.take(i)) <= utf8_len(s.take(j)),
        utf16_len(s.take(j)) == utf16_len(s.take(i)) + utf16_len(s.subrange(i, j)),
        utf8_len(s.take(j)) == utf8_len(s.take(i)) + utf8_len(s.subrange(i, j)),
        i < j ==> utf16_len(s.take(i)) < utf16_len(s.take(j)),
        i < j ==> utf8_len(s.take(i)) < utf8_len(s.take(j)),
{
    let mid = s.subrange(i, j);
    assert(s.take(j) =~= s.take(i) + mid);
    lemma_utf16_concat(s.take(i), mid);
    lemma_utf8_concat(s.take(i), mid);
    lemma_length_order(mid);
}

pub proof fn lemma_utf8_encoded(s: Seq<char>)
    ensures
        encode_utf8(s).len() == utf8_len(s),
    decreases s.len(),
{
    if s.len() > 0 {
        let c = s[0];
        let rest = s.drop_first();
        lemma_utf8_encoded(rest);
        let one = seq![c];
        assert(one + rest =~= s);
        lemma_utf8_concat(one, rest);
        assert(one.drop_last() =~= Seq::<char>::empty());
        assert(utf8_len(one) == utf8_units(c)) by {
            assert(utf8_len(one.drop_last()) == 0);
        }
        char_is_scalar(c);
        assert(encode_utf8(s) =~= encode_scalar(c as u32) + encode_utf8(rest));
    }
}

/// The length in bytes.
pub fn byte_len(s: &str) -> (n: usize)
    ensures
        n == utf8_len(s@),
{
    proof {
        lemma_utf8_encoded(s@);
    }
    s.as_bytes().len()
}

/// The length in characters.
pub fn char_len(s: &str) -> (n: usize)
    ensures
        n == s@.len(),
{
    chars(s).len()
}

/// The length in UTF-16 code units.
pub fn units_len(s: &str) -> (n: usize)
    ensures
        n == utf16_len(s@),
{
    let bytes: usize = byte_len(s);
    let v = chars(s);
    let mut n: usize = 0;
    for i in 0..v.len()
        invariant
            v@ == s@,
            bytes == utf8_len(s@),
            n == utf16_len(v@.take(i as int)),
    {
        proof {
            lemma_utf16_push(v@.take(i as int), v@[i as int]);
            assert(v@.take(i as int).push(v@[i as int]) =~= v@.take(i + 1));
            lemma_utf16_mono(v@, i + 1, v@.len() as int);
            assert(v@.take(v@.len() as int) =~= v@);
            lemma_length_order(v@);
        }
        n = n + char_utf16(v[i]);
    }
    assert(v@.take(v@.len() as int) =~= v@);
    n
}

pub fn clone_texts(v: &Vec<String>) -> (r: Vec<String>)
    ensures
        texts(r@) == texts(v@),
{
    let mut out: Vec<String> = Vec::new();
    let n: usize = v.len();
    let mut i: usize = 0;
    while i < n
        invariant
            i <= n,
            n == v@.len(),
            out@.len() == i,
            forall|j: int| 0 <= j < i ==> (#[trigger] out@[j])@ == v@[j]@,
        decreases n - i,
    {
        out.push(v[i].clone());
        i = i + 1;
    }
    proof {
        assert(texts(out@) =~= texts(v@));
    }
    out
}

/// The characters that are taken for whitespace are those that Unicode calls so.
pub proof fn law_spaces()
    ensures
        is_space(' ') && is_space('\t') && is_space('\n') && is_space('\r'),
        is_space('\u{b}') && is_space('\u{c}') && is_space('\u{85}') && is_space('\u{a0}'),
        is_space('\u{1680}') && is_space('\u{2000}') && is_space('\u{200a}') && is_space('\u{2028}'),
        is_space('\u{2029}') && is_space('\u{202f}') && is_space('\u{205f}') && is_space('\u{3000}'),
        !is_space('\u{200b}') && !is_space('\u{feff}') && !is_space('\u{180e}') && !is_space('\0'),
        forall|c: char| '!' <= c <= '~' ==> !#[trigger] is_space(c),
        forall|c: char| c as u32 > 0x3000 ==> !#[trigger] is_space(c),
{
}

/// A text takes as many units as its characters, and the lengths of two texts add up.
pub proof fn law_lengths(a: Seq<char>, b: Seq<char>, c: char)
    ensures
        utf16_len(a + b) == utf16_len(a) + utf16_len(b),
        utf8_len(a + b) == utf8_len(a) + utf8_len(b),
        utf16_len(Seq::empty()) == 0,
        utf8_len(Seq::empty()) == 0,
        utf16_len(seq![c]) == (if c as u32 > 0xffff {
            2nat
        } else {
            1nat
        }),
        utf8_len(seq![c]) == (if c as u32 > 0xffff {
            4nat
        } else if c as u32 > 0x7ff {
            3nat
        } else if c as u32 > 0x7f {
            2nat
        } else {
            1nat
        }),
{
    lemma_utf16_concat(a, b);
    lemma_utf8_concat(a, b);
    reveal_with_fuel(utf16_len, 2);
    reveal_with_fuel(utf8_len, 2);
    assert(seq![c].drop_last() =~= Seq::<char>::empty());
}

} // verus!
