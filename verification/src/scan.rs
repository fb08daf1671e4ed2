//! Trimming, splitting, searching and joining text.

use crate::text;
use vstd::prelude::*;

verus! {

// ---------------------------------------------------------------------------------------------
// Trimming and letter case
// ---------------------------------------------------------------------------------------------

/// A text without its leading whitespace.
pub open spec fn trimmed_start(s: Seq<char>) -> Seq<char>
    decreases s.len(),
{
    if s.len() > 0 && text::is_space(s[0]) {
        trimmed_start(s.skip(1))
    } else {
        s
    }
}

/// A text without its trailing whitespace.
pub open spec fn trimmed_end(s: Seq<char>) -> Seq<char>
    decreases s.len(),
{
    if s.len() > 0 && text::is_space(s.last()) {
        trimmed_end(s.drop_last())
    } else {
        s
    }
}

/// A text without leading and trailing whitespace.
pub open spec fn trimmed(s: Seq<char>) -> Seq<char> {
    trimmed_end(trimmed_start(s))
}

/// Whether a text holds nothing but whitespace.
pub open spec fn blank(s: Seq<char>) -> bool {
    forall|i: int| 0 <= i < s.len() ==> #[trigger] text::is_space(s[i])
}

/// A text with its ASCII capitals in lower case.
pub open spec fn lowered(s: Seq<char>) -> Seq<char> {
    s.map_values(|c: char| text::lower_char(c))
}

pub proof fn lemma_trimmed_start(s: Seq<char>)
    ensures
        trimmed_start(s).len() <= s.len(),
        trimmed_start(s) == s.skip(s.len() - trimmed_start(s).len()),
        trimmed_start(s).len() > 0 ==> !text::is_space(trimmed_start(s)[0]),
        blank(s.take(s.len() - trimmed_start(s).len())),
    decreases s.len(),
{
    if s.len() > 0 && text::is_space(s[0]) {
        lemma_trimmed_start(s.skip(1));
        let k = s.len() - trimmed_start(s).len();
        assert(s.skip(1).skip(k - 1) =~= s.skip(k));
        assert forall|i: int| 0 <= i < k implies #[trigger] text::is_space(s.take(k)[i]) by {
            if i > 0 {
                assert(s.take(k)[i] == s.skip(1).take(k - 1)[i - 1]);
            }
        }
    } else {
        assert(s.skip(0) =~= s);
    }
}

pub proof fn lemma_trimmed_end(s: Seq<char>)
    ensures
        trimmed_end(s).len() <= s.len(),
        trimmed_end(s) == s.take(trimmed_end(s).len() as int),
        trimmed_end(s).len() > 0 ==> !text::is_space(trimmed_end(s).last()),
        blank(s.skip(trimmed_end(s).len() as int)),
    decreases s.len(),
{
    if s.len() > 0 && text::is_space(s.last()) {
        lemma_trimmed_end(s.drop_last());
        let k = trimmed_end(s).len() as int;
        assert(s.drop_last().take(k) =~= s.take(k));
        assert forall|i: int| 0 <= i < s.skip(k).len() implies #[trigger] text::is_space(
            s.skip(k)[i],
        ) by {
            if k + i < s.len() - 1 {
                assert(s.skip(k)[i] == s.drop_last().skip(k)[i]);
            }
        }
    } else {
        assert(s.take(s.len() as int) =~= s);
    }
}

/// Trimming leaves nothing exactly where there was nothing but whitespace.
pub proof fn lemma_trimmed_blank(s: Seq<char>)
    ensures
        (trimmed(s).len() == 0) == blank(s),
        (trimmed_start(s).len() == 0) == blank(s),
        (trimmed_end(s).len() == 0) == blank(s),
{
    lemma_trimmed_start(s);
    lemma_trimmed_end(s);
    let t = trimmed_start(s);
    lemma_trimmed_end(t);
    if t.len() == 0 {
        assert(s.take(s.len() as int) =~= s);
        assert(trimmed_end(t).len() == 0);
    } else {
        let k = s.len() - t.len();
        assert(!text::is_space(s[k]));
        if trimmed_end(t).len() == 0 {
            assert(t.skip(0) =~= t);
            assert(text::is_space(t[0]));
        }
        if trimmed_end(s).len() == 0 {
            assert(s.skip(0) =~= s);
            assert(text::is_space(s[k]));
        }
    }
    if trimmed_end(s).len() > 0 {
        let k = trimmed_end(s).len() - 1;
        assert(!text::is_space(s[k]));
    } else {
        assert(s.skip(0) =~= s);
    }
}

/// Trimming twice is trimming once.
pub proof fn lemma_trimmed_twice(s: Seq<char>)
    ensures
        trimmed(trimmed(s)) == trimmed(s),
{
    let t = trimmed_start(s);
    lemma_trimmed_start(s);
    lemma_trimmed_end(t);
    let u = trimmed_end(t);
    if u.len() > 0 {
        assert(u[0] == t[0]);
    }
    assert(trimmed_start(u) == u);
    assert(trimmed_end(u) == u);
}

fn space_prefix(v: &Vec<char>) -> (i: usize)
    ensures
        i <= v@.len(),
        trimmed_start(v@) == v@.skip(i as int),
{
    let mut i: usize = 0;
    assert(v@.skip(0) =~= v@);
    while i < v.len() && text::space(v[i])
        invariant
            i <= v@.len(),
            trimmed_start(v@) == trimmed_start(v@.skip(i as int)),
        decreases v@.len() - i,
    {
        assert(v@.skip(i as int).skip(1) =~= v@.skip(i + 1));
        i = i + 1;
    }
    assert(trimmed_start(v@.skip(i as int)) == v@.skip(i as int));
    i
}

/// The end of the part of `v` up to `end` that stays when trailing whitespace goes.
pub fn space_suffix(v: &Vec<char>, start: usize, end: usize) -> (k: usize)
    requires
        start <= end <= v@.len(),
    ensures
        start <= k <= end,
        trimmed_end(v@.subrange(start as int, end as int)) == v@.subrange(start as int, k as int),
{
    let mut k: usize = end;
    while start < k && text::space(v[k - 1])
        invariant
            start <= k <= end <= v@.len(),
            trimmed_end(v@.subrange(start as int, end as int)) == trimmed_end(
                v@.subrange(start as int, k as int),
            ),
        decreases k,
    {
        assert(v@.subrange(start as int, k as int).drop_last() =~= v@.subrange(
            start as int,
            k - 1,
        ));
        k = k - 1;
    }
    assert(start < k ==> v@.subrange(start as int, k as int).last() == v@[k - 1]);
    k
}

/// `str::trim_start`.
pub fn trim_start(s: &str) -> (r: String)
    ensures
        r@ == trimmed_start(s@),
{
    let v = text::chars(s);
    let i: usize = space_prefix(&v);
    assert(v@.subrange(i as int, v@.len() as int) =~= v@.skip(i as int));
    text::slice(&v, i, v.len())
}

/// `str::trim_end`.
pub fn trim_end(s: &str) -> (r: String)
    ensures
        r@ == trimmed_end(s@),
{
    let v = text::chars(s);
    let k: usize = space_suffix(&v, 0, v.len());
    assert(v@.subrange(0, v@.len() as int) =~= v@);
    text::slice(&v, 0, k)
}

/// `str::trim`.
pub fn trim(s: &str) -> (r: String)
    ensures
        r@ == trimmed(s@),
{
    let v = text::chars(s);
    let i: usize = space_prefix(&v);
    assert(v@.subrange(i as int, v@.len() as int) =~= v@.skip(i as int));
    let k: usize = space_suffix(&v, i, v.len());
    text::slice(&v, i, k)
}

/// Whether nothing is left when the text is trimmed.
pub fn is_blank(s: &str) -> (r: bool)
    ensures
        r == blank(s@),
        r == (trimmed(s@).len() == 0),
{
    proof {
        lemma_trimmed_blank(s@);
    }
    let v = text::chars(s);
    let n: usize = v.len();
    for i in 0..n
        invariant
            n == v@.len(),
            v@ == s@,
            (trimmed(s@).len() == 0) == blank(s@),
            forall|j: int| 0 <= j < i ==> #[trigger] text::is_space(v@[j]),
    {
        if !text::space(v[i]) {
            return false;
        }
    }
    true
}

/// `str::to_ascii_lowercase`.
pub fn lower(s: &str) -> (r: String)
    ensures
        r@ == lowered(s@),
{
    let v = text::chars(s);
    let mut r = String::new();
    for i in 0..v.len()
        invariant
            v@ == s@,
            r@ == lowered(v@.take(i as int)),
    {
        r.push(text::ascii_lower(v[i]));
        assert(lowered(v@.take(i + 1)) =~= lowered(v@.take(i as int)).push(
            text::lower_char(v@[i as int]),
        ));
    }
    assert(v@.take(v@.len() as int) =~= v@);
    r
}

/// Whether two texts differ only in the case of ASCII letters.
pub fn same_ignoring_case(a: &str, b: &str) -> (r: bool)
    ensures
        r == (lowered(a@) == lowered(b@)),
{
    let x = lower(a);
    let y = lower(b);
    text::same(&x, &y)
}

// ---------------------------------------------------------------------------------------------
// Words
// ---------------------------------------------------------------------------------------------

/// The number of characters before the first whitespace.
pub open spec fn word_len(s: Seq<char>) -> nat
    decreases s.len(),
{
    if s.len() == 0 || text::is_space(s[0]) {
        0
    } else {
        1 + word_len(s.skip(1))
    }
}

pub proof fn lemma_word_len(s: Seq<char>)
    ensures
        word_len(s) <= s.len(),
        forall|i: int| 0 <= i < word_len(s) ==> !#[trigger] text::is_space(s[i]),
        word_len(s) < s.len() ==> text::is_space(s[word_len(s) as int]),
    decreases s.len(),
{
    if s.len() > 0 && !text::is_space(s[0]) {
        lemma_word_len(s.skip(1));
        assert forall|i: int| 0 <= i < word_len(s) implies !#[trigger] text::is_space(s[i]) by {
            if i > 0 {
                assert(s[i] == s.skip(1)[i - 1]);
            }
        }
    }
}

/// The maximal runs of characters that are not whitespace, in order.
pub open spec fn words(s: Seq<char>) -> Seq<Seq<char>>
    decreases s.len(),
    via words_decreases
{
    let t = trimmed_start(s);
    if t.len() == 0 {
        Seq::empty()
    } else {
        seq![t.take(word_len(t) as int)] + words(t.skip(word_len(t) as int))
    }
}

#[via_fn]
proof fn words_decreases(s: Seq<char>) {
    lemma_trimmed_start(s);
    lemma_word_len(trimmed_start(s));
}

/// No word is empty and none holds whitespace.
pub proof fn lemma_words(s: Seq<char>)
    ensures
        forall|i: int, j: int|
            0 <= i < words(s).len() && 0 <= j < words(s)[i].len() ==> !text::is_space(
                #[trigger] words(s)[i][j],
            ),
        forall|i: int| 0 <= i < words(s).len() ==> (#[trigger] words(s)[i]).len() > 0,
    decreases s.len(),
{
    let t = trimmed_start(s);
    lemma_trimmed_start(s);
    lemma_word_len(t);
    if t.len() > 0 {
        let rest = t.skip(word_len(t) as int);
        lemma_words(rest);
        assert forall|i: int, j: int|
            0 <= i < words(s).len() && 0 <= j < words(s)[i].len() implies !text::is_space(
            #[trigger] words(s)[i][j],
        ) by {
            if i > 0 {
                assert(words(s)[i] == words(rest)[i - 1]);
            } else {
                assert(words(s)[i][j] == t[j]);
            }
        }
        assert forall|i: int| 0 <= i < words(s).len() implies (#[trigger] words(s)[i]).len()
            > 0 by {
            if i > 0 {
                assert(words(s)[i] == words(rest)[i - 1]);
            }
        }
    }
}

/// The first word of a text that begins with one.
pub proof fn lemma_first_word(word: Seq<char>, more: Seq<char>)
    requires
        word.len() > 0,
        forall|i: int| 0 <= i < word.len() ==> !#[trigger] text::is_space(word[i]),
        more.len() == 0 || text::is_space(more[0]),
    ensures
        word_len(word + more) == word.len(),
        trimmed_start(word + more) == word + more,
        words(word + more) == seq![word] + words(more),
{
    let s = word + more;
    assert(s[0] == word[0]);
    lemma_word_len(s);
    let n = word_len(s);
    if n < word.len() {
        assert(text::is_space(s[n as int]));
        assert(s[n as int] == word[n as int]);
    }
    if n > word.len() {
        assert(!text::is_space(s.take(n as int)[word.len() as int]));
        assert(s[word.len() as int] == more[0]);
    }
    assert(s.take(word.len() as int) =~= word);
    assert(s.skip(word.len() as int) =~= more);
}

/// `str::split_whitespace`.
pub fn split_words(s: &str) -> (r: Vec<String>)
    ensures
        text::texts(r@) == words(s@),
{
    let v = text::chars(s);
    let n: usize = v.len();
    let mut r: Vec<String> = Vec::new();
    let mut i: usize = 0;
    assert(v@.skip(0) =~= v@);
    assert(text::texts(r@) + words(v@) =~= words(v@));
    while i < n
        invariant
            i <= n == v@.len(),
            v@ == s@,
            text::texts(r@) + words(v@.skip(i as int)) == words(v@),
        decreases n - i,
    {
        let ghost rest = v@.skip(i as int);
        let ghost done = text::texts(r@);
        let start0: usize = i;
        let mut k: usize = i;
        while k < n && text::space(v[k])
            invariant
                start0 <= k <= n == v@.len(),
                trimmed_start(v@.skip(start0 as int)) == trimmed_start(v@.skip(k as int)),
            decreases n - k,
        {
            assert(v@.skip(k as int).skip(1) =~= v@.skip(k + 1));
            k = k + 1;
        }
        let start: usize = k;
        let ghost t = v@.skip(start as int);
        assert(trimmed_start(rest) == t);
        assert(t.skip(0) =~= t);
        while k < n && !text::space(v[k])
            invariant
                start <= k <= n == v@.len(),
                t == v@.skip(start as int),
                word_len(t) == (k - start) + word_len(v@.skip(k as int)),
            decreases n - k,
        {
            assert(v@.skip(k as int).skip(1) =~= v@.skip(k + 1));
            k = k + 1;
        }
        assert(word_len(v@.skip(k as int)) == 0);
        if start < n {
            let word = text::slice(&v, start, k);
            proof {
                text::lemma_texts_push(r@, word);
                assert(t.take(word_len(t) as int) =~= word@);
                assert(t.skip(word_len(t) as int) =~= v@.skip(k as int));
                assert(words(rest) == seq![word@] + words(v@.skip(k as int)));
                assert(done.push(word@) + words(v@.skip(k as int)) =~= done + words(rest));
                assert(start < k);
            }
            r.push(word);
            i = k;
        } else {
            assert(t.len() == 0);
            assert(words(v@.skip(n as int)) =~= words(rest));
            i = n;
        }
    }
    assert(v@.skip(n as int).len() == 0);
    assert(words(v@.skip(n as int)) =~= Seq::empty());
    assert(text::texts(r@) + Seq::<Seq<char>>::empty() =~= text::texts(r@));
    r
}

/// The first word of a text that does not start with whitespace, and what follows it, trimmed.
pub fn split_first(s: &str) -> (r: (String, String))
    ensures
        r.0@ == s@.take(word_len(s@) as int),
        r.1@ == trimmed(s@.skip(word_len(s@) as int)),
{
    let v = text::chars(s);
    let n: usize = v.len();
    let mut k: usize = 0;
    assert(v@.skip(0) =~= v@);
    while k < n && !text::space(v[k])
        invariant
            k <= n == v@.len(),
            word_len(v@) == k + word_len(v@.skip(k as int)),
        decreases n - k,
    {
        assert(v@.skip(k as int).skip(1) =~= v@.skip(k + 1));
        k = k + 1;
    }
    let first = text::slice(&v, 0, k);
    let rest = text::slice(&v, k, n);
    assert(v@.subrange(0, k as int) =~= v@.take(k as int));
    assert(v@.subrange(k as int, n as int) =~= v@.skip(k as int));
    (first, trim(&rest))
}

// ---------------------------------------------------------------------------------------------
// Searching
// ---------------------------------------------------------------------------------------------

/// Whether `p` stands in `s` at position `i`.
pub open spec fn occurs(s: Seq<char>, p: Seq<char>, i: int) -> bool {
    0 <= i && i + p.len() <= s.len() && s.subrange(i, i + p.len()) == p
}

pub open spec fn starts(s: Seq<char>, p: Seq<char>) -> bool {
    occurs(s, p, 0)
}

pub open spec fn ends(s: Seq<char>, p: Seq<char>) -> bool {
    occurs(s, p, s.len() - p.len())
}

pub open spec fn has(s: Seq<char>, p: Seq<char>) -> bool {
    exists|i: int| occurs(s, p, i)
}

/// The last position of `p` in `s`, or `None`.
pub open spec fn last_at(s: Seq<char>, p: Seq<char>) -> Option<nat>
    decreases s.len(),
{
    if p.len() > s.len() {
        None
    } else if ends(s, p) {
        Some((s.len() - p.len()) as nat)
    } else if s.len() == 0 {
        None
    } else {
        last_at(s.drop_last(), p)
    }
}

pub proof fn lemma_last_at(s: Seq<char>, p: Seq<char>)
    ensures
        match last_at(s, p) {
            Some(i) => occurs(s, p, i as int) && forall|j: int| i < j ==> !occurs(s, p, j),
            None => forall|j: int| !occurs(s, p, j),
        },
    decreases s.len(),
{
    if p.len() > s.len() {
    } else if ends(s, p) {
    } else if s.len() == 0 {
    } else {
        lemma_last_at(s.drop_last(), p);
        assert forall|j: int| occurs(s, p, j) implies occurs(s.drop_last(), p, j) by {
            assert(j != s.len() - p.len());
            assert(s.drop_last().subrange(j, j + p.len()) =~= s.subrange(j, j + p.len()));
        }
        if let Some(i) = last_at(s.drop_last(), p) {
            assert(s.drop_last().subrange(i as int, (i + p.len()) as int) =~= s.subrange(
                i as int,
                (i + p.len()) as int,
            ));
        }
    }
}

/// Whether `p` stands in `v` at position `i`.
pub fn occurs_at(v: &Vec<char>, p: &Vec<char>, i: usize) -> (r: bool)
    ensures
        r == occurs(v@, p@, i as int),
{
    if i > v.len() || p.len() > v.len() - i {
        return false;
    }
    let n: usize = v.len();
    let m: usize = p.len();
    for k in 0..m
        invariant
            n == v@.len(),
            m == p@.len(),
            i + m <= v@.len(),
            forall|j: int| 0 <= j < k ==> v@[i + j] == #[trigger] p@[j],
    {
        if v[i + k] != p[k] {
            assert(v@.subrange(i as int, i + p@.len())[k as int] != p@[k as int]);
            return false;
        }
    }
    assert(v@.subrange(i as int, i + p@.len()) =~= p@);
    true
}

/// `str::starts_with`.
pub fn starts_with(s: &str, p: &str) -> (r: bool)
    ensures
        r == starts(s@, p@),
{
    let v = text::chars(s);
    let q = text::chars(p);
    occurs_at(&v, &q, 0)
}

/// `str::ends_with`.
pub fn ends_with(s: &str, p: &str) -> (r: bool)
    ensures
        r == ends(s@, p@),
{
    let v = text::chars(s);
    let q = text::chars(p);
    if q.len() > v.len() {
        return false;
    }
    occurs_at(&v, &q, v.len() - q.len())
}

/// `str::contains` with a text.
pub fn contains(s: &str, p: &str) -> (r: bool)
    ensures
        r == has(s@, p@),
{
    let v = text::chars(s);
    let q = text::chars(p);
    let n: usize = v.len();
    let mut i: usize = 0;
    while i < n
        invariant
            i <= n == v@.len(),
            v@ == s@,
            q@ == p@,
            forall|j: int| 0 <= j < i ==> !occurs(v@, q@, j),
        decreases n - i,
    {
        if occurs_at(&v, &q, i) {
            return true;
        }
        i = i + 1;
    }
    let r = occurs_at(&v, &q, n);
    assert(forall|j: int| occurs(v@, q@, j) ==> j <= n);
    assert(!r ==> forall|j: int| !occurs(v@, q@, j)) by {
        if !r {
            assert forall|j: int| !occurs(v@, q@, j) by {
                if 0 <= j < n {
                } else if j == n {
                } else {
                }
            }
        }
    }
    r
}

/// `str::contains` with a character.
pub fn contains_char(s: &str, c: char) -> (r: bool)
    ensures
        r == s@.contains(c),
{
    let v = text::chars(s);
    let n: usize = v.len();
    for i in 0..n
        invariant
            n == v@.len(),
            v@ == s@,
            forall|j: int| 0 <= j < i ==> v@[j] != c,
    {
        if v[i] == c {
            assert(s@[i as int] == c);
            return true;
        }
    }
    false
}

/// `str::rfind`, with positions counted in characters, on the part of `v` from `start` up to `end`.
pub fn find_last(v: &Vec<char>, start: usize, end: usize, p: &Vec<char>) -> (r: Option<usize>)
    requires
        start <= end <= v@.len(),
    ensures
        match (r, last_at(v@.subrange(start as int, end as int), p@)) {
            (Some(i), Some(j)) => i == j,
            (None, None) => true,
            _ => false,
        },
{
    let ghost part = v@.subrange(start as int, end as int);
    let m: usize = p.len();
    let mut k: usize = end;
    assert(part.take(part.len() as int) =~= part);
    while m <= k - start
        invariant
            m == p@.len(),
            start <= k <= end <= v@.len(),
            part == v@.subrange(start as int, end as int),
            last_at(part, p@) == last_at(part.take(k - start), p@),
        decreases k,
    {
        let ghost head = part.take(k - start);
        assert(head.subrange(k - start - m, k - start) =~= v@.subrange(k - m, k as int));
        if occurs_at(v, p, k - m) {
            assert(ends(head, p@));
            return Some(k - m - start);
        }
        assert(!ends(head, p@));
        if k == start {
            return None;
        }
        assert(head.drop_last() =~= part.take(k - 1 - start));
        k = k - 1;
    }
    None
}

// ---------------------------------------------------------------------------------------------
// Building
// ---------------------------------------------------------------------------------------------

/// The first `n` characters.
pub open spec fn first_chars(s: Seq<char>, n: nat) -> Seq<char> {
    if s.len() <= n {
        s
    } else {
        s.take(n as int)
    }
}

/// The text of the first `max` characters.
pub fn take_chars(value: &str, max: usize) -> (r: String)
    ensures
        r@ == first_chars(value@, max as nat),
{
    let v = text::chars(value);
    let end: usize = if v.len() <= max {
        v.len()
    } else {
        max
    };
    assert(v@.subrange(0, end as int) =~= first_chars(v@, max as nat));
    text::slice(&v, 0, end)
}

/// Texts one behind the other, with `sep` between each two.
pub open spec fn joined(parts: Seq<Seq<char>>, sep: Seq<char>) -> Seq<char>
    decreases parts.len(),
{
    if parts.len() == 0 {
        Seq::empty()
    } else if parts.len() == 1 {
        parts[0]
    } else {
        joined(parts.drop_last(), sep) + sep + parts.last()
    }
}

/// `[String]::join`, on the parts from `start` on.
pub fn join_from(parts: &Vec<String>, start: usize, sep: &str) -> (r: String)
    requires
        start <= parts@.len(),
    ensures
        r@ == joined(text::texts(parts@.skip(start as int)), sep@),
{
    let n: usize = parts.len();
    let ghost all = text::texts(parts@.skip(start as int));
    let mut r = String::new();
    let mut i: usize = start;
    assert(all.take(0) =~= Seq::empty());
    while i < n
        invariant
            start <= i <= n == parts@.len(),
            all == text::texts(parts@.skip(start as int)),
            r@ == joined(all.take(i - start), sep@),
        decreases n - i,
    {
        let ghost next = all.take(i - start + 1);
        assert(next.drop_last() =~= all.take(i - start));
        assert(next.last() == parts@[i as int]@);
        if i > start {
            r.append(sep);
            r.append(parts[i].as_str());
        } else {
            r = parts[i].clone();
        }
        i = i + 1;
    }
    assert(all.take(n - start) =~= all);
    r
}

/// `[String]::join`.
pub fn join(parts: &Vec<String>, sep: &str) -> (r: String)
    ensures
        r@ == joined(text::texts(parts@), sep@),
{
    assert(parts@.skip(0) =~= parts@);
    join_from(parts, 0, sep)
}

/// A text with each occurrence of `from`, found from the left and without overlaps, replaced by `to`.
pub open spec fn replaced(s: Seq<char>, from: Seq<char>, to: Seq<char>) -> Seq<char>
    decreases s.len(),
{
    if from.len() == 0 || s.len() < from.len() {
        s
    } else if starts(s, from) {
        to + replaced(s.skip(from.len() as int), from, to)
    } else {
        seq![s[0]] + replaced(s.skip(1), from, to)
    }
}

/// `str::replace` with a pattern that is not empty.
pub fn replace(s: &str, from: &str, to: &str) -> (r: String)
    requires
        from@.len() > 0,
    ensures
        r@ == replaced(s@, from@, to@),
{
    let v = text::chars(s);
    let p = text::chars(from);
    let n: usize = v.len();
    let m: usize = p.len();
    let mut r = String::new();
    let mut i: usize = 0;
    assert(v@.skip(0) =~= v@);
    assert(r@ + replaced(v@, p@, to@) =~= replaced(v@, p@, to@));
    while i < n
        invariant
            i <= n == v@.len(),
            m == p@.len() > 0,
            r@ + replaced(v@.skip(i as int), p@, to@) == replaced(v@, p@, to@),
        decreases n - i,
    {
        let ghost rest = v@.skip(i as int);
        let ghost before = r@;
        if occurs_at(&v, &p, i) {
            proof {
                assert(rest.subrange(0, m as int) =~= v@.subrange(i as int, i + m));
                assert(rest.skip(m as int) =~= v@.skip(i + m));
                assert(before + replaced(rest, p@, to@) =~= before + to@ + replaced(
                    v@.skip(i + m),
                    p@,
                    to@,
                ));
            }
            r.append(to);
            i = i + m;
        } else {
            proof {
                if rest.len() >= m {
                    assert(rest.subrange(0, m as int) =~= v@.subrange(i as int, i + m));
                } else {
                    assert(v@.skip(i + 1).len() < m);
                    assert(rest =~= seq![v@[i as int]] + v@.skip(i + 1));
                }
                assert(rest.skip(1) =~= v@.skip(i + 1));
                assert(before + replaced(rest, p@, to@) =~= before.push(v@[i as int]) + replaced(
                    v@.skip(i + 1),
                    p@,
                    to@,
                ));
            }
            r.push(v[i]);
            i = i + 1;
        }
    }
    assert(v@.skip(n as int).len() == 0);
    assert(r@ + v@.skip(n as int) =~= r@);
    r
}

/// A text repeated `n` times.
pub open spec fn repeated(s: Seq<char>, n: nat) -> Seq<char>
    decreases n,
{
    if n == 0 {
        Seq::empty()
    } else {
        repeated(s, (n - 1) as nat) + s
    }
}

/// `str::repeat`.
pub fn repeat(s: &str, n: usize) -> (r: String)
    ensures
        r@ == repeated(s@, n as nat),
{
    let mut r = String::new();
    for i in 0..n
        invariant
            r@ == repeated(s@, i as nat),
    {
        r.append(s);
    }
    r
}

// ---------------------------------------------------------------------------------------------
// Laws
// ---------------------------------------------------------------------------------------------

/// Whether a text has no whitespace at either end.
pub open spec fn tight(s: Seq<char>) -> bool {
    s.len() > 0 ==> !text::is_space(s[0]) && !text::is_space(s.last())
}

/// Whether a text holds no whitespace.
pub open spec fn solid(s: Seq<char>) -> bool {
    forall|i: int| 0 <= i < s.len() ==> !#[trigger] text::is_space(s[i])
}

pub proof fn lemma_leading_blank(a: Seq<char>, t: Seq<char>)
    requires
        blank(a),
        t.len() > 0 ==> !text::is_space(t[0]),
    ensures
        trimmed_start(a + t) == t,
    decreases a.len(),
{
    if a.len() == 0 {
        assert(a + t =~= t);
    } else {
        assert((a + t).skip(1) =~= a.skip(1) + t);
        assert((a + t)[0] == a[0]);
        assert(text::is_space(a[0]));
        assert forall|i: int| 0 <= i < a.skip(1).len() implies #[trigger] text::is_space(
            a.skip(1)[i],
        ) by {
            assert(text::is_space(a[i + 1]));
        }
        lemma_leading_blank(a.skip(1), t);
    }
}

proof fn lemma_drop_blank_end(t: Seq<char>, b: Seq<char>)
    requires
        blank(b),
        t.len() > 0 ==> !text::is_space(t.last()),
    ensures
        trimmed_end(t + b) == t,
    decreases b.len(),
{
    if b.len() == 0 {
        assert(t + b =~= t);
    } else {
        assert((t + b).drop_last() =~= t + b.drop_last());
        assert(text::is_space(b[b.len() - 1]));
        assert forall|i: int| 0 <= i < b.drop_last().len() implies #[trigger] text::is_space(
            b.drop_last()[i],
        ) by {
            assert(text::is_space(b[i]));
        }
        lemma_drop_blank_end(t, b.drop_last());
    }
}

/// Trimming takes away the whitespace around a text and nothing else.
pub proof fn law_trim(a: Seq<char>, t: Seq<char>, b: Seq<char>)
    requires
        blank(a),
        tight(t),
        blank(b),
    ensures
        trimmed(a + t + b) == t,
        trimmed_start(a + t) == t,
        trimmed_end(t + b) == t,
        t.len() > 0 ==> trimmed_start(a + t + b) == t + b,
{
    lemma_leading_blank(a, t);
    lemma_drop_blank_end(t, b);
    if t.len() > 0 {
        assert(a + t + b =~= a + (t + b));
        lemma_leading_blank(a, t + b);
    } else {
        assert forall|i: int| 0 <= i < (a + t + b).len() implies #[trigger] text::is_space(
            (a + t + b)[i],
        ) by {
            if i < a.len() {
                assert(text::is_space(a[i]));
            } else {
                assert(text::is_space(b[i - a.len()]));
            }
        }
        lemma_trimmed_blank(a + t + b);
        assert(trimmed(a + t + b) =~= t);
    }
}

/// The words of a text are what stands between whitespace: a text in two parts with whitespace between
/// them has the words of the first and then those of the second, a part without whitespace is one word, and
/// one with nothing else has none.
pub proof fn law_words(a: Seq<char>, space: char, b: Seq<char>)
    requires
        text::is_space(space),
    ensures
        words(a.push(space) + b) == words(a) + words(b),
        solid(a) && a.len() > 0 ==> words(a) == seq![a],
        blank(a) ==> words(a) == Seq::<Seq<char>>::empty(),
    decreases a.len(),
{
    let s = a.push(space) + b;
    let t = trimmed_start(a);
    lemma_trimmed_start(a);
    lemma_trimmed_blank(a);
    if blank(a) {
        let lead = a.push(space);
        assert forall|i: int| 0 <= i < lead.len() implies #[trigger] text::is_space(lead[i]) by {
            if i < a.len() {
                assert(text::is_space(a[i]));
            }
        }
        lemma_words_behind(lead, b);
        assert(words(a) =~= Seq::<Seq<char>>::empty());
        assert(words(a) + words(b) =~= words(b));
    } else {
        let lead = a.take(a.len() - t.len());
        assert(a =~= lead + t);
        let n = word_len(t) as int;
        lemma_word_len(t);
        let word = t.take(n);
        let rest = t.skip(n);
        assert(t =~= word + rest);
        assert(n > 0);
        assert(s =~= lead + (word + (rest.push(space) + b)));
        lemma_leading_blank(lead, word + (rest.push(space) + b));
        assert forall|i: int| 0 <= i < word.len() implies !#[trigger] text::is_space(word[i]) by {
            assert(word[i] == t[i]);
        }
        lemma_first_word(word, rest.push(space) + b);
        assert(trimmed_start(s) == word + (rest.push(space) + b));
        assert((word + (rest.push(space) + b)).take(n) =~= word);
        assert((word + (rest.push(space) + b)).skip(n) =~= rest.push(space) + b);
        law_words(rest, space, b);
        assert(words(s) == seq![word] + words(rest.push(space) + b));
        assert(words(a) == seq![word] + words(rest));
        assert(seq![word] + (words(rest) + words(b)) =~= seq![word] + words(rest) + words(b));
        if solid(a) {
            if lead.len() > 0 {
                assert(text::is_space(lead[0]));
                assert(lead[0] == a[0]);
            }
            assert(t =~= a);
            if n < t.len() {
                assert(text::is_space(t[n]));
            }
            assert(word =~= a);
            assert(rest =~= Seq::<char>::empty());
            assert(words(rest) =~= Seq::<Seq<char>>::empty());
            assert(seq![word] + words(rest) =~= seq![a]);
        }
    }
}

proof fn lemma_words_behind(lead: Seq<char>, b: Seq<char>)
    requires
        blank(lead),
    ensures
        words(lead + b) == words(b),
{
    let t = trimmed_start(b);
    lemma_trimmed_start(b);
    let more = b.take(b.len() - t.len());
    assert(b =~= more + t);
    assert(lead + b =~= (lead + more) + t);
    assert forall|i: int| 0 <= i < (lead + more).len() implies #[trigger] text::is_space(
        (lead + more)[i],
    ) by {
        if i < lead.len() {
            assert(text::is_space(lead[i]));
        } else {
            assert(text::is_space(more[i - lead.len()]));
        }
    }
    lemma_leading_blank(lead + more, t);
    lemma_leading_blank(more, t);
}

/// Lowering a text lowers its ASCII capitals and keeps everything else in its place.
pub proof fn law_lowered(s: Seq<char>, i: int)
    requires
        0 <= i < s.len(),
    ensures
        lowered(s).len() == s.len(),
        !('A' <= s[i] <= 'Z') ==> lowered(s)[i] == s[i],
        'A' <= s[i] <= 'Z' ==> lowered(s)[i] as u32 == s[i] as u32 + 32,
        lowered(lowered(s)) == lowered(s),
{
    assert(lowered(lowered(s)) =~= lowered(s));
}

/// Joining puts the separator between the parts, and nothing else.
pub proof fn law_joined(parts: Seq<Seq<char>>, more: Seq<Seq<char>>, sep: Seq<char>, part: Seq<char>)
    ensures
        joined(Seq::empty(), sep) == Seq::<char>::empty(),
        joined(seq![part], sep) == part,
        parts.len() > 0 && more.len() > 0 ==> joined(parts + more, sep) == joined(parts, sep) + sep
            + joined(more, sep),
    decreases more.len(),
{
    if parts.len() > 0 && more.len() > 0 {
        let all = parts + more;
        assert(all.drop_last() =~= parts + more.drop_last());
        assert(all.last() == more.last());
        if more.len() == 1 {
            assert(all.drop_last() =~= parts);
            assert(joined(more, sep) == more[0]);
        } else {
            law_joined(parts, more.drop_last(), sep, part);
            assert(joined(all, sep) =~= joined(parts, sep) + sep + (joined(more.drop_last(), sep)
                + sep + more.last()));
        }
    }
}

/// Replacing exchanges each occurrence, from the left: what stands before the first one stays, then comes
/// the replacement, and what follows is treated likewise. A text without an occurrence stays as it is.
pub proof fn law_replaced(s: Seq<char>, from: Seq<char>, to: Seq<char>, i: int)
    requires
        from.len() > 0,
    ensures
        !self::has(s, from) ==> replaced(s, from, to) == s,
        occurs(s, from, i) && (forall|j: int| 0 <= j < i ==> !#[trigger] occurs(s, from, j))
            ==> replaced(s, from, to) == s.take(i) + to + replaced(
            s.skip(i + from.len()),
            from,
            to,
        ),
    decreases s.len(),
{
    if s.len() >= from.len() {
        let rest = s.skip(1);
        assert forall|j: int| occurs(rest, from, j) implies occurs(s, from, j + 1) by {
            assert(s.subrange(j + 1, j + 1 + from.len()) =~= rest.subrange(j, j + from.len()));
        }
        assert forall|j: int| j >= 1 && occurs(s, from, j) implies occurs(rest, from, j - 1) by {
            assert(s.subrange(j, j + from.len()) =~= rest.subrange(j - 1, j - 1 + from.len()));
        }
        law_replaced(rest, from, to, i - 1);
        if !self::has(s, from) {
            if has(rest, from) {
                let j = choose|j: int| occurs(rest, from, j);
                assert(occurs(s, from, j + 1));
            }
            assert(!occurs(s, from, 0));
            assert(seq![s[0]] + rest =~= s);
        }
        if occurs(s, from, i) && (forall|j: int| 0 <= j < i ==> !#[trigger] occurs(s, from, j)) {
            if i == 0 {
                assert(s.take(0) + to =~= to);
            } else {
                assert(!occurs(s, from, 0));
                assert forall|j: int| 0 <= j < i - 1 implies !#[trigger] occurs(rest, from, j) by {
                    assert(!occurs(s, from, j + 1));
                }
                assert(rest.skip(i - 1 + from.len()) =~= s.skip(i + from.len()));
                assert(seq![s[0]] + (rest.take(i - 1) + to + replaced(
                    s.skip(i + from.len()),
                    from,
                    to,
                )) =~= s.take(i) + to + replaced(s.skip(i + from.len()), from, to));
            }
        }
    }
}

/// A text is repeated as often as is said.
pub proof fn law_repeated(s: Seq<char>, a: nat, b: nat)
    ensures
        repeated(s, 0) == Seq::<char>::empty(),
        repeated(s, 1) == s,
        repeated(s, a + b) == repeated(s, a) + repeated(s, b),
    decreases b,
{
    reveal_with_fuel(repeated, 2);
    assert(repeated(s, 1) =~= s);
    if b == 0 {
        assert(repeated(s, a) + repeated(s, b) =~= repeated(s, a));
    } else {
        law_repeated(s, a, (b - 1) as nat);
        assert(repeated(s, a + b) =~= repeated(s, a) + (repeated(s, (b - 1) as nat) + s));
    }
}

/// The first characters of a text are its beginning, as much of it as there is.
pub proof fn law_first_chars(s: Seq<char>, n: nat)
    ensures
        starts(s, first_chars(s, n)),
        s.len() <= n ==> first_chars(s, n) == s,
        s.len() > n ==> first_chars(s, n).len() == n,
{
    assert(s.subrange(0, first_chars(s, n).len() as int) =~= first_chars(s, n));
}

/// A text is what trimming leaves of it, with the whitespace around that.
pub proof fn law_trimmed_parts(s: Seq<char>) -> (parts: (Seq<char>, Seq<char>))
    ensures
        s == parts.0 + trimmed(s) + parts.1,
        blank(parts.0),
        blank(parts.1),
        tight(trimmed(s)),
{
    let t = trimmed_start(s);
    lemma_trimmed_start(s);
    lemma_trimmed_end(t);
    let a = s.take(s.len() - t.len());
    let b = t.skip(trimmed(s).len() as int);
    assert(s =~= a + trimmed(s) + b);
    if trimmed(s).len() > 0 {
        assert(trimmed(s)[0] == t[0]);
    }
    (a, b)
}

/// A text is what trimming its beginning leaves of it, behind whitespace.
pub proof fn law_trimmed_start_parts(s: Seq<char>) -> (lead: Seq<char>)
    ensures
        s == lead + trimmed_start(s),
        blank(lead),
        trimmed_start(s).len() > 0 ==> !text::is_space(trimmed_start(s)[0]),
{
    lemma_trimmed_start(s);
    let lead = s.take(s.len() - trimmed_start(s).len());
    assert(s =~= lead + trimmed_start(s));
    lead
}

/// A text is its first word and what stands behind it, which begins with whitespace.
pub proof fn law_first_word_parts(s: Seq<char>) -> (behind: Seq<char>)
    ensures
        behind == s.skip(word_len(s) as int),
        s == s.take(word_len(s) as int) + behind,
        solid(s.take(word_len(s) as int)),
        behind.len() > 0 ==> text::is_space(behind[0]),
        s.len() > 0 && !text::is_space(s[0]) ==> s.take(word_len(s) as int).len() > 0,
{
    lemma_word_len(s);
    let n = word_len(s) as int;
    let word = s.take(n);
    assert(s =~= word + s.skip(n));
    assert forall|i: int| 0 <= i < word.len() implies !#[trigger] text::is_space(word[i]) by {
        assert(word[i] == s[i]);
    }
    s.skip(n)
}

} // verus!
