//! Cutting long text into pieces that fit into one Telegram message.

use crate::scan;
use crate::text;
use vstd::prelude::*;

verus! {

/// The length limit of a plain message, in UTF-16 code units.
pub const TELEGRAM_TEXT_LIMIT: usize = 3900;

/// The length limit of a message with entities, in UTF-16 code units.
pub const TELEGRAM_RICH_TEXT_LIMIT: usize = 3800;

/// A part of a text, by its positions in UTF-8 and in UTF-16.
#[derive(Clone, Copy, Debug, PartialEq, Eq, Structural)]
pub struct TextRange {
    pub byte_start: usize,
    pub byte_end: usize,
    pub utf16_start: usize,
    pub utf16_end: usize,
}

/// Whether a range stands for the characters of `s` from `start` up to `end`.
pub open spec fn stands_for(range: TextRange, s: Seq<char>, start: int, end: int) -> bool {
    &&& range.byte_start == text::utf8_len(s.take(start))
    &&& range.byte_end == text::utf8_len(s.take(end))
    &&& range.utf16_start == text::utf16_len(s.take(start))
    &&& range.utf16_end == text::utf16_len(s.take(end))
}

/// How many characters of `s`, from the left, fit into `max` UTF-16 code units.
pub open spec fn fit(s: Seq<char>, max: int) -> nat
    decreases s.len(),
{
    if s.len() == 0 || text::utf16_units(s[0]) > max {
        0
    } else {
        1 + fit(s.skip(1), max - text::utf16_units(s[0]))
    }
}

/// Whether each character of `s` fits into `max` UTF-16 code units by itself.
pub open spec fn each_fits(s: Seq<char>, max: nat) -> bool {
    forall|i: int| 0 <= i < s.len() ==> #[trigger] text::utf16_units(s[i]) <= max
}

/// The place to break a text: the last blank line, else the last line break, else the last
/// ideographic full stop, else the last space. The first number is the position of the separator,
/// the second its length.
pub open spec fn break_place(s: Seq<char>) -> Option<(nat, nat)> {
    if let Some(i) = scan::last_at(s, seq!['\n', '\n']) {
        Some((i, 2))
    } else if let Some(i) = scan::last_at(s, seq!['\n']) {
        Some((i, 1))
    } else if let Some(i) = scan::last_at(s, seq!['。']) {
        Some((i, 1))
    } else if let Some(i) = scan::last_at(s, seq![' ']) {
        Some((i, 1))
    } else {
        None
    }
}

// ---------------------------------------------------------------------------------------------
// Rich text: nothing is lost
// ---------------------------------------------------------------------------------------------

/// The length of the first piece of a rich text that is longer than `max`: up to and with the
/// separator, where that lies behind the first third of what fits, else all that fits.
pub open spec fn rich_cut(s: Seq<char>, max: nat) -> nat {
    let head = s.take(fit(s, max as int) as int);
    match break_place(head) {
        Some((i, w)) => if text::utf8_len(head.take((i + w) as int)) > text::utf8_len(head) / 3 {
            i + w
        } else {
            head.len()
        },
        None => head.len(),
    }
}

/// The pieces of `s` from `start` on, as positions of their first character and behind their last.
pub open spec fn pieces_from(s: Seq<char>, max: nat, start: int) -> Seq<(int, int)>
    decreases s.len() - start,
{
    let rest = s.skip(start);
    if start < 0 || start >= s.len() {
        Seq::empty()
    } else if text::utf16_len(rest) <= max {
        seq![(start, s.len() as int)]
    } else if rich_cut(rest, max) == 0 {
        Seq::empty()
    } else {
        let end = start + rich_cut(rest, max);
        proof {
            lemma_cuts(rest, max);
        }
        seq![(start, end)] + pieces_from(s, max, end)
    }
}

/// The pieces of a rich text. An empty text is one empty piece.
pub open spec fn pieces(s: Seq<char>, max: nat) -> Seq<(int, int)> {
    if s.len() == 0 {
        seq![(0int, 0int)]
    } else {
        pieces_from(s, max, 0)
    }
}

/// What the pieces of a rich text, from `start` on, are: they follow one another without gap or
/// overlap up to the end, none is empty, and each fits.
pub open spec fn tiles(p: Seq<(int, int)>, s: Seq<char>, max: nat, start: int) -> bool {
    &&& p.len() > 0
    &&& p[0].0 == start
    &&& p.last().1 == s.len()
    &&& forall|i: int| 0 <= i < p.len() ==> start <= (#[trigger] p[i]).0 <= p[i].1 <= s.len()
    &&& forall|i: int| 0 <= i < p.len() - 1 ==> (#[trigger] p[i]).1 == p[i + 1].0
    &&& forall|i: int|
        0 <= i < p.len() ==> text::utf16_len(s.subrange((#[trigger] p[i]).0, p[i].1)) <= max
    &&& s.len() > 0 ==> forall|i: int| 0 <= i < p.len() ==> (#[trigger] p[i]).0 < p[i].1
}

// ---------------------------------------------------------------------------------------------
// Plain text: whitespace at the cuts goes
// ---------------------------------------------------------------------------------------------

/// The length of the first piece of a plain text that is longer than `max`: up to and with the
/// first character of the separator, where that lies behind the first third of what fits, else all
/// that fits.
pub open spec fn plain_cut(s: Seq<char>, max: nat) -> nat {
    let head = s.take(fit(s, max as int) as int);
    match break_place(head) {
        Some((i, w)) => if text::utf8_len(head.take(i as int)) > text::utf8_len(head) / 3 {
            i + 1
        } else {
            head.len()
        },
        None => head.len(),
    }
}

pub open spec fn plain_rest(s: Seq<char>, max: nat) -> Seq<char> {
    scan::trimmed_start(s.skip(plain_cut(s, max) as int))
}

pub open spec fn plain_chunks_from(s: Seq<char>, max: nat) -> Seq<Seq<char>>
    decreases s.len(),
{
    if text::utf16_len(s) <= max {
        if s.len() == 0 {
            Seq::empty()
        } else {
            seq![s]
        }
    } else if plain_rest(s, max).len() >= s.len() {
        Seq::empty()
    } else {
        seq![scan::trimmed_end(s.take(plain_cut(s, max) as int))] + plain_chunks_from(
            plain_rest(s, max),
            max,
        )
    }
}

/// The chunks of a plain text. An empty text is one empty chunk.
pub open spec fn plain_chunks(s: Seq<char>, max: nat) -> Seq<Seq<char>> {
    if s.len() == 0 {
        seq![Seq::<char>::empty()]
    } else {
        plain_chunks_from(s, max)
    }
}

/// Where cutting a plain text comes to an end: the text fits as a whole, each of its characters
/// fits, or it holds nothing but whitespace.
pub open spec fn plain_splits(s: Seq<char>, max: nat) -> bool {
    text::utf16_len(s) <= max || each_fits(s, max) || scan::blank(s)
}

/// Where cutting a rich text comes to an end: the text fits as a whole, or each of its characters
/// fits.
pub open spec fn rich_splits(s: Seq<char>, max: nat) -> bool {
    text::utf16_len(s) <= max || each_fits(s, max)
}

/// The characters of a text that are not whitespace.
pub open spec fn ink(s: Seq<char>) -> Seq<char>
    decreases s.len(),
{
    if s.len() == 0 {
        Seq::empty()
    } else if text::is_space(s.last()) {
        ink(s.drop_last())
    } else {
        ink(s.drop_last()).push(s.last())
    }
}

/// Texts one behind the other.
pub open spec fn concatenated(parts: Seq<Seq<char>>) -> Seq<char>
    decreases parts.len(),
{
    if parts.len() == 0 {
        Seq::empty()
    } else {
        parts[0] + concatenated(parts.skip(1))
    }
}

// ---------------------------------------------------------------------------------------------
// Proofs
// ---------------------------------------------------------------------------------------------

pub proof fn lemma_utf16_first(s: Seq<char>)
    requires
        s.len() > 0,
    ensures
        text::utf16_len(s) == text::utf16_units(s[0]) + text::utf16_len(s.skip(1)),
        text::utf8_len(s) == text::utf8_units(s[0]) + text::utf8_len(s.skip(1)),
{
    let one = seq![s[0]];
    assert(one =~= Seq::<char>::empty().push(s[0]));
    text::lemma_utf16_push(Seq::<char>::empty(), s[0]);
    assert(one + s.skip(1) =~= s);
    text::lemma_utf16_concat(one, s.skip(1));
    text::lemma_utf8_concat(one, s.skip(1));
}

pub proof fn lemma_fit(s: Seq<char>, max: int)
    requires
        max >= 0,
    ensures
        fit(s, max) <= s.len(),
        text::utf16_len(s.take(fit(s, max) as int)) <= max,
        fit(s, max) < s.len() ==> text::utf16_len(s.take((fit(s, max) + 1) as int)) > max,
        fit(s, max) < s.len() <==> text::utf16_len(s) > max,
    decreases s.len(),
{
    if s.len() == 0 {
        assert(s.take(0) =~= s);
    } else if text::utf16_units(s[0]) > max {
        assert(s.take(0) =~= Seq::<char>::empty());
        lemma_utf16_first(s.take(1));
        lemma_utf16_first(s);
    } else {
        let k = fit(s.skip(1), max - text::utf16_units(s[0])) as int;
        lemma_fit(s.skip(1), max - text::utf16_units(s[0]));
        lemma_utf16_first(s);
        lemma_utf16_first(s.take(k + 1));
        assert(s.take(k + 1).skip(1) =~= s.skip(1).take(k));
        if k + 1 < s.len() {
            lemma_utf16_first(s.take(k + 2));
            assert(s.take(k + 2).skip(1) =~= s.skip(1).take(k + 1));
        }
    }
}

proof fn lemma_break_place(s: Seq<char>)
    ensures
        break_place(s) matches Some((i, w)) ==> i + w <= s.len() && w >= 1,
{
    scan::lemma_last_at(s, seq!['\n', '\n']);
    scan::lemma_last_at(s, seq!['\n']);
    scan::lemma_last_at(s, seq!['。']);
    scan::lemma_last_at(s, seq![' ']);
}

pub proof fn lemma_cuts(s: Seq<char>, max: nat)
    ensures
        rich_cut(s, max) <= fit(s, max as int) <= s.len(),
        plain_cut(s, max) <= fit(s, max as int),
        fit(s, max as int) > 0 ==> rich_cut(s, max) > 0 && plain_cut(s, max) > 0,
{
    lemma_fit(s, max as int);
    lemma_break_place(s.take(fit(s, max as int) as int));
}

proof fn lemma_pieces_from(s: Seq<char>, max: nat, start: int)
    requires
        0 <= start < s.len(),
        rich_splits(s, max),
    ensures
        tiles(pieces_from(s, max, start), s, max, start),
    decreases s.len() - start,
{
    let rest = s.skip(start);
    let p = pieces_from(s, max, start);
    if text::utf16_len(rest) <= max {
        assert(s.subrange(start, s.len() as int) =~= rest);
    } else {
        assert(each_fits(s, max)) by {
            if text::utf16_len(s) <= max {
                text::lemma_utf16_mono(s, start, s.len() as int);
                assert(s.take(s.len() as int) =~= s);
                assert(s.subrange(start, s.len() as int) =~= rest);
            }
        }
        assert(text::utf16_units(rest[0]) <= max) by {
            assert(rest[0] == s[start]);
        }
        lemma_cuts(rest, max);
        lemma_fit(rest, max as int);
        let end = start + rich_cut(rest, max);
        lemma_pieces_from(s, max, end);
        let q = pieces_from(s, max, end);
        assert(p =~= seq![(start, end)] + q);
        assert(s.subrange(start, end) =~= rest.take(end - start));
        text::lemma_utf16_mono(rest, end - start, fit(rest, max as int) as int);
        assert forall|i: int| 0 <= i < p.len() implies start <= (#[trigger] p[i]).0 <= p[i].1
            <= s.len() && p[i].0 < p[i].1 && text::utf16_len(s.subrange(p[i].0, p[i].1)) <= max by {
            if i > 0 {
                assert(p[i] == q[i - 1]);
            }
        }
        assert forall|i: int| 0 <= i < p.len() - 1 implies (#[trigger] p[i]).1 == p[i + 1].0 by {
            assert(p[i + 1] == q[i]);
            if i > 0 {
                assert(p[i] == q[i - 1]);
            }
        }
        assert(p.last() == q.last());
    }
}

/// The pieces of a rich text follow one another without gap or overlap from its beginning to its
/// end, begin and end between characters, and each fits into the limit; none is empty unless the
/// text is.
pub proof fn law_pieces_tile(s: Seq<char>, max: nat)
    requires
        rich_splits(s, max),
    ensures
        tiles(pieces(s, max), s, max, 0),
{
    if s.len() == 0 {
        assert(s.subrange(0, 0) =~= Seq::<char>::empty());
    } else {
        lemma_pieces_from(s, max, 0);
    }
}

pub proof fn lemma_ink_concat(a: Seq<char>, b: Seq<char>)
    ensures
        ink(a + b) == ink(a) + ink(b),
    decreases b.len(),
{
    if b.len() == 0 {
        assert(a + b =~= a);
        assert(ink(a) + ink(b) =~= ink(a));
    } else {
        assert((a + b).drop_last() =~= a + b.drop_last());
        lemma_ink_concat(a, b.drop_last());
        if !text::is_space(b.last()) {
            assert(ink(a) + ink(b) =~= (ink(a) + ink(b.drop_last())).push(b.last()));
        }
    }
}

pub proof fn lemma_ink_blank(s: Seq<char>)
    requires
        scan::blank(s),
    ensures
        ink(s) == Seq::<char>::empty(),
    decreases s.len(),
{
    if s.len() > 0 {
        assert(scan::blank(s.drop_last())) by {
            assert forall|i: int| 0 <= i < s.len() - 1 implies #[trigger] text::is_space(
                s.drop_last()[i],
            ) by {
                assert(text::is_space(s[i]));
            }
        }
        assert(text::is_space(s[s.len() - 1]));
        lemma_ink_blank(s.drop_last());
    }
}

proof fn lemma_ink_trimmed(s: Seq<char>)
    ensures
        ink(scan::trimmed_start(s)) == ink(s),
        ink(scan::trimmed_end(s)) == ink(s),
{
    scan::lemma_trimmed_start(s);
    let k = s.len() - scan::trimmed_start(s).len();
    assert(s =~= s.take(k) + s.skip(k));
    lemma_ink_concat(s.take(k), s.skip(k));
    lemma_ink_blank(s.take(k));
    assert(Seq::<char>::empty() + ink(s.skip(k)) =~= ink(s.skip(k)));
    scan::lemma_trimmed_end(s);
    let e = scan::trimmed_end(s).len() as int;
    assert(s =~= s.take(e) + s.skip(e));
    lemma_ink_concat(s.take(e), s.skip(e));
    lemma_ink_blank(s.skip(e));
    assert(ink(s.take(e)) + Seq::<char>::empty() =~= ink(s.take(e)));
}

proof fn lemma_plain_progress(s: Seq<char>, max: nat)
    requires
        plain_splits(s, max),
        text::utf16_len(s) > max,
    ensures
        plain_cut(s, max) <= s.len(),
        plain_rest(s, max).len() < s.len(),
        plain_splits(plain_rest(s, max), max),
        text::utf16_len(s.take(plain_cut(s, max) as int)) <= max,
{
    lemma_cuts(s, max);
    lemma_fit(s, max as int);
    text::lemma_utf16_mono(s, plain_cut(s, max) as int, fit(s, max as int) as int);
    let k = plain_cut(s, max) as int;
    let after = s.skip(k);
    let rest = plain_rest(s, max);
    scan::lemma_trimmed_start(after);
    let d = after.len() - rest.len();
    assert(s.len() > 0) by {
        if s.len() == 0 {
            assert(text::utf16_len(s) == 0);
        }
    }
    if each_fits(s, max) {
        assert(text::utf16_units(s[0]) <= max);
        assert(each_fits(rest, max)) by {
            assert forall|i: int| 0 <= i < rest.len() implies #[trigger] text::utf16_units(rest[i])
                <= max by {
                assert(rest[i] == s[k + d + i]);
            }
        }
    } else {
        assert(scan::blank(after)) by {
            assert forall|i: int| 0 <= i < after.len() implies #[trigger] text::is_space(
                after[i],
            ) by {
                assert(text::is_space(s[k + i]));
            }
        }
        scan::lemma_trimmed_blank(after);
        assert(rest.len() == 0);
    }
}

/// Each chunk of a plain text fits into the limit, and the chunks hold, in order, every character of
/// the text that is not whitespace.
pub proof fn law_plain_chunks(s: Seq<char>, max: nat)
    requires
        plain_splits(s, max),
    ensures
        forall|i: int|
            0 <= i < plain_chunks(s, max).len() ==> text::utf16_len(
                #[trigger] plain_chunks(s, max)[i],
            ) <= max,
        ink(concatenated(plain_chunks(s, max))) == ink(s),
{
    if s.len() == 0 {
        let c = plain_chunks(s, max);
        assert(c.skip(1) =~= Seq::empty());
        assert(concatenated(c.skip(1)) =~= Seq::<char>::empty());
        assert(concatenated(c) =~= Seq::<char>::empty());
        assert(s =~= Seq::<char>::empty());
    } else {
        lemma_plain_chunks_from(s, max);
    }
}

proof fn lemma_plain_chunks_from(s: Seq<char>, max: nat)
    requires
        plain_splits(s, max),
    ensures
        forall|i: int|
            0 <= i < plain_chunks_from(s, max).len() ==> text::utf16_len(
                #[trigger] plain_chunks_from(s, max)[i],
            ) <= max,
        ink(concatenated(plain_chunks_from(s, max))) == ink(s),
    decreases s.len(),
{
    let c = plain_chunks_from(s, max);
    if text::utf16_len(s) <= max {
        if s.len() > 0 {
            assert(c.skip(1) =~= Seq::empty());
            assert(concatenated(c.skip(1)) =~= Seq::<char>::empty());
            assert(concatenated(c) =~= s);
        } else {
            assert(concatenated(c) =~= s);
        }
    } else {
        lemma_plain_progress(s, max);
        let k = plain_cut(s, max) as int;
        let rest = plain_rest(s, max);
        lemma_plain_chunks_from(rest, max);
        let first = scan::trimmed_end(s.take(k));
        let d = plain_chunks_from(rest, max);
        assert(c =~= seq![first] + d);
        assert(c.skip(1) =~= d);
        assert(concatenated(c) == first + concatenated(d));
        lemma_ink_concat(first, concatenated(d));
        lemma_ink_trimmed(s.take(k));
        lemma_ink_trimmed(s.skip(k));
        lemma_ink_concat(s.take(k), s.skip(k));
        assert(s.take(k) + s.skip(k) =~= s);
        scan::lemma_trimmed_end(s.take(k));
        text::lemma_utf16_mono(s.take(k), first.len() as int, k);
        assert(s.take(k).take(k) =~= s.take(k));
        assert forall|i: int| 0 <= i < c.len() implies text::utf16_len(#[trigger] c[i]) <= max by {
            if i > 0 {
                assert(c[i] == d[i - 1]);
            }
        }
    }
}

/// A text without whitespace is what its chunks make when they are put together.
pub proof fn law_chunks_of_solid_text(s: Seq<char>, max: nat)
    requires
        rich_splits(s, max),
        forall|i: int| 0 <= i < s.len() ==> !#[trigger] text::is_space(s[i]),
    ensures
        concatenated(plain_chunks(s, max)) == s,
{
    if s.len() == 0 {
        let c = plain_chunks(s, max);
        assert(c.skip(1) =~= Seq::empty());
        assert(concatenated(c.skip(1)) =~= Seq::<char>::empty());
        assert(concatenated(c) =~= s);
    } else {
        lemma_solid(s, max);
    }
}

proof fn lemma_solid(s: Seq<char>, max: nat)
    requires
        rich_splits(s, max),
        forall|i: int| 0 <= i < s.len() ==> !#[trigger] text::is_space(s[i]),
    ensures
        concatenated(plain_chunks_from(s, max)) == s,
    decreases s.len(),
{
    let c = plain_chunks_from(s, max);
    if text::utf16_len(s) <= max {
        if s.len() > 0 {
            assert(c.skip(1) =~= Seq::empty());
            assert(concatenated(c.skip(1)) =~= Seq::<char>::empty());
        }
        assert(concatenated(c) =~= s);
    } else {
        lemma_plain_progress(s, max);
        let k = plain_cut(s, max) as int;
        let after = s.skip(k);
        assert(forall|i: int| 0 <= i < after.len() ==> !text::is_space(#[trigger] after[i]) && after[i]
            == s[k + i]);
        assert(scan::trimmed_start(after) == after);
        assert(scan::trimmed_end(s.take(k)) == s.take(k));
        lemma_solid(after, max);
        let d = plain_chunks_from(after, max);
        assert(c =~= seq![s.take(k)] + d);
        assert(c.skip(1) =~= d);
        assert(s.take(k) + after =~= s);
    }
}

// ---------------------------------------------------------------------------------------------
// Computing the cuts
// ---------------------------------------------------------------------------------------------

/// How many characters from `start` on fit into `max` UTF-16 code units.
fn fit_count(v: &Vec<char>, start: usize, max: usize) -> (k: usize)
    requires
        start <= v@.len(),
    ensures
        k == fit(v@.skip(start as int), max as int),
        start + k <= v@.len(),
{
    let ghost rest = v@.skip(start as int);
    let n: usize = v.len();
    let mut k: usize = 0;
    let mut used: usize = 0;
    proof {
        assert(rest.skip(0) =~= rest);
    }
    while start + k < n
        invariant
            n == v@.len(),
            start + k <= n,
            used <= max,
            rest == v@.skip(start as int),
            fit(rest, max as int) == k + fit(rest.skip(k as int), max - used),
        ensures
            start + k <= n,
            fit(rest, max as int) == k,
        decreases n - start - k,
    {
        let ghost tail = rest.skip(k as int);
        let width: usize = text::char_utf16(v[start + k]);
        proof {
            assert(tail[0] == v@[start + k]);
            assert(tail.skip(1) =~= rest.skip(k + 1));
        }
        if width > max - used {
            break;
        }
        used = used + width;
        k = k + 1;
    }
    k
}

fn one_char(c: char) -> (v: Vec<char>)
    ensures
        v@ == seq![c],
{
    let mut v: Vec<char> = Vec::new();
    v.push(c);
    proof {
        assert(v@ =~= seq![c]);
    }
    v
}

/// The place to break the characters from `start` up to `end`, counted from `start`, and the length
/// of the separator there.
fn find_break(v: &Vec<char>, start: usize, end: usize) -> (r: Option<(usize, usize)>)
    requires
        start <= end <= v@.len(),
    ensures
        match (r, break_place(v@.subrange(start as int, end as int))) {
            (Some((i, w)), Some((j, x))) => i == j && w == x && start + i + w <= end && w >= 1,
            (None, None) => true,
            _ => false,
        },
{
    proof {
        lemma_break_place(v@.subrange(start as int, end as int));
    }
    let mut blank_line: Vec<char> = one_char('\n');
    blank_line.push('\n');
    proof {
        assert(blank_line@ =~= seq!['\n', '\n']);
    }
    if let Some(i) = scan::find_last(v, start, end, &blank_line) {
        return Some((i, 2));
    }
    if let Some(i) = scan::find_last(v, start, end, &one_char('\n')) {
        return Some((i, 1));
    }
    if let Some(i) = scan::find_last(v, start, end, &one_char('。')) {
        return Some((i, 1));
    }
    if let Some(i) = scan::find_last(v, start, end, &one_char(' ')) {
        return Some((i, 1));
    }
    None
}

/// The lengths of the characters from `start` up to `end`, in UTF-8 and in UTF-16.
fn lengths(v: &Vec<char>, start: usize, end: usize) -> (r: (usize, usize))
    requires
        start <= end <= v@.len(),
        text::utf8_len(v@) <= usize::MAX,
    ensures
        r.0 == text::utf8_len(v@.subrange(start as int, end as int)),
        r.1 == text::utf16_len(v@.subrange(start as int, end as int)),
{
    let mut bytes: usize = 0;
    let mut units: usize = 0;
    let mut i: usize = start;
    proof {
        assert(v@.subrange(start as int, start as int) =~= Seq::<char>::empty());
    }
    while i < end
        invariant
            start <= i <= end <= v@.len(),
            text::utf8_len(v@) <= usize::MAX,
            bytes == text::utf8_len(v@.subrange(start as int, i as int)),
            units == text::utf16_len(v@.subrange(start as int, i as int)),
        decreases end - i,
    {
        let c: char = v[i];
        proof {
            let sofar = v@.subrange(start as int, i as int);
            let next = v@.subrange(start as int, i + 1);
            assert(next =~= sofar.push(c));
            text::lemma_utf16_push(sofar, c);
            text::lemma_length_order(next);
            text::lemma_utf16_mono(v@, start as int, i + 1);
            text::lemma_utf16_mono(v@, i + 1, v@.len() as int);
            assert(v@.take(v@.len() as int) =~= v@);
        }
        bytes = bytes + text::char_utf8(c);
        units = units + text::char_utf16(c);
        i = i + 1;
    }
    (bytes, units)
}

/// The end of the piece of a rich text that begins at `start`.
fn rich_end(v: &Vec<char>, start: usize, max_utf16: usize) -> (end: usize)
    requires
        start < v@.len(),
        text::utf8_len(v@) <= usize::MAX,
        rich_splits(v@, max_utf16 as nat),
    ensures
        start < end <= v@.len(),
        pieces_from(v@, max_utf16 as nat, start as int) == seq![(start as int, end as int)]
            + pieces_from(v@, max_utf16 as nat, end as int),
{
    let n: usize = v.len();
    let ghost max = max_utf16 as nat;
    let ghost rest = v@.skip(start as int);
    proof {
        lemma_pieces_from(v@, max, start as int);
        lemma_cuts(rest, max);
        lemma_fit(rest, max as int);
    }
    let k: usize = fit_count(v, start, max_utf16);
    if start + k == n {
        proof {
            assert(pieces_from(v@, max, n as int) =~= Seq::<(int, int)>::empty());
            assert(pieces_from(v@, max, start as int) =~= seq![(start as int, n as int)]);
            assert(seq![(start as int, n as int)] =~= seq![(start as int, n as int)]
                + pieces_from(v@, max, n as int));
        }
        return n;
    }
    proof {
        assert(v@.subrange(start as int, start + k) =~= rest.take(k as int));
    }
    let hard: usize = start + k;
    let mut end: usize = hard;
    if let Some((i, w)) = find_break(v, start, hard) {
        let (sep_bytes, _u) = lengths(v, start, start + i + w);
        let (hard_bytes, _h) = lengths(v, start, hard);
        proof {
            let head = rest.take(k as int);
            assert(head.take(i + w) =~= v@.subrange(start as int, start + i + w));
        }
        if sep_bytes > hard_bytes / 3 {
            end = start + i + w;
        }
    }
    proof {
        assert(end == start + rich_cut(rest, max));
    }
    end
}

/// Cuts a rich text into ranges of at most `max_utf16` UTF-16 code units, at blank lines, line
/// breaks, full stops or spaces where one lies far enough on. Text of which a single character is
/// longer than the limit cannot be cut.
pub fn split_telegram_ranges(text: &str, max_utf16: usize) -> (r: Vec<TextRange>)
    requires
        rich_splits(text@, max_utf16 as nat),
    ensures
        r@.len() == pieces(text@, max_utf16 as nat).len(),
        forall|i: int|
            0 <= i < r@.len() ==> stands_for(
                #[trigger] r@[i],
                text@,
                pieces(text@, max_utf16 as nat)[i].0,
                pieces(text@, max_utf16 as nat)[i].1,
            ),
        tiles(pieces(text@, max_utf16 as nat), text@, max_utf16 as nat, 0),
{
    proof {
        law_pieces_tile(text@, max_utf16 as nat);
    }
    let ghost max = max_utf16 as nat;
    let ghost p = pieces(text@, max);
    let v = text::chars(text);
    let total: usize = text::byte_len(text);
    let n: usize = v.len();
    let mut ranges: Vec<TextRange> = Vec::new();
    if n == 0 {
        ranges.push(TextRange { byte_start: 0, byte_end: 0, utf16_start: 0, utf16_end: 0 });
        proof {
            assert(text@.take(0) =~= Seq::<char>::empty());
            assert(ranges@.len() == 1);
            assert(p =~= seq![(0int, 0int)]);
        }
        return ranges;
    }
    let mut start: usize = 0;
    let mut byte_start: usize = 0;
    let mut utf16_start: usize = 0;
    proof {
        assert(text@.take(0) =~= Seq::<char>::empty());
        assert(p =~= Seq::<(int, int)>::empty() + pieces_from(text@, max, 0));
    }
    let ghost mut done = Seq::<(int, int)>::empty();
    while start < n
        invariant
            v@ == text@,
            n == v@.len(),
            start <= n,
            max == max_utf16,
            p == pieces(text@, max),
            rich_splits(text@, max),
            total == text::utf8_len(text@),
            byte_start == text::utf8_len(text@.take(start as int)),
            utf16_start == text::utf16_len(text@.take(start as int)),
            p == done + pieces_from(text@, max, start as int),
            ranges@.len() == done.len(),
            forall|i: int|
                0 <= i < ranges@.len() ==> stands_for(
                    #[trigger] ranges@[i],
                    text@,
                    done[i].0,
                    done[i].1,
                ),
        decreases n - start,
    {
        let end: usize = rich_end(&v, start, max_utf16);
        let (bytes, units) = lengths(&v, start, end);
        proof {
            text::lemma_utf16_mono(text@, start as int, end as int);
            text::lemma_utf16_mono(text@, end as int, n as int);
            text::lemma_length_order(text@);
            assert(text@.take(n as int) =~= text@);
        }
        let range = TextRange {
            byte_start,
            byte_end: byte_start + bytes,
            utf16_start,
            utf16_end: utf16_start + units,
        };
        proof {
            let after = pieces_from(text@, max, end as int);
            assert(done + (seq![(start as int, end as int)] + after) =~= done.push(
                (start as int, end as int),
            ) + after);
            done = done.push((start as int, end as int));
        }
        ranges.push(range);
        byte_start = byte_start + bytes;
        utf16_start = utf16_start + units;
        start = end;
    }
    proof {
        assert(pieces_from(text@, max, start as int) =~= Seq::<(int, int)>::empty());
        assert(p =~= done);
    }
    ranges
}

/// Cuts a plain text into chunks of at most `max_utf16` UTF-16 code units, at blank lines, line
/// breaks, full stops or spaces where one lies far enough on; whitespace at a cut is dropped. Text of
/// which a single character is longer than the limit cannot be cut.
pub fn split_telegram_text(text: &str, max_utf16: usize) -> (r: Vec<String>)
    requires
        plain_splits(text@, max_utf16 as nat),
    ensures
        text::texts(r@) == plain_chunks(text@, max_utf16 as nat),
{
    let ghost max = max_utf16 as nat;
    let v = text::chars(text);
    let n: usize = v.len();
    let _bound: usize = text::byte_len(text);
    let mut chunks: Vec<String> = Vec::new();
    if n == 0 {
        chunks.push(String::new());
        proof {
            assert(text::texts(chunks@) =~= seq![Seq::<char>::empty()]);
        }
        return chunks;
    }
    let mut start: usize = 0;
    let ghost goal = plain_chunks_from(text@, max);
    proof {
        assert(text@.skip(0) =~= text@);
        assert(text::texts(chunks@) + goal =~= goal);
    }
    loop
        invariant
            v@ == text@,
            n == v@.len(),
            start <= n,
            max == max_utf16,
            text::utf8_len(text@) <= usize::MAX,
            goal == text::texts(chunks@) + plain_chunks_from(text@.skip(start as int), max),
            plain_splits(text@.skip(start as int), max),
        ensures
            start <= n,
            text::utf16_len(text@.skip(start as int)) <= max,
        decreases n - start,
    {
        let ghost rest = text@.skip(start as int);
        let k: usize = fit_count(&v, start, max_utf16);
        proof {
            lemma_fit(rest, max as int);
        }
        if start + k == n {
            break;
        }
        proof {
            lemma_cuts(rest, max);
            lemma_plain_progress(rest, max);
            assert(v@.subrange(start as int, start + k) =~= rest.take(k as int));
        }
        let mut end: usize = start + k;
        if let Some((i, w)) = find_break(&v, start, end) {
            let (sep_bytes, _u) = lengths(&v, start, start + i);
            let (hard_bytes, _h) = lengths(&v, start, end);
            proof {
                let head = rest.take(k as int);
                assert(head.take(i as int) =~= v@.subrange(start as int, start + i));
            }
            if sep_bytes > hard_bytes / 3 {
                end = start + i + 1;
            }
        }
        let ghost cut = plain_cut(rest, max);
        proof {
            assert(end == start + cut);
            assert(v@.subrange(start as int, end as int) =~= rest.take(cut as int));
            assert(rest.skip(cut as int) =~= text@.skip(end as int));
        }
        let stop: usize = scan::space_suffix(&v, start, end);
        let chunk = text::slice(&v, start, stop);
        proof {
            text::lemma_texts_push(chunks@, chunk);
        }
        let ghost old_texts = text::texts(chunks@);
        chunks.push(chunk);
        let next: usize = skip_space(&v, end);
        proof {
            assert(text@.skip(next as int) == plain_rest(rest, max));
            assert(old_texts + plain_chunks_from(rest, max) =~= old_texts.push(chunk@)
                + plain_chunks_from(text@.skip(next as int), max));
        }
        start = next;
    }
    if start < n {
        let last = text::slice(&v, start, n);
        proof {
            text::lemma_texts_push(chunks@, last);
            assert(last@ =~= text@.skip(start as int));
            assert(text::texts(chunks@) + seq![last@] =~= text::texts(chunks@).push(last@));
        }
        chunks.push(last);
    } else {
        proof {
            assert(text::texts(chunks@) + Seq::<Seq<char>>::empty() =~= text::texts(chunks@));
        }
    }
    chunks
}

/// The position of the first character from `start` on that is not whitespace.
fn skip_space(v: &Vec<char>, start: usize) -> (k: usize)
    requires
        start <= v@.len(),
    ensures
        start <= k <= v@.len(),
        v@.skip(k as int) == scan::trimmed_start(v@.skip(start as int)),
{
    let n: usize = v.len();
    let mut k: usize = start;
    while k < n && text::space(v[k])
        invariant
            n == v@.len(),
            start <= k <= n,
            scan::trimmed_start(v@.skip(k as int)) == scan::trimmed_start(v@.skip(start as int)),
        decreases n - k,
    {
        proof {
            assert(v@.skip(k as int)[0] == v@[k as int]);
            assert(v@.skip(k as int).skip(1) =~= v@.skip(k + 1));
        }
        k = k + 1;
    }
    proof {
        if k < n {
            assert(v@.skip(k as int)[0] == v@[k as int]);
        }
    }
    k
}

// ---------------------------------------------------------------------------------------------
// Laws of where a text is cut
// ---------------------------------------------------------------------------------------------

/// A text that fits into one message stays whole, and an empty one is one empty message.
pub proof fn law_short_text(s: Seq<char>, max: nat)
    requires
        text::utf16_len(s) <= max,
    ensures
        pieces(s, max) == seq![(0int, s.len() as int)],
        plain_chunks(s, max) == seq![s],
        TELEGRAM_TEXT_LIMIT == 3900,
        TELEGRAM_RICH_TEXT_LIMIT == 3800,
{
    assert(s.skip(0) =~= s);
    if s.len() == 0 {
        assert(s =~= Seq::<char>::empty());
    }
}

/// Of a text that is too long the first message gets the text up to the cut, and the rest is cut in the
/// same way. A plain message loses the whitespace where it was cut.
pub proof fn law_long_text(s: Seq<char>, max: nat)
    requires
        text::utf16_len(s) > max,
        each_fits(s, max),
    ensures
        pieces(s, max) == seq![(0int, rich_cut(s, max) as int)] + pieces_from(
            s,
            max,
            rich_cut(s, max) as int,
        ),
        0 < rich_cut(s, max) <= fit(s, max as int) < s.len(),
        plain_chunks(s, max)[0] == scan::trimmed_end(s.take(plain_cut(s, max) as int)),
        plain_chunks(s, max).skip(1) == plain_chunks_from(
            scan::trimmed_start(s.skip(plain_cut(s, max) as int)),
            max,
        ),
        text::utf16_len(s.take(fit(s, max as int) as int)) <= max,
        text::utf16_len(s.take((fit(s, max as int) + 1) as int)) > max,
{
    assert(s.skip(0) =~= s);
    lemma_fit(s, max as int);
    lemma_cuts(s, max);
    assert(s.len() > 0) by {
        if s.len() == 0 {
            assert(text::utf16_len(s) == 0);
        }
    }
    assert(text::utf16_units(s[0]) <= max);
    assert(fit(s, max as int) > 0);
    let head = s.take(fit(s, max as int) as int);
    lemma_break_place(head);
    lemma_plain_progress(s, max);
    let first = seq![scan::trimmed_end(s.take(plain_cut(s, max) as int))];
    let rest = plain_chunks_from(plain_rest(s, max), max);
    assert(plain_chunks(s, max) == first + rest);
    assert((first + rest).skip(1) =~= rest);
}

/// A text is cut at the last break in what fits: behind a paragraph, else behind a line, else behind a
/// sentence, else behind a word; but never so early that a third of it or less would go out.
pub proof fn law_cut_at_break(
    s: Seq<char>,
    max: nat,
    a: Seq<char>,
    stop: Seq<char>,
    b: Seq<char>,
)
    requires
        s.take(fit(s, max as int) as int) == a + stop + b,
        stop == seq!['\n', '\n'] || stop == seq!['\n'] || stop == seq!['。'] || stop == seq![' '],
        stop != seq!['\n', '\n'] ==> !scan::has(a + stop + b, seq!['\n', '\n']),
        stop == seq!['。'] || stop == seq![' '] ==> !scan::has(a + stop + b, seq!['\n']),
        stop == seq![' '] ==> !scan::has(a + stop + b, seq!['。']),
        forall|j: int| a.len() < j ==> !#[trigger] scan::occurs(a + stop + b, stop, j),
    ensures
        text::utf8_len(a + stop) > text::utf8_len(a + stop + b) / 3 ==> rich_cut(s, max) == a.len()
            + stop.len(),
        text::utf8_len(a + stop) <= text::utf8_len(a + stop + b) / 3 ==> rich_cut(s, max) == fit(
            s,
            max as int,
        ),
        text::utf8_len(a) > text::utf8_len(a + stop + b) / 3 ==> plain_cut(s, max) == a.len() + 1,
        text::utf8_len(a) <= text::utf8_len(a + stop + b) / 3 ==> plain_cut(s, max) == fit(
            s,
            max as int,
        ),
{
    let head = a + stop + b;
    lemma_last_stop(a, stop, b);
    assert(break_place(head) == Some((a.len(), stop.len()))) by {
        lemma_stops_apart();
        lemma_no_stop(head, seq!['\n', '\n']);
        lemma_no_stop(head, seq!['\n']);
        lemma_no_stop(head, seq!['。']);
    }
    lemma_fit(s, max as int);
    assert(head.take((a.len() + stop.len()) as int) =~= a + stop);
    assert(head.take(a.len() as int) =~= a);
}

proof fn lemma_stops_apart()
    ensures
        seq!['\n'] != seq!['\n', '\n'],
        seq!['。'] != seq!['\n', '\n'],
        seq![' '] != seq!['\n', '\n'],
        seq!['。'] != seq!['\n'],
        seq![' '] != seq!['\n'],
        seq![' '] != seq!['。'],
{
    assert(seq!['\n'].len() != seq!['\n', '\n'].len());
    assert(seq!['。'].len() != seq!['\n', '\n'].len());
    assert(seq![' '].len() != seq!['\n', '\n'].len());
    assert(seq!['。'][0] != seq!['\n'][0]);
    assert(seq![' '][0] != seq!['\n'][0]);
    assert(seq![' '][0] != seq!['。'][0]);
}

proof fn lemma_no_stop(s: Seq<char>, p: Seq<char>)
    ensures
        !scan::has(s, p) ==> scan::last_at(s, p) is None,
{
    scan::lemma_last_at(s, p);
}

proof fn lemma_last_stop(a: Seq<char>, p: Seq<char>, b: Seq<char>)
    requires
        forall|j: int| a.len() < j ==> !#[trigger] scan::occurs(a + p + b, p, j),
    ensures
        scan::last_at(a + p + b, p) == Some(a.len()),
{
    let s = a + p + b;
    assert(s.subrange(a.len() as int, (a.len() + p.len()) as int) =~= p);
    assert(scan::occurs(s, p, a.len() as int));
    scan::lemma_last_at(s, p);
}

/// A text without a break is cut where it no longer fits.
pub proof fn law_cut_without_break(s: Seq<char>, max: nat)
    requires
        !scan::has(s.take(fit(s, max as int) as int), seq!['\n']),
        !scan::has(s.take(fit(s, max as int) as int), seq!['\n', '\n']),
        !scan::has(s.take(fit(s, max as int) as int), seq!['。']),
        !scan::has(s.take(fit(s, max as int) as int), seq![' ']),
    ensures
        rich_cut(s, max) == fit(s, max as int),
        plain_cut(s, max) == fit(s, max as int),
{
    let head = s.take(fit(s, max as int) as int);
    lemma_fit(s, max as int);
    scan::lemma_last_at(head, seq!['\n', '\n']);
    scan::lemma_last_at(head, seq!['\n']);
    scan::lemma_last_at(head, seq!['。']);
    scan::lemma_last_at(head, seq![' ']);
}

} // verus!
