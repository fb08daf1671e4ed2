//! Text with formatting entities, measured in UTF-16 code units as Telegram measures them.

use crate::scan;
use crate::text;
use vstd::prelude::*;

verus! {

/// What a stretch of rich text is. The parameter is the type of the texts in it: `String`, or a
/// sequence of characters where the value stands in a contract.
#[derive(Debug, PartialEq, Eq)]
pub enum RichEntityKind<S> {
    Bold,
    Italic,
    Strike,
    Code,
    /// A code block and its language.
    Pre(S),
    /// A link and where it leads.
    TextUrl(S),
    Blockquote { collapsed: bool },
}

#[derive(Debug, PartialEq, Eq)]
pub struct RichEntity {
    pub offset: usize,
    pub length: usize,
    pub kind: RichEntityKind<String>,
}

#[derive(Debug, PartialEq, Eq)]
pub struct RichText {
    pub text: String,
    pub entities: Vec<RichEntity>,
}

/// An entity of a rich text.
#[verifier::ext_equal]
pub struct Mark {
    pub offset: nat,
    pub length: nat,
    pub kind: RichEntityKind<Seq<char>>,
}

/// A rich text.
#[verifier::ext_equal]
pub struct RichModel {
    pub text: Seq<char>,
    pub marks: Seq<Mark>,
}

impl View for RichEntityKind<String> {
    type V = RichEntityKind<Seq<char>>;

    open spec fn view(&self) -> RichEntityKind<Seq<char>> {
        match *self {
            RichEntityKind::Bold => RichEntityKind::Bold,
            RichEntityKind::Italic => RichEntityKind::Italic,
            RichEntityKind::Strike => RichEntityKind::Strike,
            RichEntityKind::Code => RichEntityKind::Code,
            RichEntityKind::Pre(language) => RichEntityKind::Pre(language@),
            RichEntityKind::TextUrl(url) => RichEntityKind::TextUrl(url@),
            RichEntityKind::Blockquote { collapsed } => RichEntityKind::Blockquote { collapsed },
        }
    }
}

impl Clone for RichEntityKind<String> {
    fn clone(&self) -> (r: Self)
        ensures
            r@ == self@,
    {
        match self {
            RichEntityKind::Bold => RichEntityKind::Bold,
            RichEntityKind::Italic => RichEntityKind::Italic,
            RichEntityKind::Strike => RichEntityKind::Strike,
            RichEntityKind::Code => RichEntityKind::Code,
            RichEntityKind::Pre(language) => RichEntityKind::Pre(language.clone()),
            RichEntityKind::TextUrl(url) => RichEntityKind::TextUrl(url.clone()),
            RichEntityKind::Blockquote { collapsed } => RichEntityKind::Blockquote {
                collapsed: *collapsed,
            },
        }
    }
}

impl View for RichEntity {
    type V = Mark;

    open spec fn view(&self) -> Mark {
        Mark { offset: self.offset as nat, length: self.length as nat, kind: self.kind@ }
    }
}

pub open spec fn marks_of(v: Seq<RichEntity>) -> Seq<Mark> {
    Seq::new(v.len(), |i: int| v[i]@)
}

impl View for RichText {
    type V = RichModel;

    open spec fn view(&self) -> RichModel {
        RichModel { text: self.text@, marks: marks_of(self.entities@) }
    }
}

/// Where links may lead: to the web, or to Telegram itself.
pub open spec fn safe_link(url: Seq<char>) -> bool {
    scan::starts(url, "https://"@) || scan::starts(url, "http://"@) || scan::starts(url, "tg://"@)
}

/// Whether a position in UTF-16 code units lies between two characters of a text.
pub open spec fn boundary(s: Seq<char>, p: nat) -> bool {
    exists|k: int| 0 <= k <= s.len() && p == #[trigger] text::utf16_len(s.take(k))
}

/// How many line breaks stand at the end of a text.
pub open spec fn newline_count(s: Seq<char>) -> nat
    decreases s.len(),
{
    if s.len() > 0 && s.last() == '\n' {
        1 + newline_count(s.drop_last())
    } else {
        0
    }
}

/// A mark cut off at `limit`.
pub open spec fn cut_off(m: Mark, limit: nat) -> Mark {
    let room: nat = if m.offset <= limit {
        (limit - m.offset) as nat
    } else {
        0
    };
    Mark {
        length: if m.length <= room {
            m.length
        } else {
            room
        },
        ..m
    }
}

/// Marks cut off at `limit`, without those of which nothing is left.
pub open spec fn cut_marks(marks: Seq<Mark>, limit: nat) -> Seq<Mark>
    decreases marks.len(),
{
    if marks.len() == 0 {
        Seq::empty()
    } else {
        let before = cut_marks(marks.drop_last(), limit);
        let m = cut_off(marks.last(), limit);
        if m.length > 0 {
            before.push(m)
        } else {
            before
        }
    }
}

impl Mark {
    /// Begins and ends between characters of the text.
    pub open spec fn aligned(self, s: Seq<char>) -> bool {
        boundary(s, self.offset) && boundary(s, self.offset + self.length)
    }

    pub open spec fn shifted(self, by: nat) -> Mark {
        Mark { offset: self.offset + by, ..self }
    }
}

impl RichModel {
    pub open spec fn empty() -> RichModel {
        RichModel { text: Seq::empty(), marks: Seq::empty() }
    }

    pub open spec fn len16(self) -> nat {
        text::utf16_len(self.text)
    }

    /// With a text behind it.
    pub open spec fn then_text(self, s: Seq<char>) -> RichModel {
        RichModel { text: self.text + s, ..self }
    }

    /// With an entity from `start` to the end, unless there is nothing to cover.
    pub open spec fn marked(self, start: nat, kind: RichEntityKind<Seq<char>>) -> RichModel {
        if self.len16() > start {
            self.with_mark(Mark { offset: start, length: (self.len16() - start) as nat, kind })
        } else {
            self
        }
    }

    pub open spec fn with_mark(self, m: Mark) -> RichModel {
        RichModel { marks: self.marks.push(m), ..self }
    }

    /// With a rich text behind it.
    pub open spec fn appended(self, other: RichModel) -> RichModel {
        RichModel {
            text: self.text + other.text,
            marks: self.marks + other.marks.map_values(|m: Mark| m.shifted(self.len16())),
        }
    }

    /// With line breaks at the end so that there are at least `wanted`.
    pub open spec fn broken(self, wanted: nat) -> RichModel {
        let existing = newline_count(self.text);
        if existing >= wanted {
            self
        } else {
            self.then_text(scan::repeated(seq!['\n'], (wanted - existing) as nat))
        }
    }

    /// Without whitespace at the end, entities cut off accordingly.
    pub open spec fn trimmed(self) -> RichModel {
        let kept = scan::trimmed_end(self.text);
        RichModel { text: kept, marks: cut_marks(self.marks, text::utf16_len(kept)) }
    }

    /// No entity reaches behind the text.
    pub open spec fn bounded(self) -> bool {
        forall|i: int|
            0 <= i < self.marks.len() ==> (#[trigger] self.marks[i]).offset + self.marks[i].length
                <= self.len16()
    }

    /// Every entity begins and ends between characters, and every link is safe.
    pub open spec fn sound(self) -> bool {
        forall|i: int| #![trigger self.marks[i]]
            0 <= i < self.marks.len() ==> self.marks[i].aligned(self.text)
                && safe_kind(self.marks[i].kind)
    }
}

pub open spec fn safe_kind(kind: RichEntityKind<Seq<char>>) -> bool {
    kind matches RichEntityKind::TextUrl(url) ==> safe_link(url)
}

// ---------------------------------------------------------------------------------------------
// Proofs
// ---------------------------------------------------------------------------------------------

pub proof fn lemma_boundary_ends(s: Seq<char>)
    ensures
        boundary(s, 0),
        boundary(s, text::utf16_len(s)),
{
    assert(s.take(0) =~= Seq::<char>::empty());
    assert(text::utf16_len(s.take(0)) == 0);
    assert(s.take(s.len() as int) =~= s);
}

pub proof fn lemma_boundary_at_most(s: Seq<char>, p: nat)
    requires
        boundary(s, p),
    ensures
        p <= text::utf16_len(s),
{
    let k = choose|k: int| 0 <= k <= s.len() && p == #[trigger] text::utf16_len(s.take(k));
    text::lemma_utf16_mono(s, k, s.len() as int);
    assert(s.take(s.len() as int) =~= s);
}

pub proof fn lemma_boundary_before(a: Seq<char>, b: Seq<char>, p: nat)
    requires
        boundary(a, p),
    ensures
        boundary(a + b, p),
{
    let k = choose|k: int| 0 <= k <= a.len() && p == #[trigger] text::utf16_len(a.take(k));
    assert((a + b).take(k) =~= a.take(k));
}

pub proof fn lemma_boundary_behind(a: Seq<char>, b: Seq<char>, p: nat)
    requires
        boundary(b, p),
    ensures
        boundary(a + b, text::utf16_len(a) + p),
{
    let k = choose|k: int| 0 <= k <= b.len() && p == #[trigger] text::utf16_len(b.take(k));
    assert((a + b).take(a.len() + k) =~= a + b.take(k));
    text::lemma_utf16_concat(a, b.take(k));
}

/// A boundary of a text that lies inside a prefix is one of the prefix.
pub proof fn lemma_boundary_prefix(s: Seq<char>, n: int, p: nat)
    requires
        0 <= n <= s.len(),
        boundary(s, p),
        p <= text::utf16_len(s.take(n)),
    ensures
        boundary(s.take(n), p),
{
    let k = choose|k: int| 0 <= k <= s.len() && p == #[trigger] text::utf16_len(s.take(k));
    if k > n {
        text::lemma_utf16_mono(s, n, k);
    } else {
        assert(s.take(n).take(k) =~= s.take(k));
    }
}

pub proof fn lemma_sound_bounded(r: RichModel)
    requires
        r.sound(),
    ensures
        r.bounded(),
{
    assert forall|i: int| 0 <= i < r.marks.len() implies (#[trigger] r.marks[i]).offset
        + r.marks[i].length <= r.len16() by {
        assert(r.marks[i].aligned(r.text));
        lemma_boundary_at_most(r.text, r.marks[i].offset + r.marks[i].length);
    }
}

pub proof fn lemma_sound_text(r: RichModel, s: Seq<char>)
    requires
        r.sound(),
    ensures
        r.then_text(s).sound(),
{
    assert forall|i: int| #![trigger r.then_text(s).marks[i]]
        0 <= i < r.marks.len() implies r.then_text(s).marks[i].aligned(r.text + s) && safe_kind(
        r.then_text(s).marks[i].kind,
    ) by {
        assert(r.marks[i].aligned(r.text));
        lemma_boundary_before(r.text, s, r.marks[i].offset);
        lemma_boundary_before(r.text, s, r.marks[i].offset + r.marks[i].length);
    }
}

pub proof fn lemma_sound_marked(r: RichModel, start: nat, kind: RichEntityKind<Seq<char>>)
    requires
        r.sound(),
        boundary(r.text, start),
        safe_kind(kind),
    ensures
        r.marked(start, kind).sound(),
{
    lemma_boundary_ends(r.text);
    let m = r.marked(start, kind);
    assert forall|i: int| #![trigger m.marks[i]]
        0 <= i < m.marks.len() implies m.marks[i].aligned(m.text) && safe_kind(m.marks[i].kind) by {
        if i < r.marks.len() {
            assert(m.marks[i] == r.marks[i]);
        }
    }
}

pub proof fn lemma_sound_with_mark(r: RichModel, m: Mark)
    requires
        r.sound(),
        m.aligned(r.text),
        safe_kind(m.kind),
    ensures
        r.with_mark(m).sound(),
{
    let q = r.with_mark(m);
    assert forall|i: int| #![trigger q.marks[i]]
        0 <= i < q.marks.len() implies q.marks[i].aligned(q.text) && safe_kind(q.marks[i].kind) by {
        if i < r.marks.len() {
            assert(q.marks[i] == r.marks[i]);
        }
    }
}

pub proof fn lemma_sound_appended(r: RichModel, other: RichModel)
    requires
        r.sound(),
        other.sound(),
    ensures
        r.appended(other).sound(),
{
    let q = r.appended(other);
    assert forall|i: int| #![trigger q.marks[i]]
        0 <= i < q.marks.len() implies q.marks[i].aligned(q.text) && safe_kind(q.marks[i].kind) by {
        if i < r.marks.len() {
            assert(q.marks[i] == r.marks[i]);
            lemma_boundary_before(r.text, other.text, r.marks[i].offset);
            lemma_boundary_before(r.text, other.text, r.marks[i].offset + r.marks[i].length);
        } else {
            let m = other.marks[i - r.marks.len()];
            assert(q.marks[i] == m.shifted(r.len16()));
            lemma_boundary_behind(r.text, other.text, m.offset);
            lemma_boundary_behind(r.text, other.text, m.offset + m.length);
        }
    }
}

proof fn lemma_cut_marks(marks: Seq<Mark>, s: Seq<char>, n: int)
    requires
        0 <= n <= s.len(),
        forall|i: int| #![trigger marks[i]]
            0 <= i < marks.len() ==> marks[i].aligned(s) && safe_kind(marks[i].kind),
    ensures
        forall|i: int| #![trigger cut_marks(marks, text::utf16_len(s.take(n)))[i]]
            0 <= i < cut_marks(marks, text::utf16_len(s.take(n))).len() ==> cut_marks(
                marks,
                text::utf16_len(s.take(n)),
            )[i].aligned(s.take(n)) && safe_kind(
                cut_marks(marks, text::utf16_len(s.take(n)))[i].kind,
            ),
    decreases marks.len(),
{
    let limit = text::utf16_len(s.take(n));
    let c = cut_marks(marks, limit);
    if marks.len() > 0 {
        assert forall|i: int| #![trigger marks.drop_last()[i]]
            0 <= i < marks.drop_last().len() implies marks.drop_last()[i].aligned(s) && safe_kind(
            marks.drop_last()[i].kind,
        ) by {
            assert(marks.drop_last()[i] == marks[i]);
        }
        lemma_cut_marks(marks.drop_last(), s, n);
        let m = marks.last();
        assert(m == marks[marks.len() - 1]);
        let k = cut_off(m, limit);
        lemma_boundary_ends(s.take(n));
        if k.length > 0 {
            lemma_boundary_prefix(s, n, m.offset);
            if m.offset + m.length <= limit {
                lemma_boundary_prefix(s, n, m.offset + m.length);
            }
            assert(k.aligned(s.take(n)));
        }
        assert forall|i: int| #![trigger c[i]] 0 <= i < c.len() implies c[i].aligned(s.take(n))
            && safe_kind(c[i].kind) by {
            let before = cut_marks(marks.drop_last(), limit);
            if i < before.len() {
                assert(c[i] == before[i]);
            }
        }
    }
}

pub proof fn lemma_sound_trimmed(r: RichModel)
    requires
        r.sound(),
    ensures
        r.trimmed().sound(),
{
    scan::lemma_trimmed_end(r.text);
    lemma_cut_marks(r.marks, r.text, scan::trimmed_end(r.text).len() as int);
}

/// Every change that a rich text is built by keeps entities between characters and links safe:
/// adding text, line breaks, an entity that begins between characters or another rich text, and
/// trimming.
pub proof fn law_changes_keep_soundness(
    r: RichModel,
    s: Seq<char>,
    wanted: nat,
    start: nat,
    kind: RichEntityKind<Seq<char>>,
    other: RichModel,
)
    requires
        r.sound(),
        other.sound(),
    ensures
        RichModel::empty().sound(),
        r.then_text(s).sound(),
        r.broken(wanted).sound(),
        boundary(r.text, start) && safe_kind(kind) ==> r.marked(start, kind).sound(),
        r.appended(other).sound(),
        r.trimmed().sound(),
{
    lemma_sound_text(r, s);
    if newline_count(r.text) < wanted {
        lemma_sound_text(
            r,
            scan::repeated(seq!['\n'], (wanted - newline_count(r.text)) as nat),
        );
    }
    if boundary(r.text, start) && safe_kind(kind) {
        lemma_sound_marked(r, start, kind);
    }
    lemma_sound_appended(r, other);
    lemma_sound_trimmed(r);
}

pub proof fn lemma_marks_push(v: Seq<RichEntity>, e: RichEntity)
    ensures
        marks_of(v.push(e)) == marks_of(v).push(e@),
{
    assert(marks_of(v.push(e)) =~= marks_of(v).push(e@));
}

// ---------------------------------------------------------------------------------------------
// Building
// ---------------------------------------------------------------------------------------------

pub fn is_safe_link(url: &str) -> (r: bool)
    ensures
        r == safe_link(url@),
{
    scan::starts_with(url, "https://") || scan::starts_with(url, "http://") || scan::starts_with(
        url,
        "tg://",
    )
}

fn newlines_at_end(s: &str) -> (k: usize)
    ensures
        k == newline_count(s@),
{
    let v = text::chars(s);
    let n: usize = v.len();
    let mut k: usize = 0;
    proof {
        assert(s@.take(n as int) =~= s@);
    }
    while k < n && v[n - 1 - k] == '\n'
        invariant
            v@ == s@,
            n == v@.len(),
            k <= n,
            newline_count(s@) == k + newline_count(s@.take(n - k)),
        decreases n - k,
    {
        proof {
            assert(s@.take(n - k).drop_last() =~= s@.take(n - k - 1));
        }
        k = k + 1;
    }
    k
}

impl RichText {
    pub fn new() -> (r: RichText)
        ensures
            r@ == RichModel::empty(),
    {
        let r = RichText { text: String::new(), entities: Vec::new() };
        proof {
            assert(r@ =~= RichModel::empty());
        }
        r
    }

    pub fn push(&mut self, value: &str)
        ensures
            final(self)@ == old(self)@.then_text(value@),
    {
        self.text.append(value);
    }

    pub fn offset(&self) -> (n: usize)
        ensures
            n == self@.len16(),
    {
        text::units_len(self.text.as_str())
    }

    pub fn push_entity(&mut self, start: usize, kind: RichEntityKind<String>)
        ensures
            final(self)@ == old(self)@.marked(start as nat, kind@),
    {
        let end: usize = self.offset();
        if end > start {
            let entity = RichEntity { offset: start, length: end - start, kind };
            proof {
                lemma_marks_push(self.entities@, entity);
            }
            self.entities.push(entity);
        }
    }

    /// Adds an entity as it is.
    pub fn push_mark(&mut self, entity: RichEntity)
        ensures
            final(self)@ == old(self)@.with_mark(entity@),
    {
        proof {
            lemma_marks_push(self.entities@, entity);
        }
        self.entities.push(entity);
    }

    pub fn append(&mut self, other: RichText)
        requires
            other@.bounded(),
        ensures
            final(self)@ == old(self)@.appended(other@),
    {
        let ghost before = self@;
        let shift: usize = self.offset();
        self.text.append(other.text.as_str());
        let _whole: usize = self.offset();
        let ghost shifted = other@.marks.map_values(|m: Mark| m.shifted(shift as nat));
        let n: usize = other.entities.len();
        let mut i: usize = 0;
        proof {
            text::lemma_utf16_concat(before.text, other@.text);
            assert(before.marks + shifted.take(0) =~= before.marks);
        }
        while i < n
            invariant
                i <= n,
                n == other.entities@.len(),
                shift == before.len16(),
                other@.bounded(),
                shift + other@.len16() <= usize::MAX,
                shifted == other@.marks.map_values(|m: Mark| m.shifted(shift as nat)),
                self@.text == before.text + other@.text,
                self@.marks == before.marks + shifted.take(i as int),
            decreases n - i,
        {
            let entity: &RichEntity = &other.entities[i];
            proof {
                assert(other@.marks[i as int] == entity@);
            }
            let moved = RichEntity {
                offset: entity.offset + shift,
                length: entity.length,
                kind: entity.kind.clone(),
            };
            proof {
                assert(moved@ == shifted[i as int]);
                lemma_marks_push(self.entities@, moved);
                assert((before.marks + shifted.take(i as int)).push(moved@) =~= before.marks
                    + shifted.take(i + 1));
            }
            self.entities.push(moved);
            i = i + 1;
        }
        proof {
            assert(shifted.take(n as int) =~= shifted);
            assert(self@ =~= before.appended(other@));
        }
    }

    pub fn ensure_newlines(&mut self, wanted: usize)
        ensures
            final(self)@ == old(self)@.broken(wanted as nat),
    {
        let existing: usize = newlines_at_end(self.text.as_str());
        if existing < wanted {
            let breaks = scan::repeat("\n", wanted - existing);
            proof {
                reveal_strlit("\n");
                assert("\n"@ =~= seq!['\n']);
            }
            self.text.append(breaks.as_str());
        }
    }

    pub fn trim_end(&mut self)
        ensures
            final(self)@ == old(self)@.trimmed(),
    {
        let ghost before = self@;
        self.text = scan::trim_end(self.text.as_str());
        let limit: usize = self.offset();
        let mut kept: Vec<RichEntity> = Vec::new();
        let n: usize = self.entities.len();
        let mut i: usize = 0;
        proof {
            assert(before.marks.take(0) =~= Seq::<Mark>::empty());
            assert(marks_of(kept@) =~= Seq::<Mark>::empty());
        }
        while i < n
            invariant
                i <= n,
                n == self.entities@.len(),
                before.marks == marks_of(self.entities@),
                marks_of(kept@) == cut_marks(before.marks.take(i as int), limit as nat),
            decreases n - i,
        {
            let entity: &RichEntity = &self.entities[i];
            let room: usize = if entity.offset <= limit {
                limit - entity.offset
            } else {
                0
            };
            let length: usize = if entity.length <= room {
                entity.length
            } else {
                room
            };
            proof {
                let upto = before.marks.take(i + 1);
                assert(upto.drop_last() =~= before.marks.take(i as int));
                assert(upto.last() == entity@);
            }
            if length > 0 {
                let short = RichEntity { offset: entity.offset, length, kind: entity.kind.clone() };
                proof {
                    assert(short@ == cut_off(entity@, limit as nat));
                    lemma_marks_push(kept@, short);
                }
                kept.push(short);
            }
            i = i + 1;
        }
        proof {
            assert(before.marks.take(n as int) =~= before.marks);
        }
        self.entities = kept;
    }
}

impl Clone for RichEntity {
    fn clone(&self) -> (r: Self)
        ensures
            r@ == self@,
    {
        RichEntity { offset: self.offset, length: self.length, kind: self.kind.clone() }
    }
}

/// What the operations on rich text do: text is put behind the text, a mark covers what was written since,
/// and the marks of a text that is put behind another move with it.
pub proof fn law_rich_operations(
    r: RichModel,
    s: Seq<char>,
    kind: RichEntityKind<Seq<char>>,
    other: RichModel,
    i: int,
)
    requires
        s.len() > 0,
        0 <= i < other.marks.len(),
    ensures
        r.then_text(s).text == r.text + s,
        r.then_text(s).marks == r.marks,
        r.then_text(s).marked(text::utf16_len(r.text), kind).text == r.text + s,
        r.then_text(s).marked(text::utf16_len(r.text), kind).marks == r.marks.push(
            Mark { offset: text::utf16_len(r.text), length: text::utf16_len(s), kind },
        ),
        r.marked(text::utf16_len(r.text), kind) == r,
        r.appended(other).text == r.text + other.text,
        r.appended(other).marks.len() == r.marks.len() + other.marks.len(),
        r.appended(other).marks.take(r.marks.len() as int) == r.marks,
        r.appended(other).marks[r.marks.len() + i] == (Mark {
            offset: text::utf16_len(r.text) + other.marks[i].offset,
            length: other.marks[i].length,
            kind: other.marks[i].kind,
        }),
{
    text::lemma_utf16_concat(r.text, s);
    text::lemma_length_order(s);
    assert(r.appended(other).marks.take(r.marks.len() as int) =~= r.marks);
}

/// A text gets as many line breaks at its end as it lacks, and no more.
pub proof fn law_broken(t: Seq<char>, marks: Seq<Mark>, existing: nat, wanted: nat)
    requires
        t.len() == 0 || t.last() != '\n',
    ensures
        ({
            let r = RichModel { text: t + scan::repeated(seq!['\n'], existing), marks };
            &&& existing >= wanted ==> r.broken(wanted) == r
            &&& existing < wanted ==> r.broken(wanted).text == t + scan::repeated(
                seq!['\n'],
                wanted,
            ) && r.broken(wanted).marks == marks
        }),
{
    lemma_newlines_at_end(t, existing);
    if existing < wanted {
        scan::law_repeated(seq!['\n'], existing, (wanted - existing) as nat);
        assert(t + scan::repeated(seq!['\n'], existing) + scan::repeated(
            seq!['\n'],
            (wanted - existing) as nat,
        ) =~= t + scan::repeated(seq!['\n'], wanted));
    }
}

proof fn lemma_newlines_at_end(t: Seq<char>, n: nat)
    requires
        t.len() == 0 || t.last() != '\n',
    ensures
        newline_count(t + scan::repeated(seq!['\n'], n)) == n,
    decreases n,
{
    let s = t + scan::repeated(seq!['\n'], n);
    if n == 0 {
        assert(s =~= t);
    } else {
        lemma_newlines_at_end(t, (n - 1) as nat);
        assert(s.drop_last() =~= t + scan::repeated(seq!['\n'], (n - 1) as nat));
    }
}

/// Links are safe that lead to the web or into Telegram.
pub proof fn law_safe_links(rest: Seq<char>)
    ensures
        safe_link("https://"@ + rest),
        safe_link("http://"@ + rest),
        safe_link("tg://"@ + rest),
        !safe_link("javascript:"@ + rest),
        !safe_link("file:"@ + rest),
        !safe_link("data:"@ + rest),
        !safe_link(Seq::empty()),
{
    reveal_strlit("https://");
    reveal_strlit("http://");
    reveal_strlit("tg://");
    reveal_strlit("javascript:");
    reveal_strlit("file:");
    reveal_strlit("data:");
    assert(("https://"@ + rest).subrange(0, 8) =~= "https://"@);
    assert(("http://"@ + rest).subrange(0, 7) =~= "http://"@);
    assert(("tg://"@ + rest).subrange(0, 5) =~= "tg://"@);
    lemma_unsafe("javascript:"@ + rest);
    lemma_unsafe("file:"@ + rest);
    lemma_unsafe("data:"@ + rest);
}

proof fn lemma_unsafe(url: Seq<char>)
    requires
        url.len() > 0,
        url[0] != 'h' && url[0] != 't',
    ensures
        !safe_link(url),
{
    reveal_strlit("https://");
    reveal_strlit("http://");
    reveal_strlit("tg://");
    if scan::starts(url, "https://"@) {
        assert(url.subrange(0, 8)[0] == url[0]);
    }
    if scan::starts(url, "http://"@) {
        assert(url.subrange(0, 7)[0] == url[0]);
    }
    if scan::starts(url, "tg://"@) {
        assert(url.subrange(0, 5)[0] == url[0]);
    }
}

/// Trimming takes whitespace from the end of the text, and from the marks what lay on it.
pub proof fn law_trimmed_marks(t: Seq<char>, space: Seq<char>, marks: Seq<Mark>, m: Mark)
    requires
        scan::tight(t),
        scan::blank(space),
        m.length > 0,
    ensures
        ({
            let limit = text::utf16_len(t);
            let r = RichModel { text: t + space, marks: marks.push(m) };
            let before = RichModel { text: t + space, marks };
            &&& r.trimmed().text == t
            &&& m.offset + m.length <= limit ==> r.trimmed().marks == before.trimmed().marks.push(m)
            &&& m.offset < limit < m.offset + m.length ==> r.trimmed().marks
                == before.trimmed().marks.push(
                Mark { offset: m.offset, length: (limit - m.offset) as nat, kind: m.kind },
            )
            &&& m.offset >= limit ==> r.trimmed().marks == before.trimmed().marks
        }),
{
    let none = Seq::<char>::empty();
    scan::law_trim(none, t, space);
    assert(marks.push(m).drop_last() =~= marks);
}

} // verus!
