//! JSON documents as plain values.

use crate::number;
use crate::scan;
use crate::text;
use serde_json::Value;
use vstd::prelude::*;

verus! {

/// A JSON document. A number stands as it is written; the members of an object stand one behind the
/// other.
#[derive(Debug, PartialEq, Eq)]
pub enum Json {
    Null,
    Bool(bool),
    Number(String),
    Text(String),
    Array(Vec<Json>),
    Object(Vec<(String, Json)>),
}

/// A JSON document.
pub enum JsonView {
    Null,
    Bool(bool),
    Number(Seq<char>),
    Text(Seq<char>),
    Array(Seq<JsonView>),
    Object(Seq<(Seq<char>, JsonView)>),
}

pub open spec fn json_view(j: Json) -> JsonView
    decreases j,
{
    match j {
        Json::Null => JsonView::Null,
        Json::Bool(b) => JsonView::Bool(b),
        Json::Number(s) => JsonView::Number(s@),
        Json::Text(s) => JsonView::Text(s@),
        Json::Array(items) => JsonView::Array(items_view(items@)),
        Json::Object(members) => JsonView::Object(members_view(members@)),
    }
}

pub open spec fn items_view(items: Seq<Json>) -> Seq<JsonView>
    decreases items,
{
    if items.len() == 0 {
        Seq::empty()
    } else {
        items_view(items.drop_last()).push(json_view(items.last()))
    }
}

pub open spec fn members_view(members: Seq<(String, Json)>) -> Seq<(Seq<char>, JsonView)>
    decreases members,
{
    if members.len() == 0 {
        Seq::empty()
    } else {
        members_view(members.drop_last()).push((members.last().0@, json_view(members.last().1)))
    }
}

impl View for Json {
    type V = JsonView;

    open spec fn view(&self) -> JsonView {
        json_view(*self)
    }
}

pub proof fn lemma_items_view(items: Seq<Json>)
    ensures
        items_view(items).len() == items.len(),
        forall|i: int| 0 <= i < items.len() ==> #[trigger] items_view(items)[i] == items[i]@,
    decreases items.len(),
{
    if items.len() > 0 {
        lemma_items_view(items.drop_last());
        assert forall|i: int| 0 <= i < items.len() implies #[trigger] items_view(items)[i]
            == items[i]@ by {
            if i < items.len() - 1 {
                assert(items.drop_last()[i] == items[i]);
                assert(items_view(items.drop_last())[i] == items[i]@);
            }
        }
    }
}

pub proof fn lemma_members_view(members: Seq<(String, Json)>)
    ensures
        members_view(members).len() == members.len(),
        forall|i: int|
            0 <= i < members.len() ==> #[trigger] members_view(members)[i] == (
                members[i].0@,
                members[i].1@,
            ),
    decreases members.len(),
{
    if members.len() > 0 {
        lemma_members_view(members.drop_last());
        assert forall|i: int| 0 <= i < members.len() implies #[trigger] members_view(members)[i]
            == (members[i].0@, members[i].1@) by {
            if i < members.len() - 1 {
                assert(members.drop_last()[i] == members[i]);
                assert(members_view(members.drop_last())[i] == (members[i].0@, members[i].1@));
            }
        }
    }
}

pub proof fn lemma_items_push(items: Seq<Json>, j: Json)
    ensures
        items_view(items.push(j)) == items_view(items).push(j@),
{
    assert(items.push(j).drop_last() =~= items);
}

pub proof fn lemma_members_push(members: Seq<(String, Json)>, m: (String, Json))
    ensures
        members_view(members.push(m)) == members_view(members).push((m.0@, m.1@)),
{
    assert(members.push(m).drop_last() =~= members);
}

// ---------------------------------------------------------------------------------------------
// Looking into a document
// ---------------------------------------------------------------------------------------------

/// The first member with a name.
pub open spec fn member(members: Seq<(Seq<char>, JsonView)>, key: Seq<char>) -> Option<JsonView>
    decreases members.len(),
{
    if members.len() == 0 {
        None
    } else if members[0].0 == key {
        Some(members[0].1)
    } else {
        member(members.skip(1), key)
    }
}

/// The number of an array's item, as a path gives it: in digits, without a needless zero.
pub open spec fn item_number(token: Seq<char>) -> Option<nat> {
    if scan::starts(token, "+"@) || (scan::starts(token, "0"@) && token.len() != 1) {
        None
    } else {
        match number::unsigned_value(token, usize::MAX as nat) {
            Ok(n) => Some(n),
            Err(_) => None,
        }
    }
}

/// An object without members.
pub open spec fn empty_object() -> JsonView {
    JsonView::Object(Seq::empty())
}

/// An array with one item.
pub open spec fn one_item(item: JsonView) -> JsonView {
    JsonView::Array(Seq::empty().push(item))
}

impl JsonView {
    /// An object with one more member; anything else stays as it is.
    pub open spec fn with(self, key: Seq<char>, value: JsonView) -> JsonView {
        match self {
            JsonView::Object(members) => JsonView::Object(members.push((key, value))),
            _ => self,
        }
    }

    /// The member of an object with a name.
    pub open spec fn field(self, key: Seq<char>) -> Option<JsonView> {
        match self {
            JsonView::Object(members) => member(members, key),
            _ => None,
        }
    }

    /// The part of an object or an array that a step of a path leads to.
    pub open spec fn child(self, token: Seq<char>) -> Option<JsonView> {
        match self {
            JsonView::Object(members) => member(members, token),
            JsonView::Array(items) => match item_number(token) {
                Some(n) => if n < items.len() {
                    Some(items[n as int])
                } else {
                    None
                },
                None => None,
            },
            _ => None,
        }
    }

    /// The part that a path leads to, step by step.
    pub open spec fn along(self, path: Seq<Seq<char>>) -> Option<JsonView>
        decreases path.len(),
    {
        if path.len() == 0 {
            Some(self)
        } else {
            match self.child(path[0]) {
                Some(j) => j.along(path.skip(1)),
                None => None,
            }
        }
    }

    pub open spec fn text(self) -> Option<Seq<char>> {
        match self {
            JsonView::Text(s) => Some(s),
            _ => None,
        }
    }

    pub open spec fn array(self) -> Option<Seq<JsonView>> {
        match self {
            JsonView::Array(items) => Some(items),
            _ => None,
        }
    }
}

/// The text of a part, if there is such a part and it is a text.
pub open spec fn text_of(j: Option<JsonView>) -> Option<Seq<char>> {
    match j {
        Some(j) => j.text(),
        None => None,
    }
}

/// The items of a part; none if there is no such part or it is no array.
pub open spec fn items_of(j: Option<JsonView>) -> Seq<JsonView> {
    match j {
        Some(JsonView::Array(items)) => items,
        _ => Seq::empty(),
    }
}

pub open spec fn optional(j: Option<&Json>) -> Option<JsonView> {
    match j {
        Some(j) => Some(j@),
        None => None,
    }
}

pub open spec fn optional_text(s: Option<&String>) -> Option<Seq<char>> {
    match s {
        Some(s) => Some(s@),
        None => None,
    }
}

impl Json {
    pub fn text(s: &str) -> (r: Json)
        ensures
            r@ == JsonView::Text(s@),
    {
        Json::Text(s.to_owned())
    }

    pub fn number(n: i64) -> (r: Json)
        ensures
            r@ == JsonView::Number(number::signed_decimal(n as int)),
    {
        Json::Number(number::write_signed(n))
    }

    /// An object without members.
    pub fn object() -> (r: Json)
        ensures
            r@ == empty_object(),
    {
        let r = Json::Object(Vec::new());
        proof {
            assert(members_view(Seq::empty()) == Seq::<(Seq<char>, JsonView)>::empty());
        }
        r
    }

    /// An object with one more member; anything else stays as it is.
    pub fn with(self, key: &str, value: Json) -> (r: Json)
        ensures
            r@ == self@.with(key@, value@),
    {
        match self {
            Json::Object(members) => {
                let mut members = members;
                let name = key.to_owned();
                proof {
                    lemma_members_push(members@, (name, value));
                }
                members.push((name, value));
                Json::Object(members)
            },
            other => other,
        }
    }

    /// The member of an object with a name.
    pub fn get(&self, key: &str) -> (r: Option<&Json>)
        ensures
            optional(r) == self@.field(key@),
    {
        match self {
            Json::Object(members) => find_member(members, key),
            _ => None,
        }
    }

    /// The part of an object or an array that a step of a path leads to.
    pub fn step(&self, token: &str) -> (r: Option<&Json>)
        ensures
            optional(r) == self@.child(token@),
    {
        match self {
            Json::Object(members) => find_member(members, token),
            Json::Array(items) => {
                proof {
                    lemma_items_view(items@);
                }
                if scan::starts_with(token, "+") || (scan::starts_with(token, "0")
                    && text::char_len(token) != 1) {
                    return None;
                }
                match number::read_unsigned(token, usize::MAX as u64) {
                    Ok(n) => {
                        if n < items.len() as u64 {
                            Some(&items[n as usize])
                        } else {
                            None
                        }
                    },
                    Err(_) => None,
                }
            },
            _ => None,
        }
    }

    /// The part that a path leads to, step by step.
    pub fn pointer(&self, path: &[&str]) -> (r: Option<&Json>)
        ensures
            optional(r) == self@.along(Seq::new(path@.len(), |i: int| path@[i]@)),
    {
        let ghost all = Seq::new(path@.len(), |i: int| path@[i]@);
        let mut at: &Json = self;
        let n: usize = path.len();
        let mut i: usize = 0;
        proof {
            assert(all.skip(0) =~= all);
        }
        while i < n
            invariant
                i <= n,
                n == path@.len(),
                all == Seq::new(path@.len(), |i: int| path@[i]@),
                self@.along(all) == at@.along(all.skip(i as int)),
            decreases n - i,
        {
            proof {
                assert(all.skip(i as int)[0] == path@[i as int]@);
                assert(all.skip(i as int).skip(1) =~= all.skip(i + 1));
            }
            match at.step(path[i]) {
                Some(j) => {
                    at = j;
                },
                None => {
                    return None;
                },
            }
            i = i + 1;
        }
        Some(at)
    }

    pub fn as_str(&self) -> (r: Option<&String>)
        ensures
            optional_text(r) == self@.text(),
    {
        match self {
            Json::Text(s) => Some(s),
            _ => None,
        }
    }

    pub fn as_array(&self) -> (r: Option<&Vec<Json>>)
        ensures
            match (r, self@.array()) {
                (Some(items), Some(seq)) => items_view(items@) == seq,
                (None, None) => true,
                _ => false,
            },
    {
        match self {
            Json::Array(items) => Some(items),
            _ => None,
        }
    }

    /// The text of a member.
    pub fn get_text(&self, key: &str) -> (r: Option<&String>)
        ensures
            optional_text(r) == text_of(self@.field(key@)),
    {
        match self.get(key) {
            Some(j) => j.as_str(),
            None => None,
        }
    }

    /// Whether a member is a certain text.
    pub fn says(&self, key: &str, value: &str) -> (r: bool)
        ensures
            r == (text_of(self@.field(key@)) == Some(value@)),
    {
        match self.get_text(key) {
            Some(s) => text::same(s.as_str(), value),
            None => false,
        }
    }
}

fn find_member<'a>(members: &'a Vec<(String, Json)>, key: &str) -> (r: Option<&'a Json>)
    ensures
        optional(r) == member(members_view(members@), key@),
{
    let ghost all = members_view(members@);
    let n: usize = members.len();
    let mut i: usize = 0;
    proof {
        lemma_members_view(members@);
        assert(all.skip(0) =~= all);
    }
    while i < n
        invariant
            i <= n,
            n == members@.len(),
            all == members_view(members@),
            all.len() == n,
            forall|j: int|
                0 <= j < n ==> #[trigger] all[j] == (members@[j].0@, members@[j].1@),
            member(all, key@) == member(all.skip(i as int), key@),
        decreases n - i,
    {
        proof {
            assert(all.skip(i as int)[0] == all[i as int]);
            assert(all.skip(i as int).skip(1) =~= all.skip(i + 1));
        }
        if text::same(members[i].0.as_str(), key) {
            return Some(&members[i].1);
        }
        i = i + 1;
    }
    None
}

// ---------------------------------------------------------------------------------------------
// Reading a document
// ---------------------------------------------------------------------------------------------

/// A document as `serde_json` holds it.
#[verifier::external_type_specification]
#[verifier::external_body]
pub struct ExValue(serde_json::Value);

/// What a `serde_json::Value` holds, variant for variant: of a number, what its `Display` writes; of
/// an object, the members in the order in which its map hands them out.
pub uninterp spec fn value_contents(value: Value) -> JsonView;

/// What `serde_json::from_slice` makes of bytes: the document, or the message of its error.
pub uninterp spec fn parsed_json(bytes: Seq<u8>) -> Result<JsonView, Seq<char>>;

/// A document of which the parts are still values of `serde_json`.
enum OpenValue {
    Plain(Json),
    Array(Vec<Value>),
    Object(Vec<(String, Value)>),
}

spec fn values_contents(items: Seq<Value>) -> Seq<JsonView> {
    Seq::new(items.len(), |i: int| value_contents(items[i]))
}

spec fn pairs_contents(members: Seq<(String, Value)>) -> Seq<(Seq<char>, JsonView)> {
    Seq::new(members.len(), |i: int| (members[i].0@, value_contents(members[i].1)))
}

impl OpenValue {
    spec fn contents(self) -> JsonView {
        match self {
            OpenValue::Plain(j) => j@,
            OpenValue::Array(items) => JsonView::Array(values_contents(items@)),
            OpenValue::Object(members) => JsonView::Object(pairs_contents(members@)),
        }
    }
}

/// Reads one level of a `serde_json::Value`: the result holds what the value holds.
#[verifier::external_body]
fn open_value(value: Value) -> (r: OpenValue)
    ensures
        r.contents() == value_contents(value),
{
    OpenValue::Plain(match value {
        Value::Null => Json::Null,
        Value::Bool(b) => Json::Bool(b),
        Value::Number(n) => Json::Number(n.to_string()),
        Value::String(s) => Json::Text(s),
        Value::Array(items) => return OpenValue::Array(items),
        Value::Object(members) => return OpenValue::Object(members.into_iter().collect()),
    })
}

/// Parses bytes with `serde_json::from_slice` into a `serde_json::Value`. What the value holds, or
/// the message of the error, is a function of the bytes.
#[verifier::external_body]
fn parse_value(bytes: &[u8]) -> (r: Result<Value, String>)
    ensures
        match r {
            Ok(value) => parsed_json(bytes@) == Ok::<JsonView, Seq<char>>(value_contents(value)),
            Err(e) => parsed_json(bytes@) == Err::<JsonView, Seq<char>>(e@),
        },
{
    serde_json::from_slice(bytes).map_err(|e| e.to_string())
}

fn read_value(value: Value) -> (r: Json)
    ensures
        r@ == value_contents(value),
    decreases value_contents(value),
{
    match open_value(value) {
        OpenValue::Plain(j) => j,
        OpenValue::Array(items) => {
            let ghost goal = values_contents(items@);
            let mut left = items;
            let mut rev: Vec<Json> = Vec::new();
            let ghost total = left@.len();
            proof {
                assert(goal == value_contents(value)->Array_0);
            }
            while left.len() > 0
                invariant
                    left@.len() + rev@.len() == total,
                    total == goal.len(),
                    value_contents(value) == JsonView::Array(goal),
                    forall|j: int|
                        0 <= j < left@.len() ==> value_contents(#[trigger] left@[j]) == goal[j],
                    forall|j: int|
                        0 <= j < rev@.len() ==> (#[trigger] rev@[j])@ == goal[total - 1 - j],
                decreases left@.len(),
            {
                let ghost k = left@.len() - 1;
                match left.pop() {
                    Some(item) => {
                        proof {
                            assert(value_contents(item) == goal[k]);
                            let whole = value_contents(value);
                            assert(decreases_to!(whole => whole->Array_0));
                            assert(decreases_to!(whole->Array_0 => whole->Array_0[k]));
                        }
                        let j = read_value(item);
                        rev.push(j);
                    },
                    None => {},
                }
            }
            let mut out: Vec<Json> = Vec::new();
            while rev.len() > 0
                invariant
                    rev@.len() + out@.len() == total,
                    total == goal.len(),
                    forall|j: int|
                        0 <= j < rev@.len() ==> (#[trigger] rev@[j])@ == goal[total - 1 - j],
                    forall|j: int| 0 <= j < out@.len() ==> (#[trigger] out@[j])@ == goal[j],
                decreases rev@.len(),
            {
                match rev.pop() {
                    Some(j) => {
                        out.push(j);
                    },
                    None => {},
                }
            }
            proof {
                lemma_items_view(out@);
                assert(items_view(out@) =~= goal);
            }
            Json::Array(out)
        },
        OpenValue::Object(members) => {
            let ghost goal = pairs_contents(members@);
            let mut left = members;
            let mut rev: Vec<(String, Json)> = Vec::new();
            let ghost total = left@.len();
            while left.len() > 0
                invariant
                    left@.len() + rev@.len() == total,
                    total == goal.len(),
                    value_contents(value) == JsonView::Object(goal),
                    forall|j: int|
                        0 <= j < left@.len() ==> (
                            (#[trigger] left@[j]).0@,
                            value_contents(left@[j].1),
                        ) == goal[j],
                    forall|j: int|
                        0 <= j < rev@.len() ==> ((#[trigger] rev@[j]).0@, rev@[j].1@) == goal[total
                            - 1 - j],
                decreases left@.len(),
            {
                let ghost k = left@.len() - 1;
                match left.pop() {
                    Some((key, item)) => {
                        proof {
                            assert((key@, value_contents(item)) == goal[k]);
                            let whole = value_contents(value);
                            assert(decreases_to!(whole => whole->Object_0));
                            assert(decreases_to!(whole->Object_0 => whole->Object_0[k]));
                            assert(decreases_to!(whole->Object_0[k] => whole->Object_0[k].1));
                        }
                        let j = read_value(item);
                        rev.push((key, j));
                    },
                    None => {},
                }
            }
            let mut out: Vec<(String, Json)> = Vec::new();
            while rev.len() > 0
                invariant
                    rev@.len() + out@.len() == total,
                    total == goal.len(),
                    forall|j: int|
                        0 <= j < rev@.len() ==> ((#[trigger] rev@[j]).0@, rev@[j].1@) == goal[total
                            - 1 - j],
                    forall|j: int|
                        0 <= j < out@.len() ==> ((#[trigger] out@[j]).0@, out@[j].1@) == goal[j],
                decreases rev@.len(),
            {
                match rev.pop() {
                    Some(m) => {
                        out.push(m);
                    },
                    None => {},
                }
            }
            proof {
                lemma_members_view(out@);
                assert(members_view(out@) =~= goal);
            }
            Json::Object(out)
        },
    }
}

/// Reads a document; if that fails, says why.
pub fn read_json(bytes: &[u8]) -> (r: Result<Json, String>)
    ensures
        match r {
            Ok(j) => parsed_json(bytes@) == Ok::<JsonView, Seq<char>>(j@),
            Err(e) => parsed_json(bytes@) == Err::<JsonView, Seq<char>>(e@),
        },
{
    match parse_value(bytes) {
        Ok(value) => Ok(read_value(value)),
        Err(e) => Err(e),
    }
}

// ---------------------------------------------------------------------------------------------
// Laws
// ---------------------------------------------------------------------------------------------

proof fn lemma_member_push(
    members: Seq<(Seq<char>, JsonView)>,
    key: Seq<char>,
    value: JsonView,
    k: Seq<char>,
)
    ensures
        member(members.push((key, value)), k) == match member(members, k) {
            Some(j) => Some(j),
            None => if k == key {
                Some(value)
            } else {
                None
            },
        },
    decreases members.len(),
{
    let all = members.push((key, value));
    if members.len() == 0 {
        assert(all.skip(1) =~= Seq::<(Seq<char>, JsonView)>::empty());
        assert(member(all.skip(1), k) is None);
    } else {
        assert(all[0] == members[0]);
        assert(all.skip(1) =~= members.skip(1).push((key, value)));
        lemma_member_push(members.skip(1), key, value, k);
    }
}

/// A member that is added is found under its name, unless there was one before; what stands under other
/// names stays.
pub proof fn law_added_member(j: JsonView, key: Seq<char>, value: JsonView)
    requires
        j is Object,
    ensures
        j.with(key, value) is Object,
        j.field(key) is None ==> j.with(key, value).field(key) == Some(value),
        forall|k: Seq<char>| k != key ==> #[trigger] j.with(key, value).field(k) == j.field(k),
        forall|k: Seq<char>|
            j.field(k) is Some ==> #[trigger] j.with(key, value).field(k) == j.field(k),
{
    assert forall|k: Seq<char>| #[trigger] j.with(key, value).field(k) == (match j.field(k) {
        Some(v) => Some(v),
        None => if k == key {
            Some(value)
        } else {
            None
        },
    }) by {
        lemma_member_push(j->Object_0, key, value, k);
    }
}

/// An object without members has none under any name.
pub proof fn law_empty_object()
    ensures
        empty_object() is Object,
        forall|k: Seq<char>| (#[trigger] empty_object().field(k)) is None,
{
}

/// A member that is found stands in the object, and it is the first one with its name; none is found only
/// where there is none.
pub proof fn law_member_found(members: Seq<(Seq<char>, JsonView)>, key: Seq<char>)
    ensures
        match JsonView::Object(members).field(key) {
            Some(value) => exists|i: int|
                0 <= i < members.len() && #[trigger] members[i] == (key, value) && forall|j: int|
                    0 <= j < i ==> (#[trigger] members[j]).0 != key,
            None => forall|i: int| 0 <= i < members.len() ==> (#[trigger] members[i]).0 != key,
        },
        JsonView::Object(members).child(key) == JsonView::Object(members).field(key),
    decreases members.len(),
{
    if members.len() > 0 {
        let rest = members.skip(1);
        if members[0].0 != key {
            law_member_found(rest, key);
            match member(rest, key) {
                Some(value) => {
                    let i = choose|i: int|
                        0 <= i < rest.len() && #[trigger] rest[i] == (key, value) && forall|j: int|
                            0 <= j < i ==> (#[trigger] rest[j]).0 != key;
                    assert(members[i + 1] == (key, value));
                    assert forall|j: int| 0 <= j < i + 1 implies (#[trigger] members[j]).0 != key by {
                        if j > 0 {
                            assert(rest[j - 1] == members[j]);
                        }
                    }
                },
                None => {
                    assert forall|i: int| 0 <= i < members.len() implies (#[trigger] members[i]).0
                        != key by {
                        if i > 0 {
                            assert(rest[i - 1] == members[i]);
                        }
                    }
                },
            }
        } else {
            assert(members[0] == (key, members[0].1));
        }
    }
}

/// A path leads from step to step, and an item of an array is found under its number.
pub proof fn law_paths(j: JsonView, token: Seq<char>, path: Seq<Seq<char>>, items: Seq<JsonView>, n: nat)
    requires
        n <= usize::MAX,
    ensures
        j.along(Seq::empty()) == Some(j),
        j.child(token) matches Some(k) ==> j.along(seq![token] + path) == k.along(path),
        j.child(token) is None ==> j.along(seq![token] + path) is None,
        n < items.len() ==> JsonView::Array(items).child(number::decimal(n)) == Some(items[n as int]),
        n >= items.len() ==> JsonView::Array(items).child(number::decimal(n)) is None,
{
    assert((seq![token] + path).skip(1) =~= path);
    number::law_decimal_round_trip(n, usize::MAX as nat);
    number::lemma_decimal_leads(n);
    reveal_strlit("+");
    reveal_strlit("0");
    let d = number::decimal(n);
    if scan::starts(d, "+"@) {
        assert(d.subrange(0, 1)[0] == d[0]);
    }
    if scan::starts(d, "0"@) && d.len() != 1 {
        assert(d.subrange(0, 1)[0] == d[0]);
    }
}

} // verus!
