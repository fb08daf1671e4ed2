//! Settings: values under names.

use crate::scan;
use crate::text;
use vstd::prelude::*;

verus! {

/// Values under names, as they were set one after the other; a later one takes the place of an
/// earlier one.
pub struct Settings {
    pub entries: Vec<(String, String)>,
}

pub open spec fn map_of(entries: Seq<(String, String)>) -> Map<Seq<char>, Seq<char>>
    decreases entries.len(),
{
    if entries.len() == 0 {
        Map::empty()
    } else {
        map_of(entries.drop_last()).insert(entries.last().0@, entries.last().1@)
    }
}

impl View for Settings {
    type V = Map<Seq<char>, Seq<char>>;

    open spec fn view(&self) -> Map<Seq<char>, Seq<char>> {
        map_of(self.entries@)
    }
}

/// Settings without those whose name begins with a prefix.
pub open spec fn without_prefix(
    m: Map<Seq<char>, Seq<char>>,
    prefix: Seq<char>,
) -> Map<Seq<char>, Seq<char>> {
    m.filter_keys(|k: Seq<char>| !scan::starts(k, prefix))
}

/// The names among those of settings that begin with a prefix.
pub open spec fn named_with(m: Map<Seq<char>, Seq<char>>, prefix: Seq<char>) -> Set<Seq<char>> {
    m.dom().filter(|k: Seq<char>| scan::starts(k, prefix))
}

/// A setting that was set is read back; others stay as they were.
pub proof fn law_set_then_get(
    m: Map<Seq<char>, Seq<char>>,
    key: Seq<char>,
    value: Seq<char>,
    other: Seq<char>,
)
    ensures
        m.insert(key, value).get(key) == Some(value),
        other != key ==> m.insert(key, value).get(other) == m.get(other),
        m.remove(key).get(key) is None,
        other != key ==> m.remove(key).get(other) == m.get(other),
{
}

/// After the settings with a prefix are deleted none of them is left, and the others are.
pub proof fn law_prefix_deleted(
    m: Map<Seq<char>, Seq<char>>,
    prefix: Seq<char>,
    key: Seq<char>,
)
    ensures
        scan::starts(key, prefix) ==> without_prefix(m, prefix).get(key) is None,
        !scan::starts(key, prefix) ==> without_prefix(m, prefix).get(key) == m.get(key),
{
}

proof fn lemma_map_push(entries: Seq<(String, String)>, e: (String, String))
    ensures
        map_of(entries.push(e)) == map_of(entries).insert(e.0@, e.1@),
{
    assert(entries.push(e).drop_last() =~= entries);
}

proof fn lemma_names_finite(entries: Seq<(String, String)>, prefix: Seq<char>)
    ensures
        named_with(map_of(entries), prefix).finite(),
    decreases entries.len(),
{
    if entries.len() == 0 {
        assert(named_with(map_of(entries), prefix) =~= Set::<Seq<char>>::empty());
    } else {
        lemma_names_finite(entries.drop_last(), prefix);
        let k = entries.last().0@;
        let before = named_with(map_of(entries.drop_last()), prefix);
        if scan::starts(k, prefix) {
            assert(named_with(map_of(entries), prefix) =~= before.insert(k));
        } else {
            assert(named_with(map_of(entries), prefix) =~= before);
        }
    }
}

impl Settings {
    pub fn new() -> (r: Settings)
        ensures
            r@ == Map::<Seq<char>, Seq<char>>::empty(),
    {
        Settings { entries: Vec::new() }
    }

    pub fn get_setting(&self, key: &str) -> (r: Option<&String>)
        ensures
            match r {
                Some(value) => self@.get(key@) == Some(value@),
                None => self@.get(key@) is None,
            },
    {
        let n: usize = self.entries.len();
        let mut i: usize = n;
        proof {
            assert(self.entries@.take(n as int) =~= self.entries@);
        }
        while i > 0
            invariant
                i <= n,
                n == self.entries@.len(),
                self@.get(key@) == map_of(self.entries@.take(i as int)).get(key@),
            decreases i,
        {
            proof {
                assert(self.entries@.take(i as int).drop_last() =~= self.entries@.take(i - 1));
            }
            if text::same(self.entries[i - 1].0.as_str(), key) {
                return Some(&self.entries[i - 1].1);
            }
            i = i - 1;
        }
        None
    }

    pub fn set_setting(&mut self, key: &str, value: &str)
        ensures
            final(self)@ == old(self)@.insert(key@, value@),
    {
        let entry = (key.to_owned(), value.to_owned());
        proof {
            lemma_map_push(self.entries@, entry);
        }
        self.entries.push(entry);
    }

    /// Deletes a setting; how many there were.
    pub fn delete_setting(&mut self, key: &str) -> (r: u64)
        ensures
            final(self)@ == old(self)@.remove(key@),
            r == if old(self)@.contains_key(key@) {
                1u64
            } else {
                0u64
            },
    {
        let ghost before = self.entries@;
        let n: usize = self.entries.len();
        let mut kept: Vec<(String, String)> = Vec::new();
        let mut found: bool = false;
        let mut i: usize = 0;
        proof {
            assert(before.take(0) =~= Seq::<(String, String)>::empty());
            assert(map_of(kept@) =~= map_of(before.take(0)).remove(key@));
        }
        while i < n
            invariant
                i <= n,
                n == self.entries@.len(),
                before == self.entries@,
                map_of(kept@) == map_of(before.take(i as int)).remove(key@),
                found == map_of(before.take(i as int)).contains_key(key@),
            decreases n - i,
        {
            proof {
                assert(before.take(i + 1).drop_last() =~= before.take(i as int));
            }
            let ghost upto = map_of(before.take(i as int));
            if text::same(self.entries[i].0.as_str(), key) {
                found = true;
                proof {
                    assert(upto.insert(key@, before[i as int].1@).remove(key@) =~= upto.remove(
                        key@,
                    ));
                }
            } else {
                let entry = (self.entries[i].0.clone(), self.entries[i].1.clone());
                proof {
                    lemma_map_push(kept@, entry);
                    assert(upto.insert(entry.0@, entry.1@).remove(key@) =~= upto.remove(
                        key@,
                    ).insert(entry.0@, entry.1@));
                }
                kept.push(entry);
            }
            i = i + 1;
        }
        proof {
            assert(before.take(n as int) =~= before);
        }
        self.entries = kept;
        if found {
            1
        } else {
            0
        }
    }

    /// Whether one of the first entries has this name.
    fn has_before(&self, end: usize, key: &str) -> (r: bool)
        requires
            end <= self.entries@.len(),
        ensures
            r == map_of(self.entries@.take(end as int)).contains_key(key@),
    {
        let mut i: usize = end;
        while i > 0
            invariant
                i <= end <= self.entries@.len(),
                map_of(self.entries@.take(end as int)).contains_key(key@) == map_of(
                    self.entries@.take(i as int),
                ).contains_key(key@),
            decreases i,
        {
            proof {
                assert(self.entries@.take(i as int).drop_last() =~= self.entries@.take(i - 1));
            }
            if text::same(self.entries[i - 1].0.as_str(), key) {
                return true;
            }
            i = i - 1;
        }
        false
    }

    /// Deletes the settings whose name begins with a prefix; how many there were.
    pub fn delete_settings_prefix(&mut self, prefix: &str) -> (r: u64)
        ensures
            final(self)@ == without_prefix(old(self)@, prefix@),
            r == named_with(old(self)@, prefix@).len(),
    {
        let ghost before = self.entries@;
        let n: usize = self.entries.len();
        let mut kept: Vec<(String, String)> = Vec::new();
        let mut gone: u64 = 0;
        let mut i: usize = 0;
        proof {
            assert(before.take(0) =~= Seq::<(String, String)>::empty());
            assert(map_of(kept@) =~= without_prefix(map_of(before.take(0)), prefix@));
            assert(named_with(map_of(before.take(0)), prefix@) =~= Set::<Seq<char>>::empty());
        }
        while i < n
            invariant
                i <= n,
                n == self.entries@.len(),
                before == self.entries@,
                gone <= i,
                gone == named_with(map_of(before.take(i as int)), prefix@).len(),
                map_of(kept@) == without_prefix(map_of(before.take(i as int)), prefix@),
            decreases n - i,
        {
            proof {
                assert(before.take(i + 1).drop_last() =~= before.take(i as int));
                lemma_names_finite(before.take(i as int), prefix@);
            }
            let ghost upto = map_of(before.take(i as int));
            let ghost next = map_of(before.take(i + 1));
            let ghost names = named_with(upto, prefix@);
            if scan::starts_with(self.entries[i].0.as_str(), prefix) {
                proof {
                    assert(without_prefix(next, prefix@) =~= without_prefix(upto, prefix@));
                    assert(named_with(next, prefix@) =~= names.insert(before[i as int].0@));
                }
                if !self.has_before(i, self.entries[i].0.as_str()) {
                    gone = gone + 1;
                }
            } else {
                let entry = (self.entries[i].0.clone(), self.entries[i].1.clone());
                proof {
                    lemma_map_push(kept@, entry);
                    assert(without_prefix(next, prefix@) =~= without_prefix(upto, prefix@).insert(
                        entry.0@,
                        entry.1@,
                    ));
                    assert(named_with(next, prefix@) =~= names);
                }
                kept.push(entry);
            }
            i = i + 1;
        }
        proof {
            assert(before.take(n as int) =~= before);
        }
        self.entries = kept;
        gone
    }
}

} // verus!
