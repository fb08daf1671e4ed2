//! What is kept between commands: the turns of conversations, and quotes that were made. The records
//! lie in a database; how many of them stay is decided here.

use vstd::prelude::*;

verus! {

/// One side of a turn of a conversation.
#[derive(Clone, Debug, PartialEq, Eq)]
pub struct AiHistoryEntry {
    pub role: String,
    pub content: String,
}

#[verifier::ext_equal]
pub struct EntryModel {
    pub role: Seq<char>,
    pub content: Seq<char>,
}

impl View for AiHistoryEntry {
    type V = EntryModel;

    open spec fn view(&self) -> EntryModel {
        EntryModel { role: self.role@, content: self.content@ }
    }
}

pub open spec fn entries_of(v: Seq<AiHistoryEntry>) -> Seq<EntryModel> {
    Seq::new(v.len(), |i: int| v[i]@)
}

/// A quote in the archive, without its media.
#[derive(Clone, Debug, PartialEq, Eq)]
pub struct QuoteHistorySummary {
    pub id: i64,
    pub output: String,
    pub preview: String,
    pub byte_len: usize,
    pub created_at: i64,
}

/// A quote in the archive.
#[derive(Clone, Debug, PartialEq, Eq)]
pub struct QuoteHistoryEntry {
    pub id: i64,
    pub output: String,
    pub preview: String,
    pub media: Vec<u8>,
    pub created_at: i64,
}

// ---------------------------------------------------------------------------------------------
// Conversations
// ---------------------------------------------------------------------------------------------

/// How many records of a conversation make up so many turns: two for each.
pub open spec fn turn_records(turns: nat) -> nat {
    if 2 * turns <= usize::MAX {
        2 * turns
    } else {
        usize::MAX as nat
    }
}

/// How many records of a conversation make up so many turns.
pub fn records_of_turns(turns: usize) -> (r: usize)
    ensures
        r == turn_records(turns as nat),
{
    if turns <= usize::MAX / 2 {
        turns * 2
    } else {
        usize::MAX
    }
}

/// A record in the table of all conversations.
pub struct RecordModel {
    pub id: i64,
    pub scope: Seq<char>,
    pub entry: EntryModel,
}

/// No two records share a number.
pub open spec fn numbered_apart(table: Seq<RecordModel>) -> bool {
    forall|i: int, j: int|
        0 <= i < j < table.len() ==> (#[trigger] table[i]).id != (#[trigger] table[j]).id
}

/// What was said in a conversation, the oldest first.
pub open spec fn history(table: Seq<RecordModel>, scope: Seq<char>) -> Seq<EntryModel>
    decreases table.len(),
{
    if table.len() == 0 {
        Seq::empty()
    } else if table.last().scope == scope {
        history(table.drop_last(), scope).push(table.last().entry)
    } else {
        history(table.drop_last(), scope)
    }
}

/// The numbers of the records of a conversation, the oldest first.
pub open spec fn ids_of(table: Seq<RecordModel>, scope: Seq<char>) -> Seq<i64>
    decreases table.len(),
{
    if table.len() == 0 {
        Seq::empty()
    } else if table.last().scope == scope {
        ids_of(table.drop_last(), scope).push(table.last().id)
    } else {
        ids_of(table.drop_last(), scope)
    }
}

/// The table without the records that have these numbers.
pub open spec fn without(table: Seq<RecordModel>, ids: Seq<i64>) -> Seq<RecordModel>
    decreases table.len(),
{
    if table.len() == 0 {
        Seq::empty()
    } else if ids.contains(table.last().id) {
        without(table.drop_last(), ids)
    } else {
        without(table.drop_last(), ids).push(table.last())
    }
}

/// The table with what was said in a conversation behind it, under the given numbers.
pub open spec fn with_entries(
    table: Seq<RecordModel>,
    scope: Seq<char>,
    entries: Seq<EntryModel>,
    ids: Seq<i64>,
) -> Seq<RecordModel> {
    table + Seq::new(
        entries.len(),
        |i: int| RecordModel { id: ids[i], scope, entry: entries[i] },
    )
}

/// What is done to the records of a conversation when a turn is over: these are put behind the others, and
/// then those with these numbers are taken away.
pub struct TurnPlan {
    pub added: Vec<AiHistoryEntry>,
    pub forgotten: Vec<i64>,
}

#[verifier::ext_equal]
pub struct TurnPlanModel {
    pub added: Seq<EntryModel>,
    pub forgotten: Seq<i64>,
}

impl View for TurnPlan {
    type V = TurnPlanModel;

    open spec fn view(&self) -> TurnPlanModel {
        TurnPlanModel { added: entries_of(self.added@), forgotten: self.forgotten@ }
    }
}

/// What was asked and what was answered.
pub open spec fn turn(user: Seq<char>, assistant: Seq<char>) -> Seq<EntryModel> {
    seq![
        EntryModel { role: "user"@, content: user },
        EntryModel { role: "assistant"@, content: assistant },
    ]
}

/// How many of so many records go when a turn is over, so that no more than so many turns stay.
pub open spec fn surplus(records: nat, max_turns: nat) -> nat {
    if records + 2 > 2 * max_turns {
        (records + 2 - 2 * max_turns) as nat
    } else {
        0
    }
}

/// What is done when a turn is over, given the numbers of the records of the conversation: as many turns
/// stay as are wanted. Where none are wanted, nothing is remembered, and nothing forgotten.
pub open spec fn planned_turn(
    ids: Seq<i64>,
    user: Seq<char>,
    assistant: Seq<char>,
    max_turns: nat,
) -> TurnPlanModel {
    if max_turns == 0 {
        TurnPlanModel { added: Seq::empty(), forgotten: Seq::empty() }
    } else {
        TurnPlanModel {
            added: turn(user, assistant),
            forgotten: ids.take(surplus(ids.len(), max_turns) as int),
        }
    }
}

/// The table after a turn of a conversation, which was entered under the given numbers.
pub open spec fn after_turn(
    table: Seq<RecordModel>,
    scope: Seq<char>,
    user: Seq<char>,
    assistant: Seq<char>,
    max_turns: nat,
    ids: Seq<i64>,
) -> Seq<RecordModel> {
    let plan = planned_turn(ids_of(table, scope), user, assistant, max_turns);
    without(with_entries(table, scope, plan.added, ids), plan.forgotten)
}

/// The last so many records, the oldest first.
pub open spec fn newest(records: Seq<EntryModel>, n: nat) -> Seq<EntryModel> {
    if records.len() <= n {
        records
    } else {
        records.skip(records.len() - n)
    }
}

/// Whether a conversation has a record with this number.
spec fn has_id(table: Seq<RecordModel>, scope: Seq<char>, id: i64) -> bool {
    exists|i: int| 0 <= i < table.len() && (#[trigger] table[i]).scope == scope && table[i].id == id
}

proof fn lemma_ids(table: Seq<RecordModel>, scope: Seq<char>)
    requires
        numbered_apart(table),
    ensures
        ids_of(table, scope).len() == history(table, scope).len(),
        ids_of(table, scope).no_duplicates(),
        forall|k: int|
            0 <= k < ids_of(table, scope).len() ==> has_id(
                table,
                scope,
                #[trigger] ids_of(table, scope)[k],
            ),
    decreases table.len(),
{
    if table.len() > 0 {
        let before = table.drop_last();
        let last = table.last();
        let ids = ids_of(before, scope);
        assert forall|i: int, j: int| 0 <= i < j < before.len() implies (#[trigger] before[i]).id != (
        #[trigger] before[j]).id by {
            assert(table[i].id != table[j].id);
        }
        lemma_ids(before, scope);
        let all = ids_of(table, scope);
        assert forall|k: int| 0 <= k < all.len() implies has_id(
            table,
            scope,
            #[trigger] all[k],
        ) by {
            if k < ids.len() {
                assert(has_id(before, scope, ids[k]));
                let i = choose|i: int|
                    0 <= i < before.len() && (#[trigger] before[i]).scope == scope && before[i].id
                        == ids[k];
                assert(table[i] == before[i]);
            } else {
                assert(table[table.len() - 1] == last);
            }
        }
        if last.scope == scope {
            assert forall|k: int| 0 <= k < ids.len() implies ids[k] != last.id by {
                assert(has_id(before, scope, ids[k]));
                let i = choose|i: int|
                    0 <= i < before.len() && (#[trigger] before[i]).scope == scope && before[i].id
                        == ids[k];
                assert(table[i].id != table[table.len() - 1].id);
            }
        }
    }
}

/// Taking records away leaves a conversation as it is that has none of them.
proof fn lemma_untouched(table: Seq<RecordModel>, ids: Seq<i64>, scope: Seq<char>)
    requires
        forall|i: int|
            0 <= i < table.len() && (#[trigger] table[i]).scope == scope ==> !ids.contains(
                table[i].id,
            ),
    ensures
        history(without(table, ids), scope) == history(table, scope),
    decreases table.len(),
{
    if table.len() > 0 {
        let before = table.drop_last();
        let last = table.last();
        assert(table[table.len() - 1] == last);
        assert forall|i: int|
            0 <= i < before.len() && (#[trigger] before[i]).scope == scope implies !ids.contains(
            before[i].id,
        ) by {
            assert(table[i] == before[i]);
        }
        lemma_untouched(before, ids, scope);
        if !ids.contains(last.id) {
            assert(without(table, ids).drop_last() =~= without(before, ids));
        }
    }
}

/// Taking the oldest records of a conversation away leaves the others.
proof fn lemma_oldest_gone(
    table: Seq<RecordModel>,
    scope: Seq<char>,
    all: Seq<i64>,
    n: nat,
)
    requires
        n <= all.len(),
        all.no_duplicates(),
        ids_of(table, scope).len() <= all.len(),
        ids_of(table, scope) == all.take(ids_of(table, scope).len() as int),
        history(table, scope).len() == ids_of(table, scope).len(),
    ensures
        history(without(table, all.take(n as int)), scope) == history(table, scope).skip(
            if n <= history(table, scope).len() {
                n as int
            } else {
                history(table, scope).len() as int
            },
        ),
    decreases table.len(),
{
    let gone = all.take(n as int);
    if table.len() > 0 {
        let before = table.drop_last();
        let last = table.last();
        let h = ids_of(before, scope).len();
        if last.scope == scope {
            assert(ids_of(table, scope).drop_last() =~= ids_of(before, scope));
            assert(ids_of(before, scope) =~= all.take(h as int));
            assert(ids_of(table, scope)[h as int] == last.id);
            assert(all[h as int] == last.id);
            if h < n {
                assert(gone[h as int] == last.id);
            } else if gone.contains(last.id) {
                let k = choose|k: int| 0 <= k < gone.len() && gone[k] == last.id;
                assert(all[k] == all[h as int]);
            }
        }
        lemma_oldest_gone(before, scope, all, n);
        if !gone.contains(last.id) {
            assert(without(table, gone).drop_last() =~= without(before, gone));
        }
        let m = if n <= history(table, scope).len() {
            n as int
        } else {
            history(table, scope).len() as int
        };
        assert(history(without(table, gone), scope) =~= history(table, scope).skip(m));
    } else {
        assert(history(table, scope).skip(0) =~= history(table, scope));
    }
}

proof fn lemma_entries_read(
    table: Seq<RecordModel>,
    scope: Seq<char>,
    entries: Seq<EntryModel>,
    ids: Seq<i64>,
    other: Seq<char>,
)
    requires
        entries.len() <= ids.len(),
    ensures
        history(with_entries(table, scope, entries, ids), scope) == history(table, scope) + entries,
        ids_of(with_entries(table, scope, entries, ids), scope) == ids_of(table, scope) + ids.take(
            entries.len() as int,
        ),
        other != scope ==> history(with_entries(table, scope, entries, ids), other) == history(
            table,
            other,
        ),
    decreases entries.len(),
{
    let all = with_entries(table, scope, entries, ids);
    if entries.len() == 0 {
        assert(all =~= table);
        assert(history(table, scope) + entries =~= history(table, scope));
        assert(ids_of(table, scope) + ids.take(0) =~= ids_of(table, scope));
    } else {
        lemma_entries_read(table, scope, entries.drop_last(), ids, other);
        assert(all.drop_last() =~= with_entries(table, scope, entries.drop_last(), ids));
        assert(all.last().scope == scope && all.last().entry == entries.last());
        assert(history(table, scope) + entries =~= (history(table, scope)
            + entries.drop_last()).push(entries.last()));
        let n = entries.len() as int;
        assert(ids_of(table, scope) + ids.take(n) =~= (ids_of(table, scope) + ids.take(n - 1)).push(
            ids[n - 1],
        ));
    }
}

/// When a turn is over, what is read back of the conversation is what was said last, in the order in
/// which it was said: the turn, and before it those that came before, as many as are kept. Every other
/// conversation is as it was. The turn is entered under numbers that no other record has.
pub proof fn law_turns_are_kept(
    table: Seq<RecordModel>,
    scope: Seq<char>,
    other: Seq<char>,
    user: Seq<char>,
    assistant: Seq<char>,
    max_turns: nat,
    ids: Seq<i64>,
)
    requires
        ids.len() == 2,
        numbered_apart(with_entries(table, scope, turn(user, assistant), ids)),
        0 < max_turns,
    ensures
        ({
            let after = after_turn(table, scope, user, assistant, max_turns, ids);
            &&& history(after, scope) == newest(
                history(table, scope) + turn(user, assistant),
                2 * max_turns,
            )
            &&& newest(history(after, scope), 2) == turn(user, assistant)
            &&& other != scope ==> history(after, other) == history(table, other)
        }),
{
    let entered = with_entries(table, scope, turn(user, assistant), ids);
    assert forall|i: int, j: int| 0 <= i < j < table.len() implies (#[trigger] table[i]).id != (
    #[trigger] table[j]).id by {
        assert(entered[i].id != entered[j].id);
    }
    let said = history(table, scope);
    let n = surplus(ids_of(table, scope).len(), max_turns);
    let all = ids_of(entered, scope);
    let gone = all.take(n as int);
    lemma_entries_read(table, scope, turn(user, assistant), ids, other);
    lemma_ids(table, scope);
    lemma_ids(entered, scope);
    assert(gone =~= ids_of(table, scope).take(n as int));
    assert(all.take(all.len() as int) =~= all);
    lemma_oldest_gone(entered, scope, all, n);
    let after = after_turn(table, scope, user, assistant, max_turns, ids);
    assert(history(after, scope) =~= newest(said + turn(user, assistant), 2 * max_turns));
    assert(newest(history(after, scope), 2) =~= turn(user, assistant));
    if other != scope {
        assert forall|i: int|
            0 <= i < entered.len() && (#[trigger] entered[i]).scope == other implies !gone.contains(
            entered[i].id,
        ) by {
            if gone.contains(entered[i].id) {
                let k = choose|k: int| 0 <= k < gone.len() && gone[k] == entered[i].id;
                assert(has_id(entered, scope, all[k]));
                let j = choose|j: int|
                    0 <= j < entered.len() && (#[trigger] entered[j]).scope == scope
                        && entered[j].id == all[k];
                assert(entered[i].id != entered[j].id);
            }
        }
        lemma_untouched(entered, gone, other);
    }
}

/// Where no turns are kept, every conversation stays as it is.
pub proof fn law_no_turn_is_kept(
    table: Seq<RecordModel>,
    scope: Seq<char>,
    user: Seq<char>,
    assistant: Seq<char>,
    ids: Seq<i64>,
    other: Seq<char>,
)
    ensures
        history(after_turn(table, scope, user, assistant, 0, ids), other) == history(table, other),
{
    assert(with_entries(table, scope, Seq::empty(), ids) =~= table);
    lemma_untouched(table, Seq::empty(), other);
}

/// What is done to the records of a conversation when a turn is over, given their numbers, the oldest first.
pub fn plan_turn(ids: &[i64], user: &str, assistant: &str, max_turns: usize) -> (r: TurnPlan)
    ensures
        r@ == planned_turn(ids@, user@, assistant@, max_turns as nat),
{
    let mut forgotten: Vec<i64> = Vec::new();
    let mut added: Vec<AiHistoryEntry> = Vec::new();
    if max_turns == 0 {
        let r = TurnPlan { added, forgotten };
        assert(r@ =~= planned_turn(ids@, user@, assistant@, 0));
        return r;
    }
    let kept: usize = records_of_turns(max_turns - 1);
    let n: usize = if ids.len() > kept {
        ids.len() - kept
    } else {
        0
    };
    let mut i: usize = 0;
    while i < n
        invariant
            i <= n <= ids@.len(),
            forgotten@ == ids@.take(i as int),
        decreases n - i,
    {
        forgotten.push(ids[i]);
        i = i + 1;
        assert(forgotten@ =~= ids@.take(i as int));
    }
    added.push(AiHistoryEntry { role: "user".to_owned(), content: user.to_owned() });
    added.push(AiHistoryEntry { role: "assistant".to_owned(), content: assistant.to_owned() });
    let r = TurnPlan { added, forgotten };
    assert(n == surplus(ids@.len(), max_turns as nat));
    assert(r@ =~= planned_turn(ids@, user@, assistant@, max_turns as nat));
    r
}

// ---------------------------------------------------------------------------------------------
// The archive of quotes
// ---------------------------------------------------------------------------------------------

pub open spec fn total(sizes: Seq<nat>) -> nat
    decreases sizes.len(),
{
    if sizes.len() == 0 {
        0
    } else {
        total(sizes.drop_last()) + sizes.last()
    }
}

/// How many of the oldest quotes go so that at most `max_items` stay and they take at most
/// `max_bytes`: as few as will do.
pub open spec fn forgotten(sizes: Seq<nat>, max_items: nat, max_bytes: nat) -> nat
    decreases sizes.len(),
{
    if sizes.len() == 0 || (sizes.len() <= max_items && total(sizes) <= max_bytes) {
        0
    } else {
        1 + forgotten(sizes.skip(1), max_items, max_bytes)
    }
}

pub open spec fn sizes_of(v: Seq<usize>) -> Seq<nat> {
    Seq::new(v.len(), |i: int| v[i] as nat)
}

/// The quotes that stay are the newest; they are no more than so many and take no more than so much;
/// and one more would be too many or take too much.
pub proof fn law_archive_limits(sizes: Seq<nat>, max_items: nat, max_bytes: nat)
    ensures
        forgotten(sizes, max_items, max_bytes) <= sizes.len(),
        ({
            let gone = forgotten(sizes, max_items, max_bytes) as int;
            let kept = sizes.skip(gone);
            &&& kept.len() <= max_items
            &&& total(kept) <= max_bytes
            &&& gone > 0 ==> (sizes.skip(gone - 1).len() > max_items || total(
                sizes.skip(gone - 1),
            ) > max_bytes)
        }),
    decreases sizes.len(),
{
    if sizes.len() == 0 || (sizes.len() <= max_items && total(sizes) <= max_bytes) {
        assert(sizes.skip(0) =~= sizes);
    } else {
        let rest = sizes.skip(1);
        law_archive_limits(rest, max_items, max_bytes);
        let gone = forgotten(rest, max_items, max_bytes) as int;
        assert(rest.skip(gone) =~= sizes.skip(gone + 1));
        if gone > 0 {
            assert(rest.skip(gone - 1) =~= sizes.skip(gone));
        } else {
            assert(sizes.skip(0) =~= sizes);
        }
    }
}

/// A quote that was just added stays exactly if quotes are kept at all and it takes no more than they
/// may.
pub proof fn law_new_quote_stays(sizes: Seq<nat>, size: nat, max_items: nat, max_bytes: nat)
    ensures
        forgotten(sizes.push(size), max_items, max_bytes) <= sizes.len() <==> (max_items >= 1 && size
            <= max_bytes),
    decreases sizes.len(),
{
    let all = sizes.push(size);
    assert(all.drop_last() =~= sizes);
    if !(all.len() <= max_items && total(all) <= max_bytes) {
        if sizes.len() == 0 {
            assert(total(sizes) == 0);
            assert(forgotten(all.skip(1), max_items, max_bytes) == 0);
        } else {
            assert(all.skip(1) =~= sizes.skip(1).push(size));
            law_new_quote_stays(sizes.skip(1), size, max_items, max_bytes);
        }
    }
}

proof fn lemma_total_first(sizes: Seq<nat>)
    requires
        sizes.len() > 0,
    ensures
        total(sizes) == sizes[0] + total(sizes.skip(1)),
    decreases sizes.len(),
{
    if sizes.len() == 1 {
        assert(sizes.drop_last() =~= Seq::<nat>::empty());
        assert(sizes.skip(1) =~= Seq::<nat>::empty());
    } else {
        lemma_total_first(sizes.drop_last());
        assert(sizes.drop_last().skip(1) =~= sizes.skip(1).drop_last());
        assert(sizes.skip(1).last() == sizes.last());
    }
}

proof fn lemma_total_bound(sizes: Seq<usize>)
    ensures
        total(sizes_of(sizes)) <= sizes.len() * usize::MAX,
    decreases sizes.len(),
{
    if sizes.len() > 0 {
        lemma_total_bound(sizes.drop_last());
        assert(sizes_of(sizes).drop_last() =~= sizes_of(sizes.drop_last()));
        assert((sizes.len() - 1) * usize::MAX + usize::MAX == sizes.len() * usize::MAX)
            by (nonlinear_arith);
    }
}

/// How many of the oldest quotes go. `sizes` are the sizes of all that are there, the oldest first.
pub fn quotes_to_forget(sizes: &[usize], max_items: usize, max_bytes: usize) -> (r: usize)
    ensures
        r == forgotten(sizes_of(sizes@), max_items as nat, max_bytes as nat),
{
    let ghost all = sizes_of(sizes@);
    let n: usize = sizes.len();
    let mut sum: u128 = 0;
    let mut i: usize = 0;
    proof {
        assert(all.take(0) =~= Seq::<nat>::empty());
    }
    while i < n
        invariant
            i <= n,
            n == sizes@.len(),
            all == sizes_of(sizes@),
            sum == total(all.take(i as int)),
        decreases n - i,
    {
        proof {
            assert(all.take(i + 1).drop_last() =~= all.take(i as int));
            lemma_total_bound(sizes@.take(i + 1));
            assert(sizes_of(sizes@.take(i + 1)) =~= all.take(i + 1));
            assert((i + 1) * usize::MAX <= u128::MAX) by (nonlinear_arith)
                requires
                    i + 1 <= usize::MAX,
                    usize::MAX <= 0xffff_ffff_ffff_ffff,
            ;
        }
        sum = sum + sizes[i] as u128;
        i = i + 1;
    }
    let mut gone: usize = 0;
    proof {
        assert(all.take(n as int) =~= all);
        assert(all.skip(0) =~= all);
    }
    while gone < n && (n - gone > max_items || sum > max_bytes as u128)
        invariant
            gone <= n,
            n == sizes@.len(),
            all == sizes_of(sizes@),
            sum == total(all.skip(gone as int)),
            forgotten(all, max_items as nat, max_bytes as nat) == gone + forgotten(
                all.skip(gone as int),
                max_items as nat,
                max_bytes as nat,
            ),
        decreases n - gone,
    {
        proof {
            lemma_total_first(all.skip(gone as int));
            assert(all.skip(gone as int)[0] == sizes@[gone as int]);
            assert(all.skip(gone as int).skip(1) =~= all.skip(gone + 1));
        }
        sum = sum - sizes[gone] as u128;
        gone = gone + 1;
    }
    gone
}

/// A turn is what was asked, said by the user, and what was answered, said by the assistant.
pub proof fn law_turn_roles(ids: Seq<i64>, user: Seq<char>, assistant: Seq<char>, max_turns: nat)
    ensures
        max_turns > 0 ==> planned_turn(ids, user, assistant, max_turns).added == seq![
            EntryModel { role: "user"@, content: user },
            EntryModel { role: "assistant"@, content: assistant },
        ],
        max_turns == 0 ==> planned_turn(ids, user, assistant, max_turns).added.len() == 0
            && planned_turn(ids, user, assistant, max_turns).forgotten.len() == 0,
        ids.len() + 2 <= 2 * max_turns ==> planned_turn(
            ids,
            user,
            assistant,
            max_turns,
        ).forgotten.len() == 0,
{
}

/// As many records are read as make up the turns: two for each.
pub proof fn law_turn_records(turns: nat)
    ensures
        2 * turns <= usize::MAX ==> turn_records(turns) == 2 * turns,
        turn_records(turns) <= usize::MAX,
{
}

/// The sizes of archived quotes add up.
pub proof fn law_total(sizes: Seq<nat>, size: nat)
    ensures
        total(Seq::empty()) == 0,
        total(sizes.push(size)) == total(sizes) + size,
{
    assert(sizes.push(size).drop_last() =~= sizes);
}

} // verus!
