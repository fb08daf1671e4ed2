//! Plugins and the commands that they answer.

use crate::failure;
use crate::failure::Failure;
use crate::text;
use vstd::prelude::*;

verus! {

/// A plugin: its name, and the names of the commands that it answers.
pub struct Plugin {
    pub name: String,
    pub commands: Vec<String>,
}

/// Which plugin answers which command. Plugins are counted in the order in which they came.
pub struct Router {
    pub names: Vec<String>,
    pub commands: Vec<(String, usize)>,
}

/// The names of the plugins, and for each command the number of its plugin.
#[verifier::ext_equal]
pub struct RouterModel {
    pub names: Seq<Seq<char>>,
    pub commands: Map<Seq<char>, nat>,
}

pub open spec fn command_map(entries: Seq<(String, usize)>) -> Map<Seq<char>, nat>
    decreases entries.len(),
{
    if entries.len() == 0 {
        Map::empty()
    } else {
        command_map(entries.drop_last()).insert(entries.last().0@, entries.last().1 as nat)
    }
}

impl View for Router {
    type V = RouterModel;

    open spec fn view(&self) -> RouterModel {
        RouterModel { names: text::texts(self.names@), commands: command_map(self.commands@) }
    }
}

impl RouterModel {
    /// Whether each command leads to a plugin.
    pub open spec fn sound(self) -> bool {
        forall|c: Seq<char>| #[trigger]
            self.commands.contains_key(c) ==> self.commands[c] < self.names.len()
    }
}

/// Commands with those of a plugin added one after the other, up to the first that was there before;
/// and that one, with the plugin that had it.
pub open spec fn entered(m: Map<Seq<char>, nat>, commands: Seq<Seq<char>>, plugin: nat) -> (
    Map<Seq<char>, nat>,
    Option<(Seq<char>, nat)>,
)
    decreases commands.len(),
{
    if commands.len() == 0 {
        (m, None)
    } else if m.contains_key(commands[0]) {
        (m.insert(commands[0], plugin), Some((commands[0], m[commands[0]])))
    } else {
        entered(m.insert(commands[0], plugin), commands.skip(1), plugin)
    }
}

pub open spec fn conflict_text(command: Seq<char>, one: Seq<char>, other: Seq<char>) -> Seq<char> {
    "command "@ + command + " is registered by both "@ + one + " and "@ + other
}

/// A router with one more plugin, and what is said of it.
pub open spec fn registered(r: RouterModel, name: Seq<char>, commands: Seq<Seq<char>>) -> (
    RouterModel,
    Result<(), Seq<char>>,
) {
    let names = r.names.push(name);
    let (map, conflict) = entered(r.commands, commands, r.names.len());
    (
        RouterModel { names, commands: map },
        match conflict {
            Some((command, holder)) => Err(
                conflict_text(command, names[holder as int], name),
            ),
            None => Ok(()),
        },
    )
}

/// A plugin is accepted exactly if none of its commands has a plugin already and none is named twice.
/// It then answers its commands, and every other command is answered as before.
pub proof fn law_register(r: RouterModel, name: Seq<char>, commands: Seq<Seq<char>>, c: Seq<char>)
    ensures
        registered(r, name, commands).1 is Ok <==> commands.no_duplicates() && forall|i: int|
            0 <= i < commands.len() ==> !r.commands.contains_key(#[trigger] commands[i]),
        registered(r, name, commands).1 is Ok ==> registered(r, name, commands).0.commands.get(c)
            == if commands.contains(c) {
            Some(r.names.len())
        } else {
            r.commands.get(c)
        },
{
    lemma_entered(r.commands, commands, r.names.len(), c);
}

proof fn lemma_entered(m: Map<Seq<char>, nat>, commands: Seq<Seq<char>>, k: nat, c: Seq<char>)
    ensures
        entered(m, commands, k).1 is None <==> commands.no_duplicates() && forall|i: int|
            0 <= i < commands.len() ==> !m.contains_key(#[trigger] commands[i]),
        entered(m, commands, k).1 is None ==> entered(m, commands, k).0.get(c)
            == if commands.contains(c) {
            Some(k)
        } else {
            m.get(c)
        },
    decreases commands.len(),
{
    if commands.len() > 0 && !m.contains_key(commands[0]) {
        let rest = commands.skip(1);
        let next = m.insert(commands[0], k);
        lemma_entered(next, rest, k, c);
        if commands.no_duplicates() && (forall|i: int|
            0 <= i < commands.len() ==> !m.contains_key(#[trigger] commands[i])) {
            assert forall|i: int| 0 <= i < rest.len() implies !next.contains_key(
                #[trigger] rest[i],
            ) by {
                assert(rest[i] == commands[i + 1]);
            }
            assert forall|i: int, j: int| 0 <= i < j < rest.len() implies rest[i] != rest[j] by {
                assert(rest[i] == commands[i + 1] && rest[j] == commands[j + 1]);
            }
            assert(rest.no_duplicates());
        }
        if entered(next, rest, k).1 is None {
            assert forall|i: int| 0 <= i < commands.len() implies !m.contains_key(
                #[trigger] commands[i],
            ) by {
                if i > 0 {
                    assert(rest[i - 1] == commands[i]);
                }
            }
            assert forall|i: int, j: int|
                0 <= i < commands.len() && 0 <= j < commands.len() && i != j implies commands[i]
                != commands[j] by {
                if i > 0 && j > 0 {
                    assert(rest[i - 1] == commands[i] && rest[j - 1] == commands[j]);
                } else if i > 0 {
                    assert(rest[i - 1] == commands[i]);
                } else {
                    assert(rest[j - 1] == commands[j]);
                }
            }
            if commands.contains(c) && c != commands[0] {
                let i = choose|i: int| 0 <= i < commands.len() && commands[i] == c;
                assert(rest[i - 1] == c);
            }
            if rest.contains(c) {
                let i = choose|i: int| 0 <= i < rest.len() && rest[i] == c;
                assert(commands[i + 1] == c);
            }
        }
    }
}

/// Registering a plugin, accepted or not, keeps every command leading to a plugin.
pub proof fn law_register_keeps_soundness(
    r: RouterModel,
    name: Seq<char>,
    commands: Seq<Seq<char>>,
)
    requires
        r.sound(),
    ensures
        registered(r, name, commands).0.sound(),
{
    lemma_entered_sound(r.commands, commands, r.names.len());
}

proof fn lemma_entered_sound(m: Map<Seq<char>, nat>, commands: Seq<Seq<char>>, k: nat)
    requires
        forall|c: Seq<char>| #[trigger] m.contains_key(c) ==> m[c] <= k,
    ensures
        forall|c: Seq<char>| #[trigger]
            entered(m, commands, k).0.contains_key(c) ==> entered(m, commands, k).0[c] <= k,
        entered(m, commands, k).1 matches Some(p) ==> p.1 <= k,
    decreases commands.len(),
{
    if commands.len() > 0 && !m.contains_key(commands[0]) {
        lemma_entered_sound(m.insert(commands[0], k), commands.skip(1), k);
    }
}

// ---------------------------------------------------------------------------------------------
// The order of names
// ---------------------------------------------------------------------------------------------

/// Whether a text stands before another in the order of their characters.
pub open spec fn before(a: Seq<char>, b: Seq<char>) -> bool
    decreases a.len(),
{
    if b.len() == 0 {
        false
    } else if a.len() == 0 {
        true
    } else if a[0] != b[0] {
        a[0] < b[0]
    } else {
        before(a.skip(1), b.skip(1))
    }
}

/// Whether texts stand in order, none twice.
pub open spec fn in_order(v: Seq<Seq<char>>) -> bool {
    forall|i: int, j: int| 0 <= i < j < v.len() ==> before(#[trigger] v[i], #[trigger] v[j])
}

proof fn lemma_before_transitive(a: Seq<char>, b: Seq<char>, c: Seq<char>)
    requires
        before(a, b),
        before(b, c),
    ensures
        before(a, c),
    decreases a.len(),
{
    if a.len() > 0 && a[0] == b[0] && b[0] == c[0] {
        lemma_before_transitive(a.skip(1), b.skip(1), c.skip(1));
    }
}

proof fn lemma_before_total(a: Seq<char>, b: Seq<char>)
    ensures
        a != b ==> before(a, b) || before(b, a),
        !(before(a, b) && before(b, a)),
        before(a, b) ==> a != b,
    decreases a.len(),
{
    if a.len() == 0 || b.len() == 0 {
        assert(a.len() == 0 && b.len() == 0 ==> a =~= b);
    } else if a[0] == b[0] {
        lemma_before_total(a.skip(1), b.skip(1));
        if a.skip(1) == b.skip(1) {
            assert forall|i: int| 0 <= i < a.len() implies a[i] == b[i] by {
                if i > 0 {
                    assert(a.skip(1)[i - 1] == b.skip(1)[i - 1]);
                }
            }
            assert(a.skip(1).len() == b.skip(1).len());
            assert(a =~= b);
        }
    }
}

fn stands_before(a: &str, b: &str) -> (r: bool)
    ensures
        r == before(a@, b@),
{
    let x = text::chars(a);
    let y = text::chars(b);
    let mut i: usize = 0;
    proof {
        assert(x@.skip(0) =~= x@);
        assert(y@.skip(0) =~= y@);
    }
    while i < x.len() && i < y.len()
        invariant
            i <= x@.len(),
            i <= y@.len(),
            x@ == a@,
            y@ == b@,
            before(a@, b@) == before(x@.skip(i as int), y@.skip(i as int)),
        decreases x@.len() - i,
    {
        proof {
            assert(x@.skip(i as int).skip(1) =~= x@.skip(i + 1));
            assert(y@.skip(i as int).skip(1) =~= y@.skip(i + 1));
        }
        if x[i] != y[i] {
            return x[i] < y[i];
        }
        i = i + 1;
    }
    i < y.len()
}

// ---------------------------------------------------------------------------------------------
// The router
// ---------------------------------------------------------------------------------------------

proof fn lemma_command_push(entries: Seq<(String, usize)>, e: (String, usize))
    ensures
        command_map(entries.push(e)) == command_map(entries).insert(e.0@, e.1 as nat),
{
    assert(entries.push(e).drop_last() =~= entries);
}

proof fn lemma_command_map(entries: Seq<(String, usize)>)
    ensures
        forall|i: int| 0 <= i < entries.len() ==> command_map(entries).contains_key(
            (#[trigger] entries[i]).0@,
        ),
        forall|c: Seq<char>| #[trigger]
            command_map(entries).contains_key(c) ==> exists|i: int|
                0 <= i < entries.len() && entries[i].0@ == c && entries[i].1
                    == command_map(entries)[c],
    decreases entries.len(),
{
    if entries.len() > 0 {
        let rest = entries.drop_last();
        lemma_command_map(rest);
        assert forall|i: int| 0 <= i < entries.len() implies command_map(entries).contains_key(
            (#[trigger] entries[i]).0@,
        ) by {
            if i < rest.len() {
                assert(entries[i] == rest[i]);
            }
        }
        assert forall|c: Seq<char>| #[trigger] command_map(entries).contains_key(c) implies exists|
            i: int,
        |
            0 <= i < entries.len() && entries[i].0@ == c && entries[i].1 == command_map(
                entries,
            )[c] by {
            let last = entries.len() - 1;
            if entries[last].0@ != c {
                assert(command_map(rest).contains_key(c));
                let j = choose|j: int|
                    0 <= j < rest.len() && rest[j].0@ == c && rest[j].1 == command_map(rest)[c];
                assert(entries[j] == rest[j]);
            }
        }
    }
}

impl Default for Router {
    fn default() -> (r: Router)
        ensures
            r@.names == Seq::<Seq<char>>::empty(),
            r@.commands == Map::<Seq<char>, nat>::empty(),
            r@.sound(),
    {
        let r = Router { names: Vec::new(), commands: Vec::new() };
        proof {
            assert(r@.names =~= Seq::<Seq<char>>::empty());
        }
        r
    }
}

impl Router {
    /// The plugin that answers a command, if there is one.
    pub fn plugin_for(&self, command: &str) -> (r: Option<usize>)
        ensures
            match r {
                Some(k) => self@.commands.get(command@) == Some(k as nat),
                None => self@.commands.get(command@) is None,
            },
    {
        let n: usize = self.commands.len();
        let mut i: usize = n;
        proof {
            assert(self.commands@.take(n as int) =~= self.commands@);
        }
        while i > 0
            invariant
                i <= n,
                n == self.commands@.len(),
                self@.commands.get(command@) == command_map(self.commands@.take(i as int)).get(
                    command@,
                ),
            decreases i,
        {
            proof {
                assert(self.commands@.take(i as int).drop_last() =~= self.commands@.take(i - 1));
            }
            if text::same(self.commands[i - 1].0.as_str(), command) {
                return Some(self.commands[i - 1].1);
            }
            i = i - 1;
        }
        None
    }

    /// Adds a plugin. Where a command of it has a plugin already, the rest of its commands are left
    /// out.
    pub fn register(&mut self, plugin: &Plugin) -> (r: Result<(), Failure>)
        requires
            old(self)@.sound(),
        ensures
            final(self)@.sound(),
            (final(self)@, failure::outcome(r)) == registered(
                old(self)@,
                plugin.name@,
                text::texts(plugin.commands@),
            ),
    {
        let ghost before = self@;
        let ghost all = text::texts(plugin.commands@);
        let k: usize = self.names.len();
        proof {
            law_register_keeps_soundness(before, plugin.name@, all);
            lemma_entered_sound(before.commands, all, k as nat);
            assert(all.skip(0) =~= all);
        }
        self.names.push(plugin.name.clone());
        proof {
            assert(text::texts(self.names@) =~= before.names.push(plugin.name@));
        }
        let n: usize = plugin.commands.len();
        let mut i: usize = 0;
        while i < n
            invariant
                i <= n,
                n == plugin.commands@.len(),
                all == text::texts(plugin.commands@),
                before == old(self)@,
                k == before.names.len(),
                self@.names == before.names.push(plugin.name@),
                entered(before.commands, all, k as nat) == entered(
                    self@.commands,
                    all.skip(i as int),
                    k as nat,
                ),
                entered(before.commands, all, k as nat).1 matches Some(p) ==> p.1 <= k,
                (RouterModel {
                    names: before.names.push(plugin.name@),
                    commands: entered(before.commands, all, k as nat).0,
                }).sound(),
            decreases n - i,
        {
            proof {
                assert(all.skip(i as int)[0] == plugin.commands@[i as int]@);
                assert(all.skip(i as int).skip(1) =~= all.skip(i + 1));
            }
            let command = plugin.commands[i].as_str();
            let holder = self.plugin_for(command);
            let entry = (command.to_owned(), k);
            proof {
                lemma_command_push(self.commands@, entry);
            }
            self.commands.push(entry);
            if let Some(h) = holder {
                proof {
                    assert(self@.names[h as int] == self.names@[h as int]@);
                }
                let mut message = "command ".to_owned();
                message.append(command);
                message.append(" is registered by both ");
                message.append(self.names[h].as_str());
                message.append(" and ");
                message.append(plugin.name.as_str());
                return Err(Failure::of(message));
            }
            i = i + 1;
        }
        Ok(())
    }

    /// The names of the commands that have a plugin, in order.
    pub fn registered_commands(&self) -> (r: Vec<String>)
        ensures
            in_order(text::texts(r@)),
            forall|c: Seq<char>|
                #![trigger text::texts(r@).contains(c)]
                #![trigger self@.commands.contains_key(c)]
                text::texts(r@).contains(c) == self@.commands.contains_key(c),
    {
        let n: usize = self.commands.len();
        let mut out: Vec<String> = Vec::new();
        let mut i: usize = 0;
        while i < n
            invariant
                i <= n,
                n == self.commands@.len(),
                in_order(text::texts(out@)),
                forall|j: int|
                    0 <= j < i ==> text::texts(out@).contains(
                        (#[trigger] self.commands@[j]).0@,
                    ),
                forall|j: int|
                    0 <= j < out@.len() ==> exists|k: int|
                        0 <= k < i && self.commands@[k].0@ == (#[trigger] text::texts(out@)[j]),
            decreases n - i,
        {
            let ghost earlier = text::texts(out@);
            insert_name(&mut out, self.commands[i].0.as_str());
            proof {
                let now = text::texts(out@);
                assert forall|j: int| 0 <= j < i + 1 implies now.contains(
                    (#[trigger] self.commands@[j]).0@,
                ) by {
                    if j < i {
                        assert(earlier.contains(self.commands@[j].0@));
                    }
                }
                assert forall|j: int| 0 <= j < out@.len() implies exists|k: int|
                    0 <= k < i + 1 && self.commands@[k].0@ == (#[trigger] now[j]) by {
                    assert(now.contains(now[j]));
                    if now[j] != self.commands@[i as int].0@ {
                        assert(earlier.contains(now[j]));
                        let e = choose|e: int| 0 <= e < earlier.len() && earlier[e] == now[j];
                        let k = choose|k: int| 0 <= k < i && self.commands@[k].0@ == earlier[e];
                        assert(self.commands@[k].0@ == now[j]);
                    }
                }
            }
            i = i + 1;
        }
        proof {
            lemma_command_map(self.commands@);
            assert forall|c: Seq<char>| text::texts(out@).contains(c)
                == self@.commands.contains_key(c) by {
                if text::texts(out@).contains(c) {
                    let j = choose|j: int|
                        0 <= j < text::texts(out@).len() && text::texts(out@)[j] == c;
                    let k = choose|k: int|
                        0 <= k < n && self.commands@[k].0@ == text::texts(out@)[j];
                    assert(command_map(self.commands@).contains_key(self.commands@[k].0@));
                }
            }
        }
        out
    }
}

/// Puts a name in its place among others, unless it is there.
fn insert_name(names: &mut Vec<String>, name: &str)
    requires
        in_order(text::texts(old(names)@)),
    ensures
        in_order(text::texts(final(names)@)),
        forall|c: Seq<char>| #[trigger]
            text::texts(final(names)@).contains(c) <==> text::texts(old(names)@).contains(c) || c
                == name@,
{
    let ghost earlier = text::texts(names@);
    let m: usize = names.len();
    let mut at: usize = 0;
    while at < m && stands_before(names[at].as_str(), name)
        invariant
            at <= m,
            m == names@.len(),
            earlier == text::texts(names@),
            forall|j: int| 0 <= j < at ==> before(#[trigger] earlier[j], name@),
        decreases m - at,
    {
        at = at + 1;
    }
    if at < m && text::same(names[at].as_str(), name) {
        proof {
            assert(earlier[at as int] == name@);
        }
        return ;
    }
    names.insert(at, name.to_owned());
    proof {
        let now = text::texts(names@);
        assert(now =~= earlier.insert(at as int, name@));
        if at < m {
            lemma_before_total(earlier[at as int], name@);
        }
        assert forall|j: int| at <= j < m implies before(name@, #[trigger] earlier[j]) by {
            if j > at {
                lemma_before_transitive(name@, earlier[at as int], earlier[j]);
            }
        }
        assert forall|i: int, j: int| 0 <= i < j < now.len() implies before(
            #[trigger] now[i],
            #[trigger] now[j],
        ) by {
            let a = if i < at {
                i
            } else {
                i - 1
            };
            let b = if j < at {
                j
            } else {
                j - 1
            };
            if i != at {
                assert(now[i] == earlier[a]);
            }
            if j != at {
                assert(now[j] == earlier[b]);
            }
        }
        assert forall|c: Seq<char>| #[trigger] now.contains(c) <==> earlier.contains(c) || c
            == name@ by {
            if earlier.contains(c) {
                let j = choose|j: int| 0 <= j < earlier.len() && earlier[j] == c;
                assert(now[if j < at {
                    j
                } else {
                    j + 1
                }] == c);
            }
            if c == name@ {
                assert(now[at as int] == c);
            }
            if now.contains(c) && c != name@ {
                let j = choose|j: int| 0 <= j < now.len() && now[j] == c;
                assert(earlier[if j < at {
                    j
                } else {
                    j - 1
                }] == c);
            }
        }
    }
}

// ---------------------------------------------------------------------------------------------
// The plugins there are
// ---------------------------------------------------------------------------------------------

fn with_one_command(name: &str, command: &str) -> (r: Plugin)
    ensures
        r.name@ == name@,
        text::texts(r.commands@) == seq![command@],
{
    let mut commands: Vec<String> = Vec::new();
    commands.push(command.to_owned());
    proof {
        assert(text::texts(commands@) =~= seq![command@]);
    }
    Plugin { name: name.to_owned(), commands }
}

/// The plugin that asks an AI service.
pub fn ai_plugin() -> (r: Plugin)
    ensures
        r.name@ == "ai"@,
        text::texts(r.commands@) == seq!["ai"@],
{
    with_one_command("ai", "ai")
}

/// The plugin that makes quotes.
pub fn quote_plugin() -> (r: Plugin)
    ensures
        r.name@ == "quote"@,
        text::texts(r.commands@) == seq!["q"@],
{
    with_one_command("quote", "q")
}

/// The commands of the plugins that are switched on.
pub open spec fn commands_in_force(ai: bool, quote: bool) -> Map<Seq<char>, nat> {
    let first = if ai {
        Map::empty().insert("ai"@, 0nat)
    } else {
        Map::empty()
    };
    if quote {
        first.insert(
            "q"@,
            if ai {
                1nat
            } else {
                0nat
            },
        )
    } else {
        first
    }
}

/// The router with the plugins that are switched on, the AI plugin first.
pub fn load_plugins(ai: bool, quote: bool) -> (r: Result<Router, Failure>)
    ensures
        match r {
            Ok(router) => router@.sound() && router@.commands == commands_in_force(ai, quote),
            Err(_) => false,
        },
{
    let mut router = Router::default();
    proof {
        reveal_with_fuel(entered, 2);
        reveal_strlit("ai");
        reveal_strlit("q");
        assert("ai"@.len() != "q"@.len());
    }
    if ai {
        if let Err(e) = router.register(&ai_plugin()) {
            return Err(e);
        }
    }
    if quote {
        if let Err(e) = router.register(&quote_plugin()) {
            return Err(e);
        }
    }
    proof {
        assert(router@.commands =~= commands_in_force(ai, quote));
    }
    Ok(router)
}

/// The commands of the plugins that are switched on, and no others, lead to them.
pub proof fn law_loaded_commands(ai: bool, quote: bool, c: Seq<char>)
    ensures
        ({
            let m = commands_in_force(ai, quote);
            &&& ai ==> m.get("ai"@) == Some(0nat)
            &&& !ai ==> m.get("ai"@) is None
            &&& quote && ai ==> m.get("q"@) == Some(1nat)
            &&& quote && !ai ==> m.get("q"@) == Some(0nat)
            &&& !quote ==> m.get("q"@) is None
            &&& c != "ai"@ && c != "q"@ ==> m.get(c) is None
        }),
{
    reveal_strlit("ai");
    reveal_strlit("q");
    assert("ai"@.len() != "q"@.len());
}

/// A plugin that is registered twice for one command is refused, with the names of both.
pub proof fn law_conflict(r: RouterModel, name: Seq<char>, command: Seq<char>)
    requires
        r.commands.contains_key(command),
        r.commands[command] < r.names.len(),
    ensures
        registered(r, name, seq![command]).1 == Err::<(), Seq<char>>(
            "command "@ + command + " is registered by both "@ + r.names[r.commands[command] as int]
                + " and "@ + name,
        ),
        registered(r, name, seq![command]).0.names == r.names.push(name),
{
    assert(seq![command][0] == command);
    let names = r.names.push(name);
    assert(names[r.commands[command] as int] == r.names[r.commands[command] as int]);
}

/// Commands are listed by their first characters in which they differ; a word comes before its extensions.
pub proof fn law_order(p: Seq<char>, a: char, b: char, x: Seq<char>, y: Seq<char>)
    ensures
        a < b ==> before(p.push(a) + x, p.push(b) + y) && !before(p.push(b) + y, p.push(a) + x),
        before(p, p.push(a)) && !before(p.push(a), p),
        !before(p, p),
    decreases p.len(),
{
    if p.len() == 0 {
        assert(p =~= Seq::<char>::empty());
        assert((p.push(a) + x)[0] == a);
        assert((p.push(b) + y)[0] == b);
    } else {
        law_order(p.skip(1), a, b, x, y);
        assert((p.push(a) + x).skip(1) =~= p.skip(1).push(a) + x);
        assert((p.push(b) + y).skip(1) =~= p.skip(1).push(b) + y);
        assert(p.push(a).skip(1) =~= p.skip(1).push(a));
    }
}

} // verus!
