//! What Telegram sends, and which of it is a command to carry out.

use crate::ai_runtime::AiProgressConfig;
use crate::ai_runtime::ProgressModel;
use crate::command;
use crate::command::Command;
use crate::command::CommandModel;
use crate::failure::Failure;
use crate::plugin::Router;
use crate::plugin::RouterModel;
use crate::scan;
use crate::text;
use vstd::prelude::*;

verus! {

// ---------------------------------------------------------------------------------------------
// Conversations
// ---------------------------------------------------------------------------------------------

/// The number of the conversation with a user: that of the user.
pub open spec fn user_dialog(id: i64) -> Option<i64> {
    if 1 <= id <= 0xff_ffff_ffff {
        Some(id)
    } else {
        None
    }
}

/// The number of a small group: its own, negated.
pub open spec fn chat_dialog(id: i64) -> Option<i64> {
    if 1 <= id <= 999_999_999_999 {
        Some((-id) as i64)
    } else {
        None
    }
}

/// `grammers_session::types::PeerId::user`, taken as a number by `bot_api_dialog_id`: there is a
/// conversation with each user whose number lies in the range that Telegram uses, and it has the
/// number of the user.
#[verifier::external_body]
fn user_peer(id: i64) -> (r: Option<i64>)
    ensures
        r == user_dialog(id),
{
    grammers_session::types::PeerId::user(id).and_then(|peer| peer.bot_api_dialog_id())
}

/// `grammers_session::types::PeerId::chat`, taken as a number by `bot_api_dialog_id`: there is a
/// conversation for each small group whose number lies in the range that Telegram uses, and it has that
/// number negated.
#[verifier::external_body]
fn chat_peer(id: i64) -> (r: Option<i64>)
    ensures
        r == chat_dialog(id),
{
    grammers_session::types::PeerId::chat(id).and_then(|peer| peer.bot_api_dialog_id())
}

// ---------------------------------------------------------------------------------------------
// What Telegram sends
// ---------------------------------------------------------------------------------------------

/// A message: the conversation that it stands in, who wrote it, and what.
pub struct RawMessage<S> {
    pub outgoing: bool,
    pub message_id: i32,
    pub date: i32,
    pub peer_id: i64,
    pub from_id: Option<i64>,
    pub text: S,
}

/// A message between two people, as it comes in short.
pub struct ShortMessage<S> {
    pub outgoing: bool,
    pub message_id: i32,
    pub date: i32,
    pub user_id: i64,
    pub text: S,
}

/// A message in a small group, as it comes in short.
pub struct ShortChatMessage<S> {
    pub outgoing: bool,
    pub message_id: i32,
    pub date: i32,
    pub chat_id: i64,
    pub from_id: i64,
    pub text: S,
}

/// Something new. A message may turn out to be empty, or a note of Telegram's own.
pub enum RawUpdate<S> {
    NewMessage(Option<RawMessage<S>>),
    NewChannelMessage(Option<RawMessage<S>>),
    Other,
}

/// What comes at once.
pub enum RawUpdates {
    ShortMessage(ShortMessage<String>),
    ShortChatMessage(ShortChatMessage<String>),
    Short(RawUpdate<String>),
    Combined(Vec<RawUpdate<String>>),
    Updates(Vec<RawUpdate<String>>),
    /// Nothing in which a command could stand.
    Nothing,
}

/// What comes at once, one after the other.
pub enum UpdatesModel {
    ShortMessage(ShortMessage<Seq<char>>),
    ShortChatMessage(ShortChatMessage<Seq<char>>),
    Updates(Seq<RawUpdate<Seq<char>>>),
}

impl View for RawMessage<String> {
    type V = RawMessage<Seq<char>>;

    open spec fn view(&self) -> RawMessage<Seq<char>> {
        RawMessage {
            outgoing: self.outgoing,
            message_id: self.message_id,
            date: self.date,
            peer_id: self.peer_id,
            from_id: self.from_id,
            text: self.text@,
        }
    }
}

impl View for RawUpdate<String> {
    type V = RawUpdate<Seq<char>>;

    open spec fn view(&self) -> RawUpdate<Seq<char>> {
        match *self {
            RawUpdate::NewMessage(Some(m)) => RawUpdate::NewMessage(Some(m@)),
            RawUpdate::NewMessage(None) => RawUpdate::NewMessage(None),
            RawUpdate::NewChannelMessage(Some(m)) => RawUpdate::NewChannelMessage(Some(m@)),
            RawUpdate::NewChannelMessage(None) => RawUpdate::NewChannelMessage(None),
            RawUpdate::Other => RawUpdate::Other,
        }
    }
}

pub open spec fn updates_of(v: Seq<RawUpdate<String>>) -> Seq<RawUpdate<Seq<char>>> {
    v.map_values(|u: RawUpdate<String>| u@)
}

impl View for RawUpdates {
    type V = UpdatesModel;

    open spec fn view(&self) -> UpdatesModel {
        match *self {
            RawUpdates::ShortMessage(m) => UpdatesModel::ShortMessage(
                ShortMessage {
                    outgoing: m.outgoing,
                    message_id: m.message_id,
                    date: m.date,
                    user_id: m.user_id,
                    text: m.text@,
                },
            ),
            RawUpdates::ShortChatMessage(m) => UpdatesModel::ShortChatMessage(
                ShortChatMessage {
                    outgoing: m.outgoing,
                    message_id: m.message_id,
                    date: m.date,
                    chat_id: m.chat_id,
                    from_id: m.from_id,
                    text: m.text@,
                },
            ),
            RawUpdates::Short(u) => UpdatesModel::Updates(Seq::empty().push(u@)),
            RawUpdates::Combined(v) => UpdatesModel::Updates(updates_of(v@)),
            RawUpdates::Updates(v) => UpdatesModel::Updates(updates_of(v@)),
            RawUpdates::Nothing => UpdatesModel::Updates(Seq::empty()),
        }
    }
}

// ---------------------------------------------------------------------------------------------
// Commands in it
// ---------------------------------------------------------------------------------------------

/// A command and where it stands.
#[derive(Debug)]
pub struct RawCommandCandidate {
    pub peer_id: i64,
    pub message_id: i32,
    pub date: i32,
    pub command: Command,
}

pub struct CandidateModel {
    pub peer_id: i64,
    pub message_id: i32,
    pub date: i32,
    pub command: CommandModel,
}

impl View for RawCommandCandidate {
    type V = CandidateModel;

    open spec fn view(&self) -> CandidateModel {
        CandidateModel {
            peer_id: self.peer_id,
            message_id: self.message_id,
            date: self.date,
            command: self.command@,
        }
    }
}

pub open spec fn candidates_of(v: Seq<RawCommandCandidate>) -> Seq<CandidateModel> {
    v.map_values(|c: RawCommandCandidate| c@)
}

pub open spec fn maybe(c: Option<RawCommandCandidate>) -> Option<CandidateModel> {
    match c {
        Some(c) => Some(c@),
        None => None,
    }
}

/// Whether a message is one's own: sent from here, written by oneself, or in one's own notes.
pub open spec fn is_own(outgoing: bool, self_sender: bool, saved_messages: bool) -> bool {
    outgoing || self_sender || saved_messages
}

pub open spec fn candidate(
    peer_id: i64,
    message_id: i32,
    date: i32,
    text: Seq<char>,
    own: bool,
    prefixes: Seq<Seq<char>>,
) -> Option<CandidateModel> {
    match command::parsed(text, prefixes) {
        Some(command) => if own {
            Some(CandidateModel { peer_id, message_id, date, command })
        } else {
            None
        },
        None => None,
    }
}

/// Whether a message is one's own, where one has the number `self_id`.
pub open spec fn own_message(m: RawMessage<Seq<char>>, self_id: i64) -> bool {
    is_own(m.outgoing, m.from_id == Some(self_id), m.peer_id == self_id)
}

/// The command in a message, if it holds one and is one's own.
pub open spec fn message_command(
    m: RawMessage<Seq<char>>,
    self_id: i64,
    prefixes: Seq<Seq<char>>,
) -> Option<CandidateModel> {
    candidate(m.peer_id, m.message_id, m.date, m.text, own_message(m, self_id), prefixes)
}

pub open spec fn update_message(u: RawUpdate<Seq<char>>) -> Option<RawMessage<Seq<char>>> {
    match u {
        RawUpdate::NewMessage(m) => m,
        RawUpdate::NewChannelMessage(m) => m,
        RawUpdate::Other => None,
    }
}

pub open spec fn update_command(
    u: RawUpdate<Seq<char>>,
    self_id: i64,
    prefixes: Seq<Seq<char>>,
) -> Option<CandidateModel> {
    match update_message(u) {
        Some(m) => message_command(m, self_id, prefixes),
        None => None,
    }
}

pub open spec fn one(c: Option<CandidateModel>) -> Seq<CandidateModel> {
    match c {
        Some(c) => Seq::empty().push(c),
        None => Seq::empty(),
    }
}

pub open spec fn commands_in(
    updates: Seq<RawUpdate<Seq<char>>>,
    self_id: i64,
    prefixes: Seq<Seq<char>>,
) -> Seq<CandidateModel>
    decreases updates.len(),
{
    if updates.len() == 0 {
        Seq::empty()
    } else {
        let rest = commands_in(updates.drop_last(), self_id, prefixes);
        match update_command(updates.last(), self_id, prefixes) {
            Some(c) => rest.push(c),
            None => rest,
        }
    }
}

/// The message that a short one stands for, if its conversation and its writer can be told.
pub open spec fn long_message(u: UpdatesModel) -> Option<RawMessage<Seq<char>>> {
    match u {
        UpdatesModel::ShortMessage(m) => match user_dialog(m.user_id) {
            Some(peer) => Some(
                RawMessage {
                    outgoing: m.outgoing,
                    message_id: m.message_id,
                    date: m.date,
                    peer_id: peer,
                    from_id: Some(peer),
                    text: m.text,
                },
            ),
            None => None,
        },
        UpdatesModel::ShortChatMessage(m) => match (
            chat_dialog(m.chat_id),
            user_dialog(m.from_id),
        ) {
            (Some(peer), Some(sender)) => Some(
                RawMessage {
                    outgoing: m.outgoing,
                    message_id: m.message_id,
                    date: m.date,
                    peer_id: peer,
                    from_id: Some(sender),
                    text: m.text,
                },
            ),
            _ => None,
        },
        UpdatesModel::Updates(_) => None,
    }
}

/// The commands in what came at once, in its order.
pub open spec fn candidates(u: UpdatesModel, self_id: i64, prefixes: Seq<Seq<char>>) -> Seq<
    CandidateModel,
> {
    match u {
        UpdatesModel::Updates(updates) => commands_in(updates, self_id, prefixes),
        UpdatesModel::ShortMessage(m) => match long_message(u) {
            Some(l) => one(message_command(l, self_id, prefixes)),
            None => Seq::empty(),
        },
        // In a group one's own number is no conversation.
        UpdatesModel::ShortChatMessage(m) => match long_message(u) {
            Some(l) => one(
                candidate(
                    l.peer_id,
                    l.message_id,
                    l.date,
                    l.text,
                    is_own(l.outgoing, l.from_id == Some(self_id), false),
                    prefixes,
                ),
            ),
            None => Seq::empty(),
        },
    }
}

pub open spec fn messages_in(u: UpdatesModel) -> Seq<RawMessage<Seq<char>>> {
    match u {
        UpdatesModel::Updates(updates) => update_messages(updates),
        _ => match long_message(u) {
            Some(m) => Seq::empty().push(m),
            None => Seq::empty(),
        },
    }
}

pub open spec fn update_messages(updates: Seq<RawUpdate<Seq<char>>>) -> Seq<RawMessage<Seq<char>>>
    decreases updates.len(),
{
    if updates.len() == 0 {
        Seq::empty()
    } else {
        let rest = update_messages(updates.drop_last());
        match update_message(updates.last()) {
            Some(m) => rest.push(m),
            None => rest,
        }
    }
}

/// Nothing is carried out for others: each command that is found stands in a message of one's own, in
/// that conversation and under that number.
pub proof fn law_only_own_commands(
    u: UpdatesModel,
    self_id: i64,
    prefixes: Seq<Seq<char>>,
    c: CandidateModel,
)
    requires
        candidates(u, self_id, prefixes).contains(c),
    ensures
        exists|m: RawMessage<Seq<char>>| #[trigger]
            messages_in(u).contains(m) && own_message(m, self_id) && m.peer_id == c.peer_id
                && m.message_id == c.message_id && command::parsed(m.text, prefixes) == Some(
                c.command,
            ),
{
    match u {
        UpdatesModel::Updates(updates) => {
            lemma_only_own(updates, self_id, prefixes, c);
        },
        _ => {
            if let Some(m) = long_message(u) {
                assert(messages_in(u)[0] == m);
                assert(messages_in(u).contains(m));
            }
        },
    }
}

proof fn lemma_only_own(
    updates: Seq<RawUpdate<Seq<char>>>,
    self_id: i64,
    prefixes: Seq<Seq<char>>,
    c: CandidateModel,
)
    requires
        commands_in(updates, self_id, prefixes).contains(c),
    ensures
        exists|m: RawMessage<Seq<char>>| #[trigger]
            update_messages(updates).contains(m) && own_message(m, self_id) && m.peer_id
                == c.peer_id && m.message_id == c.message_id && command::parsed(m.text, prefixes)
                == Some(c.command),
    decreases updates.len(),
{
    if updates.len() > 0 {
        let all = commands_in(updates, self_id, prefixes);
        let rest = commands_in(updates.drop_last(), self_id, prefixes);
        let messages = update_messages(updates);
        let earlier = update_messages(updates.drop_last());
        let i = choose|i: int| 0 <= i < all.len() && all[i] == c;
        if i < rest.len() {
            assert(rest[i] == c);
            lemma_only_own(updates.drop_last(), self_id, prefixes, c);
            let m = choose|m: RawMessage<Seq<char>>| #[trigger]
                earlier.contains(m) && own_message(m, self_id) && m.peer_id == c.peer_id
                    && m.message_id == c.message_id && command::parsed(m.text, prefixes) == Some(
                    c.command,
                );
            let j = choose|j: int| 0 <= j < earlier.len() && earlier[j] == m;
            assert(messages[j] == m);
            assert(messages.contains(m));
        } else {
            let m = update_message(updates.last())->Some_0;
            assert(messages[earlier.len() as int] == m);
            assert(messages.contains(m));
        }
    }
}

/// Whether a message is one's own.
pub fn command_belongs_to_self(outgoing: bool, self_sender: bool, saved_messages: bool) -> (r: bool)
    ensures
        r == is_own(outgoing, self_sender, saved_messages),
{
    outgoing || self_sender || saved_messages
}

pub fn raw_command_candidate(
    peer_id: i64,
    message_id: i32,
    date: i32,
    text: &str,
    belongs_to_self: bool,
    prefixes: &[String],
) -> (r: Option<RawCommandCandidate>)
    ensures
        maybe(r) == candidate(
            peer_id,
            message_id,
            date,
            text@,
            belongs_to_self,
            text::texts(prefixes@),
        ),
{
    if !belongs_to_self {
        return None;
    }
    match command::parse(text, prefixes) {
        Some(command) => Some(RawCommandCandidate { peer_id, message_id, date, command }),
        None => None,
    }
}

/// The command in a message, if it holds one and is one's own.
pub fn raw_command_from_message(
    message: &RawMessage<String>,
    self_id: i64,
    prefixes: &[String],
) -> (r: Option<RawCommandCandidate>)
    ensures
        maybe(r) == message_command(message@, self_id, text::texts(prefixes@)),
{
    let self_sender = match message.from_id {
        Some(id) => id == self_id,
        None => false,
    };
    raw_command_candidate(
        message.peer_id,
        message.message_id,
        message.date,
        message.text.as_str(),
        command_belongs_to_self(message.outgoing, self_sender, message.peer_id == self_id),
        prefixes,
    )
}

pub fn raw_command_from_update(
    update: &RawUpdate<String>,
    self_id: i64,
    prefixes: &[String],
) -> (r: Option<RawCommandCandidate>)
    ensures
        maybe(r) == update_command(update@, self_id, text::texts(prefixes@)),
{
    match update {
        RawUpdate::NewMessage(Some(m)) => raw_command_from_message(m, self_id, prefixes),
        RawUpdate::NewChannelMessage(Some(m)) => raw_command_from_message(m, self_id, prefixes),
        _ => None,
    }
}

fn just(c: Option<RawCommandCandidate>) -> (r: Vec<RawCommandCandidate>)
    ensures
        candidates_of(r@) == one(maybe(c)),
{
    let mut out: Vec<RawCommandCandidate> = Vec::new();
    let ghost model = one(maybe(c));
    if let Some(c) = c {
        out.push(c);
    }
    proof {
        assert(candidates_of(out@) =~= model);
    }
    out
}

fn from_updates(updates: &Vec<RawUpdate<String>>, self_id: i64, prefixes: &[String]) -> (r: Vec<
    RawCommandCandidate,
>)
    ensures
        candidates_of(r@) == commands_in(updates_of(updates@), self_id, text::texts(prefixes@)),
{
    let ghost all = updates_of(updates@);
    let n: usize = updates.len();
    let mut out: Vec<RawCommandCandidate> = Vec::new();
    let mut i: usize = 0;
    proof {
        assert(all.take(0) =~= Seq::<RawUpdate<Seq<char>>>::empty());
        assert(candidates_of(out@) =~= Seq::<CandidateModel>::empty());
    }
    while i < n
        invariant
            i <= n,
            n == updates@.len(),
            all == updates_of(updates@),
            candidates_of(out@) == commands_in(
                all.take(i as int),
                self_id,
                text::texts(prefixes@),
            ),
        decreases n - i,
    {
        proof {
            assert(all.take(i + 1).drop_last() =~= all.take(i as int));
        }
        if let Some(c) = raw_command_from_update(&updates[i], self_id, prefixes) {
            proof {
                assert(candidates_of(out@.push(c)) =~= candidates_of(out@).push(c@));
            }
            out.push(c);
        }
        i = i + 1;
    }
    proof {
        assert(all.take(n as int) =~= all);
    }
    out
}

/// The commands of one's own in what came at once.
pub fn raw_command_candidates(updates: &RawUpdates, self_id: i64, prefixes: &[String]) -> (r: Vec<
    RawCommandCandidate,
>)
    ensures
        candidates_of(r@) == candidates(updates@, self_id, text::texts(prefixes@)),
{
    match updates {
        RawUpdates::ShortMessage(m) => match user_peer(m.user_id) {
            Some(peer) => {
                just(
                    raw_command_candidate(
                        peer,
                        m.message_id,
                        m.date,
                        m.text.as_str(),
                        command_belongs_to_self(m.outgoing, peer == self_id, peer == self_id),
                        prefixes,
                    ),
                )
            },
            None => just(None),
        },
        RawUpdates::ShortChatMessage(m) => match (chat_peer(m.chat_id), user_peer(m.from_id)) {
            (Some(peer), Some(sender)) => just(
                raw_command_candidate(
                    peer,
                    m.message_id,
                    m.date,
                    m.text.as_str(),
                    command_belongs_to_self(m.outgoing, sender == self_id, false),
                    prefixes,
                ),
            ),
            _ => just(None),
        },
        RawUpdates::Short(u) => {
            proof {
                let all = Seq::empty().push(u@);
                assert(all.drop_last() =~= Seq::empty());
                assert(commands_in(all.drop_last(), self_id, text::texts(prefixes@)) =~= Seq::<
                    CandidateModel,
                >::empty());
            }
            just(raw_command_from_update(u, self_id, prefixes))
        },
        RawUpdates::Combined(v) => from_updates(v, self_id, prefixes),
        RawUpdates::Updates(v) => from_updates(v, self_id, prefixes),
        RawUpdates::Nothing => just(None),
    }
}

// ---------------------------------------------------------------------------------------------
// What is shown at once
// ---------------------------------------------------------------------------------------------

/// A word of what stands behind a command, in lower case; nothing if there are not so many.
pub open spec fn lowered_word(s: Seq<char>, i: int) -> Seq<char> {
    if i < scan::words(s).len() {
        scan::lowered(scan::words(s)[i])
    } else {
        Seq::empty()
    }
}

/// What is shown while a command is at work; nothing for one that is answered at once.
pub open spec fn progress_text(c: CommandModel, progress: ProgressModel) -> Option<Seq<char>> {
    let first = lowered_word(c.raw_args, 0);
    let second = lowered_word(c.raw_args, 1);
    if c.name == "ai"@ {
        if (first == "config"@ || first == "cfg"@) && second == "key"@ {
            Some("🔐 正在安全更新 AI 配置…"@)
        } else if first == "help"@ || first == "?"@ || first == "status"@ || first == "config"@
            || first == "cfg"@ || first == "context"@ || first == "ctx"@ || first == "reset"@
            || first == "clear"@ {
            None
        } else if first == "chat"@ || first == "c"@ {
            Some(progress.thinking)
        } else if first == "search"@ || first == "s"@ {
            Some(progress.searching)
        } else if progress.default_search {
            Some(progress.searching)
        } else {
            Some(progress.thinking)
        }
    } else if c.name == "q"@ {
        if first == "config"@ || first == "help"@ || first == "h"@ {
            None
        } else if first == "history"@ || first == "his"@ {
            Some("🗂️ 正在读取语录存档…"@)
        } else if first == "s"@ {
            Some("📦 正在保存到贴纸包…"@)
        } else {
            Some("🖼️ 正在生成语录贴纸…"@)
        }
    } else {
        None
    }
}

/// A command that sets the key is covered at once by a text that does not depend on the key.
pub proof fn law_key_is_covered(c: CommandModel, progress: ProgressModel)
    requires
        c.name == "ai"@,
        lowered_word(c.raw_args, 0) == "config"@ || lowered_word(c.raw_args, 0) == "cfg"@,
        lowered_word(c.raw_args, 1) == "key"@,
    ensures
        progress_text(c, progress) == Some("🔐 正在安全更新 AI 配置…"@),
{
}

fn lower_word(words: &Vec<String>, i: usize) -> (r: String)
    ensures
        r@ == if i < words@.len() {
            scan::lowered(words@[i as int]@)
        } else {
            Seq::empty()
        },
{
    if i < words.len() {
        scan::lower(words[i].as_str())
    } else {
        String::new()
    }
}

/// What is shown while a command is at work.
pub fn command_progress_text(command: &Command, progress: &AiProgressConfig) -> (r: Option<String>)
    ensures
        match (r, progress_text(command@, progress@)) {
            (Some(a), Some(b)) => a@ == b,
            (None, None) => true,
            _ => false,
        },
{
    let words = scan::split_words(command.raw_args.as_str());
    let first_word = lower_word(&words, 0);
    let second_word = lower_word(&words, 1);
    proof {
        let w = scan::words(command.raw_args@);
        assert(w == text::texts(words@));
        assert(first_word@ =~= lowered_word(command.raw_args@, 0));
        assert(second_word@ =~= lowered_word(command.raw_args@, 1));
    }
    let first = first_word.as_str();
    let second = second_word.as_str();
    if text::same(command.name.as_str(), "ai") {
        let config = text::same(first, "config") || text::same(first, "cfg");
        if config && text::same(second, "key") {
            Some("🔐 正在安全更新 AI 配置…".to_owned())
        } else if config || text::same(first, "help") || text::same(first, "?") || text::same(
            first,
            "status",
        ) || text::same(first, "context") || text::same(first, "ctx") || text::same(first, "reset")
            || text::same(first, "clear") {
            None
        } else if text::same(first, "chat") || text::same(first, "c") {
            Some(progress.thinking.clone())
        } else if text::same(first, "search") || text::same(first, "s") {
            Some(progress.searching.clone())
        } else if progress.default_search {
            Some(progress.searching.clone())
        } else {
            Some(progress.thinking.clone())
        }
    } else if text::same(command.name.as_str(), "q") {
        if text::same(first, "config") || text::same(first, "help") || text::same(first, "h") {
            None
        } else if text::same(first, "history") || text::same(first, "his") {
            Some("🗂️ 正在读取语录存档…".to_owned())
        } else if text::same(first, "s") {
            Some("📦 正在保存到贴纸包…".to_owned())
        } else {
            Some("🖼️ 正在生成语录贴纸…".to_owned())
        }
    } else {
        None
    }
}

/// What a person is told of an error: not more than the first 800 characters of it.
pub open spec fn shown_error(message: Seq<char>) -> Seq<char> {
    if message.len() > 800 {
        scan::first_chars(message, 800).push('…')
    } else {
        message
    }
}

pub fn user_facing_error(error: &Failure) -> (r: String)
    ensures
        r@ == shown_error(error@),
{
    let mut value = scan::take_chars(error.message.as_str(), 800);
    if text::char_len(error.message.as_str()) > 800 {
        value.push('…');
    }
    value
}

/// What is shown in place of a command that failed.
pub fn failure_reply(error: &Failure) -> (r: String)
    ensures
        r@ == "❌ "@ + shown_error(error@),
{
    let mut out = "❌ ".to_owned();
    out.append(user_facing_error(error).as_str());
    out
}

// ---------------------------------------------------------------------------------------------
// Each command once
// ---------------------------------------------------------------------------------------------

/// How long a command is remembered, in nanoseconds.
pub const DEDUP_TTL: u128 = 600_000_000_000;

/// A command that was started: its conversation, its number there, and when.
#[derive(Clone, Copy)]
pub struct StartedCommand {
    pub peer_id: i64,
    pub message_id: i32,
    pub at: u128,
}

/// The commands that were started of late, each once. Times are nanoseconds since some moment.
pub struct StartedCommands {
    pub entries: Vec<StartedCommand>,
}

impl StartedCommand {
    pub open spec fn key(self) -> (i64, i32) {
        (self.peer_id, self.message_id)
    }
}

pub open spec fn times_of(entries: Seq<StartedCommand>) -> Map<(i64, i32), u128>
    decreases entries.len(),
{
    if entries.len() == 0 {
        Map::empty()
    } else {
        times_of(entries.drop_last()).insert(entries.last().key(), entries.last().at)
    }
}

/// Whether no command stands in a list twice.
pub open spec fn each_once(entries: Seq<StartedCommand>) -> bool
    decreases entries.len(),
{
    entries.len() > 0 ==> {
        &&& each_once(entries.drop_last())
        &&& !times_of(entries.drop_last()).contains_key(entries.last().key())
    }
}

impl View for StartedCommands {
    type V = Map<(i64, i32), u128>;

    open spec fn view(&self) -> Map<(i64, i32), u128> {
        times_of(self.entries@)
    }
}

impl StartedCommands {
    pub open spec fn wf(&self) -> bool {
        each_once(self.entries@)
    }
}

/// Whether a time is too long ago to be remembered.
pub open spec fn expired(at: u128, now: u128) -> bool {
    now - at >= DEDUP_TTL
}

/// What is still remembered.
pub open spec fn still(m: Map<(i64, i32), u128>, now: u128) -> Map<(i64, i32), u128> {
    m.filter_keys(|k: (i64, i32)| !expired(m[k], now))
}

/// The commands that were started when one more comes, and whether that one is new.
pub open spec fn with_command(m: Map<(i64, i32), u128>, key: (i64, i32), now: u128) -> (
    Map<(i64, i32), u128>,
    bool,
) {
    (still(m, now).insert(key, now), !still(m, now).contains_key(key))
}

/// The commands that were started when some came one after the other.
pub open spec fn after_commands(
    m: Map<(i64, i32), u128>,
    came: Seq<((i64, i32), u128)>,
) -> Map<(i64, i32), u128>
    decreases came.len(),
{
    if came.len() == 0 {
        m
    } else {
        with_command(after_commands(m, came.drop_last()), came.last().0, came.last().1).0
    }
}

/// A command is carried out once: when it comes again within ten minutes it is not new, whatever came in
/// between.
pub proof fn law_each_command_once(
    m: Map<(i64, i32), u128>,
    key: (i64, i32),
    first: u128,
    between: Seq<((i64, i32), u128)>,
    again: u128,
)
    requires
        again - first < DEDUP_TTL,
        forall|i: int| 0 <= i < between.len() ==> first <= (#[trigger] between[i]).1 <= again,
    ensures
        !with_command(
            after_commands(with_command(m, key, first).0, between),
            key,
            again,
        ).1,
{
    lemma_remembered(with_command(m, key, first).0, key, first, between, again);
}

proof fn lemma_remembered(
    m: Map<(i64, i32), u128>,
    key: (i64, i32),
    first: u128,
    between: Seq<((i64, i32), u128)>,
    again: u128,
)
    requires
        again - first < DEDUP_TTL,
        forall|i: int| 0 <= i < between.len() ==> first <= (#[trigger] between[i]).1 <= again,
        m.contains_key(key),
        m[key] >= first,
    ensures
        after_commands(m, between).contains_key(key),
        after_commands(m, between)[key] >= first,
    decreases between.len(),
{
    if between.len() > 0 {
        let rest = between.drop_last();
        assert forall|i: int| 0 <= i < rest.len() implies first <= (#[trigger] rest[i]).1
            <= again by {
            assert(rest[i] == between[i]);
        }
        lemma_remembered(m, key, first, rest, again);
        assert(between[between.len() - 1] == between.last());
    }
}

/// Another command, or the same one after ten minutes of silence, is new.
pub proof fn law_other_commands_are_new(
    m: Map<(i64, i32), u128>,
    key: (i64, i32),
    first: u128,
    other: (i64, i32),
    now: u128,
)
    requires
        !m.contains_key(other),
    ensures
        other != key ==> with_command(with_command(m, key, first).0, other, now).1,
        now - first >= DEDUP_TTL ==> with_command(with_command(m, key, first).0, key, now).1,
{
}

proof fn lemma_times_push(entries: Seq<StartedCommand>, e: StartedCommand)
    ensures
        times_of(entries.push(e)) == times_of(entries).insert(e.key(), e.at),
        each_once(entries) && !times_of(entries).contains_key(e.key()) ==> each_once(
            entries.push(e),
        ),
{
    assert(entries.push(e).drop_last() =~= entries);
}

proof fn lemma_once_take(entries: Seq<StartedCommand>, i: int)
    requires
        each_once(entries),
        0 <= i <= entries.len(),
    ensures
        each_once(entries.take(i)),
    decreases entries.len(),
{
    if i == entries.len() {
        assert(entries.take(i) =~= entries);
    } else {
        lemma_once_take(entries.drop_last(), i);
        assert(entries.drop_last().take(i) =~= entries.take(i));
    }
}

impl StartedCommands {
    pub fn new() -> (r: StartedCommands)
        ensures
            r.wf(),
            r@ == Map::<(i64, i32), u128>::empty(),
    {
        StartedCommands { entries: Vec::new() }
    }

    /// Notes that a command comes now, and forgets what is too long ago; whether the command is new.
    pub fn remember_command(&mut self, peer_id: i64, message_id: i32, now: u128) -> (r: bool)
        requires
            old(self).wf(),
        ensures
            final(self).wf(),
            (final(self)@, r) == with_command(old(self)@, (peer_id, message_id), now),
    {
        let ghost key = (peer_id, message_id);
        let ghost earlier = self.entries@;
        let n: usize = self.entries.len();
        let mut kept: Vec<StartedCommand> = Vec::new();
        let mut found: bool = false;
        let mut i: usize = 0;
        proof {
            assert(earlier.take(0) =~= Seq::<StartedCommand>::empty());
            assert(times_of(kept@) =~= still(times_of(earlier.take(0)), now).remove(key));
        }
        while i < n
            invariant
                i <= n,
                n == self.entries@.len(),
                earlier == self.entries@,
                each_once(earlier),
                each_once(kept@),
                key == (peer_id, message_id),
                times_of(kept@) == still(times_of(earlier.take(i as int)), now).remove(key),
                found == still(times_of(earlier.take(i as int)), now).contains_key(key),
            decreases n - i,
        {
            let e: StartedCommand = self.entries[i];
            let ghost upto = times_of(earlier.take(i as int));
            let ghost next = times_of(earlier.take(i + 1));
            proof {
                lemma_once_take(earlier, i + 1);
                assert(earlier.take(i + 1).drop_last() =~= earlier.take(i as int));
                assert(next == upto.insert(e.key(), e.at));
                assert(!upto.contains_key(e.key()));
            }
            if now >= e.at && now - e.at >= DEDUP_TTL {
                proof {
                    assert(still(next, now) =~= still(upto, now));
                }
            } else if e.peer_id == peer_id && e.message_id == message_id {
                found = true;
                proof {
                    assert(still(next, now).remove(key) =~= still(upto, now).remove(key));
                    assert(still(next, now).contains_key(key));
                }
            } else {
                proof {
                    lemma_times_push(kept@, e);
                    assert(still(next, now).remove(key) =~= still(upto, now).remove(key).insert(
                        e.key(),
                        e.at,
                    ));
                    assert(still(next, now).contains_key(key) == still(upto, now).contains_key(
                        key,
                    ));
                }
                kept.push(e);
            }
            i = i + 1;
        }
        let e = StartedCommand { peer_id, message_id, at: now };
        proof {
            assert(earlier.take(n as int) =~= earlier);
            lemma_times_push(kept@, e);
            assert(still(times_of(earlier), now).remove(key).insert(key, now) =~= still(
                times_of(earlier),
                now,
            ).insert(key, now));
        }
        kept.push(e);
        self.entries = kept;
        !found
    }
}

/// What becomes of a command that comes: the plugin that is to carry it out, if there is one and the
/// command is new; and what is remembered.
pub open spec fn taken_on(
    router: RouterModel,
    started: Map<(i64, i32), u128>,
    name: Seq<char>,
    key: (i64, i32),
    now: u128,
) -> (Map<(i64, i32), u128>, Option<nat>) {
    match router.commands.get(name) {
        Some(plugin) => {
            let (next, new) = with_command(started, key, now);
            (
                next,
                if new {
                    Some(plugin)
                } else {
                    None
                },
            )
        },
        None => (started, None),
    }
}

/// The plugin that is to carry out a command that comes now, as `taken_on` says.
pub fn plugin_to_run(
    router: &Router,
    started: &mut StartedCommands,
    name: &str,
    peer_id: i64,
    message_id: i32,
    now: u128,
) -> (r: Option<usize>)
    requires
        old(started).wf(),
    ensures
        final(started).wf(),
        ({
            let (next, plugin) = taken_on(
                router@,
                old(started)@,
                name@,
                (peer_id, message_id),
                now,
            );
            &&& final(started)@ == next
            &&& match (r, plugin) {
                (Some(a), Some(b)) => a == b,
                (None, None) => true,
                _ => false,
            }
        }),
{
    match router.plugin_for(name) {
        Some(plugin) => if started.remember_command(peer_id, message_id, now) {
            Some(plugin)
        } else {
            None
        },
        None => None,
    }
}

// ---------------------------------------------------------------------------------------------
// Laws of what is taken from updates and shown for it
// ---------------------------------------------------------------------------------------------

/// Each update with a message of one's own that holds a command gives that command, with the conversation,
/// the number and the time of the message, behind the commands before it; every other update gives nothing.
pub proof fn law_commands_found(
    updates: Seq<RawUpdate<Seq<char>>>,
    u: RawUpdate<Seq<char>>,
    self_id: i64,
    prefixes: Seq<Seq<char>>,
)
    ensures
        ({
            let before = candidates(UpdatesModel::Updates(updates), self_id, prefixes);
            let after = candidates(UpdatesModel::Updates(updates.push(u)), self_id, prefixes);
            let carried = match u {
                RawUpdate::NewMessage(m) => m,
                RawUpdate::NewChannelMessage(m) => m,
                RawUpdate::Other => None,
            };
            match carried {
                Some(m) => match command::parsed(m.text, prefixes) {
                    Some(command) => if m.outgoing || m.from_id == Some(self_id) || m.peer_id
                        == self_id {
                        after == before.push(
                            CandidateModel {
                                peer_id: m.peer_id,
                                message_id: m.message_id,
                                date: m.date,
                                command,
                            },
                        )
                    } else {
                        after == before
                    },
                    None => after == before,
                },
                None => after == before,
            }
        }),
        candidates(UpdatesModel::Updates(Seq::empty()), self_id, prefixes) == Seq::<
            CandidateModel,
        >::empty(),
{
    assert(updates.push(u).drop_last() =~= updates);
}

/// A short message stands in the conversation with its user. It is one's own if it goes out, or if that
/// user is oneself.
pub proof fn law_short_message(
    m: ShortMessage<Seq<char>>,
    self_id: i64,
    prefixes: Seq<Seq<char>>,
    command: CommandModel,
)
    requires
        command::parsed(m.text, prefixes) == Some(command),
        1 <= m.user_id <= 0xff_ffff_ffff,
    ensures
        m.outgoing || m.user_id == self_id ==> candidates(
            UpdatesModel::ShortMessage(m),
            self_id,
            prefixes,
        ) == seq![
            CandidateModel {
                peer_id: m.user_id,
                message_id: m.message_id,
                date: m.date,
                command,
            },
        ],
        !m.outgoing && m.user_id != self_id ==> candidates(
            UpdatesModel::ShortMessage(m),
            self_id,
            prefixes,
        ).len() == 0,
{
}

/// A short message of a group stands in the conversation whose number is that of the group, negated. It is
/// one's own if it goes out, or if one sent it.
pub proof fn law_short_group_message(
    m: ShortChatMessage<Seq<char>>,
    self_id: i64,
    prefixes: Seq<Seq<char>>,
    command: CommandModel,
)
    requires
        command::parsed(m.text, prefixes) == Some(command),
        1 <= m.from_id <= 0xff_ffff_ffff,
        1 <= m.chat_id <= 999_999_999_999,
    ensures
        m.outgoing || m.from_id == self_id ==> candidates(
            UpdatesModel::ShortChatMessage(m),
            self_id,
            prefixes,
        ) == seq![
            CandidateModel {
                peer_id: (-m.chat_id) as i64,
                message_id: m.message_id,
                date: m.date,
                command,
            },
        ],
        !m.outgoing && m.from_id != self_id ==> candidates(
            UpdatesModel::ShortChatMessage(m),
            self_id,
            prefixes,
        ).len() == 0,
{
}

/// What is shown while a command of the assistant is at work follows from its first words.
pub proof fn law_assistant_progress(c: CommandModel, progress: ProgressModel)
    requires
        c.name == "ai"@,
    ensures
        ({
            let w = scan::words(c.raw_args);
            let first = if w.len() > 0 {
                scan::lowered(w[0])
            } else {
                Seq::empty()
            };
            let second = if w.len() > 1 {
                scan::lowered(w[1])
            } else {
                Seq::empty()
            };
            let shown = progress_text(c, progress);
            let config = first == "config"@ || first == "cfg"@;
            let quiet = first == "help"@ || first == "?"@ || first == "status"@ || first
                == "context"@ || first == "ctx"@ || first == "reset"@ || first == "clear"@;
            &&& quiet ==> shown is None
            &&& config && second != "key"@ ==> shown is None
            &&& config && second == "key"@ ==> shown == Some("🔐 正在安全更新 AI 配置…"@)
            &&& first == "chat"@ || first == "c"@ ==> shown == Some(progress.thinking)
            &&& first == "search"@ || first == "s"@ ==> shown == Some(progress.searching)
            &&& !quiet && !config && first != "chat"@ && first != "c"@ && first != "search"@
                && first != "s"@ ==> shown == Some(
                if progress.default_search {
                    progress.searching
                } else {
                    progress.thinking
                },
            )
        }),
{
    lemma_progress_words();
}

proof fn lemma_progress_words()
    ensures
        "cfg"@ != "config"@,
        "key"@ != "config"@,
        "key"@ != "cfg"@,
        "help"@ != "config"@,
        "help"@ != "cfg"@,
        "help"@ != "key"@,
        "?"@ != "config"@,
        "?"@ != "cfg"@,
        "?"@ != "key"@,
        "?"@ != "help"@,
        "status"@ != "config"@,
        "status"@ != "cfg"@,
        "status"@ != "key"@,
        "status"@ != "help"@,
        "status"@ != "?"@,
        "context"@ != "config"@,
        "context"@ != "cfg"@,
        "context"@ != "key"@,
        "context"@ != "help"@,
        "context"@ != "?"@,
        "context"@ != "status"@,
        "ctx"@ != "config"@,
        "ctx"@ != "cfg"@,
        "ctx"@ != "key"@,
        "ctx"@ != "help"@,
        "ctx"@ != "?"@,
        "ctx"@ != "status"@,
        "ctx"@ != "context"@,
        "reset"@ != "config"@,
        "reset"@ != "cfg"@,
        "reset"@ != "key"@,
        "reset"@ != "help"@,
        "reset"@ != "?"@,
        "reset"@ != "status"@,
        "reset"@ != "context"@,
        "reset"@ != "ctx"@,
        "clear"@ != "config"@,
        "clear"@ != "cfg"@,
        "clear"@ != "key"@,
        "clear"@ != "help"@,
        "clear"@ != "?"@,
        "clear"@ != "status"@,
        "clear"@ != "context"@,
        "clear"@ != "ctx"@,
        "clear"@ != "reset"@,
        "chat"@ != "config"@,
        "chat"@ != "cfg"@,
        "chat"@ != "key"@,
        "chat"@ != "help"@,
        "chat"@ != "?"@,
        "chat"@ != "status"@,
        "chat"@ != "context"@,
        "chat"@ != "ctx"@,
        "chat"@ != "reset"@,
        "chat"@ != "clear"@,
        "c"@ != "config"@,
        "c"@ != "cfg"@,
        "c"@ != "key"@,
        "c"@ != "help"@,
        "c"@ != "?"@,
        "c"@ != "status"@,
        "c"@ != "context"@,
        "c"@ != "ctx"@,
        "c"@ != "reset"@,
        "c"@ != "clear"@,
        "c"@ != "chat"@,
        "search"@ != "config"@,
        "search"@ != "cfg"@,
        "search"@ != "key"@,
        "search"@ != "help"@,
        "search"@ != "?"@,
        "search"@ != "status"@,
        "search"@ != "context"@,
        "search"@ != "ctx"@,
        "search"@ != "reset"@,
        "search"@ != "clear"@,
        "search"@ != "chat"@,
        "search"@ != "c"@,
        "s"@ != "config"@,
        "s"@ != "cfg"@,
        "s"@ != "key"@,
        "s"@ != "help"@,
        "s"@ != "?"@,
        "s"@ != "status"@,
        "s"@ != "context"@,
        "s"@ != "ctx"@,
        "s"@ != "reset"@,
        "s"@ != "clear"@,
        "s"@ != "chat"@,
        "s"@ != "c"@,
        "s"@ != "search"@,
        "ai"@ != "q"@,
{
    reveal_strlit("config");
    reveal_strlit("cfg");
    reveal_strlit("key");
    reveal_strlit("help");
    reveal_strlit("?");
    reveal_strlit("status");
    reveal_strlit("context");
    reveal_strlit("ctx");
    reveal_strlit("reset");
    reveal_strlit("clear");
    reveal_strlit("chat");
    reveal_strlit("c");
    reveal_strlit("search");
    reveal_strlit("s");
    assert("config"@.len() != "cfg"@.len());
    assert("config"@.len() != "key"@.len());
    assert("config"@.len() != "help"@.len());
    assert("config"@.len() != "?"@.len());
    assert("config"@[0] != "status"@[0]);
    assert("config"@.len() != "context"@.len());
    assert("config"@.len() != "ctx"@.len());
    assert("config"@.len() != "reset"@.len());
    assert("config"@.len() != "clear"@.len());
    assert("config"@.len() != "chat"@.len());
    assert("config"@.len() != "c"@.len());
    assert("config"@[0] != "search"@[0]);
    assert("config"@.len() != "s"@.len());
    assert("cfg"@[0] != "key"@[0]);
    assert("cfg"@.len() != "help"@.len());
    assert("cfg"@.len() != "?"@.len());
    assert("cfg"@.len() != "status"@.len());
    assert("cfg"@.len() != "context"@.len());
    assert("cfg"@[1] != "ctx"@[1]);
    assert("cfg"@.len() != "reset"@.len());
    assert("cfg"@.len() != "clear"@.len());
    assert("cfg"@.len() != "chat"@.len());
    assert("cfg"@.len() != "c"@.len());
    assert("cfg"@.len() != "search"@.len());
    assert("cfg"@.len() != "s"@.len());
    assert("key"@.len() != "help"@.len());
    assert("key"@.len() != "?"@.len());
    assert("key"@.len() != "status"@.len());
    assert("key"@.len() != "context"@.len());
    assert("key"@[0] != "ctx"@[0]);
    assert("key"@.len() != "reset"@.len());
    assert("key"@.len() != "clear"@.len());
    assert("key"@.len() != "chat"@.len());
    assert("key"@.len() != "c"@.len());
    assert("key"@.len() != "search"@.len());
    assert("key"@.len() != "s"@.len());
    assert("help"@.len() != "?"@.len());
    assert("help"@.len() != "status"@.len());
    assert("help"@.len() != "context"@.len());
    assert("help"@.len() != "ctx"@.len());
    assert("help"@.len() != "reset"@.len());
    assert("help"@.len() != "clear"@.len());
    assert("help"@[0] != "chat"@[0]);
    assert("help"@.len() != "c"@.len());
    assert("help"@.len() != "search"@.len());
    assert("help"@.len() != "s"@.len());
    assert("?"@.len() != "status"@.len());
    assert("?"@.len() != "context"@.len());
    assert("?"@.len() != "ctx"@.len());
    assert("?"@.len() != "reset"@.len());
    assert("?"@.len() != "clear"@.len());
    assert("?"@.len() != "chat"@.len());
    assert("?"@[0] != "c"@[0]);
    assert("?"@.len() != "search"@.len());
    assert("?"@[0] != "s"@[0]);
    assert("status"@.len() != "context"@.len());
    assert("status"@.len() != "ctx"@.len());
    assert("status"@.len() != "reset"@.len());
    assert("status"@.len() != "clear"@.len());
    assert("status"@.len() != "chat"@.len());
    assert("status"@.len() != "c"@.len());
    assert("status"@[1] != "search"@[1]);
    assert("status"@.len() != "s"@.len());
    assert("context"@.len() != "ctx"@.len());
    assert("context"@.len() != "reset"@.len());
    assert("context"@.len() != "clear"@.len());
    assert("context"@.len() != "chat"@.len());
    assert("context"@.len() != "c"@.len());
    assert("context"@.len() != "search"@.len());
    assert("context"@.len() != "s"@.len());
    assert("ctx"@.len() != "reset"@.len());
    assert("ctx"@.len() != "clear"@.len());
    assert("ctx"@.len() != "chat"@.len());
    assert("ctx"@.len() != "c"@.len());
    assert("ctx"@.len() != "search"@.len());
    assert("ctx"@.len() != "s"@.len());
    assert("reset"@[0] != "clear"@[0]);
    assert("reset"@.len() != "chat"@.len());
    assert("reset"@.len() != "c"@.len());
    assert("reset"@.len() != "search"@.len());
    assert("reset"@.len() != "s"@.len());
    assert("clear"@.len() != "chat"@.len());
    assert("clear"@.len() != "c"@.len());
    assert("clear"@.len() != "search"@.len());
    assert("clear"@.len() != "s"@.len());
    assert("chat"@.len() != "c"@.len());
    assert("chat"@.len() != "search"@.len());
    assert("chat"@.len() != "s"@.len());
    assert("c"@.len() != "search"@.len());
    assert("c"@[0] != "s"@[0]);
    assert("search"@.len() != "s"@.len());
    reveal_strlit("ai");
    reveal_strlit("q");
    assert("ai"@.len() != "q"@.len());
}

/// What is shown while a quote is made follows from the first word; other commands show nothing.
pub proof fn law_quote_progress(c: CommandModel, progress: ProgressModel)
    ensures
        ({
            let w = scan::words(c.raw_args);
            let first = if w.len() > 0 {
                scan::lowered(w[0])
            } else {
                Seq::empty()
            };
            let shown = progress_text(c, progress);
            let quiet = first == "config"@ || first == "help"@ || first == "h"@;
            let archive = first == "history"@ || first == "his"@;
            &&& c.name != "ai"@ && c.name != "q"@ ==> shown is None
            &&& c.name == "q"@ ==> {
                &&& quiet ==> shown is None
                &&& archive ==> shown == Some("🗂️ 正在读取语录存档…"@)
                &&& first == "s"@ ==> shown == Some("📦 正在保存到贴纸包…"@)
                &&& !quiet && !archive && first != "s"@ ==> shown == Some(
                    "🖼️ 正在生成语录贴纸…"@,
                )
            }
        }),
{
    reveal_strlit("config");
    reveal_strlit("help");
    reveal_strlit("h");
    reveal_strlit("history");
    reveal_strlit("his");
    reveal_strlit("s");
    assert("config"@.len() != "help"@.len());
    assert("config"@.len() != "h"@.len());
    assert("config"@.len() != "history"@.len());
    assert("config"@.len() != "his"@.len());
    assert("config"@.len() != "s"@.len());
    assert("help"@.len() != "h"@.len());
    assert("help"@.len() != "history"@.len());
    assert("help"@.len() != "his"@.len());
    assert("help"@.len() != "s"@.len());
    assert("h"@.len() != "history"@.len());
    assert("h"@.len() != "his"@.len());
    assert("h"@[0] != "s"@[0]);
    assert("history"@.len() != "his"@.len());
    assert("history"@.len() != "s"@.len());
    assert("his"@.len() != "s"@.len());
    lemma_progress_words();
}

/// An error of at most 800 characters is shown whole, a longer one by its first 800 and an ellipsis.
pub proof fn law_error_shown(message: Seq<char>, rest: Seq<char>)
    ensures
        message.len() <= 800 ==> shown_error(message) == message,
        message.len() == 800 && rest.len() > 0 ==> shown_error(message + rest) == message.push('…'),
{
    if message.len() == 800 {
        assert((message + rest).take(800) =~= message);
    }
}

/// A command that has run within the last ten minutes does not run again; one whose name nothing answers to
/// is not remembered.
pub proof fn law_command_taken_on(
    router: RouterModel,
    started: Map<(i64, i32), u128>,
    name: Seq<char>,
    key: (i64, i32),
    now: u128,
    plugin: nat,
)
    ensures
        router.commands.get(name) is None ==> taken_on(router, started, name, key, now) == (
            started,
            None::<nat>,
        ),
        router.commands.get(name) == Some(plugin) && !started.contains_key(key) ==> taken_on(
            router,
            started,
            name,
            key,
            now,
        ).1 == Some(plugin),
        router.commands.get(name) == Some(plugin) && started.contains_key(key) && now - started[key]
            < 600_000_000_000 ==> taken_on(router, started, name, key, now).1 is None,
        router.commands.get(name) == Some(plugin) && started.contains_key(key) && now - started[key]
            >= 600_000_000_000 ==> taken_on(router, started, name, key, now).1 == Some(plugin),
        router.commands.get(name) is Some ==> taken_on(router, started, name, key, now).0.get(key)
            == Some(now),
{
}

} // verus!
