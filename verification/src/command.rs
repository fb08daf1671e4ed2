//! Commands: a prefix, a name and arguments.

use crate::scan;
use crate::text;
use vstd::prelude::*;

verus! {

#[derive(Debug, PartialEq, Eq)]
pub struct Command {
    pub prefix: String,
    pub name: String,
    pub raw_args: String,
    pub args: Vec<String>,
}

#[verifier::ext_equal]
pub struct CommandModel {
    pub prefix: Seq<char>,
    pub name: Seq<char>,
    pub raw_args: Seq<char>,
    pub args: Seq<Seq<char>>,
}

impl View for Command {
    type V = CommandModel;

    open spec fn view(&self) -> CommandModel {
        CommandModel {
            prefix: self.prefix@,
            name: self.name@,
            raw_args: self.raw_args@,
            args: text::texts(self.args@),
        }
    }
}

impl Clone for Command {
    fn clone(&self) -> (r: Self)
        ensures
            r@ == self@,
    {
        Command {
            prefix: self.prefix.clone(),
            name: self.name.clone(),
            raw_args: self.raw_args.clone(),
            args: text::clone_texts(&self.args),
        }
    }
}

/// The longest of some prefixes that a text begins with.
pub open spec fn chosen_prefix(s: Seq<char>, prefixes: Seq<Seq<char>>) -> Option<Seq<char>>
    decreases prefixes.len(),
{
    if prefixes.len() == 0 {
        None
    } else {
        let before = chosen_prefix(s, prefixes.drop_last());
        if scan::starts(s, prefixes.last()) && (before matches Some(p) ==> p.len()
            <= prefixes.last().len()) {
            Some(prefixes.last())
        } else {
            before
        }
    }
}

/// Letters, digits and underscores.
pub open spec fn is_name(s: Seq<char>) -> bool {
    forall|i: int| 0 <= i < s.len() ==> text::is_alnum(#[trigger] s[i]) || s[i] == '_'
}

/// The command that a text gives.
pub open spec fn parsed(s: Seq<char>, prefixes: Seq<Seq<char>>) -> Option<CommandModel> {
    let t = scan::trimmed_start(s);
    match chosen_prefix(t, prefixes) {
        None => None,
        Some(prefix) => {
            let body = scan::trimmed_start(t.skip(prefix.len() as int));
            let n = scan::word_len(body) as int;
            let raw_args = scan::trimmed(body.skip(n));
            if body.len() == 0 || !is_name(scan::lowered(body.take(n))) {
                None
            } else {
                Some(
                    CommandModel {
                        prefix,
                        name: scan::lowered(body.take(n)),
                        raw_args,
                        args: scan::words(raw_args),
                    },
                )
            }
        },
    }
}

/// The prefix of a command is one of those given, the text begins with it, and no longer one of them
/// would do; there is none only where the text begins with none of them.
pub proof fn law_longest_prefix(s: Seq<char>, prefixes: Seq<Seq<char>>)
    ensures
        match chosen_prefix(s, prefixes) {
            Some(p) => {
                &&& prefixes.contains(p)
                &&& scan::starts(s, p)
                &&& forall|i: int|
                    0 <= i < prefixes.len() && scan::starts(s, #[trigger] prefixes[i])
                        ==> prefixes[i].len() <= p.len()
            },
            None => forall|i: int|
                0 <= i < prefixes.len() ==> !scan::starts(s, #[trigger] prefixes[i]),
        },
    decreases prefixes.len(),
{
    if prefixes.len() > 0 {
        let shorter = prefixes.drop_last();
        law_longest_prefix(s, shorter);
        let chosen = chosen_prefix(s, prefixes);
        if let Some(p) = chosen_prefix(s, shorter) {
            let k = choose|k: int| 0 <= k < shorter.len() && shorter[k] == p;
            assert(prefixes[k] == p);
        }
        assert(prefixes[prefixes.len() - 1] == prefixes.last());
        assert forall|i: int|
            0 <= i < prefixes.len() && scan::starts(s, #[trigger] prefixes[i]) implies chosen
            is Some && prefixes[i].len() <= chosen->0.len() by {
            if i < shorter.len() {
                assert(shorter[i] == prefixes[i]);
            }
        }
    }
}

/// A command has a name, its name holds nothing but lower-case letters, digits and underscores, and
/// its arguments are the words of what stands behind the name.
pub proof fn law_command_shape(s: Seq<char>, prefixes: Seq<Seq<char>>)
    ensures
        parsed(s, prefixes) matches Some(c) ==> {
            &&& prefixes.contains(c.prefix)
            &&& c.name.len() > 0
            &&& is_name(c.name)
            &&& scan::lowered(c.name) == c.name
            &&& c.args == scan::words(c.raw_args)
            &&& scan::trimmed(c.raw_args) == c.raw_args
        },
{
    if let Some(c) = parsed(s, prefixes) {
        let t = scan::trimmed_start(s);
        law_longest_prefix(t, prefixes);
        let body = scan::trimmed_start(t.skip(c.prefix.len() as int));
        scan::lemma_trimmed_start(t.skip(c.prefix.len() as int));
        scan::lemma_word_len(body);
        scan::lemma_trimmed_twice(body.skip(scan::word_len(body) as int));
        assert(scan::lowered(c.name) =~= c.name);
    }
}

/// The command that a text gives: the longest prefix that it begins with, a name in lower case, and
/// the words behind it. Text without a prefix, or with anything but a name behind it, gives none.
pub fn parse(text: &str, prefixes: &[String]) -> (r: Option<Command>)
    ensures
        match (r, parsed(text@, text::texts(prefixes@))) {
            (Some(a), Some(b)) => a@ == b,
            (None, None) => true,
            _ => false,
        },
{
    let trimmed = scan::trim_start(text);
    let ghost all = text::texts(prefixes@);
    let ghost t = scan::trimmed_start(text@);
    let n: usize = prefixes.len();
    let mut best: Option<usize> = None;
    let mut i: usize = 0;
    proof {
        assert(all.take(0) =~= Seq::<Seq<char>>::empty());
    }
    while i < n
        invariant
            i <= n,
            n == prefixes@.len(),
            all == text::texts(prefixes@),
            trimmed@ == t,
            match (best, chosen_prefix(t, all.take(i as int))) {
                (Some(k), Some(p)) => k < i && prefixes@[k as int]@ == p,
                (None, None) => true,
                _ => false,
            },
        decreases n - i,
    {
        proof {
            assert(all.take(i + 1).drop_last() =~= all.take(i as int));
            assert(all.take(i + 1).last() == prefixes@[i as int]@);
        }
        if scan::starts_with(trimmed.as_str(), prefixes[i].as_str()) {
            let longer = match best {
                Some(k) => text::char_len(prefixes[k].as_str()) <= text::char_len(
                    prefixes[i].as_str(),
                ),
                None => true,
            };
            if longer {
                best = Some(i);
            }
        }
        i = i + 1;
    }
    proof {
        assert(all.take(n as int) =~= all);
        law_longest_prefix(t, all);
    }
    let k: usize = match best {
        Some(k) => k,
        None => {
            return None;
        },
    };
    let v = text::chars(trimmed.as_str());
    let skipped: usize = text::char_len(prefixes[k].as_str());
    let total: usize = v.len();
    let after = text::slice(&v, skipped, total);
    proof {
        assert(after@ =~= t.skip(prefixes@[k as int]@.len() as int));
    }
    let body = scan::trim_start(after.as_str());
    if text::char_len(body.as_str()) == 0 {
        return None;
    }
    let (word, raw_args) = scan::split_first(body.as_str());
    let name = scan::lower(word.as_str());
    if !name_only(name.as_str()) {
        return None;
    }
    let args = scan::split_words(raw_args.as_str());
    Some(Command { prefix: prefixes[k].clone(), name, raw_args, args })
}

/// Whether a text holds nothing but letters, digits and underscores.
pub fn name_only(s: &str) -> (r: bool)
    ensures
        r == is_name(s@),
{
    let v = text::chars(s);
    let n: usize = v.len();
    let mut i: usize = 0;
    while i < n
        invariant
            i <= n,
            n == v@.len(),
            v@ == s@,
            forall|j: int| 0 <= j < i ==> text::is_alnum(#[trigger] v@[j]) || v@[j] == '_',
        decreases n - i,
    {
        if !(text::alnum(v[i]) || v[i] == '_') {
            return false;
        }
        i = i + 1;
    }
    true
}

/// How a command stands in a text: whitespace, the prefix, whitespace, the name, and behind whitespace the
/// arguments, up to whitespace at the end.
pub open spec fn spelled(
    s: Seq<char>,
    c: CommandModel,
    lead: Seq<char>,
    gap: Seq<char>,
    word: Seq<char>,
    before: Seq<char>,
    after: Seq<char>,
) -> bool {
    &&& s == lead + c.prefix + gap + word + before + c.raw_args + after
    &&& scan::blank(lead)
    &&& scan::blank(gap)
    &&& word.len() > 0
    &&& scan::solid(word)
    &&& c.name == scan::lowered(word)
    &&& scan::blank(before)
    &&& c.raw_args.len() > 0 ==> before.len() > 0
    &&& scan::tight(c.raw_args)
    &&& scan::blank(after)
}

proof fn lemma_chain(
    a: Seq<char>,
    b: Seq<char>,
    c: Seq<char>,
    d: Seq<char>,
    e: Seq<char>,
    f: Seq<char>,
    g: Seq<char>,
)
    ensures
        a + (b + (c + (d + (e + f + g)))) == a + b + c + d + e + f + g,
{
    assert(a + (b + (c + (d + (e + f + g)))) =~= a + b + c + d + e + f + g);
}

/// The arguments of a command stand in the message as they are: the text is the prefix, the name and the
/// arguments, with nothing but whitespace around them, and only the name is lowered.
pub proof fn law_command_spelling(s: Seq<char>, prefixes: Seq<Seq<char>>)
    ensures
        parsed(s, prefixes) matches Some(c) ==> exists|
            lead: Seq<char>,
            gap: Seq<char>,
            word: Seq<char>,
            before: Seq<char>,
            after: Seq<char>,
        | #[trigger] spelled(s, c, lead, gap, word, before, after),
{
    if let Some(c) = parsed(s, prefixes) {
        let t = scan::trimmed_start(s);
        law_longest_prefix(t, prefixes);
        let lead = scan::law_trimmed_start_parts(s);
        let rest = t.skip(c.prefix.len() as int);
        lemma_behind(t, c.prefix);
        let body = scan::trimmed_start(rest);
        let gap = scan::law_trimmed_start_parts(rest);
        let word = body.take(scan::word_len(body) as int);
        let behind = scan::law_first_word_parts(body);
        let (before, after) = scan::law_trimmed_parts(behind);
        assert(behind == before + c.raw_args + after);
        lemma_chain(lead, c.prefix, gap, word, before, c.raw_args, after);
        lemma_gap(behind, before, c.raw_args, after);
        assert(spelled(s, c, lead, gap, word, before, after));
    }
}

proof fn lemma_behind(t: Seq<char>, prefix: Seq<char>)
    requires
        scan::starts(t, prefix),
    ensures
        t == prefix + t.skip(prefix.len() as int),
{
    assert(t.subrange(0, prefix.len() as int) == prefix);
    assert(t =~= prefix + t.skip(prefix.len() as int));
}

proof fn lemma_gap(behind: Seq<char>, before: Seq<char>, args: Seq<char>, after: Seq<char>)
    requires
        behind == before + args + after,
        behind.len() > 0 ==> text::is_space(behind[0]),
        scan::tight(args),
    ensures
        args.len() > 0 ==> before.len() > 0,
{
    if args.len() > 0 && before.len() == 0 {
        assert(behind[0] == args[0]);
    }
}

/// A text that is spelled like a command gives it, with the words of its arguments.
pub proof fn law_command_found(
    s: Seq<char>,
    prefixes: Seq<Seq<char>>,
    c: CommandModel,
    lead: Seq<char>,
    gap: Seq<char>,
    word: Seq<char>,
    before: Seq<char>,
    after: Seq<char>,
)
    requires
        spelled(s, c, lead, gap, word, before, after),
        prefixes.contains(c.prefix),
        c.prefix.len() > 0,
        !text::is_space(c.prefix[0]),
        forall|i: int|
            0 <= i < prefixes.len() && scan::starts(s.skip(lead.len() as int), #[trigger] prefixes[i])
                ==> prefixes[i].len() <= c.prefix.len(),
        c.args == scan::words(c.raw_args),
        forall|i: int|
            0 <= i < c.name.len() ==> ('a' <= #[trigger] c.name[i] <= 'z') || ('0' <= c.name[i]
                <= '9') || c.name[i] == '_',
    ensures
        parsed(s, prefixes) == Some(c),
{
    let t = s.skip(lead.len() as int);
    let behind = before + c.raw_args + after;
    let rest = gap + word + behind;
    assert(s =~= lead + t);
    assert(t =~= c.prefix + rest);
    assert(t[0] == c.prefix[0]);
    scan::lemma_trimmed_start(s);
    scan::lemma_leading_blank(lead, t);
    assert(t.subrange(0, c.prefix.len() as int) =~= c.prefix);
    law_longest_prefix(t, prefixes);
    let k = choose|k: int| 0 <= k < prefixes.len() && prefixes[k] == c.prefix;
    assert(scan::starts(t, prefixes[k]));
    let p = chosen_prefix(t, prefixes)->0;
    let i = choose|i: int| 0 <= i < prefixes.len() && prefixes[i] == p;
    assert(scan::starts(t, prefixes[i]));
    assert(p =~= c.prefix) by {
        assert(p.len() == c.prefix.len());
        assert(t.subrange(0, p.len() as int) == p);
    }
    assert(t.skip(c.prefix.len() as int) =~= gap + (word + behind));
    assert((word + behind)[0] == word[0]);
    scan::lemma_leading_blank(gap, word + behind);
    if behind.len() > 0 {
        if before.len() > 0 {
            assert(text::is_space(before[0]));
            assert(behind[0] == before[0]);
        } else {
            assert(text::is_space(after[0]));
            assert(behind[0] == after[0]);
        }
    }
    scan::lemma_first_word(word, behind);
    assert((word + behind).take(word.len() as int) =~= word);
    assert((word + behind).skip(word.len() as int) =~= behind);
    scan::law_trim(before, c.raw_args, after);
    assert(is_name(c.name));
}

/// A text that begins with none of the prefixes gives no command, and neither does a prefix with nothing
/// behind it.
pub proof fn law_no_command(s: Seq<char>, prefixes: Seq<Seq<char>>)
    ensures
        (forall|i: int|
            0 <= i < prefixes.len() ==> !scan::starts(
                scan::trimmed_start(s),
                #[trigger] prefixes[i],
            )) ==> parsed(s, prefixes) is None,
        scan::blank(s) && (forall|i: int|
            0 <= i < prefixes.len() ==> (#[trigger] prefixes[i]).len() > 0) ==> parsed(s, prefixes)
            is None,
{
    let t = scan::trimmed_start(s);
    law_longest_prefix(t, prefixes);
    scan::lemma_trimmed_blank(s);
}

/// A command has a name of letters, digits and underscores. What has another character in its first word,
/// or no word at all, is no command.
pub proof fn law_command_letters(
    lead: Seq<char>,
    prefix: Seq<char>,
    word: Seq<char>,
    behind: Seq<char>,
    prefixes: Seq<Seq<char>>,
    i: int,
)
    requires
        prefixes == seq![prefix],
        prefix.len() > 0,
        !text::is_space(prefix[0]),
        scan::blank(lead),
        word.len() > 0,
        scan::solid(word),
        behind.len() == 0 || text::is_space(behind[0]),
        0 <= i < word.len(),
        !text::is_alnum(text::lower_char(word[i])),
        text::lower_char(word[i]) != '_',
    ensures
        parsed(lead + prefix + word + behind, prefixes) is None,
        parsed(lead + prefix, prefixes) is None,
{
    let none = Seq::<char>::empty();
    let rest = word + behind;
    let t = prefix + rest;
    let s = lead + prefix + word + behind;
    assert(s =~= lead + t);
    scan::lemma_leading_blank(lead, t);
    assert(t.subrange(0, prefix.len() as int) =~= prefix);
    assert(prefixes[0] == prefix);
    law_longest_prefix(t, prefixes);
    assert(t.skip(prefix.len() as int) =~= rest);
    scan::lemma_leading_blank(none, rest);
    assert(none + rest =~= rest);
    scan::lemma_first_word(word, behind);
    assert(rest.take(word.len() as int) =~= word);
    assert(scan::lowered(word)[i] == text::lower_char(word[i]));
    scan::lemma_leading_blank(lead, prefix);
    assert(prefix.subrange(0, prefix.len() as int) =~= prefix);
    law_longest_prefix(prefix, prefixes);
    assert(prefix.skip(prefix.len() as int) =~= none);
}

/// Each character of a command's name is a letter, a digit or an underscore, and the name is not empty.
pub proof fn law_command_name(s: Seq<char>, prefixes: Seq<Seq<char>>)
    ensures
        parsed(s, prefixes) matches Some(c) ==> c.name.len() > 0 && forall|k: int|
            0 <= k < c.name.len() ==> text::is_alnum(#[trigger] c.name[k]) || c.name[k] == '_',
{
    law_command_shape(s, prefixes);
}

} // verus!
