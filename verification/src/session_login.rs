//! Logging in: what is asked, what is accepted as an answer, and what follows from the reply.

use crate::failure;
use crate::failure::Failure;
use crate::scan;
use crate::text;
use vstd::prelude::*;

verus! {

pub const PHONE_PROMPT: &'static str = "Phone number in international format: ";

pub const CODE_PROMPT: &'static str = "Login code: ";

/// The most characters of a phone number, a code and a password.
pub const PHONE_CHARS: usize = 64;

pub const CODE_CHARS: usize = 32;

pub const PASSWORD_CHARS: usize = 1024;

/// An answer, if there is one and it is not too long.
pub open spec fn answer(value: Seq<char>, max: nat) -> Result<Seq<char>, Seq<char>> {
    if value.len() == 0 {
        Err("login input must not be empty"@)
    } else if value.len() > max {
        Err("login input is too long"@)
    } else {
        Ok(value)
    }
}

/// What is made of a line; nothing came at all where its length is zero bytes.
pub open spec fn line_answer(line: Seq<char>, max: nat) -> Result<Seq<char>, Seq<char>> {
    if line.len() == 0 {
        Err("login input was closed"@)
    } else {
        answer(scan::trimmed(line), max)
    }
}

/// The answer that was typed without being shown.
pub fn check_secret(value: String, max_chars: usize) -> (r: Result<String, Failure>)
    ensures
        failure::text_outcome(r) == answer(value@, max_chars as nat),
{
    let n: usize = text::char_len(value.as_str());
    if n == 0 {
        return Err(Failure::new("login input must not be empty"));
    }
    if n > max_chars {
        return Err(Failure::new("login input is too long"));
    }
    Ok(value)
}

/// The answer in a line that was typed.
pub fn check_line(line: &str, max_chars: usize) -> (r: Result<String, Failure>)
    ensures
        failure::text_outcome(r) == line_answer(line@, max_chars as nat),
{
    if text::char_len(line) == 0 {
        return Err(Failure::new("login input was closed"));
    }
    check_secret(scan::trim(line), max_chars)
}

/// A text without its control characters.
pub open spec fn printable(s: Seq<char>) -> Seq<char>
    decreases s.len(),
{
    if s.len() == 0 {
        Seq::empty()
    } else if text::is_control(s.last()) {
        printable(s.drop_last())
    } else {
        printable(s.drop_last()).push(s.last())
    }
}

/// What of a hint is shown.
pub open spec fn shown_hint(hint: Option<Seq<char>>) -> Seq<char> {
    match hint {
        Some(h) => scan::first_chars(printable(h), 80),
        None => Seq::empty(),
    }
}

/// How the password is asked for.
pub open spec fn password_words(hint: Option<Seq<char>>) -> Seq<char> {
    let h = shown_hint(hint);
    if h.len() == 0 {
        "Telegram 2FA password: "@
    } else {
        "Telegram 2FA password (hint: "@ + h + "): "@
    }
}

/// A hint can do nothing to the screen: what is shown of it holds no control character, and is not long.
pub proof fn law_hint_is_harmless(hint: Option<Seq<char>>)
    ensures
        shown_hint(hint).len() <= 80,
        forall|i: int|
            0 <= i < shown_hint(hint).len() ==> !text::is_control(#[trigger] shown_hint(hint)[i]),
{
    if let Some(h) = hint {
        lemma_printable(h);
    }
}

proof fn lemma_printable(s: Seq<char>)
    ensures
        forall|i: int| 0 <= i < printable(s).len() ==> !text::is_control(#[trigger] printable(s)[i]),
    decreases s.len(),
{
    if s.len() > 0 {
        lemma_printable(s.drop_last());
        let t = printable(s.drop_last());
        let r = printable(s);
        assert forall|i: int| 0 <= i < r.len() implies !text::is_control(#[trigger] r[i]) by {
            if i < t.len() {
                assert(r[i] == t[i]);
            }
        }
    }
}

/// A text without its control characters.
fn print_only(s: &str) -> (r: String)
    ensures
        r@ == printable(s@),
{
    let v = text::chars(s);
    let n: usize = v.len();
    let mut out: Vec<char> = Vec::new();
    let mut i: usize = 0;
    proof {
        assert(s@.take(0) =~= Seq::<char>::empty());
    }
    while i < n
        invariant
            i <= n,
            n == v@.len(),
            v@ == s@,
            out@ == printable(s@.take(i as int)),
        decreases n - i,
    {
        proof {
            assert(s@.take(i + 1).drop_last() =~= s@.take(i as int));
        }
        if !text::control(v[i]) {
            out.push(v[i]);
        }
        i = i + 1;
    }
    proof {
        assert(s@.take(n as int) =~= s@);
    }
    text::string(&out)
}

/// How the password is asked for, with a hint if there is one.
pub fn password_prompt(hint: Option<&str>) -> (r: String)
    ensures
        r@ == password_words(
            match hint {
                Some(h) => Some(h@),
                None => None,
            },
        ),
{
    let shown = match hint {
        Some(h) => scan::take_chars(print_only(h).as_str(), 80),
        None => String::new(),
    };
    if text::char_len(shown.as_str()) == 0 {
        "Telegram 2FA password: ".to_owned()
    } else {
        let mut out = "Telegram 2FA password (hint: ".to_owned();
        out.append(shown.as_str());
        out.append("): ");
        out
    }
}

// ---------------------------------------------------------------------------------------------
// The way through
// ---------------------------------------------------------------------------------------------

/// What Telegram makes of a code or a password.
#[derive(Clone, Copy, Debug, PartialEq, Eq, Structural)]
pub enum SignIn {
    Done,
    PasswordRequired,
    InvalidPassword,
    InvalidCode,
    SignUpRequired,
    Other,
}

/// What is done next.
#[derive(Clone, Copy, Debug, PartialEq, Eq, Structural)]
pub enum LoginStep {
    /// The password is asked for.
    AskPassword,
    /// It is looked whether the session is authorized.
    Confirm,
}

/// What follows from the reply to a code. `message` is what Telegram says.
pub open spec fn code_reply(reply: SignIn, message: Seq<char>) -> Result<LoginStep, Seq<char>> {
    match reply {
        SignIn::Done => Ok(LoginStep::Confirm),
        SignIn::PasswordRequired => Ok(LoginStep::AskPassword),
        SignIn::InvalidCode => Err("Telegram login code was invalid; run login again"@),
        SignIn::SignUpRequired => Err(
            "create the Telegram account in an official client before running login"@,
        ),
        _ => Err(failure::because("Telegram login failed"@, message)),
    }
}

/// What follows from the reply to a password. `message` is what Telegram says.
pub open spec fn password_reply(reply: SignIn, message: Seq<char>) -> Result<LoginStep, Seq<char>> {
    match reply {
        SignIn::Done => Ok(LoginStep::Confirm),
        SignIn::InvalidPassword => Err("Telegram 2FA password was invalid; run login again"@),
        _ => Err(failure::because("Telegram 2FA login failed"@, message)),
    }
}

/// What follows from the reply to a code.
pub fn after_code(reply: SignIn, message: &str) -> (r: Result<LoginStep, Failure>)
    ensures
        failure::outcome(r) == code_reply(reply, message@),
{
    match reply {
        SignIn::Done => Ok(LoginStep::Confirm),
        SignIn::PasswordRequired => Ok(LoginStep::AskPassword),
        SignIn::InvalidCode => Err(
            Failure::new("Telegram login code was invalid; run login again"),
        ),
        SignIn::SignUpRequired => Err(
            Failure::new("create the Telegram account in an official client before running login"),
        ),
        _ => Err(Failure::caused("Telegram login failed", message)),
    }
}

/// What follows from the reply to a password.
pub fn after_password(reply: SignIn, message: &str) -> (r: Result<LoginStep, Failure>)
    ensures
        failure::outcome(r) == password_reply(reply, message@),
{
    match reply {
        SignIn::Done => Ok(LoginStep::Confirm),
        SignIn::InvalidPassword => Err(
            Failure::new("Telegram 2FA password was invalid; run login again"),
        ),
        _ => Err(Failure::caused("Telegram 2FA login failed", message)),
    }
}

/// Whether the login was kept.
pub fn check_authorized(authorized: bool) -> (r: Result<(), Failure>)
    ensures
        failure::outcome(r) == if authorized {
            Ok::<(), Seq<char>>(())
        } else {
            Err("Telegram did not retain the new authorization"@)
        },
{
    if authorized {
        Ok(())
    } else {
        Err(Failure::new("Telegram did not retain the new authorization"))
    }
}

/// What is typed is taken as it is, a line without the whitespace around it; nothing, or too much, is
/// refused.
pub proof fn law_login_input(a: Seq<char>, value: Seq<char>, b: Seq<char>, max: nat)
    requires
        scan::blank(a),
        scan::blank(b),
        scan::tight(value),
        value.len() > 0,
    ensures
        value.len() <= max ==> answer(value, max) == Ok::<Seq<char>, Seq<char>>(value),
        value.len() <= max ==> line_answer(a + value + b, max) == Ok::<Seq<char>, Seq<char>>(value),
        value.len() > max ==> answer(value, max) is Err,
        value.len() > max ==> line_answer(a + value + b, max) is Err,
        answer(Seq::empty(), max) is Err,
        line_answer(a + b, max) is Err,
{
    scan::law_trim(a, value, b);
    let none = Seq::<char>::empty();
    scan::law_trim(a, none, b);
    assert(a + none + b =~= a + b);
}

/// A hint is shown without the characters that would not be seen, and nothing else of it is lost up to 80
/// characters.
pub proof fn law_hint_shown(a: Seq<char>, b: Seq<char>, hint: Seq<char>)
    ensures
        printable(a + b) == printable(a) + printable(b),
        (forall|i: int| 0 <= i < hint.len() ==> !text::is_control(#[trigger] hint[i])) && 0
            < hint.len() <= 80 ==> password_words(Some(hint)) == "Telegram 2FA password (hint: "@
            + hint + "): "@,
        password_words(None) == "Telegram 2FA password: "@,
    decreases b.len() + hint.len(),
{
    if b.len() == 0 {
        assert(a + b =~= a);
        assert(printable(a) + printable(b) =~= printable(a));
    } else {
        assert((a + b).drop_last() =~= a + b.drop_last());
        law_hint_shown(a, b.drop_last(), Seq::empty());
        assert(printable(a + b) =~= printable(a) + printable(b));
    }
    if forall|i: int| 0 <= i < hint.len() ==> !text::is_control(#[trigger] hint[i]) {
        lemma_all_printable(hint);
    }
}

proof fn lemma_all_printable(s: Seq<char>)
    requires
        forall|i: int| 0 <= i < s.len() ==> !text::is_control(#[trigger] s[i]),
    ensures
        printable(s) == s,
    decreases s.len(),
{
    if s.len() > 0 {
        assert forall|i: int| 0 <= i < s.drop_last().len() implies !text::is_control(
            #[trigger] s.drop_last()[i],
        ) by {
            assert(s.drop_last()[i] == s[i]);
        }
        lemma_all_printable(s.drop_last());
        assert(!text::is_control(s[s.len() - 1]));
        assert(s.drop_last().push(s.last()) =~= s);
    }
}

/// After the code, the password is asked for exactly if it is needed; a wrong code, a wrong password and
/// anything else end the login.
pub proof fn law_login_course(message: Seq<char>)
    ensures
        code_reply(SignIn::Done, message) == Ok::<LoginStep, Seq<char>>(LoginStep::Confirm),
        code_reply(SignIn::PasswordRequired, message) == Ok::<LoginStep, Seq<char>>(
            LoginStep::AskPassword,
        ),
        code_reply(SignIn::InvalidCode, message) is Err,
        code_reply(SignIn::SignUpRequired, message) is Err,
        code_reply(SignIn::Other, message) == Err::<LoginStep, Seq<char>>(
            "Telegram login failed"@ + ": "@ + message,
        ),
        password_reply(SignIn::Done, message) == Ok::<LoginStep, Seq<char>>(LoginStep::Confirm),
        password_reply(SignIn::InvalidPassword, message) is Err,
        password_reply(SignIn::Other, message) == Err::<LoginStep, Seq<char>>(
            "Telegram 2FA login failed"@ + ": "@ + message,
        ),
{
}

/// How long what is typed in may be, and how one is asked for it.
pub proof fn law_limits()
    ensures
        PHONE_CHARS == 64,
        CODE_CHARS == 32,
        PASSWORD_CHARS == 1024,
        PHONE_PROMPT@ == "Phone number in international format: "@,
        CODE_PROMPT@ == "Login code: "@,
{
}

} // verus!
