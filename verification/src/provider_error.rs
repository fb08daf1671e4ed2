//! Errors of AI services: what they say, and whether and when to try again.

use crate::number;
use crate::scan;
use crate::text;
use vstd::prelude::*;

verus! {

/// One second, in nanoseconds.
pub const SECOND: u128 = 1_000_000_000;

/// One millisecond, in nanoseconds.
pub const MILLISECOND: u128 = 1_000_000;

#[derive(Debug, PartialEq, Eq)]
pub struct ProviderError {
    pub message: String,
    /// Whether another attempt may succeed.
    pub transient: bool,
    /// The seconds after which the service asked to be tried again.
    pub retry_after: Option<u64>,
}

#[verifier::ext_equal]
pub struct ErrorModel {
    pub message: Seq<char>,
    pub transient: bool,
    pub retry_after: Option<u64>,
}

impl View for ProviderError {
    type V = ErrorModel;

    open spec fn view(&self) -> ErrorModel {
        ErrorModel {
            message: self.message@,
            transient: self.transient,
            retry_after: self.retry_after,
        }
    }
}

impl Clone for ProviderError {
    fn clone(&self) -> (r: Self)
        ensures
            r@ == self@,
    {
        ProviderError {
            message: self.message.clone(),
            transient: self.transient,
            retry_after: self.retry_after,
        }
    }
}

pub open spec fn transient_error(message: Seq<char>) -> ErrorModel {
    ErrorModel { message, transient: true, retry_after: None }
}

pub open spec fn permanent_error(message: Seq<char>) -> ErrorModel {
    ErrorModel { message, transient: false, retry_after: None }
}

/// HTTP statuses after which another attempt may succeed: a timeout, a conflict, too many requests,
/// and what lies with the server.
pub open spec fn transient_status(status: u16) -> bool {
    status == 408 || status == 409 || status == 429 || 500 <= status < 600
}

pub open spec fn one_line_char(c: char) -> char {
    if c == '\r' || c == '\n' {
        ' '
    } else {
        c
    }
}

/// A text with spaces in place of line breaks.
pub open spec fn one_line(s: Seq<char>) -> Seq<char> {
    s.map_values(|c: char| one_line_char(c))
}

/// A text with a key blotted out.
pub open spec fn redacted(s: Seq<char>, key: Seq<char>) -> Seq<char> {
    if key.len() == 0 {
        s
    } else {
        scan::replaced(s, key, "[redacted]"@)
    }
}

/// What is shown of a service's error message: the key blotted out, on one line, at most 500
/// characters.
pub open spec fn sanitized(s: Seq<char>, key: Seq<char>) -> Seq<char> {
    scan::first_chars(one_line(redacted(s, key)), 500)
}

pub open spec fn http_error(
    status: u16,
    message: Seq<char>,
    retry_after: Option<u64>,
    key: Seq<char>,
) -> ErrorModel {
    ErrorModel {
        message: "provider HTTP "@ + number::decimal(status as nat) + ": "@ + sanitized(
            message,
            key,
        ),
        transient: transient_status(status),
        retry_after,
    }
}

/// The seconds that the header `Retry-After` gives.
pub open spec fn retry_after_header(header: Option<Seq<char>>) -> Option<u64> {
    match header {
        Some(s) => match number::unsigned_value(scan::trimmed(s), u64::MAX as nat) {
            Ok(n) => Some(n as u64),
            Err(_) => None,
        },
        None => None,
    }
}

// ---------------------------------------------------------------------------------------------
// Proofs
// ---------------------------------------------------------------------------------------------

/// What is shown of a service's error message is one line of at most 500 characters.
pub proof fn law_shown_error_is_short(s: Seq<char>, key: Seq<char>)
    ensures
        sanitized(s, key).len() <= 500,
        !sanitized(s, key).contains('\n'),
        !sanitized(s, key).contains('\r'),
{
    let t = one_line(redacted(s, key));
    let r = sanitized(s, key);
    assert forall|i: int| 0 <= i < r.len() implies r[i] != '\n' && r[i] != '\r' by {
        assert(r[i] == t[i]);
        assert(t[i] == one_line_char(redacted(s, key)[i]));
    }
}

proof fn lemma_no_occurrence_inside(s: Seq<char>, key: Seq<char>, i: int)
    requires
        key.len() > 0,
        !key.contains('['),
        !key.contains(']'),
        !scan::has("redacted"@, key),
    ensures
        !scan::occurs(scan::replaced(s, key, "[redacted]"@), key, i),
    decreases s.len(),
{
    reveal_strlit("[redacted]");
    reveal_strlit("redacted");
    let blot = "[redacted]"@;
    let inner = "redacted"@;
    let r = scan::replaced(s, key, blot);
    if scan::occurs(r, key, i) {
        assert(r.subrange(i, i + key.len()) == key);
        if s.len() < key.len() {
        } else if scan::starts(s, key) {
            let rest = s.skip(key.len() as int);
            let tail = scan::replaced(rest, key, blot);
            assert(r == blot + tail);
            if i >= 10 {
                assert(tail.subrange(i - 10, i - 10 + key.len()) =~= r.subrange(i, i + key.len()));
                lemma_no_occurrence_inside(rest, key, i - 10);
            } else if i == 0 {
                assert(r[0] == '[');
                assert(key[0] == r.subrange(i, i + key.len())[0]);
                assert(key.contains('['));
            } else if i + key.len() >= 10 {
                assert(r[9] == ']');
                assert(key[9 - i] == r.subrange(i, i + key.len())[9 - i]);
                assert(key.contains(']'));
            } else {
                assert forall|j: int| 0 <= j < key.len() implies inner[i - 1 + j] == #[trigger] key[j] by {
                    assert(key[j] == r.subrange(i, i + key.len())[j]);
                    assert(r[i + j] == blot[i + j]);
                    assert(blot[i + j] == inner[i - 1 + j]);
                }
                assert(inner.subrange(i - 1, i - 1 + key.len()) =~= key);
                assert(scan::occurs(inner, key, i - 1));
            }
        } else {
            let rest = s.skip(1);
            let tail = scan::replaced(rest, key, blot);
            assert(r == seq![s[0]] + tail);
            if i >= 1 {
                assert(tail.subrange(i - 1, i - 1 + key.len()) =~= r.subrange(i, i + key.len()));
                lemma_no_occurrence_inside(rest, key, i - 1);
            } else {
                assert forall|j: int| 0 <= j < key.len() implies #[trigger] r[j] != '[' by {
                    assert(key[j] == r.subrange(i, i + key.len())[j]);
                    assert(key.contains(key[j]));
                }
                lemma_kept_prefix(s, key, key.len() as int);
                assert(s.subrange(0, key.len() as int) =~= s.take(key.len() as int));
                assert(r.subrange(0, key.len() as int) =~= r.take(key.len() as int));
            }
        }
    }
}

/// As far as a blotted text holds no bracket, it reads as the text did.
proof fn lemma_kept_prefix(s: Seq<char>, key: Seq<char>, n: int)
    requires
        key.len() > 0,
        0 <= n <= scan::replaced(s, key, "[redacted]"@).len(),
        forall|j: int| 0 <= j < n ==> #[trigger] scan::replaced(s, key, "[redacted]"@)[j] != '[',
    ensures
        n <= s.len(),
        scan::replaced(s, key, "[redacted]"@).take(n) == s.take(n),
    decreases s.len(),
{
    reveal_strlit("[redacted]");
    let blot = "[redacted]"@;
    let r = scan::replaced(s, key, blot);
    if s.len() < key.len() {
    } else if scan::starts(s, key) {
        if n > 0 {
            assert(r[0] == '[');
        }
        assert(r.take(0) =~= s.take(0));
    } else {
        let rest = s.skip(1);
        let tail = scan::replaced(rest, key, blot);
        assert(r == seq![s[0]] + tail);
        if n > 0 {
            assert forall|j: int| 0 <= j < n - 1 implies #[trigger] tail[j] != '[' by {
                assert(r[j + 1] == tail[j]);
            }
            lemma_kept_prefix(rest, key, n - 1);
            assert(r.take(n) =~= seq![s[0]] + tail.take(n - 1));
            assert(s.take(n) =~= seq![s[0]] + rest.take(n - 1));
        } else {
            assert(r.take(0) =~= s.take(0));
        }
    }
}

/// What is shown of a service's error message does not hold the key: for keys without whitespace, as
/// all are, that have no bracket in them and are no part of the word that takes their place.
pub proof fn law_shown_error_hides_key(s: Seq<char>, key: Seq<char>)
    requires
        key.len() > 0,
        forall|i: int| 0 <= i < key.len() ==> !#[trigger] text::is_space(key[i]),
        !key.contains('['),
        !key.contains(']'),
        !scan::has("redacted"@, key),
    ensures
        !scan::has(sanitized(s, key), key),
{
    let r = redacted(s, key);
    let t = one_line(r);
    let shown = sanitized(s, key);
    if scan::has(shown, key) {
        let i = choose|i: int| scan::occurs(shown, key, i);
        assert(shown.subrange(i, i + key.len()) == key);
        assert forall|j: int| 0 <= j < key.len() implies r[i + j] == #[trigger] key[j] by {
            assert(key[j] == shown.subrange(i, i + key.len())[j]);
            assert(shown[i + j] == t[i + j]);
            assert(t[i + j] == one_line_char(r[i + j]));
            assert(!text::is_space(key[j]));
        }
        assert(r.subrange(i, i + key.len()) =~= key);
        lemma_no_occurrence_inside(s, key, i);
        assert(scan::occurs(r, key, i));
    }
}

// ---------------------------------------------------------------------------------------------
// Making errors
// ---------------------------------------------------------------------------------------------

/// A text with spaces in place of line breaks.
fn single_line(s: &str) -> (r: String)
    ensures
        r@ == one_line(s@),
{
    let v = text::chars(s);
    let n: usize = v.len();
    let mut out: Vec<char> = Vec::new();
    let mut i: usize = 0;
    while i < n
        invariant
            i <= n,
            n == v@.len(),
            v@ == s@,
            out@.len() == i,
            forall|j: int| 0 <= j < i ==> #[trigger] out@[j] == one_line_char(v@[j]),
        decreases n - i,
    {
        let c: char = v[i];
        if c == '\r' || c == '\n' {
            out.push(' ');
        } else {
            out.push(c);
        }
        i = i + 1;
    }
    proof {
        assert(out@ =~= one_line(s@));
    }
    text::string(&out)
}

pub fn sanitize_provider_error(value: &str, api_key: &str) -> (r: String)
    ensures
        r@ == sanitized(value@, api_key@),
{
    let hidden = if text::char_len(api_key) == 0 {
        value.to_owned()
    } else {
        scan::replace(value, api_key, "[redacted]")
    };
    let line = single_line(hidden.as_str());
    scan::take_chars(line.as_str(), 500)
}

pub fn is_transient_status(status: u16) -> (r: bool)
    ensures
        r == transient_status(status),
{
    status == 429 || status == 408 || status == 409 || (status >= 500 && status < 600)
}

/// The seconds that the header `Retry-After` gives, if there is one and it gives any.
pub fn retry_after_delay(header: Option<&str>) -> (r: Option<u64>)
    ensures
        r == retry_after_header(
            match header {
                Some(s) => Some(s@),
                None => None,
            },
        ),
{
    match header {
        Some(s) => match number::read_unsigned(scan::trim(s).as_str(), u64::MAX) {
            Ok(n) => Some(n),
            Err(_) => None,
        },
        None => None,
    }
}

/// A number below `bound`, drawn by `rand::random_range`. Which one is left to chance.
#[verifier::external_body]
fn random_below(bound: u64) -> (r: u64)
    requires
        bound > 0,
    ensures
        r < bound,
{
    rand::random_range(0..bound)
}

impl ProviderError {
    /// An error after which another attempt may succeed.
    pub fn transient(message: &str) -> (r: ProviderError)
        ensures
            r@ == transient_error(message@),
    {
        ProviderError { message: message.to_owned(), transient: true, retry_after: None }
    }

    pub fn permanent(message: &str) -> (r: ProviderError)
        ensures
            r@ == permanent_error(message@),
    {
        ProviderError { message: message.to_owned(), transient: false, retry_after: None }
    }

    /// The error of a reply with a status that is no success.
    pub fn http(status: u16, message: &str, retry_after: Option<u64>, api_key: &str) -> (r:
        ProviderError)
        ensures
            r@ == http_error(status, message@, retry_after, api_key@),
    {
        let mut full = "provider HTTP ".to_owned();
        full.append(number::write(status as u64).as_str());
        full.append(": ");
        full.append(sanitize_provider_error(message, api_key).as_str());
        ProviderError { message: full, transient: is_transient_status(status), retry_after }
    }

    /// The error of a request that brought no reply: whether that came of a timeout, of the
    /// connection, or of sending the request.
    pub fn from_transport(message: &str, timeout: bool, connect: bool, request: bool) -> (r:
        ProviderError)
        ensures
            r@ == (ErrorModel {
                message: message@,
                transient: timeout || connect || request,
                retry_after: None,
            }),
    {
        ProviderError {
            message: message.to_owned(),
            transient: timeout || connect || request,
            retry_after: None,
        }
    }

    /// How long to wait before another attempt, in nanoseconds: as long as the service asked, or
    /// 150 milliseconds and `jitter` more.
    pub fn delay_with(&self, jitter: u64) -> (r: u128)
        ensures
            r == match self.retry_after {
                Some(seconds) => seconds * SECOND,
                None => (150 + jitter) * MILLISECOND,
            },
    {
        match self.retry_after {
            Some(seconds) => {
                proof {
                    assert(seconds as u128 * 1_000_000_000 <= u128::MAX) by (nonlinear_arith)
                        requires
                            seconds <= u64::MAX,
                    ;
                }
                seconds as u128 * SECOND
            },
            None => {
                (150 + jitter as u128) * MILLISECOND
            },
        }
    }

    /// How long to wait before another attempt, in nanoseconds: as long as the service asked, or
    /// from 150 up to 300 milliseconds, as chance has it.
    pub fn retry_delay(&self) -> (r: u128)
        ensures
            match self.retry_after {
                Some(seconds) => r == seconds * SECOND,
                None => 150 * MILLISECOND <= r < 300 * MILLISECOND,
            },
    {
        self.delay_with(random_below(150))
    }
}

// ---------------------------------------------------------------------------------------------
// Laws
// ---------------------------------------------------------------------------------------------

/// Which statuses may pass: time-outs, conflicts, too many requests, and errors of the server.
pub proof fn law_transient_statuses(status: u16)
    ensures
        transient_status(408) && transient_status(409) && transient_status(429),
        500 <= status <= 599 ==> transient_status(status),
        status < 408 || 409 < status < 429 || 429 < status < 500 || status > 599
            ==> !transient_status(status),
{
}

/// A message that is short, of one line and without the key is shown as it is; the key in it is covered.
pub proof fn law_shown_error(a: Seq<char>, key: Seq<char>, b: Seq<char>)
    requires
        key.len() > 0,
        a.len() + b.len() + 10 <= 500,
        !a.contains('\n') && !a.contains('\r') && !b.contains('\n') && !b.contains('\r'),
        !scan::has(a, key),
        !scan::has(b, key),
        forall|j: int| 0 <= j < a.len() ==> !#[trigger] scan::occurs(a + key + b, key, j),
    ensures
        sanitized(a, key) == a,
        sanitized(a, Seq::empty()) == a,
        sanitized(a + key + b, key) == a + "[redacted]"@ + b,
{
    reveal_strlit("[redacted]");
    scan::law_replaced(a, key, "[redacted]"@, 0);
    scan::law_replaced(b, key, "[redacted]"@, 0);
    let s = a + key + b;
    assert(s.subrange(a.len() as int, (a.len() + key.len()) as int) =~= key);
    scan::law_replaced(s, key, "[redacted]"@, a.len() as int);
    assert(s.take(a.len() as int) =~= a);
    assert(s.skip((a.len() + key.len()) as int) =~= b);
    lemma_one_line(a);
    let t = a + "[redacted]"@ + b;
    assert forall|c: char| t.contains(c) && (c == '\n' || c == '\r') implies false by {
        let i = choose|i: int| 0 <= i < t.len() && t[i] == c;
        if i < a.len() {
            assert(a[i] == c);
        } else if i < a.len() + 10 {
            assert("[redacted]"@[i - a.len()] == c);
        } else {
            assert(b[i - a.len() - 10] == c);
        }
    }
    lemma_one_line(t);
}

proof fn lemma_one_line(s: Seq<char>)
    requires
        !s.contains('\n'),
        !s.contains('\r'),
    ensures
        one_line(s) == s,
{
    assert forall|i: int| 0 <= i < s.len() implies one_line(s)[i] == s[i] by {
        assert(s.contains(s[i]));
    }
    assert(one_line(s) =~= s);
}

/// Line breaks become spaces, each one, and of a long message the first 500 characters are shown.
pub proof fn law_shown_error_line(s: Seq<char>, i: int)
    requires
        0 <= i < s.len(),
    ensures
        one_line(s).len() == s.len(),
        s[i] == '\n' || s[i] == '\r' ==> one_line(s)[i] == ' ',
        s[i] != '\n' && s[i] != '\r' ==> one_line(s)[i] == s[i],
        s.len() > 500 ==> sanitized(s, Seq::empty()) == one_line(s).take(500),
{
}

/// An error of the service says its status and what the service said, whether it may pass, and when to try
/// again.
pub proof fn law_http_error(status: u16, message: Seq<char>, retry_after: Option<u64>, key: Seq<char>)
    ensures
        ({
            let e = http_error(status, message, retry_after, key);
            &&& e.message == "provider HTTP "@ + number::decimal(status as nat) + ": "@ + sanitized(
                message,
                key,
            )
            &&& e.transient == (status == 408 || status == 409 || status == 429 || 500 <= status
                <= 599)
            &&& e.retry_after == retry_after
        }),
        transient_error(message).transient && transient_error(message).message == message,
        !permanent_error(message).transient && permanent_error(message).message == message,
        transient_error(message).retry_after is None && permanent_error(message).retry_after is None,
        SECOND == 1_000 * MILLISECOND,
        MILLISECOND == 1_000_000,
{
}

/// The header that says when to try again holds seconds, with whitespace around them or not.
pub proof fn law_retry_header(a: Seq<char>, n: u64, b: Seq<char>)
    requires
        scan::blank(a),
        scan::blank(b),
    ensures
        retry_after_header(Some(a + number::decimal(n as nat) + b)) == Some(n),
        retry_after_header(None) is None,
        retry_after_header(Some(a + b)) is None,
{
    number::law_decimal_round_trip(n as nat, u64::MAX as nat);
    lemma_digits_tight(n as nat);
    scan::law_trim(a, number::decimal(n as nat), b);
    let none = Seq::<char>::empty();
    scan::law_trim(a, none, b);
    assert(a + none + b =~= a + b);
}

proof fn lemma_digits_tight(n: nat)
    ensures
        scan::tight(number::decimal(n)),
    decreases n,
{
    number::lemma_decimal_leads(n);
    let d = number::decimal(n);
    assert(d.last() == number::digit_char(n % 10));
    number::law_decimal_digits(0, n % 10);
}

} // verus!
