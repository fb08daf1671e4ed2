//! The address of an AI service: what is accepted, and in what form it is kept.

use crate::failure;
use crate::failure::Failure;
use crate::scan;
use crate::text;
use reqwest::Url;
use vstd::prelude::*;

verus! {

/// The parts of a URL. The parameter is the type of the texts in it.
pub struct UrlParts<S> {
    pub scheme: S,
    pub host: Option<S>,
    pub username: S,
    pub password: Option<S>,
    pub query: Option<S>,
    pub fragment: Option<S>,
}

pub open spec fn optional_text(s: Option<String>) -> Option<Seq<char>> {
    match s {
        Some(s) => Some(s@),
        None => None,
    }
}

impl View for UrlParts<String> {
    type V = UrlParts<Seq<char>>;

    open spec fn view(&self) -> UrlParts<Seq<char>> {
        UrlParts {
            scheme: self.scheme@,
            host: optional_text(self.host),
            username: self.username@,
            password: optional_text(self.password),
            query: optional_text(self.query),
            fragment: optional_text(self.fragment),
        }
    }
}

/// What `reqwest::Url::parse` makes of a text: the parts that its `scheme`, `host_str`, `username`,
/// `password`, `query` and `fragment` give, or the message of its error.
pub uninterp spec fn url_parts(s: Seq<char>) -> Result<UrlParts<Seq<char>>, Seq<char>>;

/// Parses a text with `reqwest::Url::parse` and takes the URL apart with its accessors. The parts, or
/// the message of the error, depend on the text alone.
#[verifier::external_body]
fn parse_url(s: &str) -> (r: Result<UrlParts<String>, String>)
    ensures
        match r {
            Ok(parts) => url_parts(s@) == Ok::<UrlParts<Seq<char>>, Seq<char>>(parts@),
            Err(e) => url_parts(s@) == Err::<UrlParts<Seq<char>>, Seq<char>>(e@),
        },
{
    let url = Url::parse(s).map_err(|e| e.to_string())?;
    Ok(UrlParts {
        scheme: url.scheme().to_owned(),
        host: url.host_str().map(str::to_owned),
        username: url.username().to_owned(),
        password: url.password().map(str::to_owned),
        query: url.query().map(str::to_owned),
        fragment: url.fragment().map(str::to_owned),
    })
}

/// A text without slashes at its end.
pub open spec fn without_slashes(s: Seq<char>) -> Seq<char>
    decreases s.len(),
{
    if s.len() > 0 && s.last() == '/' {
        without_slashes(s.drop_last())
    } else {
        s
    }
}

/// The form in which an address is kept: without whitespace around it and slashes at its end.
pub open spec fn tidy_url(s: Seq<char>) -> Seq<char> {
    without_slashes(scan::trimmed(s))
}

/// Whether a host is this machine.
pub open spec fn is_loopback(host: Option<Seq<char>>) -> bool {
    match host {
        Some(h) => scan::lowered(h) == scan::lowered("localhost"@) || h == "127.0.0.1"@ || h
            == "::1"@,
        None => false,
    }
}

/// Accepts an address in the form in which it is kept, given what parsing that brought.
pub open spec fn accepted_url(
    tidy: Seq<char>,
    parts: Result<UrlParts<Seq<char>>, Seq<char>>,
) -> Result<Seq<char>, Seq<char>> {
    match parts {
        Err(cause) => Err(failure::because("BaseURL 无效"@, cause)),
        Ok(p) => if p.scheme != "https"@ && !(p.scheme == "http"@ && is_loopback(p.host)) {
            Err("BaseURL 必须使用 HTTPS；只有本机回环地址可使用 HTTP"@)
        } else if p.username.len() > 0 || p.password is Some || p.query is Some || p.fragment
            is Some {
            Err("BaseURL 不能包含账号、查询参数或片段"@)
        } else {
            Ok(tidy)
        },
    }
}

/// The address that is kept for one that is given.
pub open spec fn normalized_url(s: Seq<char>) -> Result<Seq<char>, Seq<char>> {
    let tidy = tidy_url(s);
    if text::utf8_len(tidy) > 256 {
        Err("BaseURL 过长"@)
    } else {
        accepted_url(tidy, url_parts(tidy))
    }
}

proof fn lemma_without_slashes(s: Seq<char>)
    ensures
        without_slashes(s).len() <= s.len(),
        without_slashes(s) == s.take(without_slashes(s).len() as int),
        without_slashes(s).len() > 0 ==> without_slashes(s).last() != '/',
        without_slashes(without_slashes(s)) == without_slashes(s),
    decreases s.len(),
{
    if s.len() > 0 && s.last() == '/' {
        lemma_without_slashes(s.drop_last());
        let n = without_slashes(s).len() as int;
        assert(s.drop_last().take(n) =~= s.take(n));
    } else {
        assert(s.take(s.len() as int) =~= s);
    }
}

/// An address without whitespace in it stays as it is once it has been accepted.
pub proof fn law_accepted_url_is_stable(s: Seq<char>, kept: Seq<char>)
    requires
        forall|i: int| 0 <= i < s.len() ==> !#[trigger] text::is_space(s[i]),
        normalized_url(s) == Ok::<Seq<char>, Seq<char>>(kept),
    ensures
        normalized_url(kept) == Ok::<Seq<char>, Seq<char>>(kept),
{
    assert(scan::trimmed_start(s) == s);
    assert(scan::trimmed_end(s) == s);
    lemma_without_slashes(s);
    let k = without_slashes(s);
    assert(kept == k);
    assert forall|i: int| 0 <= i < k.len() implies !#[trigger] text::is_space(k[i]) by {
        assert(k[i] == s[i]);
    }
    assert(scan::trimmed_start(k) == k);
    assert(scan::trimmed_end(k) == k);
}

/// A text without slashes at its end.
pub fn strip_slashes(s: &str) -> (r: String)
    ensures
        r@ == without_slashes(s@),
{
    let v = text::chars(s);
    let mut n: usize = v.len();
    proof {
        assert(s@.take(n as int) =~= s@);
    }
    while n > 0 && v[n - 1] == '/'
        invariant
            n <= v@.len(),
            v@ == s@,
            without_slashes(s@.take(n as int)) == without_slashes(s@),
        decreases n,
    {
        proof {
            assert(s@.take(n as int).drop_last() =~= s@.take(n - 1));
        }
        n = n - 1;
    }
    let r = text::slice(&v, 0, n);
    proof {
        assert(r@ =~= s@.take(n as int));
    }
    r
}

fn loopback(host: &Option<String>) -> (r: bool)
    ensures
        r == is_loopback(optional_text(*host)),
{
    match host {
        Some(h) => scan::same_ignoring_case(h.as_str(), "localhost") || text::same(
            h.as_str(),
            "127.0.0.1",
        ) || text::same(h.as_str(), "::1"),
        None => false,
    }
}

/// Accepts an address in the form in which it is kept, given what parsing that brought: the parts, or
/// why there are none.
pub fn check_base_url(tidy: &str, parts: &Result<UrlParts<String>, String>) -> (r: Result<
    String,
    Failure,
>)
    ensures
        failure::text_outcome(r) == accepted_url(
            tidy@,
            match *parts {
                Ok(p) => Ok(p@),
                Err(e) => Err(e@),
            },
        ),
{
    match parts {
        Err(cause) => Err(Failure::caused("BaseURL 无效", cause.as_str())),
        Ok(p) => {
            if !text::same(p.scheme.as_str(), "https") && !(text::same(p.scheme.as_str(), "http")
                && loopback(&p.host)) {
                return Err(
                    Failure::new("BaseURL 必须使用 HTTPS；只有本机回环地址可使用 HTTP"),
                );
            }
            if text::char_len(p.username.as_str()) > 0 || p.password.is_some() || p.query.is_some()
                || p.fragment.is_some() {
                return Err(Failure::new("BaseURL 不能包含账号、查询参数或片段"));
            }
            Ok(tidy.to_owned())
        },
    }
}

/// The address that is kept for one that is given, if it is accepted.
pub fn normalize_base_url(value: &str) -> (r: Result<String, Failure>)
    ensures
        failure::text_outcome(r) == normalized_url(value@),
{
    let trimmed = scan::trim(value);
    let tidy = strip_slashes(trimmed.as_str());
    if text::byte_len(tidy.as_str()) > 256 {
        return Err(Failure::new("BaseURL 过长"));
    }
    let parts = parse_url(tidy.as_str());
    check_base_url(tidy.as_str(), &parts)
}

// ---------------------------------------------------------------------------------------------
// Laws
// ---------------------------------------------------------------------------------------------

/// An address loses the whitespace around it and the slashes at its end, and nothing else.
pub proof fn law_tidy_url(a: Seq<char>, url: Seq<char>, slashes: nat, b: Seq<char>)
    requires
        scan::blank(a),
        scan::blank(b),
        url.len() > 0,
        !text::is_space(url[0]),
        !text::is_space(url.last()),
        url.last() != '/',
    ensures
        tidy_url(a + (url + scan::repeated(seq!['/'], slashes)) + b) == url,
        without_slashes(url) == url,
        without_slashes(url.push('/')) == url,
{
    let t = url + scan::repeated(seq!['/'], slashes);
    lemma_slashes(url, slashes);
    assert(t[0] == url[0]);
    assert(scan::tight(t)) by {
        if slashes > 0 {
            assert(t.last() == '/');
        }
    }
    scan::law_trim(a, t, b);
    assert(url.push('/').drop_last() =~= url);
    assert(without_slashes(url) == url);
    assert(without_slashes(url.push('/')) == without_slashes(url.push('/').drop_last()));
}

proof fn lemma_slashes(url: Seq<char>, n: nat)
    requires
        url.len() > 0,
        url.last() != '/',
    ensures
        without_slashes(url + scan::repeated(seq!['/'], n)) == url,
        n > 0 ==> (url + scan::repeated(seq!['/'], n)).last() == '/',
        n == 0 ==> url + scan::repeated(seq!['/'], n) == url,
    decreases n,
{
    let t = url + scan::repeated(seq!['/'], n);
    if n == 0 {
        assert(t =~= url);
    } else {
        lemma_slashes(url, (n - 1) as nat);
        assert(t.drop_last() =~= url + scan::repeated(seq!['/'], (n - 1) as nat));
    }
}

/// An address is accepted, as it is, exactly if it uses HTTPS, or HTTP with this machine, and names no
/// account, no query and no fragment.
pub proof fn law_accepted_url(tidy: Seq<char>, p: UrlParts<Seq<char>>, cause: Seq<char>)
    ensures
        ({
            let local = p.host matches Some(h) && (scan::lowered(h) == "localhost"@ || h
                == "127.0.0.1"@ || h == "::1"@);
            let fine = (p.scheme == "https"@ || (p.scheme == "http"@ && local)) && p.username.len()
                == 0 && p.password is None && p.query is None && p.fragment is None;
            &&& fine ==> accepted_url(tidy, Ok(p)) == Ok::<Seq<char>, Seq<char>>(tidy)
            &&& p.scheme != "https"@ && !(p.scheme == "http"@ && local) ==> accepted_url(tidy, Ok(p))
                == Err::<Seq<char>, Seq<char>>(
                "BaseURL 必须使用 HTTPS；只有本机回环地址可使用 HTTP"@,
            )
            &&& (p.scheme == "https"@ || (p.scheme == "http"@ && local)) && !fine ==> accepted_url(
                tidy,
                Ok(p),
            ) == Err::<Seq<char>, Seq<char>>("BaseURL 不能包含账号、查询参数或片段"@)
            &&& accepted_url(tidy, Err(cause)) == Err::<Seq<char>, Seq<char>>(
                "BaseURL 无效"@ + ": "@ + cause,
            )
        }),
{
    reveal_strlit("localhost");
    assert(scan::lowered("localhost"@) =~= "localhost"@);
}

/// What comes out of an address is the tidy form of it, or nothing.
pub proof fn law_normalized_url(s: Seq<char>)
    ensures
        normalized_url(s) matches Ok(url) ==> url == tidy_url(s) && text::utf8_len(url) <= 256,
        text::utf8_len(tidy_url(s)) > 256 ==> normalized_url(s) == Err::<Seq<char>, Seq<char>>(
            "BaseURL 过长"@,
        ),
        text::utf8_len(tidy_url(s)) <= 256 ==> normalized_url(s) == accepted_url(
            tidy_url(s),
            url_parts(tidy_url(s)),
        ),
{
}

} // verus!
