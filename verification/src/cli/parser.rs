use super::types::{KvPair, ValidationError};
use crate::text::{chars_of, text_between};
use vstd::prelude::*;

verus! {

/// What `reqwest::Url::parse` makes of `text`: `None` where it turns the text down, else
/// whether the URL that it returns has a host, as `Url::has_host` tells.
pub uninterp spec fn url_host(text: Seq<char>) -> Option<bool>;

/// Runs `reqwest::Url::parse` on `s` and, where it returns a URL, asks `has_host` of it.
/// The parser reads nothing but its argument, so the answer is the one that `url_host`
/// names.
#[verifier::external_body]
fn url_parsed(s: &str) -> (parsed: Option<bool>)
    ensures
        parsed == url_host(s@),
{
    match reqwest::Url::parse(s) {
        Ok(url) => Some(url.has_host()),
        Err(_) => None,
    }
}

/// Whether `text` is a valid URL argument: an absolute URL, with a scheme and a host.
pub open spec fn is_valid_url(text: Seq<char>) -> bool {
    url_host(text) == Some(true)
}

/// What validating a URL argument gives, once it is known what the parser made of the
/// text: the text itself, unchanged, where it is a URL with a host; `InvalidUrl` where the
/// parser turned it down or the URL has no host.
pub open spec fn url_verdict(text: Seq<char>, parsed: Option<bool>) -> Result<
    Seq<char>,
    ValidationError,
> {
    if parsed == Some(true) {
        Ok(text)
    } else {
        Err(ValidationError::InvalidUrl)
    }
}

/// Whether `r` is the executable form of `expected`.
pub open spec fn is_text_result(
    r: Result<String, ValidationError>,
    expected: Result<Seq<char>, ValidationError>,
) -> bool {
    match r {
        Ok(text) => expected == Ok::<Seq<char>, ValidationError>(text@),
        Err(e) => expected == Err::<Seq<char>, ValidationError>(e),
    }
}

/// Turns the parser's answer for `s` into the validated URL or the error.
pub fn checked_url(s: &str, parsed: Option<bool>) -> (r: Result<String, ValidationError>)
    ensures
        is_text_result(r, url_verdict(s@, parsed)),
{
    match parsed {
        Some(true) => Ok(s.to_owned()),
        _ => Err(ValidationError::InvalidUrl),
    }
}

/// Validates a URL argument: the argument comes back unchanged where it parses as an
/// absolute URL that has a host, and `InvalidUrl` where it does not parse or has none.
pub fn parse_url(s: &str) -> (r: Result<String, ValidationError>)
    ensures
        is_text_result(r, url_verdict(s@, url_host(s@))),
{
    checked_url(s, url_parsed(s))
}

/// Whether position `i` of `s` holds the first `=` of `s`.
pub open spec fn is_first_eq(s: Seq<char>, i: int) -> bool {
    &&& 0 <= i < s.len()
    &&& s[i] == '='
    &&& forall|j: int| 0 <= j < i ==> s[j] != '='
}

/// The key and the value of a `key=value` argument: what stands before its first `=` and
/// what stands after it. An argument without any `=` has no key.
pub open spec fn kv_of(s: Seq<char>) -> Result<(Seq<char>, Seq<char>), ValidationError> {
    if s.contains('=') {
        let i = choose|i: int| is_first_eq(s, i);
        Ok((s.take(i), s.skip(i + 1)))
    } else {
        Err(ValidationError::MissingKey)
    }
}

/// Whether `r` is the executable form of `expected`.
pub open spec fn is_pair_result(
    r: Result<KvPair, ValidationError>,
    expected: Result<(Seq<char>, Seq<char>), ValidationError>,
) -> bool {
    match r {
        Ok(pair) => expected == Ok::<(Seq<char>, Seq<char>), ValidationError>(pair@),
        Err(e) => expected == Err::<(Seq<char>, Seq<char>), ValidationError>(e),
    }
}

/// At most one position holds the first `=`.
pub proof fn lemma_first_eq_unique(s: Seq<char>, i: int, j: int)
    requires
        is_first_eq(s, i),
        is_first_eq(s, j),
    ensures
        i == j,
{
    if i < j {
        assert(s[i] != '=');
    } else if j < i {
        assert(s[j] != '=');
    }
}

/// Where some position of `s` holds an `=`, one position holds the first.
pub proof fn lemma_first_eq_exists(s: Seq<char>, p: int) -> (i: int)
    requires
        0 <= p < s.len(),
        s[p] == '=',
    ensures
        is_first_eq(s, i),
        i <= p,
    decreases p,
{
    if forall|j: int| 0 <= j < p ==> s[j] != '=' {
        p
    } else {
        let j = choose|j: int| 0 <= j < p && s[j] == '=';
        lemma_first_eq_exists(s, j)
    }
}

/// Every argument that holds an `=` has a key and a value: the key is what stands before
/// the first `=`, the value is all that stands after it, further `=` included, and the
/// three together are the argument again. The position of that first `=` is returned.
pub proof fn law_pair_splits_at_first_eq(s: Seq<char>) -> (i: int)
    requires
        s.contains('='),
    ensures
        is_first_eq(s, i),
        kv_of(s) == Ok::<(Seq<char>, Seq<char>), ValidationError>((s.take(i), s.skip(i + 1))),
        s == s.take(i) + seq!['='] + s.skip(i + 1),
{
    let p = choose|p: int| 0 <= p < s.len() && s[p] == '=';
    let i = lemma_first_eq_exists(s, p);
    lemma_first_eq_unique(s, i, choose|q: int| is_first_eq(s, q));
    assert(s =~= s.take(i) + seq!['='] + s.skip(i + 1));
    i
}

/// A key without `=`, an `=` and any value, put together, split into that key and that
/// value again, whatever further `=` the value holds.
pub proof fn law_pair_of_key_and_value(k: Seq<char>, v: Seq<char>)
    requires
        !k.contains('='),
    ensures
        kv_of(k + seq!['='] + v) == Ok::<(Seq<char>, Seq<char>), ValidationError>((k, v)),
{
    let s = k + seq!['='] + v;
    let n = k.len() as int;
    assert(s[n] == '=');
    assert forall|j: int| 0 <= j < n implies s[j] != '=' by {
        assert(s[j] == k[j]);
    }
    assert(is_first_eq(s, n));
    lemma_first_eq_unique(s, n, choose|q: int| is_first_eq(s, q));
    assert(s.take(n) =~= k);
    assert(s.skip(n + 1) =~= v);
}

/// An argument that holds no `=` has no key: it is turned down as `MissingKey`.
pub proof fn law_pair_without_eq_fails(s: Seq<char>)
    requires
        !s.contains('='),
    ensures
        kv_of(s) == Err::<(Seq<char>, Seq<char>), ValidationError>(ValidationError::MissingKey),
{
}

/// Splits a `key=value` argument at its first `=`. Every argument that holds an `=` is
/// accepted, with an empty key or an empty value too; one without is `MissingKey`.
pub fn parse_kv_pair(s: &str) -> (r: Result<KvPair, ValidationError>)
    ensures
        is_pair_result(r, kv_of(s@)),
{
    let chars = chars_of(s);
    let n = chars.len();
    let mut i: usize = 0;
    while i < n
        invariant
            n == chars.len(),
            chars@ == s@,
            i <= n,
            forall|j: int| 0 <= j < i ==> s@[j] != '=',
        decreases n - i,
    {
        if chars[i] == '=' {
            let k = text_between(&chars, 0, i);
            let v = text_between(&chars, i + 1, n);
            proof {
                assert(is_first_eq(s@, i as int));
                assert(s@.contains('='));
                lemma_first_eq_unique(s@, i as int, choose|p: int| is_first_eq(s@, p));
            }
            return Ok(KvPair { k, v });
        }
        i = i + 1;
    }
    proof {
        if s@.contains('=') {
            let p = choose|p: int| 0 <= p < s@.len() && s@[p] == '=';
            assert(s@[p] != '=');
        }
    }
    Err(ValidationError::MissingKey)
}

} // verus!
