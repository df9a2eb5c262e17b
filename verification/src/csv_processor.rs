//! URL normalization and validation, and construction of probe outcomes
//! from the raw pieces a probe produces (status code, header dump, latency).

use crate::app_state::UrlResult;
use url::Url;
use vstd::prelude::*;
use vstd::string::*;

verus! {

/// The raw string holds a `@`, which marks it as a mail-like or
/// user-info-carrying string that validation rejects outright.
pub open spec fn contains_at_sign(s: Seq<char>) -> bool {
    exists|i: int| 0 <= i < s.len() && s[i] == '@'
}

/// The string already starts with `http://`.
pub open spec fn has_http_prefix(s: Seq<char>) -> bool {
    s.len() >= 7 && s.subrange(0, 7) == "http://"@
}

/// The string already starts with `https://`.
pub open spec fn has_https_prefix(s: Seq<char>) -> bool {
    s.len() >= 8 && s.subrange(0, 8) == "https://"@
}

/// The string carries an explicit scheme that normalization keeps.
pub open spec fn has_url_scheme(s: Seq<char>) -> bool {
    has_http_prefix(s) || has_https_prefix(s)
}

/// What validation hands to the URL parser: the string itself when it
/// already carries a scheme, otherwise the string behind `http://`.
pub open spec fn normalized_url(s: Seq<char>) -> Seq<char> {
    if has_url_scheme(s) {
        s
    } else {
        "http://"@ + s
    }
}

/// Law: a string without an explicit scheme is probed as itself behind
/// `http://` — validation never drops or rewrites any of its characters.
pub proof fn lemma_normalizer_prepends_scheme(s: Seq<char>)
    requires
        !has_url_scheme(s),
    ensures
        normalized_url(s) == "http://"@ + s,
{
}

/// Law: a string that already starts with `http://` or `https://` is handed
/// to the parser exactly as it came in.
pub proof fn lemma_normalizer_keeps_scheme(s: Seq<char>)
    requires
        has_url_scheme(s),
    ensures
        normalized_url(s) == s,
{
}

#[verifier::external_type_specification]
#[verifier::external_body]
pub struct ExUrl(Url);

/// Whether `url::Url::parse` accepts the string. Parsing follows the WHATWG
/// URL standard, a function of the characters alone, so the outcome only
/// gets a name here.
pub uninterp spec fn url_ok(s: Seq<char>) -> bool;

/// Relies on url::Url::parse: it returns `Ok` exactly when the string is a
/// well-formed absolute URL, and that depends on the string alone.
#[verifier::external_body]
fn parse_url(s: &str) -> (r: Option<Url>)
    ensures
        r is Some <==> url_ok(s@),
{
    Url::parse(s).ok()
}

/// Whether `s` starts with the literal `p`, compared character by
/// character.
fn starts_with_lit(s: &str, p: &str) -> (b: bool)
    ensures
        b <==> (s@.len() >= p@.len() && s@.subrange(0, p@.len() as int) == p@),
{
    let n = p.unicode_len();
    if s.unicode_len() < n {
        return false;
    }
    let mut i: usize = 0;
    while i < n
        invariant
            0 <= i <= n,
            n == p@.len(),
            s@.len() >= n,
            forall|j: int| 0 <= j < i ==> s@[j] == p@[j],
        decreases n - i,
    {
        if s.get_char(i) != p.get_char(i) {
            proof {
                assert(s@.subrange(0, n as int)[i as int] == s@[i as int]);
            }
            return false;
        }
        i += 1;
    }
    proof {
        assert(s@.subrange(0, n as int) =~= p@);
    }
    true
}

/// Whether the string holds a `@` anywhere.
fn str_contains_at(s: &str) -> (b: bool)
    ensures
        b == contains_at_sign(s@),
{
    let n = s.unicode_len();
    let mut i: usize = 0;
    while i < n
        invariant
            0 <= i <= n,
            n == s@.len(),
            forall|j: int| 0 <= j < i ==> s@[j] != '@',
        decreases n - i,
    {
        if s.get_char(i) == '@' {
            proof {
                assert(s@[i as int] == '@');
            }
            return true;
        }
        i += 1;
    }
    false
}

/// Validation and normalization of one record's raw URL string.
///
/// A string holding `@` is rejected outright. A string without an explicit
/// `http://` or `https://` scheme is probed as `http://` plus the string.
/// The normalized string is then parsed strictly; on success the single
/// validated target is returned, carrying the record's id, the parsed URL,
/// and the fixed protocol label `http` (the label does not follow the
/// parsed scheme).
pub fn validate_and_filter_domains(id: String, domain: String) -> (r: Option<
    Vec<(String, Url, String)>,
>)
    ensures
        (r is Some) <==> (!contains_at_sign(domain@) && url_ok(normalized_url(domain@))),
        r matches Some(v) ==> v@.len() == 1 && v@[0].0@ == id@ && v@[0].2@ == "http"@,
{
    let ghost d = domain@;
    if str_contains_at(domain.as_str()) {
        return None;
    }
    let scheme_present = starts_with_lit(domain.as_str(), "http://") || starts_with_lit(
        domain.as_str(),
        "https://",
    );
    proof {
        reveal_strlit("http://");
        reveal_strlit("https://");
        assert(scheme_present == has_url_scheme(d));
    }
    let url_str: String = if scheme_present {
        domain
    } else {
        String::from_str("http://").concat(domain.as_str())
    };
    proof {
        assert(url_str@ == normalized_url(d));
    }
    match parse_url(url_str.as_str()) {
        Some(u) => {
            let mut v: Vec<(String, Url, String)> = Vec::new();
            v.push((id, u, String::from_str("http")));
            Some(v)
        },
        None => None,
    }
}

/// The probe outcome for a record whose URL failed validation: no request
/// is made, the status code is zero, and the summary is the fixed invalid
/// marker.
pub fn invalid_url_result(id: String, domain: String) -> (r: UrlResult)
    ensures
        r.id == id,
        r.domain == domain,
        r.protocol@ == Seq::<char>::empty(),
        r.response_code == 0,
        r.response_time == 0,
        r.full_response@ == "INVALID domain or URL"@,
{
    UrlResult {
        id,
        domain,
        protocol: String::new(),
        response_code: 0,
        response_time: 0,
        full_response: String::from_str("INVALID domain or URL"),
    }
}

/// The probe outcome for a validated record, built from what came back on
/// the wire: on a response, its status code and a dump of its headers; on a
/// transport error (`probe` is `None`), status code zero and the fixed
/// error message.
pub fn build_probe_result(
    id: String,
    domain: String,
    protocol: String,
    probe: Option<(u16, String)>,
    response_time: u64,
) -> (r: UrlResult)
    ensures
        r.id == id,
        r.domain == domain,
        r.protocol == protocol,
        r.response_time == response_time,
        probe matches Some(p) ==> r.response_code == p.0 && r.full_response@ == "Headers: "@
            + p.1@,
        probe is None ==> r.response_code == 0 && r.full_response@ == "Error making request"@,
{
    match probe {
        Some((code, headers)) => UrlResult {
            id,
            domain,
            protocol,
            response_code: code,
            response_time,
            full_response: String::from_str("Headers: ").concat(headers.as_str()),
        },
        None => UrlResult {
            id,
            domain,
            protocol,
            response_code: 0,
            response_time,
            full_response: String::from_str("Error making request"),
        },
    }
}

} // verus!
