use vstd::prelude::*;

use crate::strutil::{dec_digits, push_char, trimmed, u64_to_string};

verus! {

// The data the transport collaborator exchanges with the distribution
// service, and the pure rules around it: how a version identifier is turned
// into text, which endpoints serve a lookup, and when a connectivity probe
// counts as a success. The transport itself lives outside the library.

/// A version identifier as the service reports it: either a plain string or
/// a number.
#[derive(Debug)]
pub enum VersionId {
    Text(String),
    Number(i64),
}

/// The response to a latest-version lookup.
#[derive(Debug)]
pub struct VersionResponse {
    pub id: VersionId,
}

/// One downloadable package location.
#[derive(Debug)]
pub struct ContentUrl {
    pub size: u64,
    pub url: String,
}

/// The decimal text of an integer, with a leading minus sign when negative.
pub open spec fn int_digits(n: int) -> Seq<char> {
    if n < 0 {
        seq!['-'] + dec_digits((-n) as nat)
    } else {
        dec_digits(n as nat)
    }
}

/// The decimal text of a signed number.
pub fn i64_to_string(n: i64) -> (r: String)
    ensures
        r@ == int_digits(n as int),
{
    if n >= 0 {
        u64_to_string(n as u64)
    } else {
        let mut out = String::new();
        push_char(&mut out, '-');
        let mag: u64 = ((-(n + 1)) as u64) + 1;
        let digits = u64_to_string(mag);
        out.append(digits.as_str());
        proof {
            assert(mag as nat == (-(n as int)) as nat);
            assert(out@ =~= int_digits(n as int));
        }
        out
    }
}

impl VersionId {
    /// The identifier as text: a string as itself, a number in decimal.
    pub fn to_string(&self) -> (r: String)
        ensures
            self matches VersionId::Text(s) ==> r@ == s@,
            self matches VersionId::Number(n) ==> r@ == int_digits(n as int),
    {
        match self {
            VersionId::Text(s) => s.clone(),
            VersionId::Number(n) => i64_to_string(*n),
        }
    }
}

/// The endpoint that serves the latest version identifier of an application.
pub fn latest_version_url(api_url: &str, secret: &str) -> (r: String)
    ensures
        r@ == api_url@ + "/1/apps/"@ + secret@ + "/versions/latest/id"@,
{
    let mut out = api_url.to_owned();
    out.append("/1/apps/");
    out.append(secret);
    out.append("/versions/latest/id");
    proof {
        assert(out@ =~= api_url@ + "/1/apps/"@ + secret@ + "/versions/latest/id"@);
    }
    out
}

/// The endpoint that serves the content locations of one version.
pub fn content_urls_url(api_url: &str, secret: &str, version_id: &str) -> (r: String)
    ensures
        r@ == api_url@ + "/1/apps/"@ + secret@ + "/versions/"@ + version_id@ + "/content_urls"@,
{
    let mut out = api_url.to_owned();
    out.append("/1/apps/");
    out.append(secret);
    out.append("/versions/");
    out.append(version_id);
    out.append("/content_urls");
    proof {
        assert(out@ =~= api_url@ + "/1/apps/"@ + secret@ + "/versions/"@ + version_id@
            + "/content_urls"@);
    }
    out
}

/// Whether one connectivity probe counts as a reachable network. The primary
/// test endpoint must answer success with a body that reads `ok` once
/// trimmed; any other endpoint only has to answer success.
pub fn connection_attempt_ok(is_primary: bool, status_success: bool, body: Option<&str>) -> (r:
    bool)
    ensures
        r == (status_success && (!is_primary || (body matches Some(b) && trimmed(b@) == "ok"@))),
{
    if !status_success {
        false
    } else if !is_primary {
        true
    } else {
        match body {
            Some(b) => {
                let t = crate::strutil::trim_spaces(b);
                crate::strutil::str_eq(t, "ok")
            },
            None => false,
        }
    }
}

} // verus!
