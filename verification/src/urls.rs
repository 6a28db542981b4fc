//! Moodle endpoint and page addresses.
use vstd::prelude::*;
use crate::models::{normalize_base_url, normalized_base_url};
use crate::text::{chars_eq, chars_of, int_decimal, push_i64, push_str};

verus! {

fn url_with(base_url: &str, path: &str) -> (r: String)
    ensures
        r@ == normalized_base_url(base_url@) + path@,
{
    let mut out = normalize_base_url(base_url);
    push_str(&mut out, path);
    out
}

fn url_with_id(base_url: &str, path: &str, id: i64) -> (r: String)
    ensures
        r@ == normalized_base_url(base_url@) + path@ + int_decimal(id as int),
{
    let mut out = url_with(base_url, path);
    push_i64(&mut out, id);
    out
}

/// The token endpoint of a site.
pub fn token_endpoint(base_url: &str) -> (r: String)
    ensures
        r@ == normalized_base_url(base_url@) + "/login/token.php"@,
{
    url_with(base_url, "/login/token.php")
}

/// The REST web-service endpoint of a site.
pub fn rest_endpoint(base_url: &str) -> (r: String)
    ensures
        r@ == normalized_base_url(base_url@) + "/webservice/rest/server.php"@,
{
    url_with(base_url, "/webservice/rest/server.php")
}

/// The page of an assignment activity.
pub fn build_assignment_activity_url(base_url: &str, cmid: i64) -> (r: String)
    ensures
        r@ == normalized_base_url(base_url@) + "/mod/assign/view.php?id="@ + int_decimal(cmid as int),
{
    url_with_id(base_url, "/mod/assign/view.php?id=", cmid)
}

/// The page of a course.
pub fn build_course_view_url(base_url: &str, course_id: i64) -> (r: String)
    ensures
        r@ == normalized_base_url(base_url@) + "/course/view.php?id="@ + int_decimal(course_id as int),
{
    url_with_id(base_url, "/course/view.php?id=", course_id)
}


/// The scheme, host and port that every redirect of a client with pinned certificates has
/// to keep.
#[derive(Debug, Clone)]
pub struct ExpectedOrigin {
    pub scheme: String,
    pub host: String,
    pub port: Option<u16>,
}

fn same_text(a: &str, b: &str) -> (r: bool)
    ensures
        r == (a@ == b@),
{
    chars_eq(chars_of(a).as_slice(), chars_of(b).as_slice())
}

impl ExpectedOrigin {
    /// The origin of an address, given its scheme, its host and its port (the explicit one
    /// or the scheme's default); none when the address has no host.
    pub fn from_parts(scheme: &str, host: Option<&str>, port: Option<u16>) -> (r: Option<ExpectedOrigin>)
        ensures
            match host {
                None => r is None,
                Some(h) => r matches Some(o) && o.scheme@ == scheme@ && o.host@ == h@ && o.port == port,
            },
    {
        match host {
            None => None,
            Some(h) => Some(ExpectedOrigin { scheme: scheme.to_owned(), host: h.to_owned(), port }),
        }
    }

    /// Whether an address with this scheme, host and port stays on the origin: all three
    /// are the same, and an address without a host never does.
    pub fn matches(&self, scheme: &str, host: Option<&str>, port: Option<u16>) -> (r: bool)
        ensures
            r == (self.scheme@ == scheme@ && (host matches Some(h) && h@ == self.host@) && self.port == port),
    {
        if !same_text(self.scheme.as_str(), scheme) {
            return false;
        }
        let same_host = match host {
            Some(h) => same_text(h, self.host.as_str()),
            None => false,
        };
        if !same_host {
            return false;
        }
        match (self.port, port) {
            (Some(a), Some(b)) => a == b,
            (None, None) => true,
            _ => false,
        }
    }
}

} // verus!
