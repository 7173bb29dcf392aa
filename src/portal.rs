use vstd::prelude::*;
use vstd::std_specs::convert::FromSpecImpl;
use vstd::string::{StrSliceExecFns, StringExecFns};

verus! {

/// Why resolving the captive portal's redirect failed.
#[derive(Debug, Clone, Copy, PartialEq, Eq, Structural)]
pub enum ProbeError {
    /// The HTTP exchange itself failed.
    Transport,
    /// The portal answered with a status other than a 302 redirect.
    UnexpectedStatus(u16),
    /// A 302 answer carried no `Location` header.
    MissingLocation,
    /// The requested query parameter does not occur in the URL.
    ParamNotFound,
}

/// The text searched for when looking up `key`: the key followed by `=`.
pub open spec fn key_marker(key: Seq<char>) -> Seq<char> {
    key.push('=')
}

/// Whether `pat` occurs in `url` starting at position `i`.
pub open spec fn occurs_at(url: Seq<char>, pat: Seq<char>, i: int) -> bool {
    0 <= i && i + pat.len() <= url.len() && url.subrange(i, i + pat.len()) == pat
}

/// The first position at or after `i` where `pat` occurs in `url`, if any.
pub open spec fn first_occurrence_from(url: Seq<char>, pat: Seq<char>, i: int) -> Option<int>
    decreases url.len() + 1 - i,
{
    if i < 0 || i + pat.len() > url.len() {
        None
    } else if occurs_at(url, pat, i) {
        Some(i)
    } else {
        first_occurrence_from(url, pat, i + 1)
    }
}

/// The position of the first `&` at or after `i`, or the end of `url` if none follows.
pub open spec fn value_end_from(url: Seq<char>, i: int) -> int
    decreases url.len() - i,
{
    if i < 0 || i >= url.len() {
        url.len() as int
    } else if url[i] == '&' {
        i
    } else {
        value_end_from(url, i + 1)
    }
}

/// The value of query parameter `key` in `url`: the text after the first occurrence of
/// `key=` (anywhere in `url`, not only at a parameter boundary) up to the next `&` or the
/// end. `None` when `key=` does not occur. No percent-decoding takes place.
pub open spec fn param_value(url: Seq<char>, key: Seq<char>) -> Option<Seq<char>> {
    match first_occurrence_from(url, key_marker(key), 0) {
        Some(i) => {
            let start = i + key.len() + 1;
            Some(url.subrange(start, value_end_from(url, start)))
        },
        None => None,
    }
}

/// Whether `r` is what extracting `key` from `url` gives: the parameter's value, or
/// `ParamNotFound` when `key=` does not occur.
pub open spec fn is_extraction_of(url: Seq<char>, key: Seq<char>, r: Result<String, ProbeError>) -> bool {
    match param_value(url, key) {
        Some(v) => r matches Ok(s) && s@ == v,
        None => r == Err::<String, ProbeError>(ProbeError::ParamNotFound),
    }
}

/// Extraction is a pure function of the URL and the key: two extractions with the same
/// inputs agree on success, on the error, and on the extracted text.
pub proof fn lemma_extraction_is_pure(
    url: Seq<char>,
    key: Seq<char>,
    r1: Result<String, ProbeError>,
    r2: Result<String, ProbeError>,
)
    requires
        is_extraction_of(url, key, r1),
        is_extraction_of(url, key, r2),
    ensures
        r1 is Ok <==> r2 is Ok,
        r1 is Ok ==> r1->Ok_0@ == r2->Ok_0@,
        r1 is Err ==> r1 == r2,
{
}

/// Whether `key=` occurs in `url` at character position `i`.
fn marker_at(url: &str, key: &str, i: usize, n: usize, k: usize) -> (r: bool)
    requires
        n == url@.len(),
        k == key@.len(),
        k < n,
        i < n - k,
    ensures
        r == occurs_at(url@, key_marker(key@), i as int),
{
    let mut j: usize = 0;
    while j < k
        invariant
            n == url@.len(),
            k == key@.len(),
            k < n,
            i < n - k,
            j <= k,
            forall|t: int| 0 <= t < j ==> url@[i + t] == key@[t],
        decreases k - j,
    {
        if url.get_char(i + j) != key.get_char(j) {
            assert(url@.subrange(i as int, i + k + 1)[j as int] != key_marker(key@)[j as int]);
            return false;
        }
        j = j + 1;
    }
    let eq = url.get_char(i + k) == '=';
    if !eq {
        assert(url@.subrange(i as int, i + k + 1)[k as int] != key_marker(key@)[k as int]);
    } else {
        assert(url@.subrange(i as int, i + k + 1) =~= key_marker(key@));
    }
    eq
}

/// Extracts the value of query parameter `key` from `url`: the text following the first
/// occurrence of `key=` up to the next `&` or the end of `url`.
///
/// Scanning characters gives the same result as scanning the UTF-8 bytes, since a valid
/// UTF-8 pattern can only match a valid UTF-8 text on character boundaries. Like a plain
/// substring scan, an occurrence of `key=` inside another parameter's value counts.
pub fn extract_query_param(url: &str, key: &str) -> (r: Result<String, ProbeError>)
    ensures
        is_extraction_of(url@, key@, r),
{
    let n = url.unicode_len();
    let k = key.unicode_len();
    let ghost pat = key_marker(key@);
    if k >= n {
        assert(first_occurrence_from(url@, pat, 0) is None);
        return Err(ProbeError::ParamNotFound);
    }
    let mut i: usize = 0;
    while i < n - k
        invariant
            n == url@.len(),
            k == key@.len(),
            k < n,
            i <= n - k,
            pat == key_marker(key@),
            first_occurrence_from(url@, pat, 0) == first_occurrence_from(url@, pat, i as int),
        decreases n - k - i,
    {
        if marker_at(url, key, i, n, k) {
            return Ok(value_from(url, i + k + 1, n));
        }
        i = i + 1;
    }
    assert(first_occurrence_from(url@, pat, i as int) is None);
    Err(ProbeError::ParamNotFound)
}

/// The text of `url` from character `start` up to the next `&` or the end.
fn value_from(url: &str, start: usize, n: usize) -> (r: String)
    requires
        n == url@.len(),
        start <= n,
    ensures
        r@ == url@.subrange(start as int, value_end_from(url@, start as int)),
{
    let mut end = start;
    while end < n && url.get_char(end) != '&'
        invariant
            n == url@.len(),
            start <= end <= n,
            value_end_from(url@, start as int) == value_end_from(url@, end as int),
        decreases n - end,
    {
        end = end + 1;
    }
    url.substring_char(start, end).to_owned()
}

/// The captive-portal check endpoint that a portal intercepts and redirects; its own
/// query parameters are opaque tokens that the portal expects.
pub const CHECK_URL: &'static str = "http://connect.rom.miui.com/generate_204?cmd=redirect&arubalp=12345";

/// The HTTP status by which a captive portal redirects to its login page.
pub const REDIRECT_STATUS: u16 = 302;

/// Metadata of the access point that the captive portal's redirect names.
pub struct Ap {
    name: String,
    group: String,
    mac: String,
    switch_ip: String,
}

/// The fields of an [`Ap`], as character sequences.
pub struct ApFields {
    pub name: Seq<char>,
    pub group: Seq<char>,
    pub mac: Seq<char>,
    pub switch_ip: Seq<char>,
}

impl View for Ap {
    type V = ApFields;

    closed spec fn view(&self) -> ApFields {
        ApFields {
            name: self.name@,
            group: self.group@,
            mac: self.mac@,
            switch_ip: self.switch_ip@,
        }
    }
}

/// The value of parameter `key` in `url`, or the empty text when it is absent.
pub open spec fn param_or_empty(url: Seq<char>, key: Seq<char>) -> Seq<char> {
    match param_value(url, key) {
        Some(v) => v,
        None => Seq::empty(),
    }
}

/// The access point described by the query parameters `name`, `group`, `mac` and
/// `switch_ip` of a redirect target; each absent parameter gives an empty field.
pub open spec fn ap_fields_of(location: Seq<char>) -> ApFields {
    ApFields {
        name: param_or_empty(location, "name"@),
        group: param_or_empty(location, "group"@),
        mac: param_or_empty(location, "mac"@),
        switch_ip: param_or_empty(location, "switch_ip"@),
    }
}

/// The one-line rendering of an access point's fields.
pub open spec fn ap_text(f: ApFields) -> Seq<char> {
    "{ name: "@ + f.name + ", group: "@ + f.group + ", mac: "@ + f.mac + ", switch_ip: "@
        + f.switch_ip + " }"@
}

/// The value of `key` in `url`, or an empty string when it is absent.
fn param_or_default(url: &str, key: &str) -> (r: String)
    ensures
        r@ == param_or_empty(url@, key@),
{
    match extract_query_param(url, key) {
        Ok(v) => v,
        Err(_) => String::new(),
    }
}

impl Ap {
    /// The access point's name.
    pub fn name(&self) -> (r: &str)
        ensures
            r@ == self@.name,
    {
        self.name.as_str()
    }

    /// The access point's group.
    pub fn group(&self) -> (r: &str)
        ensures
            r@ == self@.group,
    {
        self.group.as_str()
    }

    /// The access point's MAC address, as the portal wrote it.
    pub fn mac(&self) -> (r: &str)
        ensures
            r@ == self@.mac,
    {
        self.mac.as_str()
    }

    /// The IP address of the switch the access point hangs off.
    pub fn switch_ip(&self) -> (r: &str)
        ensures
            r@ == self@.switch_ip,
    {
        self.switch_ip.as_str()
    }

    /// Renders the fields as `{ name: .., group: .., mac: .., switch_ip: .. }`.
    pub fn to_string(&self) -> (r: String)
        ensures
            r@ == ap_text(self@),
    {
        let mut s = String::from_str("{ name: ");
        s.append(self.name.as_str());
        s.append(", group: ");
        s.append(self.group.as_str());
        s.append(", mac: ");
        s.append(self.mac.as_str());
        s.append(", switch_ip: ");
        s.append(self.switch_ip.as_str());
        s.append(" }");
        s
    }
}

impl<'a> From<&'a str> for Ap {
    /// Reads the access point from a redirect target; absent parameters give empty fields.
    fn from(location: &'a str) -> (r: Ap)
        ensures
            r@ == ap_fields_of(location@),
    {
        let name = param_or_default(location, "name");
        let group = param_or_default(location, "group");
        let mac = param_or_default(location, "mac");
        let switch_ip = param_or_default(location, "switch_ip");
        Ap { name, group, mac, switch_ip }
    }
}

// `from` states its result through its own `ensures`: a spec-level constructor cannot
// build the `String` fields, so the generic `From` specification is not claimed.
impl<'a> FromSpecImpl<&'a str> for Ap {
    open spec fn obeys_from_spec() -> bool {
        false
    }

    open spec fn from_spec(v: &'a str) -> Ap {
        arbitrary()
    }
}

/// Decides what a probe's answer means: a 302 with a `Location` header yields the access
/// point read from that header; a 302 without one is `MissingLocation`; any other status
/// is `UnexpectedStatus`, never a partly filled access point.
pub fn ap_from_response(status: u16, location: Option<&str>) -> (r: Result<Ap, ProbeError>)
    ensures
        status != REDIRECT_STATUS ==> r == Err::<Ap, ProbeError>(
            ProbeError::UnexpectedStatus(status),
        ),
        status == REDIRECT_STATUS && location is None ==> r == Err::<Ap, ProbeError>(
            ProbeError::MissingLocation,
        ),
        status == REDIRECT_STATUS && location is Some ==> (r matches Ok(ap) && ap@ == ap_fields_of(
            location->Some_0@,
        )),
{
    if status != REDIRECT_STATUS {
        return Err(ProbeError::UnexpectedStatus(status));
    }
    match location {
        Some(l) => Ok(Ap::from(l)),
        None => Err(ProbeError::MissingLocation),
    }
}

} // verus!
