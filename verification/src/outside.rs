use vstd::prelude::*;

use crate::models::UtcTime;

verus! {

/// The current wall-clock time from `chrono::Utc::now`, at its full resolution: the seconds
/// since the Unix epoch (`timestamp`) and the nanoseconds past them (`timestamp_subsec_nanos`).
///
/// Nothing is stated of the value: it is the time.
#[verifier::external_body]
pub fn now_utc() -> UtcTime {
    let now = chrono::Utc::now();
    UtcTime { secs: now.timestamp(), nanos: now.timestamp_subsec_nanos() }
}

/// A lower-case hexadecimal digit.
pub open spec fn is_lower_hex_digit(c: char) -> bool {
    ('0' <= c && c <= '9') || ('a' <= c && c <= 'f')
}

/// Where the hyphens of a hyphenated UUID stand.
pub open spec fn uuid_hyphen_at(i: int) -> bool {
    i == 8 || i == 13 || i == 18 || i == 23
}

/// The text of a random (version 4, RFC 4122 variant) UUID in hyphenated lower-case form:
/// 8-4-4-4-12 hexadecimal digits, version digit `4`, variant digit `8`, `9`, `a` or `b`.
pub open spec fn is_v4_uuid_text(s: Seq<char>) -> bool {
    &&& s.len() == 36
    &&& forall|i: int| 0 <= i < 36 && uuid_hyphen_at(i) ==> #[trigger] s[i] == '-'
    &&& forall|i: int| 0 <= i < 36 && !uuid_hyphen_at(i) ==> is_lower_hex_digit(#[trigger] s[i])
    &&& s[14] == '4'
    &&& (s[19] == '8' || s[19] == '9' || s[19] == 'a' || s[19] == 'b')
}

/// A random UUID from `uuid::Uuid::new_v4`, written by its `Display` impl. `new_v4` sets the
/// version bits to 4 and the variant bits to RFC 4122 over random bits, and `Display` writes
/// the hyphenated lower-case hex form; which digits the random bits give is not stated.
#[verifier::external_body]
pub fn random_uuid() -> (s: String)
    ensures
        is_v4_uuid_text(s@),
{
    uuid::Uuid::new_v4().to_string()
}

/// What `String::from_utf8_lossy` gives for `bytes`: the UTF-8 decoding with every
/// invalid sequence replaced by U+FFFD.
pub uninterp spec fn utf8_lossy(bytes: Seq<u8>) -> Seq<char>;

/// `String::from_utf8_lossy(bytes)`; the result is the name above applied to the bytes.
#[verifier::external_body]
pub fn decode_utf8_lossy(bytes: &[u8]) -> (s: String)
    ensures
        s@ == utf8_lossy(bytes@),
{
    String::from_utf8_lossy(bytes).into_owned()
}

/// The host of a parsed URL: a domain, or an IP address in its standard text form.
#[derive(Debug)]
pub enum UrlHost {
    Domain(String),
    Ipv4(String),
    Ipv6(String),
}

/// The parts of a parsed URL that the library reads.
#[derive(Debug)]
pub struct UrlParts {
    pub scheme: String,
    pub host: Option<UrlHost>,
    pub port: Option<u16>,
    pub port_or_known_default: Option<u16>,
    pub path: String,
    pub query: Option<String>,
}

pub enum UrlHostView {
    Domain(Seq<char>),
    Ipv4(Seq<char>),
    Ipv6(Seq<char>),
}

pub struct UrlPartsView {
    pub scheme: Seq<char>,
    pub host: Option<UrlHostView>,
    pub port: Option<u16>,
    pub port_or_known_default: Option<u16>,
    pub path: Seq<char>,
    pub query: Option<Seq<char>>,
}

pub open spec fn host_view(h: Option<UrlHost>) -> Option<UrlHostView> {
    match h {
        Some(UrlHost::Domain(d)) => Some(UrlHostView::Domain(d@)),
        Some(UrlHost::Ipv4(a)) => Some(UrlHostView::Ipv4(a@)),
        Some(UrlHost::Ipv6(a)) => Some(UrlHostView::Ipv6(a@)),
        None => None,
    }
}

impl View for UrlParts {
    type V = UrlPartsView;

    open spec fn view(&self) -> UrlPartsView {
        UrlPartsView {
            scheme: self.scheme@,
            host: host_view(self.host),
            port: self.port,
            port_or_known_default: self.port_or_known_default,
            path: self.path@,
            query: match self.query {
                Some(q) => Some(q@),
                None => None,
            },
        }
    }
}

pub open spec fn url_result_view(r: Result<UrlParts, String>) -> Result<UrlPartsView, Seq<char>> {
    match r {
        Ok(u) => Ok(u@),
        Err(e) => Err(e@),
    }
}

/// What `url::Url::parse` gives for `input`: the URL's parts, or the text of the parse error.
pub uninterp spec fn url_parse(input: Seq<char>) -> Result<UrlPartsView, Seq<char>>;

/// `url::Url::parse(input)`, its result converted to plain parts (the host through the
/// `Display` of its address types), or its error converted to text.
#[verifier::external_body]
pub fn parse_url(input: &str) -> (r: Result<UrlParts, String>)
    ensures
        url_result_view(r) == url_parse(input@),
{
    match url::Url::parse(input) {
        Ok(u) => Ok(UrlParts {
            scheme: u.scheme().to_string(),
            host: u.host().map(|h| match h {
                url::Host::Domain(d) => UrlHost::Domain(d.to_string()),
                url::Host::Ipv4(a) => UrlHost::Ipv4(a.to_string()),
                url::Host::Ipv6(a) => UrlHost::Ipv6(a.to_string()),
            }),
            port: u.port(),
            port_or_known_default: u.port_or_known_default(),
            path: u.path().to_string(),
            query: u.query().map(|q| q.to_string()),
        }),
        Err(e) => Err(e.to_string()),
    }
}

/// The lowercase mapping of `c` that `char::to_lowercase` yields.
pub uninterp spec fn char_lowercase(c: char) -> Seq<char>;

/// `char::to_lowercase`, collected: the name above applied to `c`. Its documentation says the
/// mapping is one or more characters; nothing else is stated of it.
#[verifier::external_body]
pub fn lowercase_of(c: char) -> (r: Vec<char>)
    ensures
        r@ == char_lowercase(c),
        r@.len() >= 1,
{
    c.to_lowercase().collect()
}

/// What `std::str::from_utf8` gives for `bytes`: the decoded text, or the text that the
/// `Display` of its `Utf8Error` writes.
pub uninterp spec fn utf8_decode(bytes: Seq<u8>) -> Result<Seq<char>, Seq<char>>;

pub open spec fn text_result_view(r: Result<String, String>) -> Result<Seq<char>, Seq<char>> {
    match r {
        Ok(s) => Ok(s@),
        Err(e) => Err(e@),
    }
}

/// `std::str::from_utf8(bytes)`, the text and the error each converted to a `String`; the
/// result is the name above applied to the bytes.
#[verifier::external_body]
pub fn decode_utf8(bytes: &[u8]) -> (r: Result<String, String>)
    ensures
        text_result_view(r) == utf8_decode(bytes@),
{
    match std::str::from_utf8(bytes) {
        Ok(text) => Ok(text.to_string()),
        Err(error) => Err(error.to_string()),
    }
}

} // verus!
