use vstd::prelude::*;

use crate::models::{HttpProbeResult, ProbeError, ProbePhases, ProbeResult, ProbeStatus, ProbeTarget, UtcTime};
use crate::outside::{
    decode_utf8, is_v4_uuid_text, parse_url, random_uuid, url_parse, utf8_decode, UrlHost, UrlHostView, UrlParts,
    UrlPartsView,
};
use crate::text::{
    all_digits, chars_of, concat_chars, decimal, decimal_chars, digit_of, digit_value,
    digits_value, equals_str, is_white_space, parse_unsigned, parse_unsigned_spec, slice_chars,
    string_of, white_space,
};

verus! {

/// A failure as plain text: its code and its message.
pub open spec fn failure_view(e: ProbeError) -> (Seq<char>, Seq<char>) {
    (e.code@, e.message@)
}

pub open spec fn text_outcome_view(r: Result<String, ProbeError>) -> Result<Seq<char>, (Seq<char>, Seq<char>)> {
    match r {
        Ok(s) => Ok(s@),
        Err(e) => Err(failure_view(e)),
    }
}

pub open spec fn code_outcome_view(r: Result<u16, ProbeError>) -> Result<u16, (Seq<char>, Seq<char>)> {
    match r {
        Ok(c) => Ok(c),
        Err(e) => Err(failure_view(e)),
    }
}

fn failure(code: &str, message: &str) -> (e: ProbeError)
    ensures
        e.code@ == code@,
        e.message@ == message@,
{
    ProbeError { code: code.to_owned(), message: message.to_owned() }
}

fn failure_with(code: &str, prefix: &str, detail: &Vec<char>) -> (e: ProbeError)
    ensures
        e.code@ == code@,
        e.message@ == prefix@ + detail@,
{
    let message = concat_chars(&chars_of(prefix), detail);
    ProbeError { code: code.to_owned(), message: string_of(&message) }
}

// ---------------------------------------------------------------------------------------------
// The request
// ---------------------------------------------------------------------------------------------

/// The port that a scheme uses when the URL names none.
pub open spec fn default_port_spec(scheme: Seq<char>) -> Option<u16> {
    if scheme == "http"@ {
        Some(80u16)
    } else if scheme == "https"@ {
        Some(443u16)
    } else {
        None
    }
}

pub fn default_port_for_scheme(scheme: &str) -> (r: Option<u16>)
    ensures
        r == default_port_spec(scheme@),
{
    let s = chars_of(scheme);
    if equals_str(&s, "http") {
        Some(80)
    } else if equals_str(&s, "https") {
        Some(443)
    } else {
        None
    }
}

pub open spec fn one_host_view(h: UrlHost) -> UrlHostView {
    match h {
        UrlHost::Domain(d) => UrlHostView::Domain(d@),
        UrlHost::Ipv4(a) => UrlHostView::Ipv4(a@),
        UrlHost::Ipv6(a) => UrlHostView::Ipv6(a@),
    }
}

/// A host as a URL writes it: an IPv6 address in square brackets.
pub open spec fn host_text(h: UrlHostView) -> Seq<char> {
    match h {
        UrlHostView::Domain(d) => d,
        UrlHostView::Ipv4(a) => a,
        UrlHostView::Ipv6(a) => seq!['['] + a + seq![']'],
    }
}

fn host_text_of(h: &UrlHost) -> (r: Vec<char>)
    ensures
        r@ == host_text(one_host_view(*h)),
{
    match h {
        UrlHost::Domain(d) => chars_of(d.as_str()),
        UrlHost::Ipv4(a) => chars_of(a.as_str()),
        UrlHost::Ipv6(a) => {
            let mut r: Vec<char> = Vec::new();
            r.push('[');
            let r = concat_chars(&r, &chars_of(a.as_str()));
            let mut r = r;
            r.push(']');
            r
        },
    }
}

/// The `Host` header's value for a URL whose host is `host`: the port is added where the URL
/// names one that differs from its scheme's default, or where the scheme has no default.
pub open spec fn host_header_value(u: UrlPartsView, host: UrlHostView) -> Seq<char> {
    let h = host_text(host);
    match u.port {
        Some(p) => match default_port_spec(u.scheme) {
            Some(d) => if p != d {
                h + seq![':'] + decimal(p as nat)
            } else {
                h
            },
            None => h + seq![':'] + decimal(p as nat),
        },
        None => h,
    }
}

pub open spec fn host_header_spec(u: UrlPartsView) -> Result<Seq<char>, (Seq<char>, Seq<char>)> {
    match u.host {
        Some(h) => Ok(host_header_value(u, h)),
        None => Err(("invalid_config"@, "target host is missing"@)),
    }
}

fn host_header_chars(url: &UrlParts, host: &UrlHost) -> (r: Vec<char>)
    requires
        url.host == Some(*host),
    ensures
        r@ == host_header_value(url@, one_host_view(*host)),
{
    let h = host_text_of(host);
    let default_port = default_port_for_scheme(url.scheme.as_str());
    let with_port = match url.port {
        Some(p) => match default_port {
            Some(d) => p != d,
            None => true,
        },
        None => false,
    };
    if with_port {
        let p = url.port.unwrap();
        let mut r = h;
        r.push(':');
        concat_chars(&r, &decimal_chars(p as u64))
    } else {
        h
    }
}

/// The `Host` header of a request to `url`.
pub fn host_header(url: &UrlParts) -> (r: Result<String, ProbeError>)
    ensures
        text_outcome_view(r) == host_header_spec(url@),
{
    match &url.host {
        Some(h) => Ok(string_of(&host_header_chars(url, h))),
        None => Err(failure("invalid_config", "target host is missing")),
    }
}

/// The request target: the path (`/` where it is empty), then `?` and the query if there is one.
pub open spec fn request_target_spec(u: UrlPartsView) -> Seq<char> {
    let path = if u.path.len() == 0 {
        seq!['/']
    } else {
        u.path
    };
    match u.query {
        Some(q) => path + seq!['?'] + q,
        None => path,
    }
}

fn request_target_chars(url: &UrlParts) -> (r: Vec<char>)
    ensures
        r@ == request_target_spec(url@),
{
    let path = chars_of(url.path.as_str());
    let path = if path.len() == 0 {
        let mut p: Vec<char> = Vec::new();
        p.push('/');
        p
    } else {
        path
    };
    match &url.query {
        Some(q) => {
            let mut r = path;
            r.push('?');
            concat_chars(&r, &chars_of(q.as_str()))
        },
        None => path,
    }
}

pub fn request_target(url: &UrlParts) -> (r: String)
    ensures
        r@ == request_target_spec(url@),
{
    string_of(&request_target_chars(url))
}

/// The HEAD request sent for `u`, whose `Host` header is `host_header`.
pub open spec fn head_request(u: UrlPartsView, host_header: Seq<char>) -> Seq<char> {
    "HEAD "@ + request_target_spec(u) + " HTTP/1.1\r\nHost: "@ + host_header
        + "\r\nConnection: close\r\nUser-Agent: tauri-plugin-net-watcher/0.1\r\n\r\n"@
}

/// What a probe connects to and what it sends there.
#[derive(Debug)]
pub struct ProbePlan {
    /// The host as the URL writes it, for the name lookup and the TLS handshake.
    pub host: String,
    pub port: u16,
    pub use_tls: bool,
    pub request: String,
}

pub struct ProbePlanView {
    pub host: Seq<char>,
    pub port: u16,
    pub use_tls: bool,
    pub request: Seq<char>,
}

pub open spec fn plan_view(p: ProbePlan) -> ProbePlanView {
    ProbePlanView { host: p.host@, port: p.port, use_tls: p.use_tls, request: p.request@ }
}

pub open spec fn plan_outcome_view(r: Result<ProbePlan, ProbeError>) -> Result<ProbePlanView, (Seq<char>, Seq<char>)> {
    match r {
        Ok(p) => Ok(plan_view(p)),
        Err(e) => Err(failure_view(e)),
    }
}

/// What a probe of the parsed URL `u` does: the scheme must be `http` or `https`, and the URL
/// must name a host and have a port.
pub open spec fn plan_spec(u: UrlPartsView) -> Result<ProbePlanView, (Seq<char>, Seq<char>)> {
    if u.scheme != "http"@ && u.scheme != "https"@ {
        Err(("invalid_config"@, "target URL must use http or https"@))
    } else {
        match u.host {
            None => Err(("invalid_config"@, "target host is missing"@)),
            Some(h) => match u.port_or_known_default {
                None => Err(("invalid_config"@, "target port is missing"@)),
                Some(port) => Ok(
                    ProbePlanView {
                        host: host_text(h),
                        port,
                        use_tls: u.scheme == "https"@,
                        request: head_request(u, host_header_value(u, h)),
                    },
                ),
            },
        }
    }
}

/// The plan of a probe of the parsed URL `url`.
pub fn plan_for_url(url: &UrlParts) -> (r: Result<ProbePlan, ProbeError>)
    ensures
        plan_outcome_view(r) == plan_spec(url@),
{
    let scheme = chars_of(url.scheme.as_str());
    let is_http = equals_str(&scheme, "http");
    let is_https = equals_str(&scheme, "https");
    if !is_http && !is_https {
        return Err(failure("invalid_config", "target URL must use http or https"));
    }
    let host = match &url.host {
        Some(h) => h,
        None => {
            return Err(failure("invalid_config", "target host is missing"));
        },
    };
    let port = match url.port_or_known_default {
        Some(p) => p,
        None => {
            return Err(failure("invalid_config", "target port is missing"));
        },
    };
    let header = host_header_chars(url, host);
    let request = concat_chars(&chars_of("HEAD "), &request_target_chars(url));
    let request = concat_chars(&request, &chars_of(" HTTP/1.1\r\nHost: "));
    let request = concat_chars(&request, &header);
    let request = concat_chars(
        &request,
        &chars_of("\r\nConnection: close\r\nUser-Agent: tauri-plugin-net-watcher/0.1\r\n\r\n"),
    );
    Ok(
        ProbePlan {
            host: string_of(&host_text_of(host)),
            port,
            use_tls: is_https,
            request: string_of(&request),
        },
    )
}

/// What a probe of a target whose URL is `url` does, or why it cannot be made.
pub open spec fn target_plan_spec(url: Seq<char>) -> Result<ProbePlanView, (Seq<char>, Seq<char>)> {
    match url_parse(url) {
        Err(e) => Err(("invalid_config"@, e)),
        Ok(u) => plan_spec(u),
    }
}

// ---------------------------------------------------------------------------------------------
// The response
// ---------------------------------------------------------------------------------------------

/// The bytes read so far hold a line ending (`\r\n`).
pub open spec fn has_crlf(b: Seq<u8>) -> bool {
    exists|i: int| crlf_at(b, i)
}

pub open spec fn crlf_at(b: Seq<u8>, i: int) -> bool {
    0 <= i && i + 1 < b.len() && b[i] == 13u8 && b[i + 1] == 10u8
}

/// The most bytes of a response that a probe reads while it waits for the status line.
pub const MAX_STATUS_READ: usize = 8192;

/// Reading stops once a line ending has arrived or the most bytes have been read.
pub fn status_line_received(buffer: &[u8]) -> (b: bool)
    ensures
        b == (has_crlf(buffer@) || buffer@.len() >= MAX_STATUS_READ),
{
    if buffer.len() >= MAX_STATUS_READ {
        return true;
    }
    let mut i: usize = 0;
    while i + 1 < buffer.len()
        invariant
            buffer.len() < MAX_STATUS_READ,
            i <= buffer.len(),
            forall|j: int| 0 <= j < i ==> !crlf_at(buffer@, j),
        decreases buffer.len() - i,
    {
        if buffer[i] == 13 && buffer[i + 1] == 10 {
            assert(crlf_at(buffer@, i as int));
            return true;
        }
        i = i + 1;
    }
    assert forall|j: int| !crlf_at(buffer@, j) by {
        if 0 <= j && j >= i {
        }
    }
    false
}

/// Where the line that starts at `i` ends: the first `\n` at or after `i`, or the end.
pub open spec fn line_end(s: Seq<char>, i: int) -> int
    decreases s.len() - i,
{
    if i >= s.len() || (i >= 0 && s[i] == '\n') {
        i
    } else {
        line_end(s, i + 1)
    }
}

/// The first line of `text`, as `str::lines` gives it: up to the first `\n`, less a `\r`
/// just before that `\n`. Empty text has no line.
pub open spec fn first_line(text: Seq<char>) -> Option<Seq<char>> {
    if text.len() == 0 {
        None
    } else {
        let n = line_end(text, 0);
        if n < text.len() {
            let l = text.take(n);
            if l.len() > 0 && l.last() == '\r' {
                Some(l.drop_last())
            } else {
                Some(l)
            }
        } else {
            Some(text)
        }
    }
}

proof fn lemma_line_end_bounds(s: Seq<char>, i: int)
    requires
        0 <= i <= s.len(),
    ensures
        i <= line_end(s, i) <= s.len(),
        line_end(s, i) < s.len() ==> s[line_end(s, i)] == '\n',
    decreases s.len() - i,
{
    if i < s.len() && s[i] != '\n' {
        lemma_line_end_bounds(s, i + 1);
    }
}

fn first_line_of(text: &Vec<char>) -> (r: Option<Vec<char>>)
    ensures
        match r {
            Some(l) => first_line(text@) == Some(l@),
            None => first_line(text@) is None,
        },
{
    if text.len() == 0 {
        return None;
    }
    let mut i: usize = 0;
    while i < text.len() && text[i] != '\n'
        invariant
            i <= text.len(),
            line_end(text@, i as int) == line_end(text@, 0),
        decreases text.len() - i,
    {
        i = i + 1;
    }
    if i < text.len() {
        if i > 0 && text[i - 1] == '\r' {
            let l = slice_chars(text, 0, i - 1);
            assert(l@ =~= text@.take(i as int).drop_last());
            Some(l)
        } else {
            let l = slice_chars(text, 0, i);
            assert(l@ =~= text@.take(i as int));
            Some(l)
        }
    } else {
        let l = slice_chars(text, 0, i);
        assert(l@ =~= text@);
        Some(l)
    }
}

/// Where the run of non-white-space characters that reaches `i` ends.
pub open spec fn run_end(s: Seq<char>, i: int) -> int
    decreases s.len() - i,
{
    if i >= s.len() || (i >= 0 && is_white_space(s[i])) {
        i
    } else {
        run_end(s, i + 1)
    }
}

pub proof fn lemma_run_end_bounds(s: Seq<char>, i: int)
    requires
        0 <= i <= s.len(),
    ensures
        i <= run_end(s, i) <= s.len(),
    decreases s.len() - i,
{
    if i < s.len() && !is_white_space(s[i]) {
        lemma_run_end_bounds(s, i + 1);
    }
}

/// The words of `s` from `i` on, as `str::split_whitespace` yields them: the maximal runs of
/// characters that are not white space.
pub open spec fn words_from(s: Seq<char>, i: int) -> Seq<Seq<char>>
    decreases s.len() - i,
{
    if i < 0 || i >= s.len() {
        seq![]
    } else if is_white_space(s[i]) {
        words_from(s, i + 1)
    } else {
        let e = run_end(s, i + 1);
        proof {
            lemma_run_end_bounds(s, i + 1);
        }
        seq![s.subrange(i, e)] + words_from(s, e)
    }
}

/// The `n`th word of `s`, counting from zero.
pub fn nth_word(s: &Vec<char>, n: usize) -> (r: Option<Vec<char>>)
    ensures
        match r {
            Some(w) => n < words_from(s@, 0).len() && w@ == words_from(s@, 0)[n as int],
            None => words_from(s@, 0).len() <= n,
        },
{
    let mut i: usize = 0;
    let mut k: usize = 0;
    let ghost mut seen: Seq<Seq<char>> = seq![];
    while i < s.len()
        invariant
            i <= s.len(),
            k == seen.len(),
            k <= n,
            words_from(s@, 0) == seen + words_from(s@, i as int),
        decreases s.len() - i,
    {
        if white_space(s[i]) {
            assert(words_from(s@, i as int) == words_from(s@, i + 1));
            i = i + 1;
        } else {
            let mut e: usize = i + 1;
            while e < s.len() && !white_space(s[e])
                invariant
                    i < e <= s.len(),
                    run_end(s@, e as int) == run_end(s@, i + 1),
                decreases s.len() - e,
            {
                e = e + 1;
            }
            let w = slice_chars(s, i, e);
            assert(words_from(s@, i as int) == seq![w@] + words_from(s@, e as int));
            if k == n {
                assert((seen + (seq![w@] + words_from(s@, e as int)))[k as int] == w@);
                return Some(w);
            }
            proof {
                assert(seen + (seq![w@] + words_from(s@, e as int)) =~= seen.push(w@) + words_from(
                    s@,
                    e as int,
                ));
                seen = seen.push(w@);
            }
            k = k + 1;
            i = e;
        }
    }
    assert(words_from(s@, i as int) == Seq::<Seq<char>>::empty());
    assert(seen + Seq::<Seq<char>>::empty() =~= seen);
    None
}

/// How parsing an integer fails, as `std::num::IntErrorKind` names it.
#[derive(Debug, Clone, Copy, PartialEq, Eq, Structural)]
pub enum IntErrorKind {
    Empty,
    InvalidDigit,
    PosOverflow,
}

/// What the `Display` of a `ParseIntError` of each kind writes.
pub open spec fn int_error_text(k: IntErrorKind) -> Seq<char> {
    match k {
        IntErrorKind::Empty => "cannot parse integer from empty string"@,
        IntErrorKind::InvalidDigit => "invalid digit found in string"@,
        IntErrorKind::PosOverflow => "number too large to fit in target type"@,
    }
}

pub fn int_error_message(k: IntErrorKind) -> (s: &'static str)
    ensures
        s@ == int_error_text(k),
{
    match k {
        IntErrorKind::Empty => "cannot parse integer from empty string",
        IntErrorKind::InvalidDigit => "invalid digit found in string",
        IntErrorKind::PosOverflow => "number too large to fit in target type",
    }
}

/// The digits of an unsigned number: `s` less one leading `+`.
pub open spec fn unsigned_digits(s: Seq<char>) -> Seq<char> {
    if s.len() >= 1 && s[0] == '+' {
        s.drop_first()
    } else {
        s
    }
}

/// Read from the left, the digits of `d` first go past `max` at index `j`.
pub open spec fn overflows_at(d: Seq<char>, max: nat, j: int) -> bool {
    &&& 0 <= j < d.len()
    &&& all_digits(d.take(j + 1), 10)
    &&& digits_value(d.take(j + 1), 10) > max
}

/// What `str::parse::<u16>` gives for `s`: the value, or the first failure met reading `s`
/// from the left (an empty string; a number that grows past the largest `u16`; a character
/// that is not a digit).
pub open spec fn u16_parse_spec(s: Seq<char>) -> Result<u16, IntErrorKind> {
    match parse_unsigned_spec(s, 10, 65535) {
        Some(v) => Ok(v as u16),
        None => if s.len() == 0 {
            Err(IntErrorKind::Empty)
        } else if exists|j: int| overflows_at(unsigned_digits(s), 65535, j) {
            Err(IntErrorKind::PosOverflow)
        } else {
            Err(IntErrorKind::InvalidDigit)
        },
    }
}

/// `s` parsed as a `u16` in decimal.
pub fn parse_u16(s: &Vec<char>) -> (r: Result<u16, IntErrorKind>)
    ensures
        r == u16_parse_spec(s@),
{
    match parse_unsigned(s, 10, 65535) {
        Some(v) => {
            return Ok(v as u16);
        },
        None => {},
    }
    if s.len() == 0 {
        return Err(IntErrorKind::Empty);
    }
    let start: usize = if s[0] == '+' {
        1
    } else {
        0
    };
    let ghost d = unsigned_digits(s@);
    assert(d =~= s@.subrange(start as int, s@.len() as int));
    let mut acc: u64 = 0;
    let mut i: usize = start;
    while i < s.len()
        invariant
            start <= i <= s.len(),
            start <= 1,
            s@.len() > 0,
            parse_unsigned_spec(s@, 10, 65535) is None,
            d == unsigned_digits(s@),
            d == s@.subrange(start as int, s@.len() as int),
            all_digits(d.take(i - start), 10),
            acc == digits_value(d.take(i - start), 10),
            acc <= 65535,
            forall|j: int| 0 <= j < i - start ==> !overflows_at(d, 65535, j),
        decreases s.len() - i,
    {
        let ghost k: int = i - start;
        match digit_of(s[i], 10) {
            None => {
                proof {
                    assert(d[k] == s@[i as int]);
                    assert forall|j: int| !overflows_at(d, 65535, j) by {
                        if k <= j < d.len() {
                            assert(d.take(j + 1)[k] == d[k]);
                        }
                    }
                }
                return Err(IntErrorKind::InvalidDigit);
            },
            Some(x) => {
                proof {
                    let t = d.take(k + 1);
                    assert(t.drop_last() =~= d.take(k));
                    assert(t.last() == s@[i as int]);
                    assert forall|m: int| 0 <= m < t.len() implies (#[trigger] digit_value(t[m], 10)) is Some by {
                        if m < k {
                            assert(t[m] == d.take(k)[m]);
                        }
                    }
                    assert(all_digits(t, 10));
                    assert(digits_value(t, 10) == acc * 10 + x);
                }
                let next: u64 = acc * 10 + x as u64;
                if next > 65535 {
                    proof {
                        assert(overflows_at(d, 65535, k));
                    }
                    return Err(IntErrorKind::PosOverflow);
                }
                acc = next;
                i = i + 1;
            },
        }
    }
    proof {
        assert(d.take(d.len() as int) =~= d);
        assert(d.len() == 0);
    }
    Err(IntErrorKind::InvalidDigit)
}

/// The status code that the first line of a response's text carries: its second word, read
/// as a `u16`.
pub open spec fn status_text_spec(text: Seq<char>) -> Result<u16, (Seq<char>, Seq<char>)> {
    match first_line(text) {
        None => Err(("http_failed"@, "empty HTTP response"@)),
        Some(line) => if words_from(line, 0).len() < 2 {
            Err(("http_failed"@, "missing HTTP status code"@))
        } else {
            match u16_parse_spec(words_from(line, 0)[1]) {
                Ok(v) => Ok(v),
                Err(k) => Err(("http_failed"@, "invalid HTTP status code: "@ + int_error_text(k))),
            }
        },
    }
}

/// The status code that the text of a response carries.
pub fn status_code_from_text(text: &Vec<char>) -> (r: Result<u16, ProbeError>)
    ensures
        code_outcome_view(r) == status_text_spec(text@),
{
    let line = match first_line_of(text) {
        Some(l) => l,
        None => {
            return Err(failure("http_failed", "empty HTTP response"));
        },
    };
    let word = match nth_word(&line, 1) {
        Some(w) => w,
        None => {
            return Err(failure("http_failed", "missing HTTP status code"));
        },
    };
    match parse_u16(&word) {
        Ok(v) => Ok(v),
        Err(k) => Err(
            failure_with("http_failed", "invalid HTTP status code: ", &chars_of(int_error_message(k))),
        ),
    }
}

/// The status code that the bytes of a response carry: they must be UTF-8.
pub open spec fn status_response_spec(bytes: Seq<u8>) -> Result<u16, (Seq<char>, Seq<char>)> {
    match utf8_decode(bytes) {
        Err(e) => Err(("http_failed"@, "invalid HTTP response: "@ + e)),
        Ok(text) => status_text_spec(text),
    }
}

pub fn parse_status_code(buffer: &[u8]) -> (r: Result<u16, ProbeError>)
    ensures
        code_outcome_view(r) == status_response_spec(buffer@),
{
    match decode_utf8(buffer) {
        Ok(text) => status_code_from_text(&chars_of(text.as_str())),
        Err(e) => Err(failure_with("http_failed", "invalid HTTP response: ", &chars_of(e.as_str()))),
    }
}

/// A status from 200 to 399 is a success; any other is a failure.
pub open spec fn status_outcome_spec(code: u16) -> Result<u16, (Seq<char>, Seq<char>)> {
    if 200 <= code < 400 {
        Ok(code)
    } else {
        Err(("http_status_error"@, "unexpected HTTP status "@ + decimal(code as nat)))
    }
}

pub fn status_outcome(code: u16) -> (r: Result<u16, ProbeError>)
    ensures
        code_outcome_view(r) == status_outcome_spec(code),
{
    if 200 <= code && code < 400 {
        Ok(code)
    } else {
        Err(failure_with("http_status_error", "unexpected HTTP status ", &decimal_chars(code as u64)))
    }
}

/// What the bytes read from a target decide: the status code they carry, which must be a
/// success.
pub open spec fn response_outcome_spec(bytes: Seq<u8>) -> Result<u16, (Seq<char>, Seq<char>)> {
    match status_response_spec(bytes) {
        Ok(code) => status_outcome_spec(code),
        Err(e) => Err(e),
    }
}

pub fn response_outcome(buffer: &[u8]) -> (r: Result<u16, ProbeError>)
    ensures
        code_outcome_view(r) == response_outcome_spec(buffer@),
{
    match parse_status_code(buffer) {
        Ok(code) => status_outcome(code),
        Err(e) => Err(e),
    }
}

/// A probe succeeds exactly on a 2xx or 3xx status, and then carries that status; every other
/// status (1xx, 4xx, 5xx and the rest) fails with `http_status_error` and a message naming the
/// status. Bytes whose status line reads as a status are judged by that status alone, and bytes
/// whose status line does not read fail as the status line does.
pub proof fn lemma_success_is_2xx_or_3xx(code: u16, bytes: Seq<u8>)
    ensures
        (status_outcome_spec(code) is Ok) <==> (200 <= code && code <= 399),
        (200 <= code && code <= 399) ==> status_outcome_spec(code) == Ok::<u16, (Seq<char>, Seq<char>)>(code),
        !(200 <= code && code <= 399) ==> status_outcome_spec(code) == Err::<u16, (Seq<char>, Seq<char>)>(
            ("http_status_error"@, "unexpected HTTP status "@ + decimal(code as nat)),
        ),
        status_response_spec(bytes) == Ok::<u16, (Seq<char>, Seq<char>)>(code) ==> {
            &&& (response_outcome_spec(bytes) is Ok) <==> (200 <= code && code <= 399)
            &&& !(200 <= code && code <= 399) ==> response_outcome_spec(bytes) == Err::<u16, (Seq<char>, Seq<char>)>(
                ("http_status_error"@, "unexpected HTTP status "@ + decimal(code as nat)),
            )
        },
        status_response_spec(bytes) is Err ==> response_outcome_spec(bytes) == status_response_spec(bytes),
{
}

// ---------------------------------------------------------------------------------------------
// The result
// ---------------------------------------------------------------------------------------------

/// A probe id: `probe_` and a random UUID.
pub open spec fn probe_id_shape(id: Seq<char>) -> bool {
    id.len() == 42 && id.take(6) == "probe_"@ && is_v4_uuid_text(id.skip(6))
}

fn probe_id() -> (id: String)
    ensures
        probe_id_shape(id@),
{
    let prefix = chars_of("probe_");
    proof {
        reveal_strlit("probe_");
    }
    let uuid = random_uuid();
    let id = concat_chars(&prefix, &chars_of(uuid.as_str()));
    assert(id@.take(6) =~= "probe_"@);
    assert(id@.skip(6) =~= uuid@);
    string_of(&id)
}

/// A successful probe that got `status_code`.
pub fn success_probe(
    started_at: UtcTime,
    ended_at: UtcTime,
    duration_ms: u64,
    phases: ProbePhases,
    status_code: u16,
) -> (r: ProbeResult)
    ensures
        probe_id_shape(r.id@),
        r.status == ProbeStatus::Success,
        r.started_at == started_at,
        r.ended_at == ended_at,
        r.duration_ms == duration_ms,
        r.phases == phases,
        r.http == Some(HttpProbeResult { status_code }),
        r.error is None,
{
    ProbeResult {
        id: probe_id(),
        status: ProbeStatus::Success,
        started_at,
        ended_at,
        duration_ms,
        phases,
        http: Some(HttpProbeResult { status_code }),
        error: None,
    }
}

/// A failed probe, with its failure.
pub fn failed_probe(
    started_at: UtcTime,
    ended_at: UtcTime,
    duration_ms: u64,
    phases: ProbePhases,
    error: ProbeError,
) -> (r: ProbeResult)
    ensures
        probe_id_shape(r.id@),
        r.status == ProbeStatus::Failed,
        r.started_at == started_at,
        r.ended_at == ended_at,
        r.duration_ms == duration_ms,
        r.phases == phases,
        r.http is None,
        r.error == Some(error),
{
    ProbeResult {
        id: probe_id(),
        status: ProbeStatus::Failed,
        started_at,
        ended_at,
        duration_ms,
        phases,
        http: None,
        error: Some(error),
    }
}

/// The failure of a probe that ran out of time.
pub open spec fn timeout_failure_spec(timeout_ms: u64) -> (Seq<char>, Seq<char>) {
    ("http_timeout"@, "probe timed out after "@ + decimal(timeout_ms as nat) + "ms"@)
}

/// Probes HTTP targets with a HEAD request, each within a time limit.
#[derive(Debug)]
pub struct HttpProber {
    timeout_ms: u64,
}

impl HttpProber {
    pub closed spec fn limit_ms(&self) -> u64 {
        self.timeout_ms
    }

    pub fn new(timeout_ms: u64) -> (p: Self)
        ensures
            p.limit_ms() == timeout_ms,
    {
        HttpProber { timeout_ms }
    }

    pub fn timeout_ms(&self) -> (t: u64)
        ensures
            t == self.limit_ms(),
    {
        self.timeout_ms
    }

    /// The plan of a probe of `target`, or the configuration failure that rules it out.
    pub fn plan(&self, target: &ProbeTarget) -> (r: Result<ProbePlan, ProbeError>)
        ensures
            plan_outcome_view(r) == target_plan_spec(target.url@),
    {
        match parse_url(target.url.as_str()) {
            Ok(u) => plan_for_url(&u),
            Err(e) => Err(ProbeError { code: "invalid_config".to_owned(), message: e }),
        }
    }

    /// The failure of a probe that did not finish within the limit.
    pub fn timeout_failure(&self) -> (e: ProbeError)
        ensures
            failure_view(e) == timeout_failure_spec(self.limit_ms()),
    {
        let message = concat_chars(&chars_of("probe timed out after "), &decimal_chars(self.timeout_ms));
        let message = concat_chars(&message, &chars_of("ms"));
        ProbeError { code: "http_timeout".to_owned(), message: string_of(&message) }
    }

    /// The result of a probe: `outcome` is the status code or the failure it ended with, or
    /// nothing where it ran out of time.
    pub fn finish(
        &self,
        started_at: UtcTime,
        ended_at: UtcTime,
        duration_ms: u64,
        phases: ProbePhases,
        outcome: Option<Result<u16, ProbeError>>,
    ) -> (r: ProbeResult)
        ensures
            probe_id_shape(r.id@),
            r.started_at == started_at,
            r.ended_at == ended_at,
            r.duration_ms == duration_ms,
            r.phases == phases,
            match outcome {
                Some(Ok(code)) => r.status == ProbeStatus::Success && r.http == Some(
                    HttpProbeResult { status_code: code },
                ) && r.error is None,
                Some(Err(e)) => r.status == ProbeStatus::Failed && r.http is None && r.error == Some(e),
                None => r.status == ProbeStatus::Failed && r.http is None && r.error is Some
                    && failure_view(r.error->0) == timeout_failure_spec(self.limit_ms()),
            },
    {
        match outcome {
            Some(Ok(code)) => success_probe(started_at, ended_at, duration_ms, phases, code),
            Some(Err(e)) => failed_probe(started_at, ended_at, duration_ms, phases, e),
            None => failed_probe(started_at, ended_at, duration_ms, phases, self.timeout_failure()),
        }
    }
}

} // verus!
