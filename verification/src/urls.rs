//! URL handling: form encoding, redirect resolution, query parameters.
use vstd::prelude::*;
use crate::error::ZustError;
use crate::text::{concat, push_char, push_str};

verus! {

broadcast use vstd::string::group_string_axioms;

/// The CAS server's base URL.
pub const CAS_BASE: &'static str = "https://authserver.zust.edu.cn/authserver";
/// The CAS login page.
pub const CAS_LOGIN: &'static str = "https://authserver.zust.edu.cn/authserver/login";
/// The service that CAS logs the student into: the academic-affairs system.
pub const CAS_SVC: &'static str = "https://newjwxt.zust.edu.cn/jwglxt/xtgl/login_slogin.html";
/// The academic-affairs system's base URL.
pub const JW_BASE: &'static str = "https://newjwxt.zust.edu.cn/jwglxt";
/// The academic-affairs login page.
pub const JW_LOGIN: &'static str = "https://newjwxt.zust.edu.cn/jwglxt/xtgl/login_slogin.html";

/// Bytes that `application/x-www-form-urlencoded` keeps as they are.
pub open spec fn form_unreserved(b: u8) -> bool {
    b == 0x2a || b == 0x2d || b == 0x2e || b == 0x5f || (0x30 <= b && b <= 0x39) || (0x41 <= b
        && b <= 0x5a) || (0x61 <= b && b <= 0x7a)
}

/// Upper-case hex digit of a value below 16.
pub open spec fn hex_upper(v: u8) -> char {
    if v < 10 {
        (v + 48) as char
    } else {
        (v + 55) as char
    }
}

/// The `application/x-www-form-urlencoded` form of one byte.
pub open spec fn form_byte(b: u8) -> Seq<char> {
    if form_unreserved(b) {
        seq![b as char]
    } else if b == 0x20 {
        seq!['+']
    } else {
        seq!['%', hex_upper(b / 16), hex_upper(b % 16)]
    }
}

/// `form_urlencoded::byte_serialize` over a byte sequence, as text.
pub open spec fn form_encode(bytes: Seq<u8>) -> Seq<char>
    decreases bytes.len(),
{
    if bytes.len() == 0 {
        Seq::<char>::empty()
    } else {
        form_encode(bytes.drop_last()) + form_byte(bytes.last())
    }
}

fn hex_upper_exec(v: u8) -> (c: char)
    requires
        v < 16,
    ensures
        c == hex_upper(v),
{
    if v < 10 {
        (v + 48) as char
    } else {
        (v + 55) as char
    }
}

/// Form-encodes the UTF-8 bytes of `value` (`url_escape`).
pub fn url_escape(value: &str) -> (r: String)
    ensures
        r@ == form_encode(vstd::utf8::encode_utf8(value@)),
{
    let bytes = value.as_bytes();
    let mut out = String::new();
    let mut i: usize = 0;
    while i < bytes.len()
        invariant
            i <= bytes@.len(),
            bytes@ == vstd::utf8::encode_utf8(value@),
            out@ == form_encode(bytes@.take(i as int)),
        decreases bytes.len() - i,
    {
        let b = bytes[i];
        assert(bytes@.take(i as int + 1).drop_last() =~= bytes@.take(i as int));
        if b == 0x2a || b == 0x2d || b == 0x2e || b == 0x5f || (0x30 <= b && b <= 0x39) || (0x41
            <= b && b <= 0x5a) || (0x61 <= b && b <= 0x7a) {
            push_char(&mut out, b as char);
        } else if b == 0x20 {
            push_char(&mut out, '+');
        } else {
            push_char(&mut out, '%');
            push_char(&mut out, hex_upper_exec(b / 16));
            push_char(&mut out, hex_upper_exec(b % 16));
        }
        assert(out@ =~= form_encode(bytes@.take(i as int + 1)));
        i += 1;
    }
    assert(bytes@.take(bytes@.len() as int) =~= bytes@);
    out
}

/// A name for what `url::Url::parse(s)` gives: on success the URL's
/// serialization (`to_string`), on failure the error's text.
pub uninterp spec fn url_parse_result(s: Seq<char>) -> Result<Seq<char>, Seq<char>>;

/// A name for what parsing `base` and then `Url::join(rel)` gives: on success
/// the joined URL's serialization, on failure the error's text.
pub uninterp spec fn url_join_result(base: Seq<char>, rel: Seq<char>) -> Result<Seq<char>, Seq<char>>;

/// A name for whether the query of the URL that `u` parses to (as
/// `Url::query_pairs` decodes it) has a pair whose name is `key`.
pub uninterp spec fn url_query_has_key(u: Seq<char>, key: Seq<char>) -> bool;

/// A name for the serialization of the URL that `u` parses to, after
/// `query_pairs_mut().append_pair(key, value)`.
pub uninterp spec fn url_with_pair(u: Seq<char>, key: Seq<char>, value: Seq<char>) -> Seq<char>;

/// `url::Url::parse`, then `to_string` of the URL or of the error.
#[verifier::external_body]
pub(crate) fn url_parse(s: &str) -> (r: Result<String, String>)
    ensures
        match r {
            Ok(u) => url_parse_result(s@) == Ok::<Seq<char>, Seq<char>>(u@),
            Err(e) => url_parse_result(s@) == Err::<Seq<char>, Seq<char>>(e@),
        },
{
    match url::Url::parse(s) {
        Ok(u) => Ok(u.to_string()),
        Err(e) => Err(e.to_string()),
    }
}

/// `url::Url::join` of `rel` onto the URL that `base` parses to.
#[verifier::external_body]
pub(crate) fn url_join(base: &str, rel: &str) -> (r: Result<String, String>)
    ensures
        match r {
            Ok(u) => url_join_result(base@, rel@) == Ok::<Seq<char>, Seq<char>>(u@),
            Err(e) => url_join_result(base@, rel@) == Err::<Seq<char>, Seq<char>>(e@),
        },
{
    match url::Url::parse(base) {
        Ok(b) => match b.join(rel) {
            Ok(u) => Ok(u.to_string()),
            Err(e) => Err(e.to_string()),
        },
        Err(e) => Err(e.to_string()),
    }
}

/// `Url::query_pairs().any(|(k, _)| k == key)` on the URL that `u` parses to.
#[verifier::external_body]
fn url_has_query_key(u: &str, key: &str) -> (r: bool)
    requires
        url_parse_result(u@) is Ok,
    ensures
        r == url_query_has_key(u@, key@),
{
    match url::Url::parse(u) {
        Ok(parsed) => parsed.query_pairs().any(|(k, _)| k == key),
        Err(_) => false,
    }
}

/// `Url::query_pairs_mut().append_pair(key, value)` on the URL that `u`
/// parses to; the serialization of the result.
#[verifier::external_body]
fn url_append_pair(u: &str, key: &str, value: &str) -> (r: String)
    requires
        url_parse_result(u@) is Ok,
    ensures
        r@ == url_with_pair(u@, key@, value@),
{
    match url::Url::parse(u) {
        Ok(mut parsed) => {
            parsed.query_pairs_mut().append_pair(key, value);
            parsed.to_string()
        },
        Err(_) => u.to_string(),
    }
}

/// Where a redirect `location` leads from `base_url`: the location itself
/// when it parses as an absolute URL, else the location joined onto the
/// base; on failure, the text of the HTTP error.
pub open spec fn redirect_target(base_url: Seq<char>, location: Seq<char>) -> Result<Seq<char>, Seq<char>> {
    match url_parse_result(location) {
        Ok(abs) => Ok(abs),
        Err(_) => match url_parse_result(base_url) {
            Err(e) => Err("Invalid redirect base URL: "@ + e),
            Ok(_) => match url_join_result(base_url, location) {
                Ok(j) => Ok(j),
                Err(e) => Err("Invalid redirect Location: "@ + e),
            },
        },
    }
}

/// `r` is the outcome `t`, its error being an HTTP error.
pub open spec fn http_outcome(r: Result<String, ZustError>, t: Result<Seq<char>, Seq<char>>) -> bool {
    match t {
        Ok(u) => r matches Ok(x) && x@ == u,
        Err(m) => r matches Err(ZustError::Http(x)) && x@ == m,
    }
}

/// The statuses that a redirect chain follows.
pub open spec fn is_redirect_status(status: u16) -> bool {
    status == 301 || status == 302 || status == 303
}

/// Whether a status is one that a redirect chain follows.
pub fn redirect_status(status: u16) -> (r: bool)
    ensures
        r == is_redirect_status(status),
{
    status == 301 || status == 302 || status == 303
}

/// One step of a GET redirect chain of at most `max_hops + 1` requests: the
/// response to request number `hop` (from 0) of `current_url` had `status`
/// and `location`. Gives the URL that the chain is now at and whether to
/// request it.
pub fn get_redirect_step(
    status: u16,
    location: Option<&str>,
    current_url: &str,
    hop: usize,
    max_hops: usize,
) -> (r: Result<(String, bool), ZustError>)
    ensures
        (is_redirect_status(status) && location is Some) ==> match redirect_target(
            current_url@,
            location->0@,
        ) {
            Ok(u) => r matches Ok(x) && x.0@ == u && x.1 == (hop < max_hops),
            Err(m) => r matches Err(ZustError::Http(x)) && x@ == m,
        },
        !(is_redirect_status(status) && location is Some) ==> (r matches Ok(x) && x.0@
            == current_url@ && !x.1),
{
    if redirect_status(status) {
        if let Some(loc) = location {
            return match crate::session::HttpSession::resolve_redirect(current_url, loc) {
                Ok(next) => Ok((next, hop < max_hops)),
                Err(e) => Err(e),
            };
        }
    }
    Ok((current_url.to_string(), false))
}

/// The URL that a POST redirect chain is at after a response: the response's
/// `location` resolved against `current_url` when there is one, else
/// `current_url`.
pub fn post_redirect_step(location: Option<&str>, current_url: &str) -> (r: Result<String, ZustError>)
    ensures
        match location {
            Some(loc) => http_outcome(r, redirect_target(current_url@, loc@)),
            None => r matches Ok(x) && x@ == current_url@,
        },
{
    match location {
        Some(loc) => crate::session::HttpSession::resolve_redirect(current_url, loc),
        None => Ok(current_url.to_string()),
    }
}

/// Whether a POST redirect chain of at most `max_hops` GETs makes its GET
/// number `hop` (from 0): while hops are left and the last response had a
/// redirect status.
pub fn post_hop_continues(status: u16, hop: usize, max_hops: usize) -> (r: bool)
    ensures
        r == (hop < max_hops && is_redirect_status(status)),
{
    hop < max_hops && redirect_status(status)
}

/// The CAS login URL for `service`: the login page with the query pair
/// `service=<service>`.
pub fn cas_login_url(service: &str) -> (r: Result<String, ZustError>)
    ensures
        match url_parse_result(CAS_LOGIN@) {
            Err(e) => r matches Err(ZustError::LoginFailed(m)) && m@ == "CAS 地址异常: "@ + e,
            Ok(_) => r matches Ok(s) && s@ == url_with_pair(CAS_LOGIN@, "service"@, service@),
        },
{
    match url_parse(CAS_LOGIN) {
        Err(e) => Err(ZustError::LoginFailed(concat("CAS 地址异常: ", e.as_str()))),
        Ok(_) => Ok(url_append_pair(CAS_LOGIN, "service", service)),
    }
}

/// The form action `action` with the query pair `service=<service>` added
/// unless its query already names `service`.
pub fn with_service(action: &str, service: &str) -> (r: Result<String, ZustError>)
    ensures
        match url_parse_result(action@) {
            Err(e) => r matches Err(ZustError::LoginFailed(m)) && m@ == "CAS 表单地址异常: "@ + e,
            Ok(u) => r matches Ok(s) && s@ == (if url_query_has_key(action@, "service"@) {
                u
            } else {
                url_with_pair(action@, "service"@, service@)
            }),
        },
{
    match url_parse(action) {
        Err(e) => Err(ZustError::LoginFailed(concat("CAS 表单地址异常: ", e.as_str()))),
        Ok(u) => {
            if url_has_query_key(action, "service") {
                Ok(u)
            } else {
                Ok(url_append_pair(action, "service", service))
            }
        },
    }
}

/// The characters that a form-encoded text is made of: ASCII letters and
/// digits, `*`, `-`, `.`, `_`, `+` and `%`.
pub open spec fn form_char(c: char) -> bool {
    ('0' <= c && c <= '9') || ('A' <= c && c <= 'Z') || ('a' <= c && c <= 'z') || c == '*' || c == '-'
        || c == '.' || c == '_' || c == '+' || c == '%'
}

/// A form-encoded text holds only form characters, so no `:` or `/` of a
/// URL survives the encoding.
pub proof fn law_escape_charset(bytes: Seq<u8>)
    ensures
        forall|i: int| 0 <= i < form_encode(bytes).len() ==> form_char(#[trigger] form_encode(bytes)[i]),
    decreases bytes.len(),
{
    if bytes.len() > 0 {
        let p = bytes.drop_last();
        let b = bytes.last();
        law_escape_charset(p);
        let tail = form_byte(b);
        assert forall|j: int| 0 <= j < tail.len() implies form_char(#[trigger] tail[j]) by {
            if form_unreserved(b) {
                assert(tail[j] == b as char);
            } else if b == 0x20 {
            } else {
                assert(b / 16 < 16);
                assert(b % 16 < 16);
            }
        }
        assert forall|i: int| 0 <= i < form_encode(bytes).len() implies form_char(#[trigger] form_encode(bytes)[i]) by {
            if i < form_encode(p).len() {
                assert(form_encode(bytes)[i] == form_encode(p)[i]);
            } else {
                assert(form_encode(bytes)[i] == tail[i - form_encode(p).len()]);
            }
        }
    }
}

} // verus!
