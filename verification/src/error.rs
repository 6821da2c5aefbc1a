//! The library's error type.
use vstd::prelude::*;
use crate::text::concat;

verus! {

broadcast use vstd::string::group_string_axioms;

/// Every failure that the library reports.
#[derive(Debug)]
pub enum ZustError {
    Http(String),
    Json(String),
    Io(String),
    LoginFailed(String),
    SessionExpired,
    Parse(String),
    Crypto(String),
    ApiMismatch(String),
    SniperNotRunning,
    Base64(String),
}

/// The text that an error is shown as.
pub open spec fn error_text(e: ZustError) -> Seq<char> {
    match e {
        ZustError::Http(m) => "HTTP error: "@ + m@,
        ZustError::Json(m) => "JSON error: "@ + m@,
        ZustError::Io(m) => "IO error: "@ + m@,
        ZustError::LoginFailed(m) => "Login failed: "@ + m@,
        ZustError::SessionExpired => "Session expired"@,
        ZustError::Parse(m) => "Parse error: "@ + m@,
        ZustError::Crypto(m) => "Crypto error: "@ + m@,
        ZustError::ApiMismatch(m) => "API mismatch: "@ + m@,
        ZustError::SniperNotRunning => "Sniper not running"@,
        ZustError::Base64(m) => "Base64 decode error: "@ + m@,
    }
}

impl ZustError {
    /// The text that the error is shown as (what `to_string` gives).
    pub fn message(&self) -> (r: String)
        ensures
            r@ == error_text(*self),
    {
        match self {
            ZustError::Http(m) => concat("HTTP error: ", m.as_str()),
            ZustError::Json(m) => concat("JSON error: ", m.as_str()),
            ZustError::Io(m) => concat("IO error: ", m.as_str()),
            ZustError::LoginFailed(m) => concat("Login failed: ", m.as_str()),
            ZustError::SessionExpired => "Session expired".to_string(),
            ZustError::Parse(m) => concat("Parse error: ", m.as_str()),
            ZustError::Crypto(m) => concat("Crypto error: ", m.as_str()),
            ZustError::ApiMismatch(m) => concat("API mismatch: ", m.as_str()),
            ZustError::SniperNotRunning => "Sniper not running".to_string(),
            ZustError::Base64(m) => concat("Base64 decode error: ", m.as_str()),
        }
    }
}

/// A message followed by each cause in turn, each after `" | caused by: "`.
pub open spec fn with_causes(message: Seq<char>, causes: Seq<Seq<char>>) -> Seq<char>
    decreases causes.len(),
{
    if causes.len() == 0 {
        message
    } else {
        with_causes(message, causes.drop_last()) + " | caused by: "@ + causes.last()
    }
}

/// The texts of a list of causes.
pub open spec fn cause_texts(causes: Seq<String>) -> Seq<Seq<char>> {
    causes.map_values(|c: String| c@)
}

/// The HTTP error of a failed request: the error's message, the messages
/// of its chain of sources, and the URL when there is one.
pub fn http_error(message: &str, causes: &[String], url: Option<&str>) -> (r: ZustError)
    ensures
        r matches ZustError::Http(m) && m@ == with_causes(message@, cause_texts(causes@)) + (match url {
            Some(u) => " | url: "@ + u@,
            None => Seq::<char>::empty(),
        }),
{
    let mut m = message.to_string();
    let mut i: usize = 0;
    while i < causes.len()
        invariant
            i <= causes@.len(),
            m@ == with_causes(message@, cause_texts(causes@.take(i as int))),
        decreases causes.len() - i,
    {
        assert(cause_texts(causes@.take(i as int + 1)).drop_last() =~= cause_texts(causes@.take(i as int)));
        m = concat(m.as_str(), " | caused by: ");
        m = concat(m.as_str(), causes[i].as_str());
        i += 1;
    }
    assert(causes@.take(causes@.len() as int) =~= causes@);
    match url {
        Some(u) => {
            m = concat(m.as_str(), " | url: ");
            m = concat(m.as_str(), u);
        },
        None => {
            assert(m@ + Seq::<char>::empty() =~= m@);
        },
    }
    ZustError::Http(m)
}

} // verus!
