//! The HTTP session: a `reqwest` client and the cookies that the library
//! keeps for itself (to save the login and to check it).
use vstd::prelude::*;
use crate::cookies::{CookieJar, pairs_map, apply_set_cookies, count_set_cookies, header_text};
use crate::error::ZustError;
use crate::text::concat;
use crate::urls::{http_outcome, redirect_target, url_parse, url_join};

verus! {

broadcast use vstd::string::group_string_axioms;

/// The browser identity that every request carries.
pub const USER_AGENT: &'static str = "Mozilla/5.0 (Windows NT 10.0; Win64; x64) AppleWebKit/537.36 (KHTML, like Gecko) Chrome/142.0.0.0 Safari/537.36";

#[verifier::external_type_specification]
#[verifier::external_body]
pub struct ExReqwestClient(reqwest::Client);

#[verifier::external_type_specification]
#[verifier::external_body]
pub struct ExRedirectPolicy(reqwest::redirect::Policy);

/// How a client treats redirect responses.
pub enum Redirects {
    /// It returns them as they are; the caller follows them.
    Manual,
    /// It follows at most this many of them.
    Limited(usize),
}

/// The settings that an HTTP client is built with.
pub struct ClientSettings {
    pub user_agent: String,
    pub accept_invalid_certs: bool,
    pub cookie_store: bool,
    pub redirects: Redirects,
    pub gzip: bool,
    pub brotli: bool,
    pub connect_timeout_secs: u64,
    pub timeout_secs: u64,
}

/// The settings of the session's client: the browser's user agent, any
/// certificate accepted, its own cookie store, redirects left to the
/// caller (the login follows them by hand), gzip and brotli, 10 s to
/// connect and 30 s in all.
pub open spec fn session_settings(s: ClientSettings) -> bool {
    &&& s.user_agent@ == USER_AGENT@
    &&& s.accept_invalid_certs
    &&& s.cookie_store
    &&& s.redirects is Manual
    &&& s.gzip
    &&& s.brotli
    &&& s.connect_timeout_secs == 10
    &&& s.timeout_secs == 30
}

/// The settings of the session's client.
pub fn client_settings() -> (s: ClientSettings)
    ensures
        session_settings(s),
{
    ClientSettings {
        user_agent: USER_AGENT.to_string(),
        accept_invalid_certs: true,
        cookie_store: true,
        redirects: Redirects::Manual,
        gzip: true,
        brotli: true,
        connect_timeout_secs: 10,
        timeout_secs: 30,
    }
}

/// The `reqwest` redirect policy for `r`: `Policy::none()` or
/// `Policy::limited(n)`.
#[verifier::external_body]
fn redirect_policy(r: &Redirects) -> reqwest::redirect::Policy {
    match r {
        Redirects::Manual => reqwest::redirect::Policy::none(),
        Redirects::Limited(n) => reqwest::redirect::Policy::limited(*n),
    }
}

/// `reqwest::ClientBuilder::build` with the given settings. On failure, the
/// error's text and its `is_builder`, `is_connect` and `is_timeout` flags.
/// Nothing is stated of the outcome: it depends on the TLS backend of the
/// machine.
#[verifier::external_body]
fn build_reqwest_client(s: &ClientSettings) -> (r: Result<reqwest::Client, (String, bool, bool, bool)>) {
    match reqwest::Client::builder().danger_accept_invalid_certs(s.accept_invalid_certs)
        .user_agent(s.user_agent.as_str()).cookie_store(s.cookie_store).redirect(redirect_policy(&s.redirects))
        .gzip(s.gzip).brotli(s.brotli).connect_timeout(std::time::Duration::from_secs(s.connect_timeout_secs))
        .timeout(std::time::Duration::from_secs(s.timeout_secs)).build()
    {
        Ok(c) => Ok(c),
        Err(e) => Err((e.to_string(), e.is_builder(), e.is_connect(), e.is_timeout())),
    }
}

/// `"true"` or `"false"`.
fn bool_text(b: bool) -> (r: &'static str)
    ensures
        r@ == (if b { "true"@ } else { "false"@ }),
{
    if b { "true" } else { "false" }
}

/// The text of a failed client build.
pub open spec fn build_failure_text(e: Seq<char>, builder: bool, connect: bool, timeout: bool) -> Seq<char> {
    "Client build failed: "@ + e + " (is_builder="@ + (if builder { "true"@ } else { "false"@ })
        + ", is_connect="@ + (if connect { "true"@ } else { "false"@ }) + ", is_timeout="@
        + (if timeout { "true"@ } else { "false"@ }) + ")"@
}

/// `e` is the HTTP error of a failed client build.
pub open spec fn build_failed(e: ZustError) -> bool {
    e matches ZustError::Http(m) && exists|t: Seq<char>, b: bool, c: bool, d: bool| m@ == #[trigger] build_failure_text(t, b, c, d)
}

/// An HTTP session.
pub struct HttpSession {
    client: reqwest::Client,
    settings: ClientSettings,
    cookies: CookieJar,
}

impl View for HttpSession {
    type V = Map<Seq<char>, Seq<char>>;

    closed spec fn view(&self) -> Map<Seq<char>, Seq<char>> {
        self.cookies@
    }
}

impl HttpSession {
    #[verifier::type_invariant]
    spec fn inv(self) -> bool {
        self.cookies.wf()
    }

    /// The cookies in the order in which their names were first set.
    pub closed spec fn entries(&self) -> Seq<(String, String)> {
        self.cookies.entries()
    }

    /// The settings that the session's client was built with.
    pub closed spec fn settings(&self) -> ClientSettings {
        self.settings
    }

    /// A client with the session's settings, and those settings; or the
    /// HTTP error of a failed build.
    fn build_client() -> (r: Result<(reqwest::Client, ClientSettings), ZustError>)
        ensures
            match r {
                Ok(p) => session_settings(p.1),
                Err(e) => build_failed(e),
            },
    {
        let settings = client_settings();
        match build_reqwest_client(&settings) {
            Ok(c) => Ok((c, settings)),
            Err((e, b, c, t)) => {
                let mut m = concat("Client build failed: ", e.as_str());
                m = concat(m.as_str(), " (is_builder=");
                m = concat(m.as_str(), bool_text(b));
                m = concat(m.as_str(), ", is_connect=");
                m = concat(m.as_str(), bool_text(c));
                m = concat(m.as_str(), ", is_timeout=");
                m = concat(m.as_str(), bool_text(t));
                m = concat(m.as_str(), ")");
                assert(m@ == build_failure_text(e@, b, c, t));
                Err(ZustError::Http(m))
            },
        }
    }

    /// A new session without cookies.
    pub fn new() -> (r: Result<Self, ZustError>)
        ensures
            match r {
                Ok(s) => s@ == Map::<Seq<char>, Seq<char>>::empty() && s.entries().len() == 0
                    && session_settings(s.settings()),
                Err(e) => build_failed(e),
            },
    {
        let (client, settings) = Self::build_client()?;
        Ok(HttpSession { client, settings, cookies: CookieJar::new() })
    }

    /// A session that starts with the given cookies; of two pairs with one
    /// name the later wins.
    pub fn from_cookies(cookies: &[(String, String)]) -> (r: Result<Self, ZustError>)
        ensures
            match r {
                Ok(s) => s@ == pairs_map(Map::empty(), cookies@) && session_settings(s.settings()),
                Err(e) => build_failed(e),
            },
    {
        let (client, settings) = Self::build_client()?;
        Ok(HttpSession { client, settings, cookies: CookieJar::from_pairs(cookies) })
    }

    /// Sets every given pair in order.
    pub fn merge_cookies(&mut self, new_cookies: &[(String, String)])
        ensures
            final(self)@ == pairs_map(old(self)@, new_cookies@),
    {
        proof { use_type_invariant(&*self); }
        let mut jar = CookieJar::new();
        std::mem::swap(&mut jar, &mut self.cookies);
        jar.merge_cookies(new_cookies);
        self.cookies = jar;
    }

    /// Sets one cookie.
    pub fn set_cookie(&mut self, key: String, value: String)
        ensures
            final(self)@ == old(self)@.insert(key@, value@),
    {
        proof { use_type_invariant(&*self); }
        let mut jar = CookieJar::new();
        std::mem::swap(&mut jar, &mut self.cookies);
        jar.set_cookie(key, value);
        self.cookies = jar;
    }

    /// All cookies as (name, value) pairs, each name once.
    pub fn cookies_as_dict(&self) -> (r: Vec<(String, String)>)
        ensures
            r@ == self.entries(),
            crate::cookies::entries_map(r@) == self@,
            crate::cookies::unique_names(r@),
    {
        proof {
            use_type_invariant(self);
            self.cookies.lemma_view_is_entries();
        }
        self.cookies.cookies_as_dict()
    }

    /// Whether a cookie named `name` is set.
    pub fn has_cookie(&self, name: &str) -> (r: bool)
        ensures
            r == self@.dom().contains(name@),
    {
        self.cookies.has_cookie(name)
    }

    /// The value of cookie `name`.
    pub fn cookie(&self, name: &str) -> (r: Option<&str>)
        ensures
            match r {
                Some(v) => self@.dom().contains(name@) && self@[name@] == v@,
                None => !self@.dom().contains(name@),
            },
    {
        self.cookies.get(name)
    }

    /// The `Cookie` request header: `None` without cookies, else every
    /// cookie as `name=value`, joined by `"; "`.
    pub fn cookie_header(&self) -> (r: Option<String>)
        ensures
            match r {
                None => self.entries().len() == 0,
                Some(h) => self.entries().len() > 0 && h@ == header_text(self.entries()),
            },
    {
        self.cookies.cookie_header()
    }

    /// Takes the cookies set by a response's `Set-Cookie` header values, in
    /// order, and returns how many were taken.
    pub fn collect_set_cookies(&mut self, headers: &[String]) -> (n: usize)
        ensures
            final(self)@ == apply_set_cookies(old(self)@, headers@),
            n == count_set_cookies(headers@),
    {
        proof { use_type_invariant(&*self); }
        let mut jar = CookieJar::new();
        std::mem::swap(&mut jar, &mut self.cookies);
        let n = jar.collect_set_cookies(headers);
        self.cookies = jar;
        n
    }

    /// The `reqwest` client that carries the requests.
    pub closed spec fn client(&self) -> reqwest::Client {
        self.client
    }

    /// The `reqwest` client that carries the requests.
    pub fn client_ref(&self) -> (r: &reqwest::Client)
        ensures
            *r == self.client(),
    {
        &self.client
    }

    /// The URL that a redirect `location` leads to from `base_url`: the
    /// location itself when it is an absolute URL, else the location joined
    /// onto the base.
    pub fn resolve_redirect(base_url: &str, location: &str) -> (r: Result<String, ZustError>)
        ensures
            http_outcome(r, redirect_target(base_url@, location@)),
    {
        if let Ok(absolute) = url_parse(location) {
            return Ok(absolute);
        }
        match url_parse(base_url) {
            Err(e) => Err(ZustError::Http(concat("Invalid redirect base URL: ", e.as_str()))),
            Ok(_) => match url_join(base_url, location) {
                Ok(u) => Ok(u),
                Err(e) => Err(ZustError::Http(concat("Invalid redirect Location: ", e.as_str()))),
            },
        }
    }
}

} // verus!
