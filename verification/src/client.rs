//! The academic-affairs API: the client's state, the headers and form
//! bodies of its requests (in the exact field order that the server wants),
//! and the reading of its replies.
use vstd::prelude::*;
use crate::cookies::pairs_map;
use crate::error::ZustError;
use crate::json::{Json, json_parse, parse_json, is_single};
use crate::patterns::{first_group, regex_first_group, all_groups, regex_all_groups};
use crate::session::HttpSession;
use crate::text::{concat, decimal, has_sub, prefix_chars, take_chars, trim, trim_spec, u64_to_decimal, first_visible, first_visible_spec};
use crate::types::{CourseTab, StudentContext};
use crate::urls::JW_BASE;

verus! {

broadcast use vstd::string::group_string_axioms;

/// The main page that requests name as their referrer when the login did
/// not say otherwise.
pub open spec fn default_main_url() -> Seq<char> {
    JW_BASE@ + "/xtgl/index_initMenu.html"@
}

/// The value of `key` in `m`, or `default` when it is not set.
pub open spec fn value_or(m: Map<Seq<char>, Seq<char>>, key: Seq<char>, default: Seq<char>) -> Seq<char> {
    if m.dom().contains(key) {
        m[key]
    } else {
        default
    }
}

/// A student context with every field empty.
pub open spec fn empty_context(c: StudentContext) -> bool {
    &&& c.bh_id@ == Seq::<char>::empty()
    &&& c.njdm_id@ == Seq::<char>::empty()
    &&& c.zyh_id@ == Seq::<char>::empty()
    &&& c.jg_id@ == Seq::<char>::empty()
    &&& c.xkxnm@ == Seq::<char>::empty()
    &&& c.xkxqm@ == Seq::<char>::empty()
}

/// A student context with every field empty.
pub fn new_context() -> (r: StudentContext)
    ensures
        empty_context(r),
{
    StudentContext {
        bh_id: String::new(),
        njdm_id: String::new(),
        zyh_id: String::new(),
        jg_id: String::new(),
        xkxnm: String::new(),
        xkxqm: String::new(),
    }
}

/// A list of (name, value) pairs by the texts of its members.
pub open spec fn pairs_view(v: Seq<(String, String)>) -> Seq<(Seq<char>, Seq<char>)> {
    v.map_values(|p: (String, String)| (p.0@, p.1@))
}

/// Appends the pair `(k, v)`.
pub fn push_pair(list: &mut Vec<(String, String)>, k: &str, v: &str)
    ensures
        pairs_view(final(list)@) == pairs_view(old(list)@).push((k@, v@)),
{
    list.push((k.to_string(), v.to_string()));
    assert(pairs_view(list@) =~= pairs_view(old(list)@).push((k@, v@)));
}

/// The client of the academic-affairs system: its HTTP session, the CSRF
/// token and main page of the login, and the student context once read.
pub struct JWClient {
    pub session: HttpSession,
    pub csrf: String,
    pub main_url: String,
    pub ctx: StudentContext,
}

/// The CSRF token that the login saved (`_csrf`), or nothing.
pub open spec fn csrf_of(m: Map<Seq<char>, Seq<char>>) -> Seq<char> {
    value_or(m, "_csrf"@, Seq::<char>::empty())
}

/// The main page that the login saved (`_main_url`), or the default one.
pub open spec fn main_url_of(m: Map<Seq<char>, Seq<char>>) -> Seq<char> {
    value_or(m, "_main_url"@, default_main_url())
}

/// The CSRF token and main page that the saved cookies carry.
fn login_state(session: &HttpSession) -> (r: (String, String))
    ensures
        r.0@ == csrf_of(session@),
        r.1@ == main_url_of(session@),
{
    let csrf = match session.cookie("_csrf") {
        Some(v) => v.to_string(),
        None => String::new(),
    };
    let main_url = match session.cookie("_main_url") {
        Some(v) => v.to_string(),
        None => concat(JW_BASE, "/xtgl/index_initMenu.html"),
    };
    (csrf, main_url)
}

impl JWClient {
    /// A client for the saved login `cookies` (of two pairs with one name the
    /// later wins), with an empty student context.
    pub fn new(cookies: &[(String, String)]) -> (r: Result<Self, ZustError>)
        ensures
            match r {
                Ok(c) => {
                    &&& c.session@ == pairs_map(Map::empty(), cookies@)
                    &&& crate::session::session_settings(c.session.settings())
                    &&& c.csrf@ == csrf_of(c.session@)
                    &&& c.main_url@ == main_url_of(c.session@)
                    &&& empty_context(c.ctx)
                },
                Err(e) => crate::session::build_failed(e),
            },
    {
        let session = HttpSession::from_cookies(cookies)?;
        let (csrf, main_url) = login_state(&session);
        Ok(JWClient { session, csrf, main_url, ctx: new_context() })
    }

    /// Takes a refreshed login: a new session for `cookies`, and its CSRF
    /// token and main page; the student context stays. Unchanged on error.
    pub fn update_state(&mut self, cookies: &[(String, String)]) -> (r: Result<(), ZustError>)
        ensures
            match r {
                Ok(_) => {
                    &&& final(self).session@ == pairs_map(Map::empty(), cookies@)
                    &&& crate::session::session_settings(final(self).session.settings())
                    &&& final(self).csrf@ == csrf_of(final(self).session@)
                    &&& final(self).main_url@ == main_url_of(final(self).session@)
                    &&& final(self).ctx == old(self).ctx
                },
                Err(e) => crate::session::build_failed(e) && *final(self) == *old(self),
            },
    {
        let session = HttpSession::from_cookies(cookies)?;
        let (csrf, main_url) = login_state(&session);
        self.session = session;
        self.csrf = csrf;
        self.main_url = main_url;
        Ok(())
    }

    /// A new client for `cookies`, as `new` makes it.
    pub fn clone_session(&self, cookies: &[(String, String)]) -> (r: Result<Self, ZustError>)
        ensures
            match r {
                Ok(c) => {
                    &&& c.session@ == pairs_map(Map::empty(), cookies@)
                    &&& crate::session::session_settings(c.session.settings())
                    &&& c.csrf@ == csrf_of(c.session@)
                    &&& c.main_url@ == main_url_of(c.session@)
                    &&& empty_context(c.ctx)
                },
                Err(e) => crate::session::build_failed(e),
            },
    {
        Self::new(cookies)
    }

    /// The headers of an API request.
    pub fn api_headers(&self) -> (r: Vec<(String, String)>)
        ensures
            pairs_view(r@) == seq![
                ("Accept"@, "application/json, text/javascript, */*; q=0.01"@),
                ("X-Requested-With"@, "XMLHttpRequest"@),
                ("Referer"@, self.main_url@),
                ("Csrf-Token"@, self.csrf@),
            ],
    {
        let mut h: Vec<(String, String)> = Vec::new();
        push_pair(&mut h, "Accept", "application/json, text/javascript, */*; q=0.01");
        push_pair(&mut h, "X-Requested-With", "XMLHttpRequest");
        push_pair(&mut h, "Referer", self.main_url.as_str());
        push_pair(&mut h, "Csrf-Token", self.csrf.as_str());
        h
    }

    /// The headers of an API request whose reply may be a page: the API
    /// headers with `Accept` for HTML.
    pub fn page_headers(&self) -> (r: Vec<(String, String)>)
        ensures
            pairs_view(r@) == seq![
                ("Accept"@, "text/html, */*; q=0.01"@),
                ("X-Requested-With"@, "XMLHttpRequest"@),
                ("Referer"@, self.main_url@),
                ("Csrf-Token"@, self.csrf@),
            ],
    {
        let mut h: Vec<(String, String)> = Vec::new();
        push_pair(&mut h, "Accept", "text/html, */*; q=0.01");
        push_pair(&mut h, "X-Requested-With", "XMLHttpRequest");
        push_pair(&mut h, "Referer", self.main_url.as_str());
        push_pair(&mut h, "Csrf-Token", self.csrf.as_str());
        h
    }

    /// The headers of the course-selection page: the API headers and a
    /// browser `User-Agent`.
    pub fn index_headers(&self) -> (r: Vec<(String, String)>)
        ensures
            pairs_view(r@) == seq![
                ("Accept"@, "application/json, text/javascript, */*; q=0.01"@),
                ("X-Requested-With"@, "XMLHttpRequest"@),
                ("Referer"@, self.main_url@),
                ("Csrf-Token"@, self.csrf@),
                ("User-Agent"@, INDEX_USER_AGENT@),
            ],
    {
        let mut h = self.api_headers();
        push_pair(&mut h, "User-Agent", INDEX_USER_AGENT);
        h
    }
}

/// The browser identity of the course-selection page request.
pub const INDEX_USER_AGENT: &'static str = "Mozilla/5.0 (Windows NT 10.0; Win64; x64) AppleWebKit/537.36 Chrome/142.0.0.0 Safari/537.36";

/// The URL of an API path.
pub fn api_url(path: &str) -> (r: String)
    ensures
        r@ == JW_BASE@ + "/"@ + path@,
{
    let base = concat(JW_BASE, "/");
    concat(base.as_str(), path)
}

/// The form of the grades query of a year and term (empty for all): 500 rows, the first page.
pub fn grades_form(year: &str, term: &str) -> (r: Vec<(String, String)>)
    ensures
        pairs_view(r@) == seq![
            ("xnm"@, year@),
            ("xqm"@, term@),
            ("queryModel.showCount"@, "500"@),
            ("queryModel.currentPage"@, "1"@),
            ("queryModel.sortName"@, ""@),
            ("queryModel.sortOrder"@, "asc"@),
        ],
{
    let mut f: Vec<(String, String)> = Vec::new();
    push_pair(&mut f, "xnm", year);
    push_pair(&mut f, "xqm", term);
    push_pair(&mut f, "queryModel.showCount", "500");
    push_pair(&mut f, "queryModel.currentPage", "1");
    push_pair(&mut f, "queryModel.sortName", "");
    push_pair(&mut f, "queryModel.sortOrder", "asc");
    f
}

/// The form of the timetable query of a year and term.
pub fn schedule_form(year: &str, term: &str) -> (r: Vec<(String, String)>)
    ensures
        pairs_view(r@) == seq![
            ("xnm"@, year@),
            ("xqm"@, term@),
        ],
{
    let mut f: Vec<(String, String)> = Vec::new();
    push_pair(&mut f, "xnm", year);
    push_pair(&mut f, "xqm", term);
    f
}

/// The form of the exam query of a year and term: 100 rows, the first page.
pub fn exams_form(year: &str, term: &str) -> (r: Vec<(String, String)>)
    ensures
        pairs_view(r@) == seq![
            ("xnm"@, year@),
            ("xqm"@, term@),
            ("queryModel.showCount"@, "100"@),
            ("queryModel.currentPage"@, "1"@),
        ],
{
    let mut f: Vec<(String, String)> = Vec::new();
    push_pair(&mut f, "xnm", year);
    push_pair(&mut f, "xqm", term);
    push_pair(&mut f, "queryModel.showCount", "100");
    push_pair(&mut f, "queryModel.currentPage", "1");
    f
}

/// The form of the page of courses open in a tab, from row `page`.
pub fn available_courses_form(xkkz_id: &str, kklxdm: &str, ctx: &StudentContext, page: u32) -> (r: Vec<(String, String)>)
    ensures
        pairs_view(r@) == seq![
            ("xkkz_id"@, xkkz_id@),
            ("xszxzt"@, "1"@),
            ("kklxdm"@, kklxdm@),
            ("njdm_id"@, ctx.njdm_id@),
            ("zyh_id"@, ctx.zyh_id@),
            ("kspage"@, decimal(page as nat)),
            ("jspage"@, "0"@),
        ],
{
    let page_text = u64_to_decimal(page as u64);
    let mut f: Vec<(String, String)> = Vec::new();
    push_pair(&mut f, "xkkz_id", xkkz_id);
    push_pair(&mut f, "xszxzt", "1");
    push_pair(&mut f, "kklxdm", kklxdm);
    push_pair(&mut f, "njdm_id", ctx.njdm_id.as_str());
    push_pair(&mut f, "zyh_id", ctx.zyh_id.as_str());
    push_pair(&mut f, "kspage", page_text.as_str());
    push_pair(&mut f, "jspage", "0");
    f
}

/// The form of the course list of a tab, rows `page` to `page_size`.
pub fn part_display_form(xkkz_id: &str, kklxdm: &str, ctx: &StudentContext, page: u32, page_size: u32) -> (r: Vec<(String, String)>)
    ensures
        pairs_view(r@) == seq![
            ("rwlx"@, "2"@),
            ("xklc"@, "1"@),
            ("xkly"@, "0"@),
            ("bklx_id"@, "0"@),
            ("sfkkjyxdxnxq"@, "0"@),
            ("kzkcgs"@, "0"@),
            ("xqh_id"@, "1"@),
            ("jg_id"@, ctx.jg_id@),
            ("njdm_id_1"@, ctx.njdm_id@),
            ("zyh_id_1"@, ctx.zyh_id@),
            ("gnjkxdnj"@, "0"@),
            ("zyh_id"@, ctx.zyh_id@),
            ("zyfx_id"@, "wfx"@),
            ("njdm_id"@, ctx.njdm_id@),
            ("bh_id"@, ctx.bh_id@),
            ("bjgkczxbbjwcx"@, "0"@),
            ("xbm"@, "1"@),
            ("xslbdm"@, "421"@),
            ("mzm"@, "01"@),
            ("xz"@, "4"@),
            ("ccdm"@, "3"@),
            ("xsbj"@, "0"@),
            ("sfkknj"@, "0"@),
            ("sfkkzy"@, "0"@),
            ("kzybkxy"@, "0"@),
            ("sfznkx"@, "0"@),
            ("zdkxms"@, "0"@),
            ("sfkxq"@, "0"@),
            ("bhbcyxkjxb"@, "0"@),
            ("sfkcfx"@, "0"@),
            ("kkbk"@, "0"@),
            ("kkbkdj"@, "0"@),
            ("bklbkcj"@, "0"@),
            ("sfkgbcx"@, "0"@),
            ("sfrxtgkcxd"@, "0"@),
            ("tykczgxdcs"@, "0"@),
            ("xkxnm"@, ctx.xkxnm@),
            ("xkxqm"@, ctx.xkxqm@),
            ("kklxdm"@, kklxdm@),
            ("bbhzxjxb"@, "0"@),
            ("zxgbxkkg"@, "0"@),
            ("xkkz_id"@, xkkz_id@),
            ("rlkz"@, "0"@),
            ("xkzgbj"@, "0"@),
            ("kspage"@, decimal(page as nat)),
            ("jspage"@, decimal(page_size as nat)),
            ("jxbzb"@, ""@),
        ],
{
    let page_text = u64_to_decimal(page as u64);
    let page_size_text = u64_to_decimal(page_size as u64);
    let mut f: Vec<(String, String)> = Vec::new();
    push_pair(&mut f, "rwlx", "2");
    push_pair(&mut f, "xklc", "1");
    push_pair(&mut f, "xkly", "0");
    push_pair(&mut f, "bklx_id", "0");
    push_pair(&mut f, "sfkkjyxdxnxq", "0");
    push_pair(&mut f, "kzkcgs", "0");
    push_pair(&mut f, "xqh_id", "1");
    push_pair(&mut f, "jg_id", ctx.jg_id.as_str());
    push_pair(&mut f, "njdm_id_1", ctx.njdm_id.as_str());
    push_pair(&mut f, "zyh_id_1", ctx.zyh_id.as_str());
    push_pair(&mut f, "gnjkxdnj", "0");
    push_pair(&mut f, "zyh_id", ctx.zyh_id.as_str());
    push_pair(&mut f, "zyfx_id", "wfx");
    push_pair(&mut f, "njdm_id", ctx.njdm_id.as_str());
    push_pair(&mut f, "bh_id", ctx.bh_id.as_str());
    push_pair(&mut f, "bjgkczxbbjwcx", "0");
    push_pair(&mut f, "xbm", "1");
    push_pair(&mut f, "xslbdm", "421");
    push_pair(&mut f, "mzm", "01");
    push_pair(&mut f, "xz", "4");
    push_pair(&mut f, "ccdm", "3");
    push_pair(&mut f, "xsbj", "0");
    push_pair(&mut f, "sfkknj", "0");
    push_pair(&mut f, "sfkkzy", "0");
    push_pair(&mut f, "kzybkxy", "0");
    push_pair(&mut f, "sfznkx", "0");
    push_pair(&mut f, "zdkxms", "0");
    push_pair(&mut f, "sfkxq", "0");
    push_pair(&mut f, "bhbcyxkjxb", "0");
    push_pair(&mut f, "sfkcfx", "0");
    push_pair(&mut f, "kkbk", "0");
    push_pair(&mut f, "kkbkdj", "0");
    push_pair(&mut f, "bklbkcj", "0");
    push_pair(&mut f, "sfkgbcx", "0");
    push_pair(&mut f, "sfrxtgkcxd", "0");
    push_pair(&mut f, "tykczgxdcs", "0");
    push_pair(&mut f, "xkxnm", ctx.xkxnm.as_str());
    push_pair(&mut f, "xkxqm", ctx.xkxqm.as_str());
    push_pair(&mut f, "kklxdm", kklxdm);
    push_pair(&mut f, "bbhzxjxb", "0");
    push_pair(&mut f, "zxgbxkkg", "0");
    push_pair(&mut f, "xkkz_id", xkkz_id);
    push_pair(&mut f, "rlkz", "0");
    push_pair(&mut f, "xkzgbj", "0");
    push_pair(&mut f, "kspage", page_text.as_str());
    push_pair(&mut f, "jspage", page_size_text.as_str());
    push_pair(&mut f, "jxbzb", "");
    f
}

/// The form of the teaching-class list of course `kch_id`.
pub fn course_detail_form(xkkz_id: &str, kklxdm: &str, kch_id: &str, ctx: &StudentContext) -> (r: Vec<(String, String)>)
    ensures
        pairs_view(r@) == seq![
            ("rwlx"@, "2"@),
            ("xkly"@, "0"@),
            ("bklx_id"@, "0"@),
            ("sfkkjyxdxnxq"@, "0"@),
            ("kzkcgs"@, "0"@),
            ("xqh_id"@, "1"@),
            ("jg_id"@, ctx.jg_id@),
            ("zyh_id"@, ctx.zyh_id@),
            ("zyfx_id"@, "wfx"@),
            ("txbsfrl"@, "0"@),
            ("njdm_id"@, ctx.njdm_id@),
            ("bh_id"@, ctx.bh_id@),
            ("xbm"@, "1"@),
            ("xslbdm"@, "421"@),
            ("mzm"@, "01"@),
            ("xz"@, "4"@),
            ("ccdm"@, "3"@),
            ("xsbj"@, "0"@),
            ("sfkknj"@, "0"@),
            ("gnjkxdnj"@, "0"@),
            ("sfkkzy"@, "0"@),
            ("kzybkxy"@, "0"@),
            ("sfznkx"@, "0"@),
            ("zdkxms"@, "0"@),
            ("sfkxq"@, "0"@),
            ("bhbcyxkjxb"@, "0"@),
            ("sfkcfx"@, "0"@),
            ("bbhzxjxb"@, "0"@),
            ("kkbk"@, "0"@),
            ("kkbkdj"@, "0"@),
            ("bklbkcj"@, "0"@),
            ("xkxnm"@, ctx.xkxnm@),
            ("xkxqm"@, ctx.xkxqm@),
            ("xkxskcgskg"@, "1"@),
            ("rlkz"@, "0"@),
            ("cdrlkz"@, "0"@),
            ("cxcykclxxskg"@, "0"@),
            ("rlzlkz"@, "1"@),
            ("kklxdm"@, kklxdm@),
            ("kch_id"@, kch_id@),
            ("jxbzcxskg"@, "0"@),
            ("zxgbxkkg"@, "0"@),
            ("xklc"@, "1"@),
            ("xkkz_id"@, xkkz_id@),
            ("cxbj"@, "0"@),
            ("fxbj"@, "0"@),
        ],
{
    let mut f: Vec<(String, String)> = Vec::new();
    push_pair(&mut f, "rwlx", "2");
    push_pair(&mut f, "xkly", "0");
    push_pair(&mut f, "bklx_id", "0");
    push_pair(&mut f, "sfkkjyxdxnxq", "0");
    push_pair(&mut f, "kzkcgs", "0");
    push_pair(&mut f, "xqh_id", "1");
    push_pair(&mut f, "jg_id", ctx.jg_id.as_str());
    push_pair(&mut f, "zyh_id", ctx.zyh_id.as_str());
    push_pair(&mut f, "zyfx_id", "wfx");
    push_pair(&mut f, "txbsfrl", "0");
    push_pair(&mut f, "njdm_id", ctx.njdm_id.as_str());
    push_pair(&mut f, "bh_id", ctx.bh_id.as_str());
    push_pair(&mut f, "xbm", "1");
    push_pair(&mut f, "xslbdm", "421");
    push_pair(&mut f, "mzm", "01");
    push_pair(&mut f, "xz", "4");
    push_pair(&mut f, "ccdm", "3");
    push_pair(&mut f, "xsbj", "0");
    push_pair(&mut f, "sfkknj", "0");
    push_pair(&mut f, "gnjkxdnj", "0");
    push_pair(&mut f, "sfkkzy", "0");
    push_pair(&mut f, "kzybkxy", "0");
    push_pair(&mut f, "sfznkx", "0");
    push_pair(&mut f, "zdkxms", "0");
    push_pair(&mut f, "sfkxq", "0");
    push_pair(&mut f, "bhbcyxkjxb", "0");
    push_pair(&mut f, "sfkcfx", "0");
    push_pair(&mut f, "bbhzxjxb", "0");
    push_pair(&mut f, "kkbk", "0");
    push_pair(&mut f, "kkbkdj", "0");
    push_pair(&mut f, "bklbkcj", "0");
    push_pair(&mut f, "xkxnm", ctx.xkxnm.as_str());
    push_pair(&mut f, "xkxqm", ctx.xkxqm.as_str());
    push_pair(&mut f, "xkxskcgskg", "1");
    push_pair(&mut f, "rlkz", "0");
    push_pair(&mut f, "cdrlkz", "0");
    push_pair(&mut f, "cxcykclxxskg", "0");
    push_pair(&mut f, "rlzlkz", "1");
    push_pair(&mut f, "kklxdm", kklxdm);
    push_pair(&mut f, "kch_id", kch_id);
    push_pair(&mut f, "jxbzcxskg", "0");
    push_pair(&mut f, "zxgbxkkg", "0");
    push_pair(&mut f, "xklc", "1");
    push_pair(&mut f, "xkkz_id", xkkz_id);
    push_pair(&mut f, "cxbj", "0");
    push_pair(&mut f, "fxbj", "0");
    f
}

/// The form of the list of chosen courses, as the browser sends it.
pub fn selected_courses_form(ctx: &StudentContext) -> (r: Vec<(String, String)>)
    ensures
        pairs_view(r@) == seq![
            ("jg_id"@, ctx.jg_id@),
            ("zyh_id"@, ctx.zyh_id@),
            ("njdm_id"@, ctx.njdm_id@),
            ("zyfx_id"@, "wfx"@),
            ("bh_id"@, ctx.bh_id@),
            ("xz"@, "4"@),
            ("ccdm"@, "3"@),
            ("xqh_id"@, "1"@),
            ("xkxnm"@, ctx.xkxnm@),
            ("xkxqm"@, ctx.xkxqm@),
            ("xkly"@, "1"@),
        ],
{
    let mut f: Vec<(String, String)> = Vec::new();
    push_pair(&mut f, "jg_id", ctx.jg_id.as_str());
    push_pair(&mut f, "zyh_id", ctx.zyh_id.as_str());
    push_pair(&mut f, "njdm_id", ctx.njdm_id.as_str());
    push_pair(&mut f, "zyfx_id", "wfx");
    push_pair(&mut f, "bh_id", ctx.bh_id.as_str());
    push_pair(&mut f, "xz", "4");
    push_pair(&mut f, "ccdm", "3");
    push_pair(&mut f, "xqh_id", "1");
    push_pair(&mut f, "xkxnm", ctx.xkxnm.as_str());
    push_pair(&mut f, "xkxqm", ctx.xkxqm.as_str());
    push_pair(&mut f, "xkly", "1");
    f
}

/// The form of an enrolment in teaching class `jxb_ids` of course `kch_id`.
pub fn enroll_form(jxb_ids: &str, kch_id: &str, kcmc: &str, xkkz_id: &str, kklxdm: &str, xkxnm: &str, xkxqm: &str, njdm_id: &str, zyh_id: &str) -> (r: Vec<(String, String)>)
    ensures
        pairs_view(r@) == seq![
            ("jxb_ids"@, jxb_ids@),
            ("kch_id"@, kch_id@),
            ("kcmc"@, kcmc@),
            ("rwlx"@, "2"@),
            ("rlkz"@, "0"@),
            ("cdrlkz"@, "0"@),
            ("rlzlkz"@, "1"@),
            ("sxbj"@, "1"@),
            ("xxkbj"@, "0"@),
            ("qz"@, "0"@),
            ("cxbj"@, "0"@),
            ("xkkz_id"@, xkkz_id@),
            ("njdm_id"@, njdm_id@),
            ("zyh_id"@, zyh_id@),
            ("kklxdm"@, kklxdm@),
            ("xklc"@, "1"@),
            ("xkxnm"@, xkxnm@),
            ("xkxqm"@, xkxqm@),
            ("jcxx_id"@, ""@),
        ],
{
    let mut f: Vec<(String, String)> = Vec::new();
    push_pair(&mut f, "jxb_ids", jxb_ids);
    push_pair(&mut f, "kch_id", kch_id);
    push_pair(&mut f, "kcmc", kcmc);
    push_pair(&mut f, "rwlx", "2");
    push_pair(&mut f, "rlkz", "0");
    push_pair(&mut f, "cdrlkz", "0");
    push_pair(&mut f, "rlzlkz", "1");
    push_pair(&mut f, "sxbj", "1");
    push_pair(&mut f, "xxkbj", "0");
    push_pair(&mut f, "qz", "0");
    push_pair(&mut f, "cxbj", "0");
    push_pair(&mut f, "xkkz_id", xkkz_id);
    push_pair(&mut f, "njdm_id", njdm_id);
    push_pair(&mut f, "zyh_id", zyh_id);
    push_pair(&mut f, "kklxdm", kklxdm);
    push_pair(&mut f, "xklc", "1");
    push_pair(&mut f, "xkxnm", xkxnm);
    push_pair(&mut f, "xkxqm", xkxqm);
    push_pair(&mut f, "jcxx_id", "");
    f
}

/// The form of a withdrawal from teaching class `jxb_ids` of course `kch_id`.
pub fn drop_form(jxb_ids: &str, kch_id: &str, xkxnm: &str, xkxqm: &str) -> (r: Vec<(String, String)>)
    ensures
        pairs_view(r@) == seq![
            ("kch_id"@, kch_id@),
            ("jxb_ids"@, jxb_ids@),
            ("xkxnm"@, xkxnm@),
            ("xkxqm"@, xkxqm@),
            ("txbsfrl"@, "0"@),
        ],
{
    let mut f: Vec<(String, String)> = Vec::new();
    push_pair(&mut f, "kch_id", kch_id);
    push_pair(&mut f, "jxb_ids", jxb_ids);
    push_pair(&mut f, "xkxnm", xkxnm);
    push_pair(&mut f, "xkxqm", xkxqm);
    push_pair(&mut f, "txbsfrl", "0");
    f
}

/// The form of the capacity check before an enrolment.
pub fn precheck_form(jxb_ids: &str, kch_id: &str, kklxdm: &str, xkxnm: &str, xkxqm: &str, njdm_id: &str, zyh_id: &str) -> (r: Vec<(String, String)>)
    ensures
        pairs_view(r@) == seq![
            ("jxb_ids"@, jxb_ids@),
            ("xkxnm"@, xkxnm@),
            ("xkxqm"@, xkxqm@),
            ("bj"@, "7"@),
            ("kch_id"@, kch_id@),
            ("njdm_id"@, njdm_id@),
            ("zyh_id"@, zyh_id@),
            ("kklxdm"@, kklxdm@),
        ],
{
    let mut f: Vec<(String, String)> = Vec::new();
    push_pair(&mut f, "jxb_ids", jxb_ids);
    push_pair(&mut f, "xkxnm", xkxnm);
    push_pair(&mut f, "xkxqm", xkxqm);
    push_pair(&mut f, "bj", "7");
    push_pair(&mut f, "kch_id", kch_id);
    push_pair(&mut f, "njdm_id", njdm_id);
    push_pair(&mut f, "zyh_id", zyh_id);
    push_pair(&mut f, "kklxdm", kklxdm);
    f
}


/// The student's information, below `JW_BASE`.
pub const USER_INFO_PATH: &'static str = "xsxxxggl/xsxxwh_cxCkDgxsxx.html?gnmkdm=N100801";
/// The grades query.
pub const GRADES_PATH: &'static str = "cjcx/cjcx_cxDgXscj.html?doType=query&gnmkdm=N305005";
/// The timetable query.
pub const SCHEDULE_PATH: &'static str = "kbcx/xskbcx_cxXsKb.html?gnmkdm=N2151";
/// The exam query.
pub const EXAMS_PATH: &'static str = "kwgl/kscx_cxXsksxxIndex.html?doType=query&gnmkdm=N358105";
/// The academic progress page.
pub const ACADEMICS_PATH: &'static str = "xsxy/xsxyqk_cxXsxyqkIndex.html?gnmkdm=N105515&layout=default";
/// The course-selection page.
pub const COURSE_INDEX_PATH: &'static str = "xsxk/zzxkyzb_cxZzxkYzbIndex.html?gnmkdm=N253512&layout=default";
/// The page of courses open in a tab.
pub const AVAILABLE_COURSES_PATH: &'static str = "xsxk/zzxkyzb_cxZzxkYzbDisplay.html?gnmkdm=N253512";
/// The course list of a tab.
pub const PART_DISPLAY_PATH: &'static str = "xsxk/zzxkyzb_cxZzxkYzbPartDisplay.html?gnmkdm=N253512";
/// The teaching classes of a course.
pub const COURSE_DETAIL_PATH: &'static str = "xsxk/zzxkyzbjk_cxJxbWithKchZzxkYzb.html?gnmkdm=N253512";
/// The chosen courses.
pub const SELECTED_COURSES_PATH: &'static str = "xsxk/zzxkyzb_cxZzxkYzbChoosedDisplay.html?gnmkdm=N253512";
/// The enrolment request.
pub const ENROLL_PATH: &'static str = "xsxk/zzxkyzbjk_xkBcZyZzxkYzb.html?gnmkdm=N253512";
/// The withdrawal request.
pub const DROP_PATH: &'static str = "xsxk/zzxkyzb_tuikBcZzxkYzb.html?gnmkdm=N253512";
/// The capacity check before an enrolment.
pub const PRECHECK_PATH: &'static str = "xsxk/zzxkyzb_cxXkTitleMsg.html?gnmkdm=N253512";

/// How many characters of a reply that is not JSON are kept.
pub const RAW_LIMIT: usize = 2000;

/// The reply of an API request whose answer should be JSON: the parsed
/// value, else an object whose `_raw` member holds the first 2000
/// characters of the body.
pub fn json_reply(body: &str) -> (r: Json)
    ensures
        match json_parse(body@) {
            Ok(v) => r == v,
            Err(_) => is_single(r, "_raw"@, prefix_chars(body@, RAW_LIMIT as nat)),
        },
{
    match parse_json(body) {
        Ok(v) => v,
        Err(_) => Json::single("_raw", take_chars(body, RAW_LIMIT)),
    }
}

/// The reply of a GET whose answer may be a page: the parsed value, else an
/// object whose `_html` member holds the body.
pub fn page_reply(body: &str) -> (r: Json)
    ensures
        match json_parse(body@) {
            Ok(v) => r == v,
            Err(_) => is_single(r, "_html"@, body@),
        },
{
    match parse_json(body) {
        Ok(v) => v,
        Err(_) => Json::single("_html", body.to_string()),
    }
}

/// Whether a body looks like JSON: its first visible character opens an
/// object or an array.
pub open spec fn looks_like_json(body: Seq<char>) -> bool {
    first_visible_spec(body) == Some('{') || first_visible_spec(body) == Some('[')
}

/// The reply of a POST whose answer may be a page: the parsed value when
/// the body looks like JSON and parses, else an object whose `_html` member
/// holds the body.
pub fn post_page_reply(body: &str) -> (r: Json)
    ensures
        (looks_like_json(body@) && json_parse(body@) is Ok) ==> r == json_parse(body@)->Ok_0,
        !(looks_like_json(body@) && json_parse(body@) is Ok) ==> is_single(r, "_html"@, body@),
{
    let first = first_visible(body);
    if first == Some('{') || first == Some('[') {
        if let Ok(v) = parse_json(body) {
            return v;
        }
    }
    Json::single("_html", body.to_string())
}

/// Whether the user-information reply shows a live session: a failed
/// request does not; a reply that was not JSON does when its text names
/// `bh_id`; any other reply does.
pub open spec fn session_alive(reply: Result<Json, ZustError>) -> bool {
    match reply {
        Err(_) => false,
        Ok(v) => match v.spec_get("_raw"@) {
            Some(raw) => match raw.as_text() {
                Some(t) => has_sub(t, "bh_id"@),
                None => false,
            },
            None => true,
        },
    }
}

/// Whether the user-information reply shows a live session.
pub fn session_valid(reply: &Result<Json, ZustError>) -> (r: bool)
    ensures
        r == session_alive(*reply),
{
    match reply {
        Err(_) => false,
        Ok(v) => match v.get("_raw") {
            Some(raw) => match raw {
                Json::Str(t) => crate::text::contains(t.as_str(), "bh_id"),
                _ => false,
            },
            None => true,
        },
    }
}


/// The hidden inputs of the course-selection page that make the student
/// context, each with the pattern that reads its value.
pub const RE_BH_ID: &'static str = "name=\"bh_id\"[^>]+value=\"(\\d+)\"";
pub const RE_NJDM_ID: &'static str = "name=\"njdm_id\"[^>]+value=\"(\\d+)\"";
pub const RE_ZYH_ID: &'static str = "name=\"zyh_id\"[^>]+value=\"(\\d+)\"";
pub const RE_JG_ID: &'static str = "name=\"jg_id\"[^>]+value=\"([A-Fa-f0-9]+)\"";
pub const RE_XKXNM: &'static str = "name=\"xkxnm\"[^>]+value=\"(\\d+)\"";
pub const RE_XKXQM: &'static str = "name=\"xkxqm\"[^>]+value=\"(\\d+)\"";

/// The value that `pattern` reads from `html`, or nothing.
pub open spec fn found_or_empty(pattern: Seq<char>, html: Seq<char>) -> Seq<char> {
    match regex_first_group(pattern, html) {
        Some(g) => g,
        None => Seq::<char>::empty(),
    }
}

/// The value that `pattern` reads from `html`, or nothing.
fn read_field(pattern: &str, html: &str) -> (r: String)
    ensures
        r@ == found_or_empty(pattern@, html@),
{
    match first_group(pattern, html) {
        Some(g) => g,
        None => String::new(),
    }
}

impl JWClient {
    /// The student context that the course-selection page carries in its
    /// hidden inputs; a field that is not found stays empty.
    pub fn get_student_context(&self, html: &str) -> (r: StudentContext)
        ensures
            r.bh_id@ == found_or_empty(RE_BH_ID@, html@),
            r.njdm_id@ == found_or_empty(RE_NJDM_ID@, html@),
            r.zyh_id@ == found_or_empty(RE_ZYH_ID@, html@),
            r.jg_id@ == found_or_empty(RE_JG_ID@, html@),
            r.xkxnm@ == found_or_empty(RE_XKXNM@, html@),
            r.xkxqm@ == found_or_empty(RE_XKXQM@, html@),
    {
        StudentContext {
            bh_id: read_field(RE_BH_ID, html),
            njdm_id: read_field(RE_NJDM_ID, html),
            zyh_id: read_field(RE_ZYH_ID, html),
            jg_id: read_field(RE_JG_ID, html),
            xkxnm: read_field(RE_XKXNM, html),
            xkxqm: read_field(RE_XKXQM, html),
        }
    }
}

/// The links of the course-selection page that open a course tab:
/// `queryCourse(this, '<kklxdm>', '<xkkz_id>', '<njdm_id>', '<zyh_id>')`
/// and the tab's name.
pub const RE_COURSE_TAB: &'static str = "<a[^>]*onclick\\s*=\\s*\"queryCourse\\s*\\([^,]*,\\s*'(\\d+)'\\s*,\\s*'([A-F0-9]{30,})'\\s*,\\s*'(\\d+)'\\s*,\\s*'(\\d+)'\\)\"[^>]*>([^<]*)</a>";

/// A capture group's text, or nothing when it took no part.
pub open spec fn group_text(g: Option<Seq<char>>) -> Seq<char> {
    match g {
        Some(t) => t,
        None => Seq::<char>::empty(),
    }
}

/// The tab that one match of `RE_COURSE_TAB` describes; its name trimmed.
pub open spec fn tab_from(groups: Seq<Option<Seq<char>>>, tab: CourseTab) -> bool {
    &&& tab.kklxdm@ == group_text(groups[0])
    &&& tab.xkkz_id@ == group_text(groups[1])
    &&& tab.njdm_id@ == group_text(groups[2])
    &&& tab.zyh_id@ == group_text(groups[3])
    &&& tab.name@ == trim_spec(group_text(groups[4]))
}

/// An owned capture group's text, or nothing.
fn group_string(g: &Option<String>) -> (r: String)
    ensures
        r@ == group_text(match g { Some(t) => Some(t@), None => None }),
{
    match g {
        Some(t) => t.clone(),
        None => String::new(),
    }
}

/// The course tabs of the course-selection page, one per link, in order.
pub fn course_tabs(html: &str) -> (r: Vec<CourseTab>)
    ensures
        r@.len() == regex_all_groups(RE_COURSE_TAB@, html@, 5).len(),
        forall|i: int|
            0 <= i < r@.len() ==> tab_from(regex_all_groups(RE_COURSE_TAB@, html@, 5)[i], #[trigger] r@[i]),
{
    let found = all_groups(RE_COURSE_TAB, html, 5);
    let ghost all = regex_all_groups(RE_COURSE_TAB@, html@, 5);
    let mut tabs: Vec<CourseTab> = Vec::new();
    let mut i: usize = 0;
    while i < found.len()
        invariant
            i <= found@.len(),
            found@.len() == all.len(),
            all == regex_all_groups(RE_COURSE_TAB@, html@, 5),
            forall|k: int|
                0 <= k < found@.len() ==> {
                    &&& (#[trigger] found@[k])@.len() == 5
                    &&& forall|j: int|
                        0 <= j < 5 ==> match #[trigger] found@[k]@[j] {
                            Some(g) => all[k][j] == Some(g@),
                            None => all[k][j] is None,
                        }
                },
            tabs@.len() == i,
            forall|k: int| 0 <= k < i ==> tab_from(all[k], #[trigger] tabs@[k]),
        decreases found.len() - i,
    {
        let row = &found[i];
        assert(row@.len() == 5);
        let g0 = group_string(&row[0]);
        let g1 = group_string(&row[1]);
        let g2 = group_string(&row[2]);
        let g3 = group_string(&row[3]);
        let g4 = group_string(&row[4]);
        let name = trim(g4.as_str());
        let tab = CourseTab { kklxdm: g0, xkkz_id: g1, njdm_id: g2, zyh_id: g3, name };
        proof {
            assert(found@[i as int]@[0] == row@[0]);
            assert(group_text(all[i as int][0]) == tab.kklxdm@);
            assert(group_text(all[i as int][1]) == tab.xkkz_id@);
            assert(group_text(all[i as int][2]) == tab.njdm_id@);
            assert(group_text(all[i as int][3]) == tab.zyh_id@);
            assert(trim_spec(group_text(all[i as int][4])) == tab.name@);
        }
        tabs.push(tab);
        i += 1;
    }
    tabs
}


/// The rows that a course-list reply carries: its `items` array, else its
/// `rows` array, else its `tmpList` array, else none.
pub open spec fn items_of(v: Json) -> Seq<Json> {
    match v.array_field("items"@) {
        Some(a) => a,
        None => match v.array_field("rows"@) {
            Some(a) => a,
            None => match v.array_field("tmpList"@) {
                Some(a) => a,
                None => Seq::<Json>::empty(),
            },
        },
    }
}

/// The rows that a course-list reply carries.
pub fn extract_items(v: &Json) -> (r: &[Json])
    ensures
        r@ == items_of(*v),
{
    if let Some(a) = v.get_array("items") {
        return a.as_slice();
    }
    if let Some(a) = v.get_array("rows") {
        return a.as_slice();
    }
    if let Some(a) = v.get_array("tmpList") {
        return a.as_slice();
    }
    let none: &[Json] = &[];
    assert(none@ =~= Seq::<Json>::empty());
    none
}

/// The first row that the course list of a tab is read from.
pub const FIRST_COURSE_ROW: u32 = 1;
/// How many rows one request of the course list covers.
pub const COURSE_PAGE_ROWS: u32 = 70;
/// The most courses that the reading of a course list keeps, so that it
/// cannot run forever.
pub const COURSE_ITEM_LIMIT: usize = 500;

/// The last row of the request that starts at row `page`.
pub fn course_page_end(page: u32) -> (r: u32)
    requires
        page <= u32::MAX - (COURSE_PAGE_ROWS - 1),
    ensures
        r == page + COURSE_PAGE_ROWS - 1,
{
    page + (COURSE_PAGE_ROWS - 1)
}

/// What the reading of a course list does after the request from row `page`
/// brought `got` rows, when `collected` courses are kept already: how many
/// of the rows to keep (no more than the limit of 500 courses leaves room
/// for), and the row of the next request. An empty reply ends the reading;
/// so does reaching the limit.
pub fn next_course_page(page: u32, collected: usize, got: usize) -> (r: (usize, Option<u32>))
    requires
        collected <= COURSE_ITEM_LIMIT,
        page <= u32::MAX - COURSE_PAGE_ROWS,
    ensures
        r.0 == (if got <= COURSE_ITEM_LIMIT - collected { got } else { (COURSE_ITEM_LIMIT - collected) as usize }),
        collected + r.0 <= COURSE_ITEM_LIMIT,
        r.1 == (if got == 0 || collected + r.0 >= COURSE_ITEM_LIMIT {
            None::<u32>
        } else {
            Some((page + COURSE_PAGE_ROWS) as u32)
        }),
{
    let room = COURSE_ITEM_LIMIT - collected;
    let take = if got <= room { got } else { room };
    if got == 0 || collected + take >= COURSE_ITEM_LIMIT {
        (take, None)
    } else {
        (take, Some(page + COURSE_PAGE_ROWS))
    }
}


/// A failed user-information request shows no live session; a JSON reply
/// (no `_raw` text) shows one; a reply that was not JSON shows one exactly
/// when its text names `bh_id`.
pub proof fn law_session_alive(reply: Result<Json, ZustError>)
    ensures
        reply is Err ==> !session_alive(reply),
        reply matches Ok(v) ==> (v.spec_get("_raw"@) is None ==> session_alive(reply)),
        reply matches Ok(v) ==> (v.str_field("_raw"@) matches Some(t) ==> (session_alive(reply) <==> has_sub(t, "bh_id"@))),
{
}

/// A course-list reply's rows are its `items` array, else its `rows`
/// array, else its `tmpList` array, else none.
pub proof fn law_course_rows(v: Json)
    ensures
        v.array_field("items"@) matches Some(a) ==> items_of(v) == a,
        v.array_field("items"@) is None ==> (v.array_field("rows"@) matches Some(a) ==> items_of(v) == a),
        v.array_field("items"@) is None && v.array_field("rows"@) is None ==> (v.array_field("tmpList"@) matches Some(a)
            ==> items_of(v) == a),
        v.array_field("items"@) is None && v.array_field("rows"@) is None && v.array_field("tmpList"@) is None
            ==> items_of(v).len() == 0,
{
}

/// The login state a client starts from: the saved `_csrf` cookie (empty
/// without one) and the saved `_main_url` cookie (the academic-affairs
/// main page without one).
pub proof fn law_login_state(m: Map<Seq<char>, Seq<char>>)
    ensures
        m.dom().contains("_csrf"@) ==> csrf_of(m) == m["_csrf"@],
        !m.dom().contains("_csrf"@) ==> csrf_of(m).len() == 0,
        m.dom().contains("_main_url"@) ==> main_url_of(m) == m["_main_url"@],
        !m.dom().contains("_main_url"@) ==> main_url_of(m) == JW_BASE@ + "/xtgl/index_initMenu.html"@,
{
}
} // verus!
