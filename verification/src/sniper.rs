//! The enrolment engine: how a reply to an enrolment request is read, and
//! the bookkeeping of the targets that the engine keeps trying.
use vstd::prelude::*;
use crate::json::{Json, json_text, json_to_string, is_single};
use crate::client::JWClient;
use crate::error::{ZustError, error_text};
use crate::text::{
    contains, has_sub, occurs_at, lowercase, prefix_chars, take_chars, to_lowercase, trim, trim_spec,
    concat,
};
use crate::types::{SniperStats, SniperTarget, SniperTargetStatus};

verus! {

broadcast use vstd::string::group_string_axioms;

/// The lowercased raw reply looks like an HTML page (a login or error page).
pub open spec fn looks_like_html(lw: Seq<char>) -> bool {
    ||| has_sub(lw, "<!doctype"@)
    ||| has_sub(lw, "<html"@)
    ||| has_sub(lw, "<head"@)
    ||| has_sub(lw, "<body"@)
    ||| has_sub(lw, "<meta"@)
    ||| has_sub(lw, "<script"@)
    ||| has_sub(lw, "<link"@)
    ||| has_sub(lw, "<form"@)
    ||| has_sub(lw, "<input"@)
    ||| has_sub(lw, "login"@)
}

/// The lowercased raw reply carries one of the known session-expiry phrases.
pub open spec fn names_expiry(lw: Seq<char>) -> bool {
    ||| has_sub(lw, "尚未分配身份"@)
    ||| has_sub(lw, "请重新登录"@)
    ||| has_sub(lw, "会话已过期"@)
    ||| has_sub(lw, "session expired"@)
    ||| has_sub(lw, "core/login/auth"@)
}

/// The text reports rate limiting.
pub open spec fn names_rate_limit(t: Seq<char>) -> bool {
    has_sub(t, "频率过高"@) || has_sub(t, "请稍后重试"@) || has_sub(t, "rate limit"@)
}

/// The text reports a time conflict or an already chosen course.
pub open spec fn names_conflict(t: Seq<char>) -> bool {
    has_sub(t, "冲突"@) || has_sub(t, "已选"@)
}

/// How a raw (non-JSON) reply is read once the structured fields gave no answer.
pub open spec fn raw_outcome(raw: Seq<char>) -> (Seq<char>, Seq<char>) {
    let d = prefix_chars(raw, 200);
    if has_sub(raw, "成功"@) || has_sub(raw, "\"flag\":\"1\""@) {
        ("success"@, d)
    } else if names_conflict(raw) {
        ("conflict"@, d)
    } else if has_sub(raw, "容量"@) || has_sub(raw, "已满"@) || has_sub(raw, "不可选"@) {
        ("unavailable"@, d)
    } else {
        ("unknown"@, d)
    }
}

/// The (status, detail) pair that a reply `r` to an enrolment request is read as,
/// where `raw_lower` is the lowercase form of its `_raw` member (when it has one)
/// and `serialized` its JSON text.
pub open spec fn enroll_outcome(r: Json, raw_lower: Seq<char>, serialized: Seq<char>) -> (Seq<char>, Seq<char>) {
    let raw = r.str_field("_raw"@);
    let flag = r.str_field("flag"@);
    let msg = r.str_field("msg"@);
    let message = r.str_field("message"@);
    if raw is Some && looks_like_html(raw_lower) {
        ("session_expired"@, "Session 失效（返回 HTML 页面）: "@ + prefix_chars(raw->0, 120))
    } else if raw is Some && names_expiry(raw_lower) {
        ("session_expired"@, "Session 已失效，请重新登录"@)
    } else if flag == Some("0"@) && msg is Some && names_rate_limit(msg->0) {
        ("rate_limited"@, msg->0)
    } else if message is Some && names_rate_limit(message->0) {
        ("rate_limited"@, message->0)
    } else if raw is Some && names_rate_limit(raw->0) {
        ("rate_limited"@, prefix_chars(raw->0, 200))
    } else if flag == Some("1"@) {
        ("success"@, "选课成功"@)
    } else if flag == Some("-1"@) {
        if r.str_field("code"@) == Some("1"@) {
            ("unavailable"@, "容量已满"@)
        } else {
            ("unavailable"@, "不可选"@)
        }
    } else if flag == Some("0"@) {
        let m = if msg is Some { msg->0 } else { "未知原因"@ };
        if names_conflict(m) {
            ("conflict"@, m)
        } else {
            ("unavailable"@, m)
        }
    } else if message is Some && has_sub(message->0, "成功"@) {
        ("success"@, message->0)
    } else if message is Some && names_conflict(message->0) {
        ("conflict"@, message->0)
    } else if raw is Some {
        raw_outcome(raw->0)
    } else if r.as_text() is Some {
        let t = trim_spec(r.as_text()->0);
        if t == "1"@ || t == "success"@ || has_sub(t, "成功"@) {
            ("success"@, t)
        } else {
            ("unknown"@, t)
        }
    } else {
        ("unknown"@, prefix_chars(serialized, 200))
    }
}

/// The statuses that a reply to an enrolment request can be read as.
pub open spec fn known_status(s: Seq<char>) -> bool {
    ||| s == "success"@
    ||| s == "conflict"@
    ||| s == "rate_limited"@
    ||| s == "unavailable"@
    ||| s == "session_expired"@
    ||| s == "unknown"@
}

/// Every reply is read as one of the six statuses, and a raw reply that
/// looks like an HTML page always as an expired session.
pub proof fn law_enroll_statuses(r: Json, raw_lower: Seq<char>, serialized: Seq<char>)
    ensures
        known_status(enroll_outcome(r, raw_lower, serialized).0),
        (r.str_field("_raw"@) is Some && looks_like_html(raw_lower)) ==> enroll_outcome(r, raw_lower, serialized).0
            == "session_expired"@,
{
}

/// The text names rate limiting in one of the server's words.
pub open spec fn says_rate_limited(t: Seq<char>) -> bool {
    has_sub(t, "频率过高"@) || has_sub(t, "请稍后重试"@) || has_sub(t, "rate limit"@)
}

/// A JSON reply to an enrolment request (no `_raw` text) whose `message`,
/// if any, does not report rate limiting is read by its `flag`:
/// `"1"` is a success; `"-1"` is unavailable, full when `code` is `"1"`;
/// `"0"` with a `msg` is rate limited when the msg says so, else a conflict
/// when the msg contains `冲突` or `已选`, else unavailable, the msg being
/// the detail each time; without a msg it is unavailable for `未知原因`.
pub proof fn law_enroll_by_flag(r: Json, raw_lower: Seq<char>, serialized: Seq<char>)
    requires
        r.str_field("_raw"@) is None,
        r.str_field("message"@) matches Some(t) ==> !says_rate_limited(t),
    ensures
        r.str_field("flag"@) == Some("1"@) ==> enroll_outcome(r, raw_lower, serialized) == ("success"@, "选课成功"@),
        r.str_field("flag"@) == Some("-1"@) && r.str_field("code"@) == Some("1"@) ==> enroll_outcome(
            r,
            raw_lower,
            serialized,
        ) == ("unavailable"@, "容量已满"@),
        r.str_field("flag"@) == Some("-1"@) && r.str_field("code"@) != Some("1"@) ==> enroll_outcome(
            r,
            raw_lower,
            serialized,
        ) == ("unavailable"@, "不可选"@),
        r.str_field("flag"@) == Some("0"@) ==> match r.str_field("msg"@) {
            Some(m) => enroll_outcome(r, raw_lower, serialized) == (if says_rate_limited(m) {
                ("rate_limited"@, m)
            } else if has_sub(m, "冲突"@) || has_sub(m, "已选"@) {
                ("conflict"@, m)
            } else {
                ("unavailable"@, m)
            }),
            None => enroll_outcome(r, raw_lower, serialized) == ("unavailable"@, "未知原因"@),
        },
{
    reveal_strlit("0");
    reveal_strlit("1");
    reveal_strlit("-1");
    assert("1"@[0] != "0"@[0]);
    assert("-1"@.len() != "0"@.len());
    assert("-1"@.len() != "1"@.len());
    lemma_unknown_reason_plain();
}

/// The text `未知原因` names no conflict.
proof fn lemma_unknown_reason_plain()
    ensures
        !names_conflict("未知原因"@),
{
    reveal_strlit("未知原因");
    reveal_strlit("冲突");
    reveal_strlit("已选");
    let h = "未知原因"@;
    assert forall|i: int| !occurs_at(h, "冲突"@, i) by {
        if occurs_at(h, "冲突"@, i) {
            assert(h.subrange(i, i + 2)[0] == h[i]);
        }
    }
    assert forall|i: int| !occurs_at(h, "已选"@, i) by {
        if occurs_at(h, "已选"@, i) {
            assert(h.subrange(i, i + 2)[0] == h[i]);
        }
    }
}

/// A conflict reply: a JSON reply whose flag is `"0"`, that is not rate
/// limited, and whose msg contains `冲突` or `已选` is read as a conflict
/// with the msg as detail.
pub proof fn law_enroll_conflict(r: Json, raw_lower: Seq<char>, serialized: Seq<char>, m: Seq<char>)
    requires
        r.str_field("_raw"@) is None,
        r.str_field("flag"@) == Some("0"@),
        r.str_field("msg"@) == Some(m),
        !says_rate_limited(m),
        r.str_field("message"@) matches Some(t) ==> !says_rate_limited(t),
        has_sub(m, "冲突"@) || has_sub(m, "已选"@),
    ensures
        enroll_outcome(r, raw_lower, serialized) == ("conflict"@, m),
{
    law_enroll_by_flag(r, raw_lower, serialized);
}

/// A reply without `_raw` text and without a flag is read by its
/// `message`: rate limited when it says so (the message as detail), else a
/// success when it contains `成功`, else a conflict when it contains `冲突`
/// or `已选`.
pub proof fn law_enroll_by_message(r: Json, raw_lower: Seq<char>, serialized: Seq<char>, t: Seq<char>)
    requires
        r.str_field("_raw"@) is None,
        r.str_field("flag"@) is None,
        r.str_field("message"@) == Some(t),
    ensures
        says_rate_limited(t) ==> enroll_outcome(r, raw_lower, serialized) == ("rate_limited"@, t),
        !says_rate_limited(t) && has_sub(t, "成功"@) ==> enroll_outcome(r, raw_lower, serialized) == ("success"@, t),
        !says_rate_limited(t) && !has_sub(t, "成功"@) && (has_sub(t, "冲突"@) || has_sub(t, "已选"@))
            ==> enroll_outcome(r, raw_lower, serialized) == ("conflict"@, t),
{
}

/// A reply whose raw text is an HTML page, or names an expired session, is
/// read as an expired session, whatever else it holds.
pub proof fn law_enroll_raw_expired(r: Json, raw_lower: Seq<char>, serialized: Seq<char>)
    requires
        r.str_field("_raw"@) is Some,
        has_sub(raw_lower, "<html"@) || has_sub(raw_lower, "<!doctype"@) || has_sub(raw_lower, "login"@)
            || has_sub(raw_lower, "请重新登录"@) || has_sub(raw_lower, "会话已过期"@) || has_sub(raw_lower, "尚未分配身份"@),
    ensures
        enroll_outcome(r, raw_lower, serialized).0 == "session_expired"@,
{
}

/// A raw (non-JSON) reply that is no HTML page, names no expired session
/// and carries no flag or message is read from its text, the first 200
/// characters being the detail: rate limited when it says so, else a
/// success when it contains `成功` or `"flag":"1"`, else a conflict when it
/// contains `冲突` or `已选`, else unavailable when it contains `容量`, `已满`
/// or `不可选`, else unknown.
pub proof fn law_enroll_raw_text(r: Json, raw_lower: Seq<char>, serialized: Seq<char>, t: Seq<char>)
    requires
        r.str_field("_raw"@) == Some(t),
        !looks_like_html(raw_lower),
        !names_expiry(raw_lower),
        r.str_field("flag"@) is None,
        r.str_field("message"@) is None,
    ensures
        enroll_outcome(r, raw_lower, serialized) == (if says_rate_limited(t) {
            ("rate_limited"@, prefix_chars(t, 200))
        } else if has_sub(t, "成功"@) || has_sub(t, "\"flag\":\"1\""@) {
            ("success"@, prefix_chars(t, 200))
        } else if has_sub(t, "冲突"@) || has_sub(t, "已选"@) {
            ("conflict"@, prefix_chars(t, 200))
        } else if has_sub(t, "容量"@) || has_sub(t, "已满"@) || has_sub(t, "不可选"@) {
            ("unavailable"@, prefix_chars(t, 200))
        } else {
            ("unknown"@, prefix_chars(t, 200))
        }),
{
}

/// A reply that is a bare JSON string is a success when its trimmed text is
/// `1` or `success` or contains `成功`, and unknown otherwise, with the
/// trimmed text as detail.
pub proof fn law_enroll_text_reply(s: String, raw_lower: Seq<char>, serialized: Seq<char>)
    ensures
        enroll_outcome(Json::Str(s), raw_lower, serialized) == (if trim_spec(s@) == "1"@ || trim_spec(s@) == "success"@
            || has_sub(trim_spec(s@), "成功"@) {
            ("success"@, trim_spec(s@))
        } else {
            ("unknown"@, trim_spec(s@))
        }),
{
}

fn looks_like_html_exec(lw: &str) -> (b: bool)
    ensures
        b == looks_like_html(lw@),
{
    contains(lw, "<!doctype") || contains(lw, "<html") || contains(lw, "<head") || contains(lw, "<body")
        || contains(lw, "<meta") || contains(lw, "<script") || contains(lw, "<link") || contains(
        lw,
        "<form",
    ) || contains(lw, "<input") || contains(lw, "login")
}

fn names_expiry_exec(lw: &str) -> (b: bool)
    ensures
        b == names_expiry(lw@),
{
    contains(lw, "尚未分配身份") || contains(lw, "请重新登录") || contains(lw, "会话已过期") || contains(
        lw,
        "session expired",
    ) || contains(lw, "core/login/auth")
}

fn names_rate_limit_exec(t: &str) -> (b: bool)
    ensures
        b == names_rate_limit(t@),
{
    contains(t, "频率过高") || contains(t, "请稍后重试") || contains(t, "rate limit")
}

fn names_conflict_exec(t: &str) -> (b: bool)
    ensures
        b == names_conflict(t@),
{
    contains(t, "冲突") || contains(t, "已选")
}

fn str_is(s: Option<&str>, lit: &str) -> (b: bool)
    ensures
        b == (match s {
            Some(v) => v@ == lit@,
            None => false,
        }),
{
    match s {
        Some(v) => crate::json::str_eq(v, lit),
        None => false,
    }
}

fn raw_outcome_exec(raw: &str) -> (r: (String, String))
    ensures
        (r.0@, r.1@) == raw_outcome(raw@),
{
    let d = take_chars(raw, 200);
    if contains(raw, "成功") || contains(raw, "\"flag\":\"1\"") {
        ("success".to_string(), d)
    } else if names_conflict_exec(raw) {
        ("conflict".to_string(), d)
    } else if contains(raw, "容量") || contains(raw, "已满") || contains(raw, "不可选") {
        ("unavailable".to_string(), d)
    } else {
        ("unknown".to_string(), d)
    }
}

/// Reads a reply to an enrolment request as a (status, detail) pair, given the
/// lowercase form `raw_lower` of its `_raw` member. The status is one of
/// `success`, `conflict`, `rate_limited`, `unavailable`, `session_expired`, `unknown`.
pub fn classify_enroll_reply(r: &Json, raw_lower: &str, serialized: &str) -> (res: (String, String))
    ensures
        (res.0@, res.1@) == enroll_outcome(*r, raw_lower@, serialized@),
{
    let raw = r.get_str("_raw");
    let flag = r.get_str("flag");
    let msg = r.get_str("msg");
    let message = r.get_str("message");
    if let Some(rw) = raw {
        if looks_like_html_exec(raw_lower) {
            let snippet = take_chars(rw, 120);
            return ("session_expired".to_string(), concat("Session 失效（返回 HTML 页面）: ", &snippet));
        }
        if names_expiry_exec(raw_lower) {
            return ("session_expired".to_string(), "Session 已失效，请重新登录".to_string());
        }
    }
    if str_is(flag, "0") {
        if let Some(m) = msg {
            if names_rate_limit_exec(m) {
                return ("rate_limited".to_string(), m.to_string());
            }
        }
    }
    if let Some(m) = message {
        if names_rate_limit_exec(m) {
            return ("rate_limited".to_string(), m.to_string());
        }
    }
    if let Some(rw) = raw {
        if names_rate_limit_exec(rw) {
            return ("rate_limited".to_string(), take_chars(rw, 200));
        }
    }
    if str_is(flag, "1") {
        return ("success".to_string(), "选课成功".to_string());
    }
    if str_is(flag, "-1") {
        if str_is(r.get_str("code"), "1") {
            return ("unavailable".to_string(), "容量已满".to_string());
        }
        return ("unavailable".to_string(), "不可选".to_string());
    }
    if str_is(flag, "0") {
        let m = match msg {
            Some(m) => m,
            None => "未知原因",
        };
        if names_conflict_exec(m) {
            return ("conflict".to_string(), m.to_string());
        }
        return ("unavailable".to_string(), m.to_string());
    }
    if let Some(m) = message {
        if contains(m, "成功") {
            return ("success".to_string(), m.to_string());
        }
        if names_conflict_exec(m) {
            return ("conflict".to_string(), m.to_string());
        }
    }
    if let Some(rw) = raw {
        return raw_outcome_exec(rw);
    }
    if let Json::Str(s) = r {
        let t = trim(s.as_str());
        if crate::json::str_eq(t.as_str(), "1") || crate::json::str_eq(t.as_str(), "success")
            || contains(t.as_str(), "成功") {
            return ("success".to_string(), t);
        }
        return ("unknown".to_string(), t);
    }
    ("unknown".to_string(), take_chars(serialized, 200))
}

/// The lowercase form of the `_raw` member of a reply, or the empty text
/// when it has none.
pub open spec fn raw_lower_of(r: Json) -> Seq<char> {
    match r.str_field("_raw"@) {
        Some(raw) => lowercase(raw),
        None => Seq::<char>::empty(),
    }
}

/// Reads a reply to an enrolment request as a (status, detail) pair. The
/// `_raw` member is lowercased with `str::to_lowercase` before it is searched
/// for HTML and expiry markers; a reply that nothing else explains is
/// reported by its JSON text.
pub fn parse_enroll_result(r: &Json, target: &SniperTarget) -> (res: (String, String))
    ensures
        (res.0@, res.1@) == enroll_outcome(*r, raw_lower_of(*r), json_text(*r)),
{
    let lowered = match r.get_str("_raw") {
        Some(raw) => to_lowercase(raw),
        None => String::new(),
    };
    let serialized = json_to_string(r);
    classify_enroll_reply(r, lowered.as_str(), serialized.as_str())
}


/// What the enrolment engine holds: its targets, one statistics record per
/// target, whether it runs, and how many attempts it has made.
pub struct SniperBook {
    pub targets: Seq<SniperTarget>,
    pub stats: Seq<SniperStats>,
    pub running: bool,
    pub total_attempts: u64,
}

/// The state of the enrolment engine: the client it enrols with, its
/// targets and their statistics, whether it runs, and its attempt counter.
/// The clock and the task that drives the rounds belong to the application
/// around it.
pub struct EnrollSniper {
    client: JWClient,
    targets: Vec<SniperTarget>,
    stats: Vec<SniperStats>,
    running: bool,
    total_attempts: u64,
}

/// `j` is the first statistics record whose course id is `key`.
pub open spec fn is_first_match(stats: Seq<SniperStats>, key: Seq<char>, j: int) -> bool {
    &&& 0 <= j < stats.len()
    &&& stats[j].kch_id@ == key
    &&& forall|k: int| 0 <= k < j ==> stats[k].kch_id@ != key
}

/// No statistics record has course id `key`.
pub open spec fn no_match(stats: Seq<SniperStats>, key: Seq<char>) -> bool {
    forall|k: int| 0 <= k < stats.len() ==> stats[k].kch_id@ != key
}

/// `after` is `before` with record `j` counting one more attempt whose
/// outcome was (`status`, `detail`).
pub open spec fn bumped_at(
    before: Seq<SniperStats>,
    after: Seq<SniperStats>,
    j: int,
    status: Seq<char>,
    detail: Seq<char>,
) -> bool {
    &&& after.len() == before.len()
    &&& forall|k: int| 0 <= k < before.len() && k != j ==> after[k] == before[k]
    &&& after[j].kch_id == before[j].kch_id
    &&& after[j].kcmc == before[j].kcmc
    &&& after[j].attempts == before[j].attempts.wrapping_add(1)
    &&& after[j].last_status@ == status
    &&& after[j].last_detail@ == detail
}

/// `after` is `before` with one more attempt counted on the target with
/// course id `kch_id`, read as (`status`, `detail`): the attempt counter
/// grows by one (wrapping as an atomic counter does), and so does the first
/// record with that course id, which also keeps the outcome.
pub open spec fn attempt_recorded(
    before: SniperBook,
    after: SniperBook,
    kch_id: Seq<char>,
    status: Seq<char>,
    detail: Seq<char>,
) -> bool {
    &&& after.total_attempts == before.total_attempts.wrapping_add(1)
    &&& after.targets == before.targets
    &&& after.running == before.running
    &&& ((exists|j: int| is_first_match(before.stats, kch_id, j) && bumped_at(before.stats, after.stats, j, status, detail))
        || (no_match(before.stats, kch_id) && after.stats == before.stats))
}

/// The statistics that `set_targets` starts from: one record per target, in
/// order, with no attempts and the status `pending`.
pub open spec fn fresh_stats(targets: Seq<SniperTarget>, stats: Seq<SniperStats>) -> bool {
    &&& stats.len() == targets.len()
    &&& forall|i: int|
        0 <= i < targets.len() ==> {
            &&& (#[trigger] stats[i]).kch_id == targets[i].kch_id
            &&& stats[i].kcmc == targets[i].kcmc
            &&& stats[i].attempts == 0
            &&& stats[i].last_status@ == "pending"@
            &&& stats[i].last_detail@ == Seq::<char>::empty()
        }
}

fn copy_target(t: &SniperTarget) -> (r: SniperTarget)
    ensures
        r == *t,
{
    SniperTarget {
        jxb_ids: t.jxb_ids.clone(),
        kch_id: t.kch_id.clone(),
        kcmc: t.kcmc.clone(),
        xkkz_id: t.xkkz_id.clone(),
        kklxdm: t.kklxdm.clone(),
        xkxnm: t.xkxnm.clone(),
        xkxqm: t.xkxqm.clone(),
        njdm_id: t.njdm_id.clone(),
        zyh_id: t.zyh_id.clone(),
    }
}

fn copy_stats(s: &SniperStats) -> (r: SniperStats)
    ensures
        r == *s,
{
    SniperStats {
        kch_id: s.kch_id.clone(),
        kcmc: s.kcmc.clone(),
        attempts: s.attempts,
        last_status: s.last_status.clone(),
        last_detail: s.last_detail.clone(),
    }
}

impl View for EnrollSniper {
    type V = SniperBook;

    closed spec fn view(&self) -> SniperBook {
        SniperBook {
            targets: self.targets@,
            stats: self.stats@,
            running: self.running,
            total_attempts: self.total_attempts,
        }
    }
}

impl EnrollSniper {
    /// The client that the engine enrols with.
    pub closed spec fn client(&self) -> JWClient {
        self.client
    }

    /// An engine that enrols with `client`, with no targets, that does not
    /// run and has made no attempt.
    pub fn new(client: JWClient) -> (r: Self)
        ensures
            r.client() == client,
            r@.targets.len() == 0,
            r@.stats.len() == 0,
            !r@.running,
            r@.total_attempts == 0,
    {
        EnrollSniper { client, targets: Vec::new(), stats: Vec::new(), running: false, total_attempts: 0 }
    }

    /// The client that the engine enrols with.
    pub fn client_ref(&self) -> (r: &JWClient)
        ensures
            *r == self.client(),
    {
        &self.client
    }

    /// Replaces the client, after a new login; nothing else changes.
    pub fn update_client(&mut self, new_client: JWClient)
        ensures
            final(self).client() == new_client,
            final(self)@ == old(self)@,
    {
        self.client = new_client;
    }

    /// Replaces the targets, and starts their statistics afresh.
    pub fn set_targets(&mut self, targets: Vec<SniperTarget>)
        ensures
            final(self).client() == old(self).client(),
            final(self)@.targets == targets@,
            fresh_stats(targets@, final(self)@.stats),
            final(self)@.running == old(self)@.running,
            final(self)@.total_attempts == old(self)@.total_attempts,
    {
        let mut stats: Vec<SniperStats> = Vec::new();
        let mut i: usize = 0;
        while i < targets.len()
            invariant
                i <= targets@.len(),
                fresh_stats(targets@.take(i as int), stats@),
            decreases targets.len() - i,
        {
            let t = &targets[i];
            stats.push(
                SniperStats {
                    kch_id: t.kch_id.clone(),
                    kcmc: t.kcmc.clone(),
                    attempts: 0,
                    last_status: "pending".to_string(),
                    last_detail: String::new(),
                },
            );
            i += 1;
        }
        assert(targets@.take(targets@.len() as int) =~= targets@);
        self.stats = stats;
        self.targets = targets;
    }

    /// Whether the engine runs.
    pub fn is_running(&self) -> (r: bool)
        ensures
            r == self@.running,
    {
        self.running
    }

    /// A copy of the statistics, one record per target.
    pub fn get_stats(&self) -> (r: Vec<SniperStats>)
        ensures
            r@ == self@.stats,
    {
        let mut out: Vec<SniperStats> = Vec::new();
        let mut i: usize = 0;
        while i < self.stats.len()
            invariant
                i <= self.stats@.len(),
                out@ == self.stats@.take(i as int),
            decreases self.stats.len() - i,
        {
            out.push(copy_stats(&self.stats[i]));
            assert(out@ =~= self.stats@.take(i as int + 1));
            i += 1;
        }
        assert(self.stats@.take(self.stats@.len() as int) =~= self.stats@);
        out
    }

    /// Starts or stops the engine.
    pub fn set_running(&mut self, running: bool)
        ensures
            final(self)@ == (SniperBook { running, ..old(self)@ }),
            final(self).client() == old(self).client(),
    {
        self.running = running;
    }

    /// The number of attempts since the last `reset`.
    pub fn total_attempts(&self) -> (r: u64)
        ensures
            r == self@.total_attempts,
    {
        self.total_attempts
    }

    /// Starts a new round of enrolment: the attempt counter returns to zero.
    pub fn reset(&mut self)
        ensures
            final(self)@ == (SniperBook { total_attempts: 0, ..old(self)@ }),
            final(self).client() == old(self).client(),
    {
        self.total_attempts = 0;
    }

    /// The targets.
    pub fn targets(&self) -> (r: &[SniperTarget])
        ensures
            r@ == self@.targets,
    {
        self.targets.as_slice()
    }

    /// Counts one attempt on the target with course id `kch_id` whose reply
    /// was read as (`status`, `detail`): the attempt counter grows by one
    /// (wrapping as an atomic counter does), and so does the first record
    /// with that course id, which also keeps the outcome.
    pub fn record_attempt(&mut self, kch_id: &str, status: &str, detail: &str)
        ensures
            attempt_recorded(old(self)@, final(self)@, kch_id@, status@, detail@),
            final(self).client() == old(self).client(),
    {
        self.total_attempts = self.total_attempts.wrapping_add(1);
        let mut i: usize = 0;
        while i < self.stats.len()
            invariant
                i <= self.stats@.len(),
                self.stats@ == old(self).stats@,
                self.targets@ == old(self).targets@,
                self.running == old(self).running,
                self.client == old(self).client,
                self.total_attempts == old(self).total_attempts.wrapping_add(1),
                forall|k: int| 0 <= k < i ==> self.stats@[k].kch_id@ != kch_id@,
            decreases self.stats.len() - i,
        {
            if crate::json::str_eq(self.stats[i].kch_id.as_str(), kch_id) {
                let ghost before = self.stats@;
                let old_stat = copy_stats(&self.stats[i]);
                let updated = SniperStats {
                    kch_id: old_stat.kch_id,
                    kcmc: old_stat.kcmc,
                    attempts: old_stat.attempts.wrapping_add(1),
                    last_status: status.to_string(),
                    last_detail: detail.to_string(),
                };
                self.stats.set(i, updated);
                assert(is_first_match(before, kch_id@, i as int));
                assert(bumped_at(before, self.stats@, i as int, status@, detail@));
                return;
            }
            i += 1;
        }
    }
}

/// The reply that stands for an enrolment request that failed: its `_raw`
/// member is `Error: ` and the error's text.
pub fn failed_request_reply(e: &ZustError) -> (r: Json)
    ensures
        is_single(r, "_raw"@, "Error: "@ + error_text(*e)),
{
    let m = e.message();
    Json::single("_raw", concat("Error: ", m.as_str()))
}

/// `j` is the reply that an enrolment request came back with: its value, or
/// for a failed request the reply that stands for the error.
pub open spec fn reply_value(reply: Result<Json, ZustError>, j: Json) -> bool {
    match reply {
        Ok(v) => j == v,
        Err(e) => is_single(j, "_raw"@, "Error: "@ + error_text(e)),
    }
}

impl EnrollSniper {
    /// Takes the reply to the enrolment request of target `index`: reads it,
    /// counts the attempt with its outcome, and returns the target's status
    /// for this round.
    pub fn record_reply(&mut self, index: usize, reply: Result<Json, ZustError>) -> (r: SniperTargetStatus)
        requires
            index < old(self)@.targets.len(),
        ensures
            r.kch_id == old(self)@.targets[index as int].kch_id,
            r.kcmc == old(self)@.targets[index as int].kcmc,
            exists|j: Json| #[trigger] reply_value(reply, j)
                && (r.status@, r.detail@) == enroll_outcome(j, raw_lower_of(j), json_text(j)),
            attempt_recorded(old(self)@, final(self)@, r.kch_id@, r.status@, r.detail@),
            final(self).client() == old(self).client(),
    {
        let target = copy_target(&self.targets[index]);
        let resp = match reply {
            Ok(v) => v,
            Err(e) => failed_request_reply(&e),
        };
        let (status, detail) = parse_enroll_result(&resp, &target);
        assert(reply_value(reply, resp));
        self.record_attempt(target.kch_id.as_str(), status.as_str(), detail.as_str());
        SniperTargetStatus { kch_id: target.kch_id, kcmc: target.kcmc, status, detail }
    }
}

/// How long target `index` waits before its request in a round, so that
/// the requests of one round do not arrive in the same millisecond.
pub fn stagger_delay(stagger_ms: u64, index: usize) -> (r: u64)
    requires
        stagger_ms * index <= u64::MAX,
    ensures
        r == stagger_ms * index,
{
    stagger_ms * (index as u64)
}

/// What the driving loop does after a round of attempts.
pub enum TickVerdict {
    /// The session has expired: log in again before the next round.
    Relogin,
    /// A target was taken: stop.
    Success,
    /// Wait and try again.
    Continue,
}

/// Some status in `statuses` is `status`.
pub open spec fn some_status(statuses: Seq<SniperTargetStatus>, status: Seq<char>) -> bool {
    exists|i: int| 0 <= i < statuses.len() && (#[trigger] statuses[i]).status@ == status
}

fn any_status(statuses: &[SniperTargetStatus], status: &str) -> (r: bool)
    ensures
        r == some_status(statuses@, status@),
{
    let mut i: usize = 0;
    while i < statuses.len()
        invariant
            i <= statuses@.len(),
            forall|k: int| 0 <= k < i ==> (#[trigger] statuses@[k]).status@ != status@,
        decreases statuses.len() - i,
    {
        if crate::json::str_eq(statuses[i].status.as_str(), status) {
            return true;
        }
        i += 1;
    }
    false
}

/// The decision that follows a round: a target taken (some status
/// `success`) stops the engine; otherwise log in again when the round says
/// the session is no longer valid or some target reports `session_expired`;
/// otherwise go on.
pub fn tick_verdict(statuses: &[SniperTargetStatus], session_valid: bool) -> (v: TickVerdict)
    ensures
        v is Success <==> some_status(statuses@, "success"@),
        v is Relogin <==> (!some_status(statuses@, "success"@) && (!session_valid || some_status(
            statuses@,
            "session_expired"@,
        ))),
{
    if any_status(statuses, "success") {
        TickVerdict::Success
    } else if !session_valid || any_status(statuses, "session_expired") {
        TickVerdict::Relogin
    } else {
        TickVerdict::Continue
    }
}

/// Whether a round leaves the session valid: no target reported
/// `session_expired`.
pub fn round_session_valid(statuses: &[SniperTargetStatus]) -> (r: bool)
    ensures
        r == !some_status(statuses@, "session_expired"@),
{
    !any_status(statuses, "session_expired")
}

/// What the driving loop learns from a round.
pub enum RoundEvent {
    /// The round ran; each target reported a status.
    Ticked { statuses: Vec<SniperTargetStatus>, session_valid: bool },
    /// The round failed as a whole.
    Failed,
}

/// What the driving loop does next.
pub enum RoundAction {
    /// Log in again, then go on at once (or stop if the login fails).
    Relogin,
    /// A target was taken: stop, whatever else the round reported.
    Stop,
    /// Wait, then run the next round.
    Wait,
}

/// The action that follows a round (see `after_round`).
pub open spec fn round_action(event: RoundEvent) -> RoundAction {
    match event {
        RoundEvent::Failed => RoundAction::Wait,
        RoundEvent::Ticked { statuses, session_valid } => if some_status(statuses@, "success"@) {
            RoundAction::Stop
        } else if !session_valid || some_status(statuses@, "session_expired"@) {
            RoundAction::Relogin
        } else {
            RoundAction::Wait
        },
    }
}

/// A round that ran and in which some target was taken.
pub open spec fn round_took(event: RoundEvent) -> bool {
    event matches RoundEvent::Ticked { statuses, .. } && some_status(statuses@, "success"@)
}

/// How many of the rounds `events` the driving loop runs: up to and with
/// the first one whose action is to stop, or all of them.
pub open spec fn rounds_run(events: Seq<RoundEvent>) -> nat
    decreases events.len(),
{
    if events.len() == 0 {
        0
    } else if round_action(events[0]) is Stop {
        1
    } else {
        1 + rounds_run(events.drop_first())
    }
}

/// The driving loop stops at the first round in which a target was taken:
/// every round before it goes on, that round stops, and the loop runs no
/// round after it. A loop in which no round takes a target runs every
/// round it is given.
pub proof fn law_first_success_stops(events: Seq<RoundEvent>, k: int)
    requires
        0 <= k <= events.len(),
        k < events.len() ==> round_took(events[k]),
        forall|j: int| 0 <= j < k ==> !round_took(#[trigger] events[j]),
    ensures
        forall|j: int| 0 <= j < k ==> !(round_action(#[trigger] events[j]) is Stop),
        k < events.len() ==> round_action(events[k]) is Stop,
        rounds_run(events) == (if k < events.len() { k + 1 } else { k }),
    decreases k,
{
    if k > 0 {
        let rest = events.drop_first();
        assert(!round_took(events[0]));
        assert forall|j: int| 0 <= j < k - 1 implies !round_took(#[trigger] rest[j]) by {
            assert(rest[j] == events[j + 1]);
        }
        if k - 1 < rest.len() {
            assert(rest[k - 1] == events[k]);
        }
        law_first_success_stops(rest, k - 1);
        assert forall|j: int| 0 <= j < k implies !(round_action(#[trigger] events[j]) is Stop) by {
            if j > 0 {
                assert(events[j] == rest[j - 1]);
                assert(!(round_action(rest[j - 1]) is Stop));
            } else {
                assert(!round_took(events[0]));
            }
        }
    }
}

/// The driving loop's step: from the count of failed rounds in a row and
/// what the last round brought, the new count and the next action. A round
/// that ran resets the count; a failed one adds one to it and waits.
pub fn after_round(consecutive_errors: u32, event: &RoundEvent) -> (r: (u32, RoundAction))
    requires
        consecutive_errors < u32::MAX,
    ensures
        match *event {
            RoundEvent::Failed => r.0 == consecutive_errors + 1 && r.1 is Wait && r.1 == round_action(*event),
            RoundEvent::Ticked { statuses, session_valid } => {
                &&& r.0 == 0
                &&& r.1 == round_action(*event)
                &&& (r.1 is Stop <==> some_status(statuses@, "success"@))
                &&& (r.1 is Relogin <==> (!some_status(statuses@, "success"@) && (!session_valid
                    || some_status(statuses@, "session_expired"@))))
            },
        },
{
    match event {
        RoundEvent::Failed => (consecutive_errors + 1, RoundAction::Wait),
        RoundEvent::Ticked { statuses, session_valid } => {
            let action = match tick_verdict(statuses.as_slice(), *session_valid) {
                TickVerdict::Relogin => RoundAction::Relogin,
                TickVerdict::Success => RoundAction::Stop,
                TickVerdict::Continue => RoundAction::Wait,
            };
            (0, action)
        },
    }
}

/// The extra wait after `consecutive_errors` failed rounds in a row:
/// nothing after none, else `500 · 2^(consecutive_errors − 1)` ms, capped at
/// the larger of four intervals and 5000 ms.
pub open spec fn backoff_spec(consecutive_errors: u32, base_interval_ms: u64) -> int {
    if consecutive_errors == 0 {
        0
    } else {
        let b: int = 500 * (vstd::arithmetic::power2::pow2((consecutive_errors - 1) as nat) as int);
        let cap: int = if base_interval_ms * 4 > 5000 { base_interval_ms * 4 } else { 5000 };
        if b < cap { b } else { cap }
    }
}

/// The extra wait, in milliseconds, after `consecutive_errors` failed
/// rounds in a row. Beyond 56 failed rounds, or with an interval above a
/// quarter of `u64::MAX`, the arithmetic of the wait overflows.
pub fn backoff_ms(consecutive_errors: u32, base_interval_ms: u64) -> (r: u64)
    requires
        consecutive_errors <= 56,
        base_interval_ms <= u64::MAX / 4,
    ensures
        r == backoff_spec(consecutive_errors, base_interval_ms),
{
    if consecutive_errors == 0 {
        return 0;
    }
    let k: u32 = consecutive_errors - 1;
    let mut p: u64 = 1;
    let mut i: u32 = 0;
    proof {
        vstd::arithmetic::power2::lemma2_to64();
    }
    while i < k
        invariant
            i <= k <= 55,
            p == vstd::arithmetic::power2::pow2(i as nat),
        decreases k - i,
    {
        proof {
            vstd::arithmetic::power2::lemma_pow2_unfold((i + 1) as nat);
            vstd::arithmetic::power2::lemma_pow2_strictly_increases(i as nat, 55);
            vstd::arithmetic::power2::lemma2_to64_rest();
        }
        p = p * 2;
        i += 1;
    }
    proof {
        vstd::arithmetic::power2::lemma_pow2_pos(k as nat);
        if k < 55 {
            vstd::arithmetic::power2::lemma_pow2_strictly_increases(k as nat, 55);
        }
        vstd::arithmetic::power2::lemma2_to64_rest();
    }
    let b: u64 = 500 * p;
    let four: u64 = base_interval_ms * 4;
    let cap: u64 = if four > 5000 { four } else { 5000 };
    if b < cap { b } else { cap }
}


/// The extra wait never exceeds the larger of four intervals and 5000 ms.
pub proof fn law_backoff_capped(consecutive_errors: u32, base_interval_ms: u64)
    ensures
        0 <= backoff_spec(consecutive_errors, base_interval_ms),
        backoff_spec(consecutive_errors, base_interval_ms) <= (if base_interval_ms * 4 > 5000 {
            base_interval_ms * 4
        } else {
            5000
        }),
{
    if consecutive_errors > 0 {
        vstd::arithmetic::power2::lemma_pow2_pos((consecutive_errors - 1) as nat);
    }
}

/// The larger of four intervals and 5000 ms.
pub open spec fn backoff_cap(base_interval_ms: u64) -> int {
    if base_interval_ms * 4 > 5000 { base_interval_ms * 4 } else { 5000 }
}

/// The extra wait starts at none, is 500 ms after one failed round, and
/// doubles with each further failed round until it reaches the cap (the
/// larger of four intervals and 5000 ms), where it stays.
pub proof fn law_backoff_doubles(n: u32, base_interval_ms: u64)
    requires
        n < u32::MAX,
    ensures
        backoff_spec(0, base_interval_ms) == 0,
        backoff_spec(1, base_interval_ms) == (if 500 < backoff_cap(base_interval_ms) { 500 } else { backoff_cap(base_interval_ms) }),
        n >= 1 ==> backoff_spec((n + 1) as u32, base_interval_ms) == (if 2 * backoff_spec(n, base_interval_ms) < backoff_cap(
            base_interval_ms,
        ) {
            2 * backoff_spec(n, base_interval_ms)
        } else {
            backoff_cap(base_interval_ms)
        }),
{
    vstd::arithmetic::power2::lemma2_to64();
    if n >= 1 {
        vstd::arithmetic::power2::lemma_pow2_unfold(n as nat);
        vstd::arithmetic::power2::lemma_pow2_pos((n - 1) as nat);
    }
}

/// More failed rounds in a row never shorten the extra wait.
pub proof fn law_backoff_grows(n: u32, m: u32, base_interval_ms: u64)
    requires
        n <= m,
    ensures
        backoff_spec(n, base_interval_ms) <= backoff_spec(m, base_interval_ms),
{
    law_backoff_capped(n, base_interval_ms);
    if n > 0 {
        vstd::arithmetic::power2::lemma_pow2_pos((n - 1) as nat);
        if n < m {
            vstd::arithmetic::power2::lemma_pow2_strictly_increases((n - 1) as nat, (m - 1) as nat);
        }
    }
}

/// After new targets are set, the first attempt on a target counts one
/// attempt for it and keeps that attempt's outcome.
pub proof fn law_first_attempt(before: SniperBook, after: SniperBook, i: int, status: Seq<char>, detail: Seq<char>)
    requires
        fresh_stats(before.targets, before.stats),
        0 <= i < before.targets.len(),
        forall|k: int| 0 <= k < i ==> before.targets[k].kch_id@ != before.targets[i].kch_id@,
        attempt_recorded(before, after, before.targets[i].kch_id@, status, detail),
    ensures
        after.stats[i].attempts == 1,
        after.stats[i].last_status@ == status,
        after.stats[i].last_detail@ == detail,
        after.stats[i].kch_id == before.targets[i].kch_id,
        after.total_attempts == before.total_attempts.wrapping_add(1),
{
    let key = before.targets[i].kch_id@;
    assert(before.stats[i].kch_id == before.targets[i].kch_id);
    assert(is_first_match(before.stats, key, i)) by {
        assert forall|k: int| 0 <= k < i implies before.stats[k].kch_id@ != key by {
            assert(before.stats[k].kch_id == before.targets[k].kch_id);
        }
    }
    assert(!no_match(before.stats, key));
    let j = choose|j: int| is_first_match(before.stats, key, j) && bumped_at(before.stats, after.stats, j, status, detail);
    assert(j == i);
    assert(before.stats[i].attempts == 0);
}

/// Recording an attempt on the course `key` counts one more attempt in all,
/// keeps the targets and whether the engine runs, and changes only the
/// first statistics record of that course: it counts one more attempt and
/// keeps the outcome; every other record stays as it was.
pub proof fn law_attempt_touches_one(
    before: SniperBook,
    after: SniperBook,
    key: Seq<char>,
    status: Seq<char>,
    detail: Seq<char>,
    k: int,
)
    requires
        attempt_recorded(before, after, key, status, detail),
        0 <= k < before.stats.len(),
    ensures
        after.total_attempts == before.total_attempts.wrapping_add(1),
        after.targets == before.targets,
        after.running == before.running,
        after.stats.len() == before.stats.len(),
        !(before.stats[k].kch_id@ == key && forall|m: int| 0 <= m < k ==> before.stats[m].kch_id@ != key)
            ==> after.stats[k] == before.stats[k],
        (before.stats[k].kch_id@ == key && forall|m: int| 0 <= m < k ==> before.stats[m].kch_id@ != key) ==> {
            &&& after.stats[k].kch_id == before.stats[k].kch_id
            &&& after.stats[k].kcmc == before.stats[k].kcmc
            &&& after.stats[k].attempts == before.stats[k].attempts.wrapping_add(1)
            &&& after.stats[k].last_status@ == status
            &&& after.stats[k].last_detail@ == detail
        },
{
    if exists|j: int| is_first_match(before.stats, key, j) && bumped_at(before.stats, after.stats, j, status, detail) {
        let j = choose|j: int| is_first_match(before.stats, key, j) && bumped_at(before.stats, after.stats, j, status, detail);
        if before.stats[k].kch_id@ == key && forall|m: int| 0 <= m < k ==> before.stats[m].kch_id@ != key {
            if j < k {
                assert(before.stats[j].kch_id@ == key);
            } else if k < j {
                assert(before.stats[k].kch_id@ != key);
            }
        } else if k == j {
            assert(before.stats[k].kch_id@ == key);
        }
    } else {
        assert(no_match(before.stats, key));
    }
}
} // verus!

