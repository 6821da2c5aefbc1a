//! The two-step login (CAS, then the academic-affairs system), with its
//! captcha and trusted-device detours: the requests' URLs, headers and form
//! bodies, the reading of the pages and replies, and every decision of the
//! flow. The requests themselves are sent by the application.
use vstd::prelude::*;
use crate::client::{pairs_view, push_pair};
use crate::crypto::{b64_encode, encode_base64};
use crate::error::{error_text, ZustError};
use crate::json::{json_parse, parse_json, Json};
use crate::patterns::{first_group, regex_first_group};
use crate::text::{
    concat, contains, decimal, eq_ignore_ascii_case, eq_ignore_ascii_case_spec, from_chars, has_prefix, has_sub,
    to_chars, trim, trim_spec, u64_to_decimal,
};
use crate::urls::{
    form_encode, url_escape, url_join, url_join_result, url_parse, url_parse_result, CAS_BASE, JW_LOGIN,
};

verus! {

broadcast use vstd::string::group_string_axioms;

/// The salt of the CAS password encryption on the login page.
pub const RE_PWD_SALT: &'static str = "id=\"pwdEncryptSalt\"\\s+value=\"([^\"]+)\"";
/// The `execution` token of the CAS login form.
pub const RE_EXECUTION: &'static str = "name=\"execution\"\\s+value=\"([^\"]+)\"";
/// The action of the CAS login form.
pub const RE_FORM_ACTION: &'static str = "id=\"pwdFromId\"\\s+action=\"([^\"]+)\"";
/// The CSRF token of the academic-affairs pages.
pub const RE_CSRF: &'static str = "csrftoken[^>]*value=\"([^\"]+)\"";
/// The error message of a failed CAS login.
pub const RE_CAS_ERROR: &'static str = "<span id=\"msg\"[^>]*>([^<]+)</span>";
/// The tip shown by a failed academic-affairs login.
pub const RE_WISEDU_TIPS: &'static str = "<p id=\"tips\"[^>]*>([^<]+)</p>";

/// A login progress event for the front end.
#[derive(Debug, Clone)]
pub struct LoginStep {
    pub step: u8,
    pub message: String,
}

impl LoginStep {
    /// A progress event.
    pub fn new(step: u8, message: &str) -> (r: Self)
        ensures
            r.step == step,
            r.message@ == message@,
    {
        LoginStep { step, message: message.to_string() }
    }
}

/// A picture captcha to show; the picture is a data URL.
#[derive(Debug, Clone)]
pub struct CaptchaChallenge {
    pub kind: String,
    pub image_base64: String,
    pub message: String,
}

/// A trusted-device check to complete.
#[derive(Debug, Clone)]
pub struct ReauthChallenge {
    pub kind: String,
    pub reauth_type: String,
    pub is_multifactor: bool,
    pub message: String,
}

/// What a completed login yields. The credentials stay in the process.
#[derive(Debug)]
pub struct AuthSuccess {
    pub cookies: Vec<(String, String)>,
    pub username: String,
    pub cas_password: String,
    pub wisedu_password: String,
}

/// Where a login attempt ended.
pub enum AuthFlowResult {
    Complete(AuthSuccess),
    CaptchaRequired(CaptchaChallenge),
    ReauthRequired(ReauthChallenge),
}

/// Which detour an interrupted login waits in.
#[derive(Clone)]
pub enum PendingStage {
    Captcha,
    Reauth { reauth_type: String, is_multifactor: bool },
}

/// The headers of the site's AJAX requests.
pub fn ajax_headers(referer: &str) -> (r: Vec<(String, String)>)
    ensures
        pairs_view(r@) == seq![
            ("Accept"@, "application/json, text/javascript, */*; q=0.01"@),
            ("X-Requested-With"@, "XMLHttpRequest"@),
            ("Referer"@, referer@),
        ],
{
    let mut h: Vec<(String, String)> = Vec::new();
    push_pair(&mut h, "Accept", "application/json, text/javascript, */*; q=0.01");
    push_pair(&mut h, "X-Requested-With", "XMLHttpRequest");
    push_pair(&mut h, "Referer", referer);
    h
}

/// The text of the first group of `pattern` in `html`, or
/// `LoginFailed("未找到 <name>")`.
pub fn capture_required(pattern: &str, html: &str, name: &str) -> (r: Result<String, ZustError>)
    ensures
        match regex_first_group(pattern@, html@) {
            Some(g) => r matches Ok(s) && s@ == g,
            None => r matches Err(ZustError::LoginFailed(m)) && m@ == "未找到 "@ + name@,
        },
{
    match first_group(pattern, html) {
        Some(g) => Ok(g),
        None => Err(ZustError::LoginFailed(concat("未找到 ", name))),
    }
}

/// The action of the CAS login form (`/authserver/login` when the page has
/// none), resolved against the page's URL.
pub open spec fn form_action_target(html: Seq<char>, page_url: Seq<char>) -> Result<Seq<char>, Seq<char>> {
    let raw = match regex_first_group(RE_FORM_ACTION@, html) {
        Some(g) => g,
        None => "/authserver/login"@,
    };
    match url_parse_result(page_url) {
        Err(e) => Err("CAS 页面地址异常: "@ + e),
        Ok(_) => match url_join_result(page_url, raw) {
            Ok(j) => Ok(j),
            Err(e) => Err("CAS 表单地址异常: "@ + e),
        },
    }
}

/// `r` is the outcome `t`, its error being a login failure.
pub open spec fn login_outcome(r: Result<String, ZustError>, t: Result<Seq<char>, Seq<char>>) -> bool {
    match t {
        Ok(u) => r matches Ok(x) && x@ == u,
        Err(m) => r matches Err(ZustError::LoginFailed(x)) && x@ == m,
    }
}

/// The absolute URL that the CAS login form posts to.
pub fn parse_form_action(html: &str, page_url: &str) -> (r: Result<String, ZustError>)
    ensures
        login_outcome(r, form_action_target(html@, page_url@)),
{
    let raw = match first_group(RE_FORM_ACTION, html) {
        Some(g) => g,
        None => "/authserver/login".to_string(),
    };
    match url_parse(page_url) {
        Err(e) => Err(ZustError::LoginFailed(concat("CAS 页面地址异常: ", e.as_str()))),
        Ok(_) => match url_join(page_url, raw.as_str()) {
            Ok(j) => Ok(j),
            Err(e) => Err(ZustError::LoginFailed(concat("CAS 表单地址异常: ", e.as_str()))),
        },
    }
}

/// Whether the CAS server asks for a picture captcha: the boolean member
/// `isNeed` of the reply when the reply is JSON (`parsed`) and has one, else
/// whether the body spells out `"isNeed":true` or `isNeed=true`.
pub open spec fn needs_captcha(body: Seq<char>, parsed: Option<Json>) -> bool {
    match parsed {
        Some(v) => match v.spec_get("isNeed"@) {
            Some(Json::Bool(b)) => b,
            _ => has_sub(body, "\"isNeed\":true"@) || has_sub(body, "isNeed=true"@),
        },
        None => has_sub(body, "\"isNeed\":true"@) || has_sub(body, "isNeed=true"@),
    }
}

/// Whether the CAS server asks for a picture captcha; `parsed` is the JSON
/// value that `body` parses to, `None` when it is not JSON.
pub fn captcha_verdict(body: &str, parsed: Option<&Json>) -> (r: bool)
    ensures
        r == needs_captcha(body@, match parsed {
            Some(v) => Some(*v),
            None => None,
        }),
{
    if let Some(v) = parsed {
        if let Some(Json::Bool(b)) = v.get("isNeed") {
            return *b;
        }
    }
    contains(body, "\"isNeed\":true") || contains(body, "isNeed=true")
}

/// Whether the reply of the captcha check asks for a picture captcha.
pub fn captcha_required(body: &str) -> (r: bool)
    ensures
        r == needs_captcha(body@, match json_parse(body@) {
            Ok(v) => Some(v),
            Err(_) => None,
        }),
{
    match parse_json(body) {
        Ok(v) => captcha_verdict(body, Some(&v)),
        Err(_) => captcha_verdict(body, None),
    }
}

/// The first of `returnMessage`, `message`, `msg`, `errorMessage` that is a
/// string member of the reply, trimmed, when that is not empty.
pub open spec fn reply_message(v: Json) -> Option<Seq<char>> {
    let first = if v.str_field("returnMessage"@) is Some {
        v.str_field("returnMessage"@)
    } else if v.str_field("message"@) is Some {
        v.str_field("message"@)
    } else if v.str_field("msg"@) is Some {
        v.str_field("msg"@)
    } else {
        v.str_field("errorMessage"@)
    };
    match first {
        Some(t) => if trim_spec(t).len() > 0 {
            Some(trim_spec(t))
        } else {
            None
        },
        None => None,
    }
}

/// The message that a CAS JSON reply carries.
pub fn response_message(value: &Json) -> (r: Option<String>)
    ensures
        match r {
            Some(m) => reply_message(*value) == Some(m@),
            None => reply_message(*value) is None,
        },
{
    let first = match value.get_str("returnMessage") {
        Some(t) => Some(t),
        None => match value.get_str("message") {
            Some(t) => Some(t),
            None => match value.get_str("msg") {
                Some(t) => Some(t),
                None => value.get_str("errorMessage"),
            },
        },
    };
    match first {
        Some(t) => {
            let tt = trim(t);
            if tt.unicode_len() > 0 {
                Some(tt)
            } else {
                None
            }
        },
        None => None,
    }
}

/// The captcha answer, when one is given and not blank.
pub open spec fn given_answer(captcha: Option<Seq<char>>) -> bool {
    captcha matches Some(c) && trim_spec(c).len() > 0
}

/// Whether a new login stops at the captcha: the captcha check answered
/// (a failed check counts as no captcha) that one is needed, and no
/// non-blank answer is given.
pub fn captcha_needed(check: &Result<String, ZustError>, captcha: Option<&str>) -> (r: bool)
    ensures
        r == (match check {
            Ok(body) => needs_captcha(body@, match json_parse(body@) {
                Ok(v) => Some(v),
                Err(_) => None,
            }),
            Err(_) => false,
        } && !given_answer(match captcha {
            Some(c) => Some(c@),
            None => None,
        })),
{
    let has_captcha = match check {
        Ok(body) => captcha_required(body.as_str()),
        Err(_) => false,
    };
    has_captcha && !answer_given(captcha)
}

/// Whether a captcha answer is given and not blank.
pub fn answer_given(captcha: Option<&str>) -> (r: bool)
    ensures
        r == given_answer(match captcha {
            Some(c) => Some(c@),
            None => None,
        }),
{
    match captcha {
        Some(c) => trim(c).unicode_len() > 0,
        None => false,
    }
}

/// Whether a login waiting for a captcha can go on with a new attempt: the
/// same user, and the waiting login is at the captcha.
pub fn can_resume(pending_username: &str, stage: &PendingStage, username: &str) -> (r: bool)
    ensures
        r == (pending_username@ == username@ && *stage is Captcha),
{
    crate::json::str_eq(pending_username, username) && match stage {
        PendingStage::Captcha => true,
        _ => false,
    }
}

/// Where a CAS form submission leads.
pub enum CasOutcome {
    /// The device is not trusted: an SMS check is required.
    Reauth,
    /// The server wants a (new) picture captcha.
    NeedCaptcha,
    /// CAS accepted the login: go on with the academic-affairs login.
    Proceed,
}

/// The message of a failed CAS login: the page's error text, trimmed, when
/// there is a non-blank one, else a generic text with the status.
pub open spec fn cas_failure_text(body: Seq<char>, status: u16) -> Seq<char> {
    match regex_first_group(RE_CAS_ERROR@, body) {
        Some(g) if trim_spec(g).len() > 0 => trim_spec(g),
        _ => "CAS 登录失败，请检查账号或密码 (status="@ + decimal(status as nat) + ")"@,
    }
}

/// The page's error text, trimmed, or the generic text with the status.
fn failure_text(pattern: &str, body: &str, default_head: &str, status: u16) -> (r: String)
    ensures
        r@ == (match regex_first_group(pattern@, body@) {
            Some(g) if trim_spec(g).len() > 0 => trim_spec(g),
            _ => default_head@ + decimal(status as nat) + ")"@,
        }),
{
    if let Some(g) = first_group(pattern, body) {
        let t = trim(g.as_str());
        if t.unicode_len() > 0 {
            return t;
        }
    }
    let n = u64_to_decimal(status as u64);
    let head = concat(default_head, n.as_str());
    concat(head.as_str(), ")")
}

/// Where a CAS form submission leads, from the final URL of its redirect
/// chain, the final body, whether the session now has the `MOD_AUTH_CAS`
/// cookie, and the final status.
pub fn cas_submit_outcome(final_url: &str, body: &str, has_cas_cookie: bool, status: u16) -> (r: Result<CasOutcome, ZustError>)
    ensures
        has_sub(final_url@, "/reAuthCheck/reAuthLoginView.do"@) ==> r matches Ok(CasOutcome::Reauth),
        !has_sub(final_url@, "/reAuthCheck/reAuthLoginView.do"@) && has_cas_cookie ==> r matches Ok(CasOutcome::Proceed),
        !has_sub(final_url@, "/reAuthCheck/reAuthLoginView.do"@) && !has_cas_cookie ==> {
            if has_sub(final_url@, "/authserver/login"@) && (has_sub(body@, "captcha"@) || has_sub(body@, "验证码"@)) {
                r matches Ok(CasOutcome::NeedCaptcha)
            } else {
                r matches Err(ZustError::LoginFailed(m)) && m@ == cas_failure_text(body@, status)
            }
        },
{
    if contains(final_url, "/reAuthCheck/reAuthLoginView.do") {
        return Ok(CasOutcome::Reauth);
    }
    if !has_cas_cookie {
        if contains(final_url, "/authserver/login") && (contains(body, "captcha") || contains(body, "验证码")) {
            return Ok(CasOutcome::NeedCaptcha);
        }
        let m = failure_text(RE_CAS_ERROR, body, "CAS 登录失败，请检查账号或密码 (status=", status);
        return Err(ZustError::LoginFailed(m));
    }
    Ok(CasOutcome::Proceed)
}

/// The stage and challenge of the SMS trusted-device check: the phone
/// dynamic-code branch (`reAuthType` 3), multifactor.
pub fn sms_reauth() -> (r: (PendingStage, ReauthChallenge))
    ensures
        r.0 matches PendingStage::Reauth { reauth_type, is_multifactor } && reauth_type@ == "3"@ && is_multifactor,
        r.1.kind@ == "sms"@,
        r.1.reauth_type@ == "3"@,
        r.1.is_multifactor,
        r.1.message@ == "当前设备不在可信设备列表，请验证手机验证码"@,
{
    (
        PendingStage::Reauth { reauth_type: "3".to_string(), is_multifactor: true },
        ReauthChallenge {
            kind: "sms".to_string(),
            reauth_type: "3".to_string(),
            is_multifactor: true,
            message: "当前设备不在可信设备列表，请验证手机验证码".to_string(),
        },
    )
}

/// Whether an SMS code can be requested for the waiting login: it must
/// wait at the trusted-device check, with the phone dynamic-code branch.
pub fn check_sms_stage(stage: &PendingStage) -> (r: Result<(), ZustError>)
    ensures
        match *stage {
            PendingStage::Captcha => r matches Err(ZustError::LoginFailed(m)) && m@ == "当前尚未完成 CAS 登录"@,
            PendingStage::Reauth { reauth_type, .. } => if reauth_type@ == "3"@ {
                r is Ok
            } else {
                r matches Err(ZustError::LoginFailed(m)) && m@ == "当前认证方式不是手机动态码"@
            },
        },
{
    match stage {
        PendingStage::Captcha => Err(ZustError::LoginFailed("当前尚未完成 CAS 登录".to_string())),
        PendingStage::Reauth { reauth_type, .. } => {
            if crate::json::str_eq(reauth_type.as_str(), "3") {
                Ok(())
            } else {
                Err(ZustError::LoginFailed("当前认证方式不是手机动态码".to_string()))
            }
        },
    }
}

/// The reply code means the SMS code was sent.
pub open spec fn sms_sent_code(code: Seq<char>) -> bool {
    eq_ignore_ascii_case_spec(code, "success"@) || eq_ignore_ascii_case_spec(code, "wechat_success"@)
        || eq_ignore_ascii_case_spec(code, "cpdaily_success"@)
}

/// `r` is the answer that the SMS-code reply `reply` gives.
pub open spec fn sms_reply_is(reply: Json, r: Result<String, ZustError>) -> bool {
    let sent = match reply.str_field("res"@) {
        Some(c) => sms_sent_code(c),
        None => false,
    };
    let msg = reply_message(reply);
    if sent {
        r matches Ok(m) && m@ == (match msg {
            Some(t) => t,
            None => "验证码已发送，请查收手机短信"@,
        })
    } else {
        r matches Err(ZustError::LoginFailed(m)) && m@ == (match msg {
            Some(t) => t,
            None => "手机验证码发送失败"@,
        })
    }
}

/// The answer to an SMS-code request, read from its JSON reply: sent when
/// the `res` member is `success`, `wechat_success` or `cpdaily_success`
/// (any ASCII case), with the reply's message or a default text.
pub fn sms_send_outcome(reply: &Json) -> (r: Result<String, ZustError>)
    ensures
        sms_reply_is(*reply, r),
{
    let success = match reply.get_str("res") {
        Some(code) => eq_ignore_ascii_case(code, "success") || eq_ignore_ascii_case(code, "wechat_success")
            || eq_ignore_ascii_case(code, "cpdaily_success"),
        None => false,
    };
    let message = response_message(reply);
    if success {
        Ok(
            match message {
                Some(m) => m,
                None => "验证码已发送，请查收手机短信".to_string(),
            },
        )
    } else {
        Err(
            ZustError::LoginFailed(
                match message {
                    Some(m) => m,
                    None => "手机验证码发送失败".to_string(),
                },
            ),
        )
    }
}

/// The parameters of the trusted-device check that the login waits at.
pub fn reauth_params(stage: &PendingStage) -> (r: Result<(String, bool), ZustError>)
    ensures
        match *stage {
            PendingStage::Captcha => r matches Err(ZustError::LoginFailed(m)) && m@ == "当前尚未进入可信设备认证"@,
            PendingStage::Reauth { reauth_type, is_multifactor } => r matches Ok(p) && p.0@ == reauth_type@
                && p.1 == is_multifactor,
        },
{
    match stage {
        PendingStage::Captcha => Err(ZustError::LoginFailed("当前尚未进入可信设备认证".to_string())),
        PendingStage::Reauth { reauth_type, is_multifactor } => Ok((reauth_type.clone(), *is_multifactor)),
    }
}

/// A six-digit code, as the trusted-device check wants it.
pub open spec fn is_six_digits(t: Seq<char>) -> bool {
    t.len() == 6 && forall|i: int| 0 <= i < 6 ==> '0' <= #[trigger] t[i] <= '9'
}

/// The SMS code the user typed, trimmed, when it is six ASCII digits.
pub fn check_dynamic_code(code: &str) -> (r: Result<String, ZustError>)
    ensures
        is_six_digits(trim_spec(code@)) ==> (r matches Ok(t) && t@ == trim_spec(code@)),
        !is_six_digits(trim_spec(code@)) ==> (r matches Err(ZustError::LoginFailed(m)) && m@
            == "请输入 6 位数字手机验证码"@),
{
    let t = trim(code);
    let v = to_chars(t.as_str());
    if v.len() != 6 {
        return Err(ZustError::LoginFailed("请输入 6 位数字手机验证码".to_string()));
    }
    let mut i: usize = 0;
    while i < 6
        invariant
            v@ == t@,
            t@ == trim_spec(code@),
            v@.len() == 6,
            i <= 6,
            forall|k: int| 0 <= k < i ==> '0' <= #[trigger] v@[k] <= '9',
        decreases 6 - i,
    {
        if !('0' <= v[i] && v[i] <= '9') {
            return Err(ZustError::LoginFailed("请输入 6 位数字手机验证码".to_string()));
        }
        i += 1;
    }
    Ok(t)
}

/// `r` is the answer that the trusted-device reply `reply` gives.
pub open spec fn reauth_reply_is(reply: Json, r: Result<(), ZustError>) -> bool {
    let code = reply.str_field("code"@);
    if code == Some("reAuth_failed"@) || code == Some("reAuth_unauthorized"@) {
        r matches Err(ZustError::LoginFailed(m)) && m@ == (match reply_message(reply) {
            Some(t) => t,
            None => "手机验证码错误或已过期"@,
        })
    } else {
        r is Ok
    }
}

/// The reply to the trusted-device submission: refused when its `code`
/// member is `reAuth_failed` or `reAuth_unauthorized`, with the reply's
/// message or a default text.
pub fn reauth_reply_check(reply: &Json) -> (r: Result<(), ZustError>)
    ensures
        reauth_reply_is(*reply, r),
{
    let refused = match reply.get_str("code") {
        Some(code) => crate::json::str_eq(code, "reAuth_failed") || crate::json::str_eq(code, "reAuth_unauthorized"),
        None => false,
    };
    if refused {
        let message = match response_message(reply) {
            Some(m) => m,
            None => "手机验证码错误或已过期".to_string(),
        };
        return Err(ZustError::LoginFailed(message));
    }
    Ok(())
}

/// The text before the first `,` (all of it when there is none).
pub open spec fn first_segment_spec(s: Seq<char>) -> Seq<char> {
    s.take(crate::cookies::char_pos(s, ','))
}

/// `s.split(',').next().unwrap_or("")`.
pub fn first_segment(s: &str) -> (r: String)
    ensures
        r@ == first_segment_spec(s@),
{
    let v = to_chars(s);
    let k = crate::cookies::find_char(v.as_slice(), ',');
    proof {
        crate::cookies::lemma_char_pos(v@, ',');
    }
    let r = from_chars(vstd::slice::slice_subrange(v.as_slice(), 0, k));
    assert(r@ =~= s@.take(k as int));
    r
}

/// `r` is what the public-key reply `pubkey` gives: its `modulus` and
/// `exponent` texts, or the error for the first one missing.
pub open spec fn rsa_params_are(pubkey: Json, r: Result<(String, String), ZustError>) -> bool {
    match (pubkey.str_field("modulus"@), pubkey.str_field("exponent"@)) {
        (None, _) => r matches Err(ZustError::LoginFailed(m)) && m@ == "未找到 RSA modulus"@,
        (Some(_), None) => r matches Err(ZustError::LoginFailed(m)) && m@ == "未找到 RSA exponent"@,
        (Some(n), Some(e)) => r matches Ok(p) && p.0@ == n && p.1@ == e,
    }
}

/// The RSA modulus and exponent of the academic-affairs public-key reply.
pub fn rsa_params(pubkey: &Json) -> (r: Result<(String, String), ZustError>)
    ensures
        rsa_params_are(*pubkey, r),
{
    let modulus = match pubkey.get_str("modulus") {
        Some(m) => m,
        None => {
            return Err(ZustError::LoginFailed("未找到 RSA modulus".to_string()));
        },
    };
    let exponent = match pubkey.get_str("exponent") {
        Some(e) => e,
        None => {
            return Err(ZustError::LoginFailed("未找到 RSA exponent".to_string()));
        },
    };
    Ok((modulus.to_string(), exponent.to_string()))
}

/// The academic-affairs login failed when the redirect chain ends on the
/// login page rather than the index.
pub fn wisedu_login_failed(final_url: &str) -> (r: bool)
    ensures
        r == (has_sub(final_url@, "login_slogin"@) && !has_sub(final_url@, "index"@)),
{
    contains(final_url, "login_slogin") && !contains(final_url, "index")
}

/// The message of a failed academic-affairs login: the page's tip, trimmed,
/// when there is a non-blank one, else a generic text with the status.
pub fn wisedu_failure_text(body: &str, status: u16) -> (r: String)
    ensures
        r@ == wisedu_failure_message(body@, status),
{
    failure_text(RE_WISEDU_TIPS, body, "教务系统登录失败 (status=", status)
}

/// The message of a failed academic-affairs login (see
/// `wisedu_failure_text`).
pub open spec fn wisedu_failure_message(body: Seq<char>, status: u16) -> Seq<char> {
    match regex_first_group(RE_WISEDU_TIPS@, body) {
        Some(g) if trim_spec(g).len() > 0 => trim_spec(g),
        _ => "教务系统登录失败 (status="@ + decimal(status as nat) + ")"@,
    }
}

/// The check after the academic-affairs login form: a chain that ended on
/// the login page (and not on the index) failed with the page's message;
/// otherwise the login went through.
pub fn wisedu_login_checked(final_url: &str, body: &str, status: u16) -> (r: Result<(), ZustError>)
    ensures
        (has_sub(final_url@, "login_slogin"@) && !has_sub(final_url@, "index"@)) ==> (r matches Err(
            ZustError::LoginFailed(m),
        ) && m@ == wisedu_failure_message(body@, status)),
        !(has_sub(final_url@, "login_slogin"@) && !has_sub(final_url@, "index"@)) ==> r is Ok,
{
    if wisedu_login_failed(final_url) {
        Err(ZustError::LoginFailed(wisedu_failure_text(body, status)))
    } else {
        Ok(())
    }
}

/// The check of the API after login: a reply that says `没有访问权限` fails
/// the login with that text.
pub fn api_access_checked(api_body: &str) -> (r: Result<(), ZustError>)
    ensures
        has_sub(api_body@, "没有访问权限"@) ==> (r matches Err(ZustError::LoginFailed(m)) && m@ == "没有访问权限"@),
        !has_sub(api_body@, "没有访问权限"@) ==> r is Ok,
{
    if no_api_access(api_body) {
        Err(ZustError::LoginFailed("没有访问权限".to_string()))
    } else {
        Ok(())
    }
}

/// Whether the API check page refuses access.
pub fn no_api_access(api_body: &str) -> (r: bool)
    ensures
        r == has_sub(api_body@, "没有访问权限"@),
{
    contains(api_body, "没有访问权限")
}

/// The CSRF token to keep with the session: the first comma-separated part
/// of the token on the page after login, else the token of the login page.
pub fn session_csrf(body: &str, login_token: &str) -> (r: String)
    ensures
        r@ == (match regex_first_group(RE_CSRF@, body@) {
            Some(g) => first_segment_spec(g),
            None => login_token@,
        }),
{
    match first_group(RE_CSRF, body) {
        Some(g) => first_segment(g.as_str()),
        None => login_token.to_string(),
    }
}

/// The login that a background caller can use: only a login that completes
/// without a detour gives cookies.
pub fn full_login_outcome(r: AuthFlowResult) -> (out: Result<Vec<(String, String)>, ZustError>)
    ensures
        match r {
            AuthFlowResult::Complete(s) => out matches Ok(c) && c@ == s.cookies@,
            AuthFlowResult::CaptchaRequired(_) => out matches Err(ZustError::LoginFailed(m)) && m@
                == "登录需要图片验证码，请在登录窗口完成验证"@,
            AuthFlowResult::ReauthRequired(_) => out matches Err(ZustError::LoginFailed(m)) && m@
                == "登录需要手机验证码，请在登录窗口完成可信设备验证"@,
        },
{
    match r {
        AuthFlowResult::Complete(s) => Ok(s.cookies),
        AuthFlowResult::CaptchaRequired(_) => Err(ZustError::LoginFailed("登录需要图片验证码，请在登录窗口完成验证".to_string())),
        AuthFlowResult::ReauthRequired(_) => Err(ZustError::LoginFailed("登录需要手机验证码，请在登录窗口完成可信设备验证".to_string())),
    }
}

/// The picture type of a captcha, from its first bytes.
pub open spec fn captcha_mime(b: Seq<u8>) -> Seq<char> {
    if b.len() >= 3 && b[0] == 0xFF && b[1] == 0xD8 && b[2] == 0xFF {
        "image/jpeg"@
    } else if b.len() >= 4 && b[0] == 0x47 && b[1] == 0x49 && b[2] == 0x46 && b[3] == 0x38 {
        "image/gif"@
    } else if b.len() >= 12 && b[0] == 0x52 && b[1] == 0x49 && b[2] == 0x46 && b[3] == 0x46
        && b[8] == 0x57 && b[9] == 0x45 && b[10] == 0x42 && b[11] == 0x50 {
        "image/webp"@
    } else {
        "image/png"@
    }
}

/// The captcha picture as a data URL for `<img src>`; an empty picture is
/// refused.
pub fn captcha_data_url(bytes: &[u8]) -> (r: Result<String, ZustError>)
    ensures
        bytes@.len() == 0 ==> (r matches Err(ZustError::LoginFailed(m)) && m@ == "验证码图片为空"@),
        bytes@.len() > 0 ==> (r matches Ok(s) && s@ == "data:"@ + captcha_mime(bytes@) + ";base64,"@
            + b64_encode(bytes@)),
{
    if bytes.len() == 0 {
        return Err(ZustError::LoginFailed("验证码图片为空".to_string()));
    }
    let mime = if bytes.len() >= 3 && bytes[0] == 0xFF && bytes[1] == 0xD8 && bytes[2] == 0xFF {
        "image/jpeg"
    } else if bytes.len() >= 4 && bytes[0] == 0x47 && bytes[1] == 0x49 && bytes[2] == 0x46 && bytes[3] == 0x38 {
        "image/gif"
    } else if bytes.len() >= 12 && bytes[0] == 0x52 && bytes[1] == 0x49 && bytes[2] == 0x46 && bytes[3] == 0x46
        && bytes[8] == 0x57 && bytes[9] == 0x45 && bytes[10] == 0x42 && bytes[11] == 0x50 {
        "image/webp"
    } else {
        "image/png"
    };
    let b64 = encode_base64(bytes);
    let a = concat("data:", mime);
    let b = concat(a.as_str(), ";base64,");
    Ok(concat(b.as_str(), b64.as_str()))
}

/// The picture-captcha challenge for a captcha picture given as a data URL.
pub fn captcha_challenge(image_base64: String) -> (r: CaptchaChallenge)
    ensures
        r.kind@ == "captcha"@,
        r.image_base64 == image_base64,
        r.message@ == "请输入图片验证码"@,
{
    CaptchaChallenge { kind: "captcha".to_string(), image_base64, message: "请输入图片验证码".to_string() }
}


/// The name of the SMS branch of the trusted-device check.
pub const REAUTH_SMS_TYPE: &'static str = "reAuthDynamicCodeType";
/// The origin of the CAS pages.
pub const CAS_ORIGIN: &'static str = "https://authserver.zust.edu.cn";
/// The origin of the academic-affairs pages.
pub const JW_ORIGIN: &'static str = "https://newjwxt.zust.edu.cn";

/// The URL that tells whether `username` needs a picture captcha.
pub fn captcha_check_url(username: &str) -> (r: String)
    ensures
        r@ == CAS_BASE@ + "/checkNeedCaptcha.htl?username="@ + form_encode(vstd::utf8::encode_utf8(username@)),
{
    let head = concat(CAS_BASE, "/checkNeedCaptcha.htl?username=");
    let e = url_escape(username);
    concat(head.as_str(), e.as_str())
}

/// The headers of the captcha check.
pub fn captcha_check_headers(login_url: &str) -> (r: Vec<(String, String)>)
    ensures
        pairs_view(r@) == seq![("X-Requested-With"@, "XMLHttpRequest"@), ("Referer"@, login_url@)],
{
    let mut h: Vec<(String, String)> = Vec::new();
    push_pair(&mut h, "X-Requested-With", "XMLHttpRequest");
    push_pair(&mut h, "Referer", login_url);
    h
}

/// The URL of a fresh captcha picture, at time `timestamp_ms`.
pub fn captcha_image_url(timestamp_ms: u64) -> (r: String)
    ensures
        r@ == CAS_BASE@ + "/getCaptcha.htl?timestamp="@ + decimal(timestamp_ms as nat),
{
    let head = concat(CAS_BASE, "/getCaptcha.htl?timestamp=");
    let t = u64_to_decimal(timestamp_ms);
    concat(head.as_str(), t.as_str())
}

/// The URL that registers the browser fingerprint `fingerprint` at time
/// `timestamp_ms`.
pub fn fingerprint_url(fingerprint: &str, timestamp_ms: u64) -> (r: String)
    ensures
        r@ == CAS_BASE@ + "/bfp/info?bfp="@ + form_encode(vstd::utf8::encode_utf8(fingerprint@)) + "&_="@
            + decimal(timestamp_ms as nat),
{
    let mut u = concat(CAS_BASE, "/bfp/info?bfp=");
    let e = url_escape(fingerprint);
    u = concat(u.as_str(), e.as_str());
    u = concat(u.as_str(), "&_=");
    let t = u64_to_decimal(timestamp_ms);
    concat(u.as_str(), t.as_str())
}

/// The saved fingerprint: the file's text, trimmed, when it is not blank.
pub fn stored_fingerprint(text: &str) -> (r: Option<String>)
    ensures
        trim_spec(text@).len() > 0 ==> (r matches Some(f) && f@ == trim_spec(text@)),
        trim_spec(text@).len() == 0 ==> r is None,
{
    let t = trim(text);
    if t.unicode_len() > 0 {
        Some(t)
    } else {
        None
    }
}

/// The sixteen upper-case hex digits of `v`, most significant first
/// (`format!("{:016X}", v)`).
pub open spec fn hex16(v: u64) -> Seq<char> {
    Seq::new(16, |i: int| crate::urls::hex_upper(((v as int / vstd::arithmetic::power2::pow2((4 * (15 - i)) as nat) as int) % 16) as u8))
}

/// `format!("{:016X}", v)`.
fn hex16_text(v: u64) -> (r: String)
    ensures
        r@ == hex16(v),
{
    let mut digits: Vec<char> = Vec::new();
    let mut i: usize = 0;
    proof {
        vstd::arithmetic::power2::lemma2_to64();
        vstd::arithmetic::power2::lemma2_to64_rest();
    }
    while i < 16
        invariant
            i <= 16,
            digits@.len() == i,
            forall|k: int| 0 <= k < i ==> #[trigger] digits@[k] == hex16(v)[k],
        decreases 16 - i,
    {
        let shift: u64 = (4 * (15 - i)) as u64;
        let d: u64 = (v >> shift) % 16;
        proof {
            vstd::bits::lemma_u64_shr_is_div(v, shift);
            vstd::arithmetic::power2::lemma2_to64();
            vstd::arithmetic::power2::lemma2_to64_rest();
        }
        let c = if d < 10 { ((d as u8) + 48) as char } else { ((d as u8) + 55) as char };
        digits.push(c);
        i += 1;
    }
    assert(digits@ =~= hex16(v));
    from_chars(digits.as_slice())
}

/// `rand::random::<u64>()`: any value at all.
#[verifier::external_body]
fn random_u64() -> (r: u64) {
    rand::random::<u64>()
}

/// Upper-case hexadecimal digits.
pub open spec fn is_hex_upper(c: char) -> bool {
    ('0' <= c && c <= '9') || ('A' <= c && c <= 'F')
}

/// The browser fingerprint made of the two 64-bit values `a` and `b`:
/// sixteen upper-case hex digits of each, `a` first.
pub fn fingerprint_of(a: u64, b: u64) -> (r: String)
    ensures
        r@ == hex16(a) + hex16(b),
        r@.len() == 32,
        forall|i: int| 0 <= i < 32 ==> is_hex_upper(#[trigger] r@[i]),
{
    let ha = hex16_text(a);
    let hb = hex16_text(b);
    let r = concat(ha.as_str(), hb.as_str());
    assert(r@ == hex16(a) + hex16(b));
    proof {
        lemma_hex16_digits(a);
        lemma_hex16_digits(b);
        assert forall|i: int| 0 <= i < 32 implies is_hex_upper(#[trigger] r@[i]) by {
            if i < 16 {
                assert(r@[i] == hex16(a)[i]);
            } else {
                assert(r@[i] == hex16(b)[i - 16]);
            }
        }
    }
    r
}

/// A new browser fingerprint: two random 64-bit values as sixteen
/// upper-case hex digits each.
pub fn fresh_fingerprint() -> (r: String)
    ensures
        exists|a: u64, b: u64| r@ == #[trigger] hex16(a) + #[trigger] hex16(b),
        r@.len() == 32,
        forall|i: int| 0 <= i < 32 ==> is_hex_upper(#[trigger] r@[i]),
{
    let a = random_u64();
    let b = random_u64();
    fingerprint_of(a, b)
}

/// Every character of `hex16(v)` is an upper-case hex digit.
proof fn lemma_hex16_digits(v: u64)
    ensures
        forall|i: int| 0 <= i < 16 ==> is_hex_upper(#[trigger] hex16(v)[i]),
{
    assert forall|i: int| 0 <= i < 16 implies is_hex_upper(#[trigger] hex16(v)[i]) by {
        let d = ((v as int / vstd::arithmetic::power2::pow2((4 * (15 - i)) as nat) as int) % 16) as u8;
        assert(d < 16);
    }
}

/// The form that submits the CAS login: the captcha answer trimmed.
pub fn cas_login_form(username: &str, encrypted_password: &str, captcha: &str, execution: &str) -> (r: Vec<(String, String)>)
    ensures
        pairs_view(r@) == seq![
            ("username"@, username@),
            ("password"@, encrypted_password@),
            ("captcha"@, trim_spec(captcha@)),
            ("lt"@, ""@),
            ("execution"@, execution@),
            ("_eventId"@, "submit"@),
            ("cllt"@, "userNameLogin"@),
            ("dllt"@, "generalLogin"@),
        ],
{
    let answer = trim(captcha);
    let mut f: Vec<(String, String)> = Vec::new();
    push_pair(&mut f, "username", username);
    push_pair(&mut f, "password", encrypted_password);
    push_pair(&mut f, "captcha", answer.as_str());
    push_pair(&mut f, "lt", "");
    push_pair(&mut f, "execution", execution);
    push_pair(&mut f, "_eventId", "submit");
    push_pair(&mut f, "cllt", "userNameLogin");
    push_pair(&mut f, "dllt", "generalLogin");
    f
}

/// The headers of the CAS login submission to `form_action`.
pub fn cas_submit_headers(form_action: &str) -> (r: Vec<(String, String)>)
    ensures
        pairs_view(r@) == seq![
            ("Accept"@, "application/json, text/javascript, */*; q=0.01"@),
            ("X-Requested-With"@, "XMLHttpRequest"@),
            ("Referer"@, form_action@),
            ("Origin"@, CAS_ORIGIN@),
        ],
{
    let mut h = ajax_headers(form_action);
    push_pair(&mut h, "Origin", CAS_ORIGIN);
    h
}

/// The URL that sends the SMS code of the trusted-device check.
pub fn sms_code_url() -> (r: String)
    ensures
        r@ == CAS_BASE@ + "/dynamicCode/getDynamicCodeByReauth.do"@,
{
    concat(CAS_BASE, "/dynamicCode/getDynamicCodeByReauth.do")
}

/// The form that asks for the SMS code of `username`.
pub fn sms_code_form(username: &str) -> (r: Vec<(String, String)>)
    ensures
        pairs_view(r@) == seq![("userName"@, username@), ("authCodeTypeName"@, REAUTH_SMS_TYPE@)],
{
    let mut f: Vec<(String, String)> = Vec::new();
    push_pair(&mut f, "userName", username);
    push_pair(&mut f, "authCodeTypeName", REAUTH_SMS_TYPE);
    f
}

/// The page of the trusted-device check, the referrer of its requests.
pub fn reauth_page_url(multifactor_query: bool) -> (r: String)
    ensures
        r@ == CAS_BASE@ + "/reAuthCheck/reAuthLoginView.do"@ + (if multifactor_query {
            "?isMultifactor=true"@
        } else {
            ""@
        }),
{
    let u = concat(CAS_BASE, "/reAuthCheck/reAuthLoginView.do");
    if multifactor_query {
        concat(u.as_str(), "?isMultifactor=true")
    } else {
        proof {
            reveal_strlit("");
            assert(u@ + ""@ =~= u@);
        }
        u
    }
}

/// The URL that takes the trusted-device code.
pub fn reauth_submit_url() -> (r: String)
    ensures
        r@ == CAS_BASE@ + "/reAuthCheck/reAuthSubmit.do"@,
{
    concat(CAS_BASE, "/reAuthCheck/reAuthSubmit.do")
}

/// `"true"` or `"false"`.
pub open spec fn flag_text(b: bool) -> Seq<char> {
    if b {
        "true"@
    } else {
        "false"@
    }
}

/// The form that submits the trusted-device code.
pub fn reauth_submit_form(service: &str, reauth_type: &str, is_multifactor: bool, dynamic_code: &str, trust_device: bool) -> (r: Vec<(String, String)>)
    ensures
        pairs_view(r@) == seq![
            ("service"@, service@),
            ("reAuthType"@, reauth_type@),
            ("isMultifactor"@, flag_text(is_multifactor)),
            ("password"@, ""@),
            ("dynamicCode"@, dynamic_code@),
            ("uuid"@, ""@),
            ("answer1"@, ""@),
            ("answer2"@, ""@),
            ("otpCode"@, ""@),
            ("skipTmpReAuth"@, flag_text(trust_device)),
        ],
{
    let mut f: Vec<(String, String)> = Vec::new();
    push_pair(&mut f, "service", service);
    push_pair(&mut f, "reAuthType", reauth_type);
    push_pair(&mut f, "isMultifactor", if is_multifactor { "true" } else { "false" });
    push_pair(&mut f, "password", "");
    push_pair(&mut f, "dynamicCode", dynamic_code);
    push_pair(&mut f, "uuid", "");
    push_pair(&mut f, "answer1", "");
    push_pair(&mut f, "answer2", "");
    push_pair(&mut f, "otpCode", "");
    push_pair(&mut f, "skipTmpReAuth", if trust_device { "true" } else { "false" });
    f
}

/// The URL of the academic-affairs RSA public key.
pub fn public_key_url() -> (r: String)
    ensures
        r@ == crate::urls::JW_BASE@ + "/xtgl/login_getPublicKey.html"@,
{
    concat(crate::urls::JW_BASE, "/xtgl/login_getPublicKey.html")
}

/// The headers of the academic-affairs login page request.
pub fn jw_page_headers() -> (r: Vec<(String, String)>)
    ensures
        pairs_view(r@) == seq![("Referer"@, "https://newjwxt.zust.edu.cn/"@)],
{
    let mut h: Vec<(String, String)> = Vec::new();
    push_pair(&mut h, "Referer", "https://newjwxt.zust.edu.cn/");
    h
}

/// The form of the academic-affairs login.
pub fn wisedu_login_form(csrftoken: &str, username: &str, rsa_password: &str) -> (r: Vec<(String, String)>)
    ensures
        pairs_view(r@) == seq![("csrftoken"@, csrftoken@), ("yhm"@, username@), ("mm"@, rsa_password@)],
{
    let mut f: Vec<(String, String)> = Vec::new();
    push_pair(&mut f, "csrftoken", csrftoken);
    push_pair(&mut f, "yhm", username);
    push_pair(&mut f, "mm", rsa_password);
    f
}

/// The headers of the academic-affairs login submission.
pub fn wisedu_login_headers() -> (r: Vec<(String, String)>)
    ensures
        pairs_view(r@) == seq![
            ("Accept"@, "application/json, text/javascript, */*; q=0.01"@),
            ("X-Requested-With"@, "XMLHttpRequest"@),
            ("Referer"@, JW_LOGIN@),
            ("Origin"@, JW_ORIGIN@),
        ],
{
    let mut h = ajax_headers(JW_LOGIN);
    push_pair(&mut h, "Origin", JW_ORIGIN);
    h
}

/// The error of a failed login step: `LoginFailed`, the step's text, and
/// the cause's text.
pub fn login_failed_with(head: &str, cause: &ZustError) -> (r: ZustError)
    ensures
        r matches ZustError::LoginFailed(m) && m@ == head@ + error_text(*cause),
{
    let m = cause.message();
    ZustError::LoginFailed(concat(head, m.as_str()))
}

/// The answer to an SMS-code request, from the body of its reply: a body
/// that is not JSON is refused with the parse error's text.
pub fn sms_code_reply(body: &str) -> (r: Result<String, ZustError>)
    ensures
        match json_parse(body@) {
            Err(e) => r matches Err(ZustError::LoginFailed(m)) && m@ == "验证码接口返回异常: "@ + e,
            Ok(v) => sms_reply_is(v, r),
        },
{
    match parse_json(body) {
        Err(e) => Err(ZustError::LoginFailed(concat("验证码接口返回异常: ", e.as_str()))),
        Ok(v) => sms_send_outcome(&v),
    }
}

/// The answer to the trusted-device submission, from the body of its reply:
/// a body that is not JSON is refused with the parse error's text.
pub fn reauth_submit_reply(body: &str) -> (r: Result<(), ZustError>)
    ensures
        match json_parse(body@) {
            Err(e) => r matches Err(ZustError::LoginFailed(m)) && m@ == "可信设备接口返回异常: "@ + e,
            Ok(v) => reauth_reply_is(v, r),
        },
{
    match parse_json(body) {
        Err(e) => Err(ZustError::LoginFailed(concat("可信设备接口返回异常: ", e.as_str()))),
        Ok(v) => reauth_reply_check(&v),
    }
}

/// The RSA parameters from the body of the public-key reply: a body that is
/// not JSON gives a JSON error with the parse error's text.
pub fn public_key_params(body: &str) -> (r: Result<(String, String), ZustError>)
    ensures
        match json_parse(body@) {
            Err(e) => r matches Err(ZustError::Json(m)) && m@ == e,
            Ok(v) => rsa_params_are(v, r),
        },
{
    match parse_json(body) {
        Err(e) => Err(ZustError::Json(e)),
        Ok(v) => rsa_params(&v),
    }
}

/// The cookies to save after a login: the session's cookies, with the CSRF
/// token as `_csrf` and the main page as `_main_url`.
pub fn login_cookies(session_cookies: &[(String, String)], csrf: String, main_url: String) -> (r: Vec<(String, String)>)
    ensures
        crate::cookies::entries_map(r@) == crate::cookies::pairs_map(Map::empty(), session_cookies@).insert(
            "_csrf"@,
            csrf@,
        ).insert("_main_url"@, main_url@),
        crate::cookies::unique_names(r@),
{
    let mut jar = crate::cookies::CookieJar::from_pairs(session_cookies);
    jar.set_cookie("_csrf".to_string(), csrf);
    jar.set_cookie("_main_url".to_string(), main_url);
    proof {
        jar.lemma_view_is_entries();
    }
    jar.cookies_as_dict()
}


/// The CSRF token's first segment holds no `,`, begins the token, and is
/// all of it unless a `,` follows it there.
pub proof fn law_first_segment(s: Seq<char>)
    ensures
        !first_segment_spec(s).contains(','),
        s.take(first_segment_spec(s).len() as int) == first_segment_spec(s),
        first_segment_spec(s).len() < s.len() ==> s[first_segment_spec(s).len() as int] == ',',
        !s.contains(',') ==> first_segment_spec(s) == s,
{
    crate::cookies::lemma_char_pos(s, ',');
    let f = first_segment_spec(s);
    if f.contains(',') {
        let i = choose|i: int| 0 <= i < f.len() && f[i] == ',';
        assert(s[i] == ',');
    }
    if !s.contains(',') && crate::cookies::char_pos(s, ',') < s.len() {
        assert(s.contains(s[crate::cookies::char_pos(s, ',')]));
    }
    assert(s.take(s.len() as int) =~= s);
}

/// The message of a reply is the trimmed text of the first of
/// `returnMessage`, `message`, `msg`, `errorMessage` that is a string
/// member; there is none when that text is blank or no such member exists.
pub proof fn law_reply_message(v: Json)
    ensures
        reply_message(v) matches Some(t) ==> t.len() > 0,
        v.str_field("returnMessage"@) matches Some(t) ==> reply_message(v) == (if trim_spec(t).len() > 0 { Some(trim_spec(t)) } else { None::<Seq<char>> }),
        v.str_field("returnMessage"@) is None && v.str_field("message"@) is None && v.str_field("msg"@) is None
            && v.str_field("errorMessage"@) is None ==> reply_message(v) is None,
{
}

/// The trusted-device reply refuses the code exactly when its `code` is
/// `reAuth_failed` or `reAuth_unauthorized`; a refusal carries the reply's
/// message, or `手机验证码错误或已过期` without one.
pub proof fn law_reauth_refusal(reply: Json, r: Result<(), ZustError>)
    requires
        reauth_reply_is(reply, r),
    ensures
        r is Err <==> (reply.str_field("code"@) == Some("reAuth_failed"@) || reply.str_field("code"@) == Some("reAuth_unauthorized"@)),
        r is Err ==> (r matches Err(ZustError::LoginFailed(m)) && m@ == or_default(reply_message(reply), "手机验证码错误或已过期"@)),
{
}

/// `t` when there is one, else `d`.
pub open spec fn or_default(t: Option<Seq<char>>, d: Seq<char>) -> Seq<char> {
    match t {
        Some(x) => x,
        None => d,
    }
}
} // verus!
