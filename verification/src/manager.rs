//! The login manager: where the login is kept on disk, and the login that
//! waits at a detour (a picture captcha or the trusted-device check) with
//! the session that it must keep. Every step that takes the waiting login
//! and then refuses to go on puts it back as it was.
use vstd::prelude::*;
use crate::auth::{
    answer_given, can_resume, captcha_challenge, check_dynamic_code, given_answer, is_six_digits, sms_reauth,
    CaptchaChallenge, PendingStage, ReauthChallenge,
};
use crate::error::{error_text, ZustError};
use crate::auth::{cas_failure_text, cas_submit_outcome, login_failed_with, reauth_submit_reply, reply_message, sms_code_reply, sms_reply_is, AuthSuccess, CasOutcome};
use crate::json::{json_parse, Json};
use crate::text::has_sub;
use crate::session::HttpSession;
use crate::text::trim_spec;
use crate::urls::CAS_SVC;

verus! {

broadcast use vstd::string::group_string_axioms;

#[verifier::external_type_specification]
#[verifier::external_body]
pub struct ExPathBuf(std::path::PathBuf);

/// `dirs::data_dir()`: the user's data directory, when the platform has
/// one. Nothing is stated of it: it depends on the machine.
#[verifier::external_body]
fn data_dir() -> (r: Option<std::path::PathBuf>) {
    dirs::data_dir()
}

/// A name for what a path buffer holds: its bytes, as
/// `as_os_str().as_encoded_bytes()` gives them.
pub uninterp spec fn path_bytes(p: std::path::PathBuf) -> Seq<u8>;

/// A name for the bytes of the path that `Path::join` makes of a path
/// holding `base` and the relative text `part`.
pub uninterp spec fn joined_path_bytes(base: Seq<u8>, part: Seq<char>) -> Seq<u8>;

/// `PathBuf::from(s)`: a path holding the text `s`, so its encoded bytes
/// are the UTF-8 bytes of `s`.
#[verifier::external_body]
fn path_from(s: &str) -> (r: std::path::PathBuf)
    ensures
        path_bytes(r) == vstd::utf8::encode_utf8(s@),
{
    std::path::PathBuf::from(s)
}

/// `Path::join(base, part)`.
#[verifier::external_body]
fn path_join(base: &std::path::PathBuf, part: &str) -> (r: std::path::PathBuf)
    ensures
        path_bytes(r) == joined_path_bytes(path_bytes(*base), part@),
{
    base.join(part)
}

/// The bytes of the manager's directory: `zust-grades` joined to the data
/// directory `d`, or to `.` where there is none.
pub open spec fn files_dir_bytes(d: Option<std::path::PathBuf>) -> Seq<u8> {
    joined_path_bytes(
        match d {
            Some(x) => path_bytes(x),
            None => vstd::utf8::encode_utf8("."@),
        },
        "zust-grades"@,
    )
}

/// A login that waits at a detour, with everything it needs to go on.
pub struct PendingLogin {
    pub session: HttpSession,
    pub username: String,
    pub cas_password: String,
    pub wisedu_password: String,
    pub service: String,
    pub salt_key: String,
    pub execution: String,
    pub form_action: String,
    pub stage: PendingStage,
}

impl PendingLogin {
    /// A login that has read the CAS login page and waits at the captcha
    /// step; CAS is to log the student into the academic-affairs system.
    pub fn at_captcha(
        session: HttpSession,
        username: &str,
        cas_password: &str,
        wisedu_password: &str,
        salt_key: String,
        execution: String,
        form_action: String,
    ) -> (r: Self)
        ensures
            r.session == session,
            r.username@ == username@,
            r.cas_password@ == cas_password@,
            r.wisedu_password@ == wisedu_password@,
            r.service@ == CAS_SVC@,
            r.salt_key == salt_key,
            r.execution == execution,
            r.form_action == form_action,
            r.stage is Captcha,
    {
        PendingLogin {
            session,
            username: username.to_string(),
            cas_password: cas_password.to_string(),
            wisedu_password: wisedu_password.to_string(),
            service: CAS_SVC.to_string(),
            salt_key,
            execution,
            form_action,
            stage: PendingStage::Captcha,
        }
    }
}

/// `q` is `p` with new passwords.
pub open spec fn with_passwords(p: PendingLogin, q: PendingLogin, cas_password: Seq<char>, wisedu_password: Seq<char>) -> bool {
    &&& q.session == p.session
    &&& q.username == p.username
    &&& q.cas_password@ == cas_password
    &&& q.wisedu_password@ == wisedu_password
    &&& q.service == p.service
    &&& q.salt_key == p.salt_key
    &&& q.execution == p.execution
    &&& q.form_action == p.form_action
    &&& q.stage == p.stage
}

/// The login manager.
pub struct AuthManager {
    pub config_dir: std::path::PathBuf,
    pending: Option<PendingLogin>,
}

impl AuthManager {
    /// The login that waits at a detour, if any.
    pub closed spec fn waiting(&self) -> Option<PendingLogin> {
        self.pending
    }

    /// The directory of the manager's files.
    pub closed spec fn dir(&self) -> std::path::PathBuf {
        self.config_dir
    }

    /// A manager keeping its files in `zust-grades` under the directory `d`
    /// (the user's data directory, where the platform has one) or, without
    /// one, under the current directory; no login waits.
    pub fn in_data_dir(d: Option<std::path::PathBuf>) -> (r: Self)
        ensures
            r.waiting() is None,
            path_bytes(r.dir()) == files_dir_bytes(d),
    {
        let base = match d {
            Some(x) => x,
            None => path_from("."),
        };
        let dir = path_join(&base, "zust-grades");
        AuthManager { config_dir: dir, pending: None }
    }

    /// A manager keeping its files in `zust-grades` under the user's data
    /// directory (or the current directory), with no login waiting. Which
    /// data directory the machine has is not stated here; `in_data_dir`
    /// says what is made of it.
    pub fn new() -> (r: Self)
        ensures
            r.waiting() is None,
            exists|d: Option<std::path::PathBuf>| path_bytes(r.dir()) == #[trigger] files_dir_bytes(d),
    {
        let d = data_dir();
        let r = Self::in_data_dir(d);
        assert(path_bytes(r.dir()) == files_dir_bytes(d));
        r
    }

    /// The file of the saved login: `newjwxt-session.json` in the manager's
    /// directory.
    pub fn session_path(&self) -> (r: std::path::PathBuf)
        ensures
            path_bytes(r) == joined_path_bytes(path_bytes(self.dir()), "newjwxt-session.json"@),
    {
        path_join(&self.config_dir, "newjwxt-session.json")
    }

    /// The file of the browser fingerprint: `browser-fingerprint` in the
    /// manager's directory.
    pub fn fingerprint_path(&self) -> (r: std::path::PathBuf)
        ensures
            path_bytes(r) == joined_path_bytes(path_bytes(self.dir()), "browser-fingerprint"@),
    {
        path_join(&self.config_dir, "browser-fingerprint")
    }

    /// Forgets the waiting login.
    pub fn clear_pending(&mut self)
        ensures
            final(self).waiting() is None,
            final(self).dir() == old(self).dir(),
    {
        self.pending = None;
    }

    /// Takes the waiting login out of the manager.
    pub fn take_pending(&mut self) -> (r: Option<PendingLogin>)
        ensures
            r == old(self).waiting(),
            final(self).waiting() is None,
            final(self).dir() == old(self).dir(),
    {
        let mut p: Option<PendingLogin> = None;
        std::mem::swap(&mut p, &mut self.pending);
        p
    }

    /// Makes `pending` the waiting login.
    pub fn put_pending(&mut self, pending: PendingLogin)
        ensures
            final(self).waiting() == Some(pending),
            final(self).dir() == old(self).dir(),
    {
        self.pending = Some(pending);
    }

    /// The start of a login attempt. With a captcha answer, a login of the
    /// same user that waits at the captcha goes on, with the new passwords
    /// (it is taken out of the manager); another waiting login stays. Without
    /// an answer, any waiting login is forgotten and a new one begins.
    pub fn begin_login(&mut self, username: &str, cas_password: &str, wisedu_password: &str, captcha: Option<&str>) -> (r: Option<PendingLogin>)
        ensures
            final(self).dir() == old(self).dir(),
            ({
                let answered = given_answer(match captcha {
                    Some(c) => Some(c@),
                    None => None,
                });
                let resumable = old(self).waiting() matches Some(p) && p.username@ == username@ && p.stage is Captcha;
                if answered && resumable {
                    &&& r matches Some(q) && with_passwords(old(self).waiting()->0, q, cas_password@, wisedu_password@)
                    &&& final(self).waiting() is None
                } else if answered {
                    r is None && final(self).waiting() == old(self).waiting()
                } else {
                    r is None && final(self).waiting() is None
                }
            }),
    {
        if answer_given(captcha) {
            if let Some(pending) = self.take_pending() {
                if can_resume(pending.username.as_str(), &pending.stage, username) {
                    let PendingLogin { session, username, service, salt_key, execution, form_action, stage, .. } = pending;
                    return Some(PendingLogin {
                        session,
                        username,
                        cas_password: cas_password.to_string(),
                        wisedu_password: wisedu_password.to_string(),
                        service,
                        salt_key,
                        execution,
                        form_action,
                        stage,
                    });
                }
                self.put_pending(pending);
            }
            None
        } else {
            self.clear_pending();
            None
        }
    }

    /// Keeps `pending` waiting at the captcha, with the new picture.
    pub fn wait_at_captcha(&mut self, pending: PendingLogin, image_base64: String) -> (r: CaptchaChallenge)
        ensures
            final(self).waiting() matches Some(q) && q.stage is Captcha && same_login(pending, q),
            r.kind@ == "captcha"@,
            r.image_base64 == image_base64,
            r.message@ == "请输入图片验证码"@,
            final(self).dir() == old(self).dir(),
    {
        let q = at_stage(pending, PendingStage::Captcha);
        self.put_pending(q);
        captcha_challenge(image_base64)
    }

    /// Keeps `pending` waiting at the trusted-device check, on the SMS
    /// branch, and returns the check to complete.
    pub fn wait_at_sms(&mut self, pending: PendingLogin) -> (r: ReauthChallenge)
        ensures
            final(self).waiting() matches Some(q) && same_login(pending, q) && sms_stage(q.stage),
            r.kind@ == "sms"@,
            r.reauth_type@ == "3"@,
            r.is_multifactor,
            r.message@ == "当前设备不在可信设备列表，请验证手机验证码"@,
            final(self).dir() == old(self).dir(),
    {
        let (stage, challenge) = sms_reauth();
        let q = at_stage(pending, stage);
        self.put_pending(q);
        challenge
    }

    /// Takes the login that waits at the captcha, to fetch a new picture.
    /// Without a waiting login, or with one at another step, nothing
    /// changes and the request is refused.
    pub fn refresh_start(&mut self) -> (r: Result<PendingLogin, ZustError>)
        ensures
            final(self).dir() == old(self).dir(),
            match old(self).waiting() {
                None => r matches Err(ZustError::LoginFailed(m)) && m@ == "没有等待中的验证码登录流程"@
                    && final(self).waiting() is None,
                Some(p) => if p.stage is Captcha {
                    r == Ok::<PendingLogin, ZustError>(p) && final(self).waiting() is None
                } else {
                    r matches Err(ZustError::LoginFailed(m)) && m@ == "当前登录流程不需要图片验证码"@
                        && final(self).waiting() == old(self).waiting()
                },
            },
    {
        let pending = match self.take_pending() {
            Some(p) => p,
            None => {
                return Err(ZustError::LoginFailed("没有等待中的验证码登录流程".to_string()));
            },
        };
        if let PendingStage::Captcha = pending.stage {
            Ok(pending)
        } else {
            self.put_pending(pending);
            Err(ZustError::LoginFailed("当前登录流程不需要图片验证码".to_string()))
        }
    }

    /// Takes the login that waits at the trusted-device check, to request
    /// its SMS code; it must be on the SMS branch (`reAuthType` 3).
    /// Otherwise nothing changes and the request is refused.
    pub fn sms_start(&mut self) -> (r: Result<PendingLogin, ZustError>)
        ensures
            final(self).dir() == old(self).dir(),
            match old(self).waiting() {
                None => r matches Err(ZustError::LoginFailed(m)) && m@ == "没有等待中的可信设备认证流程"@
                    && final(self).waiting() is None,
                Some(p) => match p.stage {
                    PendingStage::Captcha => r matches Err(ZustError::LoginFailed(m)) && m@ == "当前尚未完成 CAS 登录"@
                        && final(self).waiting() == old(self).waiting(),
                    PendingStage::Reauth { reauth_type, .. } => if reauth_type@ == "3"@ {
                        r == Ok::<PendingLogin, ZustError>(p) && final(self).waiting() is None
                    } else {
                        r matches Err(ZustError::LoginFailed(m)) && m@ == "当前认证方式不是手机动态码"@
                            && final(self).waiting() == old(self).waiting()
                    },
                },
            },
    {
        let pending = match self.take_pending() {
            Some(p) => p,
            None => {
                return Err(ZustError::LoginFailed("没有等待中的可信设备认证流程".to_string()));
            },
        };
        match crate::auth::check_sms_stage(&pending.stage) {
            Ok(()) => Ok(pending),
            Err(e) => {
                self.put_pending(pending);
                Err(e)
            },
        }
    }

    /// Takes the login that waits at the trusted-device check, with the
    /// code that the user typed (trimmed, six digits), the check's type and
    /// whether it is multifactor. Otherwise nothing changes and the request
    /// is refused.
    pub fn verify_start(&mut self, dynamic_code: &str) -> (r: Result<(PendingLogin, String, String, bool), ZustError>)
        ensures
            final(self).dir() == old(self).dir(),
            match old(self).waiting() {
                None => r matches Err(ZustError::LoginFailed(m)) && m@ == "没有等待中的可信设备认证流程"@
                    && final(self).waiting() is None,
                Some(p) => match p.stage {
                    PendingStage::Captcha => r matches Err(ZustError::LoginFailed(m)) && m@ == "当前尚未进入可信设备认证"@
                        && final(self).waiting() == old(self).waiting(),
                    PendingStage::Reauth { reauth_type, is_multifactor } => if is_six_digits(trim_spec(dynamic_code@)) {
                        &&& r matches Ok(t) && t.0 == p && t.1@ == trim_spec(dynamic_code@) && t.2@ == reauth_type@
                            && t.3 == is_multifactor
                        &&& final(self).waiting() is None
                    } else {
                        r matches Err(ZustError::LoginFailed(m)) && m@ == "请输入 6 位数字手机验证码"@
                            && final(self).waiting() == old(self).waiting()
                    },
                },
            },
    {
        let pending = match self.take_pending() {
            Some(p) => p,
            None => {
                return Err(ZustError::LoginFailed("没有等待中的可信设备认证流程".to_string()));
            },
        };
        let (reauth_type, is_multifactor) = match crate::auth::reauth_params(&pending.stage) {
            Ok(p) => p,
            Err(e) => {
                self.put_pending(pending);
                return Err(e);
            },
        };
        match check_dynamic_code(dynamic_code) {
            Ok(code) => Ok((pending, code, reauth_type, is_multifactor)),
            Err(e) => {
                self.put_pending(pending);
                Err(e)
            },
        }
    }
}

/// The SMS branch of the trusted-device check.
pub open spec fn sms_stage(s: PendingStage) -> bool {
    s matches PendingStage::Reauth { reauth_type, is_multifactor } && reauth_type@ == "3"@ && is_multifactor
}

/// Where a CAS form submission has brought a login.
pub enum CasStep {
    /// CAS accepted the login: go on with the academic-affairs login.
    Proceed(PendingLogin),
    /// The server wants a (new) picture captcha for this login.
    NeedCaptcha(PendingLogin),
    /// The login now waits at the trusted-device check.
    Reauth(ReauthChallenge),
}

/// The final URL of a CAS redirect chain is the trusted-device page.
pub open spec fn at_reauth_page(final_url: Seq<char>) -> bool {
    has_sub(final_url, "/reAuthCheck/reAuthLoginView.do"@)
}

/// The CAS login page came back asking for a captcha.
pub open spec fn asks_captcha(final_url: Seq<char>, body: Seq<char>) -> bool {
    has_sub(final_url, "/authserver/login"@) && (has_sub(body, "captcha"@) || has_sub(body, "验证码"@))
}

/// The trusted-device reply refuses the code.
pub open spec fn reauth_refused(reply: Json) -> bool {
    reply.str_field("code"@) == Some("reAuth_failed"@) || reply.str_field("code"@) == Some("reAuth_unauthorized"@)
}

/// The message of a refused trusted-device code.
pub open spec fn reauth_refusal_text(reply: Json) -> Seq<char> {
    match reply_message(reply) {
        Some(t) => t,
        None => "手机验证码错误或已过期"@,
    }
}

impl AuthManager {
    /// Takes the answer to the CAS form submission of `pending` (the final
    /// body, URL and status of its redirect chain, or the request's error).
    /// A chain that ends on the trusted-device page leaves the login waiting
    /// at the SMS check; a session without `MOD_AUTH_CAS` either needs a new
    /// captcha (the login page asks for one) or failed with the page's
    /// message; a session with it goes on. A failed request fails the login.
    pub fn cas_submitted(&mut self, pending: PendingLogin, sent: Result<(String, String, u16), ZustError>) -> (r: Result<CasStep, ZustError>)
        ensures
            final(self).dir() == old(self).dir(),
            match sent {
                Err(e) => r matches Err(ZustError::LoginFailed(m)) && m@ == "CAS 提交失败: "@ + error_text(e)
                    && final(self).waiting() == old(self).waiting(),
                Ok(reply) => {
                    let (body, url) = (reply.0@, reply.1@);
                    let has_cas = pending.session@.dom().contains("MOD_AUTH_CAS"@);
                    if at_reauth_page(url) {
                        &&& r matches Ok(CasStep::Reauth(c)) && c.kind@ == "sms"@ && c.reauth_type@ == "3"@
                            && c.is_multifactor && c.message@ == "当前设备不在可信设备列表，请验证手机验证码"@
                        &&& final(self).waiting() matches Some(q) && same_login(pending, q) && sms_stage(q.stage)
                    } else if has_cas {
                        r matches Ok(CasStep::Proceed(q)) && q == pending && final(self).waiting() == old(self).waiting()
                    } else if asks_captcha(url, body) {
                        r matches Ok(CasStep::NeedCaptcha(q)) && q == pending && final(self).waiting() == old(
                            self,
                        ).waiting()
                    } else {
                        r matches Err(ZustError::LoginFailed(m)) && m@ == cas_failure_text(body, reply.2)
                            && final(self).waiting() == old(self).waiting()
                    }
                },
            },
    {
        let (body, final_url, status) = match sent {
            Ok(t) => t,
            Err(e) => {
                return Err(login_failed_with("CAS 提交失败: ", &e));
            },
        };
        let has_cas = pending.session.has_cookie("MOD_AUTH_CAS");
        match cas_submit_outcome(final_url.as_str(), body.as_str(), has_cas, status) {
            Ok(CasOutcome::Reauth) => Ok(CasStep::Reauth(self.wait_at_sms(pending))),
            Ok(CasOutcome::NeedCaptcha) => Ok(CasStep::NeedCaptcha(pending)),
            Ok(CasOutcome::Proceed) => Ok(CasStep::Proceed(pending)),
            Err(e) => Err(e),
        }
    }

    /// Takes the captcha picture fetched for `pending`: the login waits at
    /// the captcha with it; when the fetch failed, the login waits as it was
    /// and the error is returned.
    pub fn captcha_fetched(&mut self, pending: PendingLogin, image: Result<String, ZustError>) -> (r: Result<CaptchaChallenge, ZustError>)
        ensures
            final(self).dir() == old(self).dir(),
            match image {
                Err(e) => r matches Err(x) && x == e && final(self).waiting() == Some(pending),
                Ok(i) => {
                    &&& r matches Ok(c) && c.kind@ == "captcha"@ && c.image_base64 == i && c.message@
                        == "请输入图片验证码"@
                    &&& final(self).waiting() matches Some(q) && q.stage is Captcha && same_login(pending, q)
                },
            },
    {
        match image {
            Err(e) => {
                self.put_pending(pending);
                Err(e)
            },
            Ok(i) => Ok(self.wait_at_captcha(pending, i)),
        }
    }

    /// Takes the answer to the SMS-code request of `pending`; the login
    /// waits again in every case. A failed request gives its error; a body
    /// is read as `sms_code_reply` reads it.
    pub fn sms_requested(&mut self, pending: PendingLogin, sent: Result<String, ZustError>) -> (r: Result<String, ZustError>)
        ensures
            final(self).dir() == old(self).dir(),
            final(self).waiting() == Some(pending),
            match sent {
                Err(e) => r matches Err(ZustError::LoginFailed(m)) && m@ == "获取手机验证码失败: "@ + error_text(e),
                Ok(body) => match json_parse(body@) {
                    Err(t) => r matches Err(ZustError::LoginFailed(m)) && m@ == "验证码接口返回异常: "@ + t,
                    Ok(v) => sms_reply_is(v, r),
                },
            },
    {
        let answer = match sent {
            Err(e) => Err(login_failed_with("获取手机验证码失败: ", &e)),
            Ok(body) => sms_code_reply(body.as_str()),
        };
        self.put_pending(pending);
        answer
    }

    /// Takes the answer to the trusted-device submission of `pending`. A
    /// failed request, a body that is not JSON and a refused code fail, and
    /// the login waits again; an accepted code gives the login back to go
    /// on.
    pub fn reauth_submitted(&mut self, pending: PendingLogin, sent: Result<String, ZustError>) -> (r: Result<PendingLogin, ZustError>)
        ensures
            final(self).dir() == old(self).dir(),
            match sent {
                Err(e) => r matches Err(ZustError::LoginFailed(m)) && m@ == "提交可信设备验证码失败: "@ + error_text(e)
                    && final(self).waiting() == Some(pending),
                Ok(body) => match json_parse(body@) {
                    Err(t) => r matches Err(ZustError::LoginFailed(m)) && m@ == "可信设备接口返回异常: "@ + t
                        && final(self).waiting() == Some(pending),
                    Ok(v) => if reauth_refused(v) {
                        r matches Err(ZustError::LoginFailed(m)) && m@ == reauth_refusal_text(v)
                            && final(self).waiting() == Some(pending)
                    } else {
                        r matches Ok(q) && q == pending && final(self).waiting() == old(self).waiting()
                    },
                },
            },
    {
        let checked = match sent {
            Err(e) => Err(login_failed_with("提交可信设备验证码失败: ", &e)),
            Ok(body) => reauth_submit_reply(body.as_str()),
        };
        match checked {
            Ok(()) => Ok(pending),
            Err(e) => {
                self.put_pending(pending);
                Err(e)
            },
        }
    }

    /// Takes the end of the CAS redirect chain that follows an accepted
    /// trusted-device code: the login goes on only when the session now has
    /// `MOD_AUTH_CAS`; otherwise, or when the chain failed, it waits again.
    pub fn cas_resumed(&mut self, pending: PendingLogin, chain: Result<(), ZustError>) -> (r: Result<PendingLogin, ZustError>)
        ensures
            final(self).dir() == old(self).dir(),
            match chain {
                Err(e) => r matches Err(ZustError::LoginFailed(m)) && m@ == "继续 CAS 登录失败: "@ + error_text(e)
                    && final(self).waiting() == Some(pending),
                Ok(_) => if pending.session@.dom().contains("MOD_AUTH_CAS"@) {
                    r matches Ok(q) && q == pending && final(self).waiting() == old(self).waiting()
                } else {
                    r matches Err(ZustError::LoginFailed(m)) && m@ == "可信设备验证成功，但 CAS 会话未建立"@
                        && final(self).waiting() == Some(pending)
                },
            },
    {
        if let Err(e) = chain {
            let err = login_failed_with("继续 CAS 登录失败: ", &e);
            self.put_pending(pending);
            return Err(err);
        }
        if pending.session.has_cookie("MOD_AUTH_CAS") {
            Ok(pending)
        } else {
            self.put_pending(pending);
            Err(ZustError::LoginFailed("可信设备验证成功，但 CAS 会话未建立".to_string()))
        }
    }

    /// Takes the outcome of the academic-affairs login that ends a
    /// trusted-device check: on failure the login waits again.
    pub fn reauth_finished(&mut self, pending: PendingLogin, result: Result<AuthSuccess, ZustError>) -> (r: Result<AuthSuccess, ZustError>)
        ensures
            final(self).dir() == old(self).dir(),
            r == result,
            result is Err ==> final(self).waiting() == Some(pending),
            result is Ok ==> final(self).waiting() == old(self).waiting(),
    {
        if result.is_err() {
            self.put_pending(pending);
        }
        result
    }
}

/// `q` is the login `p`, whatever step it waits at.
pub open spec fn same_login(p: PendingLogin, q: PendingLogin) -> bool {
    &&& q.session == p.session
    &&& q.username == p.username
    &&& q.cas_password == p.cas_password
    &&& q.wisedu_password == p.wisedu_password
    &&& q.service == p.service
    &&& q.salt_key == p.salt_key
    &&& q.execution == p.execution
    &&& q.form_action == p.form_action
}

/// The login `p` at step `stage`.
fn at_stage(p: PendingLogin, stage: PendingStage) -> (q: PendingLogin)
    ensures
        same_login(p, q),
        q.stage == stage,
{
    let PendingLogin { session, username, cas_password, wisedu_password, service, salt_key, execution, form_action, .. } = p;
    PendingLogin { session, username, cas_password, wisedu_password, service, salt_key, execution, form_action, stage }
}

} // verus!
