use zust_core::auth::PendingStage;
use zust_core::error::ZustError;
use zust_core::manager::{AuthManager, CasStep, PendingLogin};
use zust_core::session::HttpSession;

fn waiting_login(user: &str) -> PendingLogin {
    PendingLogin::at_captcha(
        HttpSession::new().unwrap(),
        user,
        "cas",
        "jw",
        "1234567890123456".to_string(),
        "e1s1".to_string(),
        "https://authserver.zust.edu.cn/authserver/login".to_string(),
    )
}

fn message(e: ZustError) -> String {
    match e {
        ZustError::LoginFailed(m) => m,
        other => panic!("unexpected {other:?}"),
    }
}

#[test]
fn test_auth_manager_new() {
    let manager = AuthManager::new();
    assert!(manager.config_dir.ends_with("zust-grades"));
}

#[test]
fn files_live_in_the_config_dir() {
    let m = AuthManager::new();
    assert!(m.session_path().ends_with("newjwxt-session.json"));
    assert!(m.fingerprint_path().starts_with(&m.config_dir));
}

#[test]
fn captcha_answer_resumes_the_same_user() {
    let mut m = AuthManager::new();
    m.put_pending(waiting_login("alice"));
    let p = m.begin_login("alice", "new-cas", "new-jw", Some(" x7k2 ")).unwrap();
    assert_eq!(p.cas_password, "new-cas");
    assert_eq!(p.wisedu_password, "new-jw");
    assert_eq!(p.execution, "e1s1");
    assert!(m.take_pending().is_none());
}

#[test]
fn another_user_leaves_the_waiting_login() {
    let mut m = AuthManager::new();
    m.put_pending(waiting_login("alice"));
    assert!(m.begin_login("bob", "c", "w", Some("x7k2")).is_none());
    assert_eq!(m.take_pending().unwrap().username, "alice");
}

#[test]
fn no_answer_forgets_the_waiting_login() {
    let mut m = AuthManager::new();
    m.put_pending(waiting_login("alice"));
    assert!(m.begin_login("alice", "c", "w", Some("   ")).is_none());
    assert!(m.take_pending().is_none());
}

#[test]
fn sms_and_verify_steps() {
    let mut m = AuthManager::new();
    assert_eq!(message(m.sms_start().err().unwrap()), "没有等待中的可信设备认证流程");
    m.put_pending(waiting_login("alice"));
    assert_eq!(message(m.sms_start().err().unwrap()), "当前尚未完成 CAS 登录");
    assert_eq!(message(m.verify_start("123456").err().unwrap()), "当前尚未进入可信设备认证");
    let p = m.refresh_start().ok().unwrap();
    let challenge = m.wait_at_sms(p);
    assert_eq!(challenge.reauth_type, "3");
    assert_eq!(message(m.refresh_start().err().unwrap()), "当前登录流程不需要图片验证码");
    assert_eq!(message(m.verify_start("12").err().unwrap()), "请输入 6 位数字手机验证码");
    let p = m.sms_start().ok().unwrap();
    assert!(matches!(p.stage, PendingStage::Reauth { .. }));
    m.put_pending(p);
    let (p, code, kind, multi) = m.verify_start(" 654321 ").ok().unwrap();
    assert_eq!((code.as_str(), kind.as_str(), multi), ("654321", "3", true));
    assert_eq!(p.username, "alice");
    assert!(m.take_pending().is_none());
}

#[test]
fn captcha_wait_keeps_the_login() {
    let mut m = AuthManager::new();
    let c = m.wait_at_captcha(waiting_login("alice"), "data:image/png;base64,AA==".to_string());
    assert_eq!(c.kind, "captcha");
    assert_eq!(c.message, "请输入图片验证码");
    assert_eq!(m.take_pending().unwrap().form_action, "https://authserver.zust.edu.cn/authserver/login");
}

#[test]
fn cas_submission_steps() {
    let mut m = AuthManager::new();
    let step = m.cas_submitted(
        waiting_login("alice"),
        Ok((String::new(), "https://a/authserver/reAuthCheck/reAuthLoginView.do".to_string(), 200)),
    );
    assert!(matches!(step, Ok(CasStep::Reauth(_))));
    assert!(matches!(m.take_pending().unwrap().stage, PendingStage::Reauth { .. }));
    let step = m.cas_submitted(waiting_login("alice"), Ok(("验证码".to_string(), "https://a/authserver/login".to_string(), 200)));
    assert!(matches!(step, Ok(CasStep::NeedCaptcha(_))));
    let mut p = waiting_login("alice");
    p.session.set_cookie("MOD_AUTH_CAS".to_string(), "t".to_string());
    assert!(matches!(m.cas_submitted(p, Ok((String::new(), "https://a/index".to_string(), 200))), Ok(CasStep::Proceed(_))));
    let e = m.cas_submitted(waiting_login("alice"), Err(ZustError::Http("down".to_string()))).err().unwrap();
    assert_eq!(message(e), "CAS 提交失败: HTTP error: down");
    assert!(m.take_pending().is_none());
}

#[test]
fn failed_steps_keep_the_login_waiting() {
    let mut m = AuthManager::new();
    let e = m.reauth_submitted(waiting_login("alice"), Ok(r#"{"code":"reAuth_failed"}"#.to_string())).err().unwrap();
    assert_eq!(message(e), "手机验证码错误或已过期");
    assert_eq!(m.take_pending().unwrap().username, "alice");
    assert!(m.reauth_submitted(waiting_login("alice"), Ok(r#"{"code":"ok"}"#.to_string())).is_ok());
    assert!(m.take_pending().is_none());
    let e = m.cas_resumed(waiting_login("bob"), Ok(())).err().unwrap();
    assert_eq!(message(e), "可信设备验证成功，但 CAS 会话未建立");
    assert_eq!(m.take_pending().unwrap().username, "bob");
    let e = m.sms_requested(waiting_login("carol"), Err(ZustError::Http("x".to_string()))).err().unwrap();
    assert_eq!(message(e), "获取手机验证码失败: HTTP error: x");
    assert_eq!(m.take_pending().unwrap().username, "carol");
    let c = m.captcha_fetched(waiting_login("dan"), Ok("data:x".to_string())).ok().unwrap();
    assert_eq!(c.image_base64, "data:x");
    assert!(m.captcha_fetched(waiting_login("eve"), Err(ZustError::SessionExpired)).is_err());
    assert_eq!(m.take_pending().unwrap().username, "eve");
}

#[test]
fn files_dir_under_the_given_data_dir() {
    let mut m = AuthManager::in_data_dir(Some(std::path::PathBuf::from("/srv/data")));
    assert_eq!(m.config_dir, std::path::PathBuf::from("/srv/data/zust-grades"));
    assert!(m.take_pending().is_none());
    let m = AuthManager::in_data_dir(None);
    assert_eq!(m.config_dir, std::path::PathBuf::from("./zust-grades"));
}
