use zust_core::auth::{
    ajax_headers, captcha_data_url, captcha_required, cas_login_form, cas_submit_outcome,
    check_dynamic_code, full_login_outcome, login_cookies, public_key_params, reauth_submit_form,
    reauth_submit_reply, sms_code_reply, stored_fingerprint, fresh_fingerprint, AuthFlowResult,
    AuthSuccess, CasOutcome, CaptchaChallenge, LoginStep,
};
use zust_core::error::ZustError;
use zust_core::urls::{url_escape, with_service, CAS_LOGIN, CAS_SVC};
use zust_core::auth::{api_access_checked, captcha_needed, fingerprint_of, wisedu_login_checked};
use zust_core::urls::post_hop_continues;

#[test]
fn test_url_escape() {
    let escaped = url_escape("https://example.com/path?a=1&b=2");
    assert!(!escaped.contains("://"));
}

#[test]
fn test_login_step() {
    let step = LoginStep::new(1, "测试");
    assert_eq!(step.step, 1);
    assert_eq!(step.message, "测试");
}

#[test]
fn test_captcha_required() {
    assert!(captcha_required(r#"{"isNeed":true}"#));
    assert!(!captcha_required(r#"{"isNeed":false}"#));
}

#[test]
fn test_with_service_adds_query_parameter() {
    let url = with_service(CAS_LOGIN, CAS_SVC).unwrap();
    assert!(url.contains("service="));
    assert!(url.contains("newjwxt.zust.edu.cn"));
}

#[test]
fn url_escape_exact_values() {
    assert_eq!(url_escape("a b*-._"), "a+b*-._");
    assert_eq!(url_escape("a/b:c"), "a%2Fb%3Ac");
    assert_eq!(url_escape("学"), "%E5%AD%A6");
}

#[test]
fn captcha_required_reads_text_when_not_json() {
    assert!(captcha_required("isNeed=true"));
    assert!(!captcha_required("nothing here"));
}

#[test]
fn with_service_keeps_an_existing_service() {
    let url = with_service("https://authserver.zust.edu.cn/authserver/login?service=abc", CAS_SVC).unwrap();
    assert_eq!(url, "https://authserver.zust.edu.cn/authserver/login?service=abc");
}

#[test]
fn with_service_refuses_a_relative_action() {
    match with_service("/authserver/login", CAS_SVC) {
        Err(ZustError::LoginFailed(m)) => assert!(m.starts_with("CAS 表单地址异常: ")),
        _ => panic!("expected a login failure"),
    }
}

#[test]
fn ajax_headers_in_order() {
    let h = ajax_headers("https://x/");
    assert_eq!(h.len(), 3);
    assert_eq!(h[0], ("Accept".to_string(), "application/json, text/javascript, */*; q=0.01".to_string()));
    assert_eq!(h[1], ("X-Requested-With".to_string(), "XMLHttpRequest".to_string()));
    assert_eq!(h[2], ("Referer".to_string(), "https://x/".to_string()));
}

#[test]
fn cas_form_trims_the_captcha() {
    let f = cas_login_form("u", "p", "  ab12 ", "e1");
    assert_eq!(f[2], ("captcha".to_string(), "ab12".to_string()));
    assert_eq!(f.len(), 8);
    assert_eq!(f[7], ("dllt".to_string(), "generalLogin".to_string()));
}

#[test]
fn reauth_form_flags() {
    let f = reauth_submit_form("svc", "3", true, "123456", false);
    assert_eq!(f[2], ("isMultifactor".to_string(), "true".to_string()));
    assert_eq!(f[9], ("skipTmpReAuth".to_string(), "false".to_string()));
}

#[test]
fn cas_outcomes() {
    assert!(matches!(
        cas_submit_outcome("https://a/authserver/reAuthCheck/reAuthLoginView.do?x", "", false, 200),
        Ok(CasOutcome::Reauth)
    ));
    assert!(matches!(cas_submit_outcome("https://a/index", "", true, 200), Ok(CasOutcome::Proceed)));
    assert!(matches!(
        cas_submit_outcome("https://a/authserver/login", "请输入验证码", false, 200),
        Ok(CasOutcome::NeedCaptcha)
    ));
    match cas_submit_outcome("https://a/x", "<span id=\"msg\" class=\"e\"> 密码错误 </span>", false, 401) {
        Err(ZustError::LoginFailed(m)) => assert_eq!(m, "密码错误"),
        _ => panic!("expected the page's error"),
    }
    match cas_submit_outcome("https://a/x", "", false, 401) {
        Err(ZustError::LoginFailed(m)) => assert_eq!(m, "CAS 登录失败，请检查账号或密码 (status=401)"),
        _ => panic!("expected the generic error"),
    }
}

#[test]
fn dynamic_code_must_be_six_digits() {
    assert_eq!(check_dynamic_code(" 123456 ").unwrap(), "123456");
    assert!(check_dynamic_code("12345").is_err());
    assert!(check_dynamic_code("12a456").is_err());
}

#[test]
fn sms_replies() {
    assert_eq!(sms_code_reply(r#"{"res":"SUCCESS"}"#).unwrap(), "验证码已发送，请查收手机短信");
    assert_eq!(sms_code_reply(r#"{"res":"success","message":" sent "}"#).unwrap(), "sent");
    match sms_code_reply(r#"{"res":"fail"}"#) {
        Err(ZustError::LoginFailed(m)) => assert_eq!(m, "手机验证码发送失败"),
        _ => panic!("expected a failure"),
    }
    match sms_code_reply("not json") {
        Err(ZustError::LoginFailed(m)) => assert!(m.starts_with("验证码接口返回异常: ")),
        _ => panic!("expected a parse failure"),
    }
}

#[test]
fn reauth_replies() {
    assert!(reauth_submit_reply(r#"{"code":"ok"}"#).is_ok());
    match reauth_submit_reply(r#"{"code":"reAuth_failed"}"#) {
        Err(ZustError::LoginFailed(m)) => assert_eq!(m, "手机验证码错误或已过期"),
        _ => panic!("expected a failure"),
    }
}

#[test]
fn public_key_replies() {
    let (n, e) = public_key_params(r#"{"modulus":"AQAB","exponent":"AQ=="}"#).unwrap();
    assert_eq!(n, "AQAB");
    assert_eq!(e, "AQ==");
    match public_key_params(r#"{"exponent":"AQ=="}"#) {
        Err(ZustError::LoginFailed(m)) => assert_eq!(m, "未找到 RSA modulus"),
        _ => panic!("expected a missing modulus"),
    }
    assert!(matches!(public_key_params("<html>"), Err(ZustError::Json(_))));
}

#[test]
fn captcha_picture_as_data_url() {
    let url = captcha_data_url(&[0xFF, 0xD8, 0xFF, 0x00]).unwrap();
    assert_eq!(url, "data:image/jpeg;base64,/9j/AA==");
    assert_eq!(captcha_data_url(b"GIF89a").unwrap(), "data:image/gif;base64,R0lGODlh");
    assert!(captcha_data_url(&[]).is_err());
}

#[test]
fn full_login_needs_no_detour() {
    let ok = full_login_outcome(AuthFlowResult::Complete(AuthSuccess {
        cookies: vec![("a".to_string(), "1".to_string())],
        username: "u".to_string(),
        cas_password: "c".to_string(),
        wisedu_password: "w".to_string(),
    }));
    assert_eq!(ok.unwrap(), vec![("a".to_string(), "1".to_string())]);
    let detour = full_login_outcome(AuthFlowResult::CaptchaRequired(CaptchaChallenge {
        kind: "captcha".to_string(),
        image_base64: String::new(),
        message: String::new(),
    }));
    match detour {
        Err(ZustError::LoginFailed(m)) => assert_eq!(m, "登录需要图片验证码，请在登录窗口完成验证"),
        _ => panic!("expected a failure"),
    }
}

#[test]
fn login_cookies_add_csrf_and_main_url() {
    let c = login_cookies(
        &[("JSESSIONID".to_string(), "j".to_string()), ("_csrf".to_string(), "old".to_string())],
        "tok".to_string(),
        "https://main".to_string(),
    );
    assert_eq!(c.len(), 3);
    assert!(c.contains(&("_csrf".to_string(), "tok".to_string())));
    assert!(c.contains(&("_main_url".to_string(), "https://main".to_string())));
}

#[test]
fn fingerprints() {
    let f = fresh_fingerprint();
    assert_eq!(f.len(), 32);
    assert!(f.chars().all(|c| c.is_ascii_digit() || ('A'..='F').contains(&c)));
    assert_eq!(stored_fingerprint("  abc \n"), Some("abc".to_string()));
    assert_eq!(stored_fingerprint("   "), None);
}

#[test]
fn fingerprint_of_two_values() {
    assert_eq!(
        fingerprint_of(0x0123_4567_89AB_CDEF, 255),
        "0123456789ABCDEF00000000000000FF"
    );
    assert_eq!(fingerprint_of(0, 0), "0".repeat(32));
}

#[test]
fn captcha_needed_cases() {
    let asks: Result<String, ZustError> = Ok(r#"{"isNeed":true}"#.to_string());
    let no: Result<String, ZustError> = Ok(r#"{"isNeed":false}"#.to_string());
    let failed: Result<String, ZustError> = Err(ZustError::Http("timeout".to_string()));
    assert!(captcha_needed(&asks, None));
    assert!(captcha_needed(&asks, Some("   ")));
    assert!(!captcha_needed(&asks, Some("ab12")));
    assert!(!captcha_needed(&no, None));
    assert!(!captcha_needed(&failed, None));
}

#[test]
fn wisedu_and_api_checks() {
    assert!(wisedu_login_checked("https://x/jwglxt/xtgl/index_initMenu.html", "", 200).is_ok());
    assert!(wisedu_login_checked("https://x/jwglxt/xtgl/login_slogin.html?index", "", 200).is_ok());
    match wisedu_login_checked("https://x/jwglxt/xtgl/login_slogin.html", "no tips", 302) {
        Err(ZustError::LoginFailed(m)) => assert_eq!(m, "教务系统登录失败 (status=302)"),
        other => panic!("unexpected {other:?}"),
    }
    assert!(api_access_checked(r#"{"xm":"张三"}"#).is_ok());
    match api_access_checked("您没有访问权限") {
        Err(ZustError::LoginFailed(m)) => assert_eq!(m, "没有访问权限"),
        other => panic!("unexpected {other:?}"),
    }
}

#[test]
fn post_hops_follow_redirect_statuses() {
    assert!(post_hop_continues(302, 0, 12));
    assert!(post_hop_continues(301, 11, 12));
    assert!(!post_hop_continues(302, 12, 12));
    assert!(!post_hop_continues(200, 0, 12));
    assert!(!post_hop_continues(307, 0, 12));
}
