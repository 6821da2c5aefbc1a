use zust_core::client::JWClient;
use zust_core::error::ZustError;
use zust_core::json::Json;
use zust_core::sniper::{round_session_valid, backoff_ms, parse_enroll_result, stagger_delay, tick_verdict, EnrollSniper, TickVerdict};
use zust_core::types::{SniperTarget, SniperTargetStatus};
use zust_core::sniper::{after_round, RoundAction, RoundEvent};

fn obj(fields: &[(&str, &str)]) -> Json {
    Json::Object(fields.iter().map(|(k, v)| (k.to_string(), Json::Str(v.to_string()))).collect())
}

fn target(kch: &str) -> SniperTarget {
    SniperTarget { kch_id: kch.to_string(), kcmc: format!("课程{kch}"), ..SniperTarget::default() }
}

fn client() -> JWClient {
    JWClient::new(&[]).unwrap()
}

#[test]
fn test_parse_flag_1_success() {
    let r = obj(&[("flag", "1")]);
    let (status, _detail) = parse_enroll_result(&r, &SniperTarget::default());
    assert_eq!(status, "success");
}

#[test]
fn test_parse_flag_0_conflict() {
    let r = obj(&[("flag", "0"), ("msg", "已选冲突")]);
    let (status, _detail) = parse_enroll_result(&r, &SniperTarget::default());
    assert_eq!(status, "conflict");
}

#[test]
fn test_parse_raw_success() {
    let r = obj(&[("_raw", "\"flag\":\"1\" 选课成功")]);
    let (status, _detail) = parse_enroll_result(&r, &SniperTarget::default());
    assert_eq!(status, "success");
}

#[test]
fn test_parse_flag_minus1_full() {
    let r = obj(&[("flag", "-1"), ("code", "1")]);
    let (status, _detail) = parse_enroll_result(&r, &SniperTarget::default());
    assert_eq!(status, "unavailable");
}

#[test]
fn html_reply_means_expired_session() {
    let r = obj(&[("_raw", "<HTML><BODY>x</BODY></HTML>")]);
    let (status, detail) = parse_enroll_result(&r, &SniperTarget::default());
    assert_eq!(status, "session_expired");
    assert_eq!(detail, "Session 失效（返回 HTML 页面）: <HTML><BODY>x</BODY></HTML>");
}

#[test]
fn rate_limits_and_other_outcomes() {
    let (s, d) = parse_enroll_result(&obj(&[("flag", "0"), ("msg", "选课频率过高")]), &SniperTarget::default());
    assert_eq!((s.as_str(), d.as_str()), ("rate_limited", "选课频率过高"));
    let (s, d) = parse_enroll_result(&obj(&[("flag", "-1")]), &SniperTarget::default());
    assert_eq!((s.as_str(), d.as_str()), ("unavailable", "不可选"));
    let (s, d) = parse_enroll_result(&obj(&[("flag", "0")]), &SniperTarget::default());
    assert_eq!((s.as_str(), d.as_str()), ("unavailable", "未知原因"));
    let (s, _) = parse_enroll_result(&Json::Str(" 1 ".to_string()), &SniperTarget::default());
    assert_eq!(s, "success");
    let (s, d) = parse_enroll_result(&obj(&[("x", "y")]), &SniperTarget::default());
    assert_eq!((s.as_str(), d.as_str()), ("unknown", r#"{"x":"y"}"#));
}

#[test]
fn engine_counts_attempts() {
    let mut e = EnrollSniper::new(client());
    e.set_targets(vec![target("A"), target("B")]);
    e.set_running(true);
    assert!(e.is_running());
    let st = e.record_reply(1, Ok(obj(&[("flag", "1")])));
    assert_eq!(st.kch_id, "B");
    assert_eq!(st.status, "success");
    let st = e.record_reply(0, Err(ZustError::Http("down".to_string())));
    assert_eq!(st.status, "unknown");
    assert_eq!(st.detail, "Error: HTTP error: down");
    assert_eq!(e.total_attempts(), 2);
    let stats = e.get_stats();
    assert_eq!(stats[0].attempts, 1);
    assert_eq!(stats[1].attempts, 1);
    assert_eq!(stats[1].last_status, "success");
    e.reset();
    assert_eq!(e.total_attempts(), 0);
    assert_eq!(e.targets().len(), 2);
}

#[test]
fn fresh_targets_start_pending() {
    let mut e = EnrollSniper::new(client());
    e.set_targets(vec![target("A")]);
    let stats = e.get_stats();
    assert_eq!(stats[0].last_status, "pending");
    assert_eq!(stats[0].attempts, 0);
    assert_eq!(stats[0].kcmc, "课程A");
}

#[test]
fn verdicts() {
    let st = |s: &str| SniperTargetStatus {
        kch_id: String::new(),
        kcmc: String::new(),
        status: s.to_string(),
        detail: String::new(),
    };
    assert!(matches!(tick_verdict(&[st("success"), st("session_expired")], true), TickVerdict::Success));
    assert!(matches!(tick_verdict(&[st("success")], false), TickVerdict::Success));
    assert!(matches!(tick_verdict(&[st("conflict"), st("session_expired")], true), TickVerdict::Relogin));
    assert!(matches!(tick_verdict(&[st("conflict")], false), TickVerdict::Relogin));
    assert!(round_session_valid(&[st("conflict"), st("success")]));
    assert!(!round_session_valid(&[st("conflict"), st("session_expired")]));
    assert!(matches!(tick_verdict(&[st("conflict"), st("success")], true), TickVerdict::Success));
    assert!(matches!(tick_verdict(&[st("conflict")], true), TickVerdict::Continue));
}

#[test]
fn backoff_values() {
    assert_eq!(backoff_ms(0, 1000), 0);
    assert_eq!(backoff_ms(1, 1000), 500);
    assert_eq!(backoff_ms(3, 1000), 2000);
    assert_eq!(backoff_ms(5, 1000), 5000);
    assert_eq!(backoff_ms(6, 100), 5000);
    assert_eq!(backoff_ms(6, 2000), 8000);
    assert!(backoff_ms(4, 300) <= backoff_ms(5, 300));
}

#[test]
fn stagger_values() {
    assert_eq!(stagger_delay(30, 0), 0);
    assert_eq!(stagger_delay(30, 3), 90);
}

#[test]
fn loop_stops_at_the_first_taken_round() {
    let st = |s: &str| SniperTargetStatus {
        kch_id: String::new(),
        kcmc: String::new(),
        status: s.to_string(),
        detail: String::new(),
    };
    let rounds = vec![
        RoundEvent::Failed,
        RoundEvent::Ticked { statuses: vec![st("conflict")], session_valid: true },
        RoundEvent::Ticked { statuses: vec![st("session_expired")], session_valid: true },
        RoundEvent::Ticked { statuses: vec![st("conflict"), st("success")], session_valid: false },
        RoundEvent::Ticked { statuses: vec![st("success")], session_valid: true },
    ];
    let mut errors = 0;
    let mut run = 0;
    for event in &rounds {
        run += 1;
        let (e, action) = after_round(errors, event);
        errors = e;
        if matches!(action, RoundAction::Stop) {
            break;
        }
    }
    assert_eq!(run, 4);
    assert_eq!(errors, 0);
    assert!(matches!(after_round(0, &rounds[0]), (1, RoundAction::Wait)));
    assert!(matches!(after_round(0, &rounds[2]), (0, RoundAction::Relogin)));
}
