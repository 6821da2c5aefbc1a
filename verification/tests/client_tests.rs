use zust_core::client::{
    api_url, course_page_end, course_tabs, extract_items, grades_form, json_reply, next_course_page,
    page_reply, part_display_form, post_page_reply, selected_courses_form, session_valid, enroll_form,
    JWClient,
};
use zust_core::error::ZustError;
use zust_core::json::Json;
use zust_core::types::StudentContext;

fn pairs(list: &[(&str, &str)]) -> Vec<(String, String)> {
    list.iter().map(|(k, v)| (k.to_string(), v.to_string())).collect()
}

fn ctx() -> StudentContext {
    StudentContext {
        bh_id: "12510252".to_string(),
        njdm_id: "2025".to_string(),
        zyh_id: "1024".to_string(),
        jg_id: "0A1B".to_string(),
        xkxnm: "2026".to_string(),
        xkxqm: "3".to_string(),
    }
}

#[test]
fn client_reads_its_login_state() {
    let c = JWClient::new(&pairs(&[("_csrf", "tok"), ("_main_url", "https://m/"), ("JSESSIONID", "j")])).unwrap();
    assert_eq!(c.csrf, "tok");
    assert_eq!(c.main_url, "https://m/");
    assert_eq!(c.ctx.bh_id, "");
    let d = JWClient::new(&[]).unwrap();
    assert_eq!(d.csrf, "");
    assert_eq!(d.main_url, "https://newjwxt.zust.edu.cn/jwglxt/xtgl/index_initMenu.html");
}

#[test]
fn update_state_keeps_the_context() {
    let mut c = JWClient::new(&[]).unwrap();
    c.ctx = ctx();
    c.update_state(&pairs(&[("_csrf", "new")])).unwrap();
    assert_eq!(c.csrf, "new");
    assert_eq!(c.ctx.bh_id, "12510252");
    assert!(c.session.has_cookie("_csrf"));
}

#[test]
fn headers_of_api_requests() {
    let c = JWClient::new(&pairs(&[("_csrf", "tok")])).unwrap();
    let h = c.api_headers();
    assert_eq!(h[3], ("Csrf-Token".to_string(), "tok".to_string()));
    assert_eq!(c.page_headers()[0].1, "text/html, */*; q=0.01");
    assert_eq!(c.index_headers().len(), 5);
}

#[test]
fn forms_keep_their_field_order() {
    let g = grades_form("2024", "3");
    assert_eq!(g, pairs(&[
        ("xnm", "2024"),
        ("xqm", "3"),
        ("queryModel.showCount", "500"),
        ("queryModel.currentPage", "1"),
        ("queryModel.sortName", ""),
        ("queryModel.sortOrder", "asc"),
    ]));
    let p = part_display_form("X", "01", &ctx(), 71, 140);
    assert_eq!(p.len(), 47);
    assert_eq!(p[7], ("jg_id".to_string(), "0A1B".to_string()));
    assert_eq!(p[44], ("kspage".to_string(), "71".to_string()));
    assert_eq!(p[45], ("jspage".to_string(), "140".to_string()));
    let s = selected_courses_form(&ctx());
    assert_eq!(s[10], ("xkly".to_string(), "1".to_string()));
    let e = enroll_form("J", "K", "名", "X", "01", "2026", "3", "2025", "1024");
    assert_eq!(e.len(), 19);
    assert_eq!(e[18], ("jcxx_id".to_string(), String::new()));
}

#[test]
fn api_urls() {
    assert_eq!(api_url("a/b.html"), "https://newjwxt.zust.edu.cn/jwglxt/a/b.html");
}

#[test]
fn replies_that_are_not_json() {
    let r = json_reply("<html>bh_id</html>");
    assert_eq!(r.get_str("_raw"), Some("<html>bh_id</html>"));
    let long = "x".repeat(2500);
    assert_eq!(json_reply(&long).get_str("_raw").unwrap().len(), 2000);
    assert_eq!(page_reply("<p>").get_str("_html"), Some("<p>"));
    assert_eq!(post_page_reply("  {bad").get_str("_html"), Some("  {bad"));
    assert!(matches!(post_page_reply(" [1] "), Json::Array(_)));
    assert_eq!(post_page_reply("1").get_str("_html"), Some("1"));
}

#[test]
fn session_checks() {
    assert!(session_valid(&Ok(json_reply(r#"{"xm":"a"}"#))));
    assert!(session_valid(&Ok(json_reply("<input name=\"bh_id\">"))));
    assert!(!session_valid(&Ok(json_reply("<html>login</html>"))));
    assert!(!session_valid(&Err(ZustError::SessionExpired)));
}

#[test]
fn student_context_from_the_page() {
    let html = r#"<input type="hidden" name="bh_id" id="bh_id" value="12510252"/>
<input type="hidden" name="jg_id" id="jg_id" value="0A1b2C"/>
<input type="hidden" name="xkxqm" id="xkxqm" value="3"/>"#;
    let c = JWClient::new(&[]).unwrap();
    let ctx = c.get_student_context(html);
    assert_eq!(ctx.bh_id, "12510252");
    assert_eq!(ctx.jg_id, "0A1b2C");
    assert_eq!(ctx.xkxqm, "3");
    assert_eq!(ctx.njdm_id, "");
}

#[test]
fn course_tabs_from_the_page() {
    let html = r##"<li><a href="#" onclick="queryCourse(this, '01', 'A1B2C3D4E5F6A1B2C3D4E5F6A1B2C3D4', '2025', '1024')"> 主修课程 </a></li>
<li><a onclick="queryCourse(this,'10','FFFFFFFFFFFFFFFFFFFFFFFFFFFFFFFF','2025','1024')">通识选修</a>"##;
    let tabs = course_tabs(html);
    assert_eq!(tabs.len(), 2);
    assert_eq!(tabs[0].kklxdm, "01");
    assert_eq!(tabs[0].name, "主修课程");
    assert_eq!(tabs[1].xkkz_id, "FFFFFFFFFFFFFFFFFFFFFFFFFFFFFFFF");
}

#[test]
fn items_of_a_course_list() {
    let v = json_reply(r#"{"rows":[{"a":1},{"a":2}]}"#);
    assert_eq!(extract_items(&v).len(), 2);
    let w = json_reply(r#"{"items":"x","tmpList":[1]}"#);
    assert_eq!(extract_items(&w).len(), 1);
    assert_eq!(extract_items(&json_reply("[]")).len(), 0);
}

#[test]
fn course_paging() {
    assert_eq!(course_page_end(1), 70);
    assert_eq!(next_course_page(1, 0, 70), (70, Some(71)));
    assert_eq!(next_course_page(71, 70, 0), (0, None));
    assert_eq!(next_course_page(421, 420, 70), (70, Some(491)));
    // The eighth page would pass 500 courses: only 10 of it are kept.
    assert_eq!(next_course_page(491, 490, 70), (10, None));
    assert_eq!(next_course_page(491, 490, 3), (3, Some(561)));
}
