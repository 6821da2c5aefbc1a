use zust_core::client::json_reply;
use zust_core::json::Json;
use zust_core::types::GradeEntry;
use zust_core::views::{
    group_semesters, parse_exams, parse_grade_courses, parse_schedule, parse_user_info,
    relogin_credentials, stored_credentials, str_val, user_info_usable,
};

fn json(text: &str) -> Json {
    let v = json_reply(text);
    assert!(v.get("_raw").is_none());
    v
}

#[test]
fn first_non_blank_member() {
    let v = json(r#"{"xsxm":"  ","xm":" 张三 "}"#);
    assert_eq!(str_val(&v, &["xsxm", "xm"], "-"), "张三");
    assert_eq!(str_val(&v, &["nope"], "-"), "-");
}

#[test]
fn user_info() {
    let u = parse_user_info(json(r#"{"xm":"李四","xh_id":"2023001","zymc":{"mc":"计算机"}}"#));
    assert_eq!(u.name, "李四");
    assert_eq!(u.student_id, "2023001");
    assert_eq!(u.department, "计算机");
    let v = parse_user_info(json(r#"{"bm":"信息学院"}"#));
    assert_eq!(v.department, "信息学院");
    assert_eq!(v.name, "-");
    let w = parse_user_info(json(r#"{"zymc":3,"bm":"x"}"#));
    assert_eq!(w.department, "-");
    assert!(user_info_usable(&w.raw));
}

#[test]
fn exams() {
    let e = parse_exams(&json(r#"{"items":[{"kcmc":"高数","kssj":"2025-01-01","cdbh":"A101","zwh":"12"}]}"#));
    assert_eq!(e.len(), 1);
    assert_eq!(e[0].course_name, "高数");
    assert_eq!(e[0].location, "A101");
    assert_eq!(e[0].seat, "12");
    assert!(parse_exams(&json(r#"{"rows":[]}"#)).is_empty());
}

#[test]
fn schedule_keeps_the_first_of_each_slot() {
    let raw = json(r#"{"kbList":[
        {"xqjmc":"星期一","jcs":"1-2","kcmc":"高数","jsxm":"王","cdmc":"A1","zcd":"1-16周"},
        {"xqjmc":"星期一","jcs":"1-2","kcmc":"高数","jsxm":"李","cdmc":"A1","zcd":"1-16周"},
        {"kbList":[{"xqjmc":"星期二","jcs":"3-4","kcmc":"英语"},{"xqjmc":"星期一","jcs":"1-2","kcmc":"高数","cdmc":"A1","zcd":"1-16周"}]}
    ]}"#);
    let s = parse_schedule(&raw);
    assert_eq!(s.len(), 2);
    assert_eq!(s[0].teacher, "王");
    assert_eq!(s[1].course_name, "英语");
    assert_eq!(s[1].day, "星期二");
}

#[test]
fn grades_from_data_rows() {
    let raw = json(r#"{"data":{"rows":[{"kcmc":"高数","cj":"90","xf":"4","jd":"4.0","xnm":"2024","xqm":"3","xqmmc":"1"}]}}"#);
    let g = parse_grade_courses(&raw);
    assert_eq!(g.len(), 1);
    assert_eq!(g[0].name, "高数");
    assert_eq!(g[0].score, "90");
    assert_eq!(g[0].remark, "");
    let top = parse_grade_courses(&json(r#"{"items":[{"name":"物理"}],"data":[{"name":"x"}]}"#));
    assert_eq!(top[0].name, "物理");
    let arr = parse_grade_courses(&json(r#"{"data":[{"name":"x"},{"name":"y"}]}"#));
    assert_eq!(arr.len(), 2);
}

fn course(name: &str, year: &str, term: &str, term_name: &str) -> GradeEntry {
    GradeEntry {
        name: name.to_string(),
        year: year.to_string(),
        term: term.to_string(),
        term_name: term_name.to_string(),
        ..GradeEntry::default()
    }
}

#[test]
fn semesters_latest_first() {
    let courses = vec![
        course("a", "2023", "3", "1"),
        course("b", "2024", "12", "2"),
        course("c", "2023", "3", "1"),
        course("d", "2024", "3", "1"),
    ];
    let groups = group_semesters(&courses);
    let keys: Vec<&str> = groups.iter().map(|g| g.key.as_str()).collect();
    assert_eq!(keys, vec!["2024-3-1", "2024-12-2", "2023-3-1"]);
    assert_eq!(groups[2].courses.len(), 2);
    assert_eq!(groups[2].courses[1].name, "c");
    assert_eq!(groups[1].year, "2024");
    assert_eq!(groups[1].term, "12");
    assert_eq!(groups[1].term_name, "2");
}

#[test]
fn credentials() {
    let t = r#"{"username":"u","cas_password":"c","wisedu_password":"w"}"#;
    assert_eq!(stored_credentials(t), Some(("u".to_string(), "c".to_string(), "w".to_string())));
    assert_eq!(stored_credentials(r#"{"username":"u"}"#), None);
    assert_eq!(
        relogin_credentials(r#"{"username":"u","cas_password":"c"}"#).unwrap(),
        ("u".to_string(), "c".to_string(), "c".to_string())
    );
    assert_eq!(relogin_credentials(r#"{"cas_password":"c"}"#).unwrap_err(), "no username in creds");
    assert!(relogin_credentials("nope").is_err());
}
