//! Reading the academic-affairs replies into the records that the
//! application shows.
use vstd::prelude::*;
use crate::json::{Json, json_parse, parse_json};
use crate::text::{concat, trim, trim_spec, text_less, text_before, lemma_text_less_total, lemma_text_less_trans, dash_field, nth_dash_field};
use crate::types::{ExamEntry, GradeEntry, ScheduleEntry, UserInfo};

verus! {

broadcast use vstd::string::group_string_axioms;

/// The text member of `v` under the first of `keys` whose trimmed text is
/// not empty, trimmed; `default` when there is none.
pub open spec fn first_text(v: Json, keys: Seq<Seq<char>>, default: Seq<char>) -> Seq<char>
    decreases keys.len(),
{
    if keys.len() == 0 {
        default
    } else {
        match v.str_field(keys[0]) {
            Some(s) => if trim_spec(s).len() > 0 {
                trim_spec(s)
            } else {
                first_text(v, keys.drop_first(), default)
            },
            None => first_text(v, keys.drop_first(), default),
        }
    }
}

/// The texts of a list of keys.
pub open spec fn key_texts(keys: Seq<&str>) -> Seq<Seq<char>> {
    keys.map_values(|k: &str| k@)
}

/// The text member of `v` under the first of `keys` whose trimmed text is
/// not empty, trimmed; `default` when there is none.
pub fn str_val(v: &Json, keys: &[&str], default: &str) -> (r: String)
    ensures
        r@ == first_text(*v, key_texts(keys@), default@),
{
    let mut i: usize = 0;
    assert(key_texts(keys@).skip(0) =~= key_texts(keys@));
    while i < keys.len()
        invariant
            i <= keys@.len(),
            first_text(*v, key_texts(keys@), default@) == first_text(*v, key_texts(keys@).skip(i as int), default@),
        decreases keys.len() - i,
    {
        assert(key_texts(keys@).skip(i as int).drop_first() =~= key_texts(keys@).skip(i + 1));
        assert(key_texts(keys@).skip(i as int)[0] == keys@[i as int]@);
        if let Some(s) = v.get_str(keys[i]) {
            let t = trim(s);
            if t.unicode_len() > 0 {
                return t;
            }
        }
        i += 1;
    }
    assert(key_texts(keys@).skip(i as int).len() == 0);
    default.to_string()
}

/// The student's name in the user-information reply, or `-`.
pub open spec fn name_of(raw: Json) -> Seq<char> {
    first_text(raw, seq!["xsxm"@, "xm"@], "-"@)
}

/// The student number in the user-information reply, or `-`.
pub open spec fn student_id_of(raw: Json) -> Seq<char> {
    first_text(raw, seq!["xsdm"@, "xh"@, "xh_id"@], "-"@)
}

/// The department in the user-information reply: the member `zymc`, else
/// `bm`; its `mc` text when it is an object, else its own text; `-` when
/// there is none.
pub open spec fn department_of(raw: Json) -> Seq<char> {
    let d = match raw.spec_get("zymc"@) {
        Some(v) => Some(v),
        None => raw.spec_get("bm"@),
    };
    match d {
        Some(v) => {
            let t = if v.is_object() {
                v.str_field("mc"@)
            } else {
                v.as_text()
            };
            match t {
                Some(x) => x,
                None => "-"@,
            }
        },
        None => "-"@,
    }
}

/// The department in the user-information reply.
fn department(raw: &Json) -> (r: String)
    ensures
        r@ == department_of(*raw),
{
    let d = match raw.get("zymc") {
        Some(v) => Some(v),
        None => raw.get("bm"),
    };
    match d {
        Some(v) => {
            let t = match v {
                Json::Object(_) => v.get_str("mc"),
                Json::Str(x) => Some(x.as_str()),
                _ => None,
            };
            match t {
                Some(x) => x.to_string(),
                None => "-".to_string(),
            }
        },
        None => "-".to_string(),
    }
}

/// The user information that a reply of the academic-affairs system
/// carries; the reply itself is kept.
pub fn parse_user_info(raw: Json) -> (r: UserInfo)
    ensures
        r.name@ == name_of(raw),
        r.student_id@ == student_id_of(raw),
        r.department@ == department_of(raw),
        r.raw == raw,
{
    let name = str_val(&raw, &["xsxm", "xm"], "-");
    assert(key_texts(["xsxm", "xm"]@) =~= seq!["xsxm"@, "xm"@]);
    let student_id = str_val(&raw, &["xsdm", "xh", "xh_id"], "-");
    assert(key_texts(["xsdm", "xh", "xh_id"]@) =~= seq!["xsdm"@, "xh"@, "xh_id"@]);
    let department = department(&raw);
    UserInfo { name, student_id, department, raw }
}

/// `e` is the exam arrangement that the row `c` describes.
pub open spec fn exam_from(c: Json, e: ExamEntry) -> bool {
    &&& e.course_name@ == first_text(c, seq!["kcmc"@, "courseName"@], ""@)
    &&& e.datetime@ == first_text(c, seq!["kssj"@, "datetime"@], ""@)
    &&& e.location@ == first_text(c, seq!["cdmc"@, "cdbh"@, "location"@], ""@)
    &&& e.seat@ == first_text(c, seq!["zwh"@, "seat"@], ""@)
}

/// The exam arrangement that a row describes.
fn exam_entry(c: &Json) -> (r: ExamEntry)
    ensures
        exam_from(*c, r),
{
    let course_name = str_val(c, &["kcmc", "courseName"], "");
    assert(key_texts(["kcmc", "courseName"]@) =~= seq!["kcmc"@, "courseName"@]);
    let datetime = str_val(c, &["kssj", "datetime"], "");
    assert(key_texts(["kssj", "datetime"]@) =~= seq!["kssj"@, "datetime"@]);
    let location = str_val(c, &["cdmc", "cdbh", "location"], "");
    assert(key_texts(["cdmc", "cdbh", "location"]@) =~= seq!["cdmc"@, "cdbh"@, "location"@]);
    let seat = str_val(c, &["zwh", "seat"], "");
    assert(key_texts(["zwh", "seat"]@) =~= seq!["zwh"@, "seat"@]);
    ExamEntry { course_name, datetime, location, seat }
}

/// The rows of an exam reply: its `items` array, or none.
pub open spec fn exam_rows(raw: Json) -> Seq<Json> {
    match raw.array_field("items"@) {
        Some(a) => a,
        None => Seq::<Json>::empty(),
    }
}

/// The exam arrangements of an exam reply, one per row, in order.
pub fn parse_exams(raw: &Json) -> (r: Vec<ExamEntry>)
    ensures
        r@.len() == exam_rows(*raw).len(),
        forall|i: int| 0 <= i < r@.len() ==> exam_from(exam_rows(*raw)[i], #[trigger] r@[i]),
{
    let mut out: Vec<ExamEntry> = Vec::new();
    if let Some(rows) = raw.get_array("items") {
        let mut i: usize = 0;
        while i < rows.len()
            invariant
                i <= rows@.len(),
                rows@ == exam_rows(*raw),
                out@.len() == i,
                forall|k: int| 0 <= k < i ==> exam_from(rows@[k], #[trigger] out@[k]),
            decreases rows.len() - i,
        {
            out.push(exam_entry(&rows[i]));
            i += 1;
        }
    }
    out
}

/// `e` is the timetable slot that the row `c` describes.
pub open spec fn schedule_from(c: Json, e: ScheduleEntry) -> bool {
    &&& e.day@ == first_text(c, seq!["xqjmc"@, "day"@], ""@)
    &&& e.sessions@ == first_text(c, seq!["jcs"@, "sessions"@], ""@)
    &&& e.course_name@ == first_text(c, seq!["kcmc"@, "courseName"@], ""@)
    &&& e.teacher@ == first_text(c, seq!["jsxm"@, "teacher"@], ""@)
    &&& e.location@ == first_text(c, seq!["cdmc"@, "location"@], ""@)
    &&& e.weeks@ == first_text(c, seq!["zcd"@, "weeks"@], ""@)
}

/// What makes two timetable slots the same: day, sessions, course,
/// location and weeks, joined by `|` (the teacher does not count).
pub open spec fn schedule_key(c: Json) -> Seq<char> {
    first_text(c, seq!["xqjmc"@, "day"@], ""@) + "|"@
        + first_text(c, seq!["jcs"@, "sessions"@], ""@) + "|"@
        + first_text(c, seq!["kcmc"@, "courseName"@], ""@) + "|"@
        + first_text(c, seq!["cdmc"@, "location"@], ""@) + "|"@
        + first_text(c, seq!["zcd"@, "weeks"@], ""@)
}

/// The timetable slot that a row describes, and the key that tells slots
/// apart.
fn schedule_entry(c: &Json) -> (r: (ScheduleEntry, String))
    ensures
        schedule_from(*c, r.0),
        r.1@ == schedule_key(*c),
{
    let day = str_val(c, &["xqjmc", "day"], "");
    assert(key_texts(["xqjmc", "day"]@) =~= seq!["xqjmc"@, "day"@]);
    let sessions = str_val(c, &["jcs", "sessions"], "");
    assert(key_texts(["jcs", "sessions"]@) =~= seq!["jcs"@, "sessions"@]);
    let course_name = str_val(c, &["kcmc", "courseName"], "");
    assert(key_texts(["kcmc", "courseName"]@) =~= seq!["kcmc"@, "courseName"@]);
    let teacher = str_val(c, &["jsxm", "teacher"], "");
    assert(key_texts(["jsxm", "teacher"]@) =~= seq!["jsxm"@, "teacher"@]);
    let location = str_val(c, &["cdmc", "location"], "");
    assert(key_texts(["cdmc", "location"]@) =~= seq!["cdmc"@, "location"@]);
    let weeks = str_val(c, &["zcd", "weeks"], "");
    assert(key_texts(["zcd", "weeks"]@) =~= seq!["zcd"@, "weeks"@]);
    let mut key = concat(day.as_str(), "|");
    key = concat(key.as_str(), sessions.as_str());
    key = concat(key.as_str(), "|");
    key = concat(key.as_str(), course_name.as_str());
    key = concat(key.as_str(), "|");
    key = concat(key.as_str(), location.as_str());
    key = concat(key.as_str(), "|");
    key = concat(key.as_str(), weeks.as_str());
    (ScheduleEntry { day, sessions, course_name, teacher, location, weeks }, key)
}

/// The rows of a timetable reply: its `kbList` array, else its `items`
/// array, else none.
pub open spec fn schedule_rows(raw: Json) -> Seq<Json> {
    match raw.array_field("kbList"@) {
        Some(a) => a,
        None => match raw.array_field("items"@) {
            Some(a) => a,
            None => Seq::<Json>::empty(),
        },
    }
}

/// The rows that a row stands for: its own `kbList` array when it has one,
/// else itself.
pub open spec fn row_slots(c: Json) -> Seq<Json> {
    match c.array_field("kbList"@) {
        Some(a) => a,
        None => seq![c],
    }
}

/// Every slot row of a timetable, the nested lists expanded in order.
pub open spec fn slot_rows(rows: Seq<Json>) -> Seq<Json>
    decreases rows.len(),
{
    if rows.len() == 0 {
        Seq::<Json>::empty()
    } else {
        slot_rows(rows.drop_last()) + row_slots(rows.last())
    }
}

/// The keys of a list of slot rows.
pub open spec fn slot_keys(s: Seq<Json>) -> Seq<Seq<char>> {
    s.map_values(|c: Json| schedule_key(c))
}

/// The slot rows that are kept: each one whose key no earlier row had.
pub open spec fn first_of_each_key(s: Seq<Json>) -> Seq<Json>
    decreases s.len(),
{
    if s.len() == 0 {
        Seq::<Json>::empty()
    } else if slot_keys(s.drop_last()).contains(schedule_key(s.last())) {
        first_of_each_key(s.drop_last())
    } else {
        first_of_each_key(s.drop_last()).push(s.last())
    }
}

/// A pushed sequence holds what the sequence held, and the pushed element.
proof fn lemma_push_contains(q: Seq<Seq<char>>, x: Seq<char>, k: Seq<char>)
    ensures
        q.push(x).contains(k) == (q.contains(k) || x == k),
{
    if q.push(x).contains(k) {
        let j = choose|j: int| 0 <= j < q.push(x).len() && q.push(x)[j] == k;
        if j < q.len() {
            assert(q[j] == k);
        }
    }
    if q.contains(k) {
        let j = choose|j: int| 0 <= j < q.len() && q[j] == k;
        assert(q.push(x)[j] == k);
    }
    if x == k {
        assert(q.push(x)[q.len() as int] == k);
    }
}

/// The kept rows have the same keys as all the rows.
pub proof fn lemma_kept_keys(s: Seq<Json>, k: Seq<char>)
    ensures
        slot_keys(first_of_each_key(s)).contains(k) == slot_keys(s).contains(k),
    decreases s.len(),
{
    if s.len() > 0 {
        let p = s.drop_last();
        lemma_kept_keys(p, k);
        assert(slot_keys(s) =~= slot_keys(p).push(schedule_key(s.last())));
        lemma_push_contains(slot_keys(p), schedule_key(s.last()), k);
        if !slot_keys(p).contains(schedule_key(s.last())) {
            assert(slot_keys(first_of_each_key(s)) =~= slot_keys(first_of_each_key(p)).push(
                schedule_key(s.last()),
            ));
            lemma_push_contains(slot_keys(first_of_each_key(p)), schedule_key(s.last()), k);
        }
    } else {
        assert(slot_keys(s) =~= Seq::<Seq<char>>::empty());
    }
}

/// What the timetable reading holds after some slot rows `done`: the slots
/// of the rows kept so far, and their keys.
pub open spec fn slots_read(out: Seq<ScheduleEntry>, seen: Seq<String>, done: Seq<Json>) -> bool {
    &&& out.len() == first_of_each_key(done).len()
    &&& forall|i: int| 0 <= i < out.len() ==> schedule_from(first_of_each_key(done)[i], #[trigger] out[i])
    &&& seen.map_values(|t: String| t@) == slot_keys(first_of_each_key(done))
}

/// Whether `t` is among the texts of `v`.
fn has_text(v: &Vec<String>, t: &str) -> (r: bool)
    ensures
        r == v@.map_values(|x: String| x@).contains(t@),
{
    let ghost texts = v@.map_values(|x: String| x@);
    let mut i: usize = 0;
    while i < v.len()
        invariant
            i <= v@.len(),
            texts == v@.map_values(|x: String| x@),
            forall|k: int| 0 <= k < i ==> texts[k] != t@,
        decreases v.len() - i,
    {
        if crate::json::str_eq(v[i].as_str(), t) {
            assert(texts[i as int] == t@);
            return true;
        }
        i += 1;
    }
    false
}

/// Reads one more slot row.
fn read_slot(out: &mut Vec<ScheduleEntry>, seen: &mut Vec<String>, c: &Json, Ghost(done): Ghost<Seq<Json>>)
    requires
        slots_read(old(out)@, old(seen)@, done),
    ensures
        slots_read(final(out)@, final(seen)@, done.push(*c)),
{
    let ghost next = done.push(*c);
    assert(next.drop_last() =~= done);
    let (entry, key) = schedule_entry(c);
    proof {
        lemma_kept_keys(done, key@);
    }
    if has_text(seen, key.as_str()) {
        assert(slot_keys(done).contains(schedule_key(*c)));
        assert(first_of_each_key(next) == first_of_each_key(done));
    } else {
        assert(!slot_keys(done).contains(schedule_key(*c)));
        assert(first_of_each_key(next) == first_of_each_key(done).push(*c));
        let ghost seen_before = seen@;
        out.push(entry);
        seen.push(key);
        assert(seen@.map_values(|t: String| t@) =~= seen_before.map_values(|t: String| t@).push(key@));
        assert(slot_keys(first_of_each_key(done).push(*c)) =~= slot_keys(first_of_each_key(done)).push(
            schedule_key(*c),
        ));
    }
}

/// The timetable slots of a reply: every slot row (nested lists
/// expanded), keeping the first of the rows with one key, in order.
pub fn parse_schedule(raw: &Json) -> (r: Vec<ScheduleEntry>)
    ensures
        r@.len() == first_of_each_key(slot_rows(schedule_rows(*raw))).len(),
        forall|i: int|
            0 <= i < r@.len() ==> schedule_from(first_of_each_key(slot_rows(schedule_rows(*raw)))[i], #[trigger] r@[i]),
{
    let mut out: Vec<ScheduleEntry> = Vec::new();
    let mut seen: Vec<String> = Vec::new();
    let empty: Vec<Json> = Vec::new();
    let rows: &Vec<Json> = match raw.get_array("kbList") {
        Some(a) => a,
        None => match raw.get_array("items") {
            Some(a) => a,
            None => &empty,
        },
    };
    assert(rows@ == schedule_rows(*raw));
    assert(slot_keys(Seq::<Json>::empty()) =~= Seq::<Seq<char>>::empty());
    assert(seen@.map_values(|t: String| t@) =~= Seq::<Seq<char>>::empty());
    let mut i: usize = 0;
    while i < rows.len()
        invariant
            i <= rows@.len(),
            rows@ == schedule_rows(*raw),
            slots_read(out@, seen@, slot_rows(rows@.take(i as int))),
        decreases rows.len() - i,
    {
        let c = &rows[i];
        let ghost before = slot_rows(rows@.take(i as int));
        assert(rows@.take(i as int + 1).drop_last() =~= rows@.take(i as int));
        assert(rows@.take(i as int + 1).last() == *c);
        match c.get_array("kbList") {
            Some(nested) => {
                let mut j: usize = 0;
                assert(before + nested@.take(0) =~= before);
                while j < nested.len()
                    invariant
                        j <= nested@.len(),
                        slots_read(out@, seen@, before + nested@.take(j as int)),
                    decreases nested.len() - j,
                {
                    read_slot(&mut out, &mut seen, &nested[j], Ghost(before + nested@.take(j as int)));
                    assert((before + nested@.take(j as int)).push(nested@[j as int]) =~= before + nested@.take(j + 1));
                    j += 1;
                }
                assert(nested@.take(nested@.len() as int) =~= nested@);
                assert(row_slots(*c) == nested@);
            },
            None => {
                read_slot(&mut out, &mut seen, c, Ghost(before));
                assert(row_slots(*c) == seq![*c]);
                assert(before.push(*c) =~= before + seq![*c]);
            },
        }
        i += 1;
    }
    assert(rows@.take(rows@.len() as int) =~= rows@);
    out
}

/// The rows of a grades reply: its `items` array; else the `items` (or,
/// without `items`, the `rows`) member of its `data`, when that is an
/// array; else its `data` array; else none.
pub open spec fn grade_rows(raw: Json) -> Seq<Json> {
    let data = raw.spec_get("data"@);
    let nested = match data {
        Some(d) => match d.spec_get("items"@) {
            Some(x) => x.spec_array(),
            None => match d.spec_get("rows"@) {
                Some(x) => x.spec_array(),
                None => None,
            },
        },
        None => None,
    };
    match raw.array_field("items"@) {
        Some(a) => a,
        None => match nested {
            Some(a) => a,
            None => match data {
                Some(d) => match d.spec_array() {
                    Some(a) => a,
                    None => Seq::<Json>::empty(),
                },
                None => Seq::<Json>::empty(),
            },
        },
    }
}

/// `e` is the graded course that the row `c` describes.
pub open spec fn grade_from(c: Json, e: GradeEntry) -> bool {
    &&& e.name@ == first_text(c, seq!["kcmc"@, "courseName"@, "name"@], ""@)
    &&& e.score@ == first_text(c, seq!["cj"@, "score"@, "bfzcj"@], ""@)
    &&& e.credit@ == first_text(c, seq!["xf"@, "credit"@], ""@)
    &&& e.point@ == first_text(c, seq!["jd"@, "point"@], ""@)
    &&& e.nature@ == first_text(c, seq!["kcgsmc"@, "nature"@], ""@)
    &&& e.course_type@ == first_text(c, seq!["kclbmc"@, "type"@], ""@)
    &&& e.term_name@ == first_text(c, seq!["xqmmc"@, "termName"@], ""@)
    &&& e.year@ == first_text(c, seq!["xnm"@, "year"@], ""@)
    &&& e.term@ == first_text(c, seq!["xqm"@, "term"@], ""@)
    &&& e.remark@ == Seq::<char>::empty()
}

/// The graded course that a row describes.
fn grade_entry(c: &Json) -> (r: GradeEntry)
    ensures
        grade_from(*c, r),
{
    let name = str_val(c, &["kcmc", "courseName", "name"], "");
    assert(key_texts(["kcmc", "courseName", "name"]@) =~= seq!["kcmc"@, "courseName"@, "name"@]);
    let score = str_val(c, &["cj", "score", "bfzcj"], "");
    assert(key_texts(["cj", "score", "bfzcj"]@) =~= seq!["cj"@, "score"@, "bfzcj"@]);
    let credit = str_val(c, &["xf", "credit"], "");
    assert(key_texts(["xf", "credit"]@) =~= seq!["xf"@, "credit"@]);
    let point = str_val(c, &["jd", "point"], "");
    assert(key_texts(["jd", "point"]@) =~= seq!["jd"@, "point"@]);
    let nature = str_val(c, &["kcgsmc", "nature"], "");
    assert(key_texts(["kcgsmc", "nature"]@) =~= seq!["kcgsmc"@, "nature"@]);
    let course_type = str_val(c, &["kclbmc", "type"], "");
    assert(key_texts(["kclbmc", "type"]@) =~= seq!["kclbmc"@, "type"@]);
    let term_name = str_val(c, &["xqmmc", "termName"], "");
    assert(key_texts(["xqmmc", "termName"]@) =~= seq!["xqmmc"@, "termName"@]);
    let year = str_val(c, &["xnm", "year"], "");
    assert(key_texts(["xnm", "year"]@) =~= seq!["xnm"@, "year"@]);
    let term = str_val(c, &["xqm", "term"], "");
    assert(key_texts(["xqm", "term"]@) =~= seq!["xqm"@, "term"@]);
    GradeEntry { name, score, credit, point, nature, course_type, term_name, year, term, remark: String::new() }
}

/// The graded courses of a grades reply, one per row, in order.
pub fn parse_grade_courses(raw: &Json) -> (r: Vec<GradeEntry>)
    ensures
        r@.len() == grade_rows(*raw).len(),
        forall|i: int| 0 <= i < r@.len() ==> grade_from(grade_rows(*raw)[i], #[trigger] r@[i]),
{
    let empty: Vec<Json> = Vec::new();
    let data = raw.get("data");
    let nested: Option<&Vec<Json>> = match data {
        Some(d) => match d.get("items") {
            Some(x) => x.as_array(),
            None => match d.get("rows") {
                Some(x) => x.as_array(),
                None => None,
            },
        },
        None => None,
    };
    let rows: &Vec<Json> = match raw.get_array("items") {
        Some(a) => a,
        None => match nested {
            Some(a) => a,
            None => match data {
                Some(d) => match d.as_array() {
                    Some(a) => a,
                    None => &empty,
                },
                None => &empty,
            },
        },
    };
    assert(rows@ == grade_rows(*raw));
    let mut out: Vec<GradeEntry> = Vec::new();
    let mut i: usize = 0;
    while i < rows.len()
        invariant
            i <= rows@.len(),
            rows@ == grade_rows(*raw),
            out@.len() == i,
            forall|k: int| 0 <= k < i ==> grade_from(rows@[k], #[trigger] out@[k]),
        decreases rows.len() - i,
    {
        out.push(grade_entry(&rows[i]));
        i += 1;
    }
    out
}


/// The graded courses of one semester.
#[derive(Debug)]
pub struct SemesterCourses {
    pub key: String,
    pub year: String,
    pub term: String,
    pub term_name: String,
    pub courses: Vec<GradeEntry>,
}

/// The semester of a graded course: year, term and term name joined by `-`.
pub open spec fn semester_key(e: GradeEntry) -> Seq<char> {
    e.year@ + "-"@ + e.term@ + "-"@ + e.term_name@
}

/// Whether a course belongs to the semester `k`.
pub open spec fn in_semester(k: Seq<char>) -> spec_fn(GradeEntry) -> bool {
    |c: GradeEntry| semester_key(c) == k
}

/// `g` is the semester `g.key` of `courses`: the courses of that semester
/// in order (at least one), and the year, term and term name read back
/// from the key's `-`-separated fields.
pub open spec fn semester_from(courses: Seq<GradeEntry>, g: SemesterCourses) -> bool {
    &&& g.courses@ == courses.filter(in_semester(g.key@))
    &&& g.courses@.len() > 0
    &&& g.year@ == dash_field(g.key@, 0)
    &&& g.term@ == dash_field(g.key@, 1)
    &&& g.term_name@ == dash_field(g.key@, 2)
}

/// `groups` are the semesters of `courses`: one per semester that some
/// course belongs to, latest key first.
pub open spec fn semesters_of(courses: Seq<GradeEntry>, groups: Seq<SemesterCourses>) -> bool {
    &&& forall|a: int, b: int| 0 <= a < b < groups.len() ==> text_less(#[trigger] groups[b].key@, #[trigger] groups[a].key@)
    &&& forall|i: int| 0 <= i < groups.len() ==> semester_from(courses, #[trigger] groups[i])
    &&& forall|j: int| 0 <= j < courses.len() ==> has_semester(groups, semester_key(#[trigger] courses[j]))
}

/// Some group is the semester `k`.
pub open spec fn has_semester(groups: Seq<SemesterCourses>, k: Seq<char>) -> bool {
    exists|i: int| 0 <= i < groups.len() && (#[trigger] groups[i]).key@ == k
}

/// No course of `p` belongs to semester `k`: the semester has none of them.
proof fn lemma_filter_none(p: Seq<GradeEntry>, k: Seq<char>)
    requires
        forall|i: int| 0 <= i < p.len() ==> semester_key(#[trigger] p[i]) != k,
    ensures
        p.filter(in_semester(k)) == Seq::<GradeEntry>::empty(),
    decreases p.len(),
{
    if p.len() == 0 {
        assert(p.filter(in_semester(k)) =~= Seq::<GradeEntry>::empty()) by {
            reveal(Seq::filter);
        }
    } else {
        let q = p.drop_last();
        assert forall|i: int| 0 <= i < q.len() implies semester_key(#[trigger] q[i]) != k by {
            assert(q[i] == p[i]);
        }
        lemma_filter_none(q, k);
        assert(q.push(p.last()) =~= p);
        q.lemma_filter_push(p.last(), in_semester(k));
    }
}

/// A copy of a graded course.
fn copy_grade(e: &GradeEntry) -> (r: GradeEntry)
    ensures
        r == *e,
{
    GradeEntry {
        name: e.name.clone(),
        score: e.score.clone(),
        credit: e.credit.clone(),
        point: e.point.clone(),
        nature: e.nature.clone(),
        course_type: e.course_type.clone(),
        term_name: e.term_name.clone(),
        year: e.year.clone(),
        term: e.term.clone(),
        remark: e.remark.clone(),
    }
}

/// The semester of a graded course.
fn semester_key_of(e: &GradeEntry) -> (r: String)
    ensures
        r@ == semester_key(*e),
{
    let mut k = concat(e.year.as_str(), "-");
    k = concat(k.as_str(), e.term.as_str());
    k = concat(k.as_str(), "-");
    concat(k.as_str(), e.term_name.as_str())
}

/// The graded courses grouped by semester, latest semester first (by the
/// order of the key text), each group's courses in their order.
pub fn group_semesters(courses: &[GradeEntry]) -> (r: Vec<SemesterCourses>)
    ensures
        semesters_of(courses@, r@),
{
    let mut groups: Vec<SemesterCourses> = Vec::new();
    let mut i: usize = 0;
    while i < courses.len()
        invariant
            i <= courses@.len(),
            semesters_of(courses@.take(i as int), groups@),
        decreases courses.len() - i,
    {
        let ghost p = courses@.take(i as int);
        let ghost before = groups@;
        let c = copy_grade(&courses[i]);
        let k = semester_key_of(&c);
        assert(courses@.take(i as int + 1) =~= p.push(c));
        let mut j: usize = 0;
        while j < groups.len() && text_before(k.as_str(), groups[j].key.as_str())
            invariant
                j <= groups@.len(),
                groups@ == before,
                forall|a: int| 0 <= a < j ==> text_less(k@, #[trigger] before[a].key@),
            decreases groups.len() - j,
        {
            j += 1;
        }
        proof {
            assert forall|a: int, b: int| 0 <= a < b < before.len() implies before[a].key@ != before[b].key@ by {
                lemma_text_less_total(before[b].key@, before[a].key@);
                assert(text_less(before[b].key@, before[a].key@));
            }
        }
        if j < groups.len() && crate::json::str_eq(groups[j].key.as_str(), k.as_str()) {
            let mut g = groups.remove(j);
            let ghost g0 = g;
            g.courses.push(c);
            groups.insert(j, g);
            proof {
                assert(groups@ =~= before.update(j as int, g));
                p.lemma_filter_push(c, in_semester(k@));
                assert forall|a: int| 0 <= a < groups@.len() implies semester_from(p.push(c), #[trigger] groups@[a]) by {
                    if a != j {
                        assert(groups@[a] == before[a]);
                        assert(before[a].key@ != k@);
                        p.lemma_filter_push(c, in_semester(before[a].key@));
                    }
                }
                assert forall|x: int| 0 <= x < p.push(c).len() implies has_semester(groups@, semester_key(#[trigger] p.push(c)[x])) by {
                    if x < p.len() {
                        assert(p.push(c)[x] == p[x]);
                        assert(has_semester(before, semester_key(p[x])));
                        let a = choose|a: int| 0 <= a < before.len() && (#[trigger] before[a]).key@ == semester_key(p[x]);
                        assert(groups@[a].key@ == before[a].key@);
                    } else {
                        assert(groups@[j as int].key@ == semester_key(p.push(c)[x]));
                    }
                }
                assert forall|a: int, b: int| 0 <= a < b < groups@.len() implies text_less(#[trigger] groups@[b].key@, #[trigger] groups@[a].key@) by {
                    assert(groups@[a].key@ == before[a].key@);
                    assert(groups@[b].key@ == before[b].key@);
                }
                assert(semesters_of(p.push(c), groups@));
            }
        } else {
            let year = nth_dash_field(k.as_str(), 0);
            let term = nth_dash_field(k.as_str(), 1);
            let term_name = nth_dash_field(k.as_str(), 2);
            let mut list: Vec<GradeEntry> = Vec::new();
            list.push(c);
            let g = SemesterCourses { key: k, year, term, term_name, courses: list };
            proof {
                assert forall|a: int| 0 <= a < before.len() implies before[a].key@ != k@ by {
                    if a < j {
                        lemma_text_less_total(k@, before[a].key@);
                    } else {
                        lemma_text_less_total(k@, before[j as int].key@);
                        if a > j {
                            lemma_text_less_trans(before[a].key@, before[j as int].key@, k@);
                            lemma_text_less_total(before[a].key@, k@);
                        }
                    }
                }
                assert forall|x: int| 0 <= x < p.len() implies semester_key(#[trigger] p[x]) != k@ by {
                    assert(has_semester(before, semester_key(p[x])));
                    let a = choose|a: int| 0 <= a < before.len() && (#[trigger] before[a]).key@ == semester_key(p[x]);
                }
                lemma_filter_none(p, k@);
                p.lemma_filter_push(c, in_semester(k@));
                assert(g.courses@ =~= Seq::<GradeEntry>::empty().push(c));
            }
            groups.insert(j, g);
            proof {
                assert(groups@ =~= before.insert(j as int, g));
                assert forall|a: int| 0 <= a < groups@.len() implies semester_from(p.push(c), #[trigger] groups@[a]) by {
                    if a < j {
                        assert(groups@[a] == before[a]);
                        p.lemma_filter_push(c, in_semester(before[a].key@));
                    } else if a > j {
                        assert(groups@[a] == before[a - 1]);
                        p.lemma_filter_push(c, in_semester(before[a - 1].key@));
                    }
                }
                assert forall|x: int| 0 <= x < p.push(c).len() implies has_semester(groups@, semester_key(#[trigger] p.push(c)[x])) by {
                    if x < p.len() {
                        assert(p.push(c)[x] == p[x]);
                        assert(has_semester(before, semester_key(p[x])));
                        let a = choose|a: int| 0 <= a < before.len() && (#[trigger] before[a]).key@ == semester_key(p[x]);
                        if a < j {
                            assert(groups@[a].key@ == before[a].key@);
                        } else {
                            assert(groups@[a + 1].key@ == before[a].key@);
                        }
                    } else {
                        assert(groups@[j as int].key@ == semester_key(p.push(c)[x]));
                    }
                }
                assert forall|a: int, b: int| 0 <= a < b < groups@.len() implies text_less(#[trigger] groups@[b].key@, #[trigger] groups@[a].key@) by {
                    if b < j {
                        assert(groups@[a] == before[a]);
                        assert(groups@[b] == before[b]);
                    } else if b == j {
                        assert(groups@[a] == before[a]);
                    } else if a == j {
                        assert(groups@[b] == before[b - 1]);
                        lemma_text_less_total(k@, before[j as int].key@);
                        if b - 1 > j {
                            lemma_text_less_trans(before[b - 1].key@, before[j as int].key@, k@);
                        }
                    } else if a < j {
                        assert(groups@[a] == before[a]);
                        assert(groups@[b] == before[b - 1]);
                    } else {
                        assert(groups@[a] == before[a - 1]);
                        assert(groups@[b] == before[b - 1]);
                    }
                }
                assert(semesters_of(p.push(c), groups@));
            }
        }
        i += 1;
    }
    assert(courses@.take(courses@.len() as int) =~= courses@);
    groups
}


/// Whether a user-information reply can be shown: it is JSON (it carries
/// no `_raw` text).
pub fn user_info_usable(raw: &Json) -> (r: bool)
    ensures
        r == (raw.spec_get("_raw"@) is None),
{
    raw.get("_raw").is_none()
}

/// The saved credentials in the text of the credentials file: user name,
/// CAS password and academic-affairs password, each a string member; none
/// when the text is not JSON or one is missing.
pub fn stored_credentials(text: &str) -> (r: Option<(String, String, String)>)
    ensures
        match json_parse(text@) {
            Err(_) => r is None,
            Ok(v) => match (v.str_field("username"@), v.str_field("cas_password"@), v.str_field("wisedu_password"@)) {
                (Some(u), Some(c), Some(w)) => r matches Some(t) && t.0@ == u && t.1@ == c && t.2@ == w,
                _ => r is None,
            },
        },
{
    let v = match parse_json(text) {
        Ok(v) => v,
        Err(_) => {
            return None;
        },
    };
    let u = v.get_str("username")?;
    let c = v.get_str("cas_password")?;
    let w = v.get_str("wisedu_password")?;
    Some((u.to_string(), c.to_string(), w.to_string()))
}

/// The credentials for a new login in the background, from the text of the
/// credentials file: the user name is required; the CAS password defaults
/// to nothing, the academic-affairs password to the CAS password.
pub fn relogin_credentials(text: &str) -> (r: Result<(String, String, String), String>)
    ensures
        match json_parse(text@) {
            Err(e) => r matches Err(m) && m@ == e,
            Ok(v) => match v.str_field("username"@) {
                None => r matches Err(m) && m@ == "no username in creds"@,
                Some(u) => {
                    let c = match v.str_field("cas_password"@) {
                        Some(c) => c,
                        None => ""@,
                    };
                    let w = match v.str_field("wisedu_password"@) {
                        Some(w) => w,
                        None => c,
                    };
                    r matches Ok(t) && t.0@ == u && t.1@ == c && t.2@ == w
                },
            },
        },
{
    let v = match parse_json(text) {
        Ok(v) => v,
        Err(e) => {
            return Err(e);
        },
    };
    let u = match v.get_str("username") {
        Some(u) => u,
        None => {
            return Err("no username in creds".to_string());
        },
    };
    let c = match v.get_str("cas_password") {
        Some(c) => c,
        None => "",
    };
    let w = match v.get_str("wisedu_password") {
        Some(w) => w,
        None => c,
    };
    Ok((u.to_string(), c.to_string(), w.to_string()))
}


/// No two timetable slots that are kept share a key.
pub proof fn law_schedule_keys_distinct(s: Seq<Json>, i: int, j: int)
    requires
        0 <= i < j < first_of_each_key(s).len(),
    ensures
        schedule_key(first_of_each_key(s)[i]) != schedule_key(first_of_each_key(s)[j]),
    decreases s.len(),
{
    let p = s.drop_last();
    if slot_keys(p).contains(schedule_key(s.last())) {
        law_schedule_keys_distinct(p, i, j);
    } else {
        let f = first_of_each_key(p);
        if j < f.len() {
            law_schedule_keys_distinct(p, i, j);
        } else {
            lemma_kept_keys(p, schedule_key(s.last()));
            if schedule_key(f[i]) == schedule_key(s.last()) {
                assert(slot_keys(f)[i] == schedule_key(s.last()));
                assert(slot_keys(f).contains(schedule_key(s.last())));
            }
        }
    }
}

/// Every graded course is in exactly one semester group: the groups' keys
/// differ, and the group of the course's semester holds it.
pub proof fn law_one_semester_each(courses: Seq<GradeEntry>, groups: Seq<SemesterCourses>, j: int, a: int, b: int)
    requires
        semesters_of(courses, groups),
        0 <= j < courses.len(),
        0 <= a < groups.len(),
        0 <= b < groups.len(),
        groups[a].key@ == semester_key(courses[j]),
        groups[b].key@ == semester_key(courses[j]),
    ensures
        a == b,
        groups[a].courses@.contains(courses[j]),
{
    if a < b {
        assert(text_less(groups[b].key@, groups[a].key@));
        lemma_text_less_total(groups[a].key@, groups[a].key@);
    } else if b < a {
        assert(text_less(groups[a].key@, groups[b].key@));
        lemma_text_less_total(groups[a].key@, groups[a].key@);
    }
    assert(semester_from(courses, groups[a]));
    assert(in_semester(groups[a].key@)(courses[j]));
    broadcast use vstd::seq_lib::group_filter_ensures;
    assert(courses.filter(in_semester(groups[a].key@)).contains(courses[j]));
}


/// The trimmed text of the member `k` of `v`, when it is a string that is
/// not blank.
pub open spec fn member_text(v: Json, k: Seq<char>) -> Option<Seq<char>> {
    match v.str_field(k) {
        Some(s) => if trim_spec(s).len() > 0 {
            Some(trim_spec(s))
        } else {
            None
        },
        None => None,
    }
}

/// `a` when there is one, else `b`.
pub open spec fn or_else(a: Option<Seq<char>>, b: Seq<char>) -> Seq<char> {
    match a {
        Some(t) => t,
        None => b,
    }
}

/// Reading under two keys takes the first key's non-blank text, else the
/// second's, else the default.
pub proof fn lemma_first_text2(v: Json, a: Seq<char>, b: Seq<char>, d: Seq<char>)
    ensures
        first_text(v, seq![a, b], d) == or_else(member_text(v, a), or_else(member_text(v, b), d)),
{
    let ks = seq![a, b];
    assert(ks.drop_first() =~= seq![b]);
    assert(seq![b].drop_first() =~= Seq::<Seq<char>>::empty());
    reveal_with_fuel(first_text, 3);
}

/// Reading under three keys takes the first non-blank text among them, in
/// order, else the default.
pub proof fn lemma_first_text3(v: Json, a: Seq<char>, b: Seq<char>, c: Seq<char>, d: Seq<char>)
    ensures
        first_text(v, seq![a, b, c], d) == or_else(
            member_text(v, a),
            or_else(member_text(v, b), or_else(member_text(v, c), d)),
        ),
{
    let ks = seq![a, b, c];
    assert(ks.drop_first() =~= seq![b, c]);
    lemma_first_text2(v, b, c, d);
    reveal_with_fuel(first_text, 2);
}

/// A graded course takes each of its fields from the row's members, in this
/// order of preference, trimmed, with the empty text when none is there:
/// the name from `kcmc`, `courseName`, `name`; the score from `cj`,
/// `score`, `bfzcj`; the credit from `xf`, then `credit` (never from the
/// grade point `jd`); the grade point from `jd`, `point`; the nature from
/// `kcgsmc`, `nature`; the type from `kclbmc`, `type`; the term name from
/// `xqmmc`, `termName`; the year from `xnm`, `year`; the term from `xqm`,
/// `term`. The remark is empty.
pub proof fn law_grade_fields(c: Json, e: GradeEntry)
    requires
        grade_from(c, e),
    ensures
        e.name@ == or_else(member_text(c, "kcmc"@), or_else(member_text(c, "courseName"@), or_else(member_text(c, "name"@), ""@))),
        e.score@ == or_else(member_text(c, "cj"@), or_else(member_text(c, "score"@), or_else(member_text(c, "bfzcj"@), ""@))),
        e.credit@ == or_else(member_text(c, "xf"@), or_else(member_text(c, "credit"@), ""@)),
        e.point@ == or_else(member_text(c, "jd"@), or_else(member_text(c, "point"@), ""@)),
        e.nature@ == or_else(member_text(c, "kcgsmc"@), or_else(member_text(c, "nature"@), ""@)),
        e.course_type@ == or_else(member_text(c, "kclbmc"@), or_else(member_text(c, "type"@), ""@)),
        e.term_name@ == or_else(member_text(c, "xqmmc"@), or_else(member_text(c, "termName"@), ""@)),
        e.year@ == or_else(member_text(c, "xnm"@), or_else(member_text(c, "year"@), ""@)),
        e.term@ == or_else(member_text(c, "xqm"@), or_else(member_text(c, "term"@), ""@)),
        e.remark@.len() == 0,
{
    lemma_first_text3(c, "kcmc"@, "courseName"@, "name"@, ""@);
    lemma_first_text3(c, "cj"@, "score"@, "bfzcj"@, ""@);
    lemma_first_text2(c, "xf"@, "credit"@, ""@);
    lemma_first_text2(c, "jd"@, "point"@, ""@);
    lemma_first_text2(c, "kcgsmc"@, "nature"@, ""@);
    lemma_first_text2(c, "kclbmc"@, "type"@, ""@);
    lemma_first_text2(c, "xqmmc"@, "termName"@, ""@);
    lemma_first_text2(c, "xnm"@, "year"@, ""@);
    lemma_first_text2(c, "xqm"@, "term"@, ""@);
}

/// An exam entry takes each field from the row's members, trimmed, in this
/// order of preference, with the empty text when none is there: the course
/// from `kcmc`, `courseName`; the time from `kssj`, `datetime`; the room
/// from `cdmc`, `cdbh`, `location`; the seat from `zwh`, `seat`.
pub proof fn law_exam_fields(c: Json, e: ExamEntry)
    requires
        exam_from(c, e),
    ensures
        e.course_name@ == or_else(member_text(c, "kcmc"@), or_else(member_text(c, "courseName"@), ""@)),
        e.datetime@ == or_else(member_text(c, "kssj"@), or_else(member_text(c, "datetime"@), ""@)),
        e.location@ == or_else(member_text(c, "cdmc"@), or_else(member_text(c, "cdbh"@), or_else(member_text(c, "location"@), ""@))),
        e.seat@ == or_else(member_text(c, "zwh"@), or_else(member_text(c, "seat"@), ""@)),
{
    lemma_first_text2(c, "kcmc"@, "courseName"@, ""@);
    lemma_first_text2(c, "kssj"@, "datetime"@, ""@);
    lemma_first_text3(c, "cdmc"@, "cdbh"@, "location"@, ""@);
    lemma_first_text2(c, "zwh"@, "seat"@, ""@);
}

/// A timetable slot takes each field from the row's members, trimmed, in
/// this order of preference, with the empty text when none is there: the
/// day from `xqjmc`, `day`; the sessions from `jcs`, `sessions`; the course
/// from `kcmc`, `courseName`; the teacher from `jsxm`, `teacher`; the room
/// from `cdmc`, `location`; the weeks from `zcd`, `weeks`.
pub proof fn law_schedule_fields(c: Json, e: ScheduleEntry)
    requires
        schedule_from(c, e),
    ensures
        e.day@ == slot_day(c),
        e.sessions@ == slot_sessions(c),
        e.course_name@ == slot_course(c),
        e.teacher@ == or_else(member_text(c, "jsxm"@), or_else(member_text(c, "teacher"@), ""@)),
        e.location@ == slot_location(c),
        e.weeks@ == slot_weeks(c),
{
    lemma_slot_fields(c);
    lemma_first_text2(c, "jsxm"@, "teacher"@, ""@);
}

/// The day of a slot row.
pub open spec fn slot_day(c: Json) -> Seq<char> {
    or_else(member_text(c, "xqjmc"@), or_else(member_text(c, "day"@), ""@))
}

/// The sessions of a slot row.
pub open spec fn slot_sessions(c: Json) -> Seq<char> {
    or_else(member_text(c, "jcs"@), or_else(member_text(c, "sessions"@), ""@))
}

/// The course of a slot row.
pub open spec fn slot_course(c: Json) -> Seq<char> {
    or_else(member_text(c, "kcmc"@), or_else(member_text(c, "courseName"@), ""@))
}

/// The room of a slot row.
pub open spec fn slot_location(c: Json) -> Seq<char> {
    or_else(member_text(c, "cdmc"@), or_else(member_text(c, "location"@), ""@))
}

/// The weeks of a slot row.
pub open spec fn slot_weeks(c: Json) -> Seq<char> {
    or_else(member_text(c, "zcd"@), or_else(member_text(c, "weeks"@), ""@))
}

/// Two slot rows are the same slot: same day, sessions, course, room and
/// weeks (the teacher does not count).
pub open spec fn same_slot(a: Json, b: Json) -> bool {
    &&& slot_day(a) == slot_day(b)
    &&& slot_sessions(a) == slot_sessions(b)
    &&& slot_course(a) == slot_course(b)
    &&& slot_location(a) == slot_location(b)
    &&& slot_weeks(a) == slot_weeks(b)
}

/// None of the five fields that tell slots apart holds a `|`.
pub open spec fn plain_slot(c: Json) -> bool {
    &&& !slot_day(c).contains('|')
    &&& !slot_sessions(c).contains('|')
    &&& !slot_course(c).contains('|')
    &&& !slot_location(c).contains('|')
}

proof fn lemma_slot_fields(c: Json)
    ensures
        first_text(c, seq!["xqjmc"@, "day"@], ""@) == slot_day(c),
        first_text(c, seq!["jcs"@, "sessions"@], ""@) == slot_sessions(c),
        first_text(c, seq!["kcmc"@, "courseName"@], ""@) == slot_course(c),
        first_text(c, seq!["cdmc"@, "location"@], ""@) == slot_location(c),
        first_text(c, seq!["zcd"@, "weeks"@], ""@) == slot_weeks(c),
{
    lemma_first_text2(c, "xqjmc"@, "day"@, ""@);
    lemma_first_text2(c, "jcs"@, "sessions"@, ""@);
    lemma_first_text2(c, "kcmc"@, "courseName"@, ""@);
    lemma_first_text2(c, "cdmc"@, "location"@, ""@);
    lemma_first_text2(c, "zcd"@, "weeks"@, ""@);
}

/// Joining by `|` parts that hold no `|` can be undone.
proof fn lemma_bar_split(a1: Seq<char>, b1: Seq<char>, a2: Seq<char>, b2: Seq<char>)
    requires
        !a1.contains('|'),
        !a2.contains('|'),
        a1 + ("|"@ + b1) == a2 + ("|"@ + b2),
    ensures
        a1 == a2,
        b1 == b2,
{
    reveal_strlit("|");
    let l = a1 + ("|"@ + b1);
    let r = a2 + ("|"@ + b2);
    if a1.len() < a2.len() {
        assert(l[a1.len() as int] == '|');
        assert(r[a1.len() as int] == a2[a1.len() as int]);
        assert(a2.contains(a2[a1.len() as int]));
    } else if a2.len() < a1.len() {
        assert(r[a2.len() as int] == '|');
        assert(l[a2.len() as int] == a1[a2.len() as int]);
        assert(a1.contains(a1[a2.len() as int]));
    }
    assert(a1 =~= l.take(a1.len() as int));
    assert(a2 =~= r.take(a2.len() as int));
    assert(b1 =~= l.skip(a1.len() as int + 1));
    assert(b2 =~= r.skip(a2.len() as int + 1));
}

/// Five parts joined by `|`.
pub open spec fn join5(d: Seq<char>, s: Seq<char>, c: Seq<char>, l: Seq<char>, w: Seq<char>) -> Seq<char> {
    d + ("|"@ + (s + ("|"@ + (c + ("|"@ + (l + ("|"@ + w)))))))
}

/// Five parts of which the first four hold no `|` are found again from
/// their join.
proof fn lemma_join5(
    d1: Seq<char>, s1: Seq<char>, c1: Seq<char>, l1: Seq<char>, w1: Seq<char>,
    d2: Seq<char>, s2: Seq<char>, c2: Seq<char>, l2: Seq<char>, w2: Seq<char>,
)
    requires
        !d1.contains('|'), !s1.contains('|'), !c1.contains('|'), !l1.contains('|'),
        !d2.contains('|'), !s2.contains('|'), !c2.contains('|'), !l2.contains('|'),
        join5(d1, s1, c1, l1, w1) == join5(d2, s2, c2, l2, w2),
    ensures
        d1 == d2 && s1 == s2 && c1 == c2 && l1 == l2 && w1 == w2,
{
    let bar = "|"@;
    lemma_bar_split(d1, s1 + (bar + (c1 + (bar + (l1 + (bar + w1))))), d2, s2 + (bar + (c2 + (bar + (l2 + (bar + w2))))));
    lemma_bar_split(s1, c1 + (bar + (l1 + (bar + w1))), s2, c2 + (bar + (l2 + (bar + w2))));
    lemma_bar_split(c1, l1 + (bar + w1), c2, l2 + (bar + w2));
    lemma_bar_split(l1, w1, l2, w2);
}

proof fn lemma_join_assoc(d: Seq<char>, s: Seq<char>, k: Seq<char>, l: Seq<char>, w: Seq<char>)
    ensures
        d + "|"@ + s + "|"@ + k + "|"@ + l + "|"@ + w == join5(d, s, k, l, w),
{
    let b = "|"@;
    assert(d + b + s + b + k + b + l + b + w =~= join5(d, s, k, l, w));
}

proof fn lemma_key_join(c: Json)
    ensures
        schedule_key(c) == join5(slot_day(c), slot_sessions(c), slot_course(c), slot_location(c), slot_weeks(c)),
{
    lemma_join_assoc(
        first_text(c, seq!["xqjmc"@, "day"@], ""@),
        first_text(c, seq!["jcs"@, "sessions"@], ""@),
        first_text(c, seq!["kcmc"@, "courseName"@], ""@),
        first_text(c, seq!["cdmc"@, "location"@], ""@),
        first_text(c, seq!["zcd"@, "weeks"@], ""@),
    );
    lemma_slot_fields(c);
}

/// Two slot rows whose fields hold no `|` share a key exactly when they are
/// the same slot; in particular two rows that differ only in their weeks
/// have different keys.
pub proof fn law_schedule_key_is_slot(a: Json, b: Json)
    requires
        plain_slot(a),
        plain_slot(b),
    ensures
        schedule_key(a) == schedule_key(b) <==> same_slot(a, b),
{
    lemma_key_join(a);
    lemma_key_join(b);
    if schedule_key(a) == schedule_key(b) {
        lemma_join5(
            slot_day(a), slot_sessions(a), slot_course(a), slot_location(a), slot_weeks(a),
            slot_day(b), slot_sessions(b), slot_course(b), slot_location(b), slot_weeks(b),
        );
    }
}

/// The timetable keeps every slot row that is not the same slot as an
/// earlier row: a row whose weeks (or day, sessions, course or room)
/// differ from those of every earlier row is among the kept rows. Rows
/// whose fields hold a `|` are left out, as their keys can run together.
pub proof fn law_distinct_slots_kept(s: Seq<Json>, n: int)
    requires
        0 <= n < s.len(),
        forall|m: int| 0 <= m < s.len() ==> plain_slot(#[trigger] s[m]),
        forall|m: int| 0 <= m < n ==> !same_slot(#[trigger] s[m], s[n]),
    ensures
        first_of_each_key(s).contains(s[n]),
    decreases s.len(),
{
    let p = s.drop_last();
    if n == s.len() - 1 {
        if slot_keys(p).contains(schedule_key(s[n])) {
            let m = choose|m: int| 0 <= m < slot_keys(p).len() && slot_keys(p)[m] == schedule_key(s[n]);
            assert(p[m] == s[m]);
            law_schedule_key_is_slot(s[m], s[n]);
        }
        assert(first_of_each_key(s) == first_of_each_key(p).push(s.last()));
        assert(first_of_each_key(s)[first_of_each_key(p).len() as int] == s[n]);
    } else {
        assert(p[n] == s[n]);
        assert forall|m: int| 0 <= m < p.len() implies plain_slot(#[trigger] p[m]) by {
            assert(p[m] == s[m]);
        }
        assert forall|m: int| 0 <= m < n implies !same_slot(#[trigger] p[m], p[n]) by {
            assert(p[m] == s[m]);
        }
        law_distinct_slots_kept(p, n);
        let f = first_of_each_key(p);
        let i = choose|i: int| 0 <= i < f.len() && f[i] == s[n];
        if !slot_keys(p).contains(schedule_key(s.last())) {
            assert(first_of_each_key(s) == f.push(s.last()));
            assert(first_of_each_key(s)[i] == s[n]);
        }
    }
}

/// A slot row that is the same slot as an earlier row adds nothing: the
/// kept rows already hold a row with its key.
pub proof fn law_repeated_slot_merged(s: Seq<Json>, m: int, n: int)
    requires
        0 <= m < n < s.len(),
        same_slot(s[m], s[n]),
    ensures
        first_of_each_key(s.take(n + 1)) == first_of_each_key(s.take(n)),
{
    lemma_slot_fields(s[m]);
    lemma_slot_fields(s[n]);
    let t = s.take(n + 1);
    assert(t.drop_last() =~= s.take(n));
    assert(t.last() == s[n]);
    assert(slot_keys(s.take(n))[m] == schedule_key(s[m]));
    assert(schedule_key(s[m]) == schedule_key(s[n]));
}


/// The user information reads the name from `xsxm`, else `xm`, and the
/// student number from `xsdm`, else `xh`, else `xh_id`, trimmed, with `-`
/// when none is there.
pub proof fn law_user_info_fields(raw: Json)
    ensures
        name_of(raw) == or_else(member_text(raw, "xsxm"@), or_else(member_text(raw, "xm"@), "-"@)),
        student_id_of(raw) == or_else(member_text(raw, "xsdm"@), or_else(member_text(raw, "xh"@), or_else(member_text(raw, "xh_id"@), "-"@))),
{
    lemma_first_text2(raw, "xsxm"@, "xm"@, "-"@);
    lemma_first_text3(raw, "xsdm"@, "xh"@, "xh_id"@, "-"@);
}

/// The rows of a grades reply: its own `items` array when it has one;
/// else, when its `data` is an object, that object's `items` array (or,
/// without `items`, its `rows` array); else its `data` array; else none.
pub proof fn law_grade_rows(raw: Json)
    ensures
        raw.array_field("items"@) matches Some(a) ==> grade_rows(raw) == a,
        raw.array_field("items"@) is None ==> (raw.spec_get("data"@) matches Some(d) ==> (d.array_field("items"@) matches Some(
            a,
        ) ==> grade_rows(raw) == a)),
        raw.array_field("items"@) is None ==> (raw.spec_get("data"@) matches Some(d) ==> (d.spec_get("items"@) is None ==> (
        d.array_field("rows"@) matches Some(a) ==> grade_rows(raw) == a))),
        raw.array_field("items"@) is None ==> (raw.spec_get("data"@) matches Some(Json::Array(a)) ==> grade_rows(raw)
            == a@),
        raw.array_field("items"@) is None && raw.spec_get("data"@) is None ==> grade_rows(raw).len() == 0,
{
}

/// The rows of an exam reply are its `items` array, or none.
pub proof fn law_exam_rows(raw: Json)
    ensures
        raw.array_field("items"@) matches Some(a) ==> exam_rows(raw) == a,
        raw.array_field("items"@) is None ==> exam_rows(raw).len() == 0,
{
}

/// The rows of a timetable reply are its `kbList` array, else its `items`
/// array, else none.
pub proof fn law_schedule_rows(raw: Json)
    ensures
        raw.array_field("kbList"@) matches Some(a) ==> schedule_rows(raw) == a,
        raw.array_field("kbList"@) is None ==> (raw.array_field("items"@) matches Some(a) ==> schedule_rows(raw) == a),
        raw.array_field("kbList"@) is None && raw.array_field("items"@) is None ==> schedule_rows(raw).len() == 0,
{
}

/// Expanding the timetable's rows keeps every row without a nested
/// `kbList` as it is, in order, and puts a nested list's rows in its place;
/// so rows without nested lists are their own slot rows.
pub proof fn law_slot_rows(rows: Seq<Json>)
    ensures
        slot_rows(rows).len() >= 0,
        (forall|i: int| 0 <= i < rows.len() ==> (#[trigger] rows[i]).array_field("kbList"@) is None)
            ==> slot_rows(rows) == rows,
    decreases rows.len(),
{
    if rows.len() > 0 {
        let p = rows.drop_last();
        law_slot_rows(p);
        if forall|i: int| 0 <= i < rows.len() ==> (#[trigger] rows[i]).array_field("kbList"@) is None {
            assert forall|i: int| 0 <= i < p.len() implies (#[trigger] p[i]).array_field("kbList"@) is None by {
                assert(p[i] == rows[i]);
            }
            assert(rows.last() == rows[rows.len() - 1]);
            assert(slot_rows(rows) =~= rows);
        }
    } else {
        assert(slot_rows(rows) =~= rows);
    }
}

/// A nested `kbList` of a row is expanded in the row's place: the slot
/// rows of `rows` followed by a row with a nested list are those of `rows`
/// followed by the nested list's rows.
pub proof fn law_nested_slots(rows: Seq<Json>, c: Json)
    ensures
        c.array_field("kbList"@) matches Some(a) ==> slot_rows(rows.push(c)) == slot_rows(rows) + a,
        c.array_field("kbList"@) is None ==> slot_rows(rows.push(c)) == slot_rows(rows).push(c),
{
    assert(rows.push(c).drop_last() =~= rows);
    if c.array_field("kbList"@) is None {
        assert(slot_rows(rows) + seq![c] =~= slot_rows(rows).push(c));
    }
}

/// Joining by `-` parts that hold no `-` can be undone.
proof fn lemma_dash_split(a1: Seq<char>, b1: Seq<char>, a2: Seq<char>, b2: Seq<char>)
    requires
        !a1.contains('-'),
        !a2.contains('-'),
        a1 + ("-"@ + b1) == a2 + ("-"@ + b2),
    ensures
        a1 == a2,
        b1 == b2,
{
    reveal_strlit("-");
    let l = a1 + ("-"@ + b1);
    let r = a2 + ("-"@ + b2);
    if a1.len() < a2.len() {
        assert(l[a1.len() as int] == '-');
        assert(r[a1.len() as int] == a2[a1.len() as int]);
        assert(a2.contains(a2[a1.len() as int]));
    } else if a2.len() < a1.len() {
        assert(r[a2.len() as int] == '-');
        assert(l[a2.len() as int] == a1[a2.len() as int]);
        assert(a1.contains(a1[a2.len() as int]));
    }
    assert(a1 =~= l.take(a1.len() as int));
    assert(a2 =~= r.take(a2.len() as int));
    assert(b1 =~= l.skip(a1.len() as int + 1));
    assert(b2 =~= r.skip(a2.len() as int + 1));
}

/// Two graded courses whose year and term hold no `-` fall in the same
/// semester exactly when they have the same year, term and term name.
pub proof fn law_semester_key_fields(a: GradeEntry, b: GradeEntry)
    requires
        !a.year@.contains('-'),
        !a.term@.contains('-'),
        !b.year@.contains('-'),
        !b.term@.contains('-'),
    ensures
        semester_key(a) == semester_key(b) <==> (a.year@ == b.year@ && a.term@ == b.term@ && a.term_name@ == b.term_name@),
{
    let d = "-"@;
    assert(semester_key(a) =~= a.year@ + (d + (a.term@ + (d + a.term_name@))));
    assert(semester_key(b) =~= b.year@ + (d + (b.term@ + (d + b.term_name@))));
    if semester_key(a) == semester_key(b) {
        lemma_dash_split(a.year@, a.term@ + (d + a.term_name@), b.year@, b.term@ + (d + b.term_name@));
        lemma_dash_split(a.term@, a.term_name@, b.term@, b.term_name@);
    }
}

/// The department is read from `zymc`, else from `bm`: a text member as it
/// is, an object by its `mc` text; `-` when there is none.
pub proof fn law_department(raw: Json)
    ensures
        raw.str_field("zymc"@) matches Some(t) ==> department_of(raw) == t,
        raw.spec_get("zymc"@) is None ==> (raw.str_field("bm"@) matches Some(t) ==> department_of(raw) == t),
        raw.spec_get("zymc"@) matches Some(z) ==> (z.is_object() ==> department_of(raw) == or_else(z.str_field("mc"@), "-"@)),
        raw.spec_get("zymc"@) is None && raw.spec_get("bm"@) is None ==> department_of(raw) == "-"@,
{
}
} // verus!
