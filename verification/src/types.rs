//! Domain records exchanged with the front end.
use vstd::prelude::*;

verus! {

/// What the academic-affairs system tells of the student: name, student
/// number, department, and the reply it was read from.
#[derive(Debug)]
pub struct UserInfo {
    pub name: String,
    pub student_id: String,
    pub department: String,
    pub raw: crate::json::Json,
}

/// One graded course.
#[derive(Debug, Clone, Default)]
pub struct GradeEntry {
    pub name: String,
    pub score: String,
    pub credit: String,
    pub point: String,
    pub nature: String,
    pub course_type: String,
    pub term_name: String,
    pub year: String,
    pub term: String,
    pub remark: String,
}

/// One timetable slot.
#[derive(Debug, Clone, Default)]
pub struct ScheduleEntry {
    pub day: String,
    pub sessions: String,
    pub course_name: String,
    pub teacher: String,
    pub location: String,
    pub weeks: String,
}

/// One exam arrangement.
#[derive(Debug, Clone, Default)]
pub struct ExamEntry {
    pub course_name: String,
    pub datetime: String,
    pub location: String,
    pub seat: String,
}

/// A course-selection tab of the enrolment page.
#[derive(Debug, Clone, Default)]
pub struct CourseTab {
    pub kklxdm: String,
    pub xkkz_id: String,
    pub njdm_id: String,
    pub zyh_id: String,
    pub name: String,
}

/// One entry of a course list.
#[derive(Debug, Clone, Default)]
pub struct CourseListItem {
    pub index: usize,
    pub name: String,
    pub credits: String,
    pub course_type: String,
    pub kch_id: String,
}

/// Enrolment context read from the hidden inputs of the enrolment page.
#[derive(Debug, Clone, Default)]
pub struct StudentContext {
    pub bh_id: String,
    pub njdm_id: String,
    pub zyh_id: String,
    pub jg_id: String,
    pub xkxnm: String,
    pub xkxqm: String,
}

/// A course that the enrolment engine keeps trying to take.
#[derive(Debug, Clone, Default)]
pub struct SniperTarget {
    pub jxb_ids: String,
    pub kch_id: String,
    pub kcmc: String,
    pub xkkz_id: String,
    pub kklxdm: String,
    pub xkxnm: String,
    pub xkxqm: String,
    pub njdm_id: String,
    pub zyh_id: String,
}

/// The outcome of one enrolment attempt for one target.
#[derive(Debug, Clone)]
pub struct SniperTargetStatus {
    pub kch_id: String,
    pub kcmc: String,
    pub status: String,
    pub detail: String,
}

/// Running statistics of one target.
#[derive(Debug, Clone)]
pub struct SniperStats {
    pub kch_id: String,
    pub kcmc: String,
    pub attempts: u64,
    pub last_status: String,
    pub last_detail: String,
}

/// One teaching class of a course.
#[derive(Debug, Clone, Default)]
pub struct TeachingClass {
    pub index: usize,
    pub teacher: String,
    pub time: String,
    pub location: String,
    pub enrolled: String,
    pub capacity: String,
    pub campus: String,
    pub jxb_id: String,
}

/// A course with its teaching classes.
#[derive(Debug, Clone, Default)]
pub struct CourseDetail {
    pub course_name: String,
    pub kch_id: String,
    pub teaching_classes: Vec<TeachingClass>,
}

} // verus!
