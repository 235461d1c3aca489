use chrono::NaiveDate;
use chrono::Datelike;
use course_api::clock::{naive_from_unix, utc_now_naive};
use course_api::memory::{AppState, Course};

fn request(teacher_id: u32, name: &str) -> Course {
    Course { teacher_id, id: None, name: name.to_string(), time: None }
}

fn noon() -> chrono::NaiveDateTime {
    NaiveDate::from_ymd_opt(2024, 3, 1).unwrap().and_hms_opt(12, 0, 0).unwrap()
}

#[test]
fn post_course_test() {
    let mut state = AppState::new("".to_string());
    let id = state.new_course(request(1, "Test course"));
    assert_eq!(id, Some(1));
    assert_eq!(state.courses.len(), 1);
    assert_eq!(state.courses[0].teacher_id, 1);
    assert_eq!(state.courses[0].id, Some(1));
    assert_eq!(state.courses[0].name, "Test course");
    assert!(state.courses[0].time.is_some());
}

#[test]
fn get_all_courses_success() {
    let state = AppState::new("".to_string());
    let reply = state.get_courses_for_teacher(1);
    assert_eq!(reply.err(), Some("No courses found for teacher".to_string()));
}

#[test]
fn get_one_course_success() {
    let state = AppState::new("".to_string());
    let reply = state.get_course_detail(1, 1);
    assert_eq!(reply.err(), Some("Course not found".to_string()));
}

#[test]
fn ids_count_per_teacher() {
    let mut state = AppState::new("ok".to_string());
    assert_eq!(state.new_course_at(request(1, "a"), noon()), 1);
    assert_eq!(state.new_course_at(request(2, "b"), noon()), 1);
    assert_eq!(state.new_course_at(request(1, "c"), noon()), 2);
    assert_eq!(state.count_courses_for_teacher(1), 2);
    assert_eq!(state.count_courses_for_teacher(2), 1);
    assert_eq!(state.count_courses_for_teacher(3), 0);
}

#[test]
fn request_id_and_time_are_replaced() {
    let mut state = AppState::new("ok".to_string());
    let mut posted = request(7, "Rust");
    posted.id = Some(99);
    let id = state.new_course_at(posted, noon());
    assert_eq!(id, 1);
    assert_eq!(state.courses[0].id, Some(1));
    assert_eq!(state.courses[0].time, Some(noon()));
}

#[test]
fn courses_for_teacher_in_stored_order() {
    let mut state = AppState::new("ok".to_string());
    state.new_course_at(request(1, "first"), noon());
    state.new_course_at(request(2, "other"), noon());
    state.new_course_at(request(1, "second"), noon());
    let found = state.get_courses_for_teacher(1).ok().unwrap();
    let names: Vec<&str> = found.iter().map(|c| c.name.as_str()).collect();
    assert_eq!(names, vec!["first", "second"]);
    let ids: Vec<Option<u32>> = found.iter().map(|c| c.id).collect();
    assert_eq!(ids, vec![Some(1), Some(2)]);
    assert!(state.get_courses_for_teacher(3).is_err());
}

#[test]
fn detail_after_new_course() {
    let mut state = AppState::new("ok".to_string());
    state.new_course_at(request(1, "first"), noon());
    let id = state.new_course_at(request(1, "second"), noon());
    let course = state.get_course_detail(1, id).ok().unwrap();
    assert_eq!(course.name, "second");
    assert_eq!(course.id, Some(2));
    assert!(state.get_course_detail(2, id).is_err());
    assert!(state.get_course_detail(1, 3).is_err());
}

#[test]
fn detail_returns_first_match() {
    let mut state = AppState::new("ok".to_string());
    state.courses.push(Course { teacher_id: 4, id: Some(1), name: "one".to_string(), time: None });
    state.courses.push(Course { teacher_id: 4, id: Some(1), name: "two".to_string(), time: None });
    assert_eq!(state.get_course_detail(4, 1).ok().unwrap().name, "one");
}

#[test]
fn health_check_counts_visits() {
    let mut state = AppState::new("I'm OK.".to_string());
    assert_eq!(state.health_check(), "I'm OK. 0 times");
    assert_eq!(state.health_check(), "I'm OK. 1 times");
    assert_eq!(state.visit_count, 2);
}

#[test]
fn health_check_large_count() {
    let mut state = AppState::new("up".to_string());
    state.visit_count = 1234567890;
    assert_eq!(state.health_check(), "up 1234567890 times");
    state.visit_count = u32::MAX - 1;
    assert_eq!(state.health_check(), "up 4294967294 times");
    assert_eq!(state.visit_count, u32::MAX);
}

#[test]
fn clock_reads_a_current_date() {
    let now = utc_now_naive().unwrap();
    assert!(now.year() >= 2024);
    let before = chrono::Utc::now().naive_utc();
    let mut state = AppState::new("ok".to_string());
    assert_eq!(state.new_course(request(3, "timed")), Some(1));
    let stamped = state.courses[0].time.unwrap();
    assert!(stamped >= before);
    assert!(stamped <= chrono::Utc::now().naive_utc());
}

#[test]
fn unix_reading_to_date_time() {
    let t = naive_from_unix(1431648000, 0).unwrap();
    assert_eq!(t, NaiveDate::from_ymd_opt(2015, 5, 15).unwrap().and_hms_opt(0, 0, 0).unwrap());
    let t = naive_from_unix(0, 500_000_000).unwrap();
    assert_eq!(t, NaiveDate::from_ymd_opt(1970, 1, 1).unwrap().and_hms_milli_opt(0, 0, 0, 500).unwrap());
}

#[test]
fn unix_reading_seconds_cast_like_chrono() {
    // u64::MAX seconds cast to i64 is -1: one second before the epoch.
    let t = naive_from_unix(u64::MAX, 0).unwrap();
    assert_eq!(t, NaiveDate::from_ymd_opt(1969, 12, 31).unwrap().and_hms_opt(23, 59, 59).unwrap());
    // Far beyond chrono's range.
    assert_eq!(naive_from_unix(1u64 << 62, 0), None);
}
