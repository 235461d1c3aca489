use chrono::NaiveDate;
use course_api::database::{course_from_row, courses_from_rows, AppState, CourseRow, MyError};
use course_api::text::health_reply;

fn stamp(day: u32) -> chrono::NaiveDateTime {
    NaiveDate::from_ymd_opt(2023, 5, day).unwrap().and_hms_opt(8, 30, 0).unwrap()
}

fn row(id: i32, teacher_id: i32, name: &str, day: u32) -> CourseRow {
    CourseRow { id, teacher_id, name: name.to_string(), time: Some(stamp(day)) }
}

#[test]
fn error_texts() {
    assert_eq!(MyError::DBError("pool closed".to_string()).error_response(), "Database error");
    assert_eq!(MyError::ActixError("bad".to_string()).error_response(), "Internal server error");
    assert_eq!(MyError::NotFound("no such course".to_string()).error_response(), "no such course");
}

#[test]
fn error_status_codes() {
    assert_eq!(MyError::DBError("x".to_string()).status_code(), 500);
    assert_eq!(MyError::ActixError("x".to_string()).status_code(), 500);
    assert_eq!(MyError::NotFound("x".to_string()).status_code(), 404);
}

#[test]
fn error_body_carries_text() {
    let body = MyError::DBError("secret detail".to_string()).error_body();
    assert_eq!(body.error_msg(), "Database error");
    let body = MyError::NotFound("Courses not found for teacher".to_string()).error_body();
    assert_eq!(body.error_msg(), "Courses not found for teacher");
}

#[test]
fn row_becomes_course() {
    let course = course_from_row(&row(4, 1, "Test course", 3));
    assert_eq!(course.id, Some(4));
    assert_eq!(course.teacher_id, 1);
    assert_eq!(course.name, "Test course");
    assert_eq!(course.time, Some(stamp(3)));
}

#[test]
fn no_rows_is_not_found() {
    match courses_from_rows(&Vec::new()) {
        Err(MyError::NotFound(msg)) => assert_eq!(msg, "Courses not found for teacher"),
        _ => panic!("expected a not-found error"),
    }
}

#[test]
fn rows_keep_their_order() {
    let rows = vec![row(1, 2, "a", 1), row(7, 2, "b", 2), row(3, 2, "c", 3)];
    let courses = match courses_from_rows(&rows) {
        Ok(c) => c,
        Err(_) => panic!("expected courses"),
    };
    let ids: Vec<Option<i32>> = courses.iter().map(|c| c.id).collect();
    assert_eq!(ids, vec![Some(1), Some(7), Some(3)]);
    assert_eq!(courses[1].name, "b");
    assert_eq!(courses[2].time, Some(stamp(3)));
}

#[test]
fn database_state_health_check() {
    let mut state = AppState::new("I'm OK.".to_string());
    assert_eq!(state.health_check(), "I'm OK. 0 times");
    assert_eq!(state.health_check(), "I'm OK. 1 times");
    assert_eq!(state.visit_count, 2);
}

#[test]
fn health_reply_digits() {
    assert_eq!(health_reply(&"x".to_string(), 0), "x 0 times");
    assert_eq!(health_reply(&"x".to_string(), 10), "x 10 times");
    assert_eq!(health_reply(&"".to_string(), 905), " 905 times");
    assert_eq!(health_reply(&"x".to_string(), u32::MAX), "x 4294967295 times");
}
