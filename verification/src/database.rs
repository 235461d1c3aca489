use vstd::prelude::*;
use chrono::NaiveDateTime;
use crate::text::{health_reply, health_step};

verus! {

/// The errors that the database-backed service answers with.
pub enum MyError {
    DBError(String),
    ActixError(String),
    NotFound(String),
}

/// The body of an error reply.
pub struct MyErrorResponse {
    error_msg: String,
}

impl MyErrorResponse {
    /// The message that the reply carries.
    pub fn error_msg(&self) -> (msg: &String)
        ensures
            msg@ == self.msg(),
    {
        &self.error_msg
    }

    /// The message that the reply carries, as text.
    pub closed spec fn msg(&self) -> Seq<char> {
        self.error_msg@
    }
}

/// The text an error reply carries: a fixed text for database and server
/// errors, the error's own message for a missing resource.
pub open spec fn error_text(e: MyError) -> Seq<char> {
    match e {
        MyError::DBError(_) => "Database error"@,
        MyError::ActixError(_) => "Internal server error"@,
        MyError::NotFound(msg) => msg@,
    }
}

/// The HTTP status of an error reply: 404 for a missing resource, 500 otherwise.
pub open spec fn error_status(e: MyError) -> u16 {
    match e {
        MyError::NotFound(_) => 404,
        _ => 500,
    }
}

impl MyError {
    /// The text that the error reply carries.
    pub fn error_response(&self) -> (text: String)
        ensures
            text@ == error_text(*self),
    {
        match self {
            MyError::DBError(_) => String::from_str("Database error"),
            MyError::ActixError(_) => String::from_str("Internal server error"),
            MyError::NotFound(msg) => msg.clone(),
        }
    }

    /// The HTTP status code of the error reply.
    pub fn status_code(&self) -> (code: u16)
        ensures
            code == error_status(*self),
    {
        match self {
            MyError::NotFound(_) => 404,
            _ => 500,
        }
    }

    /// The body of the error reply.
    pub fn error_body(&self) -> (body: MyErrorResponse)
        ensures
            body.msg() == error_text(*self),
    {
        MyErrorResponse { error_msg: self.error_response() }
    }
}

/// A course as the database service answers it.
pub struct Course {
    pub teacher_id: i32,
    pub id: Option<i32>,
    pub name: String,
    pub time: Option<NaiveDateTime>,
}

/// A row of the `course` table as a query returns it.
pub struct CourseRow {
    pub id: i32,
    pub teacher_id: i32,
    pub name: String,
    pub time: Option<NaiveDateTime>,
}

/// The course that a row stands for.
pub open spec fn row_course(row: CourseRow) -> Course {
    Course { id: Some(row.id), teacher_id: row.teacher_id, name: row.name, time: row.time }
}

/// Law: the course that a row stands for carries the row's own id (as
/// `Some`), teacher, name and time.
pub proof fn law_row_course_fields(row: CourseRow)
    ensures
        row_course(row).id == Some(row.id),
        row_course(row).teacher_id == row.teacher_id,
        row_course(row).name == row.name,
        row_course(row).time == row.time,
{
}

/// Every row carries a time.
pub open spec fn rows_timed(rows: Seq<CourseRow>) -> bool {
    forall|i: int| 0 <= i < rows.len() ==> (#[trigger] rows[i]).time is Some
}

/// The course that a row of the `course` table stands for. A row without a
/// time is not accepted.
pub fn course_from_row(row: &CourseRow) -> (course: Course)
    requires
        row.time is Some,
    ensures
        course == row_course(*row),
        course.id == Some(row.id),
        course.teacher_id == row.teacher_id,
        course.name == row.name,
        course.time == row.time,
{
    Course {
        id: Some(row.id),
        teacher_id: row.teacher_id,
        name: row.name.clone(),
        time: Some(row.time.unwrap()),
    }
}

/// The courses that the rows of a teacher query stand for, in row order, or
/// the error "Courses not found for teacher" where there are no rows.
pub fn courses_from_rows(rows: &Vec<CourseRow>) -> (courses: Result<Vec<Course>, MyError>)
    requires
        rows_timed(rows@),
    ensures
        match courses {
            Ok(found) => {
                &&& rows@.len() > 0
                &&& found@ == rows@.map_values(|r: CourseRow| row_course(r))
                &&& found@.len() == rows@.len()
                &&& forall|i: int|
                    0 <= i < rows@.len() ==> {
                        &&& (#[trigger] found@[i]).id == Some(rows@[i].id)
                        &&& found@[i].teacher_id == rows@[i].teacher_id
                        &&& found@[i].name == rows@[i].name
                        &&& found@[i].time == rows@[i].time
                    }
            },
            Err(e) => rows@.len() == 0 && (e matches MyError::NotFound(msg) && msg@
                == "Courses not found for teacher"@),
        },
{
    let mut found: Vec<Course> = Vec::new();
    let mut i: usize = 0;
    while i < rows.len()
        invariant
            i <= rows.len(),
            rows_timed(rows@),
            found@ == rows@.take(i as int).map_values(|r: CourseRow| row_course(r)),
            found@.len() == i,
            forall|k: int|
                0 <= k < i ==> {
                    &&& (#[trigger] found@[k]).id == Some(rows@[k].id)
                    &&& found@[k].teacher_id == rows@[k].teacher_id
                    &&& found@[k].name == rows@[k].name
                    &&& found@[k].time == rows@[k].time
                },
        decreases rows.len() - i,
    {
        found.push(course_from_row(&rows[i]));
        proof {
            assert(rows@.take(i + 1).map_values(|r: CourseRow| row_course(r)) =~= rows@.take(
                i as int,
            ).map_values(|r: CourseRow| row_course(r)).push(row_course(rows@[i as int])));
        }
        i = i + 1;
    }
    assert(rows@.take(i as int) =~= rows@);
    if found.len() == 0 {
        Err(MyError::NotFound(String::from_str("Courses not found for teacher")))
    } else {
        Ok(found)
    }
}

/// The part of the database service's shared state that the service itself
/// keeps: the health-check text and the visit count.
pub struct AppState {
    pub health_check_response: String,
    pub visit_count: u32,
}

impl AppState {
    /// A state with no visits.
    pub fn new(health_check_response: String) -> (state: AppState)
        ensures
            state.health_check_response == health_check_response,
            state.visit_count == 0,
    {
        AppState { health_check_response, visit_count: 0 }
    }

    /// Answers a health check and counts the visit.
    pub fn health_check(&mut self) -> (reply: String)
        requires
            old(self).visit_count < u32::MAX,
        ensures
            health_step(
                old(self).health_check_response@,
                old(self).visit_count as nat,
                final(self).health_check_response@,
                final(self).visit_count as nat,
                reply@,
            ),
            final(self).health_check_response == old(self).health_check_response,
    {
        let reply = health_reply(&self.health_check_response, self.visit_count);
        self.visit_count = self.visit_count + 1;
        reply
    }
}

} // verus!
