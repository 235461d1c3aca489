use vstd::prelude::*;
use chrono::NaiveDateTime;
use crate::clock::{naive_from_unix_spec, utc_now_naive};
use crate::text::{health_reply, health_step};

verus! {

/// A course as the in-memory catalogue stores it.
pub struct Course {
    pub teacher_id: u32,
    pub id: Option<u32>,
    pub name: String,
    pub time: Option<NaiveDateTime>,
}

impl Clone for Course {
    fn clone(&self) -> (copy: Self)
        ensures
            copy == *self,
    {
        Course {
            teacher_id: self.teacher_id,
            id: self.id,
            name: self.name.clone(),
            time: self.time,
        }
    }
}

/// The courses of `teacher_id`, in the order in which they were stored.
pub open spec fn of_teacher(courses: Seq<Course>, teacher_id: u32) -> Seq<Course>
    decreases courses.len(),
{
    if courses.len() == 0 {
        Seq::empty()
    } else {
        let earlier = of_teacher(courses.drop_last(), teacher_id);
        if courses.last().teacher_id == teacher_id {
            earlier.push(courses.last())
        } else {
            earlier
        }
    }
}

/// Whether a course is one of `teacher_id`'s.
pub open spec fn teaches(teacher_id: u32) -> spec_fn(Course) -> bool {
    |c: Course| c.teacher_id == teacher_id
}

/// Whether `course` is course `course_id` of teacher `teacher_id`.
pub open spec fn is_course(course: Course, teacher_id: u32, course_id: u32) -> bool {
    course.teacher_id == teacher_id && course.id == Some(course_id)
}

/// The first stored course that is course `course_id` of teacher `teacher_id`.
pub open spec fn find_course(courses: Seq<Course>, teacher_id: u32, course_id: u32) -> Option<Course>
    decreases courses.len(),
{
    if courses.len() == 0 {
        None
    } else {
        match find_course(courses.drop_last(), teacher_id, course_id) {
            Some(c) => Some(c),
            None => if is_course(courses.last(), teacher_id, course_id) {
                Some(courses.last())
            } else {
                None
            },
        }
    }
}

/// The course that a new-course request for `teacher_id` named `name` stores
/// at `time`, given the courses stored before: it is numbered one past the
/// number of that teacher's courses.
pub open spec fn added_course(courses: Seq<Course>, teacher_id: u32, name: String, time: NaiveDateTime) -> Course {
    Course {
        teacher_id,
        id: Some((of_teacher(courses, teacher_id).len() + 1) as u32),
        name,
        time: Some(time),
    }
}

/// What a request for the courses of `teacher_id` is answered: that
/// teacher's courses in stored order, or, where there are none, the message
/// "No courses found for teacher".
pub open spec fn courses_reply(courses: Seq<Course>, teacher_id: u32) -> Result<Seq<Course>, Seq<char>> {
    if of_teacher(courses, teacher_id).len() == 0 {
        Err("No courses found for teacher"@)
    } else {
        Ok(of_teacher(courses, teacher_id))
    }
}

/// Every teacher's courses are numbered 1, 2, 3, ... in the order in which
/// they were stored.
pub open spec fn numbered(courses: Seq<Course>) -> bool {
    forall|t: u32, i: int|
        0 <= i < of_teacher(courses, t).len() ==> (#[trigger] of_teacher(courses, t)[i]).id == Some(
            (i + 1) as u32,
        )
}

/// Taking one more stored course into account extends each teacher's list by
/// that course when it is theirs.
proof fn lemma_of_teacher_push(courses: Seq<Course>, c: Course, t: u32)
    ensures
        of_teacher(courses.push(c), t) == if c.teacher_id == t {
            of_teacher(courses, t).push(c)
        } else {
            of_teacher(courses, t)
        },
{
    assert(courses.push(c).drop_last() =~= courses);
}

/// A teacher's courses are the stored courses filtered by that teacher, in
/// stored order.
proof fn lemma_of_teacher_is_filter(courses: Seq<Course>, t: u32)
    ensures
        of_teacher(courses, t) == courses.filter(teaches(t)),
    decreases courses.len(),
{
    reveal(Seq::filter);
    if courses.len() > 0 {
        lemma_of_teacher_is_filter(courses.drop_last(), t);
    }
}

/// The prefix of `courses` of length `i + 1` ends with `courses[i]`.
proof fn lemma_take_succ(courses: Seq<Course>, i: int)
    requires
        0 <= i < courses.len(),
    ensures
        courses.take(i + 1) == courses.take(i).push(courses[i]),
{
    assert(courses.take(i + 1) =~= courses.take(i).push(courses[i]));
}

/// Every course in a teacher's filtered list is that teacher's, and where the
/// list is empty no stored course is that teacher's.
proof fn lemma_filter_members(courses: Seq<Course>, t: u32)
    ensures
        forall|i: int|
            0 <= i < courses.filter(teaches(t)).len() ==> (#[trigger] courses.filter(teaches(t))[i]).teacher_id == t,
        forall|j: int|
            0 <= j < courses.len() && (#[trigger] courses[j]).teacher_id == t ==> courses.filter(
                teaches(t),
            ).contains(courses[j]),
        courses.filter(teaches(t)).len() == 0 ==> forall|i: int|
            0 <= i < courses.len() ==> (#[trigger] courses[i]).teacher_id != t,
{
    broadcast use vstd::seq_lib::group_filter_ensures;
    let f = courses.filter(teaches(t));
    if f.len() == 0 {
        assert forall|i: int| 0 <= i < courses.len() implies (#[trigger] courses[i]).teacher_id != t by {
            if courses[i].teacher_id == t {
                assert(f.contains(courses[i]));
            }
        }
    }
}

/// A match found in a prefix stays the first match of the whole sequence.
proof fn lemma_find_course_extend(courses: Seq<Course>, n: int, teacher_id: u32, course_id: u32)
    requires
        0 <= n <= courses.len(),
        find_course(courses.take(n), teacher_id, course_id) is Some,
    ensures
        find_course(courses, teacher_id, course_id) == find_course(courses.take(n), teacher_id, course_id),
    decreases courses.len() - n,
{
    if n < courses.len() {
        lemma_take_succ(courses, n);
        assert(courses.take(n + 1).drop_last() =~= courses.take(n));
        lemma_find_course_extend(courses, n + 1, teacher_id, course_id);
    } else {
        assert(courses.take(n) =~= courses);
    }
}

/// The shared state of the in-memory service.
pub struct AppState {
    pub health_check_response: String,
    pub visit_count: u32,
    pub courses: Vec<Course>,
}

impl AppState {
    /// A state with no visits and no courses.
    pub fn new(health_check_response: String) -> (state: AppState)
        ensures
            state.health_check_response == health_check_response,
            state.visit_count == 0,
            state.courses@ == Seq::<Course>::empty(),
            numbered(state.courses@),
    {
        AppState { health_check_response, visit_count: 0, courses: Vec::new() }
    }

    /// Answers a health check and counts the visit.
    pub fn health_check(&mut self) -> (reply: String)
        requires
            old(self).visit_count < u32::MAX,
        ensures
            health_step(
                old(self).health_check_response@,
                old(self).visit_count as nat,
                final(self).health_check_response@,
                final(self).visit_count as nat,
                reply@,
            ),
            final(self).health_check_response == old(self).health_check_response,
            final(self).courses == old(self).courses,
    {
        let reply = health_reply(&self.health_check_response, self.visit_count);
        self.visit_count = self.visit_count + 1;
        reply
    }

    /// The number of courses that `teacher_id` has.
    pub fn count_courses_for_teacher(&self, teacher_id: u32) -> (count: usize)
        ensures
            count == of_teacher(self.courses@, teacher_id).len(),
            count == self.courses@.filter(teaches(teacher_id)).len(),
    {
        proof { lemma_of_teacher_is_filter(self.courses@, teacher_id); }
        let mut count: usize = 0;
        let mut i: usize = 0;
        while i < self.courses.len()
            invariant
                i <= self.courses.len(),
                count == of_teacher(self.courses@.take(i as int), teacher_id).len(),
                count <= i,
            decreases self.courses.len() - i,
        {
            proof {
                lemma_take_succ(self.courses@, i as int);
                lemma_of_teacher_push(self.courses@.take(i as int), self.courses@[i as int], teacher_id);
            }
            if self.courses[i].teacher_id == teacher_id {
                count = count + 1;
            }
            i = i + 1;
        }
        assert(self.courses@.take(i as int) =~= self.courses@);
        count
    }

    /// Stores a new course for the teacher of `new_course`, stamped with
    /// `time` and numbered one past that teacher's course count; the id and
    /// time that the request carries are not used. Returns the new number.
    pub fn new_course_at(&mut self, new_course: Course, time: NaiveDateTime) -> (id: u32)
        requires
            of_teacher(old(self).courses@, new_course.teacher_id).len() < u32::MAX,
        ensures
            id == of_teacher(old(self).courses@, new_course.teacher_id).len() + 1,
            id == old(self).courses@.filter(teaches(new_course.teacher_id)).len() + 1,
            final(self).courses@ == old(self).courses@.push(
                added_course(old(self).courses@, new_course.teacher_id, new_course.name, time),
            ),
            final(self).courses@ == old(self).courses@.push(
                (Course {
                    teacher_id: new_course.teacher_id,
                    id: Some(id),
                    name: new_course.name,
                    time: Some(time),
                }),
            ),
            final(self).health_check_response == old(self).health_check_response,
            final(self).visit_count == old(self).visit_count,
    {
        proof { lemma_of_teacher_is_filter(old(self).courses@, new_course.teacher_id); }
        let count = self.count_courses_for_teacher(new_course.teacher_id);
        let id: u32 = count as u32 + 1;
        let course = Course {
            teacher_id: new_course.teacher_id,
            id: Some(id),
            name: new_course.name,
            time: Some(time),
        };
        self.courses.push(course);
        id
    }

    /// The courses of `teacher_id`, in stored order, or, where the teacher has
    /// none, the message "No courses found for teacher".
    pub fn get_courses_for_teacher(&self, teacher_id: u32) -> (reply: Result<Vec<Course>, String>)
        ensures
            match reply {
                Ok(found) => courses_reply(self.courses@, teacher_id) == Ok::<Seq<Course>, Seq<char>>(found@),
                Err(message) => courses_reply(self.courses@, teacher_id) == Err::<Seq<Course>, Seq<char>>(message@),
            },
            match reply {
                Ok(found) => {
                    &&& found@ == self.courses@.filter(teaches(teacher_id))
                    &&& found@.len() > 0
                    &&& forall|i: int| 0 <= i < found@.len() ==> (#[trigger] found@[i]).teacher_id == teacher_id
                    &&& forall|j: int|
                        0 <= j < self.courses@.len() && (#[trigger] self.courses@[j]).teacher_id == teacher_id
                            ==> found@.contains(self.courses@[j])
                },
                Err(message) => {
                    &&& forall|i: int| 0 <= i < self.courses@.len() ==> (#[trigger] self.courses@[i]).teacher_id != teacher_id
                    &&& message@ == "No courses found for teacher"@
                },
            },
    {
        proof { lemma_of_teacher_is_filter(self.courses@, teacher_id); }
        let mut found: Vec<Course> = Vec::new();
        let mut i: usize = 0;
        while i < self.courses.len()
            invariant
                i <= self.courses.len(),
                found@ == of_teacher(self.courses@.take(i as int), teacher_id),
            decreases self.courses.len() - i,
        {
            proof {
                lemma_take_succ(self.courses@, i as int);
                lemma_of_teacher_push(self.courses@.take(i as int), self.courses@[i as int], teacher_id);
            }
            if self.courses[i].teacher_id == teacher_id {
                found.push(self.courses[i].clone());
            }
            i = i + 1;
        }
        assert(self.courses@.take(i as int) =~= self.courses@);
        proof { lemma_filter_members(self.courses@, teacher_id); }
        if found.len() > 0 {
            Ok(found)
        } else {
            Err(String::from_str("No courses found for teacher"))
        }
    }

    /// The first stored course that is course `course_id` of `teacher_id`,
    /// or, where there is none, the message "Course not found".
    pub fn get_course_detail(&self, teacher_id: u32, course_id: u32) -> (reply: Result<Course, String>)
        ensures
            match reply {
                Ok(course) => find_course(self.courses@, teacher_id, course_id) == Some(course),
                Err(message) => find_course(self.courses@, teacher_id, course_id) is None
                    && message@ == "Course not found"@,
            },
            match reply {
                Ok(course) => exists|i: int|
                    0 <= i < self.courses@.len() && #[trigger] self.courses@[i] == course
                        && course.teacher_id == teacher_id && course.id == Some(course_id)
                        && forall|j: int| 0 <= j < i ==> !is_course(#[trigger] self.courses@[j], teacher_id, course_id),
                Err(_) => forall|j: int|
                    0 <= j < self.courses@.len() ==> !is_course(#[trigger] self.courses@[j], teacher_id, course_id),
            },
    {
        let mut i: usize = 0;
        while i < self.courses.len()
            invariant
                i <= self.courses.len(),
                find_course(self.courses@.take(i as int), teacher_id, course_id) is None,
                forall|j: int| 0 <= j < i ==> !is_course(#[trigger] self.courses@[j], teacher_id, course_id),
            decreases self.courses.len() - i,
        {
            proof {
                lemma_take_succ(self.courses@, i as int);
                assert(self.courses@.take(i + 1).drop_last() =~= self.courses@.take(i as int));
            }
            if self.courses[i].teacher_id == teacher_id && self.courses[i].id == Some(course_id) {
                proof { lemma_find_course_extend(self.courses@, i as int + 1, teacher_id, course_id); }
                return Ok(self.courses[i].clone());
            }
            i = i + 1;
        }
        assert(self.courses@.take(i as int) =~= self.courses@);
        Err(String::from_str("Course not found"))
    }

    /// Stores a new course as `new_course_at` does, stamped with `now`, and
    /// returns its number, where `now` holds a time; where it holds none,
    /// nothing is stored and the answer is `None`.
    pub fn new_course_stamped(&mut self, new_course: Course, now: Option<NaiveDateTime>) -> (id: Option<u32>)
        requires
            of_teacher(old(self).courses@, new_course.teacher_id).len() < u32::MAX,
        ensures
            id is Some <==> now is Some,
            match (id, now) {
                (Some(id), Some(time)) => {
                    &&& id == old(self).courses@.filter(teaches(new_course.teacher_id)).len() + 1
                    &&& final(self).courses@ == old(self).courses@.push(
                        (Course {
                            teacher_id: new_course.teacher_id,
                            id: Some(id),
                            name: new_course.name,
                            time: Some(time),
                        }),
                    )
                    &&& final(self).courses@ == old(self).courses@.push(
                        added_course(old(self).courses@, new_course.teacher_id, new_course.name, time),
                    )
                },
                _ => final(self).courses@ == old(self).courses@,
            },
            final(self).health_check_response == old(self).health_check_response,
            final(self).visit_count == old(self).visit_count,
    {
        match now {
            Some(time) => Some(self.new_course_at(new_course, time)),
            None => None,
        }
    }

    /// Stores a new course as `new_course_at` does, stamped with the current
    /// UTC time, and returns its number; `None`, with nothing stored, where
    /// the clock cannot be read as a date-time (it reads before the Unix
    /// epoch or beyond chrono's range). The outcome is that of
    /// `new_course_stamped` given what `utc_now_naive` read.
    pub fn new_course(&mut self, new_course: Course) -> (id: Option<u32>)
        requires
            of_teacher(old(self).courses@, new_course.teacher_id).len() < u32::MAX,
        ensures
            match id {
                Some(id) => {
                    &&& id == of_teacher(old(self).courses@, new_course.teacher_id).len() + 1
                    &&& id == old(self).courses@.filter(teaches(new_course.teacher_id)).len() + 1
                    &&& exists|time: NaiveDateTime, secs: u64, nanos: u32|
                        nanos < 1_000_000_000
                        && #[trigger] naive_from_unix_spec(secs, nanos) == Some(time)
                        && final(self).courses@ == old(self).courses@.push(
                            #[trigger] added_course(old(self).courses@, new_course.teacher_id, new_course.name, time),
                        )
                        && final(self).courses@ == old(self).courses@.push(
                            (Course {
                                teacher_id: new_course.teacher_id,
                                id: Some(id),
                                name: new_course.name,
                                time: Some(time),
                            }),
                        )
                },
                None => final(self).courses@ == old(self).courses@,
            },
            final(self).health_check_response == old(self).health_check_response,
            final(self).visit_count == old(self).visit_count,
    {
        let now = utc_now_naive();
        let ghost before = self.courses@;
        let id = self.new_course_stamped(new_course, now);
        proof {
            lemma_of_teacher_is_filter(before, new_course.teacher_id);
            if now is Some {
                let (secs, nanos) = choose|secs: u64, nanos: u32|
                    nanos < 1_000_000_000 && #[trigger] naive_from_unix_spec(secs, nanos) == now;
                assert(naive_from_unix_spec(secs, nanos) == Some(now.unwrap()));
            }
        }
        id
    }
}

/// A course that `find_course` returns is one of that teacher's courses.
proof fn lemma_found_is_of_teacher(courses: Seq<Course>, teacher_id: u32, course_id: u32)
    requires
        find_course(courses, teacher_id, course_id) is Some,
    ensures
        ({
            let c = find_course(courses, teacher_id, course_id).unwrap();
            &&& is_course(c, teacher_id, course_id)
            &&& exists|i: int|
                0 <= i < of_teacher(courses, teacher_id).len() && #[trigger] of_teacher(
                    courses,
                    teacher_id,
                )[i] == c
        }),
    decreases courses.len(),
{
    let rest = courses.drop_last();
    match find_course(rest, teacher_id, course_id) {
        Some(c) => {
            lemma_found_is_of_teacher(rest, teacher_id, course_id);
            let i = choose|i: int|
                0 <= i < of_teacher(rest, teacher_id).len() && #[trigger] of_teacher(rest, teacher_id)[i]
                    == c;
            assert(of_teacher(courses, teacher_id)[i] == c);
        },
        None => {
            let n = of_teacher(rest, teacher_id).len() as int;
            assert(of_teacher(courses, teacher_id)[n] == courses.last());
        },
    }
}

/// Law: storing a new course keeps every teacher's courses numbered
/// 1, 2, 3, ...; the new course is the last of its teacher's list, the other
/// teachers' lists do not change, and a detail lookup of the new course's
/// number for that teacher gives back exactly the new course.
pub proof fn law_new_course_then_lookup(courses: Seq<Course>, teacher_id: u32, name: String, time: NaiveDateTime)
    requires
        numbered(courses),
        of_teacher(courses, teacher_id).len() < u32::MAX,
    ensures
        ({
            let c = added_course(courses, teacher_id, name, time);
            let after = courses.push(c);
            &&& numbered(after)
            &&& of_teacher(after, teacher_id) == of_teacher(courses, teacher_id).push(c)
            &&& forall|t: u32| t != teacher_id ==> #[trigger] of_teacher(after, t) == of_teacher(courses, t)
            &&& find_course(after, teacher_id, c.id.unwrap()) == Some(c)
        }),
{
    let c = added_course(courses, teacher_id, name, time);
    let after = courses.push(c);
    let n = of_teacher(courses, teacher_id).len();
    let k = (n + 1) as u32;
    assert forall|t: u32| #[trigger] of_teacher(after, t) == if t == teacher_id {
        of_teacher(courses, t).push(c)
    } else {
        of_teacher(courses, t)
    } by {
        lemma_of_teacher_push(courses, c, t);
    }
    assert forall|t: u32, i: int| 0 <= i < of_teacher(after, t).len() implies (#[trigger] of_teacher(
        after,
        t,
    )[i]).id == Some((i + 1) as u32) by {
        if t == teacher_id && i == n {
        } else {
            assert(of_teacher(after, t)[i] == of_teacher(courses, t)[i]);
        }
    }
    assert(after.drop_last() =~= courses);
    if find_course(courses, teacher_id, k) is Some {
        lemma_found_is_of_teacher(courses, teacher_id, k);
        let i = choose|i: int|
            0 <= i < of_teacher(courses, teacher_id).len() && #[trigger] of_teacher(courses, teacher_id)[i]
                == find_course(courses, teacher_id, k).unwrap();
        assert(of_teacher(courses, teacher_id)[i].id == Some((i + 1) as u32));
        assert(false);
    }
}

/// Law: after a new course is stored for `teacher_id`, the courses request
/// for that teacher is answered with the teacher's earlier courses followed by
/// the new one.
pub proof fn law_new_course_then_list(courses: Seq<Course>, teacher_id: u32, name: String, time: NaiveDateTime)
    ensures
        ({
            let c = added_course(courses, teacher_id, name, time);
            courses_reply(courses.push(c), teacher_id) == Ok::<Seq<Course>, Seq<char>>(
                of_teacher(courses, teacher_id).push(c),
            )
        }),
{
    let c = added_course(courses, teacher_id, name, time);
    lemma_of_teacher_push(courses, c, teacher_id);
}

/// Law: the courses request for a teacher is answered with exactly the
/// stored courses whose teacher is that teacher, in stored order; every
/// course in the answer is that teacher's and every course of that teacher is
/// in it. Where the teacher has no course the answer is the message "No
/// courses found for teacher".
pub proof fn law_courses_reply_is_filter(courses: Seq<Course>, teacher_id: u32)
    ensures
        match courses_reply(courses, teacher_id) {
            Ok(found) => {
                &&& found == courses.filter(teaches(teacher_id))
                &&& found.len() > 0
                &&& forall|i: int| 0 <= i < found.len() ==> (#[trigger] found[i]).teacher_id == teacher_id
                &&& forall|j: int|
                    0 <= j < courses.len() && (#[trigger] courses[j]).teacher_id == teacher_id
                        ==> found.contains(courses[j])
            },
            Err(message) => {
                &&& message == "No courses found for teacher"@
                &&& forall|j: int| 0 <= j < courses.len() ==> (#[trigger] courses[j]).teacher_id != teacher_id
            },
        },
{
    lemma_of_teacher_is_filter(courses, teacher_id);
    lemma_filter_members(courses, teacher_id);
}

/// Law: the course that a new-course request stores carries the request's
/// teacher and name, is stamped with the given time, and is numbered one past
/// the number of stored courses of that teacher.
pub proof fn law_added_course_fields(courses: Seq<Course>, teacher_id: u32, name: String, time: NaiveDateTime)
    ensures
        added_course(courses, teacher_id, name, time) == (Course {
            teacher_id,
            id: Some((courses.filter(teaches(teacher_id)).len() + 1) as u32),
            name,
            time: Some(time),
        }),
{
    lemma_of_teacher_is_filter(courses, teacher_id);
}

} // verus!
