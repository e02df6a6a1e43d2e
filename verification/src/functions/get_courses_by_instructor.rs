//! Listing the courses of an instructor.
use vstd::prelude::*;

use crate::schema::{Course, CourseView};
use crate::storage::Storage;
use crate::utils::{bytes_equal, decimal, u128_to_string};

verus! {

/// The courses created by `instructor` among those stored under the ids
/// `id`, `id + 1`, ...: the scan stops at the first id under which no course
/// is stored, or after id 1000.
pub open spec fn courses_by_instructor_from(
    courses: Map<Seq<u8>, CourseView>,
    instructor: Seq<u8>,
    id: nat,
) -> Seq<CourseView>
    decreases 1001 - id,
{
    if id > 1000 || !courses.dom().contains(decimal(id)) {
        Seq::empty()
    } else {
        let course = courses[decimal(id)];
        let rest = courses_by_instructor_from(courses, instructor, id + 1);
        if course.creator == instructor {
            seq![course] + rest
        } else {
            rest
        }
    }
}

/// The views of a list of courses.
pub open spec fn course_views(courses: Seq<Course>) -> Seq<CourseView> {
    courses.map_values(|c: Course| c@)
}

/// Returns, in id order, copies of the courses created by `instructor`, found
/// by scanning the course ids 1, 2, ... up to the first missing one, and at
/// most up to 1000.
pub fn course_registry_get_courses_by_instructor(storage: &Storage, instructor: &Vec<u8>) -> (results:
    Vec<Course>)
    requires
        storage.wf(),
    ensures
        course_views(results@) == courses_by_instructor_from(storage@.courses, instructor@, 1),
{
    let ghost courses = storage@.courses;
    let mut results: Vec<Course> = Vec::new();
    let mut id: u128 = 1;
    loop
        invariant_except_break
            1 <= id <= 1000,
        invariant
            storage.wf(),
            courses == storage@.courses,
            course_views(results@) + courses_by_instructor_from(courses, instructor@, id as nat)
                == courses_by_instructor_from(courses, instructor@, 1),
        ensures
            course_views(results@) == courses_by_instructor_from(courses, instructor@, 1),
        decreases 1001 - id,
    {
        let course_id = u128_to_string(id);
        let ghost before = course_views(results@);
        match storage.get_course(&course_id) {
            None => {
                assert(courses_by_instructor_from(courses, instructor@, id as nat)
                    =~= Seq::<CourseView>::empty());
                assert(before + Seq::<CourseView>::empty() =~= before);
                break;
            },
            Some(course) => {
                let matches = bytes_equal(&course.creator, instructor);
                if matches {
                    results.push(course.duplicate());
                    assert(course_views(results@) =~= before.push(course@));
                }
                proof {
                    let c = courses[decimal(id as nat)];
                    let rest = courses_by_instructor_from(courses, instructor@, (id + 1) as nat);
                    if matches {
                        assert(courses_by_instructor_from(courses, instructor@, id as nat)
                            == seq![c] + rest);
                        assert(before + (seq![c] + rest) =~= before.push(c) + rest);
                    } else {
                        assert(courses_by_instructor_from(courses, instructor@, id as nat) == rest);
                    }
                }
            },
        }
        id += 1;
        if id > 1000 {
            assert(courses_by_instructor_from(courses, instructor@, id as nat)
                =~= Seq::<CourseView>::empty());
            assert(course_views(results@) + Seq::<CourseView>::empty() =~= course_views(results@));
            break;
        }
    }
    results
}

/// The course id that the listing reads after it has read the ids
/// `1..=loaded` into `courses`, or `None` where it has read all it needs: it
/// stops after id 1000 and after the first id under which nothing is stored.
pub open spec fn listing_next_probe(courses: Map<Seq<u8>, CourseView>, loaded: nat) -> Option<nat> {
    if loaded >= 1000 || (loaded >= 1 && !courses.dom().contains(decimal(loaded))) {
        None
    } else {
        Some(loaded + 1)
    }
}

/// The key of the next course that the listing reads, given that the ids
/// `1..=loaded` have been read into `storage`; `None` when nothing more is
/// read. A caller that fills a storage from elsewhere loads these keys in turn.
pub fn next_course_key_to_load(storage: &Storage, loaded: u32) -> (r: Option<Vec<u8>>)
    requires
        storage.wf(),
    ensures
        match listing_next_probe(storage@.courses, loaded as nat) {
            Some(id) => r is Some && r->0@ == decimal(id),
            None => r is None,
        },
{
    if loaded >= 1000 {
        return None;
    }
    if loaded >= 1 {
        let last = u128_to_string(loaded as u128);
        if !storage.has_course(&last) {
            return None;
        }
    }
    Some(u128_to_string(loaded as u128 + 1))
}

} // verus!
