//! Creating courses.
use vstd::prelude::*;

use crate::errors::CourseError;
use crate::schema::{opt_view, Course, CourseView};
use crate::storage::{Storage, StorageView};
use crate::utils::{
    copy_bytes, decimal, lowercase, to_lowercase, trim, trimmed, u128_to_string,
};

verus! {

/// The id that the next course receives: one more than the last one handed
/// out, or 1 for the first course.
pub open spec fn next_course_id(counter: Option<u128>) -> int {
    match counter {
        Some(n) => n + 1,
        None => 1,
    }
}

/// What creating a course does to storage `s`: the new storage and the new
/// course, or the reason for refusing it.
pub open spec fn create_course_outcome(
    s: StorageView,
    creator: Seq<u8>,
    title: Seq<u8>,
    description: Seq<u8>,
    price: u128,
    category: Option<Seq<u8>>,
    language: Option<Seq<u8>>,
    thumbnail_url: Option<Seq<u8>>,
) -> Result<(StorageView, CourseView), CourseError> {
    if title.len() > 1024 {
        Err(CourseError::TitleTooLong)
    } else if title.len() == 0 || trimmed(title).len() == 0 {
        Err(CourseError::EmptyTitle)
    } else if price == 0 {
        Err(CourseError::ZeroPrice)
    } else if s.titles.dom().contains(lowercase(title)) {
        Err(CourseError::DuplicateTitle)
    } else if next_course_id(s.course_counter) > u128::MAX {
        Err(CourseError::IdOverflow)
    } else if s.courses.dom().contains(decimal(next_course_id(s.course_counter) as nat)) {
        Err(CourseError::DuplicateId)
    } else {
        let id = decimal(next_course_id(s.course_counter) as nat);
        let course = CourseView {
            id,
            title,
            description,
            creator,
            price,
            category,
            language,
            thumbnail_url,
            published: false,
            prerequisites: Seq::empty(),
        };
        Ok(
            (
                StorageView {
                    courses: s.courses.insert(id, course),
                    titles: s.titles.insert(lowercase(title), true),
                    modules: s.modules,
                    course_counter: Some(next_course_id(s.course_counter) as u128),
                },
                course,
            ),
        )
    }
}

/// Hands out the next course id and records it as the last one handed out.
pub fn generate_course_id(storage: &mut Storage) -> (id: u128)
    requires
        old(storage).wf(),
        next_course_id(old(storage)@.course_counter) <= u128::MAX,
    ensures
        final(storage).wf(),
        id == next_course_id(old(storage)@.course_counter),
        final(storage)@ == (StorageView { course_counter: Some(id), ..old(storage)@ }),
{
    let current: u128 = match storage.course_counter() {
        Some(n) => n,
        None => 0,
    };
    let new_id = current + 1;
    storage.set_course_counter(new_id);
    new_id
}

/// Creates a course with the given details, created by `creator` (the
/// contract's own address), unpublished and without prerequisites, under the
/// next course id. Titles are unique regardless of ASCII letter case.
pub fn course_registry_create_course(
    storage: &mut Storage,
    creator: &Vec<u8>,
    title: Vec<u8>,
    description: Vec<u8>,
    price: u128,
    category: Option<Vec<u8>>,
    language: Option<Vec<u8>>,
    thumbnail_url: Option<Vec<u8>>,
) -> (result: Result<Course, CourseError>)
    requires
        old(storage).wf(),
    ensures
        final(storage).wf(),
        match result {
            Ok(course) => create_course_outcome(
                old(storage)@,
                creator@,
                title@,
                description@,
                price,
                opt_view(category),
                opt_view(language),
                opt_view(thumbnail_url),
            ) == Ok::<(StorageView, CourseView), CourseError>((final(storage)@, course@)),
            Err(e) => create_course_outcome(
                old(storage)@,
                creator@,
                title@,
                description@,
                price,
                opt_view(category),
                opt_view(language),
                opt_view(thumbnail_url),
            ) == Err::<(StorageView, CourseView), CourseError>(e) && final(storage)@ == old(
                storage,
            )@,
        },
{
    let ghost before = storage@;
    if title.len() > 1024 {
        return Err(CourseError::TitleTooLong);
    }
    let trimmed_title = trim(&title);
    if title.len() == 0 || trimmed_title.len() == 0 {
        return Err(CourseError::EmptyTitle);
    }
    if price == 0 {
        return Err(CourseError::ZeroPrice);
    }
    let lowercase_title = to_lowercase(&title);
    if storage.has_title(&lowercase_title) {
        return Err(CourseError::DuplicateTitle);
    }
    let current: u128 = match storage.course_counter() {
        Some(n) => n,
        None => 0,
    };
    if current == u128::MAX {
        return Err(CourseError::IdOverflow);
    }
    let converted_id = u128_to_string(current + 1);
    if storage.has_course(&converted_id) {
        return Err(CourseError::DuplicateId);
    }
    let id = generate_course_id(storage);
    let new_course = Course {
        id: copy_bytes(&converted_id),
        title,
        description,
        creator: copy_bytes(creator),
        price,
        category,
        language,
        thumbnail_url,
        published: false,
        prerequisites: Vec::new(),
    };
    storage.set_course(converted_id, new_course.duplicate());
    storage.set_title(lowercase_title, true);
    proof {
        assert(new_course@.prerequisites =~= Seq::<Seq<u8>>::empty());
        let expected = create_course_outcome(
            before,
            creator@,
            new_course.title@,
            new_course.description@,
            price,
            opt_view(new_course.category),
            opt_view(new_course.language),
            opt_view(new_course.thumbnail_url),
        );
        assert(expected == Ok::<(StorageView, CourseView), CourseError>((storage@, new_course@)));
    }
    Ok(new_course)
}

/// The key under which creating a course stores the new course: the decimal
/// notation of the next course id, or `None` where the counter cannot advance.
pub fn next_course_key(storage: &Storage) -> (r: Option<Vec<u8>>)
    ensures
        next_course_id(storage@.course_counter) <= u128::MAX ==> r is Some && r->0@ == decimal(
            next_course_id(storage@.course_counter) as nat,
        ),
        next_course_id(storage@.course_counter) > u128::MAX ==> r is None,
{
    let current: u128 = match storage.course_counter() {
        Some(n) => n,
        None => 0,
    };
    if current == u128::MAX {
        None
    } else {
        Some(u128_to_string(current + 1))
    }
}

} // verus!
