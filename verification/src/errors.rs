//! Why the registry refuses a request.
use vstd::prelude::*;

verus! {

/// A refused request. The contract aborts the transaction with `message()`,
/// so a refused request leaves the storage as it was.
#[derive(Debug, Clone, Copy, PartialEq, Eq, Structural)]
pub enum CourseError {
    /// The title is longer than the 1024 bytes that trimming can handle.
    TitleTooLong,
    /// The title is empty, or holds only spaces and tabs.
    EmptyTitle,
    /// The price is zero.
    ZeroPrice,
    /// A course with the same title, compared ASCII-case-insensitively, exists.
    DuplicateTitle,
    /// The course id counter cannot be advanced any further.
    IdOverflow,
    /// A course is already stored under the next course id.
    DuplicateId,
    /// No course is stored under the given id.
    CourseNotFound,
}

impl CourseError {
    /// The text with which the contract aborts.
    pub fn message(&self) -> (r: &'static str)
        ensures
            *self is TitleTooLong ==> r@ == "String too long for fixed-size buffer"@,
            *self is EmptyTitle ==> r@ == "Course error: Course Title cannot be empty"@,
            *self is ZeroPrice ==> r@ == "Course error: Price must be greater than 0"@,
            *self is DuplicateTitle ==> r@ == "Course error: Course Title already exists"@,
            *self is IdOverflow ==> r@ == "attempt to add with overflow"@,
            *self is DuplicateId ==> r@ == "Course with this ID already exists"@,
            *self is CourseNotFound ==> r@ == "Course with the specified ID does not exist"@,
    {
        match self {
            CourseError::TitleTooLong => "String too long for fixed-size buffer",
            CourseError::EmptyTitle => "Course error: Course Title cannot be empty",
            CourseError::ZeroPrice => "Course error: Price must be greater than 0",
            CourseError::DuplicateTitle => "Course error: Course Title already exists",
            CourseError::IdOverflow => "attempt to add with overflow",
            CourseError::DuplicateId => "Course with this ID already exists",
            CourseError::CourseNotFound => "Course with the specified ID does not exist",
        }
    }
}

} // verus!
