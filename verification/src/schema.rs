//! The records that the registry stores: courses and course modules.
use vstd::prelude::*;

use crate::utils::copy_bytes;

verus! {

/// A course offered in the registry. Text fields hold UTF-8 bytes; `creator`
/// holds the address of the account that created the course, in its textual
/// (strkey) form.
#[derive(Debug)]
pub struct Course {
    pub id: Vec<u8>,
    pub title: Vec<u8>,
    pub description: Vec<u8>,
    pub creator: Vec<u8>,
    pub price: u128,
    pub category: Option<Vec<u8>>,
    pub language: Option<Vec<u8>>,
    pub thumbnail_url: Option<Vec<u8>>,
    pub published: bool,
    /// Ids of the courses that must be taken first.
    pub prerequisites: Vec<Vec<u8>>,
}

/// A course as a mathematical value.
pub struct CourseView {
    pub id: Seq<u8>,
    pub title: Seq<u8>,
    pub description: Seq<u8>,
    pub creator: Seq<u8>,
    pub price: u128,
    pub category: Option<Seq<u8>>,
    pub language: Option<Seq<u8>>,
    pub thumbnail_url: Option<Seq<u8>>,
    pub published: bool,
    pub prerequisites: Seq<Seq<u8>>,
}

/// A module (chapter) of a course.
#[derive(Debug)]
pub struct CourseModule {
    pub id: Vec<u8>,
    pub course_id: Vec<u8>,
    pub position: u32,
    pub title: Vec<u8>,
    /// Ledger timestamp at which the module was added.
    pub created_at: u64,
}

/// A course module as a mathematical value.
pub struct ModuleView {
    pub id: Seq<u8>,
    pub course_id: Seq<u8>,
    pub position: u32,
    pub title: Seq<u8>,
    pub created_at: u64,
}

/// The view of an optional byte string.
pub open spec fn opt_view(o: Option<Vec<u8>>) -> Option<Seq<u8>> {
    match o {
        Some(v) => Some(v@),
        None => None,
    }
}

impl View for Course {
    type V = CourseView;

    open spec fn view(&self) -> CourseView {
        CourseView {
            id: self.id@,
            title: self.title@,
            description: self.description@,
            creator: self.creator@,
            price: self.price,
            category: opt_view(self.category),
            language: opt_view(self.language),
            thumbnail_url: opt_view(self.thumbnail_url),
            published: self.published,
            prerequisites: self.prerequisites@.map_values(|p: Vec<u8>| p@),
        }
    }
}

impl View for CourseModule {
    type V = ModuleView;

    open spec fn view(&self) -> ModuleView {
        ModuleView {
            id: self.id@,
            course_id: self.course_id@,
            position: self.position,
            title: self.title@,
            created_at: self.created_at,
        }
    }
}

/// Returns a fresh copy of an optional byte string.
pub fn copy_opt_bytes(o: &Option<Vec<u8>>) -> (r: Option<Vec<u8>>)
    ensures
        opt_view(r) == opt_view(*o),
{
    match o {
        Some(v) => Some(copy_bytes(v)),
        None => None,
    }
}

impl Course {
    /// Returns a copy of this course.
    pub fn duplicate(&self) -> (r: Course)
        ensures
            r@ == self@,
    {
        let mut prerequisites: Vec<Vec<u8>> = Vec::new();
        let mut i: usize = 0;
        while i < self.prerequisites.len()
            invariant
                i <= self.prerequisites@.len(),
                prerequisites@.len() == i,
                forall|j: int| 0 <= j < i ==> #[trigger] prerequisites@[j]@ == self.prerequisites@[j]@,
            decreases self.prerequisites@.len() - i,
        {
            prerequisites.push(copy_bytes(&self.prerequisites[i]));
            i += 1;
        }
        let r = Course {
            id: copy_bytes(&self.id),
            title: copy_bytes(&self.title),
            description: copy_bytes(&self.description),
            creator: copy_bytes(&self.creator),
            price: self.price,
            category: copy_opt_bytes(&self.category),
            language: copy_opt_bytes(&self.language),
            thumbnail_url: copy_opt_bytes(&self.thumbnail_url),
            published: self.published,
            prerequisites,
        };
        assert(r.prerequisites@.map_values(|p: Vec<u8>| p@) =~= self.prerequisites@.map_values(
            |p: Vec<u8>| p@,
        ));
        r
    }
}

impl CourseModule {
    /// Returns a copy of this module.
    pub fn duplicate(&self) -> (r: CourseModule)
        ensures
            r@ == self@,
    {
        CourseModule {
            id: copy_bytes(&self.id),
            course_id: copy_bytes(&self.course_id),
            position: self.position,
            title: copy_bytes(&self.title),
            created_at: self.created_at,
        }
    }
}

} // verus!
