//! The persistent storage of the course contract.
//!
//! The contract keeps four kinds of entries: courses under
//! `("course", course id)`, a title index under `("title", lower-cased title)`,
//! modules under `("module", module id)`, and the last course id handed out
//! under the bare key `"course"`. `Storage` holds each kind in its own table.
use vstd::prelude::*;

use crate::schema::{Course, CourseModule, CourseView, ModuleView};
use crate::table::Table;

verus! {

/// The contract's persistent storage.
pub struct Storage {
    courses: Table<Course>,
    titles: Table<bool>,
    modules: Table<CourseModule>,
    course_counter: Option<u128>,
}

/// The contents of the storage as maps.
pub struct StorageView {
    pub courses: Map<Seq<u8>, CourseView>,
    pub titles: Map<Seq<u8>, bool>,
    pub modules: Map<Seq<u8>, ModuleView>,
    pub course_counter: Option<u128>,
}

impl View for Storage {
    type V = StorageView;

    closed spec fn view(&self) -> StorageView {
        StorageView {
            courses: self.courses@,
            titles: self.titles@,
            modules: self.modules@,
            course_counter: self.course_counter,
        }
    }
}

impl Storage {
    /// The internal tables are well formed.
    pub closed spec fn wf(&self) -> bool {
        self.courses.wf() && self.titles.wf() && self.modules.wf()
    }

    /// Empty storage, as a freshly deployed contract has it.
    pub fn new() -> (s: Storage)
        ensures
            s.wf(),
            s@.courses == Map::<Seq<u8>, CourseView>::empty(),
            s@.titles == Map::<Seq<u8>, bool>::empty(),
            s@.modules == Map::<Seq<u8>, ModuleView>::empty(),
            s@.course_counter is None,
    {
        Storage {
            courses: Table::new(),
            titles: Table::new(),
            modules: Table::new(),
            course_counter: None,
        }
    }

    /// Whether a course is stored under `id`.
    pub fn has_course(&self, id: &Vec<u8>) -> (r: bool)
        requires
            self.wf(),
        ensures
            r == self@.courses.dom().contains(id@),
    {
        self.courses.contains_key(id)
    }

    /// The course stored under `id`, if any.
    pub fn get_course(&self, id: &Vec<u8>) -> (r: Option<&Course>)
        requires
            self.wf(),
        ensures
            r is Some == self@.courses.dom().contains(id@),
            r matches Some(c) ==> c@ == self@.courses[id@],
    {
        self.courses.get(id)
    }

    /// Stores `course` under `id`.
    pub fn set_course(&mut self, id: Vec<u8>, course: Course)
        requires
            old(self).wf(),
        ensures
            final(self).wf(),
            final(self)@ == (StorageView {
                courses: old(self)@.courses.insert(id@, course@),
                ..old(self)@
            }),
    {
        self.courses.insert(id, course);
    }

    /// Removes the course stored under `id`, if any.
    pub fn remove_course(&mut self, id: &Vec<u8>)
        requires
            old(self).wf(),
        ensures
            final(self).wf(),
            final(self)@ == (StorageView { courses: old(self)@.courses.remove(id@), ..old(self)@ }),
    {
        self.courses.remove(id);
    }

    /// Whether the (lower-cased) title `title` is taken.
    pub fn has_title(&self, title: &Vec<u8>) -> (r: bool)
        requires
            self.wf(),
        ensures
            r == self@.titles.dom().contains(title@),
    {
        self.titles.contains_key(title)
    }

    /// Records `flag` under the (lower-cased) title `title`.
    pub fn set_title(&mut self, title: Vec<u8>, flag: bool)
        requires
            old(self).wf(),
        ensures
            final(self).wf(),
            final(self)@ == (StorageView {
                titles: old(self)@.titles.insert(title@, flag),
                ..old(self)@
            }),
    {
        self.titles.insert(title, flag);
    }

    /// Removes the title entry `title`, if any.
    pub fn remove_title(&mut self, title: &Vec<u8>)
        requires
            old(self).wf(),
        ensures
            final(self).wf(),
            final(self)@ == (StorageView { titles: old(self)@.titles.remove(title@), ..old(self)@ }),
    {
        self.titles.remove(title);
    }

    /// Whether a module is stored under `id`.
    pub fn has_module(&self, id: &Vec<u8>) -> (r: bool)
        requires
            self.wf(),
        ensures
            r == self@.modules.dom().contains(id@),
    {
        self.modules.contains_key(id)
    }

    /// The module stored under `id`, if any.
    pub fn get_module(&self, id: &Vec<u8>) -> (r: Option<&CourseModule>)
        requires
            self.wf(),
        ensures
            r is Some == self@.modules.dom().contains(id@),
            r matches Some(m) ==> m@ == self@.modules[id@],
    {
        self.modules.get(id)
    }

    /// Stores `module` under `id`.
    pub fn set_module(&mut self, id: Vec<u8>, module: CourseModule)
        requires
            old(self).wf(),
        ensures
            final(self).wf(),
            final(self)@ == (StorageView {
                modules: old(self)@.modules.insert(id@, module@),
                ..old(self)@
            }),
    {
        self.modules.insert(id, module);
    }

    /// Removes the module stored under `id`, if any.
    pub fn remove_module(&mut self, id: &Vec<u8>)
        requires
            old(self).wf(),
        ensures
            final(self).wf(),
            final(self)@ == (StorageView {
                modules: old(self)@.modules.remove(id@),
                ..old(self)@
            }),
    {
        self.modules.remove(id);
    }

    /// The last course id handed out, if any.
    pub fn course_counter(&self) -> (r: Option<u128>)
        ensures
            r == self@.course_counter,
    {
        self.course_counter
    }

    /// Records `n` as the last course id handed out.
    pub fn set_course_counter(&mut self, n: u128)
        requires
            old(self).wf(),
        ensures
            final(self).wf(),
            final(self)@ == (StorageView { course_counter: Some(n), ..old(self)@ }),
    {
        self.course_counter = Some(n);
    }
}

} // verus!
