//! Adding modules to courses.
use vstd::prelude::*;

use crate::errors::CourseError;
use crate::schema::{CourseModule, ModuleView};
use crate::storage::{Storage, StorageView};
use crate::utils::{concat_strings, copy_bytes, decimal, u32_to_string, views};

verus! {

/// The bytes of `module_`, which every module id starts with.
pub open spec fn module_prefix() -> Seq<u8> {
    seq![109u8, 111u8, 100u8, 117u8, 108u8, 101u8, 95u8]
}

/// The bytes of `_`, which separates the parts of a module id.
pub open spec fn separator() -> Seq<u8> {
    seq![95u8]
}

/// The id of the module of course `course_id` at `position`, added at ledger
/// sequence number `ledger_sequence`:
/// `module_<course_id>_<position>_<ledger_sequence>`.
pub open spec fn module_id_of(course_id: Seq<u8>, position: nat, ledger_sequence: nat) -> Seq<u8> {
    module_prefix() + course_id + separator() + decimal(position) + separator() + decimal(
        ledger_sequence,
    )
}

/// What adding a module does to storage `s`: the new storage and the new
/// module, or the reason for refusing it.
pub open spec fn add_module_outcome(
    s: StorageView,
    course_id: Seq<u8>,
    position: u32,
    title: Seq<u8>,
    ledger_sequence: u32,
    ledger_timestamp: u64,
) -> Result<(StorageView, ModuleView), CourseError> {
    if !s.courses.dom().contains(course_id) {
        Err(CourseError::CourseNotFound)
    } else {
        let module = ModuleView {
            id: module_id_of(course_id, position as nat, ledger_sequence as nat),
            course_id,
            position,
            title,
            created_at: ledger_timestamp,
        };
        Ok((StorageView { modules: s.modules.insert(module.id, module), ..s }, module))
    }
}

/// The bytes of `module_`.
pub fn module_prefix_bytes() -> (r: Vec<u8>)
    ensures
        r@ == module_prefix(),
{
    let r: Vec<u8> = vec![109u8, 111u8, 100u8, 117u8, 108u8, 101u8, 95u8];
    assert(r@ =~= module_prefix());
    r
}

/// The bytes of `_`.
pub fn separator_bytes() -> (r: Vec<u8>)
    ensures
        r@ == separator(),
{
    let r: Vec<u8> = vec![95u8];
    assert(r@ =~= separator());
    r
}

/// Builds the module id `module_<course_id>_<position>_<ledger_sequence>`.
pub fn build_module_id(course_id: &Vec<u8>, position: u32, ledger_sequence: u32) -> (r: Vec<u8>)
    ensures
        r@ == module_id_of(course_id@, position as nat, ledger_sequence as nat),
{
    let parts: Vec<Vec<u8>> = vec![
        module_prefix_bytes(),
        copy_bytes(course_id),
        separator_bytes(),
        u32_to_string(position),
        separator_bytes(),
        u32_to_string(ledger_sequence),
    ];
    let r = concat_strings(&parts);
    proof {
        let v = views(parts@);
        assert(v =~= seq![
            module_prefix(),
            course_id@,
            separator(),
            decimal(position as nat),
            separator(),
            decimal(ledger_sequence as nat),
        ]);
        reveal_with_fuel(Seq::flatten, 7);
        assert(v.flatten() =~= module_id_of(course_id@, position as nat, ledger_sequence as nat));
    }
    r
}

/// Adds a module titled `title` at `position` to the course `course_id`. The
/// module is stamped with the ledger's timestamp and gets the id
/// `module_<course_id>_<position>_<ledger_sequence>`, under which it is stored.
pub fn course_registry_add_module(
    storage: &mut Storage,
    course_id: Vec<u8>,
    position: u32,
    title: Vec<u8>,
    ledger_sequence: u32,
    ledger_timestamp: u64,
) -> (result: Result<CourseModule, CourseError>)
    requires
        old(storage).wf(),
    ensures
        final(storage).wf(),
        match result {
            Ok(module) => add_module_outcome(
                old(storage)@,
                course_id@,
                position,
                title@,
                ledger_sequence,
                ledger_timestamp,
            ) == Ok::<(StorageView, ModuleView), CourseError>((final(storage)@, module@)),
            Err(e) => add_module_outcome(
                old(storage)@,
                course_id@,
                position,
                title@,
                ledger_sequence,
                ledger_timestamp,
            ) == Err::<(StorageView, ModuleView), CourseError>(e) && final(storage)@ == old(
                storage,
            )@,
        },
{
    if !storage.has_course(&course_id) {
        return Err(CourseError::CourseNotFound);
    }
    let module_id = build_module_id(&course_id, position, ledger_sequence);
    let module = CourseModule {
        id: copy_bytes(&module_id),
        course_id,
        position,
        title,
        created_at: ledger_timestamp,
    };
    storage.set_module(module_id, module.duplicate());
    Ok(module)
}

} // verus!
