//! Deleting courses together with their modules.
use vstd::prelude::*;

use crate::functions::add_module::{module_prefix, module_prefix_bytes, separator, separator_bytes};
use crate::storage::{Storage, StorageView};
use crate::utils::{
    bytes_equal, concat_strings, copy_bytes, decimal, lowercase, to_lowercase, u32_to_string, views,
};

verus! {

/// The bytes of `_0`, which end the module ids that deletion looks for.
pub open spec fn zero_suffix() -> Seq<u8> {
    seq![95u8, 48u8]
}

/// The module id that deletion probes at step `counter`:
/// `module_<course_id>_<counter>_0`.
pub open spec fn module_probe_key(course_id: Seq<u8>, counter: nat) -> Seq<u8> {
    module_prefix() + course_id + separator() + decimal(counter) + zero_suffix()
}

/// The ids of the modules that deleting course `course_id` removes, probing
/// from step `counter` on: the probe stops at the first absent id or after
/// step 1000, and keeps the ids whose module belongs to `course_id`.
pub open spec fn modules_to_delete(
    modules: Map<Seq<u8>, crate::schema::ModuleView>,
    course_id: Seq<u8>,
    counter: nat,
) -> Seq<Seq<u8>>
    decreases 1001 - counter,
{
    if counter > 1000 || !modules.dom().contains(module_probe_key(course_id, counter)) {
        Seq::empty()
    } else {
        let key = module_probe_key(course_id, counter);
        let rest = modules_to_delete(modules, course_id, counter + 1);
        if modules[key].course_id == course_id {
            seq![key] + rest
        } else {
            rest
        }
    }
}

/// What deleting course `course_id` does to storage `s`: the new storage and
/// the ids of the deleted modules, or the reason for refusing it.
pub open spec fn delete_course_outcome(s: StorageView, course_id: Seq<u8>) -> Result<
    (StorageView, Seq<Seq<u8>>),
    &'static str,
> {
    if course_id.len() == 0 {
        Err("Course ID cannot be empty")
    } else if !s.courses.dom().contains(course_id) {
        Err("Course not found")
    } else {
        let doomed = modules_to_delete(s.modules, course_id, 0);
        Ok(
            (
                StorageView {
                    courses: s.courses.remove(course_id),
                    titles: s.titles.remove(lowercase(s.courses[course_id].title)),
                    modules: s.modules.remove_keys(doomed.to_set()),
                    course_counter: s.course_counter,
                },
                doomed,
            ),
        )
    }
}

/// The bytes of `_0`.
fn zero_suffix_bytes() -> (r: Vec<u8>)
    ensures
        r@ == zero_suffix(),
{
    let r: Vec<u8> = vec![95u8, 48u8];
    assert(r@ =~= zero_suffix());
    r
}

/// Builds `module_<course_id>_<counter>_0`.
fn build_probe_key(course_id: &Vec<u8>, counter: u32) -> (r: Vec<u8>)
    ensures
        r@ == module_probe_key(course_id@, counter as nat),
{
    let parts: Vec<Vec<u8>> = vec![
        module_prefix_bytes(),
        copy_bytes(course_id),
        separator_bytes(),
        u32_to_string(counter),
        zero_suffix_bytes(),
    ];
    let r = concat_strings(&parts);
    proof {
        let v = views(parts@);
        assert(v =~= seq![
            module_prefix(),
            course_id@,
            separator(),
            decimal(counter as nat),
            zero_suffix(),
        ]);
        reveal_with_fuel(Seq::flatten, 6);
        assert(v.flatten() =~= module_probe_key(course_id@, counter as nat));
    }
    r
}

/// Deletes the modules of course `course_id` that sit under the probed ids
/// `module_<course_id>_<n>_0`, n = 0, 1, ..., and returns their ids.
fn delete_course_modules(storage: &mut Storage, course_id: &Vec<u8>) -> (deleted: Vec<Vec<u8>>)
    requires
        old(storage).wf(),
    ensures
        final(storage).wf(),
        views(deleted@) == modules_to_delete(old(storage)@.modules, course_id@, 0),
        final(storage)@ == (StorageView {
            modules: old(storage)@.modules.remove_keys(views(deleted@).to_set()),
            ..old(storage)@
        }),
{
    let ghost modules = storage@.modules;
    let mut modules_to_remove: Vec<Vec<u8>> = Vec::new();
    let mut counter: u32 = 0;
    loop
        invariant_except_break
            counter <= 1000,
        invariant
            storage.wf(),
            storage@.modules == modules,
            views(modules_to_remove@) + modules_to_delete(modules, course_id@, counter as nat)
                == modules_to_delete(modules, course_id@, 0),
        ensures
            storage@.modules == modules,
            views(modules_to_remove@) == modules_to_delete(modules, course_id@, 0),
        decreases 1001 - counter,
    {
        let module_id = build_probe_key(course_id, counter);
        let ghost before = views(modules_to_remove@);
        if storage.has_module(&module_id) {
            let belongs = match storage.get_module(&module_id) {
                Some(module) => bytes_equal(&module.course_id, course_id),
                None => false,
            };
            if belongs {
                modules_to_remove.push(module_id);
                assert(views(modules_to_remove@) =~= before.push(module_probe_key(course_id@, counter as nat)));
            }
            proof {
                let key = module_probe_key(course_id@, counter as nat);
                let rest = modules_to_delete(modules, course_id@, (counter + 1) as nat);
                if belongs {
                    assert(modules_to_delete(modules, course_id@, counter as nat) == seq![key] + rest);
                    assert(before + (seq![key] + rest) =~= before.push(key) + rest);
                } else {
                    assert(modules_to_delete(modules, course_id@, counter as nat) == rest);
                }
            }
        } else {
            assert(modules_to_delete(modules, course_id@, counter as nat) =~= Seq::<Seq<u8>>::empty());
            assert(before + Seq::<Seq<u8>>::empty() =~= before);
            break;
        }
        counter += 1;
        if counter > 1000 {
            assert(modules_to_delete(modules, course_id@, counter as nat) =~= Seq::<Seq<u8>>::empty());
            assert(views(modules_to_remove@) + Seq::<Seq<u8>>::empty() =~= views(modules_to_remove@));
            break;
        }
    }
    let ghost start = storage@;
    proof {
        assert(views(modules_to_remove@).take(0).to_set() =~= Set::<Seq<u8>>::empty());
        assert(modules.remove_keys(Set::<Seq<u8>>::empty()) =~= modules);
    }
    let mut i: usize = 0;
    while i < modules_to_remove.len()
        invariant
            storage.wf(),
            i <= modules_to_remove@.len(),
            storage@ == (StorageView {
                modules: modules.remove_keys(views(modules_to_remove@).take(i as int).to_set()),
                ..start
            }),
        decreases modules_to_remove@.len() - i,
    {
        let ghost done = views(modules_to_remove@).take(i as int).to_set();
        storage.remove_module(&modules_to_remove[i]);
        proof {
            let all = views(modules_to_remove@);
            assert(all.take(i + 1) =~= all.take(i as int).push(all[i as int]));
            let t1 = all.take(i + 1);
            let t0 = all.take(i as int);
            assert forall|x: Seq<u8>| t1.to_set().contains(x) == done.insert(all[i as int]).contains(x) by {
                if t1.contains(x) {
                    let k = choose|k: int| 0 <= k < t1.len() && #[trigger] t1[k] == x;
                    if k < i {
                        assert(t0[k] == x);
                    }
                }
                if t0.contains(x) {
                    let k = choose|k: int| 0 <= k < t0.len() && #[trigger] t0[k] == x;
                    assert(t1[k] == x);
                }
                if x == all[i as int] {
                    assert(t1[i as int] == x);
                }
            }
            assert(all.take(i + 1).to_set() =~= done.insert(all[i as int]));
            assert(modules.remove_keys(done).remove(all[i as int]) =~= modules.remove_keys(
                done.insert(all[i as int]),
            ));
        }
        i += 1;
    }
    assert(views(modules_to_remove@).take(modules_to_remove@.len() as int) =~= views(
        modules_to_remove@,
    ));
    modules_to_remove
}

/// Deletes course `course_id`: its modules (see `delete_course_modules`), its
/// title entry and the course itself. Returns the ids of the deleted modules,
/// one `module_deleted` event each; a deleted course gives one
/// `course_deleted` event.
pub fn course_registry_delete_course(storage: &mut Storage, course_id: Vec<u8>) -> (result: Result<
    Vec<Vec<u8>>,
    &'static str,
>)
    requires
        old(storage).wf(),
    ensures
        final(storage).wf(),
        match result {
            Ok(deleted) => delete_course_outcome(old(storage)@, course_id@) == Ok::<
                (StorageView, Seq<Seq<u8>>),
                &'static str,
            >((final(storage)@, views(deleted@))),
            Err(e) => delete_course_outcome(old(storage)@, course_id@) == Err::<
                (StorageView, Seq<Seq<u8>>),
                &'static str,
            >(e) && final(storage)@ == old(storage)@,
        },
{
    if course_id.len() == 0 {
        return Err("Course ID cannot be empty");
    }
    if !storage.has_course(&course_id) {
        return Err("Course not found");
    }
    let lowercase_title = match storage.get_course(&course_id) {
        Some(course) => to_lowercase(&course.title),
        None => {
            return Err("Course not found");
        },
    };
    let ghost before = storage@;
    let deleted = delete_course_modules(storage, &course_id);
    storage.remove_title(&lowercase_title);
    storage.remove_course(&course_id);
    proof {
        let expected = delete_course_outcome(before, course_id@);
        assert(expected == Ok::<(StorageView, Seq<Seq<u8>>), &'static str>((storage@, views(deleted@))));
    }
    Ok(deleted)
}

/// The probe step that deleting course `course_id` takes after it has read
/// the probe keys of steps `0..loaded` into `modules`, or `None` where it has
/// read all it needs: it stops after step 1000 and after the first probe key
/// under which nothing is stored.
pub open spec fn deletion_next_probe(
    modules: Map<Seq<u8>, crate::schema::ModuleView>,
    course_id: Seq<u8>,
    loaded: nat,
) -> Option<nat> {
    if loaded > 1000 || (loaded >= 1 && !modules.dom().contains(
        module_probe_key(course_id, (loaded - 1) as nat),
    )) {
        None
    } else {
        Some(loaded)
    }
}

/// The next module key that deleting course `course_id` reads, given that the
/// probe keys of steps `0..loaded` have been read into `storage`; `None` when
/// nothing more is read. A caller that fills a storage from elsewhere loads
/// these keys in turn.
pub fn next_module_key_to_load(storage: &Storage, course_id: &Vec<u8>, loaded: u32) -> (r: Option<
    Vec<u8>,
>)
    requires
        storage.wf(),
    ensures
        match deletion_next_probe(storage@.modules, course_id@, loaded as nat) {
            Some(step) => r is Some && r->0@ == module_probe_key(course_id@, step),
            None => r is None,
        },
{
    if loaded > 1000 {
        return None;
    }
    if loaded >= 1 {
        let last = build_probe_key(course_id, loaded - 1);
        if !storage.has_module(&last) {
            return None;
        }
    }
    Some(build_probe_key(course_id, loaded))
}

} // verus!
