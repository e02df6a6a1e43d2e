# course_registry

A registry of courses and course modules, verified with Verus.

- `src/utils.rs` — byte-string helpers: ASCII lower-casing, trimming of
  spaces and tabs, concatenation, decimal rendering.
- `src/table.rs` — a map from byte-string keys to values.
- `src/schema.rs` — courses and modules; `src/errors.rs` — refusal reasons.
- `src/storage.rs` — the contract's persistent storage (courses, the title
  index, modules, the course id counter).
- `src/functions/` — the operations: create a course, add a module, delete a
  course with its modules, list the courses of an instructor. Each states its
  exact outcome as a spec function over the storage view. `next_course_key`,
  `next_module_key_to_load` and `next_course_key_to_load` say which entries
  an operation reads, so that a caller can fill a `Storage` from the ledger.
- `src/laws.rs` — properties that span operations (sequential ids, unique
  titles regardless of case, unique module ids, deletion undoing creation, ...).
- `app/` — the Soroban side: host strings and addresses, ledger storage,
  ledger info and events, converted to and from the library's values.
