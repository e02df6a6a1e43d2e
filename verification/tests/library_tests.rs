use course_registry::errors::CourseError;
use course_registry::functions::add_module::{build_module_id, course_registry_add_module};
use course_registry::functions::create_course::{course_registry_create_course, next_course_key};
use course_registry::functions::delete_course::{course_registry_delete_course, next_module_key_to_load};
use course_registry::functions::get_courses_by_instructor::{
    course_registry_get_courses_by_instructor, next_course_key_to_load,
};
use course_registry::schema::{Course, CourseModule};
use course_registry::storage::Storage;
use course_registry::utils::{
    bytes_equal, concat_strings, copy_bytes, to_lowercase, trim, u128_to_string, u32_to_string,
};

fn text(s: &str) -> Vec<u8> {
    s.as_bytes().to_vec()
}

fn creator() -> Vec<u8> {
    text("CCONTRACT")
}

fn create(storage: &mut Storage, title: &str, price: u128) -> Result<Course, CourseError> {
    course_registry_create_course(
        storage,
        &creator(),
        text(title),
        text("description"),
        price,
        None,
        None,
        None,
    )
}

fn course(id: &str, title: &str, creator: &[u8]) -> Course {
    Course {
        id: text(id),
        title: text(title),
        description: text("d"),
        creator: creator.to_vec(),
        price: 10,
        category: None,
        language: None,
        thumbnail_url: None,
        published: true,
        prerequisites: vec![text("0")],
    }
}

fn module(id: &str, course_id: &str) -> CourseModule {
    CourseModule {
        id: text(id),
        course_id: text(course_id),
        position: 0,
        title: text("m"),
        created_at: 7,
    }
}

// ------------------------------------------------------------------ text helpers

#[test]
fn lowercase_maps_only_ascii_capitals() {
    assert_eq!(to_lowercase(&text("Hello, WORLD! Ñ 123")), text("hello, world! Ñ 123"));
    assert_eq!(to_lowercase(&text("")), text(""));
}

#[test]
fn lowercase_twice_is_lowercase_once() {
    let once = to_lowercase(&text("MiXeD CaSe"));
    assert_eq!(to_lowercase(&once), once);
    assert_eq!(once.len(), "MiXeD CaSe".len());
}

#[test]
fn trim_strips_spaces_and_tabs_only() {
    assert_eq!(trim(&text(" \t  abc def \t ")), text("abc def"));
    assert_eq!(trim(&text("\nabc\n")), text("\nabc\n"));
    assert_eq!(trim(&text("   ")), text(""));
    assert_eq!(trim(&text("")), text(""));
    assert_eq!(trim(&text("x")), text("x"));
}

#[test]
fn trim_twice_is_trim_once() {
    let once = trim(&text("\t  a b  "));
    assert_eq!(trim(&once), once);
}

#[test]
fn trim_accepts_exactly_1024_bytes() {
    let mut s = vec![32u8; 1024];
    s[500] = b'z';
    assert_eq!(trim(&s), text("z"));
}

#[test]
fn decimal_rendering() {
    assert_eq!(u32_to_string(0), text("0"));
    assert_eq!(u32_to_string(7), text("7"));
    assert_eq!(u32_to_string(10), text("10"));
    assert_eq!(u32_to_string(1234567890), text("1234567890"));
    assert_eq!(u32_to_string(u32::MAX), text("4294967295"));
    assert_eq!(u128_to_string(u128::MAX), text("340282366920938463463374607431768211455"));
}

#[test]
fn concat_keeps_order() {
    let parts = vec![text("ab"), text(""), text("c"), text("_d")];
    assert_eq!(concat_strings(&parts), text("abc_d"));
    assert_eq!(concat_strings(&Vec::new()), text(""));
}

#[test]
fn byte_equality_and_copy() {
    assert!(bytes_equal(&text("abc"), &text("abc")));
    assert!(!bytes_equal(&text("abc"), &text("abd")));
    assert!(!bytes_equal(&text("abc"), &text("ab")));
    assert_eq!(copy_bytes(&text("xyz")), text("xyz"));
}

// ------------------------------------------------------------------ creation

#[test]
fn first_course_gets_id_one_and_is_stored() {
    let mut storage = Storage::new();
    let c = create(&mut storage, "Rust", 5).unwrap();
    assert_eq!(c.id, text("1"));
    assert_eq!(c.creator, creator());
    assert!(c.prerequisites.is_empty());
    assert_eq!(storage.course_counter(), Some(1));
    assert_eq!(storage.get_course(&text("1")).unwrap().title, text("Rust"));
    assert!(storage.has_title(&text("rust")));
}

#[test]
fn ids_continue_from_the_counter() {
    let mut storage = Storage::new();
    storage.set_course_counter(41);
    let c = create(&mut storage, "Later", 5).unwrap();
    assert_eq!(c.id, text("42"));
    let d = create(&mut storage, "Later still", 5).unwrap();
    assert_eq!(d.id, text("43"));
}

#[test]
fn too_long_title_is_refused_and_storage_unchanged() {
    let mut storage = Storage::new();
    let long = "a".repeat(1025);
    let r = create(&mut storage, &long, 5);
    assert_eq!(r.unwrap_err(), CourseError::TitleTooLong);
    assert_eq!(CourseError::TitleTooLong.message(), "String too long for fixed-size buffer");
    assert_eq!(storage.course_counter(), None);
    assert!(!storage.has_course(&text("1")));
    let ok = "b".repeat(1024);
    assert!(create(&mut storage, &ok, 5).is_ok());
}

#[test]
fn each_refusal_has_its_reason() {
    let mut storage = Storage::new();
    assert_eq!(create(&mut storage, "", 5).unwrap_err(), CourseError::EmptyTitle);
    assert_eq!(create(&mut storage, " \t ", 5).unwrap_err(), CourseError::EmptyTitle);
    assert_eq!(create(&mut storage, "Fine", 0).unwrap_err(), CourseError::ZeroPrice);
    create(&mut storage, "Fine", 1).unwrap();
    assert_eq!(create(&mut storage, "fINE", 1).unwrap_err(), CourseError::DuplicateTitle);
    assert_eq!(
        CourseError::ZeroPrice.message(),
        "Course error: Price must be greater than 0"
    );
    assert_eq!(
        CourseError::DuplicateTitle.message(),
        "Course error: Course Title already exists"
    );
}

#[test]
fn occupied_next_id_is_refused_and_counter_kept() {
    let mut storage = Storage::new();
    storage.set_course(text("1"), course("1", "Squatter", b"X"));
    let r = create(&mut storage, "New", 5);
    assert_eq!(r.unwrap_err(), CourseError::DuplicateId);
    assert_eq!(CourseError::DuplicateId.message(), "Course with this ID already exists");
    assert_eq!(storage.course_counter(), None);
    assert!(!storage.has_title(&text("new")));
}

#[test]
fn exhausted_counter_is_refused() {
    let mut storage = Storage::new();
    storage.set_course_counter(u128::MAX);
    assert_eq!(create(&mut storage, "New", 5).unwrap_err(), CourseError::IdOverflow);
    assert_eq!(storage.course_counter(), Some(u128::MAX));
}

#[test]
fn padded_title_is_stored_as_given_and_indexed_lowercased() {
    let mut storage = Storage::new();
    let c = create(&mut storage, "  Go Lang ", 5).unwrap();
    assert_eq!(c.title, text("  Go Lang "));
    assert!(storage.has_title(&text("  go lang ")));
    assert!(!storage.has_title(&text("go lang")));
}

// ------------------------------------------------------------------ modules

#[test]
fn module_id_format() {
    assert_eq!(build_module_id(&text("c"), 12, 345), text("module_c_12_345"));
    assert_eq!(build_module_id(&text(""), 0, 0), text("module__0_0"));
}

#[test]
fn module_ids_differ_for_lookalike_courses() {
    let a = build_module_id(&text("a_1"), 2, 0);
    let b = build_module_id(&text("a"), 12, 0);
    let c = build_module_id(&text("a"), 1, 20);
    assert_ne!(a, b);
    assert_ne!(a, c);
    assert_ne!(b, c);
}

#[test]
fn add_module_stamps_sequence_and_time() {
    let mut storage = Storage::new();
    storage.set_course(text("7"), course("7", "T", b"X"));
    let m = course_registry_add_module(&mut storage, text("7"), 3, text("Ch3"), 99, 1234).unwrap();
    assert_eq!(m.id, text("module_7_3_99"));
    assert_eq!(m.created_at, 1234);
    assert_eq!(storage.get_module(&m.id).unwrap().title, text("Ch3"));
}

#[test]
fn add_module_to_missing_course_changes_nothing() {
    let mut storage = Storage::new();
    let r = course_registry_add_module(&mut storage, text("7"), 3, text("Ch3"), 0, 0);
    assert_eq!(r.unwrap_err(), CourseError::CourseNotFound);
    assert!(!storage.has_module(&text("module_7_3_0")));
}

// ------------------------------------------------------------------ deletion

#[test]
fn delete_undoes_create() {
    let mut storage = Storage::new();
    let c = create(&mut storage, "Temporary", 5).unwrap();
    let deleted = course_registry_delete_course(&mut storage, c.id.clone()).unwrap();
    assert!(deleted.is_empty());
    assert!(!storage.has_course(&c.id));
    assert!(!storage.has_title(&text("temporary")));
    // the title is free again; the counter keeps going
    let again = create(&mut storage, "TEMPORARY", 5).unwrap();
    assert_eq!(again.id, text("2"));
}

#[test]
fn delete_probes_modules_until_first_gap() {
    let mut storage = Storage::new();
    storage.set_course(text("c"), course("c", "T", b"X"));
    storage.set_module(text("module_c_0_0"), module("module_c_0_0", "c"));
    storage.set_module(text("module_c_1_0"), module("module_c_1_0", "c"));
    storage.set_module(text("module_c_3_0"), module("module_c_3_0", "c"));
    let deleted = course_registry_delete_course(&mut storage, text("c")).unwrap();
    assert_eq!(deleted, vec![text("module_c_0_0"), text("module_c_1_0")]);
    assert!(!storage.has_module(&text("module_c_0_0")));
    assert!(!storage.has_module(&text("module_c_1_0")));
    assert!(storage.has_module(&text("module_c_3_0")));
}

#[test]
fn delete_keeps_modules_of_other_courses() {
    let mut storage = Storage::new();
    storage.set_course(text("c"), course("c", "T", b"X"));
    // stored under a probed id, but belonging to another course
    storage.set_module(text("module_c_0_0"), module("module_c_0_0", "other"));
    storage.set_module(text("module_c_1_0"), module("module_c_1_0", "c"));
    let deleted = course_registry_delete_course(&mut storage, text("c")).unwrap();
    assert_eq!(deleted, vec![text("module_c_1_0")]);
    assert!(storage.has_module(&text("module_c_0_0")));
    assert!(!storage.has_module(&text("module_c_1_0")));
}

#[test]
fn delete_removes_lowercased_title_of_stored_course() {
    let mut storage = Storage::new();
    storage.set_course(text("c"), course("c", "Mixed Title", b"X"));
    storage.set_title(text("mixed title"), true);
    storage.set_title(text("other"), true);
    course_registry_delete_course(&mut storage, text("c")).unwrap();
    assert!(!storage.has_title(&text("mixed title")));
    assert!(storage.has_title(&text("other")));
}

#[test]
fn refused_delete_changes_nothing() {
    let mut storage = Storage::new();
    storage.set_course(text("c"), course("c", "T", b"X"));
    assert_eq!(course_registry_delete_course(&mut storage, text("d")).unwrap_err(), "Course not found");
    assert!(storage.has_course(&text("c")));
}

// ------------------------------------------------------------------ listing

#[test]
fn listing_filters_by_creator_in_id_order() {
    let mut storage = Storage::new();
    storage.set_course(text("1"), course("1", "A", b"ALICE"));
    storage.set_course(text("2"), course("2", "B", b"BOB"));
    storage.set_course(text("3"), course("3", "C", b"ALICE"));
    let alice = course_registry_get_courses_by_instructor(&storage, &text("ALICE"));
    assert_eq!(alice.len(), 2);
    assert_eq!(alice[0].title, text("A"));
    assert_eq!(alice[1].title, text("C"));
    assert_eq!(alice[0].prerequisites, vec![text("0")]);
}

#[test]
fn listing_stops_at_first_missing_id() {
    let mut storage = Storage::new();
    storage.set_course(text("1"), course("1", "A", b"ALICE"));
    storage.set_course(text("3"), course("3", "C", b"ALICE"));
    let alice = course_registry_get_courses_by_instructor(&storage, &text("ALICE"));
    assert_eq!(alice.len(), 1);
}

#[test]
fn listing_finds_created_courses() {
    let mut storage = Storage::new();
    create(&mut storage, "One", 1).unwrap();
    create(&mut storage, "Two", 1).unwrap();
    let mine = course_registry_get_courses_by_instructor(&storage, &creator());
    assert_eq!(mine.len(), 2);
    assert_eq!(mine[1].id, text("2"));
}

// ------------------------------------------------------------ what to load

#[test]
fn listing_loader_names_ids_until_first_gap() {
    let mut storage = Storage::new();
    assert_eq!(next_course_key_to_load(&storage, 0), Some(text("1")));
    assert_eq!(next_course_key_to_load(&storage, 1), None);
    storage.set_course(text("1"), course("1", "A", b"ALICE"));
    assert_eq!(next_course_key_to_load(&storage, 1), Some(text("2")));
    assert_eq!(next_course_key_to_load(&storage, 2), None);
    storage.set_course(text("1000"), course("1000", "Z", b"ALICE"));
    assert_eq!(next_course_key_to_load(&storage, 1000), None);
}

#[test]
fn deletion_loader_names_probe_keys_until_first_gap() {
    let mut storage = Storage::new();
    let c = text("c");
    assert_eq!(next_module_key_to_load(&storage, &c, 0), Some(text("module_c_0_0")));
    assert_eq!(next_module_key_to_load(&storage, &c, 1), None);
    storage.set_module(text("module_c_0_0"), module("module_c_0_0", "c"));
    assert_eq!(next_module_key_to_load(&storage, &c, 1), Some(text("module_c_1_0")));
    storage.set_module(text("module_c_1000_0"), module("module_c_1000_0", "c"));
    assert_eq!(next_module_key_to_load(&storage, &c, 1001), None);
}

#[test]
fn next_course_key_follows_counter() {
    let mut storage = Storage::new();
    assert_eq!(next_course_key(&storage), Some(text("1")));
    storage.set_course_counter(99);
    assert_eq!(next_course_key(&storage), Some(text("100")));
    storage.set_course_counter(u128::MAX);
    assert_eq!(next_course_key(&storage), None);
}

#[test]
fn listing_after_creations_is_exactly_the_created_courses() {
    let mut storage = Storage::new();
    let mut created = Vec::new();
    for i in 0..5 {
        created.push(create(&mut storage, &format!("Course {}", i), 1).unwrap());
    }
    let mine = course_registry_get_courses_by_instructor(&storage, &creator());
    assert_eq!(mine.len(), 5);
    for i in 0..5 {
        assert_eq!(mine[i].id, created[i].id);
        assert_eq!(mine[i].title, created[i].title);
    }
    assert!(course_registry_get_courses_by_instructor(&storage, &text("SOMEONE ELSE")).is_empty());
}
