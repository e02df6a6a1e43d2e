use course_registry::errors::CourseError;
use course_registry::functions::add_module::course_registry_add_module;
use course_registry::functions::create_course::{course_registry_create_course, generate_course_id};
use course_registry::functions::delete_course::course_registry_delete_course;
use course_registry::functions::get_courses_by_instructor::course_registry_get_courses_by_instructor;
use course_registry::schema::{Course, CourseModule};
use course_registry::storage::Storage;

fn text(s: &str) -> Vec<u8> {
    s.as_bytes().to_vec()
}

fn contract_address() -> Vec<u8> {
    text("CCOURSEREGISTRYCONTRACTADDRESS")
}

fn some_address(tag: &str) -> Vec<u8> {
    text(&format!("GACCOUNT{}", tag))
}

/// Runs a creation the way the contract does: a refusal aborts with its message.
fn create(
    storage: &mut Storage,
    title: Vec<u8>,
    description: Vec<u8>,
    price: u128,
    category: Option<Vec<u8>>,
    language: Option<Vec<u8>>,
    thumbnail_url: Option<Vec<u8>>,
) -> Course {
    match course_registry_create_course(
        storage,
        &contract_address(),
        title,
        description,
        price,
        category,
        language,
        thumbnail_url,
    ) {
        Ok(course) => course,
        Err(e) => panic!("{}", e.message()),
    }
}

/// Runs a module addition the way the contract does, at ledger sequence 0.
fn add_module(
    storage: &mut Storage,
    course_id: Vec<u8>,
    position: u32,
    title: Vec<u8>,
    timestamp: u64,
) -> CourseModule {
    match course_registry_add_module(storage, course_id, position, title, 0, timestamp) {
        Ok(module) => module,
        Err(e) => panic!("{}", e.message()),
    }
}

fn test_course(id: &str, creator: Vec<u8>, published: bool) -> Course {
    Course {
        id: text(id),
        title: text("Test Course"),
        description: text("Test Description"),
        creator,
        price: 1000,
        category: None,
        language: None,
        thumbnail_url: None,
        published,
        prerequisites: Vec::new(),
    }
}

// ------------------------------------------------------------------ add_module

#[test]
fn add_module_test_add_module_success() {
    let mut storage = Storage::new();
    let course_id = text("course_123");
    let position: u32 = 1;
    let title = text("Intro");
    storage.set_course(course_id.clone(), test_course("course_123", some_address("A"), true));

    let result = add_module(&mut storage, course_id.clone(), position, title.clone(), 100000);

    assert_eq!(result.course_id, course_id);
    assert_eq!(result.position, position);
    assert_eq!(result.title, title);
    assert_eq!(result.created_at, 100000);
}

#[test]
#[should_panic(expected = "Course with the specified ID does not exist")]
fn test_add_module_invalid_course() {
    let mut storage = Storage::new();
    add_module(&mut storage, text("invalid_course"), 1, text("Test Module"), 0);
}

#[test]
fn test_course_registry_add_module_generates_unique_ids() {
    let mut storage = Storage::new();
    let course_id = text("course_123");
    let course_id_second = text("course_234");
    let course = test_course("course_123", some_address("A"), true);
    storage.set_course(course_id.clone(), course.duplicate());
    storage.set_course(course_id_second.clone(), course);

    let result = add_module(&mut storage, course_id.clone(), 1, text("Introduction Module"), 100000);
    let result_second =
        add_module(&mut storage, course_id_second.clone(), 2, text("Second Module"), 100000);

    assert_eq!(result.id, text("module_course_123_1_0"));
    assert_eq!(result_second.id, text("module_course_234_2_0"));
}

#[test]
fn test_course_registry_add_module_storage_key_format() {
    let mut storage = Storage::new();
    let course_id = text("course_123");
    storage.set_course(course_id.clone(), test_course("course_123", some_address("A"), true));

    let result = add_module(&mut storage, course_id.clone(), 1, text("Introduction Module"), 100000);

    assert!(storage.has_module(&result.id));
    let stored_module = storage.get_module(&result.id).unwrap();
    assert_eq!(stored_module.id, result.id);
}

// --------------------------------------------------------------- create_course

#[test]
fn test_generate_course_id() {
    let mut storage = Storage::new();
    generate_course_id(&mut storage);
    let id: u128 = generate_course_id(&mut storage);
    assert_eq!(id, 2);
}

#[test]
fn create_course_test_add_module_success() {
    let mut storage = Storage::new();
    let title = text("title");
    let description = text("A description");
    let price: u128 = 1000;
    let category = Some(text("Programming"));
    let language = Some(text("English"));
    let thumbnail_url = Some(text("https://example.com/thumb.jpg"));

    create(
        &mut storage,
        title.clone(),
        description.clone(),
        price,
        category.clone(),
        language.clone(),
        thumbnail_url.clone(),
    );

    let course = storage.get_course(&text("1")).expect("Course should be stored");
    assert_eq!(course.title, title);
    assert_eq!(course.description, description);
    assert_eq!(course.id, text("1"));
    assert_eq!(course.price, price);
    assert_eq!(course.category, category);
    assert_eq!(course.language, language);
    assert_eq!(course.thumbnail_url, thumbnail_url);
    assert!(!course.published);
}

#[test]
fn test_add_module_success_multiple() {
    let mut storage = Storage::new();
    create(&mut storage, text("title"), text("A description"), 1000, None, None, None);
    let another_course_title = text("another title");
    let another_course_description = text("another description");
    create(
        &mut storage,
        another_course_title.clone(),
        another_course_description.clone(),
        2000,
        None,
        None,
        None,
    );

    let course = storage.get_course(&text("2")).expect("Course should be stored");
    assert_eq!(course.title, another_course_title);
    assert_eq!(course.description, another_course_description);
    assert_eq!(course.id, text("2"));
    assert_eq!(course.price, 2000);
}

#[test]
#[should_panic(expected = "Course error: Course Title already exists")]
fn test_cannot_create_courses_with_duplicate_title() {
    let mut storage = Storage::new();
    create(&mut storage, text("title"), text("A description"), 1000, None, None, None);
    create(&mut storage, text("title"), text("another description"), 1000, None, None, None);
}

#[test]
#[should_panic(expected = "Course error: Course Title cannot be empty")]
fn test_cannot_create_courses_with_empty_title() {
    let mut storage = Storage::new();
    create(&mut storage, text(""), text("A description"), 1000, None, None, None);
}

#[test]
#[should_panic(expected = "Course error: Price must be greater than 0")]
fn test_cannot_create_courses_with_zero_price() {
    let mut storage = Storage::new();
    create(&mut storage, text("Valid Title"), text("A description"), 0, None, None, None);
}

#[test]
#[should_panic(expected = "Course error: Course Title cannot be empty")]
fn test_cannot_create_courses_with_whitespace_only_title() {
    let mut storage = Storage::new();
    create(&mut storage, text("   "), text("A description"), 1000, None, None, None);
}

#[test]
#[should_panic(expected = "Course error: Course Title already exists")]
fn test_duplicate_title_case_insensitive() {
    let mut storage = Storage::new();
    create(&mut storage, text("Programming Basics"), text("A description"), 1000, None, None, None);
    create(&mut storage, text("PROGRAMMING BASICS"), text("A description"), 1000, None, None, None);
}

#[test]
fn test_create_course_with_long_title() {
    let mut storage = Storage::new();
    let long_title = text("This is a very long course title that contains many words and should still be valid for course creation as long as it is not empty");
    let course = create(&mut storage, long_title.clone(), text("A description"), 1500, None, None, None);
    assert_eq!(course.title, long_title);
    assert_eq!(course.price, 1500);
    assert_eq!(course.id, text("1"));
}

#[test]
fn test_create_course_with_special_characters() {
    let mut storage = Storage::new();
    let title = text("C++ & JavaScript: Advanced Programming!");
    let description = text("Learn C++ and JavaScript with special symbols: @#$%^&*()");
    let course = create(&mut storage, title.clone(), description.clone(), 2500, None, None, None);
    assert_eq!(course.title, title);
    assert_eq!(course.description, description);
    assert_eq!(course.price, 2500);
}

#[test]
fn test_create_course_with_maximum_price() {
    let mut storage = Storage::new();
    let title = text("Premium Course");
    let max_price: u128 = u128::MAX;
    let course =
        create(&mut storage, title.clone(), text("Most expensive course"), max_price, None, None, None);
    assert_eq!(course.price, max_price);
    assert_eq!(course.title, title);
}

#[test]
fn test_create_course_with_all_optional_fields() {
    let mut storage = Storage::new();
    let title = text("Complete Course");
    let description = text("Course with all fields");
    let category = Some(text("Web Development"));
    let language = Some(text("Spanish"));
    let thumbnail_url = Some(text("https://example.com/course-thumbnail.png"));
    let course = create(
        &mut storage,
        title.clone(),
        description.clone(),
        3000,
        category.clone(),
        language.clone(),
        thumbnail_url.clone(),
    );
    assert_eq!(course.title, title);
    assert_eq!(course.description, description);
    assert_eq!(course.price, 3000);
    assert_eq!(course.category, category);
    assert_eq!(course.language, language);
    assert_eq!(course.thumbnail_url, thumbnail_url);
    assert!(!course.published);
}

#[test]
fn test_create_course_with_partial_optional_fields() {
    let mut storage = Storage::new();
    let title = text("Partial Course");
    let category = Some(text("Data Science"));
    let course = create(
        &mut storage,
        title.clone(),
        text("Course with some optional fields"),
        1800,
        category.clone(),
        None,
        None,
    );
    assert_eq!(course.title, title);
    assert_eq!(course.price, 1800);
    assert_eq!(course.category, category);
    assert_eq!(course.language, None);
    assert_eq!(course.thumbnail_url, None);
}

#[test]
fn test_create_course_empty_description() {
    let mut storage = Storage::new();
    let title = text("Course with Empty Description");
    let description = text("");
    let course = create(&mut storage, title.clone(), description.clone(), 1200, None, None, None);
    assert_eq!(course.title, title);
    assert_eq!(course.description, description);
    assert_eq!(course.price, 1200);
}

#[test]
fn test_create_multiple_courses_sequential_ids() {
    let mut storage = Storage::new();
    let course1 = create(&mut storage, text("Course One"), text("First course"), 1000, None, None, None);
    let course2 = create(&mut storage, text("Course Two"), text("Second course"), 1000, None, None, None);
    let course3 =
        create(&mut storage, text("Course Three"), text("Third course"), 1000, None, None, None);
    assert_eq!(course1.id, text("1"));
    assert_eq!(course2.id, text("2"));
    assert_eq!(course3.id, text("3"));
}

#[test]
fn test_create_course_with_unicode_characters() {
    let mut storage = Storage::new();
    let title = text("Programación en Español 🚀");
    let description = text("Curso de programación con caracteres especiales: áéíóú ñ");
    let language = Some(text("Español"));
    let course = create(
        &mut storage,
        title.clone(),
        description.clone(),
        2000,
        None,
        language.clone(),
        None,
    );
    assert_eq!(course.title, title);
    assert_eq!(course.description, description);
    assert_eq!(course.language, language);
}

// --------------------------------------------------------------- delete_course

#[test]
fn test_delete_course_success() {
    let mut storage = Storage::new();
    let course_id = text("course_1");
    storage.set_course(course_id.clone(), test_course("course_1", some_address("A"), false));
    storage.set_title(text("test course"), true);

    let result = course_registry_delete_course(&mut storage, course_id.clone());

    assert!(result.is_ok());
    assert!(!storage.has_course(&course_id));
    assert!(!storage.has_title(&text("test course")));
}

#[test]
fn test_delete_course_with_modules() {
    let mut storage = Storage::new();
    let course_id = text("abc");
    let module = CourseModule {
        id: text("module_abc_0_0"),
        course_id: course_id.clone(),
        position: 0,
        title: text("Intro"),
        created_at: 0,
    };
    storage.set_course(course_id.clone(), test_course("abc", some_address("A"), false));
    storage.set_title(text("test course"), true);
    storage.set_module(module.id.clone(), module.duplicate());

    let result = course_registry_delete_course(&mut storage, course_id.clone());

    assert!(result.is_ok());
    assert!(!storage.has_course(&course_id));
    assert!(!storage.has_module(&module.id));
}

#[test]
fn test_delete_course_not_found() {
    let mut storage = Storage::new();
    let result = course_registry_delete_course(&mut storage, text("not_found"));
    assert_eq!(result.unwrap_err(), "Course not found");
}

#[test]
fn test_delete_course_empty_id() {
    let mut storage = Storage::new();
    let result = course_registry_delete_course(&mut storage, text(""));
    assert_eq!(result.unwrap_err(), "Course ID cannot be empty");
}

#[test]
fn test_delete_course_preserves_others() {
    let mut storage = Storage::new();
    let id1 = text("keep");
    let id2 = text("remove");
    storage.set_course(id1.clone(), test_course("keep", some_address("A"), false));
    storage.set_course(id2.clone(), test_course("remove", some_address("A"), false));
    storage.set_title(text("test course"), true);

    course_registry_delete_course(&mut storage, id2.clone()).unwrap();

    assert!(!storage.has_course(&id2));
    assert!(storage.has_course(&id1));
}

// ----------------------------------------------------- get_courses_by_instructor

#[test]
fn test_get_courses_by_instructor_empty() {
    let storage = Storage::new();
    let instructor = some_address("INSTRUCTOR");
    let courses = course_registry_get_courses_by_instructor(&storage, &instructor);
    assert_eq!(courses.len(), 0);
}

#[test]
fn test_get_courses_by_instructor_found() {
    let mut storage = Storage::new();
    let instructor = some_address("INSTRUCTOR");
    let course_id = text("1");
    let course = Course {
        id: course_id.clone(),
        title: text("Rust 101"),
        description: text("Intro to Rust"),
        creator: instructor.clone(),
        published: true,
        price: 1500,
        category: Some(text("Programming")),
        language: Some(text("English")),
        thumbnail_url: None,
        prerequisites: Vec::new(),
    };
    storage.set_course(course_id.clone(), course);

    let results = course_registry_get_courses_by_instructor(&storage, &instructor);

    assert_eq!(results.len(), 1);
    assert_eq!(results[0].id, course_id);
}

#[test]
fn refused_creation_message_matches_contract_text() {
    assert_eq!(CourseError::EmptyTitle.message(), "Course error: Course Title cannot be empty");
}
