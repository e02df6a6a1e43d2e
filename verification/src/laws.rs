//! Properties of the registry that span several operations, and of its text
//! helpers, proved over the outcome functions that the operations' contracts
//! use.
use vstd::prelude::*;

use crate::errors::CourseError;
use crate::functions::add_module::{add_module_outcome, module_id_of, module_prefix, separator};
use crate::functions::create_course::{create_course_outcome, next_course_id};
use crate::functions::delete_course::{
    deletion_next_probe, delete_course_outcome, module_probe_key, modules_to_delete, zero_suffix,
};
use crate::functions::get_courses_by_instructor::{courses_by_instructor_from, listing_next_probe};
use crate::schema::{CourseView, ModuleView};
use crate::storage::StorageView;
use crate::utils::{ascii_lower, decimal, is_blank, lowercase, trim_end, trim_start, trimmed};

verus! {

// ---------------------------------------------------------------- decimal text

/// Decimal notation is never empty and holds only the digits `0`..=`9`.
pub proof fn lemma_decimal_digits(n: nat)
    ensures
        decimal(n).len() >= 1,
        forall|i: int| 0 <= i < decimal(n).len() ==> 48 <= #[trigger] decimal(n)[i] <= 57,
    decreases n,
{
    if n >= 10 {
        lemma_decimal_digits(n / 10);
    }
}

/// Different numbers have different decimal notations.
pub proof fn law_decimal_injective(a: nat, b: nat)
    requires
        decimal(a) == decimal(b),
    ensures
        a == b,
    decreases a,
{
    if a < 10 && b < 10 {
        assert(decimal(a)[0] == decimal(b)[0]);
        assert(decimal(a)[0] == 48 + a);
        assert(decimal(b)[0] == 48 + b);
    } else if a < 10 {
        lemma_decimal_digits(b / 10);
        assert(decimal(b).len() >= 2);
    } else if b < 10 {
        lemma_decimal_digits(a / 10);
        assert(decimal(a).len() >= 2);
    } else {
        let da = decimal(a / 10);
        let db = decimal(b / 10);
        assert(decimal(a).last() == decimal(b).last());
        assert(decimal(a).last() == 48 + a % 10);
        assert(decimal(b).last() == 48 + b % 10);
        assert(decimal(a).drop_last() =~= da);
        assert(decimal(b).drop_last() =~= db);
        law_decimal_injective(a / 10, b / 10);
    }
}

/// A byte string with no `_` in it.
pub open spec fn no_separator(s: Seq<u8>) -> bool {
    forall|i: int| 0 <= i < s.len() ==> #[trigger] s[i] != 95u8
}

proof fn lemma_decimal_no_separator(n: nat)
    ensures
        no_separator(decimal(n)),
{
    lemma_decimal_digits(n);
}

/// `x + "_" + d` determines `x` and `d` when `d` holds no `_`.
proof fn lemma_split_last_separator(x1: Seq<u8>, d1: Seq<u8>, x2: Seq<u8>, d2: Seq<u8>)
    requires
        x1 + separator() + d1 == x2 + separator() + d2,
        no_separator(d1),
        no_separator(d2),
    ensures
        x1 == x2,
        d1 == d2,
{
    let s = x1 + separator() + d1;
    let t = x2 + separator() + d2;
    assert(s.len() == t.len());
    if d1.len() < d2.len() {
        let p = x1.len() as int;
        assert(s[p] == 95u8);
        assert(t[p] == d2[p - x2.len() - 1]);
        assert(false);
    }
    if d2.len() < d1.len() {
        let p = x2.len() as int;
        assert(t[p] == 95u8);
        assert(s[p] == d1[p - x1.len() - 1]);
        assert(false);
    }
    assert(x1 =~= s.subrange(0, x1.len() as int));
    assert(x2 =~= t.subrange(0, x2.len() as int));
    assert(d1 =~= s.subrange(s.len() - d1.len(), s.len() as int));
    assert(d2 =~= t.subrange(t.len() - d2.len(), t.len() as int));
}

/// Module ids are unique: the id `module_<course>_<position>_<sequence>`
/// determines the course id, the position and the ledger sequence number.
pub proof fn law_module_ids_are_unique(c1: Seq<u8>, p1: nat, q1: nat, c2: Seq<u8>, p2: nat, q2: nat)
    requires
        module_id_of(c1, p1, q1) == module_id_of(c2, p2, q2),
    ensures
        c1 == c2,
        p1 == p2,
        q1 == q2,
{
    lemma_decimal_no_separator(p1);
    lemma_decimal_no_separator(p2);
    lemma_decimal_no_separator(q1);
    lemma_decimal_no_separator(q2);
    let a1 = module_prefix() + c1 + separator() + decimal(p1);
    let a2 = module_prefix() + c2 + separator() + decimal(p2);
    lemma_split_last_separator(a1, decimal(q1), a2, decimal(q2));
    lemma_split_last_separator(module_prefix() + c1, decimal(p1), module_prefix() + c2, decimal(p2));
    assert(c1 =~= (module_prefix() + c1).skip(7));
    assert(c2 =~= (module_prefix() + c2).skip(7));
    law_decimal_injective(p1, p2);
    law_decimal_injective(q1, q2);
}

// ------------------------------------------------------------ lower-casing text

/// Lower-casing keeps the length and lower-casing twice is lower-casing once.
pub proof fn law_lowercase_idempotent(s: Seq<u8>)
    ensures
        lowercase(s).len() == s.len(),
        lowercase(lowercase(s)) == lowercase(s),
        forall|i: int| 0 <= i < s.len() ==> !(65 <= #[trigger] lowercase(s)[i] <= 90),
        forall|i: int|
            0 <= i < s.len() ==> if 65 <= #[trigger] s[i] <= 90 {
                lowercase(s)[i] == s[i] + 32
            } else {
                lowercase(s)[i] == s[i]
            },
{
    assert forall|i: int| 0 <= i < s.len() implies ascii_lower(ascii_lower(#[trigger] s[i]))
        == ascii_lower(s[i]) by {}
    assert(lowercase(lowercase(s)) =~= lowercase(s));
}

// ------------------------------------------------------------------- trimming

proof fn lemma_trim_start_shape(s: Seq<u8>)
    ensures
        trim_start(s).len() == 0 || !is_blank(trim_start(s)[0]),
        trim_start(s).len() <= s.len(),
        trim_start(s) == s.skip(s.len() - trim_start(s).len()),
        forall|i: int| 0 <= i < s.len() - trim_start(s).len() ==> is_blank(#[trigger] s[i]),
    decreases s.len(),
{
    if s.len() > 0 && is_blank(s[0]) {
        lemma_trim_start_shape(s.drop_first());
        let t = trim_start(s.drop_first());
        assert(s.drop_first().skip(s.drop_first().len() - t.len()) =~= s.skip(s.len() - t.len()));
        assert forall|i: int| 0 <= i < s.len() - t.len() implies is_blank(#[trigger] s[i]) by {
            if i > 0 {
                assert(s[i] == s.drop_first()[i - 1]);
            }
        }
    } else {
        assert(s.skip(0) =~= s);
    }
}

proof fn lemma_trim_end_shape(s: Seq<u8>)
    ensures
        trim_end(s).len() <= s.len(),
        trim_end(s) == s.take(trim_end(s).len() as int),
        trim_end(s).len() == 0 || !is_blank(trim_end(s).last()),
        forall|i: int| trim_end(s).len() <= i < s.len() ==> is_blank(#[trigger] s[i]),
    decreases s.len(),
{
    if s.len() > 0 && is_blank(s.last()) {
        lemma_trim_end_shape(s.drop_last());
        let t = trim_end(s.drop_last());
        assert(s.drop_last().take(t.len() as int) =~= s.take(t.len() as int));
        assert forall|i: int| t.len() <= i < s.len() implies is_blank(#[trigger] s[i]) by {
            if i < s.len() - 1 {
                assert(s[i] == s.drop_last()[i]);
            }
        }
    } else {
        assert(s.take(s.len() as int) =~= s);
    }
}

/// Trimming keeps a contiguous middle part of the string and removes only
/// spaces and tabs before and after it.
pub proof fn law_trim_removes_only_outer_blanks(s: Seq<u8>)
    ensures
        exists|a: int, b: int|
            0 <= a <= b <= s.len() && trimmed(s) == s.subrange(a, b) && (forall|i: int|
                0 <= i < a ==> is_blank(#[trigger] s[i])) && (forall|i: int|
                b <= i < s.len() ==> is_blank(#[trigger] s[i])),
{
    let u = trim_start(s);
    lemma_trim_start_shape(s);
    lemma_trim_end_shape(u);
    let a = s.len() - u.len();
    let b = a + trimmed(s).len();
    assert(trimmed(s) =~= s.subrange(a, b));
    assert forall|i: int| b <= i < s.len() implies is_blank(#[trigger] s[i]) by {
        assert(s[i] == u[i - a]);
    }
}

/// A trimmed string starts and ends with a byte other than space or tab, and
/// trimming it again changes nothing.
pub proof fn law_trim_idempotent(s: Seq<u8>)
    ensures
        trimmed(s).len() == 0 || (!is_blank(trimmed(s)[0]) && !is_blank(trimmed(s).last())),
        trimmed(trimmed(s)) == trimmed(s),
{
    let u = trim_start(s);
    let r = trimmed(s);
    lemma_trim_start_shape(s);
    lemma_trim_end_shape(u);
    if r.len() > 0 {
        assert(r[0] == u[0]);
        assert(trim_start(r) == r);
        assert(trim_end(r) == r);
    } else {
        assert(trim_start(r) == r);
        assert(trim_end(r) == r);
    }
}

// ------------------------------------------------------------ creating courses

/// A created course is stored under its id, which is the decimal notation of
/// the next course id, and the counter advances to that id.
pub proof fn law_created_course_is_stored(
    s: StorageView,
    creator: Seq<u8>,
    title: Seq<u8>,
    description: Seq<u8>,
    price: u128,
    category: Option<Seq<u8>>,
    language: Option<Seq<u8>>,
    thumbnail_url: Option<Seq<u8>>,
    s1: StorageView,
    course: CourseView,
)
    requires
        create_course_outcome(s, creator, title, description, price, category, language, thumbnail_url)
            == Ok::<(StorageView, CourseView), CourseError>((s1, course)),
    ensures
        course.id == decimal(next_course_id(s.course_counter) as nat),
        s1.course_counter == Some(next_course_id(s.course_counter) as u128),
        s1.courses.dom().contains(course.id),
        s1.courses[course.id] == course,
        s1.titles.dom().contains(lowercase(title)),
        s1.titles == s.titles.insert(lowercase(title), true),
        course.title == title && course.creator == creator && course.price == price,
        course.description == description,
        course.category == category,
        course.language == language,
        course.thumbnail_url == thumbnail_url,
        course.prerequisites.len() == 0,
        !course.published,
        s1.modules == s.modules,
        forall|k: Seq<u8>| k != course.id ==> (#[trigger] s1.courses.dom().contains(k) == s.courses.dom().contains(k)),
        forall|k: Seq<u8>| k != course.id && s.courses.dom().contains(k) ==> #[trigger] s1.courses[k] == s.courses[k],
{
}

/// Creating a course succeeds whenever the title has 1 to 1024 bytes and is
/// not blank, the price is positive, no course has the same title up to ASCII
/// case, and the next id can be handed out and is free, whatever the
/// description, category, language and thumbnail are.
pub proof fn law_create_course_succeeds(
    s: StorageView,
    creator: Seq<u8>,
    title: Seq<u8>,
    description: Seq<u8>,
    price: u128,
    category: Option<Seq<u8>>,
    language: Option<Seq<u8>>,
    thumbnail_url: Option<Seq<u8>>,
)
    requires
        1 <= title.len() <= 1024,
        trimmed(title).len() > 0,
        price > 0,
        !s.titles.dom().contains(lowercase(title)),
        next_course_id(s.course_counter) <= u128::MAX,
        !s.courses.dom().contains(decimal(next_course_id(s.course_counter) as nat)),
    ensures
        create_course_outcome(s, creator, title, description, price, category, language, thumbnail_url) is Ok,
{
}

/// Course ids are handed out in sequence: after a course got the id `n`, the
/// next course created gets the id `n + 1`.
pub proof fn law_course_ids_are_sequential(
    s: StorageView,
    creator: Seq<u8>,
    title1: Seq<u8>,
    description1: Seq<u8>,
    price1: u128,
    category1: Option<Seq<u8>>,
    language1: Option<Seq<u8>>,
    thumbnail_url1: Option<Seq<u8>>,
    title2: Seq<u8>,
    description2: Seq<u8>,
    price2: u128,
    category2: Option<Seq<u8>>,
    language2: Option<Seq<u8>>,
    thumbnail_url2: Option<Seq<u8>>,
    s1: StorageView,
    course1: CourseView,
    s2: StorageView,
    course2: CourseView,
)
    requires
        create_course_outcome(s, creator, title1, description1, price1, category1, language1, thumbnail_url1)
            == Ok::<(StorageView, CourseView), CourseError>((s1, course1)),
        create_course_outcome(s1, creator, title2, description2, price2, category2, language2, thumbnail_url2)
            == Ok::<(StorageView, CourseView), CourseError>((s2, course2)),
    ensures
        course1.id == decimal(next_course_id(s.course_counter) as nat),
        course2.id == decimal((next_course_id(s.course_counter) + 1) as nat),
{
}

/// The first course created in an empty storage gets the id `1`.
pub proof fn law_first_course_id_is_one(
    s: StorageView,
    creator: Seq<u8>,
    title: Seq<u8>,
    description: Seq<u8>,
    price: u128,
    category: Option<Seq<u8>>,
    language: Option<Seq<u8>>,
    thumbnail_url: Option<Seq<u8>>,
    s1: StorageView,
    course: CourseView,
)
    requires
        s.course_counter is None,
        create_course_outcome(s, creator, title, description, price, category, language, thumbnail_url)
            == Ok::<(StorageView, CourseView), CourseError>((s1, course)),
    ensures
        course.id == seq![49u8],
{
    assert(decimal(1) =~= seq![49u8]);
}

/// Titles are unique regardless of ASCII letter case: once a course titled
/// `title1` exists, creating one whose title lower-cases to the same bytes is
/// refused as a duplicate (unless it is refused earlier for its length,
/// blankness or price).
pub proof fn law_titles_unique_ignoring_case(
    s: StorageView,
    creator: Seq<u8>,
    title1: Seq<u8>,
    description1: Seq<u8>,
    price1: u128,
    category1: Option<Seq<u8>>,
    language1: Option<Seq<u8>>,
    thumbnail_url1: Option<Seq<u8>>,
    s1: StorageView,
    course1: CourseView,
    title2: Seq<u8>,
    description2: Seq<u8>,
    price2: u128,
    category2: Option<Seq<u8>>,
    language2: Option<Seq<u8>>,
    thumbnail_url2: Option<Seq<u8>>,
)
    requires
        create_course_outcome(s, creator, title1, description1, price1, category1, language1, thumbnail_url1)
            == Ok::<(StorageView, CourseView), CourseError>((s1, course1)),
        lowercase(title2) == lowercase(title1),
        title2.len() <= 1024,
        title2.len() > 0 && trimmed(title2).len() > 0,
        price2 > 0,
    ensures
        create_course_outcome(s1, creator, title2, description2, price2, category2, language2, thumbnail_url2)
            == Err::<(StorageView, CourseView), CourseError>(CourseError::DuplicateTitle),
{
}

/// A refused creation names the first rule that the request breaks, in this
/// order: title length, blank title, zero price, duplicate title.
pub proof fn law_create_course_checks_in_order(
    s: StorageView,
    creator: Seq<u8>,
    title: Seq<u8>,
    description: Seq<u8>,
    price: u128,
    category: Option<Seq<u8>>,
    language: Option<Seq<u8>>,
    thumbnail_url: Option<Seq<u8>>,
)
    ensures
        title.len() > 1024 ==> create_course_outcome(
            s,
            creator,
            title,
            description,
            price,
            category,
            language,
            thumbnail_url,
        ) == Err::<(StorageView, CourseView), CourseError>(CourseError::TitleTooLong),
        title.len() <= 1024 && trimmed(title).len() == 0 ==> create_course_outcome(
            s,
            creator,
            title,
            description,
            price,
            category,
            language,
            thumbnail_url,
        ) == Err::<(StorageView, CourseView), CourseError>(CourseError::EmptyTitle),
        title.len() <= 1024 && trimmed(title).len() > 0 && price == 0 ==> create_course_outcome(
            s,
            creator,
            title,
            description,
            price,
            category,
            language,
            thumbnail_url,
        ) == Err::<(StorageView, CourseView), CourseError>(CourseError::ZeroPrice),
{
}

// ------------------------------------------------------------ deleting courses

proof fn lemma_deleted_modules_belong(modules: Map<Seq<u8>, ModuleView>, course_id: Seq<u8>, counter: nat)
    ensures
        forall|i: int|
            0 <= i < modules_to_delete(modules, course_id, counter).len() ==> {
                let k = #[trigger] modules_to_delete(modules, course_id, counter)[i];
                modules.dom().contains(k) && modules[k].course_id == course_id
            },
    decreases 1001 - counter,
{
    if !(counter > 1000 || !modules.dom().contains(module_probe_key(course_id, counter))) {
        lemma_deleted_modules_belong(modules, course_id, counter + 1);
        let key = module_probe_key(course_id, counter);
        let rest = modules_to_delete(modules, course_id, counter + 1);
        if modules[key].course_id == course_id {
            assert forall|i: int| 0 <= i < rest.len() + 1 implies {
                let k = #[trigger] (seq![key] + rest)[i];
                modules.dom().contains(k) && modules[k].course_id == course_id
            } by {
                if i > 0 {
                    assert((seq![key] + rest)[i] == rest[i - 1]);
                }
            }
        }
    }
}

proof fn lemma_probe_reaches(
    modules: Map<Seq<u8>, ModuleView>,
    course_id: Seq<u8>,
    counter: nat,
    position: nat,
)
    requires
        counter <= position <= 1000,
        forall|j: nat| counter <= j <= position ==> modules.dom().contains(
            #[trigger] module_probe_key(course_id, j),
        ),
        modules[module_probe_key(course_id, position)].course_id == course_id,
    ensures
        modules_to_delete(modules, course_id, counter).contains(module_probe_key(course_id, position)),
    decreases position - counter,
{
    let key = module_probe_key(course_id, counter);
    assert(modules.dom().contains(key));
    let rest = modules_to_delete(modules, course_id, counter + 1);
    if counter == position {
        assert((seq![key] + rest)[0] == key);
    } else {
        lemma_probe_reaches(modules, course_id, counter + 1, position);
        let i = choose|i: int| 0 <= i < rest.len() && rest[i] == module_probe_key(course_id, position);
        if modules[key].course_id == course_id {
            assert((seq![key] + rest)[i + 1] == rest[i]);
        }
    }
}

/// Deleting a course removes it and its title entry, and keeps every other
/// course, every other title entry and the id counter as they were.
pub proof fn law_delete_removes_course_and_keeps_others(
    s: StorageView,
    course_id: Seq<u8>,
    s1: StorageView,
    deleted: Seq<Seq<u8>>,
)
    requires
        delete_course_outcome(s, course_id) == Ok::<(StorageView, Seq<Seq<u8>>), &'static str>(
            (s1, deleted),
        ),
    ensures
        s.courses.dom().contains(course_id),
        !s1.courses.dom().contains(course_id),
        !s1.titles.dom().contains(lowercase(s.courses[course_id].title)),
        forall|k: Seq<u8>| k != course_id ==> (#[trigger] s1.courses.dom().contains(k) == s.courses.dom().contains(k)),
        forall|k: Seq<u8>| k != course_id && s.courses.dom().contains(k) ==> #[trigger] s1.courses[k] == s.courses[k],
        forall|k: Seq<u8>| k != lowercase(s.courses[course_id].title) ==> (#[trigger] s1.titles.dom().contains(k) == s.titles.dom().contains(k)),
        s1.course_counter == s.course_counter,
{
}

/// Deleting a course removes only modules of that course: every module of
/// another course stays as it was.
pub proof fn law_delete_keeps_modules_of_other_courses(
    s: StorageView,
    course_id: Seq<u8>,
    s1: StorageView,
    deleted: Seq<Seq<u8>>,
    key: Seq<u8>,
)
    requires
        delete_course_outcome(s, course_id) == Ok::<(StorageView, Seq<Seq<u8>>), &'static str>(
            (s1, deleted),
        ),
        s.modules.dom().contains(key),
        s.modules[key].course_id != course_id,
    ensures
        s1.modules.dom().contains(key),
        s1.modules[key] == s.modules[key],
{
    lemma_deleted_modules_belong(s.modules, course_id, 0);
    if deleted.to_set().contains(key) {
        let i = choose|i: int| 0 <= i < deleted.len() && deleted[i] == key;
        assert(deleted[i] == key);
    }
}

/// Deleting a course removes its module added at ledger sequence 0 at
/// position `position`, provided modules of that course sit at every
/// position before it (the deletion probes positions 0, 1, ... and stops at
/// the first gap) and `position` is at most 1000.
pub proof fn law_delete_removes_course_modules(
    s: StorageView,
    course_id: Seq<u8>,
    s1: StorageView,
    deleted: Seq<Seq<u8>>,
    position: nat,
)
    requires
        delete_course_outcome(s, course_id) == Ok::<(StorageView, Seq<Seq<u8>>), &'static str>(
            (s1, deleted),
        ),
        position <= 1000,
        forall|j: nat| j <= position ==> s.modules.dom().contains(#[trigger] module_id_of(course_id, j, 0)),
        s.modules[module_id_of(course_id, position, 0)].course_id == course_id,
    ensures
        !s1.modules.dom().contains(module_id_of(course_id, position, 0)),
{
    assert(decimal(0) =~= seq![48u8]);
    assert forall|j: nat| module_probe_key(course_id, j) == #[trigger] module_id_of(course_id, j, 0) by {
        assert(separator() + decimal(0) =~= zero_suffix());
        assert(module_id_of(course_id, j, 0) =~= module_probe_key(course_id, j));
    }
    assert forall|j: nat| 0 <= j <= position implies s.modules.dom().contains(
        #[trigger] module_probe_key(course_id, j),
    ) by {
        assert(module_probe_key(course_id, j) == module_id_of(course_id, j, 0));
    }
    assert(module_probe_key(course_id, position) == module_id_of(course_id, position, 0));
    lemma_probe_reaches(s.modules, course_id, 0, position);
    assert(deleted.to_set().contains(module_id_of(course_id, position, 0)));
}

/// Deleting a course just created undoes the creation on the courses and the
/// title entries: both are as they were before.
pub proof fn law_delete_undoes_create(
    s: StorageView,
    creator: Seq<u8>,
    title: Seq<u8>,
    description: Seq<u8>,
    price: u128,
    category: Option<Seq<u8>>,
    language: Option<Seq<u8>>,
    thumbnail_url: Option<Seq<u8>>,
    s1: StorageView,
    course: CourseView,
)
    requires
        create_course_outcome(s, creator, title, description, price, category, language, thumbnail_url)
            == Ok::<(StorageView, CourseView), CourseError>((s1, course)),
    ensures
        delete_course_outcome(s1, course.id) is Ok,
        delete_course_outcome(s1, course.id)->Ok_0.0.courses == s.courses,
        delete_course_outcome(s1, course.id)->Ok_0.0.titles == s.titles,
{
    lemma_decimal_digits(next_course_id(s.course_counter) as nat);
    let s2 = delete_course_outcome(s1, course.id)->Ok_0.0;
    assert(s2.courses =~= s.courses);
    assert(s2.titles =~= s.titles);
}

// ---------------------------------------------------------------- modules

/// An added module is stored under its id, which encodes the course, the
/// position and the ledger sequence number; nothing else changes.
pub proof fn law_added_module_is_stored(
    s: StorageView,
    course_id: Seq<u8>,
    position: u32,
    title: Seq<u8>,
    ledger_sequence: u32,
    ledger_timestamp: u64,
    s1: StorageView,
    module: ModuleView,
)
    requires
        crate::functions::add_module::add_module_outcome(
            s,
            course_id,
            position,
            title,
            ledger_sequence,
            ledger_timestamp,
        ) == Ok::<(StorageView, ModuleView), CourseError>((s1, module)),
    ensures
        module.id == module_id_of(course_id, position as nat, ledger_sequence as nat),
        s1.modules.dom().contains(module.id),
        s1.modules[module.id] == module,
        s1.courses == s.courses,
        s1.titles == s.titles,
        s1.course_counter == s.course_counter,
{
}

// ---------------------------------------------------------------- listing

/// Every course listed for an instructor was created by that instructor and
/// is stored in the registry.
pub proof fn law_listed_courses_belong_to_instructor(
    courses: Map<Seq<u8>, CourseView>,
    instructor: Seq<u8>,
    id: nat,
)
    ensures
        forall|i: int|
            0 <= i < courses_by_instructor_from(courses, instructor, id).len() ==> {
                let c = #[trigger] courses_by_instructor_from(courses, instructor, id)[i];
                c.creator == instructor && exists|k: Seq<u8>|
                    courses.dom().contains(k) && #[trigger] courses[k] == c
            },
    decreases 1001 - id,
{
    if !(id > 1000 || !courses.dom().contains(decimal(id))) {
        law_listed_courses_belong_to_instructor(courses, instructor, id + 1);
        let c = courses[decimal(id)];
        let rest = courses_by_instructor_from(courses, instructor, id + 1);
        if c.creator == instructor {
            assert forall|i: int| 0 <= i < rest.len() + 1 implies {
                let x = #[trigger] (seq![c] + rest)[i];
                x.creator == instructor && exists|k: Seq<u8>| courses.dom().contains(k) && #[trigger] courses[k] == x
            } by {
                if i > 0 {
                    assert((seq![c] + rest)[i] == rest[i - 1]);
                } else {
                    assert(courses[decimal(id)] == c);
                }
            }
        }
    }
}

// ------------------------------------------------------- a run of creations

/// The details of one course creation request.
pub struct CourseRequest {
    pub title: Seq<u8>,
    pub description: Seq<u8>,
    pub price: u128,
    pub category: Option<Seq<u8>>,
    pub language: Option<Seq<u8>>,
    pub thumbnail_url: Option<Seq<u8>>,
}

/// Starting from `states[0]`, creation `i` by `creator` with `requests[i]`
/// succeeded, turning `states[i]` into `states[i + 1]` and creating `created[i]`.
pub open spec fn creations_succeeded(
    states: Seq<StorageView>,
    creator: Seq<u8>,
    requests: Seq<CourseRequest>,
    created: Seq<CourseView>,
) -> bool {
    &&& states.len() == requests.len() + 1
    &&& created.len() == requests.len()
    &&& forall|i: int|
        0 <= i < requests.len() ==> create_course_outcome(
            states[i],
            creator,
            (#[trigger] requests[i]).title,
            requests[i].description,
            requests[i].price,
            requests[i].category,
            requests[i].language,
            requests[i].thumbnail_url,
        ) == Ok::<(StorageView, CourseView), CourseError>((states[i + 1], created[i]))
}

/// After `i` successful creations from storage without courses or counter,
/// the courses stored are exactly the created ones, under the ids 1..=i.
proof fn lemma_run_of_creations(
    states: Seq<StorageView>,
    creator: Seq<u8>,
    requests: Seq<CourseRequest>,
    created: Seq<CourseView>,
    i: nat,
)
    requires
        creations_succeeded(states, creator, requests, created),
        states[0].course_counter is None,
        states[0].courses == Map::<Seq<u8>, CourseView>::empty(),
        i <= requests.len(),
    ensures
        next_course_id(states[i as int].course_counter) == i + 1,
        forall|key: Seq<u8>|
            #[trigger] states[i as int].courses.dom().contains(key) <==> exists|j: nat|
                1 <= j <= i && key == #[trigger] decimal(j),
        forall|j: nat|
            1 <= j <= i ==> states[i as int].courses[#[trigger] decimal(j)] == created[j - 1],
        forall|j: int| 0 <= j < i ==> (#[trigger] created[j]).creator == creator,
    decreases i,
{
    if i > 0 {
        let p = (i - 1) as nat;
        lemma_run_of_creations(states, creator, requests, created, p);
        let r = requests[p as int];
        assert(create_course_outcome(
            states[p as int],
            creator,
            r.title,
            r.description,
            r.price,
            r.category,
            r.language,
            r.thumbnail_url,
        ) == Ok::<(StorageView, CourseView), CourseError>((states[i as int], created[p as int])));
        let prev = states[p as int].courses;
        let now = states[i as int].courses;
        assert(now == prev.insert(decimal(i), created[p as int]));
        assert forall|key: Seq<u8>| #[trigger] now.dom().contains(key) <==> exists|j: nat|
            1 <= j <= i && key == #[trigger] decimal(j) by {
            if now.dom().contains(key) && key != decimal(i) {
                assert(prev.dom().contains(key));
            }
            if key == decimal(i) {
                assert(now.dom().contains(key));
            }
            if exists|j: nat| 1 <= j <= i && key == #[trigger] decimal(j) {
                let j = choose|j: nat| 1 <= j <= i && key == #[trigger] decimal(j);
                if j < i {
                    assert(prev.dom().contains(decimal(j)));
                }
            }
        }
        assert forall|j: nat| 1 <= j <= i implies now[#[trigger] decimal(j)] == created[j - 1] by {
            if j < i {
                if decimal(j) == decimal(i) {
                    law_decimal_injective(j, i);
                }
            }
        }
    }
}

proof fn lemma_listing_of_run(
    courses: Map<Seq<u8>, CourseView>,
    creator: Seq<u8>,
    other: Seq<u8>,
    created: Seq<CourseView>,
    id: nat,
)
    requires
        created.len() <= 1000,
        1 <= id <= created.len() + 1,
        forall|key: Seq<u8>|
            #[trigger] courses.dom().contains(key) <==> exists|j: nat|
                1 <= j <= created.len() && key == #[trigger] decimal(j),
        forall|j: nat|
            1 <= j <= created.len() ==> courses[#[trigger] decimal(j)] == created[j - 1],
        forall|j: int| 0 <= j < created.len() ==> (#[trigger] created[j]).creator == creator,
        other != creator,
    ensures
        courses_by_instructor_from(courses, creator, id) == created.subrange(id - 1, created.len() as int),
        courses_by_instructor_from(courses, other, id) == Seq::<CourseView>::empty(),
    decreases created.len() + 1 - id,
{
    let k = created.len();
    if id == k + 1 {
        if courses.dom().contains(decimal(id)) {
            let j = choose|j: nat| 1 <= j <= k && decimal(id) == #[trigger] decimal(j);
            law_decimal_injective(id, j);
        }
        assert(created.subrange(k as int, k as int) =~= Seq::<CourseView>::empty());
    } else {
        lemma_listing_of_run(courses, creator, other, created, id + 1);
        assert(courses.dom().contains(decimal(id)));
        let c = courses[decimal(id)];
        assert(c == created[id - 1]);
        assert(seq![c] + created.subrange(id as int, k as int) =~= created.subrange(
            id - 1,
            k as int,
        ));
    }
}

/// Listing an instructor's courses after a run of at most 1000 creations by
/// that instructor, starting from storage without courses or counter, gives
/// exactly the created courses in creation order; listing anyone else gives
/// nothing.
pub proof fn law_listing_after_creations(
    states: Seq<StorageView>,
    creator: Seq<u8>,
    other: Seq<u8>,
    requests: Seq<CourseRequest>,
    created: Seq<CourseView>,
)
    requires
        creations_succeeded(states, creator, requests, created),
        states[0].course_counter is None,
        states[0].courses == Map::<Seq<u8>, CourseView>::empty(),
        requests.len() <= 1000,
        other != creator,
    ensures
        courses_by_instructor_from(states.last().courses, creator, 1) == created,
        courses_by_instructor_from(states.last().courses, other, 1) == Seq::<CourseView>::empty(),
{
    let k = requests.len();
    lemma_run_of_creations(states, creator, requests, created, k);
    assert(states.last() == states[k as int]);
    lemma_listing_of_run(states[k as int].courses, creator, other, created, 1);
    assert(created.subrange(0, k as int) =~= created);
}

// ------------------------------------------- reading storage from elsewhere

proof fn lemma_listing_agrees(
    snapshot: Map<Seq<u8>, CourseView>,
    ledger: Map<Seq<u8>, CourseView>,
    instructor: Seq<u8>,
    loaded: nat,
    id: nat,
)
    requires
        listing_next_probe(snapshot, loaded) is None,
        forall|j: nat|
            1 <= j <= loaded ==> (snapshot.dom().contains(#[trigger] decimal(j))
                == ledger.dom().contains(decimal(j))) && (ledger.dom().contains(decimal(j))
                ==> snapshot[decimal(j)] == ledger[decimal(j)]),
        1 <= id,
        id > loaded ==> id > 1000,
    ensures
        courses_by_instructor_from(snapshot, instructor, id) == courses_by_instructor_from(
            ledger,
            instructor,
            id,
        ),
    decreases 1001 - id,
{
    if id <= 1000 {
        assert(snapshot.dom().contains(decimal(id)) == ledger.dom().contains(decimal(id)));
        if snapshot.dom().contains(decimal(id)) {
            lemma_listing_agrees(snapshot, ledger, instructor, loaded, id + 1);
        }
    }
}

/// The listing reads only the courses that `next_course_key_to_load` names:
/// a storage into which those keys were read from another, until it answered
/// `None`, lists the same courses as that other storage.
pub proof fn law_listing_needs_only_loaded_courses(
    snapshot: Map<Seq<u8>, CourseView>,
    ledger: Map<Seq<u8>, CourseView>,
    instructor: Seq<u8>,
    loaded: nat,
)
    requires
        listing_next_probe(snapshot, loaded) is None,
        forall|j: nat|
            1 <= j <= loaded ==> (snapshot.dom().contains(#[trigger] decimal(j))
                == ledger.dom().contains(decimal(j))) && (ledger.dom().contains(decimal(j))
                ==> snapshot[decimal(j)] == ledger[decimal(j)]),
    ensures
        courses_by_instructor_from(snapshot, instructor, 1) == courses_by_instructor_from(
            ledger,
            instructor,
            1,
        ),
{
    lemma_listing_agrees(snapshot, ledger, instructor, loaded, 1);
}

proof fn lemma_deletion_agrees(
    snapshot: Map<Seq<u8>, ModuleView>,
    ledger: Map<Seq<u8>, ModuleView>,
    course_id: Seq<u8>,
    loaded: nat,
    counter: nat,
)
    requires
        deletion_next_probe(snapshot, course_id, loaded) is None,
        forall|c: nat|
            c < loaded ==> (snapshot.dom().contains(#[trigger] module_probe_key(course_id, c))
                == ledger.dom().contains(module_probe_key(course_id, c))) && (ledger.dom().contains(
                module_probe_key(course_id, c),
            ) ==> snapshot[module_probe_key(course_id, c)] == ledger[module_probe_key(
                course_id,
                c,
            )]),
        counter >= loaded ==> counter > 1000,
    ensures
        modules_to_delete(snapshot, course_id, counter) == modules_to_delete(
            ledger,
            course_id,
            counter,
        ),
    decreases 1001 - counter,
{
    if counter <= 1000 {
        let key = module_probe_key(course_id, counter);
        assert(snapshot.dom().contains(key) == ledger.dom().contains(key));
        if snapshot.dom().contains(key) {
            lemma_deletion_agrees(snapshot, ledger, course_id, loaded, counter + 1);
        }
    }
}

/// Deleting a course reads only the modules that `next_module_key_to_load`
/// names: a storage into which those keys were read from another, until it
/// answered `None`, picks the same modules for deletion as that other storage.
pub proof fn law_deletion_needs_only_loaded_modules(
    snapshot: Map<Seq<u8>, ModuleView>,
    ledger: Map<Seq<u8>, ModuleView>,
    course_id: Seq<u8>,
    loaded: nat,
)
    requires
        deletion_next_probe(snapshot, course_id, loaded) is None,
        forall|c: nat|
            c < loaded ==> (snapshot.dom().contains(#[trigger] module_probe_key(course_id, c))
                == ledger.dom().contains(module_probe_key(course_id, c))) && (ledger.dom().contains(
                module_probe_key(course_id, c),
            ) ==> snapshot[module_probe_key(course_id, c)] == ledger[module_probe_key(
                course_id,
                c,
            )]),
    ensures
        modules_to_delete(snapshot, course_id, 0) == modules_to_delete(ledger, course_id, 0),
{
    lemma_deletion_agrees(snapshot, ledger, course_id, loaded, 0);
}

// ------------------------------------------------------- when requests succeed

/// Adding a module succeeds exactly when a course is stored under the given
/// id, whatever that course holds: the module carries the given course id,
/// position, title and timestamp, its id is
/// `module_<course_id>_<position>_<ledger_sequence>`, and it is stored under
/// that id with nothing else changed. Otherwise the course is not found.
pub proof fn law_add_module_succeeds_on_stored_course(
    s: StorageView,
    course_id: Seq<u8>,
    position: u32,
    title: Seq<u8>,
    ledger_sequence: u32,
    ledger_timestamp: u64,
)
    ensures
        s.courses.dom().contains(course_id) ==> {
            let r = add_module_outcome(s, course_id, position, title, ledger_sequence, ledger_timestamp);
            &&& r is Ok
            &&& r->Ok_0.1 == ModuleView {
                id: module_id_of(course_id, position as nat, ledger_sequence as nat),
                course_id,
                position,
                title,
                created_at: ledger_timestamp,
            }
            &&& r->Ok_0.0.modules == s.modules.insert(r->Ok_0.1.id, r->Ok_0.1)
            &&& r->Ok_0.0.courses == s.courses
            &&& r->Ok_0.0.titles == s.titles
            &&& r->Ok_0.0.course_counter == s.course_counter
        },
        !s.courses.dom().contains(course_id) ==> add_module_outcome(
            s,
            course_id,
            position,
            title,
            ledger_sequence,
            ledger_timestamp,
        ) == Err::<(StorageView, ModuleView), CourseError>(CourseError::CourseNotFound),
{
}

/// Deleting a course succeeds exactly when the id is non-empty and a course
/// is stored under it, whatever that course holds: the course, the title
/// entry of its lower-cased title and the returned modules (all of them
/// modules of that course) are removed and the counter is kept. An empty id
/// and a missing course are refused with the original's texts.
pub proof fn law_delete_succeeds_on_stored_course(s: StorageView, course_id: Seq<u8>)
    ensures
        (delete_course_outcome(s, course_id) is Ok) == (course_id.len() > 0
            && s.courses.dom().contains(course_id)),
        course_id.len() > 0 && s.courses.dom().contains(course_id) ==> {
            let s1 = delete_course_outcome(s, course_id)->Ok_0.0;
            let deleted = delete_course_outcome(s, course_id)->Ok_0.1;
            &&& s1.courses == s.courses.remove(course_id)
            &&& s1.titles == s.titles.remove(lowercase(s.courses[course_id].title))
            &&& s1.modules == s.modules.remove_keys(deleted.to_set())
            &&& s1.course_counter == s.course_counter
            &&& forall|i: int|
                0 <= i < deleted.len() ==> s.modules.dom().contains(#[trigger] deleted[i])
                    && s.modules[deleted[i]].course_id == course_id
        },
        course_id.len() == 0 ==> delete_course_outcome(s, course_id) == Err::<
            (StorageView, Seq<Seq<u8>>),
            &'static str,
        >("Course ID cannot be empty"),
        course_id.len() > 0 && !s.courses.dom().contains(course_id) ==> delete_course_outcome(
            s,
            course_id,
        ) == Err::<(StorageView, Seq<Seq<u8>>), &'static str>("Course not found"),
{
    lemma_deleted_modules_belong(s.modules, course_id, 0);
}

proof fn lemma_listing_reaches(
    courses: Map<Seq<u8>, CourseView>,
    instructor: Seq<u8>,
    id: nat,
    n: nat,
    target: nat,
)
    requires
        1 <= id <= target <= n <= 1000,
        forall|j: nat| 1 <= j <= n ==> courses.dom().contains(#[trigger] decimal(j)),
        courses[decimal(target)].creator == instructor,
    ensures
        courses_by_instructor_from(courses, instructor, id).contains(courses[decimal(target)]),
    decreases target - id,
{
    let c = courses[decimal(id)];
    assert(courses.dom().contains(decimal(id)));
    let rest = courses_by_instructor_from(courses, instructor, id + 1);
    if id == target {
        assert((seq![c] + rest)[0] == c);
    } else {
        lemma_listing_reaches(courses, instructor, id + 1, n, target);
        let i = choose|i: int| 0 <= i < rest.len() && rest[i] == courses[decimal(target)];
        if c.creator == instructor {
            assert((seq![c] + rest)[i + 1] == rest[i]);
        }
    }
}

/// The listing misses none of the instructor's courses: when courses are
/// stored under every id `1..=n` (n at most 1000), each of them whose creator
/// is the instructor is listed, whatever the creators of the others.
pub proof fn law_listing_is_complete(
    courses: Map<Seq<u8>, CourseView>,
    instructor: Seq<u8>,
    n: nat,
    target: nat,
)
    requires
        n <= 1000,
        1 <= target <= n,
        forall|j: nat| 1 <= j <= n ==> courses.dom().contains(#[trigger] decimal(j)),
        courses[decimal(target)].creator == instructor,
    ensures
        courses_by_instructor_from(courses, instructor, 1).contains(courses[decimal(target)]),
{
    lemma_listing_reaches(courses, instructor, 1, n, target);
}

/// The courses stored under the ids `from`, `from + 1`, ..., `to`.
pub open spec fn stored_courses(courses: Map<Seq<u8>, CourseView>, from: nat, to: nat) -> Seq<
    CourseView,
> {
    Seq::new((to + 1 - from) as nat, |j: int| courses[decimal((from + j) as nat)])
}

proof fn lemma_listing_is_filter(
    courses: Map<Seq<u8>, CourseView>,
    instructor: Seq<u8>,
    n: nat,
    id: nat,
)
    requires
        n <= 1000,
        1 <= id <= n + 1,
        forall|j: nat| 1 <= j <= n ==> courses.dom().contains(#[trigger] decimal(j)),
        n == 1000 || !courses.dom().contains(decimal(n + 1)),
    ensures
        courses_by_instructor_from(courses, instructor, id) == stored_courses(courses, id, n).filter(
            |c: CourseView| c.creator == instructor,
        ),
    decreases n + 1 - id,
{
    let pred = |c: CourseView| c.creator == instructor;
    let w = stored_courses(courses, id, n);
    if id == n + 1 {
        assert(w =~= Seq::<CourseView>::empty());
        assert(w.filter(pred) =~= Seq::<CourseView>::empty()) by {
            reveal_with_fuel(Seq::filter, 1);
        }
    } else {
        lemma_listing_is_filter(courses, instructor, n, id + 1);
        assert(courses.dom().contains(decimal(id)));
        let c = courses[decimal(id)];
        let rest = stored_courses(courses, id + 1, n);
        assert(w =~= seq![c] + rest);
        rest.lemma_filter_prepend(c, pred);
        if c.creator == instructor {
            assert(courses_by_instructor_from(courses, instructor, id) == seq![c] + rest.filter(pred));
        } else {
            assert(Seq::<CourseView>::empty() + rest.filter(pred) =~= rest.filter(pred));
        }
    }
}

/// When courses are stored under the ids `1..=n` and the scan ends there
/// (`n` is 1000 or nothing is stored under `n + 1`), the listing is exactly
/// the instructor's courses among them, in id order, each once.
pub proof fn law_listing_is_instructors_courses_in_id_order(
    courses: Map<Seq<u8>, CourseView>,
    instructor: Seq<u8>,
    n: nat,
)
    requires
        n <= 1000,
        forall|j: nat| 1 <= j <= n ==> courses.dom().contains(#[trigger] decimal(j)),
        n == 1000 || !courses.dom().contains(decimal(n + 1)),
    ensures
        courses_by_instructor_from(courses, instructor, 1) == stored_courses(courses, 1, n).filter(
            |c: CourseView| c.creator == instructor,
        ),
{
    lemma_listing_is_filter(courses, instructor, n, 1);
}

/// The number that a string of decimal digits denotes.
pub open spec fn digits_value(s: Seq<u8>) -> nat
    decreases s.len(),
{
    if s.len() == 0 {
        0
    } else {
        digits_value(s.drop_last()) * 10 + (s.last() - 48) as nat
    }
}

/// Decimal notation reads back as the number it was made from.
pub proof fn law_decimal_reads_back(n: nat)
    ensures
        digits_value(decimal(n)) == n,
    decreases n,
{
    let d = decimal(n);
    if n < 10 {
        assert(d.drop_last() =~= Seq::<u8>::empty());
        assert(digits_value(d.drop_last()) == 0);
        assert(d.last() == 48 + n);
    } else {
        law_decimal_reads_back(n / 10);
        assert(d.drop_last() =~= decimal(n / 10));
        assert(d.last() == 48 + n % 10);
        assert(digits_value(d) == (n / 10) * 10 + n % 10);
    }
}

/// With a well-formed title, a positive price and no duplicate title, a
/// creation is refused only because the counter cannot advance, or because a
/// course already sits under the next id.
pub proof fn law_create_course_late_refusals(
    s: StorageView,
    creator: Seq<u8>,
    title: Seq<u8>,
    description: Seq<u8>,
    price: u128,
    category: Option<Seq<u8>>,
    language: Option<Seq<u8>>,
    thumbnail_url: Option<Seq<u8>>,
)
    requires
        1 <= title.len() <= 1024,
        trimmed(title).len() > 0,
        price > 0,
        !s.titles.dom().contains(lowercase(title)),
    ensures
        next_course_id(s.course_counter) > u128::MAX ==> create_course_outcome(
            s,
            creator,
            title,
            description,
            price,
            category,
            language,
            thumbnail_url,
        ) == Err::<(StorageView, CourseView), CourseError>(CourseError::IdOverflow),
        next_course_id(s.course_counter) <= u128::MAX && s.courses.dom().contains(
            decimal(next_course_id(s.course_counter) as nat),
        ) ==> create_course_outcome(
            s,
            creator,
            title,
            description,
            price,
            category,
            language,
            thumbnail_url,
        ) == Err::<(StorageView, CourseView), CourseError>(CourseError::DuplicateId),
{
}

} // verus!
