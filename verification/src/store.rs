//! The in-memory record store: three collections with CRUD, substring
//! search and a uniqueness invariant on ids. Loading and saving the
//! collections as text lives in the codec module; writing that text to
//! disk is the caller's business.

use vstd::prelude::*;

use crate::codec::{
    enc_faculties, enc_students, enc_teachers, encode_faculties, encode_students, encode_teachers,
    p_faculties_doc, p_students_doc, p_teachers_doc, parse_faculties, parse_students,
    parse_teachers,
};
use crate::models::{Faculty, FacultyView, Student, StudentView, Teacher, TeacherView};
use crate::models::{fresh_id, views};
use crate::text::{chars_of, contains_chars, lowercase, str_eq, string_from_chars};
use crate::text::{lower_of, seq_contains};

verus! {

/// Some element of `s` has key `id` under the projection `key`.
pub open spec fn has_key<T>(s: Seq<T>, key: spec_fn(T) -> Seq<char>, id: Seq<char>) -> bool {
    exists|i: int| 0 <= i < s.len() && key(#[trigger] s[i]) == id
}

/// Index of the first element of `s` at or after `i` whose key is `id`.
pub open spec fn find_key_from<T>(
    s: Seq<T>,
    key: spec_fn(T) -> Seq<char>,
    id: Seq<char>,
    i: int,
) -> Option<int>
    decreases s.len() - i,
{
    if i < 0 || i >= s.len() {
        None
    } else if key(s[i]) == id {
        Some(i)
    } else {
        find_key_from(s, key, id, i + 1)
    }
}

/// Index of the first element of `s` whose key is `id`.
pub open spec fn index_of_key<T>(s: Seq<T>, key: spec_fn(T) -> Seq<char>, id: Seq<char>) -> Option<
    int,
> {
    find_key_from(s, key, id, 0)
}

/// No two elements of `s` share a key.
pub open spec fn unique_keys<T>(s: Seq<T>, key: spec_fn(T) -> Seq<char>) -> bool {
    forall|i: int, j: int| 0 <= i < j < s.len() ==> key(#[trigger] s[i]) != key(#[trigger] s[j])
}

/// `s` with every element of key `id` removed, order otherwise kept.
pub open spec fn remove_key<T>(s: Seq<T>, key: spec_fn(T) -> Seq<char>, id: Seq<char>) -> Seq<T>
    decreases s.len(),
{
    if s.len() == 0 {
        Seq::empty()
    } else {
        let rest = remove_key(s.drop_first(), key, id);
        if key(s[0]) == id {
            rest
        } else {
            seq![s[0]] + rest
        }
    }
}

proof fn lemma_find_key_from<T>(s: Seq<T>, key: spec_fn(T) -> Seq<char>, id: Seq<char>, i: int)
    requires
        0 <= i <= s.len(),
    ensures
        match find_key_from(s, key, id, i) {
            Some(k) => i <= k < s.len() && key(s[k]) == id && forall|j: int|
                i <= j < k ==> key(#[trigger] s[j]) != id,
            None => forall|j: int| i <= j < s.len() ==> key(#[trigger] s[j]) != id,
        },
    decreases s.len() - i,
{
    if i < s.len() && key(s[i]) != id {
        lemma_find_key_from(s, key, id, i + 1);
    }
}

/// What the first-match index says about membership.
pub proof fn lemma_index_of_key<T>(s: Seq<T>, key: spec_fn(T) -> Seq<char>, id: Seq<char>)
    ensures
        match index_of_key(s, key, id) {
            Some(k) => 0 <= k < s.len() && key(s[k]) == id && forall|j: int|
                0 <= j < k ==> key(#[trigger] s[j]) != id,
            None => !has_key(s, key, id),
        },
{
    lemma_find_key_from(s, key, id, 0);
}

/// Removal by an absent key changes nothing.
proof fn lemma_remove_key_absent<T>(s: Seq<T>, key: spec_fn(T) -> Seq<char>, id: Seq<char>)
    requires
        !has_key(s, key, id),
    ensures
        remove_key(s, key, id) == s,
    decreases s.len(),
{
    if s.len() > 0 {
        assert(key(s[0]) != id);
        assert(!has_key(s.drop_first(), key, id)) by {
            assert(forall|i: int|
                0 <= i < s.drop_first().len() ==> #[trigger] s.drop_first()[i] == s[i + 1]);
        }
        lemma_remove_key_absent(s.drop_first(), key, id);
        assert(seq![s[0]] + s.drop_first() =~= s);
    }
}

/// Every element kept by a removal comes from the original sequence.
proof fn lemma_remove_key_membership<T>(
    s: Seq<T>,
    key: spec_fn(T) -> Seq<char>,
    id: Seq<char>,
    x: Seq<char>,
)
    requires
        has_key(remove_key(s, key, id), key, x),
    ensures
        has_key(s, key, x),
    decreases s.len(),
{
    if s.len() > 0 {
        let rest = remove_key(s.drop_first(), key, id);
        if key(s[0]) == id {
            lemma_remove_key_membership(s.drop_first(), key, id, x);
            let k = choose|i: int|
                0 <= i < s.drop_first().len() && key(#[trigger] s.drop_first()[i]) == x;
            assert(s.drop_first()[k] == s[k + 1]);
        } else {
            let r = seq![s[0]] + rest;
            let k = choose|i: int| 0 <= i < r.len() && key(#[trigger] r[i]) == x;
            if k == 0 {
                assert(key(s[0]) == x);
            } else {
                assert(rest[k - 1] == r[k]);
                lemma_remove_key_membership(s.drop_first(), key, id, x);
                let m = choose|i: int|
                    0 <= i < s.drop_first().len() && key(#[trigger] s.drop_first()[i]) == x;
                assert(s.drop_first()[m] == s[m + 1]);
            }
        }
    }
}

/// Removal leaves no element with the removed key.
proof fn lemma_remove_key_gone<T>(s: Seq<T>, key: spec_fn(T) -> Seq<char>, id: Seq<char>)
    ensures
        !has_key(remove_key(s, key, id), key, id),
    decreases s.len(),
{
    if s.len() > 0 {
        lemma_remove_key_gone(s.drop_first(), key, id);
        let rest = remove_key(s.drop_first(), key, id);
        if key(s[0]) != id {
            let r = seq![s[0]] + rest;
            assert forall|i: int| 0 <= i < r.len() implies key(#[trigger] r[i]) != id by {
                if i > 0 {
                    assert(r[i] == rest[i - 1]);
                    assert(!(0 <= i - 1 < rest.len() && key(rest[i - 1]) == id));
                }
            }
        }
    }
}

/// Removal keeps keys unique.
proof fn lemma_remove_key_unique<T>(s: Seq<T>, key: spec_fn(T) -> Seq<char>, id: Seq<char>)
    requires
        unique_keys(s, key),
    ensures
        unique_keys(remove_key(s, key, id), key),
    decreases s.len(),
{
    if s.len() > 0 {
        assert(unique_keys(s.drop_first(), key)) by {
            assert(forall|i: int|
                0 <= i < s.drop_first().len() ==> #[trigger] s.drop_first()[i] == s[i + 1]);
        }
        lemma_remove_key_unique(s.drop_first(), key, id);
        let rest = remove_key(s.drop_first(), key, id);
        if key(s[0]) != id {
            let r = seq![s[0]] + rest;
            assert forall|i: int, j: int|
                0 <= i < j < r.len() implies key(#[trigger] r[i]) != key(#[trigger] r[j]) by {
                if i == 0 {
                    assert(r[j] == rest[j - 1]);
                    if key(s[0]) == key(rest[j - 1]) {
                        assert(has_key(rest, key, key(s[0])));
                        lemma_remove_key_membership(s.drop_first(), key, id, key(s[0]));
                        let m = choose|l: int|
                            0 <= l < s.drop_first().len() && key(
                                #[trigger] s.drop_first()[l],
                            ) == key(s[0]);
                        assert(s.drop_first()[m] == s[m + 1]);
                        assert(key(s[0]) != key(s[m + 1]));
                    }
                } else {
                    assert(r[i] == rest[i - 1]);
                    assert(r[j] == rest[j - 1]);
                }
            }
        }
    }
}

/// With unique keys, removing a present key drops exactly one element.
proof fn lemma_remove_key_len<T>(s: Seq<T>, key: spec_fn(T) -> Seq<char>, id: Seq<char>)
    requires
        unique_keys(s, key),
        has_key(s, key, id),
    ensures
        remove_key(s, key, id).len() == s.len() - 1,
    decreases s.len(),
{
    let t = s.drop_first();
    assert(forall|i: int| 0 <= i < t.len() ==> #[trigger] t[i] == s[i + 1]);
    assert(unique_keys(t, key));
    if key(s[0]) == id {
        assert(!has_key(t, key, id)) by {
            if has_key(t, key, id) {
                let m = choose|i: int| 0 <= i < t.len() && key(#[trigger] t[i]) == id;
                assert(key(s[0]) == key(s[m + 1]));
            }
        }
        lemma_remove_key_absent(t, key, id);
    } else {
        assert(has_key(t, key, id)) by {
            let m = choose|i: int| 0 <= i < s.len() && key(#[trigger] s[i]) == id;
            assert(t[m - 1] == s[m]);
        }
        lemma_remove_key_len(t, key, id);
    }
}

proof fn lemma_find_key_from_push<T>(
    s: Seq<T>,
    key: spec_fn(T) -> Seq<char>,
    v: T,
    i: int,
)
    requires
        0 <= i <= s.len(),
        forall|j: int| 0 <= j < s.len() ==> key(#[trigger] s[j]) != key(v),
    ensures
        find_key_from(s.push(v), key, key(v), i) == Some(s.len() as int),
    decreases s.len() - i,
{
    assert(s.push(v)[s.len() as int] == v);
    if i < s.len() {
        assert(s.push(v)[i] == s[i]);
        lemma_find_key_from_push(s, key, v, i + 1);
    }
}

/// Law: appending a record under an id that no element of the sequence
/// carries, then looking that id up, finds exactly the appended record,
/// at the end. Together with the contracts of the `add_*` and
/// `get_*_by_id` methods this says that an add followed by a get of the
/// returned id yields the record that was added.
pub proof fn lemma_append_fresh_found<T>(s: Seq<T>, key: spec_fn(T) -> Seq<char>, v: T)
    requires
        !has_key(s, key, key(v)),
    ensures
        index_of_key(s.push(v), key, key(v)) == Some(s.len() as int),
        s.push(v)[s.len() as int] == v,
{
    assert(forall|j: int| 0 <= j < s.len() ==> key(#[trigger] s[j]) != key(v));
    lemma_find_key_from_push(s, key, v, 0);
}

/// Projection giving a student's id.
pub open spec fn student_id() -> spec_fn(StudentView) -> Seq<char> {
    |v: StudentView| v.id
}

/// Projection giving a teacher's id.
pub open spec fn teacher_id() -> spec_fn(TeacherView) -> Seq<char> {
    |v: TeacherView| v.id
}

/// Projection giving a faculty's id.
pub open spec fn faculty_id() -> spec_fn(FacultyView) -> Seq<char> {
    |v: FacultyView| v.id
}

/// Mathematical image of the store: the three collections as sequences
/// of record views, in display order.
pub struct StoreView {
    pub students: Seq<StudentView>,
    pub teachers: Seq<TeacherView>,
    pub faculties: Seq<FacultyView>,
}

/// Owns the three record collections and performs CRUD and search on
/// them, keeping ids unique within each collection.
pub struct DataManager {
    students: Vec<Student>,
    teachers: Vec<Teacher>,
    faculties: Vec<Faculty>,
}

impl View for DataManager {
    type V = StoreView;

    closed spec fn view(&self) -> StoreView {
        StoreView {
            students: views(self.students@),
            teachers: views(self.teachers@),
            faculties: views(self.faculties@),
        }
    }
}

/// A teacher matches a query (already lowercased) when it occurs inside
/// the lowercased first name, last name, department or title.
pub open spec fn teacher_matches(v: TeacherView, q_low: Seq<char>) -> bool {
    seq_contains(lower_of(v.first_name), q_low) || seq_contains(lower_of(v.last_name), q_low)
        || seq_contains(lower_of(v.department), q_low) || seq_contains(lower_of(v.title), q_low)
}

/// The teachers of `s` matching `q_low`, in their original order.
pub open spec fn filter_teachers(s: Seq<TeacherView>, q_low: Seq<char>) -> Seq<TeacherView>
    decreases s.len(),
{
    if s.len() == 0 {
        Seq::empty()
    } else {
        let rest = filter_teachers(s.drop_first(), q_low);
        if teacher_matches(s[0], q_low) {
            seq![s[0]] + rest
        } else {
            rest
        }
    }
}

/// A faculty matches a query (already lowercased) when it occurs inside
/// the lowercased name, building or head name.
pub open spec fn faculty_matches(v: FacultyView, q_low: Seq<char>) -> bool {
    seq_contains(lower_of(v.name), q_low) || seq_contains(lower_of(v.building), q_low)
        || seq_contains(lower_of(v.head_name), q_low)
}

/// The faculties of `s` matching `q_low`, in their original order.
pub open spec fn filter_faculties(s: Seq<FacultyView>, q_low: Seq<char>) -> Seq<FacultyView>
    decreases s.len(),
{
    if s.len() == 0 {
        Seq::empty()
    } else {
        let rest = filter_faculties(s.drop_first(), q_low);
        if faculty_matches(s[0], q_low) {
            seq![s[0]] + rest
        } else {
            rest
        }
    }
}

/// A student matches a query (already lowercased) when it occurs inside
/// the lowercased first name, last name or major.
pub open spec fn student_matches(v: StudentView, q_low: Seq<char>) -> bool {
    seq_contains(lower_of(v.first_name), q_low) || seq_contains(lower_of(v.last_name), q_low)
        || seq_contains(lower_of(v.major), q_low)
}

/// The students of `s` matching `q_low`, in their original order.
pub open spec fn filter_students(s: Seq<StudentView>, q_low: Seq<char>) -> Seq<StudentView>
    decreases s.len(),
{
    if s.len() == 0 {
        Seq::empty()
    } else {
        let rest = filter_students(s.drop_first(), q_low);
        if student_matches(s[0], q_low) {
            seq![s[0]] + rest
        } else {
            rest
        }
    }
}

impl DataManager {
    /// Ids are unique within each collection.
    pub open spec fn wf(self) -> bool {
        &&& unique_keys(self@.students, student_id())
        &&& unique_keys(self@.teachers, teacher_id())
        &&& unique_keys(self@.faculties, faculty_id())
    }

    /// An empty store.
    pub fn new() -> (r: DataManager)
        ensures
            r.wf(),
            r@.students.len() == 0,
            r@.teachers.len() == 0,
            r@.faculties.len() == 0,
    {
        DataManager { students: Vec::new(), teachers: Vec::new(), faculties: Vec::new() }
    }

    pub fn get_all_students(&self) -> (r: &Vec<Student>)
        ensures
            views(r@) == self@.students,
    {
        &self.students
    }

    /// Index of the first stored student with the given id.
    fn student_pos(&self, id: &str) -> (r: Option<usize>)
        ensures
            match r {
                Some(i) => index_of_key(self@.students, student_id(), id@) == Some(i as int),
                None => index_of_key(self@.students, student_id(), id@) is None,
            },
    {
        let n = self.students.len();
        let mut i: usize = 0;
        while i < n
            invariant
                n == self.students@.len(),
                i <= n,
                n == self@.students.len(),
                forall|j: int| 0 <= j < n ==> #[trigger] self@.students[j] == self.students@[j]@,
                find_key_from(self@.students, student_id(), id@, 0) == find_key_from(
                    self@.students,
                    student_id(),
                    id@,
                    i as int,
                ),
            decreases n - i,
        {
            if str_eq(self.students[i].id.as_str(), id) {
                return Some(i);
            }
            i = i + 1;
        }
        None
    }

    pub fn get_student_by_id(&self, id: &str) -> (r: Option<&Student>)
        ensures
            match r {
                Some(s) => index_of_key(self@.students, student_id(), id@) matches Some(i)
                    && s@ == self@.students[i],
                None => !has_key(self@.students, student_id(), id@),
            },
    {
        proof {
            lemma_index_of_key(self@.students, student_id(), id@);
        }
        match self.student_pos(id) {
            Some(i) => Some(&self.students[i]),
            None => None,
        }
    }

    /// Appends `student` under a freshly assigned id that no stored
    /// student carries, and returns that id.
    pub fn add_student(&mut self, student: Student) -> (id: String)
        requires
            old(self).wf(),
        ensures
            final(self).wf(),
            !has_key(old(self)@.students, student_id(), id@),
            final(self)@.students == old(self)@.students.push(
                (StudentView {
                    id: id@,
                    first_name: student@.first_name,
                    last_name: student@.last_name,
                    age: student@.age,
                    major: student@.major,
                    gpa_hundredths: student@.gpa_hundredths,
                }),
            ),
            final(self)@.teachers == old(self)@.teachers,
            final(self)@.faculties == old(self)@.faculties,
    {
        let cand = fresh_id();
        let taken = self.student_pos(cand.as_str()).is_some();
        let id = if taken {
            self.distinct_student_id()
        } else {
            cand
        };
        proof {
            lemma_index_of_key(self@.students, student_id(), id@);
        }
        assert(!has_key(self@.students, student_id(), id@));
        let rec = Student {
            id: id.clone(),
            first_name: student.first_name,
            last_name: student.last_name,
            age: student.age,
            major: student.major,
            gpa_hundredths: student.gpa_hundredths,
        };
        let ghost prev = self@.students;
        self.students.push(rec);
        proof {
            assert(self@.students =~= prev.push(rec@));
            assert forall|i: int, j: int|
                0 <= i < j < self@.students.len() implies student_id()(
                #[trigger] self@.students[i],
            ) != student_id()(#[trigger] self@.students[j]) by {
                if j == self@.students.len() - 1 {
                    assert(self@.students[i] == prev[i]);
                    assert(!(student_id()(prev[i]) == id@));
                }
            }
        }
        id
    }

    /// An id differing from every stored student id: position `j` of
    /// the result differs from position `j` of the `j`-th id, and its
    /// length equals the number of students.
    fn distinct_student_id(&self) -> (r: String)
        ensures
            forall|j: int| 0 <= j < self@.students.len() ==> r@ != (#[trigger] self@.students[j]).id,
    {
        let n = self.students.len();
        let mut v: Vec<char> = Vec::new();
        let mut i: usize = 0;
        while i < n
            invariant
                n == self.students@.len(),
                n == self@.students.len(),
                forall|j: int| 0 <= j < n ==> #[trigger] self@.students[j] == self.students@[j]@,
                i <= n,
                v@.len() == i,
                forall|j: int|
                    0 <= j < i ==> (j < (#[trigger] self@.students[j]).id.len() ==> v@[j]
                        != self@.students[j].id[j]),
            decreases n - i,
        {
            let idj = &self.students[i].id;
            let c: char = if idj.as_str().unicode_len() > i {
                let cj = idj.as_str().get_char(i);
                if cj == '0' {
                    '1'
                } else {
                    '0'
                }
            } else {
                '0'
            };
            v.push(c);
            i = i + 1;
        }
        proof {
            assert forall|j: int|
                0 <= j < self@.students.len() implies v@ != (#[trigger] self@.students[j]).id by {
                if self@.students[j].id.len() == n {
                    assert(v@[j] != self@.students[j].id[j]);
                }
            }
        }
        string_from_chars(&v)
    }

    /// Replaces the stored student carrying `updated`'s id, if any;
    /// reports whether a match was found.
    pub fn update_student(&mut self, updated: Student) -> (r: bool)
        requires
            old(self).wf(),
        ensures
            final(self).wf(),
            r == has_key(old(self)@.students, student_id(), updated@.id),
            match index_of_key(old(self)@.students, student_id(), updated@.id) {
                Some(i) => final(self)@.students == old(self)@.students.update(i, updated@),
                None => final(self)@.students == old(self)@.students,
            },
            final(self)@.teachers == old(self)@.teachers,
            final(self)@.faculties == old(self)@.faculties,
    {
        proof {
            lemma_index_of_key(self@.students, student_id(), updated@.id);
        }
        let ghost prev = self@.students;
        match self.student_pos(updated.id.as_str()) {
            Some(i) => {
                let ghost upd = updated@;
                self.students.set(i, updated);
                proof {
                    assert(self@.students =~= prev.update(i as int, upd));
                    assert(upd.id == prev[i as int].id);
                    assert forall|a: int, b: int|
                        0 <= a < b < self@.students.len() implies student_id()(
                        #[trigger] self@.students[a],
                    ) != student_id()(#[trigger] self@.students[b]) by {
                        assert(self@.students[a].id == prev[a].id);
                        assert(self@.students[b].id == prev[b].id);
                    }
                }
                true
            },
            None => false,
        }
    }

    /// Removes every stored student with the given id (at most one, by
    /// the uniqueness invariant); reports whether one was removed.
    pub fn delete_student(&mut self, id: &str) -> (r: bool)
        requires
            old(self).wf(),
        ensures
            final(self).wf(),
            r == has_key(old(self)@.students, student_id(), id@),
            final(self)@.students == remove_key(old(self)@.students, student_id(), id@),
            !has_key(final(self)@.students, student_id(), id@),
            r ==> final(self)@.students.len() == old(self)@.students.len() - 1,
            !r ==> final(self)@.students == old(self)@.students,
            final(self)@.teachers == old(self)@.teachers,
            final(self)@.faculties == old(self)@.faculties,
    {
        let ghost prev = self@.students;
        let n = self.students.len();
        let mut kept: Vec<Student> = Vec::new();
        let mut found = false;
        let mut i: usize = 0;
        proof {
            assert(views(kept@) =~= Seq::<StudentView>::empty());
            assert(prev.subrange(0, n as int) =~= prev);
        }
        while i < n
            invariant
                n == self.students@.len(),
                n == prev.len(),
                forall|j: int| 0 <= j < n ==> #[trigger] prev[j] == self.students@[j]@,
                i <= n,
                views(kept@) + remove_key(prev.subrange(i as int, n as int), student_id(), id@)
                    =~= remove_key(prev, student_id(), id@),
                found == has_key(prev.subrange(0, i as int), student_id(), id@),
                self.students@.len() == n,
            decreases n - i,
        {
            let ghost tail = prev.subrange(i as int, n as int);
            proof {
                assert(tail.drop_first() =~= prev.subrange(i + 1, n as int));
                assert(tail[0] == prev[i as int]);
            }
            let matches_id = str_eq(self.students[i].id.as_str(), id);
            if !matches_id {
                let ghost kv = views(kept@);
                kept.push(self.students[i].clone());
                proof {
                    assert(views(kept@) =~= kv.push(prev[i as int]));
                    assert(views(kept@) + remove_key(
                        prev.subrange(i + 1, n as int),
                        student_id(),
                        id@,
                    ) =~= kv + (seq![prev[i as int]] + remove_key(
                        prev.subrange(i + 1, n as int),
                        student_id(),
                        id@,
                    )));
                }
            } else {
                found = true;
            }
            proof {
                assert(prev.subrange(0, i + 1) =~= prev.subrange(0, i as int).push(
                    prev[i as int],
                ));
                if found {
                    if matches_id {
                        assert(has_key(prev.subrange(0, i + 1), student_id(), id@)) by {
                            assert(prev.subrange(0, i + 1)[i as int] == prev[i as int]);
                        }
                    } else {
                        let k = choose|j: int|
                            0 <= j < i && student_id()(
                                #[trigger] prev.subrange(0, i as int)[j],
                            ) == id@;
                        assert(prev.subrange(0, i + 1)[k] == prev.subrange(0, i as int)[k]);
                    }
                } else {
                    assert forall|j: int|
                        0 <= j < i + 1 implies student_id()(
                        #[trigger] prev.subrange(0, i + 1)[j],
                    ) != id@ by {
                        if j < i {
                            assert(prev.subrange(0, i + 1)[j] == prev.subrange(0, i as int)[j]);
                            assert(!(0 <= j < i && student_id()(prev.subrange(0, i as int)[j])
                                == id@));
                        } else {
                            assert(prev.subrange(0, i + 1)[j] == prev[i as int]);
                        }
                    }
                }
            }
            i = i + 1;
        }
        proof {
            assert(prev.subrange(n as int, n as int) =~= Seq::<StudentView>::empty());
            assert(remove_key(Seq::<StudentView>::empty(), student_id(), id@)
                =~= Seq::<StudentView>::empty());
            assert(views(kept@) + Seq::<StudentView>::empty() =~= views(kept@));
            assert(prev.subrange(0, n as int) =~= prev);
            lemma_remove_key_gone(prev, student_id(), id@);
            lemma_remove_key_unique(prev, student_id(), id@);
            if found {
                lemma_remove_key_len(prev, student_id(), id@);
            } else {
                lemma_remove_key_absent(prev, student_id(), id@);
            }
        }
        self.students = kept;
        found
    }

    /// The stored students whose lowercased first name, last name or
    /// major contains the lowercased query, in their original order.
    pub fn search_students(&self, query: &str) -> (r: Vec<Student>)
        ensures
            views(r@) == filter_students(self@.students, lower_of(query@)),
    {
        let q = lowercase(query);
        let qc = chars_of(q.as_str());
        let n = self.students.len();
        let ghost all = self@.students;
        let mut r: Vec<Student> = Vec::new();
        let mut i: usize = 0;
        proof {
            assert(views(r@) =~= Seq::<StudentView>::empty());
            assert(all.subrange(0, n as int) =~= all);
        }
        while i < n
            invariant
                n == self.students@.len(),
                n == all.len(),
                forall|j: int| 0 <= j < n ==> #[trigger] all[j] == self.students@[j]@,
                qc@ == lower_of(query@),
                i <= n,
                views(r@) + filter_students(all.subrange(i as int, n as int), lower_of(query@))
                    =~= filter_students(all, lower_of(query@)),
            decreases n - i,
        {
            let ghost tail = all.subrange(i as int, n as int);
            proof {
                assert(tail.drop_first() =~= all.subrange(i + 1, n as int));
                assert(tail[0] == all[i as int]);
            }
            let s = &self.students[i];
            let fl = lowercase(s.first_name.as_str());
            let flc = chars_of(fl.as_str());
            let ll = lowercase(s.last_name.as_str());
            let llc = chars_of(ll.as_str());
            let ml = lowercase(s.major.as_str());
            let mlc = chars_of(ml.as_str());
            let hit = contains_chars(&flc, &qc) || contains_chars(&llc, &qc) || contains_chars(
                &mlc,
                &qc,
            );
            if hit {
                let ghost rv = views(r@);
                r.push(s.clone());
                proof {
                    assert(views(r@) =~= rv.push(all[i as int]));
                    assert(views(r@) + filter_students(
                        all.subrange(i + 1, n as int),
                        lower_of(query@),
                    ) =~= rv + (seq![all[i as int]] + filter_students(
                        all.subrange(i + 1, n as int),
                        lower_of(query@),
                    )));
                }
            }
            i = i + 1;
        }
        proof {
            assert(all.subrange(n as int, n as int) =~= Seq::<StudentView>::empty());
            assert(views(r@) + filter_students(Seq::empty(), lower_of(query@)) =~= views(r@));
        }
        r
    }

    pub fn get_all_teachers(&self) -> (r: &Vec<Teacher>)
        ensures
            views(r@) == self@.teachers,
    {
        &self.teachers
    }

    /// Index of the first stored teacher with the given id.
    fn teacher_pos(&self, id: &str) -> (r: Option<usize>)
        ensures
            match r {
                Some(i) => index_of_key(self@.teachers, teacher_id(), id@) == Some(i as int),
                None => index_of_key(self@.teachers, teacher_id(), id@) is None,
            },
    {
        let n = self.teachers.len();
        let mut i: usize = 0;
        while i < n
            invariant
                n == self.teachers@.len(),
                i <= n,
                n == self@.teachers.len(),
                forall|j: int| 0 <= j < n ==> #[trigger] self@.teachers[j] == self.teachers@[j]@,
                find_key_from(self@.teachers, teacher_id(), id@, 0) == find_key_from(
                    self@.teachers,
                    teacher_id(),
                    id@,
                    i as int,
                ),
            decreases n - i,
        {
            if str_eq(self.teachers[i].id.as_str(), id) {
                return Some(i);
            }
            i = i + 1;
        }
        None
    }

    pub fn get_teacher_by_id(&self, id: &str) -> (r: Option<&Teacher>)
        ensures
            match r {
                Some(t) => index_of_key(self@.teachers, teacher_id(), id@) matches Some(i)
                    && t@ == self@.teachers[i],
                None => !has_key(self@.teachers, teacher_id(), id@),
            },
    {
        proof {
            lemma_index_of_key(self@.teachers, teacher_id(), id@);
        }
        match self.teacher_pos(id) {
            Some(i) => Some(&self.teachers[i]),
            None => None,
        }
    }

    /// Appends `teacher` under a freshly assigned id that no stored
    /// teacher carries, and returns that id.
    pub fn add_teacher(&mut self, teacher: Teacher) -> (id: String)
        requires
            old(self).wf(),
        ensures
            final(self).wf(),
            !has_key(old(self)@.teachers, teacher_id(), id@),
            final(self)@.teachers == old(self)@.teachers.push(
                (TeacherView {
                    id: id@,
                    first_name: teacher@.first_name,
                    last_name: teacher@.last_name,
                    age: teacher@.age,
                    department: teacher@.department,
                    title: teacher@.title,
                }),
            ),
            final(self)@.students == old(self)@.students,
            final(self)@.faculties == old(self)@.faculties,
    {
        let cand = fresh_id();
        let taken = self.teacher_pos(cand.as_str()).is_some();
        let id = if taken {
            self.distinct_teacher_id()
        } else {
            cand
        };
        proof {
            lemma_index_of_key(self@.teachers, teacher_id(), id@);
        }
        assert(!has_key(self@.teachers, teacher_id(), id@));
        let rec = Teacher {
            id: id.clone(),
            first_name: teacher.first_name,
            last_name: teacher.last_name,
            age: teacher.age,
            department: teacher.department,
            title: teacher.title,
        };
        let ghost prev = self@.teachers;
        self.teachers.push(rec);
        proof {
            assert(self@.teachers =~= prev.push(rec@));
            assert forall|i: int, j: int|
                0 <= i < j < self@.teachers.len() implies teacher_id()(
                #[trigger] self@.teachers[i],
            ) != teacher_id()(#[trigger] self@.teachers[j]) by {
                if j == self@.teachers.len() - 1 {
                    assert(self@.teachers[i] == prev[i]);
                    assert(!(teacher_id()(prev[i]) == id@));
                }
            }
        }
        id
    }

    /// An id differing from every stored teacher id.
    fn distinct_teacher_id(&self) -> (r: String)
        ensures
            forall|j: int| 0 <= j < self@.teachers.len() ==> r@ != (#[trigger] self@.teachers[j]).id,
    {
        let n = self.teachers.len();
        let mut v: Vec<char> = Vec::new();
        let mut i: usize = 0;
        while i < n
            invariant
                n == self.teachers@.len(),
                n == self@.teachers.len(),
                forall|j: int| 0 <= j < n ==> #[trigger] self@.teachers[j] == self.teachers@[j]@,
                i <= n,
                v@.len() == i,
                forall|j: int|
                    0 <= j < i ==> (j < (#[trigger] self@.teachers[j]).id.len() ==> v@[j]
                        != self@.teachers[j].id[j]),
            decreases n - i,
        {
            let idj = &self.teachers[i].id;
            let c: char = if idj.as_str().unicode_len() > i {
                let cj = idj.as_str().get_char(i);
                if cj == '0' {
                    '1'
                } else {
                    '0'
                }
            } else {
                '0'
            };
            v.push(c);
            i = i + 1;
        }
        proof {
            assert forall|j: int|
                0 <= j < self@.teachers.len() implies v@ != (#[trigger] self@.teachers[j]).id by {
                if self@.teachers[j].id.len() == n {
                    assert(v@[j] != self@.teachers[j].id[j]);
                }
            }
        }
        string_from_chars(&v)
    }

    /// Replaces the stored teacher carrying `updated`'s id, if any;
    /// reports whether a match was found.
    pub fn update_teacher(&mut self, updated: Teacher) -> (r: bool)
        requires
            old(self).wf(),
        ensures
            final(self).wf(),
            r == has_key(old(self)@.teachers, teacher_id(), updated@.id),
            match index_of_key(old(self)@.teachers, teacher_id(), updated@.id) {
                Some(i) => final(self)@.teachers == old(self)@.teachers.update(i, updated@),
                None => final(self)@.teachers == old(self)@.teachers,
            },
            final(self)@.students == old(self)@.students,
            final(self)@.faculties == old(self)@.faculties,
    {
        proof {
            lemma_index_of_key(self@.teachers, teacher_id(), updated@.id);
        }
        let ghost prev = self@.teachers;
        match self.teacher_pos(updated.id.as_str()) {
            Some(i) => {
                let ghost upd = updated@;
                self.teachers.set(i, updated);
                proof {
                    assert(self@.teachers =~= prev.update(i as int, upd));
                    assert(upd.id == prev[i as int].id);
                    assert forall|a: int, b: int|
                        0 <= a < b < self@.teachers.len() implies teacher_id()(
                        #[trigger] self@.teachers[a],
                    ) != teacher_id()(#[trigger] self@.teachers[b]) by {
                        assert(self@.teachers[a].id == prev[a].id);
                        assert(self@.teachers[b].id == prev[b].id);
                    }
                }
                true
            },
            None => false,
        }
    }

    /// Removes every stored teacher with the given id (at most one, by
    /// the uniqueness invariant); reports whether one was removed.
    pub fn delete_teacher(&mut self, id: &str) -> (r: bool)
        requires
            old(self).wf(),
        ensures
            final(self).wf(),
            r == has_key(old(self)@.teachers, teacher_id(), id@),
            final(self)@.teachers == remove_key(old(self)@.teachers, teacher_id(), id@),
            !has_key(final(self)@.teachers, teacher_id(), id@),
            r ==> final(self)@.teachers.len() == old(self)@.teachers.len() - 1,
            !r ==> final(self)@.teachers == old(self)@.teachers,
            final(self)@.students == old(self)@.students,
            final(self)@.faculties == old(self)@.faculties,
    {
        let ghost prev = self@.teachers;
        let n = self.teachers.len();
        let mut kept: Vec<Teacher> = Vec::new();
        let mut found = false;
        let mut i: usize = 0;
        proof {
            assert(views(kept@) =~= Seq::<TeacherView>::empty());
            assert(prev.subrange(0, n as int) =~= prev);
        }
        while i < n
            invariant
                n == self.teachers@.len(),
                n == prev.len(),
                forall|j: int| 0 <= j < n ==> #[trigger] prev[j] == self.teachers@[j]@,
                i <= n,
                views(kept@) + remove_key(prev.subrange(i as int, n as int), teacher_id(), id@)
                    =~= remove_key(prev, teacher_id(), id@),
                found == has_key(prev.subrange(0, i as int), teacher_id(), id@),
                self.teachers@.len() == n,
            decreases n - i,
        {
            let ghost tail = prev.subrange(i as int, n as int);
            proof {
                assert(tail.drop_first() =~= prev.subrange(i + 1, n as int));
                assert(tail[0] == prev[i as int]);
            }
            let matches_id = str_eq(self.teachers[i].id.as_str(), id);
            if !matches_id {
                let ghost kv = views(kept@);
                kept.push(self.teachers[i].clone());
                proof {
                    assert(views(kept@) =~= kv.push(prev[i as int]));
                    assert(views(kept@) + remove_key(
                        prev.subrange(i + 1, n as int),
                        teacher_id(),
                        id@,
                    ) =~= kv + (seq![prev[i as int]] + remove_key(
                        prev.subrange(i + 1, n as int),
                        teacher_id(),
                        id@,
                    )));
                }
            } else {
                found = true;
            }
            proof {
                assert(prev.subrange(0, i + 1) =~= prev.subrange(0, i as int).push(
                    prev[i as int],
                ));
                if found {
                    if matches_id {
                        assert(has_key(prev.subrange(0, i + 1), teacher_id(), id@)) by {
                            assert(prev.subrange(0, i + 1)[i as int] == prev[i as int]);
                        }
                    } else {
                        let k = choose|j: int|
                            0 <= j < i && teacher_id()(
                                #[trigger] prev.subrange(0, i as int)[j],
                            ) == id@;
                        assert(prev.subrange(0, i + 1)[k] == prev.subrange(0, i as int)[k]);
                    }
                } else {
                    assert forall|j: int|
                        0 <= j < i + 1 implies teacher_id()(
                        #[trigger] prev.subrange(0, i + 1)[j],
                    ) != id@ by {
                        if j < i {
                            assert(prev.subrange(0, i + 1)[j] == prev.subrange(0, i as int)[j]);
                            assert(!(0 <= j < i && teacher_id()(prev.subrange(0, i as int)[j])
                                == id@));
                        } else {
                            assert(prev.subrange(0, i + 1)[j] == prev[i as int]);
                        }
                    }
                }
            }
            i = i + 1;
        }
        proof {
            assert(prev.subrange(n as int, n as int) =~= Seq::<TeacherView>::empty());
            assert(remove_key(Seq::<TeacherView>::empty(), teacher_id(), id@)
                =~= Seq::<TeacherView>::empty());
            assert(views(kept@) + Seq::<TeacherView>::empty() =~= views(kept@));
            assert(prev.subrange(0, n as int) =~= prev);
            lemma_remove_key_gone(prev, teacher_id(), id@);
            lemma_remove_key_unique(prev, teacher_id(), id@);
            if found {
                lemma_remove_key_len(prev, teacher_id(), id@);
            } else {
                lemma_remove_key_absent(prev, teacher_id(), id@);
            }
        }
        self.teachers = kept;
        found
    }

    /// The stored teachers whose lowercased first name, last name,
    /// department or title contains the lowercased query, in their
    /// original order.
    pub fn search_teachers(&self, query: &str) -> (r: Vec<Teacher>)
        ensures
            views(r@) == filter_teachers(self@.teachers, lower_of(query@)),
    {
        let q = lowercase(query);
        let qc = chars_of(q.as_str());
        let n = self.teachers.len();
        let ghost all = self@.teachers;
        let mut r: Vec<Teacher> = Vec::new();
        let mut i: usize = 0;
        proof {
            assert(views(r@) =~= Seq::<TeacherView>::empty());
            assert(all.subrange(0, n as int) =~= all);
        }
        while i < n
            invariant
                n == self.teachers@.len(),
                n == all.len(),
                forall|j: int| 0 <= j < n ==> #[trigger] all[j] == self.teachers@[j]@,
                qc@ == lower_of(query@),
                i <= n,
                views(r@) + filter_teachers(all.subrange(i as int, n as int), lower_of(query@))
                    =~= filter_teachers(all, lower_of(query@)),
            decreases n - i,
        {
            let ghost tail = all.subrange(i as int, n as int);
            proof {
                assert(tail.drop_first() =~= all.subrange(i + 1, n as int));
                assert(tail[0] == all[i as int]);
            }
            let t = &self.teachers[i];
            let fl = lowercase(t.first_name.as_str());
            let flc = chars_of(fl.as_str());
            let ll = lowercase(t.last_name.as_str());
            let llc = chars_of(ll.as_str());
            let dl = lowercase(t.department.as_str());
            let dlc = chars_of(dl.as_str());
            let tl = lowercase(t.title.as_str());
            let tlc = chars_of(tl.as_str());
            let hit = contains_chars(&flc, &qc) || contains_chars(&llc, &qc) || contains_chars(
                &dlc,
                &qc,
            ) || contains_chars(&tlc, &qc);
            if hit {
                let ghost rv = views(r@);
                r.push(t.clone());
                proof {
                    assert(views(r@) =~= rv.push(all[i as int]));
                    assert(views(r@) + filter_teachers(
                        all.subrange(i + 1, n as int),
                        lower_of(query@),
                    ) =~= rv + (seq![all[i as int]] + filter_teachers(
                        all.subrange(i + 1, n as int),
                        lower_of(query@),
                    )));
                }
            }
            i = i + 1;
        }
        proof {
            assert(all.subrange(n as int, n as int) =~= Seq::<TeacherView>::empty());
            assert(views(r@) + filter_teachers(Seq::empty(), lower_of(query@)) =~= views(r@));
        }
        r
    }

    pub fn get_all_faculties(&self) -> (r: &Vec<Faculty>)
        ensures
            views(r@) == self@.faculties,
    {
        &self.faculties
    }

    /// Index of the first stored faculty with the given id.
    fn faculty_pos(&self, id: &str) -> (r: Option<usize>)
        ensures
            match r {
                Some(i) => index_of_key(self@.faculties, faculty_id(), id@) == Some(i as int),
                None => index_of_key(self@.faculties, faculty_id(), id@) is None,
            },
    {
        let n = self.faculties.len();
        let mut i: usize = 0;
        while i < n
            invariant
                n == self.faculties@.len(),
                i <= n,
                n == self@.faculties.len(),
                forall|j: int| 0 <= j < n ==> #[trigger] self@.faculties[j] == self.faculties@[j]@,
                find_key_from(self@.faculties, faculty_id(), id@, 0) == find_key_from(
                    self@.faculties,
                    faculty_id(),
                    id@,
                    i as int,
                ),
            decreases n - i,
        {
            if str_eq(self.faculties[i].id.as_str(), id) {
                return Some(i);
            }
            i = i + 1;
        }
        None
    }

    pub fn get_faculty_by_id(&self, id: &str) -> (r: Option<&Faculty>)
        ensures
            match r {
                Some(f) => index_of_key(self@.faculties, faculty_id(), id@) matches Some(i)
                    && f@ == self@.faculties[i],
                None => !has_key(self@.faculties, faculty_id(), id@),
            },
    {
        proof {
            lemma_index_of_key(self@.faculties, faculty_id(), id@);
        }
        match self.faculty_pos(id) {
            Some(i) => Some(&self.faculties[i]),
            None => None,
        }
    }

    /// Appends `faculty` under a freshly assigned id that no stored
    /// faculty carries, and returns that id.
    pub fn add_faculty(&mut self, faculty: Faculty) -> (id: String)
        requires
            old(self).wf(),
        ensures
            final(self).wf(),
            !has_key(old(self)@.faculties, faculty_id(), id@),
            final(self)@.faculties == old(self)@.faculties.push(
                (FacultyView {
                    id: id@,
                    name: faculty@.name,
                    building: faculty@.building,
                    head_name: faculty@.head_name,
                    established_year: faculty@.established_year,
                    num_staff: faculty@.num_staff,
                }),
            ),
            final(self)@.students == old(self)@.students,
            final(self)@.teachers == old(self)@.teachers,
    {
        let cand = fresh_id();
        let taken = self.faculty_pos(cand.as_str()).is_some();
        let id = if taken {
            self.distinct_faculty_id()
        } else {
            cand
        };
        proof {
            lemma_index_of_key(self@.faculties, faculty_id(), id@);
        }
        assert(!has_key(self@.faculties, faculty_id(), id@));
        let rec = Faculty {
            id: id.clone(),
            name: faculty.name,
            building: faculty.building,
            head_name: faculty.head_name,
            established_year: faculty.established_year,
            num_staff: faculty.num_staff,
        };
        let ghost prev = self@.faculties;
        self.faculties.push(rec);
        proof {
            assert(self@.faculties =~= prev.push(rec@));
            assert forall|i: int, j: int|
                0 <= i < j < self@.faculties.len() implies faculty_id()(
                #[trigger] self@.faculties[i],
            ) != faculty_id()(#[trigger] self@.faculties[j]) by {
                if j == self@.faculties.len() - 1 {
                    assert(self@.faculties[i] == prev[i]);
                    assert(!(faculty_id()(prev[i]) == id@));
                }
            }
        }
        id
    }

    /// An id differing from every stored faculty id.
    fn distinct_faculty_id(&self) -> (r: String)
        ensures
            forall|j: int|
                0 <= j < self@.faculties.len() ==> r@ != (#[trigger] self@.faculties[j]).id,
    {
        let n = self.faculties.len();
        let mut v: Vec<char> = Vec::new();
        let mut i: usize = 0;
        while i < n
            invariant
                n == self.faculties@.len(),
                n == self@.faculties.len(),
                forall|j: int| 0 <= j < n ==> #[trigger] self@.faculties[j] == self.faculties@[j]@,
                i <= n,
                v@.len() == i,
                forall|j: int|
                    0 <= j < i ==> (j < (#[trigger] self@.faculties[j]).id.len() ==> v@[j]
                        != self@.faculties[j].id[j]),
            decreases n - i,
        {
            let idj = &self.faculties[i].id;
            let c: char = if idj.as_str().unicode_len() > i {
                let cj = idj.as_str().get_char(i);
                if cj == '0' {
                    '1'
                } else {
                    '0'
                }
            } else {
                '0'
            };
            v.push(c);
            i = i + 1;
        }
        proof {
            assert forall|j: int|
                0 <= j < self@.faculties.len() implies v@ != (#[trigger] self@.faculties[j]).id by {
                if self@.faculties[j].id.len() == n {
                    assert(v@[j] != self@.faculties[j].id[j]);
                }
            }
        }
        string_from_chars(&v)
    }

    /// Replaces the stored faculty carrying `updated`'s id, if any;
    /// reports whether a match was found.
    pub fn update_faculty(&mut self, updated: Faculty) -> (r: bool)
        requires
            old(self).wf(),
        ensures
            final(self).wf(),
            r == has_key(old(self)@.faculties, faculty_id(), updated@.id),
            match index_of_key(old(self)@.faculties, faculty_id(), updated@.id) {
                Some(i) => final(self)@.faculties == old(self)@.faculties.update(i, updated@),
                None => final(self)@.faculties == old(self)@.faculties,
            },
            final(self)@.students == old(self)@.students,
            final(self)@.teachers == old(self)@.teachers,
    {
        proof {
            lemma_index_of_key(self@.faculties, faculty_id(), updated@.id);
        }
        let ghost prev = self@.faculties;
        match self.faculty_pos(updated.id.as_str()) {
            Some(i) => {
                let ghost upd = updated@;
                self.faculties.set(i, updated);
                proof {
                    assert(self@.faculties =~= prev.update(i as int, upd));
                    assert(upd.id == prev[i as int].id);
                    assert forall|a: int, b: int|
                        0 <= a < b < self@.faculties.len() implies faculty_id()(
                        #[trigger] self@.faculties[a],
                    ) != faculty_id()(#[trigger] self@.faculties[b]) by {
                        assert(self@.faculties[a].id == prev[a].id);
                        assert(self@.faculties[b].id == prev[b].id);
                    }
                }
                true
            },
            None => false,
        }
    }

    /// Removes every stored faculty with the given id (at most one, by
    /// the uniqueness invariant); reports whether one was removed.
    pub fn delete_faculty(&mut self, id: &str) -> (r: bool)
        requires
            old(self).wf(),
        ensures
            final(self).wf(),
            r == has_key(old(self)@.faculties, faculty_id(), id@),
            final(self)@.faculties == remove_key(old(self)@.faculties, faculty_id(), id@),
            !has_key(final(self)@.faculties, faculty_id(), id@),
            r ==> final(self)@.faculties.len() == old(self)@.faculties.len() - 1,
            !r ==> final(self)@.faculties == old(self)@.faculties,
            final(self)@.students == old(self)@.students,
            final(self)@.teachers == old(self)@.teachers,
    {
        let ghost prev = self@.faculties;
        let n = self.faculties.len();
        let mut kept: Vec<Faculty> = Vec::new();
        let mut found = false;
        let mut i: usize = 0;
        proof {
            assert(views(kept@) =~= Seq::<FacultyView>::empty());
            assert(prev.subrange(0, n as int) =~= prev);
        }
        while i < n
            invariant
                n == self.faculties@.len(),
                n == prev.len(),
                forall|j: int| 0 <= j < n ==> #[trigger] prev[j] == self.faculties@[j]@,
                i <= n,
                views(kept@) + remove_key(prev.subrange(i as int, n as int), faculty_id(), id@)
                    =~= remove_key(prev, faculty_id(), id@),
                found == has_key(prev.subrange(0, i as int), faculty_id(), id@),
                self.faculties@.len() == n,
            decreases n - i,
        {
            let ghost tail = prev.subrange(i as int, n as int);
            proof {
                assert(tail.drop_first() =~= prev.subrange(i + 1, n as int));
                assert(tail[0] == prev[i as int]);
            }
            let matches_id = str_eq(self.faculties[i].id.as_str(), id);
            if !matches_id {
                let ghost kv = views(kept@);
                kept.push(self.faculties[i].clone());
                proof {
                    assert(views(kept@) =~= kv.push(prev[i as int]));
                    assert(views(kept@) + remove_key(
                        prev.subrange(i + 1, n as int),
                        faculty_id(),
                        id@,
                    ) =~= kv + (seq![prev[i as int]] + remove_key(
                        prev.subrange(i + 1, n as int),
                        faculty_id(),
                        id@,
                    )));
                }
            } else {
                found = true;
            }
            proof {
                assert(prev.subrange(0, i + 1) =~= prev.subrange(0, i as int).push(
                    prev[i as int],
                ));
                if found {
                    if matches_id {
                        assert(has_key(prev.subrange(0, i + 1), faculty_id(), id@)) by {
                            assert(prev.subrange(0, i + 1)[i as int] == prev[i as int]);
                        }
                    } else {
                        let k = choose|j: int|
                            0 <= j < i && faculty_id()(
                                #[trigger] prev.subrange(0, i as int)[j],
                            ) == id@;
                        assert(prev.subrange(0, i + 1)[k] == prev.subrange(0, i as int)[k]);
                    }
                } else {
                    assert forall|j: int|
                        0 <= j < i + 1 implies faculty_id()(
                        #[trigger] prev.subrange(0, i + 1)[j],
                    ) != id@ by {
                        if j < i {
                            assert(prev.subrange(0, i + 1)[j] == prev.subrange(0, i as int)[j]);
                            assert(!(0 <= j < i && faculty_id()(prev.subrange(0, i as int)[j])
                                == id@));
                        } else {
                            assert(prev.subrange(0, i + 1)[j] == prev[i as int]);
                        }
                    }
                }
            }
            i = i + 1;
        }
        proof {
            assert(prev.subrange(n as int, n as int) =~= Seq::<FacultyView>::empty());
            assert(remove_key(Seq::<FacultyView>::empty(), faculty_id(), id@)
                =~= Seq::<FacultyView>::empty());
            assert(views(kept@) + Seq::<FacultyView>::empty() =~= views(kept@));
            assert(prev.subrange(0, n as int) =~= prev);
            lemma_remove_key_gone(prev, faculty_id(), id@);
            lemma_remove_key_unique(prev, faculty_id(), id@);
            if found {
                lemma_remove_key_len(prev, faculty_id(), id@);
            } else {
                lemma_remove_key_absent(prev, faculty_id(), id@);
            }
        }
        self.faculties = kept;
        found
    }

    /// The stored faculties whose lowercased name, building or head
    /// name contains the lowercased query, in their original order.
    pub fn search_faculties(&self, query: &str) -> (r: Vec<Faculty>)
        ensures
            views(r@) == filter_faculties(self@.faculties, lower_of(query@)),
    {
        let q = lowercase(query);
        let qc = chars_of(q.as_str());
        let n = self.faculties.len();
        let ghost all = self@.faculties;
        let mut r: Vec<Faculty> = Vec::new();
        let mut i: usize = 0;
        proof {
            assert(views(r@) =~= Seq::<FacultyView>::empty());
            assert(all.subrange(0, n as int) =~= all);
        }
        while i < n
            invariant
                n == self.faculties@.len(),
                n == all.len(),
                forall|j: int| 0 <= j < n ==> #[trigger] all[j] == self.faculties@[j]@,
                qc@ == lower_of(query@),
                i <= n,
                views(r@) + filter_faculties(all.subrange(i as int, n as int), lower_of(query@))
                    =~= filter_faculties(all, lower_of(query@)),
            decreases n - i,
        {
            let ghost tail = all.subrange(i as int, n as int);
            proof {
                assert(tail.drop_first() =~= all.subrange(i + 1, n as int));
                assert(tail[0] == all[i as int]);
            }
            let f = &self.faculties[i];
            let nl = lowercase(f.name.as_str());
            let nlc = chars_of(nl.as_str());
            let bl = lowercase(f.building.as_str());
            let blc = chars_of(bl.as_str());
            let hl = lowercase(f.head_name.as_str());
            let hlc = chars_of(hl.as_str());
            let hit = contains_chars(&nlc, &qc) || contains_chars(&blc, &qc) || contains_chars(
                &hlc,
                &qc,
            );
            if hit {
                let ghost rv = views(r@);
                r.push(f.clone());
                proof {
                    assert(views(r@) =~= rv.push(all[i as int]));
                    assert(views(r@) + filter_faculties(
                        all.subrange(i + 1, n as int),
                        lower_of(query@),
                    ) =~= rv + (seq![all[i as int]] + filter_faculties(
                        all.subrange(i + 1, n as int),
                        lower_of(query@),
                    )));
                }
            }
            i = i + 1;
        }
        proof {
            assert(all.subrange(n as int, n as int) =~= Seq::<FacultyView>::empty());
            assert(views(r@) + filter_faculties(Seq::empty(), lower_of(query@)) =~= views(r@));
        }
        r
    }
}


/// No two records of `v` share an id.
fn students_ids_unique(v: &Vec<Student>) -> (r: bool)
    ensures
        r == unique_keys(views(v@), student_id()),
{
    let n = v.len();
    let mut i: usize = 0;
    while i < n
        invariant
            i <= n,
            n == v@.len(),
            n == views(v@).len(),
            forall|l: int| 0 <= l < n ==> #[trigger] views(v@)[l] == v@[l]@,
            forall|a: int, b: int|
                0 <= a < b < n && a < i ==> student_id()(#[trigger] views(v@)[a]) != student_id()(
                    #[trigger] views(v@)[b],
                ),
        decreases n - i,
    {
        let mut j: usize = i + 1;
        while j < n
            invariant
                i < j <= n || (i + 1 == j && j > n),
                i < n,
                n == v@.len(),
                n == views(v@).len(),
                forall|l: int| 0 <= l < n ==> #[trigger] views(v@)[l] == v@[l]@,
                forall|l: int|
                    i < l < j ==> student_id()(views(v@)[i as int]) != student_id()(
                        #[trigger] views(v@)[l],
                    ),
            decreases n - j,
        {
            if str_eq(v[i].id.as_str(), v[j].id.as_str()) {
                proof {
                    assert(views(v@)[i as int].id == views(v@)[j as int].id);
                    assert(student_id()(views(v@)[i as int]) == student_id()(views(v@)[j as int]));
                }
                assert(!unique_keys(views(v@), student_id()));
                return false;
            }
            j = j + 1;
        }
        i = i + 1;
    }
    true
}

/// No two records of `v` share an id.
fn teachers_ids_unique(v: &Vec<Teacher>) -> (r: bool)
    ensures
        r == unique_keys(views(v@), teacher_id()),
{
    let n = v.len();
    let mut i: usize = 0;
    while i < n
        invariant
            i <= n,
            n == v@.len(),
            n == views(v@).len(),
            forall|l: int| 0 <= l < n ==> #[trigger] views(v@)[l] == v@[l]@,
            forall|a: int, b: int|
                0 <= a < b < n && a < i ==> teacher_id()(#[trigger] views(v@)[a]) != teacher_id()(
                    #[trigger] views(v@)[b],
                ),
        decreases n - i,
    {
        let mut j: usize = i + 1;
        while j < n
            invariant
                i < j <= n || (i + 1 == j && j > n),
                i < n,
                n == v@.len(),
                n == views(v@).len(),
                forall|l: int| 0 <= l < n ==> #[trigger] views(v@)[l] == v@[l]@,
                forall|l: int|
                    i < l < j ==> teacher_id()(views(v@)[i as int]) != teacher_id()(
                        #[trigger] views(v@)[l],
                    ),
            decreases n - j,
        {
            if str_eq(v[i].id.as_str(), v[j].id.as_str()) {
                proof {
                    assert(views(v@)[i as int].id == views(v@)[j as int].id);
                    assert(teacher_id()(views(v@)[i as int]) == teacher_id()(views(v@)[j as int]));
                }
                assert(!unique_keys(views(v@), teacher_id()));
                return false;
            }
            j = j + 1;
        }
        i = i + 1;
    }
    true
}

/// No two records of `v` share an id.
fn faculties_ids_unique(v: &Vec<Faculty>) -> (r: bool)
    ensures
        r == unique_keys(views(v@), faculty_id()),
{
    let n = v.len();
    let mut i: usize = 0;
    while i < n
        invariant
            i <= n,
            n == v@.len(),
            n == views(v@).len(),
            forall|l: int| 0 <= l < n ==> #[trigger] views(v@)[l] == v@[l]@,
            forall|a: int, b: int|
                0 <= a < b < n && a < i ==> faculty_id()(#[trigger] views(v@)[a]) != faculty_id()(
                    #[trigger] views(v@)[b],
                ),
        decreases n - i,
    {
        let mut j: usize = i + 1;
        while j < n
            invariant
                i < j <= n || (i + 1 == j && j > n),
                i < n,
                n == v@.len(),
                n == views(v@).len(),
                forall|l: int| 0 <= l < n ==> #[trigger] views(v@)[l] == v@[l]@,
                forall|l: int|
                    i < l < j ==> faculty_id()(views(v@)[i as int]) != faculty_id()(
                        #[trigger] views(v@)[l],
                    ),
            decreases n - j,
        {
            if str_eq(v[i].id.as_str(), v[j].id.as_str()) {
                proof {
                    assert(views(v@)[i as int].id == views(v@)[j as int].id);
                    assert(faculty_id()(views(v@)[i as int]) == faculty_id()(views(v@)[j as int]));
                }
                assert(!unique_keys(views(v@), faculty_id()));
                return false;
            }
            j = j + 1;
        }
        i = i + 1;
    }
    true
}

impl DataManager {
    /// The stored text of the student collection.
    pub fn save_students(&self) -> (r: String)
        ensures
            r@ == enc_students(self@.students),
    {
        encode_students(&self.students)
    }

    /// The stored text of the teacher collection.
    pub fn save_teachers(&self) -> (r: String)
        ensures
            r@ == enc_teachers(self@.teachers),
    {
        encode_teachers(&self.teachers)
    }

    /// The stored text of the faculty collection.
    pub fn save_faculties(&self) -> (r: String)
        ensures
            r@ == enc_faculties(self@.faculties),
    {
        encode_faculties(&self.faculties)
    }

    /// Builds a store from the three files' contents; an absent file
    /// stands for an empty collection. Returns nothing exactly when a
    /// present file does not parse or holds a repeated id.
    pub fn load(
        students_text: Option<&str>,
        teachers_text: Option<&str>,
        faculties_text: Option<&str>,
    ) -> (r: Option<DataManager>)
        ensures
            ({
                let s_ok = match students_text {
                    Some(t) => p_students_doc(t@) matches Some(vs) && unique_keys(
                        vs,
                        student_id(),
                    ),
                    None => true,
                };
                let t_ok = match teachers_text {
                    Some(t) => p_teachers_doc(t@) matches Some(vs) && unique_keys(
                        vs,
                        teacher_id(),
                    ),
                    None => true,
                };
                let f_ok = match faculties_text {
                    Some(t) => p_faculties_doc(t@) matches Some(vs) && unique_keys(
                        vs,
                        faculty_id(),
                    ),
                    None => true,
                };
                match r {
                    Some(dm) => s_ok && t_ok && f_ok && dm.wf() && (match students_text {
                        Some(t) => p_students_doc(t@) == Some(dm@.students),
                        None => dm@.students == Seq::<StudentView>::empty(),
                    }) && (match teachers_text {
                        Some(t) => p_teachers_doc(t@) == Some(dm@.teachers),
                        None => dm@.teachers == Seq::<TeacherView>::empty(),
                    }) && (match faculties_text {
                        Some(t) => p_faculties_doc(t@) == Some(dm@.faculties),
                        None => dm@.faculties == Seq::<FacultyView>::empty(),
                    }),
                    None => !(s_ok && t_ok && f_ok),
                }
            }),
    {
        let students: Vec<Student> = match students_text {
            Some(t) => match parse_students(t) {
                Some(v) => v,
                None => {
                    return None;
                },
            },
            None => Vec::new(),
        };
        if !students_ids_unique(&students) {
            return None;
        }
        let teachers: Vec<Teacher> = match teachers_text {
            Some(t) => match parse_teachers(t) {
                Some(v) => v,
                None => {
                    return None;
                },
            },
            None => Vec::new(),
        };
        if !teachers_ids_unique(&teachers) {
            return None;
        }
        let faculties: Vec<Faculty> = match faculties_text {
            Some(t) => match parse_faculties(t) {
                Some(v) => v,
                None => {
                    return None;
                },
            },
            None => Vec::new(),
        };
        if !faculties_ids_unique(&faculties) {
            return None;
        }
        proof {
            assert(views(Seq::<Student>::empty()) =~= Seq::<StudentView>::empty());
            assert(views(Seq::<Teacher>::empty()) =~= Seq::<TeacherView>::empty());
            assert(views(Seq::<Faculty>::empty()) =~= Seq::<FacultyView>::empty());
        }
        Some(DataManager { students, teachers, faculties })
    }
}

} // verus!
