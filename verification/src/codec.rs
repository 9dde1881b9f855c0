//! The persisted form of the three collections: each one is a JSON
//! array of flat objects with fixed keys, written compactly and read
//! back with whitespace tolerated between tokens. Text is escaped with
//! backslashes, numbers are plain decimals, grade points are written
//! with exactly two decimals. Encoding and parsing are both defined
//! here as functions on character sequences, and parsing an encoded
//! collection provably returns it unchanged.

use vstd::prelude::*;

use crate::models::{Faculty, FacultyView, Student, StudentView, Teacher, TeacherView};
use crate::text::{
    dec_str, digit_val, digits_val, frac_hundredths, gpa_str, is_digit_char, lemma_dec_str_digits,
    lemma_digits_val_push, lemma_digits_val_take_grows,
};

verus! {

/// The characters taken as blank between tokens.
pub open spec fn is_ws(c: char) -> bool {
    c == ' ' || c == '\n' || c == '\r' || c == '\t'
}

/// How one character of stored text is written: a quote or backslash
/// gets a backslash before it, everything else stands as it is.
pub open spec fn esc_char(c: char) -> Seq<char> {
    if c == '"' || c == '\\' {
        seq!['\\', c]
    } else {
        seq![c]
    }
}

/// A stored text, escaped character for character.
pub open spec fn esc_str(s: Seq<char>) -> Seq<char>
    decreases s.len(),
{
    if s.len() == 0 {
        Seq::empty()
    } else {
        esc_char(s[0]) + esc_str(s.drop_first())
    }
}

/// A quoted, escaped text.
pub open spec fn enc_str(s: Seq<char>) -> Seq<char> {
    seq!['"'] + esc_str(s) + seq!['"']
}

/// A quoted key followed by its colon.
pub open spec fn enc_key(k: Seq<char>) -> Seq<char> {
    seq!['"'] + k + seq!['"', ':']
}

pub open spec fn key_id() -> Seq<char> {
    seq!['i', 'd']
}

pub open spec fn key_first_name() -> Seq<char> {
    seq!['f', 'i', 'r', 's', 't', '_', 'n', 'a', 'm', 'e']
}

pub open spec fn key_last_name() -> Seq<char> {
    seq!['l', 'a', 's', 't', '_', 'n', 'a', 'm', 'e']
}

pub open spec fn key_age() -> Seq<char> {
    seq!['a', 'g', 'e']
}

pub open spec fn key_major() -> Seq<char> {
    seq!['m', 'a', 'j', 'o', 'r']
}

pub open spec fn key_gpa() -> Seq<char> {
    seq!['g', 'p', 'a']
}

pub open spec fn key_department() -> Seq<char> {
    seq!['d', 'e', 'p', 'a', 'r', 't', 'm', 'e', 'n', 't']
}

pub open spec fn key_title() -> Seq<char> {
    seq!['t', 'i', 't', 'l', 'e']
}

pub open spec fn key_name() -> Seq<char> {
    seq!['n', 'a', 'm', 'e']
}

pub open spec fn key_building() -> Seq<char> {
    seq!['b', 'u', 'i', 'l', 'd', 'i', 'n', 'g']
}

pub open spec fn key_head_name() -> Seq<char> {
    seq!['h', 'e', 'a', 'd', '_', 'n', 'a', 'm', 'e']
}

pub open spec fn key_established_year() -> Seq<char> {
    seq!['e', 's', 't', 'a', 'b', 'l', 'i', 's', 'h', 'e', 'd', '_', 'y', 'e', 'a', 'r']
}

pub open spec fn key_num_staff() -> Seq<char> {
    seq!['n', 'u', 'm', '_', 's', 't', 'a', 'f', 'f']
}

/// One student as an object, keys in declaration order.
pub open spec fn enc_student(v: StudentView) -> Seq<char> {
    seq!['{'] + enc_key(key_id()) + enc_str(v.id) + seq![','] + enc_key(key_first_name())
        + enc_str(v.first_name) + seq![','] + enc_key(key_last_name()) + enc_str(v.last_name)
        + seq![','] + enc_key(key_age()) + dec_str(v.age as nat) + seq![','] + enc_key(
        key_major(),
    ) + enc_str(v.major) + seq![','] + enc_key(key_gpa()) + gpa_str(v.gpa_hundredths) + seq!['}']
}

/// One teacher as an object, keys in declaration order.
pub open spec fn enc_teacher(v: TeacherView) -> Seq<char> {
    seq!['{'] + enc_key(key_id()) + enc_str(v.id) + seq![','] + enc_key(key_first_name())
        + enc_str(v.first_name) + seq![','] + enc_key(key_last_name()) + enc_str(v.last_name)
        + seq![','] + enc_key(key_age()) + dec_str(v.age as nat) + seq![','] + enc_key(
        key_department(),
    ) + enc_str(v.department) + seq![','] + enc_key(key_title()) + enc_str(v.title) + seq!['}']
}

/// One faculty as an object, keys in declaration order.
pub open spec fn enc_faculty(v: FacultyView) -> Seq<char> {
    seq!['{'] + enc_key(key_id()) + enc_str(v.id) + seq![','] + enc_key(key_name())
        + enc_str(v.name) + seq![','] + enc_key(key_building()) + enc_str(v.building) + seq![',']
        + enc_key(key_head_name()) + enc_str(v.head_name) + seq![','] + enc_key(
        key_established_year(),
    ) + dec_str(v.established_year as nat) + seq![','] + enc_key(key_num_staff()) + dec_str(
        v.num_staff as nat,
    ) + seq!['}']
}

/// The tail of an encoded array after its first element: a comma and an
/// element for each further record, then the closing bracket.
pub open spec fn enc_students_rest(vs: Seq<StudentView>) -> Seq<char>
    decreases vs.len(),
{
    if vs.len() == 0 {
        seq![']']
    } else {
        seq![','] + enc_student(vs[0]) + enc_students_rest(vs.drop_first())
    }
}

/// A whole student collection as an array.
pub open spec fn enc_students(vs: Seq<StudentView>) -> Seq<char> {
    if vs.len() == 0 {
        seq!['[', ']']
    } else {
        seq!['['] + enc_student(vs[0]) + enc_students_rest(vs.drop_first())
    }
}

pub open spec fn enc_teachers_rest(vs: Seq<TeacherView>) -> Seq<char>
    decreases vs.len(),
{
    if vs.len() == 0 {
        seq![']']
    } else {
        seq![','] + enc_teacher(vs[0]) + enc_teachers_rest(vs.drop_first())
    }
}

/// A whole teacher collection as an array.
pub open spec fn enc_teachers(vs: Seq<TeacherView>) -> Seq<char> {
    if vs.len() == 0 {
        seq!['[', ']']
    } else {
        seq!['['] + enc_teacher(vs[0]) + enc_teachers_rest(vs.drop_first())
    }
}

pub open spec fn enc_faculties_rest(vs: Seq<FacultyView>) -> Seq<char>
    decreases vs.len(),
{
    if vs.len() == 0 {
        seq![']']
    } else {
        seq![','] + enc_faculty(vs[0]) + enc_faculties_rest(vs.drop_first())
    }
}

/// A whole faculty collection as an array.
pub open spec fn enc_faculties(vs: Seq<FacultyView>) -> Seq<char> {
    if vs.len() == 0 {
        seq!['[', ']']
    } else {
        seq!['['] + enc_faculty(vs[0]) + enc_faculties_rest(vs.drop_first())
    }
}

/// Escaping distributes over concatenation.
proof fn lemma_esc_str_append(a: Seq<char>, b: Seq<char>)
    ensures
        esc_str(a + b) == esc_str(a) + esc_str(b),
    decreases a.len(),
{
    if a.len() == 0 {
        assert(a + b =~= b);
        assert(esc_str(a) + esc_str(b) =~= esc_str(b));
    } else {
        assert((a + b).drop_first() =~= a.drop_first() + b);
        lemma_esc_str_append(a.drop_first(), b);
        assert(esc_char((a + b)[0]) + (esc_str(a.drop_first()) + esc_str(b)) =~= (esc_char(a[0])
            + esc_str(a.drop_first())) + esc_str(b));
    }
}

/// Appends the characters of `s` unchanged.
fn emit_raw(out: &mut Vec<char>, s: &str)
    ensures
        final(out)@ == old(out)@ + s@,
{
    let n = s.unicode_len();
    let mut i: usize = 0;
    while i < n
        invariant
            n == s@.len(),
            i <= n,
            out@ =~= old(out)@ + s@.take(i as int),
        decreases n - i,
    {
        out.push(s.get_char(i));
        assert(old(out)@ + s@.take(i as int).push(s@[i as int]) =~= old(out)@ + s@.take(i + 1));
        i = i + 1;
    }
    assert(old(out)@ + s@.take(n as int) =~= old(out)@ + s@);
}

/// Appends the characters of `v` unchanged.
fn emit_chars(out: &mut Vec<char>, v: &Vec<char>)
    ensures
        final(out)@ == old(out)@ + v@,
{
    let n = v.len();
    let mut i: usize = 0;
    while i < n
        invariant
            n == v@.len(),
            i <= n,
            out@ =~= old(out)@ + v@.take(i as int),
        decreases n - i,
    {
        out.push(v[i]);
        assert(old(out)@ + v@.take(i as int).push(v@[i as int]) =~= old(out)@ + v@.take(i + 1));
        i = i + 1;
    }
    assert(old(out)@ + v@.take(n as int) =~= old(out)@ + v@);
}

/// Appends `s` quoted and escaped.
fn emit_str(out: &mut Vec<char>, s: &str)
    ensures
        final(out)@ == old(out)@ + enc_str(s@),
{
    out.push('"');
    let ghost start = out@;
    let n = s.unicode_len();
    let mut i: usize = 0;
    while i < n
        invariant
            n == s@.len(),
            i <= n,
            out@ =~= start + esc_str(s@.take(i as int)),
            start == old(out)@.push('"'),
        decreases n - i,
    {
        let c = s.get_char(i);
        let cv = c as u32;
        if cv == 34 || cv == 92 {
            out.push('\\');
        }
        out.push(c);
        proof {
            lemma_esc_str_append(s@.take(i as int), seq![s@[i as int]]);
            assert(s@.take(i as int) + seq![s@[i as int]] =~= s@.take(i + 1));
            assert(seq![s@[i as int]].drop_first() =~= Seq::<char>::empty());
            assert(esc_str(seq![s@[i as int]]) =~= esc_char(s@[i as int]) + esc_str(
                Seq::<char>::empty(),
            ));
            assert(esc_char(s@[i as int]) + esc_str(Seq::<char>::empty()) =~= esc_char(
                s@[i as int],
            ));
            if cv == 34 || cv == 92 {
                assert(out@ =~= start + esc_str(s@.take(i as int)) + seq!['\\', s@[i as int]]);
                assert(start + esc_str(s@.take(i as int)) + seq!['\\', s@[i as int]] =~= start
                    + esc_str(s@.take(i + 1)));
            } else {
                assert(out@ =~= start + esc_str(s@.take(i as int)) + seq![s@[i as int]]);
                assert(start + esc_str(s@.take(i as int)) + seq![s@[i as int]] =~= start + esc_str(
                    s@.take(i + 1),
                ));
            }
        }
        i = i + 1;
    }
    out.push('"');
    proof {
        assert(s@.take(n as int) =~= s@);
        assert(out@ =~= old(out)@ + enc_str(s@));
    }
}

/// Appends a quoted key and its colon.
fn emit_key(out: &mut Vec<char>, k: &str)
    ensures
        final(out)@ == old(out)@ + enc_key(k@),
{
    out.push('"');
    emit_raw(out, k);
    out.push('"');
    out.push(':');
    assert(out@ =~= old(out)@ + enc_key(k@));
}

/// Appends a number in decimal.
fn emit_u32(out: &mut Vec<char>, n: u32)
    ensures
        final(out)@ == old(out)@ + dec_str(n as nat),
{
    let v = crate::text::u32_to_chars(n);
    emit_chars(out, &v);
}

/// Appends a grade point held in hundredths, with two decimals.
fn emit_gpa(out: &mut Vec<char>, h: u32)
    ensures
        final(out)@ == old(out)@ + gpa_str(h),
{
    let v = crate::text::u32_to_chars(h / 100);
    emit_chars(out, &v);
    out.push('.');
    out.push(crate::text::digit_to_char(h % 100 / 10));
    out.push(crate::text::digit_to_char(h % 10));
    assert(out@ =~= old(out)@ + gpa_str(h));
}

/// Appends one student object.
#[verifier::rlimit(80)]
fn emit_student(out: &mut Vec<char>, s: &Student)
    ensures
        final(out)@ == old(out)@ + enc_student(s@),
{
    proof {
        reveal_strlit("id");
        reveal_strlit("first_name");
        reveal_strlit("last_name");
        reveal_strlit("age");
        reveal_strlit("major");
        reveal_strlit("gpa");
        assert("id"@ =~= key_id());
        assert("first_name"@ =~= key_first_name());
        assert("last_name"@ =~= key_last_name());
        assert("age"@ =~= key_age());
        assert("major"@ =~= key_major());
        assert("gpa"@ =~= key_gpa());
    }
    out.push('{');
    emit_key(out, "id");
    emit_str(out, s.id.as_str());
    out.push(',');
    emit_key(out, "first_name");
    emit_str(out, s.first_name.as_str());
    out.push(',');
    emit_key(out, "last_name");
    emit_str(out, s.last_name.as_str());
    out.push(',');
    emit_key(out, "age");
    emit_u32(out, s.age);
    out.push(',');
    emit_key(out, "major");
    emit_str(out, s.major.as_str());
    out.push(',');
    emit_key(out, "gpa");
    emit_gpa(out, s.gpa_hundredths);
    out.push('}');
    proof {
        assert(out@ =~= old(out)@ + enc_student(s@));
    }
}

/// Appends one teacher object.
#[verifier::rlimit(80)]
fn emit_teacher(out: &mut Vec<char>, t: &Teacher)
    ensures
        final(out)@ == old(out)@ + enc_teacher(t@),
{
    proof {
        reveal_strlit("id");
        reveal_strlit("first_name");
        reveal_strlit("last_name");
        reveal_strlit("age");
        reveal_strlit("department");
        reveal_strlit("title");
        assert("id"@ =~= key_id());
        assert("first_name"@ =~= key_first_name());
        assert("last_name"@ =~= key_last_name());
        assert("age"@ =~= key_age());
        assert("department"@ =~= key_department());
        assert("title"@ =~= key_title());
    }
    out.push('{');
    emit_key(out, "id");
    emit_str(out, t.id.as_str());
    out.push(',');
    emit_key(out, "first_name");
    emit_str(out, t.first_name.as_str());
    out.push(',');
    emit_key(out, "last_name");
    emit_str(out, t.last_name.as_str());
    out.push(',');
    emit_key(out, "age");
    emit_u32(out, t.age);
    out.push(',');
    emit_key(out, "department");
    emit_str(out, t.department.as_str());
    out.push(',');
    emit_key(out, "title");
    emit_str(out, t.title.as_str());
    out.push('}');
    proof {
        assert(out@ =~= old(out)@ + enc_teacher(t@));
    }
}

/// Appends one faculty object.
#[verifier::rlimit(80)]
fn emit_faculty(out: &mut Vec<char>, f: &Faculty)
    ensures
        final(out)@ == old(out)@ + enc_faculty(f@),
{
    proof {
        reveal_strlit("id");
        reveal_strlit("name");
        reveal_strlit("building");
        reveal_strlit("head_name");
        reveal_strlit("established_year");
        reveal_strlit("num_staff");
        assert("id"@ =~= key_id());
        assert("name"@ =~= key_name());
        assert("building"@ =~= key_building());
        assert("head_name"@ =~= key_head_name());
        assert("established_year"@ =~= key_established_year());
        assert("num_staff"@ =~= key_num_staff());
    }
    out.push('{');
    emit_key(out, "id");
    emit_str(out, f.id.as_str());
    out.push(',');
    emit_key(out, "name");
    emit_str(out, f.name.as_str());
    out.push(',');
    emit_key(out, "building");
    emit_str(out, f.building.as_str());
    out.push(',');
    emit_key(out, "head_name");
    emit_str(out, f.head_name.as_str());
    out.push(',');
    emit_key(out, "established_year");
    emit_u32(out, f.established_year);
    out.push(',');
    emit_key(out, "num_staff");
    emit_u32(out, f.num_staff);
    out.push('}');
    proof {
        assert(out@ =~= old(out)@ + enc_faculty(f@));
    }
}

/// The stored text of a whole student collection.
#[verifier::rlimit(80)]
pub fn encode_students(records: &Vec<Student>) -> (r: String)
    ensures
        r@ == enc_students(crate::models::views(records@)),
{
    let ghost vs = crate::models::views(records@);
    let mut out: Vec<char> = Vec::new();
    out.push('[');
    if records.len() == 0 {
        out.push(']');
        assert(out@ =~= enc_students(vs));
        return crate::text::string_from_chars(&out);
    }
    emit_student(&mut out, &records[0]);
    let mut i: usize = 1;
    proof {
        assert(vs.drop_first() =~= vs.skip(1));
        assert(out@ + enc_students_rest(vs.skip(1)) =~= enc_students(vs));
    }
    while i < records.len()
        invariant
            1 <= i <= records@.len(),
            vs == crate::models::views(records@),
            vs.len() == records@.len(),
            forall|j: int| 0 <= j < vs.len() ==> #[trigger] vs[j] == records@[j]@,
            out@ + enc_students_rest(vs.skip(i as int)) =~= enc_students(vs),
        decreases records@.len() - i,
    {
        out.push(',');
        emit_student(&mut out, &records[i]);
        proof {
            assert(vs.skip(i as int).drop_first() =~= vs.skip(i + 1));
            assert(vs.skip(i as int)[0] == vs[i as int]);
        }
        i = i + 1;
    }
    proof {
        assert(vs.skip(records@.len() as int) =~= Seq::<StudentView>::empty());
    }
    out.push(']');
    crate::text::string_from_chars(&out)
}

/// The stored text of a whole teacher collection.
#[verifier::rlimit(80)]
pub fn encode_teachers(records: &Vec<Teacher>) -> (r: String)
    ensures
        r@ == enc_teachers(crate::models::views(records@)),
{
    let ghost vs = crate::models::views(records@);
    let mut out: Vec<char> = Vec::new();
    out.push('[');
    if records.len() == 0 {
        out.push(']');
        assert(out@ =~= enc_teachers(vs));
        return crate::text::string_from_chars(&out);
    }
    emit_teacher(&mut out, &records[0]);
    let mut i: usize = 1;
    proof {
        assert(vs.drop_first() =~= vs.skip(1));
        assert(out@ + enc_teachers_rest(vs.skip(1)) =~= enc_teachers(vs));
    }
    while i < records.len()
        invariant
            1 <= i <= records@.len(),
            vs == crate::models::views(records@),
            vs.len() == records@.len(),
            forall|j: int| 0 <= j < vs.len() ==> #[trigger] vs[j] == records@[j]@,
            out@ + enc_teachers_rest(vs.skip(i as int)) =~= enc_teachers(vs),
        decreases records@.len() - i,
    {
        out.push(',');
        emit_teacher(&mut out, &records[i]);
        proof {
            assert(vs.skip(i as int).drop_first() =~= vs.skip(i + 1));
            assert(vs.skip(i as int)[0] == vs[i as int]);
        }
        i = i + 1;
    }
    proof {
        assert(vs.skip(records@.len() as int) =~= Seq::<TeacherView>::empty());
    }
    out.push(']');
    crate::text::string_from_chars(&out)
}

/// The stored text of a whole faculty collection.
#[verifier::rlimit(80)]
pub fn encode_faculties(records: &Vec<Faculty>) -> (r: String)
    ensures
        r@ == enc_faculties(crate::models::views(records@)),
{
    let ghost vs = crate::models::views(records@);
    let mut out: Vec<char> = Vec::new();
    out.push('[');
    if records.len() == 0 {
        out.push(']');
        assert(out@ =~= enc_faculties(vs));
        return crate::text::string_from_chars(&out);
    }
    emit_faculty(&mut out, &records[0]);
    let mut i: usize = 1;
    proof {
        assert(vs.drop_first() =~= vs.skip(1));
        assert(out@ + enc_faculties_rest(vs.skip(1)) =~= enc_faculties(vs));
    }
    while i < records.len()
        invariant
            1 <= i <= records@.len(),
            vs == crate::models::views(records@),
            vs.len() == records@.len(),
            forall|j: int| 0 <= j < vs.len() ==> #[trigger] vs[j] == records@[j]@,
            out@ + enc_faculties_rest(vs.skip(i as int)) =~= enc_faculties(vs),
        decreases records@.len() - i,
    {
        out.push(',');
        emit_faculty(&mut out, &records[i]);
        proof {
            assert(vs.skip(i as int).drop_first() =~= vs.skip(i + 1));
            assert(vs.skip(i as int)[0] == vs[i as int]);
        }
        i = i + 1;
    }
    proof {
        assert(vs.skip(records@.len() as int) =~= Seq::<FacultyView>::empty());
    }
    out.push(']');
    crate::text::string_from_chars(&out)
}


/// The given text without its leading blanks.
pub open spec fn skip_ws(s: Seq<char>) -> Seq<char>
    decreases s.len(),
{
    if s.len() > 0 && is_ws(s[0]) {
        skip_ws(s.drop_first())
    } else {
        s
    }
}

/// Consumes blanks and then one expected character.
pub open spec fn p_lit(s: Seq<char>, c: char) -> Option<Seq<char>> {
    let t = skip_ws(s);
    if t.len() > 0 && t[0] == c {
        Some(t.drop_first())
    } else {
        None
    }
}

/// What a backslash escape stands for.
pub open spec fn unesc(c: char) -> Option<char> {
    if c == '"' || c == '\\' || c == '/' {
        Some(c)
    } else if c == 'n' {
        Some('\n')
    } else if c == 't' {
        Some('\t')
    } else if c == 'r' {
        Some('\r')
    } else {
        None
    }
}

/// Consumes the inside of a quoted text up to its closing quote,
/// undoing escapes.
pub open spec fn p_str_body(s: Seq<char>) -> Option<(Seq<char>, Seq<char>)>
    decreases s.len(),
{
    if s.len() == 0 {
        None
    } else if s[0] == '"' {
        Some((Seq::empty(), s.drop_first()))
    } else if s[0] == '\\' {
        if s.len() >= 2 {
            match unesc(s[1]) {
                Some(c) => match p_str_body(s.drop_first().drop_first()) {
                    Some((v, rest)) => Some((seq![c] + v, rest)),
                    None => None,
                },
                None => None,
            }
        } else {
            None
        }
    } else {
        match p_str_body(s.drop_first()) {
            Some((v, rest)) => Some((seq![s[0]] + v, rest)),
            None => None,
        }
    }
}

/// Consumes blanks and a quoted text.
pub open spec fn p_str(s: Seq<char>) -> Option<(Seq<char>, Seq<char>)> {
    let t = skip_ws(s);
    if t.len() > 0 && t[0] == '"' {
        p_str_body(t.drop_first())
    } else {
        None
    }
}

/// How many digits the text starts with.
pub open spec fn digit_run(s: Seq<char>) -> int
    decreases s.len(),
{
    if s.len() > 0 && is_digit_char(s[0]) {
        1 + digit_run(s.drop_first())
    } else {
        0
    }
}

/// Consumes blanks and an unsigned decimal that fits in a `u32`.
pub open spec fn p_u32(s: Seq<char>) -> Option<(u32, Seq<char>)> {
    let t = skip_ws(s);
    let k = digit_run(t);
    if k == 0 {
        None
    } else if digits_val(t.take(k)) > u32::MAX {
        None
    } else {
        Some((digits_val(t.take(k)) as u32, t.skip(k)))
    }
}

/// Consumes blanks and a decimal grade point, read as hundredths
/// truncated past the second decimal.
pub open spec fn p_gpa(s: Seq<char>) -> Option<(u32, Seq<char>)> {
    let t = skip_ws(s);
    let k = digit_run(t);
    if k == 0 {
        None
    } else {
        let iv = digits_val(t.take(k));
        if iv > u32::MAX / 100 {
            None
        } else {
            let rest = t.skip(k);
            if rest.len() > 0 && rest[0] == '.' {
                let f = rest.drop_first();
                let k2 = digit_run(f);
                if k2 == 0 {
                    None
                } else {
                    let fh = frac_hundredths(f.take(k2));
                    if iv * 100 + fh > u32::MAX {
                        None
                    } else {
                        Some(((iv * 100 + fh) as u32, f.skip(k2)))
                    }
                }
            } else {
                Some(((iv * 100) as u32, rest))
            }
        }
    }
}

/// Consumes blanks, the given quoted key, blanks and the colon.
pub open spec fn p_key(s: Seq<char>, key: Seq<char>) -> Option<Seq<char>> {
    let t = skip_ws(s);
    if t.len() >= key.len() + 2 && t[0] == '"' && t.subrange(1, 1 + key.len() as int) == key && t[
        1 + key.len() as int] == '"' {
        p_lit(t.skip((key.len() + 2) as int), ':')
    } else {
        None
    }
}

/// Consumes one student object.
pub open spec fn p_student(s: Seq<char>) -> Option<(StudentView, Seq<char>)> {
    match p_lit(s, '{') {
        None => None,
        Some(s0) => match p_key(s0, key_id()) {
            None => None,
            Some(s1) => match p_str(s1) {
                None => None,
                Some((id, s2)) => match p_lit(s2, ',') {
                    None => None,
                    Some(s3) => match p_key(s3, key_first_name()) {
                        None => None,
                        Some(s4) => match p_str(s4) {
                            None => None,
                            Some((first_name, s5)) => match p_lit(s5, ',') {
                                None => None,
                                Some(s6) => match p_key(s6, key_last_name()) {
                                    None => None,
                                    Some(s7) => match p_str(s7) {
                                        None => None,
                                        Some((last_name, s8)) => match p_lit(s8, ',') {
                                            None => None,
                                            Some(s9) => match p_key(s9, key_age()) {
                                                None => None,
                                                Some(s10) => match p_u32(s10) {
                                                    None => None,
                                                    Some((age, s11)) => match p_lit(s11, ',') {
                                                        None => None,
                                                        Some(s12) => match p_key(s12, key_major()) {
                                                            None => None,
                                                            Some(s13) => match p_str(s13) {
                                                                None => None,
                                                                Some((major, s14)) => match p_lit(s14, ',') {
                                                                    None => None,
                                                                    Some(s15) => match p_key(s15, key_gpa()) {
                                                                        None => None,
                                                                        Some(s16) => match p_gpa(s16) {
                                                                            None => None,
                                                                            Some((gpa, s17)) => match p_lit(s17, '}') {
                                                                                None => None,
                                                                                Some(s18) => Some(
                                                                                    (
                                                                                        StudentView {
                                                                                            id,
                                                                                            first_name,
                                                                                            last_name,
                                                                                            age,
                                                                                            major,
                                                                                            gpa_hundredths: gpa,
                                                                                        },
                                                                                        s18,
                                                                                    ),
                                                                                ),
                                                                            },
                                                                        },
                                                                    },
                                                                },
                                                            },
                                                        },
                                                    },
                                                },
                                            },
                                        },
                                    },
                                },
                            },
                        },
                    },
                },
            },
        },
    }
}

/// Consumes one teacher object.
pub open spec fn p_teacher(s: Seq<char>) -> Option<(TeacherView, Seq<char>)> {
    match p_lit(s, '{') {
        None => None,
        Some(s0) => match p_key(s0, key_id()) {
            None => None,
            Some(s1) => match p_str(s1) {
                None => None,
                Some((id, s2)) => match p_lit(s2, ',') {
                    None => None,
                    Some(s3) => match p_key(s3, key_first_name()) {
                        None => None,
                        Some(s4) => match p_str(s4) {
                            None => None,
                            Some((first_name, s5)) => match p_lit(s5, ',') {
                                None => None,
                                Some(s6) => match p_key(s6, key_last_name()) {
                                    None => None,
                                    Some(s7) => match p_str(s7) {
                                        None => None,
                                        Some((last_name, s8)) => match p_lit(s8, ',') {
                                            None => None,
                                            Some(s9) => match p_key(s9, key_age()) {
                                                None => None,
                                                Some(s10) => match p_u32(s10) {
                                                    None => None,
                                                    Some((age, s11)) => match p_lit(s11, ',') {
                                                        None => None,
                                                        Some(s12) => match p_key(s12, key_department()) {
                                                            None => None,
                                                            Some(s13) => match p_str(s13) {
                                                                None => None,
                                                                Some((department, s14)) => match p_lit(s14, ',') {
                                                                    None => None,
                                                                    Some(s15) => match p_key(s15, key_title()) {
                                                                        None => None,
                                                                        Some(s16) => match p_str(s16) {
                                                                            None => None,
                                                                            Some((title, s17)) => match p_lit(s17, '}') {
                                                                                None => None,
                                                                                Some(s18) => Some(
                                                                                    (
                                                                                        TeacherView {
                                                                                            id,
                                                                                            first_name,
                                                                                            last_name,
                                                                                            age,
                                                                                            department,
                                                                                            title,
                                                                                        },
                                                                                        s18,
                                                                                    ),
                                                                                ),
                                                                            },
                                                                        },
                                                                    },
                                                                },
                                                            },
                                                        },
                                                    },
                                                },
                                            },
                                        },
                                    },
                                },
                            },
                        },
                    },
                },
            },
        },
    }
}

/// Consumes one faculty object.
pub open spec fn p_faculty(s: Seq<char>) -> Option<(FacultyView, Seq<char>)> {
    match p_lit(s, '{') {
        None => None,
        Some(s0) => match p_key(s0, key_id()) {
            None => None,
            Some(s1) => match p_str(s1) {
                None => None,
                Some((id, s2)) => match p_lit(s2, ',') {
                    None => None,
                    Some(s3) => match p_key(s3, key_name()) {
                        None => None,
                        Some(s4) => match p_str(s4) {
                            None => None,
                            Some((name, s5)) => match p_lit(s5, ',') {
                                None => None,
                                Some(s6) => match p_key(s6, key_building()) {
                                    None => None,
                                    Some(s7) => match p_str(s7) {
                                        None => None,
                                        Some((building, s8)) => match p_lit(s8, ',') {
                                            None => None,
                                            Some(s9) => match p_key(s9, key_head_name()) {
                                                None => None,
                                                Some(s10) => match p_str(s10) {
                                                    None => None,
                                                    Some((head_name, s11)) => match p_lit(s11, ',') {
                                                        None => None,
                                                        Some(s12) => match p_key(s12, key_established_year()) {
                                                            None => None,
                                                            Some(s13) => match p_u32(s13) {
                                                                None => None,
                                                                Some((established_year, s14)) => match p_lit(s14, ',') {
                                                                    None => None,
                                                                    Some(s15) => match p_key(s15, key_num_staff()) {
                                                                        None => None,
                                                                        Some(s16) => match p_u32(s16) {
                                                                            None => None,
                                                                            Some((num_staff, s17)) => match p_lit(s17, '}') {
                                                                                None => None,
                                                                                Some(s18) => Some(
                                                                                    (
                                                                                        FacultyView {
                                                                                            id,
                                                                                            name,
                                                                                            building,
                                                                                            head_name,
                                                                                            established_year,
                                                                                            num_staff,
                                                                                        },
                                                                                        s18,
                                                                                    ),
                                                                                ),
                                                                            },
                                                                        },
                                                                    },
                                                                },
                                                            },
                                                        },
                                                    },
                                                },
                                            },
                                        },
                                    },
                                },
                            },
                        },
                    },
                },
            },
        },
    }
}

/// Consumes the elements after the first one, and the closing bracket.
pub open spec fn p_students_rest(s: Seq<char>) -> Option<(Seq<StudentView>, Seq<char>)>
    decreases s.len(),
{
    let t = skip_ws(s);
    if t.len() == 0 {
        None
    } else if t[0] == ']' {
        Some((Seq::empty(), t.drop_first()))
    } else if t[0] == ',' {
        match p_student(t.drop_first()) {
            Some((v, rest)) => if rest.len() < s.len() {
                match p_students_rest(rest) {
                    Some((vs, rest2)) => Some((seq![v] + vs, rest2)),
                    None => None,
                }
            } else {
                None
            },
            None => None,
        }
    } else {
        None
    }
}

pub open spec fn p_teachers_rest(s: Seq<char>) -> Option<(Seq<TeacherView>, Seq<char>)>
    decreases s.len(),
{
    let t = skip_ws(s);
    if t.len() == 0 {
        None
    } else if t[0] == ']' {
        Some((Seq::empty(), t.drop_first()))
    } else if t[0] == ',' {
        match p_teacher(t.drop_first()) {
            Some((v, rest)) => if rest.len() < s.len() {
                match p_teachers_rest(rest) {
                    Some((vs, rest2)) => Some((seq![v] + vs, rest2)),
                    None => None,
                }
            } else {
                None
            },
            None => None,
        }
    } else {
        None
    }
}

pub open spec fn p_faculties_rest(s: Seq<char>) -> Option<(Seq<FacultyView>, Seq<char>)>
    decreases s.len(),
{
    let t = skip_ws(s);
    if t.len() == 0 {
        None
    } else if t[0] == ']' {
        Some((Seq::empty(), t.drop_first()))
    } else if t[0] == ',' {
        match p_faculty(t.drop_first()) {
            Some((v, rest)) => if rest.len() < s.len() {
                match p_faculties_rest(rest) {
                    Some((vs, rest2)) => Some((seq![v] + vs, rest2)),
                    None => None,
                }
            } else {
                None
            },
            None => None,
        }
    } else {
        None
    }
}

/// What a whole stored student file denotes: the array, with nothing
/// but blanks after it.
pub open spec fn p_students_doc(s: Seq<char>) -> Option<Seq<StudentView>> {
    match p_lit(s, '[') {
        None => None,
        Some(s1) => {
            let t = skip_ws(s1);
            if t.len() > 0 && t[0] == ']' {
                if skip_ws(t.drop_first()).len() == 0 {
                    Some(Seq::empty())
                } else {
                    None
                }
            } else {
                match p_student(s1) {
                    Some((v, rest)) => match p_students_rest(rest) {
                        Some((vs, rest2)) => if skip_ws(rest2).len() == 0 {
                            Some(seq![v] + vs)
                        } else {
                            None
                        },
                        None => None,
                    },
                    None => None,
                }
            }
        },
    }
}

/// What a whole stored teacher file denotes.
pub open spec fn p_teachers_doc(s: Seq<char>) -> Option<Seq<TeacherView>> {
    match p_lit(s, '[') {
        None => None,
        Some(s1) => {
            let t = skip_ws(s1);
            if t.len() > 0 && t[0] == ']' {
                if skip_ws(t.drop_first()).len() == 0 {
                    Some(Seq::empty())
                } else {
                    None
                }
            } else {
                match p_teacher(s1) {
                    Some((v, rest)) => match p_teachers_rest(rest) {
                        Some((vs, rest2)) => if skip_ws(rest2).len() == 0 {
                            Some(seq![v] + vs)
                        } else {
                            None
                        },
                        None => None,
                    },
                    None => None,
                }
            }
        },
    }
}

/// What a whole stored faculty file denotes.
pub open spec fn p_faculties_doc(s: Seq<char>) -> Option<Seq<FacultyView>> {
    match p_lit(s, '[') {
        None => None,
        Some(s1) => {
            let t = skip_ws(s1);
            if t.len() > 0 && t[0] == ']' {
                if skip_ws(t.drop_first()).len() == 0 {
                    Some(Seq::empty())
                } else {
                    None
                }
            } else {
                match p_faculty(s1) {
                    Some((v, rest)) => match p_faculties_rest(rest) {
                        Some((vs, rest2)) => if skip_ws(rest2).len() == 0 {
                            Some(seq![v] + vs)
                        } else {
                            None
                        },
                        None => None,
                    },
                    None => None,
                }
            }
        },
    }
}


proof fn lemma_skip_ws_noop(s: Seq<char>)
    requires
        s.len() == 0 || !is_ws(s[0]),
    ensures
        skip_ws(s) == s,
{
}

proof fn lemma_p_lit_enc(c: char, rest: Seq<char>)
    requires
        !is_ws(c),
    ensures
        p_lit(seq![c] + rest, c) == Some(rest),
{
    let s = seq![c] + rest;
    assert(s[0] == c);
    lemma_skip_ws_noop(s);
    assert(s.drop_first() =~= rest);
}

proof fn lemma_p_str_body_enc(v: Seq<char>, rest: Seq<char>)
    ensures
        p_str_body(esc_str(v) + seq!['"'] + rest) == Some((v, rest)),
    decreases v.len(),
{
    if v.len() == 0 {
        let s = esc_str(v) + seq!['"'] + rest;
        assert(s =~= seq!['"'] + rest);
        assert(s[0] == '"');
        assert(s.drop_first() =~= rest);
        assert(p_str_body(s) == Some((Seq::<char>::empty(), rest)));
    } else {
        let c = v[0];
        let s = esc_str(v) + seq!['"'] + rest;
        let inner = esc_str(v.drop_first()) + seq!['"'] + rest;
        lemma_p_str_body_enc(v.drop_first(), rest);
        if c == '"' || c == '\\' {
            assert(s =~= seq!['\\', c] + inner);
            assert(s[0] == '\\');
            assert(s.len() >= 2);
            assert(s[1] == c);
            assert(unesc(c) == Some(c));
            assert(s.drop_first().drop_first() =~= inner);
            assert(seq![c] + v.drop_first() =~= v);
        } else {
            assert(s =~= seq![c] + inner);
            assert(s[0] == c);
            assert(s[0] != '"' && s[0] != '\\');
            assert(s.drop_first() =~= inner);
            assert(seq![c] + v.drop_first() =~= v);
        }
    }
}

proof fn lemma_p_str_enc(v: Seq<char>, rest: Seq<char>)
    ensures
        p_str(enc_str(v) + rest) == Some((v, rest)),
{
    let s = enc_str(v) + rest;
    assert(s[0] == '"');
    lemma_skip_ws_noop(s);
    assert(s.drop_first() =~= esc_str(v) + seq!['"'] + rest);
    lemma_p_str_body_enc(v, rest);
}

proof fn lemma_digit_run_all(x: Seq<char>, rest: Seq<char>)
    requires
        forall|i: int| 0 <= i < x.len() ==> is_digit_char(#[trigger] x[i]),
        rest.len() == 0 || !is_digit_char(rest[0]),
    ensures
        digit_run(x + rest) == x.len(),
    decreases x.len(),
{
    if x.len() == 0 {
        assert(x + rest =~= rest);
    } else {
        assert((x + rest)[0] == x[0]);
        assert((x + rest).drop_first() =~= x.drop_first() + rest);
        assert(forall|i: int|
            0 <= i < x.drop_first().len() ==> is_digit_char(#[trigger] x.drop_first()[i]));
        lemma_digit_run_all(x.drop_first(), rest);
    }
}

proof fn lemma_p_u32_enc(n: u32, rest: Seq<char>)
    requires
        rest.len() == 0 || !is_digit_char(rest[0]),
    ensures
        p_u32(dec_str(n as nat) + rest) == Some((n, rest)),
{
    let x = dec_str(n as nat);
    lemma_dec_str_digits(n as nat);
    let s = x + rest;
    assert(s[0] == x[0]);
    assert(!is_ws(s[0]));
    lemma_skip_ws_noop(s);
    lemma_digit_run_all(x, rest);
    assert(s.take(x.len() as int) =~= x);
    assert(s.skip(x.len() as int) =~= rest);
}

proof fn lemma_p_gpa_enc(h: u32, rest: Seq<char>)
    requires
        rest.len() == 0 || !is_digit_char(rest[0]),
    ensures
        p_gpa(gpa_str(h) + rest) == Some((h, rest)),
{
    let ip = dec_str((h / 100) as nat);
    lemma_dec_str_digits((h / 100) as nat);
    let fr = seq![
        crate::text::digit_char((h % 100 / 10) as nat),
        crate::text::digit_char((h % 10) as nat),
    ];
    let tail = seq!['.'] + fr + rest;
    let s = gpa_str(h) + rest;
    assert(s =~= ip + tail);
    assert(s[0] == ip[0]);
    assert(!is_ws(s[0]));
    lemma_skip_ws_noop(s);
    assert(tail.len() == 0 || !is_digit_char(tail[0]));
    lemma_digit_run_all(ip, tail);
    assert(s.take(ip.len() as int) =~= ip);
    assert(digits_val(s.take(ip.len() as int)) == h / 100);
    assert(h / 100 <= u32::MAX / 100);
    let rest1 = s.skip(ip.len() as int);
    assert(rest1 =~= tail);
    assert(rest1[0] == '.');
    let f = rest1.drop_first();
    assert(f =~= fr + rest);
    assert(is_digit_char(fr[0]) && is_digit_char(fr[1])) by {
        assert(h % 100 / 10 < 10);
        assert(h % 10 < 10);
    }
    assert(forall|i: int| 0 <= i < fr.len() ==> is_digit_char(#[trigger] fr[i]));
    lemma_digit_run_all(fr, rest);
    assert(digit_run(f) == 2);
    assert(f.take(2) =~= fr);
    assert(frac_hundredths(fr) == (h % 100 / 10) * 10 + h % 10) by {
        assert(digit_val(fr[0]) == h % 100 / 10);
        assert(digit_val(fr[1]) == h % 10);
    }
    assert((h as int) % 100 % 10 == (h as int) % 10) by (nonlinear_arith);
    assert((h as int) % 100 / 10 * 10 + (h as int) % 100 % 10 == (h as int) % 100);
    assert((h / 100) * 100 + frac_hundredths(fr) == h);
    assert(f.skip(2) =~= rest);
}

proof fn lemma_p_key_enc(k: Seq<char>, rest: Seq<char>)
    ensures
        p_key(enc_key(k) + rest, k) == Some(rest),
{
    let s = enc_key(k) + rest;
    assert(s[0] == '"');
    lemma_skip_ws_noop(s);
    assert(s.len() == k.len() + 3 + rest.len());
    assert(s.subrange(1, 1 + k.len() as int) =~= k);
    assert(s[1 + k.len() as int] == '"');
    let tail = s.skip((k.len() + 2) as int);
    assert(tail =~= seq![':'] + rest);
    lemma_p_lit_enc(':', rest);
}

#[verifier::rlimit(100)]
#[verifier::spinoff_prover]
proof fn lemma_p_student_enc(v: StudentView, rest: Seq<char>)
    ensures
        p_student(enc_student(v) + rest) == Some((v, rest)),
{
    let a19 = rest;
    let a18 = seq!['}'] + a19;
    let a17 = gpa_str(v.gpa_hundredths) + a18;
    let a16 = enc_key(key_gpa()) + a17;
    let a15 = seq![','] + a16;
    let a14 = enc_str(v.major) + a15;
    let a13 = enc_key(key_major()) + a14;
    let a12 = seq![','] + a13;
    let a11 = dec_str(v.age as nat) + a12;
    let a10 = enc_key(key_age()) + a11;
    let a9 = seq![','] + a10;
    let a8 = enc_str(v.last_name) + a9;
    let a7 = enc_key(key_last_name()) + a8;
    let a6 = seq![','] + a7;
    let a5 = enc_str(v.first_name) + a6;
    let a4 = enc_key(key_first_name()) + a5;
    let a3 = seq![','] + a4;
    let a2 = enc_str(v.id) + a3;
    let a1 = enc_key(key_id()) + a2;
    let a0 = seq!['{'] + a1;
    let s = a0;
    assert(s =~= enc_student(v) + rest);
    lemma_p_lit_enc('{', a1);
    lemma_p_key_enc(key_id(), a2);
    assert(a1 == enc_key(key_id()) + a2);
    lemma_p_str_enc(v.id, a3);
    lemma_p_lit_enc(',', a4);
    lemma_p_key_enc(key_first_name(), a5);
    assert(a4 == enc_key(key_first_name()) + a5);
    lemma_p_str_enc(v.first_name, a6);
    lemma_p_lit_enc(',', a7);
    lemma_p_key_enc(key_last_name(), a8);
    assert(a7 == enc_key(key_last_name()) + a8);
    lemma_p_str_enc(v.last_name, a9);
    lemma_p_lit_enc(',', a10);
    lemma_p_key_enc(key_age(), a11);
    assert(a10 == enc_key(key_age()) + a11);
    assert(a12.len() > 0 && !is_digit_char(a12[0]));
    lemma_p_u32_enc(v.age, a12);
    lemma_p_lit_enc(',', a13);
    lemma_p_key_enc(key_major(), a14);
    assert(a13 == enc_key(key_major()) + a14);
    lemma_p_str_enc(v.major, a15);
    lemma_p_lit_enc(',', a16);
    lemma_p_key_enc(key_gpa(), a17);
    assert(a16 == enc_key(key_gpa()) + a17);
    assert(a18.len() > 0 && !is_digit_char(a18[0]));
    lemma_p_gpa_enc(v.gpa_hundredths, a18);
    lemma_p_lit_enc('}', a19);
    assert(p_student(s) == Some((v, rest)));
}

#[verifier::rlimit(100)]
#[verifier::spinoff_prover]
proof fn lemma_p_teacher_enc(v: TeacherView, rest: Seq<char>)
    ensures
        p_teacher(enc_teacher(v) + rest) == Some((v, rest)),
{
    let a19 = rest;
    let a18 = seq!['}'] + a19;
    let a17 = enc_str(v.title) + a18;
    let a16 = enc_key(key_title()) + a17;
    let a15 = seq![','] + a16;
    let a14 = enc_str(v.department) + a15;
    let a13 = enc_key(key_department()) + a14;
    let a12 = seq![','] + a13;
    let a11 = dec_str(v.age as nat) + a12;
    let a10 = enc_key(key_age()) + a11;
    let a9 = seq![','] + a10;
    let a8 = enc_str(v.last_name) + a9;
    let a7 = enc_key(key_last_name()) + a8;
    let a6 = seq![','] + a7;
    let a5 = enc_str(v.first_name) + a6;
    let a4 = enc_key(key_first_name()) + a5;
    let a3 = seq![','] + a4;
    let a2 = enc_str(v.id) + a3;
    let a1 = enc_key(key_id()) + a2;
    let a0 = seq!['{'] + a1;
    let s = a0;
    assert(s =~= enc_teacher(v) + rest);
    lemma_p_lit_enc('{', a1);
    lemma_p_key_enc(key_id(), a2);
    assert(a1 == enc_key(key_id()) + a2);
    lemma_p_str_enc(v.id, a3);
    lemma_p_lit_enc(',', a4);
    lemma_p_key_enc(key_first_name(), a5);
    assert(a4 == enc_key(key_first_name()) + a5);
    lemma_p_str_enc(v.first_name, a6);
    lemma_p_lit_enc(',', a7);
    lemma_p_key_enc(key_last_name(), a8);
    assert(a7 == enc_key(key_last_name()) + a8);
    lemma_p_str_enc(v.last_name, a9);
    lemma_p_lit_enc(',', a10);
    lemma_p_key_enc(key_age(), a11);
    assert(a10 == enc_key(key_age()) + a11);
    assert(a12.len() > 0 && !is_digit_char(a12[0]));
    lemma_p_u32_enc(v.age, a12);
    lemma_p_lit_enc(',', a13);
    lemma_p_key_enc(key_department(), a14);
    assert(a13 == enc_key(key_department()) + a14);
    lemma_p_str_enc(v.department, a15);
    lemma_p_lit_enc(',', a16);
    lemma_p_key_enc(key_title(), a17);
    assert(a16 == enc_key(key_title()) + a17);
    lemma_p_str_enc(v.title, a18);
    lemma_p_lit_enc('}', a19);
    assert(p_teacher(s) == Some((v, rest)));
}

#[verifier::rlimit(100)]
#[verifier::spinoff_prover]
proof fn lemma_p_faculty_enc(v: FacultyView, rest: Seq<char>)
    ensures
        p_faculty(enc_faculty(v) + rest) == Some((v, rest)),
{
    let a19 = rest;
    let a18 = seq!['}'] + a19;
    let a17 = dec_str(v.num_staff as nat) + a18;
    let a16 = enc_key(key_num_staff()) + a17;
    let a15 = seq![','] + a16;
    let a14 = dec_str(v.established_year as nat) + a15;
    let a13 = enc_key(key_established_year()) + a14;
    let a12 = seq![','] + a13;
    let a11 = enc_str(v.head_name) + a12;
    let a10 = enc_key(key_head_name()) + a11;
    let a9 = seq![','] + a10;
    let a8 = enc_str(v.building) + a9;
    let a7 = enc_key(key_building()) + a8;
    let a6 = seq![','] + a7;
    let a5 = enc_str(v.name) + a6;
    let a4 = enc_key(key_name()) + a5;
    let a3 = seq![','] + a4;
    let a2 = enc_str(v.id) + a3;
    let a1 = enc_key(key_id()) + a2;
    let a0 = seq!['{'] + a1;
    let s = a0;
    assert(s =~= enc_faculty(v) + rest);
    lemma_p_lit_enc('{', a1);
    lemma_p_key_enc(key_id(), a2);
    assert(a1 == enc_key(key_id()) + a2);
    lemma_p_str_enc(v.id, a3);
    lemma_p_lit_enc(',', a4);
    lemma_p_key_enc(key_name(), a5);
    assert(a4 == enc_key(key_name()) + a5);
    lemma_p_str_enc(v.name, a6);
    lemma_p_lit_enc(',', a7);
    lemma_p_key_enc(key_building(), a8);
    assert(a7 == enc_key(key_building()) + a8);
    lemma_p_str_enc(v.building, a9);
    lemma_p_lit_enc(',', a10);
    lemma_p_key_enc(key_head_name(), a11);
    assert(a10 == enc_key(key_head_name()) + a11);
    lemma_p_str_enc(v.head_name, a12);
    lemma_p_lit_enc(',', a13);
    lemma_p_key_enc(key_established_year(), a14);
    assert(a13 == enc_key(key_established_year()) + a14);
    assert(a15.len() > 0 && !is_digit_char(a15[0]));
    lemma_p_u32_enc(v.established_year, a15);
    lemma_p_lit_enc(',', a16);
    lemma_p_key_enc(key_num_staff(), a17);
    assert(a16 == enc_key(key_num_staff()) + a17);
    assert(a18.len() > 0 && !is_digit_char(a18[0]));
    lemma_p_u32_enc(v.num_staff, a18);
    lemma_p_lit_enc('}', a19);
    assert(p_faculty(s) == Some((v, rest)));
}

#[verifier::rlimit(100)]
#[verifier::spinoff_prover]
proof fn lemma_p_students_rest_enc(vs: Seq<StudentView>)
    ensures
        p_students_rest(enc_students_rest(vs)) == Some((vs, Seq::<char>::empty())),
    decreases vs.len(),
{
    if vs.len() == 0 {
        let s = enc_students_rest(vs);
        assert(s =~= seq![']']);
        lemma_skip_ws_noop(s);
        assert(s[0] == ']');
        assert(s.drop_first() =~= Seq::<char>::empty());
        assert(seq![] + Seq::<StudentView>::empty() =~= Seq::<StudentView>::empty());
    } else {
        let tailenc = enc_students_rest(vs.drop_first());
        let s = enc_students_rest(vs);
        assert(s =~= seq![','] + (enc_student(vs[0]) + tailenc));
        assert(s[0] == ',');
        lemma_skip_ws_noop(s);
        assert(s.drop_first() =~= enc_student(vs[0]) + tailenc);
        lemma_p_student_enc(vs[0], tailenc);
        assert(tailenc.len() < s.len());
        lemma_p_students_rest_enc(vs.drop_first());
        assert(seq![vs[0]] + vs.drop_first() =~= vs);
    }
}

/// Law: reading back an encoded students collection yields the same
/// records in the same order.
#[verifier::rlimit(100)]
#[verifier::spinoff_prover]
pub proof fn lemma_students_round_trip(vs: Seq<StudentView>)
    ensures
        p_students_doc(enc_students(vs)) == Some(vs),
{
    if vs.len() == 0 {
        let s = enc_students(vs);
        assert(s =~= seq!['['] + seq![']']);
        assert(s[0] == '[');
        lemma_skip_ws_noop(s);
        let s1 = s.drop_first();
        assert(s1 =~= seq![']']);
        lemma_skip_ws_noop(s1);
        assert(s1[0] == ']');
        assert(s1.drop_first() =~= Seq::<char>::empty());
    } else {
        let tailenc = enc_students_rest(vs.drop_first());
        let s = enc_students(vs);
        let s1 = enc_student(vs[0]) + tailenc;
        assert(s =~= seq!['['] + s1);
        lemma_p_lit_enc('[', s1);
        assert(s1[0] == '{');
        lemma_skip_ws_noop(s1);
        lemma_p_student_enc(vs[0], tailenc);
        lemma_p_students_rest_enc(vs.drop_first());
        assert(seq![vs[0]] + vs.drop_first() =~= vs);
    }
}

#[verifier::rlimit(100)]
#[verifier::spinoff_prover]
proof fn lemma_p_teachers_rest_enc(vs: Seq<TeacherView>)
    ensures
        p_teachers_rest(enc_teachers_rest(vs)) == Some((vs, Seq::<char>::empty())),
    decreases vs.len(),
{
    if vs.len() == 0 {
        let s = enc_teachers_rest(vs);
        assert(s =~= seq![']']);
        lemma_skip_ws_noop(s);
        assert(s[0] == ']');
        assert(s.drop_first() =~= Seq::<char>::empty());
        assert(seq![] + Seq::<TeacherView>::empty() =~= Seq::<TeacherView>::empty());
    } else {
        let tailenc = enc_teachers_rest(vs.drop_first());
        let s = enc_teachers_rest(vs);
        assert(s =~= seq![','] + (enc_teacher(vs[0]) + tailenc));
        assert(s[0] == ',');
        lemma_skip_ws_noop(s);
        assert(s.drop_first() =~= enc_teacher(vs[0]) + tailenc);
        lemma_p_teacher_enc(vs[0], tailenc);
        assert(tailenc.len() < s.len());
        lemma_p_teachers_rest_enc(vs.drop_first());
        assert(seq![vs[0]] + vs.drop_first() =~= vs);
    }
}

/// Law: reading back an encoded teachers collection yields the same
/// records in the same order.
#[verifier::rlimit(100)]
#[verifier::spinoff_prover]
pub proof fn lemma_teachers_round_trip(vs: Seq<TeacherView>)
    ensures
        p_teachers_doc(enc_teachers(vs)) == Some(vs),
{
    if vs.len() == 0 {
        let s = enc_teachers(vs);
        assert(s =~= seq!['['] + seq![']']);
        assert(s[0] == '[');
        lemma_skip_ws_noop(s);
        let s1 = s.drop_first();
        assert(s1 =~= seq![']']);
        lemma_skip_ws_noop(s1);
        assert(s1[0] == ']');
        assert(s1.drop_first() =~= Seq::<char>::empty());
    } else {
        let tailenc = enc_teachers_rest(vs.drop_first());
        let s = enc_teachers(vs);
        let s1 = enc_teacher(vs[0]) + tailenc;
        assert(s =~= seq!['['] + s1);
        lemma_p_lit_enc('[', s1);
        assert(s1[0] == '{');
        lemma_skip_ws_noop(s1);
        lemma_p_teacher_enc(vs[0], tailenc);
        lemma_p_teachers_rest_enc(vs.drop_first());
        assert(seq![vs[0]] + vs.drop_first() =~= vs);
    }
}

#[verifier::rlimit(100)]
#[verifier::spinoff_prover]
proof fn lemma_p_faculties_rest_enc(vs: Seq<FacultyView>)
    ensures
        p_faculties_rest(enc_faculties_rest(vs)) == Some((vs, Seq::<char>::empty())),
    decreases vs.len(),
{
    if vs.len() == 0 {
        let s = enc_faculties_rest(vs);
        assert(s =~= seq![']']);
        lemma_skip_ws_noop(s);
        assert(s[0] == ']');
        assert(s.drop_first() =~= Seq::<char>::empty());
        assert(seq![] + Seq::<FacultyView>::empty() =~= Seq::<FacultyView>::empty());
    } else {
        let tailenc = enc_faculties_rest(vs.drop_first());
        let s = enc_faculties_rest(vs);
        assert(s =~= seq![','] + (enc_faculty(vs[0]) + tailenc));
        assert(s[0] == ',');
        lemma_skip_ws_noop(s);
        assert(s.drop_first() =~= enc_faculty(vs[0]) + tailenc);
        lemma_p_faculty_enc(vs[0], tailenc);
        assert(tailenc.len() < s.len());
        lemma_p_faculties_rest_enc(vs.drop_first());
        assert(seq![vs[0]] + vs.drop_first() =~= vs);
    }
}

/// Law: reading back an encoded faculties collection yields the same
/// records in the same order.
#[verifier::rlimit(100)]
#[verifier::spinoff_prover]
pub proof fn lemma_faculties_round_trip(vs: Seq<FacultyView>)
    ensures
        p_faculties_doc(enc_faculties(vs)) == Some(vs),
{
    if vs.len() == 0 {
        let s = enc_faculties(vs);
        assert(s =~= seq!['['] + seq![']']);
        assert(s[0] == '[');
        lemma_skip_ws_noop(s);
        let s1 = s.drop_first();
        assert(s1 =~= seq![']']);
        lemma_skip_ws_noop(s1);
        assert(s1[0] == ']');
        assert(s1.drop_first() =~= Seq::<char>::empty());
    } else {
        let tailenc = enc_faculties_rest(vs.drop_first());
        let s = enc_faculties(vs);
        let s1 = enc_faculty(vs[0]) + tailenc;
        assert(s =~= seq!['['] + s1);
        lemma_p_lit_enc('[', s1);
        assert(s1[0] == '{');
        lemma_skip_ws_noop(s1);
        lemma_p_faculty_enc(vs[0], tailenc);
        lemma_p_faculties_rest_enc(vs.drop_first());
        assert(seq![vs[0]] + vs.drop_first() =~= vs);
    }
}


/// The suffix of `s` from position `i`.
pub open spec fn suf(s: Seq<char>, i: int) -> Seq<char> {
    s.subrange(i, s.len() as int)
}

proof fn lemma_skip_ws_len(s: Seq<char>)
    ensures
        skip_ws(s).len() <= s.len(),
    decreases s.len(),
{
    if s.len() > 0 && is_ws(s[0]) {
        lemma_skip_ws_len(s.drop_first());
    }
}

proof fn lemma_p_lit_len(s: Seq<char>, c: char)
    ensures
        p_lit(s, c) matches Some(r) ==> r.len() < s.len(),
{
    lemma_skip_ws_len(s);
}

proof fn lemma_p_str_body_len(s: Seq<char>)
    ensures
        p_str_body(s) matches Some((v, r)) ==> r.len() < s.len(),
    decreases s.len(),
{
    if s.len() > 0 && s[0] != '"' {
        if s[0] == '\\' {
            if s.len() >= 2 {
                lemma_p_str_body_len(s.drop_first().drop_first());
            }
        } else {
            lemma_p_str_body_len(s.drop_first());
        }
    }
}

proof fn lemma_p_str_len(s: Seq<char>)
    ensures
        p_str(s) matches Some((v, r)) ==> r.len() < s.len(),
{
    lemma_skip_ws_len(s);
    let t = skip_ws(s);
    if t.len() > 0 && t[0] == '"' {
        lemma_p_str_body_len(t.drop_first());
    }
}

proof fn lemma_digit_run_le(s: Seq<char>)
    ensures
        0 <= digit_run(s) <= s.len(),
    decreases s.len(),
{
    if s.len() > 0 && is_digit_char(s[0]) {
        lemma_digit_run_le(s.drop_first());
    }
}

proof fn lemma_p_u32_len(s: Seq<char>)
    ensures
        p_u32(s) matches Some((v, r)) ==> r.len() < s.len(),
{
    lemma_skip_ws_len(s);
    lemma_digit_run_le(skip_ws(s));
}

proof fn lemma_p_gpa_len(s: Seq<char>)
    ensures
        p_gpa(s) matches Some((v, r)) ==> r.len() < s.len(),
{
    lemma_skip_ws_len(s);
    let t = skip_ws(s);
    lemma_digit_run_le(t);
    let k = digit_run(t);
    if k > 0 {
        let rest = t.skip(k);
        if rest.len() > 0 && rest[0] == '.' {
            lemma_digit_run_le(rest.drop_first());
        }
    }
}

proof fn lemma_p_key_len(s: Seq<char>, key: Seq<char>)
    ensures
        p_key(s, key) matches Some(r) ==> r.len() < s.len(),
{
    lemma_skip_ws_len(s);
    let t = skip_ws(s);
    if t.len() >= key.len() + 2 && t[0] == '"' && t.subrange(1, 1 + key.len() as int) == key && t[
        1 + key.len() as int] == '"' {
        lemma_p_lit_len(t.skip((key.len() + 2) as int), ':');
    }
}

proof fn lemma_p_student_len(s: Seq<char>)
    ensures
        p_student(s) matches Some((v, r)) ==> r.len() < s.len(),
{
    if p_student(s) is Some {
        let s0 = p_lit(s, '{')->0;
        lemma_p_lit_len(s, '{');
        let s1 = p_key(s0, key_id())->0;
        lemma_p_key_len(s0, key_id());
        let s2 = (p_str(s1)->0).1;
        lemma_p_str_len(s1);
        let s3 = p_lit(s2, ',')->0;
        lemma_p_lit_len(s2, ',');
        let s4 = p_key(s3, key_first_name())->0;
        lemma_p_key_len(s3, key_first_name());
        let s5 = (p_str(s4)->0).1;
        lemma_p_str_len(s4);
        let s6 = p_lit(s5, ',')->0;
        lemma_p_lit_len(s5, ',');
        let s7 = p_key(s6, key_last_name())->0;
        lemma_p_key_len(s6, key_last_name());
        let s8 = (p_str(s7)->0).1;
        lemma_p_str_len(s7);
        let s9 = p_lit(s8, ',')->0;
        lemma_p_lit_len(s8, ',');
        let s10 = p_key(s9, key_age())->0;
        lemma_p_key_len(s9, key_age());
        let s11 = (p_u32(s10)->0).1;
        lemma_p_u32_len(s10);
        let s12 = p_lit(s11, ',')->0;
        lemma_p_lit_len(s11, ',');
        let s13 = p_key(s12, key_major())->0;
        lemma_p_key_len(s12, key_major());
        let s14 = (p_str(s13)->0).1;
        lemma_p_str_len(s13);
        let s15 = p_lit(s14, ',')->0;
        lemma_p_lit_len(s14, ',');
        let s16 = p_key(s15, key_gpa())->0;
        lemma_p_key_len(s15, key_gpa());
        let s17 = (p_gpa(s16)->0).1;
        lemma_p_gpa_len(s16);
        lemma_p_lit_len(s17, '}');
    }
}

proof fn lemma_p_teacher_len(s: Seq<char>)
    ensures
        p_teacher(s) matches Some((v, r)) ==> r.len() < s.len(),
{
    if p_teacher(s) is Some {
        let s0 = p_lit(s, '{')->0;
        lemma_p_lit_len(s, '{');
        let s1 = p_key(s0, key_id())->0;
        lemma_p_key_len(s0, key_id());
        let s2 = (p_str(s1)->0).1;
        lemma_p_str_len(s1);
        let s3 = p_lit(s2, ',')->0;
        lemma_p_lit_len(s2, ',');
        let s4 = p_key(s3, key_first_name())->0;
        lemma_p_key_len(s3, key_first_name());
        let s5 = (p_str(s4)->0).1;
        lemma_p_str_len(s4);
        let s6 = p_lit(s5, ',')->0;
        lemma_p_lit_len(s5, ',');
        let s7 = p_key(s6, key_last_name())->0;
        lemma_p_key_len(s6, key_last_name());
        let s8 = (p_str(s7)->0).1;
        lemma_p_str_len(s7);
        let s9 = p_lit(s8, ',')->0;
        lemma_p_lit_len(s8, ',');
        let s10 = p_key(s9, key_age())->0;
        lemma_p_key_len(s9, key_age());
        let s11 = (p_u32(s10)->0).1;
        lemma_p_u32_len(s10);
        let s12 = p_lit(s11, ',')->0;
        lemma_p_lit_len(s11, ',');
        let s13 = p_key(s12, key_department())->0;
        lemma_p_key_len(s12, key_department());
        let s14 = (p_str(s13)->0).1;
        lemma_p_str_len(s13);
        let s15 = p_lit(s14, ',')->0;
        lemma_p_lit_len(s14, ',');
        let s16 = p_key(s15, key_title())->0;
        lemma_p_key_len(s15, key_title());
        let s17 = (p_str(s16)->0).1;
        lemma_p_str_len(s16);
        lemma_p_lit_len(s17, '}');
    }
}

proof fn lemma_p_faculty_len(s: Seq<char>)
    ensures
        p_faculty(s) matches Some((v, r)) ==> r.len() < s.len(),
{
    if p_faculty(s) is Some {
        let s0 = p_lit(s, '{')->0;
        lemma_p_lit_len(s, '{');
        let s1 = p_key(s0, key_id())->0;
        lemma_p_key_len(s0, key_id());
        let s2 = (p_str(s1)->0).1;
        lemma_p_str_len(s1);
        let s3 = p_lit(s2, ',')->0;
        lemma_p_lit_len(s2, ',');
        let s4 = p_key(s3, key_name())->0;
        lemma_p_key_len(s3, key_name());
        let s5 = (p_str(s4)->0).1;
        lemma_p_str_len(s4);
        let s6 = p_lit(s5, ',')->0;
        lemma_p_lit_len(s5, ',');
        let s7 = p_key(s6, key_building())->0;
        lemma_p_key_len(s6, key_building());
        let s8 = (p_str(s7)->0).1;
        lemma_p_str_len(s7);
        let s9 = p_lit(s8, ',')->0;
        lemma_p_lit_len(s8, ',');
        let s10 = p_key(s9, key_head_name())->0;
        lemma_p_key_len(s9, key_head_name());
        let s11 = (p_str(s10)->0).1;
        lemma_p_str_len(s10);
        let s12 = p_lit(s11, ',')->0;
        lemma_p_lit_len(s11, ',');
        let s13 = p_key(s12, key_established_year())->0;
        lemma_p_key_len(s12, key_established_year());
        let s14 = (p_u32(s13)->0).1;
        lemma_p_u32_len(s13);
        let s15 = p_lit(s14, ',')->0;
        lemma_p_lit_len(s14, ',');
        let s16 = p_key(s15, key_num_staff())->0;
        lemma_p_key_len(s15, key_num_staff());
        let s17 = (p_u32(s16)->0).1;
        lemma_p_u32_len(s16);
        lemma_p_lit_len(s17, '}');
    }
}

fn ex_is_ws(c: char) -> (r: bool)
    ensures
        r == is_ws(c),
{
    c == ' ' || c == '\n' || c == '\r' || c == '\t'
}

fn ex_is_digit(c: char) -> (r: bool)
    ensures
        r == is_digit_char(c),
{
    let v = c as u32;
    48 <= v && v <= 57
}

/// First position at or after `i` that holds no blank.
fn ex_skip_ws(cs: &Vec<char>, i: usize) -> (j: usize)
    requires
        i <= cs@.len(),
    ensures
        i <= j <= cs@.len(),
        skip_ws(suf(cs@, i as int)) == suf(cs@, j as int),
{
    let n = cs.len();
    let mut j = i;
    while j < n && ex_is_ws(cs[j])
        invariant
            i <= j <= n,
            n == cs@.len(),
            skip_ws(suf(cs@, i as int)) == skip_ws(suf(cs@, j as int)),
        decreases n - j,
    {
        proof {
            assert(suf(cs@, j as int)[0] == cs@[j as int]);
            assert(suf(cs@, j as int).drop_first() =~= suf(cs@, j + 1));
        }
        j = j + 1;
    }
    proof {
        if j < n {
            assert(suf(cs@, j as int)[0] == cs@[j as int]);
        }
        assert(skip_ws(suf(cs@, j as int)) == suf(cs@, j as int));
    }
    j
}

/// Consumes blanks and the expected character.
fn ex_lit(cs: &Vec<char>, i: usize, c: char) -> (r: Option<usize>)
    requires
        i <= cs@.len(),
    ensures
        match r {
            Some(j) => j <= cs@.len() && p_lit(suf(cs@, i as int), c) == Some(suf(cs@, j as int)),
            None => p_lit(suf(cs@, i as int), c) is None,
        },
{
    let j = ex_skip_ws(cs, i);
    if j < cs.len() && cs[j] == c {
        proof {
            assert(suf(cs@, j as int)[0] == cs@[j as int]);
            assert(suf(cs@, j as int).drop_first() =~= suf(cs@, j + 1));
        }
        Some(j + 1)
    } else {
        proof {
            if j < cs@.len() {
                assert(suf(cs@, j as int)[0] == cs@[j as int]);
            }
        }
        None
    }
}

/// Consumes blanks and a quoted text.
fn ex_str(cs: &Vec<char>, i: usize) -> (r: Option<(String, usize)>)
    requires
        i <= cs@.len(),
    ensures
        match r {
            Some(p) => p.1 <= cs@.len() && (p_str(suf(cs@, i as int)) matches Some(q) && p.0@
                == q.0 && q.1 == suf(cs@, p.1 as int)),
            None => p_str(suf(cs@, i as int)) is None,
        },
{
    let n = cs.len();
    let j = ex_skip_ws(cs, i);
    if j >= n {
        return None;
    }
    proof {
        assert(suf(cs@, j as int)[0] == cs@[j as int]);
    }
    if cs[j] != '"' {
        return None;
    }
    proof {
        assert(suf(cs@, j as int).drop_first() =~= suf(cs@, j + 1));
    }
    let mut out: Vec<char> = Vec::new();
    let mut cur: usize = j + 1;
    loop
        invariant
            j + 1 <= cur <= n,
            n == cs@.len(),
            p_str_body(suf(cs@, j + 1)) == (match p_str_body(suf(cs@, cur as int)) {
                Some(q) => Some((out@ + q.0, q.1)),
                None => None::<(Seq<char>, Seq<char>)>,
            }),
            p_str(suf(cs@, i as int)) == p_str_body(suf(cs@, j + 1)),
        decreases n - cur,
    {
        if cur >= n {
            return None;
        }
        let c = cs[cur];
        proof {
            assert(suf(cs@, cur as int)[0] == cs@[cur as int]);
        }
        if c == '"' {
            proof {
                assert(suf(cs@, cur as int).drop_first() =~= suf(cs@, cur + 1));
                assert(out@ + Seq::<char>::empty() =~= out@);
            }
            let sv = crate::text::string_from_chars(&out);
            return Some((sv, cur + 1));
        }
        if c == '\\' {
            if cur + 1 >= n {
                return None;
            }
            let e = cs[cur + 1];
            proof {
                assert(suf(cs@, cur as int)[1] == cs@[cur + 1]);
            }
            let uo: Option<char> = if e == '"' || e == '\\' || e == '/' {
                Some(e)
            } else if e == 'n' {
                Some('\n')
            } else if e == 't' {
                Some('\t')
            } else if e == 'r' {
                Some('\r')
            } else {
                None
            };
            proof {
                assert(uo == unesc(cs@[cur + 1]));
            }
            match uo {
                None => {
                    return None;
                },
                Some(u) => {
                    let ghost ov = out@;
                    out.push(u);
                    proof {
                        assert(suf(cs@, cur as int).drop_first().drop_first() =~= suf(
                            cs@,
                            cur + 2,
                        ));
                        let x = p_str_body(suf(cs@, cur + 2));
                        if x is Some {
                            let q = x->0;
                            assert(ov + (seq![u] + q.0) =~= (ov.push(u)) + q.0);
                        }
                    }
                    cur = cur + 2;
                },
            }
        } else {
            let ghost ov = out@;
            out.push(c);
            proof {
                assert(suf(cs@, cur as int).drop_first() =~= suf(cs@, cur + 1));
                let x = p_str_body(suf(cs@, cur + 1));
                if x is Some {
                    let q = x->0;
                    assert(ov + (seq![c] + q.0) =~= (ov.push(c)) + q.0);
                }
            }
            cur = cur + 1;
        }
    }
}

/// Consumes blanks and a decimal number that fits in a `u32`.
fn ex_u32(cs: &Vec<char>, i: usize) -> (r: Option<(u32, usize)>)
    requires
        i <= cs@.len(),
    ensures
        match r {
            Some(p) => p.1 <= cs@.len() && (p_u32(suf(cs@, i as int)) matches Some(q) && q.0
                == p.0 && q.1 == suf(cs@, p.1 as int)),
            None => p_u32(suf(cs@, i as int)) is None,
        },
{
    let n = cs.len();
    let j = ex_skip_ws(cs, i);
    let mut k = j;
    while k < n && ex_is_digit(cs[k])
        invariant
            j <= k <= n,
            n == cs@.len(),
            digit_run(suf(cs@, j as int)) == (k - j) + digit_run(suf(cs@, k as int)),
            forall|l: int| j <= l < k ==> is_digit_char(#[trigger] cs@[l]),
        decreases n - k,
    {
        proof {
            assert(suf(cs@, k as int)[0] == cs@[k as int]);
            assert(suf(cs@, k as int).drop_first() =~= suf(cs@, k + 1));
        }
        k = k + 1;
    }
    proof {
        if k < n {
            assert(suf(cs@, k as int)[0] == cs@[k as int]);
        }
        assert(digit_run(suf(cs@, k as int)) == 0);
        assert(digit_run(suf(cs@, j as int)) == k - j);
    }
    if k == j {
        return None;
    }
    let ghost t = suf(cs@, j as int);
    let ghost ds = t.take((k - j) as int);
    proof {
        assert(forall|l: int| 0 <= l < ds.len() ==> #[trigger] ds[l] == cs@[j + l]);
    }
    let mut acc: u32 = 0;
    let mut m: usize = j;
    while m < k
        invariant
            j <= m <= k <= n,
            n == cs@.len(),
            ds == suf(cs@, j as int).take((k - j) as int),
            ds.len() == k - j,
            forall|l: int| 0 <= l < ds.len() ==> #[trigger] ds[l] == cs@[j + l],
            forall|l: int| j <= l < k ==> is_digit_char(#[trigger] cs@[l]),
            acc as nat == digits_val(ds.take((m - j) as int)),
            skip_ws(suf(cs@, i as int)) == suf(cs@, j as int),
            digit_run(suf(cs@, j as int)) == k - j,
        decreases k - m,
    {
        let c = cs[m];
        let d = c as u32 - 48;
        proof {
            lemma_digits_val_push(ds.take((m - j) as int), ds[(m - j) as int]);
            assert(ds.take((m - j) as int).push(ds[(m - j) as int]) =~= ds.take((m - j) + 1));
        }
        if acc > (u32::MAX - d) / 10 {
            proof {
                lemma_digits_val_take_grows(ds, (m - j) + 1, ds.len() as int);
                assert(ds.take(ds.len() as int) =~= ds);
            }
            return None;
        }
        acc = acc * 10 + d;
        m = m + 1;
    }
    proof {
        assert(ds.take(ds.len() as int) =~= ds);
        assert(suf(cs@, j as int).skip((k - j) as int) =~= suf(cs@, k as int));
    }
    Some((acc, k))
}


/// Consumes blanks and a decimal grade point, as hundredths.
#[verifier::rlimit(100)]
fn ex_gpa(cs: &Vec<char>, i: usize) -> (r: Option<(u32, usize)>)
    requires
        i <= cs@.len(),
    ensures
        match r {
            Some(p) => p.1 <= cs@.len() && (p_gpa(suf(cs@, i as int)) matches Some(q) && q.0
                == p.0 && q.1 == suf(cs@, p.1 as int)),
            None => p_gpa(suf(cs@, i as int)) is None,
        },
{
    let n = cs.len();
    let j = ex_skip_ws(cs, i);
    let mut k = j;
    while k < n && ex_is_digit(cs[k])
        invariant
            j <= k <= n,
            n == cs@.len(),
            digit_run(suf(cs@, j as int)) == (k - j) + digit_run(suf(cs@, k as int)),
            forall|l: int| j <= l < k ==> is_digit_char(#[trigger] cs@[l]),
        decreases n - k,
    {
        proof {
            assert(suf(cs@, k as int)[0] == cs@[k as int]);
            assert(suf(cs@, k as int).drop_first() =~= suf(cs@, k + 1));
        }
        k = k + 1;
    }
    proof {
        if k < n {
            assert(suf(cs@, k as int)[0] == cs@[k as int]);
        }
        assert(digit_run(suf(cs@, k as int)) == 0);
        assert(digit_run(suf(cs@, j as int)) == k - j);
    }
    if k == j {
        return None;
    }
    let ghost ds = suf(cs@, j as int).take((k - j) as int);
    proof {
        assert(forall|l: int| 0 <= l < ds.len() ==> #[trigger] ds[l] == cs@[j + l]);
    }
    let mut acc: u32 = 0;
    let mut over = false;
    let mut m: usize = j;
    while m < k
        invariant
            j <= m <= k <= n,
            n == cs@.len(),
            ds == suf(cs@, j as int).take((k - j) as int),
            ds.len() == k - j,
            forall|l: int| 0 <= l < ds.len() ==> #[trigger] ds[l] == cs@[j + l],
            forall|l: int| j <= l < k ==> is_digit_char(#[trigger] cs@[l]),
            skip_ws(suf(cs@, i as int)) == suf(cs@, j as int),
            digit_run(suf(cs@, j as int)) == k - j,
            !over ==> acc as nat == digits_val(ds.take((m - j) as int)) && acc <= u32::MAX / 100,
            over ==> digits_val(ds) > u32::MAX / 100,
        decreases k - m,
    {
        let c = cs[m];
        let d = c as u32 - 48;
        proof {
            lemma_digits_val_push(ds.take((m - j) as int), ds[(m - j) as int]);
            assert(ds.take((m - j) as int).push(ds[(m - j) as int]) =~= ds.take((m - j) + 1));
        }
        if !over {
            if acc > (u32::MAX / 100 - d) / 10 {
                proof {
                    lemma_digits_val_take_grows(ds, (m - j) + 1, ds.len() as int);
                    assert(ds.take(ds.len() as int) =~= ds);
                }
                over = true;
            } else {
                acc = acc * 10 + d;
            }
        }
        m = m + 1;
    }
    proof {
        assert(ds.take(ds.len() as int) =~= ds);
        assert(suf(cs@, j as int).skip((k - j) as int) =~= suf(cs@, k as int));
    }
    if over {
        return None;
    }
    let iv = acc;
    if k < n && cs[k] == '.' {
        proof {
            assert(suf(cs@, k as int)[0] == cs@[k as int]);
            assert(suf(cs@, k as int).drop_first() =~= suf(cs@, k + 1));
        }
        let mut k2 = k + 1;
        while k2 < n && ex_is_digit(cs[k2])
            invariant
                k + 1 <= k2 <= n,
                n == cs@.len(),
                digit_run(suf(cs@, k + 1)) == (k2 - (k + 1)) + digit_run(suf(cs@, k2 as int)),
                forall|l: int| k + 1 <= l < k2 ==> is_digit_char(#[trigger] cs@[l]),
            decreases n - k2,
        {
            proof {
                assert(suf(cs@, k2 as int)[0] == cs@[k2 as int]);
                assert(suf(cs@, k2 as int).drop_first() =~= suf(cs@, k2 + 1));
            }
            k2 = k2 + 1;
        }
        proof {
            if k2 < n {
                assert(suf(cs@, k2 as int)[0] == cs@[k2 as int]);
            }
            assert(digit_run(suf(cs@, k2 as int)) == 0);
            assert(digit_run(suf(cs@, k + 1)) == k2 - (k + 1));
        }
        if k2 == k + 1 {
            return None;
        }
        let f0 = cs[k + 1] as u32 - 48;
        let f1: u32 = if k2 > k + 2 {
            cs[k + 2] as u32 - 48
        } else {
            0
        };
        let fh = f0 * 10 + f1;
        let ghost f = suf(cs@, k + 1);
        let ghost fd = f.take((k2 - (k + 1)) as int);
        proof {
            assert(fd[0] == cs@[k + 1]);
            if k2 > k + 2 {
                assert(fd[1] == cs@[k + 2]);
            }
            assert(is_digit_char(cs@[k + 1]));
            assert(frac_hundredths(fd) == fh);
        }
        let scaled = iv * 100;
        if fh > u32::MAX - scaled {
            return None;
        }
        proof {
            assert(f.skip((k2 - (k + 1)) as int) =~= suf(cs@, k2 as int));
        }
        return Some((scaled + fh, k2));
    }
    proof {
        if k < n {
            assert(suf(cs@, k as int)[0] == cs@[k as int]);
        }
    }
    Some((iv * 100, k))
}

/// Consumes blanks, the given quoted key and its colon.
fn ex_key(cs: &Vec<char>, i: usize, key: &str) -> (r: Option<usize>)
    requires
        i <= cs@.len(),
    ensures
        match r {
            Some(j) => j <= cs@.len() && p_key(suf(cs@, i as int), key@) == Some(
                suf(cs@, j as int),
            ),
            None => p_key(suf(cs@, i as int), key@) is None,
        },
{
    let n = cs.len();
    let j = ex_skip_ws(cs, i);
    let kl = key.unicode_len();
    if kl >= n - j || n - j - kl < 2 {
        return None;
    }
    proof {
        assert(suf(cs@, j as int)[0] == cs@[j as int]);
    }
    if cs[j] != '"' {
        return None;
    }
    let mut m: usize = 0;
    while m < kl
        invariant
            m <= kl,
            kl == key@.len(),
            n == cs@.len(),
            j <= n,
            n - j >= kl + 2,
            skip_ws(suf(cs@, i as int)) == suf(cs@, j as int),
            cs@[j as int] == '"',
            forall|l: int| 0 <= l < m ==> cs@[j + 1 + l] == key@[l],
        decreases kl - m,
    {
        if cs[j + 1 + m] != key.get_char(m) {
            proof {
                assert(suf(cs@, j as int).subrange(1, 1 + kl as int)[m as int] == cs@[j + 1 + m]);
                assert(suf(cs@, j as int).subrange(1, 1 + kl as int) != key@);
            }
            return None;
        }
        m = m + 1;
    }
    proof {
        assert(suf(cs@, j as int).subrange(1, 1 + kl as int) =~= key@);
        assert(suf(cs@, j as int)[1 + kl as int] == cs@[j + 1 + kl]);
    }
    if cs[j + 1 + kl] != '"' {
        return None;
    }
    proof {
        assert(suf(cs@, j as int).skip((kl + 2) as int) =~= suf(cs@, (j + kl + 2) as int));
    }
    ex_lit(cs, j + kl + 2, ':')
}

/// Reads one student object.
#[verifier::rlimit(100)]
#[verifier::spinoff_prover]
fn ex_student(cs: &Vec<char>, i: usize) -> (r: Option<(Student, usize)>)
    requires
        i <= cs@.len(),
    ensures
        match r {
            Some(p) => p.1 <= cs@.len() && (p_student(suf(cs@, i as int)) matches Some(q)
                && p.0@ == q.0 && q.1 == suf(cs@, p.1 as int)),
            None => p_student(suf(cs@, i as int)) is None,
        },
{
    proof {
        reveal_strlit("id");
        reveal_strlit("first_name");
        reveal_strlit("last_name");
        reveal_strlit("age");
        reveal_strlit("major");
        reveal_strlit("gpa");
        assert("id"@ =~= key_id());
        assert("first_name"@ =~= key_first_name());
        assert("last_name"@ =~= key_last_name());
        assert("age"@ =~= key_age());
        assert("major"@ =~= key_major());
        assert("gpa"@ =~= key_gpa());
    }
    let j0 = match ex_lit(cs, i, '{') {
        Some(j) => j,
        None => { return None; },
    };
    let j1 = match ex_key(cs, j0, "id") {
        Some(j) => j,
        None => { return None; },
    };
    let (v_id, j2) = match ex_str(cs, j1) {
        Some(p) => p,
        None => { return None; },
    };
    let j3 = match ex_lit(cs, j2, ',') {
        Some(j) => j,
        None => { return None; },
    };
    let j4 = match ex_key(cs, j3, "first_name") {
        Some(j) => j,
        None => { return None; },
    };
    let (v_first_name, j5) = match ex_str(cs, j4) {
        Some(p) => p,
        None => { return None; },
    };
    let j6 = match ex_lit(cs, j5, ',') {
        Some(j) => j,
        None => { return None; },
    };
    let j7 = match ex_key(cs, j6, "last_name") {
        Some(j) => j,
        None => { return None; },
    };
    let (v_last_name, j8) = match ex_str(cs, j7) {
        Some(p) => p,
        None => { return None; },
    };
    let j9 = match ex_lit(cs, j8, ',') {
        Some(j) => j,
        None => { return None; },
    };
    let j10 = match ex_key(cs, j9, "age") {
        Some(j) => j,
        None => { return None; },
    };
    let (v_age, j11) = match ex_u32(cs, j10) {
        Some(p) => p,
        None => { return None; },
    };
    let j12 = match ex_lit(cs, j11, ',') {
        Some(j) => j,
        None => { return None; },
    };
    let j13 = match ex_key(cs, j12, "major") {
        Some(j) => j,
        None => { return None; },
    };
    let (v_major, j14) = match ex_str(cs, j13) {
        Some(p) => p,
        None => { return None; },
    };
    let j15 = match ex_lit(cs, j14, ',') {
        Some(j) => j,
        None => { return None; },
    };
    let j16 = match ex_key(cs, j15, "gpa") {
        Some(j) => j,
        None => { return None; },
    };
    let (v_gpa_hundredths, j17) = match ex_gpa(cs, j16) {
        Some(p) => p,
        None => { return None; },
    };
    let j18 = match ex_lit(cs, j17, '}') {
        Some(j) => j,
        None => { return None; },
    };
    Some((Student { id: v_id, first_name: v_first_name, last_name: v_last_name, age: v_age, major: v_major, gpa_hundredths: v_gpa_hundredths }, j18))
}

/// Reads one teacher object.
#[verifier::rlimit(100)]
#[verifier::spinoff_prover]
fn ex_teacher(cs: &Vec<char>, i: usize) -> (r: Option<(Teacher, usize)>)
    requires
        i <= cs@.len(),
    ensures
        match r {
            Some(p) => p.1 <= cs@.len() && (p_teacher(suf(cs@, i as int)) matches Some(q)
                && p.0@ == q.0 && q.1 == suf(cs@, p.1 as int)),
            None => p_teacher(suf(cs@, i as int)) is None,
        },
{
    proof {
        reveal_strlit("id");
        reveal_strlit("first_name");
        reveal_strlit("last_name");
        reveal_strlit("age");
        reveal_strlit("department");
        reveal_strlit("title");
        assert("id"@ =~= key_id());
        assert("first_name"@ =~= key_first_name());
        assert("last_name"@ =~= key_last_name());
        assert("age"@ =~= key_age());
        assert("department"@ =~= key_department());
        assert("title"@ =~= key_title());
    }
    let j0 = match ex_lit(cs, i, '{') {
        Some(j) => j,
        None => { return None; },
    };
    let j1 = match ex_key(cs, j0, "id") {
        Some(j) => j,
        None => { return None; },
    };
    let (v_id, j2) = match ex_str(cs, j1) {
        Some(p) => p,
        None => { return None; },
    };
    let j3 = match ex_lit(cs, j2, ',') {
        Some(j) => j,
        None => { return None; },
    };
    let j4 = match ex_key(cs, j3, "first_name") {
        Some(j) => j,
        None => { return None; },
    };
    let (v_first_name, j5) = match ex_str(cs, j4) {
        Some(p) => p,
        None => { return None; },
    };
    let j6 = match ex_lit(cs, j5, ',') {
        Some(j) => j,
        None => { return None; },
    };
    let j7 = match ex_key(cs, j6, "last_name") {
        Some(j) => j,
        None => { return None; },
    };
    let (v_last_name, j8) = match ex_str(cs, j7) {
        Some(p) => p,
        None => { return None; },
    };
    let j9 = match ex_lit(cs, j8, ',') {
        Some(j) => j,
        None => { return None; },
    };
    let j10 = match ex_key(cs, j9, "age") {
        Some(j) => j,
        None => { return None; },
    };
    let (v_age, j11) = match ex_u32(cs, j10) {
        Some(p) => p,
        None => { return None; },
    };
    let j12 = match ex_lit(cs, j11, ',') {
        Some(j) => j,
        None => { return None; },
    };
    let j13 = match ex_key(cs, j12, "department") {
        Some(j) => j,
        None => { return None; },
    };
    let (v_department, j14) = match ex_str(cs, j13) {
        Some(p) => p,
        None => { return None; },
    };
    let j15 = match ex_lit(cs, j14, ',') {
        Some(j) => j,
        None => { return None; },
    };
    let j16 = match ex_key(cs, j15, "title") {
        Some(j) => j,
        None => { return None; },
    };
    let (v_title, j17) = match ex_str(cs, j16) {
        Some(p) => p,
        None => { return None; },
    };
    let j18 = match ex_lit(cs, j17, '}') {
        Some(j) => j,
        None => { return None; },
    };
    Some((Teacher { id: v_id, first_name: v_first_name, last_name: v_last_name, age: v_age, department: v_department, title: v_title }, j18))
}

/// Reads one faculty object.
#[verifier::rlimit(100)]
#[verifier::spinoff_prover]
fn ex_faculty(cs: &Vec<char>, i: usize) -> (r: Option<(Faculty, usize)>)
    requires
        i <= cs@.len(),
    ensures
        match r {
            Some(p) => p.1 <= cs@.len() && (p_faculty(suf(cs@, i as int)) matches Some(q)
                && p.0@ == q.0 && q.1 == suf(cs@, p.1 as int)),
            None => p_faculty(suf(cs@, i as int)) is None,
        },
{
    proof {
        reveal_strlit("id");
        reveal_strlit("name");
        reveal_strlit("building");
        reveal_strlit("head_name");
        reveal_strlit("established_year");
        reveal_strlit("num_staff");
        assert("id"@ =~= key_id());
        assert("name"@ =~= key_name());
        assert("building"@ =~= key_building());
        assert("head_name"@ =~= key_head_name());
        assert("established_year"@ =~= key_established_year());
        assert("num_staff"@ =~= key_num_staff());
    }
    let j0 = match ex_lit(cs, i, '{') {
        Some(j) => j,
        None => { return None; },
    };
    let j1 = match ex_key(cs, j0, "id") {
        Some(j) => j,
        None => { return None; },
    };
    let (v_id, j2) = match ex_str(cs, j1) {
        Some(p) => p,
        None => { return None; },
    };
    let j3 = match ex_lit(cs, j2, ',') {
        Some(j) => j,
        None => { return None; },
    };
    let j4 = match ex_key(cs, j3, "name") {
        Some(j) => j,
        None => { return None; },
    };
    let (v_name, j5) = match ex_str(cs, j4) {
        Some(p) => p,
        None => { return None; },
    };
    let j6 = match ex_lit(cs, j5, ',') {
        Some(j) => j,
        None => { return None; },
    };
    let j7 = match ex_key(cs, j6, "building") {
        Some(j) => j,
        None => { return None; },
    };
    let (v_building, j8) = match ex_str(cs, j7) {
        Some(p) => p,
        None => { return None; },
    };
    let j9 = match ex_lit(cs, j8, ',') {
        Some(j) => j,
        None => { return None; },
    };
    let j10 = match ex_key(cs, j9, "head_name") {
        Some(j) => j,
        None => { return None; },
    };
    let (v_head_name, j11) = match ex_str(cs, j10) {
        Some(p) => p,
        None => { return None; },
    };
    let j12 = match ex_lit(cs, j11, ',') {
        Some(j) => j,
        None => { return None; },
    };
    let j13 = match ex_key(cs, j12, "established_year") {
        Some(j) => j,
        None => { return None; },
    };
    let (v_established_year, j14) = match ex_u32(cs, j13) {
        Some(p) => p,
        None => { return None; },
    };
    let j15 = match ex_lit(cs, j14, ',') {
        Some(j) => j,
        None => { return None; },
    };
    let j16 = match ex_key(cs, j15, "num_staff") {
        Some(j) => j,
        None => { return None; },
    };
    let (v_num_staff, j17) = match ex_u32(cs, j16) {
        Some(p) => p,
        None => { return None; },
    };
    let j18 = match ex_lit(cs, j17, '}') {
        Some(j) => j,
        None => { return None; },
    };
    Some((Faculty { id: v_id, name: v_name, building: v_building, head_name: v_head_name, established_year: v_established_year, num_staff: v_num_staff }, j18))
}

/// Reads back a whole stored student collection: `Some` exactly when
/// the text is a well-formed array with nothing but blanks after it.
#[verifier::rlimit(100)]
#[verifier::spinoff_prover]
pub fn parse_students(s: &str) -> (r: Option<Vec<Student>>)
    ensures
        match r {
            Some(v) => p_students_doc(s@) == Some(crate::models::views(v@)),
            None => p_students_doc(s@) is None,
        },
{
    let cs = crate::text::chars_of(s);
    proof {
        assert(suf(cs@, 0) =~= s@);
    }
    let n = cs.len();
    let j0 = match ex_lit(&cs, 0, '[') {
        Some(j) => j,
        None => { return None; },
    };
    let jw = ex_skip_ws(&cs, j0);
    if jw < n && cs[jw] == ']' {
        proof {
            assert(suf(cs@, jw as int)[0] == cs@[jw as int]);
            assert(suf(cs@, jw as int).drop_first() =~= suf(cs@, jw + 1));
        }
        let je = ex_skip_ws(&cs, jw + 1);
        if je == n {
            let out: Vec<Student> = Vec::new();
            proof {
                assert(crate::models::views(out@) =~= Seq::<StudentView>::empty());
            }
            return Some(out);
        }
        return None;
    }
    proof {
        if jw < n {
            assert(suf(cs@, jw as int)[0] == cs@[jw as int]);
        }
    }
    let (st0, first_end) = match ex_student(&cs, j0) {
        Some(p) => p,
        None => { return None; },
    };
    let mut out: Vec<Student> = Vec::new();
    let ghost v0 = st0@;
    out.push(st0);
    let mut cur = first_end;
    proof {
        assert(crate::models::views(out@) =~= seq![v0]);
    }
    loop
        invariant
            cur <= n,
            n == cs@.len(),
            ({
                let d = p_students_doc(s@);
                match p_students_rest(suf(cs@, cur as int)) {
                    Some(q) => d == (if skip_ws(q.1).len() == 0 {
                        Some(crate::models::views(out@) + q.0)
                    } else {
                        None::<Seq<StudentView>>
                    }),
                    None => d is None,
                }
            }),
        decreases n - cur,
    {
        let t = ex_skip_ws(&cs, cur);
        if t >= n {
            return None;
        }
        proof {
            assert(suf(cs@, t as int)[0] == cs@[t as int]);
        }
        let c = cs[t];
        if c == ']' {
            proof {
                assert(suf(cs@, t as int).drop_first() =~= suf(cs@, t + 1));
            }
            let je = ex_skip_ws(&cs, t + 1);
            if je == n {
                proof {
                    assert(crate::models::views(out@) + Seq::<StudentView>::empty() =~= crate::models::views(out@));
                }
                return Some(out);
            }
            return None;
        }
        if c != ',' {
            return None;
        }
        proof {
            assert(suf(cs@, t as int).drop_first() =~= suf(cs@, t + 1));
        }
        let (stn, nxt) = match ex_student(&cs, t + 1) {
            Some(p) => p,
            None => { return None; },
        };
        proof {
            lemma_p_student_len(suf(cs@, t + 1));
        }
        let ghost ov = crate::models::views(out@);
        let ghost vn = stn@;
        out.push(stn);
        proof {
            assert(crate::models::views(out@) =~= ov.push(vn));
            let x = p_students_rest(suf(cs@, nxt as int));
            if x is Some {
                let q = x->0;
                assert(ov + (seq![vn] + q.0) =~= (ov.push(vn)) + q.0);
            }
        }
        cur = nxt;
    }
}

/// Reads back a whole stored teacher collection: `Some` exactly when
/// the text is a well-formed array with nothing but blanks after it.
#[verifier::rlimit(100)]
#[verifier::spinoff_prover]
pub fn parse_teachers(s: &str) -> (r: Option<Vec<Teacher>>)
    ensures
        match r {
            Some(v) => p_teachers_doc(s@) == Some(crate::models::views(v@)),
            None => p_teachers_doc(s@) is None,
        },
{
    let cs = crate::text::chars_of(s);
    proof {
        assert(suf(cs@, 0) =~= s@);
    }
    let n = cs.len();
    let j0 = match ex_lit(&cs, 0, '[') {
        Some(j) => j,
        None => { return None; },
    };
    let jw = ex_skip_ws(&cs, j0);
    if jw < n && cs[jw] == ']' {
        proof {
            assert(suf(cs@, jw as int)[0] == cs@[jw as int]);
            assert(suf(cs@, jw as int).drop_first() =~= suf(cs@, jw + 1));
        }
        let je = ex_skip_ws(&cs, jw + 1);
        if je == n {
            let out: Vec<Teacher> = Vec::new();
            proof {
                assert(crate::models::views(out@) =~= Seq::<TeacherView>::empty());
            }
            return Some(out);
        }
        return None;
    }
    proof {
        if jw < n {
            assert(suf(cs@, jw as int)[0] == cs@[jw as int]);
        }
    }
    let (st0, first_end) = match ex_teacher(&cs, j0) {
        Some(p) => p,
        None => { return None; },
    };
    let mut out: Vec<Teacher> = Vec::new();
    let ghost v0 = st0@;
    out.push(st0);
    let mut cur = first_end;
    proof {
        assert(crate::models::views(out@) =~= seq![v0]);
    }
    loop
        invariant
            cur <= n,
            n == cs@.len(),
            ({
                let d = p_teachers_doc(s@);
                match p_teachers_rest(suf(cs@, cur as int)) {
                    Some(q) => d == (if skip_ws(q.1).len() == 0 {
                        Some(crate::models::views(out@) + q.0)
                    } else {
                        None::<Seq<TeacherView>>
                    }),
                    None => d is None,
                }
            }),
        decreases n - cur,
    {
        let t = ex_skip_ws(&cs, cur);
        if t >= n {
            return None;
        }
        proof {
            assert(suf(cs@, t as int)[0] == cs@[t as int]);
        }
        let c = cs[t];
        if c == ']' {
            proof {
                assert(suf(cs@, t as int).drop_first() =~= suf(cs@, t + 1));
            }
            let je = ex_skip_ws(&cs, t + 1);
            if je == n {
                proof {
                    assert(crate::models::views(out@) + Seq::<TeacherView>::empty() =~= crate::models::views(out@));
                }
                return Some(out);
            }
            return None;
        }
        if c != ',' {
            return None;
        }
        proof {
            assert(suf(cs@, t as int).drop_first() =~= suf(cs@, t + 1));
        }
        let (stn, nxt) = match ex_teacher(&cs, t + 1) {
            Some(p) => p,
            None => { return None; },
        };
        proof {
            lemma_p_teacher_len(suf(cs@, t + 1));
        }
        let ghost ov = crate::models::views(out@);
        let ghost vn = stn@;
        out.push(stn);
        proof {
            assert(crate::models::views(out@) =~= ov.push(vn));
            let x = p_teachers_rest(suf(cs@, nxt as int));
            if x is Some {
                let q = x->0;
                assert(ov + (seq![vn] + q.0) =~= (ov.push(vn)) + q.0);
            }
        }
        cur = nxt;
    }
}

/// Reads back a whole stored faculty collection: `Some` exactly when
/// the text is a well-formed array with nothing but blanks after it.
#[verifier::rlimit(100)]
#[verifier::spinoff_prover]
pub fn parse_faculties(s: &str) -> (r: Option<Vec<Faculty>>)
    ensures
        match r {
            Some(v) => p_faculties_doc(s@) == Some(crate::models::views(v@)),
            None => p_faculties_doc(s@) is None,
        },
{
    let cs = crate::text::chars_of(s);
    proof {
        assert(suf(cs@, 0) =~= s@);
    }
    let n = cs.len();
    let j0 = match ex_lit(&cs, 0, '[') {
        Some(j) => j,
        None => { return None; },
    };
    let jw = ex_skip_ws(&cs, j0);
    if jw < n && cs[jw] == ']' {
        proof {
            assert(suf(cs@, jw as int)[0] == cs@[jw as int]);
            assert(suf(cs@, jw as int).drop_first() =~= suf(cs@, jw + 1));
        }
        let je = ex_skip_ws(&cs, jw + 1);
        if je == n {
            let out: Vec<Faculty> = Vec::new();
            proof {
                assert(crate::models::views(out@) =~= Seq::<FacultyView>::empty());
            }
            return Some(out);
        }
        return None;
    }
    proof {
        if jw < n {
            assert(suf(cs@, jw as int)[0] == cs@[jw as int]);
        }
    }
    let (st0, first_end) = match ex_faculty(&cs, j0) {
        Some(p) => p,
        None => { return None; },
    };
    let mut out: Vec<Faculty> = Vec::new();
    let ghost v0 = st0@;
    out.push(st0);
    let mut cur = first_end;
    proof {
        assert(crate::models::views(out@) =~= seq![v0]);
    }
    loop
        invariant
            cur <= n,
            n == cs@.len(),
            ({
                let d = p_faculties_doc(s@);
                match p_faculties_rest(suf(cs@, cur as int)) {
                    Some(q) => d == (if skip_ws(q.1).len() == 0 {
                        Some(crate::models::views(out@) + q.0)
                    } else {
                        None::<Seq<FacultyView>>
                    }),
                    None => d is None,
                }
            }),
        decreases n - cur,
    {
        let t = ex_skip_ws(&cs, cur);
        if t >= n {
            return None;
        }
        proof {
            assert(suf(cs@, t as int)[0] == cs@[t as int]);
        }
        let c = cs[t];
        if c == ']' {
            proof {
                assert(suf(cs@, t as int).drop_first() =~= suf(cs@, t + 1));
            }
            let je = ex_skip_ws(&cs, t + 1);
            if je == n {
                proof {
                    assert(crate::models::views(out@) + Seq::<FacultyView>::empty() =~= crate::models::views(out@));
                }
                return Some(out);
            }
            return None;
        }
        if c != ',' {
            return None;
        }
        proof {
            assert(suf(cs@, t as int).drop_first() =~= suf(cs@, t + 1));
        }
        let (stn, nxt) = match ex_faculty(&cs, t + 1) {
            Some(p) => p,
            None => { return None; },
        };
        proof {
            lemma_p_faculty_len(suf(cs@, t + 1));
        }
        let ghost ov = crate::models::views(out@);
        let ghost vn = stn@;
        out.push(stn);
        proof {
            assert(crate::models::views(out@) =~= ov.push(vn));
            let x = p_faculties_rest(suf(cs@, nxt as int));
            if x is Some {
                let q = x->0;
                assert(ov + (seq![vn] + q.0) =~= (ov.push(vn)) + q.0);
            }
        }
        cur = nxt;
    }
}

} // verus!

