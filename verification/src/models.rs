//! The three record kinds that the console manages. Grade point
//! averages are carried as an integer count of hundredths (`390` stands
//! for 3.90) so that every rule about them is exact.

use vstd::prelude::*;

verus! {

/// Relies on `uuid::Uuid::new_v4` and its `Display` impl: a fresh random
/// version-4 UUID rendered in the hyphenated lower-hex form, which is
/// always 36 ASCII characters. Nothing further can be promised of a
/// random identifier.
#[verifier::external_body]
pub(crate) fn fresh_id() -> (r: String)
    ensures
        r@.len() == 36,
{
    uuid::Uuid::new_v4().to_string()
}

/// The views of a sequence of values, element for element.
pub open spec fn views<T: View>(v: Seq<T>) -> Seq<T::V> {
    v.map_values(|x: T| x@)
}

/// Mathematical image of a [`Student`]: every text field as a sequence
/// of characters.
pub struct StudentView {
    pub id: Seq<char>,
    pub first_name: Seq<char>,
    pub last_name: Seq<char>,
    pub age: u32,
    pub major: Seq<char>,
    pub gpa_hundredths: u32,
}

/// A student record. `gpa_hundredths` is the grade point average scaled
/// by one hundred.
#[derive(Debug, PartialEq, Eq)]
pub struct Student {
    pub id: String,
    pub first_name: String,
    pub last_name: String,
    pub age: u32,
    pub major: String,
    pub gpa_hundredths: u32,
}

impl View for Student {
    type V = StudentView;

    open spec fn view(&self) -> StudentView {
        StudentView {
            id: self.id@,
            first_name: self.first_name@,
            last_name: self.last_name@,
            age: self.age,
            major: self.major@,
            gpa_hundredths: self.gpa_hundredths,
        }
    }
}

impl Clone for Student {
    fn clone(&self) -> (r: Self)
        ensures
            r@ == self@,
    {
        Student {
            id: self.id.clone(),
            first_name: self.first_name.clone(),
            last_name: self.last_name.clone(),
            age: self.age,
            major: self.major.clone(),
            gpa_hundredths: self.gpa_hundredths,
        }
    }
}

/// The displayed name of a record that carries a first and a last name:
/// the two joined by a single space.
pub open spec fn spec_full_name(first: Seq<char>, last: Seq<char>) -> Seq<char> {
    first + " "@ + last
}

impl Student {
    /// A student with a freshly drawn random id.
    pub fn new(
        first_name: String,
        last_name: String,
        age: u32,
        major: String,
        gpa_hundredths: u32,
    ) -> (s: Student)
        ensures
            s@.first_name == first_name@,
            s@.last_name == last_name@,
            s@.age == age,
            s@.major == major@,
            s@.gpa_hundredths == gpa_hundredths,
    {
        Student { id: fresh_id(), first_name, last_name, age, major, gpa_hundredths }
    }

    /// A student with the given id, carried unchanged.
    pub fn with_id(
        id: String,
        first_name: String,
        last_name: String,
        age: u32,
        major: String,
        gpa_hundredths: u32,
    ) -> (s: Student)
        ensures
            s@.id == id@,
            s@.first_name == first_name@,
            s@.last_name == last_name@,
            s@.age == age,
            s@.major == major@,
            s@.gpa_hundredths == gpa_hundredths,
    {
        Student { id, first_name, last_name, age, major, gpa_hundredths }
    }

    pub fn full_name(&self) -> (r: String)
        ensures
            r@ == spec_full_name(self@.first_name, self@.last_name),
    {
        self.first_name.clone().concat(" ").concat(self.last_name.as_str())
    }
}

/// Mathematical image of a [`Teacher`].
pub struct TeacherView {
    pub id: Seq<char>,
    pub first_name: Seq<char>,
    pub last_name: Seq<char>,
    pub age: u32,
    pub department: Seq<char>,
    pub title: Seq<char>,
}

/// A teacher record.
#[derive(Debug, PartialEq, Eq)]
pub struct Teacher {
    pub id: String,
    pub first_name: String,
    pub last_name: String,
    pub age: u32,
    pub department: String,
    pub title: String,
}

impl View for Teacher {
    type V = TeacherView;

    open spec fn view(&self) -> TeacherView {
        TeacherView {
            id: self.id@,
            first_name: self.first_name@,
            last_name: self.last_name@,
            age: self.age,
            department: self.department@,
            title: self.title@,
        }
    }
}

impl Clone for Teacher {
    fn clone(&self) -> (r: Self)
        ensures
            r@ == self@,
    {
        Teacher {
            id: self.id.clone(),
            first_name: self.first_name.clone(),
            last_name: self.last_name.clone(),
            age: self.age,
            department: self.department.clone(),
            title: self.title.clone(),
        }
    }
}

impl Teacher {
    /// A teacher with a freshly drawn random id.
    pub fn new(
        first_name: String,
        last_name: String,
        age: u32,
        department: String,
        title: String,
    ) -> (t: Teacher)
        ensures
            t@.first_name == first_name@,
            t@.last_name == last_name@,
            t@.age == age,
            t@.department == department@,
            t@.title == title@,
    {
        Teacher { id: fresh_id(), first_name, last_name, age, department, title }
    }

    /// A teacher with the given id, carried unchanged.
    pub fn with_id(
        id: String,
        first_name: String,
        last_name: String,
        age: u32,
        department: String,
        title: String,
    ) -> (t: Teacher)
        ensures
            t@.id == id@,
            t@.first_name == first_name@,
            t@.last_name == last_name@,
            t@.age == age,
            t@.department == department@,
            t@.title == title@,
    {
        Teacher { id, first_name, last_name, age, department, title }
    }

    pub fn full_name(&self) -> (r: String)
        ensures
            r@ == spec_full_name(self@.first_name, self@.last_name),
    {
        self.first_name.clone().concat(" ").concat(self.last_name.as_str())
    }
}

/// Mathematical image of a [`Faculty`].
pub struct FacultyView {
    pub id: Seq<char>,
    pub name: Seq<char>,
    pub building: Seq<char>,
    pub head_name: Seq<char>,
    pub established_year: u32,
    pub num_staff: u32,
}

/// A faculty record.
#[derive(Debug, PartialEq, Eq)]
pub struct Faculty {
    pub id: String,
    pub name: String,
    pub building: String,
    pub head_name: String,
    pub established_year: u32,
    pub num_staff: u32,
}

impl View for Faculty {
    type V = FacultyView;

    open spec fn view(&self) -> FacultyView {
        FacultyView {
            id: self.id@,
            name: self.name@,
            building: self.building@,
            head_name: self.head_name@,
            established_year: self.established_year,
            num_staff: self.num_staff,
        }
    }
}

impl Clone for Faculty {
    fn clone(&self) -> (r: Self)
        ensures
            r@ == self@,
    {
        Faculty {
            id: self.id.clone(),
            name: self.name.clone(),
            building: self.building.clone(),
            head_name: self.head_name.clone(),
            established_year: self.established_year,
            num_staff: self.num_staff,
        }
    }
}

impl Faculty {
    /// A faculty with a freshly drawn random id.
    pub fn new(
        name: String,
        building: String,
        head_name: String,
        established_year: u32,
        num_staff: u32,
    ) -> (f: Faculty)
        ensures
            f@.name == name@,
            f@.building == building@,
            f@.head_name == head_name@,
            f@.established_year == established_year,
            f@.num_staff == num_staff,
    {
        Faculty { id: fresh_id(), name, building, head_name, established_year, num_staff }
    }

    /// A faculty with the given id, carried unchanged.
    pub fn with_id(
        id: String,
        name: String,
        building: String,
        head_name: String,
        established_year: u32,
        num_staff: u32,
    ) -> (f: Faculty)
        ensures
            f@.id == id@,
            f@.name == name@,
            f@.building == building@,
            f@.head_name == head_name@,
            f@.established_year == established_year,
            f@.num_staff == num_staff,
    {
        Faculty { id, name, building, head_name, established_year, num_staff }
    }
}

} // verus!
