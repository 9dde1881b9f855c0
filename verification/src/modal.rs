//! The modal form engine: an ordered field list with a cyclic active
//! cursor, per-field input rules, the student major dropdown, and the
//! validation that turns a filled form into a typed record.

use vstd::prelude::*;

use crate::models::{Faculty, FacultyView, Student, StudentView, Teacher, TeacherView};
use crate::text::{
    chars_of, dec_str, digits_val, gpa_in_range, gpa_str, gpa_text_wf, gpa_to_string,
    gpa_value_hundredths, is_digit_char, is_digits, parse_gpa, parse_u32, push_char,
    str_contains_char, string_from_chars, u32_to_string,
};
use crate::widgets::{majors, spec_majors, DropdownState, DropdownStateView};

verus! {

/// The logical tag of a form field.
#[derive(Clone, Copy, Debug, PartialEq, Eq, Structural)]
pub enum InputField {
    FirstName,
    LastName,
    Age,
    Major,
    Gpa,
    Department,
    Title,
    Name,
    Building,
    HeadName,
    EstablishedYear,
    NumStaff,
    NoField,
}

impl InputField {
    /// The label of this field as shown beside its entry box.
    pub open spec fn spec_label(self) -> Seq<char> {
        match self {
            InputField::FirstName => "First Name"@,
            InputField::LastName => "Last Name"@,
            InputField::Age => "Age"@,
            InputField::Major => "Major"@,
            InputField::Gpa => "GPA"@,
            InputField::Department => "Department"@,
            InputField::Title => "Title"@,
            InputField::Name => "Name"@,
            InputField::Building => "Building"@,
            InputField::HeadName => "Head Name"@,
            InputField::EstablishedYear => "Established Year"@,
            InputField::NumStaff => "Number of Staff"@,
            InputField::NoField => ""@,
        }
    }

    pub fn label(&self) -> (r: &'static str)
        ensures
            r@ == self.spec_label(),
    {
        match self {
            InputField::FirstName => "First Name",
            InputField::LastName => "Last Name",
            InputField::Age => "Age",
            InputField::Major => "Major",
            InputField::Gpa => "GPA",
            InputField::Department => "Department",
            InputField::Title => "Title",
            InputField::Name => "Name",
            InputField::Building => "Building",
            InputField::HeadName => "Head Name",
            InputField::EstablishedYear => "Established Year",
            InputField::NumStaff => "Number of Staff",
            InputField::NoField => "",
        }
    }
}

/// Mathematical image of a [`ModalType`].
pub enum ModalTypeView {
    AddStudent,
    EditStudent(StudentView),
    AddTeacher,
    EditTeacher(TeacherView),
    AddFaculty,
    EditFaculty(FacultyView),
    DeleteConfirmation(Seq<char>, Seq<char>),
    Message(Seq<char>),
}

/// What kind of interaction a modal carries: adding or editing one of
/// the three record kinds, confirming a deletion (id and display name),
/// or showing a message.
#[derive(Debug)]
pub enum ModalType {
    AddStudent,
    EditStudent(Student),
    AddTeacher,
    EditTeacher(Teacher),
    AddFaculty,
    EditFaculty(Faculty),
    DeleteConfirmation(String, String),
    Message(String),
}

impl View for ModalType {
    type V = ModalTypeView;

    open spec fn view(&self) -> ModalTypeView {
        match self {
            ModalType::AddStudent => ModalTypeView::AddStudent,
            ModalType::EditStudent(s) => ModalTypeView::EditStudent(s@),
            ModalType::AddTeacher => ModalTypeView::AddTeacher,
            ModalType::EditTeacher(t) => ModalTypeView::EditTeacher(t@),
            ModalType::AddFaculty => ModalTypeView::AddFaculty,
            ModalType::EditFaculty(f) => ModalTypeView::EditFaculty(f@),
            ModalType::DeleteConfirmation(id, name) => ModalTypeView::DeleteConfirmation(
                id@,
                name@,
            ),
            ModalType::Message(m) => ModalTypeView::Message(m@),
        }
    }
}

impl Clone for ModalType {
    fn clone(&self) -> (r: Self)
        ensures
            r@ == self@,
    {
        match self {
            ModalType::AddStudent => ModalType::AddStudent,
            ModalType::EditStudent(s) => ModalType::EditStudent(s.clone()),
            ModalType::AddTeacher => ModalType::AddTeacher,
            ModalType::EditTeacher(t) => ModalType::EditTeacher(t.clone()),
            ModalType::AddFaculty => ModalType::AddFaculty,
            ModalType::EditFaculty(f) => ModalType::EditFaculty(f.clone()),
            ModalType::DeleteConfirmation(id, name) => ModalType::DeleteConfirmation(
                id.clone(),
                name.clone(),
            ),
            ModalType::Message(m) => ModalType::Message(m.clone()),
        }
    }
}

/// The modal kinds that carry the student form (and with it the major
/// dropdown).
pub open spec fn is_student_modal(mt: ModalTypeView) -> bool {
    mt is AddStudent || mt is EditStudent
}

/// The views of a field list.
pub open spec fn input_views(v: Seq<(InputField, String)>) -> Seq<(InputField, Seq<char>)> {
    v.map_values(|p: (InputField, String)| (p.0, p.1@))
}

/// The five empty student fields.
pub open spec fn student_blank_inputs() -> Seq<(InputField, Seq<char>)> {
    seq![
        (InputField::FirstName, Seq::<char>::empty()),
        (InputField::LastName, Seq::<char>::empty()),
        (InputField::Age, Seq::<char>::empty()),
        (InputField::Major, Seq::<char>::empty()),
        (InputField::Gpa, Seq::<char>::empty()),
    ]
}

/// The five student fields prefilled from a record.
pub open spec fn student_edit_inputs(s: StudentView) -> Seq<(InputField, Seq<char>)> {
    seq![
        (InputField::FirstName, s.first_name),
        (InputField::LastName, s.last_name),
        (InputField::Age, dec_str(s.age as nat)),
        (InputField::Major, s.major),
        (InputField::Gpa, gpa_str(s.gpa_hundredths)),
    ]
}

/// The five empty teacher fields.
pub open spec fn teacher_blank_inputs() -> Seq<(InputField, Seq<char>)> {
    seq![
        (InputField::FirstName, Seq::<char>::empty()),
        (InputField::LastName, Seq::<char>::empty()),
        (InputField::Age, Seq::<char>::empty()),
        (InputField::Department, Seq::<char>::empty()),
        (InputField::Title, Seq::<char>::empty()),
    ]
}

/// The five teacher fields prefilled from a record.
pub open spec fn teacher_edit_inputs(t: TeacherView) -> Seq<(InputField, Seq<char>)> {
    seq![
        (InputField::FirstName, t.first_name),
        (InputField::LastName, t.last_name),
        (InputField::Age, dec_str(t.age as nat)),
        (InputField::Department, t.department),
        (InputField::Title, t.title),
    ]
}

/// The five empty faculty fields.
pub open spec fn faculty_blank_inputs() -> Seq<(InputField, Seq<char>)> {
    seq![
        (InputField::Name, Seq::<char>::empty()),
        (InputField::Building, Seq::<char>::empty()),
        (InputField::HeadName, Seq::<char>::empty()),
        (InputField::EstablishedYear, Seq::<char>::empty()),
        (InputField::NumStaff, Seq::<char>::empty()),
    ]
}

/// The five faculty fields prefilled from a record.
pub open spec fn faculty_edit_inputs(f: FacultyView) -> Seq<(InputField, Seq<char>)> {
    seq![
        (InputField::Name, f.name),
        (InputField::Building, f.building),
        (InputField::HeadName, f.head_name),
        (InputField::EstablishedYear, dec_str(f.established_year as nat)),
        (InputField::NumStaff, dec_str(f.num_staff as nat)),
    ]
}

/// The field list a fresh modal of the given kind starts with.
pub open spec fn spec_inputs_for(mt: ModalTypeView) -> Seq<(InputField, Seq<char>)> {
    match mt {
        ModalTypeView::AddStudent => student_blank_inputs(),
        ModalTypeView::EditStudent(s) => student_edit_inputs(s),
        ModalTypeView::AddTeacher => teacher_blank_inputs(),
        ModalTypeView::EditTeacher(t) => teacher_edit_inputs(t),
        ModalTypeView::AddFaculty => faculty_blank_inputs(),
        ModalTypeView::EditFaculty(f) => faculty_edit_inputs(f),
        ModalTypeView::DeleteConfirmation(_, _) => Seq::empty(),
        ModalTypeView::Message(_) => Seq::empty(),
    }
}

/// Whether the active field accepts `c`, given its current text:
/// numeric fields take only digits, the grade point field takes digits
/// and a first decimal point, text fields take anything.
pub open spec fn accepts_char(f: InputField, cur: Seq<char>, c: char) -> bool {
    match f {
        InputField::Age | InputField::EstablishedYear | InputField::NumStaff => is_digit_char(c),
        InputField::Gpa => is_digit_char(c) || (c == '.' && !cur.contains('.')),
        _ => true,
    }
}

/// Mathematical image of a [`Modal`].
pub struct ModalView {
    pub modal_type: ModalTypeView,
    pub active: bool,
    pub inputs: Seq<(InputField, Seq<char>)>,
    pub active_field: usize,
    pub confirm: bool,
    pub major_dropdown: DropdownStateView,
}

/// An in-progress add, edit, delete or message interaction: the field
/// list, the active-field cursor, and the major dropdown.
pub struct Modal {
    pub modal_type: ModalType,
    pub active: bool,
    pub inputs: Vec<(InputField, String)>,
    pub active_field: usize,
    pub confirm: bool,
    pub major_dropdown: DropdownState,
}

impl View for Modal {
    type V = ModalView;

    open spec fn view(&self) -> ModalView {
        ModalView {
            modal_type: self.modal_type@,
            active: self.active,
            inputs: input_views(self.inputs@),
            active_field: self.active_field,
            confirm: self.confirm,
            major_dropdown: self.major_dropdown@,
        }
    }
}

/// The image of a modal fresh from [`Modal::new`]: fields per kind,
/// cursor on the first field, dropdown closed over the major list.
pub open spec fn spec_fresh_modal(mt: ModalTypeView) -> ModalView {
    ModalView {
        modal_type: mt,
        active: true,
        inputs: spec_inputs_for(mt),
        active_field: 0,
        confirm: false,
        major_dropdown: DropdownStateView {
            is_open: false,
            options: spec_majors(),
            selected: Some(0usize),
        },
    }
}

impl Modal {
    /// The field cursor points at a field whenever there is one, and
    /// the dropdown cursor points at an option.
    pub open spec fn wf(self) -> bool {
        &&& (self@.inputs.len() > 0 ==> self@.active_field < self@.inputs.len())
        &&& (self@.inputs.len() == 0 ==> self@.active_field == 0)
        &&& self.major_dropdown.wf()
    }

    /// A fresh modal: fields per kind (prefilled when editing), cursor
    /// on the first field, dropdown closed over the major list.
    pub fn new(modal_type: ModalType) -> (r: Modal)
        ensures
            r.wf(),
            r@.modal_type == modal_type@,
            r@.active == true,
            r@.inputs == spec_inputs_for(modal_type@),
            r@.active_field == 0,
            r@.confirm == false,
            r@.major_dropdown.is_open == false,
            r@.major_dropdown.options == spec_majors(),
            r@.major_dropdown.selected == Some(0usize),
            r@ == spec_fresh_modal(modal_type@),
    {
        let mut inputs: Vec<(InputField, String)> = Vec::new();
        match &modal_type {
            ModalType::AddStudent => {
                inputs.push((InputField::FirstName, String::new()));
                inputs.push((InputField::LastName, String::new()));
                inputs.push((InputField::Age, String::new()));
                inputs.push((InputField::Major, String::new()));
                inputs.push((InputField::Gpa, String::new()));
                proof {
                    assert(input_views(inputs@) =~= spec_inputs_for(modal_type@));
                }
            },
            ModalType::EditStudent(student) => {
                inputs.push((InputField::FirstName, student.first_name.clone()));
                inputs.push((InputField::LastName, student.last_name.clone()));
                inputs.push((InputField::Age, u32_to_string(student.age)));
                inputs.push((InputField::Major, student.major.clone()));
                inputs.push((InputField::Gpa, gpa_to_string(student.gpa_hundredths)));
                proof {
                    assert(input_views(inputs@) =~= spec_inputs_for(modal_type@));
                }
            },
            ModalType::AddTeacher => {
                inputs.push((InputField::FirstName, String::new()));
                inputs.push((InputField::LastName, String::new()));
                inputs.push((InputField::Age, String::new()));
                inputs.push((InputField::Department, String::new()));
                inputs.push((InputField::Title, String::new()));
                proof {
                    assert(input_views(inputs@) =~= spec_inputs_for(modal_type@));
                }
            },
            ModalType::EditTeacher(teacher) => {
                inputs.push((InputField::FirstName, teacher.first_name.clone()));
                inputs.push((InputField::LastName, teacher.last_name.clone()));
                inputs.push((InputField::Age, u32_to_string(teacher.age)));
                inputs.push((InputField::Department, teacher.department.clone()));
                inputs.push((InputField::Title, teacher.title.clone()));
                proof {
                    assert(input_views(inputs@) =~= spec_inputs_for(modal_type@));
                }
            },
            ModalType::AddFaculty => {
                inputs.push((InputField::Name, String::new()));
                inputs.push((InputField::Building, String::new()));
                inputs.push((InputField::HeadName, String::new()));
                inputs.push((InputField::EstablishedYear, String::new()));
                inputs.push((InputField::NumStaff, String::new()));
                proof {
                    assert(input_views(inputs@) =~= spec_inputs_for(modal_type@));
                }
            },
            ModalType::EditFaculty(faculty) => {
                inputs.push((InputField::Name, faculty.name.clone()));
                inputs.push((InputField::Building, faculty.building.clone()));
                inputs.push((InputField::HeadName, faculty.head_name.clone()));
                inputs.push((InputField::EstablishedYear, u32_to_string(faculty.established_year)));
                inputs.push((InputField::NumStaff, u32_to_string(faculty.num_staff)));
                proof {
                    assert(input_views(inputs@) =~= spec_inputs_for(modal_type@));
                }
            },
            ModalType::DeleteConfirmation(_, _) => {
                proof {
                    assert(input_views(inputs@) =~= spec_inputs_for(modal_type@));
                }
            },
            ModalType::Message(_) => {
                proof {
                    assert(input_views(inputs@) =~= spec_inputs_for(modal_type@));
                }
            },
        }
        Modal {
            modal_type,
            active: true,
            inputs,
            active_field: 0,
            confirm: false,
            major_dropdown: DropdownState::new(majors()),
        }
    }

    /// Whether this modal carries the student form.
    pub fn is_student_kind(&self) -> (r: bool)
        ensures
            r == is_student_modal(self@.modal_type),
    {
        matches!(self.modal_type, ModalType::AddStudent | ModalType::EditStudent(_))
    }

    /// Moves the field cursor one field forward, cyclically; a no-op on
    /// a fieldless modal.
    pub fn next_field(&mut self)
        requires
            old(self).wf(),
        ensures
            final(self).wf(),
            old(self)@.inputs.len() == 0 ==> final(self)@ == old(self)@,
            old(self)@.inputs.len() > 0 ==> final(self)@ == (ModalView {
                active_field: ((old(self)@.active_field + 1) % (old(self)@.inputs.len()
                    as int)) as usize,
                ..old(self)@
            }),
    {
        if self.inputs.len() == 0 {
            return;
        }
        self.active_field = (self.active_field + 1) % self.inputs.len();
    }

    /// Moves the field cursor one field backward, cyclically; a no-op
    /// on a fieldless modal.
    pub fn prev_field(&mut self)
        requires
            old(self).wf(),
        ensures
            final(self).wf(),
            old(self)@.inputs.len() == 0 ==> final(self)@ == old(self)@,
            old(self)@.inputs.len() > 0 ==> final(self)@ == (ModalView {
                active_field: (if old(self)@.active_field == 0 {
                    (old(self)@.inputs.len() - 1) as usize
                } else {
                    (old(self)@.active_field - 1) as usize
                }),
                ..old(self)@
            }),
    {
        if self.inputs.len() == 0 {
            return;
        }
        self.active_field = if self.active_field == 0 {
            self.inputs.len() - 1
        } else {
            self.active_field - 1
        };
    }

    /// Routes one typed character to the active field, subject to its
    /// acceptance rule.
    pub fn input(&mut self, c: char)
        requires
            old(self).wf(),
        ensures
            final(self).wf(),
            old(self)@.inputs.len() == 0 ==> final(self)@ == old(self)@,
            old(self)@.inputs.len() > 0 ==> ({
                let af = old(self)@.active_field as int;
                let f = old(self)@.inputs[af].0;
                let cur = old(self)@.inputs[af].1;
                if accepts_char(f, cur, c) {
                    final(self)@ == (ModalView {
                        inputs: old(self)@.inputs.update(af, (f, cur.push(c))),
                        ..old(self)@
                    })
                } else {
                    final(self)@ == old(self)@
                }
            }),
    {
        if self.inputs.len() == 0 || self.active_field >= self.inputs.len() {
            return;
        }
        let af = self.active_field;
        let f = self.inputs[af].0;
        let accept: bool = match f {
            InputField::Age | InputField::EstablishedYear | InputField::NumStaff => {
                let cv = c as u32;
                48 <= cv && cv <= 57
            },
            InputField::Gpa => {
                let cv = c as u32;
                (48 <= cv && cv <= 57) || (c == '.' && !str_contains_char(
                    self.inputs[af].1.as_str(),
                    '.',
                ))
            },
            _ => true,
        };
        if accept {
            let mut s = self.inputs[af].1.clone();
            push_char(&mut s, c);
            self.inputs.set(af, (f, s));
            proof {
                assert(input_views(self.inputs@) =~= input_views(old(self).inputs@).update(
                    af as int,
                    (f, old(self)@.inputs[af as int].1.push(c)),
                ));
            }
        }
    }

    /// Removes the last character of the active field, a no-op when the
    /// field is empty or the modal fieldless.
    pub fn backspace(&mut self)
        requires
            old(self).wf(),
        ensures
            final(self).wf(),
            old(self)@.inputs.len() == 0 ==> final(self)@ == old(self)@,
            old(self)@.inputs.len() > 0 ==> ({
                let af = old(self)@.active_field as int;
                let f = old(self)@.inputs[af].0;
                let cur = old(self)@.inputs[af].1;
                if cur.len() > 0 {
                    final(self)@ == (ModalView {
                        inputs: old(self)@.inputs.update(af, (f, cur.drop_last())),
                        ..old(self)@
                    })
                } else {
                    final(self)@ == old(self)@
                }
            }),
    {
        if self.inputs.len() == 0 || self.active_field >= self.inputs.len() {
            return;
        }
        let af = self.active_field;
        let f = self.inputs[af].0;
        let mut cs = chars_of(self.inputs[af].1.as_str());
        if cs.len() == 0 {
            return;
        }
        cs.pop();
        proof {
            assert(cs@ =~= old(self)@.inputs[af as int].1.drop_last());
        }
        let s = string_from_chars(&cs);
        self.inputs.set(af, (f, s));
        proof {
            assert(input_views(self.inputs@) =~= input_views(old(self).inputs@).update(
                af as int,
                (f, old(self)@.inputs[af as int].1.drop_last()),
            ));
        }
    }

    /// Validates the student form and builds the record: `Some` exactly
    /// when every field is non-empty, the age is a number in 16..=99
    /// and the grade point entry denotes a value of at most 4.0. When
    /// editing, the original id is carried over; otherwise the id is
    /// left empty for the store to assign.
    pub fn create_student(&self) -> (r: Option<Student>)
        ensures
            match r {
                Some(s) => student_form_valid(self@.inputs) && s@.first_name
                    == self@.inputs[0].1 && s@.last_name == self@.inputs[1].1 && s@.age as nat
                    == digits_val(self@.inputs[2].1) && s@.major == self@.inputs[3].1
                    && s@.gpa_hundredths as nat == gpa_value_hundredths(self@.inputs[4].1)
                    && s@.id == (match self@.modal_type {
                    ModalTypeView::EditStudent(orig) => orig.id,
                    _ => Seq::<char>::empty(),
                }),
                None => !student_form_valid(self@.inputs),
            },
    {
        if self.inputs.len() < 5 {
            return None;
        }
        if self.inputs[0].1.as_str().unicode_len() == 0 {
            return None;
        }
        if self.inputs[1].1.as_str().unicode_len() == 0 {
            return None;
        }
        if self.inputs[3].1.as_str().unicode_len() == 0 {
            return None;
        }
        let age: u32 = match parse_u32(self.inputs[2].1.as_str()) {
            Some(a) => {
                if 16 <= a && a <= 99 {
                    a
                } else {
                    return None;
                }
            },
            None => {
                return None;
            },
        };
        let gpa: u32 = match parse_gpa(self.inputs[4].1.as_str()) {
            Some(g) => g,
            None => {
                return None;
            },
        };
        let id: String = match &self.modal_type {
            ModalType::EditStudent(orig) => orig.id.clone(),
            _ => String::new(),
        };
        Some(
            Student {
                id,
                first_name: self.inputs[0].1.clone(),
                last_name: self.inputs[1].1.clone(),
                age,
                major: self.inputs[3].1.clone(),
                gpa_hundredths: gpa,
            },
        )
    }

    /// Validates the teacher form and builds the record: `Some` exactly
    /// when every field is non-empty and the age is a number in
    /// 18..=99. When editing, the original id is carried over.
    pub fn create_teacher(&self) -> (r: Option<Teacher>)
        ensures
            match r {
                Some(t) => teacher_form_valid(self@.inputs) && t@.first_name
                    == self@.inputs[0].1 && t@.last_name == self@.inputs[1].1 && t@.age as nat
                    == digits_val(self@.inputs[2].1) && t@.department == self@.inputs[3].1
                    && t@.title == self@.inputs[4].1 && t@.id == (match self@.modal_type {
                    ModalTypeView::EditTeacher(orig) => orig.id,
                    _ => Seq::<char>::empty(),
                }),
                None => !teacher_form_valid(self@.inputs),
            },
    {
        if self.inputs.len() < 5 {
            return None;
        }
        if self.inputs[0].1.as_str().unicode_len() == 0 {
            return None;
        }
        if self.inputs[1].1.as_str().unicode_len() == 0 {
            return None;
        }
        if self.inputs[3].1.as_str().unicode_len() == 0 {
            return None;
        }
        if self.inputs[4].1.as_str().unicode_len() == 0 {
            return None;
        }
        let age: u32 = match parse_u32(self.inputs[2].1.as_str()) {
            Some(a) => {
                if 18 <= a && a <= 99 {
                    a
                } else {
                    return None;
                }
            },
            None => {
                return None;
            },
        };
        let id: String = match &self.modal_type {
            ModalType::EditTeacher(orig) => orig.id.clone(),
            _ => String::new(),
        };
        Some(
            Teacher {
                id,
                first_name: self.inputs[0].1.clone(),
                last_name: self.inputs[1].1.clone(),
                age,
                department: self.inputs[3].1.clone(),
                title: self.inputs[4].1.clone(),
            },
        )
    }

    /// Validates the faculty form and builds the record: `Some` exactly
    /// when every field is non-empty, the year is a number in
    /// 1500..=2025 and the staff count is a positive number. When
    /// editing, the original id is carried over.
    pub fn create_faculty(&self) -> (r: Option<Faculty>)
        ensures
            match r {
                Some(f) => faculty_form_valid(self@.inputs) && f@.name == self@.inputs[0].1
                    && f@.building == self@.inputs[1].1 && f@.head_name == self@.inputs[2].1
                    && f@.established_year as nat == digits_val(self@.inputs[3].1)
                    && f@.num_staff as nat == digits_val(self@.inputs[4].1) && f@.id == (
                match self@.modal_type {
                    ModalTypeView::EditFaculty(orig) => orig.id,
                    _ => Seq::<char>::empty(),
                }),
                None => !faculty_form_valid(self@.inputs),
            },
    {
        if self.inputs.len() < 5 {
            return None;
        }
        if self.inputs[0].1.as_str().unicode_len() == 0 {
            return None;
        }
        if self.inputs[1].1.as_str().unicode_len() == 0 {
            return None;
        }
        if self.inputs[2].1.as_str().unicode_len() == 0 {
            return None;
        }
        let year: u32 = match parse_u32(self.inputs[3].1.as_str()) {
            Some(y) => {
                if 1500 <= y && y <= 2025 {
                    y
                } else {
                    return None;
                }
            },
            None => {
                return None;
            },
        };
        let staff: u32 = match parse_u32(self.inputs[4].1.as_str()) {
            Some(s) => {
                if s > 0 {
                    s
                } else {
                    return None;
                }
            },
            None => {
                return None;
            },
        };
        let id: String = match &self.modal_type {
            ModalType::EditFaculty(orig) => orig.id.clone(),
            _ => String::new(),
        };
        Some(
            Faculty {
                id,
                name: self.inputs[0].1.clone(),
                building: self.inputs[1].1.clone(),
                head_name: self.inputs[2].1.clone(),
                established_year: year,
                num_staff: staff,
            },
        )
    }

    /// The id a delete-confirmation modal carries; `None` for every
    /// other kind.
    pub fn get_delete_id(&self) -> (r: Option<String>)
        ensures
            match r {
                Some(id) => self@.modal_type matches ModalTypeView::DeleteConfirmation(i, _)
                    && id@ == i,
                None => !(self@.modal_type is DeleteConfirmation),
            },
    {
        match &self.modal_type {
            ModalType::DeleteConfirmation(id, _) => Some(id.clone()),
            _ => None,
        }
    }
}

/// The student form holds usable values: non-empty texts, an age in
/// 16..=99, a grade point of at most 4.0.
pub open spec fn student_form_valid(inp: Seq<(InputField, Seq<char>)>) -> bool {
    &&& inp.len() >= 5
    &&& inp[0].1.len() > 0
    &&& inp[1].1.len() > 0
    &&& inp[3].1.len() > 0
    &&& is_digits(inp[2].1)
    &&& 16 <= digits_val(inp[2].1) <= 99
    &&& gpa_text_wf(inp[4].1)
    &&& gpa_in_range(inp[4].1)
}

/// The teacher form holds usable values: non-empty texts and an age in
/// 18..=99.
pub open spec fn teacher_form_valid(inp: Seq<(InputField, Seq<char>)>) -> bool {
    &&& inp.len() >= 5
    &&& inp[0].1.len() > 0
    &&& inp[1].1.len() > 0
    &&& inp[3].1.len() > 0
    &&& inp[4].1.len() > 0
    &&& is_digits(inp[2].1)
    &&& 18 <= digits_val(inp[2].1) <= 99
}

/// The faculty form holds usable values: non-empty texts, a year in
/// 1500..=2025 and a positive staff count.
pub open spec fn faculty_form_valid(inp: Seq<(InputField, Seq<char>)>) -> bool {
    &&& inp.len() >= 5
    &&& inp[0].1.len() > 0
    &&& inp[1].1.len() > 0
    &&& inp[2].1.len() > 0
    &&& is_digits(inp[3].1)
    &&& 1500 <= digits_val(inp[3].1) <= 2025
    &&& is_digits(inp[4].1)
    &&& 0 < digits_val(inp[4].1) <= u32::MAX
}

} // verus!
