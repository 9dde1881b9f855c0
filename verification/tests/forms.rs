use university_manager::modal::{InputField, Modal, ModalType};
use university_manager::models::{Student, Teacher};
use university_manager::widgets::{majors, DropdownState};

fn type_text(m: &mut Modal, text: &str) {
    for c in text.chars() {
        m.input(c);
    }
}

fn fill_student(first: &str, last: &str, age: &str, major: &str, gpa: &str) -> Modal {
    let mut m = Modal::new(ModalType::AddStudent);
    type_text(&mut m, first);
    m.next_field();
    type_text(&mut m, last);
    m.next_field();
    type_text(&mut m, age);
    m.next_field();
    type_text(&mut m, major);
    m.next_field();
    type_text(&mut m, gpa);
    m
}

#[test]
fn create_student_accepts_valid_fields() {
    let m = fill_student("Ada", "Lovelace", "28", "Mathematics", "3.9");
    let s = m.create_student().expect("valid form must build a record");
    assert_eq!(s.first_name, "Ada");
    assert_eq!(s.last_name, "Lovelace");
    assert_eq!(s.age, 28);
    assert_eq!(s.major, "Mathematics");
    assert_eq!(s.gpa_hundredths, 390);
    assert_eq!(s.id, "");
}

#[test]
fn create_student_rejects_empty_fields() {
    assert!(fill_student("", "Lovelace", "28", "Mathematics", "3.9").create_student().is_none());
    assert!(fill_student("Ada", "", "28", "Mathematics", "3.9").create_student().is_none());
    assert!(fill_student("Ada", "Lovelace", "", "Mathematics", "3.9").create_student().is_none());
    assert!(fill_student("Ada", "Lovelace", "28", "", "3.9").create_student().is_none());
    assert!(fill_student("Ada", "Lovelace", "28", "Mathematics", "").create_student().is_none());
}

#[test]
fn create_student_enforces_age_bounds() {
    assert!(fill_student("A", "B", "15", "Law", "3.0").create_student().is_none());
    assert!(fill_student("A", "B", "16", "Law", "3.0").create_student().is_some());
    assert!(fill_student("A", "B", "99", "Law", "3.0").create_student().is_some());
    assert!(fill_student("A", "B", "100", "Law", "3.0").create_student().is_none());
}

#[test]
fn create_student_enforces_gpa_bounds() {
    assert_eq!(
        fill_student("A", "B", "20", "Law", "4.0").create_student().unwrap().gpa_hundredths,
        400
    );
    assert_eq!(
        fill_student("A", "B", "20", "Law", "0").create_student().unwrap().gpa_hundredths,
        0
    );
    assert_eq!(
        fill_student("A", "B", "20", "Law", "3.999").create_student().unwrap().gpa_hundredths,
        399
    );
    assert!(fill_student("A", "B", "20", "Law", "4.01").create_student().is_none());
    assert!(fill_student("A", "B", "20", "Law", "5").create_student().is_none());
    assert_eq!(
        fill_student("A", "B", "20", "Law", ".5").create_student().unwrap().gpa_hundredths,
        50
    );
}

#[test]
fn numeric_fields_reject_letters() {
    let mut m = Modal::new(ModalType::AddStudent);
    m.next_field();
    m.next_field();
    type_text(&mut m, "2x8");
    assert_eq!(m.inputs[2].1, "28");
}

#[test]
fn gpa_field_accepts_one_point_only() {
    let mut m = Modal::new(ModalType::AddStudent);
    for _ in 0..4 {
        m.next_field();
    }
    type_text(&mut m, "3..9.5");
    assert_eq!(m.inputs[4].1, "3.95");
}

#[test]
fn backspace_removes_last_character() {
    let mut m = Modal::new(ModalType::AddStudent);
    type_text(&mut m, "Ada");
    m.backspace();
    assert_eq!(m.inputs[0].1, "Ad");
    m.backspace();
    m.backspace();
    assert_eq!(m.inputs[0].1, "");
    m.backspace();
    assert_eq!(m.inputs[0].1, "");
}

#[test]
fn field_navigation_is_cyclic() {
    let mut m = Modal::new(ModalType::AddStudent);
    assert_eq!(m.active_field, 0);
    m.prev_field();
    assert_eq!(m.active_field, 4);
    m.next_field();
    assert_eq!(m.active_field, 0);
    for _ in 0..5 {
        m.next_field();
    }
    assert_eq!(m.active_field, 0);
}

#[test]
fn fieldless_modal_ignores_navigation_and_input() {
    let mut m = Modal::new(ModalType::Message("hello".to_string()));
    m.next_field();
    m.prev_field();
    m.input('x');
    m.backspace();
    assert_eq!(m.active_field, 0);
    assert!(m.inputs.is_empty());
}

#[test]
fn edit_modal_is_prefilled_from_the_record() {
    let s = Student::with_id(
        "id-9".to_string(),
        "Ada".to_string(),
        "Lovelace".to_string(),
        28,
        "Mathematics".to_string(),
        390,
    );
    let m = Modal::new(ModalType::EditStudent(s));
    assert_eq!(m.inputs[0].1, "Ada");
    assert_eq!(m.inputs[1].1, "Lovelace");
    assert_eq!(m.inputs[2].1, "28");
    assert_eq!(m.inputs[3].1, "Mathematics");
    assert_eq!(m.inputs[4].1, "3.90");
    assert_eq!(m.inputs[2].0, InputField::Age);
}

#[test]
fn edit_commit_carries_the_original_id() {
    let s = Student::with_id(
        "id-9".to_string(),
        "Ada".to_string(),
        "Lovelace".to_string(),
        28,
        "Mathematics".to_string(),
        390,
    );
    let m = Modal::new(ModalType::EditStudent(s));
    let rebuilt = m.create_student().expect("prefilled form is valid");
    assert_eq!(rebuilt.id, "id-9");
    assert_eq!(rebuilt.age, 28);
    assert_eq!(rebuilt.gpa_hundredths, 390);
}

#[test]
fn create_teacher_enforces_age_bounds() {
    let mut m = Modal::new(ModalType::AddTeacher);
    type_text(&mut m, "Emmy");
    m.next_field();
    type_text(&mut m, "Noether");
    m.next_field();
    type_text(&mut m, "17");
    m.next_field();
    type_text(&mut m, "Mathematics");
    m.next_field();
    type_text(&mut m, "Professor");
    assert!(m.create_teacher().is_none());
    let t = Teacher::with_id(
        "t".to_string(),
        "Emmy".to_string(),
        "Noether".to_string(),
        18,
        "Mathematics".to_string(),
        "Professor".to_string(),
    );
    let m2 = Modal::new(ModalType::EditTeacher(t));
    assert!(m2.create_teacher().is_some());
}

#[test]
fn create_faculty_enforces_year_and_staff_bounds() {
    let mut m = Modal::new(ModalType::AddFaculty);
    type_text(&mut m, "Science");
    m.next_field();
    type_text(&mut m, "Main Hall");
    m.next_field();
    type_text(&mut m, "Marie Curie");
    m.next_field();
    type_text(&mut m, "1499");
    m.next_field();
    type_text(&mut m, "10");
    assert!(m.create_faculty().is_none());

    let mut ok = Modal::new(ModalType::AddFaculty);
    type_text(&mut ok, "Science");
    ok.next_field();
    type_text(&mut ok, "Main Hall");
    ok.next_field();
    type_text(&mut ok, "Marie Curie");
    ok.next_field();
    type_text(&mut ok, "1890");
    ok.next_field();
    type_text(&mut ok, "0");
    assert!(ok.create_faculty().is_none());
    ok.backspace();
    type_text(&mut ok, "120");
    let f = ok.create_faculty().expect("valid faculty form");
    assert_eq!(f.established_year, 1890);
    assert_eq!(f.num_staff, 120);
}

#[test]
fn get_delete_id_only_on_delete_confirmations() {
    let m = Modal::new(ModalType::DeleteConfirmation("id-3".to_string(), "Ada".to_string()));
    assert_eq!(m.get_delete_id(), Some("id-3".to_string()));
    assert!(Modal::new(ModalType::AddStudent).get_delete_id().is_none());
}

#[test]
fn dropdown_starts_closed_on_first_major() {
    let d = DropdownState::new(majors());
    assert!(!d.is_open);
    assert_eq!(d.selected, Some(0));
    assert_eq!(d.selected_item(), Some("Computer Science".to_string()));
}

#[test]
fn dropdown_navigation_wraps_both_ways() {
    let mut d = DropdownState::new(majors());
    d.select_prev();
    assert_eq!(d.selected, Some(17));
    assert_eq!(d.selected_item(), Some("Law".to_string()));
    d.select_next();
    assert_eq!(d.selected, Some(0));
    d.select_next();
    assert_eq!(d.selected_item(), Some("Mathematics".to_string()));
}

#[test]
fn dropdown_select_by_value_finds_a_match_or_rests_on_first() {
    let mut d = DropdownState::new(majors());
    d.select_by_value("Law");
    assert_eq!(d.selected, Some(17));
    d.select_by_value("Alchemy");
    assert_eq!(d.selected, Some(0));
}

#[test]
fn dropdown_set_options_resets_the_cursor() {
    let mut d = DropdownState::new(majors());
    d.select_next();
    d.set_options(vec!["x".to_string()]);
    assert_eq!(d.selected, Some(0));
    d.set_options(Vec::new());
    assert_eq!(d.selected, None);
    d.select_next();
    assert_eq!(d.selected, None);
}

#[test]
fn major_list_is_the_fixed_eighteen() {
    let m = majors();
    assert_eq!(m.len(), 18);
    assert_eq!(m[0], "Computer Science");
    assert_eq!(m[13], "Political Science");
    assert_eq!(m[17], "Law");
}
