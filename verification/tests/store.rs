use university_manager::models::{Faculty, Student, Teacher};
use university_manager::store::DataManager;

fn student(first: &str, last: &str, age: u32, major: &str, gpa_hundredths: u32) -> Student {
    Student::with_id(
        String::new(),
        first.to_string(),
        last.to_string(),
        age,
        major.to_string(),
        gpa_hundredths,
    )
}

#[test]
fn add_assigns_fresh_id_and_get_finds_it() {
    let mut dm = DataManager::new();
    let id = dm.add_student(student("Ada", "Lovelace", 28, "Mathematics", 390));
    assert!(!id.is_empty());
    let found = dm.get_student_by_id(&id).expect("added student must be found");
    assert_eq!(found.id, id);
    assert_eq!(found.first_name, "Ada");
    assert_eq!(found.last_name, "Lovelace");
    assert_eq!(found.age, 28);
    assert_eq!(found.major, "Mathematics");
    assert_eq!(found.gpa_hundredths, 390);
}

#[test]
fn add_preserves_insertion_order() {
    let mut dm = DataManager::new();
    dm.add_student(student("A", "One", 20, "Physics", 300));
    dm.add_student(student("B", "Two", 21, "Biology", 310));
    dm.add_student(student("C", "Three", 22, "History", 320));
    let all = dm.get_all_students();
    assert_eq!(all.len(), 3);
    assert_eq!(all[0].first_name, "A");
    assert_eq!(all[1].first_name, "B");
    assert_eq!(all[2].first_name, "C");
}

#[test]
fn ids_are_distinct() {
    let mut dm = DataManager::new();
    let a = dm.add_student(student("A", "One", 20, "Physics", 300));
    let b = dm.add_student(student("B", "Two", 21, "Biology", 310));
    assert_ne!(a, b);
}

#[test]
fn update_with_unknown_id_reports_not_found_and_changes_nothing() {
    let mut dm = DataManager::new();
    dm.add_student(student("A", "One", 20, "Physics", 300));
    let ghosted = Student::with_id(
        "no-such-id".to_string(),
        "X".to_string(),
        "Y".to_string(),
        30,
        "Law".to_string(),
        200,
    );
    assert!(!dm.update_student(ghosted));
    let all = dm.get_all_students();
    assert_eq!(all.len(), 1);
    assert_eq!(all[0].first_name, "A");
}

#[test]
fn update_with_known_id_replaces_fields_but_keeps_id() {
    let mut dm = DataManager::new();
    let id = dm.add_student(student("A", "One", 20, "Physics", 300));
    let payload = Student::with_id(
        id.clone(),
        "Alice".to_string(),
        "Ohm".to_string(),
        25,
        "Chemistry".to_string(),
        350,
    );
    assert!(dm.update_student(payload));
    let all = dm.get_all_students();
    assert_eq!(all.len(), 1);
    assert_eq!(all[0].id, id);
    assert_eq!(all[0].first_name, "Alice");
    assert_eq!(all[0].last_name, "Ohm");
    assert_eq!(all[0].age, 25);
    assert_eq!(all[0].major, "Chemistry");
    assert_eq!(all[0].gpa_hundredths, 350);
}

#[test]
fn delete_with_unknown_id_reports_not_found_and_keeps_length() {
    let mut dm = DataManager::new();
    dm.add_student(student("A", "One", 20, "Physics", 300));
    assert!(!dm.delete_student("no-such-id"));
    assert_eq!(dm.get_all_students().len(), 1);
}

#[test]
fn delete_with_known_id_removes_exactly_one() {
    let mut dm = DataManager::new();
    let a = dm.add_student(student("A", "One", 20, "Physics", 300));
    dm.add_student(student("B", "Two", 21, "Biology", 310));
    assert!(dm.delete_student(&a));
    assert_eq!(dm.get_all_students().len(), 1);
    assert!(dm.get_student_by_id(&a).is_none());
    assert_eq!(dm.get_all_students()[0].first_name, "B");
}

#[test]
fn search_is_case_insensitive_and_matches_substrings() {
    let mut dm = DataManager::new();
    dm.add_student(student("Grace", "Hopper", 30, "Computer Science", 400));
    dm.add_student(student("Carl", "Gauss", 40, "Mathematics", 390));
    let hits = dm.search_students("comp");
    assert_eq!(hits.len(), 1);
    assert_eq!(hits[0].first_name, "Grace");
    let hits = dm.search_students("COMP");
    assert_eq!(hits.len(), 1);
    let hits = dm.search_students("gAuSs");
    assert_eq!(hits.len(), 1);
    assert_eq!(hits[0].first_name, "Carl");
    let hits = dm.search_students("quantum");
    assert_eq!(hits.len(), 0);
}

#[test]
fn search_keeps_original_order() {
    let mut dm = DataManager::new();
    dm.add_student(student("A", "One", 20, "Physics", 300));
    dm.add_student(student("B", "Two", 21, "Astrophysics", 310));
    dm.add_student(student("C", "Three", 22, "Physics", 320));
    let hits = dm.search_students("physics");
    assert_eq!(hits.len(), 3);
    assert_eq!(hits[0].first_name, "A");
    assert_eq!(hits[1].first_name, "B");
    assert_eq!(hits[2].first_name, "C");
}

#[test]
fn teacher_crud_mirrors_student_crud() {
    let mut dm = DataManager::new();
    let id = dm.add_teacher(Teacher::with_id(
        String::new(),
        "Emmy".to_string(),
        "Noether".to_string(),
        45,
        "Mathematics".to_string(),
        "Professor".to_string(),
    ));
    assert!(dm.get_teacher_by_id(&id).is_some());
    assert_eq!(dm.search_teachers("professor").len(), 1);
    assert!(dm.delete_teacher(&id));
    assert!(dm.get_teacher_by_id(&id).is_none());
}

#[test]
fn faculty_crud_mirrors_student_crud() {
    let mut dm = DataManager::new();
    let id = dm.add_faculty(Faculty::with_id(
        String::new(),
        "Science".to_string(),
        "Main Hall".to_string(),
        "Marie Curie".to_string(),
        1890,
        120,
    ));
    assert!(dm.get_faculty_by_id(&id).is_some());
    assert_eq!(dm.search_faculties("curie").len(), 1);
    assert_eq!(dm.search_faculties("main").len(), 1);
    assert!(dm.delete_faculty(&id));
    assert!(!dm.delete_faculty(&id));
}
