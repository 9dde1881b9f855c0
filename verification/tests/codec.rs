use university_manager::codec::{
    encode_faculties, encode_students, encode_teachers, parse_faculties, parse_students,
    parse_teachers,
};
use university_manager::models::{Faculty, Student, Teacher};
use university_manager::store::DataManager;

fn student(id: &str, first: &str, last: &str, age: u32, major: &str, gpa: u32) -> Student {
    Student::with_id(
        id.to_string(),
        first.to_string(),
        last.to_string(),
        age,
        major.to_string(),
        gpa,
    )
}

#[test]
fn round_trip_empty_collection() {
    let text = encode_students(&Vec::new());
    assert_eq!(text, "[]");
    let back = parse_students(&text).expect("empty array must parse");
    assert!(back.is_empty());
}

#[test]
fn round_trip_one_record() {
    let v = vec![student("id-1", "Ada", "Lovelace", 28, "Mathematics", 390)];
    let text = encode_students(&v);
    let back = parse_students(&text).expect("encoded text must parse");
    assert_eq!(back, v);
}

#[test]
fn round_trip_many_records_keeps_order() {
    let v = vec![
        student("a", "A", "One", 20, "Physics", 0),
        student("b", "B", "Two", 21, "Biology", 400),
        student("c", "C", "Three", 22, "History", 123),
    ];
    let text = encode_students(&v);
    let back = parse_students(&text).expect("encoded text must parse");
    assert_eq!(back, v);
}

#[test]
fn round_trip_escapes_quotes_and_backslashes() {
    let v = vec![student("x", "An\"na", "Back\\slash", 30, "Art \"B\"", 250)];
    let text = encode_students(&v);
    let back = parse_students(&text).expect("escaped text must parse");
    assert_eq!(back, v);
}

#[test]
fn round_trip_teachers() {
    let v = vec![Teacher::with_id(
        "t1".to_string(),
        "Emmy".to_string(),
        "Noether".to_string(),
        45,
        "Mathematics".to_string(),
        "Professor".to_string(),
    )];
    let text = encode_teachers(&v);
    let back = parse_teachers(&text).expect("encoded text must parse");
    assert_eq!(back, v);
}

#[test]
fn round_trip_faculties() {
    let v = vec![Faculty::with_id(
        "f1".to_string(),
        "Science".to_string(),
        "Main Hall".to_string(),
        "Marie Curie".to_string(),
        1890,
        120,
    )];
    let text = encode_faculties(&v);
    let back = parse_faculties(&text).expect("encoded text must parse");
    assert_eq!(back, v);
}

#[test]
fn gpa_is_written_with_two_decimals() {
    let v = vec![student("x", "A", "B", 20, "Law", 390)];
    let text = encode_students(&v);
    assert!(text.contains("\"gpa\":3.90"));
}

#[test]
fn parser_accepts_pretty_printed_text() {
    let text = "[\n  {\n    \"id\": \"s1\",\n    \"first_name\": \"Ada\",\n    \"last_name\": \"Lovelace\",\n    \"age\": 28,\n    \"major\": \"Mathematics\",\n    \"gpa\": 3.9\n  }\n]\n";
    let back = parse_students(text).expect("pretty text must parse");
    assert_eq!(back.len(), 1);
    assert_eq!(back[0].id, "s1");
    assert_eq!(back[0].age, 28);
    assert_eq!(back[0].gpa_hundredths, 390);
}

#[test]
fn parser_undoes_common_escapes() {
    let text = "[{\"id\":\"s1\",\"first_name\":\"A\\\"B\",\"last_name\":\"C\\\\D\",\"age\":20,\"major\":\"E\\nF\",\"gpa\":1.00}]";
    let back = parse_students(text).expect("escapes must parse");
    assert_eq!(back[0].first_name, "A\"B");
    assert_eq!(back[0].last_name, "C\\D");
    assert_eq!(back[0].major, "E\nF");
}

#[test]
fn parser_rejects_malformed_text() {
    assert!(parse_students("").is_none());
    assert!(parse_students("{}").is_none());
    assert!(parse_students("[").is_none());
    assert!(parse_students("[{}]").is_none());
    assert!(parse_students("[] trailing").is_none());
    assert!(parse_students(
        "[{\"id\":\"a\",\"first_name\":\"A\",\"last_name\":\"B\",\"age\":x,\"major\":\"C\",\"gpa\":1.0}]",
    )
    .is_none());
}

#[test]
fn store_save_then_load_round_trips() {
    let mut dm = DataManager::new();
    dm.add_student(student("", "Ada", "Lovelace", 28, "Mathematics", 390));
    dm.add_student(student("", "Grace", "Hopper", 30, "Computer Science", 400));
    dm.add_teacher(Teacher::with_id(
        String::new(),
        "Emmy".to_string(),
        "Noether".to_string(),
        45,
        "Mathematics".to_string(),
        "Professor".to_string(),
    ));
    let s_text = dm.save_students();
    let t_text = dm.save_teachers();
    let f_text = dm.save_faculties();
    let dm2 = DataManager::load(Some(&s_text), Some(&t_text), Some(&f_text))
        .expect("saved text must load");
    assert_eq!(dm2.get_all_students(), dm.get_all_students());
    assert_eq!(dm2.get_all_teachers(), dm.get_all_teachers());
    assert_eq!(dm2.get_all_faculties(), dm.get_all_faculties());
}

#[test]
fn load_with_absent_files_yields_empty_collections() {
    let dm = DataManager::load(None, None, None).expect("absent files are fine");
    assert!(dm.get_all_students().is_empty());
    assert!(dm.get_all_teachers().is_empty());
    assert!(dm.get_all_faculties().is_empty());
}

#[test]
fn load_rejects_corrupt_file() {
    assert!(DataManager::load(Some("not json"), None, None).is_none());
}

#[test]
fn load_rejects_repeated_ids() {
    let v = vec![
        student("dup", "A", "One", 20, "Physics", 100),
        student("dup", "B", "Two", 21, "Biology", 200),
    ];
    let text = encode_students(&v);
    assert!(DataManager::load(Some(&text), None, None).is_none());
}
