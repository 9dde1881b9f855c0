use university_manager::modal::ModalType;
use university_manager::models::Student;
use university_manager::router::{App, AppMode, Key};
use university_manager::store::DataManager;
use university_manager::ui::ActiveTab;

fn fresh_app() -> App {
    App::new(DataManager::new())
}

fn type_keys(app: &mut App, text: &str) {
    for c in text.chars() {
        app.handle_key_event(Key::Char(c));
    }
}

#[test]
fn add_student_scenario_via_dropdown() {
    let mut app = fresh_app();
    app.handle_key_event(Key::Char('a'));
    assert!(matches!(app.mode, AppMode::Modal(_)));
    type_keys(&mut app, "Ada");
    app.handle_key_event(Key::Tab);
    type_keys(&mut app, "Lovelace");
    app.handle_key_event(Key::Tab);
    type_keys(&mut app, "28");
    app.handle_key_event(Key::Tab);
    // The major field: space opens the dropdown, down moves to the
    // second entry, enter copies it into the field.
    app.handle_key_event(Key::Char(' '));
    app.handle_key_event(Key::Down);
    app.handle_key_event(Key::Enter);
    if let AppMode::Modal(m) = &app.mode {
        assert_eq!(m.inputs[3].1, "Mathematics");
        assert!(!m.major_dropdown.is_open);
    } else {
        panic!("the form must stay open after a dropdown choice");
    }
    app.handle_key_event(Key::Tab);
    type_keys(&mut app, "3.9");
    let saved = app.handle_key_event(Key::Enter);
    assert_eq!(saved, Some(ActiveTab::Students));
    assert!(matches!(app.mode, AppMode::Normal));
    let all = app.data_manager.get_all_students();
    assert_eq!(all.len(), 1);
    let s = &all[0];
    assert_eq!(s.first_name, "Ada");
    assert_eq!(s.last_name, "Lovelace");
    assert_eq!(s.age, 28);
    assert_eq!(s.major, "Mathematics");
    assert_eq!(s.gpa_hundredths, 390);
    assert_eq!(s.id.len(), 36);
    let note = app.state.notification.as_ref().expect("a notice must show");
    assert!(note.contains("Ada Lovelace"));
}

#[test]
fn cancelling_a_modal_changes_nothing() {
    let mut app = fresh_app();
    app.handle_key_event(Key::Char('a'));
    type_keys(&mut app, "Ada");
    let saved = app.handle_key_event(Key::Esc);
    assert_eq!(saved, None);
    assert!(matches!(app.mode, AppMode::Normal));
    assert!(app.data_manager.get_all_students().is_empty());
}

#[test]
fn escape_closes_only_an_open_dropdown() {
    let mut app = fresh_app();
    app.handle_key_event(Key::Char('a'));
    type_keys(&mut app, "Ada");
    for _ in 0..3 {
        app.handle_key_event(Key::Tab);
    }
    app.handle_key_event(Key::Char(' '));
    if let AppMode::Modal(m) = &app.mode {
        assert!(m.major_dropdown.is_open);
    } else {
        panic!("form must be open");
    }
    app.handle_key_event(Key::Esc);
    if let AppMode::Modal(m) = &app.mode {
        assert!(!m.major_dropdown.is_open);
        assert_eq!(m.inputs[0].1, "Ada");
    } else {
        panic!("closing the dropdown must not close the form");
    }
    app.handle_key_event(Key::Esc);
    assert!(matches!(app.mode, AppMode::Normal));
}

#[test]
fn invalid_form_stays_open_with_a_notice() {
    let mut app = fresh_app();
    app.handle_key_event(Key::Char('a'));
    let saved = app.handle_key_event(Key::Enter);
    assert_eq!(saved, None);
    assert!(matches!(app.mode, AppMode::Modal(_)));
    assert_eq!(
        app.state.notification.as_deref(),
        Some("Invalid student data")
    );
    assert!(app.data_manager.get_all_students().is_empty());
}

#[test]
fn search_reports_the_match_count() {
    let mut app = fresh_app();
    app.data_manager.add_student(Student::with_id(
        String::new(),
        "Grace".to_string(),
        "Hopper".to_string(),
        30,
        "Computer Science".to_string(),
        400,
    ));
    app.handle_key_event(Key::Char('f'));
    assert!(matches!(app.mode, AppMode::Search));
    type_keys(&mut app, "comp");
    assert_eq!(app.state.search_query, "comp");
    app.handle_key_event(Key::Backspace);
    assert_eq!(app.state.search_query, "com");
    app.handle_key_event(Key::Enter);
    assert!(matches!(app.mode, AppMode::Normal));
    assert_eq!(
        app.state.notification.as_deref(),
        Some("Found 1 matching students")
    );
}

#[test]
fn tab_keys_switch_and_refresh_the_cursor() {
    let mut app = fresh_app();
    app.handle_key_event(Key::Char('2'));
    assert_eq!(app.state.active_tab, ActiveTab::Teachers);
    // The teacher tab shows nothing, so its cursor clears.
    assert_eq!(app.state.teacher_selected, None);
    app.handle_key_event(Key::Tab);
    assert_eq!(app.state.active_tab, ActiveTab::Faculties);
    app.handle_key_event(Key::Tab);
    assert_eq!(app.state.active_tab, ActiveTab::Students);
}

#[test]
fn selection_moves_and_stops_at_the_top() {
    let mut app = fresh_app();
    app.handle_key_event(Key::Down);
    app.handle_key_event(Key::Down);
    assert_eq!(app.state.student_selected, Some(2));
    app.handle_key_event(Key::Up);
    app.handle_key_event(Key::Up);
    app.handle_key_event(Key::Up);
    assert_eq!(app.state.student_selected, Some(0));
}

#[test]
fn quit_key_sets_the_flag() {
    let mut app = fresh_app();
    app.handle_key_event(Key::Char('q'));
    assert!(app.should_quit);
}

#[test]
fn delete_confirmation_removes_the_selected_record() {
    let mut app = fresh_app();
    let id = app.data_manager.add_student(Student::with_id(
        String::new(),
        "Ada".to_string(),
        "Lovelace".to_string(),
        28,
        "Mathematics".to_string(),
        390,
    ));
    app.refresh_data();
    app.handle_key_event(Key::Char('d'));
    assert!(matches!(
        app.mode,
        AppMode::Modal(ref m) if matches!(m.modal_type, ModalType::DeleteConfirmation(_, _))
    ));
    let saved = app.handle_key_event(Key::Enter);
    assert_eq!(saved, Some(ActiveTab::Students));
    assert!(app.data_manager.get_all_students().is_empty());
    assert!(app.data_manager.get_student_by_id(&id).is_none());
    assert_eq!(app.state.notification.as_deref(), Some("Deleted: Ada Lovelace"));
}

#[test]
fn edit_commit_updates_in_place() {
    let mut app = fresh_app();
    app.data_manager.add_student(Student::with_id(
        String::new(),
        "Ada".to_string(),
        "Lovelace".to_string(),
        28,
        "Mathematics".to_string(),
        390,
    ));
    app.refresh_data();
    app.handle_key_event(Key::Char('e'));
    // Clear the age and retype it.
    app.handle_key_event(Key::Tab);
    app.handle_key_event(Key::Tab);
    app.handle_key_event(Key::Backspace);
    app.handle_key_event(Key::Backspace);
    type_keys(&mut app, "29");
    let saved = app.handle_key_event(Key::Enter);
    assert_eq!(saved, Some(ActiveTab::Students));
    let all = app.data_manager.get_all_students();
    assert_eq!(all.len(), 1);
    assert_eq!(all[0].age, 29);
    assert_eq!(app.state.notification.as_deref(), Some("Updated student: Ada Lovelace"));
}

#[test]
fn edit_with_nothing_selected_only_notifies() {
    let mut app = fresh_app();
    app.state.student_selected = None;
    app.handle_key_event(Key::Char('e'));
    assert!(matches!(app.mode, AppMode::Normal));
    assert_eq!(app.state.notification.as_deref(), Some("No student selected"));
}

#[test]
fn notification_counts_down_and_clears() {
    let mut app = fresh_app();
    app.state.show_notification("hello".to_string());
    assert_eq!(app.state.notification_timer, 30);
    for _ in 0..29 {
        app.state.update_notification_timer();
    }
    assert!(app.state.notification.is_some());
    app.state.update_notification_timer();
    assert!(app.state.notification.is_none());
    assert_eq!(app.state.notification_timer, 0);
}

#[test]
fn mouse_press_selects_a_table_row() {
    let mut app = fresh_app();
    for _ in 0..3 {
        app.data_manager.add_student(Student::with_id(
            String::new(),
            "A".to_string(),
            "B".to_string(),
            20,
            "Law".to_string(),
            100,
        ));
    }
    let saved = app.handle_mouse_event(10, 10, 80, 24);
    assert_eq!(saved, None);
    assert_eq!(app.state.student_selected, Some(1));
}

#[test]
fn mouse_press_on_a_tab_switches() {
    let mut app = fresh_app();
    let saved = app.handle_mouse_event(79, 0, 80, 24);
    assert_eq!(saved, None);
    assert_eq!(app.state.active_tab, ActiveTab::Faculties);
}

#[test]
fn mouse_press_outside_an_open_modal_does_nothing() {
    let mut app = fresh_app();
    app.handle_key_event(Key::Char('a'));
    let saved = app.handle_mouse_event(0, 23, 80, 24);
    assert_eq!(saved, None);
    assert!(matches!(app.mode, AppMode::Modal(_)));
}

#[test]
fn mouse_press_picks_a_dropdown_option() {
    let mut app = fresh_app();
    app.handle_key_event(Key::Char('a'));
    for _ in 0..3 {
        app.handle_key_event(Key::Tab);
    }
    app.handle_key_event(Key::Char(' '));
    // On a 100 by 40 screen the first dropdown row sits at (30, 22).
    let saved = app.handle_mouse_event(30, 22, 100, 40);
    assert_eq!(saved, None);
    if let AppMode::Modal(m) = &app.mode {
        assert_eq!(m.inputs[3].1, "Computer Science");
        assert!(!m.major_dropdown.is_open);
    } else {
        panic!("the form must stay open");
    }
}
