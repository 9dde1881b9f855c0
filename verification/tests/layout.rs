use university_manager::layout::{
    centered_rect, dropdown_rect, form_chunk, get_element_at_position,
    get_modal_element_at_position, is_dropdown_item_clicked, is_position_in_rect, Rect,
};
use university_manager::modal::{Modal, ModalType};
use university_manager::ui::{ActionButton, ActiveTab, ModalButton, UiElement};
use university_manager::widgets::{majors, DropdownState};

const SCREEN: (u16, u16) = (80, 24);

#[test]
fn hit_testing_is_deterministic() {
    for y in 0..24u16 {
        let a = get_element_at_position((40, y), ActiveTab::Students, 5, 2, 1, SCREEN);
        let b = get_element_at_position((40, y), ActiveTab::Students, 5, 2, 1, SCREEN);
        assert_eq!(a, b);
    }
}

#[test]
fn top_rows_hit_the_tab_strip_in_thirds() {
    assert_eq!(
        get_element_at_position((0, 0), ActiveTab::Students, 0, 0, 0, SCREEN),
        UiElement::Tab(ActiveTab::Students)
    );
    assert_eq!(
        get_element_at_position((30, 2), ActiveTab::Students, 0, 0, 0, SCREEN),
        UiElement::Tab(ActiveTab::Teachers)
    );
    assert_eq!(
        get_element_at_position((79, 1), ActiveTab::Students, 0, 0, 0, SCREEN),
        UiElement::Tab(ActiveTab::Faculties)
    );
}

#[test]
fn table_rows_hit_only_below_the_collection_length() {
    // With a 24-line screen the action bar row is 20, data rows start at 9.
    let e = get_element_at_position((10, 9), ActiveTab::Students, 3, 0, 0, SCREEN);
    assert_eq!(e, UiElement::TableRow(0));
    let e = get_element_at_position((10, 11), ActiveTab::Students, 3, 0, 0, SCREEN);
    assert_eq!(e, UiElement::TableRow(2));
    let e = get_element_at_position((10, 12), ActiveTab::Students, 3, 0, 0, SCREEN);
    assert_eq!(e, UiElement::Nothing);
    let e = get_element_at_position((10, 9), ActiveTab::Students, 0, 5, 5, SCREEN);
    assert_eq!(e, UiElement::Nothing);
    // The teacher count decides while the teacher tab shows.
    let e = get_element_at_position((10, 9), ActiveTab::Teachers, 0, 5, 5, SCREEN);
    assert_eq!(e, UiElement::TableRow(0));
}

#[test]
fn action_bar_hits_its_five_buttons() {
    // Width 80: inner width 78, fifteen-percent bands of 11 from x = 1.
    let bar = 20u16;
    let hits = [
        (2u16, ActionButton::Add),
        (12, ActionButton::Edit),
        (23, ActionButton::Delete),
        (34, ActionButton::Search),
        (60, ActionButton::Refresh),
    ];
    for (x, want) in hits {
        assert_eq!(
            get_element_at_position((x, bar), ActiveTab::Students, 0, 0, 0, SCREEN),
            UiElement::ActionButton(want)
        );
    }
}

#[test]
fn rect_membership_is_half_open() {
    let r = Rect { x: 2, y: 3, width: 4, height: 2 };
    assert!(is_position_in_rect((2, 3), r));
    assert!(is_position_in_rect((5, 4), r));
    assert!(!is_position_in_rect((6, 3), r));
    assert!(!is_position_in_rect((2, 5), r));
    assert!(!is_position_in_rect((1, 3), r));
}

#[test]
fn form_modal_buttons_hit_on_a_tall_screen() {
    let area = Rect { x: 0, y: 0, width: 100, height: 40 };
    let modal = Modal::new(ModalType::AddStudent);
    // The centered form modal is 60 by 24 at (20, 8); its button row is
    // the sixth three-cell row, split in save and cancel halves.
    assert_eq!(
        get_modal_element_at_position((24, 27), &modal, area),
        Some(ModalButton::Confirm)
    );
    assert_eq!(
        get_modal_element_at_position((60, 27), &modal, area),
        Some(ModalButton::Cancel)
    );
    assert_eq!(get_modal_element_at_position((24, 12), &modal, area), None);
    assert_eq!(get_modal_element_at_position((0, 0), &modal, area), None);
}

#[test]
fn delete_modal_buttons_hit() {
    let area = Rect { x: 0, y: 0, width: 80, height: 24 };
    let modal = Modal::new(ModalType::DeleteConfirmation("id".to_string(), "Ada".to_string()));
    // The delete modal is 64 by 12 at (8, 6); its buttons sit on row 11.
    assert_eq!(
        get_modal_element_at_position((23, 11), &modal, area),
        Some(ModalButton::Confirm)
    );
    assert_eq!(
        get_modal_element_at_position((41, 11), &modal, area),
        Some(ModalButton::Cancel)
    );
    assert_eq!(get_modal_element_at_position((0, 0), &modal, area), None);
    assert_eq!(get_modal_element_at_position((9, 7), &modal, area), None);
}

#[test]
fn message_modal_closes_on_any_inside_press() {
    let area = Rect { x: 0, y: 0, width: 80, height: 24 };
    let modal = Modal::new(ModalType::Message("hello".to_string()));
    // The message modal is the centered 60 percent box: 48 by 14 at (16, 5).
    assert_eq!(
        get_modal_element_at_position((20, 8), &modal, area),
        Some(ModalButton::Cancel)
    );
    assert_eq!(get_modal_element_at_position((1, 1), &modal, area), None);
}

#[test]
fn dropdown_click_picks_the_row_under_the_border() {
    let area = Rect { x: 0, y: 0, width: 100, height: 40 };
    let mut dd = DropdownState::new(majors());
    dd.is_open = true;
    // The major field is the fourth row of the form modal at (23, 20);
    // the dropdown hangs from row 21 with its border on top.
    assert_eq!(
        is_dropdown_item_clicked((30, 22), &dd, area),
        Some("Computer Science".to_string())
    );
    assert_eq!(
        is_dropdown_item_clicked((30, 23), &dd, area),
        Some("Mathematics".to_string())
    );
    assert_eq!(is_dropdown_item_clicked((30, 21), &dd, area), None);
    assert_eq!(is_dropdown_item_clicked((30, 5), &dd, area), None);
    dd.is_open = false;
    assert_eq!(is_dropdown_item_clicked((30, 22), &dd, area), None);
}

#[test]
fn geometry_helpers_agree_with_their_stated_formulas() {
    let area = Rect { x: 0, y: 0, width: 100, height: 40 };
    let m = centered_rect(60, 60, area);
    assert_eq!(m, Rect { x: 20, y: 8, width: 60, height: 24 });
    let field = form_chunk(m, 3);
    assert_eq!(field, Rect { x: 23, y: 20, width: 54, height: 3 });
    let dd = dropdown_rect(field, 18);
    assert_eq!(dd, Rect { x: 23, y: 21, width: 54, height: 12 });
}
