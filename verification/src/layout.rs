//! Screen geometry and hit testing. Every rectangle a pointer press is
//! judged against is computed here by a pure function, and the renderer
//! is expected to paint at exactly these rectangles: sharing one
//! formula per region is what keeps clicks and pixels aligned.

use vstd::prelude::*;

use crate::modal::{Modal, ModalTypeView, ModalView};
use crate::ui::{ActionButton, ActiveTab, ModalButton, UiElement};
use crate::widgets::{DropdownState, DropdownStateView};

verus! {

/// A rectangle of character cells.
#[derive(Clone, Copy, Debug, PartialEq, Eq, Structural)]
pub struct Rect {
    pub x: u16,
    pub y: u16,
    pub width: u16,
    pub height: u16,
}

/// The rectangle lies within the cell grid's coordinate range.
pub open spec fn rect_wf(r: Rect) -> bool {
    r.x + r.width <= 65535 && r.y + r.height <= 65535
}

/// `(px, py)` lies inside `r`.
pub open spec fn spec_in_rect(px: int, py: int, r: Rect) -> bool {
    r.x <= px < r.x + r.width && r.y <= py < r.y + r.height
}

pub fn is_position_in_rect(position: (u16, u16), rect: Rect) -> (r: bool)
    ensures
        r == spec_in_rect(position.0 as int, position.1 as int, rect),
{
    let xi = position.0 as u32;
    let yi = position.1 as u32;
    xi >= rect.x as u32 && xi < rect.x as u32 + rect.width as u32 && yi >= rect.y as u32 && yi
        < rect.y as u32 + rect.height as u32
}

/// A rectangle of the given percentage size, centered in `r`.
pub open spec fn spec_centered_rect(pct_x: u16, pct_y: u16, r: Rect) -> Rect {
    let w = r.width * pct_x / 100;
    let h = r.height * pct_y / 100;
    Rect {
        x: (r.x + (r.width - w) / 2) as u16,
        y: (r.y + (r.height - h) / 2) as u16,
        width: w as u16,
        height: h as u16,
    }
}

pub fn centered_rect(pct_x: u16, pct_y: u16, r: Rect) -> (res: Rect)
    requires
        pct_x <= 100,
        pct_y <= 100,
        rect_wf(r),
    ensures
        res == spec_centered_rect(pct_x, pct_y, r),
        rect_wf(res),
{
    proof {
        assert(r.width as int * pct_x as int <= r.width as int * 100) by (nonlinear_arith)
            requires
                pct_x <= 100,
        ;
        assert(r.height as int * pct_y as int <= r.height as int * 100) by (nonlinear_arith)
            requires
                pct_y <= 100,
        ;
    }
    let w = (r.width as u32 * pct_x as u32 / 100) as u16;
    let h = (r.height as u32 * pct_y as u32 / 100) as u16;
    Rect { x: r.x + (r.width - w) / 2, y: r.y + (r.height - h) / 2, width: w, height: h }
}

/// A rectangle centered in `r` whose sides are the given percentages of
/// `r` but never below the same numbers taken as absolute cells, capped
/// four cells inside `r`. The delete-confirmation modal is placed with
/// this.
pub open spec fn spec_centered_rect_with_min_size(pct_x: u16, pct_y: u16, r: Rect) -> Rect {
    let w1 = if pct_x >= r.width * pct_x / 100 {
        pct_x as int
    } else {
        r.width * pct_x / 100
    };
    let h1 = if pct_y >= r.height * pct_y / 100 {
        pct_y as int
    } else {
        r.height * pct_y / 100
    };
    let wcap = if r.width >= 4 {
        r.width - 4
    } else {
        0
    };
    let hcap = if r.height >= 4 {
        r.height - 4
    } else {
        0
    };
    let w = if w1 <= wcap {
        w1
    } else {
        wcap
    };
    let h = if h1 <= hcap {
        h1
    } else {
        hcap
    };
    Rect {
        x: (r.x + (r.width - w) / 2) as u16,
        y: (r.y + (r.height - h) / 2) as u16,
        width: w as u16,
        height: h as u16,
    }
}

pub fn centered_rect_with_min_size(pct_x: u16, pct_y: u16, r: Rect) -> (res: Rect)
    requires
        rect_wf(r),
    ensures
        res == spec_centered_rect_with_min_size(pct_x, pct_y, r),
        rect_wf(res),
{
    proof {
        assert(r.width as int * pct_x as int <= 65535 * 65535) by (nonlinear_arith)
            requires
                r.width <= 65535,
                pct_x <= 65535,
        ;
        assert(r.height as int * pct_y as int <= 65535 * 65535) by (nonlinear_arith)
            requires
                r.height <= 65535,
                pct_y <= 65535,
        ;
    }
    let scaled_w = (r.width as u32 * pct_x as u32 / 100) as u32;
    let w1: u32 = if pct_x as u32 >= scaled_w {
        pct_x as u32
    } else {
        scaled_w
    };
    let scaled_h = (r.height as u32 * pct_y as u32 / 100) as u32;
    let h1: u32 = if pct_y as u32 >= scaled_h {
        pct_y as u32
    } else {
        scaled_h
    };
    let wcap: u32 = if r.width >= 4 {
        r.width as u32 - 4
    } else {
        0
    };
    let hcap: u32 = if r.height >= 4 {
        r.height as u32 - 4
    } else {
        0
    };
    let w: u32 = if w1 <= wcap {
        w1
    } else {
        wcap
    };
    let h: u32 = if h1 <= hcap {
        h1
    } else {
        hcap
    };
    Rect {
        x: r.x + (r.width - w as u16) / 2,
        y: r.y + (r.height - h as u16) / 2,
        width: w as u16,
        height: h as u16,
    }
}

/// Row `i` of the six stacked three-cell rows inside a form modal (five
/// fields, then the button row): one cell of border margin and two more
/// of padding on every side. A row that does not fit in `area` is
/// empty.
pub open spec fn spec_form_chunk(area: Rect, i: int) -> Rect {
    if area.width >= 6 && area.height >= 6 + 3 * (i + 1) {
        Rect {
            x: (area.x + 3) as u16,
            y: (area.y + 3 + 3 * i) as u16,
            width: (area.width - 6) as u16,
            height: 3u16,
        }
    } else {
        Rect { x: area.x, y: area.y, width: 0u16, height: 0u16 }
    }
}

pub fn form_chunk(area: Rect, i: usize) -> (r: Rect)
    requires
        i < 6,
        rect_wf(area),
    ensures
        r == spec_form_chunk(area, i as int),
        rect_wf(r),
{
    if area.width >= 6 && area.height as u32 >= 6 + 3 * (i as u32 + 1) {
        Rect { x: area.x + 3, y: area.y + 3 + 3 * (i as u16), width: area.width - 6, height: 3 }
    } else {
        Rect { x: area.x, y: area.y, width: 0, height: 0 }
    }
}

/// The save and cancel halves of a form modal's button row.
pub open spec fn spec_form_buttons(area: Rect) -> (Rect, Rect) {
    let row = spec_form_chunk(area, 5);
    let lw = row.width / 2;
    (
        Rect { x: row.x, y: row.y, width: lw as u16, height: row.height },
        Rect {
            x: (row.x + lw) as u16,
            y: row.y,
            width: (row.width - lw) as u16,
            height: row.height,
        },
    )
}

pub fn form_buttons(area: Rect) -> (r: (Rect, Rect))
    requires
        rect_wf(area),
    ensures
        r == spec_form_buttons(area),
        rect_wf(r.0),
        rect_wf(r.1),
{
    let row = form_chunk(area, 5);
    let lw = row.width / 2;
    (
        Rect { x: row.x, y: row.y, width: lw, height: row.height },
        Rect { x: row.x + lw, y: row.y, width: row.width - lw, height: row.height },
    )
}

/// Where the delete-confirmation modal stands: at least fifty cells
/// wide (or eighty percent of the screen), twelve tall, centered.
pub open spec fn spec_delete_area(area: Rect) -> Rect {
    let w = if area.width * 80 / 100 >= 50 {
        area.width * 80 / 100
    } else {
        50
    };
    spec_centered_rect_with_min_size(w as u16, 12u16, area)
}

pub fn delete_area(area: Rect) -> (r: Rect)
    requires
        rect_wf(area),
    ensures
        r == spec_delete_area(area),
        rect_wf(r),
{
    let scaled = (area.width as u32 * 80 / 100) as u32;
    let w: u32 = if scaled >= 50 {
        scaled
    } else {
        50
    };
    centered_rect_with_min_size(w as u16, 12, area)
}

/// The delete and cancel buttons of the delete-confirmation modal: the
/// middle thirty-percent bands of the button row, which sits four cells
/// under the modal's inner top edge. A modal too small for the row has
/// no buttons.
pub open spec fn spec_delete_buttons(area: Rect) -> (Rect, Rect) {
    let m = spec_delete_area(area);
    if m.width >= 4 && m.height >= 9 {
        let ix = (m.x + 2) as int;
        let iy = (m.y + 1) as int;
        let iw = (m.width - 4) as int;
        let b1x = ix + iw * 20 / 100;
        let bw = iw * 30 / 100;
        (
            Rect { x: b1x as u16, y: (iy + 4) as u16, width: bw as u16, height: 3u16 },
            Rect { x: (b1x + bw) as u16, y: (iy + 4) as u16, width: bw as u16, height: 3u16 },
        )
    } else {
        (
            Rect { x: m.x, y: m.y, width: 0u16, height: 0u16 },
            Rect { x: m.x, y: m.y, width: 0u16, height: 0u16 },
        )
    }
}

pub fn delete_buttons(area: Rect) -> (r: (Rect, Rect))
    requires
        rect_wf(area),
    ensures
        r == spec_delete_buttons(area),
{
    let m = delete_area(area);
    if m.width >= 4 && m.height >= 9 {
        let ix = m.x as u32 + 2;
        let iy = m.y as u32 + 1;
        let iw: u32 = m.width as u32 - 4;
        let b1x = ix + iw * 20 / 100;
        let bw = iw * 30 / 100;
        (
            Rect { x: b1x as u16, y: (iy + 4) as u16, width: bw as u16, height: 3 },
            Rect { x: (b1x + bw) as u16, y: (iy + 4) as u16, width: bw as u16, height: 3 },
        )
    } else {
        (
            Rect { x: m.x, y: m.y, width: 0, height: 0 },
            Rect { x: m.x, y: m.y, width: 0, height: 0 },
        )
    }
}

/// Where a dropdown unfolds under its field: one cell down, as wide as
/// the field, two cells taller than its option count but at most twelve
/// tall. An off-screen field gets no dropdown.
pub open spec fn spec_dropdown_rect(field: Rect, n_options: nat) -> Rect {
    if field.height == 0 {
        Rect { x: field.x, y: field.y, width: 0u16, height: 0u16 }
    } else {
        Rect {
            x: field.x,
            y: (field.y + 1) as u16,
            width: field.width,
            height: (if n_options + 2 <= 12 {
                n_options + 2
            } else {
                12
            }) as u16,
        }
    }
}

pub fn dropdown_rect(field: Rect, n_options: usize) -> (r: Rect)
    requires
        rect_wf(field),
    ensures
        r == spec_dropdown_rect(field, n_options as nat),
{
    if field.height == 0 {
        Rect { x: field.x, y: field.y, width: 0, height: 0 }
    } else {
        let h: u16 = if n_options <= 10 {
            (n_options + 2) as u16
        } else {
            12
        };
        Rect { x: field.x, y: field.y + 1, width: field.width, height: h }
    }
}

/// The button of an active modal under the pointer, if any: for a
/// delete confirmation its two buttons, for a form its save and cancel
/// halves, for a message any point inside closes it. An inactive modal,
/// or a press outside the modal, hits nothing.
pub open spec fn spec_modal_element_at(px: int, py: int, m: ModalView, area: Rect) -> Option<
    ModalButton,
> {
    if !m.active {
        None
    } else if m.modal_type is DeleteConfirmation {
        let darea = spec_delete_area(area);
        let (db, cb) = spec_delete_buttons(area);
        if !spec_in_rect(px, py, darea) {
            None
        } else if spec_in_rect(px, py, db) {
            Some(ModalButton::Confirm)
        } else if spec_in_rect(px, py, cb) {
            Some(ModalButton::Cancel)
        } else {
            None
        }
    } else {
        let marea = spec_centered_rect(60, 60, area);
        if !spec_in_rect(px, py, marea) {
            None
        } else {
            match m.modal_type {
                ModalTypeView::Message(_) => Some(ModalButton::Cancel),
                ModalTypeView::DeleteConfirmation(_, _) => None,
                _ => {
                    let (sb, cb) = spec_form_buttons(marea);
                    if spec_in_rect(px, py, sb) {
                        Some(ModalButton::Confirm)
                    } else if spec_in_rect(px, py, cb) {
                        Some(ModalButton::Cancel)
                    } else {
                        None
                    }
                },
            }
        }
    }
}

pub fn get_modal_element_at_position(position: (u16, u16), modal: &Modal, area: Rect) -> (r:
    Option<ModalButton>)
    requires
        rect_wf(area),
    ensures
        r == spec_modal_element_at(position.0 as int, position.1 as int, modal@, area),
{
    if !modal.active {
        return None;
    }
    match &modal.modal_type {
        crate::modal::ModalType::DeleteConfirmation(_, _) => {
            let darea = delete_area(area);
            if !is_position_in_rect(position, darea) {
                return None;
            }
            let (db, cb) = delete_buttons(area);
            if is_position_in_rect(position, db) {
                Some(ModalButton::Confirm)
            } else if is_position_in_rect(position, cb) {
                Some(ModalButton::Cancel)
            } else {
                None
            }
        },
        _ => {
            let marea = centered_rect(60, 60, area);
            if !is_position_in_rect(position, marea) {
                return None;
            }
            match &modal.modal_type {
                crate::modal::ModalType::Message(_) => Some(ModalButton::Cancel),
                _ => {
                    let (sb, cb) = form_buttons(marea);
                    if is_position_in_rect(position, sb) {
                        Some(ModalButton::Confirm)
                    } else if is_position_in_rect(position, cb) {
                        Some(ModalButton::Cancel)
                    } else {
                        None
                    }
                },
            }
        },
    }
}

/// The dropdown option row under the pointer when the dropdown of the
/// student form's major field is open: the dropdown hangs one cell
/// under that field inside the centered form modal, with one border row
/// above the options. Presses on the border or past the last option
/// hit nothing.
pub open spec fn spec_dropdown_item_at(px: int, py: int, d: DropdownStateView, area: Rect) -> Option<
    int,
> {
    if !d.is_open {
        None
    } else {
        let marea = spec_centered_rect(60, 60, area);
        let field = spec_form_chunk(marea, 3);
        let drect = spec_dropdown_rect(field, d.options.len());
        if !spec_in_rect(px, py, drect) {
            None
        } else if py <= drect.y {
            None
        } else if py - drect.y - 1 >= d.options.len() {
            None
        } else {
            Some(py - drect.y - 1)
        }
    }
}

pub fn is_dropdown_item_clicked(position: (u16, u16), dropdown: &DropdownState, area: Rect) -> (r:
    Option<String>)
    requires
        rect_wf(area),
    ensures
        match spec_dropdown_item_at(position.0 as int, position.1 as int, dropdown@, area) {
            Some(i) => r matches Some(s) && s@ == dropdown@.options[i],
            None => r is None,
        },
{
    if !dropdown.is_open {
        return None;
    }
    let marea = centered_rect(60, 60, area);
    let field = form_chunk(marea, 3);
    let drect = dropdown_rect(field, dropdown.options.len());
    if !is_position_in_rect(position, drect) {
        return None;
    }
    if position.1 <= drect.y {
        return None;
    }
    let rel = (position.1 - drect.y - 1) as usize;
    if rel >= dropdown.options.len() {
        return None;
    }
    Some(dropdown.options[rel].clone())
}

/// The element of the base screen under the pointer: the tab strip on
/// the top three rows, split in thirds; the action bar three rows above
/// the bottom, split at fifteen, thirty, forty-five and seventy percent
/// of the inner width; between them the table, whose rows start nine
/// rows down — a row is hit only while its index is below the shown
/// collection's length.
pub open spec fn spec_element_at(
    x: u16,
    y: u16,
    tab: ActiveTab,
    n_students: usize,
    n_teachers: usize,
    n_faculties: usize,
    w: u16,
    h: u16,
) -> UiElement {
    if y <= 2 {
        let tw = w as int / 3;
        if (x as int) < tw {
            UiElement::Tab(ActiveTab::Students)
        } else if (x as int) < 2 * tw {
            UiElement::Tab(ActiveTab::Teachers)
        } else {
            UiElement::Tab(ActiveTab::Faculties)
        }
    } else {
        let bar = if h >= 4 {
            h - 4
        } else {
            0
        };
        if bar <= y <= bar + 2 {
            let total = if w >= 2 {
                (w - 2) as int
            } else {
                0
            };
            let b15 = total * 15 / 100;
            let b25 = total * 25 / 100;
            let add_end = 1 + b15;
            let edit_end = add_end + b15;
            let delete_end = edit_end + b15;
            let search_end = delete_end + b25;
            if (x as int) < add_end {
                UiElement::ActionButton(ActionButton::Add)
            } else if (x as int) < edit_end {
                UiElement::ActionButton(ActionButton::Edit)
            } else if (x as int) < delete_end {
                UiElement::ActionButton(ActionButton::Delete)
            } else if (x as int) < search_end {
                UiElement::ActionButton(ActionButton::Search)
            } else {
                UiElement::ActionButton(ActionButton::Refresh)
            }
        } else if 9 <= y < bar {
            let k = (y - 9) as usize;
            let count = match tab {
                ActiveTab::Students => n_students,
                ActiveTab::Teachers => n_teachers,
                ActiveTab::Faculties => n_faculties,
            };
            if (k as int) < count {
                UiElement::TableRow(k)
            } else {
                UiElement::Nothing
            }
        } else {
            UiElement::Nothing
        }
    }
}

pub fn get_element_at_position(
    position: (u16, u16),
    active_tab: ActiveTab,
    n_students: usize,
    n_teachers: usize,
    n_faculties: usize,
    size: (u16, u16),
) -> (r: UiElement)
    ensures
        r == spec_element_at(
            position.0,
            position.1,
            active_tab,
            n_students,
            n_teachers,
            n_faculties,
            size.0,
            size.1,
        ),
{
    let (x, y) = position;
    let (w, h) = size;
    if y <= 2 {
        let tw = w / 3;
        if x < tw {
            return UiElement::Tab(ActiveTab::Students);
        } else if (x as u32) < 2 * tw as u32 {
            return UiElement::Tab(ActiveTab::Teachers);
        } else {
            return UiElement::Tab(ActiveTab::Faculties);
        }
    }
    let bar: u16 = if h >= 4 {
        h - 4
    } else {
        0
    };
    if bar <= y && (y as u32) <= bar as u32 + 2 {
        let total: u32 = if w >= 2 {
            w as u32 - 2
        } else {
            0
        };
        let b15 = total * 15 / 100;
        let b25 = total * 25 / 100;
        let add_end = 1 + b15;
        let edit_end = add_end + b15;
        let delete_end = edit_end + b15;
        let search_end = delete_end + b25;
        let xi = x as u32;
        if xi < add_end {
            return UiElement::ActionButton(ActionButton::Add);
        } else if xi < edit_end {
            return UiElement::ActionButton(ActionButton::Edit);
        } else if xi < delete_end {
            return UiElement::ActionButton(ActionButton::Delete);
        } else if xi < search_end {
            return UiElement::ActionButton(ActionButton::Search);
        } else {
            return UiElement::ActionButton(ActionButton::Refresh);
        }
    }
    if 9 <= y && y < bar {
        let k = (y - 9) as usize;
        let count = match active_tab {
            ActiveTab::Students => n_students,
            ActiveTab::Teachers => n_teachers,
            ActiveTab::Faculties => n_faculties,
        };
        if k < count {
            return UiElement::TableRow(k);
        }
        return UiElement::Nothing;
    }
    UiElement::Nothing
}

/// Law: hit testing is deterministic. The base hit test is a pure
/// function of the pointer position, the mode's tab, the record counts
/// and the screen size, so two results for the same arguments are the
/// same element.
pub proof fn lemma_hit_test_deterministic(
    x: u16,
    y: u16,
    tab: ActiveTab,
    n_students: usize,
    n_teachers: usize,
    n_faculties: usize,
    w: u16,
    h: u16,
    e1: UiElement,
    e2: UiElement,
)
    requires
        e1 == spec_element_at(x, y, tab, n_students, n_teachers, n_faculties, w, h),
        e2 == spec_element_at(x, y, tab, n_students, n_teachers, n_faculties, w, h),
    ensures
        e1 == e2,
{
}

/// Law: inside the table band, the press on row `k` (counted from the
/// first data row) hits that row exactly when `k` is below the shown
/// collection's length, and nothing otherwise.
pub proof fn lemma_hit_row_band(
    x: u16,
    y: u16,
    tab: ActiveTab,
    n_students: usize,
    n_teachers: usize,
    n_faculties: usize,
    w: u16,
    h: u16,
)
    requires
        h >= 4,
        9 <= y,
        (y as int) < h - 4,
    ensures
        ({
            let k = (y - 9) as usize;
            let count = match tab {
                ActiveTab::Students => n_students,
                ActiveTab::Teachers => n_teachers,
                ActiveTab::Faculties => n_faculties,
            };
            spec_element_at(x, y, tab, n_students, n_teachers, n_faculties, w, h) == (if (
            k as int) < count {
                UiElement::TableRow(k)
            } else {
                UiElement::Nothing
            })
        }),
{
}

} // verus!
