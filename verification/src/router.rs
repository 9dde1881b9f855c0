//! The input router: the Normal / Search / Modal state machine. Every
//! keyboard or pointer event is reduced here to mutations of the app
//! state, the form engine and the record store; the caller performs the
//! quitting, the painting and the persisting that the results call for.

use vstd::prelude::*;

use crate::modal::{
    accepts_char, faculty_form_valid, input_views, is_student_modal, spec_fresh_modal,
    student_form_valid, teacher_form_valid, Modal, ModalType, ModalTypeView, ModalView,
};
use crate::store::{
    faculty_id, has_key, index_of_key, remove_key, student_id, teacher_id,
};
use crate::text::{digits_val, gpa_value_hundredths};
use crate::models::{spec_full_name, FacultyView, StudentView, TeacherView};
use crate::store::{DataManager, StoreView};
use crate::text::{dec_str, usize_to_string};
use crate::ui::{
    spec_select_next, spec_select_previous, ActionButton, ActiveTab, AppState, AppStateView,
    ModalButton, UiElement, NOTIFICATION_TICKS,
};
use crate::widgets::{spec_dropdown_next, spec_dropdown_prev, DropdownStateView};
use crate::layout::{
    get_element_at_position, get_modal_element_at_position, is_dropdown_item_clicked,
    spec_dropdown_item_at, spec_element_at, spec_modal_element_at, Rect,
};

verus! {

/// A keyboard event, as the router reads it.
#[derive(Clone, Copy, Debug, PartialEq, Eq, Structural)]
pub enum Key {
    Char(char),
    Enter,
    Esc,
    Backspace,
    Tab,
    BackTab,
    Up,
    Down,
    Other,
}

/// The three top-level modes of the console.
pub enum AppMode {
    Normal,
    Search,
    Modal(Modal),
}

/// The modal carried by a mode known to be `Modal`.
pub open spec fn modal_view(m: AppMode) -> ModalView {
    (m->0)@
}

/// The number of records the given tab shows.
pub open spec fn tab_count(d: StoreView, t: ActiveTab) -> nat {
    match t {
        ActiveTab::Students => d.students.len(),
        ActiveTab::Teachers => d.teachers.len(),
        ActiveTab::Faculties => d.faculties.len(),
    }
}

/// `s` with the cursor of its own active tab set to `sel`.
pub open spec fn with_sel(s: AppStateView, sel: Option<usize>) -> AppStateView {
    match s.active_tab {
        ActiveTab::Students => AppStateView { student_selected: sel, ..s },
        ActiveTab::Teachers => AppStateView { teacher_selected: sel, ..s },
        ActiveTab::Faculties => AppStateView { faculty_selected: sel, ..s },
    }
}

/// Where a refresh rests the cursor of tab `t`: the first row, or
/// nowhere when the tab shows nothing.
pub open spec fn refreshed_sel(d: StoreView, t: ActiveTab) -> Option<usize> {
    if tab_count(d, t) == 0 {
        None
    } else {
        Some(0usize)
    }
}

/// The whole console: screen state, record store, and the current
/// mode.
pub struct App {
    pub state: AppState,
    pub data_manager: DataManager,
    pub mode: AppMode,
    pub should_quit: bool,
}

impl App {
    /// The store's invariant holds, and so does the open modal's, if
    /// one is open.
    pub open spec fn wf(self) -> bool {
        &&& self.data_manager.wf()
        &&& (self.mode matches AppMode::Modal(m) ==> m.wf())
    }

    /// A console over the given store: normal mode, startup screen
    /// state.
    pub fn new(data_manager: DataManager) -> (r: App)
        requires
            data_manager.wf(),
        ensures
            r.wf(),
            r.data_manager@ == data_manager@,
            r.mode is Normal,
            r.should_quit == false,
            r.state@.active_tab == ActiveTab::Students,
            r.state@.student_selected == Some(0usize),
            r.state@.teacher_selected == Some(0usize),
            r.state@.faculty_selected == Some(0usize),
            r.state@.search_query == Seq::<char>::empty(),
            r.state@.notification is None,
    {
        App { state: AppState::default(), data_manager, mode: AppMode::Normal, should_quit: false }
    }

    /// Rests the current tab's cursor on the first row, or clears it
    /// when that tab shows nothing.
    pub fn refresh_data(&mut self)
        ensures
            final(self).state@ == with_sel(
                old(self).state@,
                refreshed_sel(old(self).data_manager@, old(self).state@.active_tab),
            ),
            final(self).data_manager@ == old(self).data_manager@,
            final(self).mode == old(self).mode,
            final(self).should_quit == old(self).should_quit,
            old(self).wf() ==> final(self).wf(),
    {
        let empty: bool = match self.state.active_tab {
            ActiveTab::Students => self.data_manager.get_all_students().len() == 0,
            ActiveTab::Teachers => self.data_manager.get_all_teachers().len() == 0,
            ActiveTab::Faculties => self.data_manager.get_all_faculties().len() == 0,
        };
        if empty {
            self.state.unselect();
        } else {
            self.state.select_first();
        }
        proof {
            assert(self.state@ == with_sel(
                old(self).state@,
                refreshed_sel(old(self).data_manager@, old(self).state@.active_tab),
            ));
        }
    }

    /// Opens the add form for the current tab's record kind.
    pub fn show_add_modal(&mut self)
        requires
            old(self).wf(),
        ensures
            final(self).wf(),
            final(self).mode matches AppMode::Modal(m) && m@ == spec_fresh_modal(
                match old(self).state@.active_tab {
                    ActiveTab::Students => ModalTypeView::AddStudent,
                    ActiveTab::Teachers => ModalTypeView::AddTeacher,
                    ActiveTab::Faculties => ModalTypeView::AddFaculty,
                },
            ),
            final(self).state == old(self).state,
            final(self).data_manager@ == old(self).data_manager@,
            final(self).should_quit == old(self).should_quit,
    {
        let modal_type = match self.state.active_tab {
            ActiveTab::Students => ModalType::AddStudent,
            ActiveTab::Teachers => ModalType::AddTeacher,
            ActiveTab::Faculties => ModalType::AddFaculty,
        };
        self.mode = AppMode::Modal(Modal::new(modal_type));
    }

    /// Opens the edit form prefilled from the selected record, or shows
    /// a "nothing selected" notice when the cursor points at no row.
    pub fn show_edit_modal(&mut self)
        requires
            old(self).wf(),
        ensures
            final(self).wf(),
            final(self).data_manager@ == old(self).data_manager@,
            final(self).should_quit == old(self).should_quit,
            ({
                let d = old(self).data_manager@;
                let t = old(self).state@.active_tab;
                match old(self).state@.current_selection() {
                    Some(i) => if (i as nat) < tab_count(d, t) {
                        &&& final(self).mode matches AppMode::Modal(m) && m@ == spec_fresh_modal(
                            match t {
                                ActiveTab::Students => ModalTypeView::EditStudent(
                                    d.students[i as int],
                                ),
                                ActiveTab::Teachers => ModalTypeView::EditTeacher(
                                    d.teachers[i as int],
                                ),
                                ActiveTab::Faculties => ModalTypeView::EditFaculty(
                                    d.faculties[i as int],
                                ),
                            },
                        )
                        &&& final(self).state == old(self).state
                    } else {
                        &&& final(self).mode == old(self).mode
                        &&& final(self).state@ == (crate::ui::AppStateView {
                            notification: Some(none_selected_notice(t)),
                            notification_timer: NOTIFICATION_TICKS,
                            ..old(self).state@
                        })
                    },
                    None => {
                        &&& final(self).mode == old(self).mode
                        &&& final(self).state@ == (crate::ui::AppStateView {
                            notification: Some(none_selected_notice(t)),
                            notification_timer: NOTIFICATION_TICKS,
                            ..old(self).state@
                        })
                    },
                }
            }),
    {
        match self.state.active_tab {
            ActiveTab::Students => {
                let sel = self.state.student_selected;
                match sel {
                    Some(index) => {
                        let students = self.data_manager.get_all_students();
                        if index < students.len() {
                            let student = students[index].clone();
                            self.mode = AppMode::Modal(Modal::new(ModalType::EditStudent(student)));
                            return;
                        }
                        self.state.show_notification(String::from_str("No student selected"));
                    },
                    None => {
                        self.state.show_notification(String::from_str("No student selected"));
                    },
                }
            },
            ActiveTab::Teachers => {
                let sel = self.state.teacher_selected;
                match sel {
                    Some(index) => {
                        let teachers = self.data_manager.get_all_teachers();
                        if index < teachers.len() {
                            let teacher = teachers[index].clone();
                            self.mode = AppMode::Modal(Modal::new(ModalType::EditTeacher(teacher)));
                            return;
                        }
                        self.state.show_notification(String::from_str("No teacher selected"));
                    },
                    None => {
                        self.state.show_notification(String::from_str("No teacher selected"));
                    },
                }
            },
            ActiveTab::Faculties => {
                let sel = self.state.faculty_selected;
                match sel {
                    Some(index) => {
                        let faculties = self.data_manager.get_all_faculties();
                        if index < faculties.len() {
                            let faculty = faculties[index].clone();
                            self.mode = AppMode::Modal(Modal::new(ModalType::EditFaculty(faculty)));
                            return;
                        }
                        self.state.show_notification(String::from_str("No faculty selected"));
                    },
                    None => {
                        self.state.show_notification(String::from_str("No faculty selected"));
                    },
                }
            },
        }
    }

    /// Opens the delete confirmation for the selected record, or shows
    /// a "nothing selected" notice when the cursor points at no row.
    pub fn show_delete_modal(&mut self)
        requires
            old(self).wf(),
        ensures
            final(self).wf(),
            final(self).data_manager@ == old(self).data_manager@,
            final(self).should_quit == old(self).should_quit,
            ({
                let d = old(self).data_manager@;
                let t = old(self).state@.active_tab;
                match old(self).state@.current_selection() {
                    Some(i) => if (i as nat) < tab_count(d, t) {
                        &&& final(self).mode matches AppMode::Modal(m) && m@ == spec_fresh_modal(
                            ModalTypeView::DeleteConfirmation(
                                delete_target_id(d, t, i as int),
                                delete_target_name(d, t, i as int),
                            ),
                        )
                        &&& final(self).state == old(self).state
                    } else {
                        &&& final(self).mode == old(self).mode
                        &&& final(self).state@ == (crate::ui::AppStateView {
                            notification: Some(none_selected_notice(t)),
                            notification_timer: NOTIFICATION_TICKS,
                            ..old(self).state@
                        })
                    },
                    None => {
                        &&& final(self).mode == old(self).mode
                        &&& final(self).state@ == (crate::ui::AppStateView {
                            notification: Some(none_selected_notice(t)),
                            notification_timer: NOTIFICATION_TICKS,
                            ..old(self).state@
                        })
                    },
                }
            }),
    {
        match self.state.active_tab {
            ActiveTab::Students => {
                let sel = self.state.student_selected;
                match sel {
                    Some(index) => {
                        let students = self.data_manager.get_all_students();
                        if index < students.len() {
                            let student = &students[index];
                            let modal_type = ModalType::DeleteConfirmation(
                                student.id.clone(),
                                student.full_name(),
                            );
                            self.mode = AppMode::Modal(Modal::new(modal_type));
                            return;
                        }
                        self.state.show_notification(String::from_str("No student selected"));
                    },
                    None => {
                        self.state.show_notification(String::from_str("No student selected"));
                    },
                }
            },
            ActiveTab::Teachers => {
                let sel = self.state.teacher_selected;
                match sel {
                    Some(index) => {
                        let teachers = self.data_manager.get_all_teachers();
                        if index < teachers.len() {
                            let teacher = &teachers[index];
                            let modal_type = ModalType::DeleteConfirmation(
                                teacher.id.clone(),
                                teacher.full_name(),
                            );
                            self.mode = AppMode::Modal(Modal::new(modal_type));
                            return;
                        }
                        self.state.show_notification(String::from_str("No teacher selected"));
                    },
                    None => {
                        self.state.show_notification(String::from_str("No teacher selected"));
                    },
                }
            },
            ActiveTab::Faculties => {
                let sel = self.state.faculty_selected;
                match sel {
                    Some(index) => {
                        let faculties = self.data_manager.get_all_faculties();
                        if index < faculties.len() {
                            let faculty = &faculties[index];
                            let modal_type = ModalType::DeleteConfirmation(
                                faculty.id.clone(),
                                faculty.name.clone(),
                            );
                            self.mode = AppMode::Modal(Modal::new(modal_type));
                            return;
                        }
                        self.state.show_notification(String::from_str("No faculty selected"));
                    },
                    None => {
                        self.state.show_notification(String::from_str("No faculty selected"));
                    },
                }
            },
        }
    }
}

/// Nothing observable changed.
pub open spec fn unchanged_post(pre: App, post: App) -> bool {
    &&& post.state == pre.state
    &&& post.mode == pre.mode
    &&& post.data_manager@ == pre.data_manager@
    &&& post.should_quit == pre.should_quit
}

/// A fresh add form for the current tab opened; nothing else moved.
pub open spec fn add_modal_post(pre: App, post: App) -> bool {
    &&& post.mode matches AppMode::Modal(m) && m@ == spec_fresh_modal(
        match pre.state@.active_tab {
            ActiveTab::Students => ModalTypeView::AddStudent,
            ActiveTab::Teachers => ModalTypeView::AddTeacher,
            ActiveTab::Faculties => ModalTypeView::AddFaculty,
        },
    )
    &&& post.state == pre.state
    &&& post.data_manager@ == pre.data_manager@
    &&& post.should_quit == pre.should_quit
}

/// An edit form for the selected record opened, or the "nothing
/// selected" notice appeared.
pub open spec fn edit_modal_post(pre: App, post: App) -> bool {
    &&& post.data_manager@ == pre.data_manager@
    &&& post.should_quit == pre.should_quit
    &&& ({
        let d = pre.data_manager@;
        let t = pre.state@.active_tab;
        match pre.state@.current_selection() {
            Some(i) => if (i as nat) < tab_count(d, t) {
                &&& post.mode matches AppMode::Modal(m) && m@ == spec_fresh_modal(
                    match t {
                        ActiveTab::Students => ModalTypeView::EditStudent(d.students[i as int]),
                        ActiveTab::Teachers => ModalTypeView::EditTeacher(d.teachers[i as int]),
                        ActiveTab::Faculties => ModalTypeView::EditFaculty(d.faculties[i as int]),
                    },
                )
                &&& post.state == pre.state
            } else {
                &&& post.mode == pre.mode
                &&& post.state@ == (AppStateView {
                    notification: Some(none_selected_notice(t)),
                    notification_timer: NOTIFICATION_TICKS,
                    ..pre.state@
                })
            },
            None => {
                &&& post.mode == pre.mode
                &&& post.state@ == (AppStateView {
                    notification: Some(none_selected_notice(t)),
                    notification_timer: NOTIFICATION_TICKS,
                    ..pre.state@
                })
            },
        }
    })
}

/// A delete confirmation for the selected record opened, or the
/// "nothing selected" notice appeared.
pub open spec fn delete_modal_post(pre: App, post: App) -> bool {
    &&& post.data_manager@ == pre.data_manager@
    &&& post.should_quit == pre.should_quit
    &&& ({
        let d = pre.data_manager@;
        let t = pre.state@.active_tab;
        match pre.state@.current_selection() {
            Some(i) => if (i as nat) < tab_count(d, t) {
                &&& post.mode matches AppMode::Modal(m) && m@ == spec_fresh_modal(
                    ModalTypeView::DeleteConfirmation(
                        delete_target_id(d, t, i as int),
                        delete_target_name(d, t, i as int),
                    ),
                )
                &&& post.state == pre.state
            } else {
                &&& post.mode == pre.mode
                &&& post.state@ == (AppStateView {
                    notification: Some(none_selected_notice(t)),
                    notification_timer: NOTIFICATION_TICKS,
                    ..pre.state@
                })
            },
            None => {
                &&& post.mode == pre.mode
                &&& post.state@ == (AppStateView {
                    notification: Some(none_selected_notice(t)),
                    notification_timer: NOTIFICATION_TICKS,
                    ..pre.state@
                })
            },
        }
    })
}

/// The cursor was refreshed and the "Data refreshed" notice shows.
pub open spec fn refresh_notify_post(pre: App, post: App) -> bool {
    &&& post.data_manager@ == pre.data_manager@
    &&& post.should_quit == pre.should_quit
    &&& post.mode == pre.mode
    &&& post.state@ == (AppStateView {
        notification: Some("Data refreshed"@),
        notification_timer: NOTIFICATION_TICKS,
        ..with_sel(pre.state@, refreshed_sel(pre.data_manager@, pre.state@.active_tab))
    })
}

/// The active tab became `t` and its cursor was refreshed.
pub open spec fn switch_tab_post(pre: App, post: App, t: ActiveTab) -> bool {
    &&& post.data_manager@ == pre.data_manager@
    &&& post.should_quit == pre.should_quit
    &&& post.mode == pre.mode
    &&& post.state@ == with_sel(
        (AppStateView { active_tab: t, ..pre.state@ }),
        refreshed_sel(pre.data_manager@, t),
    )
}

/// The cursor of the current tab moved to `sel`; nothing else did.
pub open spec fn moved_sel_post(pre: App, post: App, sel: Option<usize>) -> bool {
    &&& post.data_manager@ == pre.data_manager@
    &&& post.should_quit == pre.should_quit
    &&& post.mode == pre.mode
    &&& post.state@ == with_sel(pre.state@, sel)
}

/// What one key does in normal mode.
pub open spec fn normal_key_post(pre: App, post: App, key: Key) -> bool {
    match key {
        Key::Char(c) => if c == 'q' {
            &&& post.state == pre.state
            &&& post.mode == pre.mode
            &&& post.data_manager@ == pre.data_manager@
            &&& post.should_quit == true
        } else if c == 'f' {
            &&& post.state == pre.state
            &&& post.mode is Search
            &&& post.data_manager@ == pre.data_manager@
            &&& post.should_quit == pre.should_quit
        } else if c == 'a' {
            add_modal_post(pre, post)
        } else if c == 'e' {
            edit_modal_post(pre, post)
        } else if c == 'd' {
            delete_modal_post(pre, post)
        } else if c == 'r' {
            refresh_notify_post(pre, post)
        } else if c == '1' {
            switch_tab_post(pre, post, ActiveTab::Students)
        } else if c == '2' {
            switch_tab_post(pre, post, ActiveTab::Teachers)
        } else if c == '3' {
            switch_tab_post(pre, post, ActiveTab::Faculties)
        } else {
            unchanged_post(pre, post)
        },
        Key::Tab => switch_tab_post(pre, post, pre.state@.active_tab.spec_next()),
        Key::Up => moved_sel_post(pre, post, spec_select_previous(pre.state@.current_selection())),
        Key::Down => moved_sel_post(pre, post, spec_select_next(pre.state@.current_selection())),
        _ => unchanged_post(pre, post),
    }
}

/// How many records of the current tab match `q`.
pub open spec fn search_count(d: StoreView, t: ActiveTab, q: Seq<char>) -> nat {
    match t {
        ActiveTab::Students => crate::store::filter_students(
            d.students,
            crate::text::lower_of(q),
        ).len(),
        ActiveTab::Teachers => crate::store::filter_teachers(
            d.teachers,
            crate::text::lower_of(q),
        ).len(),
        ActiveTab::Faculties => crate::store::filter_faculties(
            d.faculties,
            crate::text::lower_of(q),
        ).len(),
    }
}

/// The notice a search submission shows: the match count and the
/// record kind.
pub open spec fn found_notice(t: ActiveTab, n: nat) -> Seq<char> {
    "Found "@ + dec_str(n) + (match t {
        ActiveTab::Students => " matching students"@,
        ActiveTab::Teachers => " matching teachers"@,
        ActiveTab::Faculties => " matching faculties"@,
    })
}

/// A search ran: an empty query only refreshes the cursor, any other
/// reports its match count.
pub open spec fn perform_search_post(pre: App, post: App) -> bool {
    &&& post.data_manager@ == pre.data_manager@
    &&& post.should_quit == pre.should_quit
    &&& post.mode == pre.mode
    &&& if pre.state@.search_query.len() == 0 {
        post.state@ == with_sel(
            pre.state@,
            refreshed_sel(pre.data_manager@, pre.state@.active_tab),
        )
    } else {
        post.state@ == (AppStateView {
            notification: Some(
                found_notice(
                    pre.state@.active_tab,
                    search_count(pre.data_manager@, pre.state@.active_tab, pre.state@.search_query),
                ),
            ),
            notification_timer: NOTIFICATION_TICKS,
            ..pre.state@
        })
    }
}

/// What one key does in search mode.
pub open spec fn search_key_post(pre: App, post: App, key: Key) -> bool {
    match key {
        Key::Esc => {
            &&& post.data_manager@ == pre.data_manager@
            &&& post.should_quit == pre.should_quit
            &&& post.mode is Normal
            &&& post.state@ == with_sel(
                pre.state@,
                refreshed_sel(pre.data_manager@, pre.state@.active_tab),
            )
        },
        Key::Enter => {
            &&& post.data_manager@ == pre.data_manager@
            &&& post.should_quit == pre.should_quit
            &&& post.mode is Normal
            &&& if pre.state@.search_query.len() == 0 {
                post.state@ == with_sel(
                    pre.state@,
                    refreshed_sel(pre.data_manager@, pre.state@.active_tab),
                )
            } else {
                post.state@ == (AppStateView {
                    notification: Some(
                        found_notice(
                            pre.state@.active_tab,
                            search_count(
                                pre.data_manager@,
                                pre.state@.active_tab,
                                pre.state@.search_query,
                            ),
                        ),
                    ),
                    notification_timer: NOTIFICATION_TICKS,
                    ..pre.state@
                })
            }
        },
        Key::Backspace => {
            &&& post.data_manager@ == pre.data_manager@
            &&& post.should_quit == pre.should_quit
            &&& post.mode == pre.mode
            &&& post.state@ == (AppStateView {
                search_query: if pre.state@.search_query.len() > 0 {
                    pre.state@.search_query.drop_last()
                } else {
                    pre.state@.search_query
                },
                ..pre.state@
            })
        },
        Key::Char(c) => {
            &&& post.data_manager@ == pre.data_manager@
            &&& post.should_quit == pre.should_quit
            &&& post.mode == pre.mode
            &&& post.state@ == (AppStateView {
                search_query: pre.state@.search_query.push(c),
                ..pre.state@
            })
        },
        _ => unchanged_post(pre, post),
    }
}

impl App {
    /// One key in normal mode: quit, mode changes, tab switches,
    /// cursor moves, refresh.
    pub fn handle_normal_mode(&mut self, key: Key)
        requires
            old(self).wf(),
            old(self).mode is Normal,
        ensures
            final(self).wf(),
            normal_key_post(*old(self), *final(self), key),
    {
        match key {
            Key::Char(c) => {
                if c == 'q' {
                    self.should_quit = true;
                } else if c == 'f' {
                    self.mode = AppMode::Search;
                } else if c == 'a' {
                    self.show_add_modal();
                } else if c == 'e' {
                    self.show_edit_modal();
                } else if c == 'd' {
                    self.show_delete_modal();
                } else if c == 'r' {
                    self.refresh_data();
                    self.state.show_notification(String::from_str("Data refreshed"));
                } else if c == '1' {
                    self.state.active_tab = ActiveTab::Students;
                    self.refresh_data();
                } else if c == '2' {
                    self.state.active_tab = ActiveTab::Teachers;
                    self.refresh_data();
                } else if c == '3' {
                    self.state.active_tab = ActiveTab::Faculties;
                    self.refresh_data();
                }
            },
            Key::Tab => {
                self.state.active_tab = self.state.active_tab.next();
                self.refresh_data();
            },
            Key::Up => {
                self.state.select_previous();
                proof {
                    assert(self.state@ == with_sel(
                        old(self).state@,
                        spec_select_previous(old(self).state@.current_selection()),
                    ));
                }
            },
            Key::Down => {
                self.state.select_next();
                proof {
                    assert(self.state@ == with_sel(
                        old(self).state@,
                        spec_select_next(old(self).state@.current_selection()),
                    ));
                }
            },
            _ => {},
        }
    }

    /// Runs the search over the current tab and reports the match
    /// count; an empty query only refreshes the cursor.
    pub fn perform_search(&mut self)
        requires
            old(self).wf(),
        ensures
            final(self).wf(),
            perform_search_post(*old(self), *final(self)),
    {
        if self.state.search_query.as_str().unicode_len() == 0 {
            self.refresh_data();
            return;
        }
        let count: usize = match self.state.active_tab {
            ActiveTab::Students => {
                let results = self.data_manager.search_students(self.state.search_query.as_str());
                results.len()
            },
            ActiveTab::Teachers => {
                let results = self.data_manager.search_teachers(self.state.search_query.as_str());
                results.len()
            },
            ActiveTab::Faculties => {
                let results = self.data_manager.search_faculties(self.state.search_query.as_str());
                results.len()
            },
        };
        let tail: &str = match self.state.active_tab {
            ActiveTab::Students => " matching students",
            ActiveTab::Teachers => " matching teachers",
            ActiveTab::Faculties => " matching faculties",
        };
        let n_str = usize_to_string(count);
        let message = String::from_str("Found ").concat(n_str.as_str()).concat(tail);
        self.state.show_notification(message);
    }

    /// One key in search mode: edit the query, submit it, or step
    /// back to normal mode.
    pub fn handle_search_mode(&mut self, key: Key)
        requires
            old(self).wf(),
            old(self).mode is Search,
        ensures
            final(self).wf(),
            search_key_post(*old(self), *final(self), key),
    {
        match key {
            Key::Esc => {
                self.mode = AppMode::Normal;
                self.refresh_data();
            },
            Key::Enter => {
                self.perform_search();
                self.mode = AppMode::Normal;
            },
            Key::Backspace => {
                let mut cs = crate::text::chars_of(self.state.search_query.as_str());
                if cs.len() > 0 {
                    cs.pop();
                    proof {
                        assert(cs@ =~= old(self).state@.search_query.drop_last());
                    }
                    self.state.search_query = crate::text::string_from_chars(&cs);
                }
            },
            Key::Char(c) => {
                crate::text::push_char(&mut self.state.search_query, c);
            },
            _ => {},
        }
    }
}

/// While a dropdown is open on the student form's major field, it
/// captures the navigation keys.
pub open spec fn dropdown_shadows(m: ModalView) -> bool {
    m.active_field == 3 && is_student_modal(m.modal_type) && m.major_dropdown.is_open
}

/// `m` with its dropdown folded or unfolded.
pub open spec fn with_dropdown_open(m: ModalView, open: bool) -> ModalView {
    ModalView {
        major_dropdown: DropdownStateView { is_open: open, ..m.major_dropdown },
        ..m
    }
}

/// `m` with its dropdown cursor moved to `sel`.
pub open spec fn with_dropdown_sel(m: ModalView, sel: Option<usize>) -> ModalView {
    ModalView {
        major_dropdown: DropdownStateView { selected: sel, ..m.major_dropdown },
        ..m
    }
}

/// `m` after a forward field step.
pub open spec fn field_next(m: ModalView) -> ModalView {
    if m.inputs.len() == 0 {
        m
    } else {
        ModalView {
            active_field: ((m.active_field + 1) % (m.inputs.len() as int)) as usize,
            ..m
        }
    }
}

/// `m` after a backward field step.
pub open spec fn field_prev(m: ModalView) -> ModalView {
    if m.inputs.len() == 0 {
        m
    } else {
        ModalView {
            active_field: (if m.active_field == 0 {
                (m.inputs.len() - 1) as usize
            } else {
                (m.active_field - 1) as usize
            }),
            ..m
        }
    }
}

/// `m` after the character `c` was routed to the active field.
pub open spec fn after_input(m: ModalView, c: char) -> ModalView {
    if m.inputs.len() == 0 || m.active_field >= m.inputs.len() {
        m
    } else {
        let af = m.active_field as int;
        let f = m.inputs[af].0;
        let cur = m.inputs[af].1;
        if accepts_char(f, cur, c) {
            ModalView { inputs: m.inputs.update(af, (f, cur.push(c))), ..m }
        } else {
            m
        }
    }
}

/// `m` after a backspace on the active field.
pub open spec fn after_backspace(m: ModalView) -> ModalView {
    if m.inputs.len() == 0 || m.active_field >= m.inputs.len() {
        m
    } else {
        let af = m.active_field as int;
        let f = m.inputs[af].0;
        let cur = m.inputs[af].1;
        if cur.len() > 0 {
            ModalView { inputs: m.inputs.update(af, (f, cur.drop_last())), ..m }
        } else {
            m
        }
    }
}

/// `m` after a confirm on its open dropdown: the option under the
/// cursor lands in the major field and the dropdown folds; with no
/// option under the cursor nothing moves.
pub open spec fn dropdown_commit(m: ModalView) -> ModalView {
    match m.major_dropdown.selected {
        Some(i) => if i < m.major_dropdown.options.len() && m.inputs.len() > 3 {
            ModalView {
                inputs: m.inputs.update(3, (m.inputs[3].0, m.major_dropdown.options[i as int])),
                major_dropdown: DropdownStateView { is_open: false, ..m.major_dropdown },
                ..m
            }
        } else {
            m
        },
        None => m,
    }
}

/// The modal changed and nothing else: no store mutation, no screen
/// state change, nothing to persist.
pub open spec fn modal_frame(pre: App, post: App, saved: Option<ActiveTab>) -> bool {
    &&& saved is None
    &&& post.data_manager@ == pre.data_manager@
    &&& post.state == pre.state
    &&& post.should_quit == pre.should_quit
}

/// The mode still carries a modal, now with image `mv`.
pub open spec fn modal_became(post: App, mv: ModalView) -> bool {
    post.mode matches AppMode::Modal(mm) && mm@ == mv
}

/// The screen state after a commit: the notice shows, and the current
/// tab's cursor was refreshed against the store as it then stands.
pub open spec fn commit_state(pre: App, d_after: StoreView, notice: Seq<char>) -> AppStateView {
    AppStateView {
        notification: Some(notice),
        notification_timer: NOTIFICATION_TICKS,
        ..with_sel(pre.state@, refreshed_sel(d_after, pre.state@.active_tab))
    }
}

/// A validation failure: the form stays open and untouched, the notice
/// names the record kind, nothing was stored.
pub open spec fn invalid_commit_post(pre: App, post: App, saved: Option<ActiveTab>, notice: Seq<
    char,
>) -> bool {
    &&& saved is None
    &&& post.data_manager@ == pre.data_manager@
    &&& post.mode == pre.mode
    &&& post.should_quit == pre.should_quit
    &&& post.state@ == (AppStateView {
        notification: Some(notice),
        notification_timer: NOTIFICATION_TICKS,
        ..pre.state@
    })
}

/// What a confirm does, for every modal kind: dropdown handling on the
/// student major field, validation and store mutation on the forms,
/// deletion on a confirmation, dismissal on a message.
pub open spec fn enter_post(pre: App, post: App, saved: Option<ActiveTab>) -> bool {
    let m = modal_view(pre.mode);
    if is_student_modal(m.modal_type) && m.active_field == 3 {
        &&& modal_frame(pre, post, saved)
        &&& modal_became(
            post,
            if m.major_dropdown.is_open {
                dropdown_commit(m)
            } else {
                with_dropdown_open(m, true)
            },
        )
    } else {
        match m.modal_type {
            ModalTypeView::AddStudent => if student_form_valid(m.inputs) {
                &&& saved == Some(ActiveTab::Students)
                &&& post.should_quit == pre.should_quit
                &&& post.mode is Normal
                &&& post.data_manager@.teachers == pre.data_manager@.teachers
                &&& post.data_manager@.faculties == pre.data_manager@.faculties
                &&& post.data_manager@.students.len() == pre.data_manager@.students.len() + 1
                &&& post.data_manager@.students.drop_last() == pre.data_manager@.students
                &&& ({
                    let nv = post.data_manager@.students.last();
                    &&& nv.first_name == m.inputs[0].1
                    &&& nv.last_name == m.inputs[1].1
                    &&& nv.age as nat == digits_val(m.inputs[2].1)
                    &&& nv.major == m.inputs[3].1
                    &&& nv.gpa_hundredths as nat == gpa_value_hundredths(m.inputs[4].1)
                    &&& !has_key(pre.data_manager@.students, student_id(), nv.id)
                })
                &&& post.state@ == commit_state(
                    pre,
                    post.data_manager@,
                    "Added student: "@ + spec_full_name(m.inputs[0].1, m.inputs[1].1),
                )
            } else {
                invalid_commit_post(pre, post, saved, "Invalid student data"@)
            },
            ModalTypeView::EditStudent(orig) => if student_form_valid(m.inputs) {
                let found = has_key(pre.data_manager@.students, student_id(), orig.id);
                &&& saved == (if found {
                    Some(ActiveTab::Students)
                } else {
                    Option::<ActiveTab>::None
                })
                &&& post.should_quit == pre.should_quit
                &&& post.mode is Normal
                &&& post.data_manager@.teachers == pre.data_manager@.teachers
                &&& post.data_manager@.faculties == pre.data_manager@.faculties
                &&& (match index_of_key(pre.data_manager@.students, student_id(), orig.id) {
                    Some(i) => post.data_manager@.students == pre.data_manager@.students.update(
                        i,
                        (StudentView {
                            id: orig.id,
                            first_name: m.inputs[0].1,
                            last_name: m.inputs[1].1,
                            age: digits_val(m.inputs[2].1) as u32,
                            major: m.inputs[3].1,
                            gpa_hundredths: gpa_value_hundredths(m.inputs[4].1) as u32,
                        }),
                    ),
                    None => post.data_manager@.students == pre.data_manager@.students,
                })
                &&& post.state@ == commit_state(
                    pre,
                    post.data_manager@,
                    if found {
                        "Updated student: "@ + spec_full_name(m.inputs[0].1, m.inputs[1].1)
                    } else {
                        "Student not found"@
                    },
                )
            } else {
                invalid_commit_post(pre, post, saved, "Invalid student data"@)
            },
            ModalTypeView::AddTeacher => if teacher_form_valid(m.inputs) {
                &&& saved == Some(ActiveTab::Teachers)
                &&& post.should_quit == pre.should_quit
                &&& post.mode is Normal
                &&& post.data_manager@.students == pre.data_manager@.students
                &&& post.data_manager@.faculties == pre.data_manager@.faculties
                &&& post.data_manager@.teachers.len() == pre.data_manager@.teachers.len() + 1
                &&& post.data_manager@.teachers.drop_last() == pre.data_manager@.teachers
                &&& ({
                    let nv = post.data_manager@.teachers.last();
                    &&& nv.first_name == m.inputs[0].1
                    &&& nv.last_name == m.inputs[1].1
                    &&& nv.age as nat == digits_val(m.inputs[2].1)
                    &&& nv.department == m.inputs[3].1
                    &&& nv.title == m.inputs[4].1
                    &&& !has_key(pre.data_manager@.teachers, teacher_id(), nv.id)
                })
                &&& post.state@ == commit_state(
                    pre,
                    post.data_manager@,
                    "Added teacher: "@ + spec_full_name(m.inputs[0].1, m.inputs[1].1),
                )
            } else {
                invalid_commit_post(pre, post, saved, "Invalid teacher data"@)
            },
            ModalTypeView::EditTeacher(orig) => if teacher_form_valid(m.inputs) {
                let found = has_key(pre.data_manager@.teachers, teacher_id(), orig.id);
                &&& saved == (if found {
                    Some(ActiveTab::Teachers)
                } else {
                    Option::<ActiveTab>::None
                })
                &&& post.should_quit == pre.should_quit
                &&& post.mode is Normal
                &&& post.data_manager@.students == pre.data_manager@.students
                &&& post.data_manager@.faculties == pre.data_manager@.faculties
                &&& (match index_of_key(pre.data_manager@.teachers, teacher_id(), orig.id) {
                    Some(i) => post.data_manager@.teachers == pre.data_manager@.teachers.update(
                        i,
                        (TeacherView {
                            id: orig.id,
                            first_name: m.inputs[0].1,
                            last_name: m.inputs[1].1,
                            age: digits_val(m.inputs[2].1) as u32,
                            department: m.inputs[3].1,
                            title: m.inputs[4].1,
                        }),
                    ),
                    None => post.data_manager@.teachers == pre.data_manager@.teachers,
                })
                &&& post.state@ == commit_state(
                    pre,
                    post.data_manager@,
                    if found {
                        "Updated teacher: "@ + spec_full_name(m.inputs[0].1, m.inputs[1].1)
                    } else {
                        "Teacher not found"@
                    },
                )
            } else {
                invalid_commit_post(pre, post, saved, "Invalid teacher data"@)
            },
            ModalTypeView::AddFaculty => if faculty_form_valid(m.inputs) {
                &&& saved == Some(ActiveTab::Faculties)
                &&& post.should_quit == pre.should_quit
                &&& post.mode is Normal
                &&& post.data_manager@.students == pre.data_manager@.students
                &&& post.data_manager@.teachers == pre.data_manager@.teachers
                &&& post.data_manager@.faculties.len() == pre.data_manager@.faculties.len() + 1
                &&& post.data_manager@.faculties.drop_last() == pre.data_manager@.faculties
                &&& ({
                    let nv = post.data_manager@.faculties.last();
                    &&& nv.name == m.inputs[0].1
                    &&& nv.building == m.inputs[1].1
                    &&& nv.head_name == m.inputs[2].1
                    &&& nv.established_year as nat == digits_val(m.inputs[3].1)
                    &&& nv.num_staff as nat == digits_val(m.inputs[4].1)
                    &&& !has_key(pre.data_manager@.faculties, faculty_id(), nv.id)
                })
                &&& post.state@ == commit_state(
                    pre,
                    post.data_manager@,
                    "Added faculty: "@ + m.inputs[0].1,
                )
            } else {
                invalid_commit_post(pre, post, saved, "Invalid faculty data"@)
            },
            ModalTypeView::EditFaculty(orig) => if faculty_form_valid(m.inputs) {
                let found = has_key(pre.data_manager@.faculties, faculty_id(), orig.id);
                &&& saved == (if found {
                    Some(ActiveTab::Faculties)
                } else {
                    Option::<ActiveTab>::None
                })
                &&& post.should_quit == pre.should_quit
                &&& post.mode is Normal
                &&& post.data_manager@.students == pre.data_manager@.students
                &&& post.data_manager@.teachers == pre.data_manager@.teachers
                &&& (match index_of_key(pre.data_manager@.faculties, faculty_id(), orig.id) {
                    Some(i) => post.data_manager@.faculties == pre.data_manager@.faculties.update(
                        i,
                        (FacultyView {
                            id: orig.id,
                            name: m.inputs[0].1,
                            building: m.inputs[1].1,
                            head_name: m.inputs[2].1,
                            established_year: digits_val(m.inputs[3].1) as u32,
                            num_staff: digits_val(m.inputs[4].1) as u32,
                        }),
                    ),
                    None => post.data_manager@.faculties == pre.data_manager@.faculties,
                })
                &&& post.state@ == commit_state(
                    pre,
                    post.data_manager@,
                    if found {
                        "Updated faculty: "@ + m.inputs[0].1
                    } else {
                        "Faculty not found"@
                    },
                )
            } else {
                invalid_commit_post(pre, post, saved, "Invalid faculty data"@)
            },
            ModalTypeView::DeleteConfirmation(id, name) => {
                let t = pre.state@.active_tab;
                let found = match t {
                    ActiveTab::Students => has_key(pre.data_manager@.students, student_id(), id),
                    ActiveTab::Teachers => has_key(pre.data_manager@.teachers, teacher_id(), id),
                    ActiveTab::Faculties => has_key(
                        pre.data_manager@.faculties,
                        faculty_id(),
                        id,
                    ),
                };
                &&& saved == (if found {
                    Some(t)
                } else {
                    Option::<ActiveTab>::None
                })
                &&& post.should_quit == pre.should_quit
                &&& post.mode is Normal
                &&& (match t {
                    ActiveTab::Students => {
                        &&& post.data_manager@.students == remove_key(
                            pre.data_manager@.students,
                            student_id(),
                            id,
                        )
                        &&& post.data_manager@.teachers == pre.data_manager@.teachers
                        &&& post.data_manager@.faculties == pre.data_manager@.faculties
                    },
                    ActiveTab::Teachers => {
                        &&& post.data_manager@.teachers == remove_key(
                            pre.data_manager@.teachers,
                            teacher_id(),
                            id,
                        )
                        &&& post.data_manager@.students == pre.data_manager@.students
                        &&& post.data_manager@.faculties == pre.data_manager@.faculties
                    },
                    ActiveTab::Faculties => {
                        &&& post.data_manager@.faculties == remove_key(
                            pre.data_manager@.faculties,
                            faculty_id(),
                            id,
                        )
                        &&& post.data_manager@.students == pre.data_manager@.students
                        &&& post.data_manager@.teachers == pre.data_manager@.teachers
                    },
                })
                &&& post.state@ == commit_state(
                    pre,
                    post.data_manager@,
                    if found {
                        "Deleted: "@ + name
                    } else {
                        "Failed to delete: "@ + name
                    },
                )
            },
            ModalTypeView::Message(_) => {
                &&& saved is None
                &&& post.data_manager@ == pre.data_manager@
                &&& post.state == pre.state
                &&& post.should_quit == pre.should_quit
                &&& post.mode is Normal
            },
        }
    }
}

/// What one key does while a modal is open.
pub open spec fn modal_key_post(pre: App, post: App, key: Key, saved: Option<ActiveTab>) -> bool {
    let m = modal_view(pre.mode);
    match key {
        Key::Esc => {
            &&& saved is None
            &&& post.data_manager@ == pre.data_manager@
            &&& post.state == pre.state
            &&& post.should_quit == pre.should_quit
            &&& if dropdown_shadows(m) {
                modal_became(post, with_dropdown_open(m, false))
            } else {
                post.mode is Normal
            }
        },
        Key::Enter => enter_post(pre, post, saved),
        Key::Up => modal_frame(pre, post, saved) && modal_became(
            post,
            if dropdown_shadows(m) {
                with_dropdown_sel(
                    m,
                    spec_dropdown_prev(m.major_dropdown.selected, m.major_dropdown.options.len()),
                )
            } else {
                field_prev(m)
            },
        ),
        Key::Down => modal_frame(pre, post, saved) && modal_became(
            post,
            if dropdown_shadows(m) {
                with_dropdown_sel(
                    m,
                    spec_dropdown_next(m.major_dropdown.selected, m.major_dropdown.options.len()),
                )
            } else {
                field_next(m)
            },
        ),
        Key::Tab => modal_frame(pre, post, saved) && modal_became(post, field_next(m)),
        Key::BackTab => modal_frame(pre, post, saved) && modal_became(post, field_prev(m)),
        Key::Backspace => modal_frame(pre, post, saved) && modal_became(post, after_backspace(m)),
        Key::Char(c) => modal_frame(pre, post, saved) && modal_became(
            post,
            if c == ' ' && is_student_modal(m.modal_type) && m.active_field == 3 {
                with_dropdown_open(m, !m.major_dropdown.is_open)
            } else {
                after_input(m, c)
            },
        ),
        Key::Other => modal_frame(pre, post, saved) && post.mode == pre.mode,
    }
}

impl App {
    /// One key while a modal is open: the dropdown takes priority on
    /// the student major field, Enter commits or opens the dropdown,
    /// Esc cancels the dropdown or the modal, the rest edit the form.
    /// The result names the collection that changed and must be
    /// persisted, if any.
    pub fn handle_modal_key_event(&mut self, key: Key) -> (saved: Option<ActiveTab>)
        requires
            old(self).wf(),
            old(self).mode is Modal,
        ensures
            final(self).wf(),
            modal_key_post(*old(self), *final(self), key, saved),
    {
        match key {
            Key::Esc => {
                let shadows: bool = match &self.mode {
                    AppMode::Modal(m) => m.is_student_kind() && m.active_field == 3
                        && m.major_dropdown.is_open,
                    _ => false,
                };
                if shadows {
                    match &mut self.mode {
                        AppMode::Modal(m) => {
                            m.major_dropdown.is_open = false;
                        },
                        _ => {},
                    }
                } else {
                    self.mode = AppMode::Normal;
                }
                None
            },
            Key::Enter => self.handle_modal_enter(),
            Key::Up => {
                match &mut self.mode {
                    AppMode::Modal(m) => {
                        if m.is_student_kind() && m.active_field == 3 && m.major_dropdown.is_open {
                            m.major_dropdown.select_prev();
                        } else {
                            m.prev_field();
                        }
                    },
                    _ => {},
                }
                None
            },
            Key::Down => {
                match &mut self.mode {
                    AppMode::Modal(m) => {
                        if m.is_student_kind() && m.active_field == 3 && m.major_dropdown.is_open {
                            m.major_dropdown.select_next();
                        } else {
                            m.next_field();
                        }
                    },
                    _ => {},
                }
                None
            },
            Key::Tab => {
                match &mut self.mode {
                    AppMode::Modal(m) => {
                        m.next_field();
                    },
                    _ => {},
                }
                None
            },
            Key::BackTab => {
                match &mut self.mode {
                    AppMode::Modal(m) => {
                        m.prev_field();
                    },
                    _ => {},
                }
                None
            },
            Key::Backspace => {
                match &mut self.mode {
                    AppMode::Modal(m) => {
                        m.backspace();
                    },
                    _ => {},
                }
                None
            },
            Key::Char(c) => {
                match &mut self.mode {
                    AppMode::Modal(m) => {
                        if c == ' ' && m.is_student_kind() && m.active_field == 3 {
                            m.major_dropdown.toggle_open();
                        } else {
                            m.input(c);
                        }
                    },
                    _ => {},
                }
                None
            },
            Key::Other => None,
        }
    }

    /// The confirm step of [`App::handle_modal_key_event`].
    fn handle_modal_enter(&mut self) -> (saved: Option<ActiveTab>)
        requires
            old(self).wf(),
            old(self).mode is Modal,
        ensures
            final(self).wf(),
            enter_post(*old(self), *final(self), saved),
    {
        // Dropdown handling on the student form's major field.
        let major_active: bool = match &self.mode {
            AppMode::Modal(m) => m.is_student_kind() && m.active_field == 3,
            _ => false,
        };
        if major_active {
            match &mut self.mode {
                AppMode::Modal(m) => {
                    if m.major_dropdown.is_open {
                        let sel = m.major_dropdown.selected_item();
                        match sel {
                            Some(item) => {
                                if m.inputs.len() > 3 {
                                    let f = m.inputs[3].0;
                                    m.inputs.set(3, (f, item));
                                    m.major_dropdown.is_open = false;
                                    proof {
                                        assert(input_views(m.inputs@) =~= input_views(
                                            old(self).mode->0.inputs@,
                                        ).update(
                                            3,
                                            (
                                                modal_view(old(self).mode).inputs[3].0,
                                                modal_view(old(self).mode).major_dropdown.options[
                                                    modal_view(
                                                        old(self).mode,
                                                    ).major_dropdown.selected->0 as int],
                                            ),
                                        ));
                                    }
                                }
                            },
                            None => {},
                        }
                    } else {
                        m.major_dropdown.is_open = true;
                    }
                },
                _ => {},
            }
            return None;
        }
        // Commit, by modal kind.
        let mt: ModalType = match &self.mode {
            AppMode::Modal(m) => m.modal_type.clone(),
            _ => {
                return None;
            },
        };
        match mt {
            ModalType::AddStudent => {
                let created = match &self.mode {
                    AppMode::Modal(m) => m.create_student(),
                    _ => None,
                };
                match created {
                    Some(s) => {
                        let name = s.full_name();
                        let _id = self.data_manager.add_student(s);
                        proof {
                            assert(self.data_manager@.students.drop_last()
                                =~= old(self).data_manager@.students);
                        }
                        self.state.show_notification(
                            String::from_str("Added student: ").concat(name.as_str()),
                        );
                        self.mode = AppMode::Normal;
                        self.refresh_data();
                        Some(ActiveTab::Students)
                    },
                    None => {
                        self.state.show_notification(String::from_str("Invalid student data"));
                        None
                    },
                }
            },
            ModalType::EditStudent(_) => {
                let created = match &self.mode {
                    AppMode::Modal(m) => m.create_student(),
                    _ => None,
                };
                match created {
                    Some(s) => {
                        let name = s.full_name();
                        let found = self.data_manager.update_student(s);
                        if found {
                            self.state.show_notification(
                                String::from_str("Updated student: ").concat(name.as_str()),
                            );
                        } else {
                            self.state.show_notification(String::from_str("Student not found"));
                        }
                        self.mode = AppMode::Normal;
                        self.refresh_data();
                        if found {
                            Some(ActiveTab::Students)
                        } else {
                            None
                        }
                    },
                    None => {
                        self.state.show_notification(String::from_str("Invalid student data"));
                        None
                    },
                }
            },
            ModalType::AddTeacher => {
                let created = match &self.mode {
                    AppMode::Modal(m) => m.create_teacher(),
                    _ => None,
                };
                match created {
                    Some(t) => {
                        let name = t.full_name();
                        let _id = self.data_manager.add_teacher(t);
                        proof {
                            assert(self.data_manager@.teachers.drop_last()
                                =~= old(self).data_manager@.teachers);
                        }
                        self.state.show_notification(
                            String::from_str("Added teacher: ").concat(name.as_str()),
                        );
                        self.mode = AppMode::Normal;
                        self.refresh_data();
                        Some(ActiveTab::Teachers)
                    },
                    None => {
                        self.state.show_notification(String::from_str("Invalid teacher data"));
                        None
                    },
                }
            },
            ModalType::EditTeacher(_) => {
                let created = match &self.mode {
                    AppMode::Modal(m) => m.create_teacher(),
                    _ => None,
                };
                match created {
                    Some(t) => {
                        let name = t.full_name();
                        let found = self.data_manager.update_teacher(t);
                        if found {
                            self.state.show_notification(
                                String::from_str("Updated teacher: ").concat(name.as_str()),
                            );
                        } else {
                            self.state.show_notification(String::from_str("Teacher not found"));
                        }
                        self.mode = AppMode::Normal;
                        self.refresh_data();
                        if found {
                            Some(ActiveTab::Teachers)
                        } else {
                            None
                        }
                    },
                    None => {
                        self.state.show_notification(String::from_str("Invalid teacher data"));
                        None
                    },
                }
            },
            ModalType::AddFaculty => {
                let created = match &self.mode {
                    AppMode::Modal(m) => m.create_faculty(),
                    _ => None,
                };
                match created {
                    Some(f) => {
                        let name = f.name.clone();
                        let _id = self.data_manager.add_faculty(f);
                        proof {
                            assert(self.data_manager@.faculties.drop_last()
                                =~= old(self).data_manager@.faculties);
                        }
                        self.state.show_notification(
                            String::from_str("Added faculty: ").concat(name.as_str()),
                        );
                        self.mode = AppMode::Normal;
                        self.refresh_data();
                        Some(ActiveTab::Faculties)
                    },
                    None => {
                        self.state.show_notification(String::from_str("Invalid faculty data"));
                        None
                    },
                }
            },
            ModalType::EditFaculty(_) => {
                let created = match &self.mode {
                    AppMode::Modal(m) => m.create_faculty(),
                    _ => None,
                };
                match created {
                    Some(f) => {
                        let name = f.name.clone();
                        let found = self.data_manager.update_faculty(f);
                        if found {
                            self.state.show_notification(
                                String::from_str("Updated faculty: ").concat(name.as_str()),
                            );
                        } else {
                            self.state.show_notification(String::from_str("Faculty not found"));
                        }
                        self.mode = AppMode::Normal;
                        self.refresh_data();
                        if found {
                            Some(ActiveTab::Faculties)
                        } else {
                            None
                        }
                    },
                    None => {
                        self.state.show_notification(String::from_str("Invalid faculty data"));
                        None
                    },
                }
            },
            ModalType::DeleteConfirmation(id, name) => {
                let success = match self.state.active_tab {
                    ActiveTab::Students => self.data_manager.delete_student(id.as_str()),
                    ActiveTab::Teachers => self.data_manager.delete_teacher(id.as_str()),
                    ActiveTab::Faculties => self.data_manager.delete_faculty(id.as_str()),
                };
                let tab = self.state.active_tab;
                if success {
                    self.state.show_notification(
                        String::from_str("Deleted: ").concat(name.as_str()),
                    );
                } else {
                    self.state.show_notification(
                        String::from_str("Failed to delete: ").concat(name.as_str()),
                    );
                }
                self.mode = AppMode::Normal;
                self.refresh_data();
                if success {
                    Some(tab)
                } else {
                    None
                }
            },
            ModalType::Message(_) => {
                self.mode = AppMode::Normal;
                None
            },
        }
    }
}

/// What one pointer press does. With a modal open, an open dropdown
/// takes the press first (an option click lands in the major field, any
/// other press folds the dropdown), then the modal's buttons; a press
/// elsewhere on a modal does nothing. With no modal open, the press
/// goes to the base screen: tabs, action buttons, table rows.
pub open spec fn mouse_post(
    pre: App,
    post: App,
    x: u16,
    y: u16,
    w: u16,
    h: u16,
    saved: Option<ActiveTab>,
) -> bool {
    let area = Rect { x: 0u16, y: 0u16, width: w, height: h };
    match pre.mode {
        AppMode::Modal(modal) => {
            let m = modal@;
            if dropdown_shadows(m) {
                &&& saved is None
                &&& post.data_manager@ == pre.data_manager@
                &&& post.state == pre.state
                &&& post.should_quit == pre.should_quit
                &&& (match spec_dropdown_item_at(x as int, y as int, m.major_dropdown, area) {
                    Some(i) => modal_became(
                        post,
                        ModalView {
                            inputs: (if m.inputs.len() > 3 {
                                m.inputs.update(3, (m.inputs[3].0, m.major_dropdown.options[i]))
                            } else {
                                m.inputs
                            }),
                            major_dropdown: DropdownStateView {
                                is_open: false,
                                ..m.major_dropdown
                            },
                            ..m
                        },
                    ),
                    None => modal_became(post, with_dropdown_open(m, false)),
                })
            } else {
                match spec_modal_element_at(x as int, y as int, m, area) {
                    Some(ModalButton::Confirm) => enter_post(pre, post, saved),
                    Some(ModalButton::Cancel) => modal_key_post(pre, post, Key::Esc, saved),
                    None => saved is None && unchanged_post(pre, post),
                }
            }
        },
        _ => {
            &&& saved is None
            &&& ({
                let ns = pre.data_manager@.students.len() as usize;
                let nt = pre.data_manager@.teachers.len() as usize;
                let nf = pre.data_manager@.faculties.len() as usize;
                match spec_element_at(x, y, pre.state@.active_tab, ns, nt, nf, w, h) {
                    UiElement::Tab(t) => switch_tab_post(pre, post, t),
                    UiElement::TableRow(k) => moved_sel_post(pre, post, Some(k)),
                    UiElement::ActionButton(a) => match a {
                        ActionButton::Add => add_modal_post(pre, post),
                        ActionButton::Edit => edit_modal_post(pre, post),
                        ActionButton::Delete => delete_modal_post(pre, post),
                        ActionButton::Search => {
                            &&& post.state == pre.state
                            &&& post.mode is Search
                            &&& post.data_manager@ == pre.data_manager@
                            &&& post.should_quit == pre.should_quit
                        },
                        ActionButton::Refresh => refresh_notify_post(pre, post),
                    },
                    _ => unchanged_post(pre, post),
                }
            })
        },
    }
}

impl App {
    /// One key, routed by the current mode. The result names the
    /// collection that changed and must be persisted, if any.
    pub fn handle_key_event(&mut self, key: Key) -> (saved: Option<ActiveTab>)
        requires
            old(self).wf(),
        ensures
            final(self).wf(),
            match old(self).mode {
                AppMode::Normal => saved is None && normal_key_post(
                    *old(self),
                    *final(self),
                    key,
                ),
                AppMode::Search => saved is None && search_key_post(*old(self), *final(self), key),
                AppMode::Modal(_) => modal_key_post(*old(self), *final(self), key, saved),
            },
    {
        let in_normal = matches!(self.mode, AppMode::Normal);
        let in_search = matches!(self.mode, AppMode::Search);
        if in_normal {
            self.handle_normal_mode(key);
            None
        } else if in_search {
            self.handle_search_mode(key);
            None
        } else {
            self.handle_modal_key_event(key)
        }
    }

    /// One pointer press at `(x, y)` on a screen of the given size,
    /// routed by the current mode. The result names the collection that
    /// changed and must be persisted, if any.
    pub fn handle_mouse_event(&mut self, x: u16, y: u16, width: u16, height: u16) -> (saved:
        Option<ActiveTab>)
        requires
            old(self).wf(),
        ensures
            final(self).wf(),
            mouse_post(*old(self), *final(self), x, y, width, height, saved),
    {
        let area = Rect { x: 0, y: 0, width, height };
        let in_modal = matches!(self.mode, AppMode::Modal(_));
        if in_modal {
            let dd_open: bool = match &self.mode {
                AppMode::Modal(m) => m.is_student_kind() && m.active_field == 3
                    && m.major_dropdown.is_open,
                _ => false,
            };
            if dd_open {
                let clicked: Option<String> = match &self.mode {
                    AppMode::Modal(m) => is_dropdown_item_clicked((x, y), &m.major_dropdown, area),
                    _ => None,
                };
                match &mut self.mode {
                    AppMode::Modal(m) => {
                        match clicked {
                            Some(item) => {
                                if m.inputs.len() > 3 {
                                    let f = m.inputs[3].0;
                                    m.inputs.set(3, (f, item));
                                    proof {
                                        assert(input_views(m.inputs@) =~= input_views(
                                            old(self).mode->0.inputs@,
                                        ).update(
                                            3,
                                            (
                                                modal_view(old(self).mode).inputs[3].0,
                                                modal_view(
                                                    old(self).mode,
                                                ).major_dropdown.options[spec_dropdown_item_at(
                                                    x as int,
                                                    y as int,
                                                    modal_view(old(self).mode).major_dropdown,
                                                    area,
                                                )->0],
                                            ),
                                        ));
                                    }
                                }
                                m.major_dropdown.is_open = false;
                            },
                            None => {
                                m.major_dropdown.is_open = false;
                            },
                        }
                    },
                    _ => {},
                }
                return None;
            }
            let btn: Option<ModalButton> = match &self.mode {
                AppMode::Modal(m) => get_modal_element_at_position((x, y), m, area),
                _ => None,
            };
            match btn {
                Some(ModalButton::Confirm) => self.handle_modal_enter(),
                Some(ModalButton::Cancel) => self.handle_modal_key_event(Key::Esc),
                None => None,
            }
        } else {
            let element = get_element_at_position(
                (x, y),
                self.state.active_tab,
                self.data_manager.get_all_students().len(),
                self.data_manager.get_all_teachers().len(),
                self.data_manager.get_all_faculties().len(),
                (width, height),
            );
            match element {
                UiElement::Tab(t) => {
                    self.state.active_tab = t;
                    self.refresh_data();
                },
                UiElement::TableRow(k) => {
                    match self.state.active_tab {
                        ActiveTab::Students => {
                            self.state.student_selected = Some(k);
                        },
                        ActiveTab::Teachers => {
                            self.state.teacher_selected = Some(k);
                        },
                        ActiveTab::Faculties => {
                            self.state.faculty_selected = Some(k);
                        },
                    }
                    proof {
                        assert(self.state@ == with_sel(old(self).state@, Some(k)));
                    }
                },
                UiElement::ActionButton(a) => {
                    match a {
                        ActionButton::Add => {
                            self.show_add_modal();
                        },
                        ActionButton::Edit => {
                            self.show_edit_modal();
                        },
                        ActionButton::Delete => {
                            self.show_delete_modal();
                        },
                        ActionButton::Search => {
                            self.mode = AppMode::Search;
                        },
                        ActionButton::Refresh => {
                            self.refresh_data();
                            self.state.show_notification(String::from_str("Data refreshed"));
                        },
                    }
                },
                _ => {},
            }
            None
        }
    }
}

/// The notice shown when an edit or delete is asked for with no row
/// selected.
pub open spec fn none_selected_notice(t: ActiveTab) -> Seq<char> {
    match t {
        ActiveTab::Students => "No student selected"@,
        ActiveTab::Teachers => "No teacher selected"@,
        ActiveTab::Faculties => "No faculty selected"@,
    }
}

/// The id a delete confirmation opened from row `i` of tab `t`
/// carries.
pub open spec fn delete_target_id(d: StoreView, t: ActiveTab, i: int) -> Seq<char> {
    match t {
        ActiveTab::Students => d.students[i].id,
        ActiveTab::Teachers => d.teachers[i].id,
        ActiveTab::Faculties => d.faculties[i].id,
    }
}

/// The display name a delete confirmation opened from row `i` of tab
/// `t` carries.
pub open spec fn delete_target_name(d: StoreView, t: ActiveTab, i: int) -> Seq<char> {
    match t {
        ActiveTab::Students => spec_full_name(d.students[i].first_name, d.students[i].last_name),
        ActiveTab::Teachers => spec_full_name(d.teachers[i].first_name, d.teachers[i].last_name),
        ActiveTab::Faculties => d.faculties[i].name,
    }
}

} // verus!
