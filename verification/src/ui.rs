//! Tab selection, per-tab table cursors, the search buffer and the
//! transient notification: the screen-level state that every mode of the
//! console reads and mutates.

use vstd::prelude::*;

verus! {

/// Which record collection the main table currently shows.
#[derive(Clone, Copy, Debug, PartialEq, Eq, Structural)]
pub enum ActiveTab {
    Students,
    Teachers,
    Faculties,
}

impl ActiveTab {
    /// The label of this tab as shown in the header.
    pub open spec fn spec_label(self) -> Seq<char> {
        match self {
            ActiveTab::Students => "Students"@,
            ActiveTab::Teachers => "Teachers"@,
            ActiveTab::Faculties => "Faculties"@,
        }
    }

    pub fn to_string(&self) -> (label: &'static str)
        ensures
            label@ == self.spec_label(),
    {
        match self {
            ActiveTab::Students => "Students",
            ActiveTab::Teachers => "Teachers",
            ActiveTab::Faculties => "Faculties",
        }
    }

    /// The tab one step to the right, cyclically.
    pub open spec fn spec_next(self) -> ActiveTab {
        match self {
            ActiveTab::Students => ActiveTab::Teachers,
            ActiveTab::Teachers => ActiveTab::Faculties,
            ActiveTab::Faculties => ActiveTab::Students,
        }
    }

    pub fn next(&self) -> (t: ActiveTab)
        ensures
            t == self.spec_next(),
    {
        match self {
            ActiveTab::Students => ActiveTab::Teachers,
            ActiveTab::Teachers => ActiveTab::Faculties,
            ActiveTab::Faculties => ActiveTab::Students,
        }
    }

    /// The tab one step to the left, cyclically.
    pub open spec fn spec_previous(self) -> ActiveTab {
        match self {
            ActiveTab::Students => ActiveTab::Faculties,
            ActiveTab::Teachers => ActiveTab::Students,
            ActiveTab::Faculties => ActiveTab::Teachers,
        }
    }

    pub fn previous(&self) -> (t: ActiveTab)
        ensures
            t == self.spec_previous(),
    {
        match self {
            ActiveTab::Students => ActiveTab::Faculties,
            ActiveTab::Teachers => ActiveTab::Students,
            ActiveTab::Faculties => ActiveTab::Teachers,
        }
    }
}

/// How many timer ticks a fresh notification stays on screen.
pub const NOTIFICATION_TICKS: u16 = 30;

/// Mathematical image of [`AppState`].
pub struct AppStateView {
    pub active_tab: ActiveTab,
    pub student_selected: Option<usize>,
    pub teacher_selected: Option<usize>,
    pub faculty_selected: Option<usize>,
    pub search_query: Seq<char>,
    pub show_help: bool,
    pub notification: Option<Seq<char>>,
    pub notification_timer: u16,
}

/// Screen-level state: the active tab, one table cursor per tab, the
/// search buffer, and a transient notification with its countdown.
pub struct AppState {
    pub active_tab: ActiveTab,
    pub student_selected: Option<usize>,
    pub teacher_selected: Option<usize>,
    pub faculty_selected: Option<usize>,
    pub search_query: String,
    pub show_help: bool,
    pub notification: Option<String>,
    pub notification_timer: u16,
}

impl View for AppState {
    type V = AppStateView;

    open spec fn view(&self) -> AppStateView {
        AppStateView {
            active_tab: self.active_tab,
            student_selected: self.student_selected,
            teacher_selected: self.teacher_selected,
            faculty_selected: self.faculty_selected,
            search_query: self.search_query@,
            show_help: self.show_help,
            notification: match self.notification {
                Some(ref n) => Some(n@),
                None => None,
            },
            notification_timer: self.notification_timer,
        }
    }
}

impl AppStateView {
    /// The cursor of the tab shown now.
    pub open spec fn current_selection(self) -> Option<usize> {
        match self.active_tab {
            ActiveTab::Students => self.student_selected,
            ActiveTab::Teachers => self.teacher_selected,
            ActiveTab::Faculties => self.faculty_selected,
        }
    }

    /// `other` agrees with `self` on every field but the three cursors.
    pub open spec fn same_but_selections(self, other: AppStateView) -> bool {
        &&& other.active_tab == self.active_tab
        &&& other.search_query == self.search_query
        &&& other.show_help == self.show_help
        &&& other.notification == self.notification
        &&& other.notification_timer == self.notification_timer
    }

    /// `other` is `self` with the current tab's cursor set to `sel`.
    pub open spec fn with_current_selection(self, other: AppStateView, sel: Option<usize>) -> bool {
        &&& self.same_but_selections(other)
        &&& other.current_selection() == sel
        &&& self.active_tab != ActiveTab::Students ==> other.student_selected
            == self.student_selected
        &&& self.active_tab != ActiveTab::Teachers ==> other.teacher_selected
            == self.teacher_selected
        &&& self.active_tab != ActiveTab::Faculties ==> other.faculty_selected
            == self.faculty_selected
    }
}

/// Where a cursor moves on a downward step: one past its place, from
/// the top when nothing is selected.
pub open spec fn spec_select_next(sel: Option<usize>) -> Option<usize> {
    match sel {
        Some(i) => Some(
            if i < usize::MAX {
                (i + 1) as usize
            } else {
                i
            },
        ),
        None => Some(0),
    }
}

/// Where a cursor moves on an upward step: one back, stopping at the
/// top, from the top when nothing is selected.
pub open spec fn spec_select_previous(sel: Option<usize>) -> Option<usize> {
    match sel {
        Some(i) => Some(
            if i == 0 {
                0
            } else {
                (i - 1) as usize
            },
        ),
        None => Some(0),
    }
}

impl Default for AppState {
    /// The startup state: students tab, every cursor on the first row,
    /// empty search, no notification.
    fn default() -> (r: AppState)
        ensures
            r@.active_tab == ActiveTab::Students,
            r@.student_selected == Some(0usize),
            r@.teacher_selected == Some(0usize),
            r@.faculty_selected == Some(0usize),
            r@.search_query == Seq::<char>::empty(),
            r@.show_help == false,
            r@.notification is None,
            r@.notification_timer == 0,
    {
        AppState {
            active_tab: ActiveTab::Students,
            student_selected: Some(0),
            teacher_selected: Some(0),
            faculty_selected: Some(0),
            search_query: String::new(),
            show_help: false,
            notification: None,
            notification_timer: 0,
        }
    }
}

impl AppState {
    /// Moves the current tab's cursor one row down.
    pub fn select_next(&mut self)
        ensures
            old(self)@.with_current_selection(
                final(self)@,
                spec_select_next(old(self)@.current_selection()),
            ),
    {
        let next: Option<usize> = match self.current_selection() {
            Some(i) => Some(
                if i < usize::MAX {
                    i + 1
                } else {
                    i
                },
            ),
            None => Some(0),
        };
        self.set_current_selection(next);
    }

    /// Moves the current tab's cursor one row up, stopping at the top.
    pub fn select_previous(&mut self)
        ensures
            old(self)@.with_current_selection(
                final(self)@,
                spec_select_previous(old(self)@.current_selection()),
            ),
    {
        let prev: Option<usize> = match self.current_selection() {
            Some(i) => Some(
                if i == 0 {
                    0
                } else {
                    i - 1
                },
            ),
            None => Some(0),
        };
        self.set_current_selection(prev);
    }

    /// Clears the current tab's cursor.
    pub fn unselect(&mut self)
        ensures
            old(self)@.with_current_selection(final(self)@, None),
    {
        self.set_current_selection(None);
    }

    /// Puts the current tab's cursor on the first row.
    pub fn select_first(&mut self)
        ensures
            old(self)@.with_current_selection(final(self)@, Some(0usize)),
    {
        self.set_current_selection(Some(0));
    }

    /// The current tab's cursor.
    pub fn current_selection(&self) -> (r: Option<usize>)
        ensures
            r == self@.current_selection(),
    {
        match self.active_tab {
            ActiveTab::Students => self.student_selected,
            ActiveTab::Teachers => self.teacher_selected,
            ActiveTab::Faculties => self.faculty_selected,
        }
    }

    fn set_current_selection(&mut self, sel: Option<usize>)
        ensures
            old(self)@.with_current_selection(final(self)@, sel),
    {
        match self.active_tab {
            ActiveTab::Students => {
                self.student_selected = sel;
            },
            ActiveTab::Teachers => {
                self.teacher_selected = sel;
            },
            ActiveTab::Faculties => {
                self.faculty_selected = sel;
            },
        }
    }

    /// Shows `message` and restarts the countdown.
    pub fn show_notification(&mut self, message: String)
        ensures
            final(self)@ == (AppStateView {
                notification: Some(message@),
                notification_timer: NOTIFICATION_TICKS,
                ..old(self)@
            }),
    {
        self.notification = Some(message);
        self.notification_timer = NOTIFICATION_TICKS;
    }

    /// One timer tick: counts the notification down and clears it when
    /// the countdown reaches zero.
    pub fn update_notification_timer(&mut self)
        ensures
            old(self)@.notification_timer == 0 ==> final(self)@ == old(self)@,
            old(self)@.notification_timer > 1 ==> final(self)@ == (AppStateView {
                notification_timer: (old(self)@.notification_timer - 1) as u16,
                ..old(self)@
            }),
            old(self)@.notification_timer == 1 ==> final(self)@ == (AppStateView {
                notification: None,
                notification_timer: 0,
                ..old(self)@
            }),
    {
        if self.notification_timer > 0 {
            self.notification_timer = self.notification_timer - 1;
            if self.notification_timer == 0 {
                self.notification = None;
            }
        }
    }
}

/// A logical element of the base screen that a pointer press can land
/// on.
#[derive(Clone, Copy, Debug, PartialEq, Eq, Structural)]
pub enum UiElement {
    Tab(ActiveTab),
    TableRow(usize),
    ActionButton(ActionButton),
    ModalButton(ModalButton),
    Nothing,
}

/// The buttons of the action bar.
#[derive(Clone, Copy, Debug, PartialEq, Eq, Structural)]
pub enum ActionButton {
    Add,
    Edit,
    Delete,
    Search,
    Refresh,
}

/// The two buttons of a modal.
#[derive(Clone, Copy, Debug, PartialEq, Eq, Structural)]
pub enum ModalButton {
    Confirm,
    Cancel,
}

} // verus!
