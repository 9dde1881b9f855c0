//! The dropdown widget's state: a fixed option list, an open flag and a
//! cyclic selection cursor, together with the fixed list of majors
//! offered on the student form.

use vstd::prelude::*;

use crate::models::views;
use crate::store::{find_key_from, index_of_key, lemma_index_of_key};
use crate::text::str_eq;

verus! {

/// Mathematical image of a [`DropdownState`].
pub struct DropdownStateView {
    pub is_open: bool,
    pub options: Seq<Seq<char>>,
    pub selected: Option<usize>,
}

/// State of a dropdown: its option texts, whether it is unfolded, and
/// which option its cursor rests on.
pub struct DropdownState {
    pub is_open: bool,
    pub options: Vec<String>,
    pub selected: Option<usize>,
}

impl View for DropdownState {
    type V = DropdownStateView;

    open spec fn view(&self) -> DropdownStateView {
        DropdownStateView {
            is_open: self.is_open,
            options: views(self.options@),
            selected: self.selected,
        }
    }
}

/// Identity projection, for looking an option text up by value.
pub open spec fn option_text() -> spec_fn(Seq<char>) -> Seq<char> {
    |x: Seq<char>| x
}

/// Where the dropdown cursor moves on a downward step: one further,
/// wrapping to the top; nowhere when there are no options.
pub open spec fn spec_dropdown_next(sel: Option<usize>, len: nat) -> Option<usize> {
    if len == 0 {
        sel
    } else {
        match sel {
            None => Some(0usize),
            Some(i) => Some(
                if i + 1 >= len {
                    0usize
                } else {
                    (i + 1) as usize
                },
            ),
        }
    }
}

/// Where the dropdown cursor moves on an upward step: one back,
/// wrapping to the bottom; nowhere when there are no options.
pub open spec fn spec_dropdown_prev(sel: Option<usize>, len: nat) -> Option<usize> {
    if len == 0 {
        sel
    } else {
        match sel {
            None => Some(0usize),
            Some(i) => Some(
                if i == 0 {
                    (len - 1) as usize
                } else {
                    (i - 1) as usize
                },
            ),
        }
    }
}

impl DropdownState {
    /// The cursor points at an option whenever there is one to point
    /// at.
    pub open spec fn wf(self) -> bool {
        &&& (self@.options.len() == 0 ==> self@.selected is None)
        &&& (self@.selected matches Some(i) ==> i < self@.options.len())
    }

    /// A closed dropdown over `options`, its cursor on the first one.
    pub fn new(options: Vec<String>) -> (r: DropdownState)
        ensures
            r.wf(),
            r@.is_open == false,
            r@.options == views(options@),
            r@.selected == (if views(options@).len() == 0 {
                Option::<usize>::None
            } else {
                Some(0usize)
            }),
    {
        let selected: Option<usize> = if options.len() == 0 {
            None
        } else {
            Some(0)
        };
        DropdownState { is_open: false, options, selected }
    }

    /// Folds or unfolds the dropdown; nothing else moves.
    pub fn toggle_open(&mut self)
        ensures
            final(self)@ == (DropdownStateView { is_open: !old(self)@.is_open, ..old(self)@ }),
    {
        self.is_open = !self.is_open;
    }

    /// Moves the cursor one option down, cyclically.
    pub fn select_next(&mut self)
        requires
            old(self).wf(),
        ensures
            final(self).wf(),
            final(self)@ == (DropdownStateView {
                selected: spec_dropdown_next(old(self)@.selected, old(self)@.options.len()),
                ..old(self)@
            }),
    {
        let n = self.options.len();
        if n == 0 {
            return;
        }
        let i: usize = match self.selected {
            Some(i) => {
                if i >= n - 1 {
                    0
                } else {
                    i + 1
                }
            },
            None => 0,
        };
        self.selected = Some(i);
    }

    /// Moves the cursor one option up, cyclically.
    pub fn select_prev(&mut self)
        requires
            old(self).wf(),
        ensures
            final(self).wf(),
            final(self)@ == (DropdownStateView {
                selected: spec_dropdown_prev(old(self)@.selected, old(self)@.options.len()),
                ..old(self)@
            }),
    {
        let n = self.options.len();
        if n == 0 {
            return;
        }
        let i: usize = match self.selected {
            Some(i) => {
                if i == 0 {
                    n - 1
                } else {
                    i - 1
                }
            },
            None => 0,
        };
        self.selected = Some(i);
    }

    /// The option under the cursor, if the cursor points at one.
    pub fn selected_item(&self) -> (r: Option<String>)
        ensures
            match self@.selected {
                Some(i) => if i < self@.options.len() {
                    r matches Some(s) && s@ == self@.options[i as int]
                } else {
                    r is None
                },
                None => r is None,
            },
    {
        match self.selected {
            Some(i) => {
                if i < self.options.len() {
                    Some(self.options[i].clone())
                } else {
                    None
                }
            },
            None => None,
        }
    }

    /// Replaces the option list and rests the cursor on the first
    /// option, or nowhere when the new list is empty.
    pub fn set_options(&mut self, options: Vec<String>)
        ensures
            final(self).wf(),
            final(self)@.is_open == old(self)@.is_open,
            final(self)@.options == views(options@),
            final(self)@.selected == (if views(options@).len() == 0 {
                Option::<usize>::None
            } else {
                Some(0usize)
            }),
    {
        let selected: Option<usize> = if options.len() == 0 {
            None
        } else {
            Some(0)
        };
        self.options = options;
        self.selected = selected;
    }

    /// Puts the cursor on the first option equal to `value`, or on the
    /// first option of all when none matches; an empty list leaves the
    /// cursor alone.
    pub fn select_by_value(&mut self, value: &str)
        ensures
            final(self)@.is_open == old(self)@.is_open,
            final(self)@.options == old(self)@.options,
            (match index_of_key(old(self)@.options, option_text(), value@) {
                Some(i) => final(self)@.selected matches Some(si) && si as int == i,
                None => final(self)@.selected == (if old(self)@.options.len() > 0 {
                    Some(0usize)
                } else {
                    old(self)@.selected
                }),
            }),
            old(self).wf() ==> final(self).wf(),
    {
        proof {
            lemma_index_of_key(self@.options, option_text(), value@);
        }
        let n = self.options.len();
        let mut i: usize = 0;
        while i < n
            invariant
                self == old(self),
                n == self.options@.len(),
                n == self@.options.len(),
                forall|j: int| 0 <= j < n ==> #[trigger] self@.options[j] == self.options@[j]@,
                i <= n,
                find_key_from(self@.options, option_text(), value@, 0) == find_key_from(
                    self@.options,
                    option_text(),
                    value@,
                    i as int,
                ),
            decreases n - i,
        {
            if str_eq(self.options[i].as_str(), value) {
                proof {
                    assert(option_text()(self@.options[i as int]) == self@.options[i as int]);
                    assert(find_key_from(self@.options, option_text(), value@, i as int) == Some(
                        i as int,
                    ));
                }
                self.selected = Some(i);
                return;
            }
            i = i + 1;
        }
        proof {
            assert(find_key_from(self@.options, option_text(), value@, n as int) is None);
        }
        if n > 0 {
            self.selected = Some(0);
        }
    }
}

/// The majors offered on the student form, in display order.
pub open spec fn spec_majors() -> Seq<Seq<char>> {
    seq![
        "Computer Science"@,
        "Mathematics"@,
        "Physics"@,
        "Chemistry"@,
        "Biology"@,
        "Engineering"@,
        "Economics"@,
        "Business"@,
        "Psychology"@,
        "Sociology"@,
        "History"@,
        "English"@,
        "Philosophy"@,
        "Political Science"@,
        "Art"@,
        "Music"@,
        "Medicine"@,
        "Law"@,
    ]
}

/// The majors offered on the student form.
pub fn majors() -> (r: Vec<String>)
    ensures
        views(r@) == spec_majors(),
        r@.len() == 18,
{
    let mut v: Vec<String> = Vec::new();
    v.push(String::from_str("Computer Science"));
    v.push(String::from_str("Mathematics"));
    v.push(String::from_str("Physics"));
    v.push(String::from_str("Chemistry"));
    v.push(String::from_str("Biology"));
    v.push(String::from_str("Engineering"));
    v.push(String::from_str("Economics"));
    v.push(String::from_str("Business"));
    v.push(String::from_str("Psychology"));
    v.push(String::from_str("Sociology"));
    v.push(String::from_str("History"));
    v.push(String::from_str("English"));
    v.push(String::from_str("Philosophy"));
    v.push(String::from_str("Political Science"));
    v.push(String::from_str("Art"));
    v.push(String::from_str("Music"));
    v.push(String::from_str("Medicine"));
    v.push(String::from_str("Law"));
    proof {
        assert(views(v@) =~= spec_majors());
    }
    v
}

} // verus!
