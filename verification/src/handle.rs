use vstd::prelude::*;

use crate::positions::{find_position, position_of};

verus! {

/// What a `TLHandleActions` stands for: a toplevel window's title and app id,
/// whether it is the active window, and the keys of the actions run when it
/// becomes active and when it stops being active.
pub struct TLHandleActionsView {
    pub title: Seq<char>,
    pub id: Seq<char>,
    pub curr_active: bool,
    pub active_actions: Seq<u64>,
    pub deactive_actions: Seq<u64>,
}

/// A toplevel window as the compositor reports it, with the actions bound to
/// it. Actions are named by their keys in the application state.
pub struct TLHandleActions {
    title: String,
    id: String,
    curr_active: bool,
    active_actions: Vec<u64>,
    deactive_actions: Vec<u64>,
}

impl View for TLHandleActions {
    type V = TLHandleActionsView;

    closed spec fn view(&self) -> TLHandleActionsView {
        TLHandleActionsView {
            title: self.title@,
            id: self.id@,
            curr_active: self.curr_active,
            active_actions: self.active_actions@,
            deactive_actions: self.deactive_actions@,
        }
    }
}

/// How a state report changed whether the window is active.
#[derive(Debug)]
pub enum ActivityChange {
    /// It became active: the actions for activation run.
    Activated,
    /// It stopped being active: the actions for deactivation run.
    Deactivated,
    /// Nothing changed: no action runs.
    Unchanged,
}

/// The state entry that marks the window as activated.
pub open spec fn activated_entry() -> u8 {
    2
}

/// The window `h` after a state report whose raw bytes are `state`, and how
/// its activity changed. The report counts as "activated" where one of its
/// bytes is 2.
pub open spec fn state_step(h: TLHandleActionsView, state: Seq<u8>) -> (TLHandleActionsView, ActivityChange) {
    let on = state.contains(activated_entry());
    if !h.curr_active && on {
        (TLHandleActionsView { curr_active: true, ..h }, ActivityChange::Activated)
    } else if h.curr_active && !on {
        (TLHandleActionsView { curr_active: false, ..h }, ActivityChange::Deactivated)
    } else {
        (h, ActivityChange::Unchanged)
    }
}

/// `s` without the first occurrence of `k`; unchanged where `k` is absent.
pub open spec fn remove_first(s: Seq<u64>, k: u64) -> Seq<u64> {
    match position_of(s, k) {
        Some(i) => s.remove(i),
        None => s,
    }
}

/// `s` with the first occurrence of `old_key` replaced by `new_key`;
/// unchanged where `old_key` is absent.
pub open spec fn replace_first(s: Seq<u64>, old_key: u64, new_key: u64) -> Seq<u64> {
    match position_of(s, old_key) {
        Some(i) => s.update(i, new_key),
        None => s,
    }
}

/// A window that nothing has been reported of yet.
pub open spec fn fresh_handle() -> TLHandleActionsView {
    TLHandleActionsView {
        title: Seq::empty(),
        id: Seq::empty(),
        curr_active: false,
        active_actions: Seq::empty(),
        deactive_actions: Seq::empty(),
    }
}

/// Whether `bytes` holds `b`.
pub fn contains_byte(bytes: &[u8], b: u8) -> (res: bool)
    ensures
        res == bytes@.contains(b),
{
    let mut i: usize = 0;
    while i < bytes.len()
        invariant
            i <= bytes@.len(),
            forall|j: int| 0 <= j < i ==> bytes@[j] != b,
        decreases bytes@.len() - i,
    {
        if bytes[i] == b {
            assert(bytes@[i as int] == b);
            return true;
        }
        i = i + 1;
    }
    false
}

impl TLHandleActions {
    pub fn new() -> (res: TLHandleActions)
        ensures
            res@ == fresh_handle(),
    {
        TLHandleActions {
            title: String::new(),
            id: String::new(),
            curr_active: false,
            active_actions: Vec::new(),
            deactive_actions: Vec::new(),
        }
    }

    pub fn get_title(&self) -> (res: String)
        ensures
            res@ == self@.title,
    {
        self.title.clone()
    }

    pub fn app_id(&self) -> (res: &String)
        ensures
            res@ == self@.id,
    {
        &self.id
    }

    pub fn is_active(&self) -> (res: bool)
        ensures
            res == self@.curr_active,
    {
        self.curr_active
    }

    pub fn active_actions(&self) -> (res: &Vec<u64>)
        ensures
            res@ == self@.active_actions,
    {
        &self.active_actions
    }

    pub fn deactive_actions(&self) -> (res: &Vec<u64>)
        ensures
            res@ == self@.deactive_actions,
    {
        &self.deactive_actions
    }

    /// The compositor reported a new title.
    pub fn set_title(&mut self, title: String)
        ensures
            final(self)@ == (TLHandleActionsView { title: title@, ..old(self)@ }),
    {
        self.title = title;
    }

    /// The compositor reported a new app id.
    pub fn set_app_id(&mut self, app_id: String)
        ensures
            final(self)@ == (TLHandleActionsView { id: app_id@, ..old(self)@ }),
    {
        self.id = app_id;
    }

    /// The compositor reported the window's state as the raw bytes `state`.
    pub fn on_state(&mut self, state: &[u8]) -> (res: ActivityChange)
        ensures
            (final(self)@, res) == state_step(old(self)@, state@),
    {
        let on = contains_byte(state, 2);
        if !self.curr_active && on {
            self.curr_active = true;
            ActivityChange::Activated
        } else if self.curr_active && !on {
            self.curr_active = false;
            ActivityChange::Deactivated
        } else {
            ActivityChange::Unchanged
        }
    }

    /// Binds the action `key` to the window's activation, after the others.
    pub fn add_action(&mut self, key: u64)
        ensures
            final(self)@ == (TLHandleActionsView {
                active_actions: old(self)@.active_actions.push(key),
                ..old(self)@
            }),
    {
        self.active_actions.push(key);
    }

    /// Unbinds the first binding of the action `key` from the window's
    /// activation, if there is one.
    pub fn remove_action(&mut self, key: u64)
        ensures
            final(self)@ == (TLHandleActionsView {
                active_actions: remove_first(old(self)@.active_actions, key),
                ..old(self)@
            }),
    {
        match find_position(&self.active_actions, key) {
            Some(i) => {
                self.active_actions.remove(i);
            },
            None => {},
        }
    }

    /// Binds `new_key` in place of the first binding of `old_key`, if there
    /// is one.
    pub fn replace_action(&mut self, old_key: u64, new_key: u64)
        ensures
            final(self)@ == (TLHandleActionsView {
                active_actions: replace_first(old(self)@.active_actions, old_key, new_key),
                ..old(self)@
            }),
    {
        match find_position(&self.active_actions, old_key) {
            Some(i) => {
                self.active_actions.set(i, new_key);
            },
            None => {},
        }
    }
}

} // verus!
