use vstd::prelude::*;

use crate::actions::{
    actions_fit, insert_spec, lemma_insert_stored, lemma_lookup_stored, lookup_action, store_wf, stored,
    ActionStore, ActionStoreView,
};
use crate::handle::{
    fresh_handle, remove_first, replace_first, state_step, ActivityChange, TLHandleActions,
    TLHandleActionsView,
};
use crate::ids::{GeneratorIndex, GeneratorIndexView};
use crate::pactl::{unconfigured_action, ActionGenerator, PactlActionGenerator};
use crate::positions::{
    first_where, is_first_where, lemma_exists_first, lemma_first_where_found, lemma_first_where_none,
    lemma_first_where_some, position_of,
};

verus! {

/// The windows known to the application, each under its key.
pub struct WaylandView {
    pub handles: Seq<(u64, TLHandleActionsView)>,
    pub next_key: u64,
}

/// The toplevel windows that the compositor reported and that are not closed
/// yet, in the order in which they appeared, each under a key of its own.
pub struct Wayland {
    handles: Vec<(u64, TLHandleActions)>,
    next_key: u64,
}

pub open spec fn handles_view(v: Seq<(u64, TLHandleActions)>) -> Seq<(u64, TLHandleActionsView)> {
    v.map_values(|p: (u64, TLHandleActions)| (p.0, p.1@))
}

impl View for Wayland {
    type V = WaylandView;

    closed spec fn view(&self) -> WaylandView {
        WaylandView { handles: handles_view(self.handles@), next_key: self.next_key }
    }
}

/// Keys are unique, and every key was handed out before `next_key`.
pub open spec fn wayland_wf(w: WaylandView) -> bool {
    &&& forall|i: int, j: int|
        0 <= i < j < w.handles.len() ==> (#[trigger] w.handles[i]).0 != (#[trigger] w.handles[j]).0
    &&& forall|i: int| 0 <= i < w.handles.len() ==> (#[trigger] w.handles[i]).0 < w.next_key
}

/// A spec predicate on windows: the key is `k`.
pub open spec fn has_handle_key(k: u64) -> spec_fn((u64, TLHandleActionsView)) -> bool {
    |p: (u64, TLHandleActionsView)| p.0 == k
}

/// The position of the window `k`.
pub open spec fn handle_index(hs: Seq<(u64, TLHandleActionsView)>, k: u64) -> Option<int> {
    first_where(hs, has_handle_key(k))
}

/// The window `k`, if it is known.
pub open spec fn lookup_handle(w: WaylandView, k: u64) -> Option<TLHandleActionsView> {
    match handle_index(w.handles, k) {
        Some(i) => Some(w.handles[i].1),
        None => None,
    }
}

/// `w` with the window `k` changed by `f`; unchanged where `k` is unknown.
pub open spec fn map_handle(
    w: WaylandView,
    k: u64,
    f: spec_fn(TLHandleActionsView) -> TLHandleActionsView,
) -> WaylandView {
    match handle_index(w.handles, k) {
        Some(i) => WaylandView { handles: w.handles.update(i, (k, f(w.handles[i].1))), ..w },
        None => w,
    }
}

/// `w` after a new window appeared: it gets the next key, and nothing is
/// known of it yet. Where the keys are used up, nothing changes.
pub open spec fn add_handle_spec(w: WaylandView) -> (WaylandView, Option<u64>) {
    if w.next_key == u64::MAX {
        (w, None)
    } else {
        (
            WaylandView {
                handles: w.handles.push((w.next_key, fresh_handle())),
                next_key: (w.next_key + 1) as u64,
            },
            Some(w.next_key),
        )
    }
}

/// `w` after the window `k` was closed.
pub open spec fn remove_handle_spec(w: WaylandView, k: u64) -> WaylandView {
    match handle_index(w.handles, k) {
        Some(i) => WaylandView { handles: w.handles.remove(i), ..w },
        None => w,
    }
}

pub open spec fn with_title(t: Seq<char>) -> spec_fn(TLHandleActionsView) -> TLHandleActionsView {
    |h: TLHandleActionsView| TLHandleActionsView { title: t, ..h }
}

pub open spec fn with_app_id(t: Seq<char>) -> spec_fn(TLHandleActionsView) -> TLHandleActionsView {
    |h: TLHandleActionsView| TLHandleActionsView { id: t, ..h }
}

pub open spec fn with_state(state: Seq<u8>) -> spec_fn(TLHandleActionsView) -> TLHandleActionsView {
    |h: TLHandleActionsView| state_step(h, state).0
}

pub open spec fn with_added_action(a: u64) -> spec_fn(TLHandleActionsView) -> TLHandleActionsView {
    |h: TLHandleActionsView| TLHandleActionsView { active_actions: h.active_actions.push(a), ..h }
}

pub open spec fn with_removed_action(a: u64) -> spec_fn(TLHandleActionsView) -> TLHandleActionsView {
    |h: TLHandleActionsView| TLHandleActionsView { active_actions: remove_first(h.active_actions, a), ..h }
}

pub open spec fn with_replaced_action(a: u64, b: u64) -> spec_fn(TLHandleActionsView) -> TLHandleActionsView {
    |h: TLHandleActionsView| TLHandleActionsView {
        active_actions: replace_first(h.active_actions, a, b),
        ..h
    }
}

/// Changing a window keeps the keys, so it keeps `wayland_wf`.
pub proof fn lemma_map_handle_wf(
    w: WaylandView,
    k: u64,
    f: spec_fn(TLHandleActionsView) -> TLHandleActionsView,
)
    requires
        wayland_wf(w),
    ensures
        wayland_wf(map_handle(w, k, f)),
        map_handle(w, k, f).next_key == w.next_key,
        map_handle(w, k, f).handles.len() == w.handles.len(),
        forall|i: int| 0 <= i < w.handles.len() ==> (#[trigger] map_handle(w, k, f).handles[i]).0 == w.handles[i].0,
{
    if handle_index(w.handles, k) is Some {
        lemma_first_where_some(w.handles, has_handle_key(k));
        let i = handle_index(w.handles, k)->0;
        let w2 = map_handle(w, k, f);
        assert forall|j: int| 0 <= j < w.handles.len() implies (#[trigger] w2.handles[j]).0 == w.handles[j].0 by {
            if j == i {
                assert(has_handle_key(k)(w.handles[i]));
            }
        }
    }
}

/// Changing window `k` by `f` changes what a lookup of `k` finds by `f`, and
/// nothing else.
pub proof fn lemma_lookup_map_handle(
    w: WaylandView,
    k: u64,
    f: spec_fn(TLHandleActionsView) -> TLHandleActionsView,
    k2: u64,
)
    requires
        wayland_wf(w),
    ensures
        lookup_handle(map_handle(w, k, f), k2) == (if k2 == k {
            match lookup_handle(w, k) {
                Some(h) => Some(f(h)),
                None => None,
            }
        } else {
            lookup_handle(w, k2)
        }),
{
    let w2 = map_handle(w, k, f);
    lemma_map_handle_wf(w, k, f);
    match handle_index(w.handles, k2) {
        Some(j) => {
            lemma_first_where_some(w.handles, has_handle_key(k2));
            assert(is_first_where(w2.handles, has_handle_key(k2), j));
            lemma_first_where_found(w2.handles, has_handle_key(k2), j);
            if k2 != k && handle_index(w.handles, k) is Some {
                lemma_first_where_some(w.handles, has_handle_key(k));
            }
        },
        None => {
            assert forall|j: int| 0 <= j < w2.handles.len() implies !has_handle_key(k2)(
                #[trigger] w2.handles[j],
            ) by {
                if has_handle_key(k2)(w2.handles[j]) {
                    assert(has_handle_key(k2)(w.handles[j]));
                    assert(exists|i: int| is_first_where(w.handles, has_handle_key(k2), i)) by {
                        lemma_exists_first(w.handles, has_handle_key(k2), j);
                    }
                }
            }
            lemma_first_where_none(w2.handles, has_handle_key(k2));
        },
    }
}

/// A message about the actions bound to windows.
#[derive(Clone, Debug)]
pub enum WLIcedMessage {
    /// Change the action `.2` of window `.1` into a new action of generator
    /// `.0`; where `.2` is none, bind a new action of generator `.0`.
    ChangeActiveActionType(GeneratorIndex, u64, Option<u64>),
    /// Unbind the action `.1` from window `.0`.
    RemoveAction(u64, u64),
    /// Bind the action `.1` to window `.0`.
    AddAction(u64, u64),
}

/// What a `ChangeActiveActionType` message does. Without an action to
/// replace, a new action of the chosen generator is bound to the window.
/// With one, nothing happens where it already belongs to the chosen
/// generator or is not bound to the window; otherwise a new action of the
/// chosen generator takes its place. A new action is stored only where it
/// is bound.
pub open spec fn change_type_spec(
    w: WaylandView,
    st: ActionStoreView,
    gi: GeneratorIndexView,
    hk: u64,
    old_action: Option<u64>,
) -> (WaylandView, ActionStoreView) {
    match old_action {
        None => match lookup_handle(w, hk) {
            None => (w, st),
            Some(_) => match insert_spec(st, unconfigured_action(gi)).1 {
                Some(k) => (map_handle(w, hk, with_added_action(k)), insert_spec(st, unconfigured_action(gi)).0),
                None => (w, st),
            },
        },
        Some(a) => match lookup_action(st, a) {
            None => (w, st),
            Some(av) => if av.generator.index == gi.index {
                (w, st)
            } else {
                match lookup_handle(w, hk) {
                    None => (w, st),
                    Some(h) => if position_of(h.active_actions, a) is None {
                        (w, st)
                    } else {
                        match insert_spec(st, unconfigured_action(gi)).1 {
                            Some(k) => (
                                map_handle(w, hk, with_replaced_action(a, k)),
                                insert_spec(st, unconfigured_action(gi)).0,
                            ),
                            None => (w, st),
                        }
                    }
                }
            },
        },
    }
}

/// What a message about the actions bound to windows does.
pub open spec fn wl_update_spec(w: WaylandView, st: ActionStoreView, m: WLIcedMessage) -> (WaylandView, ActionStoreView) {
    match m {
        WLIcedMessage::ChangeActiveActionType(gi, hk, a) => change_type_spec(w, st, gi@, hk, a),
        WLIcedMessage::RemoveAction(hk, a) => (map_handle(w, hk, with_removed_action(a)), st),
        WLIcedMessage::AddAction(hk, a) => (map_handle(w, hk, with_added_action(a)), st),
    }
}

/// What a message asks of the state: the generator it names must exist, and
/// an action it binds must be stored.
pub open spec fn wl_message_fits(m: WLIcedMessage, n: nat, st: ActionStoreView) -> bool {
    match m {
        WLIcedMessage::ChangeActiveActionType(gi, _, _) => gi.index < n,
        WLIcedMessage::AddAction(_, a) => stored(st, a),
        _ => true,
    }
}

/// Every action bound to the window `h` is stored in `st`.
pub open spec fn handle_stored(h: TLHandleActionsView, st: ActionStoreView) -> bool {
    &&& forall|j: int| 0 <= j < h.active_actions.len() ==> stored(st, #[trigger] h.active_actions[j])
    &&& forall|j: int| 0 <= j < h.deactive_actions.len() ==> stored(st, #[trigger] h.deactive_actions[j])
}

/// Every action bound to a known window is stored in `st`.
pub open spec fn bindings_stored(w: WaylandView, st: ActionStoreView) -> bool {
    forall|i: int| 0 <= i < w.handles.len() ==> handle_stored(#[trigger] w.handles[i].1, st)
}

/// Storing more keeps every binding stored.
pub proof fn lemma_bindings_grow(w: WaylandView, st: ActionStoreView, st2: ActionStoreView)
    requires
        bindings_stored(w, st),
        forall|k: u64| stored(st, k) ==> #[trigger] stored(st2, k),
    ensures
        bindings_stored(w, st2),
{
    assert forall|i: int| 0 <= i < w.handles.len() implies handle_stored(#[trigger] w.handles[i].1, st2) by {
        let h = w.handles[i].1;
        assert(handle_stored(h, st));
        assert forall|j: int| 0 <= j < h.active_actions.len() implies stored(st2, #[trigger] h.active_actions[j]) by {
            assert(stored(st, h.active_actions[j]));
        }
        assert forall|j: int| 0 <= j < h.deactive_actions.len() implies stored(st2, #[trigger] h.deactive_actions[j]) by {
            assert(stored(st, h.deactive_actions[j]));
        }
    }
}

/// A change of a window that keeps its bindings stored keeps all bindings
/// stored.
pub proof fn lemma_bindings_map_handle(
    w: WaylandView,
    st: ActionStoreView,
    k: u64,
    f: spec_fn(TLHandleActionsView) -> TLHandleActionsView,
)
    requires
        bindings_stored(w, st),
        forall|h: TLHandleActionsView| handle_stored(h, st) ==> #[trigger] handle_stored(f(h), st),
    ensures
        bindings_stored(map_handle(w, k, f), st),
{
    let w2 = map_handle(w, k, f);
    if handle_index(w.handles, k) is Some {
        let i = handle_index(w.handles, k)->0;
        lemma_first_where_some(w.handles, has_handle_key(k));
        assert forall|j: int| 0 <= j < w2.handles.len() implies handle_stored(#[trigger] w2.handles[j].1, st) by {
            if j == i {
                assert(handle_stored(w.handles[i].1, st));
                assert(handle_stored(f(w.handles[i].1), st));
            } else {
                assert(w2.handles[j] == w.handles[j]);
            }
        }
    }
}

/// Closing a window keeps all bindings stored.
pub proof fn lemma_bindings_remove_handle(w: WaylandView, st: ActionStoreView, k: u64)
    requires
        bindings_stored(w, st),
    ensures
        bindings_stored(remove_handle_spec(w, k), st),
{
    let w2 = remove_handle_spec(w, k);
    if handle_index(w.handles, k) is Some {
        let i = handle_index(w.handles, k)->0;
        assert forall|j: int| 0 <= j < w2.handles.len() implies handle_stored(#[trigger] w2.handles[j].1, st) by {
            if j < i {
                assert(w2.handles[j] == w.handles[j]);
            } else {
                assert(w2.handles[j] == w.handles[j + 1]);
            }
        }
    }
}

/// A new window binds nothing, so all bindings stay stored.
pub proof fn lemma_bindings_add_handle(w: WaylandView, st: ActionStoreView)
    requires
        bindings_stored(w, st),
    ensures
        bindings_stored(add_handle_spec(w).0, st),
{
    let w2 = add_handle_spec(w).0;
    assert forall|j: int| 0 <= j < w2.handles.len() implies handle_stored(#[trigger] w2.handles[j].1, st) by {
        if j < w.handles.len() {
            assert(w2.handles[j] == w.handles[j]);
        }
    }
}

/// Binding a stored action keeps a window's bindings stored.
pub proof fn lemma_added_stored(st: ActionStoreView, a: u64)
    requires
        stored(st, a),
    ensures
        forall|h: TLHandleActionsView| handle_stored(h, st) ==> #[trigger] handle_stored(with_added_action(a)(h), st),
{
    assert forall|h: TLHandleActionsView| handle_stored(h, st) implies #[trigger] handle_stored(
        with_added_action(a)(h),
        st,
    ) by {
        let s2 = h.active_actions.push(a);
        assert forall|j: int| 0 <= j < s2.len() implies stored(st, #[trigger] s2[j]) by {
            if j < h.active_actions.len() {
                assert(s2[j] == h.active_actions[j]);
            }
        }
    }
}

/// Unbinding keeps a window's bindings stored.
pub proof fn lemma_removed_stored(st: ActionStoreView, a: u64)
    ensures
        forall|h: TLHandleActionsView| handle_stored(h, st) ==> #[trigger] handle_stored(with_removed_action(a)(h), st),
{
    assert forall|h: TLHandleActionsView| handle_stored(h, st) implies #[trigger] handle_stored(
        with_removed_action(a)(h),
        st,
    ) by {
        let s = h.active_actions;
        let s2 = remove_first(s, a);
        if position_of(s, a) is Some {
            let p = position_of(s, a)->0;
            lemma_first_where_some(s, crate::positions::equals_key(a));
            assert forall|j: int| 0 <= j < s2.len() implies stored(st, #[trigger] s2[j]) by {
                if j < p {
                    assert(s2[j] == s[j]);
                } else {
                    assert(s2[j] == s[j + 1]);
                }
            }
        }
    }
}

/// Binding a stored action in place of another keeps a window's bindings
/// stored.
pub proof fn lemma_replaced_stored(st: ActionStoreView, a: u64, b: u64)
    requires
        stored(st, b),
    ensures
        forall|h: TLHandleActionsView| handle_stored(h, st) ==> #[trigger] handle_stored(with_replaced_action(a, b)(h), st),
{
    assert forall|h: TLHandleActionsView| handle_stored(h, st) implies #[trigger] handle_stored(
        with_replaced_action(a, b)(h),
        st,
    ) by {
        let s = h.active_actions;
        let s2 = replace_first(s, a, b);
        if position_of(s, a) is Some {
            let p = position_of(s, a)->0;
            lemma_first_where_some(s, crate::positions::equals_key(a));
            assert forall|j: int| 0 <= j < s2.len() implies stored(st, #[trigger] s2[j]) by {
                if j != p {
                    assert(s2[j] == s[j]);
                }
            }
        }
    }
}

/// Title, app id and state reports keep a window's bindings.
pub proof fn lemma_reports_stored(st: ActionStoreView, t: Seq<char>, state: Seq<u8>)
    ensures
        forall|h: TLHandleActionsView| handle_stored(h, st) ==> #[trigger] handle_stored(with_title(t)(h), st),
        forall|h: TLHandleActionsView| handle_stored(h, st) ==> #[trigger] handle_stored(with_app_id(t)(h), st),
        forall|h: TLHandleActionsView| handle_stored(h, st) ==> #[trigger] handle_stored(with_state(state)(h), st),
{
}

impl Wayland {
    /// No window known yet.
    pub fn new() -> (res: Wayland)
        ensures
            res@ == (WaylandView { handles: Seq::empty(), next_key: 0 }),
            wayland_wf(res@),
    {
        let res = Wayland { handles: Vec::new(), next_key: 0 };
        assert(res@.handles =~= Seq::empty());
        res
    }

    /// The windows, in order, each under its key.
    pub fn handles(&self) -> (res: &Vec<(u64, TLHandleActions)>)
        ensures
            handles_view(res@) == self@.handles,
    {
        &self.handles
    }

    /// The position of the window `k`.
    pub fn find_handle(&self, k: u64) -> (res: Option<usize>)
        ensures
            res matches Some(i) ==> handle_index(self@.handles, k) == Some(i as int),
            res is None ==> handle_index(self@.handles, k) is None,
    {
        let mut i: usize = 0;
        while i < self.handles.len()
            invariant
                i <= self.handles@.len(),
                forall|j: int| 0 <= j < i ==> (#[trigger] self.handles@[j]).0 != k,
            decreases self.handles@.len() - i,
        {
            if self.handles[i].0 == k {
                proof {
                    assert(is_first_where(self@.handles, has_handle_key(k), i as int));
                    lemma_first_where_found(self@.handles, has_handle_key(k), i as int);
                }
                return Some(i);
            }
            i = i + 1;
        }
        proof {
            assert forall|j: int| 0 <= j < self@.handles.len() implies !has_handle_key(k)(
                #[trigger] self@.handles[j],
            ) by {
                assert(self@.handles[j].0 == self.handles@[j].0);
            }
            lemma_first_where_none(self@.handles, has_handle_key(k));
        }
        None
    }

    /// The window `k`, if it is known.
    pub fn handle(&self, k: u64) -> (res: Option<&TLHandleActions>)
        ensures
            res matches Some(h) ==> lookup_handle(self@, k) == Some(h@),
            res is None ==> lookup_handle(self@, k) is None,
    {
        match self.find_handle(k) {
            Some(i) => Some(&self.handles[i].1),
            None => None,
        }
    }

    /// A new window appeared; returns its key.
    pub fn add_handle(&mut self) -> (res: Option<u64>)
        requires
            wayland_wf(old(self)@),
        ensures
            (final(self)@, res) == add_handle_spec(old(self)@),
            wayland_wf(final(self)@),
    {
        if self.next_key == u64::MAX {
            return None;
        }
        let k = self.next_key;
        self.handles.push((k, TLHandleActions::new()));
        self.next_key = k + 1;
        assert(self@.handles =~= old(self)@.handles.push((k, fresh_handle())));
        Some(k)
    }

    /// The window `k` was closed: it is forgotten.
    pub fn remove_handle(&mut self, k: u64)
        requires
            wayland_wf(old(self)@),
        ensures
            final(self)@ == remove_handle_spec(old(self)@, k),
            wayland_wf(final(self)@),
    {
        match self.find_handle(k) {
            Some(i) => {
                self.handles.remove(i);
                assert(self@.handles =~= old(self)@.handles.remove(i as int));
            },
            None => {},
        }
    }

    fn take_handle(&mut self, i: usize) -> (res: (u64, TLHandleActions))
        requires
            i < old(self)@.handles.len(),
        ensures
            res.0 == old(self)@.handles[i as int].0,
            res.1@ == old(self)@.handles[i as int].1,
            final(self)@ == (WaylandView { handles: old(self)@.handles.remove(i as int), ..old(self)@ }),
    {
        let res = self.handles.remove(i);
        assert(self@.handles =~= old(self)@.handles.remove(i as int));
        res
    }

    fn put_handle(&mut self, i: usize, k: u64, h: TLHandleActions)
        requires
            i <= old(self)@.handles.len(),
        ensures
            final(self)@ == (WaylandView { handles: old(self)@.handles.insert(i as int, (k, h@)), ..old(self)@ }),
    {
        self.handles.insert(i, (k, h));
        assert(self@.handles =~= old(self)@.handles.insert(i as int, (k, h@)));
    }

    /// The window `k` got the title `title`; returns whether `k` is known.
    pub fn set_title(&mut self, k: u64, title: String) -> (found: bool)
        ensures
            final(self)@ == map_handle(old(self)@, k, with_title(title@)),
            found == lookup_handle(old(self)@, k) is Some,
    {
        match self.find_handle(k) {
            Some(i) => {
                let ghost t = title@;
                let (key, mut h) = self.take_handle(i);
                h.set_title(title);
                self.put_handle(i, key, h);
                assert(self@.handles =~= old(self)@.handles.update(i as int, (k, with_title(t)(old(self)@.handles[i as int].1))));
                true
            },
            None => false,
        }
    }

    /// The window `k` got the app id `app_id`.
    pub fn set_app_id(&mut self, k: u64, app_id: String)
        ensures
            final(self)@ == map_handle(old(self)@, k, with_app_id(app_id@)),
    {
        match self.find_handle(k) {
            Some(i) => {
                let ghost t = app_id@;
                let (key, mut h) = self.take_handle(i);
                h.set_app_id(app_id);
                self.put_handle(i, key, h);
                assert(self@.handles =~= old(self)@.handles.update(i as int, (k, with_app_id(t)(old(self)@.handles[i as int].1))));
            },
            None => {},
        }
    }

    /// The compositor reported the state of window `k` as the raw bytes
    /// `state`; returns how its activity changed, none where `k` is unknown.
    pub fn on_state(&mut self, k: u64, state: &[u8]) -> (res: Option<ActivityChange>)
        ensures
            final(self)@ == map_handle(old(self)@, k, with_state(state@)),
            res matches Some(c) ==> lookup_handle(old(self)@, k) matches Some(h) && c == state_step(h, state@).1,
            res is None <==> lookup_handle(old(self)@, k) is None,
    {
        match self.find_handle(k) {
            Some(i) => {
                let (key, mut h) = self.take_handle(i);
                let c = h.on_state(state);
                self.put_handle(i, key, h);
                assert(self@.handles =~= old(self)@.handles.update(i as int, (k, with_state(state@)(old(self)@.handles[i as int].1))));
                Some(c)
            },
            None => None,
        }
    }

    /// Binds the action `a` to the activation of window `k`.
    pub fn add_action(&mut self, k: u64, a: u64)
        ensures
            final(self)@ == map_handle(old(self)@, k, with_added_action(a)),
    {
        match self.find_handle(k) {
            Some(i) => {
                let (key, mut h) = self.take_handle(i);
                h.add_action(a);
                self.put_handle(i, key, h);
                assert(self@.handles =~= old(self)@.handles.update(i as int, (k, with_added_action(a)(old(self)@.handles[i as int].1))));
            },
            None => {},
        }
    }

    /// Unbinds the first binding of the action `a` from window `k`.
    pub fn remove_action(&mut self, k: u64, a: u64)
        ensures
            final(self)@ == map_handle(old(self)@, k, with_removed_action(a)),
    {
        match self.find_handle(k) {
            Some(i) => {
                let (key, mut h) = self.take_handle(i);
                h.remove_action(a);
                self.put_handle(i, key, h);
                assert(self@.handles =~= old(self)@.handles.update(i as int, (k, with_removed_action(a)(old(self)@.handles[i as int].1))));
            },
            None => {},
        }
    }

    /// Carries out `message`; new actions are built by `generators` and kept
    /// in `actions`.
    pub fn update(
        &mut self,
        message: WLIcedMessage,
        generators: &Vec<PactlActionGenerator>,
        actions: &mut ActionStore,
    )
        requires
            wayland_wf(old(self)@),
            store_wf(old(actions)@),
            actions_fit(old(actions)@, generators@.len()),
            wl_message_fits(message, generators@.len(), old(actions)@),
            bindings_stored(old(self)@, old(actions)@),
        ensures
            (final(self)@, final(actions)@) == wl_update_spec(old(self)@, old(actions)@, message),
            wayland_wf(final(self)@),
            store_wf(final(actions)@),
            actions_fit(final(actions)@, generators@.len()),
            bindings_stored(final(self)@, final(actions)@),
    {
        match message {
            WLIcedMessage::ChangeActiveActionType(gi, hk, old_action) => {
                match old_action {
                    None => {
                        if self.find_handle(hk).is_none() {
                            return;
                        }
                        let gener = &generators[gi.index];
                        let built = gener.build_action(gi);
                        match built {
                            Ok(a) => {
                                proof { lemma_insert_stored(actions@, a@); }
                                match actions.insert(a) {
                                    Some(k) => {
                                        self.add_action(hk, k);
                                        proof {
                                            lemma_map_handle_wf(old(self)@, hk, with_added_action(k));
                                            lemma_bindings_grow(old(self)@, old(actions)@, actions@);
                                            lemma_added_stored(actions@, k);
                                            lemma_bindings_map_handle(old(self)@, actions@, hk, with_added_action(k));
                                        }
                                    },
                                    None => {},
                                }
                            },
                            Err(_) => {},
                        }
                    },
                    Some(a) => {
                        let current = match actions.get(a) {
                            Some(act) => act.get_generator().index,
                            None => {
                                return;
                            },
                        };
                        if current == gi.index {
                            return;
                        }
                        let bound = match self.handle(hk) {
                            Some(h) => crate::positions::find_position(h.active_actions(), a).is_some(),
                            None => false,
                        };
                        if !bound {
                            return;
                        }
                        let gener = &generators[gi.index];
                        let built = gener.build_action(gi);
                        match built {
                            Ok(new_action) => {
                                proof { lemma_insert_stored(actions@, new_action@); }
                                match actions.insert(new_action) {
                                    Some(k) => {
                                        self.replace_action(hk, a, k);
                                        proof {
                                            lemma_map_handle_wf(old(self)@, hk, with_replaced_action(a, k));
                                            lemma_bindings_grow(old(self)@, old(actions)@, actions@);
                                            lemma_replaced_stored(actions@, a, k);
                                            lemma_bindings_map_handle(old(self)@, actions@, hk, with_replaced_action(a, k));
                                        }
                                    },
                                    None => {},
                                }
                            },
                            Err(_) => {},
                        }
                    },
                }
            },
            WLIcedMessage::RemoveAction(hk, a) => {
                self.remove_action(hk, a);
                proof {
                    lemma_map_handle_wf(old(self)@, hk, with_removed_action(a));
                    lemma_removed_stored(actions@, a);
                    lemma_bindings_map_handle(old(self)@, actions@, hk, with_removed_action(a));
                }
            },
            WLIcedMessage::AddAction(hk, a) => {
                self.add_action(hk, a);
                proof {
                    lemma_map_handle_wf(old(self)@, hk, with_added_action(a));
                    lemma_added_stored(actions@, a);
                    lemma_bindings_map_handle(old(self)@, actions@, hk, with_added_action(a));
                }
            },
        }
    }

    /// Binds `b` in place of the first binding of `a` to window `k`.
    pub fn replace_action(&mut self, k: u64, a: u64, b: u64)
        ensures
            final(self)@ == map_handle(old(self)@, k, with_replaced_action(a, b)),
    {
        match self.find_handle(k) {
            Some(i) => {
                let (key, mut h) = self.take_handle(i);
                h.replace_action(a, b);
                self.put_handle(i, key, h);
                assert(self@.handles =~= old(self)@.handles.update(i as int, (k, with_replaced_action(a, b)(old(self)@.handles[i as int].1))));
            },
            None => {},
        }
    }
}

} // verus!
