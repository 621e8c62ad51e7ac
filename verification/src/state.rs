use vstd::prelude::*;

use crate::actions::{
    lemma_insert_stored, lemma_update_stored,
    actions_fit, gens_view, insert_spec, lookup_action, store_wf, update_action_spec, ActionStore,
    ActionStoreView,
};
use crate::handle::{state_step, ActivityChange};
use crate::ids::{
    ActionDataID, ActionDesc, ActionDescView, EventDesc, EventDescView, GeneratorIndex, GeneratorIndexView,
};
use crate::pactl::{
    action_by_desc, opt_data_view, pactl_action_name, pactl_display_name, ActionGenerator,
    PactlActionGenerator, PactlActionGeneratorView,
};
use crate::positions::{first_where, is_first_where, lemma_first_where_found, lemma_first_where_none};
use crate::wayland::{
    bindings_stored, lemma_added_stored, lemma_bindings_add_handle, lemma_bindings_grow,
    lemma_bindings_map_handle, lemma_bindings_remove_handle, lemma_reports_stored,
    add_handle_spec, lemma_map_handle_wf, lookup_handle, map_handle, remove_handle_spec, wayland_wf,
    with_added_action, with_app_id, with_state, with_title, wl_message_fits, wl_update_spec, Wayland,
    WaylandView, WLIcedMessage,
};

verus! {

/// A message handled by the application state.
#[derive(Clone, Debug)]
pub enum IcedMessage {
    /// Something new was reported of the window `.0`.
    NewWlEvent(u64),
    /// The action `.0` was configured with the choice `.1`.
    UpdateAction(u64, ActionDataID),
    /// A message about the actions bound to windows.
    Wayland(WLIcedMessage),
    /// Nothing to do; the view is drawn again.
    Noop,
}

/// What the application state stands for.
pub struct IcedStateView {
    pub generators: Seq<PactlActionGeneratorView>,
    pub generators_state: Seq<GeneratorIndexView>,
    pub wayland: WaylandView,
    pub saved_actions: Seq<(EventDescView, ActionDescView)>,
    pub actions: ActionStoreView,
}

/// The application state: the action generators and the choices that name
/// them, the known windows, the actions bound to windows by event, and the
/// actions that were built.
pub struct IcedState {
    generators: Vec<PactlActionGenerator>,
    generators_state: Vec<GeneratorIndex>,
    wayland: Wayland,
    saved_actions: Vec<(EventDesc, ActionDesc)>,
    actions: ActionStore,
}

impl View for IcedState {
    type V = IcedStateView;

    closed spec fn view(&self) -> IcedStateView {
        IcedStateView {
            generators: gens_view(self.generators@),
            generators_state: self.generators_state@.map_values(|g: GeneratorIndex| g@),
            wayland: self.wayland@,
            saved_actions: self.saved_actions@.map_values(|p: (EventDesc, ActionDesc)| (p.0@, p.1@)),
            actions: self.actions@,
        }
    }
}

/// The choice that names generator `i`.
pub open spec fn generator_choice(i: int) -> GeneratorIndexView {
    GeneratorIndexView { index: i as usize, name: pactl_display_name() }
}

/// The state is well formed: one choice per generator, naming it; keys of
/// windows and of actions unique; every action built by a known generator;
/// at most one action saved per event; every action bound to a window
/// stored.
pub open spec fn state_wf(s: IcedStateView) -> bool {
    &&& s.generators_state.len() == s.generators.len()
    &&& forall|i: int| 0 <= i < s.generators.len() ==> #[trigger] s.generators_state[i] == generator_choice(i)
    &&& wayland_wf(s.wayland)
    &&& store_wf(s.actions)
    &&& actions_fit(s.actions, s.generators.len())
    &&& forall|i: int, j: int|
        0 <= i < j < s.saved_actions.len() ==> (#[trigger] s.saved_actions[i]).0 != (#[trigger] s.saved_actions[j]).0
    &&& bindings_stored(s.wayland, s.actions)
}

/// A spec predicate on saved bindings: the event is `ev`.
pub open spec fn has_event(ev: EventDescView) -> spec_fn((EventDescView, ActionDescView)) -> bool {
    |p: (EventDescView, ActionDescView)| p.0 == ev
}

/// The action saved for the event `ev`, if any.
pub open spec fn saved_for(saved: Seq<(EventDescView, ActionDescView)>, ev: EventDescView) -> Option<ActionDescView> {
    match first_where(saved, has_event(ev)) {
        Some(i) => Some(saved[i].1),
        None => None,
    }
}

/// The event that a window with title `title` stands for.
pub open spec fn title_event(title: Seq<char>) -> EventDescView {
    EventDescView { provider_desc: Seq::empty(), event_desc: title }
}

/// Windows and actions after the first `n` generators were offered the
/// saved action `ad` for window `hk`: each generator whose action name is
/// `ad.gen_desc` builds an action after `ad.action_desc`, which is stored
/// and bound to the window.
pub open spec fn saved_action_fold(
    w: WaylandView,
    st: ActionStoreView,
    hk: u64,
    gens: Seq<PactlActionGeneratorView>,
    ad: ActionDescView,
    n: nat,
) -> (WaylandView, ActionStoreView)
    decreases n,
{
    if n == 0 {
        (w, st)
    } else {
        let prev = saved_action_fold(w, st, hk, gens, ad, (n - 1) as nat);
        if pactl_action_name() == ad.gen_desc {
            let a = action_by_desc(gens[n - 1], generator_choice(n - 1), ad.action_desc);
            match insert_spec(prev.1, a).1 {
                Some(k) => (map_handle(prev.0, hk, with_added_action(k)), insert_spec(prev.1, a).0),
                None => prev,
            }
        } else {
            prev
        }
    }
}

/// What `NewWlEvent(hk)` does: where an action was saved for the window's
/// title, every generator that builds such actions binds one to the window.
pub open spec fn new_wl_event_spec(s: IcedStateView, hk: u64) -> IcedStateView {
    match lookup_handle(s.wayland, hk) {
        None => s,
        Some(h) => match saved_for(s.saved_actions, title_event(h.title)) {
            None => s,
            Some(ad) => {
                let r = saved_action_fold(s.wayland, s.actions, hk, s.generators, ad, s.generators.len());
                IcedStateView { wayland: r.0, actions: r.1, ..s }
            },
        },
    }
}

/// What a message does to the state.
pub open spec fn update_spec(s: IcedStateView, m: IcedMessage) -> IcedStateView {
    match m {
        IcedMessage::NewWlEvent(hk) => new_wl_event_spec(s, hk),
        IcedMessage::UpdateAction(k, data) => IcedStateView {
            actions: update_action_spec(s.actions, k, s.generators, data@),
            ..s
        },
        IcedMessage::Wayland(wm) => {
            let r = wl_update_spec(s.wayland, s.actions, wm);
            IcedStateView { wayland: r.0, actions: r.1, ..s }
        },
        IcedMessage::Noop => s,
    }
}

/// What a message asks of the state: the generator it names must exist.
pub open spec fn message_fits(s: IcedStateView, m: IcedMessage) -> bool {
    match m {
        IcedMessage::Wayland(wm) => wl_message_fits(wm, s.generators.len(), s.actions),
        _ => true,
    }
}

/// What one row of bound actions shows: the action's key, the generator it
/// belongs to and the source chosen for it.
pub struct ActionRowView {
    pub key: u64,
    pub generator: GeneratorIndexView,
    pub source: Option<crate::ids::ActionDataIDView>,
}

/// One row of bound actions in the view.
pub struct ActionRow {
    pub key: u64,
    pub generator: GeneratorIndex,
    pub source: Option<ActionDataID>,
}

impl View for ActionRow {
    type V = ActionRowView;

    open spec fn view(&self) -> ActionRowView {
        ActionRowView { key: self.key, generator: self.generator@, source: opt_data_view(self.source) }
    }
}

/// What the view shows of one window: its key, its title and one row per
/// bound action.
pub struct HandleRowView {
    pub key: u64,
    pub title: Seq<char>,
    pub actions: Seq<ActionRowView>,
}

/// What the view shows of one window.
pub struct HandleRow {
    pub key: u64,
    pub title: String,
    pub actions: Vec<ActionRow>,
}

impl View for HandleRow {
    type V = HandleRowView;

    open spec fn view(&self) -> HandleRowView {
        HandleRowView {
            key: self.key,
            title: self.title@,
            actions: self.actions@.map_values(|r: ActionRow| r@),
        }
    }
}

/// The rows shown for the actions `keys`, in order: one for each key whose
/// action exists.
pub open spec fn action_rows(keys: Seq<u64>, st: ActionStoreView) -> Seq<ActionRowView>
    decreases keys.len(),
{
    if keys.len() == 0 {
        Seq::empty()
    } else {
        let prev = action_rows(keys.drop_last(), st);
        match lookup_action(st, keys.last()) {
            Some(a) => prev.push(ActionRowView { key: keys.last(), generator: a.generator, source: a.source }),
            None => prev,
        }
    }
}

/// What the view shows: every known window in order, with its bound actions.
pub open spec fn view_rows(s: IcedStateView) -> Seq<HandleRowView> {
    s.wayland.handles.map_values(
        |p: (u64, crate::handle::TLHandleActionsView)|
            HandleRowView { key: p.0, title: p.1.title, actions: action_rows(p.1.active_actions, s.actions) },
    )
}

/// What the compositor reported of one window.
#[derive(Debug)]
pub enum HandleEvent {
    Title(String),
    AppId(String),
    /// The window's state, as the raw bytes of the protocol's array.
    State(Vec<u8>),
    Closed,
    /// Anything else, which changes nothing.
    Other,
}

/// What the application has to do after a window event: the message to send
/// to itself, if any, and the scripts to run with `sh -c`, in order.
pub struct HandleEventOutcome {
    pub notify: Option<IcedMessage>,
    pub commands: Vec<String>,
}

/// The scripts that triggering the actions `keys` runs, in order: one for
/// each key whose action exists and has a script.
pub open spec fn scripts_of(keys: Seq<u64>, st: ActionStoreView) -> Seq<Seq<char>>
    decreases keys.len(),
{
    if keys.len() == 0 {
        Seq::empty()
    } else {
        let prev = scripts_of(keys.drop_last(), st);
        match lookup_action(st, keys.last()) {
            Some(a) => match a.command {
                Some(c) => prev.push(c),
                None => prev,
            },
            None => prev,
        }
    }
}

/// The scripts that a state report `state` for window `hk` runs: those of
/// its activation actions where it becomes active, of its deactivation
/// actions where it stops being active, none otherwise.
pub open spec fn state_scripts(w: WaylandView, st: ActionStoreView, hk: u64, state: Seq<u8>) -> Seq<Seq<char>> {
    match lookup_handle(w, hk) {
        None => Seq::empty(),
        Some(h) => match state_step(h, state).1 {
            ActivityChange::Activated => scripts_of(h.active_actions, st),
            ActivityChange::Deactivated => scripts_of(h.deactive_actions, st),
            ActivityChange::Unchanged => Seq::empty(),
        },
    }
}

/// The windows after event `e` of window `hk`.
pub open spec fn handle_event_wayland(w: WaylandView, hk: u64, e: HandleEvent) -> WaylandView {
    match e {
        HandleEvent::Title(t) => map_handle(w, hk, with_title(t@)),
        HandleEvent::AppId(t) => map_handle(w, hk, with_app_id(t@)),
        HandleEvent::State(b) => map_handle(w, hk, with_state(b@)),
        HandleEvent::Closed => remove_handle_spec(w, hk),
        HandleEvent::Other => w,
    }
}

/// The message sent after event `e` of window `hk`: a new title of a known
/// window is announced, a closed window makes the view be drawn again.
pub open spec fn handle_event_notice(w: WaylandView, hk: u64, e: HandleEvent) -> Option<IcedMessage> {
    match e {
        HandleEvent::Title(_) => if lookup_handle(w, hk) is Some {
            Some(IcedMessage::NewWlEvent(hk))
        } else {
            None
        },
        HandleEvent::Closed => Some(IcedMessage::Noop),
        _ => None,
    }
}

/// The scripts run after event `e` of window `hk`.
pub open spec fn handle_event_scripts(w: WaylandView, st: ActionStoreView, hk: u64, e: HandleEvent) -> Seq<Seq<char>> {
    match e {
        HandleEvent::State(b) => state_scripts(w, st, hk, b@),
        _ => Seq::empty(),
    }
}

impl IcedState {
    /// The scripts of the actions `keys`, in order.
    fn scripts(&self, keys: &Vec<u64>) -> (res: Vec<String>)
        ensures
            res@.map_values(|c: String| c@) == scripts_of(keys@, self@.actions),
    {
        let mut res: Vec<String> = Vec::new();
        let mut i: usize = 0;
        while i < keys.len()
            invariant
                i <= keys@.len(),
                res@.map_values(|c: String| c@) == scripts_of(keys@.take(i as int), self@.actions),
            decreases keys@.len() - i,
        {
            assert(keys@.take(i + 1).drop_last() =~= keys@.take(i as int));
            assert(keys@.take(i + 1).last() == keys@[i as int]);
            match self.actions.get(keys[i]) {
                Some(a) => match a.command() {
                    Some(c) => {
                        res.push(c.clone());
                    },
                    None => {},
                },
                None => {},
            }
            assert(res@.map_values(|c: String| c@) =~= scripts_of(keys@.take(i + 1), self@.actions));
            i = i + 1;
        }
        assert(keys@.take(keys@.len() as int) =~= keys@);
        res
    }

    fn action_rows(&self, keys: &Vec<u64>) -> (res: Vec<ActionRow>)
        ensures
            res@.map_values(|r: ActionRow| r@) == action_rows(keys@, self@.actions),
    {
        let mut res: Vec<ActionRow> = Vec::new();
        let mut i: usize = 0;
        while i < keys.len()
            invariant
                i <= keys@.len(),
                res@.map_values(|r: ActionRow| r@) == action_rows(keys@.take(i as int), self@.actions),
            decreases keys@.len() - i,
        {
            assert(keys@.take(i + 1).drop_last() =~= keys@.take(i as int));
            assert(keys@.take(i + 1).last() == keys@[i as int]);
            match self.actions.get(keys[i]) {
                Some(a) => {
                    let source = match a.source() {
                        Some(d) => Some(d.duplicate()),
                        None => None,
                    };
                    res.push(ActionRow { key: keys[i], generator: a.get_generator(), source });
                },
                None => {},
            }
            assert(res@.map_values(|r: ActionRow| r@) =~= action_rows(keys@.take(i + 1), self@.actions));
            i = i + 1;
        }
        assert(keys@.take(keys@.len() as int) =~= keys@);
        res
    }

    /// What the view shows: every known window in order, with its title and
    /// one row per bound action.
    pub fn view_rows(&self) -> (res: Vec<HandleRow>)
        ensures
            res@.map_values(|r: HandleRow| r@) == view_rows(self@),
    {
        let handles = self.wayland.handles();
        let mut res: Vec<HandleRow> = Vec::new();
        let mut i: usize = 0;
        while i < handles.len()
            invariant
                i <= handles@.len(),
                crate::wayland::handles_view(handles@) == self@.wayland.handles,
                res@.len() == i,
                forall|j: int| 0 <= j < i ==> (#[trigger] res@[j])@ == view_rows(self@)[j],
            decreases handles@.len() - i,
        {
            let h = &handles[i].1;
            let row = HandleRow { key: handles[i].0, title: h.get_title(), actions: self.action_rows(h.active_actions()) };
            res.push(row);
            i = i + 1;
        }
        assert(res@.map_values(|r: HandleRow| r@) =~= view_rows(self@));
        res
    }

    /// A new window appeared; returns its key.
    pub fn on_new_toplevel(&mut self) -> (res: Option<u64>)
        requires
            state_wf(old(self)@),
        ensures
            (final(self)@.wayland, res) == add_handle_spec(old(self)@.wayland),
            final(self)@ == (IcedStateView { wayland: final(self)@.wayland, ..old(self)@ }),
            state_wf(final(self)@),
    {
        proof { lemma_bindings_add_handle(self@.wayland, self@.actions); }
        self.wayland.add_handle()
    }

    /// The compositor reported `event` of window `hk`.
    pub fn on_handle_event(&mut self, hk: u64, event: HandleEvent) -> (res: HandleEventOutcome)
        requires
            state_wf(old(self)@),
        ensures
            final(self)@ == (IcedStateView {
                wayland: handle_event_wayland(old(self)@.wayland, hk, event),
                ..old(self)@
            }),
            res.notify == handle_event_notice(old(self)@.wayland, hk, event),
            res.commands@.map_values(|c: String| c@) == handle_event_scripts(
                old(self)@.wayland,
                old(self)@.actions,
                hk,
                event,
            ),
            state_wf(final(self)@),
    {
        match event {
            HandleEvent::Title(t) => {
                proof {
                    lemma_map_handle_wf(self@.wayland, hk, with_title(t@));
                    lemma_reports_stored(self@.actions, t@, Seq::empty());
                    lemma_bindings_map_handle(self@.wayland, self@.actions, hk, with_title(t@));
                }
                let found = self.wayland.set_title(hk, t);
                let notify = if found { Some(IcedMessage::NewWlEvent(hk)) } else { None };
                let res = HandleEventOutcome { notify, commands: Vec::new() };
                assert(res.commands@.map_values(|c: String| c@) =~= Seq::<Seq<char>>::empty());
                res
            },
            HandleEvent::AppId(t) => {
                proof {
                    lemma_map_handle_wf(self@.wayland, hk, with_app_id(t@));
                    lemma_reports_stored(self@.actions, t@, Seq::empty());
                    lemma_bindings_map_handle(self@.wayland, self@.actions, hk, with_app_id(t@));
                }
                self.wayland.set_app_id(hk, t);
                let res = HandleEventOutcome { notify: None, commands: Vec::new() };
                assert(res.commands@.map_values(|c: String| c@) =~= Seq::<Seq<char>>::empty());
                res
            },
            HandleEvent::State(b) => {
                proof {
                    lemma_map_handle_wf(self@.wayland, hk, with_state(b@));
                    lemma_reports_stored(self@.actions, Seq::empty(), b@);
                    lemma_bindings_map_handle(self@.wayland, self@.actions, hk, with_state(b@));
                }
                let commands = match self.wayland.handle(hk) {
                    Some(h) => {
                        let active = h.is_active();
                        let on = crate::handle::contains_byte(b.as_slice(), 2);
                        if !active && on {
                            self.scripts(h.active_actions())
                        } else if active && !on {
                            self.scripts(h.deactive_actions())
                        } else {
                            let r: Vec<String> = Vec::new();
                            assert(r@.map_values(|c: String| c@) =~= Seq::<Seq<char>>::empty());
                            r
                        }
                    },
                    None => {
                        let r: Vec<String> = Vec::new();
                        assert(r@.map_values(|c: String| c@) =~= Seq::<Seq<char>>::empty());
                        r
                    },
                };
                self.wayland.on_state(hk, b.as_slice());
                HandleEventOutcome { notify: None, commands }
            },
            HandleEvent::Closed => {
                proof { lemma_bindings_remove_handle(self@.wayland, self@.actions, hk); }
                self.wayland.remove_handle(hk);
                let res = HandleEventOutcome { notify: Some(IcedMessage::Noop), commands: Vec::new() };
                assert(res.commands@.map_values(|c: String| c@) =~= Seq::<Seq<char>>::empty());
                res
            },
            HandleEvent::Other => {
                let res = HandleEventOutcome { notify: None, commands: Vec::new() };
                assert(res.commands@.map_values(|c: String| c@) =~= Seq::<Seq<char>>::empty());
                res
            },
        }
    }

    /// The state for the generators `generators`: each is offered under its
    /// position and its name; no window, no saved binding, no action yet.
    pub fn new(generators: Vec<PactlActionGenerator>) -> (res: IcedState)
        ensures
            res@.generators == gens_view(generators@),
            res@.wayland == (WaylandView { handles: Seq::empty(), next_key: 0 }),
            res@.saved_actions == Seq::<(EventDescView, ActionDescView)>::empty(),
            res@.actions == (ActionStoreView { entries: Seq::empty(), next_key: 0 }),
            state_wf(res@),
    {
        let mut generators_state: Vec<GeneratorIndex> = Vec::new();
        let mut i: usize = 0;
        while i < generators.len()
            invariant
                i <= generators@.len(),
                generators_state@.len() == i,
                forall|j: int| 0 <= j < i ==> (#[trigger] generators_state@[j])@ == generator_choice(j),
            decreases generators@.len() - i,
        {
            let name = generators[i].fmt();
            generators_state.push(GeneratorIndex { index: i, name });
            i = i + 1;
        }
        let res = IcedState {
            generators,
            generators_state,
            wayland: Wayland::new(),
            saved_actions: Vec::new(),
            actions: ActionStore::new(),
        };
        assert(res@.saved_actions =~= Seq::<(EventDescView, ActionDescView)>::empty());
        assert forall|i: int| 0 <= i < res@.generators.len() implies #[trigger] res@.generators_state[i]
            == generator_choice(i) by {
            assert(res@.generators_state[i] == res.generators_state@[i]@);
        }
        res
    }

    pub fn generators(&self) -> (res: &Vec<PactlActionGenerator>)
        ensures
            gens_view(res@) == self@.generators,
    {
        &self.generators
    }

    /// The choices that name the generators.
    pub fn generators_state(&self) -> (res: &Vec<GeneratorIndex>)
        ensures
            res@.map_values(|g: GeneratorIndex| g@) == self@.generators_state,
    {
        &self.generators_state
    }

    pub fn wayland(&self) -> (res: &Wayland)
        ensures
            res@ == self@.wayland,
    {
        &self.wayland
    }

    pub fn actions(&self) -> (res: &ActionStore)
        ensures
            res@ == self@.actions,
    {
        &self.actions
    }

    fn find_saved(&self, ev: &EventDesc) -> (res: Option<usize>)
        ensures
            res matches Some(i) ==> first_where(self@.saved_actions, has_event(ev@)) == Some(i as int),
            res is None ==> first_where(self@.saved_actions, has_event(ev@)) is None,
    {
        let mut i: usize = 0;
        while i < self.saved_actions.len()
            invariant
                i <= self.saved_actions@.len(),
                forall|j: int| 0 <= j < i ==> (#[trigger] self.saved_actions@[j]).0@ != ev@,
            decreases self.saved_actions@.len() - i,
        {
            if self.saved_actions[i].0.same_as(ev) {
                proof {
                    assert(is_first_where(self@.saved_actions, has_event(ev@), i as int));
                    lemma_first_where_found(self@.saved_actions, has_event(ev@), i as int);
                }
                return Some(i);
            }
            i = i + 1;
        }
        proof {
            assert forall|j: int| 0 <= j < self@.saved_actions.len() implies !has_event(ev@)(
                #[trigger] self@.saved_actions[j],
            ) by {
                assert(self@.saved_actions[j].0 == self.saved_actions@[j].0@);
            }
            lemma_first_where_none(self@.saved_actions, has_event(ev@));
        }
        None
    }

    fn new_wl_event(&mut self, hk: u64)
        requires
            state_wf(old(self)@),
        ensures
            final(self)@ == new_wl_event_spec(old(self)@, hk),
            state_wf(final(self)@),
    {
        let title = match self.wayland.handle(hk) {
            Some(h) => h.get_title(),
            None => {
                return;
            },
        };
        let ev = EventDesc { provider_desc: String::new(), event_desc: title };
        assert(ev@ == title_event(lookup_handle(self@.wayland, hk)->0.title));
        let ad = match self.find_saved(&ev) {
            Some(i) => self.saved_actions[i].1.duplicate(),
            None => {
                return;
            },
        };
        let ghost w0 = self@.wayland;
        let ghost st0 = self@.actions;
        let ghost gens = self@.generators;
        let mut i: usize = 0;
        while i < self.generators.len()
            invariant
                i <= self.generators@.len(),
                self@.generators == gens,
                gens.len() == self.generators@.len(),
                self@.generators_state == old(self)@.generators_state,
                self@.saved_actions == old(self)@.saved_actions,
                (self@.wayland, self@.actions) == saved_action_fold(w0, st0, hk, gens, ad@, i as nat),
                state_wf(self@),
            decreases self.generators@.len() - i,
        {
            let name = self.generators[i].get_action_name();
            if name == ad.gen_desc {
                let gname = self.generators[i].fmt();
                let gi = GeneratorIndex { index: i, name: gname };
                assert(gi@ == generator_choice(i as int));
                let built = self.generators[i].build_action_by_desc(gi, ad.action_desc.clone());
                match built {
                    Ok(a) => {
                        assert(a@ == action_by_desc(gens[i as int], generator_choice(i as int), ad@.action_desc));
                        let ghost w1 = self@.wayland;
                        let ghost st1 = self@.actions;
                        proof { lemma_insert_stored(st1, a@); }
                        match self.actions.insert(a) {
                            Some(k) => {
                                proof {
                                    lemma_map_handle_wf(self@.wayland, hk, with_added_action(k));
                                    lemma_bindings_grow(w1, st1, self@.actions);
                                    lemma_added_stored(self@.actions, k);
                                    lemma_bindings_map_handle(w1, self@.actions, hk, with_added_action(k));
                                }
                                self.wayland.add_action(hk, k);
                            },
                            None => {},
                        }
                    },
                    Err(_) => {},
                }
            }
            i = i + 1;
        }
    }

    /// Handles `message`.
    pub fn update(&mut self, message: IcedMessage)
        requires
            state_wf(old(self)@),
            message_fits(old(self)@, message),
        ensures
            final(self)@ == update_spec(old(self)@, message),
            state_wf(final(self)@),
    {
        match message {
            IcedMessage::NewWlEvent(hk) => {
                self.new_wl_event(hk);
            },
            IcedMessage::UpdateAction(k, data) => {
                proof {
                    lemma_update_stored(self@.actions, k, self@.generators, data@);
                    lemma_bindings_grow(
                        self@.wayland,
                        self@.actions,
                        update_action_spec(self@.actions, k, self@.generators, data@),
                    );
                }
                self.actions.update_action(k, data, &self.generators);
            },
            IcedMessage::Wayland(wm) => {
                self.wayland.update(wm, &self.generators, &mut self.actions);
            },
            IcedMessage::Noop => {},
        }
    }
}

} // verus!
