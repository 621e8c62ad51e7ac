use vstd::prelude::*;

use crate::actions::{action_index, lemma_lookup_stored, stored, has_action_key, insert_spec, lookup_action, update_action_spec};
use crate::handle::{
    activated_entry, fresh_handle, remove_first, state_step, TLHandleActionsView,
};
use crate::ids::{ActionDataID, GeneratorIndex};
use crate::pactl::{configured_action, unconfigured_action};
use crate::positions::{
    equals_key, is_first_where, lemma_exists_first, lemma_first_where_found, lemma_first_where_none,
    lemma_first_where_some,
};
use crate::state::{
    action_rows, handle_event_notice, handle_event_scripts, handle_event_wayland, saved_for, scripts_of,
    state_wf, title_event, update_spec, view_rows, HandleEvent, IcedMessage, IcedStateView,
};
use crate::wayland::{
    add_handle_spec, handle_index, has_handle_key, lemma_lookup_map_handle, lemma_map_handle_wf,
    lookup_handle, map_handle, remove_handle_spec, wayland_wf, with_added_action, with_removed_action,
    with_replaced_action, with_state, with_title, WaylandView, WLIcedMessage,
};

verus! {

/// Removing the first occurrence of a key just pushed, that was not there
/// before, gives back the sequence.
pub proof fn lemma_remove_pushed(s: Seq<u64>, k: u64)
    requires
        !s.contains(k),
    ensures
        remove_first(s.push(k), k) == s,
{
    let t = s.push(k);
    assert forall|j: int| 0 <= j < s.len() implies !equals_key(k)(#[trigger] t[j]) by {
        assert(t[j] == s[j]);
    }
    assert(is_first_where(t, equals_key(k), s.len() as int));
    lemma_first_where_found(t, equals_key(k), s.len() as int);
    assert(t.remove(s.len() as int) =~= s);
}

/// Law: binding an action to a window and then unbinding it leaves the state
/// as it was, where that action was not bound to that window before.
pub proof fn law_add_then_remove_action(s: IcedStateView, hk: u64, k: u64)
    requires
        state_wf(s),
        lookup_handle(s.wayland, hk) matches Some(h) ==> !h.active_actions.contains(k),
    ensures
        update_spec(
            update_spec(s, IcedMessage::Wayland(WLIcedMessage::AddAction(hk, k))),
            IcedMessage::Wayland(WLIcedMessage::RemoveAction(hk, k)),
        ) == s,
{
    let w = s.wayland;
    let w1 = map_handle(w, hk, with_added_action(k));
    let w2 = map_handle(w1, hk, with_removed_action(k));
    lemma_map_handle_wf(w, hk, with_added_action(k));
    match handle_index(w.handles, hk) {
        Some(i) => {
            lemma_first_where_some(w.handles, has_handle_key(hk));
            assert(is_first_where(w1.handles, has_handle_key(hk), i));
            lemma_first_where_found(w1.handles, has_handle_key(hk), i);
            let h = w.handles[i].1;
            lemma_remove_pushed(h.active_actions, k);
            assert(w2.handles =~= w.handles);
        },
        None => {},
    }
}

/// Law: a state report sets whether the window is active to whether the
/// report holds the entry "activated", and changes nothing else of it.
pub proof fn law_state_report_sets_activity(h: TLHandleActionsView, state: Seq<u8>)
    ensures
        state_step(h, state).0.curr_active == state.contains(activated_entry()),
        state_step(h, state).0 == (TLHandleActionsView { curr_active: state_step(h, state).0.curr_active, ..h }),
{
}

/// Law: actions run on changes of activity only. A state report repeated for
/// a window runs nothing the second time, and changes nothing.
pub proof fn law_repeated_state_report_runs_nothing(s: IcedStateView, hk: u64, state: Vec<u8>)
    requires
        state_wf(s),
    ensures
        ({
            let w1 = handle_event_wayland(s.wayland, hk, HandleEvent::State(state));
            &&& handle_event_scripts(w1, s.actions, hk, HandleEvent::State(state)) == Seq::<Seq<char>>::empty()
            &&& handle_event_wayland(w1, hk, HandleEvent::State(state)) == w1
        }),
{
    let w = s.wayland;
    let w1 = map_handle(w, hk, with_state(state@));
    lemma_lookup_map_handle(w, hk, with_state(state@), hk);
    lemma_map_handle_wf(w, hk, with_state(state@));
    match handle_index(w.handles, hk) {
        Some(i) => {
            lemma_first_where_some(w.handles, has_handle_key(hk));
            assert(is_first_where(w1.handles, has_handle_key(hk), i));
            lemma_first_where_found(w1.handles, has_handle_key(hk), i);
            assert(map_handle(w1, hk, with_state(state@)).handles =~= w1.handles);
        },
        None => {},
    }
}

/// Law: changing an action into one of the generator it already belongs to
/// changes nothing.
pub proof fn law_change_to_same_generator_is_noop(s: IcedStateView, gi: GeneratorIndex, hk: u64, a: u64)
    requires
        lookup_action(s.actions, a) matches Some(av) && av.generator.index == gi.index,
    ensures
        update_spec(s, IcedMessage::Wayland(WLIcedMessage::ChangeActiveActionType(gi, hk, Some(a)))) == s,
{
}

/// Law: a message about the actions of window `hk` leaves every other window
/// as it was.
pub proof fn law_wayland_message_keeps_other_windows(s: IcedStateView, m: WLIcedMessage, other: u64)
    requires
        state_wf(s),
        match m {
            WLIcedMessage::ChangeActiveActionType(_, hk, _) => hk != other,
            WLIcedMessage::RemoveAction(hk, _) => hk != other,
            WLIcedMessage::AddAction(hk, _) => hk != other,
        },
    ensures
        lookup_handle(update_spec(s, IcedMessage::Wayland(m)).wayland, other) == lookup_handle(s.wayland, other),
{
    let w = s.wayland;
    match m {
        WLIcedMessage::ChangeActiveActionType(gi, hk, a) => {
            let k = insert_spec(s.actions, unconfigured_action(gi@)).1;
            if k is Some {
                lemma_lookup_map_handle(w, hk, with_added_action(k->0), other);
                if a is Some {
                    lemma_lookup_map_handle(w, hk, with_replaced_action(a->0, k->0), other);
                }
            }
        },
        WLIcedMessage::RemoveAction(hk, a) => {
            lemma_lookup_map_handle(w, hk, with_removed_action(a), other);
        },
        WLIcedMessage::AddAction(hk, a) => {
            lemma_lookup_map_handle(w, hk, with_added_action(a), other);
        },
    }
}

/// Law: changing the type of a bound action keeps the number of actions
/// bound to the window; choosing a generator without an action to replace
/// binds one more, unless the keys for actions are used up.
pub proof fn law_change_type_counts(s: IcedStateView, gi: GeneratorIndex, hk: u64, a: Option<u64>)
    requires
        state_wf(s),
        lookup_handle(s.wayland, hk) is Some,
    ensures
        ({
            let s2 = update_spec(s, IcedMessage::Wayland(WLIcedMessage::ChangeActiveActionType(gi, hk, a)));
            let before = lookup_handle(s.wayland, hk)->0.active_actions.len();
            let after = lookup_handle(s2.wayland, hk)->0.active_actions.len();
            &&& lookup_handle(s2.wayland, hk) is Some
            &&& a is Some ==> after == before
            &&& (a is None && s.actions.next_key < u64::MAX) ==> after == before + 1
        }),
{
    let w = s.wayland;
    let k = insert_spec(s.actions, unconfigured_action(gi@)).1;
    if k is Some {
        lemma_lookup_map_handle(w, hk, with_added_action(k->0), hk);
        if a is Some {
            lemma_lookup_map_handle(w, hk, with_replaced_action(a->0, k->0), hk);
        }
    }
}

/// Law: a closed window is forgotten, and the others stay as they were.
pub proof fn law_closed_window_is_forgotten(s: IcedStateView, hk: u64, other: u64)
    requires
        state_wf(s),
        other != hk,
    ensures
        lookup_handle(handle_event_wayland(s.wayland, hk, HandleEvent::Closed), hk) is None,
        lookup_handle(handle_event_wayland(s.wayland, hk, HandleEvent::Closed), other) == lookup_handle(
            s.wayland,
            other,
        ),
        handle_event_notice(s.wayland, hk, HandleEvent::Closed) == Some(IcedMessage::Noop),
{
    let w = s.wayland;
    let w2 = remove_handle_spec(w, hk);
    match handle_index(w.handles, hk) {
        Some(i) => {
            lemma_first_where_some(w.handles, has_handle_key(hk));
            assert forall|j: int| 0 <= j < w2.handles.len() implies !has_handle_key(hk)(#[trigger] w2.handles[j]) by {
                if j < i {
                    assert(w2.handles[j] == w.handles[j]);
                } else {
                    assert(w2.handles[j] == w.handles[j + 1]);
                    assert(w.handles[i].0 != w.handles[j + 1].0);
                }
            }
            lemma_first_where_none(w2.handles, has_handle_key(hk));
            match handle_index(w.handles, other) {
                Some(j) => {
                    lemma_first_where_some(w.handles, has_handle_key(other));
                    assert(j != i);
                    let j2 = if j < i { j } else { j - 1 };
                    assert(w2.handles[j2] == w.handles[j]);
                    assert(is_first_where(w2.handles, has_handle_key(other), j2)) by {
                        assert forall|l: int| 0 <= l < j2 implies !has_handle_key(other)(#[trigger] w2.handles[l]) by {
                            if l < i {
                                assert(w2.handles[l] == w.handles[l]);
                            } else {
                                assert(w2.handles[l] == w.handles[l + 1]);
                            }
                        }
                    }
                    lemma_first_where_found(w2.handles, has_handle_key(other), j2);
                },
                None => {
                    assert forall|l: int| 0 <= l < w2.handles.len() implies !has_handle_key(other)(#[trigger] w2.handles[l]) by {
                        let l0 = if l < i { l } else { l + 1 };
                        assert(w2.handles[l] == w.handles[l0]);
                        if has_handle_key(other)(w.handles[l0]) {
                            lemma_exists_first(w.handles, has_handle_key(other), l0);
                        }
                    }
                    lemma_first_where_none(w2.handles, has_handle_key(other));
                },
            }
        },
        None => {},
    }
}

/// Law: a title reported for a known window is what the window then holds,
/// and the new title is announced.
pub proof fn law_title_is_read_back(s: IcedStateView, hk: u64, title: String)
    requires
        state_wf(s),
        lookup_handle(s.wayland, hk) is Some,
    ensures
        lookup_handle(handle_event_wayland(s.wayland, hk, HandleEvent::Title(title)), hk) matches Some(h)
            && h.title == title@,
        handle_event_notice(s.wayland, hk, HandleEvent::Title(title)) == Some(IcedMessage::NewWlEvent(hk)),
{
    lemma_lookup_map_handle(s.wayland, hk, with_title(title@), hk);
}

/// Law: choosing a source for an action makes the action run the script that
/// moves its generator's loopback to that source, and keeps its generator.
pub proof fn law_update_action_configures(s: IcedStateView, k: u64, data: ActionDataID)
    requires
        state_wf(s),
        lookup_action(s.actions, k) is Some,
    ensures
        ({
            let a = lookup_action(s.actions, k)->0;
            lookup_action(update_spec(s, IcedMessage::UpdateAction(k, data)).actions, k) == Some(
                configured_action(a, s.generators[a.generator.index as int].loopback_id, data@),
            )
        }),
{
    let st = s.actions;
    let i = action_index(st, k)->0;
    lemma_first_where_some(st.entries, has_action_key(k));
    let st2 = update_action_spec(st, k, s.generators, data@);
    assert(is_first_where(st2.entries, has_action_key(k), i));
    lemma_first_where_found(st2.entries, has_action_key(k), i);
}

/// Law: where no action was saved for a window's title, announcing the
/// window changes nothing; in particular nothing changes while no action is
/// saved at all.
pub proof fn law_new_event_without_saved_action(s: IcedStateView, hk: u64)
    requires
        lookup_handle(s.wayland, hk) matches Some(h) ==> saved_for(s.saved_actions, title_event(h.title)) is None,
    ensures
        update_spec(s, IcedMessage::NewWlEvent(hk)) == s,
{
}

/// Law: with no action saved at all, no window has one saved for its title.
pub proof fn law_no_saved_actions(s: IcedStateView, hk: u64)
    requires
        s.saved_actions.len() == 0,
    ensures
        update_spec(s, IcedMessage::NewWlEvent(hk)) == s,
{
    if lookup_handle(s.wayland, hk) is Some {
        let ev = title_event(lookup_handle(s.wayland, hk)->0.title);
        lemma_first_where_none(s.saved_actions, crate::state::has_event(ev));
    }
}

/// Law: a new window gets a key that no known window has; nothing is known
/// of it yet, and the other windows stay as they were.
pub proof fn law_new_window_is_fresh(w: WaylandView, other: u64)
    requires
        wayland_wf(w),
        w.next_key < u64::MAX,
    ensures
        ({
            let (w2, k) = add_handle_spec(w);
            &&& k matches Some(k) && lookup_handle(w, k) is None && lookup_handle(w2, k) == Some(fresh_handle())
            &&& lookup_handle(w, other) is Some ==> lookup_handle(w2, other) == lookup_handle(w, other)
        }),
{
    let (w2, k) = add_handle_spec(w);
    let k = k->0;
    let n = w.handles.len() as int;
    assert forall|j: int| 0 <= j < n implies !has_handle_key(k)(#[trigger] w.handles[j]) by {}
    lemma_first_where_none(w.handles, has_handle_key(k));
    assert forall|j: int| 0 <= j < n implies !has_handle_key(k)(#[trigger] w2.handles[j]) by {
        assert(w2.handles[j] == w.handles[j]);
    }
    assert(is_first_where(w2.handles, has_handle_key(k), n));
    lemma_first_where_found(w2.handles, has_handle_key(k), n);
    if lookup_handle(w, other) is Some {
        lemma_first_where_some(w.handles, has_handle_key(other));
        let j = handle_index(w.handles, other)->0;
        assert(is_first_where(w2.handles, has_handle_key(other), j));
        lemma_first_where_found(w2.handles, has_handle_key(other), j);
    }
}

/// The rows of actions whose keys are all stored number as many as the keys.
pub proof fn lemma_action_rows_len(keys: Seq<u64>, st: crate::actions::ActionStoreView)
    requires
        forall|j: int| 0 <= j < keys.len() ==> stored(st, #[trigger] keys[j]),
    ensures
        action_rows(keys, st).len() == keys.len(),
    decreases keys.len(),
{
    if keys.len() > 0 {
        let init = keys.drop_last();
        assert forall|j: int| 0 <= j < init.len() implies stored(st, #[trigger] init[j]) by {
            assert(init[j] == keys[j]);
        }
        lemma_action_rows_len(init, st);
        assert(stored(st, keys[keys.len() - 1]));
        lemma_lookup_stored(st, keys.last());
    }
}

/// Law: no binding is lost from the view: in a well-formed state every
/// action bound to a window has its row.
pub proof fn law_every_binding_has_a_row(s: IcedStateView, i: int)
    requires
        state_wf(s),
        0 <= i < s.wayland.handles.len(),
    ensures
        view_rows(s)[i].actions.len() == s.wayland.handles[i].1.active_actions.len(),
{
    let h = s.wayland.handles[i].1;
    assert(crate::wayland::handle_stored(h, s.actions));
    lemma_action_rows_len(h.active_actions, s.actions);
}

/// Replacing the entry at `i` by one with the same key leaves the lookup of
/// every other key as it was.
pub proof fn lemma_lookup_other_after_set(
    st: crate::actions::ActionStoreView,
    i: int,
    v: crate::pactl::PactlActionView,
    k2: u64,
)
    requires
        0 <= i < st.entries.len(),
        k2 != st.entries[i].0,
    ensures
        lookup_action(
            crate::actions::ActionStoreView { entries: st.entries.update(i, (st.entries[i].0, v)), ..st },
            k2,
        ) == lookup_action(st, k2),
{
    let st2 = crate::actions::ActionStoreView { entries: st.entries.update(i, (st.entries[i].0, v)), ..st };
    assert forall|l: int| 0 <= l < st.entries.len() implies (#[trigger] st2.entries[l]).0 == st.entries[l].0 by {}
    match action_index(st, k2) {
        Some(j) => {
            lemma_first_where_some(st.entries, has_action_key(k2));
            assert(j != i);
            assert(is_first_where(st2.entries, has_action_key(k2), j));
            lemma_first_where_found(st2.entries, has_action_key(k2), j);
        },
        None => {
            assert forall|l: int| 0 <= l < st2.entries.len() implies !has_action_key(k2)(#[trigger] st2.entries[l]) by {
                if has_action_key(k2)(st.entries[l]) {
                    lemma_exists_first(st.entries, has_action_key(k2), l);
                }
            }
            lemma_first_where_none(st2.entries, has_action_key(k2));
        },
    }
}

/// Law: choosing a source for action `k` changes no other action: every
/// other key finds the same action as before.
pub proof fn law_update_action_changes_only_that_action(s: IcedStateView, k: u64, data: ActionDataID, k2: u64)
    requires
        k2 != k,
    ensures
        lookup_action(update_spec(s, IcedMessage::UpdateAction(k, data)).actions, k2) == lookup_action(
            s.actions,
            k2,
        ),
{
    let st = s.actions;
    if action_index(st, k) is Some {
        let i = action_index(st, k)->0;
        lemma_first_where_some(st.entries, has_action_key(k));
        let a = st.entries[i].1;
        lemma_lookup_other_after_set(
            st,
            i,
            configured_action(a, s.generators[a.generator.index as int].loopback_id, data@),
            k2,
        );
    }
}

/// Law: after a source is chosen for an action, whatever it ran before, it
/// runs `pactl move-source-output <loopback of its generator> <source id>`,
/// shows that source, and keeps its generator.
pub proof fn law_update_action_command(s: IcedStateView, k: u64, data: ActionDataID)
    requires
        state_wf(s),
        lookup_action(s.actions, k) is Some,
    ensures
        ({
            let a = lookup_action(s.actions, k)->0;
            let loopback = s.generators[a.generator.index as int].loopback_id;
            let b = lookup_action(update_spec(s, IcedMessage::UpdateAction(k, data)).actions, k);
            &&& b is Some
            &&& b->0.command == Some(
                "pactl move-source-output "@ + loopback + " "@ + crate::text::decimal(data.id as nat),
            )
            &&& b->0.source == Some(data@)
            &&& b->0.generator == a.generator
        }),
{
    law_update_action_configures(s, k, data);
}

/// Law: configuring an action, whatever its previous configuration, makes
/// it run the move script for the chosen source and show that source.
pub proof fn law_configured_action_runs_chosen_source(
    a: crate::pactl::PactlActionView,
    loopback_id: Seq<char>,
    data: crate::ids::ActionDataIDView,
)
    ensures
        configured_action(a, loopback_id, data).command == Some(
            "pactl move-source-output "@ + loopback_id + " "@ + crate::text::decimal(data.id as nat),
        ),
        configured_action(a, loopback_id, data).source == Some(data),
        configured_action(a, loopback_id, data).generator == a.generator,
{
}

/// The command that triggering the action `k` runs, as a sequence of at
/// most one script.
pub open spec fn command_of(st: crate::actions::ActionStoreView, k: u64) -> Seq<Seq<char>> {
    match lookup_action(st, k) {
        Some(a) => match a.command {
            Some(c) => seq![c],
            None => Seq::empty(),
        },
        None => Seq::empty(),
    }
}

/// Law: no bound action runs nothing.
pub proof fn law_scripts_of_nothing(st: crate::actions::ActionStoreView)
    ensures
        scripts_of(Seq::empty(), st) == Seq::<Seq<char>>::empty(),
{
}

/// Law: the scripts of bound actions follow the binding order: binding one
/// more action appends exactly its command, if it has one.
pub proof fn law_scripts_of_push(keys: Seq<u64>, k: u64, st: crate::actions::ActionStoreView)
    ensures
        scripts_of(keys.push(k), st) == scripts_of(keys, st) + command_of(st, k),
{
    assert(keys.push(k).drop_last() =~= keys);
    let prev = scripts_of(keys, st);
    assert(prev + Seq::<Seq<char>>::empty() =~= prev);
    if let Some(a) = lookup_action(st, k) {
        if let Some(c) = a.command {
            assert(prev.push(c) =~= prev + seq![c]);
        }
    }
}

/// Law: the scripts of the actions `keys` are the commands of each in turn.
pub proof fn law_scripts_of_each(keys: Seq<u64>, st: crate::actions::ActionStoreView)
    ensures
        scripts_of(keys, st).len() <= keys.len(),
        forall|j: int| 0 <= j < keys.len() ==> (#[trigger] command_of(st, keys[j])).len() == 1
            ==> scripts_of(keys.take(j + 1), st).last() == command_of(st, keys[j])[0],
    decreases keys.len(),
{
    if keys.len() > 0 {
        let init = keys.drop_last();
        law_scripts_of_each(init, st);
        law_scripts_of_push(init, keys.last(), st);
        assert(init.push(keys.last()) =~= keys);
        assert forall|j: int| 0 <= j < keys.len() && (#[trigger] command_of(st, keys[j])).len() == 1 implies
            scripts_of(keys.take(j + 1), st).last() == command_of(st, keys[j])[0] by {
            let t = keys.take(j + 1);
            assert(t.drop_last() =~= keys.take(j));
            law_scripts_of_push(keys.take(j), keys[j], st);
            assert(keys.take(j).push(keys[j]) =~= t);
        }
    }
}

/// Law: a window that becomes active runs the commands of all its bound
/// actions, in binding order; where one configured action is bound, it runs
/// exactly that action's command.
pub proof fn law_activation_runs_bound_actions(s: IcedStateView, hk: u64, state: Vec<u8>)
    requires
        state_wf(s),
        lookup_handle(s.wayland, hk) matches Some(h) && !h.curr_active,
        state@.contains(activated_entry()),
    ensures
        ({
            let h = lookup_handle(s.wayland, hk)->0;
            &&& handle_event_scripts(s.wayland, s.actions, hk, HandleEvent::State(state)) == scripts_of(
                h.active_actions,
                s.actions,
            )
            &&& forall|k: u64|
                h.active_actions == seq![k] && (#[trigger] lookup_action(s.actions, k)) is Some
                    && lookup_action(s.actions, k)->0.command is Some ==> handle_event_scripts(
                    s.wayland,
                    s.actions,
                    hk,
                    HandleEvent::State(state),
                ) == seq![lookup_action(s.actions, k)->0.command->0]
        }),
{
    let h = lookup_handle(s.wayland, hk)->0;
    assert forall|k: u64|
        h.active_actions == seq![k] && (#[trigger] lookup_action(s.actions, k)) is Some
            && lookup_action(s.actions, k)->0.command is Some implies handle_event_scripts(
            s.wayland,
            s.actions,
            hk,
            HandleEvent::State(state),
        ) == seq![lookup_action(s.actions, k)->0.command->0] by {
        let c = lookup_action(s.actions, k)->0.command->0;
        law_scripts_of_push(Seq::empty(), k, s.actions);
        assert(Seq::<u64>::empty().push(k) =~= seq![k]);
        assert(Seq::<Seq<char>>::empty() + seq![c] =~= seq![c]);
    }
}

/// Law: a window that stops being active runs the commands of all its
/// deactivation actions, in order.
pub proof fn law_deactivation_runs_deactivation_actions(s: IcedStateView, hk: u64, state: Vec<u8>)
    requires
        state_wf(s),
        lookup_handle(s.wayland, hk) matches Some(h) && h.curr_active,
        !state@.contains(activated_entry()),
    ensures
        handle_event_scripts(s.wayland, s.actions, hk, HandleEvent::State(state)) == scripts_of(
            lookup_handle(s.wayland, hk)->0.deactive_actions,
            s.actions,
        ),
{
}

/// Storing an action under the next key makes that key find it and leaves
/// every other lookup as it was.
pub proof fn lemma_lookup_after_insert(
    st: crate::actions::ActionStoreView,
    a: crate::pactl::PactlActionView,
    k2: u64,
)
    requires
        crate::actions::store_wf(st),
        st.next_key < u64::MAX,
    ensures
        lookup_action(insert_spec(st, a).0, st.next_key) == Some(a),
        k2 != st.next_key ==> lookup_action(insert_spec(st, a).0, k2) == lookup_action(st, k2),
{
    let st2 = insert_spec(st, a).0;
    let n = st.entries.len() as int;
    assert forall|l: int| 0 <= l < n implies !has_action_key(st.next_key)(#[trigger] st2.entries[l]) by {
        assert(st2.entries[l] == st.entries[l]);
    }
    assert(is_first_where(st2.entries, has_action_key(st.next_key), n));
    lemma_first_where_found(st2.entries, has_action_key(st.next_key), n);
    if k2 != st.next_key {
        match action_index(st, k2) {
            Some(j) => {
                lemma_first_where_some(st.entries, has_action_key(k2));
                assert(is_first_where(st2.entries, has_action_key(k2), j));
                lemma_first_where_found(st2.entries, has_action_key(k2), j);
            },
            None => {
                assert forall|l: int| 0 <= l < st2.entries.len() implies !has_action_key(k2)(
                    #[trigger] st2.entries[l],
                ) by {
                    if l < n && has_action_key(k2)(st.entries[l]) {
                        lemma_exists_first(st.entries, has_action_key(k2), l);
                    }
                }
                lemma_first_where_none(st2.entries, has_action_key(k2));
            },
        }
    }
}

/// Law: changing a bound action into one of a different generator replaces
/// it in place: its first binding on the window now names a new key, which
/// finds a fresh, unconfigured action of the chosen generator; every other
/// binding of the window stays. (Where the generators are the same, nothing
/// changes: `law_change_to_same_generator_is_noop`.)
pub proof fn law_change_type_replaces_in_place(
    s: IcedStateView,
    gi: GeneratorIndex,
    hk: u64,
    a: u64,
    p: int,
)
    requires
        state_wf(s),
        lookup_action(s.actions, a) matches Some(av) && av.generator.index != gi.index,
        lookup_handle(s.wayland, hk) matches Some(h) && 0 <= p < h.active_actions.len() && h.active_actions[p]
            == a && forall|j: int| 0 <= j < p ==> h.active_actions[j] != a,
        s.actions.next_key < u64::MAX,
    ensures
        ({
            let h = lookup_handle(s.wayland, hk)->0;
            let s2 = update_spec(s, IcedMessage::Wayland(WLIcedMessage::ChangeActiveActionType(gi, hk, Some(a))));
            let k2 = s.actions.next_key;
            &&& k2 != a
            &&& lookup_handle(s2.wayland, hk) matches Some(h2) && h2.active_actions == h.active_actions.update(p, k2)
            &&& lookup_action(s2.actions, k2) matches Some(b) && b == unconfigured_action(gi@)
                && b.generator.index == gi.index
        }),
{
    let h = lookup_handle(s.wayland, hk)->0;
    let k2 = s.actions.next_key;
    assert(is_first_where(h.active_actions, equals_key(a), p));
    lemma_first_where_found(h.active_actions, equals_key(a), p);
    lemma_lookup_map_handle(s.wayland, hk, with_replaced_action(a, k2), hk);
    lemma_lookup_after_insert(s.actions, unconfigured_action(gi@), k2);
    crate::actions::lemma_lookup_stored(s.actions, a);
    if k2 == a {
        let i = choose|i: int| 0 <= i < s.actions.entries.len() && (#[trigger] s.actions.entries[i]).0 == a;
        assert(s.actions.entries[i].0 < s.actions.next_key);
    }
}

/// The rows of actions whose keys are all stored show, position by position,
/// the key with its stored action's generator and source.
pub proof fn lemma_action_rows_show_stored(keys: Seq<u64>, st: crate::actions::ActionStoreView)
    requires
        forall|j: int| 0 <= j < keys.len() ==> stored(st, #[trigger] keys[j]),
    ensures
        action_rows(keys, st).len() == keys.len(),
        forall|j: int|
            0 <= j < keys.len() ==> (#[trigger] action_rows(keys, st)[j]).key == keys[j]
                && lookup_action(st, keys[j]) is Some && action_rows(keys, st)[j].generator
                == lookup_action(st, keys[j])->0.generator && action_rows(keys, st)[j].source
                == lookup_action(st, keys[j])->0.source,
    decreases keys.len(),
{
    if keys.len() > 0 {
        let init = keys.drop_last();
        assert forall|j: int| 0 <= j < init.len() implies stored(st, #[trigger] init[j]) by {
            assert(init[j] == keys[j]);
        }
        lemma_action_rows_show_stored(init, st);
        assert(stored(st, keys[keys.len() - 1]));
        lemma_lookup_stored(st, keys.last());
        assert forall|j: int| 0 <= j < keys.len() implies (#[trigger] action_rows(keys, st)[j]).key == keys[j]
            && lookup_action(st, keys[j]) is Some && action_rows(keys, st)[j].generator
            == lookup_action(st, keys[j])->0.generator && action_rows(keys, st)[j].source
            == lookup_action(st, keys[j])->0.source by {
            if j < init.len() {
                assert(init[j] == keys[j]);
                lemma_lookup_stored(st, keys[j]);
            }
        }
    }
}

/// Law: the view shows, for every window and every action bound to it, that
/// action's key, generator and chosen source as stored.
pub proof fn law_view_rows_show_stored_actions(s: IcedStateView, i: int, j: int)
    requires
        state_wf(s),
        0 <= i < s.wayland.handles.len(),
        0 <= j < s.wayland.handles[i].1.active_actions.len(),
    ensures
        ({
            let k = s.wayland.handles[i].1.active_actions[j];
            let row = view_rows(s)[i].actions[j];
            &&& view_rows(s)[i].key == s.wayland.handles[i].0
            &&& view_rows(s)[i].title == s.wayland.handles[i].1.title
            &&& row.key == k
            &&& lookup_action(s.actions, k) matches Some(a) && row.generator == a.generator && row.source == a.source
        }),
{
    let h = s.wayland.handles[i].1;
    assert(crate::wayland::handle_stored(h, s.actions));
    lemma_action_rows_show_stored(h.active_actions, s.actions);
}

} // verus!
