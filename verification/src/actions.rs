use vstd::prelude::*;

use crate::ids::ActionDataID;
use crate::pactl::{configured_action, PactlAction, PactlActionGenerator, PactlActionGeneratorView, PactlActionView};
use crate::positions::{
    first_where, is_first_where, lemma_exists_first, lemma_first_where_found, lemma_first_where_none,
    lemma_first_where_some,
};

verus! {

/// The actions the application holds, each under its key.
pub struct ActionStoreView {
    pub entries: Seq<(u64, PactlActionView)>,
    pub next_key: u64,
}

/// Holds every action that was built, under a key of its own; windows bind
/// actions by these keys.
pub struct ActionStore {
    entries: Vec<(u64, PactlAction)>,
    next_key: u64,
}

pub open spec fn entries_view(v: Seq<(u64, PactlAction)>) -> Seq<(u64, PactlActionView)> {
    v.map_values(|p: (u64, PactlAction)| (p.0, p.1@))
}

impl View for ActionStore {
    type V = ActionStoreView;

    closed spec fn view(&self) -> ActionStoreView {
        ActionStoreView { entries: entries_view(self.entries@), next_key: self.next_key }
    }
}

/// Keys are unique, and every key was handed out before `next_key`.
pub open spec fn store_wf(st: ActionStoreView) -> bool {
    &&& forall|i: int, j: int|
        0 <= i < j < st.entries.len() ==> (#[trigger] st.entries[i]).0 != (#[trigger] st.entries[j]).0
    &&& forall|i: int| 0 <= i < st.entries.len() ==> (#[trigger] st.entries[i]).0 < st.next_key
}

/// Every action was built by one of the first `n` generators.
pub open spec fn actions_fit(st: ActionStoreView, n: nat) -> bool {
    forall|i: int| 0 <= i < st.entries.len() ==> (#[trigger] st.entries[i]).1.generator.index < n
}

/// A spec predicate on actions: the key is `k`.
pub open spec fn has_action_key(k: u64) -> spec_fn((u64, PactlActionView)) -> bool {
    |p: (u64, PactlActionView)| p.0 == k
}

pub open spec fn action_index(st: ActionStoreView, k: u64) -> Option<int> {
    first_where(st.entries, has_action_key(k))
}

/// The action `k`, if there is one.
pub open spec fn lookup_action(st: ActionStoreView, k: u64) -> Option<PactlActionView> {
    match action_index(st, k) {
        Some(i) => Some(st.entries[i].1),
        None => None,
    }
}

/// `st` after `a` was stored under the next key, and that key. Where the
/// keys are used up, nothing is stored.
pub open spec fn insert_spec(st: ActionStoreView, a: PactlActionView) -> (ActionStoreView, Option<u64>) {
    if st.next_key == u64::MAX {
        (st, None)
    } else {
        (
            ActionStoreView { entries: st.entries.push((st.next_key, a)), next_key: (st.next_key + 1) as u64 },
            Some(st.next_key),
        )
    }
}

/// `st` after the action `k` was configured with the choice `data`.
pub open spec fn update_action_spec(
    st: ActionStoreView,
    k: u64,
    gens: Seq<PactlActionGeneratorView>,
    data: crate::ids::ActionDataIDView,
) -> ActionStoreView {
    match action_index(st, k) {
        Some(i) => ActionStoreView {
            entries: st.entries.update(
                i,
                (k, configured_action(st.entries[i].1, gens[st.entries[i].1.generator.index as int].loopback_id, data)),
            ),
            ..st
        },
        None => st,
    }
}

pub open spec fn gens_view(gens: Seq<PactlActionGenerator>) -> Seq<PactlActionGeneratorView> {
    gens.map_values(|g: PactlActionGenerator| g@)
}

/// Some action is stored under `k`.
pub open spec fn stored(st: ActionStoreView, k: u64) -> bool {
    exists|i: int| 0 <= i < st.entries.len() && (#[trigger] st.entries[i]).0 == k
}

/// A lookup finds an action exactly where one is stored.
pub proof fn lemma_lookup_stored(st: ActionStoreView, k: u64)
    ensures
        lookup_action(st, k) is Some <==> stored(st, k),
{
    if lookup_action(st, k) is Some {
        lemma_first_where_some(st.entries, has_action_key(k));
        let i = action_index(st, k)->0;
        assert(st.entries[i].0 == k);
    }
    if stored(st, k) {
        let i = choose|i: int| 0 <= i < st.entries.len() && (#[trigger] st.entries[i]).0 == k;
        assert(has_action_key(k)(st.entries[i]));
        lemma_exists_first(st.entries, has_action_key(k), i);
    }
}

/// Storing an action keeps every stored key, and stores the new one.
pub proof fn lemma_insert_stored(st: ActionStoreView, a: PactlActionView)
    ensures
        forall|k: u64| stored(st, k) ==> #[trigger] stored(insert_spec(st, a).0, k),
        insert_spec(st, a).1 matches Some(k) ==> stored(insert_spec(st, a).0, k),
{
    let st2 = insert_spec(st, a).0;
    assert forall|k: u64| stored(st, k) implies #[trigger] stored(st2, k) by {
        let i = choose|i: int| 0 <= i < st.entries.len() && (#[trigger] st.entries[i]).0 == k;
        assert(st2.entries[i] == st.entries[i]);
    }
    if insert_spec(st, a).1 is Some {
        assert(st2.entries[st.entries.len() as int].0 == st.next_key);
    }
}

/// Configuring an action keeps the stored keys.
pub proof fn lemma_update_stored(
    st: ActionStoreView,
    k: u64,
    gens: Seq<PactlActionGeneratorView>,
    data: crate::ids::ActionDataIDView,
)
    ensures
        forall|x: u64| stored(st, x) ==> #[trigger] stored(update_action_spec(st, k, gens, data), x),
{
    let st2 = update_action_spec(st, k, gens, data);
    if action_index(st, k) is Some {
        lemma_first_where_some(st.entries, has_action_key(k));
    }
    assert forall|x: u64| stored(st, x) implies #[trigger] stored(st2, x) by {
        let i = choose|i: int| 0 <= i < st.entries.len() && (#[trigger] st.entries[i]).0 == x;
        assert(st2.entries[i].0 == x);
    }
}

impl ActionStore {
    pub fn new() -> (res: ActionStore)
        ensures
            res@ == (ActionStoreView { entries: Seq::empty(), next_key: 0 }),
            store_wf(res@),
    {
        let res = ActionStore { entries: Vec::new(), next_key: 0 };
        assert(res@.entries =~= Seq::empty());
        res
    }

    fn find(&self, k: u64) -> (res: Option<usize>)
        ensures
            res matches Some(i) ==> action_index(self@, k) == Some(i as int),
            res is None ==> action_index(self@, k) is None,
    {
        let mut i: usize = 0;
        while i < self.entries.len()
            invariant
                i <= self.entries@.len(),
                forall|j: int| 0 <= j < i ==> (#[trigger] self.entries@[j]).0 != k,
            decreases self.entries@.len() - i,
        {
            if self.entries[i].0 == k {
                proof {
                    assert(is_first_where(self@.entries, has_action_key(k), i as int));
                    lemma_first_where_found(self@.entries, has_action_key(k), i as int);
                }
                return Some(i);
            }
            i = i + 1;
        }
        proof {
            assert forall|j: int| 0 <= j < self@.entries.len() implies !has_action_key(k)(
                #[trigger] self@.entries[j],
            ) by {
                assert(self@.entries[j].0 == self.entries@[j].0);
            }
            lemma_first_where_none(self@.entries, has_action_key(k));
        }
        None
    }

    /// The action `k`, if there is one.
    pub fn get(&self, k: u64) -> (res: Option<&PactlAction>)
        ensures
            res matches Some(a) ==> lookup_action(self@, k) == Some(a@),
            res is None ==> lookup_action(self@, k) is None,
    {
        match self.find(k) {
            Some(i) => Some(&self.entries[i].1),
            None => None,
        }
    }

    /// Stores `a` under the next key and returns that key.
    pub fn insert(&mut self, a: PactlAction) -> (res: Option<u64>)
        requires
            store_wf(old(self)@),
        ensures
            (final(self)@, res) == insert_spec(old(self)@, a@),
            store_wf(final(self)@),
    {
        if self.next_key == u64::MAX {
            return None;
        }
        let k = self.next_key;
        let ghost av = a@;
        self.entries.push((k, a));
        self.next_key = k + 1;
        assert(self@.entries =~= old(self)@.entries.push((k, av)));
        Some(k)
    }

    /// Configures the action `k` with the choice `data`.
    pub fn update_action(&mut self, k: u64, data: ActionDataID, gens: &Vec<PactlActionGenerator>)
        requires
            actions_fit(old(self)@, gens@.len()),
        ensures
            final(self)@ == update_action_spec(old(self)@, k, gens_view(gens@), data@),
    {
        match self.find(k) {
            Some(i) => {
                let ghost dv = data@;
                let (key, mut a) = self.entries.remove(i);
                assert(a@ == old(self)@.entries[i as int].1);
                a.update(data, gens);
                self.entries.insert(i, (key, a));
                assert(self@.entries =~= old(self)@.entries.update(
                    i as int,
                    (k, configured_action(old(self)@.entries[i as int].1, gens_view(gens@)[old(self)@.entries[i as int].1.generator.index as int].loopback_id, dv)),
                ));
            },
            None => {},
        }
    }
}

} // verus!
