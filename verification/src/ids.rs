use vstd::prelude::*;

verus! {

/// What a `GeneratorIndex` stands for: the position of a generator in the
/// list of generators and the name under which it is shown.
pub struct GeneratorIndexView {
    pub index: usize,
    pub name: Seq<char>,
}

/// Names one action generator: its position in the list of generators and
/// the name shown for it.
#[derive(Clone, Debug)]
pub struct GeneratorIndex {
    pub index: usize,
    pub name: String,
}

impl View for GeneratorIndex {
    type V = GeneratorIndexView;

    open spec fn view(&self) -> GeneratorIndexView {
        GeneratorIndexView { index: self.index, name: self.name@ }
    }
}

impl GeneratorIndex {
    pub fn new(index: usize, name: String) -> (res: GeneratorIndex)
        ensures
            res@ == (GeneratorIndexView { index: index, name: name@ }),
    {
        GeneratorIndex { index, name }
    }

    /// The text shown for this generator: its name.
    pub fn fmt(&self) -> (res: String)
        ensures
            res@ == self.name@,
    {
        self.name.clone()
    }

    pub fn duplicate(&self) -> (res: GeneratorIndex)
        ensures
            res@ == self@,
    {
        GeneratorIndex { index: self.index, name: self.name.clone() }
    }
}

/// What an `ActionDataID` stands for.
pub struct ActionDataIDView {
    pub option_idx: usize,
    pub id: u64,
    pub description: Seq<char>,
}

/// One choice that an action can be configured with: a numeric id and the
/// text shown for it.
#[derive(Clone, Debug)]
pub struct ActionDataID {
    pub option_idx: usize,
    pub id: u64,
    pub description: String,
}

impl View for ActionDataID {
    type V = ActionDataIDView;

    open spec fn view(&self) -> ActionDataIDView {
        ActionDataIDView { option_idx: self.option_idx, id: self.id, description: self.description@ }
    }
}

impl ActionDataID {
    pub fn new(option_idx: usize, id: u64, description: String) -> (res: ActionDataID)
        ensures
            res@ == (ActionDataIDView { option_idx: option_idx, id: id, description: description@ }),
    {
        ActionDataID { option_idx, id, description }
    }

    /// The text shown for this choice: its description.
    pub fn fmt(&self) -> (res: String)
        ensures
            res@ == self.description@,
    {
        self.description.clone()
    }

    pub fn duplicate(&self) -> (res: ActionDataID)
        ensures
            res@ == self@,
    {
        ActionDataID { option_idx: self.option_idx, id: self.id, description: self.description.clone() }
    }
}

/// What an `EventDesc` stands for.
pub struct EventDescView {
    pub provider_desc: Seq<char>,
    pub event_desc: Seq<char>,
}

/// Describes an event by the provider that reports it and the event itself
/// (for a window: its title).
pub struct EventDesc {
    pub provider_desc: String,
    pub event_desc: String,
}

impl View for EventDesc {
    type V = EventDescView;

    open spec fn view(&self) -> EventDescView {
        EventDescView { provider_desc: self.provider_desc@, event_desc: self.event_desc@ }
    }
}

/// What an `ActionDesc` stands for.
pub struct ActionDescView {
    pub gen_desc: Seq<char>,
    pub action_desc: Seq<char>,
}

/// Describes an action by the name of the generator that builds it and a
/// description handed to that generator.
pub struct ActionDesc {
    pub gen_desc: String,
    pub action_desc: String,
}

impl View for ActionDesc {
    type V = ActionDescView;

    open spec fn view(&self) -> ActionDescView {
        ActionDescView { gen_desc: self.gen_desc@, action_desc: self.action_desc@ }
    }
}

impl EventDesc {
    pub fn new(provider_desc: String, event_desc: String) -> (res: EventDesc)
        ensures
            res@ == (EventDescView { provider_desc: provider_desc@, event_desc: event_desc@ }),
    {
        EventDesc { provider_desc, event_desc }
    }

    /// Whether two descriptions name the same event.
    pub fn same_as(&self, other: &EventDesc) -> (res: bool)
        ensures
            res == (self@ == other@),
    {
        let a = self.provider_desc == other.provider_desc;
        let b = self.event_desc == other.event_desc;
        a && b
    }
}

impl ActionDesc {
    pub fn new(gen_desc: String, action_desc: String) -> (res: ActionDesc)
        ensures
            res@ == (ActionDescView { gen_desc: gen_desc@, action_desc: action_desc@ }),
    {
        ActionDesc { gen_desc, action_desc }
    }

    pub fn duplicate(&self) -> (res: ActionDesc)
        ensures
            res@ == self@,
    {
        ActionDesc { gen_desc: self.gen_desc.clone(), action_desc: self.action_desc.clone() }
    }
}

} // verus!
