use vstd::prelude::*;
use vstd::utf8::{decode_utf8, valid_utf8};

use crate::ids::{ActionDataID, ActionDataIDView, GeneratorIndex, GeneratorIndexView};
use crate::positions::{first_where, is_first_where, lemma_first_where_found, lemma_first_where_none};
use crate::text::{decimal, decimal_string, decode_trimmed, trim};

verus! {

/// What a `PaSource` stands for.
pub struct PaSourceView {
    pub index: u32,
    pub name: Seq<char>,
}

/// A PulseAudio source as `pactl -f json list sources` reports it: its index
/// and its name.
#[derive(Clone, Debug)]
pub struct PaSource {
    pub index: u32,
    pub name: String,
}

impl View for PaSource {
    type V = PaSourceView;

    open spec fn view(&self) -> PaSourceView {
        PaSourceView { index: self.index, name: self.name@ }
    }
}

impl PaSource {
    pub fn new(index: u32, name: String) -> (res: PaSource)
        ensures
            res@ == (PaSourceView { index: index, name: name@ }),
    {
        PaSource { index, name }
    }

    /// The text shown for a source: its name.
    pub fn fmt(&self) -> (res: String)
        ensures
            res@ == self.name@,
    {
        self.name.clone()
    }
}

/// The choice offered for a source: option 0, the source's index as id, its
/// name as description.
pub open spec fn source_choice(s: PaSourceView) -> ActionDataIDView {
    ActionDataIDView { option_idx: 0, id: s.index as u64, description: s.name }
}

/// The shell script that moves the loopback's source output `loopback_id`
/// to the source with index `source_id`.
pub open spec fn move_source_script(loopback_id: Seq<char>, source_id: u64) -> Seq<char> {
    "pactl move-source-output "@ + loopback_id + " "@ + decimal(source_id as nat)
}

/// The name shown for the pactl generator.
pub open spec fn pactl_display_name() -> Seq<char> {
    "Pactl Action"@
}

/// The name of the actions that the pactl generator builds.
pub open spec fn pactl_action_name() -> Seq<char> {
    "pactl move source"@
}

/// What a `PactlAction` stands for: the script it runs when triggered (none
/// before a source is chosen), the chosen source and its generator.
pub struct PactlActionView {
    pub command: Option<Seq<char>>,
    pub source: Option<ActionDataIDView>,
    pub generator: GeneratorIndexView,
}

/// An action that moves the loopback's source output to a chosen PulseAudio
/// source. `command` is the script run with `sh -c` when it is triggered.
pub struct PactlAction {
    command: Option<String>,
    source: Option<ActionDataID>,
    generator: GeneratorIndex,
}

pub open spec fn opt_string_view(o: Option<String>) -> Option<Seq<char>> {
    match o {
        Some(s) => Some(s@),
        None => None,
    }
}

pub open spec fn opt_data_view(o: Option<ActionDataID>) -> Option<ActionDataIDView> {
    match o {
        Some(d) => Some(d@),
        None => None,
    }
}

impl View for PactlAction {
    type V = PactlActionView;

    closed spec fn view(&self) -> PactlActionView {
        PactlActionView {
            command: opt_string_view(self.command),
            source: opt_data_view(self.source),
            generator: self.generator@,
        }
    }
}

/// A freshly built action of generator `g`: nothing chosen, nothing to run.
pub open spec fn unconfigured_action(g: GeneratorIndexView) -> PactlActionView {
    PactlActionView { command: None, source: None, generator: g }
}

/// The action `a` after `data` was chosen, its generator's loopback id being
/// `loopback_id`.
pub open spec fn configured_action(
    a: PactlActionView,
    loopback_id: Seq<char>,
    data: ActionDataIDView,
) -> PactlActionView {
    PactlActionView {
        command: Some(move_source_script(loopback_id, data.id)),
        source: Some(data),
        generator: a.generator,
    }
}

/// What a `PactlActionGenerator` stands for.
pub struct PactlActionGeneratorView {
    pub loopback_id: Seq<char>,
    pub action_datas: Seq<ActionDataIDView>,
}

/// Builds pactl actions. It knows the id of the loopback's source output
/// and the sources that an action can move it to.
pub struct PactlActionGenerator {
    loopback_id: String,
    action_datas: Vec<ActionDataID>,
}

impl View for PactlActionGenerator {
    type V = PactlActionGeneratorView;

    closed spec fn view(&self) -> PactlActionGeneratorView {
        PactlActionGeneratorView {
            loopback_id: self.loopback_id@,
            action_datas: self.action_datas@.map_values(|d: ActionDataID| d@),
        }
    }
}

/// Why the command outputs that describe the audio setup were refused.
#[derive(Debug)]
pub enum GeneratorError {
    /// The output that names the loopback is not valid UTF-8.
    LoopbackNotText,
    /// The output that names the loopback holds nothing but white space.
    EmptyLoopbackId,
}

/// Builds actions of one kind and says how they are named.
pub trait ActionGenerator<T> {
    /// A new action of this generator, known to the application as `gener_idx`.
    fn build_action(&self, gener_idx: GeneratorIndex) -> Result<T, String>;

    /// A new action configured after the description `desc`.
    fn build_action_by_desc(&self, gener_idx: GeneratorIndex, desc: String) -> Result<T, String>;

    /// The name of the actions it builds.
    fn get_action_name(&self) -> String;

    /// The name shown for the generator.
    fn fmt(&self) -> String;
}

/// A spec predicate on choices: the description is `desc`.
pub open spec fn has_description(desc: Seq<char>) -> spec_fn(ActionDataIDView) -> bool {
    |d: ActionDataIDView| d.description == desc
}

/// The action that `build_action_by_desc` builds: configured with the first
/// choice whose description is `desc`, unconfigured where there is none.
pub open spec fn action_by_desc(
    g: PactlActionGeneratorView,
    gener_idx: GeneratorIndexView,
    desc: Seq<char>,
) -> PactlActionView {
    match first_where(g.action_datas, has_description(desc)) {
        Some(i) => configured_action(unconfigured_action(gener_idx), g.loopback_id, g.action_datas[i]),
        None => unconfigured_action(gener_idx),
    }
}

/// The loopback's source-output id in `raw`, the output of the command that
/// looks it up: the text without surrounding white space. Refused where the
/// output is not UTF-8 or holds nothing but white space.
pub fn parse_loopback_id(raw: &[u8]) -> (res: Result<String, GeneratorError>)
    ensures
        !valid_utf8(raw@) <==> res matches Err(GeneratorError::LoopbackNotText),
        (valid_utf8(raw@) && trim(decode_utf8(raw@)).len() == 0) <==> res matches Err(
            GeneratorError::EmptyLoopbackId,
        ),
        res matches Ok(id) ==> id@ == trim(decode_utf8(raw@)) && id@.len() > 0,
{
    let loopback_id = match decode_trimmed(raw) {
        Some(t) => t,
        None => {
            return Err(GeneratorError::LoopbackNotText);
        },
    };
    if loopback_id.as_str().unicode_len() == 0 {
        return Err(GeneratorError::EmptyLoopbackId);
    }
    Ok(loopback_id)
}

impl PactlActionGenerator {
    /// The generator for the loopback's source output `loopback_id` and the
    /// listed `sources`: each source becomes one choice, in order. The id is
    /// never empty: the original refuses a blank one before building.
    pub fn new(loopback_id: String, sources: &Vec<PaSource>) -> (res: PactlActionGenerator)
        requires
            loopback_id@.len() > 0,
        ensures
            res@.loopback_id == loopback_id@,
            res@.loopback_id.len() > 0,
            res@.action_datas == sources@.map_values(|s: PaSource| source_choice(s@)),
    {
        let mut action_datas: Vec<ActionDataID> = Vec::new();
        let mut i: usize = 0;
        while i < sources.len()
            invariant
                i <= sources.len(),
                action_datas@.len() == i,
                forall|j: int|
                    0 <= j < i ==> (#[trigger] action_datas@[j])@ == source_choice(sources@[j]@),
            decreases sources.len() - i,
        {
            let s = &sources[i];
            action_datas.push(ActionDataID { option_idx: 0, id: s.index as u64, description: s.name.clone() });
            i = i + 1;
        }
        let g = PactlActionGenerator { loopback_id, action_datas };
        assert(g@.action_datas =~= sources@.map_values(|s: PaSource| source_choice(s@)));
        g
    }

    /// The choices an action of this generator offers.
    pub fn action_datas(&self) -> (res: &Vec<ActionDataID>)
        ensures
            res@.map_values(|d: ActionDataID| d@) == self@.action_datas,
    {
        &self.action_datas
    }

    /// The id of the loopback's source output.
    pub fn loopback_id(&self) -> (res: &String)
        ensures
            res@ == self@.loopback_id,
    {
        &self.loopback_id
    }
}

impl ActionGenerator<PactlAction> for PactlActionGenerator {
    fn build_action(&self, gener_idx: GeneratorIndex) -> (res: Result<PactlAction, String>)
        ensures
            res matches Ok(a) && a@ == unconfigured_action(gener_idx@),
    {
        Ok(PactlAction { command: None, source: None, generator: gener_idx })
    }

    fn build_action_by_desc(&self, gener_idx: GeneratorIndex, desc: String) -> (res: Result<
        PactlAction,
        String,
    >)
        ensures
            res matches Ok(a) && a@ == action_by_desc(self@, gener_idx@, desc@),
    {
        let mut i: usize = 0;
        while i < self.action_datas.len()
            invariant
                i <= self.action_datas.len(),
                forall|j: int|
                    0 <= j < i ==> (#[trigger] self.action_datas@[j])@.description != desc@,
            decreases self.action_datas.len() - i,
        {
            if self.action_datas[i].description == desc {
                proof {
                    assert(is_first_where(self@.action_datas, has_description(desc@), i as int));
                    lemma_first_where_found(self@.action_datas, has_description(desc@), i as int);
                }
                let data = self.action_datas[i].duplicate();
                let mut action = PactlAction { command: None, source: None, generator: gener_idx };
                action.configure(&self.loopback_id, data);
                return Ok(action);
            }
            i = i + 1;
        }
        proof {
            assert forall|j: int| 0 <= j < self@.action_datas.len() implies !has_description(desc@)(
                #[trigger] self@.action_datas[j],
            ) by {
                assert(self@.action_datas[j] == self.action_datas@[j]@);
            }
            lemma_first_where_none(self@.action_datas, has_description(desc@));
        }
        Ok(PactlAction { command: None, source: None, generator: gener_idx })
    }

    fn get_action_name(&self) -> (res: String)
        ensures
            res@ == pactl_action_name(),
    {
        String::from_str("pactl move source")
    }

    fn fmt(&self) -> (res: String)
        ensures
            res@ == pactl_display_name(),
    {
        String::from_str("Pactl Action")
    }
}

/// Writes the script that moves the loopback's source output to a source.
pub fn move_source_command(loopback_id: &String, source_id: u64) -> (res: String)
    ensures
        res@ == move_source_script(loopback_id@, source_id),
{
    let s = String::from_str("pactl move-source-output ");
    let s = s.concat(loopback_id.as_str());
    let s = s.concat(" ");
    let id = decimal_string(source_id);
    s.concat(id.as_str())
}

impl PactlAction {
    /// The generator that built this action.
    pub fn get_generator(&self) -> (res: GeneratorIndex)
        ensures
            res@ == self@.generator,
    {
        self.generator.duplicate()
    }

    /// The chosen source, if any.
    pub fn source(&self) -> (res: &Option<ActionDataID>)
        ensures
            opt_data_view(*res) == self@.source,
    {
        &self.source
    }

    /// The script run with `sh -c` when the action is triggered; none before
    /// a source is chosen, and then triggering does nothing.
    pub fn command(&self) -> (res: &Option<String>)
        ensures
            opt_string_view(*res) == self@.command,
    {
        &self.command
    }

    fn configure(&mut self, loopback_id: &String, new_data: ActionDataID)
        ensures
            final(self)@ == configured_action(old(self)@, loopback_id@, new_data@),
    {
        self.command = Some(move_source_command(loopback_id, new_data.id));
        self.source = Some(new_data);
    }

    /// Chooses `new_data`: the action will then move the loopback's source
    /// output of its generator to that source.
    pub fn update(&mut self, new_data: ActionDataID, generators: &Vec<PactlActionGenerator>)
        requires
            old(self)@.generator.index < generators@.len(),
        ensures
            final(self)@ == configured_action(
                old(self)@,
                generators@[old(self)@.generator.index as int]@.loopback_id,
                new_data@,
            ),
    {
        let gener = &generators[self.generator.index];
        self.configure(&gener.loopback_id, new_data);
    }
}

} // verus!
