//! A configuration: what is stored for each display of a layout, how it is
//! captured from the live topology and how it is replayed onto one.
use vstd::prelude::*;
use crate::output::{output_identities, output_identity, Output, OutputIdentifier, Workspace};
use crate::properties::{captured, output_command, workspace_command, OutputProperties, PropertiesView};
use crate::table::{map_of, Table};
use crate::text::{join, joined, texts_of};

verus! {

/// The names of the workspaces assigned to the output named `name`, in the
/// order in which they are listed.
pub open spec fn workspaces_on(ws: Seq<Workspace>, name: Seq<char>) -> Seq<Seq<char>>
    decreases ws.len(),
{
    if ws.len() == 0 {
        Seq::empty()
    } else if ws.last().output@ == name {
        workspaces_on(ws.drop_last(), name).push(ws.last().name@)
    } else {
        workspaces_on(ws.drop_last(), name)
    }
}

/// What is recorded of display `o`, its workspaces included where it has any.
pub open spec fn captured_with_workspaces(o: Output, ws: Seq<Workspace>) -> PropertiesView {
    let on = workspaces_on(ws, o.name@);
    PropertiesView {
        workspaces: if on.len() > 0 {
            Some(on)
        } else {
            None
        },
        ..captured(o)
    }
}

/// The configuration captured from the displays `outputs`: each display's
/// identifier mapped to what is recorded of it. Where two displays share an
/// identifier, the later one is kept.
pub open spec fn capture_of(outputs: Seq<Output>, ws: Seq<Workspace>) -> Map<
    Seq<char>,
    PropertiesView,
>
    decreases outputs.len(),
{
    if outputs.len() == 0 {
        Map::empty()
    } else {
        capture_of(outputs.drop_last(), ws).insert(
            output_identity(outputs.last()),
            captured_with_workspaces(outputs.last(), ws),
        )
    }
}

/// The commands for display `o` given what is recorded for it: the output
/// command, then the workspace assignments, addressed by its live name.
pub open spec fn commands_for(p: PropertiesView, o: Output) -> Seq<Seq<char>> {
    seq![output_command(p, o.name@), workspace_command(p, o.name@)]
}

/// The commands that replay `config` onto the displays `outputs`, in their
/// order, for those displays that `config` has an entry for.
pub open spec fn replay_parts(config: Map<Seq<char>, PropertiesView>, outputs: Seq<Output>) -> Seq<
    Seq<char>,
>
    decreases outputs.len(),
{
    if outputs.len() == 0 {
        Seq::empty()
    } else {
        let o = outputs.last();
        let prev = replay_parts(config, outputs.drop_last());
        if config.contains_key(output_identity(o)) {
            prev + commands_for(config[output_identity(o)], o)
        } else {
            prev
        }
    }
}

/// The single batch that replays `config` onto the displays `outputs`.
pub open spec fn replay_batch(config: Map<Seq<char>, PropertiesView>, outputs: Seq<Output>) -> Seq<
    char,
> {
    joined(replay_parts(config, outputs), ";"@)
}

/// What is stored for each display of one layout.
pub struct Config {
    outputs: Table<OutputIdentifier, OutputProperties>,
}

impl View for Config {
    type V = Map<Seq<char>, PropertiesView>;

    closed spec fn view(&self) -> Map<Seq<char>, PropertiesView> {
        self.outputs@
    }
}

fn workspace_names_on(workspaces: &Vec<Workspace>, name: &String) -> (r: Vec<String>)
    ensures
        texts_of(r@) == workspaces_on(workspaces@, name@),
{
    let mut names: Vec<String> = Vec::new();
    let mut i: usize = 0;
    while i < workspaces.len()
        invariant
            i <= workspaces@.len(),
            texts_of(names@) =~= workspaces_on(workspaces@.take(i as int), name@),
        decreases workspaces@.len() - i,
    {
        let ghost before = names@;
        if workspaces[i].output == *name {
            names.push(workspaces[i].name.clone());
            assert(texts_of(names@) =~= texts_of(before).push(workspaces@[i as int].name@));
        }
        assert(workspaces@.take(i + 1).drop_last() =~= workspaces@.take(i as int));
        i = i + 1;
    }
    assert(workspaces@.take(workspaces@.len() as int) =~= workspaces@);
    names
}

impl Config {
    /// A configuration with no displays.
    pub fn new() -> (r: Config)
        ensures
            r@ == Map::<Seq<char>, PropertiesView>::empty(),
    {
        Config { outputs: Table::new() }
    }

    /// Records `properties` for the display `identifier`.
    pub fn insert(&mut self, identifier: OutputIdentifier, properties: OutputProperties)
        ensures
            final(self)@ == old(self)@.insert(identifier@, properties@),
    {
        self.outputs.insert(identifier, properties);
    }

    /// What is stored for the display `identifier`, if anything.
    pub fn get(&self, identifier: &OutputIdentifier) -> (r: Option<&OutputProperties>)
        ensures
            match r {
                Some(p) => self@.contains_key(identifier@) && p@ == self@[identifier@],
                None => !self@.contains_key(identifier@),
            },
    {
        self.outputs.get(identifier)
    }

    /// The displays and what is stored for each; a later entry overrides an
    /// earlier one for the same display.
    pub fn entries(&self) -> (r: &Vec<(OutputIdentifier, OutputProperties)>)
        ensures
            map_of(r@) == self@,
    {
        self.outputs.entries()
    }

    /// Captures the layout of the displays `outputs`, with the workspaces
    /// assigned to each of them.
    pub fn from_sway_outputs_workspaces(outputs: &Vec<Output>, workspaces: &Vec<Workspace>) -> (r:
        Config)
        ensures
            r@ == capture_of(outputs@, workspaces@),
    {
        let mut config = Config::new();
        let mut i: usize = 0;
        while i < outputs.len()
            invariant
                i <= outputs@.len(),
                config@ == capture_of(outputs@.take(i as int), workspaces@),
            decreases outputs@.len() - i,
        {
            let output = &outputs[i];
            let identifier = OutputIdentifier::of_output(output);
            let mut properties = OutputProperties::from_output(output);
            let names = workspace_names_on(workspaces, &output.name);
            if names.len() > 0 {
                properties.workspaces = Some(names);
            }
            assert(properties@ == captured_with_workspaces(outputs@[i as int], workspaces@));
            config.insert(identifier, properties);
            assert(outputs@.take(i + 1).drop_last() =~= outputs@.take(i as int));
            i = i + 1;
        }
        assert(outputs@.take(outputs@.len() as int) =~= outputs@);
        config
    }

    /// The batch of commands, joined by `;`, that applies this configuration to
    /// the displays `outputs`. Stored displays that are not connected are
    /// skipped; each connected one is addressed by its live name.
    pub fn sway_commands(&self, outputs: &Vec<Output>) -> (r: String)
        ensures
            r@ == replay_batch(self@, outputs@),
    {
        let mut commands: Vec<String> = Vec::new();
        let mut i: usize = 0;
        while i < outputs.len()
            invariant
                i <= outputs@.len(),
                texts_of(commands@) =~= replay_parts(self@, outputs@.take(i as int)),
            decreases outputs@.len() - i,
        {
            let output = &outputs[i];
            let ghost before = commands@;
            let identifier = OutputIdentifier::of_output(output);
            if let Some(properties) = self.get(&identifier) {
                let output_command = properties.to_sway_output_command(&output.name);
                let workspace_command = properties.to_sway_workspace_command(&output.name);
                commands.push(output_command);
                commands.push(workspace_command);
                assert(texts_of(commands@) =~= texts_of(before) + commands_for(
                    self@[identifier@],
                    outputs@[i as int],
                ));
            }
            assert(outputs@.take(i + 1).drop_last() =~= outputs@.take(i as int));
            i = i + 1;
        }
        assert(outputs@.take(outputs@.len() as int) =~= outputs@);
        join(&commands, ";")
    }
}


/// The commands that set each display of `outputs`, in order, to what is
/// recorded of it.
pub open spec fn own_parts(outputs: Seq<Output>, ws: Seq<Workspace>) -> Seq<Seq<char>>
    decreases outputs.len(),
{
    if outputs.len() == 0 {
        Seq::empty()
    } else {
        own_parts(outputs.drop_last(), ws) + commands_for(
            captured_with_workspaces(outputs.last(), ws),
            outputs.last(),
        )
    }
}

proof fn lemma_capture_entry(outputs: Seq<Output>, ws: Seq<Workspace>, k: int)
    requires
        output_identities(outputs).no_duplicates(),
        0 <= k < outputs.len(),
    ensures
        capture_of(outputs, ws).contains_key(output_identity(outputs[k])),
        capture_of(outputs, ws)[output_identity(outputs[k])] == captured_with_workspaces(
            outputs[k],
            ws,
        ),
    decreases outputs.len(),
{
    let rest = outputs.drop_last();
    if k < outputs.len() - 1 {
        assert(output_identities(rest) =~= output_identities(outputs).drop_last());
        lemma_capture_entry(rest, ws, k);
        assert(output_identities(outputs)[k] != output_identities(outputs)[outputs.len() - 1]);
    }
}

proof fn lemma_replay_own(
    config: Map<Seq<char>, PropertiesView>,
    outputs: Seq<Output>,
    ws: Seq<Workspace>,
)
    requires
        forall|k: int|
            0 <= k < outputs.len() ==> config.contains_key(output_identity(#[trigger] outputs[k]))
                && config[output_identity(outputs[k])] == captured_with_workspaces(outputs[k], ws),
    ensures
        replay_parts(config, outputs) == own_parts(outputs, ws),
    decreases outputs.len(),
{
    if outputs.len() > 0 {
        let rest = outputs.drop_last();
        assert forall|k: int| 0 <= k < rest.len() implies config.contains_key(
            output_identity(#[trigger] rest[k]),
        ) && config[output_identity(rest[k])] == captured_with_workspaces(rest[k], ws) by {
            assert(rest[k] == outputs[k]);
        }
        lemma_replay_own(config, rest, ws);
        assert(outputs.last() == outputs[outputs.len() - 1]);
    }
}

/// Replaying a configuration captured from some displays onto the same
/// displays sets each of them, in order and by its live name, to exactly what
/// was recorded of it, and to nothing else. This holds where no two of the
/// displays share an identifier.
pub proof fn lemma_capture_replay_round_trip(outputs: Seq<Output>, ws: Seq<Workspace>)
    requires
        output_identities(outputs).no_duplicates(),
    ensures
        replay_batch(capture_of(outputs, ws), outputs) == joined(own_parts(outputs, ws), ";"@),
{
    assert forall|k: int| 0 <= k < outputs.len() implies capture_of(outputs, ws).contains_key(
        output_identity(#[trigger] outputs[k]),
    ) && capture_of(outputs, ws)[output_identity(outputs[k])] == captured_with_workspaces(
        outputs[k],
        ws,
    ) by {
        lemma_capture_entry(outputs, ws, k);
    }
    lemma_replay_own(capture_of(outputs, ws), outputs, ws);
}

} // verus!
