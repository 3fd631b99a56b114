//! The store of saved configurations, and the decisions of saving into it and
//! replaying from it.
use vstd::prelude::*;
use crate::config::{replay_batch, Config};
use crate::output::{topology_of, CustomConfigIdentfier, DefaultConfigIdentifier, Output};
use crate::properties::PropertiesView;
use crate::table::Table;

verus! {

/// The value of a stored configuration.
pub type ConfigView = Map<Seq<char>, PropertiesView>;

/// The value of the store.
pub struct SettingsView {
    /// Custom configurations by name.
    pub custom: Map<Seq<char>, ConfigView>,
    /// Default configurations by the identity of the displays they are for.
    pub default: Map<Seq<Seq<char>>, ConfigView>,
}

/// All saved configurations.
pub struct Settings {
    custom_configurations: Table<CustomConfigIdentfier, Config>,
    default_configurations: Table<DefaultConfigIdentifier, Config>,
}

impl View for Settings {
    type V = SettingsView;

    closed spec fn view(&self) -> SettingsView {
        SettingsView { custom: self.custom_configurations@, default: self.default_configurations@ }
    }
}

impl Settings {
    /// A store with no configurations.
    pub fn new() -> (r: Settings)
        ensures
            r@.custom == Map::<Seq<char>, ConfigView>::empty(),
            r@.default == Map::<Seq<Seq<char>>, ConfigView>::empty(),
    {
        Settings { custom_configurations: Table::new(), default_configurations: Table::new() }
    }

    /// The custom configurations.
    pub fn custom_configurations(&self) -> (r: &Table<CustomConfigIdentfier, Config>)
        ensures
            r@ == self@.custom,
    {
        &self.custom_configurations
    }

    /// The default configurations.
    pub fn default_configurations(&self) -> (r: &Table<DefaultConfigIdentifier, Config>)
        ensures
            r@ == self@.default,
    {
        &self.default_configurations
    }

    /// Whether a default configuration is stored under `identifier`.
    pub fn has_default(&self, identifier: &DefaultConfigIdentifier) -> (r: bool)
        ensures
            r == self@.default.contains_key(identifier@),
    {
        self.default_configurations.contains_key(identifier)
    }

    /// Whether a custom configuration is stored under `name`.
    pub fn has_custom(&self, name: &CustomConfigIdentfier) -> (r: bool)
        ensures
            r == self@.custom.contains_key(name@),
    {
        self.custom_configurations.contains_key(name)
    }

    /// Stores `config` as the default configuration for `identifier`, where
    /// none is stored under it yet or overwriting it was confirmed; otherwise
    /// leaves the store as it is. Returns whether it stored.
    pub fn save_default(
        &mut self,
        identifier: DefaultConfigIdentifier,
        config: Config,
        overwrite_confirmed: bool,
    ) -> (saved: bool)
        ensures
            saved == (!old(self)@.default.contains_key(identifier@) || overwrite_confirmed),
            saved ==> final(self)@.default == old(self)@.default.insert(identifier@, config@),
            saved ==> final(self)@.custom == old(self)@.custom,
            !saved ==> final(self)@ == old(self)@,
    {
        if self.default_configurations.contains_key(&identifier) && !overwrite_confirmed {
            return false;
        }
        self.default_configurations.insert(identifier, config);
        true
    }

    /// Stores `config` as the custom configuration `name`, where none is
    /// stored under that name yet or overwriting it was confirmed; otherwise
    /// leaves the store as it is. Returns whether it stored.
    pub fn save_custom(&mut self, name: CustomConfigIdentfier, config: Config, overwrite_confirmed: bool) -> (saved:
        bool)
        ensures
            saved == (!old(self)@.custom.contains_key(name@) || overwrite_confirmed),
            saved ==> final(self)@.custom == old(self)@.custom.insert(name@, config@),
            saved ==> final(self)@.default == old(self)@.default,
            !saved ==> final(self)@ == old(self)@,
    {
        if self.custom_configurations.contains_key(&name) && !overwrite_confirmed {
            return false;
        }
        self.custom_configurations.insert(name, config);
        true
    }

    /// The batch of commands that applies the default configuration for the
    /// connected displays `outputs`, or `None` where none is stored for them,
    /// in which case nothing is to be sent.
    pub fn default_commands(&self, outputs: &Vec<Output>) -> (r: Option<String>)
        ensures
            match r {
                Some(batch) => self@.default.contains_key(topology_of(outputs@)) && batch@
                    == replay_batch(self@.default[topology_of(outputs@)], outputs@),
                None => !self@.default.contains_key(topology_of(outputs@)),
            },
    {
        let identifier = DefaultConfigIdentifier::from_outputs(outputs);
        match self.default_configurations.get(&identifier) {
            Some(config) => Some(config.sway_commands(outputs)),
            None => None,
        }
    }

    /// The batch of commands that applies the custom configuration `name` to
    /// the connected displays `outputs`, or `None` where no configuration has
    /// that name, in which case nothing is to be sent.
    pub fn custom_commands(&self, name: &CustomConfigIdentfier, outputs: &Vec<Output>) -> (r: Option<
        String,
    >)
        ensures
            match r {
                Some(batch) => self@.custom.contains_key(name@) && batch@ == replay_batch(
                    self@.custom[name@],
                    outputs@,
                ),
                None => !self@.custom.contains_key(name@),
            },
    {
        match self.custom_configurations.get(name) {
            Some(config) => Some(config.sway_commands(outputs)),
            None => None,
        }
    }
}

} // verus!
