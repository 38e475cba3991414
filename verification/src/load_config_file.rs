//! The settings of a run, as they are made of what a settings file holds.

use crate::data_struct::Config;
use crate::replace_prefix_or_not::{anchored_entries, AliasEntries};
use vstd::prelude::*;

verus! {

/// The alias table of `config` as contracts see it, if it has one.
pub open spec fn aliases_of(config: Config) -> Option<AliasEntries> {
    match config.alias {
        Some(table) => Some(table@),
        None => None,
    }
}

/// The settings of a run, made of the settings `in_file` that were read
/// from the file `config_file_path`: every directory of the alias table is
/// joined onto that path and normalized as the platform asks (`verbatim`).
/// Settings without alias table stay without.
pub fn load_config(in_file: Config, config_file_path: &str, verbatim: bool) -> (config: Config)
    ensures
        aliases_of(config) == match aliases_of(in_file) {
            Some(entries) => Some(anchored_entries(entries, config_file_path@, verbatim)),
            None => None,
        },
{
    match in_file.alias {
        Some(table) => Config { alias: Some(table.anchored(config_file_path, verbatim)) },
        None => Config { alias: None },
    }
}

} // verus!
