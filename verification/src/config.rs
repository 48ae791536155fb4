//! The options of a run, as plain values.

use crate::text::same_text;
use vstd::prelude::*;

verus! {

/// What can be done with a record.
#[derive(Clone, Copy, PartialEq, Eq, Structural, Debug)]
pub enum Action {
    /// Show the tracked file and its backup files in the diff program.
    View,
    /// Leave the record as it is.
    Skip,
    /// Delete the backup files.
    Remove,
    /// Put the last backup file in the tracked file's place and delete the
    /// others.
    Overwrite,
    /// End the run.
    Quit,
}

/// The options of a run.
#[derive(Clone, Debug)]
pub struct Config {
    /// The package database to use instead of the configured one.
    pub dbpath: Option<String>,
    /// The root directory to use instead of the configured one.
    pub root: Option<String>,
    /// The configuration file to read instead of the default one.
    pub config: Option<String>,
    /// Manage every record without asking for a selection.
    pub all: bool,
    /// Print the backup files and change nothing.
    pub output: bool,
    /// Report directories and entries that cannot be read.
    pub verbose: bool,
    /// The action to take on every record without asking.
    pub action: Option<Action>,
    /// The command line of the diff program.
    pub diffprog: String,
    /// Run the diff program directly even if `sudouser` is set.
    pub nosudoedit: bool,
    /// The user as whom files are edited through `sudo -e`.
    pub sudouser: Option<String>,
    /// The packages to look at; all packages if empty.
    pub targets: Vec<String>,
}

/// Whether output is coloured: always for `always`, for `auto` if standard
/// output is a terminal, and for no other word.
pub open spec fn colour_wanted(when: Seq<char>, terminal: bool) -> bool {
    when == "always"@ || (when == "auto"@ && terminal)
}

/// Decides [`colour_wanted`].
pub fn wants_colour(when: &str, terminal: bool) -> (wanted: bool)
    ensures
        wanted == colour_wanted(when@, terminal),
{
    same_text(when, "always") || (terminal && same_text(when, "auto"))
}

} // verus!
