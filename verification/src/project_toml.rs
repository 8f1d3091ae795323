//! The settings that a project keeps in its own directory.

use vstd::prelude::*;

verus! {

/// Name of the file that marks a directory as a project and holds its settings.
pub const FILE_NAME: &'static str = "project.toml";

/// The settings of one project.
#[derive(Clone, Debug, PartialEq, Eq)]
pub struct ProjectToml {
    /// The game that the project is made for.
    pub game: String,
}

impl Default for ProjectToml {
    fn default() -> (project: Self)
        ensures
            project.game@ == crate::DEFAULT_GAME@,
    {
        ProjectToml { game: String::from_str(crate::DEFAULT_GAME) }
    }
}

} // verus!
