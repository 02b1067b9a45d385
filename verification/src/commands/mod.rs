//! The commands of the command line.

pub mod build_image;
pub mod clean;
pub mod new;
pub mod run;

pub use self::build_image::Build;
pub use self::clean::Clean;
pub use self::new::New;
pub use self::run::Run;

use vstd::prelude::*;
use vstd::string::*;
use crate::commands::build_image::BuildView;
use crate::commands::new::NewView;
use crate::commands::run::RunView;

verus! {

/// The mathematical value of a [`Commands`].
pub enum CommandsView {
    Build(BuildView),
    Clean,
    New(NewView),
    Run(RunView),
}

impl CommandsView {
    /// The command as it is written on a command line.
    pub open spec fn text(self) -> Seq<char> {
        match self {
            CommandsView::Build(build) => build.text(),
            CommandsView::Clean => "clean"@,
            CommandsView::New(new) => new.text(),
            CommandsView::Run(run) => run.text(),
        }
    }
}

/// One of the commands.
#[derive(Debug, PartialEq, Eq)]
pub enum Commands {
    /// Build an image and the images that it is based on.
    Build(Build),
    /// Remove the images which no tag refers to any more.
    Clean(Clean),
    /// Create a project.
    New(New),
    /// Open a project.
    Run(Run),
}

impl View for Commands {
    type V = CommandsView;

    open spec fn view(&self) -> CommandsView {
        match self {
            Commands::Build(build) => CommandsView::Build(build@),
            Commands::Clean(_) => CommandsView::Clean,
            Commands::New(new) => CommandsView::New(new@),
            Commands::Run(run) => CommandsView::Run(run@),
        }
    }
}

impl Commands {
    /// The command as it is written on a command line.
    pub fn to_string(&self) -> (text: String)
        ensures
            text@ == self@.text(),
    {
        match self {
            Commands::Build(build) => build.to_string(),
            Commands::Clean(clean) => clean.to_string(),
            Commands::New(new) => new.to_string(),
            Commands::Run(run) => run.to_string(),
        }
    }
}

} // verus!
