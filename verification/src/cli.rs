use vstd::prelude::*;
use vstd::string::StringExecFns;

verus! {

/// The command line of the gateway.
pub struct Cli {
    pub command: Commands,
    /// Path to the configuration file.
    pub config: String,
    /// Whether verbose logging is on.
    pub verbose: bool,
}

/// What the command line asks for.
pub enum Commands {
    /// Start the server.
    Server,
    /// Manage projects.
    Project(ProjectCommand),
    /// Enter interactive mode.
    Interactive,
}

/// What the command line asks to do with projects.
pub enum ProjectCommand {
    /// Create a new project.
    New { name: String },
    /// List all projects.
    List,
    /// Delete a project.
    Delete { name: String },
    /// Rename a project.
    Rename { old_name: String, new_name: String },
    /// Export a project to a file.
    Export { name: String, file: String },
    /// Show detailed information about a project.
    Info { name: String },
}

/// The line that announces `command`.
pub open spec fn announcement(command: Commands) -> Seq<char> {
    match command {
        Commands::Server => "Starting server..."@,
        Commands::Interactive => "Entering interactive mode..."@,
        Commands::Project(action) => match action {
            ProjectCommand::New { name } => "Creating new project: "@ + name@,
            ProjectCommand::List => "Listing all projects..."@,
            ProjectCommand::Delete { name } => "Deleting project: "@ + name@,
            ProjectCommand::Rename { old_name, new_name } => "Renaming project from '"@
                + old_name@ + "' to '"@ + new_name@ + "'"@,
            ProjectCommand::Export { name, file } => "Exporting project '"@ + name@ + "' to '"@
                + file@ + "'"@,
            ProjectCommand::Info { name } => "Showing information for project: "@ + name@,
        },
    }
}

/// The lines that a run reports: a notice where verbose logging is on, then the
/// announcement of the command.
pub open spec fn report(verbose: bool, command: Commands) -> Seq<Seq<char>> {
    if verbose {
        seq!["Verbose mode enabled."@, announcement(command)]
    } else {
        seq![announcement(command)]
    }
}

impl Cli {
    /// The lines to print for this command line, in order.
    pub fn run(&self) -> (lines: Vec<String>)
        ensures
            crate::text::texts(lines@) == report(self.verbose, self.command),
    {
        let mut lines: Vec<String> = Vec::new();
        if self.verbose {
            lines.push("Verbose mode enabled.".to_string());
        }
        let line = match &self.command {
            Commands::Server => "Starting server...".to_string(),
            Commands::Interactive => "Entering interactive mode...".to_string(),
            Commands::Project(action) => match action {
                ProjectCommand::New { name } => {
                    let mut line = "Creating new project: ".to_string();
                    line.append(name.as_str());
                    line
                },
                ProjectCommand::List => "Listing all projects...".to_string(),
                ProjectCommand::Delete { name } => {
                    let mut line = "Deleting project: ".to_string();
                    line.append(name.as_str());
                    line
                },
                ProjectCommand::Rename { old_name, new_name } => {
                    let mut line = "Renaming project from '".to_string();
                    line.append(old_name.as_str());
                    line.append("' to '");
                    line.append(new_name.as_str());
                    line.append("'");
                    line
                },
                ProjectCommand::Export { name, file } => {
                    let mut line = "Exporting project '".to_string();
                    line.append(name.as_str());
                    line.append("' to '");
                    line.append(file.as_str());
                    line.append("'");
                    line
                },
                ProjectCommand::Info { name } => {
                    let mut line = "Showing information for project: ".to_string();
                    line.append(name.as_str());
                    line
                },
            },
        };
        assert(line@ == announcement(self.command));
        lines.push(line);
        assert(crate::text::texts(lines@) =~= report(self.verbose, self.command));
        lines
    }
}

} // verus!
