use bitsink::cli::{Cli, Commands, ProjectCommand};
use bitsink::collection::{Collection, Field, FieldType};

fn lines(command: Commands, verbose: bool) -> Vec<String> {
    Cli { command, config: "config.toml".to_string(), verbose }.run()
}

#[test]
fn run_announces_the_command() {
    assert_eq!(lines(Commands::Server, false), vec!["Starting server..."]);
    assert_eq!(lines(Commands::Interactive, false), vec!["Entering interactive mode..."]);
    assert_eq!(
        lines(Commands::Project(ProjectCommand::New { name: "shop".to_string() }), false),
        vec!["Creating new project: shop"]
    );
    assert_eq!(
        lines(Commands::Project(ProjectCommand::List), false),
        vec!["Listing all projects..."]
    );
    assert_eq!(
        lines(Commands::Project(ProjectCommand::Delete { name: "shop".to_string() }), false),
        vec!["Deleting project: shop"]
    );
    assert_eq!(
        lines(
            Commands::Project(ProjectCommand::Rename {
                old_name: "shop".to_string(),
                new_name: "store".to_string()
            }),
            false
        ),
        vec!["Renaming project from 'shop' to 'store'"]
    );
    assert_eq!(
        lines(
            Commands::Project(ProjectCommand::Export {
                name: "shop".to_string(),
                file: "out.json".to_string()
            }),
            false
        ),
        vec!["Exporting project 'shop' to 'out.json'"]
    );
    assert_eq!(
        lines(Commands::Project(ProjectCommand::Info { name: "shop".to_string() }), false),
        vec!["Showing information for project: shop"]
    );
}

#[test]
fn run_reports_verbose_mode_first() {
    assert_eq!(
        lines(Commands::Server, true),
        vec!["Verbose mode enabled.", "Starting server..."]
    );
    assert_eq!(
        lines(Commands::Project(ProjectCommand::List), true),
        vec!["Verbose mode enabled.", "Listing all projects..."]
    );
}

#[test]
fn schema_types_hold_their_fields() {
    let field = Field { id: [1; 16], name: "title".to_string(), field_type: FieldType::Text };
    let collection = Collection {
        id: [2; 16],
        name: "posts".to_string(),
        description: "blog posts".to_string(),
        fields: vec![field],
    };
    assert_eq!(collection.fields.len(), 1);
    assert_eq!(collection.fields[0].field_type, FieldType::Text);
    assert_ne!(FieldType::Date, FieldType::DateTime);
    assert_eq!(collection.fields[0].name, "title");
}
