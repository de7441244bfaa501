use gemini_proxy::cli::{Cli, Commands, Plan};
use std::path::{Path, PathBuf};

fn cli(command: Option<Commands>) -> Cli {
    Cli { config: PathBuf::from("config.toml"), log_level: "info".to_string(), command }
}

#[test]
fn no_subcommand_serves() {
    match cli(None).plan() {
        Plan::Serve { config } => assert_eq!(config, Path::new("config.toml")),
        other => panic!("unexpected plan {:?}", other),
    }
}

#[test]
fn serve_uses_the_global_config() {
    match cli(Some(Commands::Serve)).plan() {
        Plan::Serve { config } => assert_eq!(config, Path::new("config.toml")),
        other => panic!("unexpected plan {:?}", other),
    }
}

#[test]
fn validate_prefers_its_own_config() {
    let own = Commands::Validate { config: Some(PathBuf::from("other.toml")) };
    match cli(Some(own)).plan() {
        Plan::Validate { config } => assert_eq!(config, Path::new("other.toml")),
        other => panic!("unexpected plan {:?}", other),
    }
}

#[test]
fn validate_falls_back_to_the_global_config() {
    match cli(Some(Commands::Validate { config: None })).plan() {
        Plan::Validate { config } => assert_eq!(config, Path::new("config.toml")),
        other => panic!("unexpected plan {:?}", other),
    }
}

#[test]
fn generate_config_names_its_output() {
    let generate = Commands::GenerateConfig { output: PathBuf::from("config.toml.example") };
    match cli(Some(generate)).plan() {
        Plan::GenerateConfig { output } => assert_eq!(output, Path::new("config.toml.example")),
        other => panic!("unexpected plan {:?}", other),
    }
}
