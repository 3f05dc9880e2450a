use pipa::cli::{run_selection, Cli, CliError, Commands, ContractCommands, LogsCommands, ProfileCommands, RunSelection};

#[test]
fn test_run_with_contract_name() {
    let args = Cli::parse_from(&["pipa", "run", "my_contract"]);

    match args.command {
        Some(Commands::Run { contract, all }) => {
            assert_eq!(contract, Some("my_contract".to_string()));
            assert!(!all);
        }
        _ => panic!("Expected Run command"),
    }
}

#[test]
fn test_run_with_all_flag() {
    let args = Cli::parse_from(&["pipa", "run", "--all"]);

    match args.command {
        Some(Commands::Run { contract, all }) => {
            assert_eq!(contract, None);
            assert!(all);
        }
        _ => panic!("Expected Run command"),
    }
}

#[test]
fn test_contract_validate() {
    let args = Cli::parse_from(&["pipa", "contract", "validate", "test.toml"]);

    match args.command {
        Some(Commands::Contract { contract_command }) => {
            match contract_command {
                ContractCommands::Validate { file } => {
                    assert_eq!(file, "test.toml");
                }
                _ => panic!("Expected Validate command"),
            }
        }
        _ => panic!("Expected Contract command"),
    }
}

#[test]
fn test_contract_list() {
    let args = Cli::parse_from(&["pipa", "contract", "list"]);

    match args.command {
        Some(Commands::Contract { contract_command }) => {
            assert!(matches!(contract_command, ContractCommands::List));
        }
        _ => panic!("Expected Contract command"),
    }
}

#[test]
fn test_contract_show() {
    let args = Cli::parse_from(&["pipa", "contract", "show", "my_contract"]);

    match args.command {
        Some(Commands::Contract { contract_command }) => {
            match contract_command {
                ContractCommands::Show { name } => {
                    assert_eq!(name, "my_contract");
                }
                _ => panic!("Expected Show command"),
            }
        }
        _ => panic!("Expected Contract command"),
    }
}

#[test]
fn test_profile_list() {
    let args = Cli::parse_from(&["pipa", "profile", "list"]);

    match args.command {
        Some(Commands::Profile { profile_command }) => {
            assert!(matches!(profile_command, ProfileCommands::List));
        }
        _ => panic!("Expected Profile command"),
    }
}

#[test]
fn test_profile_test() {
    let args = Cli::parse_from(&["pipa", "profile", "test", "my_profile"]);

    match args.command {
        Some(Commands::Profile { profile_command }) => {
            match profile_command {
                ProfileCommands::Test { profile } => {
                    assert_eq!(profile, "my_profile");
                }
                _ => panic!("Expected Test command"),
            }
        }
        _ => panic!("Expected Profile command"),
    }
}

#[test]
fn test_health_command() {
    let args = Cli::parse_from(&["pipa", "health"]);

    match args.command {
        Some(Commands::Health) => {
            // Success - health command parsed correctly
        }
        _ => panic!("Expected Health command"),
    }
}

#[test]
fn test_logs_verify_with_date() {
    let args = Cli::parse_from(&["pipa", "logs", "verify", "--date", "2025-01-15"]);

    match args.command {
        Some(Commands::Logs { logs_command }) => {
            match logs_command {
                LogsCommands::Verify { date, all } => {
                    assert_eq!(date, Some("2025-01-15".to_string()));
                    assert!(!all);
                }
            }
        }
        _ => panic!("Expected Logs command"),
    }
}

#[test]
fn test_logs_verify_all() {
    let args = Cli::parse_from(&["pipa", "logs", "verify", "--all"]);

    match args.command {
        Some(Commands::Logs { logs_command }) => {
            match logs_command {
                LogsCommands::Verify { date, all } => {
                    assert_eq!(date, None);
                    assert!(all);
                }
            }
        }
        _ => panic!("Expected Logs command"),
    }
}

#[test]
fn test_init_command() {
    let args = Cli::parse_from(&["pipa", "init"]);

    match args.command {
        Some(Commands::Init) => {
            // Success - init command parsed correctly
        }
        _ => panic!("Expected Init command"),
    }
}

#[test]
fn test_verbose_flag() {
    let args = Cli::parse_from(&["pipa", "--verbose", "health"]);
    assert!(args.verbose);
}

#[test]
fn test_verbose_flag_short() {
    let args = Cli::parse_from(&["pipa", "-v", "health"]);
    assert!(args.verbose);
}

#[test]
fn test_no_command() {
    let args = Cli::parse_from(&["pipa"]);
    assert!(args.command.is_none());
}

#[test]
fn run_selection_rules() {
    let name = "my_contract".to_string();
    assert!(matches!(run_selection(Some(&name), false), Ok(RunSelection::Single(n)) if n == "my_contract"));
    assert!(matches!(run_selection(None, true), Ok(RunSelection::All)));
    assert!(matches!(
        run_selection(None, false),
        Err(m) if m == "Must specify either contract name or --all"
    ));
    assert!(matches!(
        run_selection(Some(&name), true),
        Err(m) if m == "Cannot specify both contract name and --all"
    ));
    assert_eq!(pipa::cli::NO_COMMAND_MESSAGE, "No command specified");
}

#[test]
fn refused_command_lines() {
    assert_eq!(Cli::try_parse_from(&["pipa", "--help"]).err(), Some(CliError::DisplayHelp));
    assert_eq!(Cli::try_parse_from(&["pipa", "contract", "validate"]).err(), Some(CliError::MissingArgument));
    assert_eq!(Cli::try_parse_from(&["pipa", "contract", "show"]).err(), Some(CliError::MissingArgument));
    assert_eq!(Cli::try_parse_from(&["pipa", "profile", "test"]).err(), Some(CliError::MissingArgument));
    assert_eq!(Cli::try_parse_from(&["pipa", "frobnicate"]).err(), Some(CliError::InvalidSubcommand(1)));
    assert_eq!(Cli::try_parse_from(&["pipa", "contract"]).err(), Some(CliError::MissingSubcommand));
    assert_eq!(Cli::try_parse_from(&["pipa", "run", "--bogus"]).err(), Some(CliError::UnknownArgument(2)));
    assert_eq!(Cli::try_parse_from(&["pipa", "run", "a", "b"]).err(), Some(CliError::UnexpectedArgument(3)));
    assert_eq!(Cli::try_parse_from(&["pipa", "logs", "verify", "--date"]).err(), Some(CliError::MissingValue(3)));
    assert_eq!(Cli::try_parse_from(&["pipa", "run", "--all", "--all"]).err(), Some(CliError::ArgumentConflict(3)));
}

#[test]
fn verbose_and_values_in_other_forms() {
    let a = Cli::parse_from(&["pipa", "--verbose", "contract", "list"]);
    assert!(a.verbose);
    assert!(matches!(a.command, Some(Commands::Contract { contract_command: ContractCommands::List })));
    let b = Cli::parse_from(&["pipa", "logs", "verify", "--date=2025-01-15", "--all"]);
    match b.command {
        Some(Commands::Logs { logs_command: LogsCommands::Verify { date, all } }) => {
            assert_eq!(date.as_deref(), Some("2025-01-15"));
            assert!(all);
        }
        _ => panic!("Expected Logs command"),
    }
    let c = Cli::parse_from(&["pipa", "run"]);
    assert!(matches!(c.command, Some(Commands::Run { contract: None, all: false })));
}

#[test]
fn short_and_long_verbose_mean_the_same() {
    for rest in [vec!["run", "x"], vec!["logs", "verify", "--all"], vec![], vec!["-v"], vec!["bogus"]] {
        let mut a = vec!["pipa", "-v"];
        a.extend(rest.iter());
        let mut b = vec!["pipa", "--verbose"];
        b.extend(rest.iter());
        let ra = Cli::try_parse_from(&a);
        let rb = Cli::try_parse_from(&b);
        match (ra, rb) {
            (Ok(x), Ok(y)) => {
                assert_eq!(x.verbose, y.verbose);
                assert_eq!(x.command.is_some(), y.command.is_some());
            }
            (Err(x), Err(y)) => assert_eq!(x, y),
            _ => panic!("the two forms disagree"),
        }
    }
}
