//! The command-line grammar of `pipa`.
//!
//! `pipa [-v|--verbose] [COMMAND]` where COMMAND is one of
//! `run [CONTRACT] [--all]`, `contract (list | validate FILE | show NAME)`,
//! `profile (list | test PROFILE)`, `health`, `logs verify [--date DATE]
//! [--all]`, `init`. Every command accepts `-h`/`--help`; `help` asks for
//! help too. `--name=value` gives an option its value, `--` ends the options,
//! and short flags may be clustered (`-vh`). An option or flag given twice is
//! an error, as is anything the grammar does not expect.

use crate::text::{chars_of, string_of};
use crate::verify::chars_eq;
use vstd::prelude::*;

verus! {

/// The parsed command line.
pub struct Cli {
    /// Increase output verbosity.
    pub verbose: bool,
    /// The command to run, if any.
    pub command: Option<Commands>,
}

/// Top-level commands.
pub enum Commands {
    /// Run data validation for one contract or for all of them.
    Run { contract: Option<String>, all: bool },
    /// Manage contracts.
    Contract { contract_command: ContractCommands },
    /// Manage profiles.
    Profile { profile_command: ProfileCommands },
    /// Run a system health check.
    Health,
    /// Manage logs.
    Logs { logs_command: LogsCommands },
    /// Initialize a new project in the current directory.
    Init,
}

/// Contract subcommands.
pub enum ContractCommands {
    /// List available contracts.
    List,
    /// Validate a contract file.
    Validate { file: String },
    /// Show a contract by name.
    Show { name: String },
}

/// Profile subcommands.
pub enum ProfileCommands {
    /// List available profiles.
    List,
    /// Test a profile's connectivity.
    Test { profile: String },
}

/// Log subcommands.
pub enum LogsCommands {
    /// Verify log integrity, for one date or for all sealed logs.
    Verify { date: Option<String>, all: bool },
}

/// Why a command line was not accepted. Positions index the argument list
/// (the program name is position 0).
#[derive(Debug, Clone, Copy, PartialEq, Eq, Structural)]
pub enum CliError {
    /// Help was asked for.
    DisplayHelp,
    /// An option or flag that the command does not know.
    UnknownArgument(usize),
    /// A value where the command takes none (or no more).
    UnexpectedArgument(usize),
    /// A name that is not a subcommand here.
    InvalidSubcommand(usize),
    /// A command that needs a subcommand got none.
    MissingSubcommand,
    /// A required value is missing.
    MissingArgument,
    /// The option at this position lacks its value.
    MissingValue(usize),
    /// The option or flag at this position was already given.
    ArgumentConflict(usize),
}

/// A command as plain values.
pub enum CommandModel {
    Run { contract: Option<Seq<char>>, all: bool },
    ContractList,
    ContractValidate { file: Seq<char> },
    ContractShow { name: Seq<char> },
    ProfileList,
    ProfileTest { profile: Seq<char> },
    Health,
    LogsVerify { date: Option<Seq<char>>, all: bool },
    Init,
}

/// A parsed command line as plain values.
pub struct CliModel {
    pub verbose: bool,
    pub command: Option<CommandModel>,
}

pub open spec fn opt_chars(o: Option<String>) -> Option<Seq<char>> {
    match o {
        Some(s) => Some(s@),
        None => None,
    }
}

/// The plain values of a command.
pub open spec fn command_model(c: Commands) -> CommandModel {
    match c {
        Commands::Run { contract, all } => CommandModel::Run { contract: opt_chars(contract), all },
        Commands::Contract { contract_command } => match contract_command {
            ContractCommands::List => CommandModel::ContractList,
            ContractCommands::Validate { file } => CommandModel::ContractValidate { file: file@ },
            ContractCommands::Show { name } => CommandModel::ContractShow { name: name@ },
        },
        Commands::Profile { profile_command } => match profile_command {
            ProfileCommands::List => CommandModel::ProfileList,
            ProfileCommands::Test { profile } => CommandModel::ProfileTest { profile: profile@ },
        },
        Commands::Health => CommandModel::Health,
        Commands::Logs { logs_command } => match logs_command {
            LogsCommands::Verify { date, all } => CommandModel::LogsVerify { date: opt_chars(date), all },
        },
        Commands::Init => CommandModel::Init,
    }
}

/// The plain values of a command line.
pub open spec fn cli_model(c: Cli) -> CliModel {
    CliModel {
        verbose: c.verbose,
        command: match c.command {
            Some(cmd) => Some(command_model(cmd)),
            None => None,
        },
    }
}

/// Looks like an option or flag: starts with `-` and is not just `-`.
pub open spec fn is_dashed(t: Seq<char>) -> bool {
    t.len() > 1 && t[0] == '-'
}

/// `t` is `-h` or `--help`.
pub open spec fn is_help(t: Seq<char>) -> bool {
    t == "-h"@ || t == "--help"@
}

/// `t` is `--<name>=<value>`.
pub open spec fn long_with_value(t: Seq<char>, name: Seq<char>) -> bool {
    let n: int = name.len() as int + 2;
    t.len() > n && t.take(n) == "--"@ + name && t[n] == '='
}

/// What the arguments of a leaf command hold so far: its positional value,
/// the `--all` flag, the `--date` value.
pub struct ArgState {
    pub positional: Option<Seq<char>>,
    pub all: bool,
    pub date: Option<Seq<char>>,
}

/// The shape of a leaf command's arguments: whether it takes one positional
/// value, the `--all` flag, the `--date` option.
pub struct ArgShape {
    pub positional: bool,
    pub all: bool,
    pub date: bool,
}

/// Parses the arguments of a leaf command from position `j`; `only_values`
/// after `--`.
pub open spec fn leaf_args(
    args: Seq<Seq<char>>,
    j: int,
    shape: ArgShape,
    st: ArgState,
    only_values: bool,
) -> Result<ArgState, CliError>
    decreases args.len() - j,
{
    if j < 0 || j >= args.len() {
        Ok(st)
    } else {
        let t = args[j];
        if !only_values && t == "--"@ {
            leaf_args(args, j + 1, shape, st, true)
        } else if !only_values && is_help(t) {
            Err(CliError::DisplayHelp)
        } else if !only_values && shape.all && t == "--all"@ {
            if st.all {
                Err(CliError::ArgumentConflict(j as usize))
            } else {
                leaf_args(args, j + 1, shape, ArgState { all: true, ..st }, false)
            }
        } else if !only_values && shape.date && t == "--date"@ {
            if st.date is Some {
                Err(CliError::ArgumentConflict(j as usize))
            } else if j + 1 >= args.len() || is_dashed(args[j + 1]) {
                Err(CliError::MissingValue(j as usize))
            } else {
                leaf_args(args, j + 2, shape, ArgState { date: Some(args[j + 1]), ..st }, false)
            }
        } else if !only_values && shape.date && long_with_value(t, "date"@) {
            if st.date is Some {
                Err(CliError::ArgumentConflict(j as usize))
            } else {
                leaf_args(args, j + 1, shape, ArgState { date: Some(t.skip(7)), ..st }, false)
            }
        } else if !only_values && is_dashed(t) {
            Err(CliError::UnknownArgument(j as usize))
        } else if shape.positional && st.positional is None {
            leaf_args(args, j + 1, shape, ArgState { positional: Some(t), ..st }, only_values)
        } else {
            Err(CliError::UnexpectedArgument(j as usize))
        }
    }
}

/// The empty argument state.
pub open spec fn no_args() -> ArgState {
    ArgState { positional: None, all: false, date: None }
}

/// Parses a leaf command that takes only `-h`.
pub open spec fn bare_command(args: Seq<Seq<char>>, j: int, cmd: CommandModel) -> Result<CommandModel, CliError> {
    match leaf_args(args, j, ArgShape { positional: false, all: false, date: false }, no_args(), false) {
        Ok(_) => Ok(cmd),
        Err(e) => Err(e),
    }
}

/// Parses a leaf command with one required value.
pub open spec fn one_value_command(
    args: Seq<Seq<char>>,
    j: int,
    make: spec_fn(Seq<char>) -> CommandModel,
) -> Result<CommandModel, CliError> {
    match leaf_args(args, j, ArgShape { positional: true, all: false, date: false }, no_args(), false) {
        Ok(st) => match st.positional {
            Some(v) => Ok(make(v)),
            None => Err(CliError::MissingArgument),
        },
        Err(e) => Err(e),
    }
}

/// Finds the subcommand name of a command that requires one, from position
/// `j`: help flags ask for help, other dashed words are unknown.
pub open spec fn find_subcommand(args: Seq<Seq<char>>, j: int) -> Result<int, CliError>
    decreases args.len() - j,
{
    if j < 0 || j >= args.len() {
        Err(CliError::MissingSubcommand)
    } else {
        let t = args[j];
        if is_help(t) {
            Err(CliError::DisplayHelp)
        } else if t == "--"@ {
            if j + 1 < args.len() {
                Err(CliError::InvalidSubcommand((j + 1) as usize))
            } else {
                Err(CliError::MissingSubcommand)
            }
        } else if is_dashed(t) {
            Err(CliError::UnknownArgument(j as usize))
        } else {
            Ok(j)
        }
    }
}

/// `contract (list | validate FILE | show NAME)`.
pub open spec fn contract_command(args: Seq<Seq<char>>, j: int) -> Result<CommandModel, CliError> {
    match find_subcommand(args, j) {
        Err(e) => Err(e),
        Ok(k) => {
            let t = args[k];
            if t == "list"@ {
                bare_command(args, k + 1, CommandModel::ContractList)
            } else if t == "validate"@ {
                one_value_command(args, k + 1, |v: Seq<char>| CommandModel::ContractValidate { file: v })
            } else if t == "show"@ {
                one_value_command(args, k + 1, |v: Seq<char>| CommandModel::ContractShow { name: v })
            } else if t == "help"@ {
                Err(CliError::DisplayHelp)
            } else {
                Err(CliError::InvalidSubcommand(k as usize))
            }
        },
    }
}

/// `profile (list | test PROFILE)`.
pub open spec fn profile_command(args: Seq<Seq<char>>, j: int) -> Result<CommandModel, CliError> {
    match find_subcommand(args, j) {
        Err(e) => Err(e),
        Ok(k) => {
            let t = args[k];
            if t == "list"@ {
                bare_command(args, k + 1, CommandModel::ProfileList)
            } else if t == "test"@ {
                one_value_command(args, k + 1, |v: Seq<char>| CommandModel::ProfileTest { profile: v })
            } else if t == "help"@ {
                Err(CliError::DisplayHelp)
            } else {
                Err(CliError::InvalidSubcommand(k as usize))
            }
        },
    }
}

/// `logs verify [--date DATE] [--all]`.
pub open spec fn logs_command(args: Seq<Seq<char>>, j: int) -> Result<CommandModel, CliError> {
    match find_subcommand(args, j) {
        Err(e) => Err(e),
        Ok(k) => {
            let t = args[k];
            if t == "verify"@ {
                match leaf_args(args, k + 1, ArgShape { positional: false, all: true, date: true }, no_args(), false) {
                    Ok(st) => Ok(CommandModel::LogsVerify { date: st.date, all: st.all }),
                    Err(e) => Err(e),
                }
            } else if t == "help"@ {
                Err(CliError::DisplayHelp)
            } else {
                Err(CliError::InvalidSubcommand(k as usize))
            }
        },
    }
}

/// The command named at position `i`.
pub open spec fn command_at(args: Seq<Seq<char>>, i: int) -> Result<CommandModel, CliError> {
    let t = args[i];
    if t == "run"@ {
        match leaf_args(args, i + 1, ArgShape { positional: true, all: true, date: false }, no_args(), false) {
            Ok(st) => Ok(CommandModel::Run { contract: st.positional, all: st.all }),
            Err(e) => Err(e),
        }
    } else if t == "contract"@ {
        contract_command(args, i + 1)
    } else if t == "profile"@ {
        profile_command(args, i + 1)
    } else if t == "health"@ {
        bare_command(args, i + 1, CommandModel::Health)
    } else if t == "logs"@ {
        logs_command(args, i + 1)
    } else if t == "init"@ {
        bare_command(args, i + 1, CommandModel::Init)
    } else if t == "help"@ {
        Err(CliError::DisplayHelp)
    } else {
        Err(CliError::InvalidSubcommand(i as usize))
    }
}

/// A cluster of short top-level flags (`-vh`), from character `k`: `v` sets
/// verbosity (once), `h` asks for help.
pub open spec fn short_cluster(t: Seq<char>, k: int, verbose: bool, pos: int) -> Result<bool, CliError>
    decreases t.len() - k,
{
    if k < 1 || k >= t.len() {
        Ok(verbose)
    } else if t[k] == 'h' {
        Err(CliError::DisplayHelp)
    } else if t[k] == 'v' {
        if verbose {
            Err(CliError::ArgumentConflict(pos as usize))
        } else {
            short_cluster(t, k + 1, true, pos)
        }
    } else {
        Err(CliError::UnknownArgument(pos as usize))
    }
}

/// The top-level options from position `i`, then the command.
pub open spec fn top_level(args: Seq<Seq<char>>, i: int, verbose: bool) -> Result<CliModel, CliError>
    decreases args.len() - i,
{
    if i < 1 || i >= args.len() {
        Ok(CliModel { verbose, command: None })
    } else {
        let t = args[i];
        if t == "--"@ {
            if i + 1 < args.len() {
                Err(CliError::UnexpectedArgument((i + 1) as usize))
            } else {
                Ok(CliModel { verbose, command: None })
            }
        } else if t == "--help"@ {
            Err(CliError::DisplayHelp)
        } else if t == "--verbose"@ {
            if verbose {
                Err(CliError::ArgumentConflict(i as usize))
            } else {
                top_level(args, i + 1, true)
            }
        } else if is_dashed(t) && t[1] != '-' {
            match short_cluster(t, 1, verbose, i) {
                Ok(v) => top_level(args, i + 1, v),
                Err(e) => Err(e),
            }
        } else if is_dashed(t) {
            Err(CliError::UnknownArgument(i as usize))
        } else {
            match command_at(args, i) {
                Ok(c) => Ok(CliModel { verbose, command: Some(c) }),
                Err(e) => Err(e),
            }
        }
    }
}

/// The meaning of a command line (`args[0]` is the program name).
pub open spec fn parse_spec(args: Seq<Seq<char>>) -> Result<CliModel, CliError> {
    top_level(args, 1, false)
}

/// `a` and `b` have the same length and agree from position `i` on.
pub open spec fn same_from(a: Seq<Seq<char>>, b: Seq<Seq<char>>, i: int) -> bool {
    a.len() == b.len() && forall|k: int| i <= k < a.len() ==> a[k] == b[k]
}

proof fn lemma_leaf_args_local(
    a: Seq<Seq<char>>,
    b: Seq<Seq<char>>,
    j: int,
    shape: ArgShape,
    st: ArgState,
    only_values: bool,
)
    requires
        0 <= j,
        same_from(a, b, j),
    ensures
        leaf_args(a, j, shape, st, only_values) == leaf_args(b, j, shape, st, only_values),
    decreases a.len() - j,
{
    if j < a.len() {
        assert(a[j] == b[j]);
        if j + 1 < a.len() {
            assert(a[j + 1] == b[j + 1]);
        }
        let t = a[j];
        lemma_leaf_args_local(a, b, j + 1, shape, st, true);
        lemma_leaf_args_local(a, b, j + 1, shape, st, only_values);
        lemma_leaf_args_local(a, b, j + 1, shape, ArgState { all: true, ..st }, false);
        lemma_leaf_args_local(a, b, j + 1, shape, ArgState { positional: Some(t), ..st }, only_values);
        lemma_leaf_args_local(a, b, j + 1, shape, ArgState { date: Some(t.skip(7)), ..st }, false);
        if j + 1 < a.len() {
            lemma_leaf_args_local(a, b, j + 2, shape, ArgState { date: Some(a[j + 1]), ..st }, false);
        }
    }
}

proof fn lemma_find_subcommand_local(a: Seq<Seq<char>>, b: Seq<Seq<char>>, j: int)
    requires
        0 <= j,
        same_from(a, b, j),
    ensures
        find_subcommand(a, j) == find_subcommand(b, j),
        find_subcommand(a, j) matches Ok(k) ==> j <= k < a.len(),
{
    if j < a.len() {
        assert(a[j] == b[j]);
    }
}

proof fn lemma_subcommands_local(a: Seq<Seq<char>>, b: Seq<Seq<char>>, j: int)
    requires
        0 <= j,
        same_from(a, b, j),
    ensures
        contract_command(a, j) == contract_command(b, j),
        profile_command(a, j) == profile_command(b, j),
        logs_command(a, j) == logs_command(b, j),
{
    lemma_find_subcommand_local(a, b, j);
    if let Ok(k) = find_subcommand(a, j) {
        assert(a[k] == b[k]);
        let none = ArgShape { positional: false, all: false, date: false };
        let one = ArgShape { positional: true, all: false, date: false };
        let verify_shape = ArgShape { positional: false, all: true, date: true };
        lemma_leaf_args_local(a, b, k + 1, none, no_args(), false);
        lemma_leaf_args_local(a, b, k + 1, one, no_args(), false);
        lemma_leaf_args_local(a, b, k + 1, verify_shape, no_args(), false);
    }
}

proof fn lemma_command_at_local(a: Seq<Seq<char>>, b: Seq<Seq<char>>, i: int)
    requires
        0 <= i < a.len(),
        same_from(a, b, i),
    ensures
        command_at(a, i) == command_at(b, i),
{
    assert(a[i] == b[i]);
    lemma_leaf_args_local(a, b, i + 1, ArgShape { positional: true, all: true, date: false }, no_args(), false);
    lemma_leaf_args_local(a, b, i + 1, ArgShape { positional: false, all: false, date: false }, no_args(), false);
    lemma_subcommands_local(a, b, i + 1);
}

proof fn lemma_top_level_local(a: Seq<Seq<char>>, b: Seq<Seq<char>>, i: int, verbose: bool)
    requires
        1 <= i,
        same_from(a, b, i),
    ensures
        top_level(a, i, verbose) == top_level(b, i, verbose),
    decreases a.len() - i,
{
    if i < a.len() {
        assert(a[i] == b[i]);
        if i + 1 < a.len() {
            assert(a[i + 1] == b[i + 1]);
        }
        lemma_top_level_local(a, b, i + 1, true);
        lemma_top_level_local(a, b, i + 1, verbose);
        lemma_top_level_local(a, b, i + 1, !verbose);
        lemma_command_at_local(a, b, i);
    }
}

/// The value of a successful parse; `None` for any error.
pub open spec fn ok_of<T>(r: Result<T, CliError>) -> Option<T> {
    match r {
        Ok(v) => Some(v),
        Err(_) => None,
    }
}

/// `a` has one argument more than `b`, before position `j + 1`: from `j` on,
/// each argument of `b` is the next argument of `a`.
pub open spec fn shifted_from(a: Seq<Seq<char>>, b: Seq<Seq<char>>, j: int) -> bool {
    a.len() == b.len() + 1 && forall|k: int| j <= k < b.len() ==> a[k + 1] == b[k]
}

proof fn lemma_leaf_args_shift(
    a: Seq<Seq<char>>,
    b: Seq<Seq<char>>,
    j: int,
    shape: ArgShape,
    st: ArgState,
    only_values: bool,
)
    requires
        0 <= j,
        shifted_from(a, b, j),
    ensures
        ok_of(leaf_args(a, j + 1, shape, st, only_values)) == ok_of(leaf_args(b, j, shape, st, only_values)),
    decreases b.len() - j,
{
    if j < b.len() {
        assert(a[j + 1] == b[j]);
        if j + 1 < b.len() {
            assert(a[j + 2] == b[j + 1]);
        }
        let t = b[j];
        lemma_leaf_args_shift(a, b, j + 1, shape, st, true);
        lemma_leaf_args_shift(a, b, j + 1, shape, st, only_values);
        lemma_leaf_args_shift(a, b, j + 1, shape, ArgState { all: true, ..st }, false);
        lemma_leaf_args_shift(a, b, j + 1, shape, ArgState { positional: Some(t), ..st }, only_values);
        lemma_leaf_args_shift(a, b, j + 1, shape, ArgState { date: Some(t.skip(7)), ..st }, false);
        if j + 1 < b.len() {
            lemma_leaf_args_shift(a, b, j + 2, shape, ArgState { date: Some(b[j + 1]), ..st }, false);
        }
    }
}

proof fn lemma_find_subcommand_shift(a: Seq<Seq<char>>, b: Seq<Seq<char>>, j: int)
    requires
        0 <= j,
        shifted_from(a, b, j),
    ensures
        match find_subcommand(b, j) {
            Ok(k) => find_subcommand(a, j + 1) == Ok::<int, CliError>(k + 1) && j <= k < b.len(),
            Err(_) => find_subcommand(a, j + 1) is Err,
        },
{
    if j < b.len() {
        assert(a[j + 1] == b[j]);
    }
}

proof fn lemma_subcommands_shift(a: Seq<Seq<char>>, b: Seq<Seq<char>>, j: int)
    requires
        0 <= j,
        shifted_from(a, b, j),
    ensures
        ok_of(contract_command(a, j + 1)) == ok_of(contract_command(b, j)),
        ok_of(profile_command(a, j + 1)) == ok_of(profile_command(b, j)),
        ok_of(logs_command(a, j + 1)) == ok_of(logs_command(b, j)),
{
    lemma_find_subcommand_shift(a, b, j);
    if let Ok(k) = find_subcommand(b, j) {
        assert(a[k + 1] == b[k]);
        let none = ArgShape { positional: false, all: false, date: false };
        let one = ArgShape { positional: true, all: false, date: false };
        let verify_shape = ArgShape { positional: false, all: true, date: true };
        lemma_leaf_args_shift(a, b, k + 1, none, no_args(), false);
        lemma_leaf_args_shift(a, b, k + 1, one, no_args(), false);
        lemma_leaf_args_shift(a, b, k + 1, verify_shape, no_args(), false);
    }
}

proof fn lemma_command_at_shift(a: Seq<Seq<char>>, b: Seq<Seq<char>>, i: int)
    requires
        0 <= i < b.len(),
        shifted_from(a, b, i),
    ensures
        ok_of(command_at(a, i + 1)) == ok_of(command_at(b, i)),
{
    assert(a[i + 1] == b[i]);
    lemma_leaf_args_shift(a, b, i + 1, ArgShape { positional: true, all: true, date: false }, no_args(), false);
    lemma_leaf_args_shift(a, b, i + 1, ArgShape { positional: false, all: false, date: false }, no_args(), false);
    lemma_subcommands_shift(a, b, i + 1);
}

proof fn lemma_short_cluster_pos(t: Seq<char>, k: int, verbose: bool, p: int, q: int)
    ensures
        ok_of(short_cluster(t, k, verbose, p)) == ok_of(short_cluster(t, k, verbose, q)),
    decreases t.len() - k,
{
    if 1 <= k < t.len() {
        lemma_short_cluster_pos(t, k + 1, true, p, q);
    }
}

proof fn lemma_top_level_shift(a: Seq<Seq<char>>, b: Seq<Seq<char>>, i: int, verbose: bool)
    requires
        1 <= i,
        shifted_from(a, b, i),
    ensures
        ok_of(top_level(a, i + 1, verbose)) == ok_of(top_level(b, i, verbose)),
    decreases b.len() - i,
{
    if i < b.len() {
        let t = b[i];
        assert(a[i + 1] == t);
        lemma_top_level_shift(a, b, i + 1, true);
        lemma_short_cluster_pos(t, 1, verbose, i + 1, i);
        if let Ok(v) = short_cluster(t, 1, verbose, i) {
            lemma_top_level_shift(a, b, i + 1, v);
        }
        lemma_command_at_shift(a, b, i);
    }
}

proof fn lemma_short_cluster_verbose(t: Seq<char>, k: int, pos: int)
    ensures
        short_cluster(t, k, true, pos) matches Ok(v) ==> v && short_cluster(t, k, false, pos) == Ok::<
            bool,
            CliError,
        >(false),
        1 <= k < t.len() ==> (short_cluster(t, k, false, pos) matches Ok(v) ==> v),
    decreases t.len() - k,
{
    if 1 <= k < t.len() && t[k] == 'v' {
        lemma_short_cluster_verbose(t, k + 1, pos);
    }
}

proof fn lemma_top_level_verbose(b: Seq<Seq<char>>, i: int)
    requires
        1 <= i,
    ensures
        top_level(b, i, true) matches Ok(m) ==> m.verbose && (top_level(b, i, false) matches Ok(m2)
            && m2.command == m.command),
        top_level(b, i, false) matches Ok(m2) ==> (!m2.verbose ==> (top_level(b, i, true) matches Ok(m)
            && m.verbose && m.command == m2.command)),
    decreases b.len() - i,
{
    if i < b.len() {
        let t = b[i];
        lemma_top_level_verbose(b, i + 1);
        lemma_short_cluster_verbose(t, 1, i);
    }
}

/// Law: `-v` makes a command line verbose and changes nothing else. Put
/// right after the program name, in front of any arguments: when the line is
/// accepted, it is verbose, and the same arguments without the flag are
/// accepted too and name the same command; and when the arguments without
/// the flag are accepted and not verbose, adding the flag keeps them
/// accepted, now verbose, with the same command. `--verbose` there means the
/// same as `-v`.
pub proof fn verbose_flag_changes_only_verbosity(p: Seq<char>, rest: Seq<Seq<char>>)
    ensures
        parse_spec(seq![p, "-v"@] + rest) matches Ok(m) ==> m.verbose && (parse_spec(seq![p] + rest) matches Ok(
            m2,
        ) && m2.command == m.command),
        parse_spec(seq![p] + rest) matches Ok(m2) ==> (!m2.verbose ==> (parse_spec(seq![p, "-v"@] + rest) matches Ok(
            m,
        ) && m.verbose && m.command == m2.command)),
        parse_spec(seq![p, "--verbose"@] + rest) == parse_spec(seq![p, "-v"@] + rest),
{
    reveal_strlit("-v");
    reveal_strlit("--");
    reveal_strlit("--help");
    reveal_strlit("--verbose");
    let a = seq![p, "-v"@] + rest;
    let b = seq![p] + rest;
    let c = seq![p, "--verbose"@] + rest;
    assert forall|k: int| 1 <= k < b.len() implies a[k + 1] == b[k] by {
        assert(a[k + 1] == rest[k - 1]);
        assert(b[k] == rest[k - 1]);
    }
    assert(shifted_from(a, b, 1));
    let t = a[1];
    assert(t == "-v"@);
    assert(t.len() == 2 && t[0] == '-' && t[1] == 'v');
    assert(t != "--"@);
    assert(t != "--help"@);
    assert(t != "--verbose"@);
    assert(is_dashed(t) && t[1] != '-');
    assert(short_cluster(t, 2, true, 1) == Ok::<bool, CliError>(true));
    assert(short_cluster(t, 1, false, 1) == Ok::<bool, CliError>(true));
    assert(parse_spec(a) == top_level(a, 2, true));
    lemma_top_level_shift(a, b, 1, true);
    lemma_top_level_verbose(b, 1);
    assert forall|k: int| 2 <= k < a.len() implies a[k] == c[k] by {
        assert(a[k] == rest[k - 2]);
        assert(c[k] == rest[k - 2]);
    }
    assert(c[1] == "--verbose"@);
    short_and_long_verbose_agree(a, c);
}

/// Law: `-v` and `--verbose` are the same flag: two command lines that
/// differ only in giving it one way or the other (right after the program
/// name) mean the same.
pub proof fn short_and_long_verbose_agree(a: Seq<Seq<char>>, b: Seq<Seq<char>>)
    requires
        a.len() >= 2,
        a[1] == "-v"@,
        b[1] == "--verbose"@,
        same_from(a, b, 2),
    ensures
        parse_spec(a) == parse_spec(b),
{
    reveal_strlit("-v");
    reveal_strlit("--");
    reveal_strlit("--help");
    reveal_strlit("--verbose");
    let t = a[1];
    assert(t.len() == 2 && t[0] == '-' && t[1] == 'v');
    assert(t != "--"@);
    assert(t != "--help"@);
    assert(t != "--verbose"@);
    assert(is_dashed(t) && t[1] != '-');
    assert(short_cluster(t, 2, true, 1) == Ok::<bool, CliError>(true));
    assert(short_cluster(t, 1, false, 1) == Ok::<bool, CliError>(true));
    let u = b[1];
    assert(u != "--"@);
    assert(u != "--help"@);
    lemma_top_level_local(a, b, 2, true);
}

} // verus!

verus! {

/// Views of a vector of character vectors.
pub open spec fn token_views(args: Seq<Vec<char>>) -> Seq<Seq<char>> {
    args.map_values(|t: Vec<char>| t@)
}

fn is_lit(t: &Vec<char>, lit: &str) -> (b: bool)
    ensures
        b == (t@ == lit@),
{
    let l = chars_of(lit);
    chars_eq(t, &l)
}

fn is_dashed_exec(t: &Vec<char>) -> (b: bool)
    ensures
        b == is_dashed(t@),
{
    t.len() > 1 && t[0] == '-'
}

fn is_help_exec(t: &Vec<char>) -> (b: bool)
    ensures
        b == is_help(t@),
{
    is_lit(t, "-h") || is_lit(t, "--help")
}

/// `--date=<value>`: the value.
fn date_with_value(t: &Vec<char>) -> (r: Option<Vec<char>>)
    ensures
        match r {
            Some(v) => long_with_value(t@, "date"@) && v@ == t@.skip(7),
            None => !long_with_value(t@, "date"@),
        },
{
    proof {
        reveal_strlit("date");
        reveal_strlit("--date");
        reveal_strlit("--");
    }
    let prefix = chars_of("--date");
    assert(prefix@ =~= "--"@ + "date"@);
    if t.len() <= 6 {
        return None;
    }
    let mut i: usize = 0;
    while i < 6
        invariant
            i <= 6,
            t@.len() > 6,
            prefix@.len() == 6,
            prefix@ == "--"@ + "date"@,
            "date"@.len() == 4,
            forall|k: int| 0 <= k < i ==> t@[k] == prefix@[k],
        decreases 6 - i,
    {
        if t[i] != prefix[i] {
            assert(t@.take(6)[i as int] != prefix@[i as int]);
            return None;
        }
        i = i + 1;
    }
    assert(t@.take(6) =~= prefix@);
    if t[6] != '=' {
        return None;
    }
    let mut v: Vec<char> = Vec::new();
    let mut k: usize = 7;
    while k < t.len()
        invariant
            7 <= k <= t@.len(),
            v@ == t@.subrange(7, k as int),
        decreases t@.len() - k,
    {
        v.push(t[k]);
        k = k + 1;
        assert(v@ =~= t@.subrange(7, k as int));
    }
    assert(v@ =~= t@.skip(7));
    Some(v)
}

struct ArgsFound {
    positional: Option<Vec<char>>,
    all: bool,
    date: Option<Vec<char>>,
}

spec fn opt_vec(o: Option<Vec<char>>) -> Option<Seq<char>> {
    match o {
        Some(v) => Some(v@),
        None => None,
    }
}

spec fn found_state(f: ArgsFound) -> ArgState {
    ArgState { positional: opt_vec(f.positional), all: f.all, date: opt_vec(f.date) }
}

fn leaf_args_exec(
    args: &Vec<Vec<char>>,
    j: usize,
    take_positional: bool,
    take_all: bool,
    take_date: bool,
    st: ArgsFound,
    only_values: bool,
) -> (r: Result<ArgsFound, CliError>)
    requires
        j <= args@.len(),
    ensures
        match r {
            Ok(f) => leaf_args(
                token_views(args@),
                j as int,
                ArgShape { positional: take_positional, all: take_all, date: take_date },
                found_state(st),
                only_values,
            ) == Ok::<ArgState, CliError>(found_state(f)),
            Err(e) => leaf_args(
                token_views(args@),
                j as int,
                ArgShape { positional: take_positional, all: take_all, date: take_date },
                found_state(st),
                only_values,
            ) == Err::<ArgState, CliError>(e),
        },
    decreases args@.len() - j,
{
    let ghost targs = token_views(args@);
    let ghost shape = ArgShape { positional: take_positional, all: take_all, date: take_date };
    if j >= args.len() {
        return Ok(st);
    }
    let t = &args[j];
    assert(targs[j as int] == t@);
    if !only_values && is_lit(t, "--") {
        return leaf_args_exec(args, j + 1, take_positional, take_all, take_date, st, true);
    }
    if !only_values && is_help_exec(t) {
        return Err(CliError::DisplayHelp);
    }
    if !only_values && take_all && is_lit(t, "--all") {
        if st.all {
            return Err(CliError::ArgumentConflict(j));
        }
        let next = ArgsFound { positional: st.positional, all: true, date: st.date };
        assert(found_state(next) == ArgState { all: true, ..found_state(st) });
        return leaf_args_exec(args, j + 1, take_positional, take_all, take_date, next, false);
    }
    if !only_values && take_date && is_lit(t, "--date") {
        if st.date.is_some() {
            return Err(CliError::ArgumentConflict(j));
        }
        if j + 1 >= args.len() || is_dashed_exec(&args[j + 1]) {
            return Err(CliError::MissingValue(j));
        }
        assert(targs[j + 1] == args@[j + 1]@);
        let value = args[j + 1].clone();
        let next = ArgsFound { positional: st.positional, all: st.all, date: Some(value) };
        assert(found_state(next) == ArgState { date: Some(targs[j + 1]), ..found_state(st) });
        return leaf_args_exec(args, j + 2, take_positional, take_all, take_date, next, false);
    }
    if !only_values && take_date {
        match date_with_value(t) {
            Some(v) => {
                if st.date.is_some() {
                    return Err(CliError::ArgumentConflict(j));
                }
                let next = ArgsFound { positional: st.positional, all: st.all, date: Some(v) };
                assert(found_state(next) == ArgState { date: Some(t@.skip(7)), ..found_state(st) });
                return leaf_args_exec(args, j + 1, take_positional, take_all, take_date, next, false);
            },
            None => {},
        }
    }
    if !only_values && is_dashed_exec(t) {
        return Err(CliError::UnknownArgument(j));
    }
    if take_positional && st.positional.is_none() {
        let next = ArgsFound { positional: Some(t.clone()), all: st.all, date: st.date };
        assert(found_state(next) == ArgState { positional: Some(t@), ..found_state(st) });
        return leaf_args_exec(args, j + 1, take_positional, take_all, take_date, next, only_values);
    }
    Err(CliError::UnexpectedArgument(j))
}

fn empty_found() -> (f: ArgsFound)
    ensures
        found_state(f) == no_args(),
{
    ArgsFound { positional: None, all: false, date: None }
}

fn bare_command_exec(args: &Vec<Vec<char>>, j: usize) -> (r: Result<(), CliError>)
    requires
        j <= args@.len(),
    ensures
        match r {
            Ok(_) => leaf_args(
                token_views(args@),
                j as int,
                ArgShape { positional: false, all: false, date: false },
                no_args(),
                false,
            ) is Ok,
            Err(e) => leaf_args(
                token_views(args@),
                j as int,
                ArgShape { positional: false, all: false, date: false },
                no_args(),
                false,
            ) == Err::<ArgState, CliError>(e),
        },
{
    match leaf_args_exec(args, j, false, false, false, empty_found(), false) {
        Ok(_) => Ok(()),
        Err(e) => Err(e),
    }
}

fn one_value_exec(args: &Vec<Vec<char>>, j: usize) -> (r: Result<String, CliError>)
    requires
        j <= args@.len(),
    ensures
        ({
            let res = leaf_args(
                token_views(args@),
                j as int,
                ArgShape { positional: true, all: false, date: false },
                no_args(),
                false,
            );
            match r {
                Ok(v) => res matches Ok(st) && st.positional == Some(v@),
                Err(e) => (res matches Ok(st) && st.positional is None && e == CliError::MissingArgument)
                    || res == Err::<ArgState, CliError>(e),
            }
        }),
{
    match leaf_args_exec(args, j, true, false, false, empty_found(), false) {
        Ok(f) => match f.positional {
            Some(v) => Ok(string_of(&v)),
            None => Err(CliError::MissingArgument),
        },
        Err(e) => Err(e),
    }
}

fn find_subcommand_exec(args: &Vec<Vec<char>>, j: usize) -> (r: Result<usize, CliError>)
    requires
        j <= args@.len(),
    ensures
        match r {
            Ok(k) => find_subcommand(token_views(args@), j as int) == Ok::<int, CliError>(k as int)
                && k < args@.len(),
            Err(e) => find_subcommand(token_views(args@), j as int) == Err::<int, CliError>(e),
        },
{
    if j >= args.len() {
        return Err(CliError::MissingSubcommand);
    }
    let t = &args[j];
    assert(token_views(args@)[j as int] == t@);
    if is_help_exec(t) {
        return Err(CliError::DisplayHelp);
    }
    if is_lit(t, "--") {
        if j + 1 < args.len() {
            return Err(CliError::InvalidSubcommand(j + 1));
        }
        return Err(CliError::MissingSubcommand);
    }
    if is_dashed_exec(t) {
        return Err(CliError::UnknownArgument(j));
    }
    Ok(j)
}

fn contract_command_exec(args: &Vec<Vec<char>>, j: usize) -> (r: Result<Commands, CliError>)
    requires
        j <= args@.len(),
    ensures
        match r {
            Ok(c) => contract_command(token_views(args@), j as int) == Ok::<CommandModel, CliError>(
                command_model(c),
            ),
            Err(e) => contract_command(token_views(args@), j as int) == Err::<CommandModel, CliError>(e),
        },
{
    let n = args.len();
    let k = match find_subcommand_exec(args, j) {
        Ok(k) => k,
        Err(e) => {
            return Err(e);
        },
    };
    assert(k < n);
    let t = &args[k];
    assert(token_views(args@)[k as int] == t@);
    if is_lit(t, "list") {
        match bare_command_exec(args, k + 1) {
            Ok(_) => Ok(Commands::Contract { contract_command: ContractCommands::List }),
            Err(e) => Err(e),
        }
    } else if is_lit(t, "validate") {
        match one_value_exec(args, k + 1) {
            Ok(v) => Ok(Commands::Contract { contract_command: ContractCommands::Validate { file: v } }),
            Err(e) => Err(e),
        }
    } else if is_lit(t, "show") {
        match one_value_exec(args, k + 1) {
            Ok(v) => Ok(Commands::Contract { contract_command: ContractCommands::Show { name: v } }),
            Err(e) => Err(e),
        }
    } else if is_lit(t, "help") {
        Err(CliError::DisplayHelp)
    } else {
        Err(CliError::InvalidSubcommand(k))
    }
}

fn profile_command_exec(args: &Vec<Vec<char>>, j: usize) -> (r: Result<Commands, CliError>)
    requires
        j <= args@.len(),
    ensures
        match r {
            Ok(c) => profile_command(token_views(args@), j as int) == Ok::<CommandModel, CliError>(
                command_model(c),
            ),
            Err(e) => profile_command(token_views(args@), j as int) == Err::<CommandModel, CliError>(e),
        },
{
    let n = args.len();
    let k = match find_subcommand_exec(args, j) {
        Ok(k) => k,
        Err(e) => {
            return Err(e);
        },
    };
    assert(k < n);
    let t = &args[k];
    assert(token_views(args@)[k as int] == t@);
    if is_lit(t, "list") {
        match bare_command_exec(args, k + 1) {
            Ok(_) => Ok(Commands::Profile { profile_command: ProfileCommands::List }),
            Err(e) => Err(e),
        }
    } else if is_lit(t, "test") {
        match one_value_exec(args, k + 1) {
            Ok(v) => Ok(Commands::Profile { profile_command: ProfileCommands::Test { profile: v } }),
            Err(e) => Err(e),
        }
    } else if is_lit(t, "help") {
        Err(CliError::DisplayHelp)
    } else {
        Err(CliError::InvalidSubcommand(k))
    }
}

fn logs_command_exec(args: &Vec<Vec<char>>, j: usize) -> (r: Result<Commands, CliError>)
    requires
        j <= args@.len(),
    ensures
        match r {
            Ok(c) => logs_command(token_views(args@), j as int) == Ok::<CommandModel, CliError>(
                command_model(c),
            ),
            Err(e) => logs_command(token_views(args@), j as int) == Err::<CommandModel, CliError>(e),
        },
{
    let n = args.len();
    let k = match find_subcommand_exec(args, j) {
        Ok(k) => k,
        Err(e) => {
            return Err(e);
        },
    };
    assert(k < n);
    let t = &args[k];
    assert(token_views(args@)[k as int] == t@);
    if is_lit(t, "verify") {
        match leaf_args_exec(args, k + 1, false, true, true, empty_found(), false) {
            Ok(f) => {
                let date = match f.date {
                    Some(d) => Some(string_of(&d)),
                    None => None,
                };
                Ok(Commands::Logs { logs_command: LogsCommands::Verify { date, all: f.all } })
            },
            Err(e) => Err(e),
        }
    } else if is_lit(t, "help") {
        Err(CliError::DisplayHelp)
    } else {
        Err(CliError::InvalidSubcommand(k))
    }
}

fn command_exec(args: &Vec<Vec<char>>, i: usize) -> (r: Result<Commands, CliError>)
    requires
        i < args@.len(),
    ensures
        match r {
            Ok(c) => command_at(token_views(args@), i as int) == Ok::<CommandModel, CliError>(command_model(c)),
            Err(e) => command_at(token_views(args@), i as int) == Err::<CommandModel, CliError>(e),
        },
{
    let n = args.len();
    assert(i < n);
    let t = &args[i];
    assert(token_views(args@)[i as int] == t@);
    if is_lit(t, "run") {
        match leaf_args_exec(args, i + 1, true, true, false, empty_found(), false) {
            Ok(f) => {
                let contract = match f.positional {
                    Some(c) => Some(string_of(&c)),
                    None => None,
                };
                Ok(Commands::Run { contract, all: f.all })
            },
            Err(e) => Err(e),
        }
    } else if is_lit(t, "contract") {
        contract_command_exec(args, i + 1)
    } else if is_lit(t, "profile") {
        profile_command_exec(args, i + 1)
    } else if is_lit(t, "health") {
        match bare_command_exec(args, i + 1) {
            Ok(_) => Ok(Commands::Health),
            Err(e) => Err(e),
        }
    } else if is_lit(t, "logs") {
        logs_command_exec(args, i + 1)
    } else if is_lit(t, "init") {
        match bare_command_exec(args, i + 1) {
            Ok(_) => Ok(Commands::Init),
            Err(e) => Err(e),
        }
    } else if is_lit(t, "help") {
        Err(CliError::DisplayHelp)
    } else {
        Err(CliError::InvalidSubcommand(i))
    }
}

fn short_cluster_exec(t: &Vec<char>, k: usize, verbose: bool, pos: usize) -> (r: Result<bool, CliError>)
    requires
        k >= 1,
    ensures
        match r {
            Ok(v) => short_cluster(t@, k as int, verbose, pos as int) == Ok::<bool, CliError>(v),
            Err(e) => short_cluster(t@, k as int, verbose, pos as int) == Err::<bool, CliError>(e),
        },
    decreases t@.len() - k,
{
    if k >= t.len() {
        return Ok(verbose);
    }
    if t[k] == 'h' {
        return Err(CliError::DisplayHelp);
    }
    if t[k] == 'v' {
        if verbose {
            return Err(CliError::ArgumentConflict(pos));
        }
        return short_cluster_exec(t, k + 1, true, pos);
    }
    Err(CliError::UnknownArgument(pos))
}

fn top_level_exec(args: &Vec<Vec<char>>, i: usize, verbose: bool) -> (r: Result<Cli, CliError>)
    requires
        i >= 1,
    ensures
        match r {
            Ok(c) => top_level(token_views(args@), i as int, verbose) == Ok::<CliModel, CliError>(cli_model(c)),
            Err(e) => top_level(token_views(args@), i as int, verbose) == Err::<CliModel, CliError>(e),
        },
    decreases args@.len() - i,
{
    if i >= args.len() {
        return Ok(Cli { verbose, command: None });
    }
    let t = &args[i];
    assert(token_views(args@)[i as int] == t@);
    if is_lit(t, "--") {
        if i + 1 < args.len() {
            return Err(CliError::UnexpectedArgument(i + 1));
        }
        return Ok(Cli { verbose, command: None });
    }
    if is_lit(t, "--help") {
        return Err(CliError::DisplayHelp);
    }
    if is_lit(t, "--verbose") {
        if verbose {
            return Err(CliError::ArgumentConflict(i));
        }
        return top_level_exec(args, i + 1, true);
    }
    if is_dashed_exec(t) && t[1] != '-' {
        return match short_cluster_exec(t, 1, verbose, i) {
            Ok(v) => top_level_exec(args, i + 1, v),
            Err(e) => Err(e),
        };
    }
    if is_dashed_exec(t) {
        return Err(CliError::UnknownArgument(i));
    }
    match command_exec(args, i) {
        Ok(c) => Ok(Cli { verbose, command: Some(c) }),
        Err(e) => Err(e),
    }
}

impl Cli {
    /// Parses a command line; `args[0]` is the program name.
    pub fn try_parse_from(args: &[&str]) -> (r: Result<Cli, CliError>)
        ensures
            match r {
                Ok(c) => parse_spec(args@.map_values(|s: &str| s@)) == Ok::<CliModel, CliError>(cli_model(c)),
                Err(e) => parse_spec(args@.map_values(|s: &str| s@)) == Err::<CliModel, CliError>(e),
            },
    {
        let mut toks: Vec<Vec<char>> = Vec::new();
        let mut i: usize = 0;
        while i < args.len()
            invariant
                i <= args@.len(),
                token_views(toks@) == args@.map_values(|s: &str| s@).take(i as int),
            decreases args@.len() - i,
        {
            let cs = chars_of(args[i]);
            let ghost before = toks@;
            assert(cs@ == args@.map_values(|s: &str| s@)[i as int]);
            toks.push(cs);
            assert(token_views(toks@) =~= token_views(before).push(cs@));
            assert(args@.map_values(|s: &str| s@).take(i + 1) =~= args@.map_values(|s: &str| s@).take(
                i as int,
            ).push(args@.map_values(|s: &str| s@)[i as int]));
            i = i + 1;
        }
        assert(args@.map_values(|s: &str| s@).take(args@.len() as int) =~= args@.map_values(|s: &str| s@));
        top_level_exec(&toks, 1, false)
    }

    /// Parses a command line that the grammar accepts (on any other, the
    /// command-line parser exits with its message, which `try_parse_from`
    /// reports as an error).
    pub fn parse_from(args: &[&str]) -> (c: Cli)
        requires
            parse_spec(args@.map_values(|s: &str| s@)) is Ok,
        ensures
            parse_spec(args@.map_values(|s: &str| s@)) == Ok::<CliModel, CliError>(cli_model(c)),
    {
        match Cli::try_parse_from(args) {
            Ok(c) => c,
            Err(_) => {
                proof {
                    assert(false);
                }
                Cli { verbose: false, command: None }
            },
        }
    }
}

/// Which contracts `pipa run` validates.
pub enum RunSelection {
    /// Every contract under `contracts/`.
    All,
    /// The contract with this name.
    Single(String),
}

/// What `pipa run` does with its arguments: a contract name or `--all`, and
/// not both; otherwise the message to exit with.
pub fn run_selection(contract: Option<&String>, all: bool) -> (r: Result<RunSelection, &'static str>)
    ensures
        match contract {
            Some(c) => if all {
                r matches Err(m) && m@ == "Cannot specify both contract name and --all"@
            } else {
                r matches Ok(RunSelection::Single(n)) && n@ == c@
            },
            None => if all {
                r matches Ok(RunSelection::All)
            } else {
                r matches Err(m) && m@ == "Must specify either contract name or --all"@
            },
        },
{
    match contract {
        Some(c) => if all {
            Err("Cannot specify both contract name and --all")
        } else {
            Ok(RunSelection::Single(c.clone()))
        },
        None => if all {
            Ok(RunSelection::All)
        } else {
            Err("Must specify either contract name or --all")
        },
    }
}

/// What `pipa` prints when no command is given.
pub const NO_COMMAND_MESSAGE: &'static str = "No command specified";

} // verus!
