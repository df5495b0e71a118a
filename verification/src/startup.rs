//! What the command line and the configuration add up to.

use vstd::prelude::*;
use vstd::string::*;

use crate::config::{Config, MpvSpawn};
use crate::node_id::NodeId;
use crate::ui::text_view;

verus! {

/// The command line.
#[derive(Debug)]
pub struct Cli {
    /// What to do. Without it, a short introduction is shown.
    pub command: Option<Command>,
    /// Nickname shown to other peers.
    pub nickname: Option<String>,
    /// Run without mpv.
    pub no_mpv: bool,
    /// Run without the terminal UI.
    pub no_ui: bool,
    /// The mpv binary.
    pub mpv_binary: Option<String>,
    /// Log more.
    pub verbose: bool,
    /// Append logs to this file.
    pub log_file: Option<String>,
    /// Connect to an mpv that the user started.
    pub no_spawn: bool,
    /// Print a QR code for the ticket.
    pub qr: bool,
}

#[derive(Debug, Clone)]
pub enum Command {
    /// Create a room and print a ticket for friends to join.
    Create {
        /// File to open in mpv.
        file: Option<String>,
    },
    /// Join a room with a ticket.
    Join {
        ticket: String,
        /// File to open in mpv.
        file: Option<String>,
    },
}

/// The first of two choices that was made.
pub open spec fn first_choice<T>(a: Option<T>, b: Option<T>) -> Option<T> {
    match a {
        Some(x) => Some(x),
        None => b,
    }
}

/// The chosen value, or the default.
pub open spec fn or_default<T>(choice: Option<T>, default: T) -> T {
    match choice {
        Some(x) => x,
        None => default,
    }
}

fn choose_text(cli: &Option<String>, config: &Option<String>) -> (r: Option<String>)
    ensures
        text_view(r) == first_choice(text_view(*cli), text_view(*config)),
{
    match cli {
        Some(t) => Some(t.clone()),
        None => match config {
            Some(t) => Some(t.clone()),
            None => None,
        },
    }
}

/// The nickname we go by.
pub open spec fn nickname_choice(cli: Cli, config: Config, node: NodeId) -> Seq<char> {
    or_default(
        first_choice(text_view(cli.nickname), text_view(config.nickname)),
        "peer-"@ + node.short_name(),
    )
}

/// The mpv binary.
pub open spec fn binary_choice(cli: Cli, config: Config) -> Seq<char> {
    or_default(first_choice(text_view(cli.mpv_binary), text_view(config.mpv_binary)), "mpv"@)
}

/// The log filter.
pub open spec fn filter_choice(
    cli: Cli,
    environment: Option<Seq<char>>,
    config: Config,
) -> Seq<char> {
    if cli.verbose {
        "debug"@
    } else {
        or_default(
            first_choice(environment, text_view(config.log_level)),
            "info,syncmesh=debug"@,
        )
    }
}

/// The relay to use instead of the default ones.
pub open spec fn relay_choice(config: Config) -> Option<Seq<char>> {
    match text_view(config.relay) {
        Some(url) => if url.len() > 0 {
            Some(url)
        } else {
            None
        },
        None => None,
    }
}

/// The file to open.
pub open spec fn file_choice(command: Command) -> Option<Seq<char>> {
    match command {
        Command::Create { file } => text_view(file),
        Command::Join { file, .. } => text_view(file),
    }
}

/// The nickname we go by: from the command line, else from the configuration,
/// else made from our identifier.
pub fn local_nickname(cli: &Cli, config: &Config, node: &NodeId) -> (r: String)
    ensures
        r@ == nickname_choice(*cli, *config, *node),
{
    match choose_text(&cli.nickname, &config.nickname) {
        Some(nickname) => nickname,
        None => {
            let name = node.abbreviated();
            "peer-".to_owned().concat(name.as_str())
        }
    }
}

/// The mpv binary: from the command line, else from the configuration, else
/// `mpv`.
pub fn mpv_binary(cli: &Cli, config: &Config) -> (r: String)
    ensures
        r@ == binary_choice(*cli, *config),
{
    match choose_text(&cli.mpv_binary, &config.mpv_binary) {
        Some(binary) => binary,
        None => "mpv".to_owned(),
    }
}

/// How we get hold of mpv.
pub open spec fn mpv_mode_of(cli: Cli, config: Config) -> MpvSpawn {
    if cli.no_mpv {
        MpvSpawn::Disabled
    } else if cli.no_spawn {
        MpvSpawn::Script
    } else {
        or_default(config.mpv_spawn, MpvSpawn::Auto)
    }
}

/// How we get hold of mpv: as the flags say, else as configured, else by
/// starting it.
pub fn mpv_mode(cli: &Cli, config: &Config) -> (r: MpvSpawn)
    ensures
        r == mpv_mode_of(*cli, *config),
{
    if cli.no_mpv {
        MpvSpawn::Disabled
    } else if cli.no_spawn {
        MpvSpawn::Script
    } else {
        match config.mpv_spawn {
            Some(mode) => mode,
            None => MpvSpawn::Auto,
        }
    }
}

/// The log filter: `debug` if asked for more, else what the environment says,
/// else as configured, else the default.
pub fn log_filter(cli: &Cli, environment: &Option<String>, config: &Config) -> (r: String)
    ensures
        r@ == filter_choice(*cli, text_view(*environment), *config),
{
    if cli.verbose {
        return "debug".to_owned();
    }
    match choose_text(environment, &config.log_level) {
        Some(filter) => filter,
        None => "info,syncmesh=debug".to_owned(),
    }
}

/// The relay to use instead of the default ones. An empty setting is none.
pub fn relay_override(config: &Config) -> (r: Option<String>)
    ensures
        text_view(r) == relay_choice(*config),
{
    match &config.relay {
        Some(url) => {
            if url.as_str().is_empty() {
                None
            } else {
                Some(url.clone())
            }
        }
        None => None,
    }
}

/// Whether the ready gate's override starts enabled.
pub fn initial_override(config: &Config) -> (r: bool)
    ensures
        r == or_default(config.override_mode, false),
{
    match config.override_mode {
        Some(enabled) => enabled,
        None => false,
    }
}

/// Whether to print a QR code for the ticket: if the flag is given, else as
/// configured, else not.
pub fn wants_qr(cli: &Cli, config: &Config) -> (r: bool)
    ensures
        r == (cli.qr || or_default(config.qr, false)),
{
    cli.qr || match config.qr {
        Some(qr) => qr,
        None => false,
    }
}

/// The file that a command has opened in mpv.
pub fn initial_file(command: &Command) -> (r: Option<String>)
    ensures
        text_view(r) == file_choice(*command),
{
    match command {
        Command::Create { file } => choose_text(file, &None),
        Command::Join { file, .. } => choose_text(file, &None),
    }
}

/// A choice on the command line beats the configuration, and the configuration
/// beats the default.
pub proof fn law_precedence<T>(cli: Option<T>, config: Option<T>, default: T)
    ensures
        cli is Some ==> or_default(first_choice(cli, config), default) == cli->0,
        cli is None && config is Some ==> or_default(first_choice(cli, config), default)
            == config->0,
        cli is None && config is None ==> or_default(first_choice(cli, config), default)
            == default,
{
}

/// Running without mpv beats connecting to one, and both flags beat the
/// configuration; without any of them mpv is started.
pub proof fn law_flags_decide_about_mpv(cli: Cli, config: Config)
    ensures
        cli.no_mpv ==> mpv_mode_of(cli, config) == MpvSpawn::Disabled,
        !cli.no_mpv && cli.no_spawn ==> mpv_mode_of(cli, config) == MpvSpawn::Script,
        !cli.no_mpv && !cli.no_spawn && config.mpv_spawn is Some ==> Some(mpv_mode_of(cli, config))
            == config.mpv_spawn,
        !cli.no_mpv && !cli.no_spawn && config.mpv_spawn is None ==> mpv_mode_of(cli, config)
            == MpvSpawn::Auto,
{
}

/// What was typed on the command line counts; else what is configured; else a
/// name made from our identifier, the `mpv` that is found, and the default
/// filter. Asking for more beats the environment, and that beats the
/// configuration.
pub proof fn law_settings_are_chosen(
    cli: Cli,
    environment: Option<Seq<char>>,
    config: Config,
    node: NodeId,
)
    ensures
        cli.nickname is Some ==> nickname_choice(cli, config, node) == cli.nickname->0@,
        cli.nickname is None && config.nickname is Some ==> nickname_choice(cli, config, node)
            == config.nickname->0@,
        cli.nickname is None && config.nickname is None ==> nickname_choice(cli, config, node)
            == "peer-"@ + node.short_name(),
        cli.mpv_binary is Some ==> binary_choice(cli, config) == cli.mpv_binary->0@,
        cli.mpv_binary is None && config.mpv_binary is Some ==> binary_choice(cli, config)
            == config.mpv_binary->0@,
        cli.mpv_binary is None && config.mpv_binary is None ==> binary_choice(cli, config)
            == "mpv"@,
        cli.verbose ==> filter_choice(cli, environment, config) == "debug"@,
        !cli.verbose && environment is Some ==> filter_choice(cli, environment, config)
            == environment->0,
        !cli.verbose && environment is None && config.log_level is Some ==> filter_choice(
            cli,
            environment,
            config,
        ) == config.log_level->0@,
        !cli.verbose && environment is None && config.log_level is None ==> filter_choice(
            cli,
            environment,
            config,
        ) == "info,syncmesh=debug"@,
        relay_choice(config) is Some <==> config.relay is Some && config.relay->0@.len() > 0,
        relay_choice(config) is Some ==> relay_choice(config)->0 == config.relay->0@,
{
}

/// Both commands open the file that they name, and none if they name none.
pub proof fn law_named_files_are_opened(ticket: String, file: Option<String>)
    ensures
        file is Some ==> file_choice(Command::Create { file }) == Some(file->0@),
        file is Some ==> file_choice(Command::Join { ticket, file }) == Some(file->0@),
        file is None ==> file_choice(Command::Create { file }) is None,
        file is None ==> file_choice(Command::Join { ticket, file }) is None,
{
}

} // verus!
