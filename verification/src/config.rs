//! Where things are kept, and what the user configured.
//!
//! Every field of the configuration is optional: the file only overrides what
//! the user sets, and command line flags take precedence over it.

use vstd::prelude::*;

use crate::text::starts_with;

verus! {

/// Where the configuration and the identity are kept.
#[derive(Debug, Clone)]
pub struct Paths {
    pub config_dir: String,
    pub config_file: String,
    pub identity: String,
}

/// How we get hold of mpv.
#[derive(Debug, Clone, Copy, PartialEq, Eq, Structural)]
pub enum MpvSpawn {
    /// Start our own mpv and talk to its IPC socket.
    Auto,
    /// Connect to the IPC socket of an mpv that the user started.
    Script,
    /// No mpv at all.
    Disabled,
}

impl Default for MpvSpawn {
    fn default() -> (r: Self)
        ensures
            r is Auto,
    {
        MpvSpawn::Auto
    }
}

/// What the user configured.
#[derive(Debug, Clone)]
pub struct Config {
    pub nickname: Option<String>,
    pub mpv_binary: Option<String>,
    pub mpv_spawn: Option<MpvSpawn>,
    pub override_mode: Option<bool>,
    /// `None` or empty: use the default relays.
    pub relay: Option<String>,
    /// `error`, `warn`, `info`, `debug` or `trace`.
    pub log_level: Option<String>,
    /// Relative paths start at the configuration directory.
    pub identity_path: Option<String>,
    /// Render a QR code for the ticket when creating a room.
    pub qr: Option<bool>,
}

/// The file written on first run. Every line is commented out, so that the
/// defaults stay in force.
pub const TEMPLATE: &'static str = "\
# syncmesh config. Every line here is a default — uncomment and edit to override.
# CLI flags beat config; config beats the built-in defaults.

# nickname      = \"divyam\"                        # your peer nickname
# mpv_binary    = \"/usr/bin/mpv\"                  # override mpv lookup
# mpv_spawn     = \"auto\"                          # \"auto\" | \"script\" | \"disabled\"
# override_mode = false                             # default state of ready-gate override
# relay         = \"https://relay.example.com\"     # optional — empty = use n0 defaults
# log_level     = \"info\"                          # error | warn | info | debug | trace
# identity_path = \"identity.key\"                  # rel to config_dir; absolute also allowed
# qr            = false                             # print a QR code under the ticket on create
";

/// A path in the verbatim form of Windows, which starts with `\\?\`.
pub open spec fn is_verbatim(path: Seq<char>) -> bool {
    starts_with(path, seq!['\\', '\\', '?', '\\'])
}

/// A path that is relative on every machine: it does not start at a root, and
/// no colon could set off a drive.
pub open spec fn is_plain(path: Seq<char>) -> bool {
    &&& path.len() > 0 ==> path[0] != '/' && path[0] != '\\'
    &&& forall|i: int| 0 <= i < path.len() ==> #[trigger] path[i] != ':'
}

/// What separates the parts of a path on some machine.
pub open spec fn is_separator(c: char) -> bool {
    c == '/' || c == '\\'
}

/// `path` below `dir`: the one behind the other with a separator in between. It
/// is left out only behind nothing, behind a separator, and behind a bare drive.
pub open spec fn is_below(joined: Seq<char>, dir: Seq<char>, path: Seq<char>) -> bool {
    ||| joined == dir + seq!['/'] + path
    ||| joined == dir + seq!['\\'] + path
    ||| joined == dir + path && (dir.len() == 0 || is_separator(dir.last()) || dir.last() == ':')
}

/// `path` in the place of all of `dir` but its drive or share.
pub open spec fn is_behind_drive(joined: Seq<char>, dir: Seq<char>, path: Seq<char>) -> bool {
    &&& path.len() > 0
    &&& is_separator(path[0])
    &&& exists|k: int| 0 < k <= dir.len() && joined == #[trigger] dir.take(k) + path
}

/// The path may name a drive or a share, as on Windows.
pub open spec fn has_drive_or_share(path: Seq<char>) -> bool {
    path.len() >= 2 && (path[1] == ':' || (is_separator(path[0]) && is_separator(path[1])))
}

/// `path` as seen from `dir`. A plain path lies below it. Any other may take its
/// place instead, or that of all but the drive. One that starts with a slash
/// does take its place where there is no drive or share to keep, but for
/// machines on which a slash is a character like any other.
pub open spec fn is_joined(joined: Seq<char>, dir: Seq<char>, path: Seq<char>) -> bool {
    &&& is_plain(path) ==> is_below(joined, dir, path)
    &&& joined == path || is_below(joined, dir, path) || is_behind_drive(joined, dir, path)
    &&& path.len() > 0 && path[0] == '/' && !has_drive_or_share(dir) ==> {
        ||| joined == path
        ||| joined == dir + seq!['\\'] + path
        ||| joined == dir + path && dir.last() == '\\'
    }
}

/// `std::path::Path::is_absolute`. A path without a root and a drive is not
/// absolute. Which other paths are is left unsaid: that depends on the machine.
#[verifier::external_body]
fn is_absolute(path: &str) -> (r: bool)
    ensures
        is_plain(path@) ==> !r,
{
    std::path::Path::new(path).is_absolute()
}

/// `std::path::Path::join`, as text. `path` is put behind `dir`, with a separator
/// in between where there is none, or takes the place of `dir` or of all but its
/// drive or share. A verbatim `dir` is left out, for there the result is
/// normalised. Which separator is used, and which paths take the place of `dir`,
/// depends on the machine.
#[verifier::external_body]
fn join(dir: &str, path: &str) -> (r: String)
    ensures
        !is_verbatim(dir@) ==> is_joined(r@, dir@, path@),
{
    std::path::Path::new(dir).join(path).to_string_lossy().into_owned()
}

impl Default for Config {
    fn default() -> (r: Self)
        ensures
            r.nickname is None,
            r.mpv_binary is None,
            r.mpv_spawn is None,
            r.override_mode is None,
            r.relay is None,
            r.log_level is None,
            r.identity_path is None,
            r.qr is None,
    {
        Config {
            nickname: None,
            mpv_binary: None,
            mpv_spawn: None,
            override_mode: None,
            relay: None,
            log_level: None,
            identity_path: None,
            qr: None,
        }
    }
}

impl Config {
    /// Where the identity is kept: at the default place, at the configured
    /// place, or at the configured place below the configuration directory if
    /// that is not absolute. Which paths are absolute depends on the machine;
    /// [`resolve_path`] says what follows from either.
    pub fn identity_path(&self, paths: &Paths) -> (r: String)
        ensures
            match self.identity_path {
                Some(p) => is_verbatim(paths.config_dir@) || is_joined(
                    r@,
                    paths.config_dir@,
                    p@,
                ),
                None => r@ == paths.identity@,
            },
    {
        match &self.identity_path {
            Some(path) => resolve_path(
                path,
                is_absolute(path.as_str()),
                join(paths.config_dir.as_str(), path.as_str()),
            ),
            None => paths.identity.clone(),
        }
    }
}

/// A configured path: itself if absolute, else the path below the
/// configuration directory.
pub fn resolve_path(path: &String, absolute: bool, below_config_dir: String) -> (r: String)
    ensures
        r@ == if absolute {
            path@
        } else {
            below_config_dir@
        },
{
    if absolute {
        path.clone()
    } else {
        below_config_dir
    }
}

/// What became of reading the configuration file.
#[derive(Debug)]
pub enum ConfigRead {
    Contents(String),
    Missing,
    Failed(std::io::Error),
}

/// What to do about the configuration.
#[derive(Debug)]
pub enum ConfigStep {
    /// Parse this text.
    Parse(String),
    /// Write this template, and use the defaults.
    WriteTemplate(String),
    /// Give up.
    Fail(std::io::Error),
}

/// Decide on the configuration: a missing file is created from the template.
pub fn plan_config(read: ConfigRead) -> (r: ConfigStep)
    ensures
        match read {
            ConfigRead::Contents(body) => r == ConfigStep::Parse(body),
            ConfigRead::Missing => r matches ConfigStep::WriteTemplate(t) && t@ == TEMPLATE@,
            ConfigRead::Failed(e) => r == ConfigStep::Fail(e),
        },
{
    match read {
        ConfigRead::Contents(body) => ConfigStep::Parse(body),
        ConfigRead::Missing => ConfigStep::WriteTemplate(TEMPLATE.to_owned()),
        ConfigRead::Failed(e) => ConfigStep::Fail(e),
    }
}

} // verus!
