//! Application settings (`config.json` in the application data directory),
//! the check of a chosen vault directory, and the `cli-config.toml` record
//! that tells the command-line tool where the database and vault are.
//!
//! Reading, parsing and writing the files belongs to the caller; this module
//! decides what the outcome of each step means.

use vstd::prelude::*;

use crate::text::{append, chars_of, string_of, str_eq};
use crate::vault::{join_path, spec_join_path};

verus! {

/// File name of the settings inside the application data directory.
pub open spec fn config_file_name() -> Seq<char> {
    "config.json"@
}

/// Schema version written into `cli-config.toml`.
pub const CLI_CONFIG_VERSION: u32 = 1;

/// Settings kept between runs. `vault_path` is `None` until the user has
/// chosen a vault.
#[derive(Debug, Clone, PartialEq, Eq)]
pub struct AppConfig {
    pub vault_path: Option<String>,
}

impl Default for AppConfig {
    fn default() -> (r: Self)
        ensures
            r.vault_path is None,
    {
        AppConfig { vault_path: None }
    }
}

/// The runtime view of the vault setting: `ready` when a vault is installed,
/// and then its path.
#[derive(Debug, Clone, PartialEq, Eq)]
pub struct VaultConfigResponse {
    pub vault_path: Option<String>,
    pub ready: bool,
}

/// The answer to a query of the vault setting, given the path of the
/// installed vault if there is one.
pub fn vault_config_response(installed_vault: Option<String>) -> (r: VaultConfigResponse)
    ensures
        r.ready == installed_vault is Some,
        r.vault_path == installed_vault,
{
    let ready = installed_vault.is_some();
    VaultConfigResponse { vault_path: installed_vault, ready }
}

/// Where the settings file lives.
pub fn config_path(app_data_dir: &str) -> (r: String)
    ensures
        r@ == spec_join_path(app_data_dir@, config_file_name()),
{
    join_path(app_data_dir, "config.json")
}

/// What went wrong with the settings or with a chosen vault. Paths and
/// underlying errors are carried as their display text.
#[derive(Debug, Clone, PartialEq, Eq)]
pub enum ConfigError {
    Read { path: String, detail: String },
    Parse { path: String, detail: String },
    Write { path: String, detail: String },
    CreateDir { path: String, detail: String },
    VaultPathInvalid(String),
    NotObsidianVault(String),
}

/// `prefix` + `path` + `")"` + `": "` + `detail`.
pub open spec fn io_message(prefix: Seq<char>, path: Seq<char>, detail: Seq<char>) -> Seq<char> {
    prefix + path + "): "@ + detail
}

/// The text shown for an error.
pub open spec fn spec_config_message(e: ConfigError) -> Seq<char> {
    match e {
        ConfigError::Read { path, detail } => io_message("config 文件读取失败("@, path@, detail@),
        ConfigError::Parse { path, detail } => io_message(
            "config 文件 JSON 解析失败("@,
            path@,
            detail@,
        ),
        ConfigError::Write { path, detail } => io_message("config 文件写入失败("@, path@, detail@),
        ConfigError::CreateDir { path, detail } => io_message(
            "config 目录创建失败("@,
            path@,
            detail@,
        ),
        ConfigError::VaultPathInvalid(p) => "路径不存在或不是目录: "@ + p@,
        ConfigError::NotObsidianVault(p) => "选择的目录不是 Obsidian vault(缺少 .obsidian/ 子目录): "@
            + p@,
    }
}

fn io_text(prefix: &str, path: &String, detail: &String) -> (r: String)
    ensures
        r@ == io_message(prefix@, path@, detail@),
{
    let mut v = chars_of(prefix);
    append(&mut v, &chars_of(path.as_str()));
    append(&mut v, &chars_of("): "));
    append(&mut v, &chars_of(detail.as_str()));
    string_of(v.as_slice())
}

fn prefixed(prefix: &str, rest: &String) -> (r: String)
    ensures
        r@ == prefix@ + rest@,
{
    let mut v = chars_of(prefix);
    append(&mut v, &chars_of(rest.as_str()));
    string_of(v.as_slice())
}

impl ConfigError {
    /// The text shown for this error.
    pub fn message(&self) -> (r: String)
        ensures
            r@ == spec_config_message(*self),
    {
        match self {
            ConfigError::Read { path, detail } => io_text("config 文件读取失败(", path, detail),
            ConfigError::Parse { path, detail } => io_text("config 文件 JSON 解析失败(", path, detail),
            ConfigError::Write { path, detail } => io_text("config 文件写入失败(", path, detail),
            ConfigError::CreateDir { path, detail } => io_text("config 目录创建失败(", path, detail),
            ConfigError::VaultPathInvalid(p) => prefixed("路径不存在或不是目录: ", p),
            ConfigError::NotObsidianVault(p) => prefixed(
                "选择的目录不是 Obsidian vault(缺少 .obsidian/ 子目录): ",
                p,
            ),
        }
    }
}

/// What the file system says about a chosen vault directory and its
/// `.obsidian` subdirectory.
#[derive(Debug, Clone, Copy, PartialEq, Eq, Structural)]
pub struct VaultProbe {
    pub exists: bool,
    pub is_dir: bool,
    pub obsidian_exists: bool,
    pub obsidian_is_dir: bool,
}

/// A vault directory must exist, be a directory, and hold a `.obsidian`
/// directory.
pub fn validate_vault_path(vault_path: &str, probe: VaultProbe) -> (r: Result<(), ConfigError>)
    ensures
        !(probe.exists && probe.is_dir) <==> r matches Err(ConfigError::VaultPathInvalid(_)),
        probe.exists && probe.is_dir && !(probe.obsidian_exists && probe.obsidian_is_dir)
            <==> r matches Err(ConfigError::NotObsidianVault(_)),
        r matches Err(ConfigError::VaultPathInvalid(p)) ==> p@ == vault_path@,
        r matches Err(ConfigError::NotObsidianVault(p)) ==> p@ == vault_path@,
        r is Ok <==> probe.exists && probe.is_dir && probe.obsidian_exists
            && probe.obsidian_is_dir,
{
    if !probe.exists || !probe.is_dir {
        return Err(ConfigError::VaultPathInvalid(vault_path.to_string()));
    }
    if !probe.obsidian_exists || !probe.obsidian_is_dir {
        return Err(ConfigError::NotObsidianVault(vault_path.to_string()));
    }
    Ok(())
}

/// The check of [`validate_vault_path`], its error given as text.
pub fn ensure_vault_path_valid(vault_path: &str, probe: VaultProbe) -> (r: Result<(), String>)
    ensures
        r is Ok <==> probe.exists && probe.is_dir && probe.obsidian_exists
            && probe.obsidian_is_dir,
        !(probe.exists && probe.is_dir) ==> (r matches Err(m) && m@ == "路径不存在或不是目录: "@
            + vault_path@),
        probe.exists && probe.is_dir && !(probe.obsidian_exists && probe.obsidian_is_dir)
            ==> (r matches Err(m) && m@
            == "选择的目录不是 Obsidian vault(缺少 .obsidian/ 子目录): "@ + vault_path@),
{
    match validate_vault_path(vault_path, probe) {
        Ok(()) => Ok(()),
        Err(e) => Err(e.message()),
    }
}

/// What reading and parsing the settings file gave.
#[derive(Debug, Clone, PartialEq, Eq)]
pub enum ConfigRead {
    /// There is no settings file.
    Missing,
    /// The file exists but could not be read; the reason as text.
    ReadFailed(String),
    /// The file was read but is not valid settings; the reason as text.
    ParseFailed(String),
    /// The settings the file holds.
    Parsed(AppConfig),
}

/// The settings, given what reading the file at `path` gave: defaults when
/// there is no file, the read or parse failure as an error otherwise.
pub fn load_config(path: &str, read: ConfigRead) -> (r: Result<AppConfig, ConfigError>)
    ensures
        read is Missing ==> (r matches Ok(c) && c.vault_path is None),
        read matches ConfigRead::Parsed(c) ==> r == Ok::<AppConfig, ConfigError>(c),
        read matches ConfigRead::ReadFailed(d) ==> (r matches Err(
            ConfigError::Read { path: p, detail },
        ) && p@ == path@ && detail == d),
        read matches ConfigRead::ParseFailed(d) ==> (r matches Err(
            ConfigError::Parse { path: p, detail },
        ) && p@ == path@ && detail == d),
{
    match read {
        ConfigRead::Missing => Ok(AppConfig::default()),
        ConfigRead::ReadFailed(detail) => Err(ConfigError::Read { path: path.to_string(), detail }),
        ConfigRead::ParseFailed(detail) => Err(
            ConfigError::Parse { path: path.to_string(), detail },
        ),
        ConfigRead::Parsed(c) => Ok(c),
    }
}

/// The settings at start-up, read from the settings file of `app_data_dir`;
/// an error is given as its text.
pub fn load_startup_config(app_data_dir: &str, read: ConfigRead) -> (r: Result<AppConfig, String>)
    ensures
        read is Missing ==> (r matches Ok(c) && c.vault_path is None),
        read matches ConfigRead::Parsed(c) ==> r == Ok::<AppConfig, String>(c),
        read matches ConfigRead::ReadFailed(d) ==> (r matches Err(m) && m@ == io_message(
            "config 文件读取失败("@,
            spec_join_path(app_data_dir@, config_file_name()),
            d@,
        )),
        read matches ConfigRead::ParseFailed(d) ==> (r matches Err(m) && m@ == io_message(
            "config 文件 JSON 解析失败("@,
            spec_join_path(app_data_dir@, config_file_name()),
            d@,
        )),
{
    let path = config_path(app_data_dir);
    match load_config(path.as_str(), read) {
        Ok(c) => Ok(c),
        Err(e) => Err(e.message()),
    }
}

/// The record of the database and vault paths for the command-line tool.
#[derive(Debug, Clone, PartialEq, Eq)]
pub struct CliConfig {
    pub cli_config_version: u32,
    pub db_path: String,
    pub vault_path: String,
}

/// The record that should be on disk for these paths.
pub fn expected_cli_config(db_path: &str, vault_path: &str) -> (r: CliConfig)
    ensures
        r.cli_config_version == CLI_CONFIG_VERSION,
        r.db_path@ == db_path@,
        r.vault_path@ == vault_path@,
{
    CliConfig {
        cli_config_version: CLI_CONFIG_VERSION,
        db_path: db_path.to_string(),
        vault_path: vault_path.to_string(),
    }
}

/// The record on disk (if it could be read and parsed) already says what is
/// expected, so nothing needs to be written.
pub fn cli_config_up_to_date(existing: &Option<CliConfig>, expected: &CliConfig) -> (r: bool)
    ensures
        r <==> (existing matches Some(c) && c.cli_config_version == expected.cli_config_version
            && c.db_path@ == expected.db_path@ && c.vault_path@ == expected.vault_path@),
{
    match existing {
        Some(c) => c.cli_config_version == expected.cli_config_version && str_eq(
            c.db_path.as_str(),
            expected.db_path.as_str(),
        ) && str_eq(c.vault_path.as_str(), expected.vault_path.as_str()),
        None => false,
    }
}

/// Where the vault comes from at start-up: the `KEYSIGHT_VAULT_PATH`
/// environment value in a debug build, else the saved settings (when they
/// could be loaded), else nowhere, which starts the first-run setup.
pub fn resolve_startup_vault_path(
    debug_build: bool,
    env_vault: Option<String>,
    settings: Option<AppConfig>,
) -> (r: Option<String>)
    ensures
        debug_build && env_vault is Some ==> r == env_vault,
        !(debug_build && env_vault is Some) ==> r == (match settings {
            Some(c) => c.vault_path,
            None => None,
        }),
{
    if debug_build {
        if let Some(v) = env_vault {
            return Some(v);
        }
    }
    match settings {
        Some(c) => c.vault_path,
        None => None,
    }
}

} // verus!
