//! The server's configuration: what the configuration file may hold, and how
//! its absent parts are filled in.

use vstd::prelude::*;

use crate::agents::ASSISTANT_AGENT_SYSTEM_PROMPT;
use crate::text::{path_join, path_joined};

verus! {

#[derive(Debug, Clone, PartialEq, Eq)]
pub enum ModelProvider {
    OpenAi,
    Anthropic,
}

#[derive(Debug, Clone, PartialEq, Eq)]
pub struct ModelConfig {
    pub provider: ModelProvider,
    pub api_key: String,
}

/// Connection settings of the document database.
#[derive(Debug, Clone, PartialEq, Eq)]
pub struct DatabaseConfig {
    pub namespace: String,
    pub database: String,
    pub user: String,
    pub pass: String,
}

impl Default for DatabaseConfig {
    fn default() -> (d: Self)
        ensures
            d.namespace@ == "namespace"@,
            d.database@ == "database"@,
            d.user@ == "root"@,
            d.pass@ == "root"@,
    {
        DatabaseConfig {
            namespace: "namespace".to_owned(),
            database: "database".to_owned(),
            user: "root".to_owned(),
            pass: "root".to_owned(),
        }
    }
}

/// The database table of the configuration file; each field may be left out.
#[derive(Debug, Clone, PartialEq, Eq)]
pub struct DatabaseConfigFromFile {
    pub namespace: Option<String>,
    pub database: Option<String>,
    pub user: Option<String>,
    pub pass: Option<String>,
}

/// `value`'s text, or `default` without one.
pub open spec fn or_default(value: Option<String>, default: Seq<char>) -> Seq<char> {
    match value {
        Some(s) => s@,
        None => default,
    }
}

fn string_or(value: Option<String>, default: &str) -> (s: String)
    ensures
        s@ == or_default(value, default@),
{
    match value {
        Some(s) => s,
        None => default.to_owned(),
    }
}

impl From<DatabaseConfigFromFile> for DatabaseConfig {
    /// Fills in what the file left out: namespace `default_namespace`,
    /// database `default_database`, user and password `root`.
    fn from(f: DatabaseConfigFromFile) -> (d: DatabaseConfig)
        ensures
            d.namespace@ == or_default(f.namespace, "default_namespace"@),
            d.database@ == or_default(f.database, "default_database"@),
            d.user@ == or_default(f.user, "root"@),
            d.pass@ == or_default(f.pass, "root"@),
    {
        DatabaseConfig {
            namespace: string_or(f.namespace, "default_namespace"),
            database: string_or(f.database, "default_database"),
            user: string_or(f.user, "root"),
            pass: string_or(f.pass, "root"),
        }
    }
}

/// The conversion builds strings, which no spec function can produce; its
/// contract stands on `from` itself.
impl vstd::std_specs::convert::FromSpecImpl<DatabaseConfigFromFile> for DatabaseConfig {
    open spec fn obeys_from_spec() -> bool {
        false
    }

    open spec fn from_spec(v: DatabaseConfigFromFile) -> DatabaseConfig {
        arbitrary()
    }
}

/// Settings of one scope, a character that selects an agent.
#[derive(Debug, Clone, PartialEq, Eq)]
pub struct ScopeSettings {
    pub sys_prompt: String,
}

impl Default for ScopeSettings {
    fn default() -> (s: Self)
        ensures
            s.sys_prompt@ == ASSISTANT_AGENT_SYSTEM_PROMPT@,
    {
        ScopeSettings { sys_prompt: ASSISTANT_AGENT_SYSTEM_PROMPT.to_owned() }
    }
}

#[derive(Debug, Clone, PartialEq, Eq)]
pub struct ScopeSettingsFromFile {
    pub sys_prompt: Option<String>,
}

impl From<ScopeSettingsFromFile> for ScopeSettings {
    /// Without a system prompt of its own, a scope uses the assistant's.
    fn from(value: ScopeSettingsFromFile) -> (s: ScopeSettings)
        ensures
            s.sys_prompt@ == or_default(value.sys_prompt, ASSISTANT_AGENT_SYSTEM_PROMPT@),
    {
        ScopeSettings { sys_prompt: string_or(value.sys_prompt, ASSISTANT_AGENT_SYSTEM_PROMPT) }
    }
}

/// See the `DatabaseConfig` conversion.
impl vstd::std_specs::convert::FromSpecImpl<ScopeSettingsFromFile> for ScopeSettings {
    open spec fn obeys_from_spec() -> bool {
        false
    }

    open spec fn from_spec(v: ScopeSettingsFromFile) -> ScopeSettings {
        arbitrary()
    }
}

/// Each scope character with its settings, in the order the file lists them.
pub type ScopeConfig = Vec<(char, ScopeSettings)>;

pub type ScopeConfigFromFile = Vec<(char, ScopeSettingsFromFile)>;

#[derive(Debug, Clone, PartialEq, Eq)]
pub struct CommandsConfig {
    pub scopes: Vec<char>,
}

#[derive(Debug, Clone, PartialEq, Eq)]
pub struct CommandsConfigFromFile {
    pub scopes: Option<Vec<char>>,
}

impl From<CommandsConfigFromFile> for CommandsConfig {
    /// Without scopes in the file, there are none.
    fn from(value: CommandsConfigFromFile) -> (c: CommandsConfig)
        ensures
            c.scopes@ == match value.scopes {
                Some(s) => s@,
                None => Seq::<char>::empty(),
            },
    {
        CommandsConfig {
            scopes: match value.scopes {
                Some(s) => s,
                None => Vec::new(),
            },
        }
    }
}

/// See the `DatabaseConfig` conversion.
impl vstd::std_specs::convert::FromSpecImpl<CommandsConfigFromFile> for CommandsConfig {
    open spec fn obeys_from_spec() -> bool {
        false
    }

    open spec fn from_spec(v: CommandsConfigFromFile) -> CommandsConfig {
        arbitrary()
    }
}

/// The configuration of a running server.
#[derive(Debug, Clone, PartialEq, Eq)]
pub struct Config {
    /// The directory the server works in.
    pub pwd: String,
    pub model: Option<ModelConfig>,
    pub database: Option<DatabaseConfig>,
    pub scopes: Option<ScopeConfig>,
}

/// What the configuration file holds; each table may be left out.
#[derive(Debug, Clone, PartialEq, Eq)]
pub struct ConfigFromFile {
    pub model: Option<ModelConfig>,
    pub database: Option<DatabaseConfigFromFile>,
    pub scopes: Option<ScopeConfigFromFile>,
}

/// The scopes of a configuration, from the scopes of the file: none when the
/// file lists none, else each scope with its settings filled in.
pub open spec fn scopes_match(scopes: Option<ScopeConfig>, from_file: Option<ScopeConfigFromFile>) -> bool {
    match from_file {
        None => scopes is None,
        Some(list) => if list@.len() == 0 {
            scopes is None
        } else {
            &&& scopes is Some
            &&& scopes.unwrap()@.len() == list@.len()
            &&& forall|i: int|
                0 <= i < list@.len() ==> (#[trigger] scopes.unwrap()@[i]).0 == list@[i].0
                    && scopes.unwrap()@[i].1.sys_prompt@ == or_default(
                    list@[i].1.sys_prompt,
                    ASSISTANT_AGENT_SYSTEM_PROMPT@,
                )
        },
    }
}

pub open spec fn database_matches(db: Option<DatabaseConfig>, from_file: Option<DatabaseConfigFromFile>) -> bool {
    match from_file {
        None => db is None,
        Some(f) => {
            &&& db is Some
            &&& db.unwrap().namespace@ == or_default(f.namespace, "default_namespace"@)
            &&& db.unwrap().database@ == or_default(f.database, "default_database"@)
            &&& db.unwrap().user@ == or_default(f.user, "root"@)
            &&& db.unwrap().pass@ == or_default(f.pass, "root"@)
        },
    }
}

pub fn database_from_file(f: Option<DatabaseConfigFromFile>) -> (db: Option<DatabaseConfig>)
    ensures
        database_matches(db, f),
{
    match f {
        Some(f) => Some(DatabaseConfig::from(f)),
        None => None,
    }
}

fn scopes_from_file(from_file: Option<ScopeConfigFromFile>) -> (s: Option<ScopeConfig>)
    ensures
        scopes_match(s, from_file),
{
    match from_file {
        None => None,
        Some(list) => {
            if list.len() == 0 {
                return None;
            }
            let mut out: ScopeConfig = Vec::new();
            let mut i: usize = 0;
            while i < list.len()
                invariant
                    i <= list@.len(),
                    out@.len() == i,
                    forall|j: int|
                        0 <= j < i ==> (#[trigger] out@[j]).0 == list@[j].0
                            && out@[j].1.sys_prompt@ == or_default(
                            list@[j].1.sys_prompt,
                            ASSISTANT_AGENT_SYSTEM_PROMPT@,
                        ),
                decreases list@.len() - i,
            {
                let ch = list[i].0;
                let settings_file = ScopeSettingsFromFile {
                    sys_prompt: match &list[i].1.sys_prompt {
                        Some(p) => Some(p.clone()),
                        None => None,
                    },
                };
                out.push((ch, ScopeSettings::from(settings_file)));
                i = i + 1;
            }
            Some(out)
        },
    }
}

impl From<(ConfigFromFile, String)> for Config {
    /// The configuration from the file's contents and the working directory.
    fn from(parts: (ConfigFromFile, String)) -> (c: Config)
        ensures
            c.pwd == parts.1,
            c.model == parts.0.model,
            database_matches(c.database, parts.0.database),
            scopes_match(c.scopes, parts.0.scopes),
    {
        let (cfg, pwd) = parts;
        let scopes = scopes_from_file(cfg.scopes);
        Config { pwd, model: cfg.model, database: database_from_file(cfg.database), scopes }
    }
}

/// See the `DatabaseConfig` conversion.
impl vstd::std_specs::convert::FromSpecImpl<(ConfigFromFile, String)> for Config {
    open spec fn obeys_from_spec() -> bool {
        false
    }

    open spec fn from_spec(v: (ConfigFromFile, String)) -> Config {
        arbitrary()
    }
}

/// The server's own directory inside the working directory.
pub open spec fn espx_ls_dir_path(pwd: Seq<char>) -> Seq<char> {
    path_joined(pwd, ".espx-ls"@)
}

impl Config {
    /// The path of the server's own directory, `.espx-ls` in the working
    /// directory.
    pub fn espx_ls_dir(&self) -> (p: String)
        ensures
            p@ == espx_ls_dir_path(self.pwd@),
    {
        path_join(self.pwd.as_str(), ".espx-ls")
    }

    /// The path of the conversation file, `conversation.md` in the server's
    /// directory.
    pub fn conversation_file(&self) -> (p: String)
        ensures
            p@ == path_joined(espx_ls_dir_path(self.pwd@), "conversation.md"@),
    {
        let dir = self.espx_ls_dir();
        path_join(dir.as_str(), "conversation.md")
    }

    /// The path of the database, `db.surql` in the server's directory.
    pub fn database_directory(&self) -> (p: String)
        ensures
            p@ == path_joined(espx_ls_dir_path(self.pwd@), "db.surql"@),
    {
        let dir = self.espx_ls_dir();
        path_join(dir.as_str(), "db.surql")
    }
}

} // verus!
