//! The configuration with user action triggers: the character sequences that,
//! typed into a document, ask the server for an action, and the marks it
//! leaves in their place.

use vstd::prelude::*;

pub use crate::config::{DatabaseConfig, DatabaseConfigFromFile, ModelConfig, ModelProvider};
use crate::config::{database_from_file, database_matches, espx_ls_dir_path};
use crate::text::{path_join, path_joined};

verus! {

#[derive(Debug, Clone, PartialEq, Eq)]
pub struct UserActionConfig {
    pub quick_prompt: String,
    pub quick_prompt_echo: String,
    pub rag_prompt: String,
    pub rag_prompt_echo: String,
    pub walk_project: String,
    pub walk_project_echo: String,
    pub lock_chunk_into_context: String,
    pub lock_doc_into_context: String,
    pub lock_doc_echo: String,
}

/// The triggers and marks used when the file names none.
pub open spec fn is_default_actions(u: UserActionConfig) -> bool {
    &&& u.quick_prompt@ == "##"@
    &&& u.quick_prompt_echo@ == "⚑"@
    &&& u.rag_prompt@ == "$$"@
    &&& u.rag_prompt_echo@ == "⧗"@
    &&& u.walk_project@ == "@@"@
    &&& u.walk_project_echo@ == "⧉"@
    &&& u.lock_chunk_into_context@ == "#---#"@
    &&& u.lock_doc_into_context@ == "$---$"@
    &&& u.lock_doc_echo@ == "🔒"@
}

impl Default for UserActionConfig {
    fn default() -> (u: Self)
        ensures
            is_default_actions(u),
    {
        UserActionConfig {
            quick_prompt: "##".to_owned(),
            quick_prompt_echo: "⚑".to_owned(),
            rag_prompt: "$$".to_owned(),
            rag_prompt_echo: "⧗".to_owned(),
            walk_project: "@@".to_owned(),
            walk_project_echo: "⧉".to_owned(),
            lock_chunk_into_context: "#---#".to_owned(),
            lock_doc_into_context: "$---$".to_owned(),
            lock_doc_echo: "🔒".to_owned(),
        }
    }
}

#[derive(Debug, Clone, PartialEq, Eq)]
pub struct Config {
    pub user_actions: UserActionConfig,
    /// The directory the server works in.
    pub pwd: String,
    pub model: Option<ModelConfig>,
    pub database: Option<DatabaseConfig>,
}

/// What the configuration file holds; each table may be left out.
#[derive(Debug, Clone, PartialEq, Eq)]
pub struct ConfigFromFile {
    pub model: Option<ModelConfig>,
    pub user_actions: Option<UserActionConfig>,
    pub database: Option<DatabaseConfigFromFile>,
}

impl From<(ConfigFromFile, String)> for Config {
    /// The configuration from the file's contents and the working directory;
    /// without user actions in the file, the default triggers apply.
    fn from(parts: (ConfigFromFile, String)) -> (c: Config)
        ensures
            c.pwd == parts.1,
            c.model == parts.0.model,
            match parts.0.user_actions {
                Some(u) => c.user_actions == u,
                None => is_default_actions(c.user_actions),
            },
            database_matches(c.database, parts.0.database),
    {
        let (cfg, pwd) = parts;
        let user_actions = match cfg.user_actions {
            Some(u) => u,
            None => UserActionConfig::default(),
        };
        Config { user_actions, pwd, model: cfg.model, database: database_from_file(cfg.database) }
    }
}

/// The conversion builds strings, which no spec function can produce; its
/// contract stands on `from` itself.
impl vstd::std_specs::convert::FromSpecImpl<(ConfigFromFile, String)> for Config {
    open spec fn obeys_from_spec() -> bool {
        false
    }

    open spec fn from_spec(v: (ConfigFromFile, String)) -> Config {
        arbitrary()
    }
}

impl Config {
    /// The path of the server's own directory, `.espx-ls` in the working
    /// directory.
    pub fn espx_ls_dir(&self) -> (p: String)
        ensures
            p@ == espx_ls_dir_path(self.pwd@),
    {
        path_join(self.pwd.as_str(), ".espx-ls")
    }

    /// The path of the conversation file, `conversation.md` in the server's
    /// directory.
    pub fn conversation_file(&self) -> (p: String)
        ensures
            p@ == path_joined(espx_ls_dir_path(self.pwd@), "conversation.md"@),
    {
        let dir = self.espx_ls_dir();
        path_join(dir.as_str(), "conversation.md")
    }

    /// The path of the database, `db.surql` in the server's directory.
    pub fn database_directory(&self) -> (p: String)
        ensures
            p@ == path_joined(espx_ls_dir_path(self.pwd@), "db.surql"@),
    {
        let dir = self.espx_ls_dir();
        path_join(dir.as_str(), "db.surql")
    }
}

} // verus!
