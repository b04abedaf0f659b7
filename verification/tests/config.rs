use espx_ls::action_config::{
    Config as ActionsConfig, ConfigFromFile as ActionsConfigFromFile, UserActionConfig,
};
use espx_ls::config::{
    Config, ConfigFromFile, DatabaseConfig, DatabaseConfigFromFile, ModelConfig, ModelProvider,
    ScopeSettings, ScopeSettingsFromFile,
};

fn table_of(input: &str) -> toml::Table {
    match input.parse::<toml::Table>() {
        Ok(t) => t,
        Err(err) => panic!("CONFIG ERROR: {:?}", err),
    }
}

fn text_field(t: &toml::Table, key: &str) -> Option<String> {
    t.get(key).and_then(|v| v.as_str()).map(|s| s.to_string())
}

fn model_of(t: &toml::Table) -> Option<ModelConfig> {
    let m = t.get("model")?.as_table()?;
    let provider = match m.get("provider")?.as_str()? {
        "OpenAi" => ModelProvider::OpenAi,
        "Anthropic" => ModelProvider::Anthropic,
        other => panic!("CONFIG ERROR: unknown provider {other}"),
    };
    Some(ModelConfig { provider, api_key: text_field(m, "api_key")? })
}

fn database_of(t: &toml::Table) -> Option<DatabaseConfigFromFile> {
    let d = t.get("database")?.as_table()?;
    Some(DatabaseConfigFromFile {
        namespace: text_field(d, "namespace"),
        database: text_field(d, "database"),
        user: text_field(d, "user"),
        pass: text_field(d, "pass"),
    })
}

fn scopes_of(t: &toml::Table) -> Option<Vec<(char, ScopeSettingsFromFile)>> {
    let s = t.get("scopes")?.as_table()?;
    let mut out = vec![];
    for (k, v) in s.iter() {
        let c = k.chars().next().expect("scope key is a character");
        let sys_prompt = v.as_table().and_then(|tb| text_field(tb, "sys_prompt"));
        out.push((c, ScopeSettingsFromFile { sys_prompt }));
    }
    Some(out)
}

#[test]
fn config_config_builds_correctly() {
    let input = r#"
            [model]
            provider="Anthropic"
            api_key="invalid"

            [database]
            namespace="espx" 
            database="espx"
            user="root"
            pass="root"
        "#;
    let pwd = "~/Documents/projects/espx-ls/lsp".to_string();
    let expected = ActionsConfig {
        user_actions: UserActionConfig::default(),
        pwd: pwd.clone(),
        model: Some(ModelConfig {
            provider: ModelProvider::Anthropic,
            api_key: "invalid".to_owned(),
        }),
        database: Some(DatabaseConfig {
            namespace: "espx".to_owned(),
            database: "espx".to_owned(),
            user: "root".to_owned(),
            pass: "root".to_owned(),
        }),
    };

    let table = table_of(input);
    let cnfg = ActionsConfigFromFile {
        model: model_of(&table),
        user_actions: None,
        database: database_of(&table),
    };
    let cfg = ActionsConfig::from((cnfg, pwd));

    assert_eq!(expected, cfg);
}

#[test]
fn mod_config_builds_correctly() {
    let input = r#"
            [model]
            provider="Anthropic"
            api_key="invalid"

            [database]
            namespace="espx" 
            database="espx"
            user="root"
            pass="root"

            [scopes]
             [scopes.c]
             [scopes.b]
             sys_prompt = "prompt"

        "#;
    let pwd = "~/Documents/projects/espx-ls/lsp".to_string();
    let scopes = vec![
        ('c', ScopeSettings::default()),
        ('b', ScopeSettings { sys_prompt: "prompt".to_string() }),
    ];
    let expected_model = Some(ModelConfig {
        provider: ModelProvider::Anthropic,
        api_key: "invalid".to_owned(),
    });
    let expected_database = Some(DatabaseConfig {
        namespace: "espx".to_owned(),
        database: "espx".to_owned(),
        user: "root".to_owned(),
        pass: "root".to_owned(),
    });

    let table = table_of(input);
    let cnfg = ConfigFromFile {
        model: model_of(&table),
        database: database_of(&table),
        scopes: scopes_of(&table),
    };
    let cfg = Config::from((cnfg, pwd.clone()));

    assert_eq!(cfg.pwd, pwd);
    assert_eq!(cfg.model, expected_model);
    assert_eq!(cfg.database, expected_database);
    let got = cfg.scopes.expect("scopes are configured");
    assert_eq!(got.len(), scopes.len());
    for pair in scopes.iter() {
        assert!(got.contains(pair), "missing scope {:?}", pair);
    }
}

#[test]
fn absent_database_fields_take_their_defaults() {
    let cnfg = ConfigFromFile {
        model: None,
        database: Some(DatabaseConfigFromFile {
            namespace: Some("ns".to_string()),
            database: None,
            user: None,
            pass: None,
        }),
        scopes: None,
    };
    let cfg = Config::from((cnfg, "/work".to_string()));
    let db = cfg.database.expect("a database table was given");
    assert_eq!(db.namespace, "ns");
    assert_eq!(db.database, "default_database");
    assert_eq!(db.user, "root");
    assert_eq!(db.pass, "root");
    assert_eq!(cfg.scopes, None);
    assert_eq!(cfg.model, None);
}

#[test]
fn scope_without_prompt_uses_the_assistant_prompt() {
    let s = ScopeSettings::from(ScopeSettingsFromFile { sys_prompt: None });
    assert_eq!(s, ScopeSettings::default());
    let t = ScopeSettings::from(ScopeSettingsFromFile { sys_prompt: Some("p".to_string()) });
    assert_eq!(t.sys_prompt, "p");
}

#[test]
fn config_paths_are_under_the_working_directory() {
    let cfg = Config::from((
        ConfigFromFile { model: None, database: None, scopes: None },
        "/home/me/project".to_string(),
    ));
    assert_eq!(cfg.espx_ls_dir(), "/home/me/project/.espx-ls");
    assert_eq!(cfg.conversation_file(), "/home/me/project/.espx-ls/conversation.md");
    assert_eq!(cfg.database_directory(), "/home/me/project/.espx-ls/db.surql");
    let root = Config::from((
        ConfigFromFile { model: None, database: None, scopes: None },
        "/".to_string(),
    ));
    assert_eq!(root.espx_ls_dir(), "/.espx-ls");
}

#[test]
fn actions_config_defaults_when_file_names_none() {
    let cfg = ActionsConfig::from((
        ActionsConfigFromFile { model: None, user_actions: None, database: None },
        "/p".to_string(),
    ));
    let d = UserActionConfig::default();
    assert_eq!(cfg.user_actions, d);
    assert_eq!(d.quick_prompt, "##");
    assert_eq!(d.rag_prompt, "$$");
    assert_eq!(d.walk_project, "@@");
    assert_eq!(cfg.database_directory(), "/p/.espx-ls/db.surql");
}
