use dprint_core::configuration::GlobalConfiguration;
use dprint_plugin_golangci::configuration::{
    resolve_config, ConfigKeyMap, ConfigKeyValue, Configuration,
};
use dprint_plugin_golangci::golangci::{build_args, Version};

fn strings(v: &[&str]) -> Vec<String> {
    v.iter().map(|s| s.to_string()).collect()
}

#[test]
fn resolve_default_config() {
    let config = ConfigKeyMap::new();
    let global = GlobalConfiguration::default();
    let (resolved, diagnostics) = resolve_config(config, &global);

    assert!(diagnostics.is_empty());
    assert!(resolved.fix);
    assert!(resolved.config_path.is_none());
}

#[test]
fn resolve_with_config_path() {
    let mut config = ConfigKeyMap::new();
    config.insert(
        "configPath".to_string(),
        ConfigKeyValue::String(".golangci.yml".to_string()),
    );
    let global = GlobalConfiguration::default();
    let (resolved, diagnostics) = resolve_config(config, &global);

    assert!(diagnostics.is_empty());
    assert_eq!(resolved.config_path, Some(".golangci.yml".to_string()));
}

#[test]
fn resolve_with_fix_disabled() {
    let mut config = ConfigKeyMap::new();
    config.insert("fix".to_string(), ConfigKeyValue::Bool(false));
    let global = GlobalConfiguration::default();
    let (resolved, diagnostics) = resolve_config(config, &global);

    assert!(diagnostics.is_empty());
    assert!(!resolved.fix);
}

#[test]
fn resolve_unknown_key_produces_diagnostic() {
    let mut config = ConfigKeyMap::new();
    config.insert(
        "unknown".to_string(),
        ConfigKeyValue::String("value".to_string()),
    );
    let global = GlobalConfiguration::default();
    let (_, diagnostics) = resolve_config(config, &global);

    assert_eq!(diagnostics.len(), 1);
    assert_eq!(diagnostics[0].property_name, "unknown");
}

#[test]
fn resolve_unknown_key_message() {
    let mut config = ConfigKeyMap::new();
    config.insert("lineWidth".to_string(), ConfigKeyValue::Number(80));
    let (_, diagnostics) = resolve_config(config, &GlobalConfiguration::default());
    assert_eq!(diagnostics.len(), 1);
    assert_eq!(diagnostics[0].message, "Unknown configuration key: lineWidth");
}

#[test]
fn resolve_wrong_types_produce_diagnostics_in_order() {
    let mut config = ConfigKeyMap::new();
    config.insert("fix".to_string(), ConfigKeyValue::String("yes".to_string()));
    config.insert("configPath".to_string(), ConfigKeyValue::Bool(true));
    config.insert("version".to_string(), ConfigKeyValue::Number(2));
    let (resolved, diagnostics) = resolve_config(config, &GlobalConfiguration::default());
    assert!(resolved.fix);
    assert!(resolved.config_path.is_none());
    assert!(resolved.version.is_none());
    assert_eq!(diagnostics.len(), 3);
    assert_eq!(diagnostics[0].property_name, "fix");
    assert_eq!(diagnostics[0].message, "Expected a boolean value for fix");
    assert_eq!(diagnostics[1].property_name, "configPath");
    assert_eq!(diagnostics[1].message, "Expected a string value for configPath");
    assert_eq!(diagnostics[2].property_name, "version");
    assert_eq!(diagnostics[2].message, "Expected a string value for version");
}

#[test]
fn resolve_all_keys_together() {
    let mut config = ConfigKeyMap::new();
    config.insert("version".to_string(), ConfigKeyValue::String("1.64.8".to_string()));
    config.insert("fix".to_string(), ConfigKeyValue::Bool(false));
    config.insert("configPath".to_string(), ConfigKeyValue::String("lint.yml".to_string()));
    config.insert("extra".to_string(), ConfigKeyValue::Null);
    let (resolved, diagnostics) = resolve_config(config, &GlobalConfiguration::default());
    assert_eq!(resolved.version, Some("1.64.8".to_string()));
    assert!(!resolved.fix);
    assert_eq!(resolved.config_path, Some("lint.yml".to_string()));
    assert_eq!(diagnostics.len(), 1);
    assert_eq!(diagnostics[0].property_name, "extra");
}

#[test]
fn config_map_reinsert_keeps_one_entry() {
    let mut config = ConfigKeyMap::new();
    config.insert("fix".to_string(), ConfigKeyValue::Bool(true));
    config.insert("bogus".to_string(), ConfigKeyValue::Null);
    config.insert("fix".to_string(), ConfigKeyValue::Bool(false));
    assert_eq!(config.len(), 2);
    let (resolved, diagnostics) = resolve_config(config, &GlobalConfiguration::default());
    assert!(!resolved.fix);
    assert_eq!(diagnostics.len(), 1);
    assert_eq!(diagnostics[0].property_name, "bogus");
}

#[test]
fn configuration_default_has_fix_off() {
    let config = Configuration::default();
    assert!(!config.fix);
    assert!(config.config_path.is_none());
    assert!(config.version.is_none());
}

#[test]
fn to_args_default() {
    let config = Configuration {
        config_path: None,
        fix: true,
        version: None,
    };
    let args = config.to_args("main.go");

    assert_eq!(args, vec!["run", "--fix", "--out-format=json", "main.go"]);
}

#[test]
fn to_args_with_config_path() {
    let config = Configuration {
        config_path: Some("/path/.golangci.yml".to_string()),
        fix: true,
        version: None,
    };
    let args = config.to_args("main.go");

    assert_eq!(
        args,
        vec![
            "run",
            "--fix",
            "--config=/path/.golangci.yml",
            "--out-format=json",
            "main.go"
        ]
    );
}

#[test]
fn to_args_no_fix() {
    let config = Configuration {
        config_path: None,
        fix: false,
        version: None,
    };
    let args = config.to_args("main.go");

    assert_eq!(args, vec!["run", "--out-format=json", "main.go"]);
}

#[test]
fn to_args_matches_build_args_v1() {
    let config = Configuration {
        config_path: Some("cfg.yml".to_string()),
        fix: false,
        version: Some("2.5.0".to_string()),
    };
    assert_eq!(
        config.to_args("a/b.go"),
        build_args(Version::V1, false, Some("cfg.yml"), "a/b.go")
    );
    assert_eq!(
        config.to_args("a/b.go"),
        strings(&["run", "--config=cfg.yml", "--out-format=json", "a/b.go"])
    );
}
