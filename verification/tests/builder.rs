use oqcap::config::{Config, PluginConfig};

fn base_config() -> Config {
    Config {
        vault: None,
        action: "new".to_string(),
        content_param: None,
        parameters: Vec::new(),
        plugin: None,
    }
}

/// Splits a built URL into its base part and its decoded-free query pairs
/// (keys and values still percent-encoded, exactly as emitted).
fn split_query(url: &str) -> (String, Vec<(String, String)>) {
    match url.split_once('?') {
        None => (url.to_string(), Vec::new()),
        Some((base, query)) => {
            let pairs = query
                .split('&')
                .map(|pair| {
                    let (k, v) = pair.split_once('=').expect("pair without '='");
                    (k.to_string(), v.to_string())
                })
                .collect();
            (base.to_string(), pairs)
        }
    }
}

#[test]
fn new_action_encodes_text_as_content() {
    let config = base_config();
    let url = config.build_obsidian_url("hello world");
    assert_eq!(url, "obsidian://new?content=hello%20world");
}

#[test]
fn non_new_action_with_vault_omits_content() {
    let mut config = base_config();
    config.action = "search".to_string();
    config.vault = Some("Notes".to_string());
    let url = config.build_obsidian_url("ignored");
    assert_eq!(url, "obsidian://search?vault=Notes");
}

#[test]
fn explicit_content_param_comes_before_extra_parameters() {
    let mut config = base_config();
    config.content_param = Some("body".to_string());
    config.parameters = vec![("x".to_string(), "1".to_string())];
    let url = config.build_obsidian_url("hi");
    assert_eq!(url, "obsidian://new?body=hi&x=1");
}

#[test]
fn empty_text_still_emits_content() {
    let config = base_config();
    let url = config.build_obsidian_url("");
    assert_eq!(url, "obsidian://new?content=");
}

#[test]
fn default_config_is_bare_new_action() {
    let config = Config::default();
    assert!(config.vault.is_none());
    assert_eq!(config.action, "new");
    assert!(config.content_param.is_none());
    assert!(config.parameters.is_empty());
    assert!(config.plugin.is_none());
}

#[test]
fn content_param_name_defaults_to_content_for_new() {
    let config = base_config();
    assert_eq!(config.get_content_param_name(), Some("content"));
}

#[test]
fn content_param_name_is_absent_for_other_actions() {
    let mut config = base_config();
    config.action = "open".to_string();
    assert_eq!(config.get_content_param_name(), None);
    let url = config.build_obsidian_url("whatever");
    assert_eq!(url, "obsidian://open");
}

#[test]
fn explicit_content_param_overrides_for_every_action() {
    let mut config = base_config();
    config.content_param = Some("clipboard".to_string());
    assert_eq!(config.get_content_param_name(), Some("clipboard"));
    config.action = "search".to_string();
    assert_eq!(config.get_content_param_name(), Some("clipboard"));
}

#[test]
fn non_ascii_text_is_utf8_percent_encoded() {
    let config = base_config();
    let url = config.build_obsidian_url("héllo");
    assert_eq!(url, "obsidian://new?content=h%C3%A9llo");
}

#[test]
fn every_emitted_value_decodes_to_its_original() {
    let mut config = base_config();
    config.vault = Some("Vault Name & Co".to_string());
    config.parameters = vec![
        ("a".to_string(), "1 2".to_string()),
        ("b".to_string(), "ü=?&#".to_string()),
    ];
    config.plugin = Some(PluginConfig {
        command: "my plugin".to_string(),
        params: vec![("p".to_string(), "100%".to_string())],
    });
    let text = "hello & goodbye?";
    let url = config.build_obsidian_url(text);
    let (base, pairs) = split_query(&url);
    assert_eq!(base, "obsidian://new");
    let expected = vec![
        ("vault", "Vault Name & Co"),
        ("content", text),
        ("a", "1 2"),
        ("b", "ü=?&#"),
        ("plugin", "my plugin"),
        ("p", "100%"),
    ];
    assert_eq!(pairs.len(), expected.len());
    for ((key, value), (want_key, want_value)) in pairs.iter().zip(expected.iter()) {
        assert_eq!(key.as_str(), *want_key);
        let decoded = urlencoding::decode(value).expect("decodable value");
        assert_eq!(decoded.as_ref(), *want_value);
    }
}

#[test]
fn unset_vault_and_plugin_never_appear() {
    let mut config = base_config();
    config.parameters = vec![("note".to_string(), "daily".to_string())];
    let url = config.build_obsidian_url("text");
    assert!(!url.contains("vault="));
    assert!(!url.contains("plugin="));
}

#[test]
fn parameter_order_changes_order_but_not_the_pairs() {
    let mut first = base_config();
    first.parameters = vec![
        ("a".to_string(), "1".to_string()),
        ("b".to_string(), "2".to_string()),
        ("c".to_string(), "3".to_string()),
    ];
    let mut second = base_config();
    second.parameters = vec![
        ("c".to_string(), "3".to_string()),
        ("a".to_string(), "1".to_string()),
        ("b".to_string(), "2".to_string()),
    ];
    let (base1, mut pairs1) = split_query(&first.build_obsidian_url("t"));
    let (base2, mut pairs2) = split_query(&second.build_obsidian_url("t"));
    assert_eq!(base1, base2);
    pairs1.sort();
    pairs2.sort();
    assert_eq!(pairs1, pairs2);
}

#[test]
fn plugin_pairs_follow_the_plugin_selector() {
    let mut config = base_config();
    config.action = "open".to_string();
    config.plugin = Some(PluginConfig {
        command: "advanced-uri".to_string(),
        params: vec![
            ("mode".to_string(), "append".to_string()),
            ("heading".to_string(), "Inbox".to_string()),
        ],
    });
    let url = config.build_obsidian_url("ignored");
    assert_eq!(
        url,
        "obsidian://open?plugin=advanced-uri&mode=append&heading=Inbox"
    );
}

#[test]
fn vault_pair_comes_before_content_pair() {
    let mut config = base_config();
    config.vault = Some("Göteborg notes".to_string());
    let url = config.build_obsidian_url("x");
    assert_eq!(url, "obsidian://new?vault=G%C3%B6teborg%20notes&content=x");
}

#[test]
fn plugin_without_params_emits_only_the_selector() {
    let mut config = base_config();
    config.action = "open".to_string();
    config.plugin = Some(PluginConfig {
        command: "todo".to_string(),
        params: Vec::new(),
    });
    let url = config.build_obsidian_url("ignored");
    assert_eq!(url, "obsidian://open?plugin=todo");
}

#[test]
fn unreserved_characters_stay_verbatim() {
    let config = base_config();
    let url = config.build_obsidian_url("AZaz09-_.~");
    assert_eq!(url, "obsidian://new?content=AZaz09-_.~");
}
