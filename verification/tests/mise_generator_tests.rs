use razd::mise_generator::generate_mise_toml;
use razd::mise_parser::parse_mise_toml;
use razd::ordered_map::OrderedMap;
use razd::razdfile::{MiseConfig, ToolConfig};

#[test]
fn test_generate_simple_tools() {
    let mut tools = OrderedMap::new();
    tools.insert("node".to_string(), ToolConfig::Simple("22".to_string()));
    tools.insert("python".to_string(), ToolConfig::Simple("3.11".to_string()));

    let mise_config = MiseConfig { tools: Some(tools), plugins: None };

    let toml = generate_mise_toml(&mise_config).unwrap();

    assert!(toml.contains("[tools]"));
    assert!(toml.contains("node = \"22\""));
    assert!(toml.contains("python = \"3.11\""));
}

#[test]
fn test_generate_complex_tools() {
    let mut tools = OrderedMap::new();
    tools.insert(
        "node".to_string(),
        ToolConfig::Complex {
            version: "22".to_string(),
            postinstall: Some("corepack enable".to_string()),
            os: Some(vec!["linux".to_string(), "macos".to_string()]),
            install_env: None,
        },
    );

    let mise_config = MiseConfig { tools: Some(tools), plugins: None };

    let toml = generate_mise_toml(&mise_config).unwrap();

    assert!(toml.contains("[tools]"));
    assert!(toml.contains("node = "));
    assert!(toml.contains("version = \"22\""));
    assert!(toml.contains("postinstall = \"corepack enable\""));
    assert!(toml.contains("os = [\"linux\", \"macos\"]"));
}

#[test]
fn test_generate_tools_with_install_env() {
    let mut install_env = OrderedMap::new();
    install_env.insert("CGO_ENABLED".to_string(), "1".to_string());
    install_env.insert("GOARCH".to_string(), "amd64".to_string());

    let mut tools = OrderedMap::new();
    tools.insert(
        "go".to_string(),
        ToolConfig::Complex {
            version: "1.21".to_string(),
            postinstall: None,
            os: None,
            install_env: Some(install_env),
        },
    );

    let mise_config = MiseConfig { tools: Some(tools), plugins: None };

    let toml = generate_mise_toml(&mise_config).unwrap();

    assert!(toml.contains("[tools]"));
    assert!(toml.contains("go = "));
    assert!(toml.contains("version = \"1.21\""));
    assert!(toml.contains("install_env"));
    assert!(toml.contains("CGO_ENABLED = \"1\""));
    assert!(toml.contains("GOARCH = \"amd64\""));
}

#[test]
fn test_generate_plugins() {
    let mut plugins = OrderedMap::new();
    plugins.insert("elixir".to_string(), "https://github.com/my-org/mise-elixir.git".to_string());
    plugins.insert(
        "node".to_string(),
        "https://github.com/my-org/mise-node.git#DEADBEEF".to_string(),
    );

    let mise_config = MiseConfig { tools: None, plugins: Some(plugins) };

    let toml = generate_mise_toml(&mise_config).unwrap();

    assert!(toml.contains("[plugins]"));
    assert!(toml.contains("elixir = \"https://github.com/my-org/mise-elixir.git\""));
    assert!(toml.contains("node = \"https://github.com/my-org/mise-node.git#DEADBEEF\""));
}

#[test]
fn test_generate_both_tools_and_plugins() {
    let mut tools = OrderedMap::new();
    tools.insert("node".to_string(), ToolConfig::Simple("22".to_string()));

    let mut plugins = OrderedMap::new();
    plugins.insert("elixir".to_string(), "https://github.com/my-org/mise-elixir.git".to_string());

    let mise_config = MiseConfig { tools: Some(tools), plugins: Some(plugins) };

    let toml = generate_mise_toml(&mise_config).unwrap();

    assert!(toml.contains("[tools]"));
    assert!(toml.contains("node = \"22\""));
    assert!(toml.contains("[plugins]"));
    assert!(toml.contains("elixir = \"https://github.com/my-org/mise-elixir.git\""));
}

#[test]
fn test_generate_empty_config() {
    let mise_config = MiseConfig { tools: None, plugins: None };

    let toml = generate_mise_toml(&mise_config).unwrap();

    // Should generate empty document
    assert!(toml.trim().is_empty());
}

#[test]
fn test_generate_empty_maps() {
    let mise_config =
        MiseConfig { tools: Some(OrderedMap::new()), plugins: Some(OrderedMap::new()) };

    let toml = generate_mise_toml(&mise_config).unwrap();

    // Should generate empty document for empty maps
    assert!(toml.trim().is_empty());
}

#[test]
fn test_parse_complex_mise_toml() {
    let mise_content = r#"
[tools]
python = "3.11"
node = { version = "22", postinstall = "corepack enable" }

[plugins]
node = "https://github.com/asdf-vm/asdf-nodejs.git"
"#;

    let parsed = parse_mise_toml(mise_content).unwrap();

    assert!(parsed.tools.is_some());
    let tools = parsed.tools.unwrap();
    assert_eq!(tools.len(), 2);
    assert!(matches!(tools.get("python"), Some(ToolConfig::Simple(_))));
    assert!(matches!(tools.get("node"), Some(ToolConfig::Complex { .. })));
}

#[test]
fn generated_text_is_exact() {
    let mut env = OrderedMap::new();
    env.insert("CGO_ENABLED".to_string(), "1".to_string());
    let mut tools = OrderedMap::new();
    tools.insert("node".to_string(), ToolConfig::Simple("22".to_string()));
    tools.insert(
        "go".to_string(),
        ToolConfig::Complex {
            version: "1.21".to_string(),
            postinstall: Some("go env".to_string()),
            os: Some(vec!["linux".to_string()]),
            install_env: Some(env),
        },
    );
    let mut plugins = OrderedMap::new();
    plugins.insert("node".to_string(), "https://github.com/asdf-vm/asdf-nodejs.git".to_string());
    let text = generate_mise_toml(&MiseConfig { tools: Some(tools), plugins: Some(plugins) }).unwrap();
    assert_eq!(
        text,
        "[tools]\nnode = \"22\"\ngo = { version = \"1.21\", postinstall = \"go env\", os = [\"linux\"], install_env = { CGO_ENABLED = \"1\" } }\n\n[plugins]\nnode = \"https://github.com/asdf-vm/asdf-nodejs.git\"\n"
    );
}

#[test]
fn parse_reads_every_option_of_a_tool() {
    let text = r#"
[tools]
node = { version = "22", postinstall = "corepack enable", os = ["linux", 3, "macos"], install_env = { A = "1", B = 2 } }
deno = { version = "1", os = "linux" }
bun = { version = "1", os = [] }
"#;
    let parsed = parse_mise_toml(text).unwrap();
    let tools = parsed.tools.unwrap();
    assert!(parsed.plugins.is_none());
    match tools.get("node").unwrap() {
        ToolConfig::Complex { version, postinstall, os, install_env } => {
            assert_eq!(version, "22");
            assert_eq!(postinstall.as_deref(), Some("corepack enable"));
            assert_eq!(os.as_ref().unwrap(), &vec!["linux".to_string(), "macos".to_string()]);
            let env = install_env.as_ref().unwrap();
            assert_eq!(env.len(), 2);
            assert_eq!(env.get("A").unwrap(), "1");
            assert_eq!(env.get("B").unwrap(), "");
        }
        _ => panic!("expected a tool with options"),
    }
    match tools.get("deno").unwrap() {
        ToolConfig::Complex { os, .. } => {
            assert_eq!(os.as_ref().unwrap(), &vec!["linux".to_string()])
        }
        _ => panic!("expected a tool with options"),
    }
    match tools.get("bun").unwrap() {
        ToolConfig::Complex { os, .. } => assert!(os.is_none()),
        _ => panic!("expected a tool with options"),
    }
}

#[test]
fn parse_reports_each_error() {
    let not_toml = parse_mise_toml("[tools\nnode = ").unwrap_err();
    assert!(not_toml.message().starts_with("Configuration error: Invalid mise.toml: "));

    let no_version = parse_mise_toml("[tools]\nnode = { postinstall = \"x\" }\n").unwrap_err();
    assert_eq!(
        no_version.message(),
        "Configuration error: Tool 'node' is missing 'version' field"
    );

    let number = parse_mise_toml("[tools]\nnode = 22\n").unwrap_err();
    assert_eq!(number.message(), "Configuration error: Invalid tool config for 'node'");
}

#[test]
fn parse_of_text_without_sections_is_empty() {
    let parsed = parse_mise_toml("").unwrap();
    assert!(parsed.tools.is_none());
    assert!(parsed.plugins.is_none());
    let parsed = parse_mise_toml("[tools]\n[plugins]\na = 1\n").unwrap();
    assert!(parsed.tools.is_none());
    assert!(parsed.plugins.is_none());
    let parsed = parse_mise_toml("tools = \"x\"\n[settings]\nq = 1\n").unwrap();
    assert!(parsed.tools.is_none());
}

#[test]
fn written_tool_section_reads_back_the_same() {
    let mut env = OrderedMap::new();
    env.insert("B".to_string(), "2".to_string());
    env.insert("A".to_string(), "1".to_string());
    let mut tools = OrderedMap::new();
    tools.insert("zig".to_string(), ToolConfig::Simple("0.13".to_string()));
    tools.insert(
        "go".to_string(),
        ToolConfig::Complex {
            version: "1.21".to_string(),
            postinstall: Some("go env".to_string()),
            os: Some(vec!["linux".to_string(), "macos".to_string()]),
            install_env: Some(env),
        },
    );
    let mut plugins = OrderedMap::new();
    plugins.insert("node".to_string(), "https://github.com/asdf-vm/asdf-nodejs.git".to_string());
    let section = MiseConfig { tools: Some(tools), plugins: Some(plugins) };

    let text = generate_mise_toml(&section).unwrap();
    let back = parse_mise_toml(&text).unwrap();

    assert_eq!(
        razd::canonical::canonicalize_mise_toml(&back),
        razd::canonical::canonicalize_mise_toml(&section)
    );
    let tools = back.tools.unwrap();
    assert_eq!(tools.len(), 2);
    assert!(matches!(tools.get("zig"), Some(ToolConfig::Simple(v)) if v == "0.13"));
    match tools.get("go").unwrap() {
        ToolConfig::Complex { version, postinstall, os, install_env } => {
            assert_eq!(version, "1.21");
            assert_eq!(postinstall.as_deref(), Some("go env"));
            assert_eq!(os.as_ref().unwrap(), &vec!["linux".to_string(), "macos".to_string()]);
            let env = install_env.as_ref().unwrap();
            assert_eq!(env.get("A").unwrap(), "1");
            assert_eq!(env.get("B").unwrap(), "2");
        }
        _ => panic!("expected a tool with options"),
    }
    assert_eq!(
        back.plugins.unwrap().get("node").unwrap(),
        "https://github.com/asdf-vm/asdf-nodejs.git"
    );
}
