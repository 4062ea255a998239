use razd::canonical::{
    canonicalize_mise_toml, canonicalize_razdfile, compute_mise_toml_semantic_hash,
    compute_razdfile_semantic_hash, hash_string, var_value_text,
};
use razd::ordered_map::OrderedMap;
use razd::razdfile::{Command, MiseConfig, RazdfileConfig, TaskConfig, ToolConfig, VarValue};

fn plain_task(desc: Option<&str>, cmds: Vec<Command>, internal: bool) -> TaskConfig {
    TaskConfig {
        desc: desc.map(|d| d.to_string()),
        cmds,
        internal,
        deps: None,
        env: None,
        vars: None,
        silent: None,
        platforms: None,
    }
}

fn manifest(mise: Option<MiseConfig>, tasks: OrderedMap<TaskConfig>) -> RazdfileConfig {
    RazdfileConfig { version: "3".to_string(), mise, env: None, vars: None, tasks }
}

#[test]
fn test_canonicalize_razdfile_basic() {
    let config = RazdfileConfig {
        version: "3".to_string(),
        mise: Some(MiseConfig {
            tools: Some({
                let mut map = OrderedMap::new();
                map.insert("node".to_string(), ToolConfig::Simple("22".to_string()));
                map.insert("pnpm".to_string(), ToolConfig::Simple("latest".to_string()));
                map
            }),
            plugins: None,
        }),
        env: None,
        vars: None,
        tasks: {
            let mut map = OrderedMap::new();
            map.insert(
                "default".to_string(),
                plain_task(
                    Some("Test task"),
                    vec![Command::String("echo test".to_string())],
                    false, // Keep explicit false for testing
                ),
            );
            map
        },
    };

    let canonical = canonicalize_razdfile(&config);

    assert!(canonical.contains("v:3"));
    assert!(canonical.contains("mise:"));
    assert!(canonical.contains("node:22"));
    assert!(canonical.contains("pnpm:latest"));
    assert!(canonical.contains("tasks:"));
    assert!(canonical.contains("default:"));
}

#[test]
fn test_canonicalize_sorts_keys() {
    let mut tools1 = OrderedMap::new();
    tools1.insert("zsh".to_string(), ToolConfig::Simple("1.0".to_string()));
    tools1.insert("node".to_string(), ToolConfig::Simple("22".to_string()));

    let mut tools2 = OrderedMap::new();
    tools2.insert("node".to_string(), ToolConfig::Simple("22".to_string()));
    tools2.insert("zsh".to_string(), ToolConfig::Simple("1.0".to_string()));

    let config1 = manifest(Some(MiseConfig { tools: Some(tools1), plugins: None }), OrderedMap::new());
    let config2 = manifest(Some(MiseConfig { tools: Some(tools2), plugins: None }), OrderedMap::new());

    // Canonical forms should be identical despite different insertion order
    assert_eq!(canonicalize_razdfile(&config1), canonicalize_razdfile(&config2));
}

#[test]
fn test_hash_string() {
    let hash1 = hash_string("test");
    let hash2 = hash_string("test");
    let hash3 = hash_string("different");

    assert_eq!(hash1, hash2);
    assert_ne!(hash1, hash3);
    assert_eq!(hash1.len(), 64); // SHA-256 produces 64 hex characters
}

#[test]
fn hash_string_is_sha256_in_lower_hex() {
    assert_eq!(
        hash_string("test"),
        "9f86d081884c7d659a2feaa0c55ad015a3bf4f1b2b0b822cd15d6c15b0f00a08"
    );
    assert_eq!(
        hash_string(""),
        "e3b0c44298fc1c149afbf4c8996fb92427ae41e4649b934ca495991b7852b855"
    );
}

#[test]
fn canonical_razdfile_exact_text() {
    let mut tools = OrderedMap::new();
    tools.insert("pnpm".to_string(), ToolConfig::Simple("latest".to_string()));
    tools.insert("node".to_string(), ToolConfig::Simple("22".to_string()));
    let mut plugins = OrderedMap::new();
    plugins.insert("node".to_string(), "https://github.com/asdf-vm/asdf-nodejs.git".to_string());
    let mut vars = OrderedMap::new();
    vars.insert("VERSION".to_string(), VarValue::Text("v1".to_string()));
    vars.insert("ENV".to_string(), VarValue::Text("production".to_string()));
    vars.insert("COUNT".to_string(), VarValue::Number("3".to_string()));
    vars.insert("FAST".to_string(), VarValue::Bool(true));
    let mut tasks = OrderedMap::new();
    tasks.insert(
        "deploy".to_string(),
        plain_task(
            None,
            vec![
                Command::String("echo second".to_string()),
                Command::TaskRef { task: "build".to_string(), vars: Some(vars), silent: None },
                Command::String("echo first".to_string()),
            ],
            true,
        ),
    );
    tasks.insert(
        "build".to_string(),
        plain_task(Some("Build"), vec![Command::String("cargo build".to_string())], false),
    );
    let config = manifest(Some(MiseConfig { tools: Some(tools), plugins: Some(plugins) }), tasks);

    assert_eq!(
        canonicalize_razdfile(&config),
        "v:3\n\
         mise:\n\
         \x20 tools:\n\
         \x20   node:22\n\
         \x20   pnpm:latest\n\
         \x20 plugins:\n\
         \x20   node:https://github.com/asdf-vm/asdf-nodejs.git\n\
         tasks:\n\
         \x20 build:\n\
         \x20   desc:Build\n\
         \x20   cmds:\n\
         \x20     -cargo build\n\
         \x20 deploy:\n\
         \x20   cmds:\n\
         \x20     -echo second\n\
         \x20     -task:build,vars:{COUNT:3,ENV:production,FAST:true,VERSION:v1}\n\
         \x20     -echo first\n\
         \x20   internal:true\n"
    );
}

#[test]
fn canonical_complex_tool_lists_its_options() {
    let mut env = OrderedMap::new();
    env.insert("GOARCH".to_string(), "amd64".to_string());
    env.insert("CGO_ENABLED".to_string(), "1".to_string());
    let mut tools = OrderedMap::new();
    tools.insert(
        "go".to_string(),
        ToolConfig::Complex {
            version: "1.21".to_string(),
            postinstall: Some("go env".to_string()),
            os: Some(vec!["linux".to_string(), "macos".to_string()]),
            install_env: Some(env),
        },
    );
    let config = MiseConfig { tools: Some(tools), plugins: None };
    assert_eq!(
        canonicalize_mise_toml(&config),
        "[tools]\ngo=1.21\n  postinstall=go env\n  os=linux,macos\n  install_env={CGO_ENABLED:1,GOARCH:amd64}\n"
    );
}

#[test]
fn canonical_mise_exact_text_and_order() {
    let mut tools = OrderedMap::new();
    tools.insert("python".to_string(), ToolConfig::Simple("3.11".to_string()));
    tools.insert("node".to_string(), ToolConfig::Simple("22".to_string()));
    let mut plugins = OrderedMap::new();
    plugins.insert("b".to_string(), "https://example.com/b.git".to_string());
    plugins.insert("a".to_string(), "https://example.com/a.git".to_string());
    let config = MiseConfig { tools: Some(tools), plugins: Some(plugins) };
    assert_eq!(
        canonicalize_mise_toml(&config),
        "[tools]\nnode=22\npython=3.11\n[plugins]\na=https://example.com/a.git\nb=https://example.com/b.git\n"
    );
}

#[test]
fn canonical_names_sort_by_bytes() {
    let mut tools = OrderedMap::new();
    for name in ["b", "a", "B", "ab", "é", "a-", "_"] {
        tools.insert(name.to_string(), ToolConfig::Simple("1".to_string()));
    }
    let config = MiseConfig { tools: Some(tools), plugins: None };
    assert_eq!(
        canonicalize_mise_toml(&config),
        "[tools]\nB=1\n_=1\na=1\na-=1\nab=1\nb=1\né=1\n"
    );
}

#[test]
fn canonical_absent_and_empty_sections_are_alike() {
    let absent = manifest(None, OrderedMap::new());
    let empty = manifest(Some(MiseConfig { tools: None, plugins: None }), OrderedMap::new());
    let empty_maps = manifest(
        Some(MiseConfig { tools: Some(OrderedMap::new()), plugins: Some(OrderedMap::new()) }),
        OrderedMap::new(),
    );
    assert_eq!(canonicalize_razdfile(&absent), "v:3\ntasks:\n");
    assert_eq!(canonicalize_razdfile(&absent), canonicalize_razdfile(&empty));
    assert_eq!(canonicalize_razdfile(&absent), canonicalize_razdfile(&empty_maps));
    assert_eq!(canonicalize_mise_toml(&MiseConfig { tools: None, plugins: None }), "");
    assert_eq!(
        canonicalize_mise_toml(&MiseConfig { tools: Some(OrderedMap::new()), plugins: None }),
        ""
    );
}

#[test]
fn canonical_task_order_does_not_matter_but_command_order_does() {
    let a = plain_task(None, vec![Command::String("one".to_string())], false);
    let b = plain_task(None, vec![Command::String("two".to_string())], false);
    let mut first = OrderedMap::new();
    first.insert("a".to_string(), a.clone());
    first.insert("b".to_string(), b.clone());
    let mut second = OrderedMap::new();
    second.insert("b".to_string(), b);
    second.insert("a".to_string(), a);
    assert_eq!(
        canonicalize_razdfile(&manifest(None, first)),
        canonicalize_razdfile(&manifest(None, second))
    );

    let mut forward = OrderedMap::new();
    forward.insert(
        "t".to_string(),
        plain_task(
            None,
            vec![Command::String("one".to_string()), Command::String("two".to_string())],
            false,
        ),
    );
    let mut backward = OrderedMap::new();
    backward.insert(
        "t".to_string(),
        plain_task(
            None,
            vec![Command::String("two".to_string()), Command::String("one".to_string())],
            false,
        ),
    );
    assert_ne!(
        canonicalize_razdfile(&manifest(None, forward)),
        canonicalize_razdfile(&manifest(None, backward))
    );
}

#[test]
fn canonical_internal_false_leaves_no_mark() {
    let mut tasks = OrderedMap::new();
    tasks.insert(
        "t".to_string(),
        plain_task(Some("d"), vec![Command::String("c".to_string())], false),
    );
    let text = canonicalize_razdfile(&manifest(None, tasks));
    assert_eq!(text, "v:3\ntasks:\n  t:\n    desc:d\n    cmds:\n      -c\n");
    assert!(!text.contains("internal"));
}

#[test]
fn canonical_ignores_fields_that_are_not_part_of_it() {
    let mut plain = OrderedMap::new();
    plain.insert("t".to_string(), plain_task(None, vec![], false));
    let mut rich = OrderedMap::new();
    rich.insert(
        "t".to_string(),
        TaskConfig {
            desc: None,
            cmds: vec![],
            internal: false,
            deps: None,
            env: None,
            vars: None,
            silent: Some(true),
            platforms: Some(vec!["linux".to_string()]),
        },
    );
    assert_eq!(
        canonicalize_razdfile(&manifest(None, plain)),
        canonicalize_razdfile(&manifest(None, rich))
    );
}

#[test]
fn razdfile_hash_falls_back_to_the_text() {
    let config = manifest(None, OrderedMap::new());
    assert_eq!(
        compute_razdfile_semantic_hash(Some(&config), "anything"),
        hash_string("v:3\ntasks:\n")
    );
    assert_eq!(compute_razdfile_semantic_hash(None, "not: [yaml"), hash_string("not: [yaml"));
}

#[test]
fn mise_hash_ignores_formatting_and_order() {
    let a = "[tools]\nnode = \"22\"\npython = \"3.11\"\n";
    let b = "# tools\n\n[tools]\npython   =   '3.11'\n\nnode = \"22\"   # pinned\n";
    assert_eq!(compute_mise_toml_semantic_hash(a), compute_mise_toml_semantic_hash(b));
    assert_eq!(
        compute_mise_toml_semantic_hash(a),
        hash_string("[tools]\nnode=22\npython=3.11\n")
    );
    let c = "[tools]\nnode = \"20\"\npython = \"3.11\"\n";
    assert_ne!(compute_mise_toml_semantic_hash(a), compute_mise_toml_semantic_hash(c));
}

#[test]
fn mise_hash_of_broken_text_is_the_hash_of_the_text() {
    let broken = "[tools\nnode = ";
    assert_eq!(compute_mise_toml_semantic_hash(broken), hash_string(broken));
    let no_version = "[tools]\nnode = { postinstall = \"x\" }\n";
    assert_eq!(compute_mise_toml_semantic_hash(no_version), hash_string(no_version));
}

fn number(text: &str) -> VarValue {
    VarValue::Number(text.to_string())
}

fn text(value: &str) -> VarValue {
    VarValue::Text(value.to_string())
}

#[test]
fn plain_values_stand_as_they_are() {
    assert_eq!(var_value_text(&text("v1")), "v1");
    assert_eq!(var_value_text(&number("3.10")), "3.10");
    assert_eq!(var_value_text(&VarValue::Bool(true)), "true");
    assert_eq!(var_value_text(&VarValue::Bool(false)), "false");
    assert_eq!(var_value_text(&VarValue::Null), "null");
}

#[test]
fn a_list_keeps_its_order_between_brackets() {
    let list = VarValue::List(vec![number("2"), VarValue::Bool(true), VarValue::Null, text("a")]);
    assert_eq!(var_value_text(&list), "[2,true,null,a]");
    assert_eq!(var_value_text(&VarValue::List(vec![])), "[]");
    assert_eq!(var_value_text(&VarValue::List(vec![VarValue::List(vec![number("1")])])), "[[1]]");
}

#[test]
fn a_nested_map_is_written_in_order_of_its_names() {
    let inner = VarValue::Nested(vec![
        ("y".to_string(), number("2")),
        ("x".to_string(), VarValue::List(vec![number("1"), VarValue::Bool(true)])),
    ]);
    let outer = VarValue::Nested(vec![
        ("b".to_string(), number("1")),
        ("a".to_string(), inner),
        ("B".to_string(), VarValue::Null),
    ]);
    assert_eq!(var_value_text(&outer), "{B:null,a:{x:[1,true],y:2},b:1}");
    assert_eq!(var_value_text(&VarValue::Nested(vec![])), "{}");
}

#[test]
fn of_two_bindings_of_one_name_the_later_counts() {
    let twice = VarValue::Nested(vec![
        ("a".to_string(), number("1")),
        ("b".to_string(), number("2")),
        ("a".to_string(), number("3")),
    ]);
    assert_eq!(var_value_text(&twice), "{a:3,b:2}");
}

#[test]
fn the_order_inside_a_nested_value_does_not_reach_the_hash() {
    let here = |first: &str, second: &str| {
        let nested = VarValue::Nested(vec![
            (first.to_string(), text(first)),
            (second.to_string(), text(second)),
        ]);
        let mut vars = OrderedMap::new();
        vars.insert("OPTIONS".to_string(), nested);
        let mut tasks = OrderedMap::new();
        tasks.insert(
            "deploy".to_string(),
            plain_task(
                None,
                vec![Command::TaskRef { task: "build".to_string(), vars: Some(vars), silent: None }],
                false,
            ),
        );
        manifest(None, tasks)
    };
    let a = here("region", "zone");
    let b = here("zone", "region");
    assert_eq!(canonicalize_razdfile(&a), canonicalize_razdfile(&b));
    assert_eq!(
        compute_razdfile_semantic_hash(Some(&a), ""),
        compute_razdfile_semantic_hash(Some(&b), "")
    );
    assert!(canonicalize_razdfile(&a).contains("OPTIONS:{region:region,zone:zone}"));
    let c = here("region", "zones");
    assert_ne!(canonicalize_razdfile(&a), canonicalize_razdfile(&c));
}

#[test]
fn a_copy_of_a_nested_value_has_the_same_text() {
    let value = VarValue::Nested(vec![
        ("k".to_string(), VarValue::List(vec![number("1"), VarValue::Null])),
        ("j".to_string(), VarValue::Nested(vec![("i".to_string(), VarValue::Bool(false))])),
    ]);
    assert_eq!(var_value_text(&value.clone()), "{j:{i:false},k:[1,null]}");
}
