use razd::error::{join2, join3, RazdError};
use razd::text::{
    chars_of, find_char, has_prefix, has_suffix, same_text, split_lines, strip_prefix, text_from,
    text_of, trim, trim_end, trim_start,
};

#[test]
fn every_error_has_its_text() {
    assert_eq!(RazdError::git("x").message(), "Git operation failed: x");
    assert_eq!(RazdError::mise("x").message(), "Mise operation failed: x");
    assert_eq!(RazdError::task("x").message(), "Task operation failed: x");
    assert_eq!(RazdError::io("x").message(), "IO error: x");
    assert_eq!(RazdError::invalid_url("x").message(), "Invalid URL: x");
    assert_eq!(
        RazdError::missing_tool("git", "https://git-scm.com/downloads").message(),
        "Missing required tool: git. Please install it first.\nInstallation guide: https://git-scm.com/downloads"
    );
    assert_eq!(RazdError::config("x").message(), "Configuration error: x");
    assert_eq!(RazdError::command("x").message(), "Command error: x");
    assert_eq!(
        RazdError::no_project_config("Create one.").message(),
        "No project configuration found in current directory.\nCreate one."
    );
    assert_eq!(
        RazdError::no_default_task().message(),
        "No default task found in Razdfile.yml.\nPlease add a 'default' task or specify a task name: razd run <name>"
    );
    assert_eq!(RazdError::setup_cancelled().message(), "Interactive setup cancelled by user");
    assert_eq!(
        RazdError::unknown_project_type("cobol").message(),
        "Project type 'cobol' not recognized. Using generic template."
    );
}

#[test]
fn every_constructor_gives_its_variant() {
    assert_eq!(RazdError::git("m"), RazdError::Git("m".to_string()));
    assert_eq!(RazdError::mise("m"), RazdError::Mise("m".to_string()));
    assert_eq!(RazdError::task("m"), RazdError::Task("m".to_string()));
    assert_eq!(RazdError::io("m"), RazdError::Io("m".to_string()));
    assert_eq!(RazdError::invalid_url("m"), RazdError::InvalidUrl("m".to_string()));
    assert_eq!(
        RazdError::missing_tool("t", "h"),
        RazdError::MissingTool { tool: "t".to_string(), help: "h".to_string() }
    );
    assert_eq!(RazdError::config("m"), RazdError::Config("m".to_string()));
    assert_eq!(RazdError::command("m"), RazdError::Command("m".to_string()));
    assert_eq!(
        RazdError::no_project_config("s"),
        RazdError::NoProjectConfig { suggestion: "s".to_string() }
    );
    assert_eq!(RazdError::no_default_task(), RazdError::NoDefaultTask);
    assert_eq!(RazdError::setup_cancelled(), RazdError::SetupCancelled);
    assert_eq!(
        RazdError::unknown_project_type("p"),
        RazdError::UnknownProjectType { project_type: "p".to_string() }
    );
}

#[test]
fn texts_are_joined_in_order() {
    assert_eq!(join2("ab", "cd"), "abcd");
    assert_eq!(join2("", ""), "");
    assert_eq!(join3("a", "", "c"), "ac");
    assert_eq!(join3("é", "日", "!"), "é日!");
}

#[test]
fn characters_of_a_text_and_back() {
    assert_eq!(chars_of("a é日"), vec!['a', ' ', 'é', '日']);
    assert_eq!(chars_of(""), Vec::<char>::new());
    assert_eq!(text_of(&vec!['a', 'é', '日']), "aé日");
    assert_eq!(text_of(&vec![]), "");
    assert!(same_text("aé", "aé"));
    assert!(!same_text("aé", "ae"));
    assert!(!same_text("a", "ab"));
    assert!(same_text("", ""));
}

#[test]
fn prefixes_suffixes_and_positions_count_characters() {
    assert!(has_prefix("npm:x", "npm:"));
    assert!(has_prefix("npm:", "npm:"));
    assert!(!has_prefix("npm", "npm:"));
    assert!(has_prefix("x", ""));
    assert!(!has_prefix("aé", "ae"));
    assert!(has_suffix("tasks:", ":"));
    assert!(!has_suffix("tasks", ":"));
    assert!(has_suffix("日本", "本"));
    assert!(!has_suffix("", "x"));
    assert_eq!(strip_prefix("éé:rest", "éé:"), Some("rest"));
    assert_eq!(strip_prefix("abc", "b"), None);
    assert_eq!(text_from("é日x", 2), "x");
    assert_eq!(text_from("abc", 3), "");
    assert_eq!(find_char("é日:x:", ':'), Some(2));
    assert_eq!(find_char("abc", ':'), None);
    assert_eq!(find_char("", ':'), None);
}

#[test]
fn white_space_is_trimmed_as_unicode_defines_it() {
    assert_eq!(trim("  a b \t\r\n"), "a b");
    assert_eq!(trim("\u{a0}\u{3000}x\u{2028}"), "x");
    assert_eq!(trim(" \n "), "");
    assert_eq!(trim(""), "");
    assert_eq!(trim_start("  a "), "a ");
    assert_eq!(trim_end("  a "), "  a");
    // No-break space is white space, zero-width space is not.
    assert_eq!(trim("\u{200b}x"), "\u{200b}x");
    for s in ["  a b \t", "\u{a0}x\u{85}", "", " ", "x", "é ", "\u{feff}y "] {
        assert_eq!(trim(s), s.trim());
        assert_eq!(trim_start(s), s.trim_start());
        assert_eq!(trim_end(s), s.trim_end());
    }
}

#[test]
fn lines_end_at_line_feeds() {
    let lines = |s: &str| -> Vec<String> { split_lines(s).iter().map(text_of).collect() };
    assert_eq!(lines("a\nb"), vec!["a", "b"]);
    assert_eq!(lines("a\nb\n"), vec!["a", "b"]);
    assert_eq!(lines("a\r\nb\r\n"), vec!["a", "b"]);
    assert_eq!(lines("a\n\nb"), vec!["a", "", "b"]);
    assert_eq!(lines("\n"), vec![""]);
    assert_eq!(lines(""), Vec::<String>::new());
    assert_eq!(lines("a\rb\n"), vec!["a\rb"]);
    for s in ["", "\n", "a", "a\n", "a\r\n", "\r\n\r\n", "a\n\n", "a\r", "x\r\r\ny", "é\n日"] {
        let expected: Vec<String> = s.lines().map(|l| l.to_string()).collect();
        assert_eq!(lines(s), expected, "{:?}", s);
    }
}

#[test]
fn white_space_is_a_fixed_list_of_characters() {
    let listed = |c: char| {
        let n = c as u32;
        (0x09..=0x0D).contains(&n)
            || c == ' '
            || n == 0x85
            || n == 0xA0
            || n == 0x1680
            || (0x2000..=0x200A).contains(&n)
            || n == 0x2028
            || n == 0x2029
            || n == 0x202F
            || n == 0x205F
            || n == 0x3000
    };
    let mut count = 0;
    for n in 0..=0x10FFFFu32 {
        if let Some(c) = char::from_u32(n) {
            assert_eq!(c.is_whitespace(), listed(c), "U+{:04X}", n);
            let s = format!("{}x{}", c, c);
            assert_eq!(trim(&s) == "x", listed(c), "U+{:04X}", n);
            if listed(c) {
                count += 1;
            }
        }
    }
    assert_eq!(count, 25);
}
