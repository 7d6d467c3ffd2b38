//! Configuration and the `config` subcommands.

use imgfind::config::{any_hit, Config, GuiConfig, IndexConfig, PatternVerdict, SearchConfig};
use imgfind::config_commands::{handle_config_command, ConfigCommand, ConfigError};
use imgfind::indexing::{scan_decision, scan_entry, EntryKind, ScanDecision};
use imgfind::sort::{Sort, SortDir, SortKey};

#[test]
fn test_default_config() {
    let config = Config::default();
    assert!(!config.ignore_patterns.is_empty());
    assert!(config.ignore_patterns.contains(&"node_modules".to_string()));
}

fn with_patterns(patterns: &[&str]) -> Config {
    Config {
        ignore_patterns: patterns.iter().map(|p| p.to_string()).collect(),
        index: IndexConfig::default(),
        search: SearchConfig::default(),
        gui: GuiConfig::default(),
        default_model: None,
    }
}

#[test]
fn test_should_ignore_path() {
    let config = with_patterns(&["node_modules", r".*generated.*", ".git"]);

    // Test exact matches
    assert!(config.should_ignore_path("/path/to/node_modules/file.jpg"));
    assert!(config.should_ignore_path("/path/to/.git/file.jpg"));

    // Test regex patterns
    assert!(config.should_ignore_path("/path/to/generated_files/file.jpg"));
    assert!(config.should_ignore_path("/path/to/auto-generated/file.jpg"));

    // Test non-matching paths
    assert!(!config.should_ignore_path("/path/to/images/file.jpg"));
    assert!(!config.should_ignore_path("/path/to/photos/file.jpg"));
}

#[test]
fn patterns_are_tried_on_components_and_as_plain_text() {
    // Anchored: only a whole component can match.
    let anchored = with_patterns(&["^tmp$"]);
    assert!(anchored.should_ignore_path("/a/tmp/b.jpg"));
    assert!(!anchored.should_ignore_path("/a/tmpx/b.jpg"));
    // Not a valid regular expression: plain substring.
    let broken = with_patterns(&["(x"]);
    assert!(broken.should_ignore_path("/a/(x)/b.jpg"));
    assert!(!broken.should_ignore_path("/a/x/b.jpg"));
    assert!(!with_patterns(&[]).should_ignore_path("/a"));
}

#[test]
fn any_hit_in_the_path_or_a_component_counts() {
    let verdict = |whole: bool, components: Vec<bool>| PatternVerdict { whole, components };
    assert!(!any_hit(&vec![]));
    assert!(!any_hit(&vec![verdict(false, vec![false, false])]));
    assert!(any_hit(&vec![verdict(false, vec![]), verdict(true, vec![])]));
    assert!(any_hit(&vec![verdict(false, vec![false, true])]));
}

#[test]
fn test_default_index_batch_size() {
    assert_eq!(IndexConfig::default().batch_size, 32);
}

#[test]
fn search_config_has_sane_defaults() {
    let sc = SearchConfig::default();
    assert_eq!(f32::from_bits(sc.distance_threshold.bits), 1.3);
    assert_eq!(sc.max_k.get(), 100);
}

#[test]
fn gui_section_has_defaults_and_composes_a_sort() {
    let gui = GuiConfig::default();
    assert_eq!(gui.preload_neighbors, 2);
    assert_eq!(gui.default_sort, SortKey::Name);
    assert_eq!(gui.default_sort_direction, SortDir::Asc);
    let gui = GuiConfig {
        preload_neighbors: 5,
        default_sort: SortKey::Size,
        default_sort_direction: SortDir::Desc,
    };
    assert_eq!(
        gui.resolved_sort(),
        Sort {
            key: SortKey::Size,
            dir: SortDir::Desc
        }
    );
    assert_eq!(
        Config::get_config_path("/home/me"),
        "/home/me/.imgfind/config.toml"
    );
}

#[test]
fn scanning_keeps_only_wanted_images() {
    let config = with_patterns(&["^skip$"]);
    let compiled = config.get_compiled_regexes();
    let scan = |path: &str, kind: EntryKind| scan_entry(&config, &compiled, path, kind);
    assert_eq!(scan("/p/a.JPG", EntryKind::File), ScanDecision::Keep);
    assert_eq!(scan("/p/a.nef", EntryKind::File), ScanDecision::Keep);
    assert_eq!(scan("/p/a.txt", EntryKind::File), ScanDecision::Skip);
    assert_eq!(scan("/p/a", EntryKind::File), ScanDecision::Skip);
    assert_eq!(scan("/p/a.jpg", EntryKind::Directory), ScanDecision::Skip);
    assert_eq!(scan("/p/skip", EntryKind::Directory), ScanDecision::SkipTree);
    assert_eq!(scan("/p/skip/a.jpg", EntryKind::File), ScanDecision::Skip);
    assert_eq!(
        scan_decision(false, "/x.webp", EntryKind::Other),
        ScanDecision::Skip
    );
}

fn run(
    config: &mut Config,
    command: ConfigCommand,
    supported: &[&str],
) -> Result<(bool, Vec<String>), ConfigError> {
    let supported: Vec<String> = supported.iter().map(|s| s.to_string()).collect();
    handle_config_command(config, "/home/me/.imgfind/config.toml", &command, &supported)
        .map(|o| (o.save, o.lines))
}

#[test]
fn show_lists_everything() {
    let mut config = with_patterns(&["a", "b"]);
    let (save, lines) = run(&mut config, ConfigCommand::Show, &[]).unwrap();
    assert!(!save);
    assert_eq!(
        lines,
        vec![
            "Configuration file: /home/me/.imgfind/config.toml",
            "Default model: (built-in baseline) openai/clip-vit-base-patch32",
            "Ignore patterns:",
            "  1. a",
            "  2. b",
        ]
    );
    let mut empty = with_patterns(&[]);
    empty.default_model = Some("m".to_string());
    let (_, lines) = run(&mut empty, ConfigCommand::Show, &[]).unwrap();
    assert_eq!(lines[1], "Default model: m");
    assert_eq!(lines[3], "  (none)");
}

#[test]
fn ignore_patterns_are_added_once_and_removed() {
    let mut config = with_patterns(&["a"]);
    let add = ConfigCommand::AddIgnore {
        pattern: "b".to_string(),
    };
    let (save, lines) = run(&mut config, add.clone(), &[]).unwrap();
    assert!(save);
    assert_eq!(lines, vec!["Added ignore pattern: b"]);
    assert_eq!(config.ignore_patterns, vec!["a", "b"]);
    let (save, lines) = run(&mut config, add, &[]).unwrap();
    assert!(!save);
    assert_eq!(lines, vec!["Pattern already exists: b"]);
    let remove = ConfigCommand::RemoveIgnore {
        pattern: "b".to_string(),
    };
    let (save, lines) = run(&mut config, remove.clone(), &[]).unwrap();
    assert!(save);
    assert_eq!(lines, vec!["Removed ignore pattern: b"]);
    assert_eq!(config.ignore_patterns, vec!["a"]);
    let (save, lines) = run(&mut config, remove, &[]).unwrap();
    assert!(!save);
    assert_eq!(lines, vec!["Pattern not found: b"]);
}

#[test]
fn reset_restores_the_defaults() {
    let mut config = with_patterns(&["a"]);
    config.default_model = Some("m".to_string());
    let (save, lines) = run(&mut config, ConfigCommand::Reset, &[]).unwrap();
    assert!(save);
    assert_eq!(lines.len(), 12);
    assert_eq!(lines[2], "  1. node_modules");
    assert_eq!(config.default_model, None);
    assert_eq!(config.ignore_patterns.len(), 10);
}

#[test]
fn only_supported_models_become_the_default() {
    let mut config = with_patterns(&[]);
    let set = |name: &str| ConfigCommand::Model {
        name: Some(name.to_string()),
        clear: false,
    };
    assert_eq!(
        run(&mut config, set("nope"), &["m"]),
        Err(ConfigError::UnknownModel)
    );
    assert_eq!(config.default_model, None);
    let ask = ConfigCommand::Model {
        name: None,
        clear: false,
    };
    let (_, lines) = run(&mut config, ask.clone(), &["m"]).unwrap();
    assert_eq!(
        lines,
        vec!["No default model set (using built-in baseline openai/clip-vit-base-patch32)"]
    );
    let (save, lines) = run(&mut config, set("m"), &["m"]).unwrap();
    assert!(save);
    assert_eq!(lines, vec!["Default model set to m"]);
    let (save, lines) = run(&mut config, ask, &["m"]).unwrap();
    assert!(!save);
    assert_eq!(lines, vec!["Default model: m"]);
    let clear = ConfigCommand::Model {
        name: None,
        clear: true,
    };
    let (save, lines) = run(&mut config, clear, &["m"]).unwrap();
    assert!(save);
    assert_eq!(
        lines,
        vec!["Cleared default model (reverting to the built-in baseline)."]
    );
    assert_eq!(config.default_model, None);
}
