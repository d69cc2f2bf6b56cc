#[test]
fn collapse_blank_lines_removes_runs() {
    let input = "a\n\n\n\n b\n";
    let expected = "a\n\n b\n";
    assert_eq!(dx::badges::collapse_blank_lines(input), expected);
}

#[test]
fn generate_badges_deduplicates_and_appends_brand() {
    let services: Vec<String> = vec!["Postgres".into(), "postgresql".into(), "kafka-ui".into()];
    let line = dx::badges::generate_badges_markdown(&services);
    assert!(line.contains("PostgreSQL"));
    assert!(!line.contains("kafka-ui"));
    assert!(line.ends_with("dx-logo.svg)](#)"));
}

#[test]
fn generate_badges_without_matches_is_brand_only() {
    let services: Vec<String> = vec!["unknown-thing".into()];
    let line = dx::badges::generate_badges_markdown(&services);
    assert!(line.starts_with("[![dx-anywhere]"));
}

#[test]
fn remove_badges_strips_marked_block() {
    let content = "# Title\n\n<!-- dx-cli:badges:start -->\nbadges here\n<!-- dx-cli:badges:end -->\n\nBody\n";
    let (cleaned, removed) = dx::badges::remove_badges_in_content(content);
    assert!(removed);
    assert!(!cleaned.contains("dx-cli:badges:start"));
    assert!(cleaned.contains("# Title"));
    assert!(cleaned.contains("Body"));
}

#[test]
fn remove_badges_without_markers_changes_nothing() {
    let content = "# Title\nBody\n";
    let (same, removed) = dx::badges::remove_badges_in_content(content);
    assert!(!removed);
    assert_eq!(same, content);
    let half = "<!-- dx-cli:badges:start -->\n";
    let (same, removed) = dx::badges::remove_badges_in_content(half);
    assert!(!removed);
    assert_eq!(same, half);
}

#[test]
fn config_add_respects_existing_keys() {
    let mut cfg = dx::omap::StrMap::new();
    assert!(dx::config::add(&mut cfg, "foo", "bar"));
    assert!(!dx::config::add(&mut cfg, "foo", "baz"));
    assert_eq!(dx::config::get_value(&cfg, "foo"), Some("bar".to_string()));
}

#[test]
fn config_update_needs_existing_key() {
    let mut cfg = dx::omap::StrMap::new();
    assert!(!dx::config::update(&mut cfg, "foo", "baz"));
    assert!(dx::config::add(&mut cfg, "foo", "bar"));
    assert!(dx::config::update(&mut cfg, "foo", "baz"));
    assert_eq!(dx::config::get_value(&cfg, "foo"), Some("baz".to_string()));
}

#[test]
fn config_delete_reports_presence() {
    let mut cfg = dx::omap::StrMap::new();
    assert!(dx::config::add(&mut cfg, "foo", "bar"));
    assert!(dx::config::delete(&mut cfg, "foo"));
    assert!(!dx::config::delete(&mut cfg, "foo"));
    assert_eq!(dx::config::list(&cfg), vec![]);
    assert_eq!(dx::config::config_path(), ".dx/config.json");
}

#[test]
fn stack_config_sections_are_independent() {
    let mut cfg = dx::StackConfig::new();
    assert!(dx::services_config::set(&mut cfg, dx::DevConfigSection::Config, "k", "v"));
    assert!(dx::services_config::set(&mut cfg, dx::DevConfigSection::Env, "API_KEY", "123"));
    assert!(dx::services_config::set(&mut cfg, dx::DevConfigSection::Priority, "build", "10"));
    assert!(!dx::services_config::set(&mut cfg, dx::DevConfigSection::Priority, "build", "ten"));
    assert_eq!(cfg.configs.to_pairs(), vec![("k".to_string(), "v".to_string())]);
    assert_eq!(cfg.env.to_pairs(), vec![("API_KEY".to_string(), "123".to_string())]);
    assert_eq!(cfg.priorities.to_pairs(), vec![("build".to_string(), 10i64)]);
    dx::services_config::remove(&mut cfg, dx::DevConfigSection::Env, "API_KEY");
    assert_eq!(cfg.env.to_pairs(), vec![]);
    assert_eq!(
        dx::services_config::config_path("spring-boot"),
        ".dx/spring-boot/properties.yaml"
    );
}

#[test]
fn parse_i64_handles_signs_and_overflow() {
    assert_eq!(dx::numfmt::parse_i64("0"), Some(0));
    assert_eq!(dx::numfmt::parse_i64("-17"), Some(-17));
    assert_eq!(dx::numfmt::parse_i64("+42"), Some(42));
    assert_eq!(dx::numfmt::parse_i64("9223372036854775807"), Some(i64::MAX));
    assert_eq!(dx::numfmt::parse_i64("-9223372036854775808"), Some(i64::MIN));
    assert_eq!(dx::numfmt::parse_i64("9223372036854775808"), None);
    assert_eq!(dx::numfmt::parse_i64(""), None);
    assert_eq!(dx::numfmt::parse_i64("-"), None);
    assert_eq!(dx::numfmt::parse_i64("12a"), None);
}

#[test]
fn u64_rendering_matches_decimal() {
    assert_eq!(dx::numfmt::u64_to_string(0), "0");
    assert_eq!(dx::numfmt::u64_to_string(12345), "12345");
}

#[test]
fn tool_stack_detection_prefers_rust() {
    let m = dx::toolstack::ToolMarkers {
        cargo_toml: true,
        package_json: true,
        pyproject_toml: false,
        requirements_txt: false,
        go_mod: false,
        pom_xml: false,
        build_gradle: false,
        build_gradle_kts: false,
    };
    assert_eq!(dx::toolstack::Stack::detect(&m), dx::toolstack::Stack::Rust);
    assert_eq!(dx::toolstack::Stack::Rust.display_name(), "Rust");
}

#[test]
fn test_commands_follow_the_stack() {
    let (cmd, args) = dx::toolstack::Stack::Python.test_command(false).unwrap();
    assert_eq!(cmd, "python");
    assert_eq!(args, vec!["-m".to_string(), "pytest".to_string()]);
    let (cmd, _) = dx::toolstack::Stack::JavaGradle.test_command(true).unwrap();
    assert_eq!(cmd, "./gradlew");
    let (cmd, _) = dx::toolstack::Stack::JavaGradle.test_command(false).unwrap();
    assert_eq!(cmd, "gradle");
    assert!(dx::toolstack::Stack::Unknown.test_command(false).is_none());
}

#[test]
fn watcher_ignores_hidden_and_build_paths() {
    let hidden: Vec<String> = vec!["home".into(), ".git".into(), "x.rs".into()];
    assert!(dx::toolstack::should_ignore(&hidden));
    let target: Vec<String> = vec!["proj".into(), "target".into(), "debug".into()];
    assert!(dx::toolstack::should_ignore(&target));
    let plain: Vec<String> = vec!["src".into(), "lib.rs".into()];
    assert!(!dx::toolstack::should_ignore(&plain));
}

#[test]
fn upsert_replaces_block_in_place() {
    let content = "# Title\n\n<!-- dx-cli:badges:start -->\nold badges\n<!-- dx-cli:badges:end -->\n\nBody\n";
    let updated = dx::badges::upsert_badges_in_content(content, "new badges");
    assert!(updated.contains("new badges"));
    assert!(!updated.contains("old badges"));
    assert!(updated.starts_with("# Title\n"));
    assert!(updated.ends_with("Body\n"));
    assert_eq!(updated.matches("dx-cli:badges:start").count(), 1);
}

#[test]
fn upsert_inserts_below_first_heading() {
    let content = "intro\n# Title\nBody\n";
    let updated = dx::badges::upsert_badges_in_content(content, "the badges");
    let expected = "intro\n# Title\n<!-- dx-cli:badges:start -->\nthe badges\n<!-- dx-cli:badges:end -->\n\n\nBody\n";
    assert_eq!(updated, expected);
}

#[test]
fn upsert_without_heading_goes_after_first_line() {
    let content = "plain text\nmore\n";
    let updated = dx::badges::upsert_badges_in_content(content, "b");
    let expected = "plain text\n\n<!-- dx-cli:badges:start -->\nb\n<!-- dx-cli:badges:end -->\n\nmore\n";
    assert_eq!(updated, expected);
}

#[test]
fn upsert_appends_to_single_line_text() {
    let updated = dx::badges::upsert_badges_in_content("only line", "b");
    let expected = "only line\n\n<!-- dx-cli:badges:start -->\nb\n<!-- dx-cli:badges:end -->\n\n";
    assert_eq!(updated, expected);
}
