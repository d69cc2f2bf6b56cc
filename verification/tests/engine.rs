use dx::Stack;

fn pairs(v: Vec<(&str, &str)>) -> Vec<(String, String)> {
    v.into_iter().map(|(a, b)| (a.to_string(), b.to_string())).collect()
}

#[test]
fn detect_prefers_node_over_rust() {
    let m = dx::Markers {
        package_json: true,
        cargo_toml: true,
        requirements_dev_txt: false,
        requirements_txt: false,
        pyproject_toml: false,
        go_mod: false,
        pom_xml: false,
        build_gradle: false,
        build_gradle_kts: false,
        composer_json: false,
        gemfile: false,
    };
    assert_eq!(Stack::detect(&m), Stack::Node);
}

#[test]
fn detect_unknown_without_markers() {
    let m = dx::Markers {
        package_json: false,
        cargo_toml: false,
        requirements_dev_txt: false,
        requirements_txt: false,
        pyproject_toml: false,
        go_mod: false,
        pom_xml: false,
        build_gradle: false,
        build_gradle_kts: false,
        composer_json: false,
        gemfile: false,
    };
    assert_eq!(Stack::detect(&m), Stack::Unknown);
}

#[test]
fn detect_each_single_marker() {
    let base = dx::Markers {
        package_json: false,
        cargo_toml: false,
        requirements_dev_txt: false,
        requirements_txt: false,
        pyproject_toml: false,
        go_mod: false,
        pom_xml: false,
        build_gradle: false,
        build_gradle_kts: false,
        composer_json: false,
        gemfile: false,
    };
    let mut m = base;
    m.gemfile = true;
    assert_eq!(Stack::detect(&m), Stack::Ruby);
    let mut m = base;
    m.composer_json = true;
    assert_eq!(Stack::detect(&m), Stack::Php);
    let mut m = base;
    m.build_gradle_kts = true;
    assert_eq!(Stack::detect(&m), Stack::Gradle);
    let mut m = base;
    m.pom_xml = true;
    assert_eq!(Stack::detect(&m), Stack::Maven);
    let mut m = base;
    m.go_mod = true;
    assert_eq!(Stack::detect(&m), Stack::Go);
    let mut m = base;
    m.requirements_dev_txt = true;
    assert_eq!(Stack::detect(&m), Stack::Python);
}

#[test]
fn requirements_parse_and_write() {
    let text = "# tools\nflask==1.0\n\npytest\n  black == 22.1 \n";
    let m = dx::requirements::parse_requirements(text);
    assert_eq!(
        m.to_pairs(),
        pairs(vec![("black", "22.1"), ("flask", "1.0"), ("pytest", "*")])
    );
    let out = dx::requirements::write_requirements(&m);
    assert_eq!(out, "black==22.1\nflask==1.0\npytest\n");
}

#[test]
fn requirements_update_replaces_without_duplicates() {
    let text = "flask==1.0\n";
    let resolved = pairs(vec![("flask", "2.0")]);
    let out = dx::requirements::requirements_update(text, &resolved);
    assert_eq!(out, "flask==2.0\n");
    assert_eq!(out.matches("flask").count(), 1);
}

#[test]
fn requirements_add_and_delete_round_trip() {
    let text = "flask==1.0\n";
    let added = dx::requirements::requirements_add(text, "pytest", Some("7.0"));
    assert_eq!(added, "flask==1.0\npytest==7.0\n");
    let listed = dx::requirements::parse_requirements(&added);
    assert_eq!(listed.to_pairs().len(), 2);
    let removed = dx::requirements::requirements_delete(&added, "pytest");
    assert_eq!(removed, "flask==1.0\n");
    let removed_absent = dx::requirements::requirements_delete(&removed, "missing");
    assert_eq!(removed_absent, "flask==1.0\n");
}

#[test]
fn go_mod_single_line_and_block() {
    let text = "module demo\n\nrequire github.com/gin-gonic/gin v1.9.0\n\nrequire (\n\tgithub.com/a/b v0.1.0\n\tgithub.com/c/d v2.0.0 // indirect\n)\n";
    let m = dx::gomod::parse_go_mod(text);
    assert_eq!(
        m.to_pairs(),
        pairs(vec![
            ("github.com/a/b", "v0.1.0"),
            ("github.com/c/d", "v2.0.0"),
            ("github.com/gin-gonic/gin", "v1.9.0"),
        ])
    );
}

#[test]
fn go_mod_list_contains_gin() {
    let text = "require github.com/gin-gonic/gin v1.9.0\n";
    let listed = dx::deps::list(Stack::Go, text);
    assert!(listed.iter().any(|(n, v)| n == "github.com/gin-gonic/gin" && v == "v1.9.0"));
}

#[test]
fn gradle_single_test_dependency() {
    let text = "dependencies {\n    testImplementation 'org.junit:junit:4.13'\n}\n";
    let deps = dx::gradle::parse_gradle_deps(text);
    assert_eq!(
        deps,
        vec![("org.junit".to_string(), "junit".to_string(), "4.13".to_string())]
    );
    let listed = dx::deps::list(Stack::Gradle, text);
    assert_eq!(listed, pairs(vec![("org.junit:junit", "4.13")]));
}

#[test]
fn gradle_ignores_outside_block_and_other_configs() {
    let text = "testImplementation 'a:b:1'\ndependencies {\n    implementation 'x:y:2'\n    testRuntimeOnly \"g:a:3\"\n}\n";
    let deps = dx::gradle::parse_gradle_deps(text);
    assert_eq!(deps, vec![("g".to_string(), "a".to_string(), "3".to_string())]);
}

#[test]
fn maven_excludes_non_test_scope() {
    let text = "<project><dependencies>\
<dependency><groupId>g1</groupId><artifactId>a1</artifactId><version>1</version><scope>test</scope></dependency>\
<dependency><groupId>g2</groupId><artifactId>a2</artifactId><version>2</version></dependency>\
</dependencies></project>";
    let deps = dx::maven::parse_maven_deps(text);
    assert_eq!(deps, vec![("g1".to_string(), "a1".to_string(), "1".to_string())]);
}

#[test]
fn maven_extract_between_finds_first() {
    let hay: Vec<char> = "<a>x</a><a>y</a>".chars().collect();
    let sp: Vec<char> = "<a>".chars().collect();
    let ep: Vec<char> = "</a>".chars().collect();
    let piece = dx::maven::extract_between(&hay, &sp, &ep).unwrap();
    let got: String = piece.into_iter().collect();
    assert_eq!(got, "x");
}

#[test]
fn gemfile_development_and_test_groups() {
    let text = "source 'https://rubygems.org'\ngem 'rails', '7.0'\ngroup :development, :test do\n  gem \"rspec-rails\", \"6.0\"\n  gem 'pry'\nend\ngroup :production do\n  gem 'pg', '1.4'\nend\n";
    let m = dx::gemfile::parse_gemfile(text);
    assert_eq!(m.to_pairs(), pairs(vec![("pry", "*"), ("rspec-rails", "6.0")]));
}

#[test]
fn node_add_list_delete_preserves_other_fields() {
    let text = "{\n  \"name\": \"demo\",\n  \"version\": \"0.1.0\",\n  \"devDependencies\": {}\n}\n";
    let added = dx::deps::add(Stack::Node, text, "eslint", Some("1.0.0")).unwrap();
    let listed = dx::deps::list(Stack::Node, &added);
    assert_eq!(listed, pairs(vec![("eslint", "1.0.0")]));
    let removed = dx::deps::delete(Stack::Node, &added, "eslint").unwrap();
    assert_eq!(dx::deps::list(Stack::Node, &removed), vec![]);
    let before: serde_json::Value = serde_json::from_str(text).unwrap();
    let after: serde_json::Value = serde_json::from_str(&removed).unwrap();
    assert_eq!(before.get("name"), after.get("name"));
    assert_eq!(before.get("version"), after.get("version"));
}

#[test]
fn node_add_starts_from_empty_document() {
    let added = dx::deps::add(Stack::Node, "", "jest", None).unwrap();
    let listed = dx::deps::list(Stack::Node, &added);
    assert_eq!(listed, pairs(vec![("jest", "*")]));
}

#[test]
fn node_add_refuses_non_object_root() {
    assert!(dx::deps::add(Stack::Node, "[1, 2]", "jest", None).is_none());
}

#[test]
fn node_update_rewrites_resolved_versions() {
    let text = "{\"devDependencies\": {\"a\": \"1\", \"b\": \"2\"}}";
    let resolved = pairs(vec![("a", "9")]);
    let updated = dx::deps::update(Stack::Node, text, &resolved).unwrap();
    let listed = dx::deps::list(Stack::Node, &updated);
    assert_eq!(listed, pairs(vec![("a", "9"), ("b", "2")]));
}

#[test]
fn php_uses_require_dev_section() {
    let text = "{\"require\": {\"monolog/monolog\": \"2.0\"}, \"require-dev\": {\"phpunit/phpunit\": \"9.5\"}}";
    let listed = dx::deps::list(Stack::Php, text);
    assert_eq!(listed, pairs(vec![("phpunit/phpunit", "9.5")]));
}

#[test]
fn cargo_add_preserves_unrelated_text() {
    let text = "# hand-written comment\n[package]\nname = \"demo\"\nversion = \"0.1.0\"\n";
    let added = dx::deps::add(Stack::Rust, text, "serde", Some("1.0")).unwrap();
    assert!(added.contains("# hand-written comment"));
    assert!(added.contains("name = \"demo\""));
    let listed = dx::deps::list(Stack::Rust, &added);
    assert_eq!(listed, pairs(vec![("serde", "1.0")]));
    let removed = dx::deps::delete(Stack::Rust, &added, "serde").unwrap();
    assert!(removed.contains("# hand-written comment"));
    assert_eq!(dx::deps::list(Stack::Rust, &removed), vec![]);
}

#[test]
fn json_and_toml_add_then_delete_cycles() {
    let json = "{\"name\": \"demo\", \"devDependencies\": {\"a\": \"1\"}}";
    let out = dx::jsonmanifest::json_add_then_delete(json, "devDependencies", "b", "2").unwrap();
    let listed = dx::deps::list(Stack::Node, &out);
    assert_eq!(listed, pairs(vec![("a", "1")]));
    let toml = "[package]\nname = \"demo\"\n";
    let out = dx::cargotoml::toml_add_then_delete(toml, "tokio", "1.0").unwrap();
    assert!(out.contains("name = \"demo\""));
    assert_eq!(dx::deps::list(Stack::Rust, &out), vec![]);
}

#[test]
fn unsupported_stacks_refuse_mutation() {
    assert!(dx::deps::add(Stack::Go, "", "x", None).is_none());
    assert!(dx::deps::add(Stack::Maven, "", "x", None).is_none());
    assert!(dx::deps::add(Stack::Gradle, "", "x", None).is_none());
    assert!(dx::deps::add(Stack::Ruby, "", "x", None).is_none());
    assert!(dx::deps::delete(Stack::Unknown, "", "x").is_none());
}

#[test]
fn manifest_paths_follow_the_markers() {
    assert_eq!(dx::deps::node_package_json(), "package.json");
    assert_eq!(dx::deps::cargo_toml(), "Cargo.toml");
    assert_eq!(dx::deps::requirements_path(true), "requirements-dev.txt");
    assert_eq!(dx::deps::requirements_path(false), "requirements.txt");
    assert_eq!(dx::deps::go_mod_path(), "go.mod");
    assert_eq!(dx::deps::pom_xml_path(), "pom.xml");
    assert_eq!(dx::deps::gradle_build_path(true), "build.gradle.kts");
    assert_eq!(dx::deps::gradle_build_path(false), "build.gradle");
    assert_eq!(dx::deps::composer_json_path(), "composer.json");
    assert_eq!(dx::deps::gemfile_path(), "Gemfile");
}
