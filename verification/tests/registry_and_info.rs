use dx::Stack;

#[test]
fn resolver_absent_body_reads_as_absent() {
    assert_eq!(dx::registry::npm_latest(None), None);
    assert_eq!(dx::registry::crates_latest(None), None);
    assert_eq!(dx::registry::pypi_latest(None), None);
    assert_eq!(dx::registry::go_latest(None), None);
    assert_eq!(dx::registry::rubygems_latest(None), None);
    assert_eq!(dx::registry::packagist_latest(None, "vendor/pkg"), None);
    assert_eq!(dx::registry::maven_latest(None), None);
}

#[test]
fn resolver_garbage_body_reads_as_absent() {
    let garbage = "not json at all".to_string();
    assert_eq!(dx::registry::npm_latest(Some(&garbage)), None);
    assert_eq!(dx::registry::crates_latest(Some(&garbage)), None);
    assert_eq!(dx::registry::pypi_latest(Some(&garbage)), None);
    assert_eq!(dx::registry::maven_latest(Some(&garbage)), None);
}

#[test]
fn resolver_reads_version_fields() {
    let npm = "{\"version\": \"1.2.3\"}".to_string();
    assert_eq!(dx::registry::npm_latest(Some(&npm)), Some("1.2.3".to_string()));
    let crates = "{\"crate\": {\"max_stable_version\": \"0.9.1\"}}".to_string();
    assert_eq!(dx::registry::crates_latest(Some(&crates)), Some("0.9.1".to_string()));
    let pypi = "{\"info\": {\"version\": \"2.0\"}}".to_string();
    assert_eq!(dx::registry::pypi_latest(Some(&pypi)), Some("2.0".to_string()));
    let golang = "{\"Version\": \"v1.9.1\"}".to_string();
    assert_eq!(dx::registry::go_latest(Some(&golang)), Some("v1.9.1".to_string()));
    let gems = "{\"version\": \"7.0.4\"}".to_string();
    assert_eq!(dx::registry::rubygems_latest(Some(&gems)), Some("7.0.4".to_string()));
}

#[test]
fn packagist_strips_leading_version_marker() {
    let body = "{\"packages\": {\"vendor/pkg\": [{\"version\": \"v3.2.1\"}]}}".to_string();
    assert_eq!(
        dx::registry::packagist_latest(Some(&body), "vendor/pkg"),
        Some("3.2.1".to_string())
    );
}

#[test]
fn maven_prefers_release_then_latest() {
    let both = "<metadata><latest>9.9</latest><release>1.0</release></metadata>".to_string();
    assert_eq!(dx::registry::maven_latest(Some(&both)), Some("1.0".to_string()));
    let only_latest = "<metadata><latest>2.0</latest></metadata>".to_string();
    assert_eq!(dx::registry::maven_latest(Some(&only_latest)), Some("2.0".to_string()));
    let neither = "<metadata></metadata>".to_string();
    assert_eq!(dx::registry::maven_latest(Some(&neither)), None);
}

#[test]
fn endpoint_templates_name_the_package() {
    assert_eq!(
        dx::registry::npm_latest_url("jest"),
        "https://registry.npmjs.org/jest/latest"
    );
    assert_eq!(
        dx::registry::crates_latest_url("serde"),
        "https://crates.io/api/v1/crates/serde"
    );
    assert_eq!(dx::registry::pypi_latest_url("flask"), "https://pypi.org/pypi/flask/json");
    assert_eq!(
        dx::registry::go_latest_url("github.com/gin-gonic/gin"),
        "https://proxy.golang.org/github.com/gin-gonic/gin/@latest"
    );
    assert_eq!(
        dx::registry::packagist_latest_url("vendor/pkg"),
        "https://repo.packagist.org/p2/vendor/pkg.json"
    );
    assert_eq!(
        dx::registry::rubygems_latest_url("rails"),
        "https://rubygems.org/api/v1/gems/rails.json"
    );
    assert_eq!(
        dx::registry::maven_metadata_url("org.springframework.boot", "spring-boot-starter-test"),
        "https://repo1.maven.org/maven2/org/springframework/boot/spring-boot-starter-test/maven-metadata.xml"
    );
}

#[test]
fn get_dependencies_joins_entries_with_latest() {
    let entries = vec![("jest".to_string(), "29.0".to_string())];
    let latests = vec![Some("29.7".to_string())];
    let infos = dx::deps::get_dependencies(Stack::Node, &entries, &latests);
    assert_eq!(infos.len(), 1);
    assert_eq!(infos[0].name, "jest");
    assert_eq!(infos[0].current_version, "29.0");
    assert_eq!(infos[0].latest_version, Some("29.7".to_string()));
    assert_eq!(infos[0].update_command, "npm install jest@latest -D");
    assert_eq!(infos[0].url, "https://www.npmjs.com/package/jest");
    assert_eq!(infos[0].link(), "[jest](https://www.npmjs.com/package/jest)");
}

#[test]
fn gather_with_latest_looks_answers_up_by_name() {
    let entries = vec![
        ("org.junit:junit".to_string(), "4.13".to_string()),
        ("g:a".to_string(), "1".to_string()),
    ];
    let resolved = vec![("org.junit:junit".to_string(), Some("4.13.2".to_string()))];
    let infos = dx::deps::gather_with_latest(Stack::Maven, &entries, &resolved);
    assert_eq!(infos.len(), 2);
    assert_eq!(infos[0].latest_version, Some("4.13.2".to_string()));
    assert_eq!(infos[1].latest_version, None);
    assert_eq!(
        infos[0].update_command,
        "mvn dependency:get -Dartifact=org.junit:junit:LATEST"
    );
    assert_eq!(infos[0].url, "https://search.maven.org/artifact/org.junit/junit");
}

#[test]
fn rust_update_command_names_the_precise_version() {
    let entries = vec![("serde".to_string(), "1.0".to_string())];
    let latests = vec![Some("1.0.200".to_string())];
    let infos = dx::deps::get_dependencies(Stack::Rust, &entries, &latests);
    assert_eq!(infos[0].update_command, "cargo update -p serde --precise 1.0.200");
    let missing = dx::deps::get_dependencies(Stack::Rust, &entries, &vec![None]);
    assert_eq!(missing[0].update_command, "cargo update -p serde --precise ");
}

#[test]
fn per_stack_pages_are_linked() {
    let entries = vec![("pytest".to_string(), "7.0".to_string())];
    let infos = dx::deps::get_dependencies(Stack::Python, &entries, &vec![None]);
    assert_eq!(infos[0].url, "https://pypi.org/project/pytest/");
    assert_eq!(infos[0].update_command, "pip install -U pytest");
    let entries = vec![("rspec-rails".to_string(), "6.0".to_string())];
    let infos = dx::deps::get_dependencies(Stack::Ruby, &entries, &vec![None]);
    assert_eq!(infos[0].url, "https://rubygems.org/gems/rspec-rails");
    assert_eq!(infos[0].update_command, "bundle update rspec-rails");
    let entries = vec![("phpunit/phpunit".to_string(), "9.5".to_string())];
    let infos = dx::deps::get_dependencies(Stack::Php, &entries, &vec![None]);
    assert_eq!(infos[0].url, "https://packagist.org/packages/phpunit/phpunit");
    let entries = vec![("g:a".to_string(), "1".to_string())];
    let infos = dx::deps::get_dependencies(Stack::Gradle, &entries, &vec![None]);
    assert_eq!(infos[0].update_command, "./gradlew --refresh-dependencies");
}
