use vstd::prelude::*;
use vstd::string::StringExecFns;

use crate::registry::replace_char;
use crate::registry::spec_replace_char;
use crate::services::DockerComposeConfig;
use crate::services::DockerService;
use crate::services::SvcView;
use crate::text::spec_starts_with;
use crate::text::starts_with;
use crate::text::string_from_chars;
use crate::text::to_chars;

verus! {

// ---------------------------------------------------------------------------
// The observability stack that `apply` merges into the dev services
// ---------------------------------------------------------------------------
/// Where the merged compose file went, and the topology written to it.
pub struct TelemetryResult {
    pub compose_path: String,
    pub config: DockerComposeConfig,
}

/// A bind-mount path: backslashes become slashes, and a relative path
/// gains a leading `./` so Compose reads it as a bind mount.
pub open spec fn spec_rel_bind(p: Seq<char>) -> Seq<char> {
    let s = spec_replace_char(p, '\\', '/');
    if spec_starts_with(s, "./"@) || spec_starts_with(s, "/"@) {
        s
    } else {
        "./"@ + s
    }
}

/// Normalize a bind-mount path for the compose file.
pub fn rel_bind(p: &str) -> (r: String)
    ensures
        r@ == spec_rel_bind(p@),
{
    let pv = to_chars(p);
    let slashed = replace_char(&pv, '\\', '/');
    let dot_slash = to_chars("./");
    let slash = to_chars("/");
    if starts_with(&slashed, &dot_slash) || starts_with(&slashed, &slash) {
        string_from_chars(&slashed)
    } else {
        let mut r = String::new();
        r.append("./");
        let ss = string_from_chars(&slashed);
        r.append(ss.as_str());
        r
    }
}

pub open spec fn spec_loki_svc() -> SvcView {
    SvcView {
        image: "grafana/loki:2.9.6"@,
        env: Seq::empty(),
        ports: seq![3100u16],
        volumes: seq!["loki-data:/loki"@],
        command: None,
    }
}

pub open spec fn spec_tempo_svc() -> SvcView {
    SvcView {
        image: "grafana/tempo:2.5.0"@,
        env: Seq::empty(),
        ports: seq![3200u16],
        volumes: seq![
            spec_rel_bind("telemetry/tempo/tempo.yaml"@) + ":/etc/tempo.yaml"@,
            "tempo-data:/var/tempo"@,
        ],
        command: Some("-config.file=/etc/tempo.yaml"@),
    }
}

pub open spec fn spec_prometheus_svc() -> SvcView {
    SvcView {
        image: "prom/prometheus:latest"@,
        env: Seq::empty(),
        ports: seq![9090u16],
        volumes: seq![
            spec_rel_bind("telemetry/prometheus/prometheus.yml"@) + ":/etc/prometheus/prometheus.yml"@,
            "prom-data:/prometheus"@,
        ],
        command: None,
    }
}

pub open spec fn spec_grafana_svc() -> SvcView {
    SvcView {
        image: "grafana/grafana:latest"@,
        env: seq![
            ("GF_AUTH_ANONYMOUS_ENABLED"@, "true"@),
            ("GF_AUTH_ANONYMOUS_ORG_ROLE"@, "Admin"@),
        ],
        ports: seq![3000u16],
        volumes: seq![
            spec_rel_bind("telemetry/grafana/provisioning/datasources"@)
                + ":/etc/grafana/provisioning/datasources"@,
            spec_rel_bind("telemetry/grafana/provisioning/dashboards"@)
                + ":/etc/grafana/provisioning/dashboards"@,
            spec_rel_bind("telemetry/grafana/dashboards"@) + ":/var/lib/grafana/dashboards"@,
            "grafana-storage:/var/lib/grafana"@,
        ],
        command: None,
    }
}

pub open spec fn spec_otel_svc() -> SvcView {
    SvcView {
        image: "otel/opentelemetry-collector-contrib:latest"@,
        env: Seq::empty(),
        ports: seq![4317u16, 4318u16, 8889u16],
        volumes: seq![
            spec_rel_bind("telemetry/otel-collector-config.yaml"@)
                + ":/etc/otel-collector-config.yaml"@,
        ],
        command: Some("--config=/etc/otel-collector-config.yaml"@),
    }
}

/// The five observability services, in the order they are registered.
pub open spec fn spec_telemetry_services() -> Seq<(Seq<char>, SvcView)> {
    seq![
        ("loki"@, spec_loki_svc()),
        ("tempo"@, spec_tempo_svc()),
        ("prometheus"@, spec_prometheus_svc()),
        ("grafana"@, spec_grafana_svc()),
        ("otel-collector"@, spec_otel_svc()),
    ]
}

/// The compose topology of the observability stack: Loki, Tempo,
/// Prometheus, Grafana and the OpenTelemetry collector, with their
/// config files bound in from the telemetry directory.
pub fn build_telemetry_compose() -> (r: DockerComposeConfig)
    ensures
        r@.version == "3.8"@,
        r@.services =~~= spec_telemetry_services(),
{
    let mut services: Vec<(String, DockerService)> = Vec::new();
    let loki_vols: Vec<String> = vec!["loki-data:/loki".to_owned()];
    services.push(
        (
            "loki".to_owned(),
            DockerService {
                image: "grafana/loki:2.9.6".to_owned(),
                env: Vec::new(),
                ports: vec![3100],
                volumes: loki_vols,
                command: None,
            },
        ),
    );
    let mut tempo_vols: Vec<String> = Vec::new();
    let mut tempo_bind = rel_bind("telemetry/tempo/tempo.yaml");
    tempo_bind.append(":/etc/tempo.yaml");
    tempo_vols.push(tempo_bind);
    tempo_vols.push("tempo-data:/var/tempo".to_owned());
    proof {
        assert(tempo_vols.deep_view() =~~= spec_tempo_svc().volumes);
    }
    services.push(
        (
            "tempo".to_owned(),
            DockerService {
                image: "grafana/tempo:2.5.0".to_owned(),
                env: Vec::new(),
                ports: vec![3200],
                volumes: tempo_vols,
                command: Some("-config.file=/etc/tempo.yaml".to_owned()),
            },
        ),
    );
    let mut prom_vols: Vec<String> = Vec::new();
    let mut prom_bind = rel_bind("telemetry/prometheus/prometheus.yml");
    prom_bind.append(":/etc/prometheus/prometheus.yml");
    prom_vols.push(prom_bind);
    prom_vols.push("prom-data:/prometheus".to_owned());
    proof {
        assert(prom_vols.deep_view() =~~= spec_prometheus_svc().volumes);
    }
    services.push(
        (
            "prometheus".to_owned(),
            DockerService {
                image: "prom/prometheus:latest".to_owned(),
                env: Vec::new(),
                ports: vec![9090],
                volumes: prom_vols,
                command: None,
            },
        ),
    );
    let grafana_env: Vec<(String, String)> = vec![
        ("GF_AUTH_ANONYMOUS_ENABLED".to_owned(), "true".to_owned()),
        ("GF_AUTH_ANONYMOUS_ORG_ROLE".to_owned(), "Admin".to_owned()),
    ];
    let mut grafana_vols: Vec<String> = Vec::new();
    let mut g1 = rel_bind("telemetry/grafana/provisioning/datasources");
    g1.append(":/etc/grafana/provisioning/datasources");
    grafana_vols.push(g1);
    let mut g2 = rel_bind("telemetry/grafana/provisioning/dashboards");
    g2.append(":/etc/grafana/provisioning/dashboards");
    grafana_vols.push(g2);
    let mut g3 = rel_bind("telemetry/grafana/dashboards");
    g3.append(":/var/lib/grafana/dashboards");
    grafana_vols.push(g3);
    grafana_vols.push("grafana-storage:/var/lib/grafana".to_owned());
    proof {
        assert(grafana_vols.deep_view() =~~= spec_grafana_svc().volumes);
    }
    services.push(
        (
            "grafana".to_owned(),
            DockerService {
                image: "grafana/grafana:latest".to_owned(),
                env: grafana_env,
                ports: vec![3000],
                volumes: grafana_vols,
                command: None,
            },
        ),
    );
    let mut otel_vols: Vec<String> = Vec::new();
    let mut o1 = rel_bind("telemetry/otel-collector-config.yaml");
    o1.append(":/etc/otel-collector-config.yaml");
    otel_vols.push(o1);
    proof {
        assert(otel_vols.deep_view() =~~= spec_otel_svc().volumes);
    }
    services.push(
        (
            "otel-collector".to_owned(),
            DockerService {
                image: "otel/opentelemetry-collector-contrib:latest".to_owned(),
                env: Vec::new(),
                ports: vec![4317, 4318, 8889],
                volumes: otel_vols,
                command: Some("--config=/etc/otel-collector-config.yaml".to_owned()),
            },
        ),
    );
    let config = DockerComposeConfig { version: "3.8".to_owned(), services };
    proof {
        assert(config@.services =~~= spec_telemetry_services());
    }
    config
}

// ---------------------------------------------------------------------------
// The configuration documents written next to the compose file
// ---------------------------------------------------------------------------
/// Grafana datasource provisioning: Prometheus, Loki and Tempo.
pub fn grafana_datasources_yaml() -> (r: String)
    ensures
        r@ == "apiVersion: 1\ndatasources:\n  - name: Prometheus\n    type: prometheus\n    access: proxy\n    url: http://prometheus:9090\n    isDefault: true\n  - name: Loki\n    type: loki\n    access: proxy\n    url: http://loki:3100\n  - name: Tempo\n    type: tempo\n    access: proxy\n    url: http://tempo:3200\n"@,
{
    "apiVersion: 1\ndatasources:\n  - name: Prometheus\n    type: prometheus\n    access: proxy\n    url: http://prometheus:9090\n    isDefault: true\n  - name: Loki\n    type: loki\n    access: proxy\n    url: http://loki:3100\n  - name: Tempo\n    type: tempo\n    access: proxy\n    url: http://tempo:3200\n".to_owned()
}

/// Grafana dashboard provisioning: one file provider over the mounted
/// dashboards directory.
pub fn grafana_dashboards_yaml() -> (r: String)
    ensures
        r@ == "apiVersion: 1\nproviders:\n  - name: 'Default'\n    orgId: 1\n    folder: ''\n    type: file\n    disableDeletion: false\n    editable: true\n    updateIntervalSeconds: 30\n    options:\n      path: /var/lib/grafana/dashboards\n"@,
{
    "apiVersion: 1\nproviders:\n  - name: 'Default'\n    orgId: 1\n    folder: ''\n    type: file\n    disableDeletion: false\n    editable: true\n    updateIntervalSeconds: 30\n    options:\n      path: /var/lib/grafana/dashboards\n".to_owned()
}

/// Prometheus scrape configuration over the collector's metrics port.
pub fn prometheus_config_yaml() -> (r: String)
    ensures
        r@ == "global:\n  scrape_interval: 30s\nscrape_configs:\n  - job_name: 'otel-collector'\n    static_configs:\n      - targets: ['otel-collector:8889']\n"@,
{
    "global:\n  scrape_interval: 30s\nscrape_configs:\n  - job_name: 'otel-collector'\n    static_configs:\n      - targets: ['otel-collector:8889']\n".to_owned()
}

/// Tempo single-binary configuration with local storage.
pub fn tempo_config_yaml() -> (r: String)
    ensures
        r@ == "server:\n  http_listen_port: 3200\ncompactor:\n  compaction:\n    block_retention: 24h\ndistributor:\n  receivers:\n    otlp:\n      protocols:\n        http:\n          endpoint: 0.0.0.0:4318\n        grpc:\n          endpoint: 0.0.0.0:4317\ningester:\n  lifecycler:\n    address: 127.0.0.1\n    ring:\n      kvstore:\n        store: inmemory\n      replication_factor: 1\n  trace_idle_period: 10s\n  max_block_bytes: 1048576\n  max_block_duration: 10m\nstorage:\n  trace:\n    backend: local\n    local:\n      path: /var/tempo/traces\n    wal:\n      path: /var/tempo/wal\n"@,
{
    "server:\n  http_listen_port: 3200\ncompactor:\n  compaction:\n    block_retention: 24h\ndistributor:\n  receivers:\n    otlp:\n      protocols:\n        http:\n          endpoint: 0.0.0.0:4318\n        grpc:\n          endpoint: 0.0.0.0:4317\ningester:\n  lifecycler:\n    address: 127.0.0.1\n    ring:\n      kvstore:\n        store: inmemory\n      replication_factor: 1\n  trace_idle_period: 10s\n  max_block_bytes: 1048576\n  max_block_duration: 10m\nstorage:\n  trace:\n    backend: local\n    local:\n      path: /var/tempo/traces\n    wal:\n      path: /var/tempo/wal\n".to_owned()
}

/// OpenTelemetry collector pipelines: OTLP in, Prometheus, Loki and
/// Tempo out.
pub fn otel_collector_config_yaml() -> (r: String)
    ensures
        r@ == "receivers:\n  otlp:\n    protocols:\n      grpc:\n        endpoint: 0.0.0.0:4317\n      http:\n        endpoint: 0.0.0.0:4318\nexporters:\n  prometheus:\n    endpoint: 0.0.0.0:8889\n  otlphttp/loki:\n    endpoint: http://loki:3100/otlp\n  otlp/tempo:\n    endpoint: tempo:4317\n    tls:\n      insecure: true\nprocessors:\n  batch: {}\n  memory_limiter:\n    check_interval: 1s\n    limit_mib: 200\n    spike_limit_mib: 100\nservice:\n  pipelines:\n    metrics:\n      receivers: [otlp]\n      processors: [memory_limiter, batch]\n      exporters: [prometheus]\n    logs:\n      receivers: [otlp]\n      processors: [memory_limiter, batch]\n      exporters: [otlphttp/loki]\n    traces:\n      receivers: [otlp]\n      processors: [memory_limiter, batch]\n      exporters: [otlp/tempo]\n"@,
{
    "receivers:\n  otlp:\n    protocols:\n      grpc:\n        endpoint: 0.0.0.0:4317\n      http:\n        endpoint: 0.0.0.0:4318\nexporters:\n  prometheus:\n    endpoint: 0.0.0.0:8889\n  otlphttp/loki:\n    endpoint: http://loki:3100/otlp\n  otlp/tempo:\n    endpoint: tempo:4317\n    tls:\n      insecure: true\nprocessors:\n  batch: {}\n  memory_limiter:\n    check_interval: 1s\n    limit_mib: 200\n    spike_limit_mib: 100\nservice:\n  pipelines:\n    metrics:\n      receivers: [otlp]\n      processors: [memory_limiter, batch]\n      exporters: [prometheus]\n    logs:\n      receivers: [otlp]\n      processors: [memory_limiter, batch]\n      exporters: [otlphttp/loki]\n    traces:\n      receivers: [otlp]\n      processors: [memory_limiter, batch]\n      exporters: [otlp/tempo]\n".to_owned()
}

// ---------------------------------------------------------------------------
// Which dashboard to seed
// ---------------------------------------------------------------------------
/// The marker files the language heuristic looks at.
#[derive(Clone, Copy, Debug, PartialEq, Eq, Structural)]
pub struct LanguageMarkers {
    pub cargo_toml: bool,
    pub package_json: bool,
    pub next_config_js: bool,
    pub next_config_ts: bool,
    pub nuxt_config_js: bool,
    pub nest_cli_json: bool,
    pub pyproject_toml: bool,
    pub requirements_txt: bool,
    pub manage_py: bool,
    pub pom_xml: bool,
    pub build_gradle: bool,
    pub gemfile: bool,
    pub go_mod: bool,
    pub composer_json: bool,
}

/// The language and, for some stacks, the framework the markers suggest.
pub open spec fn spec_language_and_framework(m: LanguageMarkers) -> (Seq<char>, Option<Seq<char>>) {
    if m.cargo_toml {
        ("Rust"@, None)
    } else if m.package_json {
        if m.next_config_js || m.next_config_ts {
            ("JavaScript"@, Some("Next.js"@))
        } else if m.nuxt_config_js {
            ("JavaScript"@, Some("Nuxt"@))
        } else if m.nest_cli_json {
            ("JavaScript"@, Some("NestJS"@))
        } else {
            ("JavaScript"@, Some("Node.js"@))
        }
    } else if m.pyproject_toml || m.requirements_txt {
        if m.manage_py {
            ("Python"@, Some("Django"@))
        } else {
            ("Python"@, None)
        }
    } else if m.pom_xml || m.build_gradle {
        ("Java"@, None)
    } else if m.gemfile {
        ("Ruby"@, None)
    } else if m.go_mod {
        ("Go"@, None)
    } else if m.composer_json {
        ("PHP"@, None)
    } else {
        ("General"@, None)
    }
}

/// Decide the language and framework from the marker files found.
pub fn detect_language_and_framework(m: &LanguageMarkers) -> (r: (String, Option<String>))
    ensures
        r.0@ == spec_language_and_framework(*m).0,
        r.1.deep_view() == spec_language_and_framework(*m).1,
{
    if m.cargo_toml {
        ("Rust".to_owned(), None)
    } else if m.package_json {
        if m.next_config_js || m.next_config_ts {
            ("JavaScript".to_owned(), Some("Next.js".to_owned()))
        } else if m.nuxt_config_js {
            ("JavaScript".to_owned(), Some("Nuxt".to_owned()))
        } else if m.nest_cli_json {
            ("JavaScript".to_owned(), Some("NestJS".to_owned()))
        } else {
            ("JavaScript".to_owned(), Some("Node.js".to_owned()))
        }
    } else if m.pyproject_toml || m.requirements_txt {
        if m.manage_py {
            ("Python".to_owned(), Some("Django".to_owned()))
        } else {
            ("Python".to_owned(), None)
        }
    } else if m.pom_xml || m.build_gradle {
        ("Java".to_owned(), None)
    } else if m.gemfile {
        ("Ruby".to_owned(), None)
    } else if m.go_mod {
        ("Go".to_owned(), None)
    } else if m.composer_json {
        ("PHP".to_owned(), None)
    } else {
        ("General".to_owned(), None)
    }
}

/// The dashboard title: the language, the framework in parentheses when
/// known, then the word Overview.
pub open spec fn spec_dashboard_title(language: Seq<char>, framework: Option<Seq<char>>) -> Seq<
    char,
> {
    match framework {
        Some(fw) => language + " ("@ + fw + ") Overview"@,
        None => language + " Overview"@,
    }
}

pub open spec fn dashboard_template_head() -> Seq<char> {
    "{\n  \"annotations\": {\n    \"list\": [{\n      \"builtIn\": 1,\n      \"datasource\": \"-- Grafana --\",\n      \"type\": \"dashboard\"\n    }]\n  },\n  \"editable\": true,\n  \"fiscalYearStartMonth\": 0,\n  \"graphTooltip\": 0,\n  \"panels\": [\n    {\n      \"type\": \"timeseries\",\n      \"title\": \"CPU (sample)\",\n      \"datasource\": \"Prometheus\",\n      \"targets\": [{\"expr\": \"process_cpu_seconds_total\"}],\n      \"gridPos\": {\"h\": 8, \"w\": 12, \"x\": 0, \"y\": 0}\n    },\n    {\n      \"type\": \"logs\",\n      \"title\": \"Recent Logs\",\n      \"datasource\": \"Loki\",\n      \"targets\": [{\"expr\": \"{job=~\\\".*\\\"}\"}],\n      \"gridPos\": {\"h\": 8, \"w\": 24, \"x\": 0, \"y\": 8}\n    }\n  ],\n  \"schemaVersion\": 39,\n  \"title\": \""@
}

pub open spec fn dashboard_template_tail() -> Seq<char> {
    "\",\n  \"version\": 1\n}"@
}

/// A minimal Grafana dashboard document titled for the detected stack.
pub fn simple_dashboard_json(language: &str, framework: Option<&str>) -> (r: String)
    ensures
        r@ == dashboard_template_head() + spec_dashboard_title(
            language@,
            match framework {
                Some(fw) => Some(fw@),
                None => None,
            },
        ) + dashboard_template_tail(),
{
    let mut r = String::new();
    r.append(
        "{\n  \"annotations\": {\n    \"list\": [{\n      \"builtIn\": 1,\n      \"datasource\": \"-- Grafana --\",\n      \"type\": \"dashboard\"\n    }]\n  },\n  \"editable\": true,\n  \"fiscalYearStartMonth\": 0,\n  \"graphTooltip\": 0,\n  \"panels\": [\n    {\n      \"type\": \"timeseries\",\n      \"title\": \"CPU (sample)\",\n      \"datasource\": \"Prometheus\",\n      \"targets\": [{\"expr\": \"process_cpu_seconds_total\"}],\n      \"gridPos\": {\"h\": 8, \"w\": 12, \"x\": 0, \"y\": 0}\n    },\n    {\n      \"type\": \"logs\",\n      \"title\": \"Recent Logs\",\n      \"datasource\": \"Loki\",\n      \"targets\": [{\"expr\": \"{job=~\\\".*\\\"}\"}],\n      \"gridPos\": {\"h\": 8, \"w\": 24, \"x\": 0, \"y\": 8}\n    }\n  ],\n  \"schemaVersion\": 39,\n  \"title\": \"",
    );
    r.append(language);
    match framework {
        Some(fw) => {
            r.append(" (");
            r.append(fw);
            r.append(") Overview");
        },
        None => {
            r.append(" Overview");
        },
    }
    r.append("\",\n  \"version\": 1\n}");
    r
}

} // verus!
