use vstd::prelude::*;
use vstd::pervasive::VecAdditionalExecFns;

use crate::text::chars_eq;
use crate::text::contains_sub;
use crate::text::lower_of;
use crate::text::lowercase;
use crate::text::spec_contains;
use crate::text::to_chars;

verus! {

// ---------------------------------------------------------------------------
// The service topology that the dependency scan proposes
// ---------------------------------------------------------------------------
/// One service of the proposed Docker Compose topology.
pub struct DockerService {
    pub image: String,
    pub env: Vec<(String, String)>,
    pub ports: Vec<u16>,
    pub volumes: Vec<String>,
    pub command: Option<String>,
}

/// The mathematical shadow of a service.
#[verifier::ext_equal]
pub struct SvcView {
    pub image: Seq<char>,
    pub env: Seq<(Seq<char>, Seq<char>)>,
    pub ports: Seq<u16>,
    pub volumes: Seq<Seq<char>>,
    pub command: Option<Seq<char>>,
}

impl View for DockerService {
    type V = SvcView;

    open spec fn view(&self) -> SvcView {
        SvcView {
            image: self.image@,
            env: self.env.deep_view(),
            ports: self.ports@,
            volumes: self.volumes.deep_view(),
            command: self.command.deep_view(),
        }
    }
}

/// The whole proposed topology: a compose version and the named services,
/// in the order they were added.
pub struct DockerComposeConfig {
    pub version: String,
    pub services: Vec<(String, DockerService)>,
}

/// The mathematical shadow of a topology.
#[verifier::ext_equal]
pub struct CfgView {
    pub version: Seq<char>,
    pub services: Seq<(Seq<char>, SvcView)>,
}

impl View for DockerComposeConfig {
    type V = CfgView;

    open spec fn view(&self) -> CfgView {
        CfgView {
            version: self.version@,
            services: Seq::new(
                self.services@.len(),
                |i: int| (self.services@[i].0@, self.services@[i].1@),
            ),
        }
    }
}

/// Index of the first service of that name, or the length if absent.
pub open spec fn find_name(s: Seq<(Seq<char>, SvcView)>, n: Seq<char>) -> int
    decreases s.len(),
{
    if s.len() == 0 {
        0
    } else if s[0].0 == n {
        0
    } else {
        1 + find_name(s.drop_first(), n)
    }
}

pub proof fn lemma_find_name_bounds(s: Seq<(Seq<char>, SvcView)>, n: Seq<char>)
    ensures
        0 <= find_name(s, n) <= s.len(),
        find_name(s, n) < s.len() ==> s[find_name(s, n)].0 == n,
        forall|k: int| 0 <= k < find_name(s, n) ==> s[k].0 != n,
    decreases s.len(),
{
    if s.len() > 0 && s[0].0 != n {
        lemma_find_name_bounds(s.drop_first(), n);
        assert forall|k: int| 0 <= k < find_name(s, n) implies s[k].0 != n by {
            if k > 0 {
                assert(s.drop_first()[k - 1].0 != n);
            }
        }
    }
}

impl DockerComposeConfig {
    /// An empty topology at the fixed compose version.
    pub fn new() -> (r: DockerComposeConfig)
        ensures
            r@.version == "3.8"@,
            r@.services =~= Seq::<(Seq<char>, SvcView)>::empty(),
    {
        let r = DockerComposeConfig { version: "3.8".to_owned(), services: Vec::new() };
        proof {
            assert(r@.services =~= Seq::<(Seq<char>, SvcView)>::empty());
        }
        r
    }

    /// Register a service under a name; a service already registered
    /// under that name is replaced in place.
    pub fn add_service(&mut self, name: &str, service: DockerService)
        ensures
            final(self)@.version == old(self)@.version,
            ({
                let j = find_name(old(self)@.services, name@);
                if j < old(self)@.services.len() {
                    final(self)@.services =~= old(self)@.services.update(j, (name@, service@))
                } else {
                    final(self)@.services =~= old(self)@.services.push((name@, service@))
                }
            }),
    {
        let ghost whole = self@.services;
        let nv = to_chars(name);
        proof {
            assert(whole.skip(0) =~= whole);
        }
        let mut i: usize = 0;
        loop
            invariant
                i <= self.services@.len(),
                self@ == old(self)@,
                nv@ == name@,
                whole == self@.services,
                find_name(whole, name@) == i + find_name(whole.skip(i as int), name@),
                forall|k: int| 0 <= k < i ==> whole[k].0 != name@,
            decreases self.services@.len() - i,
        {
            let ghost rest = whole.skip(i as int);
            if i == self.services.len() {
                assert(rest.len() == 0);
                assert(find_name(whole, name@) == i);
                self.services.push((name.to_owned(), service));
                proof {
                    assert(self@.services =~= whole.push((name@, service@)));
                }
                return ;
            }
            assert(rest[0] == whole[i as int]);
            let ec = to_chars(self.services[i].0.as_str());
            if chars_eq(&nv, &ec) {
                assert(find_name(whole, name@) == i);
                self.services.set(i, (name.to_owned(), service));
                proof {
                    assert(self@.services =~= whole.update(i as int, (name@, service@)));
                }
                return ;
            }
            proof {
                assert(rest.drop_first() =~= whole.skip(i + 1));
            }
            i = i + 1;
        }
    }
}

// ---------------------------------------------------------------------------
// The keyword scan over project file contents
// ---------------------------------------------------------------------------
/// Some keyword of the list occurs, case-insensitively, in the content.
pub open spec fn any_keyword_in(content: Seq<char>, kws: Seq<Seq<char>>) -> bool {
    exists|k: int|
        0 <= k < kws.len() && spec_contains(lower_of(content), lower_of(#[trigger] kws[k]))
}

/// Some file content matches some keyword.
pub open spec fn any_file_matches(contents: Seq<Seq<char>>, kws: Seq<Seq<char>>) -> bool {
    exists|i: int| 0 <= i < contents.len() && any_keyword_in(#[trigger] contents[i], kws)
}

/// Does the content hold any of the keywords, ignoring case?
pub fn content_has_keyword(content: &str, keywords: &Vec<String>) -> (r: bool)
    ensures
        r == any_keyword_in(content@, keywords.deep_view()),
{
    let low = lowercase(content);
    let lowv = to_chars(low.as_str());
    let ghost kws = keywords.deep_view();
    let mut k: usize = 0;
    while k < keywords.len()
        invariant
            k <= keywords@.len(),
            kws == keywords.deep_view(),
            lowv@ == lower_of(content@),
            forall|m: int|
                0 <= m < k ==> !spec_contains(lower_of(content@), lower_of(#[trigger] kws[m])),
        decreases keywords@.len() - k,
    {
        assert(kws[k as int] == keywords@[k as int]@);
        let kl = lowercase(keywords[k].as_str());
        let klv = to_chars(kl.as_str());
        if contains_sub(&lowv, &klv) {
            return true;
        }
        k = k + 1;
    }
    false
}

/// Does any of the file contents hold any of the keywords, ignoring case?
pub fn search_for_dependency(contents: &Vec<String>, keywords: &Vec<String>) -> (r: bool)
    ensures
        r == any_file_matches(contents.deep_view(), keywords.deep_view()),
{
    let ghost cs = contents.deep_view();
    let mut i: usize = 0;
    while i < contents.len()
        invariant
            i <= contents@.len(),
            cs == contents.deep_view(),
            forall|m: int| 0 <= m < i ==> !any_keyword_in(#[trigger] cs[m], keywords.deep_view()),
        decreases contents@.len() - i,
    {
        assert(cs[i as int] == contents@[i as int]@);
        if content_has_keyword(contents[i].as_str(), keywords) {
            return true;
        }
        i = i + 1;
    }
    false
}

pub open spec fn postgres_keywords() -> Seq<Seq<char>> {
    seq!["postgres"@, "pg"@, "postgresql"@, "psycopg"@, "POSTGRES_URL"@, "DATABASE_URL"@]
}

pub open spec fn mysql_keywords() -> Seq<Seq<char>> {
    seq!["mysql"@, "mariadb"@, "innodb"@, "MYSQL_"@, "DB_CONNECTION=mysql"@]
}

pub open spec fn kafka_keywords() -> Seq<Seq<char>> {
    seq!["kafka"@, "KAFKA_BROKERS"@, "kafka-go"@, "spring-kafka"@]
}

pub open spec fn redis_keywords() -> Seq<Seq<char>> {
    seq!["redis"@, "REDIS_URL"@, "REDIS_HOST"@, "redis-client"@, "predis"@]
}

pub open spec fn mongodb_keywords() -> Seq<Seq<char>> {
    seq!["mongodb"@, "mongo"@, "MONGO_URI"@, "mongoose"@, "mongo-driver"@]
}

pub open spec fn flink_keywords() -> Seq<Seq<char>> {
    seq![
        "flink"@,
        "org.apache.flink"@,
        "flink-connector"@,
        "StreamExecutionEnvironment"@,
        "DataStream"@,
    ]
}

fn postgres_keyword_list() -> (r: Vec<String>)
    ensures
        r.deep_view() =~~= postgres_keywords(),
{
    let r: Vec<String> = vec![
        "postgres".to_owned(),
        "pg".to_owned(),
        "postgresql".to_owned(),
        "psycopg".to_owned(),
        "POSTGRES_URL".to_owned(),
        "DATABASE_URL".to_owned(),
    ];
    r
}

fn mysql_keyword_list() -> (r: Vec<String>)
    ensures
        r.deep_view() =~~= mysql_keywords(),
{
    let r: Vec<String> = vec![
        "mysql".to_owned(),
        "mariadb".to_owned(),
        "innodb".to_owned(),
        "MYSQL_".to_owned(),
        "DB_CONNECTION=mysql".to_owned(),
    ];
    r
}

fn kafka_keyword_list() -> (r: Vec<String>)
    ensures
        r.deep_view() =~~= kafka_keywords(),
{
    let r: Vec<String> = vec![
        "kafka".to_owned(),
        "KAFKA_BROKERS".to_owned(),
        "kafka-go".to_owned(),
        "spring-kafka".to_owned(),
    ];
    r
}

fn redis_keyword_list() -> (r: Vec<String>)
    ensures
        r.deep_view() =~~= redis_keywords(),
{
    let r: Vec<String> = vec![
        "redis".to_owned(),
        "REDIS_URL".to_owned(),
        "REDIS_HOST".to_owned(),
        "redis-client".to_owned(),
        "predis".to_owned(),
    ];
    r
}

fn mongodb_keyword_list() -> (r: Vec<String>)
    ensures
        r.deep_view() =~~= mongodb_keywords(),
{
    let r: Vec<String> = vec![
        "mongodb".to_owned(),
        "mongo".to_owned(),
        "MONGO_URI".to_owned(),
        "mongoose".to_owned(),
        "mongo-driver".to_owned(),
    ];
    r
}

fn flink_keyword_list() -> (r: Vec<String>)
    ensures
        r.deep_view() =~~= flink_keywords(),
{
    let r: Vec<String> = vec![
        "flink".to_owned(),
        "org.apache.flink".to_owned(),
        "flink-connector".to_owned(),
        "StreamExecutionEnvironment".to_owned(),
        "DataStream".to_owned(),
    ];
    r
}

pub fn has_postgres_dependency(contents: &Vec<String>) -> (r: bool)
    ensures
        r == any_file_matches(contents.deep_view(), postgres_keywords()),
{
    search_for_dependency(contents, &postgres_keyword_list())
}

pub fn has_mysql_dependency(contents: &Vec<String>) -> (r: bool)
    ensures
        r == any_file_matches(contents.deep_view(), mysql_keywords()),
{
    search_for_dependency(contents, &mysql_keyword_list())
}

pub fn has_kafka_dependency(contents: &Vec<String>) -> (r: bool)
    ensures
        r == any_file_matches(contents.deep_view(), kafka_keywords()),
{
    search_for_dependency(contents, &kafka_keyword_list())
}

pub fn has_redis_dependency(contents: &Vec<String>) -> (r: bool)
    ensures
        r == any_file_matches(contents.deep_view(), redis_keywords()),
{
    search_for_dependency(contents, &redis_keyword_list())
}

pub fn has_mongodb_dependency(contents: &Vec<String>) -> (r: bool)
    ensures
        r == any_file_matches(contents.deep_view(), mongodb_keywords()),
{
    search_for_dependency(contents, &mongodb_keyword_list())
}

pub fn has_flink_dependency(contents: &Vec<String>) -> (r: bool)
    ensures
        r == any_file_matches(contents.deep_view(), flink_keywords()),
{
    search_for_dependency(contents, &flink_keyword_list())
}

// ---------------------------------------------------------------------------
// The candidate files and directories of the scan
// ---------------------------------------------------------------------------
pub open spec fn config_file_names() -> Seq<Seq<char>> {
    seq![
        ".env"@,
        "Cargo.toml"@,
        "package.json"@,
        "requirements.txt"@,
        "setup.py"@,
        "pyproject.toml"@,
        "pom.xml"@,
        "build.gradle"@,
        "Gemfile"@,
        "go.mod"@,
        "composer.json"@,
        "src/main/resources/application.properties"@,
        "src/main/resources/application.yml"@,
        "config/database.yml"@,
        "settings.py"@,
        "config/settings.py"@,
        "app/settings.py"@,
    ]
}

/// The relative paths of the well-known configuration files the scan
/// checks first, in scan order.
pub fn config_file_candidates() -> (r: Vec<String>)
    ensures
        r.deep_view() =~~= config_file_names(),
{
    let r: Vec<String> = vec![
        ".env".to_owned(),
        "Cargo.toml".to_owned(),
        "package.json".to_owned(),
        "requirements.txt".to_owned(),
        "setup.py".to_owned(),
        "pyproject.toml".to_owned(),
        "pom.xml".to_owned(),
        "build.gradle".to_owned(),
        "Gemfile".to_owned(),
        "go.mod".to_owned(),
        "composer.json".to_owned(),
        "src/main/resources/application.properties".to_owned(),
        "src/main/resources/application.yml".to_owned(),
        "config/database.yml".to_owned(),
        "settings.py".to_owned(),
        "config/settings.py".to_owned(),
        "app/settings.py".to_owned(),
    ];
    r
}

pub open spec fn skip_dir_names() -> Seq<Seq<char>> {
    seq![
        "node_modules"@,
        "target"@,
        "build"@,
        "dist"@,
        "vendor"@,
        ".git"@,
        ".github"@,
        ".idea"@,
        ".vscode"@,
    ]
}

/// Is this a directory name the recursive scan leaves out?
pub fn should_skip_dir(name: &str) -> (r: bool)
    ensures
        r == skip_dir_names().contains(name@),
{
    let nv = to_chars(name);
    let names: Vec<&str> = vec![
        "node_modules",
        "target",
        "build",
        "dist",
        "vendor",
        ".git",
        ".github",
        ".idea",
        ".vscode",
    ];
    let ghost ns = skip_dir_names();
    proof {
        assert(names@.len() == ns.len());
        assert forall|m: int| 0 <= m < names@.len() implies names@[m]@ == ns[m] by {}
    }
    let mut k: usize = 0;
    while k < names.len()
        invariant
            k <= names@.len(),
            nv@ == name@,
            ns == skip_dir_names(),
            names@.len() == ns.len(),
            forall|m: int| 0 <= m < names@.len() ==> (#[trigger] names@[m])@ == ns[m],
            forall|m: int| 0 <= m < k ==> ns[m] != name@,
        decreases names@.len() - k,
    {
        let kv = to_chars(names[k]);
        if chars_eq(&nv, &kv) {
            proof {
                assert(names@[k as int]@ == ns[k as int]);
                assert(ns[k as int] == name@);
                assert(ns.contains(name@));
            }
            return true;
        }
        k = k + 1;
    }
    proof {
        assert(!ns.contains(name@)) by {
            if ns.contains(name@) {
                let w = choose|m: int| 0 <= m < ns.len() && ns[m] == name@;
                assert(ns[w] != name@);
            }
        }
    }
    false
}

pub open spec fn scan_extension_list() -> Seq<Seq<char>> {
    seq![
        ".rs"@,
        ".js"@,
        ".jsx"@,
        ".ts"@,
        ".tsx"@,
        ".py"@,
        ".java"@,
        ".kt"@,
        ".rb"@,
        ".go"@,
        ".php"@,
        ".yml"@,
        ".yaml"@,
        ".json"@,
        ".xml"@,
        ".toml"@,
        ".ini"@,
        ".conf"@,
        ".cfg"@,
    ]
}

/// Does a listed extension string end with this file extension?  The
/// test mirrors the scan: a suffix match against the dotted list.
pub fn is_scan_extension(ext: &str) -> (r: bool)
    ensures
        r == exists|m: int|
            0 <= m < scan_extension_list().len() && crate::text::spec_ends_with(
                #[trigger] scan_extension_list()[m],
                ext@,
            ),
{
    let extv = to_chars(ext);
    let entries: Vec<&str> = vec![
        ".rs",
        ".js",
        ".jsx",
        ".ts",
        ".tsx",
        ".py",
        ".java",
        ".kt",
        ".rb",
        ".go",
        ".php",
        ".yml",
        ".yaml",
        ".json",
        ".xml",
        ".toml",
        ".ini",
        ".conf",
        ".cfg",
    ];
    let ghost es = scan_extension_list();
    proof {
        assert(entries@.len() == es.len());
        assert forall|m: int| 0 <= m < entries@.len() implies entries@[m]@ == es[m] by {}
    }
    let mut k: usize = 0;
    while k < entries.len()
        invariant
            k <= entries@.len(),
            extv@ == ext@,
            es == scan_extension_list(),
            entries@.len() == es.len(),
            forall|m: int| 0 <= m < entries@.len() ==> (#[trigger] entries@[m])@ == es[m],
            forall|m: int| 0 <= m < k ==> !crate::text::spec_ends_with(es[m], ext@),
        decreases entries@.len() - k,
    {
        let ev = to_chars(entries[k]);
        if crate::text::ends_with(&ev, &extv) {
            proof {
                assert(entries@[k as int]@ == es[k as int]);
                assert(crate::text::spec_ends_with(es[k as int], ext@));
            }
            return true;
        }
        k = k + 1;
    }
    false
}

// ---------------------------------------------------------------------------
// The service catalog: what each detected dependency brings in
// ---------------------------------------------------------------------------
pub open spec fn spec_postgres_svc() -> SvcView {
    SvcView {
        image: "postgres:16-alpine"@,
        env: seq![("POSTGRES_PASSWORD"@, "example"@), ("POSTGRES_DB"@, "app"@)],
        ports: seq![5432u16],
        volumes: seq!["postgres-data:/var/lib/postgresql/data"@],
        command: None,
    }
}

pub open spec fn spec_mysql_svc() -> SvcView {
    SvcView {
        image: "mariadb:11"@,
        env: seq![("MARIADB_ROOT_PASSWORD"@, "example"@), ("MARIADB_DATABASE"@, "app"@)],
        ports: seq![3306u16],
        volumes: seq!["mariadb-data:/var/lib/mysql"@],
        command: None,
    }
}

pub open spec fn redpanda_command() -> Seq<char> {
    "redpanda start --overprovisioned --smp 1 --memory 512M --reserve-memory 0M --node-id 0 --check=false --kafka-addr PLAINTEXT://0.0.0.0:9092,PLAINTEXT_HOST://0.0.0.0:29092 --advertise-kafka-addr PLAINTEXT://kafka:9092,PLAINTEXT_HOST://localhost:29092"@
}

pub open spec fn spec_kafka_svc() -> SvcView {
    SvcView {
        image: "redpandadata/redpanda:latest"@,
        env: Seq::empty(),
        ports: seq![9092u16, 29092u16],
        volumes: seq!["redpanda-data:/var/lib/redpanda/data"@],
        command: Some(redpanda_command()),
    }
}

pub open spec fn spec_kafka_ui_svc() -> SvcView {
    SvcView {
        image: "provectuslabs/kafka-ui:latest"@,
        env: seq![
            ("KAFKA_CLUSTERS_0_NAME"@, "local"@),
            ("KAFKA_CLUSTERS_0_BOOTSTRAPSERVERS"@, "kafka:9092"@),
            ("SERVER_PORT"@, "9093"@),
        ],
        ports: seq![9093u16],
        volumes: Seq::empty(),
        command: None,
    }
}

pub open spec fn spec_redis_svc() -> SvcView {
    SvcView {
        image: "redis:alpine"@,
        env: Seq::empty(),
        ports: seq![6379u16],
        volumes: seq!["redis-data:/data"@],
        command: None,
    }
}

pub open spec fn spec_mongodb_svc() -> SvcView {
    SvcView {
        image: "mongo:7.0"@,
        env: seq![("MONGO_INITDB_ROOT_USERNAME"@, "root"@), ("MONGO_INITDB_ROOT_PASSWORD"@, "example"@)],
        ports: seq![27017u16],
        volumes: seq!["mongodb-data:/data/db"@],
        command: None,
    }
}

pub open spec fn spec_jobmanager_svc() -> SvcView {
    SvcView {
        image: "apache/flink:latest"@,
        env: seq![("FLINK_PROPERTIES"@, "jobmanager.rpc.address: jobmanager"@)],
        ports: seq![8081u16],
        volumes: seq!["flink-data:/opt/flink/data"@],
        command: None,
    }
}

pub open spec fn spec_taskmanager_svc() -> SvcView {
    SvcView {
        image: "apache/flink:latest"@,
        env: seq![
            (
                "FLINK_PROPERTIES"@,
                "jobmanager.rpc.address: jobmanager\ntaskmanager.numberOfTaskSlots: 1"@,
            ),
        ],
        ports: Seq::empty(),
        volumes: seq!["flink-data:/opt/flink/data"@],
        command: None,
    }
}

/// Which backing services the keyword scan found evidence for.
#[derive(Clone, Copy, Debug, PartialEq, Eq, Structural)]
pub struct DetectedServices {
    pub postgres: bool,
    pub mysql: bool,
    pub kafka: bool,
    pub redis: bool,
    pub mongodb: bool,
    pub flink: bool,
}

/// The services proposed for the detected dependencies, in the fixed
/// order the topology lists them.
pub open spec fn spec_detected_services(f: DetectedServices) -> Seq<(Seq<char>, SvcView)> {
    (if f.postgres {
        seq![("postgres"@, spec_postgres_svc())]
    } else {
        Seq::empty()
    }) + (if f.mysql {
        seq![("mysql"@, spec_mysql_svc())]
    } else {
        Seq::empty()
    }) + (if f.kafka {
        seq![("kafka"@, spec_kafka_svc()), ("kafka-ui"@, spec_kafka_ui_svc())]
    } else {
        Seq::empty()
    }) + (if f.redis {
        seq![("redis"@, spec_redis_svc())]
    } else {
        Seq::empty()
    }) + (if f.mongodb {
        seq![("mongodb"@, spec_mongodb_svc())]
    } else {
        Seq::empty()
    }) + (if f.flink {
        seq![("jobmanager"@, spec_jobmanager_svc()), ("taskmanager"@, spec_taskmanager_svc())]
    } else {
        Seq::empty()
    })
}

fn postgres_service() -> (r: DockerService)
    ensures
        r@ =~~= spec_postgres_svc(),
{
    let env: Vec<(String, String)> = vec![
        ("POSTGRES_PASSWORD".to_owned(), "example".to_owned()),
        ("POSTGRES_DB".to_owned(), "app".to_owned()),
    ];
    let ports: Vec<u16> = vec![5432];
    let volumes: Vec<String> = vec!["postgres-data:/var/lib/postgresql/data".to_owned()];
    DockerService {
        image: "postgres:16-alpine".to_owned(),
        env,
        ports,
        volumes,
        command: None,
    }
}

fn mysql_service() -> (r: DockerService)
    ensures
        r@ =~~= spec_mysql_svc(),
{
    let env: Vec<(String, String)> = vec![
        ("MARIADB_ROOT_PASSWORD".to_owned(), "example".to_owned()),
        ("MARIADB_DATABASE".to_owned(), "app".to_owned()),
    ];
    let ports: Vec<u16> = vec![3306];
    let volumes: Vec<String> = vec!["mariadb-data:/var/lib/mysql".to_owned()];
    DockerService {
        image: "mariadb:11".to_owned(),
        env,
        ports,
        volumes,
        command: None,
    }
}

fn kafka_service() -> (r: DockerService)
    ensures
        r@ =~~= spec_kafka_svc(),
{
    let env: Vec<(String, String)> = Vec::new();
    let ports: Vec<u16> = vec![9092, 29092];
    let volumes: Vec<String> = vec!["redpanda-data:/var/lib/redpanda/data".to_owned()];
    DockerService {
        image: "redpandadata/redpanda:latest".to_owned(),
        env,
        ports,
        volumes,
        command: Some(
            "redpanda start --overprovisioned --smp 1 --memory 512M --reserve-memory 0M --node-id 0 --check=false --kafka-addr PLAINTEXT://0.0.0.0:9092,PLAINTEXT_HOST://0.0.0.0:29092 --advertise-kafka-addr PLAINTEXT://kafka:9092,PLAINTEXT_HOST://localhost:29092".to_owned(),
        ),
    }
}

fn kafka_ui_service() -> (r: DockerService)
    ensures
        r@ =~~= spec_kafka_ui_svc(),
{
    let env: Vec<(String, String)> = vec![
        ("KAFKA_CLUSTERS_0_NAME".to_owned(), "local".to_owned()),
        ("KAFKA_CLUSTERS_0_BOOTSTRAPSERVERS".to_owned(), "kafka:9092".to_owned()),
        ("SERVER_PORT".to_owned(), "9093".to_owned()),
    ];
    let ports: Vec<u16> = vec![9093];
    let volumes: Vec<String> = Vec::new();
    DockerService {
        image: "provectuslabs/kafka-ui:latest".to_owned(),
        env,
        ports,
        volumes,
        command: None,
    }
}

fn redis_service() -> (r: DockerService)
    ensures
        r@ =~~= spec_redis_svc(),
{
    let env: Vec<(String, String)> = Vec::new();
    let ports: Vec<u16> = vec![6379];
    let volumes: Vec<String> = vec!["redis-data:/data".to_owned()];
    DockerService {
        image: "redis:alpine".to_owned(),
        env,
        ports,
        volumes,
        command: None,
    }
}

fn mongodb_service() -> (r: DockerService)
    ensures
        r@ =~~= spec_mongodb_svc(),
{
    let env: Vec<(String, String)> = vec![
        ("MONGO_INITDB_ROOT_USERNAME".to_owned(), "root".to_owned()),
        ("MONGO_INITDB_ROOT_PASSWORD".to_owned(), "example".to_owned()),
    ];
    let ports: Vec<u16> = vec![27017];
    let volumes: Vec<String> = vec!["mongodb-data:/data/db".to_owned()];
    DockerService {
        image: "mongo:7.0".to_owned(),
        env,
        ports,
        volumes,
        command: None,
    }
}

fn jobmanager_service() -> (r: DockerService)
    ensures
        r@ =~~= spec_jobmanager_svc(),
{
    let env: Vec<(String, String)> = vec![
        ("FLINK_PROPERTIES".to_owned(), "jobmanager.rpc.address: jobmanager".to_owned()),
    ];
    let ports: Vec<u16> = vec![8081];
    let volumes: Vec<String> = vec!["flink-data:/opt/flink/data".to_owned()];
    DockerService {
        image: "apache/flink:latest".to_owned(),
        env,
        ports,
        volumes,
        command: None,
    }
}

fn taskmanager_service() -> (r: DockerService)
    ensures
        r@ =~~= spec_taskmanager_svc(),
{
    let env: Vec<(String, String)> = vec![
        (
            "FLINK_PROPERTIES".to_owned(),
            "jobmanager.rpc.address: jobmanager\ntaskmanager.numberOfTaskSlots: 1".to_owned(),
        ),
    ];
    let ports: Vec<u16> = Vec::new();
    let volumes: Vec<String> = vec!["flink-data:/opt/flink/data".to_owned()];
    DockerService {
        image: "apache/flink:latest".to_owned(),
        env,
        ports,
        volumes,
        command: None,
    }
}

/// Propose the service topology for the detected dependencies: exactly
/// the catalog services of each found flag, in the fixed order.
pub fn detect_dependencies(found: &DetectedServices) -> (r: DockerComposeConfig)
    ensures
        r@.version == "3.8"@,
        r@.services =~~= spec_detected_services(*found),
{
    let f = *found;
    let mut services: Vec<(String, DockerService)> = Vec::new();
    if found.postgres {
        services.push(("postgres".to_owned(), postgres_service()));
    }
    if found.mysql {
        services.push(("mysql".to_owned(), mysql_service()));
    }
    if found.kafka {
        services.push(("kafka".to_owned(), kafka_service()));
        services.push(("kafka-ui".to_owned(), kafka_ui_service()));
    }
    if found.redis {
        services.push(("redis".to_owned(), redis_service()));
    }
    if found.mongodb {
        services.push(("mongodb".to_owned(), mongodb_service()));
    }
    if found.flink {
        services.push(("jobmanager".to_owned(), jobmanager_service()));
        services.push(("taskmanager".to_owned(), taskmanager_service()));
    }
    let config = DockerComposeConfig { version: "3.8".to_owned(), services };
    proof {
        assert(config@.services =~~= spec_detected_services(f));
    }
    config
}

// ---------------------------------------------------------------------------
// Rendering the topology as Compose YAML
// ---------------------------------------------------------------------------
pub open spec fn spec_block_lines(ls: Seq<Seq<char>>) -> Seq<char>
    decreases ls.len(),
{
    if ls.len() == 0 {
        Seq::empty()
    } else {
        spec_block_lines(ls.drop_last()) + "        "@ + ls.last() + "\n"@
    }
}

/// One environment entry: a literal block for multi-line values and for
/// the Flink properties key, a plain `key: value` line otherwise.
pub open spec fn spec_env_entry(k: Seq<char>, v: Seq<char>) -> Seq<char> {
    if k == "FLINK_PROPERTIES"@ || crate::text::first_idx(v, '\n') < v.len() {
        "      "@ + k + ": |\n"@ + spec_block_lines(crate::text::spec_lines(v))
    } else {
        "      "@ + k + ": "@ + v + "\n"@
    }
}

pub open spec fn spec_env_entries(env: Seq<(Seq<char>, Seq<char>)>) -> Seq<char>
    decreases env.len(),
{
    if env.len() == 0 {
        Seq::empty()
    } else {
        spec_env_entries(env.drop_last()) + spec_env_entry(env.last().0, env.last().1)
    }
}

pub open spec fn spec_env_block(env: Seq<(Seq<char>, Seq<char>)>) -> Seq<char> {
    if env.len() == 0 {
        Seq::empty()
    } else {
        "    environment:\n"@ + spec_env_entries(env)
    }
}

pub open spec fn spec_port_entries(ports: Seq<u16>) -> Seq<char>
    decreases ports.len(),
{
    if ports.len() == 0 {
        Seq::empty()
    } else {
        spec_port_entries(ports.drop_last()) + "      - '"@ + crate::numfmt::spec_digits(
            ports.last() as int,
        ) + ":"@ + crate::numfmt::spec_digits(ports.last() as int) + "'\n"@
    }
}

pub open spec fn spec_ports_block(ports: Seq<u16>) -> Seq<char> {
    if ports.len() == 0 {
        Seq::empty()
    } else {
        "    ports:\n"@ + spec_port_entries(ports)
    }
}

pub open spec fn spec_volume_entries(vols: Seq<Seq<char>>) -> Seq<char>
    decreases vols.len(),
{
    if vols.len() == 0 {
        Seq::empty()
    } else {
        spec_volume_entries(vols.drop_last()) + "      - "@ + vols.last() + "\n"@
    }
}

pub open spec fn spec_volumes_block(vols: Seq<Seq<char>>) -> Seq<char> {
    if vols.len() == 0 {
        Seq::empty()
    } else {
        "    volumes:\n"@ + spec_volume_entries(vols)
    }
}

pub open spec fn spec_command_line(c: Option<Seq<char>>) -> Seq<char> {
    match c {
        Some(cmd) => "    command: "@ + cmd + "\n"@,
        None => Seq::empty(),
    }
}

/// The YAML fragment of one named service.
pub open spec fn spec_service_yaml(name: Seq<char>, s: SvcView) -> Seq<char> {
    "  "@ + name + ":\n"@ + "    image: "@ + s.image + "\n"@ + spec_command_line(s.command)
        + spec_env_block(s.env) + spec_ports_block(s.ports) + spec_volumes_block(s.volumes)
}

pub open spec fn spec_services_yaml(ss: Seq<(Seq<char>, SvcView)>) -> Seq<char>
    decreases ss.len(),
{
    if ss.len() == 0 {
        Seq::empty()
    } else {
        spec_services_yaml(ss.drop_last()) + spec_service_yaml(ss.last().0, ss.last().1)
    }
}

/// The part of a volume reference before the first colon.
pub open spec fn vol_name(v: Seq<char>) -> Seq<char> {
    v.take(crate::text::first_idx(v, ':'))
}

/// A named volume rather than a bind mount: no slash in the name part.
pub open spec fn is_named_vol(v: Seq<char>) -> bool {
    &&& crate::text::first_idx(vol_name(v), '/') == vol_name(v).len()
    &&& crate::text::first_idx(vol_name(v), '\\') == vol_name(v).len()
}

pub open spec fn add_named(acc: Seq<Seq<char>>, v: Seq<char>) -> Seq<Seq<char>> {
    if is_named_vol(v) && !acc.contains(vol_name(v)) {
        acc.push(vol_name(v))
    } else {
        acc
    }
}

pub open spec fn add_vols(acc: Seq<Seq<char>>, vols: Seq<Seq<char>>) -> Seq<Seq<char>>
    decreases vols.len(),
{
    if vols.len() == 0 {
        acc
    } else {
        add_vols(add_named(acc, vols[0]), vols.drop_first())
    }
}

/// The named volumes of all services, first occurrence first, no repeats.
pub open spec fn collect_named(acc: Seq<Seq<char>>, ss: Seq<(Seq<char>, SvcView)>) -> Seq<
    Seq<char>,
>
    decreases ss.len(),
{
    if ss.len() == 0 {
        acc
    } else {
        collect_named(add_vols(acc, ss[0].1.volumes), ss.drop_first())
    }
}

pub open spec fn spec_volume_section_entries(names: Seq<Seq<char>>) -> Seq<char>
    decreases names.len(),
{
    if names.len() == 0 {
        Seq::empty()
    } else {
        spec_volume_section_entries(names.drop_last()) + "  "@ + names.last() + ":\n"@
    }
}

pub open spec fn spec_volume_section(names: Seq<Seq<char>>) -> Seq<char> {
    if names.len() == 0 {
        Seq::empty()
    } else {
        "\nvolumes:\n"@ + spec_volume_section_entries(names)
    }
}

/// The whole document: header, the services in order, and a trailing
/// section declaring every named volume once.
pub open spec fn spec_to_yaml(c: CfgView) -> Seq<char> {
    "version: '"@ + c.version + "'\nservices:\n"@ + spec_services_yaml(c.services)
        + spec_volume_section(collect_named(Seq::empty(), c.services))
}

fn push_block_lines(out: &mut String, v: &str)
    ensures
        final(out)@ == old(out)@ + spec_block_lines(crate::text::spec_lines(v@)),
{
    let vv = to_chars(v);
    let lines = crate::text::split_lines(&vv);
    let ghost ls = crate::text::spec_lines(v@);
    proof {
        assert(old(out)@ + spec_block_lines(ls.take(0)) =~= old(out)@);
    }
    let mut i: usize = 0;
    while i < lines.len()
        invariant
            i <= lines@.len(),
            lines.deep_view() == ls,
            out@ == old(out)@ + spec_block_lines(ls.take(i as int)),
        decreases lines@.len() - i,
    {
        assert(lines@[i as int].deep_view() == ls[i as int]);
        proof {
            assert(lines@[i as int].deep_view() =~= lines@[i as int]@);
        }
        let line = crate::text::string_from_chars(&lines[i]);
        out.append("        ");
        out.append(line.as_str());
        out.append("\n");
        proof {
            assert(ls.take(i + 1).drop_last() =~= ls.take(i as int));
            assert(ls.take(i + 1).last() == ls[i as int]);
        }
        i = i + 1;
    }
    proof {
        assert(ls.take(ls.len() as int) =~= ls);
    }
}

fn push_env_block(out: &mut String, env: &Vec<(String, String)>)
    ensures
        final(out)@ == old(out)@ + spec_env_block(env.deep_view()),
{
    let ghost es = env.deep_view();
    if env.len() == 0 {
        return ;
    }
    out.append("    environment:\n");
    let ghost base = out@;
    proof {
        assert(base + spec_env_entries(es.take(0)) =~= base);
    }
    let mut i: usize = 0;
    while i < env.len()
        invariant
            i <= env@.len(),
            es == env.deep_view(),
            es.len() > 0,
            out@ == base + spec_env_entries(es.take(i as int)),
        decreases env@.len() - i,
    {
        assert(es[i as int] == (env@[i as int].0@, env@[i as int].1@));
        let k = env[i].0.clone();
        let v = env[i].1.clone();
        let flink_key = {
            let kv = to_chars(k.as_str());
            let fk = to_chars("FLINK_PROPERTIES");
            chars_eq(&kv, &fk)
        };
        let vv = to_chars(v.as_str());
        let nl_pos = crate::text::scan_char(&vv, 0, '\n');
        proof {
            assert(vv@.subrange(0, vv@.len() as int) =~= vv@);
        }
        if flink_key || nl_pos < vv.len() {
            out.append("      ");
            out.append(k.as_str());
            out.append(": |\n");
            push_block_lines(out, v.as_str());
        } else {
            out.append("      ");
            out.append(k.as_str());
            out.append(": ");
            out.append(v.as_str());
            out.append("\n");
        }
        proof {
            assert(es.take(i + 1).drop_last() =~= es.take(i as int));
            assert(es.take(i + 1).last() == es[i as int]);
        }
        i = i + 1;
    }
    proof {
        assert(es.take(es.len() as int) =~= es);
    }
}

fn push_ports_block(out: &mut String, ports: &Vec<u16>)
    ensures
        final(out)@ == old(out)@ + spec_ports_block(ports@),
{
    if ports.len() == 0 {
        return ;
    }
    out.append("    ports:\n");
    let ghost base = out@;
    proof {
        assert(base + spec_port_entries(ports@.take(0)) =~= base);
    }
    let mut i: usize = 0;
    while i < ports.len()
        invariant
            i <= ports@.len(),
            ports@.len() > 0,
            out@ == base + spec_port_entries(ports@.take(i as int)),
        decreases ports@.len() - i,
    {
        let p = ports[i];
        let d = crate::numfmt::u64_to_string(p as u64);
        out.append("      - '");
        out.append(d.as_str());
        out.append(":");
        out.append(d.as_str());
        out.append("'\n");
        proof {
            assert(ports@.take(i + 1).drop_last() =~= ports@.take(i as int));
            assert(ports@.take(i + 1).last() == ports@[i as int]);
        }
        i = i + 1;
    }
    proof {
        assert(ports@.take(ports@.len() as int) =~= ports@);
    }
}

fn push_volumes_block(out: &mut String, vols: &Vec<String>)
    ensures
        final(out)@ == old(out)@ + spec_volumes_block(vols.deep_view()),
{
    let ghost vs = vols.deep_view();
    if vols.len() == 0 {
        return ;
    }
    out.append("    volumes:\n");
    let ghost base = out@;
    proof {
        assert(base + spec_volume_entries(vs.take(0)) =~= base);
    }
    let mut i: usize = 0;
    while i < vols.len()
        invariant
            i <= vols@.len(),
            vs == vols.deep_view(),
            vs.len() > 0,
            out@ == base + spec_volume_entries(vs.take(i as int)),
        decreases vols@.len() - i,
    {
        assert(vs[i as int] == vols@[i as int]@);
        out.append("      - ");
        out.append(vols[i].as_str());
        out.append("\n");
        proof {
            assert(vs.take(i + 1).drop_last() =~= vs.take(i as int));
            assert(vs.take(i + 1).last() == vs[i as int]);
        }
        i = i + 1;
    }
    proof {
        assert(vs.take(vs.len() as int) =~= vs);
    }
}

#[verifier::rlimit(60)]
fn push_service_yaml(out: &mut String, name: &str, svc: &DockerService)
    ensures
        final(out)@ == old(out)@ + spec_service_yaml(name@, svc@),
{
    out.append("  ");
    out.append(name);
    out.append(":\n");
    out.append("    image: ");
    out.append(svc.image.as_str());
    out.append("\n");
    match &svc.command {
        Some(cmd) => {
            out.append("    command: ");
            out.append(cmd.as_str());
            out.append("\n");
        },
        None => {},
    }
    push_env_block(out, &svc.env);
    push_ports_block(out, &svc.ports);
    push_volumes_block(out, &svc.volumes);
}

fn vols_seen_contains(acc: &Vec<String>, n: &Vec<char>) -> (r: bool)
    ensures
        r == acc.deep_view().contains(n@),
{
    let ghost vs = acc.deep_view();
    let mut i: usize = 0;
    while i < acc.len()
        invariant
            i <= acc@.len(),
            vs == acc.deep_view(),
            forall|m: int| 0 <= m < i ==> vs[m] != n@,
        decreases acc@.len() - i,
    {
        assert(vs[i as int] == acc@[i as int]@);
        let av = to_chars(acc[i].as_str());
        if chars_eq(&av, n) {
            proof {
                assert(vs.contains(n@));
            }
            return true;
        }
        i = i + 1;
    }
    proof {
        if vs.contains(n@) {
            let w = choose|m: int| 0 <= m < vs.len() && vs[m] == n@;
            assert(vs[w] != n@);
        }
    }
    false
}

fn collect_named_volumes(services: &Vec<(String, DockerService)>) -> (r: Vec<String>)
    ensures
        r.deep_view() == collect_named(
            Seq::empty(),
            Seq::new(services@.len(), |i: int| (services@[i].0@, services@[i].1@)),
        ),
{
    let ghost ss = Seq::new(services@.len(), |i: int| (services@[i].0@, services@[i].1@));
    let mut acc: Vec<String> = Vec::new();
    proof {
        assert(ss.skip(0) =~= ss);
        assert(acc.deep_view() =~~= Seq::<Seq<char>>::empty());
    }
    let mut i: usize = 0;
    while i < services.len()
        invariant
            i <= services@.len(),
            ss == Seq::new(services@.len(), |k: int| (services@[k].0@, services@[k].1@)),
            collect_named(Seq::empty(), ss) == collect_named(
                acc.deep_view(),
                ss.skip(i as int),
            ),
        decreases services@.len() - i,
    {
        let ghost rest = ss.skip(i as int);
        assert(rest[0] == ss[i as int]);
        let vols = &services[i].1.volumes;
        let ghost vs = vols.deep_view();
        proof {
            assert(vs =~~= ss[i as int].1.volumes);
            assert(vs.skip(0) =~= vs);
            assert(rest.drop_first() =~= ss.skip(i + 1));
            assert(collect_named(acc.deep_view(), rest) == collect_named(
                add_vols(acc.deep_view(), rest[0].1.volumes),
                rest.drop_first(),
            ));
        }
        let mut j: usize = 0;
        while j < vols.len()
            invariant
                j <= vols@.len(),
                vs == vols.deep_view(),
                collect_named(Seq::empty(), ss) == collect_named(
                    add_vols(acc.deep_view(), vs.skip(j as int)),
                    ss.skip(i as int + 1),
                ),
            decreases vols@.len() - j,
        {
            let ghost vrest = vs.skip(j as int);
            assert(vrest[0] == vs[j as int]);
            assert(vs[j as int] == vols@[j as int]@);
            let vv = to_chars(vols[j].as_str());
            let cpos = crate::text::scan_char(&vv, 0, ':');
            proof {
                assert(vv@.subrange(0, vv@.len() as int) =~= vv@);
                crate::text::lemma_first_idx_bounds(vv@, ':');
            }
            let namev = crate::text::subrange_chars(&vv, 0, cpos);
            proof {
                assert(namev@ =~= vol_name(vs[j as int]));
            }
            let slash = crate::text::scan_char(&namev, 0, '/');
            let bslash = crate::text::scan_char(&namev, 0, '\\');
            proof {
                assert(namev@.subrange(0, namev@.len() as int) =~= namev@);
            }
            let ghost before = acc.deep_view();
            if slash == namev.len() && bslash == namev.len() {
                if !vols_seen_contains(&acc, &namev) {
                    acc.push(crate::text::string_from_chars(&namev));
                    proof {
                        assert(acc.deep_view() =~~= before.push(vol_name(vs[j as int])));
                        assert(acc.deep_view() =~~= add_named(before, vs[j as int]));
                    }
                } else {
                    proof {
                        assert(acc.deep_view() =~~= add_named(before, vs[j as int]));
                    }
                }
            } else {
                proof {
                    assert(!is_named_vol(vs[j as int]));
                    assert(acc.deep_view() =~~= add_named(before, vs[j as int]));
                }
            }
            proof {
                assert(vrest.drop_first() =~= vs.skip(j + 1));
                assert(add_vols(before, vrest) == add_vols(
                    add_named(before, vrest[0]),
                    vrest.drop_first(),
                ));
            }
            j = j + 1;
        }
        proof {
            assert(vs.skip(vs.len() as int) =~= Seq::<Seq<char>>::empty());
        }
        i = i + 1;
    }
    proof {
        assert(ss.skip(ss.len() as int).len() == 0);
    }
    acc
}


impl DockerComposeConfig {
    /// Render the whole topology as a Compose YAML document.
    pub fn to_yaml(&self) -> (r: String)
        ensures
            r@ == spec_to_yaml(self@),
    {
        let ghost ss = self@.services;
        let mut out = String::new();
        out.append("version: '");
        out.append(self.version.as_str());
        out.append("'\nservices:\n");
        let ghost base = out@;
        proof {
            assert(base + spec_services_yaml(ss.take(0)) =~= base);
        }
        let mut i: usize = 0;
        while i < self.services.len()
            invariant
                i <= self.services@.len(),
                ss == self@.services,
                out@ == base + spec_services_yaml(ss.take(i as int)),
            decreases self.services@.len() - i,
        {
            assert(ss[i as int] == (self.services@[i as int].0@, self.services@[i as int].1@));
            let name = self.services[i].0.clone();
            push_service_yaml(&mut out, name.as_str(), &self.services[i].1);
            proof {
                assert(ss.take(i + 1).drop_last() =~= ss.take(i as int));
                assert(ss.take(i + 1).last() == ss[i as int]);
            }
            i = i + 1;
        }
        proof {
            assert(ss.take(ss.len() as int) =~= ss);
        }
        let named = collect_named_volumes(&self.services);
        let ghost nv = collect_named(Seq::empty(), ss);
        if named.len() > 0 {
            out.append("\nvolumes:\n");
            let ghost base2 = out@;
            proof {
                assert(base2 + spec_volume_section_entries(nv.take(0)) =~= base2);
            }
            let mut k: usize = 0;
            while k < named.len()
                invariant
                    k <= named@.len(),
                    named.deep_view() == nv,
                    out@ == base2 + spec_volume_section_entries(nv.take(k as int)),
                decreases named@.len() - k,
            {
                assert(nv[k as int] == named@[k as int]@);
                out.append("  ");
                out.append(named[k].as_str());
                out.append(":\n");
                proof {
                    assert(nv.take(k + 1).drop_last() =~= nv.take(k as int));
                    assert(nv.take(k + 1).last() == nv[k as int]);
                }
                k = k + 1;
            }
            proof {
                assert(nv.take(nv.len() as int) =~= nv);
                assert(nv.len() > 0);
            }
        } else {
            proof {
                assert(nv.len() == 0);
                assert(spec_volume_section(nv) =~= Seq::<char>::empty());
            }
        }
        out
    }
}

} // verus!
