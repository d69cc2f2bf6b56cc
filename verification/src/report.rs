use vstd::prelude::*;
use vstd::string::StringExecFns;

use crate::omap::lex_lt;
use crate::omap::str_lt;
use crate::services::DockerComposeConfig;
use crate::services::DockerService;
use crate::services::SvcView;
use crate::text::chars_eq;
use crate::text::first_idx;
use crate::text::lemma_first_idx_bounds;
use crate::text::lower_of;
use crate::text::lowercase;
use crate::text::scan_char;
use crate::text::string_from_chars;
use crate::text::subrange_chars;
use crate::text::to_chars;

verus! {

// ---------------------------------------------------------------------------
// Linking an image reference to its registry page
// ---------------------------------------------------------------------------
/// The registry page of an image reference: Docker Hub for plain and
/// namespaced names, the registry host itself for qualified ones.
pub open spec fn spec_image_url(image: Seq<char>) -> Seq<char> {
    let name = image.take(first_idx(image, ':'));
    let sl = first_idx(name, '/');
    if sl == name.len() {
        "https://hub.docker.com/_/"@ + name
    } else {
        let first = name.take(sl);
        let rest = name.subrange(sl + 1, name.len() as int);
        if first_idx(first, '.') < first.len() {
            if first == "ghcr.io"@ {
                "https://ghcr.io/"@ + rest
            } else if first == "quay.io"@ {
                "https://quay.io/repository/"@ + rest
            } else if first == "gcr.io"@ {
                "https://gcr.io/"@ + rest
            } else {
                "https://"@ + first + "/"@ + rest
            }
        } else {
            "https://hub.docker.com/r/"@ + first + "/"@ + rest
        }
    }
}

pub open spec fn spec_linkify(image: Seq<char>) -> Seq<char> {
    "["@ + image + "]("@ + spec_image_url(image) + ")"@
}

/// Turn an image reference into a Markdown link to its registry page.
pub fn linkify_image(image: &str) -> (r: String)
    ensures
        r@ == spec_linkify(image@),
{
    let iv = to_chars(image);
    let cpos = scan_char(&iv, 0, ':');
    proof {
        assert(iv@.subrange(0, iv@.len() as int) =~= iv@);
        lemma_first_idx_bounds(iv@, ':');
    }
    let name = subrange_chars(&iv, 0, cpos);
    proof {
        assert(name@ =~= iv@.take(first_idx(iv@, ':')));
    }
    let sl = scan_char(&name, 0, '/');
    proof {
        assert(name@.subrange(0, name@.len() as int) =~= name@);
        lemma_first_idx_bounds(name@, '/');
    }
    let mut url = String::new();
    if sl == name.len() {
        url.append("https://hub.docker.com/_/");
        let names = string_from_chars(&name);
        url.append(names.as_str());
    } else {
        let firstv = subrange_chars(&name, 0, sl);
        let restv = subrange_chars(&name, sl + 1, name.len());
        proof {
            assert(firstv@ =~= name@.take(sl as int));
        }
        let firsts = string_from_chars(&firstv);
        let rests = string_from_chars(&restv);
        let dot = scan_char(&firstv, 0, '.');
        proof {
            assert(firstv@.subrange(0, firstv@.len() as int) =~= firstv@);
            lemma_first_idx_bounds(firstv@, '.');
        }
        if dot < firstv.len() {
            let ghcr = to_chars("ghcr.io");
            let quay = to_chars("quay.io");
            let gcr = to_chars("gcr.io");
            if chars_eq(&firstv, &ghcr) {
                url.append("https://ghcr.io/");
                url.append(rests.as_str());
            } else if chars_eq(&firstv, &quay) {
                url.append("https://quay.io/repository/");
                url.append(rests.as_str());
            } else if chars_eq(&firstv, &gcr) {
                url.append("https://gcr.io/");
                url.append(rests.as_str());
            } else {
                url.append("https://");
                url.append(firsts.as_str());
                url.append("/");
                url.append(rests.as_str());
            }
        } else {
            url.append("https://hub.docker.com/r/");
            url.append(firsts.as_str());
            url.append("/");
            url.append(rests.as_str());
        }
    }
    let mut r = String::new();
    r.append("[");
    r.append(image);
    r.append("](");
    r.append(url.as_str());
    r.append(")");
    r
}

// ---------------------------------------------------------------------------
// The per-service credentials column
// ---------------------------------------------------------------------------
/// The first value stored under the key, as the service environment is
/// searched.
pub open spec fn env_get(env: Seq<(Seq<char>, Seq<char>)>, k: Seq<char>) -> Option<Seq<char>>
    decreases env.len(),
{
    if env.len() == 0 {
        None
    } else if env[0].0 == k {
        Some(env[0].1)
    } else {
        env_get(env.drop_first(), k)
    }
}

pub open spec fn env_or(env: Seq<(Seq<char>, Seq<char>)>, k: Seq<char>, d: Seq<char>) -> Seq<
    char,
> {
    match env_get(env, k) {
        Some(v) => v,
        None => d,
    }
}

/// Look a key up in a service environment.
fn env_lookup(env: &Vec<(String, String)>, k: &str) -> (r: Option<String>)
    ensures
        r.deep_view() == env_get(env.deep_view(), k@),
{
    let kv = to_chars(k);
    let ghost es = env.deep_view();
    proof {
        assert(es.skip(0) =~= es);
    }
    let mut i: usize = 0;
    loop
        invariant
            i <= env@.len(),
            es == env.deep_view(),
            kv@ == k@,
            env_get(es, k@) == env_get(es.skip(i as int), k@),
        decreases env@.len() - i,
    {
        let ghost rest = es.skip(i as int);
        if i == env.len() {
            return None;
        }
        assert(rest[0] == es[i as int]);
        assert(es[i as int] == (env@[i as int].0@, env@[i as int].1@));
        let ec = to_chars(env[i].0.as_str());
        if chars_eq(&kv, &ec) {
            return Some(env[i].1.clone());
        }
        proof {
            assert(rest.drop_first() =~= es.skip(i + 1));
        }
        i = i + 1;
    }
}

fn env_lookup_or(env: &Vec<(String, String)>, k: &str, d: &str) -> (r: String)
    ensures
        r@ == env_or(env.deep_view(), k@, d@),
{
    match env_lookup(env, k) {
        Some(v) => v,
        None => d.to_owned(),
    }
}

/// ASCII-case-insensitive character equality, as `eq_ignore_ascii_case`
/// compares.
pub open spec fn ascii_lower(c: char) -> char {
    if 65 <= (c as int) <= 90 {
        ((c as int) + 32) as char
    } else {
        c
    }
}

pub open spec fn eq_ignore_ascii(a: Seq<char>, b: Seq<char>) -> bool {
    a.len() == b.len() && forall|i: int| 0 <= i < a.len() ==> ascii_lower(#[trigger] a[i])
        == ascii_lower(b[i])
}

fn chars_eq_ignore_ascii(a: &Vec<char>, b: &Vec<char>) -> (r: bool)
    ensures
        r == eq_ignore_ascii(a@, b@),
{
    if a.len() != b.len() {
        return false;
    }
    let mut i: usize = 0;
    while i < a.len()
        invariant
            i <= a@.len(),
            a@.len() == b@.len(),
            forall|m: int| 0 <= m < i ==> ascii_lower(#[trigger] a@[m]) == ascii_lower(b@[m]),
        decreases a@.len() - i,
    {
        let ca = a[i];
        let cb = b[i];
        let la = if 'A' <= ca && ca <= 'Z' {
            (((ca as u32) + 32) as u8) as char
        } else {
            ca
        };
        let lb = if 'A' <= cb && cb <= 'Z' {
            (((cb as u32) + 32) as u8) as char
        } else {
            cb
        };
        if la != lb {
            assert(ascii_lower(a@[i as int]) != ascii_lower(b@[i as int]));
            return false;
        }
        i = i + 1;
    }
    true
}

/// The credentials-and-endpoints note shown for a known service name.
pub open spec fn spec_service_info(name: Seq<char>, s: SvcView) -> Seq<char> {
    let n = lower_of(name);
    if n == "postgres"@ {
        let user = env_or(s.env, "POSTGRES_USER"@, "postgres"@);
        let pass = env_or(s.env, "POSTGRES_PASSWORD"@, "example"@);
        let db = env_or(s.env, "POSTGRES_DB"@, "app"@);
        "user: "@ + user + ", pass: "@ + pass + ", db: "@ + db + ", url: postgres://"@ + user
            + ":"@ + pass + "@localhost:5432/"@ + db
    } else if n == "mysql"@ || n == "mariadb"@ {
        let pass = match env_get(s.env, "MARIADB_ROOT_PASSWORD"@) {
            Some(p) => p,
            None => env_or(s.env, "MYSQL_ROOT_PASSWORD"@, "example"@),
        };
        let db = match env_get(s.env, "MARIADB_DATABASE"@) {
            Some(d) => d,
            None => env_or(s.env, "MYSQL_DATABASE"@, "app"@),
        };
        "user: root, pass: "@ + pass + ", db: "@ + db + ", url: mysql://root:"@ + pass
            + "@localhost:3306/"@ + db
    } else if n == "mongodb"@ {
        let user = env_or(s.env, "MONGO_INITDB_ROOT_USERNAME"@, "root"@);
        let pass = env_or(s.env, "MONGO_INITDB_ROOT_PASSWORD"@, "example"@);
        "user: "@ + user + ", pass: "@ + pass + ", url: mongodb://"@ + user + ":"@ + pass
            + "@localhost:27017"@
    } else if n == "redis"@ {
        match env_get(s.env, "REDIS_PASSWORD"@) {
            Some(p) => "senha: "@ + p + " (requirepass habilitado)"@,
            None => "sem senha (default)"@,
        }
    } else if n == "kafka"@ {
        "Bootstrap: localhost:29092"@
    } else if n == "kafka-ui"@ {
        "UI: http://localhost:9093"@
    } else if n == "jobmanager"@ {
        "Flink UI: http://localhost:8081"@
    } else if n == "taskmanager"@ {
        "Seguido pelo JobManager (sem UI)"@
    } else if n == "grafana"@ {
        let anon = match env_get(s.env, "GF_AUTH_ANONYMOUS_ENABLED"@) {
            Some(v) => eq_ignore_ascii(v, "true"@),
            None => false,
        };
        if anon {
            "login anônimo (Admin)"@
        } else {
            "credenciais padrão configuráveis"@
        }
    } else if n == "prometheus"@ {
        "scrape: otel-collector:8889"@
    } else if n == "loki"@ {
        "push: http://localhost:3100/loki/api/v1/push"@
    } else if n == "tempo"@ {
        "OTLP gRPC: 4317, HTTP: 4318"@
    } else if n == "otel-collector"@ {
        "OTLP HTTP: 4318 | gRPC: 4317 | Prom (metrics): 8889"@
    } else {
        "-"@
    }
}

/// Build the credentials-and-endpoints note for one service.
pub fn service_info(name: &str, svc: &DockerService) -> (r: String)
    ensures
        r@ == spec_service_info(name@, svc@),
{
    let low = lowercase(name);
    let n = to_chars(low.as_str());
    let mut r = String::new();
    if chars_eq(&n, &to_chars("postgres")) {
        let user = env_lookup_or(&svc.env, "POSTGRES_USER", "postgres");
        let pass = env_lookup_or(&svc.env, "POSTGRES_PASSWORD", "example");
        let db = env_lookup_or(&svc.env, "POSTGRES_DB", "app");
        r.append("user: ");
        r.append(user.as_str());
        r.append(", pass: ");
        r.append(pass.as_str());
        r.append(", db: ");
        r.append(db.as_str());
        r.append(", url: postgres://");
        r.append(user.as_str());
        r.append(":");
        r.append(pass.as_str());
        r.append("@localhost:5432/");
        r.append(db.as_str());
    } else if chars_eq(&n, &to_chars("mysql")) || chars_eq(&n, &to_chars("mariadb")) {
        let pass = match env_lookup(&svc.env, "MARIADB_ROOT_PASSWORD") {
            Some(p) => p,
            None => env_lookup_or(&svc.env, "MYSQL_ROOT_PASSWORD", "example"),
        };
        let db = match env_lookup(&svc.env, "MARIADB_DATABASE") {
            Some(d) => d,
            None => env_lookup_or(&svc.env, "MYSQL_DATABASE", "app"),
        };
        r.append("user: root, pass: ");
        r.append(pass.as_str());
        r.append(", db: ");
        r.append(db.as_str());
        r.append(", url: mysql://root:");
        r.append(pass.as_str());
        r.append("@localhost:3306/");
        r.append(db.as_str());
    } else if chars_eq(&n, &to_chars("mongodb")) {
        let user = env_lookup_or(&svc.env, "MONGO_INITDB_ROOT_USERNAME", "root");
        let pass = env_lookup_or(&svc.env, "MONGO_INITDB_ROOT_PASSWORD", "example");
        r.append("user: ");
        r.append(user.as_str());
        r.append(", pass: ");
        r.append(pass.as_str());
        r.append(", url: mongodb://");
        r.append(user.as_str());
        r.append(":");
        r.append(pass.as_str());
        r.append("@localhost:27017");
    } else if chars_eq(&n, &to_chars("redis")) {
        match env_lookup(&svc.env, "REDIS_PASSWORD") {
            Some(p) => {
                r.append("senha: ");
                r.append(p.as_str());
                r.append(" (requirepass habilitado)");
            },
            None => {
                r.append("sem senha (default)");
            },
        }
    } else if chars_eq(&n, &to_chars("kafka")) {
        r.append("Bootstrap: localhost:29092");
    } else if chars_eq(&n, &to_chars("kafka-ui")) {
        r.append("UI: http://localhost:9093");
    } else if chars_eq(&n, &to_chars("jobmanager")) {
        r.append("Flink UI: http://localhost:8081");
    } else if chars_eq(&n, &to_chars("taskmanager")) {
        r.append("Seguido pelo JobManager (sem UI)");
    } else if chars_eq(&n, &to_chars("grafana")) {
        let anon = match env_lookup(&svc.env, "GF_AUTH_ANONYMOUS_ENABLED") {
            Some(v) => {
                let vv = to_chars(v.as_str());
                let tv = to_chars("true");
                chars_eq_ignore_ascii(&vv, &tv)
            },
            None => false,
        };
        if anon {
            r.append("login anônimo (Admin)");
        } else {
            r.append("credenciais padrão configuráveis");
        }
    } else if chars_eq(&n, &to_chars("prometheus")) {
        r.append("scrape: otel-collector:8889");
    } else if chars_eq(&n, &to_chars("loki")) {
        r.append("push: http://localhost:3100/loki/api/v1/push");
    } else if chars_eq(&n, &to_chars("tempo")) {
        r.append("OTLP gRPC: 4317, HTTP: 4318");
    } else if chars_eq(&n, &to_chars("otel-collector")) {
        r.append("OTLP HTTP: 4318 | gRPC: 4317 | Prom (metrics): 8889");
    } else {
        r.append("-");
    }
    r
}

// ---------------------------------------------------------------------------
// Sorting names and services for the tables
// ---------------------------------------------------------------------------
/// Insert before the first strictly larger element; equals stay in order.
pub open spec fn str_sorted_insert(s: Seq<Seq<char>>, x: Seq<char>) -> Seq<Seq<char>>
    decreases s.len(),
{
    if s.len() == 0 {
        seq![x]
    } else if lex_lt(x, s[0]) {
        seq![x] + s
    } else {
        seq![s[0]] + str_sorted_insert(s.drop_first(), x)
    }
}

pub open spec fn sort_strings_from(acc: Seq<Seq<char>>, s: Seq<Seq<char>>) -> Seq<Seq<char>>
    decreases s.len(),
{
    if s.len() == 0 {
        acc
    } else {
        sort_strings_from(str_sorted_insert(acc, s[0]), s.drop_first())
    }
}

/// The strings rearranged into ascending order, stably.
pub open spec fn sort_strings(s: Seq<Seq<char>>) -> Seq<Seq<char>> {
    sort_strings_from(Seq::empty(), s)
}

fn insert_string_sorted(acc: &mut Vec<String>, x: String)
    ensures
        final(acc).deep_view() == str_sorted_insert(old(acc).deep_view(), x@),
{
    let xv = to_chars(x.as_str());
    let ghost whole = acc.deep_view();
    proof {
        assert(whole.skip(0) =~= whole);
        assert(whole.take(0) + str_sorted_insert(whole.skip(0), x@) =~~= str_sorted_insert(
            whole,
            x@,
        ));
    }
    let mut i: usize = 0;
    loop
        invariant
            i <= acc@.len(),
            xv@ == x@,
            whole == acc.deep_view(),
            whole == old(acc).deep_view(),
            str_sorted_insert(whole, x@) == whole.take(i as int) + str_sorted_insert(
                whole.skip(i as int),
                x@,
            ),
        decreases acc@.len() - i,
    {
        let ghost rest = whole.skip(i as int);
        if i == acc.len() {
            let ghost before = acc.deep_view();
            acc.push(x);
            proof {
                assert(rest.len() == 0);
                assert(str_sorted_insert(rest, x@) =~~= seq![x@]);
                assert(acc.deep_view() =~~= before.push(x@));
                assert(acc.deep_view() =~~= whole.take(i as int) + str_sorted_insert(rest, x@));
            }
            return ;
        }
        assert(rest[0] == whole[i as int]);
        let ec = to_chars(acc[i].as_str());
        if str_lt(&xv, &ec) {
            let ghost before = acc.deep_view();
            acc.insert(i, x);
            proof {
                assert(str_sorted_insert(rest, x@) == seq![x@] + rest);
                assert(acc.deep_view() =~~= before.insert(i as int, x@));
                assert(acc.deep_view() =~~= whole.take(i as int) + (seq![x@] + rest));
            }
            return ;
        }
        proof {
            assert(str_sorted_insert(rest, x@) == seq![rest[0]] + str_sorted_insert(
                rest.drop_first(),
                x@,
            ));
            assert(rest.drop_first() =~= whole.skip(i + 1));
            assert(whole.take(i as int) + (seq![rest[0]] + str_sorted_insert(
                whole.skip(i + 1),
                x@,
            )) =~~= whole.take(i + 1) + str_sorted_insert(whole.skip(i + 1), x@));
        }
        i = i + 1;
    }
}

/// The service names in ascending order.
pub fn sorted_service_names(config: &DockerComposeConfig) -> (r: Vec<String>)
    ensures
        r.deep_view() == sort_strings(
            Seq::new(config@.services.len(), |i: int| config@.services[i].0),
        ),
{
    let ghost names = Seq::new(config@.services.len(), |i: int| config@.services[i].0);
    let mut acc: Vec<String> = Vec::new();
    proof {
        assert(names.skip(0) =~= names);
        assert(acc.deep_view() =~~= Seq::<Seq<char>>::empty());
    }
    let mut i: usize = 0;
    while i < config.services.len()
        invariant
            i <= config.services@.len(),
            names == Seq::new(config@.services.len(), |k: int| config@.services[k].0),
            names.len() == config.services@.len(),
            sort_strings(names) == sort_strings_from(acc.deep_view(), names.skip(i as int)),
        decreases config.services@.len() - i,
    {
        let ghost rest = names.skip(i as int);
        assert(rest[0] == names[i as int]);
        insert_string_sorted(&mut acc, config.services[i].0.clone());
        proof {
            assert(rest.drop_first() =~= names.skip(i + 1));
        }
        i = i + 1;
    }
    proof {
        assert(names.skip(names.len() as int).len() == 0);
    }
    acc
}

/// Insert a service before the first strictly larger name.
pub open spec fn svc_sorted_insert(
    s: Seq<(Seq<char>, SvcView)>,
    x: (Seq<char>, SvcView),
) -> Seq<(Seq<char>, SvcView)>
    decreases s.len(),
{
    if s.len() == 0 {
        seq![x]
    } else if lex_lt(x.0, s[0].0) {
        seq![x] + s
    } else {
        seq![s[0]] + svc_sorted_insert(s.drop_first(), x)
    }
}

pub open spec fn sort_services_from(
    acc: Seq<(Seq<char>, SvcView)>,
    s: Seq<(Seq<char>, SvcView)>,
) -> Seq<(Seq<char>, SvcView)>
    decreases s.len(),
{
    if s.len() == 0 {
        acc
    } else {
        sort_services_from(svc_sorted_insert(acc, s[0]), s.drop_first())
    }
}

/// The services rearranged into ascending name order, stably.
pub open spec fn sort_services(s: Seq<(Seq<char>, SvcView)>) -> Seq<(Seq<char>, SvcView)> {
    sort_services_from(Seq::empty(), s)
}

/// A field-by-field copy of a service.
fn clone_service(s: &DockerService) -> (r: DockerService)
    ensures
        r@ =~~= s@,
{
    let mut env: Vec<(String, String)> = Vec::new();
    let mut i: usize = 0;
    while i < s.env.len()
        invariant
            i <= s.env@.len(),
            env.deep_view() == s.env.deep_view().take(i as int),
        decreases s.env@.len() - i,
    {
        let ghost before = env.deep_view();
        env.push((s.env[i].0.clone(), s.env[i].1.clone()));
        proof {
            assert(s.env.deep_view()[i as int] == (s.env@[i as int].0@, s.env@[i as int].1@));
            assert(env.deep_view() =~~= before.push(s.env.deep_view()[i as int]));
            assert(before.push(s.env.deep_view()[i as int]) =~~= s.env.deep_view().take(i + 1));
        }
        i = i + 1;
    }
    proof {
        assert(s.env.deep_view().take(s.env.deep_view().len() as int) =~~= s.env.deep_view());
    }
    let mut ports: Vec<u16> = Vec::new();
    let mut j: usize = 0;
    while j < s.ports.len()
        invariant
            j <= s.ports@.len(),
            ports@ == s.ports@.take(j as int),
        decreases s.ports@.len() - j,
    {
        ports.push(s.ports[j]);
        proof {
            assert(s.ports@.take(j + 1) =~= s.ports@.take(j as int).push(s.ports@[j as int]));
        }
        j = j + 1;
    }
    proof {
        assert(s.ports@.take(s.ports@.len() as int) =~= s.ports@);
    }
    let mut volumes: Vec<String> = Vec::new();
    let mut k: usize = 0;
    while k < s.volumes.len()
        invariant
            k <= s.volumes@.len(),
            volumes.deep_view() == s.volumes.deep_view().take(k as int),
        decreases s.volumes@.len() - k,
    {
        let ghost before = volumes.deep_view();
        volumes.push(s.volumes[k].clone());
        proof {
            assert(s.volumes.deep_view()[k as int] == s.volumes@[k as int]@);
            assert(volumes.deep_view() =~~= before.push(s.volumes.deep_view()[k as int]));
            assert(before.push(s.volumes.deep_view()[k as int]) =~~= s.volumes.deep_view().take(
                k + 1,
            ));
        }
        k = k + 1;
    }
    proof {
        assert(s.volumes.deep_view().take(s.volumes.deep_view().len() as int)
            =~~= s.volumes.deep_view());
    }
    let command = match &s.command {
        Some(c) => Some(c.clone()),
        None => None,
    };
    DockerService { image: s.image.clone(), env, ports, volumes, command }
}

fn insert_service_sorted(acc: &mut Vec<(String, DockerService)>, name: String, svc: DockerService)
    ensures
        Seq::new(final(acc)@.len(), |i: int| (final(acc)@[i].0@, final(acc)@[i].1@))
            =~~= svc_sorted_insert(
            Seq::new(old(acc)@.len(), |i: int| (old(acc)@[i].0@, old(acc)@[i].1@)),
            (name@, svc@),
        ),
{
    let ghost whole = Seq::new(acc@.len(), |i: int| (acc@[i].0@, acc@[i].1@));
    let ghost x = (name@, svc@);
    let xv = to_chars(name.as_str());
    proof {
        assert(whole.skip(0) =~= whole);
        assert(whole.take(0) + svc_sorted_insert(whole.skip(0), x) =~~= svc_sorted_insert(
            whole,
            x,
        ));
    }
    let mut i: usize = 0;
    loop
        invariant
            i <= acc@.len(),
            xv@ == name@,
            x == (name@, svc@),
            whole == Seq::new(acc@.len(), |k: int| (acc@[k].0@, acc@[k].1@)),
            whole == Seq::new(old(acc)@.len(), |k: int| (old(acc)@[k].0@, old(acc)@[k].1@)),
            svc_sorted_insert(whole, x) == whole.take(i as int) + svc_sorted_insert(
                whole.skip(i as int),
                x,
            ),
        decreases acc@.len() - i,
    {
        let ghost rest = whole.skip(i as int);
        if i == acc.len() {
            acc.push((name, svc));
            proof {
                assert(rest.len() == 0);
                assert(svc_sorted_insert(rest, x) =~~= seq![x]);
                assert(Seq::new(acc@.len(), |k: int| (acc@[k].0@, acc@[k].1@)) =~~= whole.take(
                    i as int,
                ) + svc_sorted_insert(rest, x));
            }
            return ;
        }
        assert(rest[0] == whole[i as int]);
        let ec = to_chars(acc[i].0.as_str());
        if str_lt(&xv, &ec) {
            acc.insert(i, (name, svc));
            proof {
                assert(svc_sorted_insert(rest, x) == seq![x] + rest);
                assert(Seq::new(acc@.len(), |k: int| (acc@[k].0@, acc@[k].1@)) =~~= whole.take(
                    i as int,
                ) + (seq![x] + rest));
            }
            return ;
        }
        proof {
            assert(svc_sorted_insert(rest, x) == seq![rest[0]] + svc_sorted_insert(
                rest.drop_first(),
                x,
            ));
            assert(rest.drop_first() =~= whole.skip(i + 1));
            assert(whole.take(i as int) + (seq![rest[0]] + svc_sorted_insert(
                whole.skip(i + 1),
                x,
            )) =~~= whole.take(i + 1) + svc_sorted_insert(whole.skip(i + 1), x));
        }
        i = i + 1;
    }
}

/// A copy of the services in ascending name order.
fn sorted_services(config: &DockerComposeConfig) -> (r: Vec<(String, DockerService)>)
    ensures
        Seq::new(r@.len(), |i: int| (r@[i].0@, r@[i].1@)) =~~= sort_services(config@.services),
{
    let ghost ss = config@.services;
    let mut acc: Vec<(String, DockerService)> = Vec::new();
    proof {
        assert(ss.skip(0) =~= ss);
        assert(Seq::new(acc@.len(), |i: int| (acc@[i].0@, acc@[i].1@)) =~~= Seq::<
            (Seq<char>, SvcView),
        >::empty());
    }
    let mut i: usize = 0;
    while i < config.services.len()
        invariant
            i <= config.services@.len(),
            ss == config@.services,
            ss.len() == config.services@.len(),
            sort_services(ss) == sort_services_from(
                Seq::new(acc@.len(), |k: int| (acc@[k].0@, acc@[k].1@)),
                ss.skip(i as int),
            ),
        decreases config.services@.len() - i,
    {
        let ghost rest = ss.skip(i as int);
        assert(rest[0] == ss[i as int]);
        let name = config.services[i].0.clone();
        let svc = clone_service(&config.services[i].1);
        let ghost view_before = Seq::new(acc@.len(), |k: int| (acc@[k].0@, acc@[k].1@));
        let ghost x = (name@, svc@);
        proof {
            assert(x =~~= ss[i as int]);
        }
        insert_service_sorted(&mut acc, name, svc);
        proof {
            assert(rest.drop_first() =~= ss.skip(i + 1));
            assert(Seq::new(acc@.len(), |k: int| (acc@[k].0@, acc@[k].1@)) =~~= svc_sorted_insert(
                view_before,
                x,
            ));
            assert(svc_sorted_insert(view_before, x) == svc_sorted_insert(view_before, rest[0]));
        }
        i = i + 1;
    }
    proof {
        assert(ss.skip(ss.len() as int).len() == 0);
    }
    acc
}

// ---------------------------------------------------------------------------
// The analyzer report
// ---------------------------------------------------------------------------
pub open spec fn join_comma(l: Seq<Seq<char>>) -> Seq<char>
    decreases l.len(),
{
    if l.len() == 0 {
        Seq::empty()
    } else if l.len() == 1 {
        l[0]
    } else {
        join_comma(l.drop_last()) + ", "@ + l.last()
    }
}

pub open spec fn port_link(p: u16) -> Seq<char> {
    "["@ + crate::numfmt::spec_digits(p as int) + "](http://localhost:"@
        + crate::numfmt::spec_digits(p as int) + ")"@
}

pub open spec fn ports_links(ports: Seq<u16>) -> Seq<char>
    decreases ports.len(),
{
    if ports.len() == 0 {
        Seq::empty()
    } else if ports.len() == 1 {
        port_link(ports[0])
    } else {
        ports_links(ports.drop_last()) + ", "@ + port_link(ports.last())
    }
}

pub open spec fn spec_ports_md(ports: Seq<u16>) -> Seq<char> {
    if ports.len() == 0 {
        "-"@
    } else {
        ports_links(ports)
    }
}

pub open spec fn spec_vols_md(vols: Seq<Seq<char>>) -> Seq<char> {
    if vols.len() == 0 {
        "-"@
    } else {
        crate::numfmt::spec_digits(vols.len() as int)
    }
}

/// One row of the services overview table.
pub open spec fn spec_table_row(name: Seq<char>, s: SvcView) -> Seq<char> {
    "| "@ + name + " | "@ + spec_linkify(s.image) + " | "@ + spec_ports_md(s.ports) + " | "@
        + spec_vols_md(s.volumes) + " | "@ + spec_service_info(name, s) + " |\n"@
}

pub open spec fn spec_table_rows(entries: Seq<(Seq<char>, SvcView)>) -> Seq<char>
    decreases entries.len(),
{
    if entries.len() == 0 {
        Seq::empty()
    } else {
        spec_table_rows(entries.drop_last()) + spec_table_row(
            entries.last().0,
            entries.last().1,
        )
    }
}

pub open spec fn spec_name_bullets(ss: Seq<(Seq<char>, SvcView)>) -> Seq<char>
    decreases ss.len(),
{
    if ss.len() == 0 {
        Seq::empty()
    } else {
        spec_name_bullets(ss.drop_last()) + "- "@ + ss.last().0 + "\n"@
    }
}

/// Some service key, lowercased, equals the name.
pub open spec fn key_lower_is(ss: Seq<(Seq<char>, SvcView)>, name: Seq<char>) -> bool {
    exists|i: int| 0 <= i < ss.len() && lower_of((#[trigger] ss[i]).0) == name
}

pub open spec fn report_brand_badge() -> Seq<char> {
    "[![dx-anywhere](https://img.shields.io/badge/DX--Anywhere-CLI-1ED6FF?logo=data:image/svg+xml;base64,aHR0cHM6Ly9yYXcuZ2l0aHVidXNlcmNvbnRlbnQuY29tL2R4LWFueXdoZXJlL2R4LWNsaS9yZWZzL2hlYWRzL21haW4vaW1hZ2VzL2R4LWxvZ28uc3Zn)](#)"@
}

/// The badges the detected service names earn, by exact lowercased key,
/// in the alphabetical order the line shows them.
pub open spec fn spec_report_badges(ss: Seq<(Seq<char>, SvcView)>) -> Seq<Seq<char>> {
    (if key_lower_is(ss, "jobmanager"@) || key_lower_is(ss, "taskmanager"@) {
        seq![crate::badges::flink_badge()]
    } else {
        Seq::empty()
    }) + (if key_lower_is(ss, "kafka"@) {
        seq![crate::badges::kafka_badge()]
    } else {
        Seq::empty()
    }) + (if key_lower_is(ss, "mongodb"@) {
        seq![crate::badges::mongodb_badge()]
    } else {
        Seq::empty()
    }) + (if key_lower_is(ss, "mysql"@) {
        seq![crate::badges::mysql_badge()]
    } else {
        Seq::empty()
    }) + (if key_lower_is(ss, "postgres"@) {
        seq![crate::badges::postgres_badge()]
    } else {
        Seq::empty()
    }) + (if key_lower_is(ss, "redis"@) {
        seq![crate::badges::redis_badge()]
    } else {
        Seq::empty()
    })
}

pub open spec fn spec_report_badges_line(ss: Seq<(Seq<char>, SvcView)>) -> Seq<char> {
    let badges = spec_report_badges(ss);
    if badges.len() == 0 {
        report_brand_badge()
    } else {
        crate::badges::join_space(badges) + " "@ + report_brand_badge()
    }
}

pub open spec fn spec_report_head(dir: Seq<char>) -> Seq<char> {
    "# dx-cli _analyzer_\n\n"@ + "Projeto: "@ + dir + "\n\n"@
        + "[![dx-anywhere](https://img.shields.io/badge/DX--Anywhere-CLI-1ED6FF?logo=data:image/svg+xml;base64,aHR0cHM6Ly9yYXcuZ2l0aHVidXNlcmNvbnRlbnQuY29tL2R4LWFueXdoZXJlL2R4LWNsaS9yZWZzL2hlYWRzL21haW4vaW1hZ2VzL2R4LWxvZ28uc3Zn)](#) "@
        + "[![Report](https://img.shields.io/badge/Report-Markdown-informational)](#) "@
        + "[![Platform](https://img.shields.io/badge/Platform-Windows%20|%20macOS%20|%20Linux-green)](#)\n\n"@
        + "> \u{2139}\u{fe0f} Este relat\u{f3}rio resume o que o dx-cli aplicaria ao seu projeto: Dev Services, badges e pr\u{f3}ximas a\u{e7}\u{f5}es.\n\n"@
        + "## Tabela de Conte\u{fa}dos\n- [Resumo](#resumo)\n- [Dev Services](#dev-services)\n- [Badges para README.md](#badges-para-readmemd)\n- [Pr\u{f3}ximas A\u{e7}\u{f5}es](#pr\u{f3}ximas-a\u{e7}\u{f5}es)\n- [Outras Capabilities](#outras-capabilities)\n\n"@
        + "## Resumo\n\n"@
}

pub open spec fn spec_report_summary(c: crate::services::CfgView) -> Seq<char> {
    if c.services.len() == 0 {
        "- \u{1f6ab} Nenhuma depend\u{ea}ncia de servi\u{e7}o detectada\n"@
            + "- \u{1f4a1} Dica: adicione vari\u{e1}veis/.env ou depend\u{ea}ncias (Postgres, Redis, Kafka/Redpanda, MongoDB, Flink, etc.)\n\n"@
    } else {
        "- \u{2705} Servi\u{e7}os detectados: "@ + crate::numfmt::spec_digits(
            c.services.len() as int,
        ) + "\n"@ + "- \u{1f9e9} Lista: "@ + join_comma(
            sort_strings(Seq::new(c.services.len(), |i: int| c.services[i].0)),
        ) + "\n\n"@
    }
}

pub open spec fn spec_report_services(c: crate::services::CfgView) -> Seq<char> {
    "## Dev Services\n\n"@ + if c.services.len() == 0 {
        "Nenhuma depend\u{ea}ncia detectada.\n\n"@
    } else {
        "Servi\u{e7}os detectados:\n"@ + spec_name_bullets(c.services)
            + "\n### Vis\u{e3}o geral dos servi\u{e7}os\n\n"@
            + "| Servi\u{e7}o | Imagem | Portas | Volumes | Credenciais/Info |\n"@
            + "|--------|--------|--------|---------|------------------|\n"@
            + spec_table_rows(sort_services(c.services))
            + "\n### docker-compose.yaml proposto\n\n"@ + "<details>\n"@
            + "<summary>Mostrar YAML</summary>\n\n"@ + "```yaml\n"@
            + crate::services::spec_to_yaml(c) + "\n```\n"@ + "</details>\n\n"@
            + "> \u{1f4a1} Dica: ajuste portas/volumes conforme seu ambiente. Com Docker Compose v2, use `docker compose` em vez de `docker-compose`.\n\n"@
    }
}

pub open spec fn spec_report_badges_section(c: crate::services::CfgView) -> Seq<char> {
    let line = spec_report_badges_line(c.services);
    "## Badges para README.md\n\n"@
        + "Abaixo voc\u{ea} v\u{ea} as badges renderizadas. Em seguida, h\u{e1} um bloco colaps\u{e1}vel com o Markdown para copiar e colar entre os marcadores no seu README.md.\n\n"@
        + line + "\n\n"@ + "<details>\n"@
        + "<summary>Mostrar bloco de badges (Markdown)</summary>\n\n"@ + "```md\n"@
        + "<!-- dx-cli:badges:start -->\n"@ + line + "\n"@ + "<!-- dx-cli:badges:end -->\n"@
        + "```\n\n"@ + "</details>\n\n"@
}

pub open spec fn spec_report_tail() -> Seq<char> {
    "## Pr\u{f3}ximas A\u{e7}\u{f5}es\n\n"@
        + "- \u{1f9ea} Visualizar ajuda da CLI: `dx --help`\n"@
        + "- \u{1f9f1} Gerar/Salvar Dev Services: `dx dev-services`\n"@
        + "- \u{1f3f7}\u{fe0f} Aplicar badges: `dx dev-badges` (ou `dx dev-badges clean`)\n"@
        + "- \u{1fa7a} Reexecutar an\u{e1}lise: `dx analyzer`\n\n"@
        + "## Outras Capabilities\n\n"@
        + "- Dev Badges: aplicar badges das tecnologias detectadas (dx dev-badges)\n"@
        + "- Portal: Dev UI com integra\u{e7}\u{f5}es e opera\u{e7}\u{f5}es (dx portal)\n"@
        + "- Testes: gera\u{e7}\u{e3}o/execu\u{e7}\u{e3}o assistidas (dx tests)\n"@
        + "- Config: wizards e config tipada (dx config)\n"@
        + "- Docs: documenta\u{e7}\u{e3}o viva + Q&A (dx docs)\n"@
        + "- Governan\u{e7}a: guardrails e scorecards (dx governance)\n"@
        + "- Telemetria: observabilidade por padr\u{e3}o (inclusa no dev-services)\n\n"@
        + "---\nRelat\u{f3}rio gerado pelo dx-cli.\n"@
}

/// The whole analyzer report for a project directory and its proposed
/// service topology.
pub open spec fn spec_report(dir: Seq<char>, c: crate::services::CfgView) -> Seq<char> {
    spec_report_head(dir) + spec_report_summary(c) + spec_report_services(c)
        + spec_report_badges_section(c) + spec_report_tail()
}

/// Does some service key, lowercased, equal the name?
fn any_key_lower_is(config: &DockerComposeConfig, name: &str) -> (r: bool)
    ensures
        r == key_lower_is(config@.services, name@),
{
    let ghost ss = config@.services;
    let nv = to_chars(name);
    let mut i: usize = 0;
    while i < config.services.len()
        invariant
            i <= config.services@.len(),
            ss == config@.services,
            nv@ == name@,
            forall|m: int| 0 <= m < i ==> lower_of((#[trigger] ss[m]).0) != name@,
        decreases config.services@.len() - i,
    {
        assert(ss[i as int].0 == config.services@[i as int].0@);
        let low = lowercase(config.services[i].0.as_str());
        let lowv = to_chars(low.as_str());
        if chars_eq(&lowv, &nv) {
            proof {
                assert(lower_of(ss[i as int].0) == name@);
            }
            return true;
        }
        i = i + 1;
    }
    false
}

#[verifier::rlimit(100)]
#[verifier::spinoff_prover]
fn push_report_badges_line(out: &mut String, config: &DockerComposeConfig)
    ensures
        final(out)@ == old(out)@ + spec_report_badges_line(config@.services),
{
    let f_flink = any_key_lower_is(config, "jobmanager") || any_key_lower_is(
        config,
        "taskmanager",
    );
    let f_kafka = any_key_lower_is(config, "kafka");
    let f_mongodb = any_key_lower_is(config, "mongodb");
    let f_mysql = any_key_lower_is(config, "mysql");
    let f_postgres = any_key_lower_is(config, "postgres");
    let f_redis = any_key_lower_is(config, "redis");
    let mut badges: Vec<String> = Vec::new();
    if f_flink {
        badges.push(
            "[![Apache Flink](https://img.shields.io/badge/Flink-Dev_Service-orange?logo=apacheflink)](#)".to_owned(),
        );
    }
    if f_kafka {
        badges.push(
            "[![Kafka](https://img.shields.io/badge/Kafka-Dev_Service-black?logo=apachekafka)](#)".to_owned(),
        );
    }
    if f_mongodb {
        badges.push(
            "[![MongoDB](https://img.shields.io/badge/MongoDB-Dev_Service-green?logo=mongodb)](#)".to_owned(),
        );
    }
    if f_mysql {
        badges.push(
            "[![MySQL](https://img.shields.io/badge/MySQL-Dev_Service-blue?logo=mysql)](#)".to_owned(),
        );
    }
    if f_postgres {
        badges.push(
            "[![PostgreSQL](https://img.shields.io/badge/PostgreSQL-Dev_Service-blue?logo=postgresql)](#)".to_owned(),
        );
    }
    if f_redis {
        badges.push(
            "[![Redis](https://img.shields.io/badge/Redis-Dev_Service-red?logo=redis)](#)".to_owned(),
        );
    }
    let ghost bs = spec_report_badges(config@.services);
    proof {
        assert(badges.deep_view() =~~= bs);
    }
    let ghost base = out@;
    let mut k: usize = 0;
    while k < badges.len()
        invariant
            k <= badges@.len(),
            badges.deep_view() == bs,
            out@ == base + crate::badges::join_space(bs.take(k as int)),
        decreases badges@.len() - k,
    {
        assert(bs[k as int] == badges@[k as int]@);
        if k > 0 {
            out.append(" ");
        }
        out.append(badges[k].as_str());
        proof {
            assert(bs.take(k + 1).drop_last() =~= bs.take(k as int));
            assert(bs.take(k + 1).last() == bs[k as int]);
            if k == 0 {
                assert(crate::badges::join_space(bs.take(1)) == bs[0]);
            }
        }
        k = k + 1;
    }
    proof {
        assert(bs.take(bs.len() as int) =~= bs);
    }
    if badges.len() > 0 {
        out.append(" ");
    }
    out.append(
        "[![dx-anywhere](https://img.shields.io/badge/DX--Anywhere-CLI-1ED6FF?logo=data:image/svg+xml;base64,aHR0cHM6Ly9yYXcuZ2l0aHVidXNlcmNvbnRlbnQuY29tL2R4LWFueXdoZXJlL2R4LWNsaS9yZWZzL2hlYWRzL21haW4vaW1hZ2VzL2R4LWxvZ28uc3Zn)](#)",
    );
}

#[verifier::rlimit(80)]
fn push_table_row(out: &mut String, name: &str, svc: &DockerService)
    ensures
        final(out)@ == old(out)@ + spec_table_row(name@, svc@),
{
    out.append("| ");
    out.append(name);
    out.append(" | ");
    let link = linkify_image(svc.image.as_str());
    out.append(link.as_str());
    out.append(" | ");
    if svc.ports.len() == 0 {
        out.append("-");
    } else {
        let ghost base = out@;
        let mut k: usize = 0;
        while k < svc.ports.len()
            invariant
                k <= svc.ports@.len(),
                svc.ports@.len() > 0,
                k == 0 ==> out@ == base,
                k > 0 ==> out@ == base + ports_links(svc.ports@.take(k as int)),
            decreases svc.ports@.len() - k,
        {
            if k > 0 {
                out.append(", ");
            }
            let d = crate::numfmt::u64_to_string(svc.ports[k] as u64);
            out.append("[");
            out.append(d.as_str());
            out.append("](http://localhost:");
            out.append(d.as_str());
            out.append(")");
            proof {
                assert(svc.ports@.take(k + 1).drop_last() =~= svc.ports@.take(k as int));
                assert(svc.ports@.take(k + 1).last() == svc.ports@[k as int]);
                if k == 0 {
                    assert(ports_links(svc.ports@.take(1)) == port_link(svc.ports@[0]));
                }
            }
            k = k + 1;
        }
        proof {
            assert(svc.ports@.take(svc.ports@.len() as int) =~= svc.ports@);
        }
    }
    out.append(" | ");
    if svc.volumes.len() == 0 {
        out.append("-");
    } else {
        let d = crate::numfmt::u64_to_string(svc.volumes.len() as u64);
        out.append(d.as_str());
    }
    out.append(" | ");
    let info = service_info(name, svc);
    out.append(info.as_str());
    out.append(" |\n");
}


#[verifier::rlimit(80)]
fn push_report_head(out: &mut String, project_dir: &str)
    ensures
        final(out)@ == old(out)@ + spec_report_head(project_dir@),
{
    out.append("# dx-cli _analyzer_\n\n");
    out.append("Projeto: ");
    out.append(project_dir);
    out.append("\n\n");
    out.append(
        "[![dx-anywhere](https://img.shields.io/badge/DX--Anywhere-CLI-1ED6FF?logo=data:image/svg+xml;base64,aHR0cHM6Ly9yYXcuZ2l0aHVidXNlcmNvbnRlbnQuY29tL2R4LWFueXdoZXJlL2R4LWNsaS9yZWZzL2hlYWRzL21haW4vaW1hZ2VzL2R4LWxvZ28uc3Zn)](#) ",
    );
    out.append("[![Report](https://img.shields.io/badge/Report-Markdown-informational)](#) ");
    out.append(
        "[![Platform](https://img.shields.io/badge/Platform-Windows%20|%20macOS%20|%20Linux-green)](#)\n\n",
    );
    out.append(
        "> \u{2139}\u{fe0f} Este relat\u{f3}rio resume o que o dx-cli aplicaria ao seu projeto: Dev Services, badges e pr\u{f3}ximas a\u{e7}\u{f5}es.\n\n",
    );
    out.append(
        "## Tabela de Conte\u{fa}dos\n- [Resumo](#resumo)\n- [Dev Services](#dev-services)\n- [Badges para README.md](#badges-para-readmemd)\n- [Pr\u{f3}ximas A\u{e7}\u{f5}es](#pr\u{f3}ximas-a\u{e7}\u{f5}es)\n- [Outras Capabilities](#outras-capabilities)\n\n",
    );
    out.append("## Resumo\n\n");
}

#[verifier::rlimit(80)]
fn push_report_summary(out: &mut String, ds_config: &DockerComposeConfig)
    ensures
        final(out)@ == old(out)@ + spec_report_summary(ds_config@),
{
    if ds_config.services.len() == 0 {
        out.append("- \u{1f6ab} Nenhuma depend\u{ea}ncia de servi\u{e7}o detectada\n");
        out.append(
            "- \u{1f4a1} Dica: adicione vari\u{e1}veis/.env ou depend\u{ea}ncias (Postgres, Redis, Kafka/Redpanda, MongoDB, Flink, etc.)\n\n",
        );
    } else {
        out.append("- \u{2705} Servi\u{e7}os detectados: ");
        let d = crate::numfmt::u64_to_string(ds_config.services.len() as u64);
        out.append(d.as_str());
        out.append("\n");
        out.append("- \u{1f9e9} Lista: ");
        let names = sorted_service_names(ds_config);
        let ghost nsq = sort_strings(
            Seq::new(ds_config@.services.len(), |i: int| ds_config@.services[i].0),
        );
        let ghost base = out@;
        let mut k: usize = 0;
        while k < names.len()
            invariant
                k <= names@.len(),
                names.deep_view() == nsq,
                out@ == base + join_comma(nsq.take(k as int)),
            decreases names@.len() - k,
        {
            assert(nsq[k as int] == names@[k as int]@);
            if k > 0 {
                out.append(", ");
            }
            out.append(names[k].as_str());
            proof {
                assert(nsq.take(k + 1).drop_last() =~= nsq.take(k as int));
                assert(nsq.take(k + 1).last() == nsq[k as int]);
                if k == 0 {
                    assert(join_comma(nsq.take(1)) == nsq[0]);
                }
            }
            k = k + 1;
        }
        proof {
            assert(nsq.take(nsq.len() as int) =~= nsq);
        }
        out.append("\n\n");
    }
}

fn push_name_bullets(out: &mut String, ds_config: &DockerComposeConfig)
    ensures
        final(out)@ == old(out)@ + spec_name_bullets(ds_config@.services),
{
    let ghost ss = ds_config@.services;
    let ghost base = out@;
    proof {
        assert(base + spec_name_bullets(ss.take(0)) =~= base);
    }
    let mut i: usize = 0;
    while i < ds_config.services.len()
        invariant
            i <= ds_config.services@.len(),
            ss == ds_config@.services,
            out@ == base + spec_name_bullets(ss.take(i as int)),
        decreases ds_config.services@.len() - i,
    {
        assert(ss[i as int].0 == ds_config.services@[i as int].0@);
        out.append("- ");
        out.append(ds_config.services[i].0.as_str());
        out.append("\n");
        proof {
            assert(ss.take(i + 1).drop_last() =~= ss.take(i as int));
            assert(ss.take(i + 1).last() == ss[i as int]);
        }
        i = i + 1;
    }
    proof {
        assert(ss.take(ss.len() as int) =~= ss);
    }
}

fn push_table_rows(out: &mut String, ds_config: &DockerComposeConfig)
    ensures
        final(out)@ == old(out)@ + spec_table_rows(sort_services(ds_config@.services)),
{
    let ghost ss = ds_config@.services;
    let sorted = sorted_services(ds_config);
    let ghost es = sort_services(ss);
    let ghost base2 = out@;
    proof {
        assert(base2 + spec_table_rows(es.take(0)) =~= base2);
    }
    let mut j: usize = 0;
    while j < sorted.len()
        invariant
            j <= sorted@.len(),
            Seq::new(sorted@.len(), |m: int| (sorted@[m].0@, sorted@[m].1@)) =~~= es,
            es.len() == sorted@.len(),
            out@ == base2 + spec_table_rows(es.take(j as int)),
        decreases sorted@.len() - j,
    {
        proof {
            assert(es[j as int] == (sorted@[j as int].0@, sorted@[j as int].1@));
        }
        let name = sorted[j].0.clone();
        push_table_row(out, name.as_str(), &sorted[j].1);
        proof {
            assert(es.take(j + 1).drop_last() =~= es.take(j as int));
            assert(es.take(j + 1).last() == es[j as int]);
        }
        j = j + 1;
    }
    proof {
        assert(es.take(es.len() as int) =~= es);
    }
}

fn push_compose_details(out: &mut String, ds_config: &DockerComposeConfig)
    ensures
        final(out)@ == old(out)@ + "\n### docker-compose.yaml proposto\n\n"@ + "<details>\n"@
            + "<summary>Mostrar YAML</summary>\n\n"@ + "```yaml\n"@
            + crate::services::spec_to_yaml(ds_config@) + "\n```\n"@ + "</details>\n\n"@
            + "> \u{1f4a1} Dica: ajuste portas/volumes conforme seu ambiente. Com Docker Compose v2, use `docker compose` em vez de `docker-compose`.\n\n"@,
{
    out.append("\n### docker-compose.yaml proposto\n\n");
    out.append("<details>\n");
    out.append("<summary>Mostrar YAML</summary>\n\n");
    out.append("```yaml\n");
    let yaml = ds_config.to_yaml();
    out.append(yaml.as_str());
    out.append("\n```\n");
    out.append("</details>\n\n");
    out.append(
        "> \u{1f4a1} Dica: ajuste portas/volumes conforme seu ambiente. Com Docker Compose v2, use `docker compose` em vez de `docker-compose`.\n\n",
    );
}

#[verifier::rlimit(100)]
#[verifier::spinoff_prover]
fn push_report_services(out: &mut String, ds_config: &DockerComposeConfig)
    ensures
        final(out)@ == old(out)@ + spec_report_services(ds_config@),
{
    out.append("## Dev Services\n\n");
    if ds_config.services.len() == 0 {
        out.append("Nenhuma depend\u{ea}ncia detectada.\n\n");
        return ;
    }
    out.append("Servi\u{e7}os detectados:\n");
    push_name_bullets(out, ds_config);
    out.append("\n### Vis\u{e3}o geral dos servi\u{e7}os\n\n");
    out.append("| Servi\u{e7}o | Imagem | Portas | Volumes | Credenciais/Info |\n");
    out.append("|--------|--------|--------|---------|------------------|\n");
    push_table_rows(out, ds_config);
    push_compose_details(out, ds_config);
}

#[verifier::rlimit(80)]
fn push_report_badges_section(out: &mut String, ds_config: &DockerComposeConfig)
    ensures
        final(out)@ == old(out)@ + spec_report_badges_section(ds_config@),
{
    out.append("## Badges para README.md\n\n");
    out.append(
        "Abaixo voc\u{ea} v\u{ea} as badges renderizadas. Em seguida, h\u{e1} um bloco colaps\u{e1}vel com o Markdown para copiar e colar entre os marcadores no seu README.md.\n\n",
    );
    push_report_badges_line(out, ds_config);
    out.append("\n\n");
    out.append("<details>\n");
    out.append("<summary>Mostrar bloco de badges (Markdown)</summary>\n\n");
    out.append("```md\n");
    out.append("<!-- dx-cli:badges:start -->\n");
    push_report_badges_line(out, ds_config);
    out.append("\n");
    out.append("<!-- dx-cli:badges:end -->\n");
    out.append("```\n\n");
    out.append("</details>\n\n");
}

#[verifier::rlimit(80)]
fn push_report_tail(out: &mut String)
    ensures
        final(out)@ == old(out)@ + spec_report_tail(),
{
    out.append("## Pr\u{f3}ximas A\u{e7}\u{f5}es\n\n");
    out.append("- \u{1f9ea} Visualizar ajuda da CLI: `dx --help`\n");
    out.append("- \u{1f9f1} Gerar/Salvar Dev Services: `dx dev-services`\n");
    out.append("- \u{1f3f7}\u{fe0f} Aplicar badges: `dx dev-badges` (ou `dx dev-badges clean`)\n");
    out.append("- \u{1fa7a} Reexecutar an\u{e1}lise: `dx analyzer`\n\n");
    out.append("## Outras Capabilities\n\n");
    out.append("- Dev Badges: aplicar badges das tecnologias detectadas (dx dev-badges)\n");
    out.append("- Portal: Dev UI com integra\u{e7}\u{f5}es e opera\u{e7}\u{f5}es (dx portal)\n");
    out.append("- Testes: gera\u{e7}\u{e3}o/execu\u{e7}\u{e3}o assistidas (dx tests)\n");
    out.append("- Config: wizards e config tipada (dx config)\n");
    out.append("- Docs: documenta\u{e7}\u{e3}o viva + Q&A (dx docs)\n");
    out.append("- Governan\u{e7}a: guardrails e scorecards (dx governance)\n");
    out.append("- Telemetria: observabilidade por padr\u{e3}o (inclusa no dev-services)\n\n");
    out.append("---\nRelat\u{f3}rio gerado pelo dx-cli.\n");
}

/// Render the analyzer report for a project directory and the topology
/// its files earned.
pub fn build_analyzer_report(project_dir: &str, ds_config: &DockerComposeConfig) -> (r: String)
    ensures
        r@ == spec_report(project_dir@, ds_config@),
{
    let mut out = String::new();
    push_report_head(&mut out, project_dir);
    push_report_summary(&mut out, ds_config);
    push_report_services(&mut out, ds_config);
    push_report_badges_section(&mut out, ds_config);
    push_report_tail(&mut out);
    out
}

// ---------------------------------------------------------------------------
// Keeping the analyzer's output directory out of version control
// ---------------------------------------------------------------------------
/// Some line of the ignore file already names the output directory.
pub open spec fn spec_has_dx_entry(content: Seq<char>) -> bool {
    exists|i: int|
        0 <= i < crate::text::spec_lines(content).len() && {
            let t = crate::text::spec_trim(#[trigger] crate::text::spec_lines(content)[i]);
            t == ".dx"@ || t == "/.dx"@ || t == ".dx/"@
        }
}

/// The ignore text with a `.dx` entry guaranteed: unchanged when one is
/// already there, else the entry appended on its own line, with a
/// newline first when the text does not already end in one.
pub open spec fn spec_gitignore_with_dx(content: Seq<char>) -> (Seq<char>, bool) {
    if spec_has_dx_entry(content) {
        (content, false)
    } else if content.len() > 0 && content.last() != '\n' && content.last() != '\r' {
        (content + seq!['\n'] + ".dx\n"@, true)
    } else {
        (content + ".dx\n"@, true)
    }
}

/// Make sure an ignore file names the `.dx` output directory, appending
/// the entry when it is missing; the flag says whether anything changed.
pub fn gitignore_with_dx(content: &str) -> (r: (String, bool))
    ensures
        (r.0@, r.1) == spec_gitignore_with_dx(content@),
{
    let cv = to_chars(content);
    let lines = crate::text::split_lines(&cv);
    let ghost ls = crate::text::spec_lines(content@);
    let dx_plain = to_chars(".dx");
    let dx_slash = to_chars("/.dx");
    let dx_dir = to_chars(".dx/");
    let mut i: usize = 0;
    while i < lines.len()
        invariant
            i <= lines@.len(),
            lines.deep_view() == ls,
            ls == crate::text::spec_lines(content@),
            dx_plain@ == ".dx"@,
            dx_slash@ == "/.dx"@,
            dx_dir@ == ".dx/"@,
            forall|m: int|
                0 <= m < i ==> {
                    let t = crate::text::spec_trim(#[trigger] ls[m]);
                    t != ".dx"@ && t != "/.dx"@ && t != ".dx/"@
                },
        decreases lines@.len() - i,
    {
        assert(lines@[i as int].deep_view() == ls[i as int]);
        proof {
            assert(lines@[i as int].deep_view() =~= lines@[i as int]@);
        }
        let t = crate::text::trim(&lines[i]);
        if chars_eq(&t, &dx_plain) || chars_eq(&t, &dx_slash) || chars_eq(&t, &dx_dir) {
            proof {
                assert(spec_has_dx_entry(content@));
            }
            return (content.to_owned(), false);
        }
        i = i + 1;
    }
    proof {
        if spec_has_dx_entry(content@) {
            let w = choose|m: int|
                0 <= m < ls.len() && {
                    let t = crate::text::spec_trim(#[trigger] ls[m]);
                    t == ".dx"@ || t == "/.dx"@ || t == ".dx/"@
                };
            assert(crate::text::spec_trim(ls[w]) != ".dx"@);
        }
    }
    let mut out = content.to_owned();
    let needs_newline = cv.len() > 0 && {
        let last = cv[cv.len() - 1];
        last != '\n' && last != '\r'
    };
    if needs_newline {
        out.append("\n");
        proof {
            assert("\n"@ =~= seq!['\n']) by {
                reveal_strlit("\n");
            }
        }
    }
    out.append(".dx\n");
    (out, true)
}

} // verus!
