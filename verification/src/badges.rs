use vstd::prelude::*;
use vstd::string::StringExecFns;

use vstd::string::StrSliceExecFns;

use crate::text::chars_eq;
use crate::text::find_sub;
use crate::text::first_idx;
use crate::text::lemma_first_idx_bounds;
use crate::text::scan_char;
use crate::text::lower_of;
use crate::text::lowercase;
use crate::text::spec_find;
use crate::text::spec_lines;
use crate::text::spec_trim;
use crate::text::split_lines;
use crate::text::string_from_chars;
use crate::text::subrange_chars;
use crate::text::to_chars;
use crate::text::trim;

verus! {

// ---------------------------------------------------------------------------
// The badge catalog
// ---------------------------------------------------------------------------
pub open spec fn postgres_badge() -> Seq<char> {
    "[![PostgreSQL](https://img.shields.io/badge/PostgreSQL-Dev_Service-blue?logo=postgresql)](#)"@
}

pub open spec fn mysql_badge() -> Seq<char> {
    "[![MySQL](https://img.shields.io/badge/MySQL-Dev_Service-blue?logo=mysql)](#)"@
}

pub open spec fn mongodb_badge() -> Seq<char> {
    "[![MongoDB](https://img.shields.io/badge/MongoDB-Dev_Service-green?logo=mongodb)](#)"@
}

pub open spec fn redis_badge() -> Seq<char> {
    "[![Redis](https://img.shields.io/badge/Redis-Dev_Service-red?logo=redis)](#)"@
}

pub open spec fn kafka_badge() -> Seq<char> {
    "[![Kafka](https://img.shields.io/badge/Kafka-Dev_Service-black?logo=apachekafka)](#)"@
}

pub open spec fn flink_badge() -> Seq<char> {
    "[![Apache Flink](https://img.shields.io/badge/Flink-Dev_Service-orange?logo=apacheflink)](#)"@
}

pub open spec fn brand_badge() -> Seq<char> {
    "[![dx-anywhere](https://img.shields.io/badge/DX--Anywhere-CLI-1ED6FF?logo=https://raw.githubusercontent.com/dx-anywhere/dx-cli/HEAD/images/dx-logo.svg)](#)"@
}

/// Does some service name, lowercased, appear in the list?
pub open spec fn service_matches(services: Seq<Seq<char>>, names: Seq<Seq<char>>) -> bool {
    exists|i: int| 0 <= i < services.len() && names.contains(lower_of(#[trigger] services[i]))
}

pub open spec fn postgres_names() -> Seq<Seq<char>> {
    seq!["postgres"@, "postgresql"@]
}

pub open spec fn mysql_names() -> Seq<Seq<char>> {
    seq!["mysql"@, "mariadb"@]
}

pub open spec fn mongodb_names() -> Seq<Seq<char>> {
    seq!["mongodb"@]
}

pub open spec fn redis_names() -> Seq<Seq<char>> {
    seq!["redis"@]
}

pub open spec fn kafka_names() -> Seq<Seq<char>> {
    seq!["kafka"@]
}

pub open spec fn flink_names() -> Seq<Seq<char>> {
    seq!["flink"@, "jobmanager"@, "taskmanager"@]
}

/// The badges the services earn, in the alphabetical order the line
/// shows them.
pub open spec fn spec_included_badges(services: Seq<Seq<char>>) -> Seq<Seq<char>> {
    (if service_matches(services, flink_names()) {
        seq![flink_badge()]
    } else {
        Seq::empty()
    }) + (if service_matches(services, kafka_names()) {
        seq![kafka_badge()]
    } else {
        Seq::empty()
    }) + (if service_matches(services, mongodb_names()) {
        seq![mongodb_badge()]
    } else {
        Seq::empty()
    }) + (if service_matches(services, mysql_names()) {
        seq![mysql_badge()]
    } else {
        Seq::empty()
    }) + (if service_matches(services, postgres_names()) {
        seq![postgres_badge()]
    } else {
        Seq::empty()
    }) + (if service_matches(services, redis_names()) {
        seq![redis_badge()]
    } else {
        Seq::empty()
    })
}

pub open spec fn join_space(l: Seq<Seq<char>>) -> Seq<char>
    decreases l.len(),
{
    if l.len() == 0 {
        Seq::empty()
    } else if l.len() == 1 {
        l[0]
    } else {
        join_space(l.drop_last()) + " "@ + l.last()
    }
}

/// The badge line: the earned badges joined by spaces, the brand badge
/// always last.
pub open spec fn spec_badges_line(services: Seq<Seq<char>>) -> Seq<char> {
    let badges = spec_included_badges(services);
    if badges.len() == 0 {
        brand_badge()
    } else {
        join_space(badges) + " "@ + brand_badge()
    }
}

/// Does any service, lowercased, equal one of the names?
fn matches_any(services: &Vec<String>, names: &Vec<String>) -> (r: bool)
    ensures
        r == service_matches(services.deep_view(), names.deep_view()),
{
    let ghost ss = services.deep_view();
    let ghost ns = names.deep_view();
    let mut i: usize = 0;
    while i < services.len()
        invariant
            i <= services@.len(),
            ss == services.deep_view(),
            ns == names.deep_view(),
            forall|m: int| 0 <= m < i ==> !ns.contains(lower_of(#[trigger] ss[m])),
        decreases services@.len() - i,
    {
        assert(ss[i as int] == services@[i as int]@);
        let low = lowercase(services[i].as_str());
        let lowv = to_chars(low.as_str());
        let mut k: usize = 0;
        while k < names.len()
            invariant
                k <= names@.len(),
                ss == services.deep_view(),
                ns == names.deep_view(),
                lowv@ == lower_of(ss[i as int]),
                i < ss.len(),
                forall|m: int| 0 <= m < k ==> ns[m] != lower_of(ss[i as int]),
            decreases names@.len() - k,
        {
            assert(ns[k as int] == names@[k as int]@);
            let nv = to_chars(names[k].as_str());
            if chars_eq(&lowv, &nv) {
                proof {
                    assert(ns.contains(lower_of(ss[i as int])));
                }
                return true;
            }
            k = k + 1;
        }
        proof {
            if ns.contains(lower_of(ss[i as int])) {
                let w = choose|m: int| 0 <= m < ns.len() && ns[m] == lower_of(ss[i as int]);
                assert(ns[w] != lower_of(ss[i as int]));
            }
        }
        i = i + 1;
    }
    false
}

/// The Markdown badge line for the given service names: one badge per
/// recognized service kind, alphabetical, the brand badge appended.
pub fn generate_badges_markdown(services: &Vec<String>) -> (r: String)
    ensures
        r@ == spec_badges_line(services.deep_view()),
{
    let flink_ns: Vec<String> = vec![
        "flink".to_owned(),
        "jobmanager".to_owned(),
        "taskmanager".to_owned(),
    ];
    let kafka_ns: Vec<String> = vec!["kafka".to_owned()];
    let mongodb_ns: Vec<String> = vec!["mongodb".to_owned()];
    let mysql_ns: Vec<String> = vec!["mysql".to_owned(), "mariadb".to_owned()];
    let postgres_ns: Vec<String> = vec!["postgres".to_owned(), "postgresql".to_owned()];
    let redis_ns: Vec<String> = vec!["redis".to_owned()];
    proof {
        assert(flink_ns.deep_view() =~~= flink_names());
        assert(kafka_ns.deep_view() =~~= kafka_names());
        assert(mongodb_ns.deep_view() =~~= mongodb_names());
        assert(mysql_ns.deep_view() =~~= mysql_names());
        assert(postgres_ns.deep_view() =~~= postgres_names());
        assert(redis_ns.deep_view() =~~= redis_names());
    }
    let mut badges: Vec<String> = Vec::new();
    if matches_any(services, &flink_ns) {
        badges.push(
            "[![Apache Flink](https://img.shields.io/badge/Flink-Dev_Service-orange?logo=apacheflink)](#)".to_owned(),
        );
    }
    if matches_any(services, &kafka_ns) {
        badges.push(
            "[![Kafka](https://img.shields.io/badge/Kafka-Dev_Service-black?logo=apachekafka)](#)".to_owned(),
        );
    }
    if matches_any(services, &mongodb_ns) {
        badges.push(
            "[![MongoDB](https://img.shields.io/badge/MongoDB-Dev_Service-green?logo=mongodb)](#)".to_owned(),
        );
    }
    if matches_any(services, &mysql_ns) {
        badges.push(
            "[![MySQL](https://img.shields.io/badge/MySQL-Dev_Service-blue?logo=mysql)](#)".to_owned(),
        );
    }
    if matches_any(services, &postgres_ns) {
        badges.push(
            "[![PostgreSQL](https://img.shields.io/badge/PostgreSQL-Dev_Service-blue?logo=postgresql)](#)".to_owned(),
        );
    }
    if matches_any(services, &redis_ns) {
        badges.push(
            "[![Redis](https://img.shields.io/badge/Redis-Dev_Service-red?logo=redis)](#)".to_owned(),
        );
    }
    let ghost bs = spec_included_badges(services.deep_view());
    proof {
        assert(badges.deep_view() =~~= bs);
    }
    let mut out = String::new();
    let mut k: usize = 0;
    while k < badges.len()
        invariant
            k <= badges@.len(),
            badges.deep_view() == bs,
            out@ == join_space(bs.take(k as int)),
        decreases badges@.len() - k,
    {
        assert(bs[k as int] == badges@[k as int]@);
        if k > 0 {
            out.append(" ");
        }
        out.append(badges[k].as_str());
        proof {
            assert(bs.take(k + 1).drop_last() =~= bs.take(k as int));
            assert(bs.take(k + 1).last() == bs[k as int]);
            if k == 0 {
                assert(join_space(bs.take(1)) == bs[0]);
            }
        }
        k = k + 1;
    }
    proof {
        assert(bs.take(bs.len() as int) =~= bs);
    }
    if badges.len() > 0 {
        out.append(" ");
    }
    out.append(
        "[![dx-anywhere](https://img.shields.io/badge/DX--Anywhere-CLI-1ED6FF?logo=https://raw.githubusercontent.com/dx-anywhere/dx-cli/HEAD/images/dx-logo.svg)](#)",
    );
    out
}

// ---------------------------------------------------------------------------
// Tidying text after removing a block
// ---------------------------------------------------------------------------
pub open spec fn is_blank(line: Seq<char>) -> bool {
    spec_trim(line).len() == 0
}

/// One line's effect: keep it unless it is a second blank line in a row.
pub open spec fn collapse_step(st: (Seq<char>, bool), line: Seq<char>) -> (Seq<char>, bool) {
    let blank = is_blank(line);
    if blank && st.1 {
        (st.0, blank)
    } else {
        (st.0 + line + "\n"@, blank)
    }
}

pub open spec fn spec_collapse_lines(lines: Seq<Seq<char>>) -> (Seq<char>, bool)
    decreases lines.len(),
{
    if lines.len() == 0 {
        (Seq::empty(), false)
    } else {
        collapse_step(spec_collapse_lines(lines.drop_last()), lines.last())
    }
}

/// The text with every run of blank lines shortened to a single one,
/// each kept line ending in a newline.
pub open spec fn spec_collapse_blank_lines(s: Seq<char>) -> Seq<char> {
    spec_collapse_lines(spec_lines(s)).0
}

/// Shorten runs of blank lines to one.
pub fn collapse_blank_lines(s: &str) -> (r: String)
    ensures
        r@ == spec_collapse_blank_lines(s@),
{
    let sv = to_chars(s);
    let lines = split_lines(&sv);
    let ghost ls = spec_lines(s@);
    let mut out = String::new();
    let mut prev_blank = false;
    proof {
        assert(ls.take(0) =~= Seq::<Seq<char>>::empty());
    }
    let mut i: usize = 0;
    while i < lines.len()
        invariant
            i <= lines@.len(),
            lines.deep_view() == ls,
            ls == spec_lines(s@),
            (out@, prev_blank) == spec_collapse_lines(ls.take(i as int)),
        decreases lines@.len() - i,
    {
        let ghost line = ls[i as int];
        assert(lines@[i as int].deep_view() == ls[i as int]);
        proof {
            assert(lines@[i as int].deep_view() =~= lines@[i as int]@);
        }
        let t = trim(&lines[i]);
        let blank = t.len() == 0;
        if !(blank && prev_blank) {
            let linestr = string_from_chars(&lines[i]);
            out.append(linestr.as_str());
            out.append("\n");
        }
        prev_blank = blank;
        proof {
            assert(ls.take(i + 1).drop_last() =~= ls.take(i as int));
            assert(ls.take(i + 1).last() == line);
        }
        i = i + 1;
    }
    proof {
        assert(ls.take(ls.len() as int) =~= ls);
    }
    out
}

// ---------------------------------------------------------------------------
// The marked badge block inside a README text
// ---------------------------------------------------------------------------
pub open spec fn start_marker() -> Seq<char> {
    "<!-- dx-cli:badges:start -->"@
}

pub open spec fn end_marker() -> Seq<char> {
    "<!-- dx-cli:badges:end -->"@
}

/// What removing the badge block leaves: the text around the block,
/// with blank-line runs collapsed; text without a complete block is
/// returned untouched.
pub open spec fn spec_remove_badges(content: Seq<char>) -> (Seq<char>, bool) {
    match spec_find(content, 0, start_marker()) {
        None => (content, false),
        Some(st) => match spec_find(content, 0, end_marker()) {
            None => (content, false),
            Some(e) => {
                let stripped = content.take(st) + content.subrange(
                    e + end_marker().len(),
                    content.len() as int,
                );
                (spec_collapse_lines(spec_lines(stripped)).0, true)
            },
        },
    }
}

/// Remove the badge block between the markers, if both are present, and
/// tidy the blank lines around the cut.
pub fn remove_badges_in_content(content: &str) -> (r: (String, bool))
    ensures
        (r.0@, r.1) == spec_remove_badges(content@),
{
    let cv = to_chars(content);
    let start_pat = to_chars("<!-- dx-cli:badges:start -->");
    let end_pat = to_chars("<!-- dx-cli:badges:end -->");
    let st = match find_sub(&cv, 0, &start_pat) {
        None => {
            return (content.to_owned(), false);
        },
        Some(st) => st,
    };
    let e = match find_sub(&cv, 0, &end_pat) {
        None => {
            return (content.to_owned(), false);
        },
        Some(e) => e,
    };
    let before = subrange_chars(&cv, 0, st);
    proof {
        assert(cv@.len() == cv.len());
    }
    let after = subrange_chars(&cv, e + end_pat.len(), cv.len());
    let mut stripped = string_from_chars(&before);
    let afters = string_from_chars(&after);
    stripped.append(afters.as_str());
    proof {
        assert(before@ =~= cv@.take(st as int));
    }
    let cleaned = collapse_blank_lines(stripped.as_str());
    (cleaned, true)
}

// ---------------------------------------------------------------------------
// Placing the badge block inside a README text
// ---------------------------------------------------------------------------
/// The marked block that carries one badge line.
pub open spec fn badge_block(line: Seq<char>) -> Seq<char> {
    start_marker() + seq!['\n'] + line + seq!['\n'] + end_marker() + seq!['\n']
}

/// A line that opens a Markdown heading once its indentation is gone.
pub open spec fn is_heading(line: Seq<char>) -> bool {
    spec_trim(line).len() > 0 && spec_trim(line)[0] == '#'
}

/// The position just after the first heading line at or past `pos`, or
/// a negative answer when no heading follows.
pub open spec fn heading_end_pos(content: Seq<char>, pos: int) -> int
    decreases content.len() - pos,
    when 0 <= pos <= content.len()
    via heading_end_pos_dec
{
    let nl = pos + first_idx(content.subrange(pos, content.len() as int), '\n');
    let line = content.subrange(pos, nl);
    if is_heading(line) {
        nl
    } else if nl == content.len() {
        -1
    } else {
        heading_end_pos(content, nl + 1)
    }
}

#[via_fn]
proof fn heading_end_pos_dec(content: Seq<char>, pos: int) {
    lemma_first_idx_bounds(content.subrange(pos, content.len() as int), '\n');
}

/// Where the block goes into a text without one: right after the first
/// heading line, or after the first line when no heading exists.
pub open spec fn spec_insert_at(content: Seq<char>) -> int {
    let h = heading_end_pos(content, 0);
    if h > 0 {
        h
    } else {
        first_idx(content, '\n') + 1
    }
}

/// What the upsert leaves behind: a text with a complete marked block
/// has it replaced in place; otherwise the block is inserted below the
/// first heading, or after the first line, or appended to a one-line
/// text.  A text whose end marker comes before its start marker is
/// returned untouched.
pub open spec fn spec_upsert_badges(content: Seq<char>, line: Seq<char>) -> Seq<char> {
    let block = badge_block(line);
    match spec_find(content, 0, start_marker()) {
        Some(st) => match spec_find(content, 0, end_marker()) {
            Some(e) => if st <= e {
                content.take(st) + block + content.subrange(
                    e + end_marker().len(),
                    content.len() as int,
                )
            } else {
                content
            },
            None => spec_insert_block(content, block),
        },
        None => spec_insert_block(content, block),
    }
}

pub open spec fn spec_insert_block(content: Seq<char>, block: Seq<char>) -> Seq<char> {
    if first_idx(content, '\n') == content.len() {
        content + seq!['\n', '\n'] + block + seq!['\n']
    } else {
        let at = spec_insert_at(content);
        content.take(at) + seq!['\n'] + block + seq!['\n'] + content.subrange(
            at,
            content.len() as int,
        )
    }
}

/// Find where the block goes: just after the first heading line, or a
/// negative answer when the text has none.
fn find_heading_end(cv: &Vec<char>) -> (r: Option<usize>)
    ensures
        match r {
            Some(p) => heading_end_pos(cv@, 0) == p as int && p <= cv@.len(),
            None => heading_end_pos(cv@, 0) < 0,
        },
{
    let mut pos: usize = 0;
    loop
        invariant
            0 <= pos <= cv@.len(),
            heading_end_pos(cv@, 0) == heading_end_pos(cv@, pos as int),
        decreases cv@.len() - pos,
    {
        let ghost tail = cv@.subrange(pos as int, cv@.len() as int);
        let nl = scan_char(cv, pos, '\n');
        proof {
            lemma_first_idx_bounds(tail, '\n');
        }
        let linev = crate::text::subrange_chars(cv, pos, nl);
        let t = trim(&linev);
        let heading = t.len() > 0 && t[0] == '#';
        proof {
            assert(linev@ == cv@.subrange(pos as int, nl as int));
            assert(heading == is_heading(cv@.subrange(pos as int, nl as int)));
        }
        if heading {
            return Some(nl);
        }
        if nl == cv.len() {
            return None;
        }
        pos = nl + 1;
    }
}

/// Write the badge line into a README text: replace the marked block in
/// place when one is there, else insert a fresh block below the first
/// heading.
pub fn upsert_badges_in_content(content: &str, badges_line: &str) -> (r: String)
    ensures
        r@ == spec_upsert_badges(content@, badges_line@),
{
    let cv = to_chars(content);
    let lv = to_chars(badges_line);
    let ghost block = badge_block(badges_line@);
    let start_pat = to_chars("<!-- dx-cli:badges:start -->");
    let end_pat = to_chars("<!-- dx-cli:badges:end -->");
    let mut blocks = String::new();
    blocks.append("<!-- dx-cli:badges:start -->");
    blocks.append("\n");
    blocks.append(badges_line);
    blocks.append("\n");
    blocks.append("<!-- dx-cli:badges:end -->");
    blocks.append("\n");
    proof {
        assert("\n"@ =~= seq!['\n']) by {
            reveal_strlit("\n");
        }
        assert(blocks@ == block);
    }
    let found_start = find_sub(&cv, 0, &start_pat);
    let found_end = find_sub(&cv, 0, &end_pat);
    if let (Some(st), Some(e)) = (found_start, found_end) {
        if st <= e {
            let before = crate::text::subrange_chars(&cv, 0, st);
            proof {
                assert(cv@.len() == cv.len());
            }
            let after = crate::text::subrange_chars(&cv, e + end_pat.len(), cv.len());
            let mut out = string_from_chars(&before);
            out.append(blocks.as_str());
            let afters = string_from_chars(&after);
            out.append(afters.as_str());
            proof {
                assert(before@ =~= cv@.take(st as int));
            }
            return out;
        }
        return content.to_owned();
    }
    // No complete block: insert one.
    let first_nl = scan_char(&cv, 0, '\n');
    proof {
        assert(cv@.subrange(0, cv@.len() as int) =~= cv@);
        lemma_first_idx_bounds(cv@, '\n');
    }
    if first_nl == cv.len() {
        let mut out = content.to_owned();
        out.append("\n\n");
        out.append(blocks.as_str());
        out.append("\n");
        proof {
            assert("\n\n"@ =~= seq!['\n', '\n']) by {
                reveal_strlit("\n\n");
            }
        }
        return out;
    }
    let at = match find_heading_end(&cv) {
        Some(p) => {
            if p > 0 {
                p
            } else {
                first_nl + 1
            }
        },
        None => first_nl + 1,
    };
    proof {
        assert(at == spec_insert_at(cv@));
        assert(at <= cv@.len());
    }
    let before = crate::text::subrange_chars(&cv, 0, at);
    let after = crate::text::subrange_chars(&cv, at, cv.len());
    let mut out = string_from_chars(&before);
    out.append("\n");
    out.append(blocks.as_str());
    out.append("\n");
    let afters = string_from_chars(&after);
    out.append(afters.as_str());
    proof {
        assert(before@ =~= cv@.take(at as int));
    }
    out
}

} // verus!
