use vstd::prelude::*;

use vstd::string::StringExecFns;

use crate::omap::Entry;
use crate::omap::lex_lt;
use crate::omap::StrMap;
use crate::omap::entries_insert;
use crate::omap::entries_remove;
use crate::omap::sorted_keys;
use crate::text::first_idx;
use crate::text::lemma_first_idx_bounds;
use crate::text::lemma_lines_snoc;
use crate::text::lemma_spec_find;
use crate::text::lemma_spec_find_exact;
use crate::text::lemma_trim_end_bounds;
use crate::text::lemma_trim_start_bounds;
use crate::text::matches_at;
use crate::text::spec_contains;
use crate::text::spec_find;
use crate::text::spec_lines;
use crate::text::spec_trim;
use crate::text::trim_end_idx;
use crate::text::trim_start_idx;
use crate::text::split_lines;
use crate::text::string_from_chars;
use crate::text::subrange_chars;
use crate::text::find_sub;
use crate::text::to_chars;
use crate::text::trim;

verus! {

// ---------------------------------------------------------------------------
// The requirements text dialect: one dependency per line, `name==version`
// or a bare `name` meaning "any version"; comments and blanks are skipped.
// ---------------------------------------------------------------------------
pub open spec fn eqeq() -> Seq<char> {
    seq!['=', '=']
}

pub open spec fn star() -> Seq<char> {
    seq!['*']
}

pub open spec fn newline() -> Seq<char> {
    seq!['\n']
}

/// The dependency a single line declares, if any.
pub open spec fn req_line_entry(line: Seq<char>) -> Option<Entry> {
    let t = spec_trim(line);
    if t.len() == 0 || t[0] == '#' {
        None
    } else {
        match spec_find(t, 0, eqeq()) {
            Some(i) => Some(
                (spec_trim(t.take(i)), spec_trim(t.subrange(i + 2, t.len() as int))),
            ),
            None => Some((t, star())),
        }
    }
}

pub open spec fn spec_parse_requirements_lines(lines: Seq<Seq<char>>) -> Seq<Entry>
    decreases lines.len(),
{
    if lines.len() == 0 {
        Seq::empty()
    } else {
        let prev = spec_parse_requirements_lines(lines.drop_last());
        match req_line_entry(lines.last()) {
            Some(e) => entries_insert(prev, e.0, e.1),
            None => prev,
        }
    }
}

/// The name-to-version entries a requirements text declares, in key order;
/// a name repeated on a later line wins.
pub open spec fn spec_parse_requirements(s: Seq<char>) -> Seq<Entry> {
    spec_parse_requirements_lines(spec_lines(s))
}

pub proof fn lemma_parse_requirements_sorted(lines: Seq<Seq<char>>)
    ensures
        sorted_keys(spec_parse_requirements_lines(lines)),
    decreases lines.len(),
{
    if lines.len() > 0 {
        lemma_parse_requirements_sorted(lines.drop_last());
        match req_line_entry(lines.last()) {
            Some(e) => {
                crate::omap::lemma_insert_sorted(
                    spec_parse_requirements_lines(lines.drop_last()),
                    e.0,
                    e.1,
                );
            },
            None => {},
        }
    }
}

/// Parse a requirements text into its dependency map.
pub fn parse_requirements(content: &str) -> (r: StrMap)
    ensures
        r@ == spec_parse_requirements(content@),
        r.wf(),
{
    let cv = to_chars(content);
    let lines = split_lines(&cv);
    let ghost ls = spec_lines(content@);
    let mut m = StrMap::new();
    proof {
        assert(ls.take(0) =~= Seq::<Seq<char>>::empty());
    }
    let mut i: usize = 0;
    while i < lines.len()
        invariant
            i <= lines@.len(),
            lines.deep_view() == ls,
            ls == spec_lines(content@),
            m.wf(),
            m@ == spec_parse_requirements_lines(ls.take(i as int)),
        decreases lines@.len() - i,
    {
        let ghost line = ls[i as int];
        assert(lines@[i as int].deep_view() == ls[i as int]);
        proof {
            assert(lines@[i as int].deep_view() =~= lines@[i as int]@);
        }
        let t = trim(&lines[i]);
        assert(t@ == spec_trim(line));
        if t.len() == 0 || t[0] == '#' {
            assert(req_line_entry(line) is None);
        } else {
            let pat: Vec<char> = vec!['=', '='];
            assert(pat@ =~= eqeq());
            match find_sub(&t, 0, &pat) {
                Some(ix) => {
                    let name_part = subrange_chars(&t, 0, ix);
                    let name = trim(&name_part);
                    let ver_part = subrange_chars(&t, ix + 2, t.len());
                    let ver = trim(&ver_part);
                    proof {
                        assert(name_part@ =~= t@.take(ix as int));
                        assert(req_line_entry(line) == Some(
                            (spec_trim(t@.take(ix as int)), spec_trim(
                                t@.subrange(ix + 2, t@.len() as int),
                            )),
                        ));
                    }
                    let names = string_from_chars(&name);
                    let vers = string_from_chars(&ver);
                    m.insert(names.as_str(), vers.as_str());
                },
                None => {
                    let names = string_from_chars(&t);
                    m.insert(names.as_str(), "*");
                    proof {
                        assert("*"@ =~= star()) by {
                            reveal_strlit("*");
                        }
                    }
                },
            }
        }
        proof {
            assert(ls.take(i + 1).drop_last() =~= ls.take(i as int));
            assert(ls.take(i + 1).last() == line);
        }
        i = i + 1;
    }
    proof {
        assert(ls.take(ls.len() as int) =~= ls);
    }
    m
}

// ---------------------------------------------------------------------------
// Writing the map back out
// ---------------------------------------------------------------------------
/// The line written for one entry: `name` alone for a wildcard, else
/// `name==version`, each with a trailing newline.
pub open spec fn req_entry_line(e: Entry) -> Seq<char> {
    if e.1 == star() {
        e.0 + newline()
    } else {
        e.0 + eqeq() + e.1 + newline()
    }
}

pub open spec fn spec_write_requirements(s: Seq<Entry>) -> Seq<char>
    decreases s.len(),
{
    if s.len() == 0 {
        Seq::empty()
    } else {
        spec_write_requirements(s.drop_last()) + req_entry_line(s.last())
    }
}

/// Serialize the dependency map, one line per entry, in key order.
pub fn write_requirements(m: &StrMap) -> (r: String)
    ensures
        r@ == spec_write_requirements(m@),
{
    let mut out = String::new();
    let mut i: usize = 0;
    proof {
        assert(m@.take(0) =~= Seq::<Entry>::empty());
    }
    while i < m.len()
        invariant
            i <= m@.len(),
            out@ == spec_write_requirements(m@.take(i as int)),
        decreases m@.len() - i,
    {
        let k = m.key_at(i);
        let v = m.val_at(i);
        let is_star = {
            let vc = to_chars(v.as_str());
            vc.len() == 1 && vc[0] == '*'
        };
        out.append(k.as_str());
        if is_star {
            proof {
                assert(v@ =~= star());
            }
        } else {
            proof {
                assert(v@ != star());
            }
            out.append("==");
            out.append(v.as_str());
            proof {
                assert("=="@ =~= eqeq()) by {
                    reveal_strlit("==");
                }
            }
        }
        out.append("\n");
        proof {
            assert("\n"@ =~= newline()) by {
                reveal_strlit("\n");
            }
            assert(m@.take(i + 1).drop_last() =~= m@.take(i as int));
            assert(m@.take(i + 1).last() == m@[i as int]);
        }
        i = i + 1;
    }
    proof {
        assert(m@.take(m@.len() as int) =~= m@);
    }
    out
}

// ---------------------------------------------------------------------------
// The mutating operations, text to text
// ---------------------------------------------------------------------------
/// Add `name` at `version` (or a wildcard) to a requirements text; an
/// existing entry of that name is overwritten.
pub fn requirements_add(content: &str, name: &str, version: Option<&str>) -> (r: String)
    ensures
        r@ == spec_write_requirements(
            entries_insert(
                spec_parse_requirements(content@),
                name@,
                match version {
                    Some(v) => v@,
                    None => star(),
                },
            ),
        ),
{
    let mut m = parse_requirements(content);
    proof {
        lemma_parse_requirements_sorted(spec_lines(content@));
    }
    match version {
        Some(v) => m.insert(name, v),
        None => {
            m.insert(name, "*");
            proof {
                assert("*"@ =~= star()) by {
                    reveal_strlit("*");
                }
            }
        },
    }
    write_requirements(&m)
}

/// Rewrite each resolved name to its resolved version; names the resolver
/// did not answer for stay as they are.
pub fn requirements_update(content: &str, resolved: &Vec<(String, String)>) -> (r: String)
    ensures
        r@ == spec_write_requirements(
            apply_resolved(spec_parse_requirements(content@), resolved.deep_view()),
        ),
{
    let mut m = parse_requirements(content);
    proof {
        lemma_parse_requirements_sorted(spec_lines(content@));
        assert(resolved.deep_view().take(0) =~= Seq::<Entry>::empty());
    }
    let mut i: usize = 0;
    while i < resolved.len()
        invariant
            i <= resolved@.len(),
            m.wf(),
            m@ == apply_resolved(spec_parse_requirements(content@), resolved.deep_view().take(i as int)),
        decreases resolved@.len() - i,
    {
        assert(resolved.deep_view()[i as int] == (resolved@[i as int].0@, resolved@[i as int].1@));
        m.insert(resolved[i].0.as_str(), resolved[i].1.as_str());
        proof {
            let rs = resolved.deep_view();
            assert(rs.take(i + 1).drop_last() =~= rs.take(i as int));
            assert(rs.take(i + 1).last() == rs[i as int]);
        }
        i = i + 1;
    }
    proof {
        assert(resolved.deep_view().take(resolved.deep_view().len() as int) =~= resolved.deep_view());
    }
    write_requirements(&m)
}

/// Fold a list of (name, version) pairs into the map, left to right.
pub open spec fn apply_resolved(s: Seq<Entry>, resolved: Seq<Entry>) -> Seq<Entry>
    decreases resolved.len(),
{
    if resolved.len() == 0 {
        s
    } else {
        entries_insert(
            apply_resolved(s, resolved.drop_last()),
            resolved.last().0,
            resolved.last().1,
        )
    }
}

pub proof fn lemma_apply_resolved_sorted(s: Seq<Entry>, resolved: Seq<Entry>)
    requires
        sorted_keys(s),
    ensures
        sorted_keys(apply_resolved(s, resolved)),
    decreases resolved.len(),
{
    if resolved.len() > 0 {
        lemma_apply_resolved_sorted(s, resolved.drop_last());
        crate::omap::lemma_insert_sorted(
            apply_resolved(s, resolved.drop_last()),
            resolved.last().0,
            resolved.last().1,
        );
    }
}

/// Drop `name` from a requirements text; without it the text only loses
/// its comments and blank lines.
pub fn requirements_delete(content: &str, name: &str) -> (r: String)
    ensures
        r@ == spec_write_requirements(
            entries_remove(spec_parse_requirements(content@), name@),
        ),
{
    let mut m = parse_requirements(content);
    proof {
        lemma_parse_requirements_sorted(spec_lines(content@));
    }
    m.remove(name);
    write_requirements(&m)
}

// ---------------------------------------------------------------------------
// The round trip: what is written is read back unchanged
// ---------------------------------------------------------------------------
/// A name the dialect can carry faithfully: non-empty, no surrounding
/// whitespace, not a comment opener, free of the version separator, not
/// ending in an equals sign, and on one line.
pub open spec fn valid_req_name(n: Seq<char>) -> bool {
    &&& n.len() > 0
    &&& spec_trim(n) == n
    &&& n[0] != '#'
    &&& !spec_contains(n, eqeq())
    &&& n[n.len() - 1] != '='
    &&& first_idx(n, '\n') == n.len()
}

/// A version the dialect can carry faithfully: the wildcard, or a value
/// without surrounding whitespace on one line.
pub open spec fn valid_req_version(v: Seq<char>) -> bool {
    v == star() || (spec_trim(v) == v && first_idx(v, '\n') == v.len())
}

pub open spec fn valid_req_entry(e: Entry) -> bool {
    valid_req_name(e.0) && valid_req_version(e.1)
}

pub open spec fn all_valid_req_entries(s: Seq<Entry>) -> bool {
    forall|i: int| 0 <= i < s.len() ==> valid_req_entry(#[trigger] s[i])
}

/// An entry's line without its newline.
pub open spec fn req_line_body(e: Entry) -> Seq<char> {
    if e.1 == star() {
        e.0
    } else {
        e.0 + eqeq() + e.1
    }
}

/// A string equal to its own trim neither starts nor ends in whitespace.
proof fn lemma_trimmed_ends(n: Seq<char>)
    requires
        spec_trim(n) == n,
        n.len() > 0,
    ensures
        !crate::text::is_space(n[0]),
        !crate::text::is_space(n[n.len() - 1]),
{
    lemma_trim_start_bounds(n, 0);
    lemma_trim_end_bounds(n, n.len() as int);
    let a = trim_start_idx(n, 0);
    let b = trim_end_idx(n, n.len() as int);
    if a > b {
        assert(n =~= Seq::<char>::empty());
    } else {
        assert(n.subrange(a, b).len() == n.len());
        assert(a == 0 && b == n.len());
        if crate::text::is_space(n[0]) {
            assert(trim_start_idx(n, 0) == trim_start_idx(n, 1));
            lemma_trim_start_bounds(n, 1);
        }
        if crate::text::is_space(n[n.len() - 1]) {
            assert(trim_end_idx(n, n.len() as int) == trim_end_idx(n, n.len() - 1));
            lemma_trim_end_bounds(n, n.len() - 1);
        }
    }
}

/// A valid entry's line body holds no newline.
proof fn lemma_body_no_newline(e: Entry)
    requires
        valid_req_entry(e),
    ensures
        first_idx(req_line_body(e), '\n') == req_line_body(e).len(),
{
    let body = req_line_body(e);
    lemma_first_idx_bounds(body, '\n');
    lemma_first_idx_bounds(e.0, '\n');
    lemma_first_idx_bounds(e.1, '\n');
    if first_idx(body, '\n') < body.len() {
        let j = first_idx(body, '\n');
        assert(body[j] == '\n');
        if e.1 == star() {
            assert(body[j] == e.0[j]);
            assert(false);
        } else {
            if j < e.0.len() {
                assert(body[j] == e.0[j]);
                assert(false);
            } else if j < e.0.len() + 2 {
                assert(body[j] == '=');
                assert(false);
            } else {
                assert(body[j] == e.1[j - e.0.len() - 2]);
                assert(false);
            }
        }
    }
}

/// A valid entry's line body is its own trim.
proof fn lemma_body_trimmed(e: Entry)
    requires
        valid_req_entry(e),
    ensures
        spec_trim(req_line_body(e)) == req_line_body(e),
{
    let body = req_line_body(e);
    if e.1 == star() {
        assert(body == e.0);
    } else {
        lemma_trimmed_ends(e.0);
        assert(body[0] == e.0[0]);
        if e.1.len() > 0 {
            lemma_trimmed_ends(e.1);
            assert(body[body.len() - 1] == e.1[e.1.len() - 1]);
        } else {
            assert(body[body.len() - 1] == '=');
        }
        assert(!crate::text::is_space(body[0]));
        assert(!crate::text::is_space(body[body.len() - 1]));
        assert(trim_start_idx(body, 0) == 0);
        assert(trim_end_idx(body, body.len() as int) == body.len());
        assert(spec_trim(body) =~= body);
    }
}

/// Reading back the line written for a valid entry yields that entry.
proof fn lemma_line_round_trip(e: Entry)
    requires
        valid_req_entry(e),
    ensures
        req_line_entry(req_line_body(e)) == Some(e),
{
    let body = req_line_body(e);
    lemma_body_trimmed(e);
    let t = spec_trim(body);
    assert(t == body);
    lemma_trimmed_ends(e.0);
    assert(t[0] == e.0[0]);
    assert(t.len() > 0 && t[0] != '#');
    if e.1 == star() {
        assert(spec_find(t, 0, eqeq()) is None) by {
            lemma_spec_find(t, 0, eqeq());
            if spec_find(t, 0, eqeq()) is Some {
                let j = spec_find(t, 0, eqeq()).unwrap();
                assert(matches_at(t, j, eqeq()));
                assert(spec_contains(e.0, eqeq()));
            }
        }
        assert(req_line_entry(body) == Some((t, star())));
        assert((t, star()) == e);
    } else {
        let nl = e.0.len() as int;
        assert(matches_at(t, nl, eqeq())) by {
            assert(t.subrange(nl, nl + 2) =~= eqeq());
        }
        assert forall|k: int| 0 <= k < nl implies !matches_at(t, k, eqeq()) by {
            if matches_at(t, k, eqeq()) {
                if k < nl - 1 {
                    assert(t.subrange(k, k + 2)[0] == t[k]);
                    assert(t.subrange(k, k + 2)[1] == t[k + 1]);
                    assert(e.0.subrange(k, k + 2) =~= t.subrange(k, k + 2));
                    assert(matches_at(e.0, k, eqeq()));
                    assert(spec_contains(e.0, eqeq()));
                    assert(false);
                } else {
                    assert(t.subrange(k, k + 2)[0] == t[k]);
                    assert(t[k] == e.0[e.0.len() - 1]);
                    assert(t[k] == '=');
                    assert(false);
                }
            }
        }
        lemma_spec_find_exact(t, 0, nl, eqeq());
        assert(t.take(nl) =~= e.0);
        assert(t.subrange(nl + 2, t.len() as int) =~= e.1);
        assert(spec_trim(e.1) == e.1);
        assert(req_line_entry(body) == Some((e.0, e.1)));
        assert((e.0, e.1) == e);
    }
}

/// The written text is newline-terminated unless empty.
proof fn lemma_write_terminated(s: Seq<Entry>)
    ensures
        s.len() > 0 ==> spec_write_requirements(s).len() > 0 && spec_write_requirements(s).last()
            == '\n',
    decreases s.len(),
{
    if s.len() > 0 {
        let prev = spec_write_requirements(s.drop_last());
        let line = req_entry_line(s.last());
        assert(line.last() == '\n');
        assert((prev + line).last() == line.last());
    }
}

/// The lines of the written text are exactly the entries' line bodies.
proof fn lemma_write_lines(s: Seq<Entry>)
    requires
        all_valid_req_entries(s),
    ensures
        spec_lines(spec_write_requirements(s)) == Seq::new(s.len(), |i: int| req_line_body(s[i])),
    decreases s.len(),
{
    if s.len() == 0 {
        assert(spec_lines(spec_write_requirements(s)) =~= Seq::new(
            s.len(),
            |i: int| req_line_body(s[i]),
        ));
    } else {
        let prev = s.drop_last();
        assert(all_valid_req_entries(prev)) by {
            assert(forall|i: int| 0 <= i < prev.len() ==> #[trigger] prev[i] == s[i]);
        }
        lemma_write_lines(prev);
        lemma_write_terminated(prev);
        let e = s.last();
        assert(valid_req_entry(e));
        lemma_body_no_newline(e);
        let body = req_line_body(e);
        assert(req_entry_line(e) =~= body + seq!['\n']);
        assert(spec_write_requirements(s) =~= spec_write_requirements(prev) + body + seq!['\n']);
        lemma_lines_snoc(spec_write_requirements(prev), body);
        assert(spec_lines(spec_write_requirements(s)) =~= Seq::new(
            s.len(),
            |i: int| req_line_body(s[i]),
        ));
    }
}

/// Parsing the entries' line bodies rebuilds the entries.
proof fn lemma_parse_of_bodies(s: Seq<Entry>)
    requires
        sorted_keys(s),
        all_valid_req_entries(s),
    ensures
        spec_parse_requirements_lines(Seq::new(s.len(), |i: int| req_line_body(s[i]))) == s,
    decreases s.len(),
{
    let lines = Seq::new(s.len(), |i: int| req_line_body(s[i]));
    if s.len() == 0 {
        assert(spec_parse_requirements_lines(lines) =~= s);
    } else {
        let prev = s.drop_last();
        assert(sorted_keys(prev) && all_valid_req_entries(prev)) by {
            assert(forall|i: int| 0 <= i < prev.len() ==> #[trigger] prev[i] == s[i]);
        }
        lemma_parse_of_bodies(prev);
        let e = s.last();
        assert(valid_req_entry(e));
        lemma_line_round_trip(e);
        assert(lines.last() == req_line_body(e));
        assert(lines.drop_last() =~= Seq::new(prev.len(), |i: int| req_line_body(prev[i])));
        assert(req_line_entry(lines.last()) == Some(e));
        assert(spec_parse_requirements_lines(lines) == entries_insert(prev, e.0, e.1));
        assert forall|i: int| 0 <= i < prev.len() implies lex_lt((#[trigger] prev[i]).0, e.0) by {
            assert(prev[i] == s[i]);
            assert(lex_lt(s[i].0, s[s.len() - 1].0));
        }
        crate::omap::lemma_insert_append(prev, e.0, e.1);
        assert(prev.push((e.0, e.1)) =~= s);
    }
}

/// Writing a well-formed dependency map and parsing the text back yields
/// exactly the same map: nothing is lost, duplicated, or reordered.
pub proof fn lemma_requirements_round_trip(s: Seq<Entry>)
    requires
        sorted_keys(s),
        all_valid_req_entries(s),
    ensures
        spec_parse_requirements(spec_write_requirements(s)) == s,
{
    lemma_write_lines(s);
    lemma_parse_of_bodies(s);
}

/// Inserting a valid entry keeps every entry valid.
proof fn lemma_insert_valid(s: Seq<Entry>, k: Seq<char>, v: Seq<char>)
    requires
        all_valid_req_entries(s),
        valid_req_name(k),
        valid_req_version(v),
    ensures
        all_valid_req_entries(entries_insert(s, k, v)),
    decreases s.len(),
{
    let r = entries_insert(s, k, v);
    if s.len() == 0 {
        assert(r == seq![(k, v)]);
        assert(forall|i: int| 0 <= i < r.len() ==> #[trigger] r[i] == (k, v));
    } else if lex_lt(k, s[0].0) {
        assert forall|i: int| 0 <= i < r.len() implies valid_req_entry(#[trigger] r[i]) by {
            if i > 0 {
                assert(r[i] == s[i - 1]);
            }
        }
    } else if k == s[0].0 {
        assert forall|i: int| 0 <= i < r.len() implies valid_req_entry(#[trigger] r[i]) by {
            if i > 0 {
                assert(r[i] == s[i]);
            }
        }
    } else {
        assert(all_valid_req_entries(s.drop_first())) by {
            assert(forall|i: int|
                0 <= i < s.drop_first().len() ==> #[trigger] s.drop_first()[i] == s[i + 1]);
        }
        lemma_insert_valid(s.drop_first(), k, v);
        let rt = entries_insert(s.drop_first(), k, v);
        assert forall|i: int| 0 <= i < r.len() implies valid_req_entry(#[trigger] r[i]) by {
            if i == 0 {
                assert(r[0] == s[0]);
            } else {
                assert(r[i] == rt[i - 1]);
            }
        }
    }
}

/// Removing an entry keeps every entry valid.
proof fn lemma_remove_valid(s: Seq<Entry>, k: Seq<char>)
    requires
        all_valid_req_entries(s),
    ensures
        all_valid_req_entries(entries_remove(s, k)),
    decreases s.len(),
{
    let r = entries_remove(s, k);
    if s.len() == 0 {
    } else if k == s[0].0 {
        assert(forall|i: int| 0 <= i < r.len() ==> #[trigger] r[i] == s[i + 1]);
    } else {
        assert(all_valid_req_entries(s.drop_first())) by {
            assert(forall|i: int|
                0 <= i < s.drop_first().len() ==> #[trigger] s.drop_first()[i] == s[i + 1]);
        }
        lemma_remove_valid(s.drop_first(), k);
        let rt = entries_remove(s.drop_first(), k);
        assert forall|i: int| 0 <= i < r.len() implies valid_req_entry(#[trigger] r[i]) by {
            if i == 0 {
                assert(r[0] == s[0]);
            } else {
                assert(r[i] == rt[i - 1]);
            }
        }
    }
}

/// Folding resolved versions in keeps every entry valid.
proof fn lemma_apply_resolved_valid(s: Seq<Entry>, resolved: Seq<Entry>)
    requires
        all_valid_req_entries(s),
        all_valid_req_entries(resolved),
    ensures
        all_valid_req_entries(apply_resolved(s, resolved)),
    decreases resolved.len(),
{
    if resolved.len() > 0 {
        assert(all_valid_req_entries(resolved.drop_last())) by {
            assert(forall|i: int|
                0 <= i < resolved.drop_last().len() ==> #[trigger] resolved.drop_last()[i]
                    == resolved[i]);
        }
        lemma_apply_resolved_valid(s, resolved.drop_last());
        assert(valid_req_entry(resolved.last()));
        lemma_insert_valid(
            apply_resolved(s, resolved.drop_last()),
            resolved.last().0,
            resolved.last().1,
        );
    }
}

/// Adding a dependency and reading the written text back shows the map
/// with exactly that binding added: one more entry when the name was
/// fresh, the same count when it was overwritten, and every other
/// binding untouched.
pub proof fn lemma_add_then_list(s: Seq<Entry>, name: Seq<char>, ver: Seq<char>)
    requires
        sorted_keys(s),
        all_valid_req_entries(s),
        valid_req_name(name),
        valid_req_version(ver),
    ensures
        spec_parse_requirements(spec_write_requirements(entries_insert(s, name, ver)))
            == entries_insert(s, name, ver),
        !crate::omap::has_key(s, name) ==> entries_insert(s, name, ver).len() == s.len() + 1,
        crate::omap::has_key(s, name) ==> entries_insert(s, name, ver).len() == s.len(),
        crate::omap::entries_get(entries_insert(s, name, ver), name) == Some(ver),
        forall|q: Seq<char>|
            q != name ==> crate::omap::entries_get(entries_insert(s, name, ver), q)
                == crate::omap::entries_get(s, q),
{
    crate::omap::lemma_insert_sorted(s, name, ver);
    lemma_insert_valid(s, name, ver);
    lemma_requirements_round_trip(entries_insert(s, name, ver));
    crate::omap::lemma_insert_len(s, name, ver);
    assert forall|q: Seq<char>| true implies #[trigger] crate::omap::entries_get(
        entries_insert(s, name, ver),
        q,
    ) == if q == name {
        Some(ver)
    } else {
        crate::omap::entries_get(s, q)
    } by {
        crate::omap::lemma_insert_get(s, name, ver, q);
    }
}

/// Deleting a dependency and reading the written text back shows the map
/// without it: one entry fewer when the name was present, and for an
/// absent name the very same map, so a repeated delete changes nothing.
pub proof fn lemma_delete_then_list(s: Seq<Entry>, name: Seq<char>)
    requires
        sorted_keys(s),
        all_valid_req_entries(s),
    ensures
        spec_parse_requirements(spec_write_requirements(entries_remove(s, name)))
            == entries_remove(s, name),
        crate::omap::has_key(s, name) ==> entries_remove(s, name).len() == s.len() - 1,
        !crate::omap::has_key(s, name) ==> entries_remove(s, name) == s,
        crate::omap::entries_get(entries_remove(s, name), name) is None,
        forall|q: Seq<char>|
            q != name ==> crate::omap::entries_get(entries_remove(s, name), q)
                == crate::omap::entries_get(s, q),
{
    crate::omap::lemma_remove_sorted(s, name);
    lemma_remove_valid(s, name);
    lemma_requirements_round_trip(entries_remove(s, name));
    assert forall|q: Seq<char>| q != name implies #[trigger] crate::omap::entries_get(
        entries_remove(s, name),
        q,
    ) == crate::omap::entries_get(s, q) by {
        crate::omap::lemma_remove_get(s, name, q);
    }
    crate::omap::lemma_remove_get(s, name, name);
}

/// Rewriting resolved versions and reading the written text back shows
/// each resolved name bound once, to its resolved version, with no
/// duplicate entries: all keys of the result are pairwise distinct.
pub proof fn lemma_update_then_list(s: Seq<Entry>, resolved: Seq<Entry>)
    requires
        sorted_keys(s),
        all_valid_req_entries(s),
        all_valid_req_entries(resolved),
    ensures
        spec_parse_requirements(spec_write_requirements(apply_resolved(s, resolved)))
            == apply_resolved(s, resolved),
        forall|i: int, j: int|
            0 <= i < j < apply_resolved(s, resolved).len() ==> apply_resolved(s, resolved)[i].0
                != apply_resolved(s, resolved)[j].0,
{
    lemma_apply_resolved_sorted(s, resolved);
    lemma_apply_resolved_valid(s, resolved);
    lemma_requirements_round_trip(apply_resolved(s, resolved));
    let m = apply_resolved(s, resolved);
    assert forall|i: int, j: int| 0 <= i < j < m.len() implies m[i].0 != m[j].0 by {
        assert(lex_lt(m[i].0, m[j].0));
        if m[i].0 == m[j].0 {
            crate::omap::lemma_lex_irrefl(m[i].0);
        }
    }
}

/// Rewriting one resolved name binds exactly it to the resolved version.
pub proof fn lemma_update_single(s: Seq<Entry>, name: Seq<char>, ver: Seq<char>)
    requires
        sorted_keys(s),
        all_valid_req_entries(s),
        valid_req_name(name),
        valid_req_version(ver),
    ensures
        apply_resolved(s, seq![(name, ver)]) == entries_insert(s, name, ver),
        crate::omap::entries_get(apply_resolved(s, seq![(name, ver)]), name) == Some(ver),
{
    let rs = seq![(name, ver)];
    assert(rs.drop_last() =~= Seq::<Entry>::empty());
    assert(apply_resolved(s, rs.drop_last()) == s);
    crate::omap::lemma_insert_get(s, name, ver, name);
}

} // verus!
