use vstd::prelude::*;

use crate::maven::Triple;
use crate::text::first_idx;
use crate::text::lemma_first_idx_bounds;
use crate::text::scan_char;
use crate::text::spec_lines;
use crate::text::spec_split_char;
use crate::text::spec_starts_with;
use crate::text::spec_trim;
use crate::text::split_char;
use crate::text::split_lines;
use crate::text::starts_with;
use crate::text::string_from_chars;
use crate::text::subrange_chars;
use crate::text::to_chars;
use crate::text::trim;

verus! {

// ---------------------------------------------------------------------------
// The Gradle build-script dialect: inside a `dependencies { ... }` block,
// lines that open with a test configuration keyword declare a quoted
// `group:artifact:version` coordinate.
// ---------------------------------------------------------------------------
/// The configuration keywords that mark a test dependency.
pub open spec fn gradle_configs() -> Seq<Seq<char>> {
    seq!["testImplementation"@, "testCompile"@, "testRuntimeOnly"@, "testCompileOnly"@]
}

pub open spec fn piece_or_empty(p: Seq<Seq<char>>, i: int) -> Seq<char> {
    if 0 <= i < p.len() {
        p[i]
    } else {
        Seq::empty()
    }
}

/// Where the quoted coordinate starts: the first single quote if any,
/// else the first double quote if any.
pub open spec fn gradle_quote_pos(t: Seq<char>) -> Option<int> {
    if first_idx(t, '\'') < t.len() {
        Some(first_idx(t, '\''))
    } else if first_idx(t, '"') < t.len() {
        Some(first_idx(t, '"'))
    } else {
        None
    }
}

/// The coordinate of one matched line: the text between the quote pair,
/// split at colons into group, artifact and version.
pub open spec fn gradle_line_extract(t: Seq<char>) -> Seq<Triple> {
    match gradle_quote_pos(t) {
        None => Seq::empty(),
        Some(start) => {
            let quote = t[start];
            let rest = t.subrange(start + 1, t.len() as int);
            let e = first_idx(rest, quote);
            if e < rest.len() {
                let dep = rest.take(e);
                let pieces = spec_split_char(dep, ':');
                seq![
                    (piece_or_empty(pieces, 0), piece_or_empty(pieces, 1), piece_or_empty(
                        pieces,
                        2,
                    )),
                ]
            } else {
                Seq::empty()
            }
        },
    }
}

/// A line yields one coordinate for each configuration keyword it opens
/// with, in keyword order.
pub open spec fn gradle_cfg_fold(t: Seq<char>, cfgs: Seq<Seq<char>>) -> Seq<Triple>
    decreases cfgs.len(),
{
    if cfgs.len() == 0 {
        Seq::empty()
    } else {
        gradle_cfg_fold(t, cfgs.drop_last()) + (if spec_starts_with(t, cfgs.last()) {
            gradle_line_extract(t)
        } else {
            Seq::empty()
        })
    }
}

/// One line's effect on the collected coordinates and the in-block flag.
pub open spec fn gradle_line_step(st: (Seq<Triple>, bool), line: Seq<char>) -> (Seq<Triple>, bool) {
    let t = spec_trim(line);
    if spec_starts_with(t, "dependencies"@) {
        (st.0, true)
    } else if st.1 && spec_starts_with(t, seq!['}']) {
        (st.0, false)
    } else if st.1 {
        (st.0 + gradle_cfg_fold(t, gradle_configs()), st.1)
    } else {
        st
    }
}

pub open spec fn spec_parse_gradle_lines(lines: Seq<Seq<char>>) -> (Seq<Triple>, bool)
    decreases lines.len(),
{
    if lines.len() == 0 {
        (Seq::empty(), false)
    } else {
        gradle_line_step(spec_parse_gradle_lines(lines.drop_last()), lines.last())
    }
}

/// The test-dependency coordinates a Gradle build text declares, in order.
pub open spec fn spec_parse_gradle_deps(s: Seq<char>) -> Seq<Triple> {
    spec_parse_gradle_lines(spec_lines(s)).0
}

/// Extract the quoted coordinate of one matched line.
fn gradle_extract(t: &Vec<char>) -> (r: Vec<(String, String, String)>)
    ensures
        r.deep_view() == gradle_line_extract(t@),
{
    let mut r: Vec<(String, String, String)> = Vec::new();
    proof {
        assert(r.deep_view() =~~= Seq::<Triple>::empty());
    }
    let q1 = scan_char(t, 0, '\'');
    proof {
        assert(t@.subrange(0, t@.len() as int) =~= t@);
        lemma_first_idx_bounds(t@, '\'');
    }
    let start = if q1 < t.len() {
        q1
    } else {
        let q2 = scan_char(t, 0, '"');
        proof {
            lemma_first_idx_bounds(t@, '"');
        }
        if q2 < t.len() {
            q2
        } else {
            return r;
        }
    };
    let quote = t[start];
    let rest = subrange_chars(t, start + 1, t.len());
    let e = scan_char(&rest, 0, quote);
    proof {
        assert(rest@.subrange(0, rest@.len() as int) =~= rest@);
        lemma_first_idx_bounds(rest@, quote);
    }
    if e == rest.len() {
        return r;
    }
    let dep = subrange_chars(&rest, 0, e);
    proof {
        assert(dep@ =~= rest@.take(e as int));
    }
    let pieces = split_char(&dep, ':');
    let ghost ps = spec_split_char(dep@, ':');
    let g = string_from_chars(&pieces[0]);
    let a = if pieces.len() >= 2 {
        string_from_chars(&pieces[1])
    } else {
        String::new()
    };
    let v = if pieces.len() >= 3 {
        string_from_chars(&pieces[2])
    } else {
        String::new()
    };
    proof {
        assert(pieces@[0].deep_view() == ps[0]);
        assert(pieces@[0].deep_view() =~= pieces@[0]@);
        if ps.len() >= 2 {
            assert(pieces@[1].deep_view() == ps[1]);
            assert(pieces@[1].deep_view() =~= pieces@[1]@);
        }
        if ps.len() >= 3 {
            assert(pieces@[2].deep_view() == ps[2]);
            assert(pieces@[2].deep_view() =~= pieces@[2]@);
        }
    }
    r.push((g, a, v));
    proof {
        assert(r.deep_view() =~~= gradle_line_extract(t@));
    }
    r
}

/// Collect the test-dependency coordinates of a Gradle build text.
pub fn parse_gradle_deps(content: &str) -> (r: Vec<(String, String, String)>)
    ensures
        r.deep_view() == spec_parse_gradle_deps(content@),
{
    let cv = to_chars(content);
    let lines = split_lines(&cv);
    let ghost ls = spec_lines(content@);
    let mut deps: Vec<(String, String, String)> = Vec::new();
    let mut in_block = false;
    proof {
        assert(ls.take(0) =~= Seq::<Seq<char>>::empty());
        assert(deps.deep_view() =~~= Seq::<Triple>::empty());
    }
    let mut i: usize = 0;
    while i < lines.len()
        invariant
            i <= lines@.len(),
            lines.deep_view() == ls,
            ls == spec_lines(content@),
            (deps.deep_view(), in_block) == spec_parse_gradle_lines(ls.take(i as int)),
        decreases lines@.len() - i,
    {
        let ghost line = ls[i as int];
        assert(lines@[i as int].deep_view() == ls[i as int]);
        proof {
            assert(lines@[i as int].deep_view() =~= lines@[i as int]@);
        }
        let t = trim(&lines[i]);
        assert(t@ == spec_trim(line));
        let deps_kw = to_chars("dependencies");
        let close_brace: Vec<char> = vec!['}'];
        proof {
            assert(close_brace@ =~= seq!['}']);
        }
        if starts_with(&t, &deps_kw) {
            in_block = true;
        } else if in_block && starts_with(&t, &close_brace) {
            in_block = false;
        } else if in_block {
            let cfgs: Vec<Vec<char>> = vec![
                to_chars("testImplementation"),
                to_chars("testCompile"),
                to_chars("testRuntimeOnly"),
                to_chars("testCompileOnly"),
            ];
            proof {
                assert(cfgs.deep_view() =~~= gradle_configs());
                assert(gradle_configs().take(0) =~= Seq::<Seq<char>>::empty());
            }
            let ghost before = deps.deep_view();
            let mut c: usize = 0;
            while c < cfgs.len()
                invariant
                    c <= cfgs@.len(),
                    cfgs.deep_view() == gradle_configs(),
                    t@ == spec_trim(line),
                    deps.deep_view() == before + gradle_cfg_fold(
                        t@,
                        gradle_configs().take(c as int),
                    ),
                decreases cfgs@.len() - c,
            {
                let ghost cfgseq = gradle_configs();
                assert(cfgs@[c as int].deep_view() == cfgseq[c as int]);
                proof {
                    assert(cfgs@[c as int].deep_view() =~= cfgs@[c as int]@);
                }
                if starts_with(&t, &cfgs[c]) {
                    let found = gradle_extract(&t);
                    let ghost dold = deps.deep_view();
                    let mut j: usize = 0;
                    while j < found.len()
                        invariant
                            j <= found@.len(),
                            found.deep_view() == gradle_line_extract(t@),
                            deps.deep_view() == dold + found.deep_view().take(j as int),
                        decreases found@.len() - j,
                    {
                        let ghost dnow = deps.deep_view();
                        let item = (
                            found[j].0.clone(),
                            found[j].1.clone(),
                            found[j].2.clone(),
                        );
                        deps.push(item);
                        proof {
                            assert(deps.deep_view() =~~= dnow.push(found.deep_view()[j as int]));
                            assert(dnow.push(found.deep_view()[j as int]) =~~= dold
                                + found.deep_view().take(j + 1));
                        }
                        j = j + 1;
                    }
                    proof {
                        assert(found.deep_view().take(found.deep_view().len() as int)
                            =~~= found.deep_view());
                        assert(cfgseq.take(c + 1).drop_last() =~= cfgseq.take(c as int));
                        assert(cfgseq.take(c + 1).last() == cfgseq[c as int]);
                        assert(deps.deep_view() =~~= before + gradle_cfg_fold(
                            t@,
                            cfgseq.take(c + 1),
                        ));
                    }
                } else {
                    proof {
                        assert(cfgseq.take(c + 1).drop_last() =~= cfgseq.take(c as int));
                        assert(cfgseq.take(c + 1).last() == cfgseq[c as int]);
                        assert(deps.deep_view() =~~= before + gradle_cfg_fold(
                            t@,
                            cfgseq.take(c + 1),
                        ));
                    }
                }
                c = c + 1;
            }
            proof {
                assert(gradle_configs().take(gradle_configs().len() as int) =~= gradle_configs());
            }
        }
        proof {
            assert(ls.take(i + 1).drop_last() =~= ls.take(i as int));
            assert(ls.take(i + 1).last() == line);
        }
        i = i + 1;
    }
    proof {
        assert(ls.take(ls.len() as int) =~= ls);
    }
    deps
}

} // verus!
