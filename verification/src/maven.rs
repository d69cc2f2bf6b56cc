use vstd::prelude::*;

use crate::text::contains_sub;
use crate::text::find_sub;
use crate::text::lemma_spec_find;
use crate::text::matches_at;
use crate::text::spec_contains;
use crate::text::spec_find;
use crate::text::string_from_chars;
use crate::text::subrange_chars;
use crate::text::to_chars;

verus! {

/// A Maven coordinate: group, artifact, version.
pub type Triple = (Seq<char>, Seq<char>, Seq<char>);

// ---------------------------------------------------------------------------
// Delimiter search, the way the pom text is read
// ---------------------------------------------------------------------------
/// The text strictly between the first `sp` and the next `ep` after it.
pub open spec fn spec_extract_between(hay: Seq<char>, sp: Seq<char>, ep: Seq<char>) -> Option<
    Seq<char>,
> {
    match spec_find(hay, 0, sp) {
        None => None,
        Some(s0) => {
            let sub = hay.subrange(s0 + sp.len(), hay.len() as int);
            match spec_find(sub, 0, ep) {
                None => None,
                Some(e) => Some(sub.take(e)),
            }
        },
    }
}

/// Find the text between two delimiters, as the pom scan does.
pub fn extract_between(hay: &Vec<char>, sp: &Vec<char>, ep: &Vec<char>) -> (r: Option<Vec<char>>)
    ensures
        match r {
            Some(piece) => spec_extract_between(hay@, sp@, ep@) == Some(piece@),
            None => spec_extract_between(hay@, sp@, ep@) is None,
        },
{
    match find_sub(hay, 0, sp) {
        None => None,
        Some(s0) => {
            proof {
                assert(hay@.len() == hay.len());
            }
            let sub = subrange_chars(hay, s0 + sp.len(), hay.len());
            match find_sub(&sub, 0, ep) {
                None => None,
                Some(e) => {
                    let piece = subrange_chars(&sub, 0, e);
                    proof {
                        assert(piece@ =~= sub@.take(e as int));
                    }
                    Some(piece)
                },
            }
        },
    }
}

pub open spec fn opt_or_empty(o: Option<Seq<char>>) -> Seq<char> {
    match o {
        Some(x) => x,
        None => Seq::empty(),
    }
}

/// The coordinate a `<dependency>` block declares; a missing tag reads
/// as the empty string.
pub open spec fn maven_block_triple(block: Seq<char>) -> Triple {
    (
        opt_or_empty(spec_extract_between(block, "<groupId>"@, "</groupId>"@)),
        opt_or_empty(spec_extract_between(block, "<artifactId>"@, "</artifactId>"@)),
        opt_or_empty(spec_extract_between(block, "<version>"@, "</version>"@)),
    )
}

// ---------------------------------------------------------------------------
// Scanning the dependency blocks
// ---------------------------------------------------------------------------
/// The test-scoped coordinates of a pom text, in order of appearance:
/// each `<dependency>...</dependency>` block whose text holds
/// `<scope>test</scope>` contributes its coordinate.
pub open spec fn spec_parse_maven_deps(s: Seq<char>) -> Seq<Triple>
    decreases s.len(),
    when true
    via spec_parse_maven_deps_dec
{
    match spec_find(s, 0, "<dependency>"@) {
        None => Seq::empty(),
        Some(st) => {
            let rest = s.subrange(st + "<dependency>"@.len(), s.len() as int);
            match spec_find(rest, 0, "</dependency>"@) {
                None => Seq::empty(),
                Some(e) => {
                    let block = rest.take(e);
                    let tail = rest.subrange(e + "</dependency>"@.len(), rest.len() as int);
                    (if spec_contains(block, "<scope>test</scope>"@) {
                        seq![maven_block_triple(block)]
                    } else {
                        Seq::empty()
                    }) + spec_parse_maven_deps(tail)
                },
            }
        },
    }
}

#[via_fn]
proof fn spec_parse_maven_deps_dec(s: Seq<char>) {
    reveal_strlit("<dependency>");
    reveal_strlit("</dependency>");
    match spec_find(s, 0, "<dependency>"@) {
        None => {},
        Some(st) => {
            lemma_spec_find(s, 0, "<dependency>"@);
            let rest = s.subrange(st + "<dependency>"@.len(), s.len() as int);
            match spec_find(rest, 0, "</dependency>"@) {
                None => {},
                Some(e) => {
                    lemma_spec_find(rest, 0, "</dependency>"@);
                },
            }
        },
    }
}

/// Collect the test-scoped dependency coordinates of a pom text.
pub fn parse_maven_deps(content: &str) -> (r: Vec<(String, String, String)>)
    ensures
        r.deep_view() == spec_parse_maven_deps(content@),
{
    let dep_open = to_chars("<dependency>");
    let dep_close = to_chars("</dependency>");
    let scope_pat = to_chars("<scope>test</scope>");
    let g_open = to_chars("<groupId>");
    let g_close = to_chars("</groupId>");
    let a_open = to_chars("<artifactId>");
    let a_close = to_chars("</artifactId>");
    let v_open = to_chars("<version>");
    let v_close = to_chars("</version>");
    let mut deps: Vec<(String, String, String)> = Vec::new();
    let mut cur = to_chars(content);
    proof {
        assert(deps.deep_view() =~~= Seq::<Triple>::empty());
    }
    loop
        invariant
            spec_parse_maven_deps(content@) == deps.deep_view() + spec_parse_maven_deps(cur@),
            dep_open@ == "<dependency>"@,
            dep_close@ == "</dependency>"@,
            scope_pat@ == "<scope>test</scope>"@,
            g_open@ == "<groupId>"@,
            g_close@ == "</groupId>"@,
            a_open@ == "<artifactId>"@,
            a_close@ == "</artifactId>"@,
            v_open@ == "<version>"@,
            v_close@ == "</version>"@,
        decreases cur@.len(),
    {
        let ghost cs = cur@;
        let st = match find_sub(&cur, 0, &dep_open) {
            None => {
                proof {
                    assert(deps.deep_view() + spec_parse_maven_deps(cs) =~~= deps.deep_view());
                }
                return deps;
            },
            Some(st) => st,
        };
        proof {
            assert(cur@.len() == cur.len());
        }
        let rest = subrange_chars(&cur, st + dep_open.len(), cur.len());
        let e = match find_sub(&rest, 0, &dep_close) {
            None => {
                proof {
                    assert(deps.deep_view() + spec_parse_maven_deps(cs) =~~= deps.deep_view());
                }
                return deps;
            },
            Some(e) => e,
        };
        let block = subrange_chars(&rest, 0, e);
        let tail = subrange_chars(&rest, e + dep_close.len(), rest.len());
        proof {
            assert(block@ =~= rest@.take(e as int));
            reveal_strlit("<dependency>");
            reveal_strlit("</dependency>");
        }
        if contains_sub(&block, &scope_pat) {
            let g = match extract_between(&block, &g_open, &g_close) {
                Some(p) => string_from_chars(&p),
                None => String::new(),
            };
            let a = match extract_between(&block, &a_open, &a_close) {
                Some(p) => string_from_chars(&p),
                None => String::new(),
            };
            let v = match extract_between(&block, &v_open, &v_close) {
                Some(p) => string_from_chars(&p),
                None => String::new(),
            };
            let ghost old_deps = deps.deep_view();
            deps.push((g, a, v));
            proof {
                assert(deps.deep_view() =~~= old_deps + seq![maven_block_triple(block@)]);
            }
        }
        cur = tail;
    }
}

/// A pom text that nowhere marks the test scope yields no coordinates:
/// every `<dependency>` block lacking `<scope>test</scope>` is excluded
/// from the listing.
pub proof fn lemma_no_test_scope_no_deps(s: Seq<char>)
    requires
        !spec_contains(s, "<scope>test</scope>"@),
    ensures
        spec_parse_maven_deps(s).len() == 0,
    decreases s.len(),
{
    reveal_strlit("<dependency>");
    reveal_strlit("</dependency>");
    let scope = "<scope>test</scope>"@;
    match spec_find(s, 0, "<dependency>"@) {
        None => {},
        Some(st) => {
            lemma_spec_find(s, 0, "<dependency>"@);
            let rest = s.subrange(st + "<dependency>"@.len(), s.len() as int);
            match spec_find(rest, 0, "</dependency>"@) {
                None => {},
                Some(e) => {
                    lemma_spec_find(rest, 0, "</dependency>"@);
                    let block = rest.take(e);
                    let base = st + "<dependency>"@.len();
                    assert(!spec_contains(block, scope)) by {
                        if spec_contains(block, scope) {
                            let i = choose|i: int| matches_at(block, i, scope);
                            assert(s.subrange(base + i, base + i + scope.len() as int)
                                =~= block.subrange(i, i + scope.len() as int));
                            assert(matches_at(s, base + i, scope));
                        }
                    }
                    let tail = rest.subrange(e + "</dependency>"@.len(), rest.len() as int);
                    let tbase = base + e + "</dependency>"@.len();
                    assert(!spec_contains(tail, scope)) by {
                        if spec_contains(tail, scope) {
                            let i = choose|i: int| matches_at(tail, i, scope);
                            assert(s.subrange(tbase + i, tbase + i + scope.len() as int)
                                =~= tail.subrange(i, i + scope.len() as int));
                            assert(matches_at(s, tbase + i, scope));
                        }
                    }
                    lemma_no_test_scope_no_deps(tail);
                },
            }
        },
    }
}

} // verus!
