use vstd::prelude::*;

use crate::omap::Entry;
use crate::omap::StrMap;
use crate::omap::entries_insert;
use crate::omap::sorted_keys;
use crate::text::spec_lines;
use crate::text::spec_starts_with;
use crate::text::spec_split_ws;
use crate::text::spec_trim;
use crate::text::split_lines;
use crate::text::split_ws;
use crate::text::starts_with;
use crate::text::string_from_chars;
use crate::text::to_chars;
use crate::text::trim;

verus! {

// ---------------------------------------------------------------------------
// The go.mod dialect: single-line `require name version` declarations and
// parenthesized `require ( ... )` blocks of `name version` lines.
// ---------------------------------------------------------------------------
pub open spec fn require_paren() -> Seq<char> {
    seq!['r', 'e', 'q', 'u', 'i', 'r', 'e', ' ', '(']
}

pub open spec fn require_kw() -> Seq<char> {
    seq!['r', 'e', 'q', 'u', 'i', 'r', 'e']
}

/// One line's effect on the accumulated entries and the in-block flag.
pub open spec fn go_line_step(st: (Seq<Entry>, bool), line: Seq<char>) -> (Seq<Entry>, bool) {
    let t = spec_trim(line);
    if spec_starts_with(t, require_paren()) {
        (st.0, true)
    } else if st.1 && spec_starts_with(t, seq![')']) {
        (st.0, false)
    } else if spec_starts_with(t, require_kw()) {
        let parts = spec_split_ws(t);
        if parts.len() >= 3 {
            (entries_insert(st.0, parts[1], parts[2]), st.1)
        } else {
            st
        }
    } else if st.1 && t.len() > 0 {
        let parts = spec_split_ws(t);
        if parts.len() >= 2 {
            (entries_insert(st.0, parts[0], parts[1]), st.1)
        } else {
            st
        }
    } else {
        st
    }
}

pub open spec fn spec_parse_go_mod_lines(lines: Seq<Seq<char>>) -> (Seq<Entry>, bool)
    decreases lines.len(),
{
    if lines.len() == 0 {
        (Seq::empty(), false)
    } else {
        go_line_step(spec_parse_go_mod_lines(lines.drop_last()), lines.last())
    }
}

/// The module-to-version requirements a go.mod text declares, in key order.
pub open spec fn spec_parse_go_mod(s: Seq<char>) -> Seq<Entry> {
    spec_parse_go_mod_lines(spec_lines(s)).0
}

pub proof fn lemma_parse_go_mod_sorted(lines: Seq<Seq<char>>)
    ensures
        sorted_keys(spec_parse_go_mod_lines(lines).0),
    decreases lines.len(),
{
    if lines.len() > 0 {
        lemma_parse_go_mod_sorted(lines.drop_last());
        let st = spec_parse_go_mod_lines(lines.drop_last());
        let t = spec_trim(lines.last());
        if spec_starts_with(t, require_paren()) {
        } else if st.1 && spec_starts_with(t, seq![')']) {
        } else if spec_starts_with(t, require_kw()) {
            let parts = spec_split_ws(t);
            if parts.len() >= 3 {
                crate::omap::lemma_insert_sorted(st.0, parts[1], parts[2]);
            }
        } else if st.1 && t.len() > 0 {
            let parts = spec_split_ws(t);
            if parts.len() >= 2 {
                crate::omap::lemma_insert_sorted(st.0, parts[0], parts[1]);
            }
        }
    }
}

/// Parse a go.mod text into its requirement map.
pub fn parse_go_mod(content: &str) -> (r: StrMap)
    ensures
        r@ == spec_parse_go_mod(content@),
        r.wf(),
{
    let cv = to_chars(content);
    let lines = split_lines(&cv);
    let ghost ls = spec_lines(content@);
    let mut m = StrMap::new();
    let mut in_block = false;
    proof {
        assert(ls.take(0) =~= Seq::<Seq<char>>::empty());
    }
    let mut i: usize = 0;
    while i < lines.len()
        invariant
            i <= lines@.len(),
            lines.deep_view() == ls,
            ls == spec_lines(content@),
            m.wf(),
            (m@, in_block) == spec_parse_go_mod_lines(ls.take(i as int)),
        decreases lines@.len() - i,
    {
        let ghost line = ls[i as int];
        assert(lines@[i as int].deep_view() == ls[i as int]);
        proof {
            assert(lines@[i as int].deep_view() =~= lines@[i as int]@);
        }
        let t = trim(&lines[i]);
        assert(t@ == spec_trim(line));
        let req_paren: Vec<char> = vec!['r', 'e', 'q', 'u', 'i', 'r', 'e', ' ', '('];
        let req_kw: Vec<char> = vec!['r', 'e', 'q', 'u', 'i', 'r', 'e'];
        let close_paren: Vec<char> = vec![')'];
        proof {
            assert(req_paren@ =~= require_paren());
            assert(req_kw@ =~= require_kw());
            assert(close_paren@ =~= seq![')']);
        }
        if starts_with(&t, &req_paren) {
            in_block = true;
        } else if in_block && starts_with(&t, &close_paren) {
            in_block = false;
        } else if starts_with(&t, &req_kw) {
            let parts = split_ws(&t);
            if parts.len() >= 3 {
                proof {
                    assert(parts@[1].deep_view() == spec_split_ws(t@)[1]);
                    assert(parts@[1].deep_view() =~= parts@[1]@);
                    assert(parts@[2].deep_view() == spec_split_ws(t@)[2]);
                    assert(parts@[2].deep_view() =~= parts@[2]@);
                }
                let name = string_from_chars(&parts[1]);
                let ver = string_from_chars(&parts[2]);
                m.insert(name.as_str(), ver.as_str());
            }
        } else if in_block && t.len() > 0 {
            let parts = split_ws(&t);
            if parts.len() >= 2 {
                proof {
                    assert(parts@[0].deep_view() == spec_split_ws(t@)[0]);
                    assert(parts@[0].deep_view() =~= parts@[0]@);
                    assert(parts@[1].deep_view() == spec_split_ws(t@)[1]);
                    assert(parts@[1].deep_view() =~= parts@[1]@);
                }
                let name = string_from_chars(&parts[0]);
                let ver = string_from_chars(&parts[1]);
                m.insert(name.as_str(), ver.as_str());
            }
        }
        proof {
            assert(ls.take(i + 1).drop_last() =~= ls.take(i as int));
            assert(ls.take(i + 1).last() == line);
        }
        i = i + 1;
    }
    proof {
        assert(ls.take(ls.len() as int) =~= ls);
    }
    m
}

} // verus!
