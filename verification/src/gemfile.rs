use vstd::prelude::*;

use crate::omap::Entry;
use crate::omap::StrMap;
use crate::omap::entries_insert;
use crate::omap::sorted_keys;
use crate::requirements::star;
use crate::text::chars_eq;
use crate::text::contains_sub;
use crate::text::spec_contains;
use crate::text::spec_lines;
use crate::text::spec_split_char;
use crate::text::spec_starts_with;
use crate::text::spec_trim;
use crate::text::spec_trim_quotes;
use crate::text::split_char;
use crate::text::split_lines;
use crate::text::starts_with;
use crate::text::string_from_chars;
use crate::text::subrange_chars;
use crate::text::to_chars;
use crate::text::trim;
use crate::text::trim_quotes;

verus! {

// ---------------------------------------------------------------------------
// The Gemfile dialect: inside `group :development` / `group :test` blocks,
// `gem "name", "version"` calls declare the development dependencies.
// ---------------------------------------------------------------------------
/// The name and version one `gem` line declares.
pub open spec fn gem_line_entry(t: Seq<char>) -> Entry {
    let rest = spec_trim(t.subrange(4, t.len() as int));
    let pieces = spec_split_char(rest, ',');
    let name = spec_trim_quotes(spec_trim(pieces[0]));
    let version = if pieces.len() >= 2 {
        spec_trim_quotes(spec_trim(pieces[1]))
    } else {
        star()
    };
    (name, version)
}

/// One line's effect on the collected entries and the in-group flag.
pub open spec fn gemfile_line_step(st: (Seq<Entry>, bool), line: Seq<char>) -> (Seq<Entry>, bool) {
    let t = spec_trim(line);
    if spec_starts_with(t, "group"@) {
        (st.0, spec_contains(t, ":development"@) || spec_contains(t, ":test"@))
    } else if t == "end"@ {
        (st.0, false)
    } else if st.1 && spec_starts_with(t, "gem "@) {
        let e = gem_line_entry(t);
        (entries_insert(st.0, e.0, e.1), st.1)
    } else {
        st
    }
}

pub open spec fn spec_parse_gemfile_lines(lines: Seq<Seq<char>>) -> (Seq<Entry>, bool)
    decreases lines.len(),
{
    if lines.len() == 0 {
        (Seq::empty(), false)
    } else {
        gemfile_line_step(spec_parse_gemfile_lines(lines.drop_last()), lines.last())
    }
}

/// The development and test gems a Gemfile declares, in key order.
pub open spec fn spec_parse_gemfile(s: Seq<char>) -> Seq<Entry> {
    spec_parse_gemfile_lines(spec_lines(s)).0
}

pub proof fn lemma_parse_gemfile_sorted(lines: Seq<Seq<char>>)
    ensures
        sorted_keys(spec_parse_gemfile_lines(lines).0),
    decreases lines.len(),
{
    if lines.len() > 0 {
        lemma_parse_gemfile_sorted(lines.drop_last());
        let st = spec_parse_gemfile_lines(lines.drop_last());
        let t = spec_trim(lines.last());
        if spec_starts_with(t, "group"@) {
        } else if t == "end"@ {
        } else if st.1 && spec_starts_with(t, "gem "@) {
            let e = gem_line_entry(t);
            crate::omap::lemma_insert_sorted(st.0, e.0, e.1);
        }
    }
}

/// Parse a Gemfile into its development-dependency map.
pub fn parse_gemfile(content: &str) -> (r: StrMap)
    ensures
        r@ == spec_parse_gemfile(content@),
        r.wf(),
{
    let cv = to_chars(content);
    let lines = split_lines(&cv);
    let ghost ls = spec_lines(content@);
    let mut m = StrMap::new();
    let mut in_group = false;
    proof {
        assert(ls.take(0) =~= Seq::<Seq<char>>::empty());
    }
    let mut i: usize = 0;
    while i < lines.len()
        invariant
            i <= lines@.len(),
            lines.deep_view() == ls,
            ls == spec_lines(content@),
            m.wf(),
            (m@, in_group) == spec_parse_gemfile_lines(ls.take(i as int)),
        decreases lines@.len() - i,
    {
        let ghost line = ls[i as int];
        assert(lines@[i as int].deep_view() == ls[i as int]);
        proof {
            assert(lines@[i as int].deep_view() =~= lines@[i as int]@);
        }
        let t = trim(&lines[i]);
        assert(t@ == spec_trim(line));
        let group_kw = to_chars("group");
        let end_kw = to_chars("end");
        let gem_kw = to_chars("gem ");
        let dev_sym = to_chars(":development");
        let test_sym = to_chars(":test");
        if starts_with(&t, &group_kw) {
            in_group = contains_sub(&t, &dev_sym) || contains_sub(&t, &test_sym);
        } else if chars_eq(&t, &end_kw) {
            in_group = false;
        } else if in_group && starts_with(&t, &gem_kw) {
            proof {
                reveal_strlit("gem ");
            }
            let rest_part = subrange_chars(&t, 4, t.len());
            let rest = trim(&rest_part);
            let pieces = split_char(&rest, ',');
            let ghost ps = spec_split_char(rest@, ',');
            proof {
                assert(pieces@[0].deep_view() == ps[0]);
                assert(pieces@[0].deep_view() =~= pieces@[0]@);
                if ps.len() >= 2 {
                    assert(pieces@[1].deep_view() == ps[1]);
                    assert(pieces@[1].deep_view() =~= pieces@[1]@);
                }
            }
            let name_t = trim(&pieces[0]);
            let name_q = trim_quotes(&name_t);
            let name = string_from_chars(&name_q);
            if pieces.len() >= 2 {
                let ver_t = trim(&pieces[1]);
                let ver_q = trim_quotes(&ver_t);
                let ver = string_from_chars(&ver_q);
                m.insert(name.as_str(), ver.as_str());
            } else {
                m.insert(name.as_str(), "*");
                proof {
                    assert("*"@ =~= star()) by {
                        reveal_strlit("*");
                    }
                }
            }
        }
        proof {
            assert(ls.take(i + 1).drop_last() =~= ls.take(i as int));
            assert(ls.take(i + 1).last() == line);
        }
        i = i + 1;
    }
    proof {
        assert(ls.take(ls.len() as int) =~= ls);
    }
    m
}

} // verus!
