use vstd::prelude::*;
use vstd::pervasive::VecAdditionalExecFns;
use vstd::string::StringExecFns;

use crate::numfmt::parse_i64;
use crate::numfmt::spec_parse_i64;
use crate::omap::StrMap;
use crate::omap::entries_insert;
use crate::omap::entries_remove;
use crate::omap::lemma_insert_sorted;
use crate::omap::lemma_remove_sorted;
use crate::omap::sorted_keys;
use crate::omap::str_lt;
use crate::text::chars_eq;
use crate::text::to_chars;

verus! {

// ---------------------------------------------------------------------------
// The per-stack configuration store of the dev services
// ---------------------------------------------------------------------------
/// Which of the three sections of the store an operation touches.
#[derive(Clone, Copy, Debug, PartialEq, Eq, Structural)]
pub enum DevConfigSection {
    Config,
    Env,
    Priority,
}

/// A name-to-priority map kept in ascending key order.
pub struct PrioMap {
    entries: Vec<(String, i64)>,
}

impl View for PrioMap {
    type V = Seq<(Seq<char>, i64)>;

    closed spec fn view(&self) -> Seq<(Seq<char>, i64)> {
        self.entries.deep_view()
    }
}

impl PrioMap {
    pub open spec fn wf(&self) -> bool {
        sorted_keys(self@)
    }

    pub fn new() -> (r: PrioMap)
        ensures
            r@ =~= Seq::<(Seq<char>, i64)>::empty(),
            r.wf(),
    {
        let r = PrioMap { entries: Vec::new() };
        proof {
            assert(r@ =~= Seq::<(Seq<char>, i64)>::empty());
        }
        r
    }

    pub fn len(&self) -> (r: usize)
        ensures
            r == self@.len(),
    {
        self.entries.len()
    }

    pub fn key_at(&self, i: usize) -> (r: String)
        requires
            i < self@.len(),
        ensures
            r@ == self@[i as int].0,
    {
        self.entries[i].0.clone()
    }

    pub fn val_at(&self, i: usize) -> (r: i64)
        requires
            i < self@.len(),
        ensures
            r == self@[i as int].1,
    {
        self.entries[i].1
    }

    /// Bind `k` to `v`, inserting in order or overwriting in place.
    pub fn insert(&mut self, k: &str, v: i64)
        requires
            old(self).wf(),
        ensures
            final(self)@ == entries_insert(old(self)@, k@, v),
            final(self).wf(),
    {
        let kc = to_chars(k);
        let mut i: usize = 0;
        proof {
            assert(self@.skip(0) =~= self@);
            assert(self@.take(0) + entries_insert(self@.skip(0), k@, v) =~= entries_insert(
                self@,
                k@,
                v,
            ));
        }
        loop
            invariant
                i <= self@.len(),
                self@ == old(self)@,
                kc@ == k@,
                sorted_keys(self@),
                entries_insert(self@, k@, v) == self@.take(i as int) + entries_insert(
                    self@.skip(i as int),
                    k@,
                    v,
                ),
            decreases self@.len() - i,
        {
            let ghost whole = self@;
            let ghost rest = self@.skip(i as int);
            if i == self.entries.len() {
                let ghost before = self.entries.deep_view();
                self.entries.push((k.to_owned(), v));
                proof {
                    assert(self.entries.deep_view() =~~= before.push((k@, v)));
                    assert(rest.len() == 0);
                    assert(entries_insert(rest, k@, v) =~= seq![(k@, v)]);
                    assert(self@ =~= whole.take(i as int) + entries_insert(rest, k@, v));
                    lemma_insert_sorted(whole, k@, v);
                }
                return ;
            }
            assert(rest[0] == whole[i as int]);
            let ec = to_chars(self.entries[i].0.as_str());
            if str_lt(&kc, &ec) {
                let ghost before = self.entries.deep_view();
                self.entries.insert(i, (k.to_owned(), v));
                proof {
                    assert(self.entries.deep_view() =~~= before.insert(i as int, (k@, v)));
                    assert(entries_insert(rest, k@, v) == seq![(k@, v)] + rest);
                    assert(self@ =~= whole.take(i as int) + (seq![(k@, v)] + rest));
                    lemma_insert_sorted(whole, k@, v);
                }
                return ;
            }
            if chars_eq(&kc, &ec) {
                let ghost before = self.entries.deep_view();
                self.entries.set(i, (k.to_owned(), v));
                proof {
                    assert(self.entries.deep_view() =~~= before.update(i as int, (k@, v)));
                    assert(entries_insert(rest, k@, v) == seq![(k@, v)] + rest.drop_first());
                    assert(self@ =~= whole.take(i as int) + (seq![(k@, v)] + rest.drop_first()));
                    lemma_insert_sorted(whole, k@, v);
                }
                return ;
            }
            proof {
                assert(entries_insert(rest, k@, v) == seq![rest[0]] + entries_insert(
                    rest.drop_first(),
                    k@,
                    v,
                ));
                assert(rest.drop_first() =~= whole.skip(i + 1));
                assert(whole.take(i as int) + (seq![rest[0]] + entries_insert(
                    whole.skip(i + 1),
                    k@,
                    v,
                )) =~= whole.take(i + 1) + entries_insert(whole.skip(i + 1), k@, v));
            }
            i = i + 1;
        }
    }

    /// Drop the entry for `k`, if present.
    pub fn remove(&mut self, k: &str)
        requires
            old(self).wf(),
        ensures
            final(self)@ == entries_remove(old(self)@, k@),
            final(self).wf(),
    {
        let kc = to_chars(k);
        let mut i: usize = 0;
        proof {
            assert(self@.skip(0) =~= self@);
            assert(self@.take(0) + entries_remove(self@.skip(0), k@) =~= entries_remove(
                self@,
                k@,
            ));
        }
        loop
            invariant
                i <= self@.len(),
                self@ == old(self)@,
                kc@ == k@,
                sorted_keys(self@),
                entries_remove(self@, k@) == self@.take(i as int) + entries_remove(
                    self@.skip(i as int),
                    k@,
                ),
            decreases self@.len() - i,
        {
            let ghost whole = self@;
            let ghost rest = self@.skip(i as int);
            if i == self.entries.len() {
                proof {
                    assert(entries_remove(rest, k@) =~= rest);
                    assert(whole.take(i as int) + rest =~= whole);
                    lemma_remove_sorted(whole, k@);
                }
                return ;
            }
            assert(rest[0] == whole[i as int]);
            let ec = to_chars(self.entries[i].0.as_str());
            if chars_eq(&kc, &ec) {
                let ghost before = self.entries.deep_view();
                self.entries.remove(i);
                proof {
                    assert(self.entries.deep_view() =~~= before.remove(i as int));
                    assert(entries_remove(rest, k@) == rest.drop_first());
                    assert(before.remove(i as int) =~= whole.take(i as int) + rest.drop_first());
                    lemma_remove_sorted(whole, k@);
                }
                return ;
            }
            proof {
                assert(entries_remove(rest, k@) == seq![rest[0]] + entries_remove(
                    rest.drop_first(),
                    k@,
                ));
                assert(rest.drop_first() =~= whole.skip(i + 1));
                assert(whole.take(i as int) + (seq![rest[0]] + entries_remove(
                    whole.skip(i + 1),
                    k@,
                )) =~= whole.take(i + 1) + entries_remove(whole.skip(i + 1), k@));
            }
            i = i + 1;
        }
    }

    /// The entries as a list of pairs, in key order.
    pub fn to_pairs(&self) -> (r: Vec<(String, i64)>)
        ensures
            r.deep_view() == self@,
    {
        let mut r: Vec<(String, i64)> = Vec::new();
        proof {
            assert(r.deep_view() =~~= self@.take(0));
        }
        let mut i: usize = 0;
        while i < self.len()
            invariant
                i <= self@.len(),
                r.deep_view() == self@.take(i as int),
            decreases self@.len() - i,
        {
            let ghost before = r.deep_view();
            r.push((self.key_at(i), self.val_at(i)));
            proof {
                assert(r.deep_view() =~~= before.push(self@[i as int]));
                assert(before.push(self@[i as int]) =~~= self@.take(i + 1));
            }
            i = i + 1;
        }
        proof {
            assert(self@.take(self@.len() as int) =~= self@);
        }
        r
    }
}

/// One stack's configuration: free-text settings, environment values,
/// and integer priorities, each in its own ordered section.
pub struct StackConfig {
    pub configs: StrMap,
    pub env: StrMap,
    pub priorities: PrioMap,
}

impl StackConfig {
    pub open spec fn wf(&self) -> bool {
        self.configs.wf() && self.env.wf() && self.priorities.wf()
    }

    pub fn new() -> (r: StackConfig)
        ensures
            r.wf(),
            r.configs@ =~= Seq::<crate::omap::Entry>::empty(),
            r.env@ =~= Seq::<crate::omap::Entry>::empty(),
            r.priorities@ =~= Seq::<(Seq<char>, i64)>::empty(),
    {
        StackConfig { configs: StrMap::new(), env: StrMap::new(), priorities: PrioMap::new() }
    }
}

/// Where one stack's store lives, relative to the project root.
pub fn config_path(stack: &str) -> (r: String)
    ensures
        r@ == ".dx/"@ + stack@ + "/properties.yaml"@,
{
    let mut r = String::new();
    r.append(".dx/");
    r.append(stack);
    r.append("/properties.yaml");
    r
}

/// Write one value into the chosen section.  A priority that is not a
/// decimal integer is refused and the store is left untouched.
pub fn set(cfg: &mut StackConfig, section: DevConfigSection, key: &str, value: &str) -> (ok: bool)
    requires
        old(cfg).wf(),
    ensures
        final(cfg).wf(),
        match section {
            DevConfigSection::Config => ok && final(cfg).configs@ == entries_insert(
                old(cfg).configs@,
                key@,
                value@,
            ) && final(cfg).env@ == old(cfg).env@ && final(cfg).priorities@ == old(
                cfg,
            ).priorities@,
            DevConfigSection::Env => ok && final(cfg).env@ == entries_insert(
                old(cfg).env@,
                key@,
                value@,
            ) && final(cfg).configs@ == old(cfg).configs@ && final(cfg).priorities@ == old(
                cfg,
            ).priorities@,
            DevConfigSection::Priority => {
                &&& ok == (spec_parse_i64(value@) is Some)
                &&& ok ==> final(cfg).priorities@ == entries_insert(
                    old(cfg).priorities@,
                    key@,
                    spec_parse_i64(value@).unwrap() as i64,
                ) && final(cfg).configs@ == old(cfg).configs@ && final(cfg).env@ == old(
                    cfg,
                ).env@
                &&& !ok ==> final(cfg).configs@ == old(cfg).configs@ && final(cfg).env@ == old(
                    cfg,
                ).env@ && final(cfg).priorities@ == old(cfg).priorities@
            },
        },
{
    match section {
        DevConfigSection::Config => {
            cfg.configs.insert(key, value);
            true
        },
        DevConfigSection::Env => {
            cfg.env.insert(key, value);
            true
        },
        DevConfigSection::Priority => {
            match parse_i64(value) {
                Some(v) => {
                    cfg.priorities.insert(key, v);
                    true
                },
                None => false,
            }
        },
    }
}

/// Drop one key from the chosen section; an absent key is no error.
pub fn remove(cfg: &mut StackConfig, section: DevConfigSection, key: &str)
    requires
        old(cfg).wf(),
    ensures
        final(cfg).wf(),
        match section {
            DevConfigSection::Config => final(cfg).configs@ == entries_remove(
                old(cfg).configs@,
                key@,
            ) && final(cfg).env@ == old(cfg).env@ && final(cfg).priorities@ == old(
                cfg,
            ).priorities@,
            DevConfigSection::Env => final(cfg).env@ == entries_remove(old(cfg).env@, key@)
                && final(cfg).configs@ == old(cfg).configs@ && final(cfg).priorities@ == old(
                cfg,
            ).priorities@,
            DevConfigSection::Priority => final(cfg).priorities@ == entries_remove(
                old(cfg).priorities@,
                key@,
            ) && final(cfg).configs@ == old(cfg).configs@ && final(cfg).env@ == old(cfg).env@,
        },
{
    match section {
        DevConfigSection::Config => {
            cfg.configs.remove(key);
        },
        DevConfigSection::Env => {
            cfg.env.remove(key);
        },
        DevConfigSection::Priority => {
            cfg.priorities.remove(key);
        },
    }
}

} // verus!
