use vstd::prelude::*;

use crate::omap::StrMap;
use crate::omap::entries_get;
use crate::omap::entries_insert;
use crate::omap::entries_remove;

verus! {

// ---------------------------------------------------------------------------
// The project's free-text key/value store
// ---------------------------------------------------------------------------
/// Where the store lives, relative to the project root.
pub fn config_path() -> (r: String)
    ensures
        r@ == ".dx/config.json"@,
{
    ".dx/config.json".to_owned()
}

/// Create a key.  A key that already exists is left untouched and the
/// call reports that nothing was created.
pub fn add(cfg: &mut StrMap, key: &str, value: &str) -> (created: bool)
    requires
        old(cfg).wf(),
    ensures
        final(cfg).wf(),
        created == !crate::omap::has_key(old(cfg)@, key@),
        created ==> final(cfg)@ == entries_insert(old(cfg)@, key@, value@),
        !created ==> final(cfg)@ == old(cfg)@,
{
    match cfg.get(key) {
        Some(_) => false,
        None => {
            cfg.insert(key, value);
            true
        },
    }
}

/// Overwrite a key.  A key that does not exist is not created and the
/// call reports that nothing was updated.
pub fn update(cfg: &mut StrMap, key: &str, value: &str) -> (updated: bool)
    requires
        old(cfg).wf(),
    ensures
        final(cfg).wf(),
        updated == crate::omap::has_key(old(cfg)@, key@),
        updated ==> final(cfg)@ == entries_insert(old(cfg)@, key@, value@),
        !updated ==> final(cfg)@ == old(cfg)@,
{
    match cfg.get(key) {
        Some(_) => {
            cfg.insert(key, value);
            true
        },
        None => false,
    }
}

/// Remove a key, reporting whether it was there.
pub fn delete(cfg: &mut StrMap, key: &str) -> (removed: bool)
    requires
        old(cfg).wf(),
    ensures
        final(cfg).wf(),
        removed == crate::omap::has_key(old(cfg)@, key@),
        final(cfg)@ == entries_remove(old(cfg)@, key@),
    {
    let removed = match cfg.get(key) {
        Some(_) => true,
        None => false,
    };
    cfg.remove(key);
    proof {
        if !removed {
            crate::omap::lemma_remove_sorted(old(cfg)@, key@);
        }
    }
    removed
}

/// List the stored pairs, in key order.
pub fn list(cfg: &StrMap) -> (r: Vec<(String, String)>)
    ensures
        r.deep_view() == cfg@,
{
    cfg.to_pairs()
}

/// The value stored under a key, if any.
pub fn get_value(cfg: &StrMap, key: &str) -> (r: Option<String>)
    requires
        cfg.wf(),
    ensures
        match r {
            Some(v) => entries_get(cfg@, key@) == Some(v@),
            None => entries_get(cfg@, key@) is None,
        },
{
    cfg.get(key)
}

} // verus!
