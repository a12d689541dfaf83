//! The pf anchor that holds the rules, and the hook in `/etc/pf.conf` that
//! loads it.

use vstd::prelude::*;

use crate::text::contains_str;
use crate::text::contains_text;
use crate::text::occurs_at;

verus! {

/// Name of the anchor that holds the rules.
pub const ANCHOR: &'static str = "mufw";

/// Default on-disk rules path (root-owned, mode 0600).
pub const RULES_PATH: &'static str = "/etc/mufw/rules.toml";

/// Default anchor path under `/etc/pf.anchors/`.
pub const ANCHOR_FILE: &'static str = "/etc/pf.anchors/com.mufw";

/// The lines that must stand in `/etc/pf.conf` so that the kernel loads the anchor.
pub const PF_CONF_HOOK: &'static str = "anchor \"com.mufw\"\nload anchor \"com.mufw\" from \"/etc/pf.anchors/com.mufw\"\n";

/// The line whose presence in `/etc/pf.conf` shows that the hook is there.
pub const HOOK_MARK: &'static str = "anchor \"com.mufw\"";

/// What `/etc/pf.conf` must become so that it holds the hook: nothing to do
/// if it holds the mark already, else the old text, a line break and the hook.
pub open spec fn spec_hook_update(existing: Seq<char>) -> Option<Seq<char>> {
    if contains_text(existing, HOOK_MARK@) {
        None
    } else {
        Some(existing + "\n"@ + PF_CONF_HOOK@)
    }
}

/// Decides what `/etc/pf.conf` must become to hold the hook; `None` when it
/// holds it already. Applying it twice changes nothing the second time.
pub fn hook_update(existing: &str) -> (r: Option<String>)
    ensures
        match r {
            Some(t) => spec_hook_update(existing@) == Some(t@),
            None => spec_hook_update(existing@) is None,
        },
{
    if contains_str(existing, HOOK_MARK) {
        return None;
    }
    let mut t = existing.to_owned();
    t.append("\n");
    t.append(PF_CONF_HOOK);
    Some(t)
}


/// Adding the hook is idempotent: once added, the text holds the hook and
/// nothing more is added.
pub proof fn law_hook_update_idempotent(existing: Seq<char>)
    ensures
        spec_hook_update(existing) matches Some(t) ==> spec_hook_update(t) is None,
{
    if let Some(t) = spec_hook_update(existing) {
        reveal_strlit("anchor \"com.mufw\"");
        reveal_strlit("anchor \"com.mufw\"\nload anchor \"com.mufw\" from \"/etc/pf.anchors/com.mufw\"\n");
        reveal_strlit("\n");
        let k: int = existing.len() as int + 1;
        let m = HOOK_MARK@;
        assert(t.subrange(k, k + m.len() as int) =~= m);
        assert(occurs_at(t, m, k));
    }
}

}
