//! Collecting the save locations of an identified game: every template of
//! the game's record that resolves for the prefix, paired with whether the
//! resolved path exists on disk and how large it is. A template that does not
//! resolve is omitted; it never fails the collection.

use vstd::prelude::*;

use crate::config::Config;
use crate::fstree::{calculate_path_size, capped, spec_size, FsNode};
use crate::manifest::{FileEntry, GameEntry};
use crate::resolve::{resolve_manifest_path, spec_resolve_for};

verus! {

/// One resolved save-location rule of a game: the original template, the
/// path it resolved to for one prefix, and the rule's tags.
pub struct ResolvedRule {
    /// The original path template from the manifest.
    pub manifest_path: String,
    /// The path the template resolved to for the prefix.
    pub resolved_path: String,
    /// The tags of the rule.
    pub tags: Option<Vec<String>>,
}

/// One save location of an identified game, with its size on disk.
pub struct SaveLocationInfo {
    /// The original path template from the manifest.
    pub manifest_path: String,
    /// The path the template resolved to for the prefix.
    pub resolved_path: String,
    /// The recursive size of the resolved path, zero when it does not exist.
    pub size_bytes: u64,
    /// Whether the resolved path exists on disk.
    pub exists: bool,
    /// The tags of the rule.
    pub tags: Option<Vec<String>>,
}

/// A game identified in a prefix, with its collected save locations.
pub struct GameInfo {
    /// The prefix's identifier.
    pub app_id: String,
    /// The game's title from the manifest.
    pub name: String,
    /// The game's manifest record.
    pub entry: GameEntry,
    /// The game's collected save locations.
    pub save_locations: Vec<SaveLocationInfo>,
    /// The sum of the save locations' sizes.
    pub total_size_bytes: u64,
}

/// Copies a rule's tags.
fn clone_tags(tags: &Option<Vec<String>>) -> (r: Option<Vec<String>>)
    ensures
        r.deep_view() == tags.deep_view(),
{
    match tags {
        None => None,
        Some(v) => {
            let mut out: Vec<String> = Vec::new();
            let mut i: usize = 0;
            while i < v.len()
                invariant
                    0 <= i <= v@.len(),
                    out@.len() == i,
                    forall|k: int| 0 <= k < i ==> (#[trigger] out@[k]@) == v@[k]@,
                decreases v@.len() - i,
            {
                out.push(v[i].clone());
                i = i + 1;
            }
            proof {
                assert(out.deep_view() =~= v.deep_view());
            }
            Some(out)
        },
    }
}

/// The indices, among the first `n` rules, of the templates that resolve for
/// this prefix, in order.
pub open spec fn resolved_idx(
    files: Seq<FileEntry>,
    steam: Seq<char>,
    game_id: Seq<char>,
    n: int,
) -> Seq<int>
    decreases n,
{
    if n <= 0 {
        Seq::empty()
    } else if spec_resolve_for(files[n - 1].path@, steam, game_id) is Some {
        resolved_idx(files, steam, game_id, n - 1).push(n - 1)
    } else {
        resolved_idx(files, steam, game_id, n - 1)
    }
}

/// Every resolved index lies among the first `n`.
proof fn lemma_resolved_idx_bounds(files: Seq<FileEntry>, steam: Seq<char>, game_id: Seq<char>, n: int)
    requires
        n >= 0,
    ensures
        forall|m: int|
            0 <= m < resolved_idx(files, steam, game_id, n).len() ==> 0 <= #[trigger] resolved_idx(
                files,
                steam,
                game_id,
                n,
            )[m] < n,
    decreases n,
{
    if n > 0 {
        lemma_resolved_idx_bounds(files, steam, game_id, n - 1);
        let prev = resolved_idx(files, steam, game_id, n - 1);
        if spec_resolve_for(files[n - 1].path@, steam, game_id) is Some {
            assert forall|m: int| 0 <= m < prev.push(n - 1).len() implies 0 <= #[trigger] prev.push(
                n - 1,
            )[m] < n by {
                if m < prev.len() {
                    assert(prev.push(n - 1)[m] == prev[m]);
                } else {
                    assert(prev.push(n - 1)[m] == n - 1);
                }
            }
        }
    }
}

/// The collected rules are exactly the rules whose templates resolve, in
/// order: the original template, its resolved path, and its tags.
pub open spec fn rules_resolved(
    files: Seq<FileEntry>,
    steam: Seq<char>,
    game_id: Seq<char>,
    out: Seq<ResolvedRule>,
) -> bool {
    let ridx = resolved_idx(files, steam, game_id, files.len() as int);
    &&& out.len() == ridx.len()
    &&& forall|m: int|
        0 <= m < out.len() ==> {
            let k = ridx[m];
            &&& (#[trigger] out[m]).manifest_path@ == files[k].path@
            &&& Some(out[m].resolved_path@) == spec_resolve_for(files[k].path@, steam, game_id)
            &&& out[m].tags.deep_view() == files[k].rule.tags.deep_view()
        }
}

/// Resolves every save-location rule of a game's record for one prefix.
/// Exactly the rules whose templates resolve are kept, in order; a template
/// that does not resolve is omitted.
pub fn resolved_save_paths(entry: &GameEntry, config: &Config, game_id: &str) -> (r: Vec<
    ResolvedRule,
>)
    ensures
        match entry.files {
            Some(files) => rules_resolved(files@, config.data.steam_path@, game_id@, r@),
            None => r@.len() == 0,
        },
        forall|m: int|
            0 <= m < r@.len() ==> spec_resolve_for(
                (#[trigger] r@[m]).manifest_path@,
                config.data.steam_path@,
                game_id@,
            ) is Some,
{
    let ghost steam = config.data.steam_path@;
    let mut out: Vec<ResolvedRule> = Vec::new();
    let files = match &entry.files {
        Some(files) => files,
        None => {
            return out;
        },
    };
    let mut k: usize = 0;
    while k < files.len()
        invariant
            steam == config.data.steam_path@,
            entry.files matches Some(f) && f@ == files@,
            0 <= k <= files@.len(),
            out@.len() == resolved_idx(files@, steam, game_id@, k as int).len(),
            forall|m: int|
                0 <= m < out@.len() ==> {
                    let kk = resolved_idx(files@, steam, game_id@, k as int)[m];
                    &&& (#[trigger] out@[m]).manifest_path@ == files@[kk].path@
                    &&& Some(out@[m].resolved_path@) == spec_resolve_for(
                        files@[kk].path@,
                        steam,
                        game_id@,
                    )
                    &&& out@[m].tags.deep_view() == files@[kk].rule.tags.deep_view()
                },
        decreases files@.len() - k,
    {
        proof {
            lemma_resolved_idx_bounds(files@, steam, game_id@, k as int);
        }
        if let Some(resolved) = resolve_manifest_path(files[k].path.as_str(), config, game_id) {
            let rule = ResolvedRule {
                manifest_path: files[k].path.clone(),
                resolved_path: resolved,
                tags: clone_tags(&files[k].rule.tags),
            };
            out.push(rule);
            proof {
                assert(resolved_idx(files@, steam, game_id@, k as int + 1) =~= resolved_idx(
                    files@,
                    steam,
                    game_id@,
                    k as int,
                ).push(k as int));
            }
        }
        k = k + 1;
    }
    proof {
        lemma_resolved_idx_bounds(files@, steam, game_id@, files@.len() as int);
    }
    out
}

/// The sum of the sizes of the probed paths; a path that does not exist
/// contributes nothing.
pub open spec fn spec_total(probes: Seq<Option<FsNode>>) -> nat
    decreases probes,
{
    if probes.len() == 0 {
        0
    } else {
        spec_total(probes.drop_last()) + match probes.last() {
            Some(node) => spec_size(node),
            None => 0,
        }
    }
}

/// Pairs every resolved rule with what the disk shows of its path — a
/// snapshot of the tree behind it, or nothing when it does not exist — and
/// sums the sizes. Only rules that resolved are handed in, so no entry of the
/// result comes from a template that failed to resolve; the total is the sum
/// of the entries' sizes, saturating at the largest representable value.
pub fn collect_save_locations(resolved: &Vec<ResolvedRule>, probes: &Vec<Option<FsNode>>) -> (r: (
    Vec<SaveLocationInfo>,
    u64,
))
    requires
        probes@.len() == resolved@.len(),
    ensures
        r.0@.len() == resolved@.len(),
        forall|m: int|
            0 <= m < r.0@.len() ==> {
                let info = #[trigger] r.0@[m];
                &&& info.manifest_path@ == resolved@[m].manifest_path@
                &&& info.resolved_path@ == resolved@[m].resolved_path@
                &&& info.tags.deep_view() == resolved@[m].tags.deep_view()
                &&& info.exists == (probes@[m] is Some)
                &&& info.size_bytes as nat == (match probes@[m] {
                    Some(node) => capped(spec_size(node)),
                    None => 0,
                })
            },
        r.1 as nat == capped(spec_total(probes@)),
{
    let mut out: Vec<SaveLocationInfo> = Vec::new();
    let mut total: u64 = 0;
    let mut m: usize = 0;
    proof {
        assert(probes@.subrange(0, 0) =~= Seq::<Option<FsNode>>::empty());
    }
    while m < resolved.len()
        invariant
            probes@.len() == resolved@.len(),
            0 <= m <= resolved@.len(),
            out@.len() == m,
            forall|q: int|
                0 <= q < m ==> {
                    let info = #[trigger] out@[q];
                    &&& info.manifest_path@ == resolved@[q].manifest_path@
                    &&& info.resolved_path@ == resolved@[q].resolved_path@
                    &&& info.tags.deep_view() == resolved@[q].tags.deep_view()
                    &&& info.exists == (probes@[q] is Some)
                    &&& info.size_bytes as nat == (match probes@[q] {
                        Some(node) => capped(spec_size(node)),
                        None => 0,
                    })
                },
            total as nat == capped(spec_total(probes@.subrange(0, m as int))),
        decreases resolved@.len() - m,
    {
        let (exists, size) = match &probes[m] {
            Some(node) => (true, calculate_path_size(node)),
            None => (false, 0u64),
        };
        let info = SaveLocationInfo {
            manifest_path: resolved[m].manifest_path.clone(),
            resolved_path: resolved[m].resolved_path.clone(),
            size_bytes: size,
            exists,
            tags: clone_tags(&resolved[m].tags),
        };
        out.push(info);
        proof {
            assert(probes@.subrange(0, m as int + 1).drop_last() =~= probes@.subrange(0, m as int));
            assert(probes@.subrange(0, m as int + 1).last() == probes@[m as int]);
        }
        total = total.saturating_add(size);
        m = m + 1;
    }
    proof {
        assert(probes@.subrange(0, probes@.len() as int) =~= probes@);
    }
    (out, total)
}

} // verus!
