//! The game matcher: correlates the candidate save folders discovered in a
//! prefix with the manifest's path templates. A candidate folder matches a
//! template when the resolved template path, after normalization, starts with
//! the normalized candidate path; the first match in iteration order wins.

use vstd::prelude::*;

use crate::compatdata::PrefixData;
use crate::config::Config;
use crate::manifest::{GameEntry, ManifestData};
use crate::resolve::{resolve_manifest_path, spec_resolve_for};
use crate::strutil::{has_at, norm, normalize_path, starts_with_from};

verus! {

/// A candidate folder path matches a resolved template path when both
/// normal forms are nonempty and the resolved path starts with the candidate
/// path. The candidate is typically the coarser, shallower of the two.
pub open spec fn is_path_match(cand: Seq<char>, resolved: Seq<char>) -> bool {
    &&& norm(cand).len() > 0
    &&& norm(resolved).len() > 0
    &&& has_at(norm(resolved), 0, norm(cand))
}

/// A candidate folder path matches a template when the template resolves for
/// this prefix and the resolved path matches.
pub open spec fn template_matches(
    cand: Seq<char>,
    template: Seq<char>,
    steam: Seq<char>,
    game_id: Seq<char>,
) -> bool {
    match spec_resolve_for(template, steam, game_id) {
        Some(resolved) => is_path_match(cand, resolved),
        None => false,
    }
}

/// A candidate folder path matches a game's record when it matches some
/// template among the record's save-location rules.
pub open spec fn entry_matches(
    cand: Seq<char>,
    entry: GameEntry,
    steam: Seq<char>,
    game_id: Seq<char>,
) -> bool {
    match entry.files {
        Some(files) => exists|t: int|
            0 <= t < files@.len() && template_matches(
                cand,
                (#[trigger] files@[t]).path@,
                steam,
                game_id,
            ),
        None => false,
    }
}

/// Tests whether a candidate folder path matches some template of a game's
/// record, for the prefix `game_id`.
pub fn entry_matches_exec(cand: &str, entry: &GameEntry, config: &Config, game_id: &str) -> (r:
    bool)
    ensures
        r == entry_matches(cand@, *entry, config.data.steam_path@, game_id@),
{
    let files = match &entry.files {
        Some(files) => files,
        None => {
            return false;
        },
    };
    let nfound = normalize_path(cand);
    let mut t: usize = 0;
    while t < files.len()
        invariant
            0 <= t <= files@.len(),
            entry.files matches Some(f) && f@ == files@,
            nfound@ == norm(cand@),
            forall|t2: int|
                0 <= t2 < t ==> !template_matches(
                    cand@,
                    (#[trigger] files@[t2]).path@,
                    config.data.steam_path@,
                    game_id@,
                ),
        decreases files@.len() - t,
    {
        if let Some(resolved) = resolve_manifest_path(files[t].path.as_str(), config, game_id) {
            let nres = normalize_path(resolved.as_str());
            if nfound.unicode_len() > 0 && nres.unicode_len() > 0 && starts_with_from(
                nres.as_str(),
                0,
                nfound.as_str(),
            ) {
                return true;
            }
        }
        t = t + 1;
    }
    false
}

/// The candidate folder at position (`i`, `j`) of a prefix's scan matches the
/// record of the `g`-th game of the manifest.
pub open spec fn match_at(
    m: ManifestData,
    p: PrefixData,
    steam: Seq<char>,
    i: int,
    j: int,
    g: int,
) -> bool {
    &&& 0 <= i < p.save_locations@.len()
    &&& 0 <= j < p.save_locations@[i].entries@.len()
    &&& 0 <= g < m.games@.len()
    &&& entry_matches(p.save_locations@[i].entries@[j].path@, m.games@[g].entry, steam, p.game_id@)
}

/// Some candidate folder of the prefix matches some game of the manifest.
pub open spec fn any_match(m: ManifestData, p: PrefixData, steam: Seq<char>) -> bool {
    exists|i: int, j: int, g: int| #[trigger] match_at(m, p, steam, i, j, g)
}

/// Strict order of match positions: candidate folders in scan order first,
/// then games in manifest order.
pub open spec fn pos_before(i2: int, j2: int, g2: int, i: int, j: int, g: int) -> bool {
    ||| i2 < i
    ||| (i2 == i && j2 < j)
    ||| (i2 == i && j2 == j && g2 < g)
}

/// Identifies the game of a prefix: the first pair of a candidate folder and
/// a manifest game whose record matches it, walking candidate folders in scan
/// order and games in manifest order. Yields nothing exactly when no
/// candidate folder matches any game.
pub fn find_game_for_prefix_by_path<'a>(
    manifest: &'a ManifestData,
    prefix_data: &PrefixData,
    config: &Config,
) -> (r: Option<(String, &'a GameEntry)>)
    ensures
        match r {
            Some(found) => exists|i: int, j: int, g: int|
                {
                    &&& #[trigger] match_at(
                        *manifest,
                        *prefix_data,
                        config.data.steam_path@,
                        i,
                        j,
                        g,
                    )
                    &&& forall|i2: int, j2: int, g2: int|
                        pos_before(i2, j2, g2, i, j, g) ==> !match_at(
                            *manifest,
                            *prefix_data,
                            config.data.steam_path@,
                            i2,
                            j2,
                            g2,
                        )
                    &&& found.0@ == manifest.games@[g].title@
                    &&& *found.1 == manifest.games@[g].entry
                },
            None => !any_match(*manifest, *prefix_data, config.data.steam_path@),
        },
{
    let ghost m = *manifest;
    let ghost p = *prefix_data;
    let ghost steam = config.data.steam_path@;
    let mut i: usize = 0;
    while i < prefix_data.save_locations.len()
        invariant
            m == *manifest,
            p == *prefix_data,
            steam == config.data.steam_path@,
            0 <= i <= p.save_locations@.len(),
            forall|i2: int, j2: int, g2: int|
                i2 < i ==> !#[trigger] match_at(m, p, steam, i2, j2, g2),
        decreases p.save_locations@.len() - i,
    {
        let loc = &prefix_data.save_locations[i];
        let mut j: usize = 0;
        while j < loc.entries.len()
            invariant
                m == *manifest,
                p == *prefix_data,
                steam == config.data.steam_path@,
                0 <= i < p.save_locations@.len(),
                loc == p.save_locations@[i as int],
                0 <= j <= loc.entries@.len(),
                forall|i2: int, j2: int, g2: int|
                    i2 < i ==> !#[trigger] match_at(m, p, steam, i2, j2, g2),
                forall|j2: int, g2: int|
                    j2 < j ==> !#[trigger] match_at(m, p, steam, i as int, j2, g2),
            decreases loc.entries@.len() - j,
        {
            let cand = &loc.entries[j].path;
            let mut g: usize = 0;
            while g < manifest.games.len()
                invariant
                    m == *manifest,
                    p == *prefix_data,
                    steam == config.data.steam_path@,
                    0 <= i < p.save_locations@.len(),
                    loc == p.save_locations@[i as int],
                    0 <= j < loc.entries@.len(),
                    cand == &loc.entries@[j as int].path,
                    0 <= g <= m.games@.len(),
                    forall|i2: int, j2: int, g2: int|
                        i2 < i ==> !#[trigger] match_at(m, p, steam, i2, j2, g2),
                    forall|j2: int, g2: int|
                        j2 < j ==> !#[trigger] match_at(m, p, steam, i as int, j2, g2),
                    forall|g2: int|
                        g2 < g ==> !#[trigger] match_at(m, p, steam, i as int, j as int, g2),
                decreases m.games@.len() - g,
            {
                if entry_matches_exec(
                    cand.as_str(),
                    &manifest.games[g].entry,
                    config,
                    prefix_data.game_id.as_str(),
                ) {
                    let title = manifest.games[g].title.clone();
                    let entry = &manifest.games[g].entry;
                    proof {
                        assert(match_at(m, p, steam, i as int, j as int, g as int));
                        assert forall|i2: int, j2: int, g2: int|
                            pos_before(i2, j2, g2, i as int, j as int, g as int) implies !match_at(
                            m,
                            p,
                            steam,
                            i2,
                            j2,
                            g2,
                        ) by {
                            assert(!match_at(m, p, steam, i2, j2, g2));
                        }
                    }
                    return Some((title, entry));
                }
                g = g + 1;
            }
            j = j + 1;
        }
        i = i + 1;
    }
    proof {
        assert forall|i2: int, j2: int, g2: int| !#[trigger] match_at(m, p, steam, i2, j2, g2) by {
        }
    }
    None
}

} // verus!
