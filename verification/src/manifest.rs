//! The manifest data model: per game title, a set of save-location path
//! templates with optional tags and applicability constraints. The document
//! itself is fetched and decoded by the surrounding layer; this model keeps
//! titles unique and iteration order fixed.

use vstd::prelude::*;

use crate::strutil::str_eq;

verus! {

/// An operating system a manifest rule may be constrained to.
#[derive(Debug, Clone, Copy, PartialEq, Eq, Hash, Structural)]
pub enum Os {
    Windows,
    Linux,
    Mac,
    Dos,
}

/// A store a manifest rule may be constrained to.
#[derive(Debug, Clone, Copy, PartialEq, Eq, Hash, Structural)]
pub enum Store {
    Steam,
    Gog,
    Epic,
    Origin,
    Uplay,
    Microsoft,
}

/// An applicability constraint of one manifest rule. Accepted but not
/// enforced by this core.
#[derive(Debug, Clone, Copy, PartialEq, Eq, Structural)]
pub struct FileConstraint {
    /// The operating system the rule applies to, if constrained.
    pub os: Option<Os>,
    /// The store the rule applies to, if constrained.
    pub store: Option<Store>,
}

/// A game's Steam identifier.
#[derive(Debug, Clone, Copy, PartialEq, Eq, Structural)]
pub struct GameSteamInfo {
    /// The Steam application identifier.
    pub id: u32,
}

/// A game's GOG identifier.
#[derive(Debug, Clone, Copy, PartialEq, Eq, Structural)]
pub struct GameGogInfo {
    /// The GOG product identifier.
    pub id: u32,
}

/// Additional identifiers of a game on other launchers and stores.
#[derive(Debug, Clone)]
pub struct IdField {
    /// The Flatpak application identifier.
    pub flatpak: Option<String>,
    /// Additional GOG product identifiers.
    pub gog_extra: Option<Vec<u32>>,
    /// The Lutris slug.
    pub lutris: Option<String>,
    /// Additional Steam application identifiers.
    pub steam_extra: Option<Vec<u32>>,
}

/// The metadata of one path template: free-text tags and applicability
/// constraints.
#[derive(Debug, Clone)]
pub struct GameFileRule {
    /// Free-text labels of the rule (`save`, `config`).
    pub tags: Option<Vec<String>>,
    /// The constraints under which the rule applies.
    pub when: Option<Vec<FileConstraint>>,
}

/// One save-location rule of a game: a path template and its metadata.
#[derive(Debug, Clone)]
pub struct FileEntry {
    /// The path template, with placeholder tokens.
    pub path: String,
    /// The rule's metadata.
    pub rule: GameFileRule,
}

/// One game's record in the manifest.
#[derive(Debug, Clone)]
pub struct GameEntry {
    /// The game's save-location rules, if any.
    pub files: Option<Vec<FileEntry>>,
    /// The game's Steam identifier, if known.
    pub steam: Option<GameSteamInfo>,
    /// The game's GOG identifier, if known.
    pub gog: Option<GameGogInfo>,
    /// The game's identifiers on other launchers and stores, if known.
    pub id: Option<IdField>,
    /// Another title this game is also known under, if any.
    pub alias: Option<String>,
}

/// One game of the manifest: its title and its record.
#[derive(Debug, Clone)]
pub struct ManifestGame {
    /// The game's title, unique within the manifest.
    pub title: String,
    /// The game's record.
    pub entry: GameEntry,
}

/// The parsed manifest: games in a fixed iteration order, with unique titles.
#[derive(Debug, Clone)]
pub struct ManifestData {
    /// The games of the manifest, in a fixed order.
    pub games: Vec<ManifestGame>,
}

/// Titles are unique within the manifest.
pub open spec fn unique_titles(games: Seq<ManifestGame>) -> bool {
    forall|i: int, j: int|
        0 <= i < j < games.len() ==> (#[trigger] games[i].title@) != (#[trigger] games[j].title@)
}

impl ManifestData {
    /// Some game of the manifest carries this title.
    pub open spec fn spec_has_title(self, title: Seq<char>) -> bool {
        exists|i: int| 0 <= i < self.games@.len() && (#[trigger] self.games@[i].title@) == title
    }

    /// An empty manifest.
    pub fn new() -> (r: ManifestData)
        ensures
            r.games@.len() == 0,
            unique_titles(r.games@),
    {
        ManifestData { games: Vec::new() }
    }

    /// Whether some game of the manifest carries this title.
    pub fn has_title(&self, title: &str) -> (r: bool)
        ensures
            r == self.spec_has_title(title@),
    {
        let mut i: usize = 0;
        while i < self.games.len()
            invariant
                0 <= i <= self.games@.len(),
                forall|k: int| 0 <= k < i ==> (#[trigger] self.games@[k].title@) != title@,
            decreases self.games@.len() - i,
        {
            if str_eq(self.games[i].title.as_str(), title) {
                return true;
            }
            i = i + 1;
        }
        false
    }

    /// Appends a game under a fresh title; a title already present is
    /// rejected and nothing changes. Keeps titles unique.
    pub fn push_game(&mut self, title: String, entry: GameEntry) -> (r: bool)
        requires
            unique_titles(old(self).games@),
        ensures
            unique_titles(final(self).games@),
            r == !old(self).spec_has_title(title@),
            r ==> {
                &&& final(self).games@.len() == old(self).games@.len() + 1
                &&& final(self).games@.last().title == title
                &&& final(self).games@.last().entry == entry
                &&& final(self).games@.drop_last() == old(self).games@
            },
            !r ==> *final(self) == *old(self),
    {
        if self.has_title(title.as_str()) {
            return false;
        }
        let ghost games0 = self.games@;
        self.games.push(ManifestGame { title, entry });
        proof {
            assert(self.games@.drop_last() =~= games0);
            assert forall|i: int, j: int| 0 <= i < j < self.games@.len() implies (
            #[trigger] self.games@[i].title@) != (#[trigger] self.games@[j].title@) by {
                if j < games0.len() {
                    assert(self.games@[i] == games0[i]);
                    assert(self.games@[j] == games0[j]);
                } else {
                    assert(self.games@[i] == games0[i]);
                }
            }
        }
        true
    }
}

} // verus!
