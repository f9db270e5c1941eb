//! Application configuration and the fixed path layout of a
//! Windows-compatibility prefix: the compatibility-data root, and the
//! per-prefix drive root and user-profile root derived from it.

use vstd::prelude::*;

use crate::strutil::{has_at, starts_with_from};
use crate::SaveError;

verus! {

broadcast use vstd::string::group_string_axioms;

/// The manifest URL used until the user configures another one.
pub open spec fn spec_default_manifest_url() -> Seq<char> {
    "https://raw.githubusercontent.com/mtkennerly/ludusavi-manifest/master/data/manifest.yaml"@
}

/// The manifest URL used until the user configures another one.
pub fn default_manifest_url() -> (r: &'static str)
    ensures
        r@ == spec_default_manifest_url(),
{
    "https://raw.githubusercontent.com/mtkennerly/ludusavi-manifest/master/data/manifest.yaml"
}

/// The compatibility-data root under a Steam installation root.
pub open spec fn spec_compatdata_path(steam: Seq<char>) -> Seq<char> {
    steam + "/steam/steamapps/compatdata"@
}

/// The emulated Windows drive root of one prefix.
pub open spec fn spec_drive_c_path(steam: Seq<char>, game_id: Seq<char>) -> Seq<char> {
    spec_compatdata_path(steam) + "/"@ + game_id + "/pfx/drive_c"@
}

/// The user-profile root of one prefix. The user name is the fixed synthetic
/// account of the compatibility layer, not a real OS user.
pub open spec fn spec_user_path(steam: Seq<char>, game_id: Seq<char>) -> Seq<char> {
    spec_drive_c_path(steam, game_id) + "/users/steamuser"@
}

/// A manifest URL must be an http or https URL.
pub open spec fn spec_valid_manifest_url(url: Seq<char>) -> bool {
    has_at(url, 0, "http://"@) || has_at(url, 0, "https://"@)
}

/// The persisted part of the configuration.
pub struct ConfigData {
    /// Root of the Steam installation that hosts the compatibility prefixes.
    pub steam_path: String,
    /// Where the manifest document is fetched from.
    pub manifest_url: String,
    /// Whether the application has never completed a first run.
    pub first_run: bool,
}

impl ConfigData {
    /// The defaults written on a first run: a `.steam` directory under the
    /// given home directory, and the default manifest URL.
    pub fn initial(home: &str) -> (r: ConfigData)
        ensures
            r.steam_path@ == home@ + "/.steam"@,
            r.manifest_url@ == spec_default_manifest_url(),
            r.first_run == true,
    {
        ConfigData {
            steam_path: String::from_str(home).concat("/.steam"),
            manifest_url: String::from_str(default_manifest_url()),
            first_run: true,
        }
    }
}

/// The configuration together with where it is persisted and where the
/// manifest document is cached.
pub struct Config {
    /// The persisted settings.
    pub data: ConfigData,
    /// The file the settings are persisted to.
    pub config_path: String,
    /// The local file the manifest document is cached in.
    pub cache_path: String,
}

impl Config {
    /// Assembles a configuration from loaded or freshly initialized parts.
    pub fn from_parts(data: ConfigData, config_path: String, cache_path: String) -> (r: Config)
        ensures
            r.data == data,
            r.config_path == config_path,
            r.cache_path == cache_path,
    {
        Config { data, config_path, cache_path }
    }

    /// The configured Steam installation root.
    pub fn steam_path(&self) -> (r: &str)
        ensures
            r@ == self.data.steam_path@,
    {
        self.data.steam_path.as_str()
    }

    /// The configured manifest URL.
    pub fn manifest_url(&self) -> (r: &str)
        ensures
            r@ == self.data.manifest_url@,
    {
        self.data.manifest_url.as_str()
    }

    /// The local file the manifest document is cached in.
    pub fn manifest_cache_path(&self) -> (r: &str)
        ensures
            r@ == self.cache_path@,
    {
        self.cache_path.as_str()
    }

    /// Whether the application has never completed a first run.
    pub fn is_first_run(&self) -> (r: bool)
        ensures
            r == self.data.first_run,
    {
        self.data.first_run
    }

    /// The directory whose immediate children are the compatibility prefixes.
    pub fn compatdata_path(&self) -> (r: String)
        ensures
            r@ == spec_compatdata_path(self.data.steam_path@),
    {
        self.data.steam_path.clone().concat("/steam/steamapps/compatdata")
    }

    /// The emulated Windows drive root of the prefix for `game_id`.
    pub fn drive_c_path(&self, game_id: &str) -> (r: String)
        ensures
            r@ == spec_drive_c_path(self.data.steam_path@, game_id@),
    {
        self.compatdata_path().concat("/").concat(game_id).concat("/pfx/drive_c")
    }

    /// The user-profile root of the prefix for `game_id`.
    pub fn user_path(&self, game_id: &str) -> (r: String)
        ensures
            r@ == spec_user_path(self.data.steam_path@, game_id@),
    {
        self.drive_c_path(game_id).concat("/users/steamuser")
    }

    /// Updates the Steam root. The caller reports whether the path exists on
    /// disk; a missing path is rejected and nothing changes.
    pub fn set_steam_path(&mut self, path: String, path_exists: bool) -> (r: Result<(), SaveError>)
        ensures
            match r {
                Ok(()) => path_exists && final(self).data.steam_path == path
                    && final(self).data.manifest_url == old(self).data.manifest_url
                    && final(self).data.first_run == old(self).data.first_run
                    && final(self).config_path == old(self).config_path
                    && final(self).cache_path == old(self).cache_path,
                Err(e) => e == SaveError::NotFound && !path_exists && *final(self) == *old(self),
            },
    {
        if !path_exists {
            return Err(SaveError::NotFound);
        }
        self.data.steam_path = path;
        Ok(())
    }

    /// Updates the manifest URL. A string that is not an http or https URL is
    /// rejected and nothing changes.
    pub fn set_manifest_url(&mut self, url: String) -> (r: Result<(), SaveError>)
        ensures
            match r {
                Ok(()) => spec_valid_manifest_url(url@) && final(self).data.manifest_url == url
                    && final(self).data.steam_path == old(self).data.steam_path
                    && final(self).data.first_run == old(self).data.first_run
                    && final(self).config_path == old(self).config_path
                    && final(self).cache_path == old(self).cache_path,
                Err(e) => e == SaveError::InvalidUrl && !spec_valid_manifest_url(url@)
                    && *final(self) == *old(self),
            },
    {
        let ok = starts_with_from(url.as_str(), 0, "http://") || starts_with_from(
            url.as_str(),
            0,
            "https://",
        );
        if !ok {
            return Err(SaveError::InvalidUrl);
        }
        self.data.manifest_url = url;
        Ok(())
    }

    /// Records that the first run has been completed.
    pub fn mark_first_run_complete(&mut self)
        ensures
            final(self).data.first_run == false,
            final(self).data.steam_path == old(self).data.steam_path,
            final(self).data.manifest_url == old(self).data.manifest_url,
            final(self).config_path == old(self).config_path,
            final(self).cache_path == old(self).cache_path,
    {
        self.data.first_run = false;
    }
}

} // verus!
