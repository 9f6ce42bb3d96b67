//! Configuration: watched directories, debounce interval, target
//! directories and toggles. Reading and writing the configuration file is
//! the caller's business.

use vstd::prelude::*;
use vstd::string::StringExecFns;
use crate::text;

verus! {

/// Watch configuration.
#[derive(Debug, Clone)]
pub struct WatchConfig {
    /// Directories to watch for bundles; `~` is expanded at consumption
    /// time, not here.
    pub directories: Vec<String>,
    /// File-pattern hints; informational only, detection is by signature.
    pub patterns: Vec<String>,
    /// Quiet period before a queued event is acted on, in milliseconds.
    pub debounce_ms: u64,
}

/// Integration behaviour.
#[derive(Debug, Clone)]
pub struct IntegrationConfig {
    /// Where menu-entry files are installed.
    pub desktop_dir: String,
    /// The icon theme root that receives installed icons.
    pub icon_dir: String,
    /// Whether to refresh the external menu cache after changes.
    pub update_database: bool,
    /// Whether to integrate bundles already present at startup.
    pub scan_on_startup: bool,
}

/// Logging configuration; consumed outside the library.
#[derive(Debug, Clone)]
pub struct LoggingConfig {
    pub level: String,
    pub file: Option<String>,
}

/// The whole configuration.
#[derive(Debug, Clone)]
pub struct Config {
    pub watch: WatchConfig,
    pub integration: IntegrationConfig,
    pub logging: LoggingConfig,
}

impl Default for WatchConfig {
    /// Three conventional download and application directories, the
    /// conventional bundle name patterns, and a one-second debounce.
    fn default() -> (r: WatchConfig)
        ensures
            r.directories@.len() == 3,
            r.directories@[0]@ == "~/Downloads"@,
            r.directories@[1]@ == "~/Applications"@,
            r.directories@[2]@ == "~/.local/bin"@,
            r.patterns@.len() == 2,
            r.patterns@[0]@ == "*.AppImage"@,
            r.patterns@[1]@ == "*.appimage"@,
            r.debounce_ms == 1000,
    {
        let mut directories: Vec<String> = Vec::new();
        directories.push(String::from_str("~/Downloads"));
        directories.push(String::from_str("~/Applications"));
        directories.push(String::from_str("~/.local/bin"));
        let mut patterns: Vec<String> = Vec::new();
        patterns.push(String::from_str("*.AppImage"));
        patterns.push(String::from_str("*.appimage"));
        WatchConfig { directories, patterns, debounce_ms: 1000 }
    }
}

impl Default for IntegrationConfig {
    /// The per-user application and icon-theme directories; refresh the
    /// menu cache and scan at startup.
    fn default() -> (r: IntegrationConfig)
        ensures
            r.desktop_dir@ == "~/.local/share/applications"@,
            r.icon_dir@ == "~/.local/share/icons/hicolor"@,
            r.update_database,
            r.scan_on_startup,
    {
        IntegrationConfig {
            desktop_dir: String::from_str("~/.local/share/applications"),
            icon_dir: String::from_str("~/.local/share/icons/hicolor"),
            update_database: true,
            scan_on_startup: true,
        }
    }
}

impl Default for LoggingConfig {
    fn default() -> (r: LoggingConfig)
        ensures
            r.level@ == "info"@,
            r.file is None,
    {
        LoggingConfig { level: String::from_str("info"), file: None }
    }
}

impl Default for Config {
    fn default() -> (r: Config)
        ensures
            r.watch.directories@.len() == 3,
            r.watch.directories@[0]@ == "~/Downloads"@,
            r.watch.directories@[1]@ == "~/Applications"@,
            r.watch.directories@[2]@ == "~/.local/bin"@,
            r.watch.debounce_ms == 1000,
            r.integration.desktop_dir@ == "~/.local/share/applications"@,
            r.integration.icon_dir@ == "~/.local/share/icons/hicolor"@,
            r.integration.update_database,
            r.integration.scan_on_startup,
            r.logging.level@ == "info"@,
    {
        Config {
            watch: WatchConfig::default(),
            integration: IntegrationConfig::default(),
            logging: LoggingConfig::default(),
        }
    }
}

/// Relies on `shellexpand::tilde`: only a leading `~` is ever rewritten
/// (to a home directory known only to the environment), so a string that
/// does not start with `~` comes back unchanged.
#[verifier::external_body]
fn expand_tilde(s: &str) -> (r: String)
    ensures
        (s@.len() == 0 || s@[0] != '~') ==> r@ == s@,
{
    shellexpand::tilde(s).to_string()
}

/// A string after tilde expansion: whatever the environment gave, but
/// certainly unchanged when it did not start with `~`.
pub open spec fn tilde_expanded(orig: Seq<char>, expanded: Seq<char>) -> bool {
    (orig.len() == 0 || orig[0] != '~') ==> expanded == orig
}

fn expand_all(v: &Vec<String>) -> (r: Vec<String>)
    ensures
        r@.len() == v@.len(),
        forall|i: int| 0 <= i < v@.len() ==> tilde_expanded(v@[i]@, (#[trigger] r@[i])@),
{
    let n = v.len();
    let mut r: Vec<String> = Vec::new();
    let mut i: usize = 0;
    while i < n
        invariant
            i <= n,
            n == v@.len(),
            r@.len() == i,
            forall|j: int| 0 <= j < i ==> tilde_expanded(v@[j]@, (#[trigger] r@[j])@),
        decreases n - i,
    {
        r.push(expand_tilde(v[i].as_str()));
        i += 1;
    }
    r
}

impl Config {
    /// The configuration with `~` resolved in every path it holds.
    pub fn expand_paths(&self) -> (r: Config)
        ensures
            r.watch.directories@.len() == self.watch.directories@.len(),
            forall|i: int|
                0 <= i < self.watch.directories@.len() ==> tilde_expanded(
                    self.watch.directories@[i]@,
                    (#[trigger] r.watch.directories@[i])@,
                ),
            r.watch.patterns@ == self.watch.patterns@,
            r.watch.debounce_ms == self.watch.debounce_ms,
            tilde_expanded(self.integration.desktop_dir@, r.integration.desktop_dir@),
            tilde_expanded(self.integration.icon_dir@, r.integration.icon_dir@),
            r.integration.update_database == self.integration.update_database,
            r.integration.scan_on_startup == self.integration.scan_on_startup,
            r.logging.level@ == self.logging.level@,
            match self.logging.file {
                Some(f) => r.logging.file matches Some(g) && tilde_expanded(f@, g@),
                None => r.logging.file is None,
            },
    {
        Config {
            watch: WatchConfig {
                directories: expand_all(&self.watch.directories),
                patterns: text::clone_strings(&self.watch.patterns),
                debounce_ms: self.watch.debounce_ms,
            },
            integration: IntegrationConfig {
                desktop_dir: expand_tilde(self.integration.desktop_dir.as_str()),
                icon_dir: expand_tilde(self.integration.icon_dir.as_str()),
                update_database: self.integration.update_database,
                scan_on_startup: self.integration.scan_on_startup,
            },
            logging: LoggingConfig {
                level: self.logging.level.clone(),
                file: match &self.logging.file {
                    Some(f) => Some(expand_tilde(f.as_str())),
                    None => None,
                },
            },
        }
    }

    /// The watch directories, tilde-expanded.
    pub fn watch_directories(&self) -> (r: Vec<String>)
        ensures
            r@.len() == self.watch.directories@.len(),
            forall|i: int|
                0 <= i < self.watch.directories@.len() ==> tilde_expanded(
                    self.watch.directories@[i]@,
                    (#[trigger] r@[i])@,
                ),
    {
        expand_all(&self.watch.directories)
    }

    /// The menu-entry directory, tilde-expanded.
    pub fn desktop_directory(&self) -> (r: String)
        ensures
            tilde_expanded(self.integration.desktop_dir@, r@),
    {
        expand_tilde(self.integration.desktop_dir.as_str())
    }

    /// The icon theme root, tilde-expanded.
    pub fn icon_directory(&self) -> (r: String)
        ensures
            tilde_expanded(self.integration.icon_dir@, r@),
    {
        expand_tilde(self.integration.icon_dir.as_str())
    }
}

} // verus!
