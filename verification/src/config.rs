//! User configuration (`~/.config/weft/config.toml`): the settings and
//! their defaults. Reading the file belongs to the application.
use vstd::prelude::*;

verus! {

#[derive(Debug, Clone, PartialEq)]
pub struct Config {
    pub window: WindowConfig,
    pub providers: ProvidersConfig,
}

#[derive(Debug, Clone, PartialEq)]
pub struct WindowConfig {
    pub width: i32,
    pub height: i32,
    /// Largest number of results shown while typing (the empty query lists
    /// everything).
    pub max_results: usize,
}

#[derive(Debug, Clone, PartialEq)]
pub struct ProvidersConfig {
    pub apps: bool,
    pub calc: bool,
    pub files: bool,
}

impl Default for WindowConfig {
    fn default() -> (r: Self)
        ensures
            r.width == 620,
            r.height == 440,
            r.max_results == 8,
    {
        WindowConfig { width: 620, height: 440, max_results: 8 }
    }
}

impl Default for ProvidersConfig {
    fn default() -> (r: Self)
        ensures
            r.apps && r.calc && r.files,
    {
        ProvidersConfig { apps: true, calc: true, files: true }
    }
}

impl Default for Config {
    fn default() -> (r: Self)
        ensures
            r.window.width == 620,
            r.window.height == 440,
            r.window.max_results == 8,
            r.providers.apps && r.providers.calc && r.providers.files,
    {
        Config { window: WindowConfig::default(), providers: ProvidersConfig::default() }
    }
}

/// The configuration file written on first launch: the defaults,
/// commented.
pub const DEFAULT_FILE: &'static str = "\
# Configuration de Weft (~/.config/weft/config.toml)
# Le raccourci clavier se règle dans les paramètres GNOME
# (Clavier > Raccourcis personnalisés), pas ici.

[window]
width = 620
height = 440
# Nombre max de résultats affichés pendant la frappe.
max_results = 8

[providers]
apps = true   # applications (natives, Flatpak, Steam, Wine)
calc = true   # calculatrice inline (23*7, 100 km en miles...)
files = true  # recherche de fichiers (nécessite plocate)
";

} // verus!
