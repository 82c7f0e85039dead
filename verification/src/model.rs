//! The unified application object and its parts.
use vstd::prelude::*;

verus! {

/// Where an app comes from. Internal metadata only: it is never shown in
/// the main list.
#[derive(Debug, Clone, Copy, PartialEq, Eq, Hash, Structural)]
pub enum Source {
    Native,
    Flatpak,
    Steam,
    Wine,
}

/// An icon is either a themed name (resolved by the icon theme at render
/// time) or a concrete file on disk.
#[derive(Debug, Clone, PartialEq, Eq)]
pub enum Icon {
    Named(String),
    Path(String),
}

/// How to start the app.
#[derive(Debug, Clone, PartialEq, Eq)]
pub enum LaunchSpec {
    /// Ready-to-spawn argv (Exec line with field codes stripped).
    Exec(Vec<String>),
    /// Launched through the Steam client (covers Proton transparently).
    SteamApp(u32),
    /// Windows app installed by Weft, launched through umu/Proton; the
    /// string is the slug in the Windows app store.
    WindowsApp(String),
}

/// The unified app object. Every source maps into this and nothing else.
#[derive(Debug, Clone)]
pub struct AppEntry {
    /// Stable unique id, e.g. "desktop:firefox.desktop" or "steam:620".
    pub id: String,
    pub name: String,
    pub description: Option<String>,
    pub icon: Option<Icon>,
    pub launch: LaunchSpec,
    pub source: Source,
    /// Extra search terms (Keywords= from .desktop files).
    pub keywords: Vec<String>,
}

} // verus!
