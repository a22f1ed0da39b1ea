//! The record, kept in each title's directory, of the unlocker versions that
//! are applied to the title.

use vstd::prelude::*;
use crate::stored::Stored;
use crate::text::str_eq;

verus! {

/// The versions applied to one title. A title without any has no record on disk.
#[derive(Debug, Clone)]
pub struct GameManifest {
    pub smokeapi_version: Option<String>,
    pub creamlinux_version: Option<String>,
}

/// A manifest as plain values.
pub struct ManifestView {
    pub smokeapi: Option<Seq<char>>,
    pub creamlinux: Option<Seq<char>>,
}

/// The text of an optional string.
pub open spec fn opt_text(s: Option<String>) -> Option<Seq<char>> {
    match s {
        Some(v) => Some(v@),
        None => None,
    }
}

impl View for GameManifest {
    type V = ManifestView;

    open spec fn view(&self) -> ManifestView {
        ManifestView {
            smokeapi: opt_text(self.smokeapi_version),
            creamlinux: opt_text(self.creamlinux_version),
        }
    }
}

/// The state of one unlocker on one title.
#[derive(Debug, Clone)]
pub enum UnlockerState {
    /// The unlocker is not applied.
    NotInstalled,
    /// The unlocker is applied, at this version.
    Installed(String),
}

/// The state of an unlocker as plain values.
pub enum StateView {
    NotInstalled,
    Installed(Seq<char>),
}

impl View for UnlockerState {
    type V = StateView;

    open spec fn view(&self) -> StateView {
        match *self {
            UnlockerState::NotInstalled => StateView::NotInstalled,
            UnlockerState::Installed(v) => StateView::Installed(v@),
        }
    }
}

/// The state that a recorded version stands for.
pub open spec fn state_for(version: Option<Seq<char>>) -> StateView {
    match version {
        Some(v) => StateView::Installed(v),
        None => StateView::NotInstalled,
    }
}

impl ManifestView {
    /// The manifest of a title to which nothing is applied.
    pub open spec fn empty() -> ManifestView {
        ManifestView { smokeapi: None, creamlinux: None }
    }

    /// Nothing is applied.
    pub open spec fn is_empty(self) -> bool {
        self.smokeapi is None && self.creamlinux is None
    }
}

impl Default for GameManifest {
    fn default() -> (m: GameManifest)
        ensures
            m@ == ManifestView::empty(),
    {
        GameManifest { smokeapi_version: None, creamlinux_version: None }
    }
}

impl GameManifest {
    /// A manifest that records only the api shim, at `version`.
    pub fn with_smokeapi(version: String) -> (m: GameManifest)
        ensures
            m@ == (ManifestView { smokeapi: Some(version@), creamlinux: None }),
    {
        GameManifest { smokeapi_version: Some(version), creamlinux_version: None }
    }

    /// A manifest that records only the content unlocker, at `version`.
    pub fn with_creamlinux(version: String) -> (m: GameManifest)
        ensures
            m@ == (ManifestView { smokeapi: None, creamlinux: Some(version@) }),
    {
        GameManifest { smokeapi_version: None, creamlinux_version: Some(version) }
    }

    /// Whether the api shim is recorded as applied.
    pub fn has_smokeapi(&self) -> (r: bool)
        ensures
            r == self@.smokeapi is Some,
    {
        self.smokeapi_version.is_some()
    }

    /// Whether the content unlocker is recorded as applied.
    pub fn has_creamlinux(&self) -> (r: bool)
        ensures
            r == self@.creamlinux is Some,
    {
        self.creamlinux_version.is_some()
    }

    /// Whether an api shim is recorded and its version is not `latest_version`.
    pub fn is_smokeapi_outdated(&self, latest_version: &str) -> (r: bool)
        ensures
            r == (self@.smokeapi is Some && self@.smokeapi->0 != latest_version@),
    {
        match &self.smokeapi_version {
            Some(version) => !str_eq(version.as_str(), latest_version),
            None => false,
        }
    }

    /// Whether a content unlocker is recorded and its version is not `latest_version`.
    pub fn is_creamlinux_outdated(&self, latest_version: &str) -> (r: bool)
        ensures
            r == (self@.creamlinux is Some && self@.creamlinux->0 != latest_version@),
    {
        match &self.creamlinux_version {
            Some(version) => !str_eq(version.as_str(), latest_version),
            None => false,
        }
    }

    /// The state of the api shim on the title.
    pub fn smokeapi_state(&self) -> (s: UnlockerState)
        ensures
            s@ == state_for(self@.smokeapi),
    {
        match &self.smokeapi_version {
            Some(v) => UnlockerState::Installed(v.clone()),
            None => UnlockerState::NotInstalled,
        }
    }

    /// The state of the content unlocker on the title.
    pub fn creamlinux_state(&self) -> (s: UnlockerState)
        ensures
            s@ == state_for(self@.creamlinux),
    {
        match &self.creamlinux_version {
            Some(v) => UnlockerState::Installed(v.clone()),
            None => UnlockerState::NotInstalled,
        }
    }

    /// A copy of this manifest.
    pub fn duplicate(&self) -> (m: GameManifest)
        ensures
            m@ == self@,
    {
        let smokeapi_version = match &self.smokeapi_version {
            Some(v) => Some(v.clone()),
            None => None,
        };
        let creamlinux_version = match &self.creamlinux_version {
            Some(v) => Some(v.clone()),
            None => None,
        };
        GameManifest { smokeapi_version, creamlinux_version }
    }

    /// Whether nothing is recorded, so that no record belongs on disk.
    pub fn is_empty(&self) -> (r: bool)
        ensures
            r == self@.is_empty(),
    {
        self.smokeapi_version.is_none() && self.creamlinux_version.is_none()
    }
}

/// The manifest that holds for a title, given what was found on disk: the record
/// itself, and the empty manifest where there is none or it cannot be read.
pub fn read_manifest(found: Stored<GameManifest>) -> (m: GameManifest)
    ensures
        m@ == match found {
            Stored::Value(v) => v@,
            _ => ManifestView::empty(),
        },
{
    match found {
        Stored::Value(v) => v,
        _ => GameManifest::default(),
    }
}

/// `manifest` with the api shim recorded at `version`.
pub fn update_smokeapi_version(manifest: GameManifest, version: String) -> (m: GameManifest)
    ensures
        m@ == (ManifestView { smokeapi: Some(version@), creamlinux: manifest@.creamlinux }),
{
    GameManifest { smokeapi_version: Some(version), creamlinux_version: manifest.creamlinux_version }
}

/// `manifest` with the content unlocker recorded at `version`.
pub fn update_creamlinux_version(manifest: GameManifest, version: String) -> (m: GameManifest)
    ensures
        m@ == (ManifestView { smokeapi: manifest@.smokeapi, creamlinux: Some(version@) }),
{
    GameManifest { smokeapi_version: manifest.smokeapi_version, creamlinux_version: Some(version) }
}

/// `manifest` without an api shim.
pub fn remove_smokeapi_version(manifest: GameManifest) -> (m: GameManifest)
    ensures
        m@ == (ManifestView { smokeapi: None, creamlinux: manifest@.creamlinux }),
{
    GameManifest { smokeapi_version: None, creamlinux_version: manifest.creamlinux_version }
}

/// `manifest` without a content unlocker.
pub fn remove_creamlinux_version(manifest: GameManifest) -> (m: GameManifest)
    ensures
        m@ == (ManifestView { smokeapi: manifest@.smokeapi, creamlinux: None }),
{
    GameManifest { smokeapi_version: manifest.smokeapi_version, creamlinux_version: None }
}

} // verus!
