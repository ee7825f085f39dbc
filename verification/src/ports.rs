//! The capabilities the application needs from its surroundings. Stores,
//! clipboard, token discovery and the updater implement these; the use
//! cases depend on nothing else.
use vstd::prelude::*;
use crate::model::{AppRelease, HardwareToken, SignatureAppearance, SigningIdentity};

verus! {

/// `anyhow::Error`, the error the ports report.
#[verifier::external_type_specification]
#[verifier::external_body]
pub struct ExAnyhowError(anyhow::Error);

pub trait IdentityStore {
    fn import(&self, source: &std::path::Path) -> Result<SigningIdentity, anyhow::Error>;

    fn list(&self) -> Result<Vec<SigningIdentity>, anyhow::Error>;
}

pub trait AppearanceStore {
    fn import(&self, source: &std::path::Path) -> Result<SignatureAppearance, anyhow::Error>;

    fn list(&self) -> Result<Vec<SignatureAppearance>, anyhow::Error>;
}

pub trait TextClipboard {
    fn set_text(&self, text: String) -> Result<(), anyhow::Error>;
}

pub trait HardwareTokenProvider {
    fn detected_modules(&self) -> Vec<std::path::PathBuf>;

    fn tokens(&self, module: &std::path::Path) -> Result<Vec<HardwareToken>, anyhow::Error>;
}

pub trait UpdateService {
    fn latest(&self) -> Result<Option<AppRelease>, anyhow::Error>;

    fn download_verified(&self, release: &AppRelease) -> Result<std::path::PathBuf, anyhow::Error>;
}

/// Remembers what the person decided about updates, so the answer sticks.
pub trait UpdatePreferences {
    /// Whether to look for updates at all.
    fn automatic(&self) -> bool;

    fn set_automatic(&self, automatic: bool) -> Result<(), anyhow::Error>;

    /// Whether this exact version has already been turned down.
    fn is_dismissed(&self, version: &str) -> bool;

    fn dismiss(&self, version: &str) -> Result<(), anyhow::Error>;
}

pub trait UpdateInstaller {
    fn install(&self, package: &std::path::Path) -> Result<(), anyhow::Error>;

    fn relaunch(&self, document: Option<&std::path::Path>) -> Result<(), anyhow::Error>;
}

} // verus!
