//! The documents, identities, signatures and releases the application talks about.
use vstd::prelude::*;

verus! {

/// `std::path::PathBuf`, carried through the library as an opaque value.
#[verifier::external_type_specification]
#[verifier::external_body]
pub struct ExPathBuf(std::path::PathBuf);

/// `std::path::Path`, carried through the library as an opaque value.
#[verifier::external_type_specification]
#[verifier::external_body]
pub struct ExPath(std::path::Path);

/// `PathBuf::clone`: a copy of the same path.
pub assume_specification[ <std::path::PathBuf as Clone>::clone ](path: &std::path::PathBuf) -> (r:
    std::path::PathBuf)
    ensures
        r == *path,
;

/// Marks a PDF that cannot be opened without (the right) password.
#[derive(Clone, Copy, Debug, PartialEq, Eq, Structural)]
pub struct PdfPasswordRequired;

impl PdfPasswordRequired {
    /// The sentence shown to the person.
    pub fn message(&self) -> (r: String)
        ensures
            r@ == "Este PDF necesita una contraseña válida."@,
    {
        String::from_str("Este PDF necesita una contraseña válida.")
    }
}

/// A rendered page: `width` × `height` pixels, four RGBA bytes each.
#[derive(Clone, Debug, PartialEq, Eq)]
pub struct PageBitmap {
    pub width: u32,
    pub height: u32,
    pub rgba: Vec<u8>,
}

/// The PAdES baseline profile of a signature.
#[derive(Clone, Copy, Debug, PartialEq, Eq, Structural)]
pub enum PadesLevel {
    BaselineB,
    BaselineT,
    BaselineLt,
    BaselineLta,
}

/// What a certifying (DocMDP) signature still allows.
#[derive(Clone, Copy, Debug, PartialEq, Eq, Structural)]
pub enum CertificationPermission {
    NoChanges,
    FormFilling,
    FormFillingAndAnnotations,
}

/// What a signature in a document is.
#[derive(Clone, Copy, Debug, PartialEq, Eq, Structural)]
pub enum SignatureKind {
    Approval,
    DocumentTimestamp,
    Unknown,
}

/// What verification found out about one signature.
#[derive(Clone, Debug, PartialEq, Eq)]
pub struct SignatureReport {
    pub kind: SignatureKind,
    pub signer_name: String,
    pub pades_level: Option<PadesLevel>,
    pub certification: Option<CertificationPermission>,
    pub cryptographically_intact: bool,
    pub chain_trusted: bool,
    pub covers_whole_document: bool,
}

/// A software identity (`.p12`/`.pfx`) kept in the identity store.
#[derive(Clone, Debug, PartialEq, Eq)]
pub struct SigningIdentity {
    pub label: String,
    pub path: std::path::PathBuf,
}

/// A saved visual signature image.
#[derive(Clone, Debug, PartialEq, Eq)]
pub struct SignatureAppearance {
    pub label: String,
    pub path: std::path::PathBuf,
}

/// A PKCS#11 token found in a slot of a module.
#[derive(Clone, Debug, PartialEq, Eq)]
pub struct HardwareToken {
    pub label: String,
    pub serial: String,
    pub module_file: std::path::PathBuf,
    pub slot_id: u64,
}

/// A published release that can be installed on this machine.
#[derive(Clone, Debug, PartialEq, Eq)]
pub struct AppRelease {
    pub version: String,
    pub package_name: String,
    pub package_url: String,
    pub checksum_url: String,
}

} // verus!
