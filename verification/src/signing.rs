//! The signing rules: what verification reports about each signature,
//! which long-term-validation level a document reaches, and the checks a
//! freshly signed document has to pass before it is written.
use vstd::prelude::*;
use crate::model::{CertificationPermission, PadesLevel, SignatureKind, SignatureReport};
use crate::text::{ascii_lower, chars_equal, chars_of, push_str, string_from, to_ascii_lower};

verus! {

// ------------------------------------------------------------ reports

/// How the signature engine classifies a signature dictionary.
#[derive(Clone, Copy, Debug, PartialEq, Eq, Structural)]
pub enum DetectedType {
    Pades,
    Pkcs7Detached,
    Pkcs7Sha1,
    DocTimestamp,
    Unknown,
}

/// The PAdES level the engine detects from the signature alone.
#[derive(Clone, Copy, Debug, PartialEq, Eq, Structural)]
pub enum DetectedLevel {
    BaselineB,
    BaselineT,
    BaselineLt,
    BaselineLta,
    NotPades,
    Unknown,
}

/// What the signature engine found out about one signature, as plain values.
#[derive(Clone, Debug, PartialEq, Eq)]
pub struct SignatureFindings {
    pub signature_type: DetectedType,
    pub pades_level: DetectedLevel,
    pub signer_name: Option<String>,
    /// The CMS signature value verifies.
    pub cryptographically_valid: bool,
    pub digest_matches: bool,
    pub integrity_ok: bool,
    pub covers_whole_document_revision: Option<bool>,
    pub extended_by_non_safe_updates: Option<bool>,
    pub covers_whole_document: bool,
    pub chain_trusted: bool,
    /// The DocMDP `/P` value of the signature, when it certifies.
    pub doc_mdp_permissions: Option<i64>,
}

pub open spec fn kind_of(t: DetectedType) -> SignatureKind {
    match t {
        DetectedType::Pades | DetectedType::Pkcs7Detached | DetectedType::Pkcs7Sha1 => SignatureKind::Approval,
        DetectedType::DocTimestamp => SignatureKind::DocumentTimestamp,
        DetectedType::Unknown => SignatureKind::Unknown,
    }
}

pub open spec fn level_of(l: DetectedLevel) -> Option<PadesLevel> {
    match l {
        DetectedLevel::BaselineB => Some(PadesLevel::BaselineB),
        DetectedLevel::BaselineT => Some(PadesLevel::BaselineT),
        DetectedLevel::BaselineLt => Some(PadesLevel::BaselineLt),
        DetectedLevel::BaselineLta => Some(PadesLevel::BaselineLta),
        _ => None,
    }
}

/// The DocMDP `/P` values 1, 2 and 3, and nothing else, name a certification.
pub open spec fn permission_of(p: Option<i64>) -> Option<CertificationPermission> {
    match p {
        Some(v) => if v == 1 {
            Some(CertificationPermission::NoChanges)
        } else if v == 2 {
            Some(CertificationPermission::FormFilling)
        } else if v == 3 {
            Some(CertificationPermission::FormFillingAndAnnotations)
        } else {
            None
        },
        None => None,
    }
}

/// The `/P` value that records each certification permission.
pub open spec fn permission_code(p: CertificationPermission) -> i64 {
    match p {
        CertificationPermission::NoChanges => 1,
        CertificationPermission::FormFilling => 2,
        CertificationPermission::FormFillingAndAnnotations => 3,
    }
}

/// The name shown for a signer the certificate does not name.
pub open spec fn unnamed_signer(kind: SignatureKind) -> Seq<char> {
    match kind {
        SignatureKind::DocumentTimestamp => "Autoridad de sellado de tiempo"@,
        _ => "Firmante sin nombre"@,
    }
}

/// A signature is intact when its CMS value verifies, its digest matches
/// and either the document is unchanged since, or every later revision of
/// the document is a safe incremental update.
pub open spec fn intact(f: SignatureFindings) -> bool {
    f.cryptographically_valid && f.digest_matches && (f.integrity_ok || (
    f.covers_whole_document_revision == Some(true) && f.extended_by_non_safe_updates != Some(true)))
}

/// Every CMS signature the engine reports (PAdES, `adbe.pkcs7.detached`,
/// `adbe.pkcs7.sha1`) is an approval signature, a document timestamp is a
/// timestamp, and nothing else is either.
pub proof fn law_cms_signatures_are_approvals(t: DetectedType)
    ensures
        kind_of(t) == SignatureKind::Approval <==> (t == DetectedType::Pades || t == DetectedType::Pkcs7Detached
            || t == DetectedType::Pkcs7Sha1),
        kind_of(t) == SignatureKind::DocumentTimestamp <==> t == DetectedType::DocTimestamp,
        kind_of(t) == SignatureKind::Unknown <==> t == DetectedType::Unknown,
{
}

/// Turns what the engine found about a signature into the report shown
/// to the person.
pub fn report_from_findings(f: &SignatureFindings) -> (r: SignatureReport)
    ensures
        r.kind == kind_of(f.signature_type),
        r.signer_name@ == match f.signer_name {
            Some(n) => n@,
            None => unnamed_signer(kind_of(f.signature_type)),
        },
        r.pades_level == level_of(f.pades_level),
        r.certification == permission_of(f.doc_mdp_permissions),
        r.cryptographically_intact == intact(*f),
        r.chain_trusted == f.chain_trusted,
        r.covers_whole_document == match f.covers_whole_document_revision {
            Some(c) => c,
            None => f.covers_whole_document,
        },
{
    let kind = match f.signature_type {
        DetectedType::Pades | DetectedType::Pkcs7Detached | DetectedType::Pkcs7Sha1 => SignatureKind::Approval,
        DetectedType::DocTimestamp => SignatureKind::DocumentTimestamp,
        DetectedType::Unknown => SignatureKind::Unknown,
    };
    let pades_level = match f.pades_level {
        DetectedLevel::BaselineB => Some(PadesLevel::BaselineB),
        DetectedLevel::BaselineT => Some(PadesLevel::BaselineT),
        DetectedLevel::BaselineLt => Some(PadesLevel::BaselineLt),
        DetectedLevel::BaselineLta => Some(PadesLevel::BaselineLta),
        DetectedLevel::NotPades | DetectedLevel::Unknown => None,
    };
    let certification = match f.doc_mdp_permissions {
        Some(1) => Some(CertificationPermission::NoChanges),
        Some(2) => Some(CertificationPermission::FormFilling),
        Some(3) => Some(CertificationPermission::FormFillingAndAnnotations),
        _ => None,
    };
    let signer_name = match &f.signer_name {
        Some(name) => name.clone(),
        None => match kind {
            SignatureKind::DocumentTimestamp => String::from_str("Autoridad de sellado de tiempo"),
            _ => String::from_str("Firmante sin nombre"),
        },
    };
    let safe_revision = f.covers_whole_document_revision == Some(true)
        && f.extended_by_non_safe_updates != Some(true);
    SignatureReport {
        kind,
        signer_name,
        pades_level,
        certification,
        cryptographically_intact: f.cryptographically_valid && f.digest_matches && (f.integrity_ok
            || safe_revision),
        chain_trusted: f.chain_trusted,
        covers_whole_document: match f.covers_whole_document_revision {
            Some(c) => c,
            None => f.covers_whole_document,
        },
    }
}

/// A field-by-field copy of a report.
pub fn copy_report(r: &SignatureReport) -> (c: SignatureReport)
    ensures
        c == *r,
{
    SignatureReport {
        kind: r.kind,
        signer_name: r.signer_name.clone(),
        pades_level: r.pades_level,
        certification: r.certification,
        cryptographically_intact: r.cryptographically_intact,
        chain_trusted: r.chain_trusted,
        covers_whole_document: r.covers_whole_document,
    }
}

// ------------------------------------------------------- counting reports

/// The number of document timestamps that are intact.
pub open spec fn intact_timestamps(reports: Seq<SignatureReport>) -> nat
    decreases reports.len(),
{
    if reports.len() == 0 {
        0
    } else {
        intact_timestamps(reports.drop_last()) + (if reports.last().kind
            == SignatureKind::DocumentTimestamp && reports.last().cryptographically_intact {
            1nat
        } else {
            0nat
        })
    }
}

/// The number of document timestamps that are intact and trusted.
pub open spec fn trusted_timestamps(reports: Seq<SignatureReport>) -> nat
    decreases reports.len(),
{
    if reports.len() == 0 {
        0
    } else {
        trusted_timestamps(reports.drop_last()) + (if reports.last().kind
            == SignatureKind::DocumentTimestamp && reports.last().cryptographically_intact
            && reports.last().chain_trusted {
            1nat
        } else {
            0nat
        })
    }
}

/// The last approval signature of the document, if any.
pub open spec fn last_approval(reports: Seq<SignatureReport>) -> Option<SignatureReport>
    decreases reports.len(),
{
    if reports.len() == 0 {
        None
    } else if reports.last().kind == SignatureKind::Approval {
        Some(reports.last())
    } else {
        last_approval(reports.drop_last())
    }
}

fn count_timestamps(reports: &Vec<SignatureReport>, require_trust: bool) -> (r: usize)
    ensures
        require_trust ==> r == trusted_timestamps(reports@),
        !require_trust ==> r == intact_timestamps(reports@),
{
    let mut count: usize = 0;
    let mut i: usize = 0;
    while i < reports.len()
        invariant
            i <= reports@.len(),
            require_trust ==> count == trusted_timestamps(reports@.subrange(0, i as int)),
            !require_trust ==> count == intact_timestamps(reports@.subrange(0, i as int)),
            count <= i,
        decreases reports@.len() - i,
    {
        let report = &reports[i];
        proof {
            assert(reports@.subrange(0, i + 1).drop_last() =~= reports@.subrange(0, i as int));
        }
        if report.kind == SignatureKind::DocumentTimestamp && report.cryptographically_intact && (
        !require_trust || report.chain_trusted) {
            count = count + 1;
        }
        i = i + 1;
    }
    assert(reports@.subrange(0, reports@.len() as int) =~= reports@);
    count
}

/// The position of the last approval signature, if any.
pub fn last_approval_index(reports: &Vec<SignatureReport>) -> (r: Option<usize>)
    ensures
        match r {
            Some(i) => i < reports@.len() && last_approval(reports@) == Some(reports@[i as int]),
            None => last_approval(reports@) is None,
        },
{
    let mut i: usize = reports.len();
    assert(reports@.subrange(0, i as int) =~= reports@);
    while i > 0
        invariant
            i <= reports@.len(),
            last_approval(reports@) == last_approval(reports@.subrange(0, i as int)),
        decreases i,
    {
        proof {
            assert(reports@.subrange(0, i as int).drop_last() =~= reports@.subrange(0, i - 1));
        }
        if reports[i - 1].kind == SignatureKind::Approval {
            return Some(i - 1);
        }
        i = i - 1;
    }
    None
}

// ---------------------------------------------------- long-term validation

/// The level a document security store gives the approval signatures it
/// archives validation data for: B-LTA once two intact document timestamps
/// exist (the one of B-T and the archive one), B-LT otherwise.
pub open spec fn dss_level(reports: Seq<SignatureReport>) -> PadesLevel {
    if intact_timestamps(reports) >= 2 {
        PadesLevel::BaselineLta
    } else {
        PadesLevel::BaselineLt
    }
}

/// An entry of the document security store's VRI dictionary.
#[derive(Clone, Debug, PartialEq, Eq)]
pub struct VriEntry {
    pub hash_key: String,
    pub num_certs: usize,
}

/// The store archives validation data for the signature with key `key`:
/// some VRI entry under that key holds certificates.
pub open spec fn archived(entries: Seq<VriEntry>, key: Seq<char>) -> bool {
    exists|j: int| 0 <= j < entries.len() && #[trigger] entries[j].hash_key@ == key && entries[j].num_certs > 0
}

/// The reports after taking a document security store into account: each
/// approval signature whose VRI entry holds certificates reaches the DSS
/// level; everything else is unchanged. `keys[i]` is the VRI key of the
/// i-th signature; signatures beyond `keys` are left as they are.
pub open spec fn with_dss(reports: Seq<SignatureReport>, entries: Seq<VriEntry>, keys: Seq<Seq<char>>, i: int) -> SignatureReport {
    let r = reports[i];
    if i < keys.len() && r.kind == SignatureKind::Approval && archived(entries, keys[i]) {
        SignatureReport { pades_level: Some(dss_level(reports)), ..r }
    } else {
        r
    }
}

fn is_archived(entries: &Vec<VriEntry>, key: &Vec<char>) -> (r: bool)
    ensures
        r == archived(entries@, key@),
{
    let mut j: usize = 0;
    while j < entries.len()
        invariant
            j <= entries@.len(),
            forall|k: int| 0 <= k < j ==> !(#[trigger] entries@[k].hash_key@ == key@ && entries@[k].num_certs > 0),
        decreases entries@.len() - j,
    {
        if entries[j].num_certs > 0 && chars_equal(&chars_of(entries[j].hash_key.as_str()), key) {
            return true;
        }
        j = j + 1;
    }
    false
}

/// Raises the level of the approval signatures a document security store
/// archives validation data for.
pub fn apply_document_security_store(reports: &Vec<SignatureReport>, entries: &Vec<VriEntry>, keys: &Vec<String>) -> (r: Vec<SignatureReport>)
    ensures
        r@.len() == reports@.len(),
        forall|i: int| 0 <= i < r@.len() ==> #[trigger] r@[i] == with_dss(
            reports@,
            entries@,
            keys@.map_values(|k: String| k@),
            i,
        ),
{
    let timestamps = count_timestamps(reports, false);
    let level = if timestamps >= 2 {
        PadesLevel::BaselineLta
    } else {
        PadesLevel::BaselineLt
    };
    let ghost key_text = keys@.map_values(|k: String| k@);
    let mut out: Vec<SignatureReport> = Vec::new();
    let mut i: usize = 0;
    while i < reports.len()
        invariant
            i <= reports@.len(),
            out@.len() == i,
            level == dss_level(reports@),
            key_text == keys@.map_values(|k: String| k@),
            forall|j: int| 0 <= j < i ==> #[trigger] out@[j] == with_dss(reports@, entries@, key_text, j),
        decreases reports@.len() - i,
    {
        let report = &reports[i];
        let raised = i < keys.len() && report.kind == SignatureKind::Approval && is_archived(
            entries,
            &chars_of(keys[i].as_str()),
        );
        let next = if raised {
            SignatureReport {
                kind: report.kind,
                signer_name: report.signer_name.clone(),
                pades_level: Some(level),
                certification: report.certification,
                cryptographically_intact: report.cryptographically_intact,
                chain_trusted: report.chain_trusted,
                covers_whole_document: report.covers_whole_document,
            }
        } else {
            copy_report(report)
        };
        proof {
            if i < keys@.len() {
                assert(key_text[i as int] == keys@[i as int]@);
            }
        }
        out.push(next);
        i = i + 1;
    }
    out
}

// ------------------------------------------------------- signing checks

/// Why a document was not signed, or not written after signing.
#[derive(Clone, Copy, Debug, PartialEq, Eq, Structural)]
pub enum SigningError {
    WouldOverwriteOriginal,
    CertificationMustBeFirst,
    UnsupportedAppearanceFormat,
    PostSignatureCheckFailed,
    TimestampCheckFailed,
    LongTermValidationCheckFailed,
    CertificationNotEmbedded,
}

pub open spec fn signing_error_text(e: SigningError) -> Seq<char> {
    match e {
        SigningError::WouldOverwriteOriginal => "El PDF original nunca se sobrescribe al firmar."@,
        SigningError::CertificationMustBeFirst => "Para certificar un documento, la certificación tiene que ser su primera firma."@,
        SigningError::UnsupportedAppearanceFormat => "la firma visual guardada no tiene un formato compatible"@,
        SigningError::PostSignatureCheckFailed => "La comprobación posterior a la firma no fue válida."@,
        SigningError::TimestampCheckFailed => "El sello de tiempo RFC 3161 no superó la comprobación posterior."@,
        SigningError::LongTermValidationCheckFailed => "La validación de largo plazo PAdES no superó la comprobación posterior."@,
        SigningError::CertificationNotEmbedded => "La certificación no quedó incorporada correctamente en el documento."@,
    }
}

impl SigningError {
    /// The sentence shown to the person.
    pub fn message(&self) -> (r: &'static str)
        ensures
            r@ == signing_error_text(*self),
    {
        match self {
            SigningError::WouldOverwriteOriginal => "El PDF original nunca se sobrescribe al firmar.",
            SigningError::CertificationMustBeFirst => "Para certificar un documento, la certificación tiene que ser su primera firma.",
            SigningError::UnsupportedAppearanceFormat => "la firma visual guardada no tiene un formato compatible",
            SigningError::PostSignatureCheckFailed => "La comprobación posterior a la firma no fue válida.",
            SigningError::TimestampCheckFailed => "El sello de tiempo RFC 3161 no superó la comprobación posterior.",
            SigningError::LongTermValidationCheckFailed => "La validación de largo plazo PAdES no superó la comprobación posterior.",
            SigningError::CertificationNotEmbedded => "La certificación no quedó incorporada correctamente en el documento.",
        }
    }
}

/// A signing request may go ahead: it never writes over the original, and
/// a certification is only added to a document that has no signature yet.
pub open spec fn request_allowed(same_file: bool, certifying: bool, existing_signatures: nat) -> Result<(), SigningError> {
    if same_file {
        Err(SigningError::WouldOverwriteOriginal)
    } else if certifying && existing_signatures > 0 {
        Err(SigningError::CertificationMustBeFirst)
    } else {
        Ok(())
    }
}

/// Checks a signing request before anything is signed.
pub fn check_signing_request(same_file: bool, certifying: bool, existing_signatures: usize) -> (r: Result<(), SigningError>)
    ensures
        r == request_allowed(same_file, certifying, existing_signatures as nat),
{
    if same_file {
        Err(SigningError::WouldOverwriteOriginal)
    } else if certifying && existing_signatures > 0 {
        Err(SigningError::CertificationMustBeFirst)
    } else {
        Ok(())
    }
}

/// The level the signing engine itself produces: B-B, or B-T for every
/// level that carries a timestamp (B-LT and B-LTA are reached afterwards by
/// extending a B-T signature).
#[derive(Clone, Copy, Debug, PartialEq, Eq, Structural)]
pub enum EngineLevel {
    BaselineB,
    BaselineT,
}

pub open spec fn spec_engine_level(level: PadesLevel) -> EngineLevel {
    match level {
        PadesLevel::BaselineB => EngineLevel::BaselineB,
        _ => EngineLevel::BaselineT,
    }
}

/// The level the signing engine is asked for.
pub fn engine_level(level: PadesLevel) -> (r: EngineLevel)
    ensures
        r == spec_engine_level(level),
{
    match level {
        PadesLevel::BaselineB => EngineLevel::BaselineB,
        PadesLevel::BaselineT => EngineLevel::BaselineT,
        PadesLevel::BaselineLt | PadesLevel::BaselineLta => EngineLevel::BaselineT,
    }
}

/// The engine is asked for B-B exactly when B-B was requested: every level
/// that needs a timestamp (B-T, B-LT, B-LTA) is signed by the engine at B-T,
/// with a signature timestamp.
pub proof fn law_timestamped_levels_are_signed_at_bt(level: PadesLevel)
    ensures
        spec_engine_level(level) == EngineLevel::BaselineB <==> level == PadesLevel::BaselineB,
        level != PadesLevel::BaselineB ==> spec_engine_level(level) == EngineLevel::BaselineT,
{
}

/// Every level above B-B needs a timestamp authority.
pub fn needs_timestamp(level: PadesLevel) -> (r: bool)
    ensures
        r == (level != PadesLevel::BaselineB),
{
    !matches!(level, PadesLevel::BaselineB)
}

/// After signing, B-LT adds a document security store and B-LTA adds one
/// and seals it with an archive timestamp: `Some(archive)` for those two
/// levels, `None` for the others.
pub fn long_term_extension(level: PadesLevel) -> (r: Option<bool>)
    ensures
        r == match level {
            PadesLevel::BaselineLt => Some(false),
            PadesLevel::BaselineLta => Some(true),
            _ => None::<bool>,
        },
{
    match level {
        PadesLevel::BaselineLt => Some(false),
        PadesLevel::BaselineLta => Some(true),
        _ => None,
    }
}

/// The timestamp authority configured, or DigiCert's public one.
pub fn timestamp_authority(configured: Option<String>) -> (r: String)
    ensures
        r@ == match configured {
            Some(c) => c@,
            None => "http://timestamp.digicert.com"@,
        },
{
    match configured {
        Some(c) => c,
        None => String::from_str("http://timestamp.digicert.com"),
    }
}

/// The DocMDP permission written for a certification (no certification
/// writes the strictest one, which is then not used).
#[derive(Clone, Copy, Debug, PartialEq, Eq, Structural)]
pub enum DocMdp {
    NoChanges,
    FormFillingAndSigning,
    FormFillingSigningAndAnnotation,
}

pub fn doc_mdp_for(certification: Option<CertificationPermission>) -> (r: DocMdp)
    ensures
        r == match certification {
            Some(CertificationPermission::FormFilling) => DocMdp::FormFillingAndSigning,
            Some(CertificationPermission::FormFillingAndAnnotations) => DocMdp::FormFillingSigningAndAnnotation,
            _ => DocMdp::NoChanges,
        },
{
    match certification {
        Some(CertificationPermission::NoChanges) | None => DocMdp::NoChanges,
        Some(CertificationPermission::FormFilling) => DocMdp::FormFillingAndSigning,
        Some(CertificationPermission::FormFillingAndAnnotations) => DocMdp::FormFillingSigningAndAnnotation,
    }
}

/// The `/P` value recorded for a certification permission.
pub fn certification_code(permission: CertificationPermission) -> (r: i64)
    ensures
        r == permission_code(permission),
        permission_of(Some(r)) == Some(permission),
{
    match permission {
        CertificationPermission::NoChanges => 1,
        CertificationPermission::FormFilling => 2,
        CertificationPermission::FormFillingAndAnnotations => 3,
    }
}

/// The image formats a saved visual signature can be embedded in.
#[derive(Clone, Copy, Debug, PartialEq, Eq, Structural)]
pub enum StampImageFormat {
    Png,
    Jpeg,
}

/// The format of a saved visual signature from its file extension, in any
/// case: PNG, or JPEG for `jpg` and `jpeg`.
pub open spec fn stamp_format(extension: Option<Seq<char>>) -> Result<StampImageFormat, SigningError> {
    match extension {
        Some(e) => if ascii_lower(e) == "png"@ {
            Ok(StampImageFormat::Png)
        } else if ascii_lower(e) == "jpg"@ || ascii_lower(e) == "jpeg"@ {
            Ok(StampImageFormat::Jpeg)
        } else {
            Err(SigningError::UnsupportedAppearanceFormat)
        },
        None => Err(SigningError::UnsupportedAppearanceFormat),
    }
}

/// The format of a saved visual signature, from its file extension.
pub fn appearance_format(extension: Option<&str>) -> (r: Result<StampImageFormat, SigningError>)
    ensures
        r == stamp_format(
            match extension {
                Some(e) => Some(e@),
                None => None,
            },
        ),
{
    match extension {
        Some(e) => {
            let lowered = to_ascii_lower(&chars_of(e));
            if chars_equal(&lowered, &chars_of("png")) {
                Ok(StampImageFormat::Png)
            } else if chars_equal(&lowered, &chars_of("jpg")) || chars_equal(&lowered, &chars_of("jpeg")) {
                Ok(StampImageFormat::Jpeg)
            } else {
                Err(SigningError::UnsupportedAppearanceFormat)
            }
        },
        None => Err(SigningError::UnsupportedAppearanceFormat),
    }
}

/// What a visible signature shows.
#[derive(Clone, Copy, Debug, PartialEq, Eq, Structural)]
pub enum StampLayout {
    /// The saved image on the left, the stamp text on the right.
    ImageAndText,
    /// The stamp text alone.
    TextOnly,
}

/// The layout of the stamp: image and text when a visual signature was
/// chosen, text alone for a placed signature without one, and nothing for
/// an invisible signature. A stamp is drawn only where it was placed.
pub fn stamp_layout(has_appearance: bool, placed: bool) -> (r: Option<StampLayout>)
    ensures
        r == if !placed {
            None::<StampLayout>
        } else if has_appearance {
            Some(StampLayout::ImageAndText)
        } else {
            Some(StampLayout::TextOnly)
        },
{
    let layout = if has_appearance {
        Some(StampLayout::ImageAndText)
    } else if placed {
        Some(StampLayout::TextOnly)
    } else {
        None
    };
    if placed {
        layout
    } else {
        None
    }
}

/// What a freshly signed document has to show before it is written: an
/// intact last approval signature; for B-T, that signature at B-T and an
/// intact timestamp; for B-LT and B-LTA, that signature at the requested
/// level and one (B-LT) or two (B-LTA) intact, trusted timestamps.
pub open spec fn signed_result(level: PadesLevel, reports: Seq<SignatureReport>) -> Result<(), SigningError> {
    match last_approval(reports) {
        None => Err(SigningError::PostSignatureCheckFailed),
        Some(approval) => if !approval.cryptographically_intact {
            Err(SigningError::PostSignatureCheckFailed)
        } else if level == PadesLevel::BaselineT && (approval.pades_level != Some(PadesLevel::BaselineT)
            || intact_timestamps(reports) == 0) {
            Err(SigningError::TimestampCheckFailed)
        } else if (level == PadesLevel::BaselineLt || level == PadesLevel::BaselineLta) && (
        approval.pades_level != Some(level) || trusted_timestamps(reports) < (if level
            == PadesLevel::BaselineLta {
            2nat
        } else {
            1nat
        })) {
            Err(SigningError::LongTermValidationCheckFailed)
        } else {
            Ok(())
        }
    }
}

/// Checks the reports of a freshly signed document against the level that
/// was requested.
pub fn check_signed_reports(level: PadesLevel, reports: &Vec<SignatureReport>) -> (r: Result<(), SigningError>)
    ensures
        r == signed_result(level, reports@),
{
    let approval = match last_approval_index(reports) {
        Some(i) => &reports[i],
        None => return Err(SigningError::PostSignatureCheckFailed),
    };
    if !approval.cryptographically_intact {
        return Err(SigningError::PostSignatureCheckFailed);
    }
    if level == PadesLevel::BaselineT && (approval.pades_level != Some(PadesLevel::BaselineT)
        || count_timestamps(reports, false) == 0) {
        return Err(SigningError::TimestampCheckFailed);
    }
    if level == PadesLevel::BaselineLt || level == PadesLevel::BaselineLta {
        let required: usize = if level == PadesLevel::BaselineLta {
            2
        } else {
            1
        };
        if approval.pades_level != Some(level) || count_timestamps(reports, true) < required {
            return Err(SigningError::LongTermValidationCheckFailed);
        }
    }
    Ok(())
}

/// A document is only written when its newest approval signature is
/// intact, and it then carries what its level promises: B-T an intact
/// timestamp and the B-T level, B-LT and B-LTA their level and one or two
/// intact, trusted timestamps.
pub proof fn law_written_documents_keep_their_promise(level: PadesLevel, reports: Seq<SignatureReport>)
    requires
        signed_result(level, reports) is Ok,
    ensures
        last_approval(reports) is Some,
        last_approval(reports)->0.cryptographically_intact,
        level == PadesLevel::BaselineT ==> last_approval(reports)->0.pades_level == Some(PadesLevel::BaselineT)
            && intact_timestamps(reports) >= 1,
        level == PadesLevel::BaselineLt ==> last_approval(reports)->0.pades_level == Some(PadesLevel::BaselineLt)
            && trusted_timestamps(reports) >= 1,
        level == PadesLevel::BaselineLta ==> last_approval(reports)->0.pades_level == Some(PadesLevel::BaselineLta)
            && trusted_timestamps(reports) >= 2,
{
}

/// The document security store only ever raises approval signatures, and
/// only their level: the kind, signer, certification and the integrity,
/// trust and coverage verdicts of every signature stay as verification
/// found them, and a raised level is B-LT or B-LTA.
pub proof fn law_security_store_only_raises_levels(reports: Seq<SignatureReport>, entries: Seq<VriEntry>, keys: Seq<Seq<char>>, i: int)
    requires
        0 <= i < reports.len(),
    ensures
        with_dss(reports, entries, keys, i).kind == reports[i].kind,
        with_dss(reports, entries, keys, i).signer_name == reports[i].signer_name,
        with_dss(reports, entries, keys, i).certification == reports[i].certification,
        with_dss(reports, entries, keys, i).cryptographically_intact == reports[i].cryptographically_intact,
        with_dss(reports, entries, keys, i).chain_trusted == reports[i].chain_trusted,
        with_dss(reports, entries, keys, i).covers_whole_document == reports[i].covers_whole_document,
        with_dss(reports, entries, keys, i).pades_level != reports[i].pades_level ==> reports[i].kind
            == SignatureKind::Approval && (with_dss(reports, entries, keys, i).pades_level == Some(
            PadesLevel::BaselineLt,
        ) || with_dss(reports, entries, keys, i).pades_level == Some(PadesLevel::BaselineLta)),
{
}

/// What the signature inspection says about the first signature field.
#[derive(Clone, Copy, Debug, PartialEq, Eq, Structural)]
pub struct InspectedSignature {
    pub obj_num: Option<u32>,
    pub doc_mdp_permissions: Option<i64>,
}

/// A certification is embedded when the document has exactly one
/// signature, the catalog's DocMDP entry points at it, and it records the
/// requested permission.
pub open spec fn certification_embedded(
    permission: CertificationPermission,
    num_signatures: nat,
    catalog_doc_mdp: Option<u32>,
    first: Option<InspectedSignature>,
) -> bool {
    &&& num_signatures == 1
    &&& catalog_doc_mdp == match first {
        Some(f) => f.obj_num,
        None => None,
    }
    &&& match first {
        Some(f) => f.doc_mdp_permissions == Some(permission_code(permission)),
        None => false,
    }
}

/// Checks that a certifying signature really certifies the document.
pub fn check_certification(
    permission: CertificationPermission,
    num_signatures: usize,
    catalog_doc_mdp: Option<u32>,
    first: Option<InspectedSignature>,
) -> (r: Result<(), SigningError>)
    ensures
        r is Ok <==> certification_embedded(permission, num_signatures as nat, catalog_doc_mdp, first),
        r matches Err(e) ==> e == SigningError::CertificationNotEmbedded,
{
    let expected = certification_code(permission);
    let first_obj = match first {
        Some(f) => f.obj_num,
        None => None,
    };
    let first_permissions = match first {
        Some(f) => f.doc_mdp_permissions,
        None => None,
    };
    if num_signatures != 1 || catalog_doc_mdp != first_obj || first_permissions != Some(expected) {
        return Err(SigningError::CertificationNotEmbedded);
    }
    Ok(())
}

// --------------------------------------------------- revocation evidence

/// What one OCSP response or CRL says about a certificate of the chain
/// (`Other` also covers evidence that could not be checked).
#[derive(Clone, Copy, Debug, PartialEq, Eq, Structural)]
pub enum RevocationStatus {
    Valid,
    Revoked,
    Other,
}

/// The OCSP responses and CRLs, in the order they were collected, judged
/// for one certificate of the chain against its issuer.
#[derive(Clone, Debug, PartialEq, Eq)]
pub struct LinkEvidence {
    pub ocsp: Vec<RevocationStatus>,
    pub crl: Vec<RevocationStatus>,
}

/// Why long-term validation data could not be built for a chain.
#[derive(Clone, Copy, Debug, PartialEq, Eq, Structural)]
pub enum ChainProblem {
    IncompleteChain,
    RevokedByOcsp,
    RevokedByCrl,
    NoValidEvidence,
}

/// The sentence for a chain problem of `owner` ("la firma", "la autoridad
/// de sellado de tiempo").
pub open spec fn chain_problem_text(p: ChainProblem, owner: Seq<char>) -> Seq<char> {
    match p {
        ChainProblem::IncompleteChain => "La cadena de "@ + owner + " no incluye su emisor completo; no se generará un B-LT incompleto."@,
        ChainProblem::RevokedByOcsp => "Un certificado de "@ + owner + " figura como revocado en OCSP."@,
        ChainProblem::RevokedByCrl => "Un certificado de "@ + owner + " figura como revocado en la CRL."@,
        ChainProblem::NoValidEvidence => "Los datos OCSP/CRL recibidos no validan la cadena de "@ + owner + "; no se generará un B-LT incompleto."@,
    }
}

impl ChainProblem {
    /// The sentence shown for a problem with the chain of `owner`.
    pub fn message(&self, owner: &str) -> (r: String)
        ensures
            r@ == chain_problem_text(*self, owner@),
    {
        let (before, after) = match self {
            ChainProblem::IncompleteChain => ("La cadena de ", " no incluye su emisor completo; no se generará un B-LT incompleto."),
            ChainProblem::RevokedByOcsp => ("Un certificado de ", " figura como revocado en OCSP."),
            ChainProblem::RevokedByCrl => ("Un certificado de ", " figura como revocado en la CRL."),
            ChainProblem::NoValidEvidence => ("Los datos OCSP/CRL recibidos no validan la cadena de ", "; no se generará un B-LT incompleto."),
        };
        let mut out = chars_of(before);
        push_str(&mut out, owner);
        push_str(&mut out, after);
        string_from(out.as_slice())
    }
}

/// A chain of a single certificate that is not its own issuer is missing
/// its issuer, and cannot be validated in the long term.
pub fn check_chain_complete(certificates: usize, single_is_self_issued: bool) -> (r: Result<(), ChainProblem>)
    ensures
        r == if certificates == 1 && !single_is_self_issued {
            Err::<(), ChainProblem>(ChainProblem::IncompleteChain)
        } else {
            Ok(())
        },
{
    if certificates == 1 && !single_is_self_issued {
        Err(ChainProblem::IncompleteChain)
    } else {
        Ok(())
    }
}

/// The first revoked status in a list, or whether a valid one exists:
/// `Err(())` at the first revocation, else `Ok(any valid)`.
pub open spec fn scan_statuses(statuses: Seq<RevocationStatus>) -> Result<bool, ()>
    decreases statuses.len(),
{
    if statuses.len() == 0 {
        Ok(false)
    } else {
        match statuses[0] {
            RevocationStatus::Revoked => Err(()),
            RevocationStatus::Valid => match scan_statuses(statuses.drop_first()) {
                Err(()) => Err(()),
                Ok(_) => Ok(true),
            },
            RevocationStatus::Other => scan_statuses(statuses.drop_first()),
        }
    }
}

/// The judgment for one link of the chain: revoked by OCSP, else revoked by
/// a CRL, else valid only when some response or CRL says so.
pub open spec fn judge_link(e: LinkEvidence) -> Result<(), ChainProblem> {
    match scan_statuses(e.ocsp@) {
        Err(()) => Err(ChainProblem::RevokedByOcsp),
        Ok(ocsp_valid) => match scan_statuses(e.crl@) {
            Err(()) => Err(ChainProblem::RevokedByCrl),
            Ok(crl_valid) => if ocsp_valid || crl_valid {
                Ok(())
            } else {
                Err(ChainProblem::NoValidEvidence)
            },
        },
    }
}

/// The judgment for the whole chain: the first link that fails decides.
pub open spec fn judge_links(links: Seq<LinkEvidence>) -> Result<(), ChainProblem>
    decreases links.len(),
{
    if links.len() == 0 {
        Ok(())
    } else {
        match judge_link(links[0]) {
            Err(p) => Err(p),
            Ok(()) => judge_links(links.drop_first()),
        }
    }
}

spec fn with_earlier_valid(r: Result<bool, ()>, valid: bool) -> Result<bool, ()> {
    match r {
        Err(()) => Err(()),
        Ok(v) => Ok(v || valid),
    }
}

fn scan(statuses: &Vec<RevocationStatus>) -> (r: Result<bool, ()>)
    ensures
        r == scan_statuses(statuses@),
{
    let mut valid = false;
    let mut i: usize = 0;
    assert(statuses@.subrange(0, statuses@.len() as int) =~= statuses@);
    proof {
        match scan_statuses(statuses@) {
            Ok(v) => assert(with_earlier_valid(Ok(v), false) == Ok::<bool, ()>(v)),
            Err(u) => {
                assert(u == ());
            },
        }
    }
    while i < statuses.len()
        invariant
            i <= statuses@.len(),
            scan_statuses(statuses@) == with_earlier_valid(
                scan_statuses(statuses@.subrange(i as int, statuses@.len() as int)),
                valid,
            ),
        decreases statuses@.len() - i,
    {
        proof {
            let rest = statuses@.subrange(i as int, statuses@.len() as int);
            assert(rest.drop_first() =~= statuses@.subrange(i + 1, statuses@.len() as int));
            assert(rest[0] == statuses@[i as int]);
        }
        match statuses[i] {
            RevocationStatus::Revoked => {
                return Err(());
            },
            RevocationStatus::Valid => {
                valid = true;
            },
            RevocationStatus::Other => {},
        }
        i = i + 1;
    }
    proof {
        assert(statuses@.subrange(i as int, statuses@.len() as int).len() == 0);
    }
    Ok(valid)
}

/// Judges the revocation evidence collected for each link of a chain
/// (each certificate against its issuer, leaf first): a revoked
/// certificate, or a link no evidence validates, stops long-term
/// validation.
pub fn judge_revocation_evidence(links: &Vec<LinkEvidence>) -> (r: Result<(), ChainProblem>)
    ensures
        r == judge_links(links@),
{
    let mut i: usize = 0;
    assert(links@.subrange(0, links@.len() as int) =~= links@);
    while i < links.len()
        invariant
            i <= links@.len(),
            judge_links(links@) == judge_links(links@.subrange(i as int, links@.len() as int)),
        decreases links@.len() - i,
    {
        proof {
            let rest = links@.subrange(i as int, links@.len() as int);
            assert(rest.drop_first() =~= links@.subrange(i + 1, links@.len() as int));
            assert(rest[0] == links@[i as int]);
        }
        let link = &links[i];
        match scan(&link.ocsp) {
            Err(()) => {
                return Err(ChainProblem::RevokedByOcsp);
            },
            Ok(ocsp_valid) => match scan(&link.crl) {
                Err(()) => {
                    return Err(ChainProblem::RevokedByCrl);
                },
                Ok(crl_valid) => {
                    if !(ocsp_valid || crl_valid) {
                        return Err(ChainProblem::NoValidEvidence);
                    }
                },
            },
        }
        i = i + 1;
    }
    Ok(())
}

/// A revoked certificate is never accepted: if any OCSP response or CRL
/// for any link says revoked, long-term validation is refused.
pub proof fn law_revoked_certificate_is_refused(links: Seq<LinkEvidence>, i: int)
    requires
        0 <= i < links.len(),
        links[i].ocsp@.contains(RevocationStatus::Revoked) || links[i].crl@.contains(RevocationStatus::Revoked),
    ensures
        judge_links(links) is Err,
    decreases links.len(),
{
    if i == 0 {
        lemma_revoked_found(links[0].ocsp@);
        lemma_revoked_found(links[0].crl@);
    } else {
        assert(links.drop_first()[i - 1] == links[i]);
        law_revoked_certificate_is_refused(links.drop_first(), i - 1);
    }
}

proof fn lemma_revoked_found(statuses: Seq<RevocationStatus>)
    ensures
        statuses.contains(RevocationStatus::Revoked) ==> scan_statuses(statuses) is Err,
    decreases statuses.len(),
{
    if statuses.len() > 0 {
        lemma_revoked_found(statuses.drop_first());
        if statuses.contains(RevocationStatus::Revoked) && statuses[0] != RevocationStatus::Revoked {
            let k = choose|k: int| 0 <= k < statuses.len() && statuses[k] == RevocationStatus::Revoked;
            assert(statuses.drop_first()[k - 1] == RevocationStatus::Revoked);
        }
    }
}

/// Every link of an accepted chain has at least one valid OCSP response or
/// CRL.
pub proof fn law_accepted_chain_has_valid_evidence(links: Seq<LinkEvidence>, i: int)
    requires
        0 <= i < links.len(),
        judge_links(links) is Ok,
    ensures
        links[i].ocsp@.contains(RevocationStatus::Valid) || links[i].crl@.contains(RevocationStatus::Valid),
    decreases links.len(),
{
    if i == 0 {
        lemma_valid_found(links[0].ocsp@);
        lemma_valid_found(links[0].crl@);
    } else {
        assert(links.drop_first()[i - 1] == links[i]);
        law_accepted_chain_has_valid_evidence(links.drop_first(), i - 1);
    }
}

proof fn lemma_valid_found(statuses: Seq<RevocationStatus>)
    ensures
        scan_statuses(statuses) == Ok::<bool, ()>(true) ==> statuses.contains(RevocationStatus::Valid),
    decreases statuses.len(),
{
    if statuses.len() > 0 {
        lemma_valid_found(statuses.drop_first());
        if scan_statuses(statuses) == Ok::<bool, ()>(true) && statuses[0] != RevocationStatus::Valid {
            let k = choose|k: int| 0 <= k < statuses.drop_first().len() && statuses.drop_first()[k] == RevocationStatus::Valid;
            assert(statuses[k + 1] == RevocationStatus::Valid);
        }
        if statuses[0] == RevocationStatus::Valid {
            assert(statuses[0] == RevocationStatus::Valid);
        }
    }
}

/// What a scan of one list of statuses finds: a revocation exactly when
/// the list holds one, else whether it holds a valid status.
proof fn lemma_scan_finds(statuses: Seq<RevocationStatus>)
    ensures
        scan_statuses(statuses) is Err <==> statuses.contains(RevocationStatus::Revoked),
        !statuses.contains(RevocationStatus::Revoked) ==> scan_statuses(statuses) == Ok::<bool, ()>(
            statuses.contains(RevocationStatus::Valid),
        ),
    decreases statuses.len(),
{
    lemma_revoked_found(statuses);
    if statuses.len() > 0 {
        let rest = statuses.drop_first();
        lemma_scan_finds(rest);
        assert forall|s: RevocationStatus| #[trigger] rest.contains(s) implies statuses.contains(s) by {
            let k = choose|k: int| 0 <= k < rest.len() && rest[k] == s;
            assert(statuses[k + 1] == s);
        }
        assert forall|s: RevocationStatus| statuses.contains(s) && statuses[0] != s implies #[trigger] rest.contains(s) by {
            let k = choose|k: int| 0 <= k < statuses.len() && statuses[k] == s;
            assert(k != 0);
            assert(rest[k - 1] == s);
        }
        assert(statuses.contains(statuses[0]));
    }
}

/// A chain is accepted whenever no OCSP response or CRL revokes any of its
/// certificates and each link has at least one valid OCSP response or
/// valid CRL: a valid CRL is evidence enough for a link, as is a valid
/// OCSP response.
pub proof fn law_chain_with_valid_evidence_is_accepted(links: Seq<LinkEvidence>)
    requires
        forall|i: int| 0 <= i < links.len() ==> {
            &&& !(#[trigger] links[i]).ocsp@.contains(RevocationStatus::Revoked)
            &&& !links[i].crl@.contains(RevocationStatus::Revoked)
            &&& (links[i].ocsp@.contains(RevocationStatus::Valid) || links[i].crl@.contains(RevocationStatus::Valid))
        },
    ensures
        judge_links(links) == Ok::<(), ChainProblem>(()),
    decreases links.len(),
{
    if links.len() > 0 {
        let first = links[0];
        lemma_scan_finds(first.ocsp@);
        lemma_scan_finds(first.crl@);
        assert(judge_link(first) == Ok::<(), ChainProblem>(()));
        let rest = links.drop_first();
        assert forall|i: int| 0 <= i < rest.len() implies {
            &&& !(#[trigger] rest[i]).ocsp@.contains(RevocationStatus::Revoked)
            &&& !rest[i].crl@.contains(RevocationStatus::Revoked)
            &&& (rest[i].ocsp@.contains(RevocationStatus::Valid) || rest[i].crl@.contains(RevocationStatus::Valid))
        } by {
            assert(rest[i] == links[i + 1]);
        }
        law_chain_with_valid_evidence_is_accepted(rest);
    }
}

/// A link whose only evidence is a valid CRL, with no OCSP response at all,
/// is accepted; so is a link whose only evidence is a valid OCSP response.
pub proof fn law_one_valid_source_suffices(ocsp: Seq<RevocationStatus>, crl: Seq<RevocationStatus>, link: LinkEvidence)
    requires
        link.ocsp@ == ocsp,
        link.crl@ == crl,
        !ocsp.contains(RevocationStatus::Revoked),
        !crl.contains(RevocationStatus::Revoked),
        ocsp.contains(RevocationStatus::Valid) || crl.contains(RevocationStatus::Valid),
    ensures
        judge_link(link) == Ok::<(), ChainProblem>(()),
        judge_links(seq![link]) == Ok::<(), ChainProblem>(()),
{
    lemma_scan_finds(ocsp);
    lemma_scan_finds(crl);
    let single = seq![link];
    assert(single[0] == link);
    assert(single.drop_first() =~= Seq::<LinkEvidence>::empty());
    assert(judge_links(Seq::<LinkEvidence>::empty()) == Ok::<(), ChainProblem>(()));
    assert(judge_links(single) == Ok::<(), ChainProblem>(()));
}

} // verus!
