use nitum_pdf_core::model::{CertificationPermission, PadesLevel, SignatureKind, SignatureReport};
use nitum_pdf_core::signing::{
    appearance_format, apply_document_security_store, certification_code, check_certification,
    check_chain_complete, check_signed_reports, check_signing_request, doc_mdp_for, engine_level,
    judge_revocation_evidence, long_term_extension, needs_timestamp, report_from_findings,
    stamp_layout, timestamp_authority, ChainProblem, DetectedLevel, DetectedType, DocMdp,
    EngineLevel, InspectedSignature, LinkEvidence, RevocationStatus, SignatureFindings,
    SigningError, StampImageFormat, StampLayout, VriEntry,
};

fn findings(signature_type: DetectedType) -> SignatureFindings {
    SignatureFindings {
        signature_type,
        pades_level: DetectedLevel::BaselineB,
        signer_name: None,
        cryptographically_valid: true,
        digest_matches: true,
        integrity_ok: true,
        covers_whole_document_revision: None,
        extended_by_non_safe_updates: None,
        covers_whole_document: true,
        chain_trusted: false,
        doc_mdp_permissions: None,
    }
}

fn report(kind: SignatureKind, level: Option<PadesLevel>, intact: bool, trusted: bool) -> SignatureReport {
    SignatureReport {
        kind,
        signer_name: "Ana".to_string(),
        pades_level: level,
        certification: None,
        cryptographically_intact: intact,
        chain_trusted: trusted,
        covers_whole_document: true,
    }
}

#[test]
fn findings_become_reports() {
    let r = report_from_findings(&findings(DetectedType::Pkcs7Sha1));
    assert_eq!(r.kind, SignatureKind::Approval);
    assert_eq!(r.signer_name, "Firmante sin nombre");
    assert_eq!(r.pades_level, Some(PadesLevel::BaselineB));
    assert!(r.cryptographically_intact);
    let mut ts = findings(DetectedType::DocTimestamp);
    ts.pades_level = DetectedLevel::NotPades;
    ts.doc_mdp_permissions = Some(2);
    ts.covers_whole_document_revision = Some(false);
    let r = report_from_findings(&ts);
    assert_eq!(r.kind, SignatureKind::DocumentTimestamp);
    assert_eq!(r.signer_name, "Autoridad de sellado de tiempo");
    assert_eq!(r.pades_level, None);
    assert_eq!(r.certification, Some(CertificationPermission::FormFilling));
    assert!(!r.covers_whole_document);
    let mut unknown = findings(DetectedType::Unknown);
    unknown.signer_name = Some("Luis".to_string());
    unknown.doc_mdp_permissions = Some(4);
    let r = report_from_findings(&unknown);
    assert_eq!(r.kind, SignatureKind::Unknown);
    assert_eq!(r.signer_name, "Luis");
    assert_eq!(r.certification, None);
}

#[test]
fn a_later_safe_revision_keeps_a_signature_intact() {
    let mut f = findings(DetectedType::Pades);
    f.integrity_ok = false;
    assert!(!report_from_findings(&f).cryptographically_intact);
    f.covers_whole_document_revision = Some(true);
    assert!(report_from_findings(&f).cryptographically_intact);
    f.extended_by_non_safe_updates = Some(true);
    assert!(!report_from_findings(&f).cryptographically_intact);
    let mut g = findings(DetectedType::Pades);
    g.digest_matches = false;
    assert!(!report_from_findings(&g).cryptographically_intact);
}

#[test]
fn the_security_store_raises_archived_approvals() {
    let reports = vec![
        report(SignatureKind::Approval, Some(PadesLevel::BaselineT), true, true),
        report(SignatureKind::DocumentTimestamp, None, true, true),
        report(SignatureKind::Approval, Some(PadesLevel::BaselineB), true, true),
    ];
    let entries = vec![
        VriEntry { hash_key: "AA".to_string(), num_certs: 2 },
        VriEntry { hash_key: "CC".to_string(), num_certs: 0 },
    ];
    let keys = vec!["AA".to_string(), "BB".to_string(), "CC".to_string()];
    let raised = apply_document_security_store(&reports, &entries, &keys);
    assert_eq!(raised[0].pades_level, Some(PadesLevel::BaselineLt));
    assert_eq!(raised[1].pades_level, None);
    assert_eq!(raised[2].pades_level, Some(PadesLevel::BaselineB));
    let mut two = reports.clone();
    two.push(report(SignatureKind::DocumentTimestamp, None, true, false));
    let raised = apply_document_security_store(&two, &entries, &keys);
    assert_eq!(raised[0].pades_level, Some(PadesLevel::BaselineLta));
}

#[test]
fn signing_requests_never_overwrite_and_certify_first() {
    assert_eq!(
        check_signing_request(true, false, 0),
        Err(SigningError::WouldOverwriteOriginal)
    );
    assert_eq!(
        check_signing_request(false, true, 1),
        Err(SigningError::CertificationMustBeFirst)
    );
    assert_eq!(check_signing_request(false, true, 0), Ok(()));
    assert_eq!(check_signing_request(false, false, 3), Ok(()));
    assert_eq!(
        SigningError::WouldOverwriteOriginal.message(),
        "El PDF original nunca se sobrescribe al firmar."
    );
}

#[test]
fn engine_options_follow_the_level() {
    assert_eq!(engine_level(PadesLevel::BaselineB), EngineLevel::BaselineB);
    assert_eq!(engine_level(PadesLevel::BaselineLta), EngineLevel::BaselineT);
    assert!(!needs_timestamp(PadesLevel::BaselineB));
    assert!(needs_timestamp(PadesLevel::BaselineLt));
    assert_eq!(long_term_extension(PadesLevel::BaselineT), None);
    assert_eq!(long_term_extension(PadesLevel::BaselineLt), Some(false));
    assert_eq!(long_term_extension(PadesLevel::BaselineLta), Some(true));
    assert_eq!(timestamp_authority(None), "http://timestamp.digicert.com");
    assert_eq!(timestamp_authority(Some("http://tsa".into())), "http://tsa");
    assert_eq!(doc_mdp_for(None), DocMdp::NoChanges);
    assert_eq!(
        doc_mdp_for(Some(CertificationPermission::FormFillingAndAnnotations)),
        DocMdp::FormFillingSigningAndAnnotation
    );
    assert_eq!(certification_code(CertificationPermission::FormFilling), 2);
    assert_eq!(appearance_format(Some("PNG")), Ok(StampImageFormat::Png));
    assert_eq!(appearance_format(Some("Jpeg")), Ok(StampImageFormat::Jpeg));
    assert_eq!(
        appearance_format(Some("gif")),
        Err(SigningError::UnsupportedAppearanceFormat)
    );
    assert_eq!(stamp_layout(true, true), Some(StampLayout::ImageAndText));
    assert_eq!(stamp_layout(false, true), Some(StampLayout::TextOnly));
    assert_eq!(stamp_layout(true, false), None);
}

#[test]
fn post_signature_checks_follow_the_requested_level() {
    assert_eq!(
        check_signed_reports(PadesLevel::BaselineB, &vec![]),
        Err(SigningError::PostSignatureCheckFailed)
    );
    assert_eq!(
        check_signed_reports(PadesLevel::BaselineB, &vec![report(SignatureKind::Approval, Some(PadesLevel::BaselineB), false, true)]),
        Err(SigningError::PostSignatureCheckFailed)
    );
    assert_eq!(
        check_signed_reports(PadesLevel::BaselineB, &vec![report(SignatureKind::Approval, Some(PadesLevel::BaselineB), true, false)]),
        Ok(())
    );
    let t = vec![
        report(SignatureKind::Approval, Some(PadesLevel::BaselineT), true, false),
        report(SignatureKind::DocumentTimestamp, None, true, false),
    ];
    assert_eq!(check_signed_reports(PadesLevel::BaselineT, &t), Ok(()));
    assert_eq!(
        check_signed_reports(PadesLevel::BaselineT, &t[..1].to_vec()),
        Err(SigningError::TimestampCheckFailed)
    );
    assert_eq!(
        check_signed_reports(PadesLevel::BaselineLt, &t),
        Err(SigningError::LongTermValidationCheckFailed)
    );
    let lta = vec![
        report(SignatureKind::Approval, Some(PadesLevel::BaselineLta), true, true),
        report(SignatureKind::DocumentTimestamp, None, true, true),
        report(SignatureKind::DocumentTimestamp, None, true, true),
    ];
    assert_eq!(check_signed_reports(PadesLevel::BaselineLta, &lta), Ok(()));
    assert_eq!(
        check_signed_reports(PadesLevel::BaselineLta, &lta[..2].to_vec()),
        Err(SigningError::LongTermValidationCheckFailed)
    );
}

#[test]
fn a_certification_must_be_the_only_signature_and_carry_its_permission() {
    let first = Some(InspectedSignature { obj_num: Some(7), doc_mdp_permissions: Some(1) });
    assert_eq!(
        check_certification(CertificationPermission::NoChanges, 1, Some(7), first),
        Ok(())
    );
    assert_eq!(
        check_certification(CertificationPermission::FormFilling, 1, Some(7), first),
        Err(SigningError::CertificationNotEmbedded)
    );
    assert_eq!(
        check_certification(CertificationPermission::NoChanges, 2, Some(7), first),
        Err(SigningError::CertificationNotEmbedded)
    );
    assert_eq!(
        check_certification(CertificationPermission::NoChanges, 1, Some(8), first),
        Err(SigningError::CertificationNotEmbedded)
    );
    assert_eq!(
        check_certification(CertificationPermission::NoChanges, 1, None, None),
        Err(SigningError::CertificationNotEmbedded)
    );
}

#[test]
fn revocation_evidence_is_judged_link_by_link() {
    let link = |ocsp: Vec<RevocationStatus>, crl: Vec<RevocationStatus>| LinkEvidence { ocsp, crl };
    assert_eq!(judge_revocation_evidence(&vec![]), Ok(()));
    assert_eq!(
        judge_revocation_evidence(&vec![link(vec![RevocationStatus::Other, RevocationStatus::Valid], vec![])]),
        Ok(())
    );
    assert_eq!(
        judge_revocation_evidence(&vec![link(vec![RevocationStatus::Valid, RevocationStatus::Revoked], vec![])]),
        Err(ChainProblem::RevokedByOcsp)
    );
    assert_eq!(
        judge_revocation_evidence(&vec![link(vec![RevocationStatus::Valid], vec![RevocationStatus::Revoked])]),
        Err(ChainProblem::RevokedByCrl)
    );
    assert_eq!(
        judge_revocation_evidence(&vec![link(vec![RevocationStatus::Valid], vec![]), link(vec![RevocationStatus::Other], vec![RevocationStatus::Other])]),
        Err(ChainProblem::NoValidEvidence)
    );
    assert_eq!(
        check_chain_complete(1, false),
        Err(ChainProblem::IncompleteChain)
    );
    assert_eq!(check_chain_complete(1, true), Ok(()));
    assert_eq!(check_chain_complete(2, false), Ok(()));
    assert_eq!(
        ChainProblem::RevokedByOcsp.message("la firma"),
        "Un certificado de la firma figura como revocado en OCSP."
    );
    assert_eq!(
        ChainProblem::IncompleteChain.message("la autoridad de sellado de tiempo"),
        "La cadena de la autoridad de sellado de tiempo no incluye su emisor completo; no se generará un B-LT incompleto."
    );
}
