use nitum_pdf_core::model::{
    CertificationPermission, HardwareToken, PadesLevel, SignatureKind, SignatureReport,
};
use nitum_pdf_core::summary::{
    certification_from_choice, describe_count, level_from_choice, pages_to_invalidate,
    pages_to_unload, search_status, signing_success_message, suggested_signed_name,
    token_option_label, token_scan_status, update_ready_status, verification_summary,
    TONE_FAILED, TONE_NEUTRAL, TONE_OK, TONE_WARNING,
};
use std::path::PathBuf;

fn report(kind: SignatureKind, name: &str) -> SignatureReport {
    SignatureReport {
        kind,
        signer_name: name.to_string(),
        pades_level: None,
        certification: None,
        cryptographically_intact: true,
        chain_trusted: true,
        covers_whole_document: true,
    }
}

#[test]
fn counts_read_as_words() {
    assert_eq!(describe_count(1, "firma", "firmas"), "1 firma");
    assert_eq!(describe_count(0, "firma", "firmas"), "0 firmas");
    assert_eq!(describe_count(12, "firma", "firmas"), "12 firmas");
    assert_eq!(search_status(0), "Sin resultados");
    assert_eq!(search_status(1), "1 resultado");
    assert_eq!(search_status(500), "500 resultados");
}

#[test]
fn an_intact_trusted_document_reads_well() {
    let mut first = report(SignatureKind::Approval, "Ana");
    first.pades_level = Some(PadesLevel::BaselineLt);
    first.certification = Some(CertificationPermission::FormFilling);
    let reports = vec![
        first,
        report(SignatureKind::DocumentTimestamp, "TSA"),
        report(SignatureKind::Approval, "Luis"),
    ];
    let summary = verification_summary(&reports);
    assert!(summary.success);
    assert_eq!(summary.checks.len(), 5);
    assert_eq!(summary.checks[0].tone, TONE_OK);
    assert_eq!(summary.checks[0].label, "El documento no se ha alterado");
    assert_eq!(summary.checks[1].label, "La firma cubre todo el documento");
    assert_eq!(summary.checks[2].label, "El certificado es de confianza");
    assert_eq!(summary.checks[3].tone, TONE_NEUTRAL);
    assert_eq!(summary.checks[3].label, "Firmado por Ana, Luis");
    assert_eq!(
        summary.checks[3].detail,
        "2 firmas, 1 sello de tiempo. Certificación DocMDP: formularios y firmas."
    );
    assert_eq!(summary.checks[4].label, "Nivel de la firma");
    assert_eq!(summary.checks[4].detail, "B-LT");
}

#[test]
fn problems_are_named_one_row_each() {
    let mut broken = report(SignatureKind::Unknown, "X");
    broken.cryptographically_intact = false;
    broken.chain_trusted = false;
    broken.covers_whole_document = false;
    let summary = verification_summary(&vec![broken]);
    assert!(!summary.success);
    assert_eq!(summary.checks.len(), 4);
    assert_eq!(summary.checks[0].tone, TONE_FAILED);
    assert_eq!(
        summary.checks[0].label,
        "El documento se modificó después de firmarse"
    );
    assert_eq!(summary.checks[1].tone, TONE_WARNING);
    assert_eq!(summary.checks[1].label, "La firma sólo cubre una parte");
    assert_eq!(summary.checks[2].tone, TONE_WARNING);
    assert_eq!(
        summary.checks[2].label,
        "No podemos confirmar quién emitió el certificado"
    );
    assert_eq!(summary.checks[3].label, "Sin firmante identificado");
    assert_eq!(summary.checks[3].detail, "0 firmas. Sin certificación DocMDP.");
}

#[test]
fn signing_dialog_choices() {
    assert_eq!(level_from_choice(0), PadesLevel::BaselineB);
    assert_eq!(level_from_choice(1), PadesLevel::BaselineT);
    assert_eq!(level_from_choice(2), PadesLevel::BaselineLt);
    assert_eq!(level_from_choice(3), PadesLevel::BaselineLta);
    assert_eq!(level_from_choice(9), PadesLevel::BaselineB);
    assert_eq!(certification_from_choice(-1), None);
    assert_eq!(
        certification_from_choice(3),
        Some(CertificationPermission::FormFillingAndAnnotations)
    );
    assert_eq!(
        suggested_signed_name(Some("contrato".to_string()), -1),
        "contrato-firmado.pdf"
    );
    assert_eq!(suggested_signed_name(None, 2), "documento-certificado.pdf");
    let reports = vec![report(SignatureKind::Approval, "Ana Pérez")];
    assert_eq!(
        signing_success_message(false, &reports, Some("c-firmado.pdf".to_string())),
        "Firma válida de Ana Pérez. Guardado como c-firmado.pdf."
    );
    assert_eq!(
        signing_success_message(true, &vec![], None),
        "Certificación DocMDP válida de Firmante. Guardado como PDF firmado."
    );
}

#[test]
fn token_and_update_texts() {
    let token = HardwareToken {
        label: "DNIe".to_string(),
        serial: "1234".to_string(),
        module_file: PathBuf::from("/usr/lib/opensc-pkcs11.so"),
        slot_id: 1,
    };
    assert_eq!(token_option_label(&token), "DNIe · 1234");
    assert_eq!(token_scan_status(2), "Encontramos 2 dispositivo(s).");
    assert_eq!(
        update_ready_status("1.2.0"),
        "La versión 1.2.0 está lista para descargar."
    );
}

#[test]
fn only_pages_near_the_visible_one_stay_loaded() {
    let loaded = vec![true, true, true, true, true, false];
    assert_eq!(
        pages_to_unload(&loaded, 2),
        vec![true, false, false, false, true, false]
    );
    assert_eq!(
        pages_to_invalidate(&loaded, 1),
        vec![true, false, true, true, true, false]
    );
}
