use nitum_pdf_core::model::{HardwareToken, SignatureAppearance, SigningIdentity};
use nitum_pdf_core::stamp::{
    appearance_lines, common_name, read_name, stamp_date, stamp_lines, EncodedAttribute, EncodedName,
    NameAttribute, NameParts,
};
use nitum_pdf_core::stores::{
    appearance_from_file, candidate_file_name, check_image_size, identity_extension,
    identity_from_file, import_step, is_appearance_file, is_identity_file, normalize_appearance,
    safe_stem, sort_appearances, sort_identities, source_image_format, ImportStep, SourceImageFormat,
    StoreError,
};
use nitum_pdf_core::text::trim;
use nitum_pdf_core::tokens::{list_tokens, token_is, SlotToken};
use std::path::PathBuf;
use std::str::FromStr;
use x509_cert::der::asn1::{BitString, ObjectIdentifier};
use x509_cert::der::Encode;
use x509_cert::name::Name;
use x509_cert::spki::{AlgorithmIdentifierOwned, SubjectPublicKeyInfoOwned};

#[test]
fn stored_names_are_safe() {
    assert_eq!(safe_stem(Some("Mi Identidad")), "Mi Identidad");
    assert_eq!(safe_stem(Some("../../etc/passwd")), "etcpasswd");
    assert_eq!(safe_stem(Some(" .firma. ")), "firma");
    assert_eq!(safe_stem(Some("...")), "identidad");
    assert_eq!(safe_stem(Some("Ñandú_2024")), "Ñandú_2024");
    assert_eq!(safe_stem(None), "identidad");
    assert_eq!(candidate_file_name("Mi Identidad", 1, "p12"), "Mi Identidad.p12");
    assert_eq!(candidate_file_name("Mi Identidad", 12, "pfx"), "Mi Identidad-12.pfx");
    assert_eq!(import_step(false, false), ImportStep::Store);
    assert_eq!(import_step(true, true), ImportStep::Reuse);
    assert_eq!(import_step(true, false), ImportStep::TryNext);
}

#[test]
fn rejects_files_outside_pkcs12_formats() {
    assert_eq!(identity_extension(Some("pem")), Err(StoreError::NotAnIdentity));
    assert_eq!(identity_extension(None), Err(StoreError::NotAnIdentity));
    assert_eq!(identity_extension(Some("P12")).unwrap(), "p12");
    assert_eq!(identity_extension(Some("pfx")).unwrap(), "pfx");
    assert!(is_identity_file(Some("PFX")));
    assert!(!is_identity_file(Some("png")));
    assert_eq!(
        StoreError::NotAnIdentity.message(),
        "Selecciona una identidad .p12 o .pfx."
    );
}

#[test]
fn visual_signatures_are_checked() {
    assert_eq!(source_image_format(Some("JPEG")), Ok(SourceImageFormat::Jpeg));
    assert_eq!(source_image_format(Some("tif")), Ok(SourceImageFormat::Tiff));
    assert_eq!(source_image_format(Some("webp")), Ok(SourceImageFormat::WebP));
    assert_eq!(source_image_format(Some("svg")), Err(StoreError::NotAnImage));
    assert_eq!(check_image_size(8192, 3906), Ok(()));
    assert_eq!(check_image_size(8192, 3907), Err(StoreError::ImageTooLarge));
    assert_eq!(check_image_size(8193, 1), Err(StoreError::ImageTooLarge));
    assert!(is_appearance_file(Some("PNG")));
    assert!(!is_appearance_file(Some("jpg")));
}

#[test]
fn lists_are_sorted_by_label_ignoring_case_and_keep_ties_in_order() {
    let identities = vec![
        identity_from_file(PathBuf::from("/s/b.p12"), Some("beta".to_string())),
        identity_from_file(PathBuf::from("/s/A.p12"), Some("Alfa".to_string())),
        identity_from_file(PathBuf::from("/s/x.p12"), None),
        identity_from_file(PathBuf::from("/s/a2.p12"), Some("alfa".to_string())),
    ];
    let sorted: Vec<SigningIdentity> = sort_identities(&identities);
    let labels: Vec<&str> = sorted.iter().map(|i| i.label.as_str()).collect();
    assert_eq!(labels, ["Alfa", "alfa", "beta", "Identidad digital"]);
    assert_eq!(sorted[1].path, PathBuf::from("/s/a2.p12"));
    let appearances = vec![
        appearance_from_file(PathBuf::from("/s/z.png"), Some("Zeta".to_string())),
        appearance_from_file(PathBuf::from("/s/q.png"), None),
    ];
    let sorted: Vec<SignatureAppearance> = sort_appearances(&appearances);
    assert_eq!(sorted[0].label, "Firma visual");
    assert_eq!(sorted[1].label, "Zeta");
}

#[test]
fn tokens_offered_are_initialized_trimmed_and_sorted() {
    let slot = |initialized: bool, label: &str, serial: &str, slot_id: u64| SlotToken {
        initialized,
        label: label.to_string(),
        serial: serial.to_string(),
        slot_id,
    };
    let module = PathBuf::from("/usr/lib/softhsm.so");
    let tokens: Vec<HardwareToken> = list_tokens(
        &vec![
            slot(true, "  zeta  ", " 01 ", 4),
            slot(false, "", "", 5),
            slot(true, "Alfa", "02", 6),
        ],
        &module,
    );
    assert_eq!(tokens.len(), 2);
    assert_eq!(tokens[0].label, "Alfa");
    assert_eq!(tokens[1].label, "zeta");
    assert_eq!(tokens[1].serial, "01");
    assert_eq!(tokens[1].slot_id, 4);
    assert_eq!(tokens[1].module_file, module);
    assert!(token_is(" 01", "zeta\t", &tokens[1]));
    assert!(!token_is("02", "zeta", &tokens[1]));
    assert_eq!(trim("\u{a0} texto \n"), "texto");
}

fn certificate() -> Vec<u8> {
    certificate_for("CN=Ana Pérez,O=Empresa,C=EC")
}

fn certificate_for(subject: &str) -> Vec<u8> {
    let algorithm = AlgorithmIdentifierOwned {
        oid: ObjectIdentifier::new_unwrap("1.2.840.113549.1.1.11"),
        parameters: None,
    };
    let tbs = x509_cert::TbsCertificate {
        version: x509_cert::Version::V3,
        serial_number: x509_cert::serial_number::SerialNumber::new(&[1]).unwrap(),
        signature: algorithm.clone(),
        issuer: Name::from_str("CN=Autoridad de Prueba,O=Nitum,C=EC").unwrap(),
        validity: x509_cert::time::Validity::from_now(std::time::Duration::from_secs(3600)).unwrap(),
        subject: Name::from_str(subject).unwrap(),
        subject_public_key_info: SubjectPublicKeyInfoOwned {
            algorithm: algorithm.clone(),
            subject_public_key: BitString::from_bytes(&[0u8; 8]).unwrap(),
        },
        issuer_unique_id: None,
        subject_unique_id: None,
        extensions: None,
    };
    x509_cert::Certificate {
        tbs_certificate: tbs,
        signature_algorithm: algorithm,
        signature: BitString::from_bytes(&[0u8; 8]).unwrap(),
    }
    .to_der()
    .unwrap()
}

#[test]
fn the_visible_signature_states_who_signed_and_when() {
    let date = stamp_date(5, 3, 2026, 9, 7);
    assert_eq!(date, "05/03/2026 09:07");
    let lines = appearance_lines(&certificate(), &date, Some("Aprobación"), Some("Quito"));
    let texts: Vec<(&str, bool)> = lines.iter().map(|l| (l.text.as_str(), l.bold)).collect();
    assert_eq!(
        texts,
        [
            ("Firmado por: Ana Pérez", true),
            ("Emitido por: Autoridad de Prueba", false),
            ("Fecha: 05/03/2026 09:07", false),
            ("Motivo: Aprobación", false),
            ("Ubicación: Quito", false),
        ]
    );
}

#[test]
fn an_unreadable_certificate_still_gets_a_stamp() {
    let lines = appearance_lines(&[1, 2, 3], "01/01/2026 00:00", Some("   "), None);
    let texts: Vec<&str> = lines.iter().map(|l| l.text.as_str()).collect();
    assert_eq!(texts, ["Firmado digitalmente", "Fecha: 01/01/2026 00:00"]);
    assert!(lines[0].bold);
    assert_eq!(stamp_date(31, 12, -5, 23, 59), "31/12/-5 23:59");
}

#[test]
fn a_stamp_shows_common_names_or_the_whole_name() {
    let subject = NameParts {
        attributes: vec![
            NameAttribute { oid: "2.5.4.6".into(), text: None },
            NameAttribute { oid: "2.5.4.3".into(), text: Some("Ana Pérez".into()) },
        ],
        rendered: "CN=Ana Pérez,C=EC".into(),
    };
    let issuer = NameParts {
        attributes: vec![NameAttribute { oid: "2.5.4.3".into(), text: None }],
        rendered: "CN=#0c03414243,O=Nitum".into(),
    };
    let lines = stamp_lines(&Some((subject, issuer)), "02/01/2026 10:00", None, Some(" Loja "));
    let texts: Vec<(&str, bool)> = lines.iter().map(|l| (l.text.as_str(), l.bold)).collect();
    assert_eq!(
        texts,
        [
            ("Firmado por: Ana Pérez", true),
            ("Emitido por: CN=#0c03414243,O=Nitum", false),
            ("Fecha: 02/01/2026 10:00", false),
            ("Ubicación:  Loja ", false),
        ]
    );
    let unread = stamp_lines(&None, "x", Some("Revisión"), None);
    let texts: Vec<&str> = unread.iter().map(|l| l.text.as_str()).collect();
    assert_eq!(texts, ["Firmado digitalmente", "Fecha: x", "Motivo: Revisión"]);
}

#[test]
fn a_common_name_in_any_string_type_is_shown() {
    // "Ana Perez" as a PrintableString, as many authorities encode it.
    let der = certificate_for("CN=#1309416e6120506572657a,O=Empresa,C=EC");
    let lines = appearance_lines(&der, "01/02/2026 08:30", None, None);
    assert_eq!(lines[0].text, "Firmado por: Ana Perez");
    assert_eq!(lines[1].text, "Emitido por: Autoridad de Prueba");
}

#[test]
fn attribute_values_are_read_in_each_string_type() {
    let attribute = |oid: &str, value: Option<Vec<u8>>| EncodedAttribute { oid: oid.into(), value };
    let encoded = EncodedName {
        attributes: vec![
            attribute("2.5.4.3", Some(vec![0x02, 0x01, 0x05])),
            attribute("2.5.4.3", None),
            attribute("2.5.4.10", Some(vec![0x0c, 0x03, b'A', b'b', b'c'])),
            attribute("2.5.4.6", Some(vec![0x13, 0x02, b'E', b'C'])),
            attribute("0.9.2342.19200300.100.1.25", Some(vec![0x16, 0x02, b'e', b'c'])),
            attribute("2.5.4.7", Some(vec![0x14, 0x01, b'Q'])),
            attribute("2.5.4.3", Some(vec![0x1e, 0x04, 0x00, b'J', 0x00, b'o'])),
        ],
        rendered: "CN=Jo".into(),
    };
    let name = read_name(&encoded);
    let texts: Vec<Option<&str>> = name.attributes.iter().map(|a| a.text.as_deref()).collect();
    assert_eq!(
        texts,
        [None, None, Some("Abc"), Some("EC"), Some("ec"), Some("Q"), Some("Jo")]
    );
    assert_eq!(name.attributes[6].oid, "2.5.4.3");
    assert_eq!(name.rendered, "CN=Jo");
    assert_eq!(common_name(&name), "Jo");
}

fn encoded(width: u32, height: u32, format: image::ImageFormat) -> Vec<u8> {
    let picture = image::DynamicImage::ImageRgb8(image::RgbImage::from_pixel(
        width,
        height,
        image::Rgb([20, 40, 200]),
    ));
    let mut out = std::io::Cursor::new(Vec::new());
    picture.write_to(&mut out, format).unwrap();
    out.into_inner()
}

#[test]
fn a_visual_signature_is_stored_as_a_checked_png() {
    let bmp = encoded(3, 2, image::ImageFormat::Bmp);
    let png = normalize_appearance(&bmp, SourceImageFormat::Bmp).unwrap();
    assert_ne!(png, bmp);
    assert_eq!(&png[..8], b"\x89PNG\r\n\x1a\n");
    let back = image::load_from_memory_with_format(&png, image::ImageFormat::Png).unwrap();
    assert_eq!((back.width(), back.height()), (3, 2));
    assert_eq!(back.to_rgb8().get_pixel(2, 1), &image::Rgb([20, 40, 200]));

    let jpeg = encoded(4, 4, image::ImageFormat::Jpeg);
    assert!(normalize_appearance(&jpeg, SourceImageFormat::Jpeg).unwrap().starts_with(b"\x89PNG"));
}

#[test]
fn a_broken_or_oversized_visual_signature_is_refused() {
    assert_eq!(
        normalize_appearance(b"no es una imagen", SourceImageFormat::Png),
        Err(StoreError::InvalidImage)
    );
    let png = encoded(2, 2, image::ImageFormat::Png);
    assert_eq!(normalize_appearance(&png, SourceImageFormat::Gif), Err(StoreError::InvalidImage));
    let wide = encoded(8193, 1, image::ImageFormat::Png);
    assert_eq!(normalize_appearance(&wide, SourceImageFormat::Png), Err(StoreError::ImageTooLarge));
    assert_eq!(StoreError::InvalidImage.message(), "la imagen de firma no es válida");
}

/// Imports `bytes` into `folder` the way both stores do, one candidate name
/// after another.
fn import_into(
    folder: &mut std::collections::HashMap<String, Vec<u8>>,
    stem: &str,
    extension: &str,
    bytes: &[u8],
) -> String {
    let mut index = 1_u32;
    loop {
        let name = candidate_file_name(stem, index, extension);
        let taken = folder.contains_key(&name);
        let same = folder.get(&name).map(|stored| stored.as_slice()) == Some(bytes);
        match import_step(taken, same) {
            ImportStep::Reuse => return name,
            ImportStep::TryNext => index += 1,
            ImportStep::Store => {
                folder.insert(name.clone(), bytes.to_vec());
                return name;
            }
        }
    }
}

#[test]
fn importing_the_same_file_again_reuses_the_stored_copy() {
    let mut folder = std::collections::HashMap::new();
    let stem = safe_stem(Some("Mi Identidad"));
    let first = import_into(&mut folder, &stem, "p12", b"first identity");
    assert_eq!(first, "Mi Identidad.p12");
    assert_eq!(import_into(&mut folder, &stem, "p12", b"first identity"), first);
    assert_eq!(folder.len(), 1);
    let other = import_into(&mut folder, &stem, "pfx", b"second identity");
    assert_eq!(other, "Mi Identidad.pfx");
    let changed = import_into(&mut folder, &stem, "p12", b"third identity");
    assert_eq!(changed, "Mi Identidad-2.p12");
    assert_eq!(folder["Mi Identidad.p12"], b"first identity");
    assert_eq!(folder.len(), 3);

    let picture = encoded(2, 2, image::ImageFormat::Bmp);
    let png = normalize_appearance(&picture, SourceImageFormat::Bmp).unwrap();
    let stored = import_into(&mut folder, &safe_stem(Some("mi firma")), "png", &png);
    let again = normalize_appearance(&picture, SourceImageFormat::Bmp).unwrap();
    assert_eq!(import_into(&mut folder, &safe_stem(Some("mi firma")), "png", &again), stored);
    assert_eq!(folder.len(), 4);
}
