use nitum_pdf_core::token_crypto::{
    ecdsa_raw_to_der, key_algorithms, rsa_digest_info, CryptoError, DigestAlgorithm, KeyKind,
    SignatureAlgorithm,
};

#[test]
fn converts_fixed_width_ecdsa_to_canonical_der() {
    let mut raw = vec![0_u8; 64];
    raw[31] = 1;
    raw[32] = 0x80;
    let der = ecdsa_raw_to_der(&raw).unwrap();
    assert_eq!(&der[..5], &[0x30, 0x26, 0x02, 0x01, 0x01]);
    assert_eq!(der[5..8], [0x02, 0x21, 0x00]);
}

#[test]
fn rejects_empty_and_odd_length_signatures() {
    for raw in [vec![], vec![1_u8, 2, 3]] {
        match ecdsa_raw_to_der(&raw) {
            Err(CryptoError::SigningFailed(message)) => {
                assert_eq!(message, "firma ECDSA inválida del token")
            }
            other => panic!("unexpected {other:?}"),
        }
    }
}

#[test]
fn an_all_zero_half_encodes_as_the_integer_zero() {
    let der = ecdsa_raw_to_der(&[0, 0, 0, 0x7f]).unwrap();
    assert_eq!(der, vec![0x30, 0x06, 0x02, 0x01, 0x00, 0x02, 0x01, 0x7f]);
}

#[test]
fn rsa_digest_info_prefixes_the_hash() {
    let hash = [0xab_u8; 32];
    let info = rsa_digest_info(DigestAlgorithm::Sha256, &hash).unwrap();
    assert_eq!(info.len(), 19 + 32);
    assert_eq!(&info[..4], &[0x30, 0x31, 0x30, 0x0d]);
    assert_eq!(&info[19..], &hash);
    let info = rsa_digest_info(DigestAlgorithm::Sha384, &[1, 2, 3]).unwrap();
    assert_eq!(&info[13..19], &[0x02, 0x02, 0x05, 0x00, 0x04, 0x30]);
    assert_eq!(&info[19..], &[1, 2, 3]);
    assert_eq!(
        rsa_digest_info(DigestAlgorithm::Sha512, &hash),
        Err(CryptoError::UnsupportedKeyType(
            "hash RSA no compatible".to_string()
        ))
    );
}

#[test]
fn only_rsa_and_the_two_curves_are_usable() {
    assert_eq!(
        key_algorithms(Some(KeyKind::Rsa), None),
        Some((DigestAlgorithm::Sha256, SignatureAlgorithm::RsaPkcs1v15))
    );
    assert_eq!(
        key_algorithms(
            Some(KeyKind::Ec),
            Some(vec![0x06, 0x08, 0x2a, 0x86, 0x48, 0xce, 0x3d, 0x03, 0x01, 0x07])
        ),
        Some((DigestAlgorithm::Sha256, SignatureAlgorithm::EcdsaP256))
    );
    assert_eq!(
        key_algorithms(
            Some(KeyKind::Ec),
            Some(vec![0x06, 0x05, 0x2b, 0x81, 0x04, 0x00, 0x22])
        ),
        Some((DigestAlgorithm::Sha384, SignatureAlgorithm::EcdsaP384))
    );
    assert_eq!(key_algorithms(Some(KeyKind::Ec), Some(vec![0x06, 0x01])), None);
    assert_eq!(key_algorithms(Some(KeyKind::Ec), None), None);
    assert_eq!(key_algorithms(Some(KeyKind::Other), None), None);
    assert_eq!(key_algorithms(None, None), None);
}
