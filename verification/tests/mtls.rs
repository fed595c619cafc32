use base64::Engine;
use grafana_plugin_sdk_rs::backend::mtls::{
    advertised_certificate, client_cert_from_pem, generate_server_cert, requested_client_cert,
    generate_certificate, server_certificate_profile, server_tls_material, ExtendedKeyUsage,
    KeyUsage, MtlsError, NameAttribute, PinnedCertError, PinnedClientCert,
    ServerCertificateProfile,
};

fn pem_of(der: &[u8]) -> String {
    let body = base64::engine::general_purpose::STANDARD.encode(der);
    let mut pem = String::from("-----BEGIN CERTIFICATE-----\n");
    for line in body.as_bytes().chunks(64) {
        pem.push_str(std::str::from_utf8(line).unwrap());
        pem.push('\n');
    }
    pem.push_str("-----END CERTIFICATE-----\n");
    pem
}

#[test]
fn only_the_pinned_certificate_is_accepted() {
    let pinned = PinnedClientCert::new(vec![1, 2, 3]);
    assert_eq!(pinned.verify_client_cert(&[1, 2, 3]), Ok(()));
    assert_eq!(pinned.verify_client_cert(&[1, 2]), Err(PinnedCertError::NotPinned));
    assert_eq!(pinned.verify_client_cert(&[1, 2, 4]), Err(PinnedCertError::NotPinned));
    assert_eq!(pinned.expected(), &[1, 2, 3]);
}

#[test]
fn generated_certificate_round_trips_through_pem_parsing() {
    let generated = generate_server_cert().unwrap();
    assert!(!generated.certificate_der.is_empty());
    assert!(!generated.private_key_der.is_empty());
    let advertised = advertised_certificate(&generated.certificate_der);
    assert!(!advertised.is_empty());
    assert!(!advertised.ends_with('='));
    let parsed = client_cert_from_pem(&pem_of(&generated.certificate_der)).unwrap();
    assert_eq!(parsed, generated.certificate_der);
}

#[test]
fn server_tls_material_pins_the_client_and_advertises_the_server() {
    let client = generate_server_cert().unwrap();
    let material = server_tls_material(&pem_of(&client.certificate_der)).unwrap();
    assert_eq!(material.pinned.expected(), client.certificate_der.as_slice());
    assert_eq!(material.pinned.verify_client_cert(&client.certificate_der), Ok(()));
    assert_eq!(
        material.pinned.verify_client_cert(&material.certificate.certificate_der),
        Err(PinnedCertError::NotPinned)
    );
    assert_eq!(
        material.advertised,
        advertised_certificate(&material.certificate.certificate_der)
    );
    assert_eq!(
        base64::engine::general_purpose::STANDARD_NO_PAD
            .decode(&material.advertised)
            .unwrap(),
        material.certificate.certificate_der
    );
}

#[test]
fn server_tls_material_refuses_a_malformed_client_certificate() {
    assert!(matches!(
        server_tls_material("-----BEGIN CERTIFICATE-----\nnot base64\n"),
        Err(MtlsError::ClientCert(_))
    ));
    assert!(matches!(
        server_tls_material(""),
        Err(MtlsError::ClientCert(_))
    ));
}

#[test]
fn advertised_certificate_is_unpadded_standard_base64() {
    assert_eq!(advertised_certificate(b"hello"), "aGVsbG8");
    assert_eq!(advertised_certificate(b""), "");
    assert_eq!(advertised_certificate(&[0xfb, 0xff]), "+/8");
}

#[test]
fn malformed_client_certificate_is_refused() {
    assert!(matches!(
        client_cert_from_pem("no certificate here"),
        Err(MtlsError::ClientCert(_))
    ));
}

#[test]
fn client_certificate_is_requested_only_when_set() {
    assert_eq!(requested_client_cert(None), None);
    assert_eq!(requested_client_cert(Some(String::new())), None);
    assert_eq!(
        requested_client_cert(Some("pem".to_owned())),
        Some("pem".to_owned())
    );
}

#[test]
fn server_profile_mirrors_go_plugin() {
    let profile = server_certificate_profile();
    assert_eq!(profile.subject_alt_names, vec!["localhost".to_owned()]);
    assert_eq!(profile.distinguished_name[1].0, NameAttribute::OrganizationName);
    assert_eq!(profile.distinguished_name[1].1, "HashiCorp");
    assert!(profile.certificate_authority);
    assert_eq!(profile.key_usages.len(), 4);
    assert_eq!(profile.extended_key_usages.len(), 2);
}

fn is_der_sequence(der: &[u8]) -> bool {
    if der.len() < 2 || der[0] != 0x30 {
        return false;
    }
    if der[1] < 0x80 {
        return der.len() == 2 + der[1] as usize;
    }
    let n = (der[1] - 0x80) as usize;
    if n == 0 || der.len() < 2 + n {
        return false;
    }
    let mut len: usize = 0;
    for b in &der[2..2 + n] {
        len = len * 256 + *b as usize;
    }
    der.len() == 2 + n + len
}

#[test]
fn generated_certificate_and_key_are_single_der_sequences() {
    let generated = generate_server_cert().unwrap();
    assert!(is_der_sequence(&generated.certificate_der));
    assert!(is_der_sequence(&generated.private_key_der));
    assert!(!is_der_sequence(&generated.certificate_der[..generated.certificate_der.len() - 1]));
}

fn embeds(haystack: &[u8], needle: &[u8]) -> bool {
    haystack.windows(needle.len()).any(|w| w == needle)
}

#[test]
fn generated_key_is_p256_pkcs8_and_the_certificate_carries_its_public_key() {
    let generated = generate_server_cert().unwrap();
    let key = &generated.private_key_der;
    assert_eq!(key.len(), 138);
    assert_eq!(
        &key[..36],
        &[
            0x30, 0x81, 0x87, 0x02, 0x01, 0x00, 0x30, 0x13, 0x06, 0x07, 0x2a, 0x86, 0x48, 0xce,
            0x3d, 0x02, 0x01, 0x06, 0x08, 0x2a, 0x86, 0x48, 0xce, 0x3d, 0x03, 0x01, 0x07, 0x04,
            0x6d, 0x30, 0x6b, 0x02, 0x01, 0x01, 0x04, 0x20,
        ]
    );
    assert_eq!(&key[68..73], &[0xa1, 0x44, 0x03, 0x42, 0x00]);
    assert_eq!(key[73], 0x04);
    let mut spki = vec![
        0x30, 0x59, 0x30, 0x13, 0x06, 0x07, 0x2a, 0x86, 0x48, 0xce, 0x3d, 0x02, 0x01, 0x06, 0x08,
        0x2a, 0x86, 0x48, 0xce, 0x3d, 0x03, 0x01, 0x07, 0x03, 0x42, 0x00,
    ];
    spki.extend_from_slice(&key[73..]);
    assert!(embeds(&generated.certificate_der, &spki));
    assert!(embeds(
        &generated.certificate_der,
        &[0x30, 0x0a, 0x06, 0x08, 0x2a, 0x86, 0x48, 0xce, 0x3d, 0x04, 0x03, 0x02]
    ));
    let other = generate_server_cert().unwrap();
    assert_ne!(other.private_key_der, generated.private_key_der);
}

fn tlv(tag: u8, content: &[u8]) -> Vec<u8> {
    assert!(content.len() < 128);
    let mut out = vec![tag, content.len() as u8];
    out.extend_from_slice(content);
    out
}

fn name_attribute(oid_last: u8, value: &str) -> Vec<u8> {
    let mut inner = vec![0x06, 0x03, 0x55, 0x04, oid_last];
    inner.extend(tlv(0x0c, value.as_bytes()));
    tlv(0x31, &tlv(0x30, &inner))
}

#[test]
fn server_certificate_carries_the_go_plugin_profile() {
    let der = generate_server_cert().unwrap().certificate_der;
    assert!(embeds(&der, &tlv(0x82, b"localhost")));
    assert!(embeds(&der, &name_attribute(0x03, "localhost")));
    assert!(embeds(&der, &name_attribute(0x0a, "HashiCorp")));
    assert!(embeds(
        &der,
        &[
            0x30, 0x0f, 0x06, 0x03, 0x55, 0x1d, 0x13, 0x01, 0x01, 0xff, 0x04, 0x05, 0x30, 0x03,
            0x01, 0x01, 0xff
        ]
    ));
    assert!(embeds(
        &der,
        &[
            0x30, 0x0f, 0x06, 0x03, 0x55, 0x1d, 0x0f, 0x01, 0x01, 0xff, 0x04, 0x05, 0x03, 0x03,
            0x07, 0xac, 0x00
        ]
    ));
    let mut oids = vec![0x06, 0x08, 0x2b, 0x06, 0x01, 0x05, 0x05, 0x07, 0x03, 0x02];
    oids.extend([0x06, 0x08, 0x2b, 0x06, 0x01, 0x05, 0x05, 0x07, 0x03, 0x01]);
    let mut eku = vec![0x06, 0x03, 0x55, 0x1d, 0x25];
    eku.extend(tlv(0x04, &tlv(0x30, &oids)));
    assert!(embeds(&der, &tlv(0x30, &eku)));
}

#[test]
fn generated_certificate_carries_a_custom_profile() {
    let profile = ServerCertificateProfile {
        subject_alt_names: vec!["127.0.0.1".to_owned(), "example.org".to_owned()],
        distinguished_name: vec![
            (NameAttribute::CommonName, "first".to_owned()),
            (NameAttribute::CommonName, "second".to_owned()),
        ],
        certificate_authority: false,
        key_usages: vec![KeyUsage::KeyCertSign],
        extended_key_usages: vec![ExtendedKeyUsage::ServerAuth],
    };
    let der = generate_certificate(profile).unwrap().certificate_der;
    assert!(embeds(&der, &tlv(0x82, b"example.org")));
    assert!(embeds(&der, &name_attribute(0x03, "second")));
    assert!(!embeds(&der, &name_attribute(0x03, "first")));
    assert!(embeds(
        &der,
        &[
            0x30, 0x0f, 0x06, 0x03, 0x55, 0x1d, 0x0f, 0x01, 0x01, 0xff, 0x04, 0x05, 0x03, 0x03,
            0x07, 0x04, 0x00
        ]
    ));
    let oids = [0x06, 0x08, 0x2b, 0x06, 0x01, 0x05, 0x05, 0x07, 0x03, 0x01];
    let mut eku = vec![0x06, 0x03, 0x55, 0x1d, 0x25];
    eku.extend(tlv(0x04, &tlv(0x30, &oids)));
    assert!(embeds(&der, &tlv(0x30, &eku)));
}
