//! go-plugin automatic mTLS support.
//!
//! When Grafana serves a backend plugin with AutoMTLS it generates an ephemeral
//! client certificate and passes it to the plugin process in the
//! `PLUGIN_CLIENT_CERT` environment variable (PEM). The plugin must, in response:
//!
//! - generate its own ephemeral self-signed server certificate,
//! - serve gRPC over TLS, requiring and verifying the host's client certificate,
//! - advertise its server certificate as the sixth `|`-separated field of the
//!   go-plugin handshake line, as base64 (raw standard, no padding) of the DER.
//!
//! Grafana's client certificate is self-signed, so it is verified by pinning:
//! the presented certificate must match the one from the environment exactly.
use base64::Engine;
use rustls_pki_types::pem::PemObject;
use vstd::prelude::*;
use vstd::string::StringSliceAdditionalSpecFns;

verus! {

/// The name of the environment variable Grafana uses to pass its client
/// certificate to the plugin.
pub const CLIENT_CERT_ENV: &'static str = "PLUGIN_CLIENT_CERT";

#[verifier::external_type_specification]
#[verifier::external_body]
pub struct ExPemError(rustls_pki_types::pem::Error);

#[verifier::external_type_specification]
#[verifier::external_body]
pub struct ExRcgenError(rcgen::Error);

#[verifier::external_type_specification]
#[verifier::external_body]
pub struct ExRustlsError(rustls::Error);

#[verifier::external_type_specification]
#[verifier::external_body]
pub struct ExDnType(rcgen::DnType);

#[verifier::external_type_specification]
#[verifier::external_body]
pub struct ExIsCa(rcgen::IsCa);

#[verifier::external_type_specification]
#[verifier::external_body]
pub struct ExKeyUsagePurpose(rcgen::KeyUsagePurpose);

#[verifier::external_type_specification]
#[verifier::external_body]
pub struct ExExtendedKeyUsagePurpose(rcgen::ExtendedKeyUsagePurpose);

#[verifier::external_type_specification]
#[verifier::external_body]
pub struct ExKeyPair(rcgen::KeyPair);


/// Errors that can occur while setting up automatic mTLS.
#[derive(Debug)]
pub enum MtlsError {
    /// The client certificate in `PLUGIN_CLIENT_CERT` could not be parsed.
    ClientCert(rustls_pki_types::pem::Error),
    /// The server certificate could not be generated.
    Generate(rcgen::Error),
    /// The rustls server configuration was invalid.
    Config(rustls::Error),
}

/// The client certificate that the host asked the plugin to pin, given the
/// value of `PLUGIN_CLIENT_CERT`: its value when it is set and not empty.
pub fn requested_client_cert(env_value: Option<String>) -> (pem: Option<String>)
    ensures
        match env_value {
            Some(v) => if v@.len() > 0 {
                pem == Some(v)
            } else {
                pem is None
            },
            None => pem is None,
        },
{
    match env_value {
        Some(v) => {
            if v.as_str().is_empty() {
                None
            } else {
                Some(v)
            }
        },
        None => None,
    }
}

/// The DER of the first certificate in `pem`, as the PEM reader of
/// `rustls-pki-types` finds it, or `None` when it finds none or the PEM text
/// is malformed.
pub uninterp spec fn pem_first_certificate(pem: Seq<u8>) -> Option<Seq<u8>>;

/// Calls `CertificateDer::from_pem_slice` (rustls-pki-types) and returns the
/// certificate's DER bytes. Claimed: the outcome depends on the input bytes
/// alone, which is named by `pem_first_certificate`.
#[verifier::external_body]
fn certificate_der_from_pem(pem: &[u8]) -> (r: Result<Vec<u8>, rustls_pki_types::pem::Error>)
    ensures
        r is Ok <==> pem_first_certificate(pem@) is Some,
        r matches Ok(der) ==> pem_first_certificate(pem@) == Some(der@),
{
    rustls_pki_types::CertificateDer::from_pem_slice(pem).map(|c| c.as_ref().to_vec())
}

/// Parse the (single) client certificate that will be pinned from its PEM form.
pub fn client_cert_from_pem(client_cert_pem: &str) -> (r: Result<Vec<u8>, MtlsError>)
    ensures
        r is Ok <==> pem_first_certificate(client_cert_pem.spec_bytes()) is Some,
        r matches Ok(der) ==> pem_first_certificate(client_cert_pem.spec_bytes()) == Some(der@),
        r matches Err(e) ==> e is ClientCert,
{
    match certificate_der_from_pem(client_cert_pem.as_bytes()) {
        Ok(der) => Ok(der),
        Err(e) => Err(MtlsError::ClientCert(e)),
    }
}

/// The character of the standard base64 alphabet with index `i` (0..64).
pub open spec fn base64_char(i: int) -> char {
    if i < 26 {
        (i + 65) as char
    } else if i < 52 {
        (i - 26 + 97) as char
    } else if i < 62 {
        (i - 52 + 48) as char
    } else if i == 62 {
        '+'
    } else {
        '/'
    }
}

/// Standard base64 (RFC 4648, alphabet `A-Z a-z 0-9 + /`) of `s`; a final
/// group of one or two bytes is padded with `=` to four characters when
/// `padded`, and left short otherwise.
pub open spec fn base64_encoding(s: Seq<u8>, padded: bool) -> Seq<char>
    decreases s.len(),
{
    if s.len() == 0 {
        Seq::empty()
    } else if s.len() == 1 {
        let b0 = s[0] as int;
        let head = seq![base64_char(b0 / 4), base64_char((b0 % 4) * 16)];
        if padded {
            head + seq!['=', '=']
        } else {
            head
        }
    } else if s.len() == 2 {
        let b0 = s[0] as int;
        let b1 = s[1] as int;
        let head = seq![
            base64_char(b0 / 4),
            base64_char((b0 % 4) * 16 + b1 / 16),
            base64_char((b1 % 16) * 4),
        ];
        if padded {
            head.push('=')
        } else {
            head
        }
    } else {
        let b0 = s[0] as int;
        let b1 = s[1] as int;
        let b2 = s[2] as int;
        seq![
            base64_char(b0 / 4),
            base64_char((b0 % 4) * 16 + b1 / 16),
            base64_char((b1 % 16) * 4 + b2 / 64),
            base64_char(b2 % 64),
        ] + base64_encoding(s.skip(3), padded)
    }
}

/// Calls `Engine::encode` (base64) on the `STANDARD` engine. Claimed: the
/// result is the RFC 4648 standard encoding of the input, padded with `=`.
/// The call panics only when the encoded length overflows `usize`, which no
/// slice (at most `isize::MAX` bytes) reaches.
#[verifier::external_body]
pub(crate) fn base64_padded(bytes: &[u8]) -> (s: String)
    ensures
        s@ == base64_encoding(bytes@, true),
{
    base64::engine::general_purpose::STANDARD.encode(bytes)
}

/// Calls `Engine::encode` (base64) on the `STANDARD_NO_PAD` engine. Claimed:
/// the result is the RFC 4648 standard encoding of the input, without
/// padding. The call panics only when the encoded length overflows `usize`,
/// which no slice (at most `isize::MAX` bytes) reaches.
#[verifier::external_body]
fn base64_unpadded(bytes: &[u8]) -> (s: String)
    ensures
        s@ == base64_encoding(bytes@, false),
{
    base64::engine::general_purpose::STANDARD_NO_PAD.encode(bytes)
}

/// The advertised form of a certificate has no padding: its length is
/// `ceil(4n / 3)` for `n` bytes of DER, and it never holds `=`.
pub proof fn law_advertised_certificate_is_unpadded(der: Seq<u8>)
    ensures
        base64_encoding(der, false).len() == (4 * der.len() + 2) / 3,
        forall|i: int|
            0 <= i < base64_encoding(der, false).len() ==> #[trigger] base64_encoding(der, false)[i]
                != '=',
    decreases der.len(),
{
    let e = base64_encoding(der, false);
    if der.len() >= 3 {
        law_advertised_certificate_is_unpadded(der.skip(3));
        assert forall|i: int| 0 <= i < e.len() implies #[trigger] e[i] != '=' by {
            if i >= 4 {
                assert(e[i] == base64_encoding(der.skip(3), false)[i - 4]);
            }
        }
    }
}

/// The form in which the server certificate is advertised in the handshake
/// line: base64 (raw standard, no padding) of its DER.
pub fn advertised_certificate(der: &[u8]) -> (s: String)
    ensures
        s@ == base64_encoding(der@, false),
{
    base64_unpadded(der)
}

/// Why a presented client certificate was refused.
#[derive(Clone, Copy, Debug, PartialEq, Eq, Structural)]
pub enum PinnedCertError {
    /// The presented certificate is not the pinned one.
    NotPinned,
}

/// Whether two byte slices hold the same bytes.
pub fn bytes_equal(a: &[u8], b: &[u8]) -> (r: bool)
    ensures
        r == (a@ == b@),
{
    if a.len() != b.len() {
        return false;
    }
    let mut i: usize = 0;
    while i < a.len()
        invariant
            a@.len() == b@.len(),
            i <= a@.len(),
            forall|j: int| 0 <= j < i ==> a@[j] == b@[j],
        decreases a.len() - i,
    {
        if a[i] != b[i] {
            return false;
        }
        i += 1;
    }
    assert(a@ =~= b@);
    true
}

/// A client-certificate check that accepts exactly one pinned certificate.
///
/// go-plugin's client certificate is self-signed, which a WebPKI chain verifier
/// rejects. Since the certificate is delivered out-of-band (via the environment)
/// this instead requires the presented certificate to match it byte-for-byte.
#[derive(Clone, Debug)]
pub struct PinnedClientCert {
    expected: Vec<u8>,
}

impl View for PinnedClientCert {
    type V = Seq<u8>;

    /// The DER of the pinned certificate.
    closed spec fn view(&self) -> Seq<u8> {
        self.expected@
    }
}

impl PinnedClientCert {
    /// Pin the certificate with DER `expected`.
    pub fn new(expected: Vec<u8>) -> (p: Self)
        ensures
            p@ == expected@,
    {
        PinnedClientCert { expected }
    }

    /// The DER of the pinned certificate.
    pub fn expected(&self) -> (der: &[u8])
        ensures
            der@ == self@,
    {
        self.expected.as_slice()
    }

    /// Accept `end_entity` exactly when it is the pinned certificate.
    pub fn verify_client_cert(&self, end_entity: &[u8]) -> (r: Result<(), PinnedCertError>)
        ensures
            r is Ok <==> end_entity@ == self@,
    {
        if bytes_equal(end_entity, self.expected.as_slice()) {
            Ok(())
        } else {
            Err(PinnedCertError::NotPinned)
        }
    }
}

/// The attributes of the server certificate's distinguished name.
#[derive(Clone, Copy, Debug, PartialEq, Eq, Structural)]
pub enum NameAttribute {
    /// The common name.
    CommonName,
    /// The organization name.
    OrganizationName,
}

/// The key usages the server certificate can carry.
#[derive(Clone, Copy, Debug, PartialEq, Eq, Structural)]
pub enum KeyUsage {
    /// digitalSignature
    DigitalSignature,
    /// keyEncipherment
    KeyEncipherment,
    /// keyAgreement
    KeyAgreement,
    /// keyCertSign
    KeyCertSign,
}

/// The extended key usages the server certificate can carry.
#[derive(Clone, Copy, Debug, PartialEq, Eq, Structural)]
pub enum ExtendedKeyUsage {
    /// id-kp-clientAuth
    ClientAuth,
    /// id-kp-serverAuth
    ServerAuth,
}

/// What the plugin's ephemeral server certificate says of itself.
pub struct ServerCertificateProfile {
    /// The subject alternative names.
    pub subject_alt_names: Vec<String>,
    /// The distinguished name's attributes, in order.
    pub distinguished_name: Vec<(NameAttribute, String)>,
    /// Whether the certificate is an unconstrained certificate authority.
    pub certificate_authority: bool,
    /// The key usages.
    pub key_usages: Vec<KeyUsage>,
    /// The extended key usages.
    pub extended_key_usages: Vec<ExtendedKeyUsage>,
}

/// The server certificate profile that mirrors go-plugin's own: `localhost`,
/// issued to `HashiCorp`, an unconstrained CA usable for signatures, key
/// encipherment, key agreement and certificate signing, for client and
/// server authentication.
pub fn server_certificate_profile() -> (p: ServerCertificateProfile)
    ensures
        p.subject_alt_names@.len() == 1,
        p.subject_alt_names@[0]@ == "localhost"@,
        p.distinguished_name@.len() == 2,
        p.distinguished_name@[0].0 == NameAttribute::CommonName,
        p.distinguished_name@[0].1@ == "localhost"@,
        p.distinguished_name@[1].0 == NameAttribute::OrganizationName,
        p.distinguished_name@[1].1@ == "HashiCorp"@,
        p.certificate_authority,
        p.key_usages@ == seq![
            KeyUsage::DigitalSignature,
            KeyUsage::KeyEncipherment,
            KeyUsage::KeyAgreement,
            KeyUsage::KeyCertSign,
        ],
        p.extended_key_usages@ == seq![ExtendedKeyUsage::ClientAuth, ExtendedKeyUsage::ServerAuth],
{
    let mut subject_alt_names: Vec<String> = Vec::new();
    subject_alt_names.push(String::from_str("localhost"));
    let mut distinguished_name: Vec<(NameAttribute, String)> = Vec::new();
    distinguished_name.push((NameAttribute::CommonName, String::from_str("localhost")));
    distinguished_name.push((NameAttribute::OrganizationName, String::from_str("HashiCorp")));
    let mut key_usages: Vec<KeyUsage> = Vec::new();
    key_usages.push(KeyUsage::DigitalSignature);
    key_usages.push(KeyUsage::KeyEncipherment);
    key_usages.push(KeyUsage::KeyAgreement);
    key_usages.push(KeyUsage::KeyCertSign);
    let mut extended_key_usages: Vec<ExtendedKeyUsage> = Vec::new();
    extended_key_usages.push(ExtendedKeyUsage::ClientAuth);
    extended_key_usages.push(ExtendedKeyUsage::ServerAuth);
    assert(key_usages@ =~= seq![
        KeyUsage::DigitalSignature,
        KeyUsage::KeyEncipherment,
        KeyUsage::KeyAgreement,
        KeyUsage::KeyCertSign,
    ]);
    assert(extended_key_usages@ =~= seq![ExtendedKeyUsage::ClientAuth, ExtendedKeyUsage::ServerAuth]);
    ServerCertificateProfile {
        subject_alt_names,
        distinguished_name,
        certificate_authority: true,
        key_usages,
        extended_key_usages,
    }
}

/// The rcgen attribute type of `attribute`. Nothing is claimed.
#[verifier::external_body]
fn dn_type(attribute: NameAttribute) -> (t: rcgen::DnType) {
    match attribute {
        NameAttribute::CommonName => rcgen::DnType::CommonName,
        NameAttribute::OrganizationName => rcgen::DnType::OrganizationName,
    }
}

/// The rcgen CA setting for `certificate_authority`: an unconstrained CA, or
/// none. Nothing is claimed.
#[verifier::external_body]
fn ca_setting(certificate_authority: bool) -> (c: rcgen::IsCa) {
    match certificate_authority {
        true => rcgen::IsCa::Ca(rcgen::BasicConstraints::Unconstrained),
        false => rcgen::IsCa::NoCa,
    }
}

/// The rcgen key usage purpose of `usage`. Nothing is claimed.
#[verifier::external_body]
fn key_usage_purpose(usage: KeyUsage) -> (p: rcgen::KeyUsagePurpose) {
    match usage {
        KeyUsage::DigitalSignature => rcgen::KeyUsagePurpose::DigitalSignature,
        KeyUsage::KeyEncipherment => rcgen::KeyUsagePurpose::KeyEncipherment,
        KeyUsage::KeyAgreement => rcgen::KeyUsagePurpose::KeyAgreement,
        KeyUsage::KeyCertSign => rcgen::KeyUsagePurpose::KeyCertSign,
    }
}

/// The rcgen extended key usage purpose of `usage`. Nothing is claimed.
#[verifier::external_body]
fn extended_key_usage_purpose(usage: ExtendedKeyUsage) -> (p: rcgen::ExtendedKeyUsagePurpose) {
    match usage {
        ExtendedKeyUsage::ClientAuth => rcgen::ExtendedKeyUsagePurpose::ClientAuth,
        ExtendedKeyUsage::ServerAuth => rcgen::ExtendedKeyUsagePurpose::ServerAuth,
    }
}

/// The minimal big-endian bytes of `n` (at least one byte).
pub open spec fn big_endian_bytes(n: nat) -> Seq<u8>
    decreases n,
{
    if n < 256 {
        seq![n as u8]
    } else {
        big_endian_bytes(n / 256).push((n % 256) as u8)
    }
}

/// The DER encoding of the length `n`: one byte below 128, else `0x80` plus
/// the number of length bytes, then the length in minimal big-endian bytes.
pub open spec fn der_length(n: nat) -> Seq<u8> {
    if n < 128 {
        seq![n as u8]
    } else {
        seq![(0x80 + big_endian_bytes(n).len()) as u8] + big_endian_bytes(n)
    }
}

/// The DER encoding of a value with identifier octet `tag` and contents
/// `content`.
pub open spec fn der_tlv(tag: u8, content: Seq<u8>) -> Seq<u8> {
    seq![tag] + der_length(content.len()) + content
}

/// The DER of the object identifier of a name attribute: 2.5.4.3 (common
/// name) or 2.5.4.10 (organization name).
pub open spec fn name_attribute_oid(attribute: NameAttribute) -> Seq<u8> {
    match attribute {
        NameAttribute::CommonName => seq![0x06u8, 0x03, 0x55, 0x04, 0x03],
        NameAttribute::OrganizationName => seq![0x06u8, 0x03, 0x55, 0x04, 0x0a],
    }
}

/// The DER of one relative distinguished name: a SET holding the attribute
/// type and the value as a UTF8String.
pub open spec fn name_attribute_der(attribute: NameAttribute, value: Seq<char>) -> Seq<u8> {
    der_tlv(
        0x31,
        der_tlv(0x30, name_attribute_oid(attribute) + der_tlv(0x0c, vstd::utf8::encode_utf8(value))),
    )
}

/// The DER of a `dNSName` subject alternative name (context tag 2, as an
/// IA5String).
pub open spec fn dns_name_der(name: Seq<char>) -> Seq<u8> {
    der_tlv(0x82, vstd::utf8::encode_utf8(name))
}

/// A character that can appear in the text of an IP address.
pub open spec fn is_ip_address_char(c: char) -> bool {
    ||| '0' <= c <= '9'
    ||| 'a' <= c <= 'f'
    ||| 'A' <= c <= 'F'
    ||| c == ':' || c == '.'
}

/// `name` holds a character that no IP address holds, so it cannot be read
/// as one.
pub open spec fn not_an_ip_address(name: Seq<char>) -> bool {
    exists|i: int| 0 <= i < name.len() && !is_ip_address_char(#[trigger] name[i])
}

/// The DER of the critical basicConstraints extension of an unconstrained
/// certificate authority: CA true, no path length limit.
pub open spec fn basic_constraints_ca_der() -> Seq<u8> {
    seq![
        0x30u8, 0x0f, 0x06, 0x03, 0x55, 0x1d, 0x13, 0x01, 0x01, 0xff, 0x04, 0x05, 0x30, 0x03, 0x01,
        0x01, 0xff,
    ]
}

/// The bit of a key usage in the first byte of the keyUsage bit string.
pub open spec fn key_usage_bit(usage: KeyUsage) -> u8 {
    match usage {
        KeyUsage::DigitalSignature => 0x80,
        KeyUsage::KeyEncipherment => 0x20,
        KeyUsage::KeyAgreement => 0x08,
        KeyUsage::KeyCertSign => 0x04,
    }
}

/// The first byte of the keyUsage bit string of `usages`.
pub open spec fn key_usage_byte(usages: Seq<KeyUsage>) -> u8
    decreases usages.len(),
{
    if usages.len() == 0 {
        0
    } else {
        key_usage_byte(usages.drop_last()) | key_usage_bit(usages.last())
    }
}

/// The DER of the critical keyUsage extension for `usages`: a nine-bit
/// string, whose second byte no usage here sets.
pub open spec fn key_usage_der(usages: Seq<KeyUsage>) -> Seq<u8> {
    seq![
        0x30u8, 0x0f, 0x06, 0x03, 0x55, 0x1d, 0x0f, 0x01, 0x01, 0xff, 0x04, 0x05, 0x03, 0x03, 0x07,
        key_usage_byte(usages), 0x00,
    ]
}

/// The DER of the object identifier of an extended key usage:
/// id-kp-clientAuth (1.3.6.1.5.5.7.3.2) or id-kp-serverAuth (…3.1).
pub open spec fn extended_key_usage_oid(usage: ExtendedKeyUsage) -> Seq<u8> {
    seq![
        0x06u8, 0x08, 0x2b, 0x06, 0x01, 0x05, 0x05, 0x07, 0x03,
        match usage {
            ExtendedKeyUsage::ClientAuth => 0x02u8,
            ExtendedKeyUsage::ServerAuth => 0x01u8,
        },
    ]
}

/// The object identifiers of `usages`, one after another.
pub open spec fn extended_key_usage_oids(usages: Seq<ExtendedKeyUsage>) -> Seq<u8>
    decreases usages.len(),
{
    if usages.len() == 0 {
        Seq::empty()
    } else {
        extended_key_usage_oids(usages.drop_last()) + extended_key_usage_oid(usages.last())
    }
}

/// The DER of the extendedKeyUsage extension for `usages` (not critical).
pub open spec fn extended_key_usage_der(usages: Seq<ExtendedKeyUsage>) -> Seq<u8> {
    der_tlv(
        0x30,
        seq![0x06u8, 0x03, 0x55, 0x1d, 0x25] + der_tlv(
            0x04,
            der_tlv(0x30, extended_key_usage_oids(usages)),
        ),
    )
}

/// The texts of a list of strings.
pub open spec fn string_views(s: Seq<String>) -> Seq<Seq<char>> {
    s.map_values(|x: String| x@)
}

/// The attributes of a distinguished name, each with its text.
pub open spec fn name_views(s: Seq<(NameAttribute, String)>) -> Seq<(NameAttribute, Seq<char>)> {
    s.map_values(|x: (NameAttribute, String)| (x.0, x.1@))
}

/// The certificate `der` carries the profile given by its parts: each
/// subject alternative name that cannot be an IP address as a `dNSName`; for
/// each attribute type of the distinguished name, its last value; the
/// unconstrained CA extension when it is a CA; and the keyUsage and
/// extendedKeyUsage extensions when there are usages.
pub open spec fn carries_profile_parts(
    der: Seq<u8>,
    subject_alt_names: Seq<Seq<char>>,
    distinguished_name: Seq<(NameAttribute, Seq<char>)>,
    certificate_authority: bool,
    key_usages: Seq<KeyUsage>,
    extended_key_usages: Seq<ExtendedKeyUsage>,
) -> bool {
    &&& forall|i: int|
        0 <= i < subject_alt_names.len() && not_an_ip_address(#[trigger] subject_alt_names[i])
            ==> embeds(der, dns_name_der(subject_alt_names[i]))
    &&& forall|i: int|
        #![trigger distinguished_name[i]]
        0 <= i < distinguished_name.len() && (forall|j: int|
            i < j < distinguished_name.len() ==> distinguished_name[j].0
                != distinguished_name[i].0) ==> embeds(
            der,
            name_attribute_der(distinguished_name[i].0, distinguished_name[i].1),
        )
    &&& certificate_authority ==> embeds(der, basic_constraints_ca_der())
    &&& key_usages.len() > 0 ==> embeds(der, key_usage_der(key_usages))
    &&& extended_key_usages.len() > 0 ==> embeds(der, extended_key_usage_der(extended_key_usages))
}

/// The certificate `der` carries the profile `profile`.
pub open spec fn carries_profile(der: Seq<u8>, profile: ServerCertificateProfile) -> bool {
    carries_profile_parts(
        der,
        string_views(profile.subject_alt_names@),
        name_views(profile.distinguished_name@),
        profile.certificate_authority,
        profile.key_usages@,
        profile.extended_key_usages@,
    )
}

/// The unsigned big-endian number that the bytes `s` write.
pub open spec fn big_endian(s: Seq<u8>) -> nat
    decreases s.len(),
{
    if s.len() == 0 {
        0
    } else {
        big_endian(s.drop_last()) * 256 + s.last() as nat
    }
}

/// `s` is exactly one DER-encoded SEQUENCE: the tag `0x30`, a definite length
/// (one byte below `0x80`, or `0x80 + n` followed by `n` big-endian length
/// bytes), and that many content bytes, with nothing after them.
pub open spec fn is_der_sequence(s: Seq<u8>) -> bool {
    &&& s.len() >= 2
    &&& s[0] == 0x30
    &&& if s[1] < 0x80 {
        s.len() == 2 + s[1]
    } else {
        let n = s[1] - 0x80;
        &&& n >= 1
        &&& s.len() >= 2 + n
        &&& s.len() == 2 + n + big_endian(s.subrange(2, 2 + n))
    }
}

/// `t` occurs in `s` as a run of consecutive bytes.
pub open spec fn embeds(s: Seq<u8>, t: Seq<u8>) -> bool {
    exists|i: int| 0 <= i && i + t.len() <= s.len() && #[trigger] s.subrange(i, i + t.len()) == t
}

/// The bytes of a P-256 PKCS#8 key document before its private key: the
/// `PrivateKeyInfo` header (version 0, id-ecPublicKey on prime256v1) and the
/// `ECPrivateKey` header (version 1, a 32-byte private key).
pub open spec fn p256_pkcs8_head() -> Seq<u8> {
    seq![
        0x30u8, 0x81, 0x87, 0x02, 0x01, 0x00, 0x30, 0x13, 0x06, 0x07, 0x2a, 0x86, 0x48, 0xce,
        0x3d, 0x02, 0x01, 0x06, 0x08, 0x2a, 0x86, 0x48, 0xce, 0x3d, 0x03, 0x01, 0x07, 0x04,
        0x6d, 0x30, 0x6b, 0x02, 0x01, 0x01, 0x04, 0x20,
    ]
}

/// The bytes of a P-256 PKCS#8 key document between its private key and its
/// public key: the `[1]` tag of the public key and its bit-string header.
pub open spec fn p256_pkcs8_middle() -> Seq<u8> {
    seq![0xa1u8, 0x44, 0x03, 0x42, 0x00]
}

/// `der` is an unencrypted PKCS#8 document for an ECDSA P-256 key, laid out
/// as the header, the 32-byte private key, the public-key header, and the
/// 65-byte uncompressed public key (which starts with `0x04`).
pub open spec fn is_p256_pkcs8(der: Seq<u8>) -> bool {
    &&& der.len() == 138
    &&& der.subrange(0, 36) == p256_pkcs8_head()
    &&& der.subrange(68, 73) == p256_pkcs8_middle()
    &&& der[73] == 0x04
}

/// The uncompressed public key held in a P-256 PKCS#8 document.
pub open spec fn p256_public_key(der: Seq<u8>) -> Seq<u8> {
    der.subrange(73, 138)
}

/// The DER `SubjectPublicKeyInfo` of the P-256 public key `point`: the
/// algorithm (id-ecPublicKey on prime256v1) and the key as a bit string.
pub open spec fn p256_subject_public_key_info(point: Seq<u8>) -> Seq<u8> {
    seq![
        0x30u8, 0x59, 0x30, 0x13, 0x06, 0x07, 0x2a, 0x86, 0x48, 0xce, 0x3d, 0x02, 0x01, 0x06,
        0x08, 0x2a, 0x86, 0x48, 0xce, 0x3d, 0x03, 0x01, 0x07, 0x03, 0x42, 0x00,
    ] + point
}

/// The DER `AlgorithmIdentifier` of ecdsa-with-SHA256, the algorithm a
/// P-256 key signs with.
pub open spec fn ecdsa_with_sha256() -> Seq<u8> {
    seq![0x30u8, 0x0a, 0x06, 0x08, 0x2a, 0x86, 0x48, 0xce, 0x3d, 0x04, 0x03, 0x02]
}

/// A freshly generated key pair together with its PKCS#8 document.
///
/// Only `generate_key_pair` makes one, so `pkcs8` is always the document of
/// `key_pair`.
struct GeneratedKeyPair {
    key_pair: rcgen::KeyPair,
    pkcs8: Vec<u8>,
}

impl View for GeneratedKeyPair {
    type V = Seq<u8>;

    /// The key's PKCS#8 document.
    closed spec fn view(&self) -> Seq<u8> {
        self.pkcs8@
    }
}

impl GeneratedKeyPair {
    /// The key's PKCS#8 document, DER-encoded.
    fn into_pkcs8_der(self) -> (der: Vec<u8>)
        ensures
            der@ == self@,
    {
        self.pkcs8
    }
}

/// Calls `KeyPair::generate` (rcgen) and then `KeyPair::serialize_der` on the
/// fresh key. Claimed: the key is an ECDSA P-256 key made by ring, whose
/// PKCS#8 document rcgen keeps and returns (ring writes it from a fixed
/// template, the 32-byte private key and the 65-byte uncompressed public
/// key). The key is random. A generated key pair is never remote, so
/// `serialize_der` does not panic here.
#[verifier::external_body]
fn generate_key_pair() -> (r: Result<GeneratedKeyPair, rcgen::Error>)
    ensures
        r matches Ok(k) ==> is_p256_pkcs8(k@),
{
    let key_pair = rcgen::KeyPair::generate()?;
    let pkcs8 = key_pair.serialize_der();
    Ok(GeneratedKeyPair { key_pair, pkcs8 })
}

/// Calls `CertificateParams::new` (rcgen) with the profile's subject
/// alternative names, sets on the parameters its distinguished name
/// (`DistinguishedName::push`, in order), its CA setting and its key and
/// extended key usages, signs them with the generated key
/// (`CertificateParams::self_signed`) and returns the certificate's DER
/// (`Certificate::der`). Claimed, of every certificate rcgen makes so:
/// - the DER is one SEQUENCE (rcgen writes it with yasna as a single one);
/// - it holds the `SubjectPublicKeyInfo` of the key's public key and the
///   ecdsa-with-SHA256 algorithm of a P-256 key;
/// - it carries the profile (`carries_profile`): rcgen reads a name that
///   cannot be an IP address as a `dNSName`, keeps the last value pushed for
///   each attribute type and writes values as UTF8Strings, writes the
///   basicConstraints extension of an unconstrained CA as critical with no
///   path length, and writes the keyUsage (critical, nine bits) and
///   extendedKeyUsage extensions when there are usages.
/// The signature is random.
#[verifier::external_body]
fn self_signed(profile: &ServerCertificateProfile, key: &GeneratedKeyPair) -> (r: Result<
    Vec<u8>,
    rcgen::Error,
>)
    ensures
        r matches Ok(der) ==> {
            &&& is_der_sequence(der@)
            &&& embeds(der@, p256_subject_public_key_info(p256_public_key(key@)))
            &&& embeds(der@, ecdsa_with_sha256())
            &&& carries_profile(der@, *profile)
        },
{
    let mut params = rcgen::CertificateParams::new(profile.subject_alt_names.clone())?;
    for (attribute, value) in &profile.distinguished_name {
        params.distinguished_name.push(dn_type(*attribute), value.as_str());
    }
    params.is_ca = ca_setting(profile.certificate_authority);
    params.key_usages = profile.key_usages.iter().map(|u| key_usage_purpose(*u)).collect();
    params.extended_key_usages =
        profile.extended_key_usages.iter().map(|u| extended_key_usage_purpose(*u)).collect();
    Ok(params.self_signed(&key.key_pair)?.der().to_vec())
}

/// `certificate` and `key` are as generation makes them: `key` is a P-256
/// PKCS#8 document, and `certificate` is one DER SEQUENCE that holds the
/// `SubjectPublicKeyInfo` of the public key in `key` and the
/// ecdsa-with-SHA256 algorithm identifier.
pub open spec fn is_generated_pair(certificate: Seq<u8>, key: Seq<u8>) -> bool {
    &&& is_p256_pkcs8(key)
    &&& is_der_sequence(certificate)
    &&& embeds(certificate, p256_subject_public_key_info(p256_public_key(key)))
    &&& embeds(certificate, ecdsa_with_sha256())
}

/// A P-256 PKCS#8 document is one DER SEQUENCE (of 135 content bytes).
pub proof fn law_p256_pkcs8_is_der_sequence(key: Seq<u8>)
    requires
        is_p256_pkcs8(key),
    ensures
        is_der_sequence(key),
{
    assert(key[0] == p256_pkcs8_head()[0]);
    assert(key[1] == p256_pkcs8_head()[1]);
    assert(key[2] == p256_pkcs8_head()[2]);
    let n = key.subrange(2, 3);
    assert(n =~= seq![0x87u8]);
    assert(big_endian(n) == big_endian(n.drop_last()) * 256 + 0x87);
    assert(n.drop_last() =~= Seq::<u8>::empty());
}

/// A generated server certificate: its DER and the PKCS#8 DER of its key.
pub struct GeneratedCertificate {
    /// The certificate, DER-encoded.
    pub certificate_der: Vec<u8>,
    /// The certificate's private key, PKCS#8 DER-encoded.
    pub private_key_der: Vec<u8>,
}

/// Generate a self-signed server certificate with the given profile.
///
/// The key is a fresh random P-256 key, returned as its PKCS#8 document; the
/// certificate is returned as one DER SEQUENCE that carries the key's public
/// key, is signed with it (ecdsa-with-SHA256) and carries the profile. An
/// error from rcgen is reported as [`MtlsError::Generate`].
pub fn generate_certificate(profile: ServerCertificateProfile) -> (r: Result<
    GeneratedCertificate,
    MtlsError,
>)
    ensures
        r matches Ok(c) ==> is_generated_pair(c.certificate_der@, c.private_key_der@)
            && carries_profile(c.certificate_der@, profile),
        r matches Err(e) ==> e is Generate,
{
    let key_pair = match generate_key_pair() {
        Ok(k) => k,
        Err(e) => {
            return Err(MtlsError::Generate(e));
        },
    };
    let certificate_der = match self_signed(&profile, &key_pair) {
        Ok(der) => der,
        Err(e) => {
            return Err(MtlsError::Generate(e));
        },
    };
    let private_key_der = key_pair.into_pkcs8_der();
    Ok(GeneratedCertificate { certificate_der, private_key_der })
}

/// The certificate `der` carries go-plugin's server profile: the `dNSName`
/// `localhost`; the common name `localhost` and the organization
/// `HashiCorp`; the unconstrained CA extension; the key usages
/// digitalSignature, keyEncipherment, keyAgreement and keyCertSign; and the
/// extended key usages clientAuth and serverAuth.
pub open spec fn carries_go_plugin_profile(der: Seq<u8>) -> bool {
    carries_profile_parts(
        der,
        seq!["localhost"@],
        seq![
            (NameAttribute::CommonName, "localhost"@),
            (NameAttribute::OrganizationName, "HashiCorp"@),
        ],
        true,
        seq![
            KeyUsage::DigitalSignature,
            KeyUsage::KeyEncipherment,
            KeyUsage::KeyAgreement,
            KeyUsage::KeyCertSign,
        ],
        seq![ExtendedKeyUsage::ClientAuth, ExtendedKeyUsage::ServerAuth],
    )
}

/// Generate a self-signed server certificate mirroring go-plugin's, with the
/// profile of [`server_certificate_profile`]: a fresh P-256 key (its PKCS#8
/// document) and a certificate, one DER SEQUENCE, that carries the key's
/// public key, is signed with it and carries that profile.
pub fn generate_server_cert() -> (r: Result<GeneratedCertificate, MtlsError>)
    ensures
        r matches Ok(c) ==> is_generated_pair(c.certificate_der@, c.private_key_der@)
            && carries_go_plugin_profile(c.certificate_der@),
        r matches Err(e) ==> e is Generate,
{
    let profile = server_certificate_profile();
    proof {
        assert(string_views(profile.subject_alt_names@) =~= seq!["localhost"@]);
        assert(name_views(profile.distinguished_name@) =~= seq![
            (NameAttribute::CommonName, "localhost"@),
            (NameAttribute::OrganizationName, "HashiCorp"@),
        ]);
    }
    generate_certificate(profile)
}

/// What the server's TLS configuration is built from: the pinned client
/// certificate, the generated server certificate, and the form in which the
/// server certificate is advertised in the handshake line.
pub struct ServerTlsMaterial {
    /// The only client certificate the server accepts.
    pub pinned: PinnedClientCert,
    /// The server's own certificate and key.
    pub certificate: GeneratedCertificate,
    /// The server certificate as advertised: unpadded standard base64 of its DER.
    pub advertised: String,
}

/// Prepare the server's TLS material for the client certificate
/// `client_cert_pem`: pin its first certificate, generate the server
/// certificate, and encode it for the handshake line.
///
/// Fails with [`MtlsError::ClientCert`] exactly when the PEM holds no
/// certificate; otherwise only certificate generation can fail, with
/// [`MtlsError::Generate`].
pub fn server_tls_material(client_cert_pem: &str) -> (r: Result<ServerTlsMaterial, MtlsError>)
    ensures
        r matches Err(e) && e is ClientCert <==> pem_first_certificate(
            client_cert_pem.spec_bytes(),
        ) is None,
        r matches Err(e) ==> e is ClientCert || e is Generate,
        r matches Ok(m) ==> {
            &&& pem_first_certificate(client_cert_pem.spec_bytes()) == Some(m.pinned@)
            &&& m.advertised@ == base64_encoding(m.certificate.certificate_der@, false)
            &&& is_generated_pair(m.certificate.certificate_der@, m.certificate.private_key_der@)
            &&& carries_go_plugin_profile(m.certificate.certificate_der@)
        },
{
    let expected = match client_cert_from_pem(client_cert_pem) {
        Ok(der) => der,
        Err(e) => {
            return Err(e);
        },
    };
    let certificate = match generate_server_cert() {
        Ok(c) => c,
        Err(e) => {
            return Err(e);
        },
    };
    let advertised = advertised_certificate(certificate.certificate_der.as_slice());
    Ok(ServerTlsMaterial { pinned: PinnedClientCert::new(expected), certificate, advertised })
}

} // verus!
