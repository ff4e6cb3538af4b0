//! Local signatures: SHA-256 digests and detached PKCS#7 signatures in
//! S/MIME form, checked against a set of root certificates.
//!
//! The cryptography is OpenSSL's. This module decides what is handed to it
//! and which error each failure becomes.

use vstd::prelude::*;
use crate::error::{CrateSpecError, Result};

verus! {

/// Bytes of a SHA-256 digest.
pub const DIGEST_LEN: usize = 32;

/// The longest input that OpenSSL's memory buffers take.
pub const MAX_BIO_LEN: usize = 0x7fff_ffff;

#[verifier::external_type_specification]
#[verifier::external_body]
pub struct ExX509(openssl::x509::X509);

#[verifier::external_type_specification]
#[verifier::external_body]
pub struct ExPrivate(openssl::pkey::Private);

#[verifier::external_type_specification]
#[verifier::external_body]
#[verifier::reject_recursive_types(T)]
pub struct ExPKey<T>(openssl::pkey::PKey<T>);

/// A stack of certificates of OpenSSL. Its type is bound by a trait of
/// OpenSSL, so it is held here and handed to OpenSSL as it is.
#[verifier::external_body]
pub struct CertStack {
    inner: openssl::stack::Stack<openssl::x509::X509>,
}

#[verifier::external_type_specification]
#[verifier::external_body]
pub struct ExX509StoreBuilder(openssl::x509::store::X509StoreBuilder);

#[verifier::external_type_specification]
#[verifier::external_body]
pub struct ExX509Store(openssl::x509::store::X509Store);

#[verifier::external_type_specification]
#[verifier::external_body]
pub struct ExPkcs7(openssl::pkcs7::Pkcs7);

/// The SHA-256 digest of a sequence of bytes.
pub uninterp spec fn sha256(data: Seq<u8>) -> Seq<u8>;

/// `openssl::hash::hash` with `MessageDigest::sha256()`: where it succeeds,
/// the result is the SHA-256 digest of `data`. Its error is handed on as text.
#[verifier::external_body]
fn openssl_sha256(data: &[u8]) -> (r: core::result::Result<Vec<u8>, String>)
    ensures
        r matches Ok(d) ==> d@ == sha256(data@),
{
    openssl::hash::hash(openssl::hash::MessageDigest::sha256(), data)
        .map(|d| d.to_vec())
        .map_err(|e| e.to_string())
}

/// `X509::from_pem`: parses a PEM certificate. Nothing is claimed of the
/// result. The input must fit OpenSSL's memory buffer.
#[verifier::external_body]
fn x509_from_pem(pem: &[u8]) -> (r: core::result::Result<openssl::x509::X509, String>)
    requires
        pem@.len() <= MAX_BIO_LEN,
{
    openssl::x509::X509::from_pem(pem).map_err(|e| e.to_string())
}

/// `PKey::private_key_from_pem`: parses a PEM private key. Nothing is claimed
/// of the result. The input must fit OpenSSL's memory buffer. For a key
/// that is protected by a passphrase OpenSSL asks on the terminal.
#[verifier::external_body]
fn private_key_from_pem(pem: &[u8]) -> (r: core::result::Result<
    openssl::pkey::PKey<openssl::pkey::Private>,
    String,
>)
    requires
        pem@.len() <= MAX_BIO_LEN,
{
    openssl::pkey::PKey::private_key_from_pem(pem).map_err(|e| e.to_string())
}

/// `Stack::new`: an empty stack of certificates. Nothing is claimed of the result.
#[verifier::external_body]
fn x509_stack_new() -> (r: core::result::Result<CertStack, String>) {
    openssl::stack::Stack::new().map(|s| CertStack { inner: s }).map_err(|e| e.to_string())
}

/// `X509StoreBuilder::new`: a builder of an empty certificate store. Nothing
/// is claimed of the result.
#[verifier::external_body]
fn store_builder_new() -> (r: core::result::Result<openssl::x509::store::X509StoreBuilder, String>) {
    openssl::x509::store::X509StoreBuilder::new().map_err(|e| e.to_string())
}

/// `X509StoreBuilderRef::add_cert`: adds a certificate to the store under
/// construction. Nothing is claimed of the result.
#[verifier::external_body]
fn store_builder_add_cert(
    builder: &mut openssl::x509::store::X509StoreBuilder,
    cert: openssl::x509::X509,
) -> (r: core::result::Result<(), String>) {
    builder.add_cert(cert).map_err(|e| e.to_string())
}

/// `X509StoreBuilder::build`: the store that was built.
#[verifier::external_body]
fn store_builder_build(builder: openssl::x509::store::X509StoreBuilder) -> (r:
    openssl::x509::store::X509Store) {
    builder.build()
}

/// `Pkcs7::sign` with the flag `STREAM`: signs `input` with the certificate
/// and the key. Nothing is claimed of the result. The input must fit
/// OpenSSL's memory buffer.
#[verifier::external_body]
fn pkcs7_sign(
    cert: &openssl::x509::X509,
    pkey: &openssl::pkey::PKey<openssl::pkey::Private>,
    certs: &CertStack,
    input: &[u8],
) -> (r: core::result::Result<openssl::pkcs7::Pkcs7, String>)
    requires
        input@.len() <= MAX_BIO_LEN,
{
    openssl::pkcs7::Pkcs7::sign(cert, pkey, &certs.inner, input, openssl::pkcs7::Pkcs7Flags::STREAM)
        .map_err(|e| e.to_string())
}

/// `Pkcs7Ref::to_smime` with the flag `STREAM`: the signature in S/MIME form.
/// Nothing is claimed of the result. The input must fit OpenSSL's memory buffer.
#[verifier::external_body]
fn pkcs7_to_smime(pkcs7: &openssl::pkcs7::Pkcs7, input: &[u8]) -> (r: core::result::Result<
    Vec<u8>,
    String,
>)
    requires
        input@.len() <= MAX_BIO_LEN,
{
    pkcs7.to_smime(input, openssl::pkcs7::Pkcs7Flags::STREAM).map_err(|e| e.to_string())
}

/// `Pkcs7::from_smime`: parses a signature in S/MIME form; the clear text
/// that may come with it is dropped. Nothing is claimed of the result. The
/// input must fit OpenSSL's memory buffer.
#[verifier::external_body]
fn pkcs7_from_smime(input: &[u8]) -> (r: core::result::Result<openssl::pkcs7::Pkcs7, String>)
    requires
        input@.len() <= MAX_BIO_LEN,
{
    openssl::pkcs7::Pkcs7::from_smime(input).map(|p| p.0).map_err(|e| e.to_string())
}

/// `Pkcs7Ref::verify` with the flag `STREAM` and no detached content:
/// verifies the signature against the store and hands out the content that
/// the signature encloses. Nothing is claimed of the result.
#[verifier::external_body]
fn pkcs7_verify(
    pkcs7: &openssl::pkcs7::Pkcs7,
    certs: &CertStack,
    store: &openssl::x509::store::X509Store,
) -> (r: core::result::Result<Vec<u8>, String>) {
    let mut out: Vec<u8> = Vec::new();
    pkcs7.verify(&certs.inner, store, None, Some(&mut out), openssl::pkcs7::Pkcs7Flags::STREAM)
        .map(|_| out)
        .map_err(|e| e.to_string())
}

/// Whether OpenSSL's memory buffer takes the bytes `b`.
pub open spec fn fits_bio(b: Seq<u8>) -> bool {
    b.len() <= MAX_BIO_LEN
}

/// Whether OpenSSL's memory buffer takes each of the byte strings `bs`.
pub open spec fn all_fit_bio(bs: Seq<Seq<u8>>) -> bool {
    forall|i: int| 0 <= i < bs.len() ==> fits_bio(#[trigger] bs[i])
}

/// The byte strings that the vectors `v` hold.
pub open spec fn bins_view(v: Seq<Vec<u8>>) -> Seq<Seq<u8>> {
    Seq::new(v.len(), |i: int| v[i]@)
}

/// Whether OpenSSL's memory buffer takes each of the byte strings `bins`.
fn bins_fit(bins: &[Vec<u8>]) -> (r: bool)
    ensures
        r == all_fit_bio(bins_view(bins@)),
{
    let mut i: usize = 0;
    while i < bins.len()
        invariant
            i <= bins@.len(),
            forall|j: int| 0 <= j < i ==> fits_bio(#[trigger] bins_view(bins@)[j]),
        decreases bins@.len() - i,
    {
        if bins[i].len() > MAX_BIO_LEN {
            proof {
                assert(!fits_bio(bins_view(bins@)[i as int]));
            }
            return false;
        }
        i = i + 1;
    }
    true
}

/// A local signer: a certificate, its private key and the root
/// certificates, all as PEM bytes. Nothing is parsed before it is used.
#[derive(PartialEq)]
pub struct PKCS {
    cert_bin: Vec<u8>,
    pkey_bin: Vec<u8>,
    root_ca_bins: Vec<Vec<u8>>,
}

/// The store of the root certificates `roots`, each given as PEM bytes.
///
/// Fails with a parse error where a certificate is too long for OpenSSL or
/// is refused by it, with another error where the store refuses it. A
/// certificate that is too long is refused before OpenSSL is asked.
fn build_store(roots: &[Vec<u8>]) -> (r: Result<openssl::x509::store::X509Store>)
    ensures
        !all_fit_bio(bins_view(roots@)) ==> (r matches Err(e) && e is ParseError),
        r matches Err(e) ==> e is ParseError || e is Other,
{
    if !bins_fit(roots) {
        return Err(CrateSpecError::ParseError(String::from_str("root certificate too long")));
    }
    let mut builder = match store_builder_new() {
        Ok(b) => b,
        Err(m) => {
            return Err(CrateSpecError::Other(m));
        },
    };
    let mut i: usize = 0;
    while i < roots.len()
        invariant
            i <= roots@.len(),
            all_fit_bio(bins_view(roots@)),
        decreases roots@.len() - i,
    {
        proof {
            assert(fits_bio(bins_view(roots@)[i as int]));
        }
        let root = match x509_from_pem(roots[i].as_slice()) {
            Ok(c) => c,
            Err(m) => {
                return Err(CrateSpecError::ParseError(m));
            },
        };
        match store_builder_add_cert(&mut builder, root) {
            Ok(()) => {},
            Err(m) => {
                return Err(CrateSpecError::Other(m));
            },
        }
        i = i + 1;
    }
    Ok(store_builder_build(builder))
}

impl Default for PKCS {
    fn default() -> (r: Self)
        ensures
            r.spec_cert() == Seq::<u8>::empty(),
            r.spec_pkey() == Seq::<u8>::empty(),
            r.spec_roots() == Seq::<Seq<u8>>::empty(),
    {
        PKCS::new()
    }
}

impl PKCS {
    /// The signer's certificate as PEM bytes.
    pub closed spec fn spec_cert(&self) -> Seq<u8> {
        self.cert_bin@
    }

    /// The signer's private key as PEM bytes.
    pub closed spec fn spec_pkey(&self) -> Seq<u8> {
        self.pkey_bin@
    }

    /// The root certificates, each as PEM bytes.
    pub closed spec fn spec_roots(&self) -> Seq<Seq<u8>> {
        bins_view(self.root_ca_bins@)
    }

    /// Whether OpenSSL's memory buffers take the certificate, the key and
    /// every root certificate of the signer.
    pub open spec fn spec_fits_bio(&self) -> bool {
        fits_bio(self.spec_cert()) && fits_bio(self.spec_pkey()) && all_fit_bio(self.spec_roots())
    }

    /// A signer without certificate, key or roots.
    pub fn new() -> (r: Self)
        ensures
            r.spec_cert() == Seq::<u8>::empty(),
            r.spec_pkey() == Seq::<u8>::empty(),
            r.spec_roots() == Seq::<Seq<u8>>::empty(),
    {
        let r = PKCS { cert_bin: Vec::new(), pkey_bin: Vec::new(), root_ca_bins: Vec::new() };
        proof {
            assert(r.spec_roots() =~= Seq::<Seq<u8>>::empty());
        }
        r
    }

    /// Sets the certificate and the key, and adds the root certificates `cas`
    /// to those already held.
    pub fn load_writer(&mut self, cert: Vec<u8>, pkey: Vec<u8>, cas: Vec<Vec<u8>>)
        ensures
            final(self).spec_cert() == cert@,
            final(self).spec_pkey() == pkey@,
            final(self).spec_roots() == old(self).spec_roots() + Seq::new(
                cas@.len(),
                |i: int| cas@[i]@,
            ),
    {
        self.cert_bin = cert;
        self.pkey_bin = pkey;
        self.load_reader(cas);
    }

    /// Adds the root certificates `cas` to those already held.
    pub fn load_reader(&mut self, cas: Vec<Vec<u8>>)
        ensures
            final(self).spec_cert() == old(self).spec_cert(),
            final(self).spec_pkey() == old(self).spec_pkey(),
            final(self).spec_roots() == old(self).spec_roots() + Seq::new(
                cas@.len(),
                |i: int| cas@[i]@,
            ),
    {
        let ghost before = self.spec_roots();
        let mut cas = cas;
        let ghost added = Seq::new(cas@.len(), |i: int| cas@[i]@);
        self.root_ca_bins.append(&mut cas);
        proof {
            assert(self.spec_roots() =~= before + added);
        }
    }

    /// The SHA-256 digest of `bin`: 32 bytes.
    ///
    /// Fails where OpenSSL fails or hands out a digest of another length.
    pub fn gen_digest_256(&self, bin: &[u8]) -> (r: Result<Vec<u8>>)
        ensures
            r matches Ok(d) ==> d@ == sha256(bin@) && d@.len() == DIGEST_LEN,
            r matches Err(e) ==> e is Other,
    {
        match openssl_sha256(bin) {
            Ok(d) => {
                if d.len() == DIGEST_LEN {
                    Ok(d)
                } else {
                    Err(CrateSpecError::Other(String::from_str("the digest is not 32 bytes long")))
                }
            },
            Err(m) => Err(CrateSpecError::Other(m)),
        }
    }

    /// Signs `message` with the signer's certificate and key and returns the
    /// signature in S/MIME form.
    ///
    /// What is too long for OpenSSL is refused before OpenSSL is asked: the
    /// certificate, the key or a root certificate with a parse error, the
    /// message with a signature error. Else fails with a parse error where
    /// the certificate, the key or a root certificate does not parse, with a
    /// signature error where signing fails, with another error where OpenSSL
    /// cannot set up its stores.
    pub fn encode_pkcs_bin(&self, message: &[u8]) -> (r: Result<Vec<u8>>)
        ensures
            !self.spec_fits_bio() ==> (r matches Err(e) && e is ParseError),
            self.spec_fits_bio() && !fits_bio(message@) ==> (r matches Err(e)
                && e is SignatureError),
            r matches Err(e) ==> e is ParseError || e is SignatureError || e is Other,
    {
        if self.cert_bin.len() > MAX_BIO_LEN {
            return Err(CrateSpecError::ParseError(String::from_str("certificate too long")));
        }
        if self.pkey_bin.len() > MAX_BIO_LEN {
            return Err(CrateSpecError::ParseError(String::from_str("private key too long")));
        }
        if !bins_fit(self.root_ca_bins.as_slice()) {
            return Err(CrateSpecError::ParseError(String::from_str("root certificate too long")));
        }
        if message.len() > MAX_BIO_LEN {
            return Err(CrateSpecError::SignatureError(String::from_str("message too long")));
        }
        let cert = match x509_from_pem(self.cert_bin.as_slice()) {
            Ok(c) => c,
            Err(m) => {
                return Err(CrateSpecError::ParseError(m));
            },
        };
        let certs = match x509_stack_new() {
            Ok(s) => s,
            Err(m) => {
                return Err(CrateSpecError::Other(m));
            },
        };
        let pkey = match private_key_from_pem(self.pkey_bin.as_slice()) {
            Ok(k) => k,
            Err(m) => {
                return Err(CrateSpecError::ParseError(m));
            },
        };
        let _store = match build_store(self.root_ca_bins.as_slice()) {
            Ok(s) => s,
            Err(e) => {
                return Err(e);
            },
        };
        let pkcs7 = match pkcs7_sign(&cert, &pkey, &certs, message) {
            Ok(p) => p,
            Err(m) => {
                return Err(CrateSpecError::SignatureError(m));
            },
        };
        match pkcs7_to_smime(&pkcs7, message) {
            Ok(out) => Ok(out),
            Err(m) => Err(CrateSpecError::SignatureError(m)),
        }
    }

    /// Verifies the S/MIME signature `signed_bin` against the root
    /// certificates and returns the content that it encloses.
    ///
    /// A signature or a root certificate that is too long for OpenSSL is
    /// refused with a parse error before OpenSSL is asked. Else fails with a
    /// parse error where a root certificate or the signature does not
    /// parse, with a signature error where the signature does not verify,
    /// with another error where OpenSSL cannot set up its stores.
    pub fn decode_pkcs_bin(signed_bin: &[u8], root_ca_bins: &[Vec<u8>]) -> (r: Result<Vec<u8>>)
        ensures
            !fits_bio(signed_bin@) || !all_fit_bio(bins_view(root_ca_bins@)) ==> (r matches Err(e)
                && e is ParseError),
            r matches Err(e) ==> e is ParseError || e is SignatureError || e is Other,
    {
        if signed_bin.len() > MAX_BIO_LEN {
            return Err(CrateSpecError::ParseError(String::from_str("signature too long")));
        }
        if !bins_fit(root_ca_bins) {
            return Err(CrateSpecError::ParseError(String::from_str("root certificate too long")));
        }
        let certs = match x509_stack_new() {
            Ok(s) => s,
            Err(m) => {
                return Err(CrateSpecError::Other(m));
            },
        };
        let store = match build_store(root_ca_bins) {
            Ok(s) => s,
            Err(e) => {
                return Err(e);
            },
        };
        let pkcs7 = match pkcs7_from_smime(signed_bin) {
            Ok(p) => p,
            Err(m) => {
                return Err(CrateSpecError::ParseError(m));
            },
        };
        match pkcs7_verify(&pkcs7, &certs, &store) {
            Ok(out) => Ok(out),
            Err(m) => Err(CrateSpecError::SignatureError(m)),
        }
    }
}

} // verus!
