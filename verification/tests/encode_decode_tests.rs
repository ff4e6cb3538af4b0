use crate_spec::error::CrateSpecError;
use crate_spec::network::{BaseConfig, KeyPair, PkiClient};
use crate_spec::utils::context::{DepInfo, PackageContext, PackageInfo, SrcTypePath, SIGTYPE};
use crate_spec::utils::decode::RemoteVerdict;
use crate_spec::utils::package::CratePackage;
use crate_spec::utils::pkcs::PKCS;
use crate_spec::utils::section::{
    CrateBinarySection, DataSection, DepTableSection, PackageSection,
};
use openssl::asn1::Asn1Time;
use openssl::bn::BigNum;
use openssl::hash::MessageDigest;
use openssl::pkey::{PKey, Private};
use openssl::rsa::Rsa;
use openssl::x509::extension::{BasicConstraints, KeyUsage};
use openssl::x509::{X509NameBuilder, X509};

fn new_key() -> PKey<Private> {
    PKey::from_rsa(Rsa::generate(2048).unwrap()).unwrap()
}

fn certificate(
    common_name: &str,
    serial: u32,
    key: &PKey<Private>,
    issuer: Option<(&X509, &PKey<Private>)>,
) -> X509 {
    let mut name = X509NameBuilder::new().unwrap();
    name.append_entry_by_text("CN", common_name).unwrap();
    let name = name.build();
    let mut builder = X509::builder().unwrap();
    builder.set_version(2).unwrap();
    let serial = BigNum::from_u32(serial).unwrap().to_asn1_integer().unwrap();
    builder.set_serial_number(&serial).unwrap();
    builder.set_subject_name(&name).unwrap();
    builder.set_pubkey(key).unwrap();
    builder.set_not_before(&Asn1Time::days_from_now(0).unwrap()).unwrap();
    builder.set_not_after(&Asn1Time::days_from_now(30).unwrap()).unwrap();
    match issuer {
        None => {
            builder.set_issuer_name(&name).unwrap();
            builder
                .append_extension(BasicConstraints::new().critical().ca().build().unwrap())
                .unwrap();
            builder
                .append_extension(
                    KeyUsage::new().critical().key_cert_sign().crl_sign().build().unwrap(),
                )
                .unwrap();
            builder.sign(key, MessageDigest::sha256()).unwrap();
        }
        Some((ca, ca_key)) => {
            builder.set_issuer_name(ca.subject_name()).unwrap();
            builder
                .append_extension(
                    KeyUsage::new().critical().digital_signature().build().unwrap(),
                )
                .unwrap();
            builder.sign(ca_key, MessageDigest::sha256()).unwrap();
        }
    }
    builder.build()
}

struct Chain {
    cert: Vec<u8>,
    key: Vec<u8>,
    root: Vec<u8>,
}

fn chain() -> Chain {
    let ca_key = new_key();
    let ca = certificate("test root", 1, &ca_key, None);
    let key = new_key();
    let cert = certificate("test signer", 2, &key, Some((&ca, &ca_key)));
    Chain {
        cert: cert.to_pem().unwrap(),
        key: key.private_key_to_pem_pkcs8().unwrap(),
        root: ca.to_pem().unwrap(),
    }
}

fn signer(chain: &Chain) -> PKCS {
    let mut pkcs = PKCS::new();
    pkcs.load_writer(chain.cert.clone(), chain.key.clone(), vec![chain.root.clone()]);
    pkcs
}

fn pack_info() -> PackageInfo {
    PackageInfo {
        name: "rust-crate".to_string(),
        version: "1.0.0".to_string(),
        license: "MIT".to_string(),
        authors: vec!["shuibing".to_string(), "rust".to_string()],
    }
}

fn dep_info1() -> DepInfo {
    DepInfo {
        name: "toml".to_string(),
        ver_req: "1.0.0".to_string(),
        src: SrcTypePath::CratesIo,
        src_platform: "ALL".to_string(),
        dump: true,
    }
}

fn dep_info2() -> DepInfo {
    DepInfo {
        name: "crate-spec".to_string(),
        ver_req: ">=0.8.0".to_string(),
        src: SrcTypePath::Git("http://git.com".to_string()),
        src_platform: "windows".to_string(),
        dump: true,
    }
}

fn crate_binary() -> Vec<u8> {
    vec![0u8; 100]
}

#[test]
fn test_encode_decode() {
    let chain = chain();
    let mut package_context = PackageContext::new();

    package_context.pack_info = pack_info();
    package_context.dep_infos.push(dep_info1());
    package_context.dep_infos.push(dep_info2());
    package_context.crate_binary.bytes = crate_binary();
    package_context.add_sig(signer(&chain), SIGTYPE::CRATEBIN);
    package_context.add_sig(signer(&chain), SIGTYPE::FILE);

    let (_crate_package, _str_table, bin) = package_context.encode_to_crate_package().unwrap();

    let mut package_context_new = PackageContext::new();
    package_context_new.set_root_cas_bin(vec![chain.root.clone()]);
    let (_crate_package_new, _str_table) = package_context_new
        .decode_from_crate_package(bin.as_slice())
        .unwrap();

    assert_eq!(pack_info(), package_context_new.pack_info);
    assert_eq!(dep_info1(), package_context_new.dep_infos[0]);
    assert_eq!(dep_info2(), package_context_new.dep_infos[1]);
    assert_eq!(crate_binary(), package_context_new.crate_binary.bytes);
}

fn foo_context(chain: &Chain, types: Vec<SIGTYPE>) -> PackageContext {
    let mut ctx = PackageContext::new();
    ctx.set_package_info(
        "foo".to_string(),
        "0.1.0".to_string(),
        "MIT".to_string(),
        vec!["a".to_string()],
    );
    ctx.add_dep_info("bar".to_string(), "1.0".to_string(), SrcTypePath::CratesIo, String::new());
    ctx.add_crate_bin(vec![0u8; 100]);
    for t in types {
        ctx.add_sig(signer(chain), t);
    }
    ctx
}

fn sha256(data: &[u8]) -> Vec<u8> {
    openssl::hash::hash(MessageDigest::sha256(), data).unwrap().to_vec()
}

fn with_fresh_fingerprint(mut bin: Vec<u8>) -> Vec<u8> {
    let body = bin.len() - 32;
    let digest = sha256(&bin[..body]);
    bin[body..].copy_from_slice(&digest);
    bin
}

#[test]
fn local_crate_binary_signature_round_trip() {
    let chain = chain();
    let mut ctx = foo_context(&chain, vec![SIGTYPE::CRATEBIN]);
    let (pkg, table, bin) = ctx.encode_to_crate_package().unwrap();
    assert_eq!(crate_spec::pack::pack_name(&ctx), "foo-0.1.0.scrate");
    assert_eq!(bin, pkg.encode_to_vec());
    assert_eq!(pkg.string_table, table.to_bytes());
    assert_eq!(pkg.data_sections.len(), 4);
    assert_eq!(ctx.sigs[0].size, ctx.sigs[0].bin.len());
    assert!(!ctx.sigs[0].bin.is_empty());

    let mut back = PackageContext::new();
    back.set_root_cas_bin(vec![chain.root.clone()]);
    back.decode_from_crate_package(&bin).unwrap();
    assert_eq!(back.pack_info, ctx.pack_info);
    assert_eq!(back.dep_infos, ctx.dep_infos);
    assert_eq!(back.crate_binary, ctx.crate_binary);
    assert_eq!(back.sigs.len(), 1);
    assert_eq!(back.sigs[0].typ, 1);
    assert_eq!(back.sigs[0].bin, ctx.sigs[0].bin);
}

#[test]
fn mixed_signatures_verify_and_detect_a_changed_archive() {
    let chain = chain();
    let mut ctx = foo_context(&chain, vec![SIGTYPE::FILE, SIGTYPE::CRATEBIN]);
    let (pkg, _table, bin) = ctx.encode_to_crate_package().unwrap();

    let mut back = PackageContext::new();
    back.set_root_cas_bin(vec![chain.root.clone()]);
    back.decode_from_crate_package(&bin).unwrap();
    assert_eq!(back.sigs.len(), 2);
    assert_eq!(back.sigs[0].typ, 0);
    assert_eq!(back.sigs[1].typ, 1);

    let archive_at = pkg.section_index.entries[2].sh_offset as usize + 4;
    let mut changed = bin.clone();
    changed[archive_at + 50] ^= 0x01;
    let changed = with_fresh_fingerprint(changed);
    let mut victim = PackageContext::new();
    victim.set_root_cas_bin(vec![chain.root.clone()]);
    match victim.decode_from_crate_package(&changed) {
        Err(CrateSpecError::SignatureError(_)) => {}
        other => panic!("expected a signature error, got {:?}", other.map(|_| ())),
    }
}

#[test]
fn file_signature_covers_the_header_and_the_unsigned_index() {
    let chain = chain();
    let mut ctx = foo_context(&chain, vec![SIGTYPE::FILE]);
    let (pkg, _table, bin) = ctx.encode_to_crate_package().unwrap();
    // a byte of the package section lies in the signed region
    let at = pkg.section_index.entries[0].sh_offset as usize + 12;
    let mut changed = bin.clone();
    changed[at] ^= 0x01;
    let changed = with_fresh_fingerprint(changed);
    let mut victim = PackageContext::new();
    victim.set_root_cas_bin(vec![chain.root.clone()]);
    assert!(victim.decode_from_crate_package(&changed).is_err());
}

#[test]
fn fingerprint_tamper_is_a_decode_error() {
    let chain = chain();
    let mut ctx = foo_context(&chain, vec![SIGTYPE::CRATEBIN]);
    let (_pkg, _table, mut bin) = ctx.encode_to_crate_package().unwrap();
    let last = bin.len() - 33;
    bin[last] ^= 0xff;
    let mut victim = PackageContext::new();
    victim.set_root_cas_bin(vec![chain.root.clone()]);
    match victim.decode_from_crate_package(&bin) {
        Err(CrateSpecError::DecodeError(m)) => assert_eq!(m, "fingerprint mismatch"),
        other => panic!("expected a decode error, got {:?}", other.map(|_| ())),
    }
}

#[test]
fn signature_of_another_root_is_rejected() {
    let chain = chain();
    let other = chain_other();
    let mut ctx = foo_context(&chain, vec![SIGTYPE::CRATEBIN]);
    let (_pkg, _table, bin) = ctx.encode_to_crate_package().unwrap();
    let mut victim = PackageContext::new();
    victim.set_root_cas_bin(vec![other]);
    match victim.decode_from_crate_package(&bin) {
        Err(CrateSpecError::SignatureError(_)) => {}
        other => panic!("expected a signature error, got {:?}", other.map(|_| ())),
    }
}

fn chain_other() -> Vec<u8> {
    let ca_key = new_key();
    certificate("another root", 7, &ca_key, None).to_pem().unwrap()
}

#[test]
fn container_without_signatures_round_trips() {
    let chain = chain();
    let mut ctx = foo_context(&chain, vec![]);
    let (pkg, _table, bin) = ctx.encode_to_crate_package().unwrap();
    assert_eq!(pkg.data_sections.len(), 3);
    let parsed = CratePackage::decode_from_slice(&bin).unwrap();
    assert_eq!(parsed.encode_to_vec(), bin);
    let mut back = PackageContext::new();
    back.decode_from_crate_package(&bin).unwrap();
    assert_eq!(back.pack_info, ctx.pack_info);
    assert_eq!(back.dep_infos, ctx.dep_infos);
    assert_eq!(back.crate_binary, ctx.crate_binary);
}

#[test]
fn dependencies_not_marked_for_writing_are_left_out() {
    let chain = chain();
    let mut ctx = foo_context(&chain, vec![]);
    ctx.dep_infos.push(DepInfo::new(
        "hidden".to_string(),
        "2".to_string(),
        SrcTypePath::CratesIo,
        String::new(),
        false,
    ));
    ctx.add_dep_info(
        "last".to_string(),
        "3".to_string(),
        SrcTypePath::Registry("https://r.example".to_string()),
        "linux".to_string(),
    );
    let (_pkg, table, bin) = ctx.encode_to_crate_package().unwrap();
    assert!(!table.contains_str(&"hidden".to_string()));
    let mut back = PackageContext::new();
    back.decode_from_crate_package(&bin).unwrap();
    assert_eq!(back.dep_infos.len(), 2);
    assert_eq!(back.dep_infos[0], ctx.dep_infos[0]);
    assert_eq!(back.dep_infos[1], ctx.dep_infos[2]);
}

#[test]
fn encode_needs_a_name_and_a_version() {
    let mut ctx = PackageContext::new();
    match ctx.encode_to_crate_package() {
        Err(CrateSpecError::EncodeError(m)) => assert_eq!(m, "the package has no name"),
        other => panic!("expected an encode error, got {:?}", other.map(|_| ())),
    }
    ctx.set_package_info("foo".to_string(), String::new(), String::new(), vec![]);
    match ctx.encode_to_crate_package() {
        Err(CrateSpecError::EncodeError(m)) => assert_eq!(m, "the package has no version"),
        other => panic!("expected an encode error, got {:?}", other.map(|_| ())),
    }
}

#[test]
fn signer_without_certificate_fails_to_sign() {
    let mut ctx = PackageContext::new();
    ctx.set_package_info("foo".to_string(), "0.1.0".to_string(), String::new(), vec![]);
    ctx.add_sig(PKCS::new(), SIGTYPE::CRATEBIN);
    match ctx.encode_to_crate_package() {
        Err(CrateSpecError::ParseError(_)) => {}
        other => panic!("expected a parse error, got {:?}", other.map(|_| ())),
    }
}

#[test]
fn short_file_is_a_decode_error() {
    let mut ctx = PackageContext::new();
    match ctx.decode_from_crate_package(&[0u8; 31]) {
        Err(CrateSpecError::DecodeError(m)) => assert_eq!(m, "container too short"),
        other => panic!("expected a decode error, got {:?}", other.map(|_| ())),
    }
}

fn sealed(sections: Vec<DataSection>, table: Vec<u8>) -> Vec<u8> {
    let mut pkg = CratePackage::assemble(sections, table).unwrap();
    let digest = sha256(&pkg.encode_body());
    pkg.set_fingerprint(digest).unwrap();
    pkg.encode_to_vec()
}

fn plain_sections() -> Vec<DataSection> {
    vec![
        DataSection::PackageSection(PackageSection { pkg_name: 0, pkg_version: 0, pkg_license: 0, pkg_authors: vec![] }),
        DataSection::DepTableSection(DepTableSection { entries: vec![] }),
        DataSection::CrateBinarySection(CrateBinarySection { bin: vec![1] }),
    ]
}

#[test]
fn string_table_must_start_with_the_empty_string() {
    let bin = sealed(plain_sections(), vec![1, 0, 0, 0, b'x']);
    let mut ctx = PackageContext::new();
    match ctx.decode_from_crate_package(&bin) {
        Err(CrateSpecError::DecodeError(m)) => {
            assert_eq!(m, "the string table does not start with the empty string")
        }
        other => panic!("expected a decode error, got {:?}", other.map(|_| ())),
    }
    let bin = sealed(plain_sections(), vec![0, 0, 0, 0, 1, 0, 0, 0, b'x']);
    let mut ctx = PackageContext::new();
    ctx.decode_from_crate_package(&bin).unwrap();
    assert_eq!(ctx.pack_info.name, "");
    assert_eq!(ctx.crate_binary.bytes, vec![1]);
}

#[test]
fn offsets_that_start_no_entry_are_decode_errors() {
    let mut sections = plain_sections();
    sections[0] = DataSection::PackageSection(PackageSection { pkg_name: 2, pkg_version: 0, pkg_license: 0, pkg_authors: vec![] });
    let bin = sealed(sections, vec![0, 0, 0, 0, 1, 0, 0, 0, b'x']);
    let mut ctx = PackageContext::new();
    match ctx.decode_from_crate_package(&bin) {
        Err(CrateSpecError::DecodeError(m)) => assert_eq!(m, "unknown offset"),
        other => panic!("expected a decode error, got {:?}", other.map(|_| ())),
    }
}

#[test]
fn container_without_a_required_section_is_a_decode_error() {
    let mut sections = plain_sections();
    sections.remove(1);
    let bin = sealed(sections, vec![0, 0, 0, 0]);
    let mut ctx = PackageContext::new();
    match ctx.decode_from_crate_package(&bin) {
        Err(CrateSpecError::DecodeError(m)) => assert_eq!(m, "no section of type 1"),
        other => panic!("expected a decode error, got {:?}", other.map(|_| ())),
    }
}

fn reader(root: Vec<u8>) -> PackageContext {
    let mut back = PackageContext::new();
    back.set_root_cas_bin(vec![root]);
    back.network_client = Some(PkiClient::new("http://pki.example".to_string(), 3, 250).unwrap());
    back
}

#[test]
fn a_local_and_a_network_signature_side_by_side() {
    let chain = chain();
    let mut ctx = foo_context(&chain, vec![SIGTYPE::CRATEBIN]);
    ctx.network_keypair = Some(KeyPair {
        priv_key: "PRIV".to_string(),
        pub_key: "PUB".to_string(),
        key_id: "k1".to_string(),
        base_config: BaseConfig {
            algo: "sm2".to_string(),
            kms: String::new(),
            flow: "classic".to_string(),
        },
    });
    let network = ctx.add_sig(PKCS::new(), SIGTYPE::NETWORK);
    ctx.set_network_signature(network, "deadbeef".to_string()).unwrap();
    let (_pkg, _table, bin) = ctx.encode_to_crate_package().unwrap();

    let mut back = reader(chain.root.clone());
    back.decode_with_verdicts(&bin, &[RemoteVerdict::Accepted]).unwrap();
    assert_eq!(back.pack_info, ctx.pack_info);
    assert_eq!(back.crate_binary, ctx.crate_binary);
    assert_eq!((back.sigs[0].typ, back.sigs[1].typ), (1, 2));
    assert_eq!(back.sigs[1].pub_key, Some("PUB".to_string()));

    // the one verdict is that of the network signature, whatever stands before it
    assert!(matches!(
        reader(chain.root.clone()).decode_with_verdicts(&bin, &[RemoteVerdict::Rejected]),
        Err(CrateSpecError::SignatureError(_))
    ));
    assert!(matches!(
        reader(chain.root.clone()).decode_with_verdicts(&bin, &[RemoteVerdict::Failed("down".to_string())]),
        Err(CrateSpecError::PkiError(_))
    ));
    assert!(matches!(
        reader(chain.root.clone()).decode_with_verdicts(&bin, &[]),
        Err(CrateSpecError::Other(_))
    ));
    // a local signature that does not hold ends the check before the service counts
    assert!(matches!(
        reader(chain_other()).decode_with_verdicts(&bin, &[RemoteVerdict::Failed("down".to_string())]),
        Err(CrateSpecError::SignatureError(_))
    ));
}

#[test]
fn a_local_signature_that_cannot_be_read_is_a_signature_error() {
    let chain = chain();
    let mut ctx = foo_context(&chain, vec![SIGTYPE::CRATEBIN]);
    let (mut pkg, _table, _bin) = ctx.encode_to_crate_package().unwrap();
    pkg.place_signature(3, b"no signature at all".to_vec()).unwrap();
    let digest = sha256(&pkg.encode_body());
    pkg.set_fingerprint(digest).unwrap();
    let bin = pkg.encode_to_vec();
    let mut back = PackageContext::new();
    back.set_root_cas_bin(vec![chain.root.clone()]);
    assert!(matches!(
        back.decode_from_crate_package(&bin),
        Err(CrateSpecError::SignatureError(_))
    ));
    // so is one that is checked against roots that cannot be read
    let mut back = PackageContext::new();
    back.set_root_cas_bin(vec![b"no certificate".to_vec()]);
    let (_pkg, _table, bin) = foo_context(&chain, vec![SIGTYPE::FILE]).encode_to_crate_package().unwrap();
    assert!(matches!(
        back.decode_from_crate_package(&bin),
        Err(CrateSpecError::SignatureError(_))
    ));
}

#[test]
fn what_the_local_signatures_enclose_decides_the_decoding() {
    let chain = chain();
    let mut ctx = foo_context(&chain, vec![SIGTYPE::FILE, SIGTYPE::CRATEBIN]);
    let (pkg, _table, bin) = ctx.encode_to_crate_package().unwrap();
    let file_digest = sha256(&PackageContext::new().binary_before_sig(&pkg, &bin));
    let archive_digest = sha256(&[0u8; 100]);
    let good = vec![Ok(file_digest.clone()), Ok(archive_digest.clone())];

    let mut back = PackageContext::new();
    back.decode_with_results(&bin, &good, &[]).unwrap();
    assert_eq!(back.pack_info, ctx.pack_info);
    assert_eq!(back.crate_binary, ctx.crate_binary);

    let swapped = vec![Ok(archive_digest.clone()), Ok(file_digest.clone())];
    assert!(matches!(
        PackageContext::new().decode_with_results(&bin, &swapped, &[]),
        Err(CrateSpecError::SignatureError(_))
    ));
    let unverified = vec![Ok(file_digest.clone()), Err(CrateSpecError::ParseError("x".to_string()))];
    assert!(matches!(
        PackageContext::new().decode_with_results(&bin, &unverified, &[]),
        Err(CrateSpecError::SignatureError(_))
    ));
    assert!(matches!(
        PackageContext::new().decode_with_results(&bin, &[], &[]),
        Err(CrateSpecError::Other(_))
    ));

    // a changed archive: the signatures still enclose the digests that were signed
    let archive_at = pkg.section_index.entries[2].sh_offset as usize + 4;
    let mut changed = bin.clone();
    changed[archive_at + 50] ^= 0x01;
    let changed = with_fresh_fingerprint(changed);
    assert!(matches!(
        PackageContext::new().decode_with_results(&changed, &good, &[]),
        Err(CrateSpecError::SignatureError(_))
    ));
    // a file signature alone tells as much, a fingerprint does not
    let mut file_only = foo_context(&chain, vec![SIGTYPE::FILE]);
    let (pkg, _table, bin) = file_only.encode_to_crate_package().unwrap();
    let signed = vec![Ok(sha256(&PackageContext::new().binary_before_sig(&pkg, &bin)))];
    PackageContext::new().decode_with_results(&bin, &signed, &[]).unwrap();
    let mut changed = bin.clone();
    changed[archive_at + 50] ^= 0x01;
    assert!(matches!(
        PackageContext::new().decode_with_results(&with_fresh_fingerprint(changed), &signed, &[]),
        Err(CrateSpecError::SignatureError(_))
    ));
}

#[test]
fn a_file_that_holds_no_container_is_a_decode_error() {
    let body = vec![7u8; 40];
    let mut bin = body.clone();
    bin.extend(sha256(&body));
    assert!(matches!(
        PackageContext::new().decode_from_crate_package(&bin),
        Err(CrateSpecError::DecodeError(_))
    ));
    assert!(matches!(
        PackageContext::new().decode_with_results(&bin, &[], &[]),
        Err(CrateSpecError::DecodeError(_))
    ));
}

#[test]
fn a_container_without_signatures_has_no_signature_structure() {
    let bin = sealed(plain_sections(), vec![0, 0, 0, 0]);
    let pkg = CratePackage::decode_from_slice(&bin).unwrap();
    assert!(matches!(pkg.sig_structure_section(0), Err(CrateSpecError::DecodeError(_))));
    assert!(matches!(pkg.sig_structure_section(7), Err(CrateSpecError::DecodeError(_))));
}
