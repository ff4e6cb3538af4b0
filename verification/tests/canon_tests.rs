use crate_spec::error::CrateSpecError;
use crate_spec::utils::context::PackageContext;
use crate_spec::utils::package::CratePackage;
use crate_spec::utils::section::{
    CrateBinarySection, DataSection, DepTableSection, PackageSection, SigStructureSection,
};

fn sections(sigs: Vec<(u32, Vec<u8>)>) -> Vec<DataSection> {
    let mut v = vec![
        DataSection::PackageSection(PackageSection { pkg_name: 4, pkg_version: 11, pkg_license: 0, pkg_authors: vec![] }),
        DataSection::DepTableSection(DepTableSection { entries: vec![] }),
        DataSection::CrateBinarySection(CrateBinarySection { bin: vec![1, 2, 3] }),
    ];
    for (t, sig) in sigs {
        v.push(DataSection::SigStructureSection(SigStructureSection {
            sigstruct_type: t,
            sigstruct_size: sig.len() as u32,
            sigstruct_sig: sig,
        }));
    }
    v
}

#[test]
fn signed_region_masks_the_signature_entries() {
    let pkg = CratePackage::assemble(sections(vec![(1, vec![9, 9])]), vec![0u8, 0, 0, 0]).unwrap();
    let bytes = pkg.encode_to_vec();
    let ctx = PackageContext::new();
    let region = ctx.binary_before_sig(&pkg, &bytes);
    // header, four index entries, the three unsigned sections
    assert_eq!(region.len(), 30 + 48 + 27);
    assert_eq!(&region[..66], &bytes[..66]);
    assert_eq!(&region[66..78], &[0u8; 12]);
    assert_ne!(&bytes[66..78], &[0u8; 12]);
    assert_eq!(&region[78..], &bytes[78..105]);
}

#[test]
fn signed_region_does_not_depend_on_what_the_signatures_hold() {
    let table = vec![0u8, 0, 0, 0];
    let empty = CratePackage::assemble(sections(vec![(0, vec![]), (1, vec![])]), table.clone()).unwrap();
    let mut filled = CratePackage::assemble(
        sections(vec![(0, vec![1, 2, 3, 4]), (1, vec![7; 500])]),
        table,
    )
    .unwrap();
    filled.finger_print = vec![0xee; 32];
    let ctx = PackageContext::new();
    let a = ctx.binary_before_sig(&empty, &empty.encode_to_vec());
    let b = ctx.binary_before_sig(&filled, &filled.encode_to_vec());
    assert_eq!(a, b);
    assert_eq!(a, ctx.binary_before_sig(&empty, &empty.encode_body()));
}

#[test]
fn binary_before_digest_drops_the_fingerprint() {
    let ctx = PackageContext::new();
    let mut bin = vec![5u8; 40];
    bin[7] = 1;
    assert_eq!(ctx.binary_before_digest(&bin), bin[..8].to_vec());
}

#[test]
fn signed_region_does_not_depend_on_the_records_of_the_context() {
    let pkg = CratePackage::assemble(sections(vec![(1, vec![9, 9])]), vec![0u8, 0, 0, 0]).unwrap();
    let bytes = pkg.encode_to_vec();
    let empty = PackageContext::new();
    let mut crowded = PackageContext::new();
    for _ in 0..3 {
        crowded.add_sig(crate_spec::utils::pkcs::PKCS::new(), crate_spec::utils::context::SIGTYPE::FILE);
    }
    assert_eq!(empty.binary_before_sig(&pkg, &bytes), crowded.binary_before_sig(&pkg, &bytes));
}

#[test]
fn fingerprint_is_checked_on_its_own() {
    let pkg = CratePackage::assemble(sections(vec![]), vec![0u8, 0, 0, 0]).unwrap();
    let mut bytes = pkg.encode_to_vec();
    let ctx = PackageContext::new();
    assert_eq!(ctx.check_fingerprint(&bytes).unwrap(), false);
    let body = bytes.len() - 32;
    let digest = crate_spec::utils::pkcs::PKCS::new().gen_digest_256(&bytes[..body]).unwrap();
    bytes[body..].copy_from_slice(&digest);
    assert_eq!(ctx.check_fingerprint(&bytes).unwrap(), true);
    bytes[0] ^= 1;
    assert_eq!(ctx.check_fingerprint(&bytes).unwrap(), false);
    assert_eq!(ctx.check_fingerprint(&bytes[..31]).unwrap(), false);
    assert_eq!(ctx.check_fingerprint(&[]).unwrap(), false);
    match ctx.require_fingerprint(&bytes) {
        Err(CrateSpecError::DecodeError(m)) => assert_eq!(m, "fingerprint mismatch"),
        other => panic!("expected a decode error, got {:?}", other),
    }
    match ctx.require_fingerprint(&bytes[..31]) {
        Err(CrateSpecError::DecodeError(m)) => assert_eq!(m, "container too short"),
        other => panic!("expected a decode error, got {:?}", other),
    }
    bytes[0] ^= 1;
    assert!(ctx.require_fingerprint(&bytes).is_ok());
}

#[test]
fn integers_on_the_wire_byte_by_byte() {
    let mut out = Vec::new();
    crate_spec::utils::wire::put_le32(&mut out, 0xdead_beef);
    assert_eq!(out, vec![0xef, 0xbe, 0xad, 0xde]);
    assert_eq!(crate_spec::utils::wire::get_le32(&out, 0), 0xdead_beef);
    let mut out = Vec::new();
    crate_spec::utils::wire::put_le32(&mut out, 1);
    assert_eq!(out, vec![1, 0, 0, 0]);
}
