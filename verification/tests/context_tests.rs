use crate_spec::error::CrateSpecError;
use crate_spec::utils::context::{
    CrateBinary, DepInfo, PackageContext, PackageInfo, SigInfo, SrcTypePath, DATASECTIONTYPE,
    NOT_SIG_NUM, SIGTYPE,
};
use crate_spec::utils::pkcs::PKCS;
use crate_spec::utils::section::{
    CrateBinarySection, DepTableEntry, PackageSection, SigStructureSection,
};
use crate_spec::utils::decode::covered;
use crate_spec::utils::strtab::{add_entry_size, cap_add, StringTable};

#[test]
fn type_numbers() {
    assert_eq!(SIGTYPE::FILE.as_u32(), 0);
    assert_eq!(SIGTYPE::CRATEBIN.as_u32(), 1);
    assert_eq!(SIGTYPE::NETWORK.as_u32(), 2);
    assert_eq!(DATASECTIONTYPE::PACK.as_u8(), 0);
    assert_eq!(DATASECTIONTYPE::DEPTABLE.as_u8(), 1);
    assert_eq!(DATASECTIONTYPE::CRATEBIN.as_u8(), 3);
    assert_eq!(DATASECTIONTYPE::SIGSTRUCTURE.as_u8(), 4);
    assert_eq!(NOT_SIG_NUM, 3);
}

#[test]
fn source_types() {
    let all = [
        (SrcTypePath::CratesIo, 0u8, ""),
        (SrcTypePath::Git("g".to_string()), 1, "g"),
        (SrcTypePath::Url("u".to_string()), 2, "u"),
        (SrcTypePath::Registry("r".to_string()), 3, "r"),
        (SrcTypePath::P2p("p".to_string()), 4, "p"),
    ];
    for (src, number, path) in all {
        assert_eq!(src.as_u8(), number);
        assert_eq!(src.path(), path);
        assert_eq!(SrcTypePath::from_u8_with_path(number, path.to_string()).unwrap(), src);
    }
    assert_eq!(
        SrcTypePath::from_u8_with_path(0, "dropped".to_string()).unwrap(),
        SrcTypePath::CratesIo
    );
    assert!(matches!(
        SrcTypePath::from_u8_with_path(5, String::new()),
        Err(CrateSpecError::DecodeError(_))
    ));
}

#[test]
fn package_info_to_and_from_its_section() {
    let info = PackageInfo::new(
        "foo".to_string(),
        "0.1.0".to_string(),
        "MIT".to_string(),
        vec!["a".to_string(), "foo".to_string()],
    );
    let mut table = StringTable::new();
    let mut ps = PackageSection::new();
    info.write_to_package_section(&mut ps, &mut table);
    assert_eq!((ps.pkg_name, ps.pkg_version, ps.pkg_license), (4, 11, 20));
    assert_eq!(ps.pkg_authors, vec![27, 4]);
    assert_eq!(table.total_bytes(), 32);

    let mut back = PackageInfo::default();
    back.read_from_package_section(&ps, &table).unwrap();
    assert_eq!(back, info);
    // the authors are added to those already there
    back.read_from_package_section(&ps, &table).unwrap();
    assert_eq!(back.authors.len(), 4);

    let mut unchanged = PackageInfo::default();
    ps.pkg_authors.push(3);
    assert!(matches!(
        unchanged.read_from_package_section(&ps, &table),
        Err(CrateSpecError::DecodeError(_))
    ));
    assert_eq!(unchanged, PackageInfo::default());
}

#[test]
fn dep_info_to_and_from_its_entry() {
    let dep = DepInfo::new(
        "bar".to_string(),
        "1.0".to_string(),
        SrcTypePath::Git("http://git.com".to_string()),
        "windows".to_string(),
        true,
    );
    let mut table = StringTable::new();
    let mut entry = DepTableEntry::new();
    dep.write_to_dep_table_entry(&mut entry, &mut table);
    assert_eq!(entry.dep_name, 4);
    assert_eq!(entry.dep_verreq, 11);
    assert_eq!(entry.dep_srctype, 1);
    assert_eq!(entry.dep_srcpath, 18);
    assert_eq!(entry.dep_platform, 36);
    let mut back = DepInfo::default();
    back.read_from_dep_table_entry(&entry, &table).unwrap();
    assert_eq!(back, dep);

    let plain = DepInfo::new("x".to_string(), "2".to_string(), SrcTypePath::CratesIo, String::new(), true);
    plain.write_to_dep_table_entry(&mut entry, &mut table);
    assert_eq!((entry.dep_srctype, entry.dep_srcpath, entry.dep_platform), (0, 0, 0));
    back.read_from_dep_table_entry(&entry, &table).unwrap();
    assert_eq!(back, plain);

    entry.dep_srctype = 9;
    assert!(matches!(
        back.read_from_dep_table_entry(&entry, &table),
        Err(CrateSpecError::DecodeError(_))
    ));
    entry.dep_srctype = 0;
    entry.dep_name = 1;
    assert!(matches!(
        back.read_from_dep_table_entry(&entry, &table),
        Err(CrateSpecError::DecodeError(_))
    ));
    assert_eq!(back, plain);
}

#[test]
fn defaults() {
    let dep = DepInfo::default();
    assert_eq!(dep.name, "");
    assert_eq!(dep.ver_req, "default");
    assert_eq!(dep.src, SrcTypePath::CratesIo);
    assert_eq!(dep.src_platform, "default");
    assert!(dep.dump);
    assert_eq!(PackageInfo::default().name, "");
    assert_eq!(CrateBinary::default(), CrateBinary::new());
    let sig = SigInfo::default();
    assert_eq!((sig.typ, sig.size), (0, 0));
    assert!(sig.bin.is_empty() && sig.pub_key.is_none());
    let ctx = PackageContext::default();
    assert_eq!((ctx.dep_num(), ctx.sig_num()), (0, 0));
    assert!(PKCS::default() == PKCS::new());
}

#[test]
fn crate_binary_to_and_from_its_section() {
    let mut bin = CrateBinary::new();
    bin.set_bin(vec![1, 2, 3]);
    let mut section = CrateBinarySection::new();
    bin.write_to_crate_binary_section(&mut section);
    assert_eq!(section.bin, vec![1, 2, 3]);
    let mut back = CrateBinary::new();
    back.read_from_crate_biary_section(&section);
    assert_eq!(back, bin);
}

#[test]
fn signature_record_to_and_from_its_section() {
    let mut sig = SigInfo::new();
    sig.typ = 1;
    sig.size = 2;
    sig.bin = vec![8, 9];
    let mut section = SigStructureSection::new();
    sig.write_to_sig_structure_section(&mut section);
    assert_eq!(section.sigstruct_type, 1);
    assert_eq!(section.sigstruct_size, 2);
    assert_eq!(section.sigstruct_sig, vec![8, 9]);
    let mut back = SigInfo::new();
    back.read_from_sig_structure_section(&section).unwrap();
    assert_eq!((back.typ, back.size), (1, 2));
    assert_eq!(back.bin, vec![8, 9]);
    assert!(back.pub_key.is_none());

    section.sigstruct_type = 2;
    let mut untouched = SigInfo::new();
    assert!(matches!(
        untouched.read_from_sig_structure_section(&section),
        Err(CrateSpecError::DecodeError(_))
    ));
    assert_eq!(untouched.typ, 0);
}

#[test]
fn context_collects_what_it_is_given() {
    let mut ctx = PackageContext::new();
    ctx.set_package_info("n".to_string(), "v".to_string(), "l".to_string(), vec![]);
    ctx.add_dep_info("d".to_string(), "1".to_string(), SrcTypePath::CratesIo, "p".to_string());
    assert_eq!(ctx.dep_num(), 1);
    assert!(ctx.dep_infos[0].dump);
    assert_eq!(ctx.add_sig(PKCS::new(), SIGTYPE::FILE), 0);
    assert_eq!(ctx.add_sig(PKCS::new(), SIGTYPE::NETWORK), 1);
    assert_eq!(ctx.sig_num(), 2);
    assert_eq!(ctx.sigs[1].typ, 2);
    ctx.set_root_cas_bin(vec![vec![1]]);
    ctx.add_root_cas(vec![2]);
    assert_eq!(ctx.root_cas, vec![vec![1], vec![2]]);
    ctx.add_crate_bin(vec![7]);
    assert_eq!(ctx.crate_binary.bytes, vec![7]);
}

#[test]
fn errors_are_described_by_kind_and_message() {
    let e = CrateSpecError::SignatureError("fingerprint mismatch".to_string());
    assert_eq!(e.describe(), "signature error: fingerprint mismatch");
    assert_eq!(e.kind(), "signature error");
    assert_eq!(e.message(), "fingerprint mismatch");
    let kinds = [
        (CrateSpecError::Io("m".to_string()), "io error"),
        (CrateSpecError::FileNotFound("m".to_string()), "file not found"),
        (CrateSpecError::ConfigError("m".to_string()), "config error"),
        (CrateSpecError::ValidationError("m".to_string()), "validation error"),
        (CrateSpecError::NetworkError("m".to_string()), "network error"),
        (CrateSpecError::PkiError("m".to_string()), "pki error"),
        (CrateSpecError::DecodeError("m".to_string()), "decode error"),
        (CrateSpecError::EncodeError("m".to_string()), "encode error"),
        (CrateSpecError::ParseError("m".to_string()), "parse error"),
        (CrateSpecError::Other("m".to_string()), "error"),
    ];
    for (e, kind) in kinds {
        assert_eq!(e.kind(), kind);
        assert_eq!(e.describe(), format!("{}: m", kind));
    }
}

#[test]
fn local_signer_with_garbage_fails_to_parse() {
    let mut pkcs = PKCS::new();
    pkcs.load_writer(b"not a certificate".to_vec(), b"not a key".to_vec(), vec![]);
    assert!(matches!(pkcs.encode_pkcs_bin(&[1, 2, 3]), Err(CrateSpecError::ParseError(_))));
    assert!(matches!(
        PKCS::decode_pkcs_bin(b"not a signature", &[]),
        Err(CrateSpecError::ParseError(_))
    ));
    assert!(matches!(
        PKCS::decode_pkcs_bin(b"x", &[b"not a root".to_vec()]),
        Err(CrateSpecError::ParseError(_))
    ));
    let mut reader = PKCS::new();
    reader.load_reader(vec![vec![1], vec![2]]);
    assert!(reader != PKCS::new());
}

#[test]
fn a_bare_message_is_an_error_of_the_kind_other() {
    let e: CrateSpecError = "x".into();
    assert!(matches!(e, CrateSpecError::Other(m) if m == "x"));
    let e = CrateSpecError::from("y".to_string());
    assert_eq!(e.describe(), "error: y");
}

#[test]
fn room_that_strings_take() {
    let info = PackageInfo::new(
        "foo".to_string(),
        "0.1.0".to_string(),
        "MIT".to_string(),
        vec!["a".to_string(), "foo".to_string()],
    );
    assert_eq!(info.strings_size(), 35);
    let dep = DepInfo::new(
        "bar".to_string(),
        "1.0".to_string(),
        SrcTypePath::Git("http://git.com".to_string()),
        "windows".to_string(),
        true,
    );
    assert_eq!(dep.strings_size(), 43);
    assert_eq!(add_entry_size(0, ""), 4);
    assert_eq!(add_entry_size(10, "é"), 16);
    assert_eq!(cap_add(0xffff_fffe, 1), 0xffff_ffff);
    assert_eq!(cap_add(0xffff_ffff, 1), 0x1_0000_0000);
    assert_eq!(cap_add(0x1_0000_0000, 0x1_0000_0000), 0x1_0000_0000);

    let mut ctx = PackageContext::new();
    ctx.set_package_info("foo".to_string(), "0.1.0".to_string(), "MIT".to_string(), vec!["a".to_string()]);
    ctx.add_dep_info("bar".to_string(), "1.0".to_string(), SrcTypePath::CratesIo, String::new());
    ctx.dep_infos.push(DepInfo::new("skipped".to_string(), "9".to_string(), SrcTypePath::CratesIo, String::new(), false));
    assert_eq!(ctx.strings_budget(), 54);
    let (sections, table) = ctx.build_unsigned().unwrap();
    assert_eq!(sections.len(), 3);
    // the empty string is named three times and kept once
    assert_eq!(table.total_bytes(), 46);
}

#[test]
fn what_each_signature_type_covers() {
    let canonical = [1u8, 2];
    let archive = [3u8];
    assert_eq!(covered(0, &canonical, &archive), &canonical);
    assert_eq!(covered(1, &canonical, &archive), &archive);
    assert_eq!(covered(2, &canonical, &archive), &archive);
}
