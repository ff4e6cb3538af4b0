use crate_spec::error::CrateSpecError;
use crate_spec::utils::index::{SectionIndex, SectionIndexEntry};
use crate_spec::utils::package::{CrateHeader, CratePackage};
use crate_spec::utils::section::{
    CrateBinarySection, DataSection, DepTableEntry, DepTableSection, PackageSection,
    SigStructureSection,
};
use crate_spec::utils::wire::{decimal, get_le32, put_le32, put_zeros};

#[test]
fn integers_are_little_endian() {
    let mut out = vec![9u8];
    put_le32(&mut out, 0x0403_0201);
    assert_eq!(out, vec![9, 1, 2, 3, 4]);
    assert_eq!(get_le32(&out, 1), 0x0403_0201);
}

#[test]
fn package_section_wire_form() {
    let ps = PackageSection { pkg_name: 4, pkg_version: 11, pkg_license: 20, pkg_authors: vec![27, 0x0102] };
    let mut out = Vec::new();
    ps.encode(&mut out);
    assert_eq!(
        out,
        vec![4, 0, 0, 0, 11, 0, 0, 0, 20, 0, 0, 0, 2, 0, 0, 0, 27, 0, 0, 0, 2, 1, 0, 0]
    );
    let back = PackageSection::decode(&out).unwrap();
    assert_eq!(back.pkg_name, 4);
    assert_eq!(back.pkg_version, 11);
    assert_eq!(back.pkg_license, 20);
    assert_eq!(back.pkg_authors, vec![27, 0x0102]);
}

#[test]
fn package_section_with_a_bad_author_count_is_a_decode_error() {
    let bytes = [0, 0, 0, 0, 0, 0, 0, 0, 0, 0, 0, 0, 2, 0, 0, 0, 1, 0, 0, 0];
    assert!(matches!(PackageSection::decode(&bytes), Err(CrateSpecError::DecodeError(_))));
    assert!(matches!(PackageSection::decode(&bytes[..15]), Err(CrateSpecError::DecodeError(_))));
}

#[test]
fn dependency_table_wire_form() {
    let table = DepTableSection {
        entries: vec![DepTableEntry {
            dep_name: 1,
            dep_verreq: 2,
            dep_srctype: 3,
            dep_srcpath: 4,
            dep_platform: 5,
        }],
    };
    let mut out = Vec::new();
    table.encode(&mut out);
    assert_eq!(
        out,
        vec![1, 0, 0, 0, 1, 0, 0, 0, 2, 0, 0, 0, 3, 4, 0, 0, 0, 5, 0, 0, 0]
    );
    let back = DepTableSection::decode(&out).unwrap();
    assert_eq!(back.entries.len(), 1);
    assert_eq!(back.entries[0].dep_srctype, 3);
    assert_eq!(back.entries[0].dep_platform, 5);
}

#[test]
fn unknown_source_type_is_a_decode_error() {
    let bytes = [1, 0, 0, 0, 1, 0, 0, 0, 2, 0, 0, 0, 5, 4, 0, 0, 0, 5, 0, 0, 0];
    match DepTableSection::decode(&bytes) {
        Err(CrateSpecError::DecodeError(m)) => assert_eq!(m, "unknown dependency source type"),
        other => panic!("expected a decode error, got {:?}", other),
    }
    assert!(matches!(DepTableSection::decode(&bytes[..20]), Err(CrateSpecError::DecodeError(_))));
}

#[test]
fn crate_binary_wire_form() {
    let section = CrateBinarySection { bin: vec![7, 8, 9] };
    let mut out = Vec::new();
    section.encode(&mut out);
    assert_eq!(out, vec![3, 0, 0, 0, 7, 8, 9]);
    assert_eq!(CrateBinarySection::decode(&out).unwrap().bin, vec![7, 8, 9]);
    assert!(matches!(CrateBinarySection::decode(&out[..6]), Err(CrateSpecError::DecodeError(_))));
}

#[test]
fn signature_structure_is_padded_to_the_reserved_room() {
    let local = SigStructureSection { sigstruct_type: 1, sigstruct_size: 2, sigstruct_sig: vec![0xaa, 0xbb] };
    let mut out = Vec::new();
    local.encode(&mut out);
    assert_eq!(out.len(), 8 + 8192);
    assert_eq!(&out[..10], &[1, 0, 0, 0, 2, 0, 0, 0, 0xaa, 0xbb]);
    assert!(out[10..].iter().all(|b| *b == 0));
    let back = SigStructureSection::decode(&out).unwrap();
    assert_eq!(back.sigstruct_type, 1);
    assert_eq!(back.sigstruct_size, 2);
    assert_eq!(back.sigstruct_sig, vec![0xaa, 0xbb]);

    let network = SigStructureSection { sigstruct_type: 2, sigstruct_size: 0, sigstruct_sig: vec![] };
    let mut out = Vec::new();
    network.encode(&mut out);
    assert_eq!(out.len(), 8 + 1024);
}

#[test]
fn unknown_signature_type_is_a_decode_error() {
    let bytes = [3, 0, 0, 0, 0, 0, 0, 0];
    match SigStructureSection::decode(&bytes) {
        Err(CrateSpecError::DecodeError(m)) => assert_eq!(m, "unknown signature type"),
        other => panic!("expected a decode error, got {:?}", other),
    }
    let bytes = [0, 0, 0, 0, 1, 0, 0, 0];
    assert!(matches!(SigStructureSection::decode(&bytes), Err(CrateSpecError::DecodeError(_))));
}

#[test]
fn section_sizes() {
    let ps = DataSection::PackageSection(PackageSection { pkg_name: 0, pkg_version: 0, pkg_license: 0, pkg_authors: vec![1, 2, 3] });
    assert_eq!(ps.wire_size(), Some(28));
    assert_eq!(ps.type_number(), 0);
    let deps = DataSection::DepTableSection(DepTableSection { entries: vec![DepTableEntry::new(), DepTableEntry::new()] });
    assert_eq!(deps.wire_size(), Some(38));
    assert_eq!(deps.type_number(), 1);
    let bin = DataSection::CrateBinarySection(CrateBinarySection { bin: vec![0; 10] });
    assert_eq!(bin.wire_size(), Some(14));
    assert_eq!(bin.type_number(), 3);
    let sig = DataSection::SigStructureSection(SigStructureSection { sigstruct_type: 0, sigstruct_size: 1, sigstruct_sig: vec![1] });
    assert_eq!(sig.wire_size(), Some(8200));
    assert_eq!(sig.type_number(), 4);
    let bad = DataSection::SigStructureSection(SigStructureSection { sigstruct_type: 0, sigstruct_size: 2, sigstruct_sig: vec![1] });
    assert_eq!(bad.wire_size(), None);
    let bad = DataSection::DepTableSection(DepTableSection {
        entries: vec![DepTableEntry { dep_name: 0, dep_verreq: 0, dep_srctype: 9, dep_srcpath: 0, dep_platform: 0 }],
    });
    assert_eq!(bad.wire_size(), None);
}

#[test]
fn unknown_section_type_is_a_decode_error() {
    match DataSection::decode(2, &[0u8; 64]) {
        Err(CrateSpecError::DecodeError(m)) => assert_eq!(m, "unknown section type"),
        other => panic!("expected a decode error, got {:?}", other),
    }
}

fn entry(t: u32, off: u32, size: u32) -> SectionIndexEntry {
    SectionIndexEntry { sh_type: t, sh_offset: off, sh_size: size }
}

#[test]
fn section_index_counts() {
    let index = SectionIndex {
        entries: vec![entry(0, 78, 20), entry(1, 98, 21), entry(3, 119, 104), entry(4, 223, 8200)],
    };
    assert_eq!(index.sig_num(), 1);
    assert_eq!(index.none_sig_size(), 36);
    assert_eq!(index.datasection_size_without_sig(), 145);
    assert_eq!(index.section_id_by_type(0).unwrap(), 0);
    assert_eq!(index.section_id_by_type(3).unwrap(), 2);
    assert_eq!(index.section_id_by_type(4).unwrap(), 3);
    match index.section_id_by_type(2) {
        Err(CrateSpecError::DecodeError(m)) => assert_eq!(m, "no section of type 2"),
        other => panic!("expected a decode error, got {:?}", other),
    }
    let mut out = Vec::new();
    index.entries[1].encode(&mut out);
    assert_eq!(out, vec![1, 0, 0, 0, 98, 0, 0, 0, 21, 0, 0, 0]);
    assert_eq!(SectionIndexEntry::decode_at(&out, 0).sh_size, 21);
}

#[test]
fn header_wire_form() {
    let header = CrateHeader {
        c_version: 1,
        si_offset: 30,
        si_size: 36,
        ds_offset: 66,
        ds_size: 145,
        strtable_offset: 211,
        strtable_size: 46,
    };
    let mut out = Vec::new();
    header.encode(&mut out);
    assert_eq!(
        out,
        vec![
            0x43, 0x52, 0x41, 0x54, 0x45, 1, 30, 0, 0, 0, 36, 0, 0, 0, 66, 0, 0, 0, 145, 0, 0, 0,
            211, 0, 0, 0, 46, 0, 0, 0
        ]
    );
    let back = CrateHeader::decode(&out).unwrap();
    assert_eq!(back.ds_size, 145);
    assert_eq!(back.strtable_offset, 211);
    let mut bad = out.clone();
    bad[0] = 0x44;
    assert!(matches!(CrateHeader::decode(&bad), Err(CrateSpecError::DecodeError(_))));
    let mut bad = out.clone();
    bad[5] = 2;
    assert!(matches!(CrateHeader::decode(&bad), Err(CrateSpecError::DecodeError(_))));
    assert!(matches!(CrateHeader::decode(&out[..29]), Err(CrateSpecError::DecodeError(_))));
}

fn small_sections() -> Vec<DataSection> {
    vec![
        DataSection::PackageSection(PackageSection { pkg_name: 4, pkg_version: 11, pkg_license: 0, pkg_authors: vec![] }),
        DataSection::DepTableSection(DepTableSection { entries: vec![] }),
        DataSection::CrateBinarySection(CrateBinarySection { bin: vec![1, 2, 3] }),
    ]
}

#[test]
fn assemble_lays_the_sections_out_without_gaps() {
    let table = vec![0u8, 0, 0, 0];
    let pkg = CratePackage::assemble(small_sections(), table).unwrap();
    let h = pkg.crate_header;
    assert_eq!((h.si_offset, h.si_size), (30, 36));
    assert_eq!((h.ds_offset, h.ds_size), (66, 16 + 4 + 7));
    assert_eq!((h.strtable_offset, h.strtable_size), (93, 4));
    let e = &pkg.section_index.entries;
    assert_eq!((e[0].sh_type, e[0].sh_offset, e[0].sh_size), (0, 66, 16));
    assert_eq!((e[1].sh_type, e[1].sh_offset, e[1].sh_size), (1, 82, 4));
    assert_eq!((e[2].sh_type, e[2].sh_offset, e[2].sh_size), (3, 86, 7));
    assert_eq!(pkg.finger_print, vec![0u8; 32]);
    let bytes = pkg.encode_to_vec();
    assert_eq!(bytes.len(), 93 + 4 + 32);
    assert_eq!(pkg.encode_body(), bytes[..97].to_vec());
    let back = CratePackage::decode_from_slice(&bytes).unwrap();
    assert_eq!(back.encode_to_vec(), bytes);
    assert_eq!(back.data_sections.len(), 3);
    assert_eq!(back.string_table, vec![0u8, 0, 0, 0]);
}

#[test]
fn assemble_refuses_a_signature_before_another_section() {
    let mut sections = small_sections();
    sections.insert(
        1,
        DataSection::SigStructureSection(SigStructureSection { sigstruct_type: 0, sigstruct_size: 0, sigstruct_sig: vec![] }),
    );
    assert!(matches!(
        CratePackage::assemble(sections, vec![]),
        Err(CrateSpecError::EncodeError(_))
    ));
}

#[test]
fn assemble_refuses_a_signature_that_overflows_its_room() {
    let mut sections = small_sections();
    sections.push(DataSection::SigStructureSection(SigStructureSection {
        sigstruct_type: 2,
        sigstruct_size: 1025,
        sigstruct_sig: vec![0; 1025],
    }));
    assert!(matches!(
        CratePackage::assemble(sections, vec![]),
        Err(CrateSpecError::EncodeError(_))
    ));
}

#[test]
fn corrupt_containers_are_decode_errors() {
    let pkg = CratePackage::assemble(small_sections(), vec![0u8, 0, 0, 0]).unwrap();
    let good = pkg.encode_to_vec();
    // truncated
    assert!(matches!(
        CratePackage::decode_from_slice(&good[..good.len() - 1]),
        Err(CrateSpecError::DecodeError(_))
    ));
    // the index must start behind the header
    let mut bad = good.clone();
    bad[6] = 31;
    assert!(matches!(CratePackage::decode_from_slice(&bad), Err(CrateSpecError::DecodeError(_))));
    // a section that does not start where the one before it ends
    let mut bad = good.clone();
    bad[30 + 12 + 4] += 1;
    assert!(matches!(CratePackage::decode_from_slice(&bad), Err(CrateSpecError::DecodeError(_))));
    // a section type that is not known
    let mut bad = good.clone();
    bad[30] = 2;
    assert!(matches!(CratePackage::decode_from_slice(&bad), Err(CrateSpecError::DecodeError(_))));
    // an archive longer than its section
    let mut bad = good.clone();
    bad[86] = 200;
    assert!(matches!(CratePackage::decode_from_slice(&bad), Err(CrateSpecError::DecodeError(_))));
}

#[test]
fn sections_are_found_by_type() {
    let mut sections = small_sections();
    sections.push(DataSection::SigStructureSection(SigStructureSection {
        sigstruct_type: 1,
        sigstruct_size: 1,
        sigstruct_sig: vec![5],
    }));
    let pkg = CratePackage::assemble(sections, vec![]).unwrap();
    assert_eq!(pkg.package_section().unwrap().pkg_version, 11);
    assert_eq!(pkg.dep_table_section().unwrap().entries.len(), 0);
    assert_eq!(pkg.crate_binary_section().unwrap().bin, vec![1, 2, 3]);
    assert_eq!(pkg.sig_structure_section(0).unwrap().sigstruct_sig, vec![5]);
    assert!(matches!(pkg.data_section_by_id(2), DataSection::CrateBinarySection(_)));
    assert!(matches!(pkg.data_section_by_type(4).unwrap(), DataSection::SigStructureSection(_)));
    assert!(matches!(pkg.data_section_by_type(2), Err(CrateSpecError::DecodeError(_))));
}

#[test]
fn decimal_forms() {
    assert_eq!(decimal(0), "0");
    assert_eq!(decimal(7), "7");
    assert_eq!(decimal(10), "10");
    assert_eq!(decimal(4096), "4096");
    assert_eq!(decimal(u64::MAX), "18446744073709551615");
}

#[test]
fn zeros_are_appended() {
    let mut out = vec![1u8];
    put_zeros(&mut out, 3);
    assert_eq!(out, vec![1, 0, 0, 0]);
}

#[test]
fn signatures_are_placed_in_the_room_left_for_them() {
    let mut sections = small_sections();
    sections.push(DataSection::SigStructureSection(SigStructureSection {
        sigstruct_type: 2,
        sigstruct_size: 0,
        sigstruct_sig: vec![],
    }));
    let mut pkg = CratePackage::assemble(sections, vec![0u8, 0, 0, 0]).unwrap();
    let before = pkg.encode_to_vec();
    pkg.place_signature(3, vec![1, 2, 3]).unwrap();
    let after = pkg.encode_to_vec();
    assert_eq!(after.len(), before.len());
    let at = pkg.section_index.entries[3].sh_offset as usize;
    assert_eq!(&after[at..at + 11], &[2, 0, 0, 0, 3, 0, 0, 0, 1, 2, 3]);
    assert_eq!(&after[..at], &before[..at]);
    assert_eq!(pkg.sig_structure_section(0).unwrap().sigstruct_size, 3);
    let back = CratePackage::decode_from_slice(&after).unwrap();
    assert_eq!(back.sig_structure_section(0).unwrap().sigstruct_sig, vec![1, 2, 3]);

    match pkg.place_signature(3, vec![0; 1025]) {
        Err(CrateSpecError::EncodeError(m)) => assert_eq!(m, "signature overflow"),
        other => panic!("expected an encode error, got {:?}", other),
    }
    assert!(matches!(pkg.place_signature(2, vec![1]), Err(CrateSpecError::EncodeError(_))));
    assert!(matches!(pkg.place_signature(4, vec![1]), Err(CrateSpecError::EncodeError(_))));
    assert_eq!(pkg.encode_to_vec(), after);
}

#[test]
fn fingerprint_has_32_bytes() {
    let mut pkg = CratePackage::assemble(small_sections(), vec![]).unwrap();
    assert!(matches!(pkg.set_fingerprint(vec![1; 31]), Err(CrateSpecError::Other(_))));
    assert_eq!(pkg.finger_print, vec![0u8; 32]);
    pkg.set_fingerprint(vec![9; 32]).unwrap();
    let bytes = pkg.encode_to_vec();
    assert_eq!(&bytes[bytes.len() - 32..], &[9u8; 32]);
}

#[test]
fn new_values_are_empty() {
    let pkg = CratePackage::new();
    assert!(pkg.section_index.entries.is_empty() && pkg.data_sections.is_empty());
    assert_eq!(pkg.finger_print, vec![0u8; 32]);
    assert_eq!(pkg.crate_header.c_version, 1);
    assert_eq!(CrateHeader::new().si_offset, 0);
    assert!(SectionIndex::new().entries.is_empty());
    assert_eq!(SectionIndexEntry::new().sh_size, 0);
    assert!(DepTableSection::new().entries.is_empty());
    assert!(PackageSection::new().pkg_authors.is_empty());
}
