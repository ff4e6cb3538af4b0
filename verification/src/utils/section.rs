//! The typed data sections of a container and their wire forms.
//!
//! A package section holds three string offsets and an array of author
//! offsets; a dependency table an array of entries; a crate-binary section the
//! wrapped archive; a signature structure a type, a length and the signature,
//! padded with zeros to the space reserved for its type.

use vstd::prelude::*;
use crate::error::{CrateSpecError, Result};
use crate::utils::records::{
    fixed_size,
    lemma_records_chunk,
    lemma_records_len,
    lemma_records_step,
    records_bytes,
};
use crate::utils::wire::{
    get_le32,
    le32,
    lemma_le32_round_trip,
    lemma_read_le32_at,
    put_le32,
    put_zeros,
    read_le32,
    zeros,
};

verus! {

/// A length or a count on the wire.
pub type Size = u32;

/// A section or signature type on the wire.
pub type Type = u32;

/// A byte offset into the file.
pub type Off = u32;

/// A byte offset into the string table.
pub type StrOff = u32;

/// Type number of the package section.
pub const PACK_TYPE: u32 = 0;

/// Type number of the dependency table.
pub const DEPTABLE_TYPE: u32 = 1;

/// Type number of the crate-binary section.
pub const CRATEBIN_TYPE: u32 = 3;

/// Type number of a signature structure.
pub const SIGSTRUCTURE_TYPE: u32 = 4;

/// Bytes of one dependency entry on the wire.
pub const DEP_ENTRY_LEN: usize = 17;

/// Greatest source-type discriminant of a dependency.
pub const MAX_SRC_TYPE: u8 = 4;

/// Signature type: over the canonical file image.
pub const SIG_FILE: u32 = 0;

/// Signature type: over the crate binary, made locally.
pub const SIG_CRATEBIN: u32 = 1;

/// Signature type: over the crate binary, made by the PKI service.
pub const SIG_NETWORK: u32 = 2;

/// Space reserved for a locally made signature.
pub const MAX_LOCAL_SIG_SIZE: u32 = 8192;

/// Space reserved for a signature made by the PKI service.
pub const MAX_NETWORK_SIG_SIZE: u32 = 1024;

/// The space reserved for a signature of type `typ`.
pub open spec fn spec_max_sig_size(typ: u32) -> int {
    if typ == SIG_NETWORK {
        MAX_NETWORK_SIG_SIZE as int
    } else {
        MAX_LOCAL_SIG_SIZE as int
    }
}

/// Whether `typ` is one of the three signature types.
pub open spec fn spec_known_sig_type(typ: u32) -> bool {
    typ == SIG_FILE || typ == SIG_CRATEBIN || typ == SIG_NETWORK
}

/// The space reserved for a signature of type `typ`.
pub fn max_sig_size(typ: u32) -> (r: u32)
    ensures
        r == spec_max_sig_size(typ),
{
    if typ == SIG_NETWORK {
        MAX_NETWORK_SIG_SIZE
    } else {
        MAX_LOCAL_SIG_SIZE
    }
}

/// Whether `typ` is one of the three signature types.
pub fn known_sig_type(typ: u32) -> (r: bool)
    ensures
        r == spec_known_sig_type(typ),
{
    typ == SIG_FILE || typ == SIG_CRATEBIN || typ == SIG_NETWORK
}

/// The encoder of one string offset.
pub open spec fn offset_enc() -> spec_fn(u32) -> Seq<u8> {
    |x: u32| le32(x)
}

/// Every string offset takes 4 bytes.
pub proof fn lemma_offset_enc_fixed()
    ensures
        fixed_size(offset_enc(), 4),
{
    assert forall|x: u32| (#[trigger] offset_enc()(x)).len() == 4 by {
        lemma_le32_round_trip(x);
    }
}

/// The package section: where the package's name, version, license and
/// authors stand in the string table.
#[derive(Debug)]
pub struct PackageSection {
    pub pkg_name: StrOff,
    pub pkg_version: StrOff,
    pub pkg_license: StrOff,
    pub pkg_authors: Vec<StrOff>,
}

/// The value of a package section.
pub struct PackageSectionView {
    pub name: u32,
    pub version: u32,
    pub license: u32,
    pub authors: Seq<u32>,
}

impl View for PackageSection {
    type V = PackageSectionView;

    open spec fn view(&self) -> PackageSectionView {
        PackageSectionView {
            name: self.pkg_name,
            version: self.pkg_version,
            license: self.pkg_license,
            authors: self.pkg_authors@,
        }
    }
}

/// The wire form of a package section.
pub open spec fn package_section_bytes(p: PackageSectionView) -> Seq<u8> {
    le32(p.name) + le32(p.version) + le32(p.license) + le32(p.authors.len() as u32)
        + records_bytes(p.authors, offset_enc())
}

/// The package section that `bytes` begin with, if they hold a whole one.
pub open spec fn parse_package_section(bytes: Seq<u8>) -> Option<PackageSectionView> {
    if bytes.len() < 16 {
        None
    } else {
        let count = read_le32(bytes, 12) as int;
        if 16 + 4 * count > bytes.len() {
            None
        } else {
            Some(
                PackageSectionView {
                    name: read_le32(bytes, 0),
                    version: read_le32(bytes, 4),
                    license: read_le32(bytes, 8),
                    authors: Seq::new(count as nat, |i: int| read_le32(bytes, 16 + 4 * i)),
                },
            )
        }
    }
}

/// Reading the wire form of a package section gives the section back.
pub proof fn lemma_package_section_round_trip(p: PackageSectionView)
    requires
        p.authors.len() <= u32::MAX,
    ensures
        package_section_bytes(p).len() == 16 + 4 * p.authors.len(),
        parse_package_section(package_section_bytes(p)) == Some(p),
{
    let bytes = package_section_bytes(p);
    let n = p.authors.len() as u32;
    let arr = records_bytes(p.authors, offset_enc());
    lemma_offset_enc_fixed();
    lemma_records_len(p.authors, offset_enc(), 4);
    lemma_le32_round_trip(p.name);
    lemma_le32_round_trip(p.version);
    lemma_le32_round_trip(p.license);
    lemma_le32_round_trip(n);
    assert(bytes.subrange(0, 4) =~= le32(p.name));
    assert(bytes.subrange(4, 8) =~= le32(p.version));
    assert(bytes.subrange(8, 12) =~= le32(p.license));
    assert(bytes.subrange(12, 16) =~= le32(n));
    lemma_read_le32_at(bytes, 0, p.name);
    lemma_read_le32_at(bytes, 4, p.version);
    lemma_read_le32_at(bytes, 8, p.license);
    lemma_read_le32_at(bytes, 12, n);
    let parsed = parse_package_section(bytes).unwrap();
    assert forall|i: int| 0 <= i < p.authors.len() implies parsed.authors[i] == p.authors[i] by {
        lemma_records_chunk(p.authors, offset_enc(), 4, i);
        assert(bytes.subrange(16 + 4 * i, 16 + 4 * i + 4) =~= arr.subrange(4 * i, 4 * i + 4));
        lemma_read_le32_at(bytes, 16 + 4 * i, p.authors[i]);
    }
    assert(parsed.authors =~= p.authors);
}

impl PackageSection {
    /// A package section whose offsets are all 0 and that names no author.
    pub fn new() -> (r: Self)
        ensures
            r@ == (PackageSectionView { name: 0, version: 0, license: 0, authors: Seq::empty() }),
    {
        PackageSection { pkg_name: 0, pkg_version: 0, pkg_license: 0, pkg_authors: Vec::new() }
    }

    /// Appends the section's wire form to `out`.
    pub fn encode(&self, out: &mut Vec<u8>)
        requires
            self.pkg_authors@.len() <= u32::MAX,
        ensures
            final(out)@ == old(out)@ + package_section_bytes(self@),
    {
        let ghost start = out@;
        put_le32(out, self.pkg_name);
        put_le32(out, self.pkg_version);
        put_le32(out, self.pkg_license);
        put_le32(out, self.pkg_authors.len() as u32);
        let ghost head = out@;
        let mut i: usize = 0;
        proof {
            assert(self.pkg_authors@.take(0) =~= Seq::<u32>::empty());
            assert(out@ =~= head + records_bytes(self.pkg_authors@.take(0), offset_enc()));
        }
        while i < self.pkg_authors.len()
            invariant
                i <= self.pkg_authors@.len(),
                out@ == head + records_bytes(self.pkg_authors@.take(i as int), offset_enc()),
            decreases self.pkg_authors@.len() - i,
        {
            proof {
                lemma_records_step(self.pkg_authors@, offset_enc(), i as int);
            }
            put_le32(out, self.pkg_authors[i]);
            i = i + 1;
            proof {
                assert(out@ =~= head + records_bytes(self.pkg_authors@.take(i as int), offset_enc()));
            }
        }
        proof {
            assert(self.pkg_authors@.take(i as int) =~= self.pkg_authors@);
            assert(out@ =~= start + package_section_bytes(self@));
        }
    }

    /// Reads a package section from the start of `bytes`.
    pub fn decode(bytes: &[u8]) -> (r: Result<PackageSection>)
        ensures
            r is Ok <==> parse_package_section(bytes@) is Some,
            r matches Ok(p) ==> Some(p@) == parse_package_section(bytes@),
            r matches Err(e) ==> e is DecodeError,
    {
        let len: usize = bytes.len();
        if len < 16 {
            return Err(CrateSpecError::DecodeError(String::from_str("package section truncated")));
        }
        let name: u32 = get_le32(bytes, 0);
        let version: u32 = get_le32(bytes, 4);
        let license: u32 = get_le32(bytes, 8);
        let count: u32 = get_le32(bytes, 12);
        if 4 * (count as u64) > (len - 16) as u64 {
            return Err(CrateSpecError::DecodeError(String::from_str("bad author array length")));
        }
        let mut authors: Vec<u32> = Vec::new();
        let mut i: usize = 0;
        while i < count as usize
            invariant
                i <= count,
                len == bytes@.len(),
                16 + 4 * count <= len,
                authors@ == Seq::new(i as nat, |k: int| read_le32(bytes@, 16 + 4 * k)),
            decreases count - i,
        {
            let a: u32 = get_le32(bytes, 16 + 4 * i);
            authors.push(a);
            i = i + 1;
            proof {
                assert(authors@ =~= Seq::new(i as nat, |k: int| read_le32(bytes@, 16 + 4 * k)));
            }
        }
        Ok(PackageSection { pkg_name: name, pkg_version: version, pkg_license: license, pkg_authors: authors })
    }
}

/// One dependency: where its name, version requirement, source path and
/// platform stand in the string table, and the kind of its source.
#[derive(Debug, Clone, Copy)]
pub struct DepTableEntry {
    pub dep_name: StrOff,
    pub dep_verreq: StrOff,
    pub dep_srctype: u8,
    pub dep_srcpath: StrOff,
    pub dep_platform: StrOff,
}

/// The wire form of one dependency entry.
pub open spec fn dep_entry_bytes(e: DepTableEntry) -> Seq<u8> {
    le32(e.dep_name) + le32(e.dep_verreq) + seq![e.dep_srctype] + le32(e.dep_srcpath) + le32(
        e.dep_platform,
    )
}

/// The dependency entry at position `at` of `bytes`.
pub open spec fn read_dep_entry(bytes: Seq<u8>, at: int) -> DepTableEntry {
    DepTableEntry {
        dep_name: read_le32(bytes, at),
        dep_verreq: read_le32(bytes, at + 4),
        dep_srctype: bytes[at + 8],
        dep_srcpath: read_le32(bytes, at + 9),
        dep_platform: read_le32(bytes, at + 13),
    }
}

/// The encoder of one dependency entry.
pub open spec fn dep_enc() -> spec_fn(DepTableEntry) -> Seq<u8> {
    |e: DepTableEntry| dep_entry_bytes(e)
}

/// Every dependency entry takes 17 bytes.
pub proof fn lemma_dep_enc_fixed()
    ensures
        fixed_size(dep_enc(), 17),
{
    assert forall|e: DepTableEntry| (#[trigger] dep_enc()(e)).len() == 17 by {
        lemma_le32_round_trip(e.dep_name);
        lemma_le32_round_trip(e.dep_verreq);
        lemma_le32_round_trip(e.dep_srcpath);
        lemma_le32_round_trip(e.dep_platform);
    }
}

/// An entry whose wire form stands at `at` is read back from there.
pub proof fn lemma_read_dep_entry(bytes: Seq<u8>, at: int, e: DepTableEntry)
    requires
        0 <= at,
        at + 17 <= bytes.len(),
        bytes.subrange(at, at + 17) == dep_entry_bytes(e),
    ensures
        read_dep_entry(bytes, at) == e,
{
    let w = dep_entry_bytes(e);
    lemma_le32_round_trip(e.dep_name);
    lemma_le32_round_trip(e.dep_verreq);
    lemma_le32_round_trip(e.dep_srcpath);
    lemma_le32_round_trip(e.dep_platform);
    assert(bytes.subrange(at, at + 4) =~= w.subrange(0, 4));
    assert(w.subrange(0, 4) =~= le32(e.dep_name));
    assert(bytes.subrange(at + 4, at + 8) =~= w.subrange(4, 8));
    assert(w.subrange(4, 8) =~= le32(e.dep_verreq));
    assert(bytes[at + 8] == w[8]);
    assert(bytes.subrange(at + 9, at + 13) =~= w.subrange(9, 13));
    assert(w.subrange(9, 13) =~= le32(e.dep_srcpath));
    assert(bytes.subrange(at + 13, at + 17) =~= w.subrange(13, 17));
    assert(w.subrange(13, 17) =~= le32(e.dep_platform));
}

/// The dependency table.
#[derive(Debug)]
pub struct DepTableSection {
    pub entries: Vec<DepTableEntry>,
}

impl View for DepTableSection {
    type V = Seq<DepTableEntry>;

    open spec fn view(&self) -> Seq<DepTableEntry> {
        self.entries@
    }
}

/// Every entry's source type is one of the five known ones.
pub open spec fn src_types_known(es: Seq<DepTableEntry>) -> bool {
    forall|i: int| 0 <= i < es.len() ==> (#[trigger] es[i]).dep_srctype <= MAX_SRC_TYPE
}

/// The wire form of a dependency table.
pub open spec fn dep_table_bytes(es: Seq<DepTableEntry>) -> Seq<u8> {
    le32(es.len() as u32) + records_bytes(es, dep_enc())
}

/// The `count` dependency entries that follow the count at the start of `bytes`.
pub open spec fn read_dep_entries(bytes: Seq<u8>, count: int) -> Seq<DepTableEntry> {
    Seq::new(count as nat, |i: int| read_dep_entry(bytes, 4 + 17 * i))
}

/// The dependency table that `bytes` begin with, if they hold a whole one
/// whose source types are all known.
pub open spec fn parse_dep_table(bytes: Seq<u8>) -> Option<Seq<DepTableEntry>> {
    if bytes.len() < 4 {
        None
    } else {
        let count = read_le32(bytes, 0) as int;
        let es = read_dep_entries(bytes, count);
        if 4 + 17 * count > bytes.len() || !src_types_known(es) {
            None
        } else {
            Some(es)
        }
    }
}

/// Reading the wire form of a dependency table gives the table back.
pub proof fn lemma_dep_table_round_trip(es: Seq<DepTableEntry>)
    requires
        es.len() <= u32::MAX,
        src_types_known(es),
    ensures
        dep_table_bytes(es).len() == 4 + 17 * es.len(),
        parse_dep_table(dep_table_bytes(es)) == Some(es),
{
    let bytes = dep_table_bytes(es);
    let n = es.len() as u32;
    let arr = records_bytes(es, dep_enc());
    lemma_dep_enc_fixed();
    lemma_records_len(es, dep_enc(), 17);
    lemma_le32_round_trip(n);
    assert(bytes.subrange(0, 4) =~= le32(n));
    lemma_read_le32_at(bytes, 0, n);
    let parsed = read_dep_entries(bytes, n as int);
    assert forall|i: int| 0 <= i < es.len() implies parsed[i] == es[i] by {
        lemma_records_chunk(es, dep_enc(), 17, i);
        assert(bytes.subrange(4 + 17 * i, 4 + 17 * i + 17) =~= arr.subrange(17 * i, 17 * i + 17));
        lemma_read_dep_entry(bytes, 4 + 17 * i, es[i]);
    }
    assert(parsed =~= es);
}

impl DepTableEntry {
    /// An entry whose offsets are all 0 and whose source is the default registry.
    pub fn new() -> (r: Self)
        ensures
            r == (DepTableEntry {
                dep_name: 0,
                dep_verreq: 0,
                dep_srctype: 0,
                dep_srcpath: 0,
                dep_platform: 0,
            }),
    {
        DepTableEntry { dep_name: 0, dep_verreq: 0, dep_srctype: 0, dep_srcpath: 0, dep_platform: 0 }
    }

    /// Appends the entry's wire form to `out`.
    pub fn encode(&self, out: &mut Vec<u8>)
        ensures
            final(out)@ == old(out)@ + dep_entry_bytes(*self),
    {
        put_le32(out, self.dep_name);
        put_le32(out, self.dep_verreq);
        out.push(self.dep_srctype);
        put_le32(out, self.dep_srcpath);
        put_le32(out, self.dep_platform);
        proof {
            assert(out@ =~= old(out)@ + dep_entry_bytes(*self));
        }
    }

    /// Reads the entry at position `at` of `bytes`.
    pub fn decode_at(bytes: &[u8], at: usize) -> (r: DepTableEntry)
        requires
            at + 17 <= bytes@.len(),
        ensures
            r == read_dep_entry(bytes@, at as int),
    {
        let n: usize = bytes.len();
        DepTableEntry {
            dep_name: get_le32(bytes, at),
            dep_verreq: get_le32(bytes, at + 4),
            dep_srctype: bytes[at + 8],
            dep_srcpath: get_le32(bytes, at + 9),
            dep_platform: get_le32(bytes, at + 13),
        }
    }
}

impl DepTableSection {
    /// An empty dependency table.
    pub fn new() -> (r: Self)
        ensures
            r@ == Seq::<DepTableEntry>::empty(),
    {
        DepTableSection { entries: Vec::new() }
    }

    /// Appends the table's wire form to `out`.
    pub fn encode(&self, out: &mut Vec<u8>)
        requires
            self.entries@.len() <= u32::MAX,
        ensures
            final(out)@ == old(out)@ + dep_table_bytes(self@),
    {
        let ghost start = out@;
        put_le32(out, self.entries.len() as u32);
        let ghost head = out@;
        let mut i: usize = 0;
        proof {
            assert(self.entries@.take(0) =~= Seq::<DepTableEntry>::empty());
            assert(out@ =~= head + records_bytes(self.entries@.take(0), dep_enc()));
        }
        while i < self.entries.len()
            invariant
                i <= self.entries@.len(),
                out@ == head + records_bytes(self.entries@.take(i as int), dep_enc()),
            decreases self.entries@.len() - i,
        {
            proof {
                lemma_records_step(self.entries@, dep_enc(), i as int);
            }
            self.entries[i].encode(out);
            i = i + 1;
            proof {
                assert(out@ =~= head + records_bytes(self.entries@.take(i as int), dep_enc()));
            }
        }
        proof {
            assert(self.entries@.take(i as int) =~= self.entries@);
            assert(out@ =~= start + dep_table_bytes(self@));
        }
    }

    /// Reads a dependency table from the start of `bytes`.
    pub fn decode(bytes: &[u8]) -> (r: Result<DepTableSection>)
        ensures
            r is Ok <==> parse_dep_table(bytes@) is Some,
            r matches Ok(t) ==> Some(t@) == parse_dep_table(bytes@),
            r matches Err(e) ==> e is DecodeError,
    {
        let len: usize = bytes.len();
        if len < 4 {
            return Err(CrateSpecError::DecodeError(String::from_str("dependency table truncated")));
        }
        let count: u32 = get_le32(bytes, 0);
        if 17 * (count as u64) > (len - 4) as u64 {
            return Err(CrateSpecError::DecodeError(String::from_str("bad dependency array length")));
        }
        let ghost all = read_dep_entries(bytes@, count as int);
        let mut entries: Vec<DepTableEntry> = Vec::new();
        let mut i: usize = 0;
        while i < count as usize
            invariant
                i <= count,
                len == bytes@.len(),
                4 + 17 * count <= len,
                count == read_le32(bytes@, 0),
                all == read_dep_entries(bytes@, count as int),
                entries@ == all.take(i as int),
                src_types_known(entries@),
            decreases count - i,
        {
            let e: DepTableEntry = DepTableEntry::decode_at(bytes, 4 + 17 * i);
            if e.dep_srctype > MAX_SRC_TYPE {
                proof {
                    assert(all[i as int].dep_srctype > MAX_SRC_TYPE);
                }
                return Err(CrateSpecError::DecodeError(String::from_str("unknown dependency source type")));
            }
            entries.push(e);
            i = i + 1;
            proof {
                assert(entries@ =~= all.take(i as int));
            }
        }
        proof {
            assert(all.take(count as int) =~= all);
        }
        Ok(DepTableSection { entries })
    }
}

/// The crate-binary section: the wrapped archive.
#[derive(Debug)]
pub struct CrateBinarySection {
    pub bin: Vec<u8>,
}

impl View for CrateBinarySection {
    type V = Seq<u8>;

    open spec fn view(&self) -> Seq<u8> {
        self.bin@
    }
}

/// The wire form of a crate-binary section.
pub open spec fn crate_binary_bytes(bin: Seq<u8>) -> Seq<u8> {
    le32(bin.len() as u32) + bin
}

/// The archive that `bytes` begin with, if they hold a whole one.
pub open spec fn parse_crate_binary(bytes: Seq<u8>) -> Option<Seq<u8>> {
    if bytes.len() < 4 {
        None
    } else {
        let n = read_le32(bytes, 0) as int;
        if 4 + n > bytes.len() {
            None
        } else {
            Some(bytes.subrange(4, 4 + n))
        }
    }
}

/// Reading the wire form of a crate-binary section gives the archive back.
pub proof fn lemma_crate_binary_round_trip(bin: Seq<u8>)
    requires
        bin.len() <= u32::MAX,
    ensures
        crate_binary_bytes(bin).len() == 4 + bin.len(),
        parse_crate_binary(crate_binary_bytes(bin)) == Some(bin),
{
    let bytes = crate_binary_bytes(bin);
    let n = bin.len() as u32;
    lemma_le32_round_trip(n);
    assert(bytes.subrange(0, 4) =~= le32(n));
    lemma_read_le32_at(bytes, 0, n);
    assert(bytes.subrange(4, 4 + n) =~= bin);
}

impl CrateBinarySection {
    /// A section that wraps an empty archive.
    pub fn new() -> (r: Self)
        ensures
            r@ == Seq::<u8>::empty(),
    {
        CrateBinarySection { bin: Vec::new() }
    }

    /// Appends the section's wire form to `out`.
    pub fn encode(&self, out: &mut Vec<u8>)
        requires
            self.bin@.len() <= u32::MAX,
        ensures
            final(out)@ == old(out)@ + crate_binary_bytes(self@),
    {
        put_le32(out, self.bin.len() as u32);
        out.extend_from_slice(self.bin.as_slice());
        proof {
            assert(out@ =~= old(out)@ + crate_binary_bytes(self@));
        }
    }

    /// Reads a crate-binary section from the start of `bytes`.
    pub fn decode(bytes: &[u8]) -> (r: Result<CrateBinarySection>)
        ensures
            r is Ok <==> parse_crate_binary(bytes@) is Some,
            r matches Ok(c) ==> Some(c@) == parse_crate_binary(bytes@),
            r matches Err(e) ==> e is DecodeError,
    {
        let len: usize = bytes.len();
        if len < 4 {
            return Err(CrateSpecError::DecodeError(String::from_str("crate binary truncated")));
        }
        let n: u32 = get_le32(bytes, 0);
        if (n as u64) > (len - 4) as u64 {
            return Err(CrateSpecError::DecodeError(String::from_str("bad crate binary length")));
        }
        let bin = vstd::slice::slice_to_vec(vstd::slice::slice_subrange(bytes, 4, 4 + n as usize));
        Ok(CrateBinarySection { bin })
    }
}

/// A signature structure: the signature's type, its length and its bytes.
#[derive(Debug)]
pub struct SigStructureSection {
    pub sigstruct_type: Type,
    pub sigstruct_size: Size,
    pub sigstruct_sig: Vec<u8>,
}

/// The value of a signature structure.
pub struct SigStructureView {
    pub typ: u32,
    pub size: u32,
    pub sig: Seq<u8>,
}

impl View for SigStructureSection {
    type V = SigStructureView;

    open spec fn view(&self) -> SigStructureView {
        SigStructureView {
            typ: self.sigstruct_type,
            size: self.sigstruct_size,
            sig: self.sigstruct_sig@,
        }
    }
}

/// The signature is of a known type, as long as its length field says, and
/// fits the space reserved for its type.
pub open spec fn sig_structure_wf(s: SigStructureView) -> bool {
    &&& spec_known_sig_type(s.typ)
    &&& s.size == s.sig.len()
    &&& s.sig.len() <= spec_max_sig_size(s.typ)
}

/// The wire form of a signature structure: type, length, signature, and
/// zeros up to the space reserved for the type.
pub open spec fn sig_structure_bytes(s: SigStructureView) -> Seq<u8> {
    le32(s.typ) + le32(s.size) + s.sig + zeros(spec_max_sig_size(s.typ) - s.sig.len())
}

/// The signature structure that `bytes` begin with, if they hold a whole
/// one of a known type.
pub open spec fn parse_sig_structure(bytes: Seq<u8>) -> Option<SigStructureView> {
    if bytes.len() < 8 {
        None
    } else {
        let typ = read_le32(bytes, 0);
        let size = read_le32(bytes, 4);
        if !spec_known_sig_type(typ) || 8 + size > bytes.len() {
            None
        } else {
            Some(SigStructureView { typ, size, sig: bytes.subrange(8, 8 + size) })
        }
    }
}

/// Reading the wire form of a signature structure gives the structure back.
pub proof fn lemma_sig_structure_round_trip(s: SigStructureView)
    requires
        sig_structure_wf(s),
    ensures
        sig_structure_bytes(s).len() == 8 + spec_max_sig_size(s.typ),
        parse_sig_structure(sig_structure_bytes(s)) == Some(s),
{
    let bytes = sig_structure_bytes(s);
    lemma_le32_round_trip(s.typ);
    lemma_le32_round_trip(s.size);
    assert(bytes.subrange(0, 4) =~= le32(s.typ));
    assert(bytes.subrange(4, 8) =~= le32(s.size));
    lemma_read_le32_at(bytes, 0, s.typ);
    lemma_read_le32_at(bytes, 4, s.size);
    assert(bytes.subrange(8, 8 + s.size) =~= s.sig);
}

impl SigStructureSection {
    /// An empty signature structure of type 0.
    pub fn new() -> (r: Self)
        ensures
            r@ == (SigStructureView { typ: 0, size: 0, sig: Seq::empty() }),
    {
        SigStructureSection { sigstruct_type: 0, sigstruct_size: 0, sigstruct_sig: Vec::new() }
    }

    /// Appends the section's wire form to `out`.
    pub fn encode(&self, out: &mut Vec<u8>)
        requires
            sig_structure_wf(self@),
        ensures
            final(out)@ == old(out)@ + sig_structure_bytes(self@),
    {
        put_le32(out, self.sigstruct_type);
        put_le32(out, self.sigstruct_size);
        out.extend_from_slice(self.sigstruct_sig.as_slice());
        let pad: usize = (max_sig_size(self.sigstruct_type) - self.sigstruct_size) as usize;
        put_zeros(out, pad);
        proof {
            assert(out@ =~= old(out)@ + sig_structure_bytes(self@));
        }
    }

    /// Reads a signature structure from the start of `bytes`.
    pub fn decode(bytes: &[u8]) -> (r: Result<SigStructureSection>)
        ensures
            r is Ok <==> parse_sig_structure(bytes@) is Some,
            r matches Ok(s) ==> Some(s@) == parse_sig_structure(bytes@),
            r matches Err(e) ==> e is DecodeError,
    {
        let len: usize = bytes.len();
        if len < 8 {
            return Err(CrateSpecError::DecodeError(String::from_str("signature structure truncated")));
        }
        let typ: u32 = get_le32(bytes, 0);
        let size: u32 = get_le32(bytes, 4);
        if !known_sig_type(typ) {
            return Err(CrateSpecError::DecodeError(String::from_str("unknown signature type")));
        }
        if (size as u64) > (len - 8) as u64 {
            return Err(CrateSpecError::DecodeError(String::from_str("bad signature length")));
        }
        let sig = vstd::slice::slice_to_vec(vstd::slice::slice_subrange(bytes, 8, 8 + size as usize));
        Ok(SigStructureSection { sigstruct_type: typ, sigstruct_size: size, sigstruct_sig: sig })
    }
}

/// A data section of any of the four types.
#[derive(Debug)]
pub enum DataSection {
    PackageSection(PackageSection),
    DepTableSection(DepTableSection),
    CrateBinarySection(CrateBinarySection),
    SigStructureSection(SigStructureSection),
}

/// The value of a data section.
pub enum DataSectionView {
    Package(PackageSectionView),
    DepTable(Seq<DepTableEntry>),
    CrateBinary(Seq<u8>),
    SigStructure(SigStructureView),
}

impl View for DataSection {
    type V = DataSectionView;

    open spec fn view(&self) -> DataSectionView {
        match self {
            DataSection::PackageSection(p) => DataSectionView::Package(p@),
            DataSection::DepTableSection(d) => DataSectionView::DepTable(d@),
            DataSection::CrateBinarySection(c) => DataSectionView::CrateBinary(c@),
            DataSection::SigStructureSection(s) => DataSectionView::SigStructure(s@),
        }
    }
}

/// The type number under which a section is listed in the section index.
pub open spec fn section_type(d: DataSectionView) -> u32 {
    match d {
        DataSectionView::Package(_) => PACK_TYPE,
        DataSectionView::DepTable(_) => DEPTABLE_TYPE,
        DataSectionView::CrateBinary(_) => CRATEBIN_TYPE,
        DataSectionView::SigStructure(_) => SIGSTRUCTURE_TYPE,
    }
}

/// The wire form of a data section.
pub open spec fn section_bytes(d: DataSectionView) -> Seq<u8> {
    match d {
        DataSectionView::Package(p) => package_section_bytes(p),
        DataSectionView::DepTable(es) => dep_table_bytes(es),
        DataSectionView::CrateBinary(bin) => crate_binary_bytes(bin),
        DataSectionView::SigStructure(s) => sig_structure_bytes(s),
    }
}

/// Bytes that the wire form of a data section takes.
pub open spec fn section_size(d: DataSectionView) -> int {
    match d {
        DataSectionView::Package(p) => 16 + 4 * (p.authors.len() as int),
        DataSectionView::DepTable(es) => 4 + 17 * (es.len() as int),
        DataSectionView::CrateBinary(bin) => 4 + (bin.len() as int),
        DataSectionView::SigStructure(s) => 8 + spec_max_sig_size(s.typ),
    }
}

/// The section can be written: its arrays fit their 32-bit counts, its
/// source types are known, its signature fits the reserved space.
pub open spec fn section_wf(d: DataSectionView) -> bool {
    match d {
        DataSectionView::Package(p) => p.authors.len() <= u32::MAX,
        DataSectionView::DepTable(es) => es.len() <= u32::MAX && src_types_known(es),
        DataSectionView::CrateBinary(bin) => bin.len() <= u32::MAX,
        DataSectionView::SigStructure(s) => sig_structure_wf(s),
    }
}

/// The section of type `typ` that `bytes` begin with, if `typ` is a known
/// section type and `bytes` hold a whole section of that type.
pub open spec fn parse_section(typ: u32, bytes: Seq<u8>) -> Option<DataSectionView> {
    if typ == PACK_TYPE {
        match parse_package_section(bytes) {
            Some(p) => Some(DataSectionView::Package(p)),
            None => None,
        }
    } else if typ == DEPTABLE_TYPE {
        match parse_dep_table(bytes) {
            Some(es) => Some(DataSectionView::DepTable(es)),
            None => None,
        }
    } else if typ == CRATEBIN_TYPE {
        match parse_crate_binary(bytes) {
            Some(bin) => Some(DataSectionView::CrateBinary(bin)),
            None => None,
        }
    } else if typ == SIGSTRUCTURE_TYPE {
        match parse_sig_structure(bytes) {
            Some(s) => Some(DataSectionView::SigStructure(s)),
            None => None,
        }
    } else {
        None
    }
}

/// Reading the wire form of a data section under its own type gives the
/// section back.
pub proof fn lemma_section_round_trip(d: DataSectionView)
    requires
        section_wf(d),
    ensures
        section_bytes(d).len() == section_size(d),
        parse_section(section_type(d), section_bytes(d)) == Some(d),
{
    match d {
        DataSectionView::Package(p) => lemma_package_section_round_trip(p),
        DataSectionView::DepTable(es) => lemma_dep_table_round_trip(es),
        DataSectionView::CrateBinary(bin) => lemma_crate_binary_round_trip(bin),
        DataSectionView::SigStructure(s) => lemma_sig_structure_round_trip(s),
    }
}

impl DataSection {
    /// The type number under which the section is listed in the section index.
    pub fn type_number(&self) -> (r: u32)
        ensures
            r == section_type(self@),
    {
        match self {
            DataSection::PackageSection(_) => PACK_TYPE,
            DataSection::DepTableSection(_) => DEPTABLE_TYPE,
            DataSection::CrateBinarySection(_) => CRATEBIN_TYPE,
            DataSection::SigStructureSection(_) => SIGSTRUCTURE_TYPE,
        }
    }

    /// Bytes that the section's wire form takes, or `None` where the section
    /// cannot be written or takes more than a `u32` can count.
    pub fn wire_size(&self) -> (r: Option<u32>)
        ensures
            r is Some <==> section_wf(self@) && section_size(self@) <= u32::MAX,
            r matches Some(n) ==> n == section_size(self@),
    {
        match self {
            DataSection::PackageSection(p) => {
                let n: usize = p.pkg_authors.len();
                if n > 0x3fff_fffb {
                    None
                } else {
                    Some(16 + 4 * (n as u32))
                }
            },
            DataSection::DepTableSection(d) => {
                let n: usize = d.entries.len();
                if n > 0x0f0f_0f0e {
                    return None;
                }
                let mut i: usize = 0;
                while i < n
                    invariant
                        i <= n == d.entries@.len(),
                        self@ == DataSectionView::DepTable(d@),
                        forall|j: int| 0 <= j < i ==> (#[trigger] d.entries@[j]).dep_srctype <= MAX_SRC_TYPE,
                    decreases n - i,
                {
                    if d.entries[i].dep_srctype > MAX_SRC_TYPE {
                        proof {
                            assert(d@[i as int].dep_srctype > MAX_SRC_TYPE);
                        }
                        return None;
                    }
                    i = i + 1;
                }
                Some(4 + 17 * (n as u32))
            },
            DataSection::CrateBinarySection(c) => {
                let n: usize = c.bin.len();
                if n > 0xffff_fffb {
                    None
                } else {
                    Some(4 + (n as u32))
                }
            },
            DataSection::SigStructureSection(s) => {
                if !known_sig_type(s.sigstruct_type) {
                    return None;
                }
                let max: u32 = max_sig_size(s.sigstruct_type);
                if s.sigstruct_sig.len() > max as usize || s.sigstruct_sig.len()
                    != s.sigstruct_size as usize {
                    return None;
                }
                Some(8 + max)
            },
        }
    }

    /// Appends the section's wire form to `out`.
    pub fn encode(&self, out: &mut Vec<u8>)
        requires
            section_wf(self@),
        ensures
            final(out)@ == old(out)@ + section_bytes(self@),
    {
        match self {
            DataSection::PackageSection(p) => p.encode(out),
            DataSection::DepTableSection(d) => d.encode(out),
            DataSection::CrateBinarySection(c) => c.encode(out),
            DataSection::SigStructureSection(s) => s.encode(out),
        }
    }

    /// Reads a section of type `typ` from the start of `bytes`.
    pub fn decode(typ: u32, bytes: &[u8]) -> (r: Result<DataSection>)
        ensures
            r is Ok <==> parse_section(typ, bytes@) is Some,
            r matches Ok(d) ==> Some(d@) == parse_section(typ, bytes@),
            r matches Err(e) ==> e is DecodeError,
    {
        if typ == PACK_TYPE {
            match PackageSection::decode(bytes) {
                Ok(p) => Ok(DataSection::PackageSection(p)),
                Err(e) => Err(e),
            }
        } else if typ == DEPTABLE_TYPE {
            match DepTableSection::decode(bytes) {
                Ok(d) => Ok(DataSection::DepTableSection(d)),
                Err(e) => Err(e),
            }
        } else if typ == CRATEBIN_TYPE {
            match CrateBinarySection::decode(bytes) {
                Ok(c) => Ok(DataSection::CrateBinarySection(c)),
                Err(e) => Err(e),
            }
        } else if typ == SIGSTRUCTURE_TYPE {
            match SigStructureSection::decode(bytes) {
                Ok(s) => Ok(DataSection::SigStructureSection(s)),
                Err(e) => Err(e),
            }
        } else {
            Err(CrateSpecError::DecodeError(String::from_str("unknown section type")))
        }
    }
}

} // verus!
