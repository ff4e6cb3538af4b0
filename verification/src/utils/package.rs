//! The container as a whole: header, section index, data sections, string
//! table and fingerprint, and how they are laid out in a file.
//!
//! The header takes 30 bytes: five magic bytes, the format version, and the
//! offset and size of the section index, of the data region and of the string
//! table, each a little-endian `u32`. The section index follows at once, then
//! the data sections without a gap, then the string table, then the 32 bytes
//! of the fingerprint.

use vstd::prelude::*;
use crate::error::{CrateSpecError, Result};
use crate::utils::index::{
    data_size,
    index_enc,
    is_sig,
    lemma_data_size_monotonic,
    lemma_index_enc_fixed,
    lemma_read_index_entry,
    packed_from,
    read_index_entry,
    sigs_last,
    SectionIndex,
    SectionIndexEntry,
};
use crate::utils::records::{
    lemma_records_chunk,
    lemma_records_len,
    lemma_records_step,
    records_bytes,
};
use crate::utils::section::{
    lemma_section_round_trip,
    parse_section,
    section_bytes,
    section_size,
    section_type,
    section_wf,
    SIGSTRUCTURE_TYPE,
    DataSection,
    DataSectionView,
};
use crate::utils::wire::{get_le32, le32, lemma_le32_round_trip, put_le32, read_le32, zeros};

verus! {

/// Bytes of the fingerprint at the end of a container.
pub const FINGERPRINT_LEN: usize = 32;

/// Bytes of the header at the start of a container.
pub const HEADER_LEN: usize = 30;

/// The format version that this library writes and reads.
pub const CRATE_VERSION: u8 = 1;

/// The greatest length of a container: every offset in it is a `u32`.
pub const MAX_FILE_LEN: u64 = 0xffff_ffff;

/// The five bytes that every container starts with.
pub open spec fn magic() -> Seq<u8> {
    seq![0x43u8, 0x52u8, 0x41u8, 0x54u8, 0x45u8]
}

/// The fixed header of a container.
#[derive(Debug, Clone, Copy)]
pub struct CrateHeader {
    /// The format version.
    pub c_version: u8,
    /// Where the section index starts.
    pub si_offset: u32,
    /// Bytes that the section index takes.
    pub si_size: u32,
    /// Where the data sections start.
    pub ds_offset: u32,
    /// Bytes that the data sections take together.
    pub ds_size: u32,
    /// Where the string table starts.
    pub strtable_offset: u32,
    /// Bytes that the string table takes.
    pub strtable_size: u32,
}

/// The wire form of a header.
pub open spec fn header_bytes(h: CrateHeader) -> Seq<u8> {
    magic() + seq![h.c_version] + le32(h.si_offset) + le32(h.si_size) + le32(h.ds_offset) + le32(
        h.ds_size,
    ) + le32(h.strtable_offset) + le32(h.strtable_size)
}

/// The header fields at the start of `bytes`.
pub open spec fn read_header(bytes: Seq<u8>) -> CrateHeader {
    CrateHeader {
        c_version: bytes[5],
        si_offset: read_le32(bytes, 6),
        si_size: read_le32(bytes, 10),
        ds_offset: read_le32(bytes, 14),
        ds_size: read_le32(bytes, 18),
        strtable_offset: read_le32(bytes, 22),
        strtable_size: read_le32(bytes, 26),
    }
}

/// The header that `bytes` start with, if they start with the magic bytes
/// and the format version of this library.
pub open spec fn parse_header(bytes: Seq<u8>) -> Option<CrateHeader> {
    if bytes.len() < 30 || bytes.subrange(0, 5) != magic() || bytes[5] != CRATE_VERSION {
        None
    } else {
        Some(read_header(bytes))
    }
}

/// A header whose wire form `bytes` start with is read back from them.
pub proof fn lemma_header_round_trip(bytes: Seq<u8>, h: CrateHeader)
    requires
        bytes.len() >= 30,
        bytes.subrange(0, 30) == header_bytes(h),
        h.c_version == CRATE_VERSION,
    ensures
        header_bytes(h).len() == 30,
        parse_header(bytes) == Some(h),
{
    let w = header_bytes(h);
    lemma_le32_round_trip(h.si_offset);
    lemma_le32_round_trip(h.si_size);
    lemma_le32_round_trip(h.ds_offset);
    lemma_le32_round_trip(h.ds_size);
    lemma_le32_round_trip(h.strtable_offset);
    lemma_le32_round_trip(h.strtable_size);
    assert(bytes.subrange(0, 5) =~= w.subrange(0, 5));
    assert(w.subrange(0, 5) =~= magic());
    assert(bytes[5] == w[5]);
    assert(bytes.subrange(6, 10) =~= w.subrange(6, 10));
    assert(w.subrange(6, 10) =~= le32(h.si_offset));
    assert(bytes.subrange(10, 14) =~= w.subrange(10, 14));
    assert(w.subrange(10, 14) =~= le32(h.si_size));
    assert(bytes.subrange(14, 18) =~= w.subrange(14, 18));
    assert(w.subrange(14, 18) =~= le32(h.ds_offset));
    assert(bytes.subrange(18, 22) =~= w.subrange(18, 22));
    assert(w.subrange(18, 22) =~= le32(h.ds_size));
    assert(bytes.subrange(22, 26) =~= w.subrange(22, 26));
    assert(w.subrange(22, 26) =~= le32(h.strtable_offset));
    assert(bytes.subrange(26, 30) =~= w.subrange(26, 30));
    assert(w.subrange(26, 30) =~= le32(h.strtable_size));
}

/// A header takes 30 bytes.
pub proof fn lemma_header_len(h: CrateHeader)
    ensures
        header_bytes(h).len() == 30,
{
    lemma_le32_round_trip(h.si_offset);
    lemma_le32_round_trip(h.si_size);
    lemma_le32_round_trip(h.ds_offset);
    lemma_le32_round_trip(h.ds_size);
    lemma_le32_round_trip(h.strtable_offset);
    lemma_le32_round_trip(h.strtable_size);
}

impl CrateHeader {
    /// A header of this library's format version with all offsets and sizes 0.
    pub fn new() -> (r: Self)
        ensures
            r == (CrateHeader {
                c_version: CRATE_VERSION,
                si_offset: 0,
                si_size: 0,
                ds_offset: 0,
                ds_size: 0,
                strtable_offset: 0,
                strtable_size: 0,
            }),
    {
        CrateHeader {
            c_version: CRATE_VERSION,
            si_offset: 0,
            si_size: 0,
            ds_offset: 0,
            ds_size: 0,
            strtable_offset: 0,
            strtable_size: 0,
        }
    }

    /// Appends the header's wire form to `out`.
    pub fn encode(&self, out: &mut Vec<u8>)
        ensures
            final(out)@ == old(out)@ + header_bytes(*self),
    {
        out.push(0x43u8);
        out.push(0x52u8);
        out.push(0x41u8);
        out.push(0x54u8);
        out.push(0x45u8);
        out.push(self.c_version);
        put_le32(out, self.si_offset);
        put_le32(out, self.si_size);
        put_le32(out, self.ds_offset);
        put_le32(out, self.ds_size);
        put_le32(out, self.strtable_offset);
        put_le32(out, self.strtable_size);
        proof {
            assert(out@ =~= old(out)@ + header_bytes(*self));
        }
    }

    /// Reads the header that `bytes` start with.
    pub fn decode(bytes: &[u8]) -> (r: Result<CrateHeader>)
        ensures
            r is Ok <==> parse_header(bytes@) is Some,
            r matches Ok(h) ==> Some(h) == parse_header(bytes@),
            r matches Err(e) ==> e is DecodeError,
    {
        let len: usize = bytes.len();
        if len < HEADER_LEN {
            return Err(CrateSpecError::DecodeError(String::from_str("header truncated")));
        }
        if bytes[0] != 0x43u8 || bytes[1] != 0x52u8 || bytes[2] != 0x41u8 || bytes[3] != 0x54u8
            || bytes[4] != 0x45u8 {
            proof {
                let m = bytes@.subrange(0, 5);
                assert(m[0] == bytes@[0] && m[1] == bytes@[1] && m[2] == bytes@[2] && m[3]
                    == bytes@[3] && m[4] == bytes@[4]);
            }
            return Err(CrateSpecError::DecodeError(String::from_str("bad magic bytes")));
        }
        proof {
            assert(bytes@.subrange(0, 5) =~= magic());
        }
        if bytes[5] != CRATE_VERSION {
            return Err(CrateSpecError::DecodeError(String::from_str("unknown format version")));
        }
        Ok(
            CrateHeader {
                c_version: bytes[5],
                si_offset: get_le32(bytes, 6),
                si_size: get_le32(bytes, 10),
                ds_offset: get_le32(bytes, 14),
                ds_size: get_le32(bytes, 18),
                strtable_offset: get_le32(bytes, 22),
                strtable_size: get_le32(bytes, 26),
            },
        )
    }
}

/// The values of a vector of data sections.
pub open spec fn sections_view(v: Seq<DataSection>) -> Seq<DataSectionView> {
    Seq::new(v.len(), |i: int| v[i]@)
}

/// The wire forms of the sections `ds`, one after the other.
pub open spec fn sections_bytes(ds: Seq<DataSectionView>) -> Seq<u8>
    decreases ds.len(),
{
    if ds.len() == 0 {
        Seq::empty()
    } else {
        sections_bytes(ds.drop_last()) + section_bytes(ds.last())
    }
}

/// Bytes that the sections `ds` take together.
pub open spec fn sections_size(ds: Seq<DataSectionView>) -> int
    decreases ds.len(),
{
    if ds.len() == 0 {
        0
    } else {
        sections_size(ds.drop_last()) + section_size(ds.last())
    }
}

/// Every section of `ds` can be written.
pub open spec fn sections_wf(ds: Seq<DataSectionView>) -> bool {
    forall|i: int| 0 <= i < ds.len() ==> section_wf(#[trigger] ds[i])
}

/// No signature structure stands before a section of another type.
pub open spec fn sections_sigs_last(ds: Seq<DataSectionView>) -> bool {
    forall|i: int, j: int|
        0 <= i < j < ds.len() && (#[trigger] ds[i]) is SigStructure ==> (
        #[trigger] ds[j]) is SigStructure
}

/// A container in memory.
#[derive(Debug)]
pub struct CratePackage {
    pub crate_header: CrateHeader,
    pub section_index: SectionIndex,
    pub data_sections: Vec<DataSection>,
    pub string_table: Vec<u8>,
    pub finger_print: Vec<u8>,
}

/// The value of a container.
pub struct CratePackageView {
    pub header: CrateHeader,
    pub index: Seq<SectionIndexEntry>,
    pub sections: Seq<DataSectionView>,
    pub string_table: Seq<u8>,
    pub fingerprint: Seq<u8>,
}

impl View for CratePackage {
    type V = CratePackageView;

    open spec fn view(&self) -> CratePackageView {
        CratePackageView {
            header: self.crate_header,
            index: self.section_index@,
            sections: sections_view(self.data_sections@),
            string_table: self.string_table@,
            fingerprint: self.finger_print@,
        }
    }
}

/// The index entry that lists section `i` of `ds` in a container whose data
/// region starts at `ds_offset`.
pub open spec fn entry_for(ds: Seq<DataSectionView>, ds_offset: int, i: int) -> SectionIndexEntry {
    SectionIndexEntry {
        sh_type: section_type(ds[i]),
        sh_offset: (ds_offset + sections_size(ds.take(i))) as u32,
        sh_size: section_size(ds[i]) as u32,
    }
}

/// The section index of a container that holds the sections `ds`.
pub open spec fn index_for(ds: Seq<DataSectionView>) -> Seq<SectionIndexEntry> {
    Seq::new(ds.len(), |i: int| entry_for(ds, 30 + 12 * (ds.len() as int), i))
}

/// The header of a container that holds the sections `ds` and a string
/// table of `st_len` bytes.
pub open spec fn header_for(ds: Seq<DataSectionView>, st_len: int) -> CrateHeader {
    CrateHeader {
        c_version: CRATE_VERSION,
        si_offset: 30,
        si_size: (12 * ds.len()) as u32,
        ds_offset: (30 + 12 * ds.len()) as u32,
        ds_size: sections_size(ds) as u32,
        strtable_offset: (30 + 12 * ds.len() + sections_size(ds)) as u32,
        strtable_size: st_len as u32,
    }
}

/// The length of a container that holds the sections `ds` and a string
/// table of `st_len` bytes.
pub open spec fn file_len(ds: Seq<DataSectionView>, st_len: int) -> int {
    30 + 12 * (ds.len() as int) + sections_size(ds) + st_len + 32
}

/// The sections `ds` and a string table of `st_len` bytes can be laid out
/// as a container.
pub open spec fn can_assemble(ds: Seq<DataSectionView>, st_len: int) -> bool {
    &&& sections_wf(ds)
    &&& sections_sigs_last(ds)
    &&& file_len(ds, st_len) <= MAX_FILE_LEN
}

/// The header and the index of the container are those that its sections
/// and its string table call for, and its fingerprint has 32 bytes.
pub open spec fn layout_wf(p: CratePackageView) -> bool {
    &&& can_assemble(p.sections, p.string_table.len() as int)
    &&& p.header == header_for(p.sections, p.string_table.len() as int)
    &&& p.index == index_for(p.sections)
    &&& p.fingerprint.len() == 32
}

/// The container without its fingerprint, as it stands in a file.
pub open spec fn body_bytes(p: CratePackageView) -> Seq<u8> {
    header_bytes(p.header) + records_bytes(p.index, index_enc()) + sections_bytes(p.sections)
        + p.string_table
}

/// The container as it stands in a file.
pub open spec fn image_bytes(p: CratePackageView) -> Seq<u8> {
    body_bytes(p) + p.fingerprint
}

/// The `count` index entries that follow the header in `bytes`.
pub open spec fn read_index(bytes: Seq<u8>, count: int) -> Seq<SectionIndexEntry> {
    Seq::new(count as nat, |i: int| read_index_entry(bytes, 30 + 12 * i))
}

/// The bytes of the section that `e` lists.
pub open spec fn section_slice(bytes: Seq<u8>, e: SectionIndexEntry) -> Seq<u8> {
    bytes.subrange(e.sh_offset as int, e.sh_offset + e.sh_size)
}

/// The section that `e` lists, read under the type that `e` gives it.
pub open spec fn parse_section_at(bytes: Seq<u8>, e: SectionIndexEntry) -> Option<DataSectionView> {
    parse_section(e.sh_type, section_slice(bytes, e))
}

/// Every section that `index` lists can be read.
pub open spec fn sections_parse(bytes: Seq<u8>, index: Seq<SectionIndexEntry>) -> bool {
    forall|i: int| 0 <= i < index.len() ==> parse_section_at(bytes, #[trigger] index[i]) is Some
}

/// The sections that `index` lists, as read from `bytes`.
pub open spec fn parsed_sections(bytes: Seq<u8>, index: Seq<SectionIndexEntry>) -> Seq<
    DataSectionView,
> {
    Seq::new(index.len(), |i: int| parse_section_at(bytes, index[i]).unwrap())
}

/// The regions that the header names follow one another without a gap and
/// fill a file of `len` bytes up to its fingerprint.
pub open spec fn header_consistent(h: CrateHeader, len: int) -> bool {
    &&& h.si_offset == 30
    &&& h.si_size % 12 == 0
    &&& h.ds_offset == h.si_offset + h.si_size
    &&& h.strtable_offset == h.ds_offset + h.ds_size
    &&& h.strtable_offset + h.strtable_size + 32 == len
}

/// The container that `bytes` hold, or `None` where `bytes` are not a
/// well-formed container.
pub open spec fn parse_image(bytes: Seq<u8>) -> Option<CratePackageView> {
    match parse_header(bytes) {
        None => None,
        Some(h) => {
            let index = read_index(bytes, h.si_size as int / 12);
            if !header_consistent(h, bytes.len() as int) || !packed_from(index, h.ds_offset as int)
                || data_size(index) != h.ds_size || !sigs_last(index) || !sections_parse(
                bytes,
                index,
            ) {
                None
            } else {
                Some(
                    CratePackageView {
                        header: h,
                        index,
                        sections: parsed_sections(bytes, index),
                        string_table: bytes.subrange(
                            h.strtable_offset as int,
                            h.strtable_offset + h.strtable_size,
                        ),
                        fingerprint: bytes.subrange(bytes.len() - 32, bytes.len() as int),
                    },
                )
            }
        },
    }
}

/// Sections take no negative room.
pub proof fn lemma_sections_size_nonneg(ds: Seq<DataSectionView>)
    ensures
        0 <= sections_size(ds),
    decreases ds.len(),
{
    if ds.len() > 0 {
        lemma_sections_size_nonneg(ds.drop_last());
    }
}

/// Sizes add up along the sections.
pub proof fn lemma_sections_size_monotonic(ds: Seq<DataSectionView>, i: int, j: int)
    requires
        0 <= i <= j <= ds.len(),
    ensures
        0 <= sections_size(ds.take(i)) <= sections_size(ds.take(j)),
        i < j ==> sections_size(ds.take(i)) + section_size(ds[i]) <= sections_size(ds.take(j)),
        0 <= section_size(ds[i]) || i == ds.len(),
    decreases j - i,
{
    lemma_sections_size_nonneg(ds.take(i));
    if i < j {
        assert(ds.take(j).drop_last() =~= ds.take(j - 1));
        assert(ds.take(j).last() == ds[j - 1]);
        lemma_sections_size_monotonic(ds, i, j - 1);
    }
}

/// The wire form of sections that can be written is as long as their sizes say.
pub proof fn lemma_sections_bytes_len(ds: Seq<DataSectionView>)
    requires
        sections_wf(ds),
    ensures
        sections_bytes(ds).len() == sections_size(ds),
    decreases ds.len(),
{
    if ds.len() > 0 {
        assert forall|i: int| 0 <= i < ds.drop_last().len() implies section_wf(
            #[trigger] ds.drop_last()[i],
        ) by {
            assert(ds.drop_last()[i] == ds[i]);
        }
        lemma_sections_bytes_len(ds.drop_last());
        assert(section_wf(ds[ds.len() - 1]));
        lemma_section_round_trip(ds.last());
    }
}

/// Section `i` stands in the data region at the sum of the sizes before it.
pub proof fn lemma_sections_chunk(ds: Seq<DataSectionView>, i: int)
    requires
        sections_wf(ds),
        0 <= i < ds.len(),
    ensures
        0 <= sections_size(ds.take(i)),
        sections_size(ds.take(i)) + section_size(ds[i]) <= sections_bytes(ds).len(),
        sections_bytes(ds).subrange(
            sections_size(ds.take(i)),
            sections_size(ds.take(i)) + section_size(ds[i]),
        ) == section_bytes(ds[i]),
    decreases ds.len(),
{
    let init = ds.drop_last();
    let last = ds.len() - 1;
    assert forall|k: int| 0 <= k < init.len() implies section_wf(#[trigger] init[k]) by {
        assert(init[k] == ds[k]);
    }
    lemma_sections_bytes_len(ds);
    lemma_sections_bytes_len(init);
    assert(section_wf(ds[last]));
    lemma_section_round_trip(ds.last());
    lemma_sections_size_nonneg(ds.take(i));
    if i == last {
        assert(ds.take(i) =~= init);
        assert(sections_bytes(ds).subrange(
            sections_size(ds.take(i)),
            sections_size(ds.take(i)) + section_size(ds[i]),
        ) =~= section_bytes(ds[i]));
    } else {
        lemma_sections_chunk(init, i);
        assert(ds.take(i) =~= init.take(i));
        assert(init[i] == ds[i]);
        assert(sections_bytes(ds).subrange(
            sections_size(ds.take(i)),
            sections_size(ds.take(i)) + section_size(ds[i]),
        ) =~= sections_bytes(init).subrange(
            sections_size(ds.take(i)),
            sections_size(ds.take(i)) + section_size(ds[i]),
        ));
    }
}

/// In the index made for the sections `ds`, the sizes of the first `i`
/// entries add up to the sizes of the first `i` sections.
pub proof fn lemma_index_for_sizes(ds: Seq<DataSectionView>, st_len: int, i: int)
    requires
        can_assemble(ds, st_len),
        0 <= st_len,
        0 <= i <= ds.len(),
    ensures
        data_size(index_for(ds).take(i)) == sections_size(ds.take(i)),
    decreases i,
{
    let index = index_for(ds);
    if i == 0 {
        assert(index.take(0) =~= Seq::<SectionIndexEntry>::empty());
        assert(ds.take(0) =~= Seq::<DataSectionView>::empty());
    } else {
        lemma_index_for_sizes(ds, st_len, i - 1);
        assert(index.take(i).drop_last() =~= index.take(i - 1));
        assert(index.take(i).last() == index[i - 1]);
        assert(ds.take(i).drop_last() =~= ds.take(i - 1));
        assert(ds.take(i).last() == ds[i - 1]);
        lemma_sections_size_monotonic(ds, i - 1, ds.len() as int);
        assert(ds.take(ds.len() as int) =~= ds);
    }
}

/// The parts of the file image of a well-formed container have the
/// lengths that its header states.
pub proof fn lemma_image_lengths(p: CratePackageView)
    requires
        layout_wf(p),
    ensures
        header_bytes(p.header).len() == 30,
        records_bytes(p.index, index_enc()).len() == 12 * p.sections.len(),
        sections_bytes(p.sections).len() == sections_size(p.sections),
        0 <= sections_size(p.sections),
        image_bytes(p).len() == file_len(p.sections, p.string_table.len() as int),
        image_bytes(p).subrange(0, 30) == header_bytes(p.header),
        header_consistent(p.header, image_bytes(p).len() as int),
        p.header.si_size as int / 12 == p.sections.len(),
{
    lemma_header_len(p.header);
    lemma_index_enc_fixed();
    lemma_records_len(p.index, index_enc(), 12);
    lemma_sections_bytes_len(p.sections);
    lemma_sections_size_nonneg(p.sections);
    assert(image_bytes(p).subrange(0, 30) =~= header_bytes(p.header));
}

/// The section index is read back from the file image of a well-formed
/// container.
pub proof fn lemma_image_index(p: CratePackageView)
    requires
        layout_wf(p),
    ensures
        read_index(image_bytes(p), p.sections.len() as int) == p.index,
{
    let bytes = image_bytes(p);
    let n = p.sections.len() as int;
    let idx = records_bytes(p.index, index_enc());
    lemma_image_lengths(p);
    let index = read_index(bytes, n);
    assert forall|i: int| 0 <= i < n implies index[i] == p.index[i] by {
        lemma_index_enc_fixed();
        lemma_records_chunk(p.index, index_enc(), 12, i);
        assert(bytes.subrange(30 + 12 * i, 30 + 12 * i + 12) =~= idx.subrange(12 * i, 12 * i + 12));
        lemma_read_index_entry(bytes, 30 + 12 * i, p.index[i]);
    }
    assert(index =~= p.index);
}

/// The section index of a well-formed container lists packed sections
/// that fill the data region, signatures last.
pub proof fn lemma_index_for_packed(p: CratePackageView)
    requires
        layout_wf(p),
    ensures
        packed_from(p.index, p.header.ds_offset as int),
        data_size(p.index) == p.header.ds_size,
        sigs_last(p.index),
{
    let ds = p.sections;
    let n = ds.len() as int;
    let st_len = p.string_table.len() as int;
    let index = p.index;
    let h = p.header;
    lemma_sections_size_nonneg(ds);
    assert forall|i: int| 0 <= i < n implies (#[trigger] index[i]).sh_offset == h.ds_offset
        + data_size(index.take(i)) by {
        lemma_index_for_sizes(ds, st_len, i);
        lemma_sections_size_monotonic(ds, i, n);
        assert(ds.take(n) =~= ds);
    }
    assert(data_size(index) == h.ds_size) by {
        lemma_index_for_sizes(ds, st_len, n);
        assert(index.take(n) =~= index);
        assert(ds.take(n) =~= ds);
    }
    assert forall|i: int, j: int| 0 <= i < j < n && is_sig(#[trigger] index[i]) implies is_sig(
        #[trigger] index[j],
    ) by {
        assert(ds[i] is SigStructure);
        assert(ds[j] is SigStructure);
    }
}

/// Section `i` is read back from the file image of a well-formed container.
pub proof fn lemma_image_section(p: CratePackageView, i: int)
    requires
        layout_wf(p),
        0 <= i < p.sections.len(),
    ensures
        parse_section_at(image_bytes(p), p.index[i]) == Some(p.sections[i]),
{
    let bytes = image_bytes(p);
    let ds = p.sections;
    let n = ds.len() as int;
    let data = sections_bytes(ds);
    lemma_image_lengths(p);
    lemma_sections_chunk(ds, i);
    lemma_sections_size_monotonic(ds, i, n);
    assert(ds.take(n) =~= ds);
    assert(section_wf(ds[i]));
    lemma_section_round_trip(ds[i]);
    assert(section_slice(bytes, p.index[i]) =~= data.subrange(
        sections_size(ds.take(i)),
        sections_size(ds.take(i)) + section_size(ds[i]),
    ));
}

/// Reading the file image of a well-formed container gives the container back.
pub proof fn lemma_image_round_trip(p: CratePackageView)
    requires
        layout_wf(p),
    ensures
        parse_image(image_bytes(p)) == Some(p),
{
    let bytes = image_bytes(p);
    let h = p.header;
    lemma_image_lengths(p);
    lemma_header_round_trip(bytes, h);
    lemma_image_index(p);
    lemma_index_for_packed(p);
    let index = read_index(bytes, h.si_size as int / 12);
    assert(index == p.index);
    assert forall|i: int| 0 <= i < index.len() implies parse_section_at(bytes, #[trigger] index[i])
        == Some(p.sections[i]) by {
        lemma_image_section(p, i);
    }
    assert(parsed_sections(bytes, index) =~= p.sections);
    assert(bytes.subrange(h.strtable_offset as int, h.strtable_offset + h.strtable_size)
        =~= p.string_table);
    assert(bytes.subrange(bytes.len() - 32, bytes.len() as int) =~= p.fingerprint);
}

impl CratePackage {
    /// An empty container: no sections, no strings, a fingerprint of zeros.
    pub fn new() -> (r: Self)
        ensures
            r@.index == Seq::<SectionIndexEntry>::empty(),
            r@.sections == Seq::<DataSectionView>::empty(),
            r@.string_table == Seq::<u8>::empty(),
            r@.fingerprint == zeros(32),
    {
        let mut fp: Vec<u8> = Vec::new();
        crate::utils::wire::put_zeros(&mut fp, FINGERPRINT_LEN);
        let r = CratePackage {
            crate_header: CrateHeader::new(),
            section_index: SectionIndex::new(),
            data_sections: Vec::new(),
            string_table: Vec::new(),
            finger_print: fp,
        };
        proof {
            assert(r@.sections =~= Seq::<DataSectionView>::empty());
            assert(r@.fingerprint =~= zeros(32));
        }
        r
    }

    /// Lays the sections and the string table out as a container: computes
    /// the section index and the header. The fingerprint is left as zeros.
    ///
    /// Fails with an encode error where a section cannot be written, where a
    /// signature structure stands before a section of another type, or where
    /// the file would be longer than 32-bit offsets can address.
    pub fn assemble(sections: Vec<DataSection>, string_table: Vec<u8>) -> (r: Result<CratePackage>)
        ensures
            r is Ok <==> can_assemble(sections_view(sections@), string_table@.len() as int),
            r matches Ok(p) ==> layout_wf(p@) && p@.sections == sections_view(sections@)
                && p@.string_table == string_table@ && p@.fingerprint == zeros(32),
            r matches Err(e) ==> e is EncodeError,
    {
        let ghost ds = sections_view(sections@);
        let ghost st_len = string_table@.len() as int;
        let n: usize = sections.len();
        proof {
            lemma_sections_size_nonneg(ds);
        }
        if n > 0x1555_5550 {
            return Err(CrateSpecError::EncodeError(String::from_str("too many sections")));
        }
        let ds_offset: u64 = 30 + 12 * (n as u64);
        let mut pos: u64 = ds_offset;
        let mut entries: Vec<SectionIndexEntry> = Vec::new();
        let mut seen_sig: bool = false;
        let ghost mut witness: int = 0;
        let mut i: usize = 0;
        proof {
            assert(ds.take(0) =~= Seq::<DataSectionView>::empty());
            assert(entries@ =~= index_for(ds).take(0));
        }
        while i < n
            invariant
                i <= n == sections@.len(),
                n <= 0x1555_5550,
                ds == sections_view(sections@),
                ds_offset == 30 + 12 * n,
                pos == ds_offset + sections_size(ds.take(i as int)),
                pos <= MAX_FILE_LEN,
                entries@ == index_for(ds).take(i as int),
                forall|j: int| 0 <= j < i ==> section_wf(#[trigger] ds[j]),
                forall|a: int, b: int|
                    0 <= a < b < i && (#[trigger] ds[a]) is SigStructure ==> (
                    #[trigger] ds[b]) is SigStructure,
                seen_sig ==> 0 <= witness < i && ds[witness] is SigStructure,
                !seen_sig ==> forall|j: int| 0 <= j < i ==> !((#[trigger] ds[j]) is SigStructure),
            decreases n - i,
        {
            proof {
                assert(ds[i as int] == sections@[i as int]@);
                assert(ds.take(i + 1).drop_last() =~= ds.take(i as int));
                assert(ds.take(i + 1).last() == ds[i as int]);
                lemma_sections_size_monotonic(ds, i as int, n as int);
                lemma_sections_size_monotonic(ds, i + 1, n as int);
                assert(ds.take(n as int) =~= ds);
            }
            let size: u32 = match sections[i].wire_size() {
                None => {
                    return Err(CrateSpecError::EncodeError(String::from_str("section cannot be written")));
                },
                Some(size) => size,
            };
            let t: u32 = sections[i].type_number();
            if seen_sig && t != SIGSTRUCTURE_TYPE {
                return Err(CrateSpecError::EncodeError(String::from_str("signature before another section")));
            }
            if pos + size as u64 > MAX_FILE_LEN {
                return Err(CrateSpecError::EncodeError(String::from_str("container too large")));
            }
            if t == SIGSTRUCTURE_TYPE {
                seen_sig = true;
                proof {
                    witness = i as int;
                }
            }
            entries.push(SectionIndexEntry { sh_type: t, sh_offset: pos as u32, sh_size: size });
            pos = pos + size as u64;
            i = i + 1;
            proof {
                assert(entries@ =~= index_for(ds).take(i as int));
            }
        }
        proof {
            assert(ds.take(n as int) =~= ds);
            assert(index_for(ds).take(n as int) =~= index_for(ds));
        }
        let st: usize = string_table.len();
        if st as u64 > MAX_FILE_LEN || pos + st as u64 + 32 > MAX_FILE_LEN {
            return Err(CrateSpecError::EncodeError(String::from_str("container too large")));
        }
        let header = CrateHeader {
            c_version: CRATE_VERSION,
            si_offset: 30,
            si_size: (12 * n) as u32,
            ds_offset: ds_offset as u32,
            ds_size: (pos - ds_offset) as u32,
            strtable_offset: pos as u32,
            strtable_size: st as u32,
        };
        let mut fp: Vec<u8> = Vec::new();
        crate::utils::wire::put_zeros(&mut fp, FINGERPRINT_LEN);
        let r = CratePackage {
            crate_header: header,
            section_index: SectionIndex { entries },
            data_sections: sections,
            string_table,
            finger_print: fp,
        };
        proof {
            assert(r@.fingerprint =~= zeros(32));
        }
        Ok(r)
    }

    /// The container without its fingerprint, as it stands in a file.
    pub fn encode_body(&self) -> (r: Vec<u8>)
        requires
            layout_wf(self@),
        ensures
            r@ == body_bytes(self@),
    {
        let ghost ds = self@.sections;
        let ghost index = self@.index;
        let mut out: Vec<u8> = Vec::new();
        self.crate_header.encode(&mut out);
        let ghost head = out@;
        let mut i: usize = 0;
        proof {
            assert(index.take(0) =~= Seq::<SectionIndexEntry>::empty());
            assert(out@ =~= head + records_bytes(index.take(0), index_enc()));
        }
        while i < self.section_index.entries.len()
            invariant
                i <= self.section_index.entries@.len(),
                index == self.section_index.entries@,
                out@ == head + records_bytes(index.take(i as int), index_enc()),
            decreases self.section_index.entries@.len() - i,
        {
            proof {
                lemma_records_step(index, index_enc(), i as int);
            }
            self.section_index.entries[i].encode(&mut out);
            i = i + 1;
            proof {
                assert(out@ =~= head + records_bytes(index.take(i as int), index_enc()));
            }
        }
        proof {
            assert(index.take(i as int) =~= index);
        }
        let ghost mid = out@;
        let mut k: usize = 0;
        proof {
            assert(ds.take(0) =~= Seq::<DataSectionView>::empty());
            assert(out@ =~= mid + sections_bytes(ds.take(0)));
        }
        while k < self.data_sections.len()
            invariant
                k <= self.data_sections@.len(),
                ds == sections_view(self.data_sections@),
                sections_wf(ds),
                out@ == mid + sections_bytes(ds.take(k as int)),
            decreases self.data_sections@.len() - k,
        {
            proof {
                assert(ds[k as int] == self.data_sections@[k as int]@);
                assert(section_wf(ds[k as int]));
                assert(ds.take(k + 1).drop_last() =~= ds.take(k as int));
                assert(ds.take(k + 1).last() == ds[k as int]);
            }
            self.data_sections[k].encode(&mut out);
            k = k + 1;
            proof {
                assert(out@ =~= mid + sections_bytes(ds.take(k as int)));
            }
        }
        proof {
            assert(ds.take(k as int) =~= ds);
        }
        out.extend_from_slice(self.string_table.as_slice());
        proof {
            assert(out@ =~= body_bytes(self@));
        }
        out
    }

    /// The container as it stands in a file.
    pub fn encode_to_vec(&self) -> (r: Vec<u8>)
        requires
            layout_wf(self@),
        ensures
            r@ == image_bytes(self@),
    {
        let mut out: Vec<u8> = self.encode_body();
        out.extend_from_slice(self.finger_print.as_slice());
        out
    }

    /// Reads a container from the bytes of a file.
    ///
    /// Fails with a decode error where the bytes are not a well-formed
    /// container.
    pub fn decode_from_slice(bin: &[u8]) -> (r: Result<CratePackage>)
        ensures
            r is Ok <==> parse_image(bin@) is Some,
            r matches Ok(p) ==> Some(p@) == parse_image(bin@),
            r matches Err(e) ==> e is DecodeError,
    {
        let len: usize = bin.len();
        let h: CrateHeader = match CrateHeader::decode(bin) {
            Ok(h) => h,
            Err(e) => {
                return Err(e);
            },
        };
        if h.si_offset != 30 || h.si_size % 12 != 0 || h.ds_offset as u64 != 30 + h.si_size as u64
            || h.strtable_offset as u64 != h.ds_offset as u64 + h.ds_size as u64
            || h.strtable_offset as u64 + h.strtable_size as u64 + 32 != len as u64 {
            return Err(CrateSpecError::DecodeError(String::from_str("inconsistent header")));
        }
        let count: usize = (h.si_size / 12) as usize;
        let ds_end: u64 = h.ds_offset as u64 + h.ds_size as u64;
        let ghost index = read_index(bin@, h.si_size as int / 12);
        let mut entries: Vec<SectionIndexEntry> = Vec::new();
        let mut sections: Vec<DataSection> = Vec::new();
        let mut pos: u64 = h.ds_offset as u64;
        let mut seen_sig: bool = false;
        let ghost mut witness: int = 0;
        let mut i: usize = 0;
        proof {
            assert(index.take(0) =~= Seq::<SectionIndexEntry>::empty());
            assert(sections_view(sections@) =~= parsed_sections(bin@, index).take(0));
        }
        while i < count
            invariant
                i <= count == index.len(),
                len == bin@.len(),
                parse_header(bin@) == Some(h),
                header_consistent(h, len as int),
                index == read_index(bin@, h.si_size as int / 12),
                count == h.si_size as int / 12,
                ds_end == h.ds_offset + h.ds_size,
                entries@ == index.take(i as int),
                sections@.len() == i,
                sections_view(sections@) == parsed_sections(bin@, index).take(i as int),
                pos == h.ds_offset + data_size(index.take(i as int)),
                pos <= ds_end,
                forall|j: int|
                    0 <= j < i ==> (#[trigger] index[j]).sh_offset == h.ds_offset + data_size(
                        index.take(j),
                    ),
                forall|j: int| 0 <= j < i ==> parse_section_at(bin@, #[trigger] index[j]) is Some,
                forall|a: int, b: int|
                    0 <= a < b < i && is_sig(#[trigger] index[a]) ==> is_sig(#[trigger] index[b]),
                seen_sig ==> 0 <= witness < i && is_sig(index[witness]),
                !seen_sig ==> forall|j: int| 0 <= j < i ==> !is_sig(#[trigger] index[j]),
            decreases count - i,
        {
            let e: SectionIndexEntry = SectionIndexEntry::decode_at(bin, 30 + 12 * i);
            proof {
                assert(e == index[i as int]);
                assert(index.take(i + 1).drop_last() =~= index.take(i as int));
                assert(index.take(i + 1).last() == index[i as int]);
                lemma_data_size_monotonic(index, i + 1, index.len() as int);
                assert(index.take(index.len() as int) =~= index);
            }
            if e.sh_offset as u64 != pos {
                return Err(CrateSpecError::DecodeError(String::from_str("sections are not packed")));
            }
            if pos + e.sh_size as u64 > ds_end {
                return Err(CrateSpecError::DecodeError(String::from_str("section exceeds the data region")));
            }
            if seen_sig && e.sh_type != SIGSTRUCTURE_TYPE {
                proof {
                    assert(is_sig(index[witness]));
                    assert(!is_sig(index[i as int]));
                }
                return Err(CrateSpecError::DecodeError(String::from_str("signature before another section")));
            }
            let slice = vstd::slice::slice_subrange(
                bin,
                e.sh_offset as usize,
                e.sh_offset as usize + e.sh_size as usize,
            );
            proof {
                assert(slice@ == section_slice(bin@, e));
            }
            let section: DataSection = match DataSection::decode(e.sh_type, slice) {
                Ok(s) => s,
                Err(err) => {
                    proof {
                        assert(parse_section_at(bin@, index[i as int]) is None);
                    }
                    return Err(err);
                },
            };
            if e.sh_type == SIGSTRUCTURE_TYPE {
                seen_sig = true;
                proof {
                    witness = i as int;
                }
            }
            let ghost before = sections@;
            let ghost value = section@;
            proof {
                assert(Some(value) == parse_section_at(bin@, index[i as int]));
            }
            entries.push(e);
            sections.push(section);
            pos = pos + e.sh_size as u64;
            i = i + 1;
            proof {
                assert(entries@ =~= index.take(i as int));
                let now = sections_view(sections@);
                let want = parsed_sections(bin@, index).take(i as int);
                assert forall|j: int| 0 <= j < i implies now[j] == want[j] by {
                    if j < i - 1 {
                        assert(sections@[j] == before[j]);
                        assert(sections_view(before)[j] == parsed_sections(bin@, index).take(i - 1)[j]);
                    } else {
                        assert(sections@[j]@ == value);
                    }
                }
                assert(now =~= want);
            }
        }
        proof {
            assert(index.take(count as int) =~= index);
            assert(parsed_sections(bin@, index).take(count as int) =~= parsed_sections(bin@, index));
        }
        if pos != ds_end {
            return Err(CrateSpecError::DecodeError(String::from_str("data region is not filled")));
        }
        let string_table = vstd::slice::slice_to_vec(
            vstd::slice::slice_subrange(
                bin,
                h.strtable_offset as usize,
                h.strtable_offset as usize + h.strtable_size as usize,
            ),
        );
        let finger_print = vstd::slice::slice_to_vec(
            vstd::slice::slice_subrange(bin, len - FINGERPRINT_LEN, len),
        );
        Ok(
            CratePackage {
                crate_header: h,
                section_index: SectionIndex { entries },
                data_sections: sections,
                string_table,
                finger_print,
            },
        )
    }
}

} // verus!
