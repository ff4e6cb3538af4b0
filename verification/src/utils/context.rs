//! The package in memory: its own description, its dependencies, the
//! wrapped archive and its signature records, and how each of them is
//! written to and read from its data section.

use vstd::prelude::*;
use vstd::string::*;
use crate::error::{CrateSpecError, Result};
use crate::network::{network_signature_from, KeyPair, NetworkSignature, PkiClient};
use crate::utils::pkcs::PKCS;
use crate::utils::section::{
    MAX_SRC_TYPE,
    SIG_NETWORK,
    CrateBinarySection,
    DepTableEntry,
    PackageSection,
    PackageSectionView,
    SigStructureSection,
    SigStructureView,
};
use crate::utils::strtab::{
    add_entry_size,
    capped,
    entry_size,
    insert_entries,
    insert_offset,
    intern_all,
    lemma_insert_idempotent,
    lemma_insert_size,
    lemma_insert_stable,
    lemma_intern_all_size,
    lemma_table_size_concat,
    lemma_table_size_nonneg,
    lemma_table_size_prefix,
    lemma_table_size_small,
    lookup,
    orderly,
    strings_of,
    table_size,
    StringTable,
    TableView,
};

verus! {

/// Number of data sections that are not signatures.
pub const NOT_SIG_NUM: usize = 3;

/// What a signature covers and who makes it.
pub enum SIGTYPE {
    /// The canonical file image, signed locally.
    FILE,
    /// The crate binary, signed locally.
    CRATEBIN,
    /// The crate binary, signed by the PKI service.
    NETWORK,
}

impl SIGTYPE {
    /// The number that stands for the signature type on the wire.
    pub open spec fn spec_as_u32(&self) -> u32 {
        match self {
            SIGTYPE::FILE => 0,
            SIGTYPE::CRATEBIN => 1,
            SIGTYPE::NETWORK => 2,
        }
    }

    /// The number that stands for the signature type on the wire.
    pub fn as_u32(&self) -> (r: u32)
        ensures
            r == self.spec_as_u32(),
    {
        match self {
            SIGTYPE::FILE => 0,
            SIGTYPE::CRATEBIN => 1,
            SIGTYPE::NETWORK => 2,
        }
    }
}

/// The types of data section.
pub enum DATASECTIONTYPE {
    PACK,
    DEPTABLE,
    CRATEBIN,
    SIGSTRUCTURE,
}

impl DATASECTIONTYPE {
    /// The number that stands for the section type on the wire.
    pub open spec fn spec_as_u8(&self) -> u8 {
        match self {
            DATASECTIONTYPE::PACK => 0,
            DATASECTIONTYPE::DEPTABLE => 1,
            DATASECTIONTYPE::CRATEBIN => 3,
            DATASECTIONTYPE::SIGSTRUCTURE => 4,
        }
    }

    /// The number that stands for the section type on the wire.
    pub fn as_u8(&self) -> (r: u8)
        ensures
            r == self.spec_as_u8(),
    {
        match self {
            DATASECTIONTYPE::PACK => 0,
            DATASECTIONTYPE::DEPTABLE => 1,
            DATASECTIONTYPE::CRATEBIN => 3,
            DATASECTIONTYPE::SIGSTRUCTURE => 4,
        }
    }
}

/// The offset at which the table `table` holds `s`, as a section stores it.
pub open spec fn off_in(table: TableView, s: Seq<char>) -> u32 {
    insert_offset(table, s) as u32
}

/// In an orderly table whose bytes fit 32-bit offsets, the offset of a
/// string that the table holds fits them too, and looking it up finds the
/// string.
pub proof fn lemma_off_in(table: TableView, s: Seq<char>)
    requires
        orderly(table),
        table.contains(s),
        table.total <= u32::MAX,
    ensures
        off_in(table, s) == insert_offset(table, s),
        lookup(table, off_in(table, s) as int) == Some(s),
{
    assert(table.by_str.contains_key(s));
    assert(table.by_off.contains_key(table.by_str[s]));
}

/// The description of a package.
#[derive(Debug, PartialEq)]
pub struct PackageInfo {
    pub name: String,
    pub version: String,
    pub license: String,
    pub authors: Vec<String>,
}

/// The value of a `PackageInfo`.
pub struct PackageInfoView {
    pub name: Seq<char>,
    pub version: Seq<char>,
    pub license: Seq<char>,
    pub authors: Seq<Seq<char>>,
}

impl View for PackageInfo {
    type V = PackageInfoView;

    open spec fn view(&self) -> PackageInfoView {
        PackageInfoView {
            name: self.name@,
            version: self.version@,
            license: self.license@,
            authors: strings_of(self.authors@),
        }
    }
}

/// The strings of a package's description, in the order in which they are
/// put into the string table.
pub open spec fn info_strings(p: PackageInfoView) -> Seq<Seq<char>> {
    seq![p.name, p.version, p.license] + p.authors
}

/// The package section that describes `p` over the string table `table`.
pub open spec fn package_section_of(p: PackageInfoView, table: TableView) -> PackageSectionView {
    PackageSectionView {
        name: off_in(table, p.name),
        version: off_in(table, p.version),
        license: off_in(table, p.license),
        authors: Seq::new(p.authors.len(), |i: int| off_in(table, p.authors[i])),
    }
}

/// Every author offset of `offs` starts an entry of `table`.
pub open spec fn authors_resolve(offs: Seq<u32>, table: TableView) -> bool {
    forall|i: int| 0 <= i < offs.len() ==> lookup(table, (#[trigger] offs[i]) as int) is Some
}

/// The authors that the offsets `offs` name in `table`.
pub open spec fn authors_at(offs: Seq<u32>, table: TableView) -> Seq<Seq<char>> {
    Seq::new(offs.len(), |i: int| lookup(table, offs[i] as int).unwrap())
}

/// The description that the package section `ps` gives over `table`, or
/// `None` where one of its offsets starts no entry.
pub open spec fn read_package_info(ps: PackageSectionView, table: TableView) -> Option<
    PackageInfoView,
> {
    if lookup(table, ps.name as int) is None || lookup(table, ps.version as int) is None || lookup(
        table,
        ps.license as int,
    ) is None || !authors_resolve(ps.authors, table) {
        None
    } else {
        Some(
            PackageInfoView {
                name: lookup(table, ps.name as int).unwrap(),
                version: lookup(table, ps.version as int).unwrap(),
                license: lookup(table, ps.license as int).unwrap(),
                authors: authors_at(ps.authors, table),
            },
        )
    }
}

/// A description read back from its own section over a table that holds
/// all its strings is the description itself.
pub proof fn lemma_package_info_round_trip(p: PackageInfoView, table: TableView)
    requires
        orderly(table),
        table.total <= u32::MAX,
        forall|i: int| 0 <= i < info_strings(p).len() ==> table.contains(#[trigger] info_strings(p)[i]),
    ensures
        read_package_info(package_section_of(p, table), table) == Some(p),
{
    let strs = info_strings(p);
    let ps = package_section_of(p, table);
    assert(strs[0] == p.name && strs[1] == p.version && strs[2] == p.license);
    lemma_off_in(table, p.name);
    lemma_off_in(table, p.version);
    lemma_off_in(table, p.license);
    assert forall|i: int| 0 <= i < p.authors.len() implies lookup(table, (#[trigger] ps.authors[i]) as int)
        == Some(p.authors[i]) by {
        assert(strs[3 + i] == p.authors[i]);
        lemma_off_in(table, p.authors[i]);
    }
    assert(authors_at(ps.authors, table) =~= p.authors);
}

impl Default for PackageInfo {
    fn default() -> (r: Self)
        ensures
            r@ == (PackageInfoView {
                name: Seq::empty(),
                version: Seq::empty(),
                license: Seq::empty(),
                authors: Seq::empty(),
            }),
    {
        let r = PackageInfo {
            name: String::new(),
            version: String::new(),
            license: String::new(),
            authors: Vec::new(),
        };
        proof {
            assert(r@.authors =~= Seq::<Seq<char>>::empty());
        }
        r
    }
}

impl PackageInfo {
    /// The room that the description's strings take in a string table
    /// where none of them is there yet, capped at 2^32.
    pub fn strings_size(&self) -> (r: u64)
        ensures
            r == capped(table_size(info_strings(self@))),
    {
        let ghost info = self@;
        let ghost head = seq![info.name, info.version, info.license];
        proof {
            lemma_table_size_small(info.name, info.version, info.license, info.license);
        }
        let mut acc: u64 = 0;
        acc = add_entry_size(acc, self.name.as_str());
        acc = add_entry_size(acc, self.version.as_str());
        acc = add_entry_size(acc, self.license.as_str());
        let mut i: usize = 0;
        proof {
            assert(info.authors.take(0) =~= Seq::<Seq<char>>::empty());
            lemma_table_size_concat(head, info.authors.take(0));
        }
        while i < self.authors.len()
            invariant
                i <= self.authors@.len(),
                info == self@,
                head == seq![info.name, info.version, info.license],
                acc == capped(table_size(head + info.authors.take(i as int))),
            decreases self.authors@.len() - i,
        {
            proof {
                let cur = head + info.authors.take(i as int);
                let next = head + info.authors.take(i + 1);
                assert(next.drop_last() =~= cur);
                assert(next.last() == self.authors@[i as int]@);
                lemma_table_size_nonneg(cur);
            }
            acc = add_entry_size(acc, self.authors[i].as_str());
            i = i + 1;
        }
        proof {
            assert(info.authors.take(i as int) =~= info.authors);
            assert(head + info.authors =~= info_strings(info));
        }
        acc
    }

    /// The description with the given name, version, license and authors.
    pub fn new(name: String, version: String, lisense: String, authors: Vec<String>) -> (r: Self)
        ensures
            r@ == (PackageInfoView {
                name: name@,
                version: version@,
                license: lisense@,
                authors: strings_of(authors@),
            }),
    {
        PackageInfo { name, version, license: lisense, authors }
    }

    /// Puts the description's strings into `str_table` and their offsets
    /// into `ps`.
    pub fn write_to_package_section(&self, ps: &mut PackageSection, str_table: &mut StringTable)
        requires
            old(str_table).wf(),
            old(str_table)@.total + table_size(info_strings(self@)) <= u32::MAX,
        ensures
            final(str_table).wf(),
            final(str_table)@ == intern_all(old(str_table)@, info_strings(self@)),
            final(ps)@ == package_section_of(self@, final(str_table)@),
            forall|i: int|
                0 <= i < info_strings(self@).len() ==> final(str_table)@.contains(
                    #[trigger] info_strings(self@)[i],
                ),
    {
        let ghost t0 = str_table@;
        let ghost strs = info_strings(self@);
        proof {
            assert(strs.take(0) =~= Seq::<Seq<char>>::empty());
            assert(strs[0] == self.name@ && strs[1] == self.version@ && strs[2] == self.license@);
            lemma_table_size_prefix(strs, 0);
            lemma_table_size_prefix(strs, 1);
            lemma_table_size_prefix(strs, 2);
            lemma_intern_all_size(t0, strs.take(0));
            lemma_intern_all_size(t0, strs.take(1));
            lemma_intern_all_size(t0, strs.take(2));
            lemma_intern_all_size(t0, strs.take(3));
            assert(strs.take(1).drop_last() =~= strs.take(0));
            assert(strs.take(2).drop_last() =~= strs.take(1));
            assert(strs.take(3).drop_last() =~= strs.take(2));
        }
        let name_off: u32 = insert_one(str_table, self.name.clone());
        let ghost t1 = str_table@;
        let version_off: u32 = insert_one(str_table, self.version.clone());
        let ghost t2 = str_table@;
        let license_off: u32 = insert_one(str_table, self.license.clone());
        let ghost t3 = str_table@;
        proof {
            lemma_insert_stable(t1, self.version@, self.name@);
            lemma_insert_stable(t2, self.license@, self.name@);
            lemma_insert_stable(t2, self.license@, self.version@);
        }
        let mut authors_off: Vec<u32> = Vec::new();
        let mut i: usize = 0;
        while i < self.authors.len()
            invariant
                i <= self.authors@.len(),
                strs == info_strings(self@),
                strs.len() == 3 + self.authors@.len(),
                t0.total + table_size(strs) <= u32::MAX,
                str_table.wf(),
                str_table@ == intern_all(t0, strs.take(3 + i)),
                str_table@.contains(self.name@),
                str_table@.contains(self.version@),
                str_table@.contains(self.license@),
                name_off == insert_offset(str_table@, self.name@),
                version_off == insert_offset(str_table@, self.version@),
                license_off == insert_offset(str_table@, self.license@),
                authors_off@.len() == i,
                forall|j: int|
                    0 <= j < i ==> str_table@.contains(#[trigger] self@.authors[j])
                        && authors_off@[j] == insert_offset(str_table@, self@.authors[j]),
            decreases self.authors@.len() - i,
        {
            let ghost before = str_table@;
            let ghost a = self.authors@[i as int]@;
            proof {
                assert(strs[3 + i] == a);
                assert(strs.take(3 + i + 1).drop_last() =~= strs.take(3 + i));
                lemma_table_size_prefix(strs, 3 + i);
                lemma_intern_all_size(t0, strs.take(3 + i));
            }
            let off: u32 = insert_one(str_table, self.authors[i].clone());
            proof {
                lemma_insert_stable(before, a, self.name@);
                lemma_insert_stable(before, a, self.version@);
                lemma_insert_stable(before, a, self.license@);
                assert forall|j: int| 0 <= j < i implies str_table@.contains(
                    #[trigger] self@.authors[j],
                ) && authors_off@[j] == insert_offset(str_table@, self@.authors[j]) by {
                    lemma_insert_stable(before, a, self@.authors[j]);
                }
            }
            authors_off.push(off);
            i = i + 1;
        }
        proof {
            assert(strs.take(strs.len() as int) =~= strs);
            assert forall|k: int| 0 <= k < strs.len() implies str_table@.contains(#[trigger] strs[k]) by {
                if k >= 3 {
                    assert(strs[k] == self@.authors[k - 3]);
                }
            }
        }
        ps.pkg_name = name_off;
        ps.pkg_version = version_off;
        ps.pkg_license = license_off;
        ps.pkg_authors = authors_off;
        proof {
            assert(ps@.authors =~= package_section_of(self@, str_table@).authors);
        }
    }

    /// Sets the name, the version and the license to those that `ps` names
    /// in `str_table`, and adds the authors that it names to those already
    /// held.
    ///
    /// Fails with a decode error, and changes nothing, where an offset of
    /// `ps` starts no entry of the table.
    pub fn read_from_package_section(&mut self, ps: &PackageSection, str_table: &StringTable) -> (r:
        Result<()>)
        requires
            str_table.wf(),
        ensures
            r is Ok <==> read_package_info(ps@, str_table@) is Some,
            r is Ok ==> {
                let got = read_package_info(ps@, str_table@).unwrap();
                final(self)@ == (PackageInfoView {
                    name: got.name,
                    version: got.version,
                    license: got.license,
                    authors: old(self)@.authors + got.authors,
                })
            },
            r is Err ==> final(self)@ == old(self)@,
            r matches Err(e) ==> e is DecodeError,
    {
        let name = match str_table.str_by_off(&ps.pkg_name) {
            Ok(s) => s,
            Err(e) => {
                return Err(e);
            },
        };
        let version = match str_table.str_by_off(&ps.pkg_version) {
            Ok(s) => s,
            Err(e) => {
                return Err(e);
            },
        };
        let license = match str_table.str_by_off(&ps.pkg_license) {
            Ok(s) => s,
            Err(e) => {
                return Err(e);
            },
        };
        let mut authors: Vec<String> = Vec::new();
        let mut i: usize = 0;
        let ghost want = authors_at(ps@.authors, str_table@);
        while i < ps.pkg_authors.len()
            invariant
                i <= ps.pkg_authors@.len(),
                str_table.wf(),
                want == authors_at(ps@.authors, str_table@),
                authors@.len() == i,
                forall|j: int| 0 <= j < i ==> lookup(str_table@, (#[trigger] ps@.authors[j]) as int) is Some,
                forall|j: int| 0 <= j < i ==> (#[trigger] authors@[j])@ == want[j],
                *self == *old(self),
            decreases ps.pkg_authors@.len() - i,
        {
            let a = match str_table.str_by_off(&ps.pkg_authors[i]) {
                Ok(s) => s,
                Err(e) => {
                    proof {
                        assert(lookup(str_table@, ps@.authors[i as int] as int) is None);
                    }
                    return Err(e);
                },
            };
            authors.push(a);
            i = i + 1;
        }
        proof {
            assert(strings_of(authors@) =~= want);
            assert(strings_of(self.authors@ + authors@) =~= old(self)@.authors + want);
        }
        self.name = name;
        self.version = version;
        self.license = license;
        self.authors.append(&mut authors);
        Ok(())
    }
}

/// Puts `st` into the table and returns its offset; afterwards the table
/// holds `st` at that offset.
fn insert_one(str_table: &mut StringTable, st: String) -> (off: u32)
    requires
        old(str_table).wf(),
        old(str_table)@.total + entry_size(st@) <= u32::MAX,
    ensures
        final(str_table).wf(),
        final(str_table)@ == insert_entries(old(str_table)@, st@),
        off == insert_offset(old(str_table)@, st@),
        off == insert_offset(final(str_table)@, st@),
        final(str_table)@.contains(st@),
        final(str_table)@.total <= old(str_table)@.total + entry_size(st@),
{
    proof {
        lemma_insert_idempotent(str_table@, st@);
        lemma_insert_size(str_table@, st@);
    }
    str_table.insert_str(st)
}

/// Where a dependency comes from.
#[derive(Debug, PartialEq)]
pub enum SrcTypePath {
    CratesIo,
    Git(String),
    Url(String),
    Registry(String),
    P2p(String),
}

impl SrcTypePath {
    /// The number that stands for the kind of source on the wire.
    pub open spec fn spec_as_u8(&self) -> u8 {
        match self {
            SrcTypePath::CratesIo => 0,
            SrcTypePath::Git(_) => 1,
            SrcTypePath::Url(_) => 2,
            SrcTypePath::Registry(_) => 3,
            SrcTypePath::P2p(_) => 4,
        }
    }

    /// The address of the source; empty for the default registry.
    pub open spec fn spec_path(&self) -> Seq<char> {
        match self {
            SrcTypePath::CratesIo => Seq::empty(),
            SrcTypePath::Git(p) => p@,
            SrcTypePath::Url(p) => p@,
            SrcTypePath::Registry(p) => p@,
            SrcTypePath::P2p(p) => p@,
        }
    }

    /// The number that stands for the kind of source on the wire.
    pub fn as_u8(&self) -> (r: u8)
        ensures
            r == self.spec_as_u8(),
            r <= MAX_SRC_TYPE,
    {
        match self {
            SrcTypePath::CratesIo => 0,
            SrcTypePath::Git(_) => 1,
            SrcTypePath::Url(_) => 2,
            SrcTypePath::Registry(_) => 3,
            SrcTypePath::P2p(_) => 4,
        }
    }

    /// The source of kind `value` at the address `path`, if `value` is one
    /// of the five kinds; the default registry has no address.
    pub open spec fn spec_from_u8_with_path(value: u8, path: String) -> Option<SrcTypePath> {
        if value == 0 {
            Some(SrcTypePath::CratesIo)
        } else if value == 1 {
            Some(SrcTypePath::Git(path))
        } else if value == 2 {
            Some(SrcTypePath::Url(path))
        } else if value == 3 {
            Some(SrcTypePath::Registry(path))
        } else if value == 4 {
            Some(SrcTypePath::P2p(path))
        } else {
            None
        }
    }

    /// The source of kind `value` at the address `path`; the default
    /// registry has no address, so `path` is dropped for it.
    ///
    /// Fails with a decode error where `value` is none of the five kinds.
    pub fn from_u8_with_path(value: u8, path: String) -> (r: Result<Self>)
        ensures
            r is Ok <==> value <= MAX_SRC_TYPE,
            r matches Ok(s) ==> Some(s) == SrcTypePath::spec_from_u8_with_path(value, path),
            r matches Ok(s) ==> s.spec_as_u8() == value && s.spec_path() == (if value == 0 {
                Seq::<char>::empty()
            } else {
                path@
            }),
            r matches Err(e) ==> e is DecodeError,
    {
        match value {
            0 => Ok(SrcTypePath::CratesIo),
            1 => Ok(SrcTypePath::Git(path)),
            2 => Ok(SrcTypePath::Url(path)),
            3 => Ok(SrcTypePath::Registry(path)),
            4 => Ok(SrcTypePath::P2p(path)),
            _ => Err(CrateSpecError::DecodeError(String::from_str("unknown dependency source type"))),
        }
    }

    /// The address of the source; empty for the default registry.
    pub fn path(&self) -> (r: String)
        ensures
            r@ == self.spec_path(),
    {
        match self {
            SrcTypePath::CratesIo => String::new(),
            SrcTypePath::Git(p) => p.clone(),
            SrcTypePath::Url(p) => p.clone(),
            SrcTypePath::Registry(p) => p.clone(),
            SrcTypePath::P2p(p) => p.clone(),
        }
    }
}

/// A dependency of the package.
#[derive(Debug, PartialEq)]
pub struct DepInfo {
    pub name: String,
    pub ver_req: String,
    pub src: SrcTypePath,
    pub src_platform: String,
    /// Whether the dependency can be written to the dependency table.
    pub dump: bool,
}

/// The value of a `DepInfo`.
pub struct DepInfoView {
    pub name: Seq<char>,
    pub ver_req: Seq<char>,
    pub src_type: u8,
    pub src_path: Seq<char>,
    pub src_platform: Seq<char>,
    pub dump: bool,
}

impl View for DepInfo {
    type V = DepInfoView;

    open spec fn view(&self) -> DepInfoView {
        DepInfoView {
            name: self.name@,
            ver_req: self.ver_req@,
            src_type: self.src.spec_as_u8(),
            src_path: self.src.spec_path(),
            src_platform: self.src_platform@,
            dump: self.dump,
        }
    }
}

/// The values of a vector of dependencies.
pub open spec fn deps_view(v: Seq<DepInfo>) -> Seq<DepInfoView> {
    Seq::new(v.len(), |i: int| v[i]@)
}

/// The strings of a dependency, in the order in which they are put into
/// the string table.
pub open spec fn dep_strings(d: DepInfoView) -> Seq<Seq<char>> {
    seq![d.name, d.ver_req, d.src_path, d.src_platform]
}

/// The dependency entry that describes `d` over the string table `table`.
pub open spec fn dep_entry_of(d: DepInfoView, table: TableView) -> DepTableEntry {
    DepTableEntry {
        dep_name: off_in(table, d.name),
        dep_verreq: off_in(table, d.ver_req),
        dep_srctype: d.src_type,
        dep_srcpath: off_in(table, d.src_path),
        dep_platform: off_in(table, d.src_platform),
    }
}

/// The name, the version requirement and the source path of `e` all start
/// an entry of `table`.
pub open spec fn dep_head_resolves(e: DepTableEntry, table: TableView) -> bool {
    lookup(table, e.dep_name as int) is Some && lookup(table, e.dep_verreq as int) is Some
        && lookup(table, e.dep_srcpath as int) is Some
}

/// The dependency that the entry `e` gives over `table`, or `None` where
/// one of its offsets starts no entry or its source type is unknown.
pub open spec fn read_dep_info(e: DepTableEntry, table: TableView) -> Option<DepInfoView> {
    if !dep_head_resolves(e, table) || e.dep_srctype > MAX_SRC_TYPE || lookup(
        table,
        e.dep_platform as int,
    ) is None {
        None
    } else {
        Some(
            DepInfoView {
                name: lookup(table, e.dep_name as int).unwrap(),
                ver_req: lookup(table, e.dep_verreq as int).unwrap(),
                src_type: e.dep_srctype,
                src_path: if e.dep_srctype == 0 {
                    Seq::empty()
                } else {
                    lookup(table, e.dep_srcpath as int).unwrap()
                },
                src_platform: lookup(table, e.dep_platform as int).unwrap(),
                dump: true,
            },
        )
    }
}

/// The dependency is one that a `DepInfo` can hold and that is written to
/// the dependency table: its source type is known, the default registry
/// has no address, and it is marked for writing.
pub open spec fn dep_wf(d: DepInfoView) -> bool {
    &&& d.src_type <= MAX_SRC_TYPE
    &&& d.src_type == 0 ==> d.src_path == Seq::<char>::empty()
    &&& d.dump
}

/// A dependency read back from its own entry over a table that holds all
/// its strings is the dependency itself.
pub proof fn lemma_dep_info_round_trip(d: DepInfoView, table: TableView)
    requires
        dep_wf(d),
        orderly(table),
        table.total <= u32::MAX,
        forall|i: int| 0 <= i < 4 ==> table.contains(#[trigger] dep_strings(d)[i]),
    ensures
        read_dep_info(dep_entry_of(d, table), table) == Some(d),
{
    let strs = dep_strings(d);
    assert(strs[0] == d.name && strs[1] == d.ver_req && strs[2] == d.src_path && strs[3]
        == d.src_platform);
    lemma_off_in(table, d.name);
    lemma_off_in(table, d.ver_req);
    lemma_off_in(table, d.src_path);
    lemma_off_in(table, d.src_platform);
}

impl Default for DepInfo {
    fn default() -> (r: Self)
        ensures
            r@ == (DepInfoView {
                name: Seq::empty(),
                ver_req: "default"@,
                src_type: 0,
                src_path: Seq::empty(),
                src_platform: "default"@,
                dump: true,
            }),
    {
        DepInfo {
            name: String::new(),
            ver_req: String::from_str("default"),
            src: SrcTypePath::CratesIo,
            src_platform: String::from_str("default"),
            dump: true,
        }
    }
}

impl DepInfo {
    /// The room that the dependency's strings take in a string table where
    /// none of them is there yet, capped at 2^32.
    pub fn strings_size(&self) -> (r: u64)
        ensures
            r == capped(table_size(dep_strings(self@))),
    {
        proof {
            lemma_table_size_small(self@.name, self@.ver_req, self@.src_path, self@.src_platform);
        }
        let path = self.src.path();
        let mut acc: u64 = 0;
        acc = add_entry_size(acc, self.name.as_str());
        acc = add_entry_size(acc, self.ver_req.as_str());
        acc = add_entry_size(acc, path.as_str());
        acc = add_entry_size(acc, self.src_platform.as_str());
        acc
    }

    /// The dependency with the given fields.
    pub fn new(name: String, ver_req: String, src: SrcTypePath, src_platform: String, dump: bool) -> (r:
        Self)
        ensures
            r.name == name,
            r.ver_req == ver_req,
            r.src == src,
            r.src_platform == src_platform,
            r.dump == dump,
    {
        DepInfo { name, ver_req, src, src_platform, dump }
    }

    /// Puts the dependency's strings into `str_table` and their offsets,
    /// with the kind of source, into `dte`.
    pub fn write_to_dep_table_entry(&self, dte: &mut DepTableEntry, str_table: &mut StringTable)
        requires
            old(str_table).wf(),
            old(str_table)@.total + table_size(dep_strings(self@)) <= u32::MAX,
        ensures
            final(str_table).wf(),
            final(str_table)@ == intern_all(old(str_table)@, dep_strings(self@)),
            *final(dte) == dep_entry_of(self@, final(str_table)@),
            final(dte).dep_srctype <= MAX_SRC_TYPE,
            forall|i: int| 0 <= i < 4 ==> final(str_table)@.contains(#[trigger] dep_strings(self@)[i]),
    {
        let ghost t0 = str_table@;
        let ghost strs = dep_strings(self@);
        proof {
            assert(strs.take(0) =~= Seq::<Seq<char>>::empty());
            assert(strs.take(4) =~= strs);
            assert(strs[0] == self@.name && strs[1] == self@.ver_req && strs[2] == self@.src_path
                && strs[3] == self@.src_platform);
            lemma_table_size_prefix(strs, 0);
            lemma_table_size_prefix(strs, 1);
            lemma_table_size_prefix(strs, 2);
            lemma_table_size_prefix(strs, 3);
            lemma_intern_all_size(t0, strs.take(0));
            lemma_intern_all_size(t0, strs.take(1));
            lemma_intern_all_size(t0, strs.take(2));
            lemma_intern_all_size(t0, strs.take(3));
            assert(strs.take(1).drop_last() =~= strs.take(0));
            assert(strs.take(2).drop_last() =~= strs.take(1));
            assert(strs.take(3).drop_last() =~= strs.take(2));
            assert(strs.take(4).drop_last() =~= strs.take(3));
        }
        let name_off: u32 = insert_one(str_table, self.name.clone());
        let ghost t1 = str_table@;
        let verreq_off: u32 = insert_one(str_table, self.ver_req.clone());
        let ghost t2 = str_table@;
        let path_off: u32 = insert_one(str_table, self.src.path());
        let ghost t3 = str_table@;
        let platform_off: u32 = insert_one(str_table, self.src_platform.clone());
        proof {
            lemma_insert_stable(t1, self@.ver_req, self@.name);
            lemma_insert_stable(t2, self@.src_path, self@.name);
            lemma_insert_stable(t2, self@.src_path, self@.ver_req);
            lemma_insert_stable(t3, self@.src_platform, self@.name);
            lemma_insert_stable(t3, self@.src_platform, self@.ver_req);
            lemma_insert_stable(t3, self@.src_platform, self@.src_path);
        }
        dte.dep_name = name_off;
        dte.dep_verreq = verreq_off;
        dte.dep_srctype = self.src.as_u8();
        dte.dep_srcpath = path_off;
        dte.dep_platform = platform_off;
    }

    /// Sets the dependency to the one that `dte` gives over `str_table`,
    /// marked for writing.
    ///
    /// Fails with a decode error, and changes nothing, where an offset of
    /// `dte` starts no entry of the table or where the source type is
    /// unknown.
    pub fn read_from_dep_table_entry(&mut self, dte: &DepTableEntry, str_table: &StringTable) -> (r:
        Result<()>)
        requires
            str_table.wf(),
        ensures
            r is Ok <==> read_dep_info(*dte, str_table@) is Some,
            r is Ok ==> Some(final(self)@) == read_dep_info(*dte, str_table@),
            r is Err ==> final(self)@ == old(self)@,
            r matches Err(e) ==> e is DecodeError,
    {
        let name = match str_table.str_by_off(&dte.dep_name) {
            Ok(s) => s,
            Err(e) => {
                return Err(e);
            },
        };
        let ver_req = match str_table.str_by_off(&dte.dep_verreq) {
            Ok(s) => s,
            Err(e) => {
                return Err(e);
            },
        };
        let path = match str_table.str_by_off(&dte.dep_srcpath) {
            Ok(s) => s,
            Err(e) => {
                return Err(e);
            },
        };
        let src = match SrcTypePath::from_u8_with_path(dte.dep_srctype, path) {
            Ok(s) => s,
            Err(e) => {
                return Err(e);
            },
        };
        let src_platform = match str_table.str_by_off(&dte.dep_platform) {
            Ok(s) => s,
            Err(e) => {
                return Err(e);
            },
        };
        self.dump = true;
        self.name = name;
        self.ver_req = ver_req;
        self.src = src;
        self.src_platform = src_platform;
        Ok(())
    }
}

/// The wrapped archive.
#[derive(Debug, PartialEq)]
pub struct CrateBinary {
    pub bytes: Vec<u8>,
}

impl View for CrateBinary {
    type V = Seq<u8>;

    open spec fn view(&self) -> Seq<u8> {
        self.bytes@
    }
}

impl Default for CrateBinary {
    fn default() -> (r: Self)
        ensures
            r@ == Seq::<u8>::empty(),
    {
        CrateBinary::new()
    }
}

impl CrateBinary {
    /// An empty archive.
    pub fn new() -> (r: Self)
        ensures
            r@ == Seq::<u8>::empty(),
    {
        CrateBinary { bytes: Vec::new() }
    }

    /// Replaces the archive by `bytes`.
    pub fn set_bin(&mut self, bytes: Vec<u8>)
        ensures
            final(self)@ == bytes@,
    {
        self.bytes = bytes;
    }

    /// Copies the archive into the section `cbs`.
    pub fn write_to_crate_binary_section(&self, cbs: &mut CrateBinarySection)
        ensures
            final(cbs)@ == self@,
    {
        cbs.bin = vstd::slice::slice_to_vec(self.bytes.as_slice());
    }

    /// Replaces the archive by the one that the section `cbs` holds.
    pub fn read_from_crate_biary_section(&mut self, cbs: &CrateBinarySection)
        ensures
            final(self)@ == cbs@,
    {
        self.bytes = vstd::slice::slice_to_vec(cbs.bin.as_slice());
    }
}

/// A signature record: the signature's type, its length and its bytes, the
/// local signer that makes it, and for a network signature the public key
/// that it names.
///
/// A record is empty when it is made and placed when it is added to a
/// context. Encoding reserves room for it in the container and then signs
/// it: the record holds its signature from then on. Decoding reads it back
/// and verifies it.
pub struct SigInfo {
    pub typ: u32,
    pub size: usize,
    pub bin: Vec<u8>,
    pub pkcs: PKCS,
    pub pub_key: Option<String>,
}

impl Default for SigInfo {
    fn default() -> (r: Self)
        ensures
            r.typ == 0,
            r.size == 0,
            r.bin@ == Seq::<u8>::empty(),
            r.pub_key is None,
    {
        SigInfo::new()
    }
}

impl SigInfo {
    /// An empty record of type 0 with an empty signer.
    pub fn new() -> (r: Self)
        ensures
            r.typ == 0,
            r.size == 0,
            r.bin@ == Seq::<u8>::empty(),
            r.pub_key is None,
            r.pkcs.spec_cert() == Seq::<u8>::empty(),
            r.pkcs.spec_pkey() == Seq::<u8>::empty(),
            r.pkcs.spec_roots() == Seq::<Seq<u8>>::empty(),
    {
        SigInfo { typ: 0, size: 0, bin: Vec::new(), pkcs: PKCS::new(), pub_key: None }
    }

    /// Sets the record's type, length and bytes to those of the section
    /// `sig`; for a network signature, also sets the public key to the one
    /// that the signature names.
    ///
    /// Fails with a decode error, and changes nothing, where the section is
    /// of the network type and its bytes are not a network signature.
    pub fn read_from_sig_structure_section(&mut self, sig: &SigStructureSection) -> (r: Result<()>)
        ensures
            r is Ok <==> (sig.sigstruct_type == SIG_NETWORK ==> network_signature_from(
                sig.sigstruct_sig@,
            ) is Some),
            r is Ok ==> final(self).typ == sig.sigstruct_type && final(self).size
                == sig.sigstruct_size && final(self).bin@ == sig.sigstruct_sig@ && final(self).pkcs
                == old(self).pkcs,
            r is Ok && sig.sigstruct_type == SIG_NETWORK ==> crate::network::opt_view(
                final(self).pub_key,
            ) == Some(network_signature_from(sig.sigstruct_sig@).unwrap().pub_key),
            r is Ok && sig.sigstruct_type != SIG_NETWORK ==> final(self).pub_key == old(self).pub_key,
            r is Err ==> *final(self) == *old(self),
            r matches Err(e) ==> e is DecodeError,
    {
        if sig.sigstruct_type == SIG_NETWORK {
            match NetworkSignature::from_bytes(sig.sigstruct_sig.as_slice()) {
                Ok(network_sig) => {
                    self.pub_key = Some(network_sig.pub_key);
                },
                Err(m) => {
                    return Err(CrateSpecError::DecodeError(m));
                },
            }
        }
        self.typ = sig.sigstruct_type;
        self.size = sig.sigstruct_size as usize;
        self.bin = vstd::slice::slice_to_vec(sig.sigstruct_sig.as_slice());
        Ok(())
    }

    /// Copies the record's type, length and bytes into the section `sig`.
    pub fn write_to_sig_structure_section(&self, sig: &mut SigStructureSection)
        requires
            self.size <= u32::MAX,
        ensures
            final(sig)@ == (SigStructureView {
                typ: self.typ,
                size: self.size as u32,
                sig: self.bin@,
            }),
    {
        sig.sigstruct_type = self.typ;
        sig.sigstruct_size = self.size as u32;
        sig.sigstruct_sig = vstd::slice::slice_to_vec(self.bin.as_slice());
    }
}

/// A package with everything that goes into its container: description,
/// dependencies, archive, signature records, and the collaborators that
/// signing and verifying need.
pub struct PackageContext {
    pub pack_info: PackageInfo,
    pub dep_infos: Vec<DepInfo>,
    pub crate_binary: CrateBinary,
    pub sigs: Vec<SigInfo>,
    pub root_cas: Vec<Vec<u8>>,
    pub network_client: Option<PkiClient>,
    pub network_keypair: Option<KeyPair>,
}

impl Default for PackageContext {
    fn default() -> (r: Self)
        ensures
            r.spec_is_empty(),
    {
        PackageContext::new()
    }
}

impl PackageContext {
    /// The context holds nothing.
    pub open spec fn spec_is_empty(&self) -> bool {
        &&& self.pack_info@ == (PackageInfoView {
            name: Seq::empty(),
            version: Seq::empty(),
            license: Seq::empty(),
            authors: Seq::empty(),
        })
        &&& self.dep_infos@.len() == 0
        &&& self.crate_binary@ == Seq::<u8>::empty()
        &&& self.sigs@.len() == 0
        &&& self.root_cas@.len() == 0
        &&& self.network_client is None
        &&& self.network_keypair is None
    }

    /// An empty context.
    pub fn new() -> (r: Self)
        ensures
            r.spec_is_empty(),
    {
        PackageContext {
            pack_info: PackageInfo::default(),
            crate_binary: CrateBinary::new(),
            dep_infos: Vec::new(),
            sigs: Vec::new(),
            root_cas: Vec::new(),
            network_client: None,
            network_keypair: None,
        }
    }

    /// Replaces the package's description.
    pub fn set_package_info(
        &mut self,
        name: String,
        version: String,
        license: String,
        authors: Vec<String>,
    )
        ensures
            final(self).pack_info@ == (PackageInfoView {
                name: name@,
                version: version@,
                license: license@,
                authors: strings_of(authors@),
            }),
            final(self).dep_infos == old(self).dep_infos,
            final(self).crate_binary == old(self).crate_binary,
            final(self).sigs == old(self).sigs,
            final(self).root_cas == old(self).root_cas,
            final(self).network_client == old(self).network_client,
            final(self).network_keypair == old(self).network_keypair,
    {
        self.pack_info = PackageInfo { name, version, license, authors };
    }

    /// Adds a dependency, marked for writing, after those already held.
    pub fn add_dep_info(&mut self, name: String, ver_req: String, src: SrcTypePath, src_platform: String)
        ensures
            final(self).dep_infos@ == old(self).dep_infos@.push(
                DepInfo { name, ver_req, src, src_platform, dump: true },
            ),
            final(self).pack_info == old(self).pack_info,
            final(self).crate_binary == old(self).crate_binary,
            final(self).sigs == old(self).sigs,
            final(self).root_cas == old(self).root_cas,
            final(self).network_client == old(self).network_client,
            final(self).network_keypair == old(self).network_keypair,
    {
        self.dep_infos.push(DepInfo { name, ver_req, src, src_platform, dump: true });
    }

    /// Number of dependencies.
    pub fn dep_num(&self) -> (r: usize)
        ensures
            r == self.dep_infos@.len(),
    {
        self.dep_infos.len()
    }

    /// Adds an unsigned signature record of the given type with the given
    /// signer after those already held, and returns its index.
    pub fn add_sig(&mut self, pkcs: PKCS, sign_type: SIGTYPE) -> (r: usize)
        ensures
            r == old(self).sigs@.len(),
            final(self).sigs@.len() == old(self).sigs@.len() + 1,
            forall|i: int| 0 <= i < old(self).sigs@.len() ==> final(self).sigs@[i] == old(self).sigs@[i],
            final(self).sigs@[r as int].typ == sign_type.spec_as_u32(),
            final(self).sigs@[r as int].size == 0,
            final(self).sigs@[r as int].bin@ == Seq::<u8>::empty(),
            final(self).sigs@[r as int].pkcs == pkcs,
            final(self).sigs@[r as int].pub_key is None,
            final(self).pack_info == old(self).pack_info,
            final(self).dep_infos == old(self).dep_infos,
            final(self).crate_binary == old(self).crate_binary,
            final(self).root_cas == old(self).root_cas,
            final(self).network_client == old(self).network_client,
            final(self).network_keypair == old(self).network_keypair,
    {
        let siginfo = SigInfo {
            typ: sign_type.as_u32(),
            size: 0,
            bin: Vec::new(),
            pkcs,
            pub_key: None,
        };
        self.sigs.push(siginfo);
        self.sigs.len() - 1
    }

    /// Number of signature records.
    pub fn sig_num(&self) -> (r: usize)
        ensures
            r == self.sigs@.len(),
    {
        self.sigs.len()
    }

    /// Replaces the root certificates.
    pub fn set_root_cas_bin(&mut self, root_ca_bins: Vec<Vec<u8>>)
        ensures
            final(self).root_cas == root_ca_bins,
            final(self).pack_info == old(self).pack_info,
            final(self).dep_infos == old(self).dep_infos,
            final(self).crate_binary == old(self).crate_binary,
            final(self).sigs == old(self).sigs,
            final(self).network_client == old(self).network_client,
            final(self).network_keypair == old(self).network_keypair,
    {
        self.root_cas = root_ca_bins;
    }

    /// Adds a root certificate after those already held.
    pub fn add_root_cas(&mut self, root_ca: Vec<u8>)
        ensures
            final(self).root_cas@ == old(self).root_cas@.push(root_ca),
            final(self).pack_info == old(self).pack_info,
            final(self).dep_infos == old(self).dep_infos,
            final(self).crate_binary == old(self).crate_binary,
            final(self).sigs == old(self).sigs,
            final(self).network_client == old(self).network_client,
            final(self).network_keypair == old(self).network_keypair,
    {
        self.root_cas.push(root_ca);
    }

    /// Replaces the wrapped archive.
    pub fn add_crate_bin(&mut self, bin: Vec<u8>)
        ensures
            final(self).crate_binary@ == bin@,
            final(self).pack_info == old(self).pack_info,
            final(self).dep_infos == old(self).dep_infos,
            final(self).sigs == old(self).sigs,
            final(self).root_cas == old(self).root_cas,
            final(self).network_client == old(self).network_client,
            final(self).network_keypair == old(self).network_keypair,
    {
        let mut c = CrateBinary::new();
        c.set_bin(bin);
        self.crate_binary = c;
    }
}

} // verus!
