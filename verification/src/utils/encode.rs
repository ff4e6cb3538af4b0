//! Writing a container: the strings and the sections of a package, the
//! signatures over it, and the file that holds them.
//!
//! Signatures cover a file that holds them. So the file is laid out first
//! with room for every signature, the digests are taken of that layout, and
//! the signatures are written into the room left for them.

use vstd::prelude::*;
use crate::error::{CrateSpecError, Result};
use crate::network::{
    network_signature_from,
    CLAIM_SLACK,
    NETWORK_SIGNATURE_LIMIT,
    digest_to_hex_string,
    hex_of,
    network_signature_bytes,
    opt_view,
    NetworkSignature,
    NetworkSignatureView,
    PkiClient,
    SignDigestRequest,
};
use crate::utils::canon::{
    lemma_same_unsigned_layout,
    lemma_signed_len_bound,
    lemma_signing_keeps_signed_region,
    same_unsigned,
    signed_region,
};
use crate::utils::context::{
    dep_entry_of,
    dep_strings,
    dep_wf,
    deps_view,
    info_strings,
    lemma_dep_info_round_trip,
    lemma_package_info_round_trip,
    off_in,
    package_section_of,
    DepInfo,
    DepInfoView,
    PackageContext,
    PackageInfoView,
    SigInfo,
};
use crate::utils::decode::{
    all_network,
    container_fault,
    encloses,
    expected_digests,
    lemma_verified_has_no_fault,
    networks_from,
    record_types,
    container_all_network,
    covered,
    crate_binary_of,
    decode_sig_at,
    decoded_deps,
    decoded_info,
    decoded_sigs,
    decoded_table,
    deps_at,
    fingerprint_matches,
    network_fault,
    network_fault_from,
    structure_decodes,
    RemoteVerdict,
    SigRecordView,
};
use crate::utils::index::{first_of_type, lemma_first_of_type, lemma_sigs_last_split, sig_count};
use crate::utils::package::{
    body_bytes,
    image_bytes,
    layout_wf,
    lemma_image_lengths,
    lemma_image_round_trip,
    parse_image,
    sections_view,
    FINGERPRINT_LEN,
    CratePackage,
    CratePackageView,
};
use crate::utils::pkcs::{sha256, PKCS};
use crate::utils::section::{
    known_sig_type,
    max_sig_size,
    section_wf,
    spec_known_sig_type,
    spec_max_sig_size,
    CRATEBIN_TYPE,
    DEPTABLE_TYPE,
    MAX_SRC_TYPE,
    PACK_TYPE,
    SIGSTRUCTURE_TYPE,
    SIG_CRATEBIN,
    SIG_FILE,
    SIG_NETWORK,
    CrateBinarySection,
    DataSection,
    DataSectionView,
    DepTableEntry,
    DepTableSection,
    PackageSection,
    SigStructureSection,
    SigStructureView,
};
use crate::utils::strtab::{
    cap_add,
    capped,
    intern_all,
    interned,
    laid_out,
    lemma_image_laid_out,
    lemma_intern_all_holds,
    lemma_intern_all_orderly,
    lemma_intern_all_size,
    lemma_intern_all_stable,
    lemma_intern_laid_out,
    lemma_laid_out_holds,
    lemma_new_table_orderly,
    lemma_parse_table_bytes,
    lemma_read_into_new,
    lemma_table_bytes_len,
    lemma_table_size_concat,
    lemma_table_size_nonneg,
    lemma_table_size_small,
    new_table,
    orderly,
    table_image,
    table_size,
    StringTable,
    TableView,
};

verus! {

/// The dependencies among `deps` that are marked for writing, in their order.
pub open spec fn dumped(deps: Seq<DepInfoView>) -> Seq<DepInfoView>
    decreases deps.len(),
{
    if deps.len() == 0 {
        Seq::empty()
    } else if deps.last().dump {
        dumped(deps.drop_last()).push(deps.last())
    } else {
        dumped(deps.drop_last())
    }
}

/// The strings of the dependencies `deps`, in the order in which they are
/// put into the string table.
pub open spec fn deps_strings(deps: Seq<DepInfoView>) -> Seq<Seq<char>>
    decreases deps.len(),
{
    if deps.len() == 0 {
        Seq::empty()
    } else {
        deps_strings(deps.drop_last()) + dep_strings(deps.last())
    }
}

/// The strings of a package, in the order in which they are put into the
/// string table: those of its description, then those of its dependencies
/// that are marked for writing.
pub open spec fn context_strings(info: PackageInfoView, deps: Seq<DepInfoView>) -> Seq<Seq<char>> {
    info_strings(info) + deps_strings(dumped(deps))
}

/// The string table of the container of a package.
pub open spec fn context_table(info: PackageInfoView, deps: Seq<DepInfoView>) -> TableView {
    intern_all(new_table(), context_strings(info, deps))
}

/// The dependency entries that describe `deps` over the string table `table`.
pub open spec fn dep_entries_of(deps: Seq<DepInfoView>, table: TableView) -> Seq<DepTableEntry> {
    Seq::new(deps.len(), |i: int| dep_entry_of(deps[i], table))
}

/// The three sections of a container that are not signatures: the package
/// section, the dependency table and the crate binary.
pub open spec fn unsigned_sections(
    info: PackageInfoView,
    deps: Seq<DepInfoView>,
    archive: Seq<u8>,
) -> Seq<DataSectionView> {
    let table = context_table(info, deps);
    seq![
        DataSectionView::Package(package_section_of(info, table)),
        DataSectionView::DepTable(dep_entries_of(dumped(deps), table)),
        DataSectionView::CrateBinary(archive),
    ]
}

/// The package can be written: it has a name and a version, and its
/// strings, each counted as often as it is named, fit 32-bit offsets.
pub open spec fn encodable(info: PackageInfoView, deps: Seq<DepInfoView>) -> bool {
    &&& info.name.len() > 0
    &&& info.version.len() > 0
    &&& 4 + table_size(context_strings(info, deps)) <= u32::MAX
}

/// Inserting two runs of strings one after the other is inserting their
/// concatenation.
pub proof fn lemma_intern_all_concat(t: TableView, a: Seq<Seq<char>>, b: Seq<Seq<char>>)
    ensures
        intern_all(intern_all(t, a), b) == intern_all(t, a + b),
    decreases b.len(),
{
    if b.len() == 0 {
        assert(a + b =~= a);
    } else {
        lemma_intern_all_concat(t, a, b.drop_last());
        assert((a + b).drop_last() =~= a + b.drop_last());
        assert((a + b).last() == b.last());
    }
}

/// Every string of `strs` is in the table `table`.
pub open spec fn holds_all(table: TableView, strs: Seq<Seq<char>>) -> bool {
    forall|i: int| 0 <= i < strs.len() ==> table.contains(#[trigger] strs[i])
}

/// Further insertions leave a package section as it is.
pub proof fn lemma_package_section_stable(
    info: PackageInfoView,
    table: TableView,
    more: Seq<Seq<char>>,
)
    requires
        holds_all(table, info_strings(info)),
    ensures
        holds_all(intern_all(table, more), info_strings(info)),
        package_section_of(info, intern_all(table, more)) == package_section_of(info, table),
{
    let strs = info_strings(info);
    let after = intern_all(table, more);
    assert forall|i: int| 0 <= i < strs.len() implies after.contains(#[trigger] strs[i])
        && off_in(after, strs[i]) == off_in(table, strs[i]) by {
        lemma_intern_all_stable(table, more, strs[i]);
    }
    assert(strs[0] == info.name && strs[1] == info.version && strs[2] == info.license);
    assert forall|i: int| 0 <= i < info.authors.len() implies off_in(after, info.authors[i])
        == off_in(table, info.authors[i]) by {
        assert(strs[3 + i] == info.authors[i]);
    }
    assert(package_section_of(info, after).authors =~= package_section_of(info, table).authors);
}

/// Further insertions leave a dependency entry as it is.
pub proof fn lemma_dep_entry_stable(d: DepInfoView, table: TableView, more: Seq<Seq<char>>)
    requires
        holds_all(table, dep_strings(d)),
    ensures
        holds_all(intern_all(table, more), dep_strings(d)),
        dep_entry_of(d, intern_all(table, more)) == dep_entry_of(d, table),
{
    let strs = dep_strings(d);
    let after = intern_all(table, more);
    assert forall|i: int| 0 <= i < strs.len() implies after.contains(#[trigger] strs[i])
        && off_in(after, strs[i]) == off_in(table, strs[i]) by {
        lemma_intern_all_stable(table, more, strs[i]);
    }
    assert(strs[0] == d.name && strs[1] == d.ver_req && strs[2] == d.src_path && strs[3]
        == d.src_platform);
}

impl PackageContext {
    /// The value of the package's description and dependencies.
    pub open spec fn spec_deps(&self) -> Seq<DepInfoView> {
        deps_view(self.dep_infos@)
    }

    /// The size of the string table that holds every string of the package
    /// as often as it is named, capped at 2^32.
    pub fn strings_budget(&self) -> (r: u64)
        ensures
            r == capped(4 + table_size(context_strings(self.pack_info@, self.spec_deps()))),
    {
        let ghost info = self.pack_info@;
        let ghost deps = self.spec_deps();
        proof {
            lemma_table_size_nonneg(info_strings(info));
            assert(deps.take(0) =~= Seq::<DepInfoView>::empty());
            assert(info_strings(info) + deps_strings(dumped(deps.take(0))) =~= info_strings(info));
        }
        let mut acc: u64 = cap_add(4, self.pack_info.strings_size());
        let mut k: usize = 0;
        while k < self.dep_infos.len()
            invariant
                k <= self.dep_infos@.len(),
                info == self.pack_info@,
                deps == deps_view(self.dep_infos@),
                acc == capped(
                    4 + table_size(info_strings(info) + deps_strings(dumped(deps.take(k as int)))),
                ),
            decreases self.dep_infos@.len() - k,
        {
            let dep = &self.dep_infos[k];
            let ghost d = dep@;
            proof {
                assert(deps.take(k + 1).drop_last() =~= deps.take(k as int));
                assert(deps.take(k + 1).last() == d);
                let before = dumped(deps.take(k as int));
                lemma_table_size_nonneg(info_strings(info) + deps_strings(before));
                lemma_table_size_nonneg(dep_strings(d));
                if d.dump {
                    assert(before.push(d).drop_last() =~= before);
                    let ds = dep_strings(d);
                    lemma_table_size_concat(info_strings(info), deps_strings(before));
                    lemma_table_size_concat(info_strings(info), deps_strings(before) + ds);
                    lemma_table_size_concat(deps_strings(before), ds);
                    lemma_table_size_nonneg(deps_strings(before));
                }
            }
            if dep.dump {
                acc = cap_add(acc, dep.strings_size());
            }
            k = k + 1;
        }
        proof {
            assert(deps.take(k as int) =~= deps);
        }
        acc
    }

    /// The three sections of the package that are not signatures, and the
    /// string table that they refer to.
    ///
    /// Fails with an encode error where the package has no name or no
    /// version, or where its strings do not fit 32-bit offsets.
    pub fn build_unsigned(&self) -> (r: Result<(Vec<DataSection>, StringTable)>)
        ensures
            r is Ok <==> encodable(self.pack_info@, self.spec_deps()),
            r matches Ok((sections, table)) ==> {
                &&& table.wf()
                &&& table@ == context_table(self.pack_info@, self.spec_deps())
                &&& sections_view(sections@) == unsigned_sections(
                    self.pack_info@,
                    self.spec_deps(),
                    self.crate_binary@,
                )
                &&& holds_all(table@, context_strings(self.pack_info@, self.spec_deps()))
            },
            r matches Err(e) ==> e is EncodeError,
    {
        let ghost info = self.pack_info@;
        let ghost deps = self.spec_deps();
        if self.pack_info.name.as_str().is_empty() {
            return Err(CrateSpecError::EncodeError(String::from_str("the package has no name")));
        }
        if self.pack_info.version.as_str().is_empty() {
            return Err(CrateSpecError::EncodeError(String::from_str("the package has no version")));
        }
        if self.strings_budget() > 0xffff_ffff {
            return Err(CrateSpecError::EncodeError(String::from_str("the strings are too large")));
        }
        let mut table = StringTable::new();
        let ghost t0 = table@;
        proof {
            lemma_new_table_orderly();
            lemma_table_size_concat(info_strings(info), deps_strings(dumped(deps)));
            lemma_table_size_nonneg(deps_strings(dumped(deps)));
        }
        let mut ps = PackageSection::new();
        self.pack_info.write_to_package_section(&mut ps, &mut table);
        let mut entries: Vec<DepTableEntry> = Vec::new();
        let mut k: usize = 0;
        proof {
            assert(deps.take(0) =~= Seq::<DepInfoView>::empty());
            assert(info_strings(info) + deps_strings(dumped(deps.take(0))) =~= info_strings(info));
            assert(holds_all(table@, info_strings(info)));
            assert(entries@ =~= dep_entries_of(dumped(deps.take(0)), table@));
        }
        while k < self.dep_infos.len()
            invariant
                k <= self.dep_infos@.len(),
                info == self.pack_info@,
                deps == deps_view(self.dep_infos@),
                t0 == new_table(),
                4 + table_size(context_strings(info, deps)) <= u32::MAX,
                table.wf(),
                table@ == intern_all(
                    t0,
                    info_strings(info) + deps_strings(dumped(deps.take(k as int))),
                ),
                holds_all(table@, info_strings(info)),
                ps@ == package_section_of(info, table@),
                entries@ == dep_entries_of(dumped(deps.take(k as int)), table@),
                forall|j: int|
                    0 <= j < dumped(deps.take(k as int)).len() ==> holds_all(
                        table@,
                        dep_strings(#[trigger] dumped(deps.take(k as int))[j]),
                    ),
            decreases self.dep_infos@.len() - k,
        {
            let dep = &self.dep_infos[k];
            let ghost d = dep@;
            let ghost before = dumped(deps.take(k as int));
            let ghost tb = table@;
            proof {
                assert(deps.take(k + 1).drop_last() =~= deps.take(k as int));
                assert(deps.take(k + 1).last() == d);
            }
            if dep.dump {
                proof {
                    let done = info_strings(info) + deps_strings(before);
                    let ds = dep_strings(d);
                    assert(before.push(d).drop_last() =~= before);
                    lemma_intern_all_size(t0, done);
                    lemma_budget_prefix(info, deps, k as int);
                    lemma_table_size_concat(done, ds);
                    lemma_table_size_small(
                        Seq::<char>::empty(),
                        Seq::<char>::empty(),
                        Seq::<char>::empty(),
                        Seq::<char>::empty(),
                    );
                }
                let mut dte = DepTableEntry::new();
                dep.write_to_dep_table_entry(&mut dte, &mut table);
                proof {
                    let ds = dep_strings(d);
                    let after = dumped(deps.take(k + 1));
                    lemma_intern_all_concat(t0, info_strings(info) + deps_strings(before), ds);
                    assert((info_strings(info) + deps_strings(before)) + ds =~= info_strings(info)
                        + deps_strings(after));
                    lemma_package_section_stable(info, tb, ds);
                    assert forall|j: int| 0 <= j < after.len() implies holds_all(
                        table@,
                        dep_strings(#[trigger] after[j]),
                    ) && dep_entry_of(after[j], table@) == entries@.push(dte)[j] by {
                        if j < before.len() {
                            assert(after[j] == before[j]);
                            lemma_dep_entry_stable(before[j], tb, ds);
                            assert(entries@[j] == dep_entries_of(before, tb)[j]);
                        } else {
                            assert(after[j] == d);
                        }
                    }
                    assert(entries@.push(dte) =~= dep_entries_of(after, table@));
                }
                entries.push(dte);
            }
            k = k + 1;
        }
        proof {
            assert(deps.take(k as int) =~= deps);
            lemma_holds_context_strings(info, deps, table@);
        }
        let mut cbs = CrateBinarySection::new();
        self.crate_binary.write_to_crate_binary_section(&mut cbs);
        let mut sections: Vec<DataSection> = Vec::new();
        sections.push(DataSection::PackageSection(ps));
        sections.push(DataSection::DepTableSection(DepTableSection { entries }));
        sections.push(DataSection::CrateBinarySection(cbs));
        proof {
            assert(sections_view(sections@) =~= unsigned_sections(info, deps, self.crate_binary@));
        }
        Ok((sections, table))
    }
}

/// The strings that are inserted before dependency `k` is written, and
/// those of dependency `k` itself, are within the budget of all strings.
pub proof fn lemma_budget_prefix(info: PackageInfoView, deps: Seq<DepInfoView>, k: int)
    requires
        0 <= k < deps.len(),
        deps[k].dump,
    ensures
        table_size(info_strings(info) + deps_strings(dumped(deps.take(k)))) + table_size(
            dep_strings(deps[k]),
        ) <= table_size(context_strings(info, deps)),
    decreases deps.len() - k,
{
    let d = deps[k];
    let upto = dumped(deps.take(k + 1));
    assert(deps.take(k + 1).drop_last() =~= deps.take(k));
    assert(deps.take(k + 1).last() == d);
    assert(upto.drop_last() =~= dumped(deps.take(k)));
    lemma_table_size_concat(info_strings(info), deps_strings(dumped(deps.take(k))));
    lemma_table_size_concat(deps_strings(dumped(deps.take(k))), dep_strings(d));
    lemma_table_size_concat(info_strings(info), deps_strings(dumped(deps)));
    lemma_dumped_size_monotonic(deps, k + 1);
}

/// The strings of the dependencies written among the first `k` take no
/// more room than those of all written dependencies.
pub proof fn lemma_dumped_size_monotonic(deps: Seq<DepInfoView>, k: int)
    requires
        0 <= k <= deps.len(),
    ensures
        table_size(deps_strings(dumped(deps.take(k)))) <= table_size(deps_strings(dumped(deps))),
    decreases deps.len() - k,
{
    if k == deps.len() {
        assert(deps.take(k) =~= deps);
    } else {
        lemma_dumped_size_monotonic(deps, k + 1);
        assert(deps.take(k + 1).drop_last() =~= deps.take(k));
        let d = deps[k];
        assert(deps.take(k + 1).last() == d);
        if d.dump {
            let before = dumped(deps.take(k));
            assert(before.push(d).drop_last() =~= before);
            lemma_table_size_concat(deps_strings(before), dep_strings(d));
            lemma_table_size_nonneg(dep_strings(d));
        }
    }
}

/// A table that holds the strings of the description and of every written
/// dependency holds all the strings of the package.
pub proof fn lemma_holds_context_strings(
    info: PackageInfoView,
    deps: Seq<DepInfoView>,
    table: TableView,
)
    requires
        holds_all(table, info_strings(info)),
        forall|j: int|
            0 <= j < dumped(deps).len() ==> holds_all(table, dep_strings(#[trigger] dumped(deps)[j])),
    ensures
        holds_all(table, context_strings(info, deps)),
{
    lemma_holds_deps_strings(dumped(deps), table);
    let a = info_strings(info);
    let b = deps_strings(dumped(deps));
    assert forall|i: int| 0 <= i < (a + b).len() implies table.contains(#[trigger] (a + b)[i]) by {
        if i < a.len() {
            assert((a + b)[i] == a[i]);
        } else {
            assert((a + b)[i] == b[i - a.len()]);
        }
    }
}

/// A table that holds the strings of each dependency holds the strings of
/// all of them.
proof fn lemma_holds_deps_strings(ds: Seq<DepInfoView>, table: TableView)
    requires
        forall|j: int| 0 <= j < ds.len() ==> holds_all(table, dep_strings(#[trigger] ds[j])),
    ensures
        holds_all(table, deps_strings(ds)),
    decreases ds.len(),
{
    if ds.len() > 0 {
        let init = ds.drop_last();
        assert forall|j: int| 0 <= j < init.len() implies holds_all(
            table,
            dep_strings(#[trigger] init[j]),
        ) by {
            assert(init[j] == ds[j]);
        }
        lemma_holds_deps_strings(init, table);
        let a = deps_strings(init);
        let b = dep_strings(ds.last());
        assert(holds_all(table, dep_strings(ds[ds.len() - 1])));
        assert forall|i: int| 0 <= i < (a + b).len() implies table.contains(#[trigger] (a + b)[i]) by {
            if i < a.len() {
                assert((a + b)[i] == a[i]);
            } else {
                assert((a + b)[i] == b[i - a.len()]);
            }
        }
    }
}

/// A table that holds the strings of some dependencies holds the strings
/// of each of them.
proof fn lemma_holds_each_dep(ds: Seq<DepInfoView>, table: TableView, j: int)
    requires
        holds_all(table, deps_strings(ds)),
        0 <= j < ds.len(),
    ensures
        holds_all(table, dep_strings(ds[j])),
    decreases ds.len(),
{
    let init = ds.drop_last();
    let a = deps_strings(init);
    let b = dep_strings(ds.last());
    if j == ds.len() - 1 {
        assert forall|i: int| 0 <= i < b.len() implies table.contains(#[trigger] b[i]) by {
            assert((a + b)[a.len() + i] == b[i]);
        }
    } else {
        assert forall|i: int| 0 <= i < a.len() implies table.contains(#[trigger] a[i]) by {
            assert((a + b)[i] == a[i]);
        }
        lemma_holds_each_dep(init, table, j);
        assert(init[j] == ds[j]);
    }
}

/// Every dependency of `deps` is one that a `DepInfo` can hold: its source
/// type is known, and the default registry has no address.
pub open spec fn deps_valid(deps: Seq<DepInfoView>) -> bool {
    forall|i: int|
        0 <= i < deps.len() ==> (#[trigger] deps[i]).src_type <= MAX_SRC_TYPE && (deps[i].src_type
            == 0 ==> deps[i].src_path == Seq::<char>::empty())
}

/// The values of dependencies held in memory are valid.
pub proof fn lemma_deps_view_valid(v: Seq<DepInfo>)
    ensures
        deps_valid(deps_view(v)),
{
}

/// The written dependencies of valid dependencies are well-formed.
proof fn lemma_dumped_wf(deps: Seq<DepInfoView>)
    requires
        deps_valid(deps),
    ensures
        forall|j: int| 0 <= j < dumped(deps).len() ==> dep_wf(#[trigger] dumped(deps)[j]),
    decreases deps.len(),
{
    if deps.len() > 0 {
        let init = deps.drop_last();
        assert forall|i: int| 0 <= i < init.len() implies (#[trigger] init[i]).src_type <= MAX_SRC_TYPE
            && (init[i].src_type == 0 ==> init[i].src_path == Seq::<char>::empty()) by {
            assert(init[i] == deps[i]);
        }
        lemma_dumped_wf(init);
        let last = deps[deps.len() - 1];
        assert(last == deps.last());
        assert(last.src_type <= MAX_SRC_TYPE);
        assert forall|j: int| 0 <= j < dumped(deps).len() implies dep_wf(
            #[trigger] dumped(deps)[j],
        ) by {
            if j < dumped(init).len() {
                assert(dumped(deps)[j] == dumped(init)[j]);
            } else {
                assert(dumped(deps)[j] == last);
            }
        }
    }
}

/// The string table of a package whose strings fit 32-bit offsets is
/// orderly and fits them too, holds every string of the package, has a wire
/// form as long as its count says, and is read back from that wire form.
pub proof fn lemma_context_table(info: PackageInfoView, deps: Seq<DepInfoView>)
    requires
        4 + table_size(context_strings(info, deps)) <= u32::MAX,
    ensures
        orderly(context_table(info, deps)),
        4 <= context_table(info, deps).total <= u32::MAX,
        table_image(context_table(info, deps)).len() == context_table(info, deps).total,
        decoded_table(table_image(context_table(info, deps))) == Some(context_table(info, deps)),
        holds_all(context_table(info, deps), context_strings(info, deps)),
{
    let e = Seq::<char>::empty();
    let table = context_table(info, deps);
    let strs = context_strings(info, deps);
    let ss = interned(seq![e], strs);
    lemma_new_table_orderly();
    lemma_intern_laid_out(seq![e], strs);
    lemma_intern_all_orderly(new_table(), strs);
    lemma_intern_all_size(new_table(), strs);
    lemma_laid_out_holds(ss);
    lemma_image_laid_out(ss);
    lemma_table_bytes_len(ss);
    lemma_parse_table_bytes(ss);
    lemma_read_into_new(ss);
    assert(table == laid_out(ss));
    assert forall|i: int| 0 <= i < strs.len() implies table.contains(#[trigger] strs[i]) by {
        lemma_intern_all_holds(new_table(), strs, i);
    }
}

/// What was written can be read back: a well-formed container that holds
/// the unsigned sections of a package, then signature structures only, over
/// the string table of the package, is read back from its file image as
/// itself, and gives the package's description, its written dependencies
/// and its archive.
pub proof fn lemma_encode_decode_round_trip(
    info: PackageInfoView,
    deps: Seq<DepInfoView>,
    archive: Seq<u8>,
    p: CratePackageView,
)
    requires
        encodable(info, deps),
        deps_valid(deps),
        layout_wf(p),
        p.sections.len() >= 3,
        p.sections.take(3) == unsigned_sections(info, deps, archive),
        forall|i: int| 3 <= i < p.sections.len() ==> (#[trigger] p.sections[i]) is SigStructure,
        p.string_table == table_image(context_table(info, deps)),
    ensures
        parse_image(image_bytes(p)) == Some(p),
        decoded_table(p.string_table) == Some(context_table(info, deps)),
        decoded_info(p, context_table(info, deps)) == Some(info),
        decoded_deps(p, context_table(info, deps)) == Some(dumped(deps)),
        crate_binary_of(p) == Some(archive),
{
    let table = context_table(info, deps);
    let strs = context_strings(info, deps);
    let us = unsigned_sections(info, deps, archive);
    lemma_image_round_trip(p);
    lemma_context_table(info, deps);
    let a = info_strings(info);
    let b = deps_strings(dumped(deps));
    assert(holds_all(table, a)) by {
        assert forall|i: int| 0 <= i < a.len() implies table.contains(#[trigger] a[i]) by {
            assert(strs[i] == a[i]);
        }
    }
    assert(holds_all(table, b)) by {
        assert forall|i: int| 0 <= i < b.len() implies table.contains(#[trigger] b[i]) by {
            assert(strs[a.len() + i] == b[i]);
        }
    }
    assert(p.sections[0] == us[0] && p.sections[1] == us[1] && p.sections[2] == us[2]) by {
        assert(p.sections.take(3)[0] == p.sections[0]);
        assert(p.sections.take(3)[1] == p.sections[1]);
        assert(p.sections.take(3)[2] == p.sections[2]);
    }
    lemma_first_of_type(p.index, PACK_TYPE as int);
    lemma_first_of_type(p.index, DEPTABLE_TYPE as int);
    lemma_first_of_type(p.index, CRATEBIN_TYPE as int);
    assert(first_of_type(p.index, PACK_TYPE as int) == 0) by {
        assert(p.index[0].sh_type == PACK_TYPE);
    }
    assert(first_of_type(p.index, DEPTABLE_TYPE as int) == 1) by {
        assert(p.index[0].sh_type == PACK_TYPE);
        assert(p.index[1].sh_type == DEPTABLE_TYPE);
    }
    assert(first_of_type(p.index, CRATEBIN_TYPE as int) == 2) by {
        assert(p.index[0].sh_type == PACK_TYPE);
        assert(p.index[1].sh_type == DEPTABLE_TYPE);
        assert(p.index[2].sh_type == CRATEBIN_TYPE);
    }
    lemma_package_info_round_trip(info, table);
    lemma_dumped_wf(deps);
    let ds = dumped(deps);
    let es = crate::utils::encode::dep_entries_of(ds, table);
    assert forall|j: int| 0 <= j < es.len() implies crate::utils::context::read_dep_info(
        #[trigger] es[j],
        table,
    ) == Some(ds[j]) by {
        lemma_holds_each_dep(ds, table, j);
        lemma_dep_info_round_trip(ds[j], table);
    }
    assert(deps_at(es, table) =~= ds);
}

/// The signature structure that reserves room for a signature of type `typ`.
pub open spec fn placeholder(typ: u32) -> DataSectionView {
    DataSectionView::SigStructure(SigStructureView { typ, size: 0, sig: Seq::empty() })
}

/// The signature structure that holds the signature `bin` of type `typ`.
pub open spec fn signed_section(typ: u32, bin: Seq<u8>) -> DataSectionView {
    DataSectionView::SigStructure(SigStructureView { typ, size: bin.len() as u32, sig: bin })
}

/// A package that the PKI service alone has signed is read back from the
/// file that it was written to: where every signature that the container
/// holds is a well-formed network signature and the service accepts each of
/// them, the file can be read, it gives the package's description, its
/// written dependencies and its archive, its signatures are those that
/// were written, and the check of the signatures finds no fault.
pub proof fn lemma_network_signed_is_accepted(
    info: PackageInfoView,
    deps: Seq<DepInfoView>,
    archive: Seq<u8>,
    blobs: Seq<Seq<u8>>,
    p: CratePackageView,
    verdicts: Seq<RemoteVerdict>,
)
    requires
        encodable(info, deps),
        deps_valid(deps),
        layout_wf(p),
        p.fingerprint == sha256(body_bytes(p)),
        p.string_table == table_image(context_table(info, deps)),
        p.sections.len() == 3 + blobs.len(),
        p.sections.take(3) == unsigned_sections(info, deps, archive),
        forall|i: int|
            0 <= i < blobs.len() ==> (#[trigger] p.sections[3 + i]) == signed_section(SIG_NETWORK, blobs[i]),
        forall|i: int| 0 <= i < blobs.len() ==> network_signature_from(#[trigger] blobs[i]) is Some,
        verdicts.len() >= blobs.len(),
        forall|i: int| 0 <= i < blobs.len() ==> (#[trigger] verdicts[i]) is Accepted,
    ensures
        parse_image(image_bytes(p)) == Some(p),
        decoded_table(p.string_table) == Some(context_table(info, deps)),
        decoded_info(p, context_table(info, deps)) == Some(info),
        decoded_deps(p, context_table(info, deps)) == Some(dumped(deps)),
        crate_binary_of(p) == Some(archive),
        structure_decodes(image_bytes(p)),
        container_all_network(p),
        decoded_sigs(p).len() == blobs.len(),
        forall|i: int| 0 <= i < blobs.len() ==> (#[trigger] decoded_sigs(p)[i]).bin == blobs[i],
        network_fault(false, true, true, decoded_sigs(p), verdicts) is None,
{
    let us = unsigned_sections(info, deps, archive);
    lemma_signed_file_matches(p);
    assert forall|j: int| 0 <= j < 3 implies !((#[trigger] p.sections[j]) is SigStructure) by {
        assert(p.sections.take(3)[j] == p.sections[j]);
        assert(us[j] == p.sections[j]);
    }
    assert forall|j: int| 3 <= j < 3 + blobs.len() implies (#[trigger] p.sections[j]) is SigStructure by {
        assert(p.sections[3 + (j - 3)] == signed_section(SIG_NETWORK, blobs[j - 3]));
    }
    lemma_signatures_listed(p, blobs.len() as int);
    assert forall|i: int| 0 <= i < blobs.len() implies (#[trigger] decode_sig_at(p, i)) is Some
        && decode_sig_at(p, i).unwrap().typ == SIG_NETWORK && decode_sig_at(p, i).unwrap().bin
        == blobs[i] by {
        assert(p.sections[3 + i] == signed_section(SIG_NETWORK, blobs[i]));
        assert(network_signature_from(blobs[i]) is Some);
    }
    assert forall|i: int| 0 <= i < blobs.len() implies (#[trigger] decoded_sigs(p)[i]).bin == blobs[i]
        && decoded_sigs(p)[i].typ == SIG_NETWORK by {
        assert(decoded_sigs(p)[i] == decode_sig_at(p, i).unwrap());
    }
    lemma_encode_decode_round_trip(info, deps, archive, p);
    lemma_accepted_has_no_fault(decoded_sigs(p), verdicts, 0);
}

/// A signed package is read back from the file that it was written to:
/// where the container holds the sections of the package and then its
/// signatures, each of a known type and the network signatures
/// well-formed, the file can be read, it gives the package's description,
/// its written dependencies and its archive, and its signature records are
/// those that were written.
pub proof fn lemma_signed_package_is_read(
    info: PackageInfoView,
    deps: Seq<DepInfoView>,
    archive: Seq<u8>,
    types: Seq<u32>,
    blobs: Seq<Seq<u8>>,
    p: CratePackageView,
)
    requires
        encodable(info, deps),
        deps_valid(deps),
        layout_wf(p),
        p.fingerprint == sha256(body_bytes(p)),
        p.string_table == table_image(context_table(info, deps)),
        types.len() == blobs.len(),
        p.sections.len() == 3 + blobs.len(),
        p.sections.take(3) == unsigned_sections(info, deps, archive),
        forall|i: int|
            0 <= i < blobs.len() ==> (#[trigger] p.sections[3 + i]) == signed_section(types[i], blobs[i]),
        forall|i: int|
            0 <= i < blobs.len() ==> spec_known_sig_type(#[trigger] types[i]) && (types[i]
                == SIG_NETWORK ==> network_signature_from(blobs[i]) is Some),
    ensures
        parse_image(image_bytes(p)) == Some(p),
        decoded_table(p.string_table) == Some(context_table(info, deps)),
        decoded_info(p, context_table(info, deps)) == Some(info),
        decoded_deps(p, context_table(info, deps)) == Some(dumped(deps)),
        crate_binary_of(p) == Some(archive),
        structure_decodes(image_bytes(p)),
        sig_count(p.index) == blobs.len(),
        decoded_sigs(p).len() == blobs.len(),
        record_types(decoded_sigs(p)) == types,
        forall|i: int| 0 <= i < blobs.len() ==> (#[trigger] decoded_sigs(p)[i]).bin == blobs[i],
{
    let us = unsigned_sections(info, deps, archive);
    lemma_signed_file_matches(p);
    assert forall|j: int| 0 <= j < 3 implies !((#[trigger] p.sections[j]) is SigStructure) by {
        assert(p.sections.take(3)[j] == p.sections[j]);
        assert(us[j] == p.sections[j]);
    }
    assert forall|j: int| 3 <= j < 3 + blobs.len() implies (#[trigger] p.sections[j]) is SigStructure by {
        assert(p.sections[3 + (j - 3)] == signed_section(types[j - 3], blobs[j - 3]));
    }
    lemma_signatures_listed(p, blobs.len() as int);
    assert forall|i: int| 0 <= i < blobs.len() implies (#[trigger] decode_sig_at(p, i)) is Some
        && decode_sig_at(p, i).unwrap().typ == types[i] && decode_sig_at(p, i).unwrap().bin
        == blobs[i] by {
        assert(p.sections[3 + i] == signed_section(types[i], blobs[i]));
        assert(spec_known_sig_type(types[i]));
    }
    let records = decoded_sigs(p);
    assert forall|i: int| 0 <= i < blobs.len() implies (#[trigger] records[i]).typ == types[i]
        && records[i].bin == blobs[i] by {
        assert(records[i] == decode_sig_at(p, i).unwrap());
    }
    assert(record_types(records) =~= types);
    lemma_encode_decode_round_trip(info, deps, archive, p);
}

/// The signatures of a signed package hold where they were verified and
/// accepted: where, in a container as above, every local signature was
/// verified and encloses the digest of what it covers, and every network
/// signature finds the client there and was accepted, no signature has a
/// fault.
pub proof fn lemma_signed_package_is_accepted(
    info: PackageInfoView,
    deps: Seq<DepInfoView>,
    archive: Seq<u8>,
    types: Seq<u32>,
    blobs: Seq<Seq<u8>>,
    p: CratePackageView,
    has_client: bool,
    local: Seq<crate::error::Result<Vec<u8>>>,
    verdicts: Seq<RemoteVerdict>,
)
    requires
        encodable(info, deps),
        deps_valid(deps),
        layout_wf(p),
        p.fingerprint == sha256(body_bytes(p)),
        p.string_table == table_image(context_table(info, deps)),
        types.len() == blobs.len(),
        p.sections.len() == 3 + blobs.len(),
        p.sections.take(3) == unsigned_sections(info, deps, archive),
        forall|i: int|
            0 <= i < blobs.len() ==> (#[trigger] p.sections[3 + i]) == signed_section(types[i], blobs[i]),
        forall|i: int|
            0 <= i < blobs.len() ==> spec_known_sig_type(#[trigger] types[i]) && (types[i]
                == SIG_NETWORK ==> has_client && network_signature_from(blobs[i]) is Some),
        expected_digests(types, sha256(signed_region(p, image_bytes(p))), sha256(archive), 0).len()
            <= local.len(),
        forall|j: int|
            0 <= j < expected_digests(
                types,
                sha256(signed_region(p, image_bytes(p))),
                sha256(archive),
                0,
            ).len() ==> encloses(
                #[trigger] local[j],
                expected_digests(types, sha256(signed_region(p, image_bytes(p))), sha256(archive), 0)[j],
            ),
        networks_from(types, 0) <= verdicts.len(),
        forall|j: int| 0 <= j < networks_from(types, 0) ==> (#[trigger] verdicts[j]) is Accepted,
    ensures
        structure_decodes(image_bytes(p)),
        container_fault(
            decoded_sigs(p).len() as int,
            has_client,
            decoded_sigs(p),
            p,
            image_bytes(p),
            local,
            verdicts,
        ) is None,
{
    lemma_signed_package_is_read(info, deps, archive, types, blobs, p);
    let records = decoded_sigs(p);
    assert forall|j: int| 0 <= j < records.len() implies spec_known_sig_type(
        (#[trigger] records[j]).typ,
    ) && (records[j].typ == SIG_NETWORK ==> has_client && network_signature_from(records[j].bin)
        is Some) by {
        assert(record_types(records)[j] == types[j]);
        assert(spec_known_sig_type(types[j]));
    }
    lemma_verified_has_no_fault(
        has_client,
        records,
        sha256(signed_region(p, image_bytes(p))),
        sha256(archive),
        local,
        verdicts,
        0,
        0,
        0,
    );
}

/// The file of a container whose fingerprint is the digest of what stands
/// before it has a fingerprint that matches.
proof fn lemma_signed_file_matches(p: CratePackageView)
    requires
        layout_wf(p),
        p.fingerprint == sha256(body_bytes(p)),
    ensures
        fingerprint_matches(image_bytes(p)),
{
    let bin = image_bytes(p);
    assert(bin.subrange(0, bin.len() - 32) =~= body_bytes(p));
    assert(bin.subrange(bin.len() - 32, bin.len() as int) =~= p.fingerprint);
}

/// A container of three sections that are no signatures and `n` signature
/// structures after them lists its first signature at position three, and
/// `n` signatures in all.
proof fn lemma_signatures_listed(p: CratePackageView, n: int)
    requires
        layout_wf(p),
        0 <= n,
        p.sections.len() == 3 + n,
        forall|j: int| 0 <= j < 3 ==> !((#[trigger] p.sections[j]) is SigStructure),
        forall|j: int| 3 <= j < 3 + n ==> (#[trigger] p.sections[j]) is SigStructure,
    ensures
        first_of_type(p.index, SIGSTRUCTURE_TYPE as int) == 3,
        sig_count(p.index) == n,
{
    lemma_sigs_last_split(p.index);
    lemma_first_of_type(p.index, SIGSTRUCTURE_TYPE as int);
    let m = first_of_type(p.index, SIGSTRUCTURE_TYPE as int);
    if m < 3 {
        assert(p.index[m].sh_type == SIGSTRUCTURE_TYPE);
        assert(!(p.sections[m] is SigStructure));
    }
    if m > 3 {
        assert(p.index[3].sh_type != SIGSTRUCTURE_TYPE);
        assert(p.sections[3] is SigStructure);
    }
}

/// Well-formed network signatures that the service accepts, one and all,
/// have no fault.
proof fn lemma_accepted_has_no_fault(records: Seq<SigRecordView>, verdicts: Seq<RemoteVerdict>, i: int)
    requires
        0 <= i <= records.len() <= verdicts.len(),
        forall|k: int|
            0 <= k < records.len() ==> (#[trigger] records[k]).typ == SIG_NETWORK && network_signature_from(
                records[k].bin,
            ) is Some,
        forall|k: int| 0 <= k < records.len() ==> (#[trigger] verdicts[k]) is Accepted,
    ensures
        network_fault_from(true, records, verdicts, i, i) is None,
    decreases records.len() - i,
{
    if i < records.len() {
        assert(records[i].typ == SIG_NETWORK);
        assert(verdicts[i] is Accepted);
        lemma_accepted_has_no_fault(records, verdicts, i + 1);
    }
}

impl PackageContext {
    /// The request that asks the PKI service to sign the archive: it names
    /// the private key and the configuration of the context's key pair, and
    /// the hexadecimal SHA-256 digest of the archive.
    ///
    /// Fails where the context has no key pair.
    pub fn network_sign_request(&self) -> (r: Result<SignDigestRequest>)
        ensures
            self.network_keypair is None ==> (r matches Err(e) && e is Other),
            r matches Ok(q) ==> {
                &&& self.network_keypair matches Some(kp)
                &&& q.priv_key@ == kp.priv_key@
                &&& q.base_config@ == kp.base_config@
                &&& q.digest@ == hex_of(sha256(self.crate_binary@))
            },
            r matches Err(e) ==> e is Other,
    {
        let kp = match &self.network_keypair {
            Some(kp) => kp,
            None => {
                return Err(
                    CrateSpecError::Other(String::from_str("a network signature needs a key pair")),
                );
            },
        };
        let digest = match PKCS::new().gen_digest_256(self.crate_binary.bytes.as_slice()) {
            Ok(d) => d,
            Err(e) => {
                return Err(e);
            },
        };
        let hex = digest_to_hex_string(digest.as_slice());
        Ok(PkiClient::sign_request(kp.priv_key.as_str(), hex.as_str(), &kp.base_config))
    }

    /// The network signature that wraps the signature `signature` of the
    /// PKI service: it names the public key, the algorithm and the flow of
    /// the context's key pair, and its key-management target and key id
    /// where they are not empty.
    pub open spec fn spec_network_signature(&self, signature: Seq<char>) -> NetworkSignatureView {
        let kp = self.network_keypair.unwrap()@;
        NetworkSignatureView {
            pub_key: kp.pub_key,
            signature,
            algo: kp.base_config.algo,
            flow: kp.base_config.flow,
            kms: if kp.base_config.kms.len() == 0 {
                None
            } else {
                Some(kp.base_config.kms)
            },
            key_id: if kp.key_id.len() == 0 {
                None
            } else {
                Some(kp.key_id)
            },
        }
    }

    /// Stores the signature that the PKI service made in the signature
    /// record `sig_index`, wrapped as a network signature in its compact
    /// binary form, with the public key that it names.
    ///
    /// Fails, and changes nothing, where the context has no key pair or
    /// where there is no record of that index or it is not of the network
    /// type; succeeds else.
    pub fn set_network_signature(&mut self, sig_index: usize, signature: String) -> (r: Result<()>)
        ensures
            r is Ok ==> {
                &&& old(self).network_keypair is Some
                &&& sig_index < old(self).sigs@.len()
                &&& old(self).sigs@[sig_index as int].typ == SIG_NETWORK
                &&& final(self).sigs@.len() == old(self).sigs@.len()
                &&& final(self).sigs@[sig_index as int].bin@ == network_signature_bytes(
                    old(self).spec_network_signature(signature@),
                )
                &&& final(self).sigs@[sig_index as int].size == final(self).sigs@[sig_index as int].bin@.len()
                &&& final(self).sigs@[sig_index as int].typ == SIG_NETWORK
                &&& final(self).sigs@[sig_index as int].pkcs == old(self).sigs@[sig_index as int].pkcs
                &&& opt_view(final(self).sigs@[sig_index as int].pub_key) == Some(
                    old(self).network_keypair.unwrap()@.pub_key,
                )
                &&& forall|j: int|
                    0 <= j < old(self).sigs@.len() && j != sig_index ==> final(self).sigs@[j] == old(
                        self,
                    ).sigs@[j]
            },
            r is Ok <==> old(self).network_keypair is Some && sig_index < old(self).sigs@.len()
                && old(self).sigs@[sig_index as int].typ == SIG_NETWORK,
            r is Ok ==> (final(self).sigs@[sig_index as int].bin@.len() + CLAIM_SLACK
                <= NETWORK_SIGNATURE_LIMIT ==> network_signature_from(
                final(self).sigs@[sig_index as int].bin@,
            ) == Some(old(self).spec_network_signature(signature@))),
            r is Err ==> *final(self) == *old(self),
            r matches Err(e) ==> e is Other,
            final(self).pack_info == old(self).pack_info,
            final(self).dep_infos == old(self).dep_infos,
            final(self).crate_binary == old(self).crate_binary,
            final(self).root_cas == old(self).root_cas,
            final(self).network_client == old(self).network_client,
            final(self).network_keypair == old(self).network_keypair,
    {
        if sig_index >= self.sigs.len() {
            return Err(CrateSpecError::Other(String::from_str("no signature record of that index")));
        }
        if self.sigs[sig_index].typ != SIG_NETWORK {
            return Err(
                CrateSpecError::Other(String::from_str("the signature record is not a network one")),
            );
        }
        let wrapped = match &self.network_keypair {
            None => {
                return Err(
                    CrateSpecError::Other(String::from_str("a network signature needs a key pair")),
                );
            },
            Some(kp) => NetworkSignature {
                pub_key: kp.pub_key.clone(),
                signature,
                algo: kp.base_config.algo.clone(),
                flow: kp.base_config.flow.clone(),
                kms: if kp.base_config.kms.as_str().is_empty() {
                    None
                } else {
                    Some(kp.base_config.kms.clone())
                },
                key_id: if kp.key_id.as_str().is_empty() {
                    None
                } else {
                    Some(kp.key_id.clone())
                },
            },
        };
        let bytes = match wrapped.to_bytes() {
            Ok(b) => b,
            Err(m) => {
                return Err(CrateSpecError::Other(m));
            },
        };
        self.sigs[sig_index].size = bytes.len();
        self.sigs[sig_index].bin = bytes;
        self.sigs[sig_index].pub_key = Some(wrapped.pub_key);
        Ok(())
    }
}

/// The sections of a container that is laid out for signing: the unsigned
/// sections of the package, then room for a signature of each of the types
/// `types`.
pub open spec fn sections_with_room(unsigned: Seq<DataSectionView>, types: Seq<u32>) -> Seq<
    DataSectionView,
> {
    unsigned + Seq::new(types.len(), |i: int| placeholder(types[i]))
}

/// The types of the signature records `v`.
pub open spec fn sig_types(v: Seq<SigInfo>) -> Seq<u32> {
    Seq::new(v.len(), |i: int| v[i].typ)
}

/// Every signature record of `v` is of a known type.
pub open spec fn sig_types_known(v: Seq<SigInfo>) -> bool {
    forall|i: int| 0 <= i < v.len() ==> spec_known_sig_type((#[trigger] v[i]).typ)
}

/// The signature of a record that is signed: the signature that a network
/// record brought with it, or any signature that a local signer made.
pub open spec fn signed_as(before: SigInfo, after: SigInfo) -> bool {
    &&& after.typ == before.typ
    &&& after.pkcs == before.pkcs
    &&& after.pub_key == before.pub_key
    &&& after.size == after.bin@.len()
    &&& after.bin@.len() <= spec_max_sig_size(after.typ)
    &&& before.typ == SIG_NETWORK ==> after.bin@ == before.bin@
}

/// Why a record that brings its signature with it cannot be written.
pub enum RecordFault {
    /// The record holds no signature.
    Missing,
    /// The signature is longer than the room reserved for its type.
    TooLong,
}

/// What is wrong with the first of the records `v` that does not bring a
/// signature that fits its room, if there is one.
pub open spec fn first_record_fault(v: Seq<SigInfo>) -> Option<RecordFault>
    decreases v.len(),
{
    if v.len() == 0 {
        None
    } else {
        match first_record_fault(v.drop_last()) {
            Some(f) => Some(f),
            None => if v.last().bin@.len() == 0 {
                Some(RecordFault::Missing)
            } else if v.last().bin@.len() > spec_max_sig_size(v.last().typ) {
                Some(RecordFault::TooLong)
            } else {
                None
            },
        }
    }
}

/// A fault among the first records is a fault among all of them.
pub proof fn lemma_first_record_fault_stays(v: Seq<SigInfo>, k: int)
    requires
        0 <= k <= v.len(),
        first_record_fault(v.take(k)) is Some,
    ensures
        first_record_fault(v) == first_record_fault(v.take(k)),
    decreases v.len() - k,
{
    if k < v.len() {
        assert(v.take(k + 1).drop_last() =~= v.take(k));
        lemma_first_record_fault_stays(v, k + 1);
    } else {
        assert(v.take(k) =~= v);
    }
}

/// The package with signature records of the types `types` fits a
/// container: all its offsets fit 32 bits.
pub open spec fn fits_container(
    info: PackageInfoView,
    deps: Seq<DepInfoView>,
    archive: Seq<u8>,
    types: Seq<u32>,
) -> bool {
    crate::utils::package::can_assemble(
        sections_with_room(unsigned_sections(info, deps, archive), types),
        context_table(info, deps).total,
    )
}

impl PackageContext {
    /// Lays the package out as a container with room for its signatures,
    /// signs it, and returns the container, its string table and its file.
    ///
    /// A file signature is made over the SHA-256 digest of the canonical
    /// file image, a crate-binary signature over that of the archive, each
    /// by the signer of its record. A network signature is not made here:
    /// its record must hold it already, as `set_network_signature` leaves it.
    /// Every record ends up holding its signature.
    ///
    /// Fails with an encode error where the package cannot be written, where
    /// a signature record is of an unknown type, where the container would
    /// be too large, or where a signature is longer than the room reserved
    /// for its type; with the error of the signer or of the digest where
    /// these fail; with another error where a network record holds no
    /// signature. After a failure the records may hold a part of the
    /// signatures.
    ///
    /// Where every signature comes from the PKI service, the package alone
    /// decides the outcome, but for the digests: the first record that
    /// brings no signature, or one too long for its room, ends the encoding.
    pub fn encode_to_crate_package(&mut self) -> (r: Result<(CratePackage, StringTable, Vec<u8>)>)
        ensures
            (all_network(old(self).sigs@) && encodable(old(self).pack_info@, old(self).spec_deps())
                && fits_container(
                old(self).pack_info@,
                old(self).spec_deps(),
                old(self).crate_binary@,
                sig_types(old(self).sigs@),
            )) ==> (match first_record_fault(old(self).sigs@) {
                None => r is Ok || (r matches Err(e) && e is Other),
                Some(RecordFault::Missing) => r matches Err(e) && e is Other,
                Some(RecordFault::TooLong) => r matches Err(e) && (e is EncodeError || e is Other),
            }),
            !encodable(old(self).pack_info@, old(self).spec_deps()) ==> (r matches Err(e)
                && e is EncodeError),
            !sig_types_known(old(self).sigs@) ==> (r matches Err(e) && e is EncodeError),
            !fits_container(
                old(self).pack_info@,
                old(self).spec_deps(),
                old(self).crate_binary@,
                sig_types(old(self).sigs@),
            ) ==> (r matches Err(e) && e is EncodeError),
            r matches Ok((pkg, table, bytes)) ==> {
                &&& encodable(old(self).pack_info@, old(self).spec_deps())
                &&& layout_wf(pkg@)
                &&& bytes@ == image_bytes(pkg@)
                &&& fingerprint_matches(bytes@)
                &&& pkg@.fingerprint == sha256(body_bytes(pkg@))
                &&& table.wf()
                &&& table@ == context_table(old(self).pack_info@, old(self).spec_deps())
                &&& pkg@.string_table == table_image(table@)
                &&& pkg@.sections.len() == 3 + old(self).sigs@.len()
                &&& pkg@.sections.take(3) == unsigned_sections(
                    old(self).pack_info@,
                    old(self).spec_deps(),
                    old(self).crate_binary@,
                )
                &&& forall|i: int|
                    0 <= i < old(self).sigs@.len() ==> (#[trigger] pkg@.sections[3 + i]) == signed_section(
                        final(self).sigs@[i].typ,
                        final(self).sigs@[i].bin@,
                    )
                &&& forall|i: int|
                    0 <= i < old(self).sigs@.len() ==> signed_as(
                        old(self).sigs@[i],
                        #[trigger] final(self).sigs@[i],
                    )
            },
            final(self).sigs@.len() == old(self).sigs@.len(),
            final(self).pack_info == old(self).pack_info,
            final(self).dep_infos == old(self).dep_infos,
            final(self).crate_binary == old(self).crate_binary,
            final(self).root_cas == old(self).root_cas,
            final(self).network_client == old(self).network_client,
            final(self).network_keypair == old(self).network_keypair,
    {
        let ghost info = self.pack_info@;
        let ghost deps = self.spec_deps();
        let ghost archive = self.crate_binary@;
        let ghost us = unsigned_sections(info, deps, archive);
        let ghost types = sig_types(self.sigs@);
        let n: usize = self.sigs.len();
        let (mut sections, table) = match self.build_unsigned() {
            Ok(x) => x,
            Err(e) => {
                return Err(e);
            },
        };
        let mut i: usize = 0;
        proof {
            assert(sections_view(sections@) =~= sections_with_room(us, types.take(0)));
        }
        while i < n
            invariant
                i <= n == self.sigs@.len(),
                *self == *old(self),
                types == sig_types(self.sigs@),
                us.len() == 3,
                sections@.len() == 3 + i,
                sections_view(sections@) == sections_with_room(us, types.take(i as int)),
                forall|j: int| 0 <= j < i ==> spec_known_sig_type((#[trigger] self.sigs@[j]).typ),
            decreases n - i,
        {
            let typ: u32 = self.sigs[i].typ;
            if !known_sig_type(typ) {
                return Err(CrateSpecError::EncodeError(String::from_str("unknown signature type")));
            }
            let ghost before = sections@;
            sections.push(
                DataSection::SigStructureSection(
                    SigStructureSection { sigstruct_type: typ, sigstruct_size: 0, sigstruct_sig: Vec::new() },
                ),
            );
            i = i + 1;
            proof {
                let now = sections_view(sections@);
                let want = sections_with_room(us, types.take(i as int));
                assert forall|j: int| 0 <= j < now.len() implies now[j] == want[j] by {
                    if j < before.len() {
                        assert(sections@[j] == before[j]);
                        assert(sections_view(before)[j] == sections_with_room(us, types.take(i - 1))[j]);
                    }
                }
                assert(now =~= want);
            }
        }
        proof {
            assert(types.take(n as int) =~= types);
        }
        let table_bin = table.to_bytes();
        proof {
            lemma_context_table(info, deps);
        }
        let mut pkg = match CratePackage::assemble(sections, table_bin) {
            Ok(p) => p,
            Err(e) => {
                return Err(e);
            },
        };
        let ghost laid = pkg@;
        proof {
            lemma_laid_out(laid, us, types);
            lemma_image_lengths(laid);
        }
        let provisional = pkg.encode_body();
        let canonical = self.binary_before_sig(&pkg, provisional.as_slice());
        let file_digest = match PKCS::new().gen_digest_256(canonical.as_slice()) {
            Ok(d) => d,
            Err(e) => {
                return Err(e);
            },
        };
        let crate_digest = match PKCS::new().gen_digest_256(self.crate_binary.bytes.as_slice()) {
            Ok(d) => d,
            Err(e) => {
                return Err(e);
            },
        };
        let total: usize = pkg.data_sections.len();
        let mut k: usize = 0;
        while k < n
            invariant
                3 + n == total,
                k <= n == self.sigs@.len(),
                n == old(self).sigs@.len(),
                encodable(old(self).pack_info@, old(self).spec_deps()),
                sig_types_known(old(self).sigs@),
                fits_container(
                    old(self).pack_info@,
                    old(self).spec_deps(),
                    old(self).crate_binary@,
                    sig_types(old(self).sigs@),
                ),
                types == sig_types(old(self).sigs@),
                all_network(old(self).sigs@) ==> first_record_fault(old(self).sigs@.take(k as int))
                    is None,
                us.len() == 3,
                layout_wf(pkg@),
                pkg@.string_table == laid.string_table,
                pkg@.sections.len() == 3 + n,
                forall|j: int| 0 <= j < 3 ==> (#[trigger] pkg@.sections[j]) == us[j],
                forall|j: int|
                    0 <= j < k ==> (#[trigger] pkg@.sections[3 + j]) == signed_section(
                        self.sigs@[j].typ,
                        self.sigs@[j].bin@,
                    ),
                forall|j: int| k <= j < n ==> (#[trigger] pkg@.sections[3 + j]) == placeholder(types[j]),
                forall|j: int| 0 <= j < k ==> signed_as(old(self).sigs@[j], #[trigger] self.sigs@[j]),
                forall|j: int| k <= j < n ==> (#[trigger] self.sigs@[j]) == old(self).sigs@[j],
                self.pack_info == old(self).pack_info,
                self.dep_infos == old(self).dep_infos,
                self.crate_binary == old(self).crate_binary,
                self.root_cas == old(self).root_cas,
                self.network_client == old(self).network_client,
                self.network_keypair == old(self).network_keypair,
            decreases n - k,
        {
            let typ: u32 = self.sigs[k].typ;
            proof {
                assert(self.sigs@[k as int] == old(self).sigs@[k as int]);
                assert(old(self).sigs@.take(k + 1).drop_last() =~= old(self).sigs@.take(k as int));
                assert(old(self).sigs@.take(k + 1).last() == old(self).sigs@[k as int]);
                if first_record_fault(old(self).sigs@.take(k + 1)) is Some {
                    lemma_first_record_fault_stays(old(self).sigs@, k + 1);
                }
            }
            let blob: Vec<u8> = if typ == SIG_FILE || typ == SIG_CRATEBIN {
                let digest = covered(typ, file_digest.as_slice(), crate_digest.as_slice());
                match self.sigs[k].pkcs.encode_pkcs_bin(digest) {
                    Ok(b) => b,
                    Err(e) => {
                        return Err(e);
                    },
                }
            } else {
                if self.sigs[k].bin.len() == 0 {
                    return Err(
                        CrateSpecError::Other(
                            String::from_str("a network signature record holds no signature"),
                        ),
                    );
                }
                vstd::slice::slice_to_vec(self.sigs[k].bin.as_slice())
            };
            let copy: Vec<u8> = vstd::slice::slice_to_vec(blob.as_slice());
            let ghost prev_view = pkg@.sections;
            let ghost prev_sigs = self.sigs@;
            let ghost blob_view = blob@;
            proof {
                assert(prev_view[3 + k] == placeholder(types[k as int]));
            }
            match pkg.place_signature(3 + k, blob) {
                Ok(()) => {},
                Err(e) => {
                    return Err(e);
                },
            }
            self.sigs[k].size = copy.len();
            self.sigs[k].bin = copy;
            k = k + 1;
            proof {
                assert forall|j: int| 0 <= j < k implies (#[trigger] pkg@.sections[3 + j])
                    == signed_section(self.sigs@[j].typ, self.sigs@[j].bin@) by {
                    if j < k - 1 {
                        assert(self.sigs@[j] == prev_sigs[j]);
                        assert(pkg@.sections[3 + j] == prev_view[3 + j]);
                    }
                }
                assert forall|j: int| k <= j < n implies (#[trigger] pkg@.sections[3 + j])
                    == placeholder(types[j]) by {
                    assert(pkg@.sections[3 + j] == prev_view[3 + j]);
                }
                assert forall|j: int| 0 <= j < 3 implies (#[trigger] pkg@.sections[j]) == us[j] by {
                    assert(pkg@.sections[j] == prev_view[j]);
                }
                assert forall|j: int| 0 <= j < k implies signed_as(
                    old(self).sigs@[j],
                    #[trigger] self.sigs@[j],
                ) by {
                    if j < k - 1 {
                        assert(self.sigs@[j] == prev_sigs[j]);
                    }
                }
                assert forall|j: int| k <= j < n implies (#[trigger] self.sigs@[j]) == old(
                    self,
                ).sigs@[j] by {
                    assert(self.sigs@[j] == prev_sigs[j]);
                }
            }
        }
        proof {
            assert(old(self).sigs@.take(n as int) =~= old(self).sigs@);
        }
        let body = pkg.encode_body();
        let fingerprint = match PKCS::new().gen_digest_256(body.as_slice()) {
            Ok(d) => d,
            Err(e) => {
                return Err(e);
            },
        };
        let mut bytes = body;
        bytes.extend_from_slice(fingerprint.as_slice());
        let ghost before = pkg@;
        match pkg.set_fingerprint(fingerprint) {
            Ok(()) => {},
            Err(e) => {
                return Err(e);
            },
        }
        proof {
            let sealed = pkg@;
            assert(body_bytes(sealed) == body_bytes(before));
            assert(bytes@ =~= image_bytes(sealed));
            assert(bytes@.subrange(0, bytes@.len() - 32) =~= body_bytes(sealed));
            assert(bytes@.subrange(bytes@.len() - 32, bytes@.len() as int) =~= sealed.fingerprint);
            assert(sealed.sections.take(3) =~= us);
        }
        Ok((pkg, table, bytes))
    }
}

/// The signature `blob` fits the signature structure at position `at` of
/// the container: a signature structure of a known type stands there, and
/// the room reserved for its type holds the signature.
pub open spec fn fits_at(p: CratePackageView, at: int, blob: Seq<u8>) -> bool {
    0 <= at < p.sections.len() && match p.sections[at] {
        DataSectionView::SigStructure(s) => spec_known_sig_type(s.typ) && blob.len()
            <= spec_max_sig_size(s.typ),
        _ => false,
    }
}

/// The container with the signature `blob` in the signature structure at
/// position `at`.
pub open spec fn with_signature(p: CratePackageView, at: int, blob: Seq<u8>) -> CratePackageView {
    CratePackageView {
        sections: p.sections.update(at, signed_section(p.sections[at]->SigStructure_0.typ, blob)),
        ..p
    }
}

/// Writing a signature into the room left for it keeps a container
/// well-formed and leaves its header, its index and its signed region as
/// they are.
pub proof fn lemma_place_keeps_layout(p: CratePackageView, at: int, blob: Seq<u8>)
    requires
        layout_wf(p),
        fits_at(p, at, blob),
    ensures
        layout_wf(with_signature(p, at, blob)),
        same_unsigned(p.sections, with_signature(p, at, blob).sections),
        signed_region(with_signature(p, at, blob), image_bytes(with_signature(p, at, blob)))
            == signed_region(p, image_bytes(p)),
{
    let q = with_signature(p, at, blob);
    let a = p.sections;
    let b = q.sections;
    lemma_same_unsigned_layout(a, b, p.string_table.len() as int);
    assert forall|i: int| 0 <= i < b.len() implies section_wf(#[trigger] b[i]) by {
        if i != at {
            assert(section_wf(a[i]));
        }
    }
    assert forall|i: int, j: int|
        0 <= i < j < b.len() && (#[trigger] b[i]) is SigStructure implies (
    #[trigger] b[j]) is SigStructure by {
        assert(a[i] is SigStructure);
        assert(a[j] is SigStructure);
    }
    lemma_signing_keeps_signed_region(p, q);
}

impl CratePackage {
    /// Writes the signature `blob` into the signature structure at position
    /// `at` of the container.
    ///
    /// Fails with an encode error, and changes nothing, where no signature
    /// structure of a known type stands at `at` or where the signature is
    /// longer than the room reserved for its type.
    pub fn place_signature(&mut self, at: usize, blob: Vec<u8>) -> (r: Result<()>)
        ensures
            r is Ok <==> fits_at(old(self)@, at as int, blob@),
            r is Ok ==> final(self)@ == with_signature(old(self)@, at as int, blob@),
            r is Ok && layout_wf(old(self)@) ==> layout_wf(final(self)@),
            r is Err ==> *final(self) == *old(self),
            r matches Err(e) ==> e is EncodeError,
    {
        if at >= self.data_sections.len() {
            return Err(CrateSpecError::EncodeError(String::from_str("no such section")));
        }
        proof {
            assert(self@.sections[at as int] == self.data_sections@[at as int]@);
        }
        let typ: u32 = match &self.data_sections[at] {
            DataSection::SigStructureSection(s) => s.sigstruct_type,
            _ => {
                return Err(
                    CrateSpecError::EncodeError(String::from_str("the section is no signature structure")),
                );
            },
        };
        if !known_sig_type(typ) {
            return Err(CrateSpecError::EncodeError(String::from_str("unknown signature type")));
        }
        if blob.len() > max_sig_size(typ) as usize {
            return Err(CrateSpecError::EncodeError(String::from_str("signature overflow")));
        }
        let ghost before = self@;
        let ghost prev = self.data_sections@;
        let ghost blob_view = blob@;
        self.data_sections[at] = DataSection::SigStructureSection(
            SigStructureSection {
                sigstruct_type: typ,
                sigstruct_size: blob.len() as u32,
                sigstruct_sig: blob,
            },
        );
        proof {
            let want = with_signature(before, at as int, blob_view);
            assert forall|j: int| 0 <= j < prev.len() implies self@.sections[j] == want.sections[j] by {
                if j != at {
                    assert(self.data_sections@[j] == prev[j]);
                    assert(before.sections[j] == prev[j]@);
                }
            }
            assert(self@.sections =~= want.sections);
            if layout_wf(before) {
                lemma_place_keeps_layout(before, at as int, blob_view);
            }
        }
        Ok(())
    }

    /// Sets the fingerprint of the container.
    ///
    /// Fails, and changes nothing, where `fingerprint` is not 32 bytes long.
    pub fn set_fingerprint(&mut self, fingerprint: Vec<u8>) -> (r: Result<()>)
        ensures
            r is Ok <==> fingerprint@.len() == 32,
            r is Ok ==> final(self)@ == (CratePackageView { fingerprint: fingerprint@, ..old(self)@ }),
            r is Ok && layout_wf(old(self)@) ==> layout_wf(final(self)@),
            r is Err ==> *final(self) == *old(self),
            r matches Err(e) ==> e is Other,
    {
        if fingerprint.len() != FINGERPRINT_LEN {
            return Err(CrateSpecError::Other(String::from_str("the digest is not 32 bytes long")));
        }
        self.finger_print = fingerprint;
        Ok(())
    }
}

/// A container that is laid out with room for signatures lists as many
/// signatures as it has room for, and its file without fingerprint is long
/// enough for its signed region.
proof fn lemma_laid_out(p: CratePackageView, us: Seq<DataSectionView>, types: Seq<u32>)
    requires
        layout_wf(p),
        us.len() == 3,
        forall|j: int| 0 <= j < 3 ==> !((#[trigger] us[j]) is SigStructure),
        p.sections == sections_with_room(us, types),
    ensures
        sig_count(p.index) == types.len(),
        crate::utils::canon::signed_len(p) <= body_bytes(p).len(),
        crate::utils::canon::mask_start(p) <= u32::MAX,
        crate::utils::canon::mask_end(p) <= u32::MAX,
        12 * p.index.len() <= u32::MAX,
        body_bytes(p).len() == image_bytes(p).len() - 32,
{
    lemma_signed_len_bound(p);
    lemma_sigs_last_split(p.index);
    lemma_first_of_type(p.index, SIGSTRUCTURE_TYPE as int);
    lemma_image_lengths(p);
    let m = first_of_type(p.index, SIGSTRUCTURE_TYPE as int);
    if m < 3 {
        assert(p.index[m].sh_type == SIGSTRUCTURE_TYPE);
        assert(p.sections[m] == us[m]);
    }
    if m > 3 {
        assert(p.index[3].sh_type != SIGSTRUCTURE_TYPE);
        assert(p.sections[3] == placeholder(types[0]));
    }
}

} // verus!
