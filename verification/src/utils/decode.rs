//! Reading a container: finding its sections, rebuilding the package from
//! them, checking the fingerprint and the signatures.

use vstd::prelude::*;
use crate::error::{CrateSpecError, Result};
use crate::network::{
    digest_to_hex_string,
    hex_of,
    network_signature_from,
    opt_view,
    BaseConfig,
    NetworkSignature,
    VerifyDigestRequest,
};
use crate::utils::canon::{mask_end, mask_start, masked, signed_len, signed_region};
use crate::utils::context::{
    deps_view,
    read_dep_info,
    read_package_info,
    DepInfo,
    DepInfoView,
    PackageContext,
    PackageInfoView,
    SigInfo,
};
use crate::utils::index::{first_of_type, lemma_counts_bounds, lemma_first_of_type, sig_count};
use crate::utils::package::{parse_image, FINGERPRINT_LEN, CratePackage, CratePackageView};
use crate::utils::pkcs::{sha256, PKCS};
use crate::utils::section::{
    CRATEBIN_TYPE,
    DEPTABLE_TYPE,
    PACK_TYPE,
    SIGSTRUCTURE_TYPE,
    SIG_CRATEBIN,
    SIG_FILE,
    SIG_NETWORK,
    CrateBinarySection,
    DataSection,
    DataSectionView,
    DepTableEntry,
    DepTableSection,
    PackageSection,
    SigStructureSection,
    SigStructureView,
};
use crate::utils::strtab::{lemma_put_all_first, new_table, parse_table, put_all, StringTable, TableView};

verus! {

impl CratePackage {
    /// The index lists as many sections as the container holds.
    pub open spec fn spec_indexed(&self) -> bool {
        self.section_index.entries@.len() == self.data_sections@.len()
    }

    /// The position of the first section of type `typ`, or the number of
    /// sections where there is none.
    pub open spec fn spec_first(&self, typ: u32) -> int {
        first_of_type(self.section_index@, typ as int)
    }

    /// The data section at position `id`.
    pub fn data_section_by_id(&self, id: usize) -> (r: &DataSection)
        requires
            id < self.data_sections@.len(),
        ensures
            *r == self.data_sections@[id as int],
    {
        &self.data_sections[id]
    }

    /// The first data section of type `typ`, or a decode error where the
    /// index lists none.
    pub fn data_section_by_type(&self, typ: usize) -> (r: Result<&DataSection>)
        requires
            self.spec_indexed(),
        ensures
            r is Ok <==> first_of_type(self.section_index@, typ as int) < self.data_sections@.len(),
            r matches Ok(d) ==> *d == self.data_sections@[first_of_type(
                self.section_index@,
                typ as int,
            )],
            r matches Err(e) ==> e is DecodeError,
    {
        match self.section_index.section_id_by_type(typ) {
            Ok(id) => Ok(self.data_section_by_id(id)),
            Err(e) => Err(e),
        }
    }

    /// The package section, or a decode error where the index lists none
    /// or lists another section under its type.
    pub fn package_section(&self) -> (r: Result<&PackageSection>)
        requires
            self.spec_indexed(),
        ensures
            r is Ok <==> self.spec_first(PACK_TYPE) < self.data_sections@.len()
                && self.data_sections@[self.spec_first(PACK_TYPE)] is PackageSection,
            r matches Ok(p) ==> self.data_sections@[self.spec_first(PACK_TYPE)]
                == DataSection::PackageSection(*p),
            r matches Err(e) ==> e is DecodeError,
    {
        match self.data_section_by_type(PACK_TYPE as usize) {
            Ok(DataSection::PackageSection(pak)) => Ok(pak),
            Ok(_) => Err(CrateSpecError::DecodeError(String::from_str("package section not found"))),
            Err(e) => Err(e),
        }
    }

    /// The dependency table, or a decode error where the index lists none
    /// or lists another section under its type.
    pub fn dep_table_section(&self) -> (r: Result<&DepTableSection>)
        requires
            self.spec_indexed(),
        ensures
            r is Ok <==> self.spec_first(DEPTABLE_TYPE) < self.data_sections@.len()
                && self.data_sections@[self.spec_first(DEPTABLE_TYPE)] is DepTableSection,
            r matches Ok(d) ==> self.data_sections@[self.spec_first(DEPTABLE_TYPE)]
                == DataSection::DepTableSection(*d),
            r matches Err(e) ==> e is DecodeError,
    {
        match self.data_section_by_type(DEPTABLE_TYPE as usize) {
            Ok(DataSection::DepTableSection(dep)) => Ok(dep),
            Ok(_) => Err(CrateSpecError::DecodeError(String::from_str("dep table section not found"))),
            Err(e) => Err(e),
        }
    }

    /// The crate-binary section, or a decode error where the index lists
    /// none or lists another section under its type.
    pub fn crate_binary_section(&self) -> (r: Result<&CrateBinarySection>)
        requires
            self.spec_indexed(),
        ensures
            r is Ok <==> self.spec_first(CRATEBIN_TYPE) < self.data_sections@.len()
                && self.data_sections@[self.spec_first(CRATEBIN_TYPE)] is CrateBinarySection,
            r matches Ok(c) ==> self.data_sections@[self.spec_first(CRATEBIN_TYPE)]
                == DataSection::CrateBinarySection(*c),
            r matches Err(e) ==> e is DecodeError,
    {
        match self.data_section_by_type(CRATEBIN_TYPE as usize) {
            Ok(DataSection::CrateBinarySection(cra)) => Ok(cra),
            Ok(_) => Err(
                CrateSpecError::DecodeError(String::from_str("crate binary section not found")),
            ),
            Err(e) => Err(e),
        }
    }

    /// The signature structure of number `no`, counted from the first
    /// signature entry of the index, or a decode error where the index lists
    /// no signature or lists another section at that place.
    pub fn sig_structure_section(&self, no: usize) -> (r: Result<&SigStructureSection>)
        requires
            self.spec_indexed(),
            self.spec_first(SIGSTRUCTURE_TYPE) == self.data_sections@.len() || no + self.spec_first(
                SIGSTRUCTURE_TYPE,
            ) < self.data_sections@.len(),
        ensures
            r is Ok <==> self.spec_first(SIGSTRUCTURE_TYPE) < self.data_sections@.len()
                && self.data_sections@[no + self.spec_first(SIGSTRUCTURE_TYPE)] is SigStructureSection,
            r matches Ok(s) ==> self.data_sections@[no + self.spec_first(SIGSTRUCTURE_TYPE)]
                == DataSection::SigStructureSection(*s),
            r matches Err(e) ==> e is DecodeError,
    {
        proof {
            lemma_first_of_type(self.section_index@, SIGSTRUCTURE_TYPE as int);
        }
        let base: usize = match self.section_index.section_id_by_type(SIGSTRUCTURE_TYPE as usize) {
            Ok(b) => b,
            Err(e) => {
                return Err(e);
            },
        };
        let n: usize = self.data_sections.len();
        proof {
            assert(base == self.spec_first(SIGSTRUCTURE_TYPE));
            assert(no + base < n);
        }
        match self.data_section_by_id(no + base) {
            DataSection::SigStructureSection(sig) => Ok(sig),
            _ => Err(
                CrateSpecError::DecodeError(String::from_str("sig structure section not found")),
            ),
        }
    }
}

/// Whether two byte strings are the same.
pub fn bytes_eq(a: &[u8], b: &[u8]) -> (r: bool)
    ensures
        r == (a@ == b@),
{
    if a.len() != b.len() {
        return false;
    }
    let mut i: usize = 0;
    while i < a.len()
        invariant
            i <= a@.len(),
            a@.len() == b@.len(),
            a@.take(i as int) == b@.take(i as int),
        decreases a@.len() - i,
    {
        if a[i] != b[i] {
            return false;
        }
        i = i + 1;
        proof {
            assert(a@.take(i as int) =~= a@.take(i - 1).push(a@[i - 1]));
            assert(b@.take(i as int) =~= b@.take(i - 1).push(b@[i - 1]));
        }
    }
    proof {
        assert(a@.take(a@.len() as int) =~= a@);
        assert(b@.take(b@.len() as int) =~= b@);
    }
    true
}

/// What the PKI service said of one network signature.
#[derive(Debug)]
pub enum RemoteVerdict {
    /// The service holds the signature to be valid.
    Accepted,
    /// The service holds the signature to be invalid.
    Rejected,
    /// The service could not be asked, or failed; holds its message.
    Failed(String),
}

/// What a signature of type `typ` covers: the canonical file image for a
/// file signature, the archive for a crate-binary and for a network signature.
pub open spec fn spec_covered(typ: u32, canonical: Seq<u8>, archive: Seq<u8>) -> Seq<u8> {
    if typ == SIG_FILE {
        canonical
    } else {
        archive
    }
}

/// What a signature of type `typ` covers, picked from the canonical file
/// image and the archive, or from their digests.
pub fn covered<'a>(typ: u32, canonical: &'a [u8], archive: &'a [u8]) -> (r: &'a [u8])
    ensures
        r@ == spec_covered(typ, canonical@, archive@),
{
    if typ == SIG_FILE {
        canonical
    } else {
        archive
    }
}

impl RemoteVerdict {
    /// The verdict that a verification call ended with: accepted where the
    /// service said so, rejected where it said otherwise, failed with the
    /// call's message where the call failed.
    pub fn from_call(result: core::result::Result<bool, String>) -> (r: RemoteVerdict)
        ensures
            result == Ok::<bool, String>(true) ==> r is Accepted,
            result == Ok::<bool, String>(false) ==> r is Rejected,
            result matches Err(m) ==> r == RemoteVerdict::Failed(m),
    {
        match result {
            Ok(true) => RemoteVerdict::Accepted,
            Ok(false) => RemoteVerdict::Rejected,
            Err(m) => RemoteVerdict::Failed(m),
        }
    }
}

/// The verdict on a local signature: `verified` is what verifying the
/// signature gave, the enclosed digest or an error; `actual` is the digest
/// of what the signature is to cover.
///
/// A signature that does not hold is a signature error, whatever kept it
/// from holding: an error of the verification, whose message is kept, or a
/// digest other than the actual one.
pub fn judge_local(actual: &[u8], verified: &Result<Vec<u8>>) -> (r: Result<()>)
    ensures
        r is Ok <==> (*verified matches Ok(d) && d@ == actual@),
        r matches Err(e) ==> e is SignatureError,
        *verified matches Err(v) ==> (r matches Err(e) && e.spec_message() == v.spec_message()),
{
    match verified {
        Ok(expect) => {
            if bytes_eq(actual, expect.as_slice()) {
                Ok(())
            } else {
                Err(
                    CrateSpecError::SignatureError(
                        String::from_str("local signature does not match the content"),
                    ),
                )
            }
        },
        Err(e) => Err(CrateSpecError::SignatureError(String::from_str(e.message()))),
    }
}

/// The verdict on a network signature, from what the PKI service said: a
/// rejection is a signature error, a failure of the service a PKI error.
pub fn judge_remote(verdict: &RemoteVerdict) -> (r: Result<()>)
    ensures
        r is Ok <==> verdict is Accepted,
        verdict is Rejected ==> (r matches Err(e) && e is SignatureError),
        verdict matches RemoteVerdict::Failed(m) ==> (r matches Err(e) && e is PkiError
            && e.spec_message() == m@),
{
    match verdict {
        RemoteVerdict::Accepted => Ok(()),
        RemoteVerdict::Rejected => Err(
            CrateSpecError::SignatureError(String::from_str("network signature was rejected")),
        ),
        RemoteVerdict::Failed(m) => Err(CrateSpecError::PkiError(m.clone())),
    }
}

/// The dependencies that the entries `es` give over `table`: every entry
/// can be read.
pub open spec fn deps_resolve(es: Seq<DepTableEntry>, table: TableView) -> bool {
    forall|i: int| 0 <= i < es.len() ==> read_dep_info(#[trigger] es[i], table) is Some
}

/// The dependencies that the entries `es` give over `table`.
pub open spec fn deps_at(es: Seq<DepTableEntry>, table: TableView) -> Seq<DepInfoView> {
    Seq::new(es.len(), |i: int| read_dep_info(es[i], table).unwrap())
}

/// The package section that the index of `p` lists first, if it lists one
/// and a package section stands there.
pub open spec fn package_of(p: CratePackageView) -> Option<crate::utils::section::PackageSectionView> {
    let k = first_of_type(p.index, PACK_TYPE as int);
    if k < p.sections.len() {
        match p.sections[k] {
            DataSectionView::Package(ps) => Some(ps),
            _ => None,
        }
    } else {
        None
    }
}

/// The dependency table that the index of `p` lists first, if it lists
/// one and a dependency table stands there.
pub open spec fn dep_table_of(p: CratePackageView) -> Option<Seq<DepTableEntry>> {
    let k = first_of_type(p.index, DEPTABLE_TYPE as int);
    if k < p.sections.len() {
        match p.sections[k] {
            DataSectionView::DepTable(es) => Some(es),
            _ => None,
        }
    } else {
        None
    }
}

/// The archive that the index of `p` lists first, if it lists one and a
/// crate-binary section stands there.
pub open spec fn crate_binary_of(p: CratePackageView) -> Option<Seq<u8>> {
    let k = first_of_type(p.index, CRATEBIN_TYPE as int);
    if k < p.sections.len() {
        match p.sections[k] {
            DataSectionView::CrateBinary(bin) => Some(bin),
            _ => None,
        }
    } else {
        None
    }
}

/// The description that the container `p` gives over `table`.
pub open spec fn decoded_info(p: CratePackageView, table: TableView) -> Option<PackageInfoView> {
    match package_of(p) {
        None => None,
        Some(ps) => read_package_info(ps, table),
    }
}

/// The dependencies that the container `p` gives over `table`.
pub open spec fn decoded_deps(p: CratePackageView, table: TableView) -> Option<
    Seq<DepInfoView>,
> {
    match dep_table_of(p) {
        None => None,
        Some(es) => if deps_resolve(es, table) {
            Some(deps_at(es, table))
        } else {
            None
        },
    }
}

/// What a signature record says of its signature: type, length, bytes,
/// and the public key that a network signature names.
pub struct SigRecordView {
    pub typ: u32,
    pub size: int,
    pub bin: Seq<u8>,
    pub pub_key: Option<Seq<char>>,
}

/// What the record `s` says of its signature.
pub open spec fn sig_record(s: SigInfo) -> SigRecordView {
    SigRecordView { typ: s.typ, size: s.size as int, bin: s.bin@, pub_key: opt_view(s.pub_key) }
}

/// What the records `v` say of their signatures.
pub open spec fn sig_records(v: Seq<SigInfo>) -> Seq<SigRecordView> {
    Seq::new(v.len(), |i: int| sig_record(v[i]))
}

/// The record that the signature structure `s` gives, or `None` where it
/// is of the network type and its bytes are not a network signature.
pub open spec fn sig_record_of(s: SigStructureView) -> Option<SigRecordView> {
    if s.typ == SIG_NETWORK {
        match network_signature_from(s.sig) {
            None => None,
            Some(ns) => Some(
                SigRecordView { typ: s.typ, size: s.size as int, bin: s.sig, pub_key: Some(ns.pub_key) },
            ),
        }
    } else {
        Some(SigRecordView { typ: s.typ, size: s.size as int, bin: s.sig, pub_key: None })
    }
}

/// The record that signature `i` of the container `p` gives, counted from
/// the first signature entry of the index.
pub open spec fn decode_sig_at(p: CratePackageView, i: int) -> Option<SigRecordView> {
    match p.sections[first_of_type(p.index, SIGSTRUCTURE_TYPE as int) + i] {
        DataSectionView::SigStructure(s) => sig_record_of(s),
        _ => None,
    }
}

/// Every signature of the container `p` gives a record.
pub open spec fn sigs_decodable(p: CratePackageView) -> bool {
    forall|i: int| 0 <= i < sig_count(p.index) ==> (#[trigger] decode_sig_at(p, i)) is Some
}

/// The records that the signatures of the container `p` give.
pub open spec fn decoded_sigs(p: CratePackageView) -> Seq<SigRecordView> {
    Seq::new(sig_count(p.index) as nat, |i: int| decode_sig_at(p, i).unwrap())
}

/// Number of network signatures among the records `v`.
pub open spec fn network_count(v: Seq<SigInfo>) -> int
    decreases v.len(),
{
    if v.len() == 0 {
        0
    } else {
        network_count(v.drop_last()) + if v.last().typ == SIG_NETWORK {
            1int
        } else {
            0int
        }
    }
}

/// There are no more network signatures than signatures.
pub proof fn lemma_network_count_bounds(v: Seq<SigInfo>)
    ensures
        0 <= network_count(v) <= v.len(),
    decreases v.len(),
{
    if v.len() > 0 {
        lemma_network_count_bounds(v.drop_last());
    }
}

/// The signatures of the network type among the sections `ds`, in their order.
pub open spec fn network_blobs(ds: Seq<DataSectionView>) -> Seq<Seq<u8>>
    decreases ds.len(),
{
    if ds.len() == 0 {
        Seq::empty()
    } else {
        match ds.last() {
            DataSectionView::SigStructure(s) => if s.typ == SIG_NETWORK {
                network_blobs(ds.drop_last()).push(s.sig)
            } else {
                network_blobs(ds.drop_last())
            },
            _ => network_blobs(ds.drop_last()),
        }
    }
}

/// The request `q` asks to verify the network signature whose compact
/// binary form is `blob` over the archive `archive`.
pub open spec fn asks_to_verify(q: VerifyDigestRequest, blob: Seq<u8>, archive: Seq<u8>) -> bool {
    match network_signature_from(blob) {
        None => false,
        Some(sig) => {
            &&& q.pub_key@ == sig.pub_key
            &&& q.signature@ == sig.signature
            &&& q.digest@ == hex_of(sha256(archive))
            &&& q.base_config@.algo == sig.algo
            &&& q.base_config@.flow == sig.flow
            &&& q.base_config@.kms == (match sig.kms {
                Some(k) => k,
                None => Seq::<char>::empty(),
            })
        },
    }
}

/// Every record of `v` is of the network type.
pub open spec fn all_network(v: Seq<SigInfo>) -> bool {
    forall|i: int| 0 <= i < v.len() ==> (#[trigger] v[i]).typ == SIG_NETWORK
}

/// A context that held `held` signature records before it took a container
/// with `count` signatures cannot tell its own records from the container's.
pub open spec fn records_mismatch(count: int, held: int) -> bool {
    count != held && held != 0 && count != 0
}

/// Why the signature records of a context do not hold.
pub enum SigFault {
    /// The context held signature records before it took the container's.
    HeldBefore,
    /// The container has no archive.
    NoArchive,
    /// The context has no network client.
    NoClient,
    /// A record does not hold a well-formed network signature.
    Malformed,
    /// There is no verdict for a record.
    NoVerdict,
    /// The PKI service holds a signature to be invalid.
    Rejected,
    /// The PKI service could not be asked, or failed.
    ServiceFailed,
    /// There is no result of a verification for a local signature.
    NotVerified,
    /// A local signature did not verify.
    LocalFailed,
    /// A local signature encloses another digest than that of what it
    /// covers.
    OtherDigest,
    /// A record is of no known type.
    UnknownType,
}

/// The first fault of the network signatures among `records` from record
/// `i` on, where `verdicts` holds what the PKI service said of the network
/// signatures, in their order, and the first `next` of them are used up:
/// for every network signature in turn, the client must be there, the
/// signature well-formed, and its verdict there and an acceptance. Local
/// signatures are passed over: what holds of them is for their verifier to
/// say.
pub open spec fn network_fault_from(
    has_client: bool,
    records: Seq<SigRecordView>,
    verdicts: Seq<RemoteVerdict>,
    i: int,
    next: int,
) -> Option<SigFault>
    decreases records.len() - i,
{
    if i < 0 || i >= records.len() {
        None
    } else if records[i].typ != SIG_NETWORK {
        network_fault_from(has_client, records, verdicts, i + 1, next)
    } else if !has_client {
        Some(SigFault::NoClient)
    } else if network_signature_from(records[i].bin) is None {
        Some(SigFault::Malformed)
    } else if next < 0 || next >= verdicts.len() {
        Some(SigFault::NoVerdict)
    } else {
        match verdicts[next] {
            RemoteVerdict::Accepted => network_fault_from(has_client, records, verdicts, i + 1, next + 1),
            RemoteVerdict::Rejected => Some(SigFault::Rejected),
            RemoteVerdict::Failed(_) => Some(SigFault::ServiceFailed),
        }
    }
}

/// The first fault among the records `records` from record `i` on, where
/// `local` holds what verifying the local signatures gave, in their order,
/// and `verdicts` what the PKI service said of the network signatures, in
/// theirs; the first `next_local` and `next_verdict` of them are used up.
/// A local signature must have been verified and enclose the digest of
/// what it covers; a network signature must find the client there, be
/// well-formed, and have a verdict that is an acceptance.
pub open spec fn sig_fault_from(
    has_client: bool,
    records: Seq<SigRecordView>,
    file_digest: Seq<u8>,
    archive_digest: Seq<u8>,
    local: Seq<Result<Vec<u8>>>,
    verdicts: Seq<RemoteVerdict>,
    i: int,
    next_local: int,
    next_verdict: int,
) -> Option<SigFault>
    decreases records.len() - i,
{
    if i < 0 || i >= records.len() {
        None
    } else if records[i].typ == SIG_FILE || records[i].typ == SIG_CRATEBIN {
        if next_local < 0 || next_local >= local.len() {
            Some(SigFault::NotVerified)
        } else {
            match local[next_local] {
                Err(_) => Some(SigFault::LocalFailed),
                Ok(d) => if d@ == spec_covered(records[i].typ, file_digest, archive_digest) {
                    sig_fault_from(
                        has_client,
                        records,
                        file_digest,
                        archive_digest,
                        local,
                        verdicts,
                        i + 1,
                        next_local + 1,
                        next_verdict,
                    )
                } else {
                    Some(SigFault::OtherDigest)
                },
            }
        }
    } else if records[i].typ != SIG_NETWORK {
        Some(SigFault::UnknownType)
    } else if !has_client {
        Some(SigFault::NoClient)
    } else if network_signature_from(records[i].bin) is None {
        Some(SigFault::Malformed)
    } else if next_verdict < 0 || next_verdict >= verdicts.len() {
        Some(SigFault::NoVerdict)
    } else {
        match verdicts[next_verdict] {
            RemoteVerdict::Accepted => sig_fault_from(
                has_client,
                records,
                file_digest,
                archive_digest,
                local,
                verdicts,
                i + 1,
                next_local,
                next_verdict + 1,
            ),
            RemoteVerdict::Rejected => Some(SigFault::Rejected),
            RemoteVerdict::Failed(_) => Some(SigFault::ServiceFailed),
        }
    }
}

/// Whether the fault is one of a record that is no network signature.
pub open spec fn is_local_fault(f: SigFault) -> bool {
    f is NotVerified || f is LocalFailed || f is OtherDigest || f is UnknownType
}

/// The first fault of all records is a fault of a record that is no
/// network signature, or it is the first fault of the network signatures.
/// Where every record is a network signature, it is the latter.
pub proof fn lemma_fault_of_network(
    has_client: bool,
    records: Seq<SigRecordView>,
    file_digest: Seq<u8>,
    archive_digest: Seq<u8>,
    local: Seq<Result<Vec<u8>>>,
    verdicts: Seq<RemoteVerdict>,
    i: int,
    next_local: int,
    next_verdict: int,
)
    requires
        0 <= i,
    ensures
        match sig_fault_from(
            has_client,
            records,
            file_digest,
            archive_digest,
            local,
            verdicts,
            i,
            next_local,
            next_verdict,
        ) {
            None => network_fault_from(has_client, records, verdicts, i, next_verdict) is None,
            Some(f) => is_local_fault(f) || network_fault_from(
                has_client,
                records,
                verdicts,
                i,
                next_verdict,
            ) == Some(f),
        },
        (forall|j: int| i <= j < records.len() ==> (#[trigger] records[j]).typ == SIG_NETWORK)
            ==> sig_fault_from(
            has_client,
            records,
            file_digest,
            archive_digest,
            local,
            verdicts,
            i,
            next_local,
            next_verdict,
        ) == network_fault_from(has_client, records, verdicts, i, next_verdict),
    decreases records.len() - i,
{
    if i < records.len() {
        lemma_fault_of_network(
            has_client,
            records,
            file_digest,
            archive_digest,
            local,
            verdicts,
            i + 1,
            next_local + 1,
            next_verdict,
        );
        lemma_fault_of_network(
            has_client,
            records,
            file_digest,
            archive_digest,
            local,
            verdicts,
            i + 1,
            next_local,
            next_verdict + 1,
        );
        if forall|j: int| i <= j < records.len() ==> (#[trigger] records[j]).typ == SIG_NETWORK {
            assert(records[i].typ == SIG_NETWORK);
        }
    }
}

/// The types of the records `records`.
pub open spec fn record_types(records: Seq<SigRecordView>) -> Seq<u32> {
    Seq::new(records.len(), |i: int| records[i].typ)
}

/// The digests that the local signatures among records of the types
/// `types` must enclose, from record `i` on, in their order.
pub open spec fn expected_digests(
    types: Seq<u32>,
    file_digest: Seq<u8>,
    archive_digest: Seq<u8>,
    i: int,
) -> Seq<Seq<u8>>
    decreases types.len() - i,
{
    if i < 0 || i >= types.len() {
        Seq::empty()
    } else if types[i] == SIG_FILE || types[i] == SIG_CRATEBIN {
        seq![spec_covered(types[i], file_digest, archive_digest)] + expected_digests(
            types,
            file_digest,
            archive_digest,
            i + 1,
        )
    } else {
        expected_digests(types, file_digest, archive_digest, i + 1)
    }
}

/// Number of network signatures among records of the types `types`, from
/// record `i` on.
pub open spec fn networks_from(types: Seq<u32>, i: int) -> int
    decreases types.len() - i,
{
    if i < 0 || i >= types.len() {
        0
    } else if types[i] == SIG_NETWORK {
        1 + networks_from(types, i + 1)
    } else {
        networks_from(types, i + 1)
    }
}

/// There is no negative number of network signatures.
pub proof fn lemma_networks_from_nonneg(types: Seq<u32>, i: int)
    ensures
        networks_from(types, i) >= 0,
    decreases types.len() - i,
{
    if 0 <= i < types.len() {
        lemma_networks_from_nonneg(types, i + 1);
    }
}

/// The verification gave the digest `digest`.
pub open spec fn encloses(verified: Result<Vec<u8>>, digest: Seq<u8>) -> bool {
    verified matches Ok(d) && d@ == digest
}

/// Records that were all verified and accepted have no fault: where every
/// record from record `i` on is of a known type, every local signature was
/// verified and encloses the digest of what it covers, and every network
/// signature finds the client there, is well-formed and was accepted.
pub proof fn lemma_verified_has_no_fault(
    has_client: bool,
    records: Seq<SigRecordView>,
    file_digest: Seq<u8>,
    archive_digest: Seq<u8>,
    local: Seq<Result<Vec<u8>>>,
    verdicts: Seq<RemoteVerdict>,
    i: int,
    next_local: int,
    next_verdict: int,
)
    requires
        0 <= i,
        0 <= next_local,
        0 <= next_verdict,
        forall|j: int|
            i <= j < records.len() ==> crate::utils::section::spec_known_sig_type(
                (#[trigger] records[j]).typ,
            ) && (records[j].typ == SIG_NETWORK ==> has_client && network_signature_from(
                records[j].bin,
            ) is Some),
        next_local + expected_digests(record_types(records), file_digest, archive_digest, i).len()
            <= local.len(),
        forall|j: int|
            0 <= j < expected_digests(record_types(records), file_digest, archive_digest, i).len()
                ==> encloses(
                #[trigger] local[next_local + j],
                expected_digests(record_types(records), file_digest, archive_digest, i)[j],
            ),
        next_verdict + networks_from(record_types(records), i) <= verdicts.len(),
        forall|j: int|
            0 <= j < networks_from(record_types(records), i) ==> (
            #[trigger] verdicts[next_verdict + j]) is Accepted,
    ensures
        sig_fault_from(
            has_client,
            records,
            file_digest,
            archive_digest,
            local,
            verdicts,
            i,
            next_local,
            next_verdict,
        ) is None,
    decreases records.len() - i,
{
    if i < records.len() {
        let types = record_types(records);
        let here = expected_digests(types, file_digest, archive_digest, i);
        let rest = expected_digests(types, file_digest, archive_digest, i + 1);
        assert(types[i] == records[i].typ);
        assert(crate::utils::section::spec_known_sig_type(records[i].typ));
        lemma_networks_from_nonneg(types, i + 1);
        if records[i].typ == SIG_FILE || records[i].typ == SIG_CRATEBIN {
            assert(here[0] == spec_covered(records[i].typ, file_digest, archive_digest));
            assert(encloses(local[next_local + 0], here[0]));
            assert forall|j: int| 0 <= j < rest.len() implies encloses(
                #[trigger] local[next_local + 1 + j],
                rest[j],
            ) by {
                assert(here[j + 1] == rest[j]);
                assert(encloses(local[next_local + (j + 1)], here[j + 1]));
            }
            lemma_verified_has_no_fault(
                has_client,
                records,
                file_digest,
                archive_digest,
                local,
                verdicts,
                i + 1,
                next_local + 1,
                next_verdict,
            );
        } else {
            assert(records[i].typ == SIG_NETWORK);
            assert(verdicts[next_verdict + 0] is Accepted);
            assert forall|j: int| 0 <= j < networks_from(types, i + 1) implies (
            #[trigger] verdicts[next_verdict + 1 + j]) is Accepted by {
                assert(verdicts[next_verdict + (j + 1)] is Accepted);
            }
            lemma_verified_has_no_fault(
                has_client,
                records,
                file_digest,
                archive_digest,
                local,
                verdicts,
                i + 1,
                next_local,
                next_verdict + 1,
            );
        }
    }
}

/// The first fault of the network signatures among the records `records`
/// of a context, if they have one.
pub open spec fn network_fault(
    held_before: bool,
    has_archive: bool,
    has_client: bool,
    records: Seq<SigRecordView>,
    verdicts: Seq<RemoteVerdict>,
) -> Option<SigFault> {
    if held_before {
        Some(SigFault::HeldBefore)
    } else if !has_archive {
        Some(SigFault::NoArchive)
    } else {
        network_fault_from(has_client, records, verdicts, 0, 0)
    }
}

/// Whether the error `e` is one that the check of a local signature ends
/// with: a signature error where the signature does not verify or encloses
/// another digest than that of what it covers, another error where the
/// digest cannot be taken or the record is of no known type.
pub open spec fn local_failure(e: CrateSpecError) -> bool {
    e is SignatureError || e is Other
}

/// Whether the error `e` is of the kind that the fault `f` is reported
/// with: a signature error where a signature does not hold, a PKI error
/// where the service failed, a decode error where the container or a
/// signature is ill-formed, another error where the context is not set up
/// for the check.
pub open spec fn reports(e: CrateSpecError, f: SigFault) -> bool {
    match f {
        SigFault::HeldBefore => e is Other,
        SigFault::NoArchive => e is DecodeError,
        SigFault::NoClient => e is Other,
        SigFault::Malformed => e is DecodeError,
        SigFault::NoVerdict => e is Other,
        SigFault::Rejected => e is SignatureError,
        SigFault::ServiceFailed => e is PkiError,
        SigFault::NotVerified => e is Other,
        SigFault::LocalFailed => e is SignatureError,
        SigFault::OtherDigest => e is SignatureError,
        SigFault::UnknownType => e is Other,
    }
}

/// Every signature of the container `p` is a network signature.
pub open spec fn container_all_network(p: CratePackageView) -> bool {
    forall|i: int| 0 <= i < decoded_sigs(p).len() ==> (#[trigger] decoded_sigs(p)[i]).typ == SIG_NETWORK
}

/// The first fault of the signature records `records` of a context that
/// holds `held` of them, against the container `p` of the file `bin`: the
/// context must not have held records of its own before it took the
/// container's, the container must have an archive, and every record must
/// hold, a local signature over the SHA-256 digest of what it covers.
pub open spec fn container_fault(
    held: int,
    has_client: bool,
    records: Seq<SigRecordView>,
    p: CratePackageView,
    bin: Seq<u8>,
    local: Seq<Result<Vec<u8>>>,
    verdicts: Seq<RemoteVerdict>,
) -> Option<SigFault> {
    if records_mismatch(sig_count(p.index), held) {
        Some(SigFault::HeldBefore)
    } else if crate_binary_of(p) is None {
        Some(SigFault::NoArchive)
    } else {
        sig_fault_from(
            has_client,
            records,
            sha256(signed_region(p, bin)),
            sha256(crate_binary_of(p).unwrap()),
            local,
            verdicts,
            0,
            0,
            0,
        )
    }
}

/// What reading the container `pkg` of the file `bin` over the string
/// table `tab` leaves in a context: the name, the version, the license and
/// the archive of the container, and its authors, dependencies and
/// signature records after those that the context held.
pub open spec fn container_read(
    before: PackageContext,
    after: PackageContext,
    pkg: CratePackageView,
    tab: TableView,
    bin: Seq<u8>,
) -> bool {
    &&& fingerprint_matches(bin)
    &&& Some(pkg) == parse_image(bin)
    &&& Some(tab) == decoded_table(pkg.string_table)
    &&& decoded_info(pkg, tab) is Some
    &&& after.pack_info@.name == decoded_info(pkg, tab).unwrap().name
    &&& after.pack_info@.version == decoded_info(pkg, tab).unwrap().version
    &&& after.pack_info@.license == decoded_info(pkg, tab).unwrap().license
    &&& after.pack_info@.authors == before.pack_info@.authors + decoded_info(pkg, tab).unwrap().authors
    &&& decoded_deps(pkg, tab) is Some
    &&& deps_view(after.dep_infos@) == deps_view(before.dep_infos@) + decoded_deps(pkg, tab).unwrap()
    &&& Some(after.crate_binary@) == crate_binary_of(pkg)
    &&& sigs_decodable(pkg)
    &&& sig_records(after.sigs@) == sig_records(before.sigs@) + decoded_sigs(pkg)
}

/// The file `bin` holds a container that can be read: its fingerprint is
/// the digest of what stands before it, it is well-formed, its string table
/// starts with the empty string, and its description, its dependencies,
/// its archive and its signature records can be rebuilt.
pub open spec fn structure_decodes(bin: Seq<u8>) -> bool {
    &&& fingerprint_matches(bin)
    &&& parse_image(bin) is Some
    &&& decoded_table(parse_image(bin).unwrap().string_table) is Some
    &&& decoded_info(
        parse_image(bin).unwrap(),
        decoded_table(parse_image(bin).unwrap().string_table).unwrap(),
    ) is Some
    &&& decoded_deps(
        parse_image(bin).unwrap(),
        decoded_table(parse_image(bin).unwrap().string_table).unwrap(),
    ) is Some
    &&& crate_binary_of(parse_image(bin).unwrap()) is Some
    &&& sigs_decodable(parse_image(bin).unwrap())
}

/// Where every record is of the network type, all records are counted as
/// network records.
pub proof fn lemma_all_network_count(v: Seq<SigInfo>)
    requires
        all_network(v),
    ensures
        network_count(v) == v.len(),
    decreases v.len(),
{
    if v.len() > 0 {
        let init = v.drop_last();
        assert forall|i: int| 0 <= i < init.len() implies (#[trigger] init[i]).typ == SIG_NETWORK by {
            assert(init[i] == v[i]);
        }
        lemma_all_network_count(init);
        assert(v[v.len() - 1].typ == SIG_NETWORK);
    }
}

/// The message of the decode error for a file of `len` bytes whose
/// fingerprint is not the digest of what stands before it: a file shorter
/// than a fingerprint is too short, any other has a fingerprint mismatch.
pub open spec fn wrong_fingerprint_message(len: nat) -> Seq<char> {
    if len < 32 {
        "container too short"@
    } else {
        "fingerprint mismatch"@
    }
}

/// The fingerprint at the end of the file `bin` is the SHA-256 digest of
/// what stands before it.
pub open spec fn fingerprint_matches(bin: Seq<u8>) -> bool {
    bin.len() >= 32 && sha256(bin.subrange(0, bin.len() - 32)) == bin.subrange(
        bin.len() - 32,
        bin.len() as int,
    )
}

/// The string table that a decoder holds after reading the table bytes
/// `bytes` of a container into a new table: it holds their entries, the
/// first of which must be the empty string, or the empty string alone
/// where there are no bytes.
pub open spec fn decoded_table(bytes: Seq<u8>) -> Option<TableView> {
    match parse_table(bytes) {
        Some(entries) => if bytes.len() == 0 || entries[0].len() == 0 {
            Some(put_all(new_table(), entries))
        } else {
            None
        },
        None => None,
    }
}

/// A file that holds a well-formed container is long enough for the
/// signed region of that container, and its index is as the header says.
pub proof fn lemma_parsed_bounds(bin: Seq<u8>, p: CratePackageView)
    requires
        parse_image(bin) == Some(p),
    ensures
        0 <= mask_start(p) <= mask_end(p) <= signed_len(p) <= bin.len() - 32,
        p.index.len() == p.sections.len(),
        12 * p.index.len() == p.header.si_size,
        bin.len() <= u32::MAX + u32::MAX + 32,
{
    lemma_counts_bounds(p.index);
}

impl PackageContext {
    /// The file without its fingerprint.
    pub fn binary_before_digest(&self, bin: &[u8]) -> (r: Vec<u8>)
        requires
            bin@.len() >= FINGERPRINT_LEN,
        ensures
            r@ == bin@.subrange(0, bin@.len() - FINGERPRINT_LEN),
    {
        vstd::slice::slice_to_vec(vstd::slice::slice_subrange(bin, 0, bin.len() - FINGERPRINT_LEN))
    }

    /// The canonical image of the file `bin` of the container
    /// `crate_package`: the file up to the end of the non-signature data,
    /// with the signature entries of the section index set to zero.
    pub fn binary_before_sig(&self, crate_package: &CratePackage, bin: &[u8]) -> (r: Vec<u8>)
        requires
            signed_len(crate_package@) <= bin@.len(),
            mask_start(crate_package@) <= usize::MAX,
            mask_end(crate_package@) <= usize::MAX,
            12 * crate_package@.index.len() <= usize::MAX,
        ensures
            r@ == signed_region(crate_package@, bin@),
    {
        let ghost p = crate_package@;
        let len: usize = bin.len();
        proof {
            lemma_counts_bounds(p.index);
            assert(signed_len(p) <= len);
        }
        let ds_size: usize = crate_package.section_index.datasection_size_without_sig();
        let total_size: usize = crate_package.crate_header.ds_offset as usize + ds_size;
        let mut buf: Vec<u8> = vstd::slice::slice_to_vec(vstd::slice::slice_subrange(bin, 0, total_size));
        let zero_begin: usize = crate_package.crate_header.si_offset as usize
            + crate_package.section_index.none_sig_size();
        let zero_end: usize = crate_package.crate_header.si_offset as usize
            + crate_package.crate_header.si_size as usize;
        let stop: usize = if zero_end < total_size {
            zero_end
        } else {
            total_size
        };
        let mut i: usize = zero_begin;
        proof {
            assert(buf@ =~= masked(bin@, zero_begin as int, zero_begin as int, total_size as int));
        }
        while i < stop
            invariant
                zero_begin <= i,
                i <= stop || i == zero_begin,
                stop <= total_size == buf@.len(),
                total_size <= bin@.len(),
                buf@ == masked(bin@, zero_begin as int, i as int, total_size as int),
            decreases stop - i,
        {
            buf.set(i, 0u8);
            i = i + 1;
            proof {
                assert(buf@ =~= masked(bin@, zero_begin as int, i as int, total_size as int));
            }
        }
        proof {
            assert forall|j: int| 0 <= j < total_size implies buf@[j] == masked(
                bin@,
                zero_begin as int,
                zero_end as int,
                total_size as int,
            )[j] by {
                if zero_begin <= j < zero_end {
                    assert(j < stop);
                }
            }
            assert(buf@ =~= masked(bin@, zero_begin as int, zero_end as int, total_size as int));
        }
        buf
    }

    /// Reads the package's description from the package section of
    /// `crate_package`.
    fn pack_info(&mut self, crate_package: &CratePackage, str_table: &StringTable) -> (r: Result<()>)
        requires
            crate_package.spec_indexed(),
            str_table.wf(),
        ensures
            r is Ok <==> decoded_info(crate_package@, str_table@) is Some,
            r is Ok ==> {
                let got = decoded_info(crate_package@, str_table@).unwrap();
                final(self).pack_info@ == (PackageInfoView {
                    name: got.name,
                    version: got.version,
                    license: got.license,
                    authors: old(self).pack_info@.authors + got.authors,
                })
            },
            r matches Err(e) ==> e is DecodeError,
            final(self).dep_infos == old(self).dep_infos,
            final(self).crate_binary == old(self).crate_binary,
            final(self).sigs == old(self).sigs,
            final(self).root_cas == old(self).root_cas,
            final(self).network_client == old(self).network_client,
            final(self).network_keypair == old(self).network_keypair,
    {
        proof {
            lemma_first_of_type(crate_package.section_index@, PACK_TYPE as int);
        }
        let ps = match crate_package.package_section() {
            Ok(ps) => ps,
            Err(e) => {
                return Err(e);
            },
        };
        proof {
            let k = crate_package.spec_first(PACK_TYPE);
            assert(crate_package@.sections[k] == crate_package.data_sections@[k]@);
        }
        self.pack_info.read_from_package_section(ps, str_table)
    }

    /// Adds the dependencies that the dependency table of `crate_package`
    /// lists to those already held.
    fn deps(&mut self, crate_package: &CratePackage, str_table: &StringTable) -> (r: Result<()>)
        requires
            crate_package.spec_indexed(),
            str_table.wf(),
        ensures
            r is Ok <==> decoded_deps(crate_package@, str_table@) is Some,
            r is Ok ==> deps_view(final(self).dep_infos@) == deps_view(old(self).dep_infos@)
                + decoded_deps(crate_package@, str_table@).unwrap(),
            r matches Err(e) ==> e is DecodeError,
            final(self).pack_info == old(self).pack_info,
            final(self).crate_binary == old(self).crate_binary,
            final(self).sigs == old(self).sigs,
            final(self).root_cas == old(self).root_cas,
            final(self).network_client == old(self).network_client,
            final(self).network_keypair == old(self).network_keypair,
    {
        proof {
            lemma_first_of_type(crate_package.section_index@, DEPTABLE_TYPE as int);
        }
        let table = match crate_package.dep_table_section() {
            Ok(t) => t,
            Err(e) => {
                return Err(e);
            },
        };
        let ghost es = table@;
        let ghost before = deps_view(self.dep_infos@);
        proof {
            let k = crate_package.spec_first(DEPTABLE_TYPE);
            assert(crate_package@.sections[k] == crate_package.data_sections@[k]@);
            assert(deps_view(self.dep_infos@) =~= before + deps_at(es, str_table@).take(0));
        }
        let mut i: usize = 0;
        while i < table.entries.len()
            invariant
                i <= table.entries@.len(),
                es == table.entries@,
                dep_table_of(crate_package@) == Some(es),
                self.dep_infos@.len() == before.len() + i,
                str_table.wf(),
                forall|j: int| 0 <= j < i ==> read_dep_info(#[trigger] es[j], str_table@) is Some,
                deps_view(self.dep_infos@) == before + deps_at(es, str_table@).take(i as int),
                self.pack_info == old(self).pack_info,
                self.crate_binary == old(self).crate_binary,
                self.sigs == old(self).sigs,
                self.root_cas == old(self).root_cas,
                self.network_client == old(self).network_client,
                self.network_keypair == old(self).network_keypair,
            decreases table.entries@.len() - i,
        {
            let mut dep_info = DepInfo::default();
            match dep_info.read_from_dep_table_entry(&table.entries[i], str_table) {
                Ok(()) => {},
                Err(e) => {
                    proof {
                        assert(read_dep_info(es[i as int], str_table@) is None);
                    }
                    return Err(e);
                },
            }
            let ghost prev = self.dep_infos@;
            let ghost added = dep_info@;
            self.dep_infos.push(dep_info);
            i = i + 1;
            proof {
                let now = deps_view(self.dep_infos@);
                let want = before + deps_at(es, str_table@).take(i as int);
                assert(now.len() == want.len());
                assert forall|j: int| 0 <= j < now.len() implies now[j] == want[j] by {
                    if j < prev.len() {
                        assert(self.dep_infos@[j] == prev[j]);
                        assert(deps_view(prev)[j] == (before + deps_at(es, str_table@).take(
                            i - 1,
                        ))[j]);
                    } else {
                        assert(self.dep_infos@[j]@ == added);
                    }
                }
                assert(now =~= want);
            }
        }
        proof {
            assert(deps_at(es, str_table@).take(i as int) =~= deps_at(es, str_table@));
        }
        Ok(())
    }

    /// Replaces the archive by the one that the crate-binary section of
    /// `crate_package` holds.
    fn binary(&mut self, crate_package: &CratePackage) -> (r: Result<()>)
        requires
            crate_package.spec_indexed(),
        ensures
            r is Ok <==> crate_binary_of(crate_package@) is Some,
            r is Ok ==> Some(final(self).crate_binary@) == crate_binary_of(crate_package@),
            r is Err ==> final(self).crate_binary == old(self).crate_binary,
            r matches Err(e) ==> e is DecodeError,
            final(self).pack_info == old(self).pack_info,
            final(self).dep_infos == old(self).dep_infos,
            final(self).sigs == old(self).sigs,
            final(self).root_cas == old(self).root_cas,
            final(self).network_client == old(self).network_client,
            final(self).network_keypair == old(self).network_keypair,
    {
        proof {
            lemma_first_of_type(crate_package.section_index@, CRATEBIN_TYPE as int);
        }
        let section = match crate_package.crate_binary_section() {
            Ok(s) => s,
            Err(e) => {
                return Err(e);
            },
        };
        proof {
            let k = crate_package.spec_first(CRATEBIN_TYPE);
            assert(crate_package@.sections[k] == crate_package.data_sections@[k]@);
        }
        self.crate_binary.read_from_crate_biary_section(section);
        Ok(())
    }
}

impl PackageContext {
    /// Adds the signature records that the signature structures of
    /// `crate_package` give to those already held.
    fn sigs(&mut self, crate_package: &CratePackage) -> (r: Result<()>)
        requires
            crate_package.spec_indexed(),
            crate::utils::index::sigs_last(crate_package@.index),
        ensures
            r is Ok <==> sigs_decodable(crate_package@),
            r is Ok ==> sig_records(final(self).sigs@) == sig_records(old(self).sigs@) + decoded_sigs(
                crate_package@,
            ),
            r matches Err(e) ==> e is DecodeError,
            final(self).pack_info == old(self).pack_info,
            final(self).dep_infos == old(self).dep_infos,
            final(self).crate_binary == old(self).crate_binary,
            final(self).root_cas == old(self).root_cas,
            final(self).network_client == old(self).network_client,
            final(self).network_keypair == old(self).network_keypair,
    {
        let ghost p = crate_package@;
        let ghost before = sig_records(self.sigs@);
        let ghost base = first_of_type(p.index, SIGSTRUCTURE_TYPE as int);
        proof {
            crate::utils::index::lemma_sigs_last_split(p.index);
            lemma_first_of_type(p.index, SIGSTRUCTURE_TYPE as int);
            assert(sig_records(self.sigs@) =~= before + decoded_sigs(p).take(0));
        }
        let sig_num: usize = crate_package.section_index.sig_num();
        let mut no: usize = 0;
        while no < sig_num
            invariant
                no <= sig_num == sig_count(p.index),
                p == crate_package@,
                crate_package.spec_indexed(),
                base == first_of_type(p.index, SIGSTRUCTURE_TYPE as int),
                sig_num == p.index.len() - base,
                0 <= base,
                self.sigs@.len() == before.len() + no,
                forall|j: int| 0 <= j < no ==> (#[trigger] decode_sig_at(p, j)) is Some,
                sig_records(self.sigs@) == before + decoded_sigs(p).take(no as int),
                self.pack_info == old(self).pack_info,
                self.dep_infos == old(self).dep_infos,
                self.crate_binary == old(self).crate_binary,
                self.root_cas == old(self).root_cas,
                self.network_client == old(self).network_client,
                self.network_keypair == old(self).network_keypair,
            decreases sig_num - no,
        {
            proof {
                assert(p.sections[base + no] == crate_package.data_sections@[base + no]@);
            }
            let sig = match crate_package.sig_structure_section(no) {
                Ok(s) => s,
                Err(e) => {
                    proof {
                        assert(decode_sig_at(p, no as int) is None);
                    }
                    return Err(e);
                },
            };
            let mut sig_info = SigInfo::new();
            match sig_info.read_from_sig_structure_section(sig) {
                Ok(()) => {},
                Err(e) => {
                    proof {
                        assert(decode_sig_at(p, no as int) is None);
                    }
                    return Err(e);
                },
            }
            let ghost prev = self.sigs@;
            let ghost added = sig_record(sig_info);
            proof {
                assert(Some(added) == decode_sig_at(p, no as int));
            }
            self.sigs.push(sig_info);
            no = no + 1;
            proof {
                let now = sig_records(self.sigs@);
                let want = before + decoded_sigs(p).take(no as int);
                assert forall|j: int| 0 <= j < now.len() implies now[j] == want[j] by {
                    if j < prev.len() {
                        assert(self.sigs@[j] == prev[j]);
                        assert(sig_records(prev)[j] == (before + decoded_sigs(p).take(no - 1))[j]);
                    } else {
                        assert(sig_record(self.sigs@[j]) == added);
                    }
                }
                assert(now =~= want);
            }
        }
        proof {
            assert(decoded_sigs(p).take(no as int) =~= decoded_sigs(p));
        }
        Ok(())
    }

    /// Whether the fingerprint at the end of the file is the SHA-256 digest
    /// of what stands before it. A file that is shorter than a fingerprint
    /// has none that matches.
    ///
    /// Fails where the digest cannot be taken.
    pub fn check_fingerprint(&self, bin_all: &[u8]) -> (r: Result<bool>)
        ensures
            r matches Ok(b) ==> b == fingerprint_matches(bin_all@),
            bin_all@.len() < FINGERPRINT_LEN ==> r is Ok,
            r matches Err(e) ==> e is Other,
    {
        let len: usize = bin_all.len();
        if len < FINGERPRINT_LEN {
            return Ok(false);
        }
        let body = vstd::slice::slice_subrange(bin_all, 0, len - FINGERPRINT_LEN);
        let trailer = vstd::slice::slice_subrange(bin_all, len - FINGERPRINT_LEN, len);
        match PKCS::new().gen_digest_256(body) {
            Ok(calculated) => Ok(bytes_eq(calculated.as_slice(), trailer)),
            Err(e) => Err(e),
        }
    }

    /// Checks that the file ends with the fingerprint of what stands before
    /// it: the first step of reading a container, before anything in the
    /// file is taken for what it says.
    ///
    /// Fails with a decode error where the file is shorter than a
    /// fingerprint or its fingerprint is not the digest of what stands
    /// before it, with another error where the digest cannot be taken.
    pub fn require_fingerprint(&self, bin: &[u8]) -> (r: Result<()>)
        ensures
            r is Ok ==> fingerprint_matches(bin@),
            bin@.len() < FINGERPRINT_LEN ==> (r matches Err(e) && e is DecodeError),
            r matches Err(e) ==> e is Other || (e is DecodeError && !fingerprint_matches(bin@)
                && e.spec_message() == wrong_fingerprint_message(bin@.len())),
    {
        if bin.len() < FINGERPRINT_LEN {
            return Err(CrateSpecError::DecodeError(String::from_str("container too short")));
        }
        match self.check_fingerprint(bin) {
            Ok(true) => Ok(()),
            Ok(false) => Err(CrateSpecError::DecodeError(String::from_str("fingerprint mismatch"))),
            Err(e) => Err(e),
        }
    }

    /// The requests that ask the PKI service to verify the network
    /// signatures of `crate_package`, one for every network signature, in
    /// the order of the signatures.
    ///
    /// Fails with a decode error where the container has no crate-binary
    /// section or a network signature is not well-formed.
    pub fn network_verify_requests(crate_package: &CratePackage) -> (r: Result<
        Vec<VerifyDigestRequest>,
    >)
        requires
            crate_package.spec_indexed(),
        ensures
            r matches Ok(v) ==> {
                let blobs = network_blobs(crate_package@.sections);
                &&& crate_binary_of(crate_package@) is Some
                &&& v@.len() == blobs.len()
                &&& forall|k: int|
                    0 <= k < v@.len() ==> asks_to_verify(
                        #[trigger] v@[k],
                        blobs[k],
                        crate_binary_of(crate_package@).unwrap(),
                    )
            },
            crate_binary_of(crate_package@) is None ==> (r matches Err(e) && e is DecodeError),
            r matches Err(e) ==> e is DecodeError || e is Other,
    {
        proof {
            lemma_first_of_type(crate_package.section_index@, CRATEBIN_TYPE as int);
        }
        let bin_crate = match crate_package.crate_binary_section() {
            Ok(c) => c,
            Err(e) => {
                return Err(e);
            },
        };
        proof {
            let k = crate_package.spec_first(CRATEBIN_TYPE);
            assert(crate_package@.sections[k] == crate_package.data_sections@[k]@);
        }
        let ghost archive = bin_crate.bin@;
        let ghost ds = crate_package@.sections;
        let mut out: Vec<VerifyDigestRequest> = Vec::new();
        let mut i: usize = 0;
        proof {
            assert(ds.take(0) =~= Seq::<DataSectionView>::empty());
        }
        while i < crate_package.data_sections.len()
            invariant
                i <= crate_package.data_sections@.len(),
                ds == crate_package@.sections,
                archive == bin_crate.bin@,
                crate_binary_of(crate_package@) == Some(archive),
                out@.len() == network_blobs(ds.take(i as int)).len(),
                forall|k: int|
                    0 <= k < out@.len() ==> asks_to_verify(
                        #[trigger] out@[k],
                        network_blobs(ds.take(i as int))[k],
                        archive,
                    ),
            decreases crate_package.data_sections@.len() - i,
        {
            let ghost before = network_blobs(ds.take(i as int));
            proof {
                assert(ds.take(i + 1).drop_last() =~= ds.take(i as int));
                assert(ds.take(i + 1).last() == ds[i as int]);
                assert(ds[i as int] == crate_package.data_sections@[i as int]@);
            }
            match &crate_package.data_sections[i] {
                DataSection::SigStructureSection(sig) => {
                    if sig.sigstruct_type == SIG_NETWORK {
                        let request = match network_verify_request(
                            sig.sigstruct_sig.as_slice(),
                            bin_crate.bin.as_slice(),
                        ) {
                            Ok(q) => q,
                            Err(e) => {
                                return Err(e);
                            },
                        };
                        let ghost prev = out@;
                        out.push(request);
                        proof {
                            let now = network_blobs(ds.take(i + 1));
                            assert(now == before.push(sig.sigstruct_sig@));
                            assert forall|k: int| 0 <= k < out@.len() implies asks_to_verify(
                                #[trigger] out@[k],
                                now[k],
                                archive,
                            ) by {
                                if k < prev.len() {
                                    assert(out@[k] == prev[k]);
                                    assert(now[k] == before[k]);
                                }
                            }
                        }
                    }
                },
                _ => {},
            }
            i = i + 1;
        }
        proof {
            assert(ds.take(i as int) =~= ds);
        }
        Ok(out)
    }

    /// Judges every signature record of the context, in the order of the
    /// records, and ends at the first that does not hold.
    ///
    /// `local` holds what verifying the local signatures against the root
    /// certificates gave, in the order of the local records: the digest
    /// that the signature encloses, or an error. A local signature holds
    /// where it was verified and encloses the digest of what it covers:
    /// `file_digest` for a file signature, `archive_digest` for a
    /// crate-binary signature. `verdicts` holds what the PKI service said
    /// of the network signatures, in their order. A network signature holds
    /// where the context has a network client, the signature is well-formed
    /// and the service accepted it.
    pub fn judge_signatures(
        &self,
        file_digest: &[u8],
        archive_digest: &[u8],
        local: &[Result<Vec<u8>>],
        verdicts: &[RemoteVerdict],
    ) -> (r: Result<()>)
        ensures
            match sig_fault_from(
                self.network_client is Some,
                sig_records(self.sigs@),
                file_digest@,
                archive_digest@,
                local@,
                verdicts@,
                0,
                0,
                0,
            ) {
                None => r is Ok,
                Some(f) => r matches Err(e) && reports(e, f),
            },
            r is Ok ==> network_count(self.sigs@) <= verdicts@.len(),
            r is Ok ==> forall|k: int|
                0 <= k < network_count(self.sigs@) ==> (#[trigger] verdicts@[k]) is Accepted,
            r is Ok ==> forall|i: int|
                0 <= i < self.sigs@.len() ==> crate::utils::section::spec_known_sig_type(
                    (#[trigger] self.sigs@[i]).typ,
                ),
    {
        let ghost records = sig_records(self.sigs@);
        let ghost has_client = self.network_client is Some;
        let mut next_local: usize = 0;
        let mut next_verdict: usize = 0;
        let mut i: usize = 0;
        proof {
            assert(self.sigs@.take(0) =~= Seq::<SigInfo>::empty());
        }
        while i < self.sigs.len()
            invariant
                i <= self.sigs@.len(),
                records == sig_records(self.sigs@),
                has_client == (self.network_client is Some),
                next_verdict == network_count(self.sigs@.take(i as int)),
                next_verdict <= verdicts@.len(),
                next_verdict <= i,
                next_local <= local@.len(),
                next_local <= i,
                sig_fault_from(
                    has_client,
                    records,
                    file_digest@,
                    archive_digest@,
                    local@,
                    verdicts@,
                    0,
                    0,
                    0,
                ) == sig_fault_from(
                    has_client,
                    records,
                    file_digest@,
                    archive_digest@,
                    local@,
                    verdicts@,
                    i as int,
                    next_local as int,
                    next_verdict as int,
                ),
                forall|k: int| 0 <= k < next_verdict ==> (#[trigger] verdicts@[k]) is Accepted,
                forall|j: int|
                    0 <= j < i ==> crate::utils::section::spec_known_sig_type(
                        (#[trigger] self.sigs@[j]).typ,
                    ),
            decreases self.sigs@.len() - i,
        {
            let siginfo = &self.sigs[i];
            proof {
                assert(self.sigs@.take(i + 1).drop_last() =~= self.sigs@.take(i as int));
                assert(self.sigs@.take(i + 1).last() == self.sigs@[i as int]);
                assert(records[i as int] == sig_record(self.sigs@[i as int]));
            }
            if siginfo.typ == SIG_FILE || siginfo.typ == SIG_CRATEBIN {
                if next_local >= local.len() {
                    return Err(
                        CrateSpecError::Other(
                            String::from_str("a local signature was not verified"),
                        ),
                    );
                }
                let expected = covered(siginfo.typ, file_digest, archive_digest);
                match judge_local(expected, &local[next_local]) {
                    Ok(()) => {},
                    Err(e) => {
                        return Err(e);
                    },
                }
                next_local = next_local + 1;
            } else if siginfo.typ == SIG_NETWORK {
                if self.network_client.is_none() {
                    return Err(
                        CrateSpecError::Other(
                            String::from_str("a network signature needs a network client"),
                        ),
                    );
                }
                match NetworkSignature::from_bytes(siginfo.bin.as_slice()) {
                    Ok(_) => {},
                    Err(m) => {
                        return Err(CrateSpecError::DecodeError(m));
                    },
                }
                if next_verdict >= verdicts.len() {
                    return Err(
                        CrateSpecError::Other(
                            String::from_str("a network signature needs a verdict of the PKI service"),
                        ),
                    );
                }
                match judge_remote(&verdicts[next_verdict]) {
                    Ok(()) => {},
                    Err(e) => {
                        return Err(e);
                    },
                }
                next_verdict = next_verdict + 1;
            } else {
                return Err(CrateSpecError::Other(String::from_str("unsupported signature type")));
            }
            i = i + 1;
        }
        proof {
            assert(self.sigs@.take(i as int) =~= self.sigs@);
        }
        Ok(())
    }

    /// Checks every signature record of the context against the container
    /// `crate_package` and its file `bin_all`, where `local` holds what
    /// verifying the local signatures gave and `verdicts` what the PKI
    /// service said of the network signatures: takes the digests of what
    /// the signatures cover, the canonical file image and the archive, and
    /// judges the records as `judge_signatures` does.
    ///
    /// Fails with another error where the context held signature records
    /// before it took the container's or where a digest cannot be taken,
    /// with a decode error where the container has no archive, else with
    /// the error that reports the first fault.
    pub fn check_signatures(
        &self,
        crate_package: &CratePackage,
        bin_all: &[u8],
        local: &[Result<Vec<u8>>],
        verdicts: &[RemoteVerdict],
    ) -> (r: Result<()>)
        requires
            parse_image(bin_all@) == Some(crate_package@),
        ensures
            match container_fault(
                self.sigs@.len() as int,
                self.network_client is Some,
                sig_records(self.sigs@),
                crate_package@,
                bin_all@,
                local@,
                verdicts@,
            ) {
                None => r is Ok || (r matches Err(e) && e is Other),
                Some(f) => r matches Err(e) && (reports(e, f) || e is Other),
            },
            records_mismatch(sig_count(crate_package@.index), self.sigs@.len() as int) ==> (
            r matches Err(e) && e is Other),
            (!records_mismatch(sig_count(crate_package@.index), self.sigs@.len() as int)
                && crate_binary_of(crate_package@) is None) ==> (r matches Err(e)
                && e is DecodeError),
            r is Ok ==> network_count(self.sigs@) <= verdicts@.len(),
            r is Ok ==> forall|k: int|
                0 <= k < network_count(self.sigs@) ==> (#[trigger] verdicts@[k]) is Accepted,
            r is Ok ==> forall|i: int|
                0 <= i < self.sigs@.len() ==> crate::utils::section::spec_known_sig_type(
                    (#[trigger] self.sigs@[i]).typ,
                ),
            r is Ok ==> crate_binary_of(crate_package@) is Some,
    {
        proof {
            lemma_parsed_bounds(bin_all@, crate_package@);
            lemma_first_of_type(crate_package.section_index@, CRATEBIN_TYPE as int);
        }
        let sig_num: usize = crate_package.section_index.sig_num();
        if sig_num != self.sigs.len() && self.sigs.len() != 0 && sig_num != 0 {
            return Err(
                CrateSpecError::Other(String::from_str("the context held signatures before decoding")),
            );
        }
        let bin_crate = match crate_package.crate_binary_section() {
            Ok(c) => c,
            Err(e) => {
                return Err(e);
            },
        };
        proof {
            let k = crate_package.spec_first(CRATEBIN_TYPE);
            assert(crate_package@.sections[k] == crate_package.data_sections@[k]@);
        }
        let canonical = self.binary_before_sig(crate_package, bin_all);
        let file_digest = match PKCS::new().gen_digest_256(canonical.as_slice()) {
            Ok(d) => d,
            Err(e) => {
                return Err(e);
            },
        };
        let archive_digest = match PKCS::new().gen_digest_256(bin_crate.bin.as_slice()) {
            Ok(d) => d,
            Err(e) => {
                return Err(e);
            },
        };
        self.judge_signatures(file_digest.as_slice(), archive_digest.as_slice(), local, verdicts)
    }

    /// Has OpenSSL verify every local signature of the context against the
    /// root certificates, and returns what each verification gave, in the
    /// order of the local records.
    fn verify_local(&self) -> (r: Vec<Result<Vec<u8>>>) {
        let mut local: Vec<Result<Vec<u8>>> = Vec::new();
        let mut i: usize = 0;
        while i < self.sigs.len()
            invariant
                i <= self.sigs@.len(),
            decreases self.sigs@.len() - i,
        {
            let siginfo = &self.sigs[i];
            if siginfo.typ == SIG_FILE || siginfo.typ == SIG_CRATEBIN {
                local.push(PKCS::decode_pkcs_bin(siginfo.bin.as_slice(), self.root_cas.as_slice()));
            }
            i = i + 1;
        }
        local
    }

    /// Reads the container in the file `bin` into the context: checks the
    /// fingerprint, reads the structure and the strings, and takes the
    /// description, the dependencies, the archive and the signature records.
    /// No signature is checked.
    ///
    /// Fails with a decode error where the file holds no container that can
    /// be read, with another error where the digest cannot be taken.
    fn read_structure(&mut self, bin: &[u8]) -> (r: Result<(CratePackage, StringTable)>)
        ensures
            r matches Ok((pkg, tab)) ==> tab.wf() && container_read(
                *old(self),
                *final(self),
                pkg@,
                tab@,
                bin@,
            ),
            structure_decodes(bin@) ==> r is Ok || (r matches Err(e) && e is Other),
            !structure_decodes(bin@) ==> (r matches Err(e) && (e is DecodeError || e is Other)),
            !fingerprint_matches(bin@) ==> (r matches Err(e) && (e is Other || (e is DecodeError
                && e.spec_message() == wrong_fingerprint_message(bin@.len())))),
            bin@.len() < 32 ==> (r matches Err(e) && e is DecodeError),
            final(self).root_cas == old(self).root_cas,
            final(self).network_client == old(self).network_client,
            final(self).network_keypair == old(self).network_keypair,
    {
        match self.require_fingerprint(bin) {
            Ok(()) => {},
            Err(e) => {
                return Err(e);
            },
        }
        let crate_package = match CratePackage::decode_from_slice(bin) {
            Ok(p) => p,
            Err(e) => {
                return Err(e);
            },
        };
        proof {
            lemma_parsed_bounds(bin@, crate_package@);
        }
        let mut str_table = StringTable::new();
        match str_table.read_bytes(crate_package.string_table.as_slice()) {
            Ok(()) => {},
            Err(e) => {
                return Err(e);
            },
        }
        let starts_empty = match str_table.str_by_off(&0) {
            Ok(first) => first.as_str().is_empty(),
            Err(_) => false,
        };
        proof {
            let entries = parse_table(crate_package@.string_table).unwrap();
            if entries.len() > 0 {
                lemma_put_all_first(new_table(), entries);
            } else {
                assert(new_table().by_off.contains_key(0));
                assert(new_table().by_off[0] == Seq::<char>::empty());
            }
        }
        if !starts_empty {
            return Err(
                CrateSpecError::DecodeError(
                    String::from_str("the string table does not start with the empty string"),
                ),
            );
        }
        match self.pack_info(&crate_package, &str_table) {
            Ok(()) => {},
            Err(e) => {
                return Err(e);
            },
        }
        match self.deps(&crate_package, &str_table) {
            Ok(()) => {},
            Err(e) => {
                return Err(e);
            },
        }
        match self.binary(&crate_package) {
            Ok(()) => {},
            Err(e) => {
                return Err(e);
            },
        }
        match self.sigs(&crate_package) {
            Ok(()) => {},
            Err(e) => {
                return Err(e);
            },
        }
        Ok((crate_package, str_table))
    }

    /// Reads the container in the file `bin` into the context and checks
    /// it: the fingerprint, the structure, the strings, and every signature.
    /// `local` holds what verifying the container's local signatures
    /// against the root certificates gave, in their order, and `verdicts`
    /// what the PKI service said of its network signatures, in theirs.
    ///
    /// The description's authors, the dependencies and the signature
    /// records are added to those that the context holds; the name, the
    /// version, the license and the archive replace them. A context that
    /// holds signature records already cannot take a container with
    /// signatures. After a failure the context may hold a part of the
    /// container.
    ///
    /// Fails with a decode error where the file holds no container that can
    /// be read. Else the signatures are judged in their order, and the
    /// first that does not hold ends the decoding with the error that
    /// reports its fault: a signature error for a local signature that was
    /// not verified or encloses another digest than the SHA-256 digest of
    /// what it covers, and for a network signature that the service
    /// rejected. Nothing but the file, the context and what is handed in
    /// decides, but for the digests.
    pub fn decode_with_results(
        &mut self,
        bin: &[u8],
        local: &[Result<Vec<u8>>],
        verdicts: &[RemoteVerdict],
    ) -> (r: Result<(CratePackage, StringTable)>)
        ensures
            r matches Ok((pkg, tab)) ==> {
                &&& tab.wf()
                &&& container_read(*old(self), *final(self), pkg@, tab@, bin@)
                &&& network_count(final(self).sigs@) <= verdicts@.len()
                &&& forall|k: int|
                    0 <= k < network_count(final(self).sigs@) ==> (#[trigger] verdicts@[k]) is Accepted
            },
            !structure_decodes(bin@) ==> (r matches Err(e) && (e is DecodeError || e is Other)),
            !fingerprint_matches(bin@) ==> (r matches Err(e) && (e is Other || (e is DecodeError
                && e.spec_message() == wrong_fingerprint_message(bin@.len())))),
            bin@.len() < 32 ==> (r matches Err(e) && e is DecodeError),
            (structure_decodes(bin@) && old(self).sigs@.len() == 0) ==> (match container_fault(
                decoded_sigs(parse_image(bin@).unwrap()).len() as int,
                old(self).network_client is Some,
                decoded_sigs(parse_image(bin@).unwrap()),
                parse_image(bin@).unwrap(),
                bin@,
                local@,
                verdicts@,
            ) {
                None => r is Ok || (r matches Err(e) && e is Other),
                Some(f) => r matches Err(e) && (reports(e, f) || e is Other),
            }),
            final(self).root_cas == old(self).root_cas,
            final(self).network_client == old(self).network_client,
            final(self).network_keypair == old(self).network_keypair,
    {
        let (crate_package, str_table) = match self.read_structure(bin) {
            Ok(x) => x,
            Err(e) => {
                return Err(e);
            },
        };
        proof {
            if old(self).sigs@.len() == 0 {
                assert(sig_records(old(self).sigs@) =~= Seq::<SigRecordView>::empty());
                assert(sig_records(self.sigs@) =~= decoded_sigs(crate_package@));
            }
        }
        match self.check_signatures(&crate_package, bin, local, verdicts) {
            Ok(()) => {},
            Err(e) => {
                return Err(e);
            },
        }
        Ok((crate_package, str_table))
    }

    /// Reads the container in the file `bin` into the context and checks
    /// it, as `decode_with_results` does, after it has had every local
    /// signature of the container verified against the root certificates
    /// of the context. `verdicts` holds what the PKI service said of the
    /// container's network signatures, in their order.
    ///
    /// Fails as `decode_with_results` does. A local signature that cannot
    /// be read, does not verify, or encloses another digest than that of
    /// what it covers, gives a signature error. Where the container has no
    /// local signature, nothing but the file, the client and the verdicts
    /// decides, but for the digests.
    pub fn decode_with_verdicts(&mut self, bin: &[u8], verdicts: &[RemoteVerdict]) -> (r: Result<
        (CratePackage, StringTable),
    >)
        ensures
            r matches Ok((pkg, tab)) ==> {
                &&& tab.wf()
                &&& container_read(*old(self), *final(self), pkg@, tab@, bin@)
                &&& network_count(final(self).sigs@) <= verdicts@.len()
                &&& forall|k: int|
                    0 <= k < network_count(final(self).sigs@) ==> (#[trigger] verdicts@[k]) is Accepted
            },
            !structure_decodes(bin@) ==> (r matches Err(e) && (e is DecodeError || e is Other)),
            !fingerprint_matches(bin@) ==> (r matches Err(e) && (e is Other || (e is DecodeError
                && e.spec_message() == wrong_fingerprint_message(bin@.len())))),
            bin@.len() < 32 ==> (r matches Err(e) && e is DecodeError),
            (structure_decodes(bin@) && old(self).sigs@.len() == 0) ==> (match network_fault(
                false,
                true,
                old(self).network_client is Some,
                decoded_sigs(parse_image(bin@).unwrap()),
                verdicts@,
            ) {
                None => r is Ok || (r matches Err(e) && local_failure(e)),
                Some(f) => r matches Err(e) && (reports(e, f) || local_failure(e)),
            }),
            (structure_decodes(bin@) && old(self).sigs@.len() == 0 && container_all_network(
                parse_image(bin@).unwrap(),
            )) ==> (match network_fault(
                false,
                true,
                old(self).network_client is Some,
                decoded_sigs(parse_image(bin@).unwrap()),
                verdicts@,
            ) {
                None => r is Ok || (r matches Err(e) && e is Other),
                Some(f) => r matches Err(e) && (reports(e, f) || e is Other),
            }),
            final(self).root_cas == old(self).root_cas,
            final(self).network_client == old(self).network_client,
            final(self).network_keypair == old(self).network_keypair,
    {
        let (crate_package, str_table) = match self.read_structure(bin) {
            Ok(x) => x,
            Err(e) => {
                return Err(e);
            },
        };
        let local = self.verify_local();
        proof {
            let p = crate_package@;
            if old(self).sigs@.len() == 0 {
                assert(sig_records(old(self).sigs@) =~= Seq::<SigRecordView>::empty());
                assert(sig_records(self.sigs@) =~= decoded_sigs(p));
                lemma_counts_bounds(p.index);
                assert(decoded_sigs(p).len() == sig_count(p.index));
                assert(self.sigs@.len() == sig_records(self.sigs@).len());
                lemma_fault_of_network(
                    self.network_client is Some,
                    decoded_sigs(p),
                    sha256(signed_region(p, bin@)),
                    sha256(crate_binary_of(p).unwrap()),
                    local@,
                    verdicts@,
                    0,
                    0,
                    0,
                );
            }
        }
        match self.check_signatures(&crate_package, bin, local.as_slice(), verdicts) {
            Ok(()) => {},
            Err(e) => {
                return Err(e);
            },
        }
        Ok((crate_package, str_table))
    }

    /// Reads the container in the file `bin` into the context and checks
    /// it, as `decode_with_verdicts` does, for a container without network
    /// signatures: a network signature makes it fail, since nothing says
    /// what the PKI service holds of it.
    pub fn decode_from_crate_package(&mut self, bin: &[u8]) -> (r: Result<(CratePackage, StringTable)>)
        ensures
            r matches Ok((pkg, tab)) ==> {
                &&& tab.wf()
                &&& container_read(*old(self), *final(self), pkg@, tab@, bin@)
                &&& network_count(final(self).sigs@) == 0
            },
            !structure_decodes(bin@) ==> (r matches Err(e) && (e is DecodeError || e is Other)),
            !fingerprint_matches(bin@) ==> (r matches Err(e) && (e is Other || (e is DecodeError
                && e.spec_message() == wrong_fingerprint_message(bin@.len())))),
            bin@.len() < 32 ==> (r matches Err(e) && e is DecodeError),
            (structure_decodes(bin@) && old(self).sigs@.len() == 0) ==> (match network_fault(
                false,
                true,
                old(self).network_client is Some,
                decoded_sigs(parse_image(bin@).unwrap()),
                Seq::<RemoteVerdict>::empty(),
            ) {
                None => r is Ok || (r matches Err(e) && local_failure(e)),
                Some(f) => r matches Err(e) && (reports(e, f) || local_failure(e)),
            }),
            (structure_decodes(bin@) && old(self).sigs@.len() == 0 && container_all_network(
                parse_image(bin@).unwrap(),
            )) ==> (match network_fault(
                false,
                true,
                old(self).network_client is Some,
                decoded_sigs(parse_image(bin@).unwrap()),
                Seq::<RemoteVerdict>::empty(),
            ) {
                None => r is Ok || (r matches Err(e) && e is Other),
                Some(f) => r matches Err(e) && (reports(e, f) || e is Other),
            }),
            final(self).root_cas == old(self).root_cas,
            final(self).network_client == old(self).network_client,
            final(self).network_keypair == old(self).network_keypair,
    {
        let verdicts: Vec<RemoteVerdict> = Vec::new();
        proof {
            lemma_network_count_bounds(self.sigs@);
            assert(verdicts@ =~= Seq::<RemoteVerdict>::empty());
        }
        let r = self.decode_with_verdicts(bin, verdicts.as_slice());
        proof {
            lemma_network_count_bounds(self.sigs@);
        }
        r
    }
}

/// The request that asks the PKI service to verify the network signature
/// whose compact binary form is `sig_bin` over the archive `archive`: it
/// names the public key, the signature and the configuration that the
/// signature holds, and the hexadecimal SHA-256 digest of the archive.
///
/// Fails with a decode error where `sig_bin` is no network signature.
pub fn network_verify_request(sig_bin: &[u8], archive: &[u8]) -> (r: Result<VerifyDigestRequest>)
    ensures
        network_signature_from(sig_bin@) is None ==> (r matches Err(e) && e is DecodeError),
        r matches Ok(q) ==> {
            let sig = network_signature_from(sig_bin@).unwrap();
            &&& network_signature_from(sig_bin@) is Some
            &&& q.pub_key@ == sig.pub_key
            &&& q.signature@ == sig.signature
            &&& q.digest@ == hex_of(sha256(archive@))
            &&& q.base_config@.algo == sig.algo
            &&& q.base_config@.flow == sig.flow
            &&& q.base_config@.kms == (match sig.kms {
                Some(k) => k,
                None => Seq::<char>::empty(),
            })
        },
        r matches Err(e) ==> e is DecodeError || e is Other,
{
    let network_sig = match NetworkSignature::from_bytes(sig_bin) {
        Ok(s) => s,
        Err(m) => {
            return Err(CrateSpecError::DecodeError(m));
        },
    };
    let digest = match PKCS::new().gen_digest_256(archive) {
        Ok(d) => d,
        Err(e) => {
            return Err(e);
        },
    };
    let digest_hex = digest_to_hex_string(digest.as_slice());
    let kms = match network_sig.kms {
        Some(k) => k,
        None => String::new(),
    };
    Ok(
        VerifyDigestRequest {
            base_config: BaseConfig { algo: network_sig.algo, kms, flow: network_sig.flow },
            pub_key: network_sig.pub_key,
            digest: digest_hex,
            signature: network_sig.signature,
        },
    )
}

} // verus!
