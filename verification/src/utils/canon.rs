//! The canonical image that a file signature covers.
//!
//! A signature over the whole file cannot cover itself, nor the index
//! entries that say where it stands. So the signed region is the file up to
//! the end of the last non-signature section, with the signature entries of
//! the section index read as zeros.

use vstd::prelude::*;
use crate::utils::index::{
    first_of_type,
    index_enc,
    lemma_first_of_type,
    lemma_index_enc_fixed,
    lemma_sigs_last_split,
    nosig_data_size,
    sig_count,
    sigs_last,
};
use crate::utils::package::{
    body_bytes,
    file_len,
    header_for,
    image_bytes,
    index_for,
    layout_wf,
    lemma_header_len,
    lemma_index_for_sizes,
    lemma_sections_bytes_len,
    lemma_sections_size_monotonic,
    lemma_sections_size_nonneg,
    sections_bytes,
    sections_size,
    sections_wf,
    CratePackageView,
};
use crate::utils::pkcs::sha256;
use crate::utils::records::{lemma_records_len, records_bytes};
use crate::utils::section::{section_type, SIGSTRUCTURE_TYPE, DataSectionView};

verus! {

/// Where the masked part of the section index starts: behind the entries
/// that are not signatures.
pub open spec fn mask_start(p: CratePackageView) -> int {
    p.header.si_offset + 12 * (p.index.len() - sig_count(p.index))
}

/// Where the masked part of the section index ends: at the end of the index.
pub open spec fn mask_end(p: CratePackageView) -> int {
    p.header.si_offset + p.header.si_size
}

/// Length of the signed region: up to the end of the non-signature data.
pub open spec fn signed_len(p: CratePackageView) -> int {
    p.header.ds_offset + nosig_data_size(p.index)
}

/// The first `len` bytes of `bin`, with those from `start` up to `end`
/// read as zeros.
pub open spec fn masked(bin: Seq<u8>, start: int, end: int, len: int) -> Seq<u8> {
    Seq::new(
        len as nat,
        |i: int|
            if start <= i < end {
                0u8
            } else {
                bin[i]
            },
    )
}

/// The canonical image of the file `bin` of the container `p`: what a file
/// signature covers.
pub open spec fn signed_region(p: CratePackageView, bin: Seq<u8>) -> Seq<u8> {
    masked(bin, mask_start(p), mask_end(p), signed_len(p))
}

/// Two files that differ only in the masked part of the section index and
/// behind the non-signature data have the same canonical image, and so the
/// same digest: what the signature entries say and what the signatures hold
/// does not enter the digest.
pub proof fn lemma_masking_hides_signatures(
    p: CratePackageView,
    a: Seq<u8>,
    q: CratePackageView,
    b: Seq<u8>,
)
    requires
        mask_start(p) == mask_start(q),
        mask_end(p) == mask_end(q),
        signed_len(p) == signed_len(q),
        signed_len(p) <= a.len(),
        signed_len(p) <= b.len(),
        forall|i: int|
            0 <= i < signed_len(p) && !(mask_start(p) <= i < mask_end(p)) ==> #[trigger] a[i]
                == b[i],
    ensures
        signed_region(p, a) == signed_region(q, b),
        sha256(signed_region(p, a)) == sha256(signed_region(q, b)),
{
    let x = signed_region(p, a);
    let y = signed_region(q, b);
    crate::utils::index::lemma_counts_bounds(p.index);
    assert forall|i: int| 0 <= i < x.len() implies x[i] == y[i] by {
        if !(mask_start(p) <= i < mask_end(p)) {
            assert(a[i] == b[i]);
        }
    }
    assert(x =~= y);
}

/// The two section lists have the same sections but for what their
/// signature structures hold: signature structures stand at the same
/// places and are of the same types.
pub open spec fn same_unsigned(a: Seq<DataSectionView>, b: Seq<DataSectionView>) -> bool {
    &&& a.len() == b.len()
    &&& forall|i: int|
        0 <= i < a.len() ==> match (#[trigger] a[i], b[i]) {
            (DataSectionView::SigStructure(x), DataSectionView::SigStructure(y)) => x.typ == y.typ,
            (x, y) => x == y,
        }
}

/// Sections that differ only in what their signature structures hold take
/// the same room.
proof fn lemma_same_unsigned_sizes(a: Seq<DataSectionView>, b: Seq<DataSectionView>, i: int)
    requires
        same_unsigned(a, b),
        0 <= i <= a.len(),
    ensures
        sections_size(a.take(i)) == sections_size(b.take(i)),
    decreases i,
{
    if i == 0 {
        assert(a.take(0) =~= Seq::<DataSectionView>::empty());
        assert(b.take(0) =~= Seq::<DataSectionView>::empty());
    } else {
        lemma_same_unsigned_sizes(a, b, i - 1);
        assert(a.take(i).drop_last() =~= a.take(i - 1));
        assert(b.take(i).drop_last() =~= b.take(i - 1));
        assert(a.take(i).last() == a[i - 1]);
        assert(b.take(i).last() == b[i - 1]);
    }
}

/// Containers whose sections differ only in what their signature
/// structures hold have the same header and the same section index.
pub proof fn lemma_same_unsigned_layout(a: Seq<DataSectionView>, b: Seq<DataSectionView>, st_len: int)
    requires
        same_unsigned(a, b),
    ensures
        header_for(a, st_len) == header_for(b, st_len),
        index_for(a) == index_for(b),
        file_len(a, st_len) == file_len(b, st_len),
{
    lemma_same_unsigned_sizes(a, b, a.len() as int);
    assert(a.take(a.len() as int) =~= a);
    assert(b.take(b.len() as int) =~= b);
    assert forall|i: int| 0 <= i < a.len() implies index_for(a)[i] == index_for(b)[i] by {
        lemma_same_unsigned_sizes(a, b, i);
    }
    assert(index_for(a) =~= index_for(b));
}

/// The wire form of the first `m` sections is the start of the wire form
/// of all of them.
pub proof fn lemma_sections_bytes_prefix(ds: Seq<DataSectionView>, m: int)
    requires
        sections_wf(ds),
        0 <= m <= ds.len(),
    ensures
        0 <= sections_size(ds.take(m)) <= sections_bytes(ds).len(),
        sections_bytes(ds).subrange(0, sections_size(ds.take(m))) == sections_bytes(ds.take(m)),
    decreases ds.len(),
{
    lemma_sections_bytes_len(ds);
    lemma_sections_size_monotonic(ds, m, ds.len() as int);
    assert(ds.take(ds.len() as int) =~= ds);
    if m == ds.len() {
        assert(sections_bytes(ds).subrange(0, sections_size(ds)) =~= sections_bytes(ds));
    } else {
        let init = ds.drop_last();
        assert forall|k: int| 0 <= k < init.len() implies crate::utils::section::section_wf(
            #[trigger] init[k],
        ) by {
            assert(init[k] == ds[k]);
        }
        lemma_sections_bytes_prefix(init, m);
        assert(init.take(m) =~= ds.take(m));
        assert(sections_bytes(ds).subrange(0, sections_size(ds.take(m))) =~= sections_bytes(
            init,
        ).subrange(0, sections_size(ds.take(m))));
    }
}

/// Writing signatures into a container does not change its canonical
/// image: two well-formed containers whose sections differ only in what
/// their signature structures hold, over the same string table, have the
/// same signed region, whatever their fingerprints are.
pub proof fn lemma_signing_keeps_signed_region(p: CratePackageView, q: CratePackageView)
    requires
        layout_wf(p),
        layout_wf(q),
        same_unsigned(p.sections, q.sections),
        p.string_table.len() == q.string_table.len(),
    ensures
        signed_region(p, image_bytes(p)) == signed_region(q, image_bytes(q)),
        signed_region(p, body_bytes(p)) == signed_region(p, image_bytes(p)),
{
    let a = p.sections;
    let b = q.sections;
    let n = a.len() as int;
    let st_len = p.string_table.len() as int;
    lemma_same_unsigned_layout(a, b, st_len);
    lemma_signed_len_bound(p);
    lemma_signed_len_bound(q);
    let m = first_of_type(p.index, SIGSTRUCTURE_TYPE as int);
    let len = signed_len(p);
    let head = header_bytes_and_index(p);
    assert(head == header_bytes_and_index(q));
    lemma_header_len(p.header);
    lemma_index_enc_fixed();
    lemma_records_len(p.index, index_enc(), 12);
    lemma_sections_bytes_prefix(a, m);
    lemma_sections_bytes_prefix(b, m);
    lemma_same_unsigned_sizes(a, b, m);
    assert(a.take(m) =~= b.take(m)) by {
        lemma_first_of_type(p.index, SIGSTRUCTURE_TYPE as int);
        assert forall|i: int| 0 <= i < m implies a.take(m)[i] == b.take(m)[i] by {
            assert(p.index[i].sh_type != SIGSTRUCTURE_TYPE);
            assert(section_type(a[i]) != SIGSTRUCTURE_TYPE);
        }
    }
    let da = sections_bytes(a);
    let db = sections_bytes(b);
    let l = sections_size(a.take(m));
    assert(len == 30 + 12 * n + l);
    assert forall|i: int| 0 <= i < len implies image_bytes(p)[i] == image_bytes(q)[i]
        && body_bytes(p)[i] == image_bytes(p)[i] by {
        if i < 30 + 12 * n {
            assert(image_bytes(p)[i] == head[i]);
            assert(image_bytes(q)[i] == head[i]);
        } else {
            let k = i - (30 + 12 * n);
            assert(image_bytes(p)[i] == da[k]);
            assert(image_bytes(q)[i] == db[k]);
            assert(da[k] == da.subrange(0, l)[k]);
            assert(db[k] == db.subrange(0, l)[k]);
        }
    }
    assert(signed_region(p, image_bytes(p)) =~= signed_region(q, image_bytes(q)));
    assert(signed_region(p, body_bytes(p)) =~= signed_region(p, image_bytes(p)));
}

/// The header and the section index of a container, as they stand in a file.
pub open spec fn header_bytes_and_index(p: CratePackageView) -> Seq<u8> {
    crate::utils::package::header_bytes(p.header) + records_bytes(p.index, index_enc())
}

/// In a well-formed container the signed region ends where the first
/// signature structure starts, within the data region.
pub proof fn lemma_signed_len_bound(p: CratePackageView)
    requires
        layout_wf(p),
    ensures
        signed_len(p) == 30 + 12 * p.sections.len() + sections_size(
            p.sections.take(first_of_type(p.index, SIGSTRUCTURE_TYPE as int)),
        ),
        0 <= first_of_type(p.index, SIGSTRUCTURE_TYPE as int) <= p.sections.len(),
        signed_len(p) <= 30 + 12 * p.sections.len() + sections_size(p.sections),
        mask_start(p) == 30 + 12 * first_of_type(p.index, SIGSTRUCTURE_TYPE as int),
        mask_end(p) == 30 + 12 * p.sections.len(),
        sigs_last(p.index),
{
    let ds = p.sections;
    let n = ds.len() as int;
    let index = p.index;
    let st_len = p.string_table.len() as int;
    assert forall|i: int, j: int|
        0 <= i < j < index.len() && crate::utils::index::is_sig(
            #[trigger] index[i],
        ) implies crate::utils::index::is_sig(#[trigger] index[j]) by {
        assert(ds[i] is SigStructure);
        assert(ds[j] is SigStructure);
    }
    lemma_sigs_last_split(index);
    lemma_first_of_type(index, SIGSTRUCTURE_TYPE as int);
    let m = first_of_type(index, SIGSTRUCTURE_TYPE as int);
    lemma_index_for_sizes(ds, st_len, m);
    lemma_sections_size_monotonic(ds, m, n);
    lemma_sections_size_nonneg(ds);
    assert(ds.take(n) =~= ds);
}

} // verus!
