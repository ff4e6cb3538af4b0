//! The section index: one entry of type, offset and size for every data
//! section of a container, signature entries last.

use vstd::prelude::*;
use vstd::string::*;
use crate::error::{CrateSpecError, Result};
use crate::utils::records::fixed_size;
use crate::utils::section::SIGSTRUCTURE_TYPE;
use crate::utils::wire::{
    decimal,
    decimal_of,
    get_le32,
    le32,
    lemma_le32_round_trip,
    put_le32,
    read_le32,
};

verus! {

/// Bytes of one index entry on the wire.
pub const INDEX_ENTRY_LEN: usize = 12;

/// One entry of the section index.
#[derive(Debug, Clone, Copy)]
pub struct SectionIndexEntry {
    /// The section's type number.
    pub sh_type: u32,
    /// Where the section starts, counted from the start of the file.
    pub sh_offset: u32,
    /// Bytes that the section takes.
    pub sh_size: u32,
}

/// The wire form of one index entry.
pub open spec fn index_entry_bytes(e: SectionIndexEntry) -> Seq<u8> {
    le32(e.sh_type) + le32(e.sh_offset) + le32(e.sh_size)
}

/// The index entry at position `at` of `bytes`.
pub open spec fn read_index_entry(bytes: Seq<u8>, at: int) -> SectionIndexEntry {
    SectionIndexEntry {
        sh_type: read_le32(bytes, at),
        sh_offset: read_le32(bytes, at + 4),
        sh_size: read_le32(bytes, at + 8),
    }
}

/// The encoder of one index entry.
pub open spec fn index_enc() -> spec_fn(SectionIndexEntry) -> Seq<u8> {
    |e: SectionIndexEntry| index_entry_bytes(e)
}

/// Every index entry takes 12 bytes.
pub proof fn lemma_index_enc_fixed()
    ensures
        fixed_size(index_enc(), 12),
{
    assert forall|e: SectionIndexEntry| (#[trigger] index_enc()(e)).len() == 12 by {
        lemma_le32_round_trip(e.sh_type);
        lemma_le32_round_trip(e.sh_offset);
        lemma_le32_round_trip(e.sh_size);
    }
}

/// An entry whose wire form stands at `at` is read back from there.
pub proof fn lemma_read_index_entry(bytes: Seq<u8>, at: int, e: SectionIndexEntry)
    requires
        0 <= at,
        at + 12 <= bytes.len(),
        bytes.subrange(at, at + 12) == index_entry_bytes(e),
    ensures
        read_index_entry(bytes, at) == e,
{
    let w = index_entry_bytes(e);
    lemma_le32_round_trip(e.sh_type);
    lemma_le32_round_trip(e.sh_offset);
    lemma_le32_round_trip(e.sh_size);
    assert(bytes.subrange(at, at + 4) =~= w.subrange(0, 4));
    assert(w.subrange(0, 4) =~= le32(e.sh_type));
    assert(bytes.subrange(at + 4, at + 8) =~= w.subrange(4, 8));
    assert(w.subrange(4, 8) =~= le32(e.sh_offset));
    assert(bytes.subrange(at + 8, at + 12) =~= w.subrange(8, 12));
    assert(w.subrange(8, 12) =~= le32(e.sh_size));
}

/// Whether the entry lists a signature structure.
pub open spec fn is_sig(e: SectionIndexEntry) -> bool {
    e.sh_type == SIGSTRUCTURE_TYPE
}

/// Number of signature entries among `es`.
pub open spec fn sig_count(es: Seq<SectionIndexEntry>) -> int
    decreases es.len(),
{
    if es.len() == 0 {
        0
    } else {
        sig_count(es.drop_last()) + if is_sig(es.last()) {
            1int
        } else {
            0int
        }
    }
}

/// Bytes that the non-signature sections listed in `es` take together.
pub open spec fn nosig_data_size(es: Seq<SectionIndexEntry>) -> int
    decreases es.len(),
{
    if es.len() == 0 {
        0
    } else {
        nosig_data_size(es.drop_last()) + if is_sig(es.last()) {
            0int
        } else {
            es.last().sh_size as int
        }
    }
}

/// Bytes that all the sections listed in `es` take together.
pub open spec fn data_size(es: Seq<SectionIndexEntry>) -> int
    decreases es.len(),
{
    if es.len() == 0 {
        0
    } else {
        data_size(es.drop_last()) + es.last().sh_size
    }
}

/// The first index at which an entry of type `typ` stands, or the length of
/// `es` where there is none.
pub open spec fn first_of_type(es: Seq<SectionIndexEntry>, typ: int) -> int
    decreases es.len(),
{
    if es.len() == 0 {
        0
    } else {
        let k = first_of_type(es.drop_last(), typ);
        if k < es.len() - 1 {
            k
        } else if es.last().sh_type == typ {
            es.len() - 1
        } else {
            es.len() as int
        }
    }
}

/// No signature entry stands before an entry of another type.
pub open spec fn sigs_last(es: Seq<SectionIndexEntry>) -> bool {
    forall|i: int, j: int| 0 <= i < j < es.len() && is_sig(#[trigger] es[i]) ==> is_sig(#[trigger] es[j])
}

/// The listed sections follow one another without a gap, the first of them
/// at `start`.
pub open spec fn packed_from(es: Seq<SectionIndexEntry>, start: int) -> bool {
    forall|i: int| 0 <= i < es.len() ==> (#[trigger] es[i]).sh_offset == start + data_size(es.take(i))
}

/// There are no more signature entries than entries, and the
/// non-signature sections take no more room than all sections.
pub proof fn lemma_counts_bounds(es: Seq<SectionIndexEntry>)
    ensures
        0 <= sig_count(es) <= es.len(),
        0 <= nosig_data_size(es) <= data_size(es),
    decreases es.len(),
{
    if es.len() > 0 {
        lemma_counts_bounds(es.drop_last());
    }
}

/// Sizes add up along the index.
pub proof fn lemma_data_size_monotonic(es: Seq<SectionIndexEntry>, i: int, j: int)
    requires
        0 <= i <= j <= es.len(),
    ensures
        0 <= data_size(es.take(i)) <= data_size(es.take(j)),
        i < j ==> data_size(es.take(i)) + es[i].sh_size <= data_size(es.take(j)),
    decreases j - i,
{
    lemma_counts_bounds(es.take(i));
    if i < j {
        assert(es.take(j).drop_last() =~= es.take(j - 1));
        assert(es.take(j).last() == es[j - 1]);
        lemma_data_size_monotonic(es, i, j - 1);
    }
}

/// `first_of_type` answers with the first index of an entry of the type.
pub proof fn lemma_first_of_type(es: Seq<SectionIndexEntry>, typ: int)
    ensures
        0 <= first_of_type(es, typ) <= es.len(),
        first_of_type(es, typ) < es.len() ==> es[first_of_type(es, typ)].sh_type == typ,
        forall|j: int| 0 <= j < first_of_type(es, typ) ==> (#[trigger] es[j]).sh_type != typ,
    decreases es.len(),
{
    if es.len() > 0 {
        let init = es.drop_last();
        lemma_first_of_type(init, typ);
        let k = first_of_type(init, typ);
        if k < es.len() - 1 {
            assert(es[k] == init[k]);
        }
        assert forall|j: int| 0 <= j < first_of_type(es, typ) implies (#[trigger] es[j]).sh_type
            != typ by {
            if j < es.len() - 1 {
                assert(es[j] == init[j]);
            }
        }
    }
}

/// Where signature entries come last, they are exactly the entries from
/// the first of them on.
pub proof fn lemma_sigs_last_split(es: Seq<SectionIndexEntry>)
    requires
        sigs_last(es),
    ensures
        sig_count(es) == es.len() - first_of_type(es, SIGSTRUCTURE_TYPE as int),
        nosig_data_size(es) == data_size(es.take(first_of_type(es, SIGSTRUCTURE_TYPE as int))),
    decreases es.len(),
{
    let typ = SIGSTRUCTURE_TYPE as int;
    lemma_first_of_type(es, typ);
    if es.len() == 0 {
        assert(es.take(0) =~= es);
    } else {
        let init = es.drop_last();
        let last = es.len() - 1;
        assert forall|i: int, j: int| 0 <= i < j < init.len() && is_sig(#[trigger] init[i]) implies is_sig(
            #[trigger] init[j],
        ) by {
            assert(init[i] == es[i]);
            assert(init[j] == es[j]);
        }
        lemma_sigs_last_split(init);
        lemma_first_of_type(init, typ);
        let k = first_of_type(init, typ);
        if k < last {
            assert(is_sig(init[k]));
            assert(init[k] == es[k]);
            assert(is_sig(es[last]));
            assert(es.take(k) =~= init.take(k));
        } else if is_sig(es.last()) {
            assert(es.take(last) =~= init);
            assert(init.take(last) =~= init);
        } else {
            assert(es.take(es.len() as int) =~= es);
            assert(init.take(last) =~= init);
        }
    }
}

impl SectionIndexEntry {
    /// An entry of type 0 at offset 0 with size 0.
    pub fn new() -> (r: Self)
        ensures
            r == (SectionIndexEntry { sh_type: 0, sh_offset: 0, sh_size: 0 }),
    {
        SectionIndexEntry { sh_type: 0, sh_offset: 0, sh_size: 0 }
    }

    /// Appends the entry's wire form to `out`.
    pub fn encode(&self, out: &mut Vec<u8>)
        ensures
            final(out)@ == old(out)@ + index_entry_bytes(*self),
    {
        put_le32(out, self.sh_type);
        put_le32(out, self.sh_offset);
        put_le32(out, self.sh_size);
        proof {
            assert(out@ =~= old(out)@ + index_entry_bytes(*self));
        }
    }

    /// Reads the entry at position `at` of `bytes`.
    pub fn decode_at(bytes: &[u8], at: usize) -> (r: SectionIndexEntry)
        requires
            at + 12 <= bytes@.len(),
        ensures
            r == read_index_entry(bytes@, at as int),
    {
        let n: usize = bytes.len();
        SectionIndexEntry {
            sh_type: get_le32(bytes, at),
            sh_offset: get_le32(bytes, at + 4),
            sh_size: get_le32(bytes, at + 8),
        }
    }
}

/// The section index of a container.
#[derive(Debug)]
pub struct SectionIndex {
    pub entries: Vec<SectionIndexEntry>,
}

impl View for SectionIndex {
    type V = Seq<SectionIndexEntry>;

    open spec fn view(&self) -> Seq<SectionIndexEntry> {
        self.entries@
    }
}

impl SectionIndex {
    /// An index without entries.
    pub fn new() -> (r: Self)
        ensures
            r@ == Seq::<SectionIndexEntry>::empty(),
    {
        SectionIndex { entries: Vec::new() }
    }

    /// The position of the first entry of type `typ`, or a decode error where
    /// the index lists no section of that type.
    pub fn section_id_by_type(&self, typ: usize) -> (r: Result<usize>)
        ensures
            r is Ok <==> first_of_type(self@, typ as int) < self@.len(),
            r matches Ok(i) ==> i == first_of_type(self@, typ as int),
            r matches Err(e) ==> e is DecodeError && e.spec_message() == "no section of type "@
                + decimal_of(typ as nat),
    {
        let mut i: usize = 0;
        proof {
            lemma_first_of_type(self@, typ as int);
        }
        while i < self.entries.len()
            invariant
                i <= self.entries@.len(),
                forall|j: int| 0 <= j < i ==> (#[trigger] self@[j]).sh_type != typ,
            decreases self.entries@.len() - i,
        {
            if self.entries[i].sh_type as usize == typ {
                proof {
                    lemma_first_of_type(self@, typ as int);
                    let k = first_of_type(self@, typ as int);
                    if k < i {
                        assert(self@[k].sh_type != typ);
                    }
                    if k > i {
                        assert(self@[i as int].sh_type != typ);
                    }
                }
                return Ok(i);
            }
            i = i + 1;
        }
        proof {
            lemma_first_of_type(self@, typ as int);
            let k = first_of_type(self@, typ as int);
            if k < self@.len() {
                assert(self@[k].sh_type != typ);
            }
        }
        let mut message = String::from_str("no section of type ");
        message.append(decimal(typ as u64).as_str());
        Err(CrateSpecError::DecodeError(message))
    }

    /// Number of signature entries.
    pub fn sig_num(&self) -> (r: usize)
        ensures
            r == sig_count(self@),
    {
        let mut n: usize = 0;
        let mut i: usize = 0;
        proof {
            assert(self@.take(0) =~= Seq::<SectionIndexEntry>::empty());
        }
        while i < self.entries.len()
            invariant
                i <= self.entries@.len(),
                n == sig_count(self@.take(i as int)),
                n <= i,
            decreases self.entries@.len() - i,
        {
            proof {
                assert(self@.take(i + 1).drop_last() =~= self@.take(i as int));
                assert(self@.take(i + 1).last() == self@[i as int]);
            }
            if self.entries[i].sh_type == SIGSTRUCTURE_TYPE {
                n = n + 1;
            }
            i = i + 1;
        }
        proof {
            assert(self@.take(i as int) =~= self@);
        }
        n
    }

    /// Bytes that the non-signature entries take within the index.
    pub fn none_sig_size(&self) -> (r: usize)
        requires
            12 * self@.len() <= usize::MAX,
        ensures
            r == 12 * (self@.len() - sig_count(self@)),
    {
        proof {
            lemma_counts_bounds(self@);
        }
        let sigs: usize = self.sig_num();
        (self.entries.len() - sigs) * INDEX_ENTRY_LEN
    }

    /// Bytes that the non-signature data sections take together.
    pub fn datasection_size_without_sig(&self) -> (r: usize)
        requires
            nosig_data_size(self@) <= usize::MAX,
        ensures
            r == nosig_data_size(self@),
    {
        let mut sum: usize = 0;
        let mut i: usize = 0;
        proof {
            assert(self@.take(0) =~= Seq::<SectionIndexEntry>::empty());
        }
        while i < self.entries.len()
            invariant
                i <= self.entries@.len(),
                sum == nosig_data_size(self@.take(i as int)),
                nosig_data_size(self@) <= usize::MAX,
            decreases self.entries@.len() - i,
        {
            proof {
                assert(self@.take(i + 1).drop_last() =~= self@.take(i as int));
                assert(self@.take(i + 1).last() == self@[i as int]);
                lemma_nosig_monotonic(self@, i as int + 1);
            }
            if self.entries[i].sh_type != SIGSTRUCTURE_TYPE {
                sum = sum + self.entries[i].sh_size as usize;
            }
            i = i + 1;
        }
        proof {
            assert(self@.take(i as int) =~= self@);
        }
        sum
    }
}

/// The non-signature sizes of a prefix of the index do not exceed those of
/// the whole.
pub proof fn lemma_nosig_monotonic(es: Seq<SectionIndexEntry>, i: int)
    requires
        0 <= i <= es.len(),
    ensures
        0 <= nosig_data_size(es.take(i)) <= nosig_data_size(es),
    decreases es.len() - i,
{
    lemma_counts_bounds(es.take(i));
    if i < es.len() {
        assert(es.take(i + 1).drop_last() =~= es.take(i));
        lemma_nosig_monotonic(es, i + 1);
    } else {
        assert(es.take(i) =~= es);
    }
}

} // verus!
