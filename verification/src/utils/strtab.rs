//! The string table: a pool of UTF-8 strings that the metadata sections
//! refer to by byte offset.
//!
//! On the wire every entry is a four-byte little-endian length followed by
//! that many bytes of UTF-8. An entry's offset is the position of its length
//! prefix, counted from the start of the table.

use std::collections::HashMap;
use vstd::prelude::*;
use vstd::string::*;
use vstd::utf8::*;
use crate::error::{CrateSpecError, Result};
use crate::utils::wire::{get_le32, le32, lemma_le32_round_trip, put_le32, read_le32};

verus! {

/// Number of bytes of the length prefix in front of every entry.
pub const STRING_LENGTH_PREFIX_BYTES: usize = 4;

/// Bytes that one entry occupies: the prefix and the UTF-8 form of `s`.
pub open spec fn entry_size(s: Seq<char>) -> int {
    4 + encode_utf8(s).len() as int
}

/// The wire form of one entry.
pub open spec fn entry_bytes(s: Seq<char>) -> Seq<u8> {
    le32(encode_utf8(s).len() as u32) + encode_utf8(s)
}

/// Bytes that the entries `ss` occupy together.
pub open spec fn table_size(ss: Seq<Seq<char>>) -> int
    decreases ss.len(),
{
    if ss.len() == 0 {
        0
    } else {
        table_size(ss.drop_last()) + entry_size(ss.last())
    }
}

/// The wire form of the entries `ss`, one after the other.
pub open spec fn table_bytes(ss: Seq<Seq<char>>) -> Seq<u8>
    decreases ss.len(),
{
    if ss.len() == 0 {
        Seq::empty()
    } else {
        table_bytes(ss.drop_last()) + entry_bytes(ss.last())
    }
}

/// The offset of entry `i`: the bytes that the entries before it occupy.
pub open spec fn offset_at(ss: Seq<Seq<char>>, i: int) -> int {
    table_size(ss.take(i))
}


/// The entries that `bytes` hold, or `None` where `bytes` are not a
/// sequence of complete entries of valid UTF-8.
pub open spec fn parse_table(bytes: Seq<u8>) -> Option<Seq<Seq<char>>>
    decreases bytes.len(),
{
    if bytes.len() == 0 {
        Some(Seq::empty())
    } else if bytes.len() < 4 {
        None
    } else {
        let n = read_le32(bytes, 0) as int;
        if 4 + n > bytes.len() || !valid_utf8(bytes.subrange(4, 4 + n)) {
            None
        } else {
            match parse_table(bytes.skip(4 + n)) {
                None => None,
                Some(rest) => Some(seq![decode_utf8(bytes.subrange(4, 4 + n))] + rest),
            }
        }
    }
}


/// The views of a vector of strings.
pub open spec fn strings_of(v: Seq<String>) -> Seq<Seq<char>> {
    Seq::new(v.len(), |i: int| v[i]@)
}


/// What a string table holds: the offset of every string, the string at
/// every offset, and the bytes counted so far, which is the offset that the
/// next new string gets.
pub struct TableView {
    pub by_str: Map<Seq<char>, int>,
    pub by_off: Map<int, Seq<char>>,
    pub total: int,
}

impl TableView {
    /// Whether the table holds the string `s`.
    pub open spec fn contains(self, s: Seq<char>) -> bool {
        self.by_str.contains_key(s)
    }
}

/// A table that holds nothing.
pub open spec fn empty_table() -> TableView {
    TableView { by_str: Map::empty(), by_off: Map::empty(), total: 0 }
}

/// The table after the entry `s` was put at offset `off`: the string has
/// that offset, the offset has that string, whatever they had before, and
/// the bytes are counted up to the end of the entry.
pub open spec fn put(t: TableView, off: int, s: Seq<char>) -> TableView {
    TableView { by_str: t.by_str.insert(s, off), by_off: t.by_off.insert(off, s), total: off + entry_size(s) }
}

/// The table that holds the empty string at offset 0 and nothing else.
pub open spec fn new_table() -> TableView {
    put(empty_table(), 0, Seq::empty())
}

/// The offset that inserting `s` into `t` yields: the one that `s` has, or
/// the end of what is counted.
pub open spec fn insert_offset(t: TableView, s: Seq<char>) -> int {
    if t.contains(s) {
        t.by_str[s]
    } else {
        t.total
    }
}

/// The table after inserting `s` into `t`: unchanged where it holds `s`.
pub open spec fn insert_entries(t: TableView, s: Seq<char>) -> TableView {
    if t.contains(s) {
        t
    } else {
        put(t, t.total, s)
    }
}

/// The string at offset `off`, if the table has one there.
pub open spec fn lookup(t: TableView, off: int) -> Option<Seq<char>> {
    if t.by_off.contains_key(off) {
        Some(t.by_off[off])
    } else {
        None
    }
}

/// The table after the entries `ss` of a wire form were read into `t`, one
/// after the other: every entry is put at the offset at which it stands.
pub open spec fn put_all(t: TableView, ss: Seq<Seq<char>>) -> TableView
    decreases ss.len(),
{
    if ss.len() == 0 {
        t
    } else {
        put(put_all(t, ss.drop_last()), table_size(ss.drop_last()), ss.last())
    }
}

/// The table whose entries are `ss`, one after the other from offset 0.
pub open spec fn laid_out(ss: Seq<Seq<char>>) -> TableView {
    put_all(empty_table(), ss)
}

/// The entries at the front of `bytes` that are complete and valid UTF-8:
/// what a reader takes before it comes to the end or to an entry that it
/// cannot read.
pub open spec fn readable_entries(bytes: Seq<u8>) -> Seq<Seq<char>>
    decreases bytes.len(),
{
    if bytes.len() < 4 {
        Seq::empty()
    } else {
        let n = read_le32(bytes, 0) as int;
        if 4 + n > bytes.len() || !valid_utf8(bytes.subrange(4, 4 + n)) {
            Seq::empty()
        } else {
            seq![decode_utf8(bytes.subrange(4, 4 + n))] + readable_entries(bytes.skip(4 + n))
        }
    }
}

/// The wire forms of the entries that `m` has at the offsets from `lo` up
/// to `hi`, in ascending order of offset.
pub open spec fn image_between(m: Map<int, Seq<char>>, lo: int, hi: int) -> Seq<u8>
    decreases hi - lo,
{
    if hi <= lo {
        Seq::empty()
    } else if m.contains_key(hi - 1) {
        image_between(m, lo, hi - 1) + entry_bytes(m[hi - 1])
    } else {
        image_between(m, lo, hi - 1)
    }
}

/// The wire form of the table: its entries in ascending order of offset.
pub open spec fn table_image(t: TableView) -> Seq<u8> {
    image_between(t.by_off, 0, 0x1_0000_0000)
}

/// The table is as `new` and `insert_str` make it: the empty string stands
/// at offset 0, every string has one offset and every offset one string,
/// each the other's, and every entry ends within the bytes counted.
pub open spec fn orderly(t: TableView) -> bool {
    &&& t.contains(Seq::<char>::empty())
    &&& t.by_str[Seq::<char>::empty()] == 0
    &&& forall|s: Seq<char>| #[trigger]
        t.by_str.contains_key(s) ==> t.by_off.contains_key(t.by_str[s]) && t.by_off[t.by_str[s]] == s
    &&& forall|k: int| #[trigger]
        t.by_off.contains_key(k) ==> t.by_str.contains_key(t.by_off[k]) && t.by_str[t.by_off[k]] == k
            && 0 <= k && k + entry_size(t.by_off[k]) <= t.total
}

/// The table after inserting the strings `strs` one after the other.
pub open spec fn intern_all(table: TableView, strs: Seq<Seq<char>>) -> TableView
    decreases strs.len(),
{
    if strs.len() == 0 {
        table
    } else {
        insert_entries(intern_all(table, strs.drop_last()), strs.last())
    }
}

/// The entries after inserting `strs` one after the other into a table
/// whose entries are `ss`: every string that is new goes to the end.
pub open spec fn interned(ss: Seq<Seq<char>>, strs: Seq<Seq<char>>) -> Seq<Seq<char>>
    decreases strs.len(),
{
    if strs.len() == 0 {
        ss
    } else {
        let before = interned(ss, strs.drop_last());
        if before.contains(strs.last()) {
            before
        } else {
            before.push(strs.last())
        }
    }
}
/// A table takes at least four bytes for every entry.
pub proof fn lemma_table_size_nonneg(ss: Seq<Seq<char>>)
    ensures
        table_size(ss) >= 0,
        table_size(ss) >= 4 * ss.len(),
    decreases ss.len(),
{
    if ss.len() > 0 {
        lemma_table_size_nonneg(ss.drop_last());
    }
}

/// The wire form of a table is as long as its size says.
pub proof fn lemma_table_bytes_len(ss: Seq<Seq<char>>)
    ensures
        table_bytes(ss).len() == table_size(ss),
    decreases ss.len(),
{
    if ss.len() > 0 {
        lemma_table_bytes_len(ss.drop_last());
        lemma_le32_round_trip(encode_utf8(ss.last()).len() as u32);
    }
}

/// Offsets grow with the index: a later entry starts at least four bytes
/// after an earlier one.
pub proof fn lemma_offsets_increase(ss: Seq<Seq<char>>, i: int, j: int)
    requires
        0 <= i < j <= ss.len(),
    ensures
        offset_at(ss, i) + entry_size(ss[i]) <= offset_at(ss, j),
        0 <= offset_at(ss, i),
    decreases j - i,
{
    lemma_table_size_nonneg(ss.take(i));
    assert(ss.take(j).drop_last() =~= ss.take(j - 1));
    assert(ss.take(j).last() == ss[j - 1]);
    if i < j - 1 {
        lemma_offsets_increase(ss, i, j - 1);
    }
}


/// The wire form of a table starts with the wire form of its first entry.
pub proof fn lemma_table_bytes_front(ss: Seq<Seq<char>>)
    requires
        ss.len() > 0,
    ensures
        table_bytes(ss) == entry_bytes(ss[0]) + table_bytes(ss.drop_first()),
    decreases ss.len(),
{
    if ss.len() == 1 {
        assert(ss.drop_last() =~= Seq::<Seq<char>>::empty());
        assert(ss.drop_first() =~= Seq::<Seq<char>>::empty());
        assert(table_bytes(ss) =~= entry_bytes(ss[0]) + table_bytes(ss.drop_first()));
    } else {
        let init = ss.drop_last();
        lemma_table_bytes_front(init);
        assert(init.drop_first() =~= ss.drop_first().drop_last());
        assert(ss.drop_first().last() == ss.last());
        assert(table_bytes(ss) =~= entry_bytes(ss[0]) + table_bytes(ss.drop_first()));
    }
}

/// Reading the wire form of a table gives back its entries.
pub proof fn lemma_parse_table_bytes(ss: Seq<Seq<char>>)
    requires
        table_size(ss) <= u32::MAX,
    ensures
        parse_table(table_bytes(ss)) == Some(ss),
    decreases ss.len(),
{
    if ss.len() == 0 {
    } else {
        let bytes = table_bytes(ss);
        let first = encode_utf8(ss[0]);
        let n = first.len() as int;
        let rest = ss.drop_first();
        lemma_table_bytes_front(ss);
        lemma_table_bytes_len(ss);
        lemma_table_bytes_len(rest);
        lemma_table_size_nonneg(rest);
        lemma_le32_round_trip(first.len() as u32);
        assert(table_size(ss) == entry_size(ss[0]) + table_size(rest)) by {
            assert(bytes.len() == entry_bytes(ss[0]).len() + table_bytes(rest).len());
        }
        assert(bytes.subrange(0, 4) =~= le32(first.len() as u32));
        assert(read_le32(bytes, 0) == first.len());
        assert(bytes.subrange(4, 4 + n) =~= first);
        assert(bytes.skip(4 + n) =~= table_bytes(rest));
        encode_utf8_valid_utf8(ss[0]);
        encode_utf8_decode_utf8(ss[0]);
        lemma_parse_table_bytes(rest);
        assert(seq![ss[0]] + rest =~= ss);
    }
}


/// The sizes of the first `i` strings do not exceed the sizes of all.
pub proof fn lemma_table_size_prefix(strs: Seq<Seq<char>>, i: int)
    requires
        0 <= i <= strs.len(),
    ensures
        0 <= table_size(strs.take(i)) <= table_size(strs),
        i < strs.len() ==> table_size(strs.take(i)) + entry_size(strs[i]) <= table_size(strs),
{
    lemma_table_size_nonneg(strs.take(i));
    if i < strs.len() {
        lemma_offsets_increase(strs, i, strs.len() as int);
    }
    assert(strs.take(strs.len() as int) =~= strs);
}


/// The sizes of tables of up to four entries.
pub proof fn lemma_table_size_small(a: Seq<char>, b: Seq<char>, c: Seq<char>, d: Seq<char>)
    ensures
        table_size(Seq::<Seq<char>>::empty()) == 0,
        table_size(seq![a]) == entry_size(a),
        table_size(seq![a, b]) == entry_size(a) + entry_size(b),
        table_size(seq![a, b, c]) == entry_size(a) + entry_size(b) + entry_size(c),
        table_size(seq![a, b, c, d]) == entry_size(a) + entry_size(b) + entry_size(c) + entry_size(d),
        entry_size(Seq::<char>::empty()) == 4,
{
    assert(table_size(Seq::<Seq<char>>::empty()) == 0);
    assert(seq![a].drop_last() =~= Seq::<Seq<char>>::empty());
    assert(seq![a].last() == a);
    assert(seq![a, b].last() == b);
    assert(seq![a, b, c].last() == c);
    assert(seq![a, b, c, d].last() == d);
    assert(seq![a, b].drop_last() =~= seq![a]);
    assert(seq![a, b, c].drop_last() =~= seq![a, b]);
    assert(seq![a, b, c, d].drop_last() =~= seq![a, b, c]);
    assert(table_size(seq![a]) == entry_size(a));
    assert(table_size(seq![a, b]) == entry_size(a) + entry_size(b));
    assert(table_size(seq![a, b, c]) == entry_size(a) + entry_size(b) + entry_size(c));
    assert(encode_utf8(Seq::<char>::empty()).len() == 0);
}


/// Sizes add up over concatenation.
pub proof fn lemma_table_size_concat(a: Seq<Seq<char>>, b: Seq<Seq<char>>)
    ensures
        table_size(a + b) == table_size(a) + table_size(b),
    decreases b.len(),
{
    if b.len() == 0 {
        assert(a + b =~= a);
    } else {
        lemma_table_size_concat(a, b.drop_last());
        assert((a + b).drop_last() =~= a + b.drop_last());
        assert((a + b).last() == b.last());
    }
}


/// A new table is orderly.
pub proof fn lemma_new_table_orderly()
    ensures
        orderly(new_table()),
        new_table().total == 4,
        new_table() == laid_out(seq![Seq::<char>::empty()]),
{
    let e = Seq::<char>::empty();
    let t = new_table();
    assert(encode_utf8(e).len() == 0);
    assert(t.by_str.contains_key(e));
    let one = seq![e];
    assert(one.drop_last() =~= Seq::<Seq<char>>::empty());
    assert(one.last() == e);
    assert(table_size(one.drop_last()) == 0);
    assert(put_all(empty_table(), one.drop_last()) == empty_table());
    assert(laid_out(one) == put(put_all(empty_table(), one.drop_last()), table_size(one.drop_last()), e));
}

/// Insertion keeps a table orderly.
pub proof fn lemma_insert_keeps_orderly(t: TableView, s: Seq<char>)
    requires
        orderly(t),
    ensures
        orderly(insert_entries(t, s)),
{
    let after = insert_entries(t, s);
    if !t.contains(s) {
        assert(!t.by_off.contains_key(t.total)) by {
            if t.by_off.contains_key(t.total) {
                assert(t.total + entry_size(t.by_off[t.total]) <= t.total);
            }
        }
        assert forall|x: Seq<char>| #[trigger] after.by_str.contains_key(x) implies after.by_off.contains_key(
            after.by_str[x],
        ) && after.by_off[after.by_str[x]] == x by {
            if x != s {
                assert(t.by_str.contains_key(x));
            }
        }
        assert forall|k: int| #[trigger] after.by_off.contains_key(k) implies after.by_str.contains_key(
            after.by_off[k],
        ) && after.by_str[after.by_off[k]] == k && 0 <= k && k + entry_size(after.by_off[k])
            <= after.total by {
            if k != t.total {
                assert(t.by_off.contains_key(k));
            } else {
                assert(t.by_off.contains_key(0));
            }
        }
    }
}

/// Inserting a string a second time changes nothing and yields the offset
/// that the first insertion yielded.
pub proof fn lemma_insert_idempotent(t: TableView, s: Seq<char>)
    ensures
        insert_entries(insert_entries(t, s), s) == insert_entries(t, s),
        insert_offset(insert_entries(t, s), s) == insert_offset(t, s),
        insert_entries(t, s).contains(s),
{
}

/// Looking up the offset that an insertion yielded finds the inserted
/// string, in a table where every string stands at its offset.
pub proof fn lemma_lookup_after_insert(t: TableView, s: Seq<char>)
    requires
        orderly(t),
    ensures
        lookup(insert_entries(t, s), insert_offset(t, s)) == Some(s),
{
}

/// In an orderly table the empty string has offset 0, and inserting it
/// changes nothing.
pub proof fn lemma_empty_string_at_zero(t: TableView)
    requires
        orderly(t),
    ensures
        insert_offset(t, Seq::<char>::empty()) == 0,
        insert_entries(t, Seq::<char>::empty()) == t,
{
}

/// An insertion leaves the strings that the table holds at their offsets.
pub proof fn lemma_insert_stable(t: TableView, s: Seq<char>, x: Seq<char>)
    requires
        t.contains(x),
    ensures
        insert_entries(t, s).contains(x),
        insert_offset(insert_entries(t, s), x) == insert_offset(t, x),
{
}

/// An insertion adds at most the size of the inserted entry to the bytes
/// counted.
pub proof fn lemma_insert_size(t: TableView, s: Seq<char>)
    ensures
        t.total <= insert_entries(t, s).total <= t.total + entry_size(s),
{
}

/// Inserting several strings adds at most their sizes to the bytes counted.
pub proof fn lemma_intern_all_size(table: TableView, strs: Seq<Seq<char>>)
    ensures
        table.total <= intern_all(table, strs).total <= table.total + table_size(strs),
    decreases strs.len(),
{
    if strs.len() > 0 {
        lemma_intern_all_size(table, strs.drop_last());
        lemma_insert_size(intern_all(table, strs.drop_last()), strs.last());
    }
}

/// Inserting several strings leaves the strings that the table holds at
/// their offsets.
pub proof fn lemma_intern_all_stable(table: TableView, strs: Seq<Seq<char>>, x: Seq<char>)
    requires
        table.contains(x),
    ensures
        intern_all(table, strs).contains(x),
        insert_offset(intern_all(table, strs), x) == insert_offset(table, x),
    decreases strs.len(),
{
    if strs.len() > 0 {
        let before = intern_all(table, strs.drop_last());
        lemma_intern_all_stable(table, strs.drop_last(), x);
        lemma_insert_stable(before, strs.last(), x);
    }
}

/// Inserting several strings keeps a table orderly.
pub proof fn lemma_intern_all_orderly(table: TableView, strs: Seq<Seq<char>>)
    requires
        orderly(table),
    ensures
        orderly(intern_all(table, strs)),
    decreases strs.len(),
{
    if strs.len() > 0 {
        lemma_intern_all_orderly(table, strs.drop_last());
        lemma_insert_keeps_orderly(intern_all(table, strs.drop_last()), strs.last());
    }
}

/// After inserting several strings, each of them is in the table.
pub proof fn lemma_intern_all_holds(table: TableView, strs: Seq<Seq<char>>, i: int)
    requires
        0 <= i < strs.len(),
    ensures
        intern_all(table, strs).contains(strs[i]),
    decreases strs.len(),
{
    let before = intern_all(table, strs.drop_last());
    if i < strs.len() - 1 {
        lemma_intern_all_holds(table, strs.drop_last(), i);
        assert(strs.drop_last()[i] == strs[i]);
        lemma_insert_stable(before, strs.last(), strs[i]);
    }
}

/// What a table holds whose entries stand one after the other: as many
/// bytes as the entries take, the strings among the entries, and at the
/// offset of every entry that entry.
pub proof fn lemma_laid_out_holds(ss: Seq<Seq<char>>)
    ensures
        laid_out(ss).total == table_size(ss),
        forall|s: Seq<char>| #[trigger] laid_out(ss).by_str.contains_key(s) <==> ss.contains(s),
        forall|i: int|
            0 <= i < ss.len() ==> laid_out(ss).by_off.contains_key(#[trigger] offset_at(ss, i))
                && laid_out(ss).by_off[offset_at(ss, i)] == ss[i],
        forall|k: int| #[trigger]
            laid_out(ss).by_off.contains_key(k) ==> 0 <= k && k + 4 <= table_size(ss) && exists|i: int|
                0 <= i < ss.len() && offset_at(ss, i) == k,
    decreases ss.len(),
{
    let t = laid_out(ss);
    if ss.len() == 0 {
        assert forall|s: Seq<char>| #[trigger] t.by_str.contains_key(s) <==> ss.contains(s) by {}
    } else {
        let init = ss.drop_last();
        let last = ss.len() - 1;
        let b = laid_out(init);
        lemma_laid_out_holds(init);
        lemma_table_size_nonneg(init);
        assert(ss.take(last) =~= init);
        assert forall|i: int| 0 <= i < last implies offset_at(ss, i) == offset_at(init, i) by {
            assert(ss.take(i) =~= init.take(i));
        }
        assert forall|s: Seq<char>| #[trigger] t.by_str.contains_key(s) <==> ss.contains(s) by {
            if ss.contains(s) {
                let i = choose|i: int| 0 <= i < ss.len() && ss[i] == s;
                if i < last {
                    assert(init[i] == s);
                    assert(init.contains(s));
                    assert(b.by_str.contains_key(s));
                }
            }
            if t.by_str.contains_key(s) {
                if s == ss.last() {
                    assert(ss[last] == s);
                } else {
                    assert(b.by_str.contains_key(s));
                    assert(init.contains(s));
                    let i = choose|i: int| 0 <= i < init.len() && init[i] == s;
                    assert(ss[i] == s);
                }
            }
        }
        assert forall|i: int| 0 <= i < ss.len() implies t.by_off.contains_key(
            #[trigger] offset_at(ss, i),
        ) && t.by_off[offset_at(ss, i)] == ss[i] by {
            if i < last {
                lemma_offsets_increase(ss, i, last);
                assert(b.by_off.contains_key(offset_at(init, i)));
                assert(init[i] == ss[i]);
            }
        }
        assert forall|k: int| #[trigger] t.by_off.contains_key(k) implies 0 <= k && k + 4
            <= table_size(ss) && exists|i: int| 0 <= i < ss.len() && offset_at(ss, i) == k by {
            if k == table_size(init) {
                assert(offset_at(ss, last) == k);
            } else {
                assert(b.by_off.contains_key(k));
                let i = choose|i: int| 0 <= i < init.len() && offset_at(init, i) == k;
                assert(offset_at(ss, i) == k);
            }
        }
    }
}

/// Inserting strings into a table whose entries stand one after the other
/// gives such a table again, with the new strings at the end.
pub proof fn lemma_intern_laid_out(ss: Seq<Seq<char>>, strs: Seq<Seq<char>>)
    ensures
        intern_all(laid_out(ss), strs) == laid_out(interned(ss, strs)),
        ss.len() > 0 ==> interned(ss, strs).len() > 0 && interned(ss, strs)[0] == ss[0],
    decreases strs.len(),
{
    if strs.len() > 0 {
        let before = interned(ss, strs.drop_last());
        lemma_intern_laid_out(ss, strs.drop_last());
        lemma_laid_out_holds(before);
        let s = strs.last();
        assert(laid_out(before).contains(s) <==> before.contains(s));
        if !before.contains(s) {
            assert(before.push(s).drop_last() =~= before);
            assert(before.push(s).last() == s);
        }
    }
}

/// The wire forms between two offsets, taken in two parts.
pub proof fn lemma_image_split(m: Map<int, Seq<char>>, lo: int, mid: int, hi: int)
    requires
        lo <= mid <= hi,
    ensures
        image_between(m, lo, hi) == image_between(m, lo, mid) + image_between(m, mid, hi),
    decreases hi - mid,
{
    if mid < hi {
        lemma_image_split(m, lo, mid, hi - 1);
        if m.contains_key(hi - 1) {
            assert(image_between(m, lo, hi) =~= image_between(m, lo, mid) + image_between(m, mid, hi));
        }
    } else {
        assert(image_between(m, lo, hi) =~= image_between(m, lo, mid) + image_between(m, mid, hi));
    }
}

/// Where no entry stands between two offsets, there are no wire forms.
pub proof fn lemma_image_gap(m: Map<int, Seq<char>>, lo: int, hi: int)
    requires
        forall|k: int| lo <= k < hi ==> !m.contains_key(k),
    ensures
        image_between(m, lo, hi) == Seq::<u8>::empty(),
    decreases hi - lo,
{
    if lo < hi {
        lemma_image_gap(m, lo, hi - 1);
    }
}

/// Tables that hold the same entries between two offsets have the same
/// wire forms there.
pub proof fn lemma_image_same(a: Map<int, Seq<char>>, b: Map<int, Seq<char>>, lo: int, hi: int)
    requires
        forall|k: int| lo <= k < hi ==> (a.contains_key(k) <==> b.contains_key(k)),
        forall|k: int| lo <= k < hi && a.contains_key(k) ==> a[k] == b[k],
    ensures
        image_between(a, lo, hi) == image_between(b, lo, hi),
    decreases hi - lo,
{
    if lo < hi {
        lemma_image_same(a, b, lo, hi - 1);
    }
}

/// The wire form of the one entry at an offset.
pub proof fn lemma_image_one(m: Map<int, Seq<char>>, k: int)
    requires
        m.contains_key(k),
    ensures
        image_between(m, k, k + 1) == entry_bytes(m[k]),
{
    assert(image_between(m, k, k) == Seq::<u8>::empty());
    assert(image_between(m, k, k + 1) =~= entry_bytes(m[k]));
}

/// The wire form of a table whose entries stand one after the other is
/// the wire form of the entries.
pub proof fn lemma_image_laid_out(ss: Seq<Seq<char>>)
    requires
        table_size(ss) <= 0x1_0000_0000,
    ensures
        table_image(laid_out(ss)) == table_bytes(ss),
{
    lemma_laid_out_holds(ss);
    lemma_table_size_nonneg(ss);
    lemma_image_upto(ss);
    let m = laid_out(ss).by_off;
    lemma_image_split(m, 0, table_size(ss), 0x1_0000_0000);
    lemma_image_gap(m, table_size(ss), 0x1_0000_0000);
    assert(table_image(laid_out(ss)) =~= table_bytes(ss));
}

/// The wire forms up to the end of such a table are those of its entries.
proof fn lemma_image_upto(ss: Seq<Seq<char>>)
    ensures
        image_between(laid_out(ss).by_off, 0, table_size(ss)) == table_bytes(ss),
    decreases ss.len(),
{
    lemma_table_size_nonneg(ss);
    if ss.len() > 0 {
        let init = ss.drop_last();
        let a = laid_out(init).by_off;
        let m = laid_out(ss).by_off;
        let mid = table_size(init);
        lemma_table_size_nonneg(init);
        lemma_laid_out_holds(init);
        lemma_laid_out_holds(ss);
        lemma_image_upto(init);
        lemma_image_same(a, m, 0, mid);
        lemma_image_split(m, 0, mid, table_size(ss));
        lemma_image_split(m, mid, mid + 1, table_size(ss));
        lemma_image_one(m, mid);
        assert forall|k: int| mid + 1 <= k < table_size(ss) implies !m.contains_key(k) by {
            if m.contains_key(k) {
                assert(a.contains_key(k));
            }
        }
        lemma_image_gap(m, mid + 1, table_size(ss));
        assert(image_between(m, 0, table_size(ss)) =~= table_bytes(init) + entry_bytes(ss.last()));
    }
}

/// Reading the entries of a wire form that starts with the empty string
/// into a new table gives the table whose entries are those of the wire
/// form.
pub proof fn lemma_read_into_new(ss: Seq<Seq<char>>)
    requires
        ss.len() > 0,
        ss[0] == Seq::<char>::empty(),
    ensures
        put_all(new_table(), ss) == laid_out(ss),
    decreases ss.len(),
{
    let e = Seq::<char>::empty();
    let init = ss.drop_last();
    if ss.len() == 1 {
        assert(init =~= Seq::<Seq<char>>::empty());
        assert(ss.last() == e);
        assert(table_size(init) == 0);
        assert(put_all(new_table(), init) == new_table());
        assert(put_all(empty_table(), init) == empty_table());
        assert(put_all(new_table(), ss) == put(new_table(), 0, e));
        assert(laid_out(ss) == put(empty_table(), 0, e));
        assert(put(new_table(), 0, e).by_str =~= put(empty_table(), 0, e).by_str);
        assert(put(new_table(), 0, e).by_off =~= put(empty_table(), 0, e).by_off);
    } else {
        assert(init[0] == ss[0]);
        lemma_read_into_new(init);
    }
}

/// Reading entries into a table takes no string and no offset out of it:
/// afterwards it holds the strings that it held and those that were read,
/// and no others, and has an entry at every offset at which it had one.
pub proof fn lemma_put_all_keeps(t: TableView, ss: Seq<Seq<char>>, s: Seq<char>, off: int)
    ensures
        t.contains(s) ==> put_all(t, ss).contains(s),
        ss.contains(s) ==> put_all(t, ss).contains(s),
        put_all(t, ss).contains(s) ==> t.contains(s) || ss.contains(s),
        t.by_off.contains_key(off) ==> put_all(t, ss).by_off.contains_key(off),
    decreases ss.len(),
{
    if ss.len() > 0 {
        let init = ss.drop_last();
        lemma_put_all_keeps(t, init, s, off);
        if ss.contains(s) {
            let i = choose|i: int| 0 <= i < ss.len() && ss[i] == s;
            if i < ss.len() - 1 {
                assert(init[i] == s);
            }
        }
        if init.contains(s) {
            let i = choose|i: int| 0 <= i < init.len() && init[i] == s;
            assert(ss[i] == s);
        }
        if put_all(t, ss).contains(s) && s == ss.last() {
            assert(ss[ss.len() - 1] == s);
        }
    }
}

/// After the entries of a wire form were read, the first of them stands
/// at offset 0.
pub proof fn lemma_put_all_first(t: TableView, ss: Seq<Seq<char>>)
    requires
        ss.len() > 0,
    ensures
        put_all(t, ss).by_off.contains_key(0),
        put_all(t, ss).by_off[0] == ss[0],
    decreases ss.len(),
{
    let init = ss.drop_last();
    lemma_table_size_nonneg(init);
    if ss.len() > 1 {
        lemma_put_all_first(t, init);
        assert(init[0] == ss[0]);
    }
}

/// The entries of a wire form that can be read as a whole are the entries
/// that a reader takes from it.
pub proof fn lemma_readable_all(bytes: Seq<u8>)
    requires
        parse_table(bytes) is Some,
    ensures
        readable_entries(bytes) == parse_table(bytes).unwrap(),
    decreases bytes.len(),
{
    if bytes.len() >= 4 {
        let n = read_le32(bytes, 0) as int;
        lemma_readable_all(bytes.skip(4 + n));
    }
}

/// A table whose entries stand one after the other is read back from its
/// wire form: reading the wire form gives the entries.
pub proof fn lemma_table_round_trip(ss: Seq<Seq<char>>)
    requires
        table_size(ss) <= u32::MAX,
    ensures
        parse_table(table_image(laid_out(ss))) == Some(ss),
{
    lemma_image_laid_out(ss);
    lemma_parse_table_bytes(ss);
}

/// The least of `x` and 2^32: a size that is only told apart from others
/// while it fits 32 bits.
pub open spec fn capped(x: int) -> int {
    if x > u32::MAX {
        0x1_0000_0000
    } else {
        x
    }
}

/// The capped sum of two sizes.
pub fn cap_add(a: u64, b: u64) -> (r: u64)
    requires
        a <= 0x2_0000_0000,
        b <= 0x2_0000_0000,
    ensures
        r == capped(a + b),
{
    let sum: u64 = a + b;
    if sum > 0xffff_ffff {
        0x1_0000_0000
    } else {
        sum
    }
}

/// Adds the size of the entry of `s` to the capped size `acc`.
pub fn add_entry_size(acc: u64, s: &str) -> (r: u64)
    requires
        acc <= 0x1_0000_0000,
    ensures
        r == capped(acc + entry_size(s@)),
{
    let n: usize = s.as_bytes().len();
    if n > 0xffff_ffff {
        0x1_0000_0000
    } else {
        cap_add(acc, 4 + n as u64)
    }
}

/// `String::from_utf8`: succeeds exactly on valid UTF-8 and then yields the
/// characters that the bytes encode.
#[verifier::external_body]
pub(crate) fn string_from_utf8(bytes: Vec<u8>) -> (r: Option<String>)
    ensures
        r is Some <==> valid_utf8(bytes@),
        r matches Some(s) ==> s@ == decode_utf8(bytes@),
{
    String::from_utf8(bytes).ok()
}


/// The table that a record of entries stands for: the first `n` entries of
/// the record, put one after the other.
pub open spec fn replay(offs: Seq<u32>, strs: Seq<String>, n: int) -> TableView
    decreases n,
{
    if n <= 0 {
        empty_table()
    } else {
        put(replay(offs, strs, n - 1), offs[n - 1] as int, strs[n - 1]@)
    }
}

/// The greatest index below `n` at which `s` stands in `strs`, or -1.
pub open spec fn last_with_str(strs: Seq<String>, n: int, s: Seq<char>) -> int
    decreases n,
{
    if n <= 0 {
        -1
    } else if strs[n - 1]@ == s {
        n - 1
    } else {
        last_with_str(strs, n - 1, s)
    }
}

/// The greatest index below `n` at which `off` stands in `offs`, or -1.
pub open spec fn last_with_off(offs: Seq<u32>, n: int, off: int) -> int
    decreases n,
{
    if n <= 0 {
        -1
    } else if offs[n - 1] == off {
        n - 1
    } else {
        last_with_off(offs, n - 1, off)
    }
}

/// A string has the offset of the last entry that holds it, and an offset
/// the string of the last entry that stands there.
proof fn lemma_replay(offs: Seq<u32>, strs: Seq<String>, n: int, s: Seq<char>, off: int)
    requires
        0 <= n <= offs.len(),
        n <= strs.len(),
    ensures
        -1 <= last_with_str(strs, n, s) < n,
        -1 <= last_with_off(offs, n, off) < n,
        replay(offs, strs, n).by_str.contains_key(s) <==> last_with_str(strs, n, s) >= 0,
        last_with_str(strs, n, s) >= 0 ==> replay(offs, strs, n).by_str[s] == offs[last_with_str(
            strs,
            n,
            s,
        )],
        replay(offs, strs, n).by_off.contains_key(off) <==> last_with_off(offs, n, off) >= 0,
        last_with_off(offs, n, off) >= 0 ==> offs[last_with_off(offs, n, off)] == off && replay(
            offs,
            strs,
            n,
        ).by_off[off] == strs[last_with_off(offs, n, off)]@,
    decreases n,
{
    if n > 0 {
        lemma_replay(offs, strs, n - 1, s, off);
    }
}

/// The table of a record depends on the entries that are replayed alone.
proof fn lemma_replay_prefix(
    offs: Seq<u32>,
    strs: Seq<String>,
    offs2: Seq<u32>,
    strs2: Seq<String>,
    n: int,
)
    requires
        0 <= n <= offs.len(),
        n <= strs.len(),
        n <= offs2.len(),
        n <= strs2.len(),
        forall|i: int| 0 <= i < n ==> offs[i] == offs2[i] && strs[i]@ == strs2[i]@,
    ensures
        replay(offs, strs, n) == replay(offs2, strs2, n),
    decreases n,
{
    if n > 0 {
        lemma_replay_prefix(offs, strs, offs2, strs2, n - 1);
    }
}

/// A pool of strings with stable byte offsets.
///
/// Its value says which offset every string has and which string every
/// offset has. An entry that is put where another stood takes its place;
/// nothing else ever leaves. The strings at the offsets are kept in a hash
/// map. The offsets of the strings are kept as a record of the entries in
/// the order in which they came, in which the last entry for a string is
/// the one that counts: equal strings are told by their characters, which
/// is how the record is searched.
pub struct StringTable {
    offs: Vec<u32>,
    strs: Vec<String>,
    off2str: HashMap<u32, String>,
    total_bytes: u32,
}

impl View for StringTable {
    type V = TableView;

    closed spec fn view(&self) -> TableView {
        let t = replay(self.offs@, self.strs@, self.offs@.len() as int);
        TableView { by_str: t.by_str, by_off: t.by_off, total: self.total_bytes as int }
    }
}

impl Default for StringTable {
    fn default() -> (r: Self)
        ensures
            r.wf(),
            r@ == new_table(),
    {
        StringTable::new()
    }
}

impl StringTable {
    /// The record is whole, and it begins with the empty string at offset
    /// 0, as every table does from the start.
    pub closed spec fn wf(&self) -> bool {
        &&& self.offs@.len() == self.strs@.len()
        &&& self.offs@.len() > 0
        &&& self.offs@[0] == 0
        &&& self.strs@[0]@ == Seq::<char>::empty()
        &&& forall|i: int| 0 <= i < self.strs@.len() ==> entry_size((#[trigger] self.strs@[i])@) <= u32::MAX
        &&& forall|k: u32| #[trigger]
            self.off2str@.contains_key(k) <==> replay(
                self.offs@,
                self.strs@,
                self.offs@.len() as int,
            ).by_off.contains_key(k as int)
        &&& forall|k: u32| #[trigger]
            self.off2str@.contains_key(k) ==> self.off2str@[k]@ == replay(
                self.offs@,
                self.strs@,
                self.offs@.len() as int,
            ).by_off[k as int]
    }

    /// Bytes counted so far.
    pub closed spec fn spec_total_bytes(&self) -> u32 {
        self.total_bytes
    }

    /// What every table holds: the empty string, an entry at offset 0, and
    /// offsets and a count that fit 32 bits.
    pub proof fn lemma_wf(&self)
        requires
            self.wf(),
        ensures
            self@.total == self.spec_total_bytes(),
            self@.contains(Seq::<char>::empty()),
            self@.by_off.contains_key(0),
            forall|s: Seq<char>| #[trigger] self@.by_str.contains_key(s) ==> 0 <= self@.by_str[s] <= u32::MAX,
            forall|k: int| #[trigger] self@.by_off.contains_key(k) ==> 0 <= k <= u32::MAX,
    {
        let n = self.offs@.len() as int;
        self.lemma_has_first(n);
        assert forall|s: Seq<char>| #[trigger] self@.by_str.contains_key(s) implies 0 <= self@.by_str[s]
            <= u32::MAX by {
            lemma_replay(self.offs@, self.strs@, n, s, 0);
        }
        assert forall|k: int| #[trigger] self@.by_off.contains_key(k) implies 0 <= k <= u32::MAX by {
            lemma_replay(self.offs@, self.strs@, n, Seq::<char>::empty(), k);
        }
    }

    proof fn lemma_has_first(&self, n: int)
        requires
            self.wf(),
            1 <= n <= self.offs@.len(),
        ensures
            replay(self.offs@, self.strs@, n).by_str.contains_key(Seq::<char>::empty()),
            replay(self.offs@, self.strs@, n).by_off.contains_key(0),
        decreases n,
    {
        if n > 1 {
            self.lemma_has_first(n - 1);
        }
    }

    /// A table that holds the empty string at offset 0 and nothing else.
    pub fn new() -> (r: Self)
        ensures
            r.wf(),
            r@ == new_table(),
            orderly(r@),
            r.spec_total_bytes() == 4,
    {
        let mut offs: Vec<u32> = Vec::new();
        let mut strs: Vec<String> = Vec::new();
        let mut off2str: HashMap<u32, String> = HashMap::new();
        offs.push(0);
        strs.push(String::new());
        off2str.insert(0, String::new());
        let r = StringTable { offs, strs, off2str, total_bytes: 4 };
        proof {
            lemma_new_table_orderly();
            assert(replay(r.offs@, r.strs@, 0) == empty_table());
            assert(r.strs@[0]@ =~= Seq::<char>::empty());
            assert(r@.by_str =~= new_table().by_str);
            assert(r@.by_off =~= new_table().by_off);
        }
        r
    }

    /// Bytes counted so far: the offset that the next new string gets.
    pub fn total_bytes(&self) -> (r: u32)
        ensures
            r == self.spec_total_bytes(),
            r == self@.total,
    {
        self.total_bytes
    }

    /// The last entry of the record that holds `st`, if one does.
    fn position(&self, st: &String) -> (r: Option<usize>)
        requires
            self.wf(),
        ensures
            r matches Some(i) ==> i == last_with_str(self.strs@, self.strs@.len() as int, st@),
            r is None ==> last_with_str(self.strs@, self.strs@.len() as int, st@) == -1,
    {
        let mut i: usize = self.strs.len();
        while i > 0
            invariant
                i <= self.strs@.len(),
                last_with_str(self.strs@, self.strs@.len() as int, st@) == last_with_str(
                    self.strs@,
                    i as int,
                    st@,
                ),
            decreases i,
        {
            i = i - 1;
            if self.strs[i] == *st {
                return Some(i);
            }
        }
        None
    }

    /// Appends an entry to the record and counts the bytes up to its end.
    fn record(&mut self, off: u32, st: String, end: u32)
        requires
            old(self).wf(),
            end == off + entry_size(st@),
        ensures
            final(self).wf(),
            final(self)@ == put(old(self)@, off as int, st@),
    {
        let ghost offs0 = self.offs@;
        let ghost strs0 = self.strs@;
        let ghost n = self.offs@.len() as int;
        let ghost s = st@;
        self.off2str.insert(off, st.clone());
        self.offs.push(off);
        self.strs.push(st);
        self.total_bytes = end;
        proof {
            lemma_replay_prefix(offs0, strs0, self.offs@, self.strs@, n);
            assert(self.offs@[n] == off && self.strs@[n]@ == s);
            assert(self@.by_str =~= put(old(self)@, off as int, s).by_str);
            assert(self@.by_off =~= put(old(self)@, off as int, s).by_off);
        }
    }

    /// Puts `st` into the table unless it is there already, and returns its
    /// offset either way. A string that is new gets the offset at the end
    /// of what is counted.
    pub fn insert_str(&mut self, st: String) -> (off: u32)
        requires
            old(self).wf(),
            old(self)@.contains(st@) || old(self)@.total + entry_size(st@) <= u32::MAX,
        ensures
            final(self).wf(),
            final(self)@ == insert_entries(old(self)@, st@),
            off == insert_offset(old(self)@, st@),
            orderly(old(self)@) ==> orderly(final(self)@),
    {
        proof {
            lemma_replay(self.offs@, self.strs@, self.offs@.len() as int, st@, 0);
            if orderly(self@) {
                lemma_insert_keeps_orderly(self@, st@);
            }
        }
        match self.position(&st) {
            Some(i) => self.offs[i],
            None => {
                let ret: u32 = self.total_bytes;
                let n: usize = st.as_str().len();
                self.record(ret, st, ret + 4 + (n as u32));
                ret
            },
        }
    }

    /// Whether `st` is in the table.
    pub fn contains_str(&self, st: &String) -> (r: bool)
        requires
            self.wf(),
        ensures
            r == self@.contains(st@),
    {
        proof {
            lemma_replay(self.offs@, self.strs@, self.offs@.len() as int, st@, 0);
        }
        self.position(st).is_some()
    }

    /// The offset of `st`, or an error where the table does not hold it.
    pub fn off_by_str(&self, st: &String) -> (r: Result<u32>)
        requires
            self.wf(),
        ensures
            r is Ok <==> self@.contains(st@),
            r matches Ok(off) ==> off == self@.by_str[st@],
            r matches Err(e) ==> e is Other,
    {
        proof {
            lemma_replay(self.offs@, self.strs@, self.offs@.len() as int, st@, 0);
        }
        match self.position(st) {
            Some(i) => Ok(self.offs[i]),
            None => Err(CrateSpecError::Other(String::from_str("string not in string table"))),
        }
    }

    /// The string whose entry starts at `off`, or a decode error where no
    /// entry starts there.
    pub fn str_by_off(&self, off: &u32) -> (r: Result<String>)
        requires
            self.wf(),
        ensures
            r is Ok <==> lookup(self@, *off as int) is Some,
            r matches Ok(s) ==> Some(s@) == lookup(self@, *off as int),
            r matches Err(e) ==> e is DecodeError && e.spec_message() == "unknown offset"@,
    {
        match self.off2str.get(off) {
            Some(s) => Ok(s.clone()),
            None => Err(CrateSpecError::DecodeError(String::from_str("unknown offset"))),
        }
    }

    /// The least offset from `lo` on at which an entry stands, if there is
    /// one.
    fn next_offset(&self, lo: u32) -> (r: Option<u32>)
        requires
            self.wf(),
        ensures
            r matches Some(b) ==> lo <= b && self@.by_off.contains_key(b as int) && forall|k: int|
                lo <= k < b ==> !self@.by_off.contains_key(k),
            r is None ==> forall|k: int| lo <= k ==> !self@.by_off.contains_key(k),
    {
        let n: usize = self.offs.len();
        let mut best: Option<u32> = None;
        let mut j: usize = 0;
        while j < n
            invariant
                j <= n == self.offs@.len(),
                best matches Some(b) ==> lo <= b && exists|i: int| 0 <= i < j && self.offs@[i] == b,
                forall|i: int|
                    0 <= i < j && lo <= (#[trigger] self.offs@[i]) ==> (best matches Some(b) && b
                        <= self.offs@[i]),
            decreases n - j,
        {
            let o: u32 = self.offs[j];
            if o >= lo {
                let better = match best {
                    None => true,
                    Some(b) => o < b,
                };
                if better {
                    best = Some(o);
                }
            }
            j = j + 1;
        }
        proof {
            assert forall|k: int| lo <= k && self@.by_off.contains_key(k) implies (best matches Some(b)
                && b <= k) by {
                lemma_replay(self.offs@, self.strs@, n as int, Seq::empty(), k);
                let i = last_with_off(self.offs@, n as int, k);
                assert(self.offs@[i] == k);
            }
            match best {
                Some(b) => {
                    let i = choose|i: int| 0 <= i < n && self.offs@[i] == b;
                    lemma_replay(self.offs@, self.strs@, n as int, Seq::empty(), b as int);
                    if last_with_off(self.offs@, n as int, b as int) < 0 {
                        lemma_last_with_off_at(self.offs@, n as int, b as int, i);
                    }
                },
                None => {},
            }
        }
        best
    }

    /// The wire form of the table: its entries in ascending order of offset.
    pub fn to_bytes(&self) -> (r: Vec<u8>)
        requires
            self.wf(),
        ensures
            r@ == table_image(self@),
    {
        let mut bytes: Vec<u8> = Vec::new();
        let mut lo: u64 = 0;
        let ghost m = self@.by_off;
        while lo <= 0xffff_ffff
            invariant
                lo <= 0x1_0000_0000,
                self.wf(),
                m == self@.by_off,
                bytes@ == image_between(m, 0, lo as int),
            decreases 0x1_0000_0000 - lo,
        {
            match self.next_offset(lo as u32) {
                None => {
                    proof {
                        lemma_image_gap(m, lo as int, 0x1_0000_0000);
                        lemma_image_split(m, 0, lo as int, 0x1_0000_0000);
                        assert(bytes@ =~= image_between(m, 0, 0x1_0000_0000));
                    }
                    lo = 0x1_0000_0000;
                },
                Some(b) => {
                    proof {
                        lemma_replay(self.offs@, self.strs@, self.offs@.len() as int, Seq::empty(), b as int);
                        lemma_image_gap(m, lo as int, b as int);
                        lemma_image_split(m, 0, lo as int, b as int);
                        lemma_image_split(m, 0, b as int, b + 1);
                        lemma_image_one(m, b as int);
                        assert(bytes@ =~= image_between(m, 0, b as int));
                    }
                    let ghost before = bytes@;
                    match self.off2str.get(&b) {
                        Some(s) => {
                            let st = s.as_str();
                            let n: usize = st.len();
                            proof {
                                let i = last_with_off(self.offs@, self.offs@.len() as int, b as int);
                                assert(entry_size(self.strs@[i]@) <= u32::MAX);
                            }
                            put_le32(&mut bytes, n as u32);
                            bytes.extend_from_slice(st.as_bytes());
                            proof {
                                assert(s@ == m[b as int]);
                                assert(bytes@ =~= before + entry_bytes(m[b as int]));
                            }
                        },
                        None => {
                            assert(false);
                        },
                    }
                    lo = b as u64 + 1;
                },
            }
        }
        bytes
    }

    /// Reads the entries that `bytes` hold into the table, each at the
    /// offset at which it stands in `bytes`; what the table held stays,
    /// unless a read entry takes its place. The bytes are then counted up
    /// to the end of the last entry read.
    ///
    /// Fails with a decode error where `bytes` are longer than 32-bit
    /// offsets can address, and then reads nothing, or where they are not
    /// a sequence of complete entries of valid UTF-8, and then has read the
    /// entries before the one that is at fault.
    pub fn read_bytes(&mut self, bytes: &[u8]) -> (r: Result<()>)
        requires
            old(self).wf(),
        ensures
            final(self).wf(),
            r is Ok <==> bytes@.len() <= u32::MAX && parse_table(bytes@) is Some,
            bytes@.len() <= u32::MAX ==> final(self)@ == put_all(old(self)@, readable_entries(bytes@)),
            bytes@.len() > u32::MAX ==> final(self)@ == old(self)@,
            r matches Ok(_) ==> final(self)@ == put_all(old(self)@, parse_table(bytes@).unwrap()),
            forall|s: Seq<char>| old(self)@.contains(s) ==> #[trigger] final(self)@.contains(s),
            forall|k: int|
                old(self)@.by_off.contains_key(k) ==> #[trigger] final(self)@.by_off.contains_key(k),
            r matches Err(e) ==> e is DecodeError,
    {
        let len: usize = bytes.len();
        proof {
            let entries = readable_entries(bytes@);
            assert forall|s: Seq<char>| self@.contains(s) implies #[trigger] put_all(
                self@,
                entries,
            ).contains(s) by {
                lemma_put_all_keeps(self@, entries, s, 0);
            }
            assert forall|k: int| self@.by_off.contains_key(k) implies #[trigger] put_all(
                self@,
                entries,
            ).by_off.contains_key(k) by {
                lemma_put_all_keeps(self@, entries, Seq::empty(), k);
            }
            if parse_table(bytes@) is Some {
                lemma_readable_all(bytes@);
            }
        }
        if len > 0xffff_ffff {
            return Err(CrateSpecError::DecodeError(String::from_str("string table too large")));
        }
        let mut i: usize = 0;
        let ghost mut done: Seq<Seq<char>> = Seq::empty();
        proof {
            assert(bytes@.skip(0) =~= bytes@);
            assert(done + readable_entries(bytes@) =~= readable_entries(bytes@));
        }
        while i < len
            invariant
                i <= len == bytes@.len() <= u32::MAX,
                self.wf(),
                self@ == put_all(old(self)@, done),
                forall|s: Seq<char>|
                    old(self)@.contains(s) ==> #[trigger] put_all(
                        old(self)@,
                        readable_entries(bytes@),
                    ).contains(s),
                forall|k: int|
                    old(self)@.by_off.contains_key(k) ==> #[trigger] put_all(
                        old(self)@,
                        readable_entries(bytes@),
                    ).by_off.contains_key(k),
                table_size(done) == i,
                readable_entries(bytes@) == done + readable_entries(bytes@.skip(i as int)),
                parse_table(bytes@) == match parse_table(bytes@.skip(i as int)) {
                    None => None::<Seq<Seq<char>>>,
                    Some(rest) => Some(done + rest),
                },
            decreases len - i,
        {
            let ghost tail = bytes@.skip(i as int);
            if len - i < 4 {
                proof {
                    assert(done + Seq::<Seq<char>>::empty() =~= done);
                }
                return Err(CrateSpecError::DecodeError(String::from_str("string table truncated")));
            }
            let n: usize = get_le32(bytes, i) as usize;
            proof {
                assert(tail.subrange(0, 4) =~= bytes@.subrange(i as int, i + 4));
            }
            if len - i - 4 < n {
                proof {
                    assert(done + Seq::<Seq<char>>::empty() =~= done);
                }
                return Err(CrateSpecError::DecodeError(String::from_str("string table truncated")));
            }
            let raw = vstd::slice::slice_to_vec(vstd::slice::slice_subrange(bytes, i + 4, i + 4 + n));
            proof {
                assert(tail.subrange(4, 4 + n) =~= bytes@.subrange(i + 4, i + 4 + n));
                assert(tail.skip(4 + n) =~= bytes@.skip(i + 4 + n));
            }
            match string_from_utf8(raw) {
                None => {
                    proof {
                        assert(done + Seq::<Seq<char>>::empty() =~= done);
                    }
                    return Err(CrateSpecError::DecodeError(String::from_str("string table holds invalid UTF-8")));
                },
                Some(st) => {
                    proof {
                        let next = done.push(st@);
                        assert(next.drop_last() =~= done);
                        assert(next.last() == st@);
                        decode_utf8_encode_utf8(bytes@.subrange(i + 4, i + 4 + n));
                        assert(done + (seq![st@] + readable_entries(tail.skip(4 + n))) =~= next
                            + readable_entries(tail.skip(4 + n)));
                        match parse_table(tail.skip(4 + n)) {
                            None => {},
                            Some(rest) => {
                                assert(done + (seq![st@] + rest) =~= next + rest);
                            },
                        }
                        done = next;
                    }
                    self.record(i as u32, st, (i + 4 + n) as u32);
                    i = i + 4 + n;
                },
            }
        }
        proof {
            assert(bytes@.skip(len as int) =~= Seq::<u8>::empty());
            assert(done + Seq::<Seq<char>>::empty() =~= done);
        }
        Ok(())
    }
}

/// An offset at which an entry of the record stands is found in it.
proof fn lemma_last_with_off_at(offs: Seq<u32>, n: int, off: int, i: int)
    requires
        0 <= i < n <= offs.len(),
        offs[i] == off,
    ensures
        last_with_off(offs, n, off) >= i,
    decreases n,
{
    if offs[n - 1] != off {
        lemma_last_with_off_at(offs, n - 1, off, i);
    }
}

} // verus!
