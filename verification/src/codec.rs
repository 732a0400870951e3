//! Binary layout of the two append-only logs.
//!
//! The records file is a sequence of entries, one per inserted row:
//! a 16-byte little-endian identifier, one tombstone byte (`0` live,
//! `1` deleted), then one tagged value per schema column.  A `u64` value is
//! its tag byte and 8 little-endian bytes; a `u8` value is its tag byte and
//! the byte itself; a text value is its tag byte, the byte length of its
//! UTF-8 encoding as 8 little-endian bytes, and those bytes.
//!
//! The transaction log is a sequence of audit entries: an 8-byte transaction
//! number, an operation byte, an outcome byte, and the affected identifiers
//! preceded by their count.
//!
//! Encoding is executable; decoding is specified so that the columnar state
//! rebuilt by replaying a records file is pinned down exactly, and the
//! round-trip lemmas below show that replaying what was encoded yields the
//! encoded rows back.

use vstd::prelude::*;
use vstd::bytes::*;
use vstd::utf8::*;

use crate::identifier::RowIdentifier;
use crate::value::{Value, ValueView, views_of_values};

verus! {

pub const TAG_U64: u8 = 0;

pub const TAG_U8: u8 = 1;

pub const TAG_TEXT: u8 = 2;

/// Bytes of one tagged value.
pub open spec fn spec_encode_value(v: ValueView) -> Seq<u8> {
    match v {
        ValueView::U64(x) => seq![TAG_U64] + spec_u64_to_le_bytes(x),
        ValueView::U8(x) => seq![TAG_U8, x],
        ValueView::Text(s) => seq![TAG_TEXT] + spec_u64_to_le_bytes(
            encode_utf8(s).len() as u64,
        ) + encode_utf8(s),
    }
}

/// Bytes of one row: its values in column order.
pub open spec fn spec_encode_row(row: Seq<ValueView>) -> Seq<u8>
    decreases row.len(),
{
    if row.len() == 0 {
        Seq::empty()
    } else {
        spec_encode_value(row[0]) + spec_encode_row(row.skip(1))
    }
}

/// Bytes of one records-file entry.
pub open spec fn spec_encode_record_entry(
    id: RowIdentifier,
    tombstone: bool,
    row: Seq<ValueView>,
) -> Seq<u8> {
    spec_u128_to_le_bytes(id.bits) + seq![(if tombstone { 1u8 } else { 0u8 })]
        + spec_encode_row(row)
}

/// Bytes of a batch of live records-file entries, one per row.
pub open spec fn spec_encode_record_entries(
    ids: Seq<RowIdentifier>,
    rows: Seq<Seq<ValueView>>,
) -> Seq<u8>
    decreases ids.len(),
{
    if ids.len() == 0 || rows.len() == 0 {
        Seq::empty()
    } else {
        spec_encode_record_entry(ids[0], false, rows[0]) + spec_encode_record_entries(
            ids.skip(1),
            rows.skip(1),
        )
    }
}

/// Appends a byte slice to a byte vector.
pub fn push_bytes(out: &mut Vec<u8>, bs: &[u8])
    ensures
        final(out)@ == old(out)@ + bs@,
{
    let mut i: usize = 0;
    while i < bs.len()
        invariant
            i <= bs@.len(),
            out@ == old(out)@ + bs@.take(i as int),
        decreases bs@.len() - i,
    {
        out.push(bs[i]);
        proof {
            assert(bs@.take(i as int + 1) =~= bs@.take(i as int).push(bs@[i as int]));
        }
        i += 1;
    }
    proof {
        assert(bs@.take(bs@.len() as int) =~= bs@);
    }
}

/// Appends the encoding of one value.
pub fn encode_value(v: &Value, out: &mut Vec<u8>)
    ensures
        final(out)@ == old(out)@ + spec_encode_value(v@),
{
    match v {
        Value::U64(x) => {
            out.push(TAG_U64);
            let bs = u64_to_le_bytes(*x);
            push_bytes(out, bs.as_slice());
            proof {
                assert(out@ =~= old(out)@ + spec_encode_value(v@));
            }
        },
        Value::U8(x) => {
            out.push(TAG_U8);
            out.push(*x);
            proof {
                assert(out@ =~= old(out)@ + spec_encode_value(v@));
            }
        },
        Value::Text(s) => {
            out.push(TAG_TEXT);
            let bs = s.as_str().as_bytes();
            let lb = u64_to_le_bytes(bs.len() as u64);
            push_bytes(out, lb.as_slice());
            push_bytes(out, bs);
            proof {
                assert(out@ =~= old(out)@ + spec_encode_value(v@));
            }
        },
    }
}

/// Encoding a concatenation of rows encodes each part in turn.
pub proof fn lemma_encode_row_concat(a: Seq<ValueView>, b: Seq<ValueView>)
    ensures
        spec_encode_row(a + b) == spec_encode_row(a) + spec_encode_row(b),
    decreases a.len(),
{
    if a.len() == 0 {
        assert(a + b =~= b);
        assert(spec_encode_row(a) + spec_encode_row(b) =~= spec_encode_row(b));
    } else {
        lemma_encode_row_concat(a.skip(1), b);
        assert((a + b).skip(1) =~= a.skip(1) + b);
        assert((a + b)[0] == a[0]);
        assert(spec_encode_value(a[0]) + (spec_encode_row(a.skip(1)) + spec_encode_row(b)) =~= (
        spec_encode_value(a[0]) + spec_encode_row(a.skip(1))) + spec_encode_row(b));
    }
}

/// Appends the encoding of one row.
pub fn encode_row(row: &Vec<Value>, out: &mut Vec<u8>)
    ensures
        final(out)@ == old(out)@ + spec_encode_row(views_of_values(row@)),
{
    let ghost rv = views_of_values(row@);
    let mut i: usize = 0;
    while i < row.len()
        invariant
            i <= row@.len(),
            rv == views_of_values(row@),
            rv.len() == row@.len(),
            out@ == old(out)@ + spec_encode_row(rv.take(i as int)),
        decreases row@.len() - i,
    {
        encode_value(&row[i], out);
        proof {
            assert(rv[i as int] == row@[i as int]@);
            lemma_encode_row_concat(rv.take(i as int), seq![rv[i as int]]);
            assert(rv.take(i as int) + seq![rv[i as int]] =~= rv.take(i as int + 1));
            assert(seq![rv[i as int]].skip(1) =~= Seq::<ValueView>::empty());
            assert(spec_encode_row(Seq::<ValueView>::empty()) =~= Seq::<u8>::empty());
            assert(spec_encode_row(seq![rv[i as int]]) =~= spec_encode_value(rv[i as int]));
            assert(out@ =~= old(out)@ + spec_encode_row(rv.take(i as int + 1)));
        }
        i += 1;
    }
    proof {
        assert(rv.take(rv.len() as int) =~= rv);
    }
}

/// Appends the encoding of one records-file entry.
pub fn encode_record_entry(id: RowIdentifier, tombstone: bool, row: &Vec<Value>, out: &mut Vec<u8>)
    ensures
        final(out)@ == old(out)@ + spec_encode_record_entry(id, tombstone, views_of_values(row@)),
{
    let idb = u128_to_le_bytes(id.bits);
    push_bytes(out, idb.as_slice());
    out.push(if tombstone { 1 } else { 0 });
    encode_row(row, out);
    proof {
        assert(out@ =~= old(out)@ + spec_encode_record_entry(
            id,
            tombstone,
            views_of_values(row@),
        ));
    }
}

/// Encoding a concatenation of batches encodes each batch in turn.
pub proof fn lemma_encode_record_entries_concat(
    ids_a: Seq<RowIdentifier>,
    rows_a: Seq<Seq<ValueView>>,
    ids_b: Seq<RowIdentifier>,
    rows_b: Seq<Seq<ValueView>>,
)
    requires
        ids_a.len() == rows_a.len(),
        ids_b.len() == rows_b.len(),
    ensures
        spec_encode_record_entries(ids_a + ids_b, rows_a + rows_b) == spec_encode_record_entries(
            ids_a,
            rows_a,
        ) + spec_encode_record_entries(ids_b, rows_b),
    decreases ids_a.len(),
{
    if ids_a.len() == 0 {
        assert(ids_a + ids_b =~= ids_b);
        assert(rows_a + rows_b =~= rows_b);
        assert(spec_encode_record_entries(ids_a, rows_a) + spec_encode_record_entries(
            ids_b,
            rows_b,
        ) =~= spec_encode_record_entries(ids_b, rows_b));
    } else {
        lemma_encode_record_entries_concat(ids_a.skip(1), rows_a.skip(1), ids_b, rows_b);
        assert((ids_a + ids_b).skip(1) =~= ids_a.skip(1) + ids_b);
        assert((rows_a + rows_b).skip(1) =~= rows_a.skip(1) + rows_b);
        assert((ids_a + ids_b)[0] == ids_a[0]);
        assert((rows_a + rows_b)[0] == rows_a[0]);
        let head = spec_encode_record_entry(ids_a[0], false, rows_a[0]);
        assert(head + (spec_encode_record_entries(ids_a.skip(1), rows_a.skip(1))
            + spec_encode_record_entries(ids_b, rows_b)) =~= (head + spec_encode_record_entries(
            ids_a.skip(1),
            rows_a.skip(1),
        )) + spec_encode_record_entries(ids_b, rows_b));
    }
}

pub const TXN_OP_INSERT: u8 = 1;

pub const TXN_OUTCOME_COMMITTED: u8 = 1;

pub const TXN_OUTCOME_FAILED: u8 = 0;

/// Bytes of a sequence of identifiers, 16 bytes each.
pub open spec fn spec_encode_identifiers(ids: Seq<RowIdentifier>) -> Seq<u8>
    decreases ids.len(),
{
    if ids.len() == 0 {
        Seq::empty()
    } else {
        spec_u128_to_le_bytes(ids[0].bits) + spec_encode_identifiers(ids.skip(1))
    }
}

/// Bytes of one transaction-log entry: transaction number, operation byte,
/// outcome byte, and the affected identifiers preceded by their count.
pub open spec fn spec_encode_txn_entry(
    txn_id: u64,
    op: u8,
    outcome: u8,
    ids: Seq<RowIdentifier>,
) -> Seq<u8> {
    spec_u64_to_le_bytes(txn_id) + seq![op, outcome] + spec_u64_to_le_bytes(ids.len() as u64)
        + spec_encode_identifiers(ids)
}

/// Encoding a concatenation of identifier runs encodes each run in turn.
pub proof fn lemma_encode_identifiers_concat(a: Seq<RowIdentifier>, b: Seq<RowIdentifier>)
    ensures
        spec_encode_identifiers(a + b) == spec_encode_identifiers(a) + spec_encode_identifiers(b),
    decreases a.len(),
{
    if a.len() == 0 {
        assert(a + b =~= b);
        assert(spec_encode_identifiers(a) + spec_encode_identifiers(b) =~= spec_encode_identifiers(
            b,
        ));
    } else {
        lemma_encode_identifiers_concat(a.skip(1), b);
        assert((a + b).skip(1) =~= a.skip(1) + b);
        assert((a + b)[0] == a[0]);
        assert(spec_u128_to_le_bytes(a[0].bits) + (spec_encode_identifiers(a.skip(1))
            + spec_encode_identifiers(b)) =~= (spec_u128_to_le_bytes(a[0].bits)
            + spec_encode_identifiers(a.skip(1))) + spec_encode_identifiers(b));
    }
}

/// Builds one transaction-log entry.
pub fn encode_txn_entry(txn_id: u64, op: u8, outcome: u8, ids: &Vec<RowIdentifier>) -> (out: Vec<
    u8,
>)
    ensures
        out@ == spec_encode_txn_entry(txn_id, op, outcome, ids@),
{
    let mut out: Vec<u8> = Vec::new();
    let tb = u64_to_le_bytes(txn_id);
    push_bytes(&mut out, tb.as_slice());
    out.push(op);
    out.push(outcome);
    let cb = u64_to_le_bytes(ids.len() as u64);
    push_bytes(&mut out, cb.as_slice());
    let ghost prefix = out@;
    let mut i: usize = 0;
    while i < ids.len()
        invariant
            i <= ids@.len(),
            out@ == prefix + spec_encode_identifiers(ids@.take(i as int)),
        decreases ids@.len() - i,
    {
        let ib = u128_to_le_bytes(ids[i].bits);
        push_bytes(&mut out, ib.as_slice());
        proof {
            lemma_encode_identifiers_concat(ids@.take(i as int), seq![ids@[i as int]]);
            assert(ids@.take(i as int) + seq![ids@[i as int]] =~= ids@.take(i as int + 1));
            assert(seq![ids@[i as int]].skip(1) =~= Seq::<RowIdentifier>::empty());
            assert(spec_encode_identifiers(Seq::<RowIdentifier>::empty()) =~= Seq::<u8>::empty());
            assert(spec_encode_identifiers(seq![ids@[i as int]]) =~= spec_u128_to_le_bytes(
                ids@[i as int].bits,
            ));
            assert(out@ =~= prefix + spec_encode_identifiers(ids@.take(i as int + 1)));
        }
        i += 1;
    }
    proof {
        assert(ids@.take(ids@.len() as int) =~= ids@);
        assert(out@ =~= spec_encode_txn_entry(txn_id, op, outcome, ids@));
    }
    out
}

/// True when the UTF-8 encoding of a text value fits the 8-byte length
/// prefix.  Every value built from an executable `String` satisfies it.
pub open spec fn spec_text_len_ok(v: ValueView) -> bool {
    match v {
        ValueView::Text(s) => encode_utf8(s).len() <= u64::MAX,
        _ => true,
    }
}

pub open spec fn spec_row_texts_ok(row: Seq<ValueView>) -> bool {
    forall|k: int| 0 <= k < row.len() ==> spec_text_len_ok(#[trigger] row[k])
}

pub open spec fn spec_rows_texts_ok(rows: Seq<Seq<ValueView>>) -> bool {
    forall|r: int| 0 <= r < rows.len() ==> spec_row_texts_ok(#[trigger] rows[r])
}

/// One decoded records-file entry.
pub struct RecordEntryView {
    pub id: RowIdentifier,
    pub tombstone: bool,
    pub row: Seq<ValueView>,
}

/// Reads one tagged value from the front of `bytes`: the value and the
/// number of bytes it occupied, or `None` if the front is not a valid
/// value encoding.
pub open spec fn spec_decode_value(bytes: Seq<u8>) -> Option<(ValueView, int)> {
    if bytes.len() < 1 {
        None
    } else if bytes[0] == TAG_U64 {
        if bytes.len() >= 9 {
            Some((ValueView::U64(spec_u64_from_le_bytes(bytes.subrange(1, 9))), 9int))
        } else {
            None
        }
    } else if bytes[0] == TAG_U8 {
        if bytes.len() >= 2 {
            Some((ValueView::U8(bytes[1]), 2int))
        } else {
            None
        }
    } else if bytes[0] == TAG_TEXT {
        if bytes.len() >= 9 {
            let n = spec_u64_from_le_bytes(bytes.subrange(1, 9)) as int;
            if bytes.len() >= 9 + n && valid_utf8(bytes.subrange(9, 9 + n)) {
                Some((ValueView::Text(decode_utf8(bytes.subrange(9, 9 + n))), 9 + n))
            } else {
                None
            }
        } else {
            None
        }
    } else {
        None
    }
}

/// Reads `ncols` tagged values from the front of `bytes`.
pub open spec fn spec_decode_row(bytes: Seq<u8>, ncols: int) -> Option<(Seq<ValueView>, int)>
    decreases ncols,
{
    if ncols <= 0 {
        Some((Seq::empty(), 0int))
    } else {
        match spec_decode_value(bytes) {
            Some((v, used)) => if 0 <= used <= bytes.len() {
                match spec_decode_row(bytes.skip(used), ncols - 1) {
                    Some((vs, used2)) => Some((seq![v] + vs, used + used2)),
                    None => None,
                }
            } else {
                None
            },
            None => None,
        }
    }
}

/// Reads one records-file entry from the front of `bytes`.
pub open spec fn spec_decode_record_entry(bytes: Seq<u8>, ncols: int) -> Option<
    (RecordEntryView, int),
> {
    if bytes.len() >= 17 {
        let id = spec_u128_from_le_bytes(bytes.subrange(0, 16));
        let tomb = bytes[16];
        if tomb == 0 || tomb == 1 {
            match spec_decode_row(bytes.skip(17), ncols) {
                Some((row, used)) => Some(
                    (
                        RecordEntryView {
                            id: RowIdentifier { bits: id },
                            tombstone: tomb == 1,
                            row,
                        },
                        17 + used,
                    ),
                ),
                None => None,
            }
        } else {
            None
        }
    } else {
        None
    }
}

/// Replays a whole records file: the sequence of entries it encodes, or
/// `None` if it is not a valid log for a table of `ncols` columns.
pub open spec fn spec_decode_record_entries(bytes: Seq<u8>, ncols: int) -> Option<
    Seq<RecordEntryView>,
>
    decreases bytes.len(),
{
    if bytes.len() == 0 {
        Some(Seq::empty())
    } else {
        match spec_decode_record_entry(bytes, ncols) {
            Some((e, used)) => if 0 < used <= bytes.len() {
                match spec_decode_record_entries(bytes.skip(used), ncols) {
                    Some(es) => Some(seq![e] + es),
                    None => None,
                }
            } else {
                None
            },
            None => None,
        }
    }
}

/// The live entries for a batch of rows with their identifiers.
pub open spec fn spec_record_entries_of(
    ids: Seq<RowIdentifier>,
    rows: Seq<Seq<ValueView>>,
) -> Seq<RecordEntryView> {
    Seq::new(ids.len(), |r: int| RecordEntryView { id: ids[r], tombstone: false, row: rows[r] })
}

/// Reading a value back from its encoding, whatever follows it, yields the
/// value and consumes exactly its encoding.
pub proof fn lemma_decode_value_of_encode(v: ValueView, rest: Seq<u8>)
    requires
        spec_text_len_ok(v),
    ensures
        spec_decode_value(spec_encode_value(v) + rest) == Some(
            (v, spec_encode_value(v).len() as int),
        ),
{
    let enc = spec_encode_value(v);
    let bytes = enc + rest;
    match v {
        ValueView::U64(x) => {
            lemma_auto_spec_u64_to_from_le_bytes();
            assert(bytes[0] == TAG_U64);
            assert(bytes.subrange(1, 9) =~= spec_u64_to_le_bytes(x));
            assert(enc.len() == 9);
        },
        ValueView::U8(x) => {
            assert(bytes[0] == TAG_U8);
            assert(bytes[1] == x);
            assert(enc.len() == 2);
        },
        ValueView::Text(s) => {
            lemma_auto_spec_u64_to_from_le_bytes();
            let ub = encode_utf8(s);
            assert(bytes[0] == TAG_TEXT);
            assert(bytes.subrange(1, 9) =~= spec_u64_to_le_bytes(ub.len() as u64));
            assert(spec_u64_from_le_bytes(bytes.subrange(1, 9)) == ub.len());
            assert(bytes.subrange(9, 9 + ub.len() as int) =~= ub);
            encode_utf8_valid_utf8(s);
            encode_utf8_decode_utf8(s);
            assert(enc.len() == 9 + ub.len());
        },
    }
}

/// Reading a row back from its encoding, whatever follows it, yields the
/// row and consumes exactly its encoding.
pub proof fn lemma_decode_row_of_encode(row: Seq<ValueView>, rest: Seq<u8>)
    requires
        spec_row_texts_ok(row),
    ensures
        spec_decode_row(spec_encode_row(row) + rest, row.len() as int) == Some(
            (row, spec_encode_row(row).len() as int),
        ),
    decreases row.len(),
{
    if row.len() == 0 {
        assert(spec_encode_row(row) + rest =~= rest);
    } else {
        let enc0 = spec_encode_value(row[0]);
        let encr = spec_encode_row(row.skip(1));
        let bytes = spec_encode_row(row) + rest;
        assert(bytes =~= enc0 + (encr + rest));
        lemma_decode_value_of_encode(row[0], encr + rest);
        assert(bytes.skip(enc0.len() as int) =~= encr + rest);
        assert(spec_row_texts_ok(row.skip(1)));
        lemma_decode_row_of_encode(row.skip(1), rest);
        assert(seq![row[0]] + row.skip(1) =~= row);
    }
}

/// Reading an entry back from its encoding, whatever follows it, yields the
/// entry and consumes exactly its encoding.
pub proof fn lemma_decode_record_entry_of_encode(
    id: RowIdentifier,
    tombstone: bool,
    row: Seq<ValueView>,
    rest: Seq<u8>,
)
    requires
        spec_row_texts_ok(row),
    ensures
        spec_decode_record_entry(
            spec_encode_record_entry(id, tombstone, row) + rest,
            row.len() as int,
        ) == Some(
            (
                RecordEntryView { id, tombstone, row },
                spec_encode_record_entry(id, tombstone, row).len() as int,
            ),
        ),
{
    lemma_auto_spec_u128_to_from_le_bytes();
    let enc = spec_encode_record_entry(id, tombstone, row);
    let bytes = enc + rest;
    let tb: u8 = if tombstone {
        1u8
    } else {
        0u8
    };
    assert(bytes.subrange(0, 16) =~= spec_u128_to_le_bytes(id.bits));
    assert(bytes[16] == tb);
    assert(bytes.skip(17) =~= spec_encode_row(row) + rest);
    lemma_decode_row_of_encode(row, rest);
    assert(enc.len() == 17 + spec_encode_row(row).len());
}

/// Replaying the encoding of a batch of rows yields exactly those rows.
pub proof fn lemma_decode_record_entries_of_encode(
    ids: Seq<RowIdentifier>,
    rows: Seq<Seq<ValueView>>,
    ncols: int,
)
    requires
        ids.len() == rows.len(),
        forall|r: int| 0 <= r < rows.len() ==> (#[trigger] rows[r]).len() == ncols,
        spec_rows_texts_ok(rows),
        ncols >= 0,
    ensures
        spec_decode_record_entries(spec_encode_record_entries(ids, rows), ncols) == Some(
            spec_record_entries_of(ids, rows),
        ),
    decreases ids.len(),
{
    if ids.len() == 0 {
        assert(spec_encode_record_entries(ids, rows).len() == 0);
        assert(spec_record_entries_of(ids, rows) =~= Seq::<RecordEntryView>::empty());
    } else {
        let enc0 = spec_encode_record_entry(ids[0], false, rows[0]);
        let encr = spec_encode_record_entries(ids.skip(1), rows.skip(1));
        let bytes = spec_encode_record_entries(ids, rows);
        assert(bytes =~= enc0 + encr);
        assert(spec_row_texts_ok(rows[0]));
        lemma_decode_record_entry_of_encode(ids[0], false, rows[0], encr);
        assert(rows[0].len() == ncols);
        lemma_auto_spec_u128_to_from_le_bytes();
        assert(enc0.len() >= 17);
        assert(bytes.skip(enc0.len() as int) =~= encr);
        assert(spec_rows_texts_ok(rows.skip(1)));
        assert(forall|r: int|
            0 <= r < rows.skip(1).len() ==> (#[trigger] rows.skip(1)[r]).len() == ncols);
        lemma_decode_record_entries_of_encode(ids.skip(1), rows.skip(1), ncols);
        assert(seq![RecordEntryView { id: ids[0], tombstone: false, row: rows[0] }]
            + spec_record_entries_of(ids.skip(1), rows.skip(1)) =~= spec_record_entries_of(
            ids,
            rows,
        ));
    }
}

} // verus!
