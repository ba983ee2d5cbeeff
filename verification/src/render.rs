//! The result sink's append/header contract, stated over the exact bytes a
//! destination table holds: a fixed three-column header written only when
//! the destination did not yet exist, then one delimited decimal row per
//! record, in call order. The rendering itself is verified down to the
//! digits; the caller only creates, appends and flushes.

use vstd::prelude::*;
use crate::k2::{mat_get, mat_grid, mat_height, mat_height_of, mat_width, mat_width_of};
use crate::runner::TrialRecord;

verus! {

/// Decimal digits of v as ASCII bytes, most significant first.
pub open spec fn dec_bytes(v: nat) -> Seq<u8>
    decreases v,
{
    if v < 10 {
        seq![(48 + v) as u8]
    } else {
        dec_bytes(v / 10).push((48 + v % 10) as u8)
    }
}

/// Appends the decimal rendering of v.
pub fn push_decimal(out: &mut Vec<u8>, v: u128)
    ensures
        final(out)@ == old(out)@ + dec_bytes(v as nat),
    decreases v,
{
    if v >= 10 {
        proof {
            assert(v as int / 10 < v as int) by (nonlinear_arith)
                requires
                    v >= 10,
            ;
        }
        push_decimal(out, v / 10);
    }
    let digit: u8 = (v % 10) as u8;
    out.push(48 + digit);
    proof {
        assert(out@ =~= old(out)@ + dec_bytes(v as nat));
    }
}

/// The fixed header row: the three column names, comma-separated.
pub open spec fn header_bytes() -> Seq<u8> {
    seq![
        110u8,
        44u8,
        98u8,
        105u8,
        116u8,
        109u8,
        97u8,
        116u8,
        114u8,
        105u8,
        120u8,
        44u8,
        107u8,
        50u8,
        116u8,
        114u8,
        101u8,
        101u8,
    ]
}

/// One data row: the record's three fields as decimal text, comma-separated.
pub open spec fn record_bytes(rec: TrialRecord) -> Seq<u8> {
    dec_bytes(rec.n as nat) + seq![44u8] + dec_bytes(rec.flat_metric as nat) + seq![44u8]
        + dec_bytes(rec.compressed_metric as nat)
}

/// The data rows of a record list, each closed by a line feed, in order.
pub open spec fn rows_bytes(recs: Seq<TrialRecord>) -> Seq<u8>
    decreases recs.len(),
{
    if recs.len() == 0 {
        Seq::empty()
    } else {
        rows_bytes(recs.drop_last()) + record_bytes(recs.last()) + seq![10u8]
    }
}

/// What one sink append must leave in the destination: a header line first
/// when the destination did not yet exist, then the data rows, appended.
pub open spec fn table_after_append(existing: Option<Seq<u8>>, recs: Seq<TrialRecord>) -> Seq<u8> {
    match existing {
        Option::None => header_bytes() + seq![10u8] + rows_bytes(recs),
        Option::Some(content) => content + rows_bytes(recs),
    }
}

/// The header row as bytes.
pub fn header_row() -> (r: Vec<u8>)
    ensures
        r@ == header_bytes(),
{
    let row: Vec<u8> = vec![110, 44, 98, 105, 116, 109, 97, 116, 114, 105, 120, 44, 107, 50, 116, 114, 101, 101];
    proof {
        assert(row@ =~= header_bytes());
    }
    row
}

/// One record as a delimited decimal row, without its line feed.
pub fn record_row(rec: &TrialRecord) -> (r: Vec<u8>)
    ensures
        r@ == record_bytes(*rec),
{
    let mut out: Vec<u8> = Vec::new();
    push_decimal(&mut out, rec.n as u128);
    out.push(44);
    push_decimal(&mut out, rec.flat_metric);
    out.push(44);
    push_decimal(&mut out, rec.compressed_metric);
    proof {
        assert(out@ =~= record_bytes(*rec));
    }
    out
}

/// All data rows of a record list, each closed by a line feed.
pub fn data_rows(records: &Vec<TrialRecord>) -> (r: Vec<u8>)
    ensures
        r@ == rows_bytes(records@),
{
    let mut out: Vec<u8> = Vec::new();
    let mut i: usize = 0;
    while i < records.len()
        invariant
            i <= records@.len(),
            out@ == rows_bytes(records@.take(i as int)),
        decreases records@.len() - i,
    {
        let mut row = record_row(&records[i]);
        out.append(&mut row);
        out.push(10);
        proof {
            assert(records@.take(i as int + 1).drop_last() =~= records@.take(i as int));
            assert(records@.take(i as int + 1).last() == records@[i as int]);
            assert(out@ =~= rows_bytes(records@.take(i as int + 1)));
        }
        i = i + 1;
    }
    proof {
        assert(records@.take(records@.len() as int) =~= records@);
    }
    out
}

/// The whole content of a freshly created destination after one append:
/// the header line, then the data rows.
pub fn fresh_table(records: &Vec<TrialRecord>) -> (r: Vec<u8>)
    ensures
        r@ == table_after_append(None, records@),
{
    let mut out = header_row();
    out.push(10);
    let mut rows = data_rows(records);
    out.append(&mut rows);
    proof {
        assert(out@ =~= table_after_append(None, records@));
    }
    out
}

/// The whole content of an already existing destination after one append:
/// the old content, then the data rows.
pub fn appended_table(existing: &Vec<u8>, records: &Vec<TrialRecord>) -> (r: Vec<u8>)
    ensures
        r@ == table_after_append(Some(existing@), records@),
{
    let mut out: Vec<u8> = Vec::new();
    let mut i: usize = 0;
    while i < existing.len()
        invariant
            i <= existing@.len(),
            out@ == existing@.take(i as int),
        decreases existing@.len() - i,
    {
        out.push(existing[i]);
        proof {
            assert(out@ =~= existing@.take(i as int + 1));
        }
        i = i + 1;
    }
    proof {
        assert(out@ =~= existing@);
    }
    let mut rows = data_rows(records);
    out.append(&mut rows);
    proof {
        assert(out@ =~= table_after_append(Some(existing@), records@));
    }
    out
}

/// The ASCII digit of one bit.
pub open spec fn bit_digit(b: bool) -> u8 {
    if b {
        49u8
    } else {
        48u8
    }
}

/// The text of one block: `block` consecutive bits as digits.
pub open spec fn block_bytes(bits: Seq<bool>, start: int, block: nat) -> Seq<u8> {
    Seq::new(block, |j: int| bit_digit(bits[start + j]))
}

/// The first `count` whole blocks of a packed-bit array as digit groups
/// separated by ", "; trailing bits short of a whole block do not show.
pub open spec fn blocks_bytes(bits: Seq<bool>, block: nat, count: nat) -> Seq<u8>
    decreases count,
{
    if count == 0 {
        Seq::empty()
    } else if count == 1 {
        block_bytes(bits, 0, block)
    } else {
        blocks_bytes(bits, block, (count - 1) as nat) + seq![44u8, 32u8] + block_bytes(
            bits,
            (count - 1) * block,
            block,
        )
    }
}

/// The digit-group text of a packed-bit array read in whole blocks: what
/// the tree printer shows for one of the two bit arrays.
pub fn format_bit_blocks(bits: &Vec<bool>, block: usize) -> (r: Vec<u8>)
    requires
        1 <= block,
    ensures
        r@ == blocks_bytes(bits@, block as nat, (bits@.len() as int / block as int) as nat),
{
    let count = bits.len() / block;
    proof {
        let len = bits@.len() as int;
        let b = block as int;
        vstd::arithmetic::div_mod::lemma_fundamental_div_mod(len, b);
        vstd::arithmetic::div_mod::lemma_mod_bound(len, b);
        assert(len == b * (len / b) + len % b);
        assert(count as int * block as int == b * (len / b)) by (nonlinear_arith)
            requires
                count as int == len / b,
                b == block as int,
        ;
        assert(count as int * block as int <= bits@.len());
    }
    let mut out: Vec<u8> = Vec::new();
    let mut i: usize = 0;
    while i < count
        invariant
            i <= count,
            1 <= block,
            bits@.len() <= usize::MAX,
            count as int == bits@.len() as int / block as int,
            count as int * block as int <= bits@.len(),
            out@ == blocks_bytes(bits@, block as nat, i as nat),
        decreases count - i,
    {
        if i > 0 {
            out.push(44);
            out.push(32);
        }
        proof {
            assert(i as int * block as int + block as int <= count as int * block as int)
                by (nonlinear_arith)
                requires
                    i as int >= 0,
                    (i as int) < count as int,
                    1 <= block as int,
            ;
        }
        let ghost pre = out@;
        let base = i * block;
        let mut j: usize = 0;
        while j < block
            invariant
                j <= block,
                i < count,
                1 <= block,
                base as int == i as int * block as int,
                base as int + block as int <= bits@.len(),
                bits@.len() <= usize::MAX,
                out@ == pre + Seq::new(j as nat, |jj: int| bit_digit(bits@[base as int + jj])),
            decreases block - j,
        {
            let idx = base + j;
            if bits[idx] {
                out.push(49);
            } else {
                out.push(48);
            }
            proof {
                assert(out@ =~= pre + Seq::new(
                    (j + 1) as nat,
                    |jj: int| bit_digit(bits@[base as int + jj]),
                ));
            }
            j = j + 1;
        }
        proof {
            assert(out@ =~= pre + block_bytes(bits@, i as int * block as int, block as nat));
            if i == 0 {
                assert(out@ =~= blocks_bytes(bits@, block as nat, (i + 1) as nat));
            } else {
                assert(blocks_bytes(bits@, block as nat, (i + 1) as nat) == blocks_bytes(
                    bits@,
                    block as nat,
                    i as nat,
                ) + seq![44u8, 32u8] + block_bytes(bits@, i as int * block as int, block as nat));
                assert(pre =~= blocks_bytes(bits@, block as nat, i as nat) + seq![44u8, 32u8]);
                assert(out@ =~= blocks_bytes(bits@, block as nat, (i + 1) as nat));
            }
        }
        i = i + 1;
    }
    out
}

/// One matrix row as digits: cell (x, y) for x over the full width.
pub open spec fn row_bytes(g: Map<(int, int), bool>, w: int, y: int) -> Seq<u8> {
    Seq::new(w as nat, |x: int| bit_digit(g[(x, y)]))
}

/// The matrix printer's text: each row's digits, top row first, each row
/// closed by a line feed.
pub open spec fn matrix_text_bytes(g: Map<(int, int), bool>, w: int, h: int) -> Seq<u8>
    decreases h,
{
    if h <= 0 {
        Seq::empty()
    } else {
        matrix_text_bytes(g, w, h - 1) + row_bytes(g, w, h - 1) + seq![10u8]
    }
}

/// The whole matrix as rows of 0/1 digits, one line per row.
pub fn matrix_rows_text(m: &k2_tree::matrix::BitMatrix) -> (r: Vec<u8>)
    ensures
        r@ == matrix_text_bytes(mat_grid(*m), mat_width(*m), mat_height(*m)),
{
    let w = mat_width_of(m);
    let h = mat_height_of(m);
    let mut out: Vec<u8> = Vec::new();
    let mut y: usize = 0;
    while y < h
        invariant
            y <= h,
            w == mat_width(*m),
            h == mat_height(*m),
            out@ == matrix_text_bytes(mat_grid(*m), w as int, y as int),
        decreases h - y,
    {
        let ghost pre = out@;
        let mut x: usize = 0;
        while x < w
            invariant
                x <= w,
                y < h,
                w == mat_width(*m),
                h == mat_height(*m),
                out@ == pre + Seq::new(
                    x as nat,
                    |xx: int| bit_digit(mat_grid(*m)[(xx, y as int)]),
                ),
            decreases w - x,
        {
            if mat_get(m, x, y) {
                out.push(49);
            } else {
                out.push(48);
            }
            proof {
                assert(out@ =~= pre + Seq::new(
                    (x + 1) as nat,
                    |xx: int| bit_digit(mat_grid(*m)[(xx, y as int)]),
                ));
            }
            x = x + 1;
        }
        out.push(10);
        proof {
            assert(out@ =~= pre + row_bytes(mat_grid(*m), w as int, y as int) + seq![10u8]);
            assert(out@ =~= matrix_text_bytes(mat_grid(*m), w as int, y as int + 1));
        }
        y = y + 1;
    }
    out
}

/// Rows render in call order: the rows of one record list followed by
/// another are exactly the rows of their concatenation.
pub proof fn lemma_rows_in_order(a: Seq<TrialRecord>, b: Seq<TrialRecord>)
    ensures
        rows_bytes(a + b) == rows_bytes(a) + rows_bytes(b),
    decreases b.len(),
{
    if b.len() == 0 {
        assert(a + b =~= a);
        assert(rows_bytes(a) + rows_bytes(b) =~= rows_bytes(a));
    } else {
        lemma_rows_in_order(a, b.drop_last());
        assert((a + b).drop_last() =~= a + b.drop_last());
        assert((a + b).last() == b.last());
        assert(rows_bytes(a + b) =~= rows_bytes(a) + rows_bytes(b));
    }
}

/// Sink append semantics: appending the same record list twice to a freshly
/// nonexistent destination leaves exactly one header line followed by the
/// rows of both calls, in call order.
pub proof fn lemma_append_twice(recs: Seq<TrialRecord>)
    ensures
        table_after_append(Some(table_after_append(None, recs)), recs) == header_bytes() + seq![
            10u8,
        ] + rows_bytes(recs) + rows_bytes(recs),
{
    assert(table_after_append(Some(table_after_append(None, recs)), recs) =~= header_bytes()
        + seq![10u8] + rows_bytes(recs) + rows_bytes(recs));
}

} // verus!
