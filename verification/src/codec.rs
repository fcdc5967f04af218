//! The columnar file writer and its reader.
//!
//! An encoded batch is a compressed image. The uncompressed image holds a
//! magic tag, the column count, one type-tag byte per column in schema
//! order, the row count as eight little-endian bytes, and then the cells,
//! column by column in schema order (one contiguous row group), each cell
//! as eight little-endian bytes of its two's-complement wire value.
use vstd::prelude::*;

use crate::bytes::{cell_wire, wire_cell, i64_to_wire, wire_to_i64, lemma_wire_roundtrip};
use crate::reading::{
    SensorReading, reading_cells, reading_of_cells, lemma_reading_cells_roundtrip,
};
use crate::schema::{SchemaDefinition, schema_tags, sensor_tags, sensor_schema, tag_byte};
use vstd::bytes::{
    spec_u64_to_le_bytes, spec_u64_from_le_bytes, u64_to_le_bytes, u64_from_le_bytes,
    lemma_auto_spec_u64_to_from_le_bytes,
};
use vstd::arithmetic::div_mod::lemma_fundamental_div_mod_converse;

verus! {

/// A self-contained compressed columnar batch, ready to upload.
/// It is only read after construction, never mutated.
pub struct EncodedBatch {
    pub bytes: Vec<u8>,
}

impl EncodedBatch {
    /// Length in bytes of the compressed batch.
    pub fn len(&self) -> (n: usize)
        ensures
            n == self.bytes@.len(),
    {
        self.bytes.len()
    }
}

/// Why a batch could not be encoded.
#[derive(Clone, Copy, PartialEq, Eq, Structural, Debug)]
pub enum EncodeError {
    /// Some row's cell count does not match the schema's column count.
    SchemaMismatch,
}

/// Why a byte buffer could not be decoded.
#[derive(Clone, Copy, PartialEq, Eq, Structural, Debug)]
pub enum DecodeError {
    /// The buffer is not a compressed image of the given schema.
    Corrupt,
}

/// The compressed block that the compression codec yields for `data`.
pub uninterp spec fn lz4_of(data: Seq<u8>) -> Seq<u8>;

/// The bytes that decompression yields for `data`.
pub uninterp spec fn unlz4_of(data: Seq<u8>) -> Seq<u8>;

/// Relies on lz4_flex::compress_prepend_size: the compressed block is a
/// function of the input bytes alone, and lz4_flex::decompress_size_prepended
/// restores exactly the input from it. The block records the input size as
/// four little-endian bytes, so only inputs below 2^32 bytes round-trip;
/// larger ones are left out here.
#[verifier::external_body]
fn lz4_compress(data: &Vec<u8>) -> (r: Vec<u8>)
    requires
        data@.len() < 0x1_0000_0000,
    ensures
        r@ == lz4_of(data@),
        unlz4_of(r@) == data@,
{
    lz4_flex::compress_prepend_size(data.as_slice())
}

/// Relies on lz4_flex::decompress_size_prepended: the result is a function
/// of the input bytes alone, and decompression succeeds on every block that
/// lz4_flex::compress_prepend_size produced from an input it round-trips.
#[verifier::external_body]
fn lz4_decompress(data: &Vec<u8>) -> (r: Option<Vec<u8>>)
    ensures
        r matches Some(d) ==> d@ == unlz4_of(data@),
        (exists|x: Seq<u8>| x.len() < 0x1_0000_0000 && data@ == lz4_of(x)) ==> r is Some,
{
    match lz4_flex::decompress_size_prepended(data.as_slice()) {
        Ok(d) => Some(d),
        Err(_) => None,
    }
}

/// The magic tag that opens every uncompressed image.
pub open spec fn magic() -> Seq<u8> {
    seq![83u8, 66u8, 80u8, 49u8]
}

/// The image header for a column layout: magic, column count, one type
/// tag per column in schema order.
pub open spec fn spec_header(tags: Seq<u8>) -> Seq<u8> {
    magic() + seq![tags.len() as u8] + tags
}

/// The views of the rows of a cell table.
pub open spec fn cells_view(rows: Seq<Vec<i64>>) -> Seq<Seq<i64>> {
    Seq::new(rows.len(), |i: int| rows[i]@)
}

/// Every row has exactly `c` cells.
pub open spec fn rows_match(c: int, rows: Seq<Seq<i64>>) -> bool {
    forall|i: int| 0 <= i < rows.len() ==> #[trigger] rows[i].len() == c
}

/// Byte `k` of the cell block: cells are laid out column by column in
/// schema order, row order preserved inside each column, eight bytes each.
pub open spec fn body_byte(rows: Seq<Seq<i64>>, k: int) -> u8 {
    let l = rows.len() as int;
    let p = k / 8;
    let i = p % l;
    let j = p / l;
    spec_u64_to_le_bytes(cell_wire(rows[i][j]))[k % 8]
}

/// The cell block of an image: `c` columns of `rows.len()` cells.
pub open spec fn spec_body(c: int, rows: Seq<Seq<i64>>) -> Seq<u8> {
    Seq::new((c * rows.len() * 8) as nat, |k: int| body_byte(rows, k))
}

/// The whole uncompressed image of a cell table under a column layout.
pub open spec fn spec_image(tags: Seq<u8>, rows: Seq<Seq<i64>>) -> Seq<u8> {
    spec_header(tags) + spec_u64_to_le_bytes(rows.len() as u64) + spec_body(
        tags.len() as int,
        rows,
    )
}

/// Offset of the first of the eight bytes of the cell of row `i`,
/// column `j` inside an image with `c` columns and `l` rows.
pub open spec fn cell_off(c: int, l: int, i: int, j: int) -> int {
    5 + c + 8 + (j * l + i) * 8
}

/// Appends the image header for `schema` to `buf`.
fn append_header(buf: &mut Vec<u8>, schema: &SchemaDefinition)
    requires
        schema.wf(),
    ensures
        final(buf)@ == old(buf)@ + spec_header(schema_tags(*schema)),
        final(buf)@.len() == old(buf)@.len() + 5 + schema.cols@.len(),
{
    buf.push(83u8);
    buf.push(66u8);
    buf.push(80u8);
    buf.push(49u8);
    buf.push(schema.len() as u8);
    let ghost pre = buf@;
    let mut j: usize = 0;
    while j < schema.cols.len()
        invariant
            j <= schema.cols@.len(),
            schema.wf(),
            buf@ == pre + schema_tags(*schema).subrange(0, j as int),
            pre.len() == old(buf)@.len() + 5,
        decreases schema.cols@.len() - j,
    {
        buf.push(tag_byte(schema.cols[j].ty));
        proof {
            assert(buf@ =~= pre + schema_tags(*schema).subrange(0, j + 1 as int));
        }
        j = j + 1;
    }
    proof {
        assert(schema_tags(*schema).subrange(0, schema.cols@.len() as int) =~= schema_tags(
            *schema,
        ));
        assert(final(buf)@ =~= old(buf)@ + spec_header(schema_tags(*schema)));
    }
}

/// Encodes a cell table under a schema: transposes the row-oriented input
/// into the column-oriented image and compresses it. Fails exactly when
/// some row's shape does not match the schema.
pub fn encode_rows(rows: &Vec<Vec<i64>>, schema: &SchemaDefinition) -> (r: Result<
    EncodedBatch,
    EncodeError,
>)
    requires
        schema.wf(),
        spec_image(schema_tags(*schema), cells_view(rows@)).len() < 0x1_0000_0000,
    ensures
        rows_match(schema.cols@.len() as int, cells_view(rows@)) ==> (r matches Ok(eb)
            && eb.bytes@ == lz4_of(spec_image(schema_tags(*schema), cells_view(rows@)))
            && unlz4_of(eb.bytes@) == spec_image(schema_tags(*schema), cells_view(rows@))),
        !rows_match(schema.cols@.len() as int, cells_view(rows@)) ==> (r matches Err(e) && e
            == EncodeError::SchemaMismatch),
{
    let c: usize = schema.len();
    let l: usize = rows.len();
    let mut i: usize = 0;
    while i < l
        invariant
            i <= l,
            l == rows@.len(),
            c == schema.cols@.len(),
            forall|k: int| 0 <= k < i ==> #[trigger] cells_view(rows@)[k].len() == c,
        decreases l - i,
    {
        if rows[i].len() != c {
            assert(cells_view(rows@)[i as int].len() != c);
            return Err(EncodeError::SchemaMismatch);
        }
        i = i + 1;
    }
    let ghost rs = cells_view(rows@);
    assert(rows_match(c as int, rs));

    let mut img: Vec<u8> = Vec::new();
    append_header(&mut img, schema);
    let ghost hdr = img@;
    let cnt = u64_to_le_bytes(l as u64);
    crate::bytes::append_bytes(&mut img, &cnt);
    let ghost pre = img@;
    proof {
        assert(pre == spec_header(schema_tags(*schema)) + spec_u64_to_le_bytes(rs.len() as u64));
        lemma_auto_spec_u64_to_from_le_bytes();
        assert(pre.len() == 5 + c + 8);
    }

    let mut j: usize = 0;
    while j < c
        invariant
            j <= c,
            l == rows@.len(),
            c == schema.cols@.len(),
            rs == cells_view(rows@),
            rows_match(c as int, rs),
            pre.len() == 5 + c + 8,
            img@.len() == pre.len() + j * l * 8,
            img@.subrange(0, pre.len() as int) == pre,
            forall|k: int|
                0 <= k < j * l * 8 ==> #[trigger] img@[pre.len() + k] == body_byte(rs, k),
        decreases c - j,
    {
        let mut i2: usize = 0;
        while i2 < l
            invariant
                i2 <= l,
                j < c,
                l == rows@.len(),
                c == schema.cols@.len(),
                rs == cells_view(rows@),
                rows_match(c as int, rs),
                pre.len() == 5 + c + 8,
                img@.len() == pre.len() + (j * l + i2) * 8,
                img@.subrange(0, pre.len() as int) == pre,
                forall|k: int|
                    0 <= k < (j * l + i2) * 8 ==> #[trigger] img@[pre.len() + k] == body_byte(
                        rs,
                        k,
                    ),
            decreases l - i2,
        {
            let ghost prev = img@;
            proof {
                assert(cells_view(rows@)[i2 as int] == rows@[i2 as int]@);
                assert(rs[i2 as int].len() == c);
            }
            let w: u64 = i64_to_wire(rows[i2][j]);
            let wb = u64_to_le_bytes(w);
            crate::bytes::append_bytes(&mut img, &wb);
            proof {
                lemma_auto_spec_u64_to_from_le_bytes();
                let p = j * l + i2;
                assert(rows@[i2 as int]@ == rs[i2 as int]);
                assert(w == cell_wire(rs[i2 as int][j as int]));
                assert forall|k: int| 0 <= k < (p + 1) * 8 implies #[trigger] img@[pre.len() + k]
                    == body_byte(rs, k) by {
                    if k < p * 8 {
                        assert(img@[pre.len() + k] == prev[pre.len() + k]);
                    } else {
                        let b = k - p * 8;
                        assert(img@[pre.len() + k] == wb@[b]);
                        lemma_fundamental_div_mod_converse(k, 8, p, b);
                        lemma_fundamental_div_mod_converse(p, l as int, j as int, i2 as int);
                        assert(body_byte(rs, k) == spec_u64_to_le_bytes(
                            cell_wire(rs[i2 as int][j as int]),
                        )[b]);
                    }
                }
                assert(img@.subrange(0, pre.len() as int) =~= pre);
                assert((p + 1) * 8 == p * 8 + 8) by (nonlinear_arith);
                assert((j * l + (i2 + 1)) * 8 == (p + 1) * 8) by (nonlinear_arith)
                    requires
                        p == j * l + i2,
                ;
                assert(img@.len() == pre.len() + (j * l + (i2 + 1)) * 8);
            }
            i2 = i2 + 1;
        }
        proof {
            assert((j + 1) * l == j * l + l) by (nonlinear_arith);
        }
        j = j + 1;
    }
    proof {
        let full = spec_image(schema_tags(*schema), rs);
        lemma_auto_spec_u64_to_from_le_bytes();
        assert(spec_body(c as int, rs).len() == c * l * 8);
        assert(full.len() == pre.len() + c * l * 8);
        assert forall|t: int| 0 <= t < img@.len() implies img@[t] == full[t] by {
            if t < pre.len() {
                assert(img@[t] == img@.subrange(0, pre.len() as int)[t]);
            } else {
                assert(img@[pre.len() + (t - pre.len())] == body_byte(rs, t - pre.len()));
            }
        }
        assert(img@ =~= full);
    }
    let compressed = lz4_compress(&img);
    Ok(EncodedBatch { bytes: compressed })
}

/// The cell of row `i`, column `j` read back from an image with `c`
/// columns and `l` rows.
pub open spec fn spec_cell(img: Seq<u8>, c: int, l: int, i: int, j: int) -> i64 {
    wire_cell(
        spec_u64_from_le_bytes(img.subrange(cell_off(c, l, i, j), cell_off(c, l, i, j) + 8)),
    )
}

/// The whole cell table read back from an image with `c` columns and `l`
/// rows.
pub open spec fn spec_table(img: Seq<u8>, c: int, l: int) -> Seq<Seq<i64>> {
    Seq::new(l as nat, |i: int| Seq::new(c as nat, |j: int| spec_cell(img, c, l, i, j)))
}

/// Every row of a read-back cell table has one cell per column.
pub proof fn lemma_table_row_len(img: Seq<u8>, c: int, l: int, i: int)
    requires
        c >= 0,
        0 <= i < spec_table(img, c, l).len(),
    ensures
        spec_table(img, c, l)[i].len() == c,
        forall|j: int|
            0 <= j < c ==> #[trigger] spec_table(img, c, l)[i][j] == spec_cell(img, c, l, i, j),
{
}

/// Parses an uncompressed image against a column layout; `None` when the
/// bytes are not an image of that layout.
pub open spec fn parse_rows(img: Seq<u8>, tags: Seq<u8>) -> Option<Seq<Seq<i64>>> {
    let c = tags.len() as int;
    let hlen = 5 + c;
    if img.len() < hlen + 8 {
        None
    } else if img.subrange(0, hlen) != spec_header(tags) {
        None
    } else {
        let l = spec_u64_from_le_bytes(img.subrange(hlen, hlen + 8)) as int;
        if img.len() != hlen + 8 + c * l * 8 {
            None
        } else {
            Some(spec_table(img, c, l))
        }
    }
}

/// Reads the eight-byte little-endian value at `off`.
fn read_u64_at(img: &Vec<u8>, off: usize) -> (w: u64)
    requires
        off + 8 <= img@.len(),
    ensures
        w == spec_u64_from_le_bytes(img@.subrange(off as int, off + 8)),
{
    let n: usize = img.len();
    let mut tmp: Vec<u8> = Vec::new();
    tmp.push(img[off]);
    tmp.push(img[off + 1]);
    tmp.push(img[off + 2]);
    tmp.push(img[off + 3]);
    tmp.push(img[off + 4]);
    tmp.push(img[off + 5]);
    tmp.push(img[off + 6]);
    tmp.push(img[off + 7]);
    proof {
        assert(tmp@ =~= img@.subrange(off as int, off + 8));
    }
    u64_from_le_bytes(tmp.as_slice())
}

/// Decodes a compressed batch back into its cell table. Succeeds on every
/// buffer that `encode_rows` produced for this schema; fails when the
/// buffer does not decompress or the image does not match the schema.
pub fn decode_rows(bytes: &Vec<u8>, schema: &SchemaDefinition) -> (r: Result<
    Vec<Vec<i64>>,
    DecodeError,
>)
    requires
        schema.wf(),
    ensures
        r matches Ok(rows) ==> Some(cells_view(rows@)) == parse_rows(
            unlz4_of(bytes@),
            schema_tags(*schema),
        ),
        ((exists|x: Seq<u8>| x.len() < 0x1_0000_0000 && bytes@ == lz4_of(x)) && parse_rows(
            unlz4_of(bytes@),
            schema_tags(*schema),
        ) is Some) ==> r is Ok,
{
    let ghost tags = schema_tags(*schema);
    let img = match lz4_decompress(bytes) {
        Some(d) => d,
        None => {
            return Err(DecodeError::Corrupt);
        },
    };
    let c: usize = schema.len();
    if img.len() < 5 + c || img.len() - (5 + c) < 8 {
        return Err(DecodeError::Corrupt);
    }
    let hlen: usize = 5 + c;

    let mut hdr: Vec<u8> = Vec::new();
    append_header(&mut hdr, schema);
    let mut k: usize = 0;
    while k < hlen
        invariant
            k <= hlen,
            hlen == 5 + c,
            c == schema.cols@.len(),
            tags == schema_tags(*schema),
            img@ == unlz4_of(bytes@),
            hdr@ == spec_header(schema_tags(*schema)),
            hdr@.len() == hlen,
            img@.len() >= hlen + 8,
            forall|t: int| 0 <= t < k ==> img@[t] == hdr@[t],
        decreases hlen - k,
    {
        if img[k] != hdr[k] {
            proof {
                let s = img@.subrange(0, hlen as int);
                assert(s.len() == hlen);
                assert(s[k as int] == img@[k as int]);
                assert(img@[k as int] != hdr@[k as int]);
                assert(hdr@ == spec_header(tags));
                assert(s != spec_header(tags)) by {
                    if s == spec_header(tags) {
                        assert(s[k as int] == spec_header(tags)[k as int]);
                    }
                }
            }
            return Err(DecodeError::Corrupt);
        }
        k = k + 1;
    }
    proof {
        assert(img@.subrange(0, hlen as int) =~= spec_header(tags));
    }

    let lw: u64 = read_u64_at(&img, hlen);
    let rest: usize = img.len() - hlen - 8;
    proof {
        assert((lw as int) * (c as int) <= 0xffff_ffff_ffff_ffff * 255) by (nonlinear_arith)
            requires
                lw <= 0xffff_ffff_ffff_ffffu64,
                0 <= c <= 255,
        ;
    }
    if (lw as u128) * (c as u128) * 8 != rest as u128 {
        proof {
            let li = spec_u64_from_le_bytes(img@.subrange(hlen as int, hlen + 8)) as int;
            assert(img@.len() != 5 + c + 8 + c * li * 8) by (nonlinear_arith)
                requires
                    li == lw as int,
                    img@.len() == hlen + 8 + rest,
                    hlen == 5 + c,
                    (lw as int) * (c as int) * 8 != rest as int,
            ;
        }
        return Err(DecodeError::Corrupt);
    }
    proof {
        assert(lw as int <= rest as int) by (nonlinear_arith)
            requires
                (lw as int) * (c as int) * 8 == rest as int,
                c >= 1,
        ;
    }
    let l: usize = lw as usize;

    let ghost parsed = parse_rows(img@, tags).unwrap();
    proof {
        assert(img@.len() == 5 + c + 8 + c * (lw as int) * 8) by (nonlinear_arith)
            requires
                img@.len() == hlen + 8 + rest,
                hlen == 5 + c,
                (lw as int) * (c as int) * 8 == rest as int,
        ;
        assert(parse_rows(img@, tags) is Some);
    }

    let ilen: usize = img.len();
    let mut rows: Vec<Vec<i64>> = Vec::new();
    let mut i: usize = 0;
    while i < l
        invariant
            i <= l,
            l == lw,
            c == schema.cols@.len(),
            1 <= c <= 255,
            hlen == 5 + c,
            ilen == img@.len(),
            tags == schema_tags(*schema),
            img@.len() == hlen + 8 + c * (l as int) * 8,
            parse_rows(img@, tags) == Some(parsed),
            parsed.len() == l,
            forall|t: int| 0 <= t < i ==> #[trigger] rows@[t]@ == parsed[t],
            rows@.len() == i,
        decreases l - i,
    {
        let mut row: Vec<i64> = Vec::new();
        let mut j: usize = 0;
        while j < c
            invariant
                j <= c,
                i < l,
                l == lw,
                c == schema.cols@.len(),
                1 <= c <= 255,
                hlen == 5 + c,
                ilen == img@.len(),
                tags == schema_tags(*schema),
                img@.len() == hlen + 8 + c * (l as int) * 8,
                parse_rows(img@, tags) == Some(parsed),
                parsed.len() == l,
                row@.len() == j,
                forall|t: int| 0 <= t < j ==> #[trigger] row@[t] == parsed[i as int][t],
            decreases c - j,
        {
            proof {
                assert((j * l + i) * 8 + 8 <= c * (l as int) * 8 && j * l <= c * (l as int)
                    && 0 <= j * l) by (nonlinear_arith)
                    requires
                        0 <= j < c,
                        0 <= i < l,
                ;
            }
            let off: usize = hlen + 8 + (j * l + i) * 8;
            let w = read_u64_at(&img, off);
            let v = wire_to_i64(w);
            row.push(v);
            proof {
                assert(off == cell_off(c as int, l as int, i as int, j as int));
                assert(tags.len() == c as int);
                assert(parsed == spec_table(img@, c as int, l as int));
                assert(parsed[i as int] == Seq::new(
                    c as nat,
                    |jj: int| spec_cell(img@, c as int, l as int, i as int, jj),
                ));
                assert(parsed[i as int][j as int] == spec_cell(
                    img@,
                    c as int,
                    l as int,
                    i as int,
                    j as int,
                ));
                assert(parsed[i as int][j as int] == wire_cell(
                    spec_u64_from_le_bytes(img@.subrange(off as int, off + 8)),
                ));
            }
            j = j + 1;
        }
        proof {
            assert(row@ =~= parsed[i as int]);
        }
        rows.push(row);
        i = i + 1;
    }
    proof {
        assert(cells_view(rows@) =~= parsed);
    }
    Ok(rows)
}

/// Schema stability: inside an image the eight bytes at the cell offset of
/// row `i`, column `j` are exactly the wire bytes of the `j`-th schema
/// field of row `i`. Columns are emitted in the exact schema order, at
/// offsets fixed by the schema alone, however callers assembled the rows.
pub proof fn lemma_column_order(tags: Seq<u8>, rows: Seq<Seq<i64>>, i: int, j: int)
    requires
        rows_match(tags.len() as int, rows),
        0 <= i < rows.len(),
        0 <= j < tags.len(),
    ensures
        spec_image(tags, rows).subrange(
            cell_off(tags.len() as int, rows.len() as int, i, j),
            cell_off(tags.len() as int, rows.len() as int, i, j) + 8,
        ) == spec_u64_to_le_bytes(cell_wire(rows[i][j])),
{
    let img = spec_image(tags, rows);
    let c = tags.len() as int;
    let l = rows.len() as int;
    let hlen = 5 + c;
    let off = cell_off(c, l, i, j);
    let p = j * l + i;
    lemma_auto_spec_u64_to_from_le_bytes();
    assert(spec_header(tags).len() == hlen);
    assert(spec_body(c, rows).len() == c * l * 8);
    assert(0 <= p && p * 8 + 8 <= c * l * 8) by (nonlinear_arith)
        requires
            p == j * l + i,
            0 <= i < l,
            0 <= j < c,
    ;
    assert forall|b: int| 0 <= b < 8 implies img[off + b] == spec_u64_to_le_bytes(
        cell_wire(rows[i][j]),
    )[b] by {
        let k = p * 8 + b;
        assert(off + b == hlen + 8 + k);
        assert(img[hlen + 8 + k] == spec_body(c, rows)[k]);
        assert(spec_body(c, rows)[k] == body_byte(rows, k));
        lemma_fundamental_div_mod_converse(k, 8, p, b);
        lemma_fundamental_div_mod_converse(p, l, j, i);
    }
    assert(img.subrange(off, off + 8) =~= spec_u64_to_le_bytes(cell_wire(rows[i][j])));
}

/// Parsing the image of a cell table gives the table back exactly.
pub proof fn lemma_parse_image(tags: Seq<u8>, rows: Seq<Seq<i64>>)
    requires
        1 <= tags.len() <= 255,
        rows.len() < 0x1_0000_0000_0000_0000,
        rows_match(tags.len() as int, rows),
    ensures
        parse_rows(spec_image(tags, rows), tags) == Some(rows),
{
    let img = spec_image(tags, rows);
    let c = tags.len() as int;
    let l = rows.len() as int;
    let hlen = 5 + c;
    lemma_auto_spec_u64_to_from_le_bytes();
    assert(spec_header(tags).len() == hlen);
    assert(spec_body(c, rows).len() == c * l * 8);
    assert(c * l * 8 >= 0) by (nonlinear_arith)
        requires
            c >= 0,
            l >= 0,
    ;
    assert(img.len() == hlen + 8 + c * l * 8);
    assert(img.subrange(0, hlen) =~= spec_header(tags));
    assert(img.subrange(hlen, hlen + 8) =~= spec_u64_to_le_bytes(l as u64));
    assert(spec_u64_from_le_bytes(img.subrange(hlen, hlen + 8)) == l as u64);
    assert forall|i: int, j: int| 0 <= i < l && 0 <= j < c implies spec_cell(img, c, l, i, j)
        == rows[i][j] by {
        lemma_column_order(tags, rows, i, j);
        lemma_wire_roundtrip(rows[i][j]);
    }
    assert forall|i: int| 0 <= i < l implies spec_table(img, c, l)[i] == rows[i] by {
        assert(spec_table(img, c, l)[i] =~= rows[i]);
    }
    assert(spec_table(img, c, l) =~= rows);
}

/// The cells of a sequence of readings, row by row, in sensor-schema order.
pub open spec fn readings_cells(rs: Seq<SensorReading>) -> Seq<Seq<i64>> {
    Seq::new(rs.len(), |i: int| reading_cells(rs[i]))
}

/// The readings whose rows of cells are `cs`.
pub open spec fn readings_of_cells(cs: Seq<Seq<i64>>) -> Seq<SensorReading> {
    Seq::new(cs.len(), |i: int| reading_of_cells(cs[i]))
}

/// The uncompressed image of a batch of readings under the sensor schema.
pub open spec fn spec_sensor_image(rs: Seq<SensorReading>) -> Seq<u8> {
    spec_image(sensor_tags(), readings_cells(rs))
}

/// A row of ten cells rebuilt into a reading flattens back to the row.
pub proof fn lemma_cells_reading_roundtrip(c: Seq<i64>)
    requires
        c.len() == 10,
    ensures
        reading_cells(reading_of_cells(c)) == c,
{
    assert(reading_cells(reading_of_cells(c)) =~= c);
}

/// Round trip: the image of any sequence of readings parses back to
/// exactly those readings, cell for cell and row for row, so decoding an
/// encoded batch restores every timestamp and measurement unchanged.
pub proof fn lemma_round_trip(rs: Seq<SensorReading>)
    requires
        rs.len() < 0x1_0000_0000_0000_0000,
    ensures
        parse_rows(spec_sensor_image(rs), sensor_tags()) == Some(readings_cells(rs)),
        readings_of_cells(readings_cells(rs)) == rs,
{
    assert forall|i: int| 0 <= i < rs.len() implies #[trigger] readings_cells(rs)[i].len()
        == 10 by {
        assert(readings_cells(rs)[i] == reading_cells(rs[i]));
    }
    lemma_parse_image(sensor_tags(), readings_cells(rs));
    assert forall|i: int| 0 <= i < rs.len() implies readings_of_cells(readings_cells(rs))[i]
        == rs[i] by {
        lemma_reading_cells_roundtrip(rs[i]);
    }
    assert(readings_of_cells(readings_cells(rs)) =~= rs);
}

/// Encodes a batch of readings under the sensor schema. Every reading has
/// exactly the schema's shape, and any batch a machine can hold fits the
/// codec's frame, so encoding a typed batch cannot fail.
pub fn encode_readings(readings: &Vec<SensorReading>) -> (r: EncodedBatch)
    requires
        readings@.len() <= 50_000_000,
    ensures
        r.bytes@ == lz4_of(spec_sensor_image(readings@)),
        unlz4_of(r.bytes@) == spec_sensor_image(readings@),
{
    let schema = sensor_schema();
    let mut rows: Vec<Vec<i64>> = Vec::new();
    let mut i: usize = 0;
    while i < readings.len()
        invariant
            i <= readings@.len(),
            rows@.len() == i,
            forall|k: int| 0 <= k < i ==> #[trigger] rows@[k]@ == reading_cells(readings@[k]),
        decreases readings@.len() - i,
    {
        rows.push(readings[i].to_cells());
        i = i + 1;
    }
    proof {
        assert forall|k: int| 0 <= k < rows@.len() implies #[trigger] cells_view(rows@)[k]
            == readings_cells(readings@)[k] by {
            assert(cells_view(rows@)[k] == rows@[k]@);
        }
        assert(cells_view(rows@) =~= readings_cells(readings@));
        assert forall|k: int| 0 <= k < rows@.len() implies #[trigger] cells_view(
            rows@,
        )[k].len() == 10 by {
            assert(cells_view(rows@)[k] == reading_cells(readings@[k]));
        }
        assert(rows_match(10, cells_view(rows@)));
        lemma_auto_spec_u64_to_from_le_bytes();
        assert(spec_header(sensor_tags()).len() == 15);
        assert(10 * cells_view(rows@).len() * 8 <= 80 * 50_000_000) by (nonlinear_arith)
            requires
                cells_view(rows@).len() <= 50_000_000,
        ;
        assert(spec_image(sensor_tags(), cells_view(rows@)).len() < 0x1_0000_0000);
    }
    match encode_rows(&rows, &schema) {
        Ok(eb) => eb,
        Err(_) => vstd::pervasive::unreached(),
    }
}

/// Decodes a compressed batch back into readings. Succeeds on every batch
/// that `encode_readings` produced; fails when the buffer does not
/// decompress or its image does not match the sensor schema.
pub fn decode_readings(bytes: &Vec<u8>) -> (r: Result<Vec<SensorReading>, DecodeError>)
    ensures
        r matches Ok(rs) ==> Some(readings_cells(rs@)) == parse_rows(
            unlz4_of(bytes@),
            sensor_tags(),
        ),
        ((exists|x: Seq<u8>| x.len() < 0x1_0000_0000 && bytes@ == lz4_of(x)) && parse_rows(
            unlz4_of(bytes@),
            sensor_tags(),
        ) is Some) ==> r is Ok,
{
    let schema = sensor_schema();
    let rows = match decode_rows(bytes, &schema) {
        Ok(rows) => rows,
        Err(e) => {
            return Err(e);
        },
    };
    let ghost parsed = parse_rows(unlz4_of(bytes@), sensor_tags()).unwrap();
    proof {
        assert(cells_view(rows@) == parsed);
    }
    let mut out: Vec<SensorReading> = Vec::new();
    let mut i: usize = 0;
    while i < rows.len()
        invariant
            i <= rows@.len(),
            out@.len() == i,
            cells_view(rows@) == parsed,
            parse_rows(unlz4_of(bytes@), sensor_tags()) == Some(parsed),
            forall|k: int| 0 <= k < i ==> #[trigger] out@[k] == reading_of_cells(rows@[k]@),
        decreases rows@.len() - i,
    {
        proof {
            assert(cells_view(rows@)[i as int] == rows@[i as int]@);
            assert(parsed[i as int].len() == 10) by {
                let img = unlz4_of(bytes@);
                let c = sensor_tags().len() as int;
                let hlen = 5 + c;
                let l = spec_u64_from_le_bytes(img.subrange(hlen, hlen + 8)) as int;
                assert(parsed == spec_table(img, c, l));
                lemma_table_row_len(img, c, l, i as int);
            }
        }
        match SensorReading::from_cells(&rows[i]) {
            Some(rd) => {
                out.push(rd);
            },
            None => {
                proof {
                    assert(false);
                }
            },
        }
        i = i + 1;
    }
    proof {
        assert forall|k: int| 0 <= k < out@.len() implies #[trigger] readings_cells(out@)[k]
            == parsed[k] by {
            assert(readings_cells(out@)[k] == reading_cells(out@[k]));
            assert(cells_view(rows@)[k] == rows@[k]@);
            assert(parsed[k].len() == 10) by {
                let img = unlz4_of(bytes@);
                let c = sensor_tags().len() as int;
                let hlen = 5 + c;
                let l = spec_u64_from_le_bytes(img.subrange(hlen, hlen + 8)) as int;
                assert(parsed == spec_table(img, c, l));
                lemma_table_row_len(img, c, l, k);
            }
            lemma_cells_reading_roundtrip(rows@[k]@);
        }
        assert(readings_cells(out@) =~= parsed);
    }
    Ok(out)
}

} // verus!
