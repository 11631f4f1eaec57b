//! The transfer buffer: prefetch sizing from the arena budget and the
//! table's row width, the shared read/write column layout over the arena,
//! the width-overflow scan, and the reader, writer and large-object
//! processor driving one table's rows.

use vstd::prelude::*;
use vstd::arithmetic::div_mod::lemma_fundamental_div_mod;
use vstd::arithmetic::mul::lemma_mul_inequality;
use crate::oracle::common::OCIDataType;
use crate::oracle::errors::OracleError;
use crate::oracle::lob::LobDescriptor;
use crate::oracle::lob::copy_pieces;
use crate::oracle::lob::lob_copy;
use crate::table::ColumnInfo;
use crate::table::ColumnType;
use crate::table::TableInfo;

verus! {

/// A column whose value bypasses the shared row buffer.
pub open spec fn is_lob_col(c: ColumnInfo) -> bool {
    c.col_type == ColumnType::Blob || c.col_type == ColumnType::Clob
}

/// The table's per-row transfer width: the sum of its columns' buffer
/// lengths.
pub open spec fn row_width(cols: Seq<ColumnInfo>) -> int
    decreases cols.len(),
{
    if cols.len() == 0 {
        0
    } else {
        row_width(cols.drop_last()) + cols.last().buffer_len
    }
}

/// The buffer width of the non-large-object columns before column `i`.
pub open spec fn nonlob_width_before(cols: Seq<ColumnInfo>, i: int) -> int
    decreases i,
{
    if i <= 0 || i > cols.len() {
        0
    } else if is_lob_col(cols[i - 1]) {
        nonlob_width_before(cols, i - 1)
    } else {
        nonlob_width_before(cols, i - 1) + cols[i - 1].buffer_len
    }
}

/// How many non-large-object columns stand before column `i`.
pub open spec fn nonlob_count_before(cols: Seq<ColumnInfo>, i: int) -> int
    decreases i,
{
    if i <= 0 || i > cols.len() {
        0
    } else if is_lob_col(cols[i - 1]) {
        nonlob_count_before(cols, i - 1)
    } else {
        nonlob_count_before(cols, i - 1) + 1
    }
}

/// The transfer arena's budgets: a byte budget for row values and an
/// entry budget for the indicator and actual-length arrays, one sixteenth
/// of the byte budget.
pub struct LoadBuffer {
    pub values_size: u32,
    pub indicators_size: u32,
}

/// One column's place in the shared layout: the same cell region is the
/// fetch destination on the source side and the insert source on the
/// destination side.
#[derive(Clone, Copy, Debug, PartialEq, Eq, Structural)]
pub struct ColumnBinding {
    pub position: usize,
    pub value_offset: u64,
    pub indicator_offset: u64,
    pub length_offset: u64,
    pub buffer_len: u32,
    pub data_type: OCIDataType,
    pub is_lob: bool,
    pub needs_charset: bool,
}

impl LoadBuffer {
    /// Splits a byte budget into the value arena and the indicator-array
    /// budget.
    pub fn new(buffer_size: u32) -> (r: LoadBuffer)
        ensures
            r.values_size == buffer_size,
            r.indicators_size == buffer_size / 16,
    {
        LoadBuffer { values_size: buffer_size, indicators_size: buffer_size / 16 }
    }

    /// How many rows one fetch round-trip batches: the smaller of what the
    /// indicator budget allows per column and what the value budget allows
    /// per row, but always at least one row, so a fetch round-trip always
    /// makes progress; tables with large-object columns always go one row
    /// at a time.
    pub fn get_prefetch_rows(&self, table_info: &TableInfo) -> (r: u32)
        requires
            table_info.columns@.len() < 0x1_0000_0000,
            !table_info.has_blob ==> {
                &&& table_info.columns@.len() > 0
                &&& row_width(table_info.columns@) > 0
                &&& self.indicators_size as int / table_info.columns@.len() as int >= 1
                &&& self.values_size as int / row_width(table_info.columns@) >= 1
            },
        ensures
            r >= 1,
            table_info.has_blob ==> r == 1,
            !table_info.has_blob ==> r as int == vstd::math::max(
                1,
                vstd::math::min(
                    self.indicators_size as int / table_info.columns@.len() as int - 1,
                    self.values_size as int / row_width(table_info.columns@) - 1,
                ),
            ),
    {
        if table_info.has_blob {
            return 1;
        }
        let cols: u64 = table_info.columns.len() as u64;
        let mut width: u64 = 0;
        let mut i: usize = 0;
        while i < table_info.columns.len()
            invariant
                i <= table_info.columns@.len(),
                table_info.columns@.len() < 0x1_0000_0000,
                width == row_width(table_info.columns@.take(i as int)),
                width <= i * 0x1_0000_0000,
            decreases table_info.columns@.len() - i,
        {
            proof {
                assert(table_info.columns@.take(i + 1 as int).drop_last() =~= table_info.columns@
                    .take(i as int));
                assert((i + 1) * 0x1_0000_0000 == i * 0x1_0000_0000 + 0x1_0000_0000)
                    by (nonlinear_arith);
                lemma_mul_inequality(i + 1, 0x1_0000_0000, 0x1_0000_0000);
            }
            width = width + (table_info.columns[i].buffer_len as u64);
            i = i + 1;
        }
        proof {
            assert(table_info.columns@.take(table_info.columns@.len() as int) =~= table_info
                .columns@);
        }
        let max_indic_rows: u64 = (self.indicators_size as u64) / cols - 1;
        let max_area_rows: u64 = (self.values_size as u64) / width - 1;
        let r64: u64 = if max_indic_rows < max_area_rows {
            max_indic_rows
        } else {
            max_area_rows
        };
        if r64 == 0 {
            1
        } else {
            r64 as u32
        }
    }
}

/// Prefetch sizing: the batch row count is at least one, and whenever
/// each budget covers two units it also stays inside both budgets — the
/// count times the row width fits the value budget and the count times
/// the column count fits the indicator budget.  (With a budget under one
/// row the count is still one, so a fetch always makes progress, at the
/// price of exceeding that degenerate budget.)
pub proof fn lemma_prefetch_sizing(
    values_size: int,
    indicators_size: int,
    cols: int,
    row: int,
    n: int,
)
    requires
        cols > 0,
        row > 0,
        indicators_size / cols >= 2,
        values_size / row >= 2,
        n == vstd::math::max(
            1,
            vstd::math::min(indicators_size / cols - 1, values_size / row - 1),
        ),
    ensures
        n >= 1,
        n * row <= values_size,
        n * cols <= indicators_size,
{
    lemma_fundamental_div_mod(values_size, row);
    lemma_fundamental_div_mod(indicators_size, cols);
    let qv = values_size / row;
    let qi = indicators_size / cols;
    lemma_mul_inequality(n, qv - 1, row);
    lemma_mul_inequality(n, qi - 1, cols);
    assert((qv - 1) * row == qv * row - row) by (nonlinear_arith);
    assert((qi - 1) * cols == qi * cols - cols) by (nonlinear_arith);
}

/// Lays the table's columns out over the shared arena for one batch size:
/// every non-large-object column gets a value region, an indicator run and
/// an actual-length run; large-object columns get only the indicator run,
/// their values travelling out of band.  Character columns are marked for
/// the destination character set.
pub fn bind_layout(table_info: &TableInfo, prefetch_rows: u32) -> (r: Vec<ColumnBinding>)
    requires
        row_width(table_info.columns@) * prefetch_rows <= u64::MAX,
        table_info.columns@.len() * prefetch_rows <= u64::MAX,
    ensures
        r@.len() == table_info.columns@.len(),
        forall|i: int|
            0 <= i < r@.len() ==> {
                let c = table_info.columns@[i];
                let b = #[trigger] r@[i];
                &&& b.position == i + 1
                &&& b.is_lob == is_lob_col(c)
                &&& b.data_type == c.oci_data_type
                &&& b.buffer_len == c.buffer_len
                &&& b.needs_charset == (c.col_type == ColumnType::Varchar || c.col_type
                    == ColumnType::Long)
                &&& b.indicator_offset == i * prefetch_rows
                &&& (!b.is_lob ==> b.value_offset == nonlob_width_before(table_info.columns@, i)
                    * prefetch_rows)
                &&& (!b.is_lob ==> b.length_offset == nonlob_count_before(table_info.columns@, i)
                    * prefetch_rows)
            },
{
    let mut r: Vec<ColumnBinding> = Vec::new();
    let mut offset: u64 = 0;
    let mut offset_i: u64 = 0;
    let mut offset_s: u64 = 0;
    let mut i: usize = 0;
    proof {
        lemma_row_width_take(table_info.columns@, 0);
    }
    while i < table_info.columns.len()
        invariant
            i <= table_info.columns@.len(),
            r@.len() == i,
            row_width(table_info.columns@) * prefetch_rows <= u64::MAX,
            table_info.columns@.len() * prefetch_rows <= u64::MAX,
            offset == nonlob_width_before(table_info.columns@, i as int) * prefetch_rows,
            offset_i == i * prefetch_rows,
            offset_s == nonlob_count_before(table_info.columns@, i as int) * prefetch_rows,
            nonlob_width_before(table_info.columns@, i as int) <= row_width(
                table_info.columns@,
            ),
            nonlob_count_before(table_info.columns@, i as int) <= i,
            forall|j: int|
                0 <= j < i ==> {
                    let c = table_info.columns@[j];
                    let b = #[trigger] r@[j];
                    &&& b.position == j + 1
                    &&& b.is_lob == is_lob_col(c)
                    &&& b.data_type == c.oci_data_type
                    &&& b.buffer_len == c.buffer_len
                    &&& b.needs_charset == (c.col_type == ColumnType::Varchar || c.col_type
                        == ColumnType::Long)
                    &&& b.indicator_offset == j * prefetch_rows
                    &&& (!b.is_lob ==> b.value_offset == nonlob_width_before(
                        table_info.columns@,
                        j,
                    ) * prefetch_rows)
                    &&& (!b.is_lob ==> b.length_offset == nonlob_count_before(
                        table_info.columns@,
                        j,
                    ) * prefetch_rows)
                },
        decreases table_info.columns@.len() - i,
    {
        let c = &table_info.columns[i];
        let lob = c.col_type == ColumnType::Blob || c.col_type == ColumnType::Clob;
        let needs_charset = c.col_type == ColumnType::Varchar || c.col_type == ColumnType::Long;
        let b = ColumnBinding {
            position: i + 1,
            value_offset: offset,
            indicator_offset: offset_i,
            length_offset: offset_s,
            buffer_len: c.buffer_len,
            data_type: c.oci_data_type,
            is_lob: lob,
            needs_charset,
        };
        r.push(b);
        proof {
            lemma_nonlob_width_bound(table_info.columns@, i + 1);
            lemma_mul_inequality(
                nonlob_width_before(table_info.columns@, i + 1),
                row_width(table_info.columns@),
                prefetch_rows as int,
            );
            lemma_mul_inequality(
                i + 1,
                table_info.columns@.len() as int,
                prefetch_rows as int,
            );
            assert((nonlob_width_before(table_info.columns@, i as int) + c.buffer_len)
                * prefetch_rows == nonlob_width_before(table_info.columns@, i as int)
                * prefetch_rows + c.buffer_len * prefetch_rows) by (nonlinear_arith);
            assert((i + 1) * prefetch_rows == i * prefetch_rows + prefetch_rows)
                by (nonlinear_arith);
            assert((nonlob_count_before(table_info.columns@, i as int) + 1) * prefetch_rows
                == nonlob_count_before(table_info.columns@, i as int) * prefetch_rows
                + prefetch_rows) by (nonlinear_arith);
            lemma_mul_inequality(
                nonlob_count_before(table_info.columns@, i as int) + 1,
                table_info.columns@.len() as int,
                prefetch_rows as int,
            );
        }
        if !lob {
            offset = offset + (c.buffer_len as u64) * (prefetch_rows as u64);
            offset_s = offset_s + (prefetch_rows as u64);
        }
        offset_i = offset_i + (prefetch_rows as u64);
        i = i + 1;
    }
    r
}

/// The whole layout stays inside the arena budgets: for a batch size
/// within both budgets, every column's value region ends within the value
/// arena and every indicator run ends within the indicator array — the
/// bounds are validated once, at layout time, not at every access.
pub proof fn lemma_layout_fits(
    cols: Seq<ColumnInfo>,
    prefetch_rows: u32,
    values_size: int,
    indicators_size: int,
)
    requires
        row_width(cols) * prefetch_rows <= values_size,
        cols.len() * prefetch_rows <= indicators_size,
    ensures
        forall|i: int|
            0 <= i < cols.len() && !is_lob_col(#[trigger] cols[i]) ==> nonlob_width_before(cols, i)
                * prefetch_rows + cols[i].buffer_len * prefetch_rows <= values_size,
        forall|i: int|
            0 <= i < cols.len() ==> #[trigger] indicator_extent(i, prefetch_rows)
                <= indicators_size,
{
    assert forall|i: int|
        0 <= i < cols.len() && !is_lob_col(#[trigger] cols[i]) implies nonlob_width_before(cols, i)
        * prefetch_rows + cols[i].buffer_len * prefetch_rows <= values_size by {
        lemma_nonlob_width_bound(cols, i + 1);
        assert(nonlob_width_before(cols, i + 1) == nonlob_width_before(cols, i)
            + cols[i].buffer_len);
        lemma_mul_inequality(nonlob_width_before(cols, i + 1), row_width(cols), prefetch_rows as int);
        assert(nonlob_width_before(cols, i + 1) * prefetch_rows == nonlob_width_before(cols, i)
            * prefetch_rows + cols[i].buffer_len * prefetch_rows) by (nonlinear_arith)
            requires
                nonlob_width_before(cols, i + 1) == nonlob_width_before(cols, i)
                    + cols[i].buffer_len,
        ;
    }
    assert forall|i: int|
        0 <= i < cols.len() implies #[trigger] indicator_extent(i, prefetch_rows)
        <= indicators_size by {
        lemma_mul_inequality(i + 1, cols.len() as int, prefetch_rows as int);
        assert((i + 1) * prefetch_rows == i * prefetch_rows + prefetch_rows) by (nonlinear_arith);
    }
}

/// Where a column's indicator run ends within the indicator array.
pub open spec fn indicator_extent(i: int, prefetch_rows: u32) -> int {
    i * prefetch_rows + prefetch_rows
}

/// The non-large-object width of a prefix never exceeds the full row
/// width.
proof fn lemma_nonlob_width_bound(cols: Seq<ColumnInfo>, i: int)
    requires
        0 <= i <= cols.len(),
    ensures
        0 <= nonlob_width_before(cols, i) <= row_width(cols),
        0 <= nonlob_count_before(cols, i) <= i,
    decreases cols.len() - i,
{
    lemma_width_mono(cols, i);
    lemma_count_bound(cols, i);
}

/// The non-large-object count grows with the prefix.
proof fn lemma_count_mono(cols: Seq<ColumnInfo>, a: int, b: int)
    requires
        0 <= a <= b <= cols.len(),
    ensures
        nonlob_count_before(cols, a) <= nonlob_count_before(cols, b),
    decreases b - a,
{
    if a < b {
        lemma_count_mono(cols, a, b - 1);
    }
}

proof fn lemma_width_mono(cols: Seq<ColumnInfo>, i: int)
    requires
        0 <= i <= cols.len(),
    ensures
        0 <= nonlob_width_before(cols, i) <= row_width(cols.take(i)),
        row_width(cols.take(i)) <= row_width(cols),
    decreases i + cols.len(),
{
    if i > 0 {
        lemma_width_mono(cols, i - 1);
        assert(cols.take(i).drop_last() =~= cols.take(i - 1));
        assert(cols.take(i).last() == cols[i - 1]);
        lemma_row_width_take(cols, i);
    } else {
        lemma_row_width_take(cols, 0);
    }
}

/// The row width of a prefix is at most the row width of the whole.
proof fn lemma_row_width_take(cols: Seq<ColumnInfo>, i: int)
    requires
        0 <= i <= cols.len(),
    ensures
        row_width(cols.take(i)) <= row_width(cols),
        row_width(cols) >= 0,
    decreases cols.len(),
{
    if cols.len() == 0 {
        assert(cols.take(i) =~= cols);
    } else if i == cols.len() {
        assert(cols.take(i) =~= cols);
        lemma_row_width_take(cols.drop_last(), cols.len() - 1);
    } else {
        lemma_row_width_take(cols.drop_last(), i);
        assert(cols.take(i) =~= cols.drop_last().take(i));
    }
}

proof fn lemma_count_bound(cols: Seq<ColumnInfo>, i: int)
    requires
        0 <= i <= cols.len(),
    ensures
        0 <= nonlob_count_before(cols, i) <= i,
    decreases i,
{
    if i > 0 {
        lemma_count_bound(cols, i - 1);
    }
}

/// One detected width overflow: a fetched value longer than the column's
/// declared transfer width.
#[derive(Clone, Copy, Debug, PartialEq, Eq, Structural)]
pub struct LengthOverflow {
    pub column: usize,
    pub row: u32,
    pub actual: u16,
    pub declared: u32,
}

/// A width overflow stands at column `i`, row `row` of the fetched batch:
/// the column is character data, its cell is present, and the actual
/// length exceeds the declared buffer width.
pub open spec fn overflow_at(
    cols: Seq<ColumnInfo>,
    prefetch_rows: u32,
    indicators: Seq<i16>,
    ret_lengths: Seq<u16>,
    i: int,
    row: int,
) -> bool {
    &&& 0 <= i < cols.len()
    &&& cols[i].col_type == ColumnType::Varchar
    &&& indicators[i * prefetch_rows + row] >= 0
    &&& ret_lengths[nonlob_count_before(cols, i) * prefetch_rows + row]
        > cols[i].buffer_len as u16
}

/// Scans a fetched batch for width overflows — actual lengths exceeding a
/// column's declared transfer width — and surfaces every one found, so
/// nothing is silently truncated.
pub fn check_lengths(
    table_info: &TableInfo,
    prefetch_rows: u32,
    actual_rows: u32,
    indicators: &Vec<i16>,
    ret_lengths: &Vec<u16>,
) -> (r: Vec<LengthOverflow>)
    requires
        actual_rows <= prefetch_rows,
        table_info.columns@.len() * prefetch_rows <= usize::MAX,
        indicators@.len() >= table_info.columns@.len() * prefetch_rows,
        ret_lengths@.len() >= nonlob_count_before(
            table_info.columns@,
            table_info.columns@.len() as int,
        ) * prefetch_rows,
    ensures
        forall|k: int|
            0 <= k < r@.len() ==> overflow_at(
                table_info.columns@,
                prefetch_rows,
                indicators@,
                ret_lengths@,
                (#[trigger] r@[k]).column as int,
                r@[k].row as int,
            ) && r@[k].row < actual_rows,
        forall|i: int, row: int|
            0 <= i < table_info.columns@.len() && 0 <= row < actual_rows && overflow_at(
                table_info.columns@,
                prefetch_rows,
                indicators@,
                ret_lengths@,
                i,
                row,
            ) ==> exists|k: int|
                0 <= k < r@.len() && (#[trigger] r@[k]).column == i && r@[k].row == row,
{
    let cols = &table_info.columns;
    let ilen = indicators.len();
    let slen = ret_lengths.len();
    let mut r: Vec<LengthOverflow> = Vec::new();
    let mut i: usize = 0;
    let mut offset_i: usize = 0;
    let mut offset_s: usize = 0;
    while i < cols.len()
        invariant
            cols == &table_info.columns,
            i <= cols@.len(),
            actual_rows <= prefetch_rows,
            cols@.len() * prefetch_rows <= usize::MAX,
            indicators@.len() >= cols@.len() * prefetch_rows,
            ret_lengths@.len() >= nonlob_count_before(cols@, cols@.len() as int) * prefetch_rows,
            ilen == indicators@.len(),
            slen == ret_lengths@.len(),
            offset_i == i * prefetch_rows,
            offset_s == nonlob_count_before(cols@, i as int) * prefetch_rows,
            forall|k: int|
                0 <= k < r@.len() ==> overflow_at(
                    cols@,
                    prefetch_rows,
                    indicators@,
                    ret_lengths@,
                    (#[trigger] r@[k]).column as int,
                    r@[k].row as int,
                ) && r@[k].row < actual_rows && r@[k].column < i,
            forall|i2: int, row: int|
                0 <= i2 < i && 0 <= row < actual_rows && overflow_at(
                    cols@,
                    prefetch_rows,
                    indicators@,
                    ret_lengths@,
                    i2,
                    row,
                ) ==> exists|k: int|
                    0 <= k < r@.len() && (#[trigger] r@[k]).column == i2 && r@[k].row == row,
        decreases cols@.len() - i,
    {
        proof {
            lemma_count_bound(cols@, i as int);
            lemma_mul_inequality(i as int, cols@.len() as int, prefetch_rows as int);
            lemma_mul_inequality(i + 1, cols@.len() as int, prefetch_rows as int);
            lemma_count_mono_step(cols@, i as int);
            lemma_mul_inequality(
                nonlob_count_before(cols@, i + 1),
                cols@.len() as int,
                prefetch_rows as int,
            );
            lemma_count_bound(cols@, cols@.len() as int);
            lemma_mul_inequality(
                nonlob_count_before(cols@, cols@.len() as int),
                cols@.len() as int,
                prefetch_rows as int,
            );
            assert((i + 1) * prefetch_rows == i * prefetch_rows + prefetch_rows)
                by (nonlinear_arith);
            assert((nonlob_count_before(cols@, i as int) + 1) * prefetch_rows
                == nonlob_count_before(cols@, i as int) * prefetch_rows + prefetch_rows)
                by (nonlinear_arith);
        }
        proof {
            lemma_count_mono(cols@, i + 1, cols@.len() as int);
            lemma_mul_inequality(
                nonlob_count_before(cols@, i + 1) as int,
                nonlob_count_before(cols@, cols@.len() as int),
                prefetch_rows as int,
            );
        }
        let is_lob = cols[i].col_type == ColumnType::Blob || cols[i].col_type == ColumnType::Clob;
        if !is_lob {
            if cols[i].col_type == ColumnType::Varchar {
                let mut row: u32 = 0;
                while row < actual_rows
                    invariant
                        cols == &table_info.columns,
                        i < cols@.len(),
                        cols@[i as int].col_type == ColumnType::Varchar,
                        row <= actual_rows <= prefetch_rows,
                        cols@.len() * prefetch_rows <= usize::MAX,
                        indicators@.len() >= cols@.len() * prefetch_rows,
                        ret_lengths@.len() >= nonlob_count_before(cols@, cols@.len() as int)
                            * prefetch_rows,
                        offset_i == i * prefetch_rows,
                        offset_s == nonlob_count_before(cols@, i as int) * prefetch_rows,
                        ilen == indicators@.len(),
                        slen == ret_lengths@.len(),
                        offset_i + prefetch_rows <= ilen,
                        offset_s + prefetch_rows <= slen,
                        forall|k: int|
                            0 <= k < r@.len() ==> overflow_at(
                                cols@,
                                prefetch_rows,
                                indicators@,
                                ret_lengths@,
                                (#[trigger] r@[k]).column as int,
                                r@[k].row as int,
                            ) && r@[k].row < actual_rows && r@[k].column <= i,
                        forall|i2: int, row2: int|
                            0 <= i2 < i && 0 <= row2 < actual_rows && overflow_at(
                                cols@,
                                prefetch_rows,
                                indicators@,
                                ret_lengths@,
                                i2,
                                row2,
                            ) ==> exists|k: int|
                                0 <= k < r@.len() && (#[trigger] r@[k]).column == i2 && r@[k].row
                                    == row2,
                        forall|row2: int|
                            0 <= row2 < row && overflow_at(
                                cols@,
                                prefetch_rows,
                                indicators@,
                                ret_lengths@,
                                i as int,
                                row2,
                            ) ==> exists|k: int|
                                0 <= k < r@.len() && (#[trigger] r@[k]).column == i as int
                                    && r@[k].row == row2,
                    decreases actual_rows - row,
                {
                    let ghost r0 = r@;
                    let ind = indicators[offset_i + (row as usize)];
                    if ind >= 0 {
                        let size = ret_lengths[offset_s + (row as usize)];
                        if size > (cols[i].buffer_len as u16) {
                            r.push(
                                LengthOverflow {
                                    column: i,
                                    row,
                                    actual: size,
                                    declared: cols[i].buffer_len,
                                },
                            );
                        }
                    }
                    proof {
                        assert forall|i2: int, row2: int|
                            0 <= i2 < i && 0 <= row2 < actual_rows && overflow_at(
                                cols@,
                                prefetch_rows,
                                indicators@,
                                ret_lengths@,
                                i2,
                                row2,
                            ) implies exists|k: int|
                            0 <= k < r@.len() && (#[trigger] r@[k]).column == i2 && r@[k].row
                                == row2 by {
                            let k = choose|k: int|
                                0 <= k < r0.len() && (#[trigger] r0[k]).column == i2 && r0[k].row
                                    == row2;
                            assert(r@[k] == r0[k]);
                        }
                        assert forall|row2: int|
                            0 <= row2 < row + 1 && overflow_at(
                                cols@,
                                prefetch_rows,
                                indicators@,
                                ret_lengths@,
                                i as int,
                                row2,
                            ) implies exists|k: int|
                            0 <= k < r@.len() && (#[trigger] r@[k]).column == i as int && r@[k].row
                                == row2 by {
                            if row2 == row {
                                assert(i * prefetch_rows + row2 == offset_i + row);
                                assert(nonlob_count_before(cols@, i as int) * prefetch_rows + row2
                                    == offset_s + row);
                                assert(r@.len() == r0.len() + 1);
                                assert(r@[r@.len() - 1].column == i as int && r@[r@.len()
                                    - 1].row == row2);
                            } else {
                                let k = choose|k: int|
                                    0 <= k < r0.len() && (#[trigger] r0[k]).column == i as int
                                        && r0[k].row == row2;
                                assert(r@[k] == r0[k]);
                            }
                        }
                    }
                    row = row + 1;
                }
            }
            offset_s = offset_s + (prefetch_rows as usize);
        }
        offset_i = offset_i + (prefetch_rows as usize);
        i = i + 1;
        proof {
            assert forall|i2: int, row2: int|
                0 <= i2 < i && 0 <= row2 < actual_rows && overflow_at(
                    cols@,
                    prefetch_rows,
                    indicators@,
                    ret_lengths@,
                    i2,
                    row2,
                ) implies exists|k: int|
                0 <= k < r@.len() && (#[trigger] r@[k]).column == i2 && r@[k].row == row2 by {
                if i2 == i - 1 {
                    assert(cols@[i2].col_type == ColumnType::Varchar);
                }
            }
        }
    }
    r
}

/// A step of the non-large-object count.
proof fn lemma_count_mono_step(cols: Seq<ColumnInfo>, i: int)
    requires
        0 <= i < cols.len(),
    ensures
        nonlob_count_before(cols, i + 1) == nonlob_count_before(cols, i) + (if is_lob_col(
            cols[i],
        ) {
            0int
        } else {
            1int
        }),
{
}

/// The bulk read side of one table's transfer: the statement is prepared
/// once, the cursor opened deferred, then batches are fetched until the
/// driver reports no more data.
pub struct TableReader {
    pub stmt_text: String,
    pub executed: bool,
}

impl TableReader {
    /// A reader over its prepared statement text.
    pub fn new(stmt_text: String) -> (r: TableReader)
        ensures
            r.stmt_text == stmt_text,
            !r.executed,
    {
        TableReader { stmt_text, executed: false }
    }

    /// Marks the deferred cursor open: the statement is executed with an
    /// iteration count of zero, fetching nothing yet.
    pub fn execute(&mut self)
        ensures
            final(self).stmt_text == old(self).stmt_text,
            final(self).executed,
    {
        self.executed = true;
    }

    /// Decodes one fetch call's outcome: no status means a full or partial
    /// batch with more to come, the no-more-data code ends the scan
    /// without error, anything else aborts the table.
    pub fn fetch(&self, status: Option<OracleError>, rows_fetched: u32) -> (r: Result<
        (u32, bool),
        OracleError,
    >)
        ensures
            status is None ==> r == Ok::<(u32, bool), OracleError>((rows_fetched, false)),
            status matches Some(e) ==> (e.code == 100 ==> r == Ok::<(u32, bool), OracleError>(
                (rows_fetched, true),
            )) && (e.code != 100 ==> r == Err::<(u32, bool), OracleError>(e)),
    {
        match status {
            None => Ok((rows_fetched, false)),
            Some(e) => {
                if e.code == 100 {
                    Ok((rows_fetched, true))
                } else {
                    Err(e)
                }
            },
        }
    }
}

/// The bulk write side of one table's transfer: the insert statement is
/// prepared once and executed per batch with the fetched row count,
/// accumulating the rows written.
pub struct TableWriter {
    pub stmt_text: String,
    pub rows_written: u64,
}

impl TableWriter {
    /// A writer over its prepared statement text.
    pub fn new(stmt_text: String) -> (r: TableWriter)
        ensures
            r.stmt_text == stmt_text,
            r.rows_written == 0,
    {
        TableWriter { stmt_text, rows_written: 0 }
    }

    /// Records one batch execution of `rows_num` rows.
    pub fn execute(&mut self, rows_num: u32)
        requires
            old(self).rows_written + rows_num <= u64::MAX,
        ensures
            final(self).stmt_text == old(self).stmt_text,
            final(self).rows_written == old(self).rows_written + rows_num,
    {
        self.rows_written = self.rows_written + (rows_num as u64);
    }
}

/// The matched source/destination locator pairs of one table's
/// large-object columns.
pub struct LobProcessor {
    pub lob_locators: Vec<(LobDescriptor, LobDescriptor)>,
}

impl LobProcessor {
    /// A processor over its locator pairs.
    pub fn new(lob_locators: Vec<(LobDescriptor, LobDescriptor)>) -> (r: LobProcessor)
        ensures
            r.lob_locators == lob_locators,
    {
        LobProcessor { lob_locators }
    }

    /// Copies the current row's value for every large-object column: a
    /// NULL source trims the destination to nothing, anything else is
    /// copied chunk by chunk; every destination ends exactly as long as
    /// its source.
    pub fn copy(&mut self, buffer_len: u32)
        requires
            buffer_len > 0,
            forall|p: int|
                0 <= p < old(self).lob_locators@.len() ==> {
                    let pair = #[trigger] old(self).lob_locators@[p];
                    &&& pair.0.read_pos == 0
                    &&& pair.0.length < u32::MAX
                    &&& pair.1.length == 0
                    &&& pair.1.pieces@.len() == 0
                },
        ensures
            final(self).lob_locators@.len() == old(self).lob_locators@.len(),
            forall|p: int|
                0 <= p < old(self).lob_locators@.len() ==> {
                    let pair0 = #[trigger] old(self).lob_locators@[p];
                    let pair = final(self).lob_locators@[p];
                    &&& pair.1.length == (if pair0.0.null {
                        0
                    } else {
                        pair0.0.length
                    })
                    &&& (!pair0.0.null ==> pair.1.pieces@ == copy_pieces(
                        pair0.0.length as int,
                        buffer_len as int,
                        true,
                    ))
                    &&& pair.0.length == pair0.0.length
                    &&& pair.0.null == pair0.0.null
                },
    {
        let ghost olds = self.lob_locators@;
        let n = self.lob_locators.len();
        let mut done: Vec<(LobDescriptor, LobDescriptor)> = Vec::new();
        let mut p: usize = 0;
        while p < n
            invariant
                buffer_len > 0,
                n == olds.len(),
                self.lob_locators@.len() == n - p,
                done@.len() == p,
                forall|q: int|
                    p <= q < n ==> self.lob_locators@[q - p] == (#[trigger] olds[q]),
                forall|q: int|
                    0 <= q < p ==> {
                        let pair0 = #[trigger] olds[q];
                        let pair = done@[q];
                        &&& pair.1.length == (if pair0.0.null {
                            0
                        } else {
                            pair0.0.length
                        })
                        &&& (!pair0.0.null ==> pair.1.pieces@ == copy_pieces(
                            pair0.0.length as int,
                            buffer_len as int,
                            true,
                        ))
                        &&& pair.0.length == pair0.0.length
                        &&& pair.0.null == pair0.0.null
                    },
                forall|q: int|
                    0 <= q < n ==> {
                        let pair = #[trigger] olds[q];
                        &&& pair.0.read_pos == 0
                        &&& pair.0.length < u32::MAX
                        &&& pair.1.length == 0
                        &&& pair.1.pieces@.len() == 0
                    },
            decreases n - p,
        {
            let ghost pre = self.lob_locators@;
            let pair = self.lob_locators.remove(0);
            proof {
                assert(pre[0] == olds[p as int]);
                assert(pair == olds[p as int]);
            }
            let mut src = pair.0;
            let mut dst = pair.1;
            if src.is_null() {
                dst.trim(0);
            } else {
                let copied = lob_copy(&mut src, &mut dst, buffer_len);
            }
            done.push((src, dst));
            proof {
                assert(done@[p as int] == (src, dst));
                let pair0 = olds[p as int];
                let pairn = done@[p as int];
                assert(pairn.1.length == (if pair0.0.null {
                    0u32
                } else {
                    pair0.0.length
                }));
                assert(!pair0.0.null ==> pairn.1.pieces@ == copy_pieces(
                    pair0.0.length as int,
                    buffer_len as int,
                    true,
                ));
                assert(pairn.0.length == pair0.0.length);
                assert(pairn.0.null == pair0.0.null);
                assert forall|q: int|
                    p + 1 <= q < n implies self.lob_locators@[q - (p + 1)] == (
                #[trigger] olds[q]) by {
                    assert(self.lob_locators@[q - (p + 1)] == pre[q - p]);
                }
            }
            p = p + 1;
        }
        self.lob_locators = done;
    }
}

} // verus!
