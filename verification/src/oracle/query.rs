//! The batched fetch protocol: a per-query fetch area sized for a
//! configurable prefetch row count, and an iterator that yields one row at
//! a time, transparently re-fetching a new batch when the current one is
//! exhausted, until the driver reports no more data — which ends the scan,
//! not the run.

use vstd::prelude::*;
use vstd::arithmetic::mul::lemma_mul_inequality;
use crate::oracle::meta::MetaType;
use crate::oracle::meta::ResultItem;
use crate::oracle::meta::ResultSet;

verus! {

/// The combined byte size of the columns' cells for one row.
pub open spec fn total_meta_size(meta: Seq<MetaType>) -> int
    decreases meta.len(),
{
    if meta.len() == 0 {
        0
    } else {
        total_meta_size(meta.drop_last()) + meta.last().size
    }
}

/// The byte offset of column `i`'s block within one row's worth of cells.
pub open spec fn meta_size_before(meta: Seq<MetaType>, i: int) -> int
    decreases i,
{
    if i <= 0 || i > meta.len() {
        0
    } else {
        meta_size_before(meta, i - 1) + meta[i - 1].size
    }
}

/// The block offset of a prefix equals the total size of that prefix.
proof fn lemma_meta_take(meta: Seq<MetaType>, i: int)
    requires
        0 <= i <= meta.len(),
    ensures
        meta_size_before(meta, i) == total_meta_size(meta.take(i)),
    decreases i,
{
    if i > 0 {
        lemma_meta_take(meta, i - 1);
        assert(meta.take(i).drop_last() =~= meta.take(i - 1));
        assert(meta.take(i).last() == meta[i - 1]);
    } else {
        assert(meta.take(0) =~= Seq::<MetaType>::empty());
    }
}

/// Block offsets grow with the prefix.
proof fn lemma_sb_mono(meta: Seq<MetaType>, a: int, b: int)
    requires
        0 <= a <= b <= meta.len(),
    ensures
        meta_size_before(meta, a) <= meta_size_before(meta, b),
        meta_size_before(meta, a) >= 0,
    decreases b - a + a,
{
    if a < b {
        lemma_sb_mono(meta, a, b - 1);
    } else if a > 0 {
        lemma_sb_mono(meta, 0, a - 1);
    }
}

/// A column prefix never outweighs the whole row.
proof fn lemma_meta_prefix_bound(meta: Seq<MetaType>, i: int)
    requires
        0 <= i <= meta.len(),
    ensures
        0 <= meta_size_before(meta, i),
        meta_size_before(meta, i) + (if i < meta.len() {
            meta[i].size as int
        } else {
            0int
        }) <= total_meta_size(meta),
        total_meta_size(meta) >= 0,
    decreases meta.len(),
{
    lemma_meta_take(meta, meta.len() as int);
    assert(meta.take(meta.len() as int) =~= meta);
    lemma_sb_mono(meta, i, meta.len() as int);
    if i < meta.len() {
        assert(meta_size_before(meta, i + 1) == meta_size_before(meta, i) + meta[i].size);
        lemma_sb_mono(meta, i + 1, meta.len() as int);
    }
}

/// The per-query fetch area: a flat value arena of one block per column,
/// each block one cell per prefetched row, beside the indicator and
/// actual-length arrays.
pub struct FetchArea {
    pub prefetch_rows: u32,
    pub meta: Vec<MetaType>,
    pub values: Vec<u8>,
    pub indicators: Vec<i16>,
    pub ret_lengths: Vec<u16>,
}

/// The fetch area's arrays match its layout.
pub open spec fn fa_wf(fa: FetchArea) -> bool {
    &&& fa.prefetch_rows >= 1
    &&& fa.values@.len() == total_meta_size(fa.meta@) * fa.prefetch_rows
    &&& fa.indicators@.len() == fa.meta@.len() * fa.prefetch_rows
    &&& fa.ret_lengths@.len() == fa.meta@.len() * fa.prefetch_rows
}

fn zero_bytes(n: usize) -> (r: Vec<u8>)
    ensures
        r@.len() == n,
{
    let mut r: Vec<u8> = Vec::new();
    let mut i: usize = 0;
    while i < n
        invariant
            i <= n,
            r@.len() == i,
        decreases n - i,
    {
        r.push(0);
        i = i + 1;
    }
    r
}

fn zero_i16(n: usize) -> (r: Vec<i16>)
    ensures
        r@.len() == n,
{
    let mut r: Vec<i16> = Vec::new();
    let mut i: usize = 0;
    while i < n
        invariant
            i <= n,
            r@.len() == i,
        decreases n - i,
    {
        r.push(0);
        i = i + 1;
    }
    r
}

fn zero_u16(n: usize) -> (r: Vec<u16>)
    ensures
        r@.len() == n,
{
    let mut r: Vec<u16> = Vec::new();
    let mut i: usize = 0;
    while i < n
        invariant
            i <= n,
            r@.len() == i,
        decreases n - i,
    {
        r.push(0);
        i = i + 1;
    }
    r
}

impl FetchArea {
    /// Sizes and zeroes the arrays for a layout and a prefetch count.
    pub fn new(prefetch_rows: u32, meta: Vec<MetaType>) -> (r: FetchArea)
        requires
            prefetch_rows >= 1,
            total_meta_size(meta@) * prefetch_rows <= usize::MAX,
            meta@.len() * prefetch_rows <= usize::MAX,
        ensures
            fa_wf(r),
            r.prefetch_rows == prefetch_rows,
            r.meta == meta,
    {
        let n = meta.len();
        let mut total: usize = 0;
        let mut i: usize = 0;
        while i < n
            invariant
                i <= n,
                n == meta@.len(),
                total == meta_size_before(meta@, i as int),
                total_meta_size(meta@) * prefetch_rows <= usize::MAX,
                prefetch_rows >= 1,
            decreases n - i,
        {
            proof {
                lemma_meta_prefix_bound(meta@, i as int);
                assert(total_meta_size(meta@) <= total_meta_size(meta@) * prefetch_rows)
                    by (nonlinear_arith)
                    requires
                        prefetch_rows >= 1,
                        total_meta_size(meta@) >= 0,
                ;
            }
            total = total + (meta[i].size as usize);
            i = i + 1;
        }
        proof {
            lemma_meta_take(meta@, n as int);
            assert(meta@.take(n as int) =~= meta@);
        }
        let values = zero_bytes(total * (prefetch_rows as usize));
        let entries = n * (prefetch_rows as usize);
        let indicators = zero_i16(entries);
        let ret_lengths = zero_u16(entries);
        FetchArea { prefetch_rows, meta, values, indicators, ret_lengths }
    }

    /// The byte offset of a column's block in the value arena.
    pub fn col_offset(&self, i: usize) -> (r: usize)
        requires
            fa_wf(*self),
            i <= self.meta@.len(),
        ensures
            r == meta_size_before(self.meta@, i as int) * self.prefetch_rows,
    {
        let vlen = self.values.len();
        let mut total: usize = 0;
        let mut j: usize = 0;
        while j < i
            invariant
                fa_wf(*self),
                j <= i <= self.meta@.len(),
                vlen == self.values@.len(),
                total == meta_size_before(self.meta@, j as int) * self.prefetch_rows,
            decreases i - j,
        {
            proof {
                lemma_meta_prefix_bound(self.meta@, j as int);
                assert(meta_size_before(self.meta@, j + 1) == meta_size_before(
                    self.meta@,
                    j as int,
                ) + self.meta@[j as int].size);
                lemma_mul_inequality(
                    meta_size_before(self.meta@, j + 1),
                    total_meta_size(self.meta@),
                    self.prefetch_rows as int,
                );
                assert((meta_size_before(self.meta@, j as int) + self.meta@[j as int].size)
                    * self.prefetch_rows == meta_size_before(self.meta@, j as int)
                    * self.prefetch_rows + self.meta@[j as int].size * self.prefetch_rows)
                    by (nonlinear_arith);
            }
            total = total + (self.meta[j].size as usize) * (self.prefetch_rows as usize);
            j = j + 1;
        }
        total
    }

    /// Extracts row `index` of the current batch: one owned cell per
    /// column, carrying its bytes, its presence and its actual length.
    pub fn result(&self, index: u32) -> (r: ResultSet)
        requires
            fa_wf(*self),
            index < self.prefetch_rows,
        ensures
            r@.len() == self.meta@.len(),
            forall|i: int|
                0 <= i < r@.len() ==> {
                    let start = meta_size_before(self.meta@, i) * self.prefetch_rows
                        + self.meta@[i].size * index;
                    let cell = #[trigger] r@[i];
                    &&& cell.data@ == self.values@.subrange(
                        start,
                        start + self.meta@[i].size,
                    )
                    &&& cell.indicator == (self.indicators@[i * self.prefetch_rows + index]
                        >= 0)
                    &&& cell.len == self.ret_lengths@[i * self.prefetch_rows + index]
                },
    {
        let n = self.meta.len();
        let vlen = self.values.len();
        let ilen = self.indicators.len();
        let mut r: Vec<ResultItem> = Vec::new();
        let mut i: usize = 0;
        while i < n
            invariant
                fa_wf(*self),
                index < self.prefetch_rows,
                vlen == self.values@.len(),
                ilen == self.indicators@.len(),
                i <= n,
                n == self.meta@.len(),
                r@.len() == i,
                forall|i2: int|
                    0 <= i2 < i ==> {
                        let start = meta_size_before(self.meta@, i2) * self.prefetch_rows
                            + self.meta@[i2].size * index;
                        let cell = #[trigger] r@[i2];
                        &&& cell.data@ == self.values@.subrange(
                            start,
                            start + self.meta@[i2].size,
                        )
                        &&& cell.indicator == (self.indicators@[i2 * self.prefetch_rows + index]
                            >= 0)
                        &&& cell.len == self.ret_lengths@[i2 * self.prefetch_rows + index]
                    },
            decreases n - i,
        {
            let block = self.col_offset(i);
            let size = self.meta[i].size as usize;
            proof {
                lemma_meta_prefix_bound(self.meta@, i as int);
                lemma_mul_inequality(
                    meta_size_before(self.meta@, i as int) + self.meta@[i as int].size,
                    total_meta_size(self.meta@),
                    self.prefetch_rows as int,
                );
                assert((meta_size_before(self.meta@, i as int) + self.meta@[i as int].size)
                    * self.prefetch_rows == meta_size_before(self.meta@, i as int)
                    * self.prefetch_rows + self.meta@[i as int].size * self.prefetch_rows)
                    by (nonlinear_arith);
                assert(self.meta@[i as int].size * index + self.meta@[i as int].size
                    <= self.meta@[i as int].size * self.prefetch_rows) by (nonlinear_arith)
                    requires
                        index < self.prefetch_rows,
                        self.meta@[i as int].size >= 0,
                ;
                assert(i * self.prefetch_rows + index < self.meta@.len() * self.prefetch_rows)
                    by (nonlinear_arith)
                    requires
                        0 <= i < self.meta@.len(),
                        index < self.prefetch_rows,
                ;
            }
            let start = block + size * (index as usize);
            let mut data: Vec<u8> = Vec::new();
            let mut b: usize = 0;
            while b < size
                invariant
                    vlen == self.values@.len(),
                    start + size <= self.values@.len(),
                    b <= size,
                    data@ == self.values@.subrange(start as int, start + b),
                decreases size - b,
            {
                data.push(self.values[start + b]);
                proof {
                    assert(data@ =~= self.values@.subrange(start as int, start + b + 1));
                }
                b = b + 1;
            }
            let ipos = i * (self.prefetch_rows as usize) + (index as usize);
            let indicator = self.indicators[ipos] >= 0;
            let len = self.ret_lengths[ipos] as usize;
            r.push(ResultItem { data, indicator, len });
            i = i + 1;
        }
        r
    }
}

/// A prepared bulk query: its statement text and its fetch area, laid out
/// once and reused for every batch.
pub struct Query {
    pub stmt_text: String,
    pub fetch_area: FetchArea,
}

impl Query {
    /// A query over its statement text, with a fetch area for the layout
    /// and prefetch count.
    pub fn new(stmt_text: String, prefetch_rows: u32, meta: Vec<MetaType>) -> (r: Query)
        requires
            prefetch_rows >= 1,
            total_meta_size(meta@) * prefetch_rows <= usize::MAX,
            meta@.len() * prefetch_rows <= usize::MAX,
        ensures
            r.stmt_text == stmt_text,
            fa_wf(r.fetch_area),
            r.fetch_area.prefetch_rows == prefetch_rows,
            r.fetch_area.meta == meta,
    {
        let fetch_area = FetchArea::new(prefetch_rows, meta);
        Query { stmt_text, fetch_area }
    }

    /// A fresh row iterator over this query's result set.
    pub fn iterator(&self) -> (r: QueryIterator)
        ensures
            !r.done,
            r.rows_fetched == 0,
            r.cursor_index == 0,
    {
        QueryIterator::new()
    }
}

/// The row iterator's state: whether the driver reported no more data,
/// how many rows the current batch holds, and the cursor within it.
pub struct QueryIterator {
    pub done: bool,
    pub rows_fetched: u32,
    pub cursor_index: u32,
}

/// The iterator's cursor always sits inside the current batch, or at its
/// start.
pub open spec fn qi_wf(qi: QueryIterator) -> bool {
    qi.cursor_index == 0 || qi.cursor_index < qi.rows_fetched
}

impl QueryIterator {
    /// The iterator before its first batch.
    pub fn new() -> (r: QueryIterator)
        ensures
            !r.done,
            r.rows_fetched == 0,
            r.cursor_index == 0,
            qi_wf(r),
    {
        QueryIterator { done: false, rows_fetched: 0, cursor_index: 0 }
    }

    /// Whether the next step needs a batch fetched from the driver first.
    pub fn needs_fetch(&self) -> (r: bool)
        ensures
            r == (self.cursor_index == 0 && !self.done),
    {
        self.cursor_index == 0 && !self.done
    }

    /// One step of the scan.  When the cursor is at a batch start and the
    /// scan is not finished, a fetch outcome must be handed in: the rows
    /// fetched and whether the driver reported no more data.  Yields the
    /// batch row index to decode next, or nothing when the result set is
    /// exhausted.
    pub fn next(&mut self, fetch: Option<(u32, bool)>) -> (r: Option<u32>)
        requires
            qi_wf(*old(self)),
            (fetch is Some) == (old(self).cursor_index == 0 && !old(self).done),
        ensures
            qi_wf(*final(self)),
            old(self).cursor_index == 0 && old(self).done ==> r is None && *final(self) == *old(self),
            fetch matches Some((rows, d)) ==> final(self).done == d && (rows > 0 ==> r
                == Some(0u32) && final(self).rows_fetched == rows && final(self).cursor_index == (
            if rows == 1 {
                0u32
            } else {
                1u32
            })) && (rows == 0 ==> r is None),
            old(self).cursor_index > 0 ==> r == Some(old(self).cursor_index) && final(self).done
                == old(self).done && final(self).rows_fetched == old(self).rows_fetched && final(self).cursor_index == (if old(self).cursor_index + 1 == old(self).rows_fetched {
                0u32
            } else {
                ((old(self).cursor_index + 1) as u32)
            }),
    {
        if self.done && self.cursor_index == 0 {
            return None;
        }
        if self.cursor_index == 0 {
            match fetch {
                Some(f) => {
                    self.rows_fetched = f.0;
                    self.done = f.1;
                },
                None => {
                    return None;
                },
            }
        }
        if self.rows_fetched > 0 {
            let row = self.cursor_index;
            self.cursor_index = self.cursor_index + 1;
            if self.cursor_index == self.rows_fetched {
                self.cursor_index = 0;
            }
            Some(row)
        } else {
            None
        }
    }
}

} // verus!
