//! Pages and the table: fixed-capacity blocks of rows, addressed by a
//! linear row index split into a page index and a slot index.
//!
//! The model of a table is the sequence of its stored row views, in
//! insertion order. The layout invariant `Table::wf` pins each stored row to
//! the page and slot that the addressing scheme computes for its index, so
//! reads and appends are verified against the model alone.

use vstd::prelude::*;
use vstd::arithmetic::div_mod::lemma_fundamental_div_mod;
use vstd::arithmetic::div_mod::lemma_fundamental_div_mod_converse_div;
use vstd::arithmetic::div_mod::lemma_fundamental_div_mod_converse_mod;
use vstd::arithmetic::div_mod::lemma_mod_division_less_than_divisor;
use vstd::arithmetic::div_mod::lemma_div_pos_is_pos;
use vstd::arithmetic::div_mod::lemma_multiply_divide_lt;
use vstd::arithmetic::mul::lemma_mul_inequality;

use crate::row::Row;
use crate::row::RowV;
use crate::row::ROW_SIZE;
use crate::row::row_fits;

verus! {

/// Byte budget of one page; the page capacity is derived from it.
pub const PAGE_SIZE: usize = 4096;

/// Upper bound on the number of pages a table may own.
pub const TABLE_MAX_PAGES: usize = 100;

/// How many rows fit in one page: the page byte budget divided by the
/// fixed row size.
pub const ROWS_PER_PAGE: usize = PAGE_SIZE / ROW_SIZE;

/// Capacity of a whole table, in rows.
pub const TABLE_MAX_ROWS: usize = TABLE_MAX_PAGES * ROWS_PER_PAGE;

/// The page that holds the row with linear index `r`.
pub open spec fn page_of(r: int) -> int {
    r / (ROWS_PER_PAGE as int)
}

/// The slot, within its page, of the row with linear index `r`.
pub open spec fn slot_of(r: int) -> int {
    r % (ROWS_PER_PAGE as int)
}

/// How many pages a table with `n` stored rows owns: pages are allocated
/// lazily, one per `ROWS_PER_PAGE` rows started.
pub open spec fn page_count(n: int) -> int {
    (n + ROWS_PER_PAGE - 1) / (ROWS_PER_PAGE as int)
}

/// How many rows page `i` holds in a table with `n` stored rows: every page
/// before the last is full.
pub open spec fn rows_in_page(n: int, i: int) -> int {
    if (i + 1) * ROWS_PER_PAGE <= n {
        ROWS_PER_PAGE as int
    } else {
        n - i * ROWS_PER_PAGE
    }
}

/// The concrete dimensions that the byte budgets determine: a row of 291
/// bytes, 14 rows to a 4096-byte page, 1400 rows over 100 pages.
proof fn lemma_dimensions()
    ensures
        ROW_SIZE == 291,
        ROWS_PER_PAGE == 14,
        TABLE_MAX_ROWS == 1400,
{
    assert(ROW_SIZE == 291);
    assert(ROWS_PER_PAGE == 14);
    assert(TABLE_MAX_ROWS == 1400);
}

/// Euclid's identity for the page/slot split of a nonnegative index.
proof fn lemma_page_slot(r: int)
    requires
        0 <= r,
    ensures
        r == page_of(r) * (ROWS_PER_PAGE as int) + slot_of(r),
        0 <= slot_of(r) < ROWS_PER_PAGE,
        0 <= page_of(r),
{
    lemma_dimensions();
    lemma_fundamental_div_mod(r, ROWS_PER_PAGE as int);
    lemma_mod_division_less_than_divisor(r, ROWS_PER_PAGE as int);
    lemma_div_pos_is_pos(r, ROWS_PER_PAGE as int);
}

/// The split of an index given directly as `q * ROWS_PER_PAGE + s`.
proof fn lemma_page_slot_converse(q: int, s: int)
    requires
        0 <= q,
        0 <= s < ROWS_PER_PAGE,
    ensures
        page_of(q * (ROWS_PER_PAGE as int) + s) == q,
        slot_of(q * (ROWS_PER_PAGE as int) + s) == s,
{
    lemma_dimensions();
    lemma_fundamental_div_mod_converse_div(
        q * (ROWS_PER_PAGE as int) + s,
        ROWS_PER_PAGE as int,
        q,
        s,
    );
    lemma_fundamental_div_mod_converse_mod(
        q * (ROWS_PER_PAGE as int) + s,
        ROWS_PER_PAGE as int,
        q,
        s,
    );
}

/// The number of started pages in terms of the split of the row count: a
/// row count on a page boundary needs no partial page, any other needs one.
proof fn lemma_page_count_split(n: int)
    requires
        0 <= n,
    ensures
        slot_of(n) == 0 ==> page_count(n) == page_of(n),
        slot_of(n) != 0 ==> page_count(n) == page_of(n) + 1,
{
    let d = ROWS_PER_PAGE as int;
    let q = page_of(n);
    let s = slot_of(n);
    lemma_page_slot(n);
    if s == 0 {
        assert(n + d - 1 == q * d + (d - 1));
        lemma_fundamental_div_mod_converse_div(n + d - 1, d, q, d - 1);
    } else {
        assert((q + 1) * d == q * d + d) by (nonlinear_arith);
        assert(n + d - 1 == (q + 1) * d + (s - 1));
        lemma_fundamental_div_mod_converse_div(n + d - 1, d, q + 1, s - 1);
    }
}

/// Between two indices the split is ordered: a smaller index lives on an
/// earlier page, or on the same page in an earlier slot.
proof fn lemma_page_slot_mono(r: int, n: int)
    requires
        0 <= r < n,
    ensures
        page_of(r) <= page_of(n),
        page_of(r) == page_of(n) ==> slot_of(r) < slot_of(n),
{
    let d = ROWS_PER_PAGE as int;
    lemma_page_slot(r);
    lemma_page_slot(n);
    if page_of(r) > page_of(n) {
        lemma_mul_inequality(page_of(n) + 1, page_of(r), d);
        assert((page_of(n) + 1) * d == page_of(n) * d + d) by (nonlinear_arith);
        assert(false);
    }
}

/// A fixed-capacity block of rows, owned by the table.
pub struct Page {
    pub rows: Vec<Row>,
}

impl Page {
    /// A fresh, empty page.
    pub fn new() -> (p: Page)
        ensures
            p.rows@.len() == 0,
    {
        Page { rows: Vec::new() }
    }
}

/// The row store: an ordered sequence of pages plus the live row count,
/// which is the single source of truth for how many valid rows exist.
pub struct Table {
    pub num_rows: usize,
    pub pages: Vec<Page>,
}

impl View for Table {
    type V = Seq<RowV>;

    /// The stored rows in insertion order, each read from the page and slot
    /// that its linear index maps to.
    open spec fn view(&self) -> Seq<RowV> {
        Seq::new(self.num_rows as nat, |r: int| self.pages@[page_of(r)].rows@[slot_of(r)]@)
    }
}

impl Table {
    /// The layout invariant: the row count respects the capacity, exactly
    /// the started pages exist, every page holds exactly the rows that the
    /// addressing scheme assigns to it, and every stored row respects the
    /// field byte budgets.
    pub open spec fn wf(&self) -> bool {
        &&& self.num_rows <= TABLE_MAX_ROWS
        &&& self.pages@.len() == page_count(self.num_rows as int)
        &&& forall|i: int|
            0 <= i < self.pages@.len() ==> (#[trigger] self.pages@[i]).rows@.len()
                == rows_in_page(self.num_rows as int, i)
        &&& forall|i: int, j: int|
            0 <= i < self.pages@.len() && 0 <= j < self.pages@[i].rows@.len() ==> row_fits(
                (#[trigger] self.pages@[i].rows@[j])@,
            )
    }

    /// A fresh table: no pages, no rows.
    pub fn new() -> (t: Table)
        ensures
            t.wf(),
            t.num_rows == 0,
            t@ =~= Seq::<RowV>::empty(),
    {
        proof {
            lemma_dimensions();
        }
        Table { num_rows: 0, pages: Vec::new() }
    }

    /// Releases the table's storage. All pages are owned values, so there
    /// is nothing to do beyond letting them drop; the table is unchanged.
    pub fn free(&mut self)
        ensures
            *final(self) == *old(self),
    {
    }

    /// Appends a row at the next linear index, growing the last page or
    /// starting a new one as the addressing scheme requires. Append-only:
    /// existing rows are never moved or overwritten.
    pub fn append_row(&mut self, row: Row)
        requires
            old(self).wf(),
            old(self).num_rows < TABLE_MAX_ROWS,
            row_fits(row@),
        ensures
            final(self).wf(),
            final(self).num_rows == old(self).num_rows + 1,
            final(self)@ =~= old(self)@.push(row@),
    {
        let ghost n = self.num_rows as int;
        let (page_index, slot_index) = locate(self.num_rows);
        proof {
            lemma_page_slot(n);
            lemma_page_count_split(n);
        }
        if slot_index == 0 {
            self.pages.push(Page::new());
        }
        let page = &mut self.pages[page_index];
        page.rows.push(row);
        proof {
            // The target slot is exactly the old length of the target page.
            assert(rows_in_page(n, page_index as int) == slot_of(n)) by {
                if (page_index as int + 1) * (ROWS_PER_PAGE as int) <= n {
                    lemma_mul_inequality(page_index as int + 1, page_index as int + 1, ROWS_PER_PAGE as int);
                    assert((page_index as int + 1) * (ROWS_PER_PAGE as int)
                        == page_index as int * (ROWS_PER_PAGE as int) + ROWS_PER_PAGE) by (nonlinear_arith);
                }
            }
        }
        self.num_rows = self.num_rows + 1;
        proof {
            let d = ROWS_PER_PAGE as int;
            let q = page_of(n);
            let s = slot_of(n);
            // Split of the new row count.
            if s == d - 1 {
                assert((q + 1) * d == q * d + d) by (nonlinear_arith);
                lemma_page_slot_converse(q + 1, 0);
                assert(page_of(n + 1) == q + 1);
            } else {
                lemma_page_slot_converse(q, s + 1);
                assert(page_of(n + 1) == q);
            }
            lemma_page_count_split(n + 1);
            // Every page before the target stays full under the new count.
            assert forall|i: int| 0 <= i < self.pages@.len() implies (#[trigger] self.pages@[i]).rows@.len()
                == rows_in_page(n + 1, i) by {
                if i < q {
                    lemma_mul_inequality(i + 1, q, d);
                }
                if i == q {
                    assert((q + 1) * d == q * d + d) by (nonlinear_arith);
                }
            }
            assert(self.wf());
            // The view grew by exactly the appended row.
            assert forall|r: int| 0 <= r < n + 1 implies self@[r] == old(self)@.push(row@)[r] by {
                if r < n {
                    lemma_page_slot_mono(r, n);
                    lemma_page_slot(r);
                }
            }
        }
    }

    /// Bounds-checked read of the row at a linear index. Absent exactly
    /// when the index lies at or beyond the live row count; a missing page
    /// can only be met through such an index, never through a valid one.
    pub fn slot_for_read(&self, row_index: usize) -> (r: Option<&Row>)
        requires
            self.wf(),
        ensures
            match r {
                Some(row) => row_index < self.num_rows && row@ == self@[row_index as int],
                None => row_index >= self.num_rows,
            },
    {
        let ghost n = self.num_rows as int;
        let (page_index, slot_index) = locate(row_index);
        proof {
            let d = ROWS_PER_PAGE as int;
            let ri = row_index as int;
            lemma_page_slot(ri);
            lemma_page_slot(n);
            lemma_page_count_split(n);
            assert((page_of(n) + 1) * d == page_of(n) * d + d) by (nonlinear_arith);
            if ri < n {
                // A valid index always hits an existing page and slot.
                lemma_page_slot_mono(ri, n);
                if page_of(ri) < page_of(n) {
                    lemma_mul_inequality(page_of(ri) + 1, page_of(n), d);
                }
            } else {
                // An out-of-range index misses the pages, or lands at or
                // beyond the fill line of the last page.
                vstd::arithmetic::div_mod::lemma_div_is_ordered(n, ri, d);
            }
        }
        if page_index < self.pages.len() {
            let page = &self.pages[page_index];
            if slot_index < page.rows.len() {
                Some(&page.rows[slot_index])
            } else {
                None
            }
        } else {
            None
        }
    }
}

/// Maps a linear row index to its page index and slot index. A pure
/// function of the index alone.
pub fn locate(row_index: usize) -> (r: (usize, usize))
    ensures
        r.0 == page_of(row_index as int),
        r.1 == slot_of(row_index as int),
        r.0 * ROWS_PER_PAGE + r.1 == row_index,
{
    proof {
        lemma_page_slot(row_index as int);
    }
    (row_index / ROWS_PER_PAGE, row_index % ROWS_PER_PAGE)
}

/// Addressing inverts: recombining the page and slot of any in-capacity
/// index yields that index back, and the page index stays within the
/// table's page bound.
pub proof fn lemma_locate_inverts(r: int)
    requires
        0 <= r < TABLE_MAX_ROWS,
    ensures
        page_of(r) * ROWS_PER_PAGE + slot_of(r) == r,
        0 <= page_of(r) < TABLE_MAX_PAGES,
        0 <= slot_of(r) < ROWS_PER_PAGE,
{
    lemma_dimensions();
    lemma_page_slot(r);
    lemma_multiply_divide_lt(r, ROWS_PER_PAGE as int, TABLE_MAX_PAGES as int);
}

} // verus!
