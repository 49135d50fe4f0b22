//! Dense `nalgebra` matrices that hold the bit patterns of samples: the
//! `f64` nodes of a grid and the `f32` samples of a shot record.

use vstd::prelude::*;
use nalgebra::DMatrix;

verus! {

/// A `DMatrix<u64>`: the grid nodes, each the bit pattern of an `f64`.
#[verifier::external_body]
pub struct GridMatrix {
    m: DMatrix<u64>,
}

/// A `DMatrix<u32>`: the trace samples, each the bit pattern of an `f32`.
#[verifier::external_body]
pub struct TraceMatrix {
    m: DMatrix<u32>,
}

/// The entries of a grid matrix in storage order: column after column.
pub uninterp spec fn grid_cells(m: GridMatrix) -> Seq<u64>;

/// The number of rows and of columns of a grid matrix.
pub uninterp spec fn grid_shape(m: GridMatrix) -> (nat, nat);

/// The entries of a trace matrix in storage order: column after column.
pub uninterp spec fn trace_cells(m: TraceMatrix) -> Seq<u32>;

/// The number of rows and of columns of a trace matrix.
pub uninterp spec fn trace_shape(m: TraceMatrix) -> (nat, nat);

/// The value of `v as usize`: `v` itself where it is not negative, else
/// `v` wrapped around past `usize::MAX`.
pub open spec fn usize_of(v: int) -> nat {
    if v >= 0 {
        v as nat
    } else {
        (v + usize::MAX + 1) as nat
    }
}

/// `v as usize`.
pub fn usize_of_i32(v: i32) -> (u: usize)
    ensures
        u as nat == usize_of(v as int),
{
    if v >= 0 {
        v as usize
    } else {
        let below: i64 = 0i64 - (v as i64) - 1;
        usize::MAX - (below as usize)
    }
}

/// `v as usize`.
pub fn usize_of_i16(v: i16) -> (u: usize)
    ensures
        u as nat == usize_of(v as int),
{
    usize_of_i32(v as i32)
}

/// Whether `cells` is the column-major storage of the `nrows` by `ncols`
/// matrix whose rows, one after the other, are `rows`.
pub open spec fn column_major_of_rows<T>(cells: Seq<T>, rows: Seq<T>, nrows: nat, ncols: nat) -> bool {
    &&& cells.len() == nrows * ncols
    &&& rows.len() == nrows * ncols
    &&& forall|i: int, j: int|
        0 <= i < nrows && 0 <= j < ncols ==> #[trigger] cells[j * nrows + i] == rows[i * ncols + j]
}

/// `DMatrix::from_element`: an `nrows` by `ncols` matrix with every entry `v`.
#[verifier::external_body]
pub(crate) fn grid_filled(nrows: usize, ncols: usize, v: u64) -> (m: GridMatrix)
    requires
        nrows * ncols <= usize::MAX,
    ensures
        grid_shape(m) == (nrows as nat, ncols as nat),
        grid_cells(m) == Seq::new((nrows * ncols) as nat, |k: int| v),
{
    GridMatrix { m: DMatrix::from_element(nrows, ncols, v) }
}

/// `DMatrix::from_row_slice`: the `nrows` by `ncols` matrix whose rows, one
/// after the other, are `data`. It panics unless `data` has `nrows * ncols`
/// entries.
#[verifier::external_body]
pub(crate) fn grid_from_rows(nrows: usize, ncols: usize, data: &[u64]) -> (m: GridMatrix)
    requires
        data@.len() == nrows * ncols,
    ensures
        grid_shape(m) == (nrows as nat, ncols as nat),
        column_major_of_rows(grid_cells(m), data@, nrows as nat, ncols as nat),
{
    GridMatrix { m: DMatrix::from_row_slice(nrows, ncols, data) }
}

/// `DMatrix::from_column_slice`: the `nrows` by `ncols` matrix whose
/// storage, column after column, is `data`. It panics unless `data` has
/// `nrows * ncols` entries.
#[verifier::external_body]
pub(crate) fn grid_from_columns(nrows: usize, ncols: usize, data: &[u64]) -> (m: GridMatrix)
    requires
        data@.len() == nrows * ncols,
    ensures
        grid_shape(m) == (nrows as nat, ncols as nat),
        grid_cells(m) == data@,
{
    GridMatrix { m: DMatrix::from_column_slice(nrows, ncols, data) }
}

/// `IndexMut` of `DMatrix` at `(i, j)`: sets the entry of row `i`, column
/// `j`, which is stored at `j * nrows + i`. It panics out of bounds only, so
/// within bounds it does not unwind.
#[verifier::external_body]
pub(crate) fn grid_set(m: &mut GridMatrix, i: usize, j: usize, v: u64)
    requires
        i < grid_shape(*old(m)).0,
        j < grid_shape(*old(m)).1,
    ensures
        grid_shape(*final(m)) == grid_shape(*old(m)),
        grid_cells(*final(m)) == grid_cells(*old(m)).update(j * grid_shape(*old(m)).0 + i, v),
    no_unwind
{
    m.m[(i, j)] = v;
}

/// `DMatrix::as_slice`, copied: the entries in storage order, column after
/// column; there are as many as rows times columns.
#[verifier::external_body]
pub(crate) fn grid_entries(m: &GridMatrix) -> (v: Vec<u64>)
    ensures
        v@ == grid_cells(*m),
        v@.len() == grid_shape(*m).0 * grid_shape(*m).1,
{
    m.m.as_slice().to_vec()
}

/// `DMatrix::shape`: the number of rows and of columns.
#[verifier::external_body]
pub(crate) fn grid_dims(m: &GridMatrix) -> (d: (usize, usize))
    ensures
        (d.0 as nat, d.1 as nat) == grid_shape(*m),
{
    m.m.shape()
}

/// `DMatrix::from_column_slice`: the `nrows` by `ncols` matrix whose
/// storage, column after column, is `data`. It panics unless `data` has
/// `nrows * ncols` entries.
#[verifier::external_body]
pub(crate) fn trace_from_columns(nrows: usize, ncols: usize, data: &[u32]) -> (m: TraceMatrix)
    requires
        data@.len() == nrows * ncols,
    ensures
        trace_shape(m) == (nrows as nat, ncols as nat),
        trace_cells(m) == data@,
{
    TraceMatrix { m: DMatrix::from_column_slice(nrows, ncols, data) }
}

/// `DMatrix::as_slice`, copied: the entries in storage order, column after
/// column; there are as many as rows times columns.
#[verifier::external_body]
pub(crate) fn trace_entries(m: &TraceMatrix) -> (v: Vec<u32>)
    ensures
        v@ == trace_cells(*m),
        v@.len() == trace_shape(*m).0 * trace_shape(*m).1,
{
    m.m.as_slice().to_vec()
}

/// `DMatrix::shape`: the number of rows and of columns.
#[verifier::external_body]
pub(crate) fn trace_dims(m: &TraceMatrix) -> (d: (usize, usize))
    ensures
        (d.0 as nat, d.1 as nat) == trace_shape(*m),
{
    m.m.shape()
}

} // verus!
