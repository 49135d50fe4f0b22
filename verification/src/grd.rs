//! Surfer grids (GRD): a header and a matrix of `f64` nodes. The nodes, and
//! the `f64` header values, are held as their bit patterns.

use vstd::prelude::*;
use crate::bytes::{
    field, le_bytes, le_of_signed, le_value, le_words, lemma_byte_ranges, lemma_le_roundtrip,
    lemma_le_signed_roundtrip, lemma_le_words, lemma_le_words_len, push_i32, push_u64, push_words,
    push_zeros, read_i32_at, read_u64_at, signed_of, zeros,
};
use crate::decimal::{parse_i32, parsed_i32, signed_decimal, signed_text};
use crate::matrix::{
    column_major_of_rows, grid_cells, grid_dims, grid_entries, grid_filled, grid_from_columns,
    grid_from_rows, grid_set, grid_shape, usize_of, usize_of_i32, GridMatrix,
};
use crate::text::{join, join_strings, split_tokens, tokens, views};

verus! {

/// The two kinds of grid files.
pub enum GrdFileType {
    Binary,
    Ascii,
}

impl GrdFileType {
    /// The kind of a grid file whose first four characters are `mark`:
    /// text grids begin with `DSAA`, everything else is read as binary.
    pub fn of_mark(mark: &str) -> (t: GrdFileType)
        ensures
            t is Ascii <==> mark@ == "DSAA"@,
    {
        let text_mark = String::from_str("DSAA");
        let given = String::from_str(mark);
        if given == text_mark {
            GrdFileType::Ascii
        } else {
            GrdFileType::Binary
        }
    }
}

/// A grid: its header and its nodes.
pub struct Grd {
    mark: String,
    rows: i32,
    cols: i32,
    xll: u64,
    yll: u64,
    x_size: u64,
    y_size: u64,
    z_min: u64,
    z_max: u64,
    data: GridMatrix,
}

/// What a grid holds. The `f64` values are bit patterns; `cells` are the
/// nodes of the `nrows` by `ncols` matrix in storage order, column after
/// column.
pub struct GrdView {
    pub mark: Seq<char>,
    pub rows: int,
    pub cols: int,
    pub xll: u64,
    pub yll: u64,
    pub x_size: u64,
    pub y_size: u64,
    pub z_min: u64,
    pub z_max: u64,
    pub nrows: nat,
    pub ncols: nat,
    pub cells: Seq<u64>,
}

impl GrdView {
    /// Rows and columns are `i32`, the matrix has as many nodes as its
    /// shape says, and it is `rows as usize` by `cols as usize` or the other
    /// way round.
    pub open spec fn well_formed(self) -> bool {
        &&& i32::MIN <= self.rows <= i32::MAX
        &&& i32::MIN <= self.cols <= i32::MAX
        &&& self.cells.len() == self.nrows * self.ncols
        &&& ((self.nrows == usize_of(self.rows) && self.ncols == usize_of(self.cols)) || (
        self.nrows == usize_of(self.cols) && self.ncols == usize_of(self.rows)))
    }
}

impl View for Grd {
    type V = GrdView;

    closed spec fn view(&self) -> GrdView {
        GrdView {
            mark: self.mark@,
            rows: self.rows as int,
            cols: self.cols as int,
            xll: self.xll,
            yll: self.yll,
            x_size: self.x_size,
            y_size: self.y_size,
            z_min: self.z_min,
            z_max: self.z_max,
            nrows: grid_shape(self.data).0,
            ncols: grid_shape(self.data).1,
            cells: grid_cells(self.data),
        }
    }
}

/// The `i32` in the four bytes of `b` from `pos` on.
pub open spec fn header_int(b: Seq<u8>, pos: int) -> int {
    signed_of(le_value(field(b, pos, 4)), 4)
}

/// The `u64` in the eight bytes of `b` from `pos` on.
pub open spec fn word_at(b: Seq<u8>, pos: int) -> u64 {
    le_value(field(b, pos, 8)) as u64
}

/// The number of nodes the binary grid `b` announces: rows times columns.
pub open spec fn node_count(b: Seq<u8>) -> int {
    header_int(b, 20) * header_int(b, 24)
}

/// Whether a binary grid can be read from `b`: its header is there, and
/// either the rows or the columns are zero, or the grid is square with a
/// positive side and all its nodes are there.
pub open spec fn binary_readable(b: Seq<u8>) -> bool {
    &&& b.len() >= 76
    &&& (node_count(b) == 0 || (header_int(b, 20) == header_int(b, 24) && header_int(b, 20) > 0
        && b.len() >= 100 + 8 * node_count(b)))
}

/// The grid read from the binary grid `b`: rows at byte 20, columns at 24,
/// the six `f64` values from 28 on, and the nodes from byte 100 on, row
/// after row, into a matrix of `cols as usize` rows and `rows as usize`
/// columns, so that the node read for `(i, j)` is stored at `j * cols + i`.
pub open spec fn binary_reading(mark: Seq<char>, b: Seq<u8>) -> GrdView {
    let rows = header_int(b, 20);
    let cols = header_int(b, 24);
    GrdView {
        mark,
        rows,
        cols,
        xll: word_at(b, 28),
        yll: word_at(b, 36),
        x_size: word_at(b, 44),
        y_size: word_at(b, 52),
        z_min: word_at(b, 60),
        z_max: word_at(b, 68),
        nrows: usize_of(cols),
        ncols: usize_of(rows),
        cells: Seq::new(
            node_count(b) as nat,
            |k: int| word_at(b, 100 + 8 * ((k % cols) * cols + k / cols)),
        ),
    }
}

/// The binary image of a grid: the mark `DSRB`, 16 zero bytes, rows and
/// columns, the six `f64` values, 24 zero bytes, then the nodes in storage
/// order, all little-endian.
pub open spec fn binary_image(g: GrdView) -> Seq<u8> {
    seq![68u8, 83u8, 82u8, 66u8] + zeros(16) + le_of_signed(g.rows, 4) + le_of_signed(g.cols, 4)
        + le_bytes(g.xll as nat, 8) + le_bytes(g.yll as nat, 8) + le_bytes(g.x_size as nat, 8)
        + le_bytes(g.y_size as nat, 8) + le_bytes(g.z_min as nat, 8) + le_bytes(g.z_max as nat, 8)
        + zeros(24) + le_words(g.cells)
}

/// The fixed first hundred bytes of the binary image of `g`.
pub open spec fn binary_header(g: GrdView) -> Seq<u8> {
    seq![68u8, 83u8, 82u8, 66u8] + zeros(16) + le_of_signed(g.rows, 4) + le_of_signed(g.cols, 4)
        + le_bytes(g.xll as nat, 8) + le_bytes(g.yll as nat, 8) + le_bytes(g.x_size as nat, 8)
        + le_bytes(g.y_size as nat, 8) + le_bytes(g.z_min as nat, 8) + le_bytes(g.z_max as nat, 8)
        + zeros(24)
}

/// A grid written as a binary grid reads back with the same header, and
/// with its matrix transposed: the node of row `i`, column `j` read back is
/// the node of row `j`, column `i` written. This holds of every grid that
/// has zero rows or zero columns, or is square with a positive side; a grid
/// of 2 rows and 3 columns is written but cannot be read back.
pub proof fn lemma_binary_roundtrip(g: GrdView, mark: Seq<char>)
    requires
        g.well_formed(),
        g.rows * g.cols == 0 || (g.rows == g.cols && g.rows > 0),
    ensures
        binary_readable(binary_image(g)),
        ({
            let r = binary_reading(mark, binary_image(g));
            &&& r.mark == mark
            &&& r.rows == g.rows
            &&& r.cols == g.cols
            &&& r.xll == g.xll
            &&& r.yll == g.yll
            &&& r.x_size == g.x_size
            &&& r.y_size == g.y_size
            &&& r.z_min == g.z_min
            &&& r.z_max == g.z_max
            &&& r.nrows == usize_of(g.cols)
            &&& r.ncols == usize_of(g.rows)
            &&& r.cells.len() == g.cells.len()
            &&& forall|i: int, j: int|
                0 <= i < g.rows && 0 <= j < g.cols ==> #[trigger] r.cells[j * g.cols + i]
                    == g.cells[i * g.cols + j]
        }),
{
    let b = binary_image(g);
    let h = binary_header(g);
    lemma_byte_ranges();
    lemma_le_signed_roundtrip(g.rows, 4);
    lemma_le_signed_roundtrip(g.cols, 4);
    lemma_le_roundtrip(g.xll as nat, 8);
    lemma_le_roundtrip(g.yll as nat, 8);
    lemma_le_roundtrip(g.x_size as nat, 8);
    lemma_le_roundtrip(g.y_size as nat, 8);
    lemma_le_roundtrip(g.z_min as nat, 8);
    lemma_le_roundtrip(g.z_max as nat, 8);
    lemma_le_words_len(g.cells);
    assert(h.len() == 100);
    assert(b =~= h + le_words(g.cells));
    assert(field(b, 20, 4) =~= le_of_signed(g.rows, 4));
    assert(field(b, 24, 4) =~= le_of_signed(g.cols, 4));
    assert(field(b, 28, 8) =~= le_bytes(g.xll as nat, 8));
    assert(field(b, 36, 8) =~= le_bytes(g.yll as nat, 8));
    assert(field(b, 44, 8) =~= le_bytes(g.x_size as nat, 8));
    assert(field(b, 52, 8) =~= le_bytes(g.y_size as nat, 8));
    assert(field(b, 60, 8) =~= le_bytes(g.z_min as nat, 8));
    assert(field(b, 68, 8) =~= le_bytes(g.z_max as nat, 8));
    assert(header_int(b, 20) == g.rows);
    assert(header_int(b, 24) == g.cols);
    let r = binary_reading(mark, b);
    assert(g.rows == 0 || g.cols == 0 || (g.rows == g.cols && g.rows > 0)) by (nonlinear_arith)
        requires
            g.rows * g.cols == 0 || (g.rows == g.cols && g.rows > 0),
    ;
    if g.rows == 0 || g.cols == 0 {
        assert(g.rows * g.cols == 0) by (nonlinear_arith)
            requires
                g.rows == 0 || g.cols == 0,
        ;
        assert(g.nrows == 0 || g.ncols == 0);
        assert(g.nrows * g.ncols == 0) by (nonlinear_arith)
            requires
                g.nrows == 0 || g.ncols == 0,
        ;
    } else {
        assert(g.nrows == g.rows && g.ncols == g.cols);
    }
    assert(g.cells.len() == g.rows * g.cols);
    assert forall|i: int, j: int|
        0 <= i < g.rows && 0 <= j < g.cols implies #[trigger] r.cells[j * g.cols + i]
            == g.cells[i * g.cols + j] by {
        let c = g.cols;
        assert(g.rows == c);
        lemma_cell_index(i, j, c);
        assert(0 <= j * c + i < c * c && 0 <= i * c + j < c * c) by (nonlinear_arith)
            requires
                0 <= i < c,
                0 <= j < c,
        ;
        lemma_le_words(g.cells, i * c + j);
        assert(field(b, 100 + 8 * (i * c + j), 8) =~= field(le_words(g.cells), 8 * (i * c + j), 8));
    }
}

/// The first two tokens of `line`, where it has two.
pub open spec fn first_pair(line: Seq<char>) -> Option<(Seq<char>, Seq<char>)> {
    if tokens(line).len() >= 2 {
        Some((tokens(line)[0], tokens(line)[1]))
    } else {
        None
    }
}

/// The two `i32` that begin `line`, where its first two tokens read as `i32`.
pub open spec fn first_int_pair(line: Seq<char>) -> Option<(i32, i32)> {
    match first_pair(line) {
        Some((a, b)) => match (parsed_i32(a), parsed_i32(b)) {
            (Some(x), Some(y)) => Some((x, y)),
            _ => None,
        },
        None => None,
    }
}

/// The node tokens of the data lines of a text grid: the lines joined with
/// single spaces, split at white space, last token first (the file lists the
/// grid from the top row down).
pub open spec fn node_tokens(lines: Seq<Seq<char>>) -> Seq<Seq<char>> {
    tokens(join(lines, " "@)).reverse()
}

/// The first two tokens of `line`, split at white space; `None` where it has
/// fewer than two.
pub fn process_split(line: &str) -> (r: Option<(String, String)>)
    ensures
        r is Some <==> first_pair(line@) is Some,
        r matches Some(p) ==> first_pair(line@) == Some((p.0@, p.1@)),
{
    let mut parts = split_tokens(line);
    if parts.len() < 2 {
        return None;
    }
    let ghost v = views(parts@);
    assert(v[0] == parts@[0]@ && v[1] == parts@[1]@);
    let second = parts.remove(1);
    let first = parts.remove(0);
    Some((first, second))
}

/// The two `i32` that begin `line`, as the header line of columns and rows
/// of a text grid gives them; `None` where `line` has fewer than two tokens
/// or one of them does not read as an `i32`.
pub fn parse_dims(line: &str) -> (r: Option<(i32, i32)>)
    ensures
        r == first_int_pair(line@),
{
    match process_split(line) {
        Some((a, b)) => match (parse_i32(a.as_str()), parse_i32(b.as_str())) {
            (Some(x), Some(y)) => Some((x, y)),
            _ => None,
        },
        None => None,
    }
}

/// The node tokens of the data lines `lines` of a text grid, last first.
pub fn data_tokens(lines: &Vec<String>) -> (v: Vec<String>)
    ensures
        views(v@) == node_tokens(views(lines@)),
{
    let joined = join_strings(lines, " ");
    let toks = split_tokens(joined.as_str());
    let ghost t = views(toks@);
    let mut out: Vec<String> = Vec::new();
    let mut i: usize = toks.len();
    while i > 0
        invariant
            i <= toks@.len(),
            t == views(toks@),
            views(out@).len() == t.len() - i,
            forall|k: int| 0 <= k < t.len() - i ==> #[trigger] views(out@)[k] == t[t.len() - 1 - k],
        decreases i,
    {
        i = i - 1;
        let ghost before = views(out@);
        out.push(toks[i].clone());
        assert(views(out@) =~= before.push(t[i as int]));
    }
    assert(views(out@) =~= t.reverse());
    out
}

/// The lines of a text grid, split into its parts: the mark line, the
/// columns and rows, the X, Y and node ranges as text, and the node tokens,
/// last first.
pub struct AsciiLayout {
    pub mark: String,
    pub cols: i32,
    pub rows: i32,
    pub x_range: (String, String),
    pub y_range: (String, String),
    pub z_range: (String, String),
    pub nodes: Vec<String>,
}

/// Whether `lines` has the layout of a text grid: a mark line, a line of
/// columns and rows that read as `i32`, and three lines of at least two
/// tokens each; the node lines follow.
pub open spec fn ascii_layout_ok(lines: Seq<Seq<char>>) -> bool {
    &&& lines.len() >= 5
    &&& first_int_pair(lines[1]) is Some
    &&& first_pair(lines[2]) is Some
    &&& first_pair(lines[3]) is Some
    &&& first_pair(lines[4]) is Some
}

/// Splits the lines of a text grid into its parts: line 0 is the mark,
/// line 1 the columns and rows, lines 2 to 4 the X, Y and node ranges, and
/// the node tokens of the lines after them, last first. `None` where the
/// lines do not have that layout.
pub fn ascii_layout(lines: &Vec<String>) -> (r: Option<AsciiLayout>)
    ensures
        r is Some <==> ascii_layout_ok(views(lines@)),
        r matches Some(l) ==> {
            &&& l.mark@ == lines@[0]@
            &&& first_int_pair(lines@[1]@) == Some((l.cols, l.rows))
            &&& first_pair(lines@[2]@) == Some((l.x_range.0@, l.x_range.1@))
            &&& first_pair(lines@[3]@) == Some((l.y_range.0@, l.y_range.1@))
            &&& first_pair(lines@[4]@) == Some((l.z_range.0@, l.z_range.1@))
            &&& views(l.nodes@) == node_tokens(views(lines@).skip(5))
        },
{
    if lines.len() < 5 {
        return None;
    }
    let ghost v = views(lines@);
    assert(v[1] == lines@[1]@ && v[2] == lines@[2]@ && v[3] == lines@[3]@ && v[4] == lines@[4]@);
    let (cols, rows) = match parse_dims(lines[1].as_str()) {
        Some(d) => d,
        None => return None,
    };
    let x_range = match process_split(lines[2].as_str()) {
        Some(p) => p,
        None => return None,
    };
    let y_range = match process_split(lines[3].as_str()) {
        Some(p) => p,
        None => return None,
    };
    let z_range = match process_split(lines[4].as_str()) {
        Some(p) => p,
        None => return None,
    };
    let mut rest: Vec<String> = Vec::new();
    let mut i: usize = 5;
    while i < lines.len()
        invariant
            5 <= i <= lines@.len(),
            v == views(lines@),
            views(rest@) == v.subrange(5, i as int),
        decreases lines@.len() - i,
    {
        let ghost before = views(rest@);
        let line = lines[i].clone();
        assert(v[i as int] == line@);
        rest.push(line);
        assert(views(rest@) =~= before.push(line@));
        i = i + 1;
        assert(views(rest@) =~= v.subrange(5, i as int));
    }
    assert(v.subrange(5, v.len() as int) =~= v.skip(5));
    let nodes = data_tokens(&rest);
    Some(AsciiLayout { mark: lines[0].clone(), cols, rows, x_range, y_range, z_range, nodes })
}

/// Index `j * n + i` with `i < n` determines `i` and `j`.
proof fn lemma_cell_index(i: int, j: int, n: int)
    requires
        0 <= i < n,
        0 <= j,
    ensures
        (j * n + i) % n == i,
        (j * n + i) / n == j,
{
    assert((j * n + i) % n == i && (j * n + i) / n == j) by (nonlinear_arith)
        requires
            0 <= i < n,
            0 <= j,
    ;
}

/// Distinct positions `(i, j)` of an `n`-row matrix are stored apart.
proof fn lemma_cell_index_distinct(i: int, j: int, i2: int, j2: int, n: int)
    requires
        0 <= i < n,
        0 <= i2 < n,
        0 <= j,
        0 <= j2,
        i != i2 || j != j2,
    ensures
        j * n + i != j2 * n + i2,
{
    lemma_cell_index(i, j, n);
    lemma_cell_index(i2, j2, n);
}

impl Grd {
    /// Every grid is well formed.
    #[verifier::type_invariant]
    spec fn well_formed_grid(self) -> bool {
        self@.well_formed()
    }

    /// The mark read at the head of the file.
    pub fn mark(&self) -> (m: &str)
        ensures
            m@ == self@.mark,
    {
        self.mark.as_str()
    }

    /// A grid from all it holds: the header, and the nodes of an `nrows` by
    /// `ncols` matrix in storage order. `None` unless the counts are not
    /// negative, `cells` has `nrows * ncols` nodes, and the matrix is
    /// `rows` by `cols` or `cols` by `rows`.
    pub fn from_parts(
        mark: String,
        rows: i32,
        cols: i32,
        xll: u64,
        yll: u64,
        x_size: u64,
        y_size: u64,
        z_min: u64,
        z_max: u64,
        nrows: usize,
        ncols: usize,
        cells: &[u64],
    ) -> (r: Option<Grd>)
        ensures
            r is Some <==> (GrdView {
                mark: mark@,
                rows: rows as int,
                cols: cols as int,
                xll,
                yll,
                x_size,
                y_size,
                z_min,
                z_max,
                nrows: nrows as nat,
                ncols: ncols as nat,
                cells: cells@,
            }).well_formed(),
            r matches Some(g) ==> g@ == (GrdView {
                mark: mark@,
                rows: rows as int,
                cols: cols as int,
                xll,
                yll,
                x_size,
                y_size,
                z_min,
                z_max,
                nrows: nrows as nat,
                ncols: ncols as nat,
                cells: cells@,
            }),
    {
        let r = usize_of_i32(rows);
        let c = usize_of_i32(cols);
        let shaped = (nrows == r && ncols == c) || (nrows == c && ncols == r);
        if !shaped {
            return None;
        }
        proof {
            assert(nrows * ncols <= 0xffff_ffff_ffff_ffff * 0xffff_ffff_ffff_ffff) by (nonlinear_arith)
                requires
                    nrows <= 0xffff_ffff_ffff_ffff,
                    ncols <= 0xffff_ffff_ffff_ffff,
            ;
        }
        if cells.len() as u128 != (nrows as u128) * (ncols as u128) {
            return None;
        }
        let data = grid_from_columns(nrows, ncols, cells);
        Some(Grd { mark, rows, cols, xll, yll, x_size, y_size, z_min, z_max, data })
    }

    /// The number of rows in the header.
    pub fn rows(&self) -> (r: i32)
        ensures
            r as int == self@.rows,
    {
        self.rows
    }

    /// The number of columns in the header.
    pub fn cols(&self) -> (c: i32)
        ensures
            c as int == self@.cols,
    {
        self.cols
    }

    /// The bit pattern of the X coordinate of the lower left corner.
    pub fn xll(&self) -> (v: u64)
        ensures
            v == self@.xll,
    {
        self.xll
    }

    /// The bit pattern of the Y coordinate of the lower left corner.
    pub fn yll(&self) -> (v: u64)
        ensures
            v == self@.yll,
    {
        self.yll
    }

    /// The bit pattern of the spacing between columns.
    pub fn x_size(&self) -> (v: u64)
        ensures
            v == self@.x_size,
    {
        self.x_size
    }

    /// The bit pattern of the spacing between rows.
    pub fn y_size(&self) -> (v: u64)
        ensures
            v == self@.y_size,
    {
        self.y_size
    }

    /// The bit pattern of the least node value.
    pub fn z_min(&self) -> (v: u64)
        ensures
            v == self@.z_min,
    {
        self.z_min
    }

    /// The bit pattern of the greatest node value.
    pub fn z_max(&self) -> (v: u64)
        ensures
            v == self@.z_max,
    {
        self.z_max
    }

    /// The number of rows and of columns of the node matrix.
    pub fn shape(&self) -> (s: (usize, usize))
        ensures
            s.0 as nat == self@.nrows,
            s.1 as nat == self@.ncols,
            self@.well_formed(),
    {
        proof {
            use_type_invariant(self);
        }
        grid_dims(&self.data)
    }

    /// The nodes in storage order, column after column.
    pub fn cells(&self) -> (v: Vec<u64>)
        ensures
            v@ == self@.cells,
            self@.well_formed(),
    {
        proof {
            use_type_invariant(self);
        }
        grid_entries(&self.data)
    }

    /// Sets the node of matrix row `row`, column `col` to `bits`.
    pub fn set_cell(&mut self, row: usize, col: usize, bits: u64)
        requires
            row < old(self)@.nrows,
            col < old(self)@.ncols,
        ensures
            final(self)@ == (GrdView {
                cells: old(self)@.cells.update(col * old(self)@.nrows + row, bits),
                ..old(self)@
            }),
    {
        proof {
            use_type_invariant(&*self);
            let nr = self@.nrows as int;
            let nc = self@.ncols as int;
            assert(0 <= col * nr + row < nr * nc) by (nonlinear_arith)
                requires
                    0 <= row < nr,
                    0 <= col < nc,
            ;
        }
        grid_set(&mut self.data, row, col, bits);
    }

    /// A grid from the values of a text grid: `rows` by `cols` nodes given
    /// row after row in `data`, and the bit patterns of the six header
    /// values. The matrix is `rows as usize` by `cols as usize`; `None`
    /// where `data` does not hold that many nodes.
    pub fn from_ascii_values(
        mark: String,
        rows: i32,
        cols: i32,
        xll: u64,
        yll: u64,
        x_size: u64,
        y_size: u64,
        z_min: u64,
        z_max: u64,
        data: &[u64],
    ) -> (r: Option<Grd>)
        ensures
            r is Some <==> data@.len() == usize_of(rows as int) * usize_of(cols as int),
            r matches Some(g) ==> {
                &&& g@.well_formed()
                &&& g@.mark == mark@
                &&& g@.rows == rows && g@.cols == cols
                &&& g@.xll == xll && g@.yll == yll
                &&& g@.x_size == x_size && g@.y_size == y_size
                &&& g@.z_min == z_min && g@.z_max == z_max
                &&& g@.nrows == usize_of(rows as int) && g@.ncols == usize_of(cols as int)
                &&& column_major_of_rows(
                    g@.cells,
                    data@,
                    usize_of(rows as int),
                    usize_of(cols as int),
                )
            },
    {
        let n_rows = usize_of_i32(rows);
        let n_cols = usize_of_i32(cols);
        proof {
            assert(n_rows * n_cols <= 0xffff_ffff_ffff_ffff * 0xffff_ffff_ffff_ffff) by (nonlinear_arith)
                requires
                    n_rows <= 0xffff_ffff_ffff_ffff,
                    n_cols <= 0xffff_ffff_ffff_ffff,
            ;
        }
        if data.len() as u128 != (n_rows as u128) * (n_cols as u128) {
            return None;
        }
        let m = grid_from_rows(n_rows, n_cols, data);
        Some(Grd { mark, rows, cols, xll, yll, x_size, y_size, z_min, z_max, data: m })
    }

    /// The text of the grid as a text grid file: the mark `DSAA`, a line of
    /// columns and rows, the lines of the X range, the Y range and the node
    /// range, then the nodes on one line, each line ended by a newline. The
    /// `f64` values are given as their decimal text: the X and Y ranges are
    /// computed from the header, and `values` are the nodes in storage
    /// order.
    pub fn ascii_text(
        &self,
        xll: &str,
        x_end: &str,
        yll: &str,
        y_end: &str,
        z_min: &str,
        z_max: &str,
        values: &Vec<String>,
    ) -> (s: String)
        ensures
            s@ == "DSAA\n"@ + signed_decimal(self@.cols) + " "@ + signed_decimal(self@.rows)
                + "\n"@ + xll@ + " "@ + x_end@ + "\n"@ + yll@ + " "@ + y_end@ + "\n"@ + z_min@
                + " "@ + z_max@ + "\n"@ + join(views(values@), " "@) + "\n"@,
    {
        let mut s = String::from_str("DSAA\n");
        s.append(signed_text(self.cols as i64).as_str());
        s.append(" ");
        s.append(signed_text(self.rows as i64).as_str());
        s.append("\n");
        s.append(xll);
        s.append(" ");
        s.append(x_end);
        s.append("\n");
        s.append(yll);
        s.append(" ");
        s.append(y_end);
        s.append("\n");
        s.append(z_min);
        s.append(" ");
        s.append(z_max);
        s.append("\n");
        s.append(join_strings(values, " ").as_str());
        s.append("\n");
        s
    }

    /// The grid as a binary grid file, as the binary writer lays it out.
    pub fn to_binary_bytes(&self) -> (b: Vec<u8>)
        ensures
            b@ == binary_image(self@),
            self@.well_formed(),
    {
        proof {
            use_type_invariant(self);
        }
        let mut out: Vec<u8> = Vec::new();
        out.push(68u8);
        out.push(83u8);
        out.push(82u8);
        out.push(66u8);
        push_zeros(&mut out, 16);
        push_i32(&mut out, self.rows);
        push_i32(&mut out, self.cols);
        push_u64(&mut out, self.xll);
        push_u64(&mut out, self.yll);
        push_u64(&mut out, self.x_size);
        push_u64(&mut out, self.y_size);
        push_u64(&mut out, self.z_min);
        push_u64(&mut out, self.z_max);
        push_zeros(&mut out, 24);
        let cells = grid_entries(&self.data);
        push_words(&mut out, &cells);
        assert(out@ =~= binary_image(self@));
        out
    }

    /// Sets the node of matrix row `row`, column `col` to `bits` where that
    /// node exists; says whether it did. Out of bounds the grid is left as
    /// it was.
    pub fn set_cell_checked(&mut self, row: usize, col: usize, bits: u64) -> (done: bool)
        ensures
            done <==> (row < old(self)@.nrows && col < old(self)@.ncols),
            done ==> final(self)@ == (GrdView {
                cells: old(self)@.cells.update(col * old(self)@.nrows + row, bits),
                ..old(self)@
            }),
            !done ==> final(self)@ == old(self)@,
    {
        let (nrows, ncols) = self.shape();
        if row < nrows && col < ncols {
            self.set_cell(row, col, bits);
            true
        } else {
            false
        }
    }

    /// Reads a binary grid from the whole file `bytes`, whose first four
    /// bytes were read as `mark`. `None` where the file is too short, the
    /// rows or columns are negative, or the grid has nodes and is not square.
    pub fn from_binary_bytes(mark: String, bytes: &[u8]) -> (r: Option<Grd>)
        ensures
            r is Some <==> binary_readable(bytes@),
            r matches Some(g) ==> g@ == binary_reading(mark@, bytes@) && g@.well_formed(),
    {
        if bytes.len() < 76 {
            return None;
        }
        let rows = read_i32_at(bytes, 20);
        let cols = read_i32_at(bytes, 24);
        let empty = rows == 0 || cols == 0;
        proof {
            if empty {
                assert(rows * cols == 0) by (nonlinear_arith)
                    requires
                        rows == 0 || cols == 0,
                ;
            } else {
                assert(rows * cols != 0) by (nonlinear_arith)
                    requires
                        rows != 0,
                        cols != 0,
                ;
            }
        }
        if !empty && (rows != cols || rows < 0) {
            return None;
        }
        let xll = read_u64_at(bytes, 28);
        let yll = read_u64_at(bytes, 36);
        let x_size = read_u64_at(bytes, 44);
        let y_size = read_u64_at(bytes, 52);
        let z_min = read_u64_at(bytes, 60);
        let z_max = read_u64_at(bytes, 68);
        if empty {
            let n_rows = usize_of_i32(rows);
            let n_cols = usize_of_i32(cols);
            proof {
                assert(n_cols * n_rows == 0) by (nonlinear_arith)
                    requires
                        n_rows == 0 || n_cols == 0,
                ;
            }
            let data = grid_filled(n_cols, n_rows, 0);
            let g = Grd { mark, rows, cols, xll, yll, x_size, y_size, z_min, z_max, data };
            assert(g@.cells =~= binary_reading(mark@, bytes@).cells);
            return Some(g);
        }
        proof {
            assert(0 <= rows * cols <= 0x7fff_ffff * 0x7fff_ffff) by (nonlinear_arith)
                requires
                    0 <= rows <= 0x7fff_ffff,
                    0 <= cols <= 0x7fff_ffff,
            ;
        }
        let count: u64 = (rows as u64) * (cols as u64);
        assert(count == node_count(bytes@));
        if (bytes.len() as u128) < 100 + 8 * (count as u128) {
            return None;
        }
        let n_rows = rows as usize;
        let n_cols = cols as usize;
        let mut data = grid_filled(n_cols, n_rows, 0);
        let ghost b = bytes@;
        let mut i: usize = 0;
        while i < n_rows
            invariant
                b == bytes@,
                b.len() == bytes.len(),
                n_rows == rows,
                n_cols == cols,
                n_rows > 0,
                count == rows * cols,
                rows == cols,
                b.len() >= 100 + 8 * count,
                i <= n_rows,
                grid_shape(data) == (n_cols as nat, n_rows as nat),
                grid_cells(data).len() == count,
                forall|i2: int, j2: int|
                    0 <= i2 < i && 0 <= j2 < n_cols ==> #[trigger] grid_cells(data)[j2 * n_cols
                        + i2] == word_at(b, 100 + 8 * (i2 * n_cols + j2)),
            decreases n_rows - i,
        {
            let mut j: usize = 0;
            while j < n_cols
                invariant
                    b == bytes@,
                    b.len() == bytes.len(),
                    n_rows == rows,
                    n_cols == cols,
                    count == rows * cols,
                    rows == cols,
                    b.len() >= 100 + 8 * count,
                    i < n_rows,
                    j <= n_cols,
                    grid_shape(data) == (n_cols as nat, n_rows as nat),
                    grid_cells(data).len() == count,
                    forall|i2: int, j2: int|
                        ((0 <= i2 < i && 0 <= j2 < n_cols) || (i2 == i && 0 <= j2 < j))
                            ==> #[trigger] grid_cells(data)[j2 * n_cols + i2] == word_at(
                            b,
                            100 + 8 * (i2 * n_cols + j2),
                        ),
                decreases n_cols - j,
            {
                proof {
                    assert(i * n_cols + j < count) by (nonlinear_arith)
                        requires
                            i < n_rows,
                            j < n_cols,
                            count == n_rows * n_cols,
                    ;
                    assert(j * n_cols + i < count) by (nonlinear_arith)
                        requires
                            i < n_rows,
                            j < n_cols,
                            n_rows == n_cols,
                            count == n_rows * n_cols,
                    ;
                }
                let pos: usize = 100 + 8 * (i * n_cols + j);
                let v = read_u64_at(bytes, pos);
                let ghost before = grid_cells(data);
                grid_set(&mut data, i, j, v);
                proof {
                    assert forall|i2: int, j2: int|
                        ((0 <= i2 < i && 0 <= j2 < n_cols) || (i2 == i && 0 <= j2 < j + 1))
                            implies #[trigger] grid_cells(data)[j2 * n_cols + i2] == word_at(
                            b,
                            100 + 8 * (i2 * n_cols + j2),
                        ) by {
                        if i2 != i || j2 != j {
                            lemma_cell_index_distinct(i2, j2, i as int, j as int, n_cols as int);
                            assert(0 <= j2 * n_cols + i2 < count) by (nonlinear_arith)
                                requires
                                    0 <= i2 < n_cols,
                                    0 <= j2 < n_cols,
                                    count == n_cols * n_cols,
                            ;
                        }
                    }
                }
                j = j + 1;
            }
            i = i + 1;
        }
        let g = Grd { mark, rows, cols, xll, yll, x_size, y_size, z_min, z_max, data };
        proof {
            let want = binary_reading(mark@, b);
            assert(want.cells.len() == count);
            assert forall|k: int| 0 <= k < count implies #[trigger] grid_cells(data)[k]
                == want.cells[k] by {
                let n = n_cols as int;
                assert(k == (k / n) * n + k % n && 0 <= k % n < n && 0 <= k / n < n)
                    by (nonlinear_arith)
                    requires
                        0 <= k < count,
                        count == n * n,
                        n > 0,
                ;
                assert(grid_cells(data)[(k / n) * n + k % n] == word_at(b, 100 + 8 * ((k % n) * n + k / n)));
            }
            assert(g@.cells =~= want.cells);
        }
        Some(g)
    }
}

} // verus!
